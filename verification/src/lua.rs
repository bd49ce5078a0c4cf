//! The Lua parser, as the bundler uses it: the types of `full_moon` that pass
//! through the bundler's hands, and the calls that read from them and build
//! them. Nothing here is proved; the contracts say what is taken on trust.
//!
//! A node of the tree is opaque, so what it holds has a name: `token_piece`
//! for a token, `leading_pieces`, `inner_piece` and `trailing_pieces` for the
//! three parts of a token with its surroundings, `call_name`,
//! `call_argument`, `closing_space` and `call_print` for a call, and one name
//! each for what a type annotation, a type assertion, a type declaration and
//! a whole tree print.

use vstd::prelude::*;
use full_moon::ast::punctuated::{Pair, Punctuated};
use full_moon::ast::span::ContainedSpan;
use full_moon::ast::types::{TypeAssertion, TypeDeclaration, TypeInfo, TypeSpecifier};
use full_moon::ast::{Ast, Call, Expression, FunctionArgs, FunctionCall, Prefix, Suffix, Var};
use full_moon::node::Node;
use full_moon::tokenizer::{
    InterpolatedStringKind, StringLiteralQuoteType, Token, TokenReference, TokenType,
};
use crate::rewrite::RequireArgument;

verus! {

/// `full_moon::ast::Ast`, carried through unopened.
#[verifier::external_type_specification]
#[verifier::external_body]
pub struct ExAst(full_moon::ast::Ast);

/// `full_moon::Error`, carried through unopened.
#[verifier::external_type_specification]
#[verifier::external_body]
pub struct ExParseError(full_moon::Error);

/// `full_moon::tokenizer::Token`, carried through unopened.
#[verifier::external_type_specification]
#[verifier::external_body]
pub struct ExToken(full_moon::tokenizer::Token);

/// `full_moon::tokenizer::TokenReference`, carried through unopened.
#[verifier::external_type_specification]
#[verifier::external_body]
pub struct ExTokenReference(full_moon::tokenizer::TokenReference);

/// `full_moon::ast::Expression`, carried through unopened.
#[verifier::external_type_specification]
#[verifier::external_body]
pub struct ExExpression(full_moon::ast::Expression);

/// `full_moon::ast::FunctionCall`, carried through unopened.
#[verifier::external_type_specification]
#[verifier::external_body]
pub struct ExFunctionCall(full_moon::ast::FunctionCall);

/// `full_moon::ast::types::TypeSpecifier`, carried through unopened.
#[verifier::external_type_specification]
#[verifier::external_body]
pub struct ExTypeSpecifier(full_moon::ast::types::TypeSpecifier);

/// `full_moon::ast::types::TypeAssertion`, carried through unopened.
#[verifier::external_type_specification]
#[verifier::external_body]
pub struct ExTypeAssertion(full_moon::ast::types::TypeAssertion);

/// `full_moon::ast::types::TypeDeclaration`, carried through unopened.
#[verifier::external_type_specification]
#[verifier::external_body]
pub struct ExTypeDeclaration(full_moon::ast::types::TypeDeclaration);

/// What a token holds, as far as the bundler looks at it.
pub struct Piece {
    /// Its characters, where the token is whitespace.
    pub space: Option<Seq<char>>,
    /// What the token prints.
    pub text: Seq<char>,
}

/// The piece of a whitespace token that holds `characters`: it prints them.
pub open spec fn space_piece(characters: Seq<char>) -> Piece {
    Piece { space: Some(characters), text: characters }
}

/// What a token holds.
pub uninterp spec fn token_piece(token: Token) -> Piece;

/// What the tokens before the token proper of a reference hold, in order.
pub uninterp spec fn leading_pieces(reference: TokenReference) -> Seq<Piece>;

/// What the token proper of a reference holds.
pub uninterp spec fn inner_piece(reference: TokenReference) -> Piece;

/// What the tokens after the token proper of a reference hold, in order.
pub uninterp spec fn trailing_pieces(reference: TokenReference) -> Seq<Piece>;

/// What a type annotation prints.
pub uninterp spec fn specifier_print(node: TypeSpecifier) -> Seq<char>;

/// What a type assertion prints.
pub uninterp spec fn assertion_print(node: TypeAssertion) -> Seq<char>;

/// What a type declaration prints.
pub uninterp spec fn declaration_print(node: TypeDeclaration) -> Seq<char>;

/// What the tokens hold, one for one.
pub open spec fn pieces(tokens: Seq<Token>) -> Seq<Piece> {
    tokens.map_values(|token: Token| token_piece(token))
}

/// What the pieces print, one after the other.
pub open spec fn pieces_text(pieces: Seq<Piece>) -> Seq<char>
    decreases pieces.len(),
{
    if pieces.len() == 0 {
        Seq::<char>::empty()
    } else {
        pieces_text(pieces.drop_last()) + pieces.last().text
    }
}

/// What a reference prints: the tokens before, the token proper, the tokens
/// after.
pub open spec fn reference_text(reference: TokenReference) -> Seq<char> {
    pieces_text(leading_pieces(reference)) + inner_piece(reference).text + pieces_text(
        trailing_pieces(reference),
    )
}

/// The name that a call calls, where its prefix is a plain identifier.
pub uninterp spec fn call_name(call: FunctionCall) -> Option<String>;

/// The first argument of a call, as far as the rewriter looks at it.
pub uninterp spec fn call_argument(call: FunctionCall) -> RequireArgument;

/// The shape of an expression: a string literal, a chain, or neither.
pub uninterp spec fn expression_shape(expression: Expression) -> RequireArgument;

/// The characters of the last token that trails the closing parenthesis of a
/// call's first suffix, where that token is whitespace.
pub uninterp spec fn closing_space(call: FunctionCall) -> Option<String>;

/// What a call prints.
pub uninterp spec fn call_print(call: FunctionCall) -> Seq<char>;

/// The tree of a source that the parser accepts.
pub uninterp spec fn parsed_tree(code: Seq<char>) -> Ast;

/// What a tree prints.
pub uninterp spec fn tree_print(ast: Ast) -> Seq<char>;

/// The part of a backquoted string that a token is.
#[derive(Clone, Copy, Debug, PartialEq, Eq, Structural)]
pub enum Section {
    /// From the backquote to an opening brace.
    Begin,
    /// From a closing brace to an opening brace.
    Middle,
    /// From a closing brace to the backquote.
    End,
    /// From backquote to backquote.
    Simple,
}

/// For each token of a source, the part of a backquoted string that it is,
/// if it is one; none where the source cannot be cut into tokens.
pub uninterp spec fn token_sections(code: Seq<char>) -> Option<Seq<Option<Section>>>;

/// Whether a backquoted string is written around braces there.
pub open spec fn has_formatted(sections: Seq<Option<Section>>) -> bool {
    exists|i: int|
        0 <= i < sections.len() && (#[trigger] sections[i] == Some(Section::Middle) || sections[i]
            == Some(Section::End))
}

/// Whether a source can be handed to the parser: it holds no backquoted
/// string that is written around braces. On some of those the parser gives
/// up without an answer.
pub open spec fn parse_is_safe(code: Seq<char>) -> bool {
    match token_sections(code) {
        Some(sections) => !has_formatted(sections),
        None => true,
    }
}

/// Whether a text is Lua that the parser accepts.
pub uninterp spec fn lua_parses(code: Seq<char>) -> bool;

/// Whether a source is one that the bundler takes: one that can be handed to
/// the parser, and that the parser accepts.
pub open spec fn lua_accepted(code: Seq<char>) -> bool {
    parse_is_safe(code) && lua_parses(code)
}

/// `full_moon::tokenizer::tokens` cuts a source into tokens, or fails. For
/// each token, the kind of `TokenType::InterpolatedString` that it is, if it
/// is one. The same source always gives the same tokens.
#[verifier::external_body]
pub(crate) fn read_sections(code: &str) -> (sections: Option<Vec<Option<Section>>>)
    ensures
        match sections {
            Some(found) => token_sections(code@) == Some(found@),
            None => token_sections(code@) is None,
        },
{
    full_moon::tokenizer::tokens(code).ok().map(|tokens| tokens.iter().map(|token| match token.token_type() {
        TokenType::InterpolatedString { kind: InterpolatedStringKind::Begin, .. } => Some(Section::Begin),
        TokenType::InterpolatedString { kind: InterpolatedStringKind::Middle, .. } => Some(Section::Middle),
        TokenType::InterpolatedString { kind: InterpolatedStringKind::End, .. } => Some(Section::End),
        TokenType::InterpolatedString { kind: InterpolatedStringKind::Simple, .. } => Some(Section::Simple),
        _ => None,
    }).collect())
}

/// Whether a source can be handed to the parser.
pub fn can_parse(code: &str) -> (safe: bool)
    ensures
        safe == parse_is_safe(code@),
{
    match read_sections(code) {
        None => true,
        Some(sections) => {
            let mut i: usize = 0;
            while i < sections.len()
                invariant
                    i <= sections.len(),
                    token_sections(code@) == Some(sections@),
                    forall|j: int|
                        0 <= j < i ==> sections@[j] != Some(Section::Middle) && sections@[j]
                            != Some(Section::End),
                decreases sections.len() - i,
            {
                match sections[i] {
                    Some(Section::Middle) => {
                        proof {
                            assert(sections@[i as int] == Some(Section::Middle));
                        }
                        return false;
                    },
                    Some(Section::End) => {
                        proof {
                            assert(sections@[i as int] == Some(Section::End));
                        }
                        return false;
                    },
                    _ => {},
                }
                i = i + 1;
            }
            true
        },
    }
}

/// `full_moon::parse` reads Lua source into a syntax tree, or says why it
/// cannot. Whether it can, and the tree, depend on the source alone. It is
/// not called on a source with a backquoted string written around braces: on
/// a closing part of such a string where an expression is due, the parser
/// stops the program.
pub assume_specification[ full_moon::parse ](code: &str) -> (parsed: Result<Ast, full_moon::Error>)
    requires
        parse_is_safe(code@),
    ensures
        parsed is Ok == lua_parses(code@),
        parsed matches Ok(ast) ==> ast == parsed_tree(code@),
;

/// `full_moon::print` writes a syntax tree out as source.
pub assume_specification[ full_moon::print ](ast: &Ast) -> (source: String)
    ensures
        source@ == tree_print(*ast),
;

/// What `full_moon::Error` prints: whether the tokenizer or the parser gave
/// up, and on what.
#[verifier::external_body]
pub(crate) fn parse_error_text(error: &full_moon::Error) -> (text: String) {
    error.to_string()
}

/// What `Token` prints: the token as it stands in the source.
#[verifier::external_body]
pub(crate) fn token_text(token: &Token) -> (text: String)
    ensures
        text@ == token_piece(*token).text,
{
    token.to_string()
}

/// What `TypeSpecifier` prints: the annotation as it stands in the source.
#[verifier::external_body]
pub(crate) fn specifier_text(node: &TypeSpecifier) -> (text: String)
    ensures
        text@ == specifier_print(*node),
{
    node.to_string()
}

/// What `TypeAssertion` prints: the assertion as it stands in the source.
#[verifier::external_body]
pub(crate) fn assertion_text(node: &TypeAssertion) -> (text: String)
    ensures
        text@ == assertion_print(*node),
{
    node.to_string()
}

/// What `TypeDeclaration` prints: the declaration as it stands in the source.
#[verifier::external_body]
pub(crate) fn declaration_text(node: &TypeDeclaration) -> (text: String)
    ensures
        text@ == declaration_print(*node),
{
    node.to_string()
}

/// `Token::new` with `TokenType::Whitespace`: a whitespace token that holds
/// the given characters, and prints them.
#[verifier::external_body]
pub(crate) fn whitespace_token(characters: &str) -> (token: Token)
    ensures
        token_piece(token) == space_piece(characters@),
{
    Token::new(TokenType::Whitespace { characters: characters.into() })
}

/// `Token::new` with `TokenType::Identifier`: an identifier token that holds
/// the given name, and prints it.
#[verifier::external_body]
pub(crate) fn identifier_token(name: &str) -> (token: Token)
    ensures
        token_piece(token) == (Piece { space: None, text: name@ }),
{
    Token::new(TokenType::Identifier { identifier: name.into() })
}

/// `Token::new` with `TokenType::StringLiteral`: a string between double
/// quotes that holds the given characters. It prints them between the
/// quotes, unchanged.
#[verifier::external_body]
pub(crate) fn string_token(literal: &str) -> (token: Token)
    ensures
        token_piece(token) == (Piece { space: None, text: "\""@ + literal@ + "\""@ }),
{
    Token::new(TokenType::StringLiteral {
        literal: literal.into(),
        multi_line: None,
        quote_type: StringLiteralQuoteType::Double,
    })
}

/// `TokenReference::new`: a token with the given tokens before and after it.
#[verifier::external_body]
pub(crate) fn token_reference(leading: Vec<Token>, token: Token, trailing: Vec<Token>) -> (reference:
    TokenReference)
    ensures
        leading_pieces(reference) == pieces(leading@),
        inner_piece(reference) == token_piece(token),
        trailing_pieces(reference) == pieces(trailing@),
{
    TokenReference::new(leading, token, trailing)
}

/// `TokenReference::leading_trivia`: the tokens before the token proper.
#[verifier::external_body]
pub(crate) fn leading_tokens(node: &TokenReference) -> (tokens: Vec<Token>)
    ensures
        pieces(tokens@) == leading_pieces(*node),
{
    node.leading_trivia().cloned().collect()
}

/// `TokenReference::trailing_trivia`: the tokens after the token proper.
#[verifier::external_body]
pub(crate) fn trailing_tokens(node: &TokenReference) -> (tokens: Vec<Token>)
    ensures
        pieces(tokens@) == trailing_pieces(*node),
{
    node.trailing_trivia().cloned().collect()
}

/// `TokenReference::token`: the token proper.
#[verifier::external_body]
pub(crate) fn inner_token(node: &TokenReference) -> (token: Token)
    ensures
        token_piece(token) == inner_piece(*node),
{
    node.token().clone()
}

/// `Token::token_type`: the characters of a token that is whitespace.
#[verifier::external_body]
pub(crate) fn whitespace_of(token: &Token) -> (characters: Option<String>)
    ensures
        match characters {
            Some(found) => token_piece(*token).space == Some(found@),
            None => token_piece(*token).space is None,
        },
{
    match token.token_type() {
        TokenType::Whitespace { characters } => Some(characters.to_string()),
        _ => None,
    }
}

/// `TypeSpecifier::new` and `with_punctuation`: an annotation made of the two
/// given tokens, the punctuation first. It prints the one, then the other.
#[verifier::external_body]
pub(crate) fn type_specifier(punctuation: TokenReference, info: TokenReference) -> (node: TypeSpecifier)
    ensures
        specifier_print(node) == reference_text(punctuation) + reference_text(info),
{
    TypeSpecifier::new(TypeInfo::Basic(info)).with_punctuation(punctuation)
}

/// `TypeAssertion::new` and `with_assertion_op`: an assertion made of the two
/// given tokens, the operator first. It prints the one, then the other.
#[verifier::external_body]
pub(crate) fn type_assertion(operator: TokenReference, info: TokenReference) -> (node: TypeAssertion)
    ensures
        assertion_print(node) == reference_text(operator) + reference_text(info),
{
    TypeAssertion::new(TypeInfo::Basic(info)).with_assertion_op(operator)
}

/// `TypeDeclaration::new`, `with_equal_token` and `with_type_token`: a
/// declaration without generics, made of the four given tokens. It prints
/// them in this order.
#[verifier::external_body]
pub(crate) fn type_declaration(
    keyword: TokenReference,
    name: TokenReference,
    equal: TokenReference,
    info: TokenReference,
) -> (node: TypeDeclaration)
    ensures
        declaration_print(node) == reference_text(keyword) + reference_text(name) + reference_text(
            equal,
        ) + reference_text(info),
{
    TypeDeclaration::new(name, TypeInfo::Basic(info)).with_equal_token(equal).with_type_token(
        keyword,
    )
}

/// `FunctionCall::prefix`: the name that is called, where the call's prefix
/// is a plain identifier.
#[verifier::external_body]
pub(crate) fn called_name(call: &FunctionCall) -> (name: Option<String>)
    ensures
        name == call_name(*call),
{
    match call.prefix() {
        Prefix::Name(name) => match name.token_type() {
            TokenType::Identifier { identifier } => Some(identifier.to_string()),
            _ => None,
        },
        _ => None,
    }
}

/// What stands where an argument is looked for.
pub enum FirstArgument {
    /// The call's first suffix is no argument list in parentheses.
    NoCall,
    /// The list is empty.
    Missing,
    /// The first expression of the list.
    Given(Expression),
}

/// `FunctionCall::suffixes`: the first expression between the parentheses of
/// the call's first suffix.
#[verifier::external_body]
pub(crate) fn first_argument(call: &FunctionCall) -> (first: FirstArgument)
    ensures
        match first {
            FirstArgument::NoCall => call_argument(*call) is NoCall,
            FirstArgument::Missing => call_argument(*call) is Missing,
            FirstArgument::Given(expression) => call_argument(*call) == expression_shape(
                expression,
            ),
        },
{
    match call.suffixes().next() {
        Some(Suffix::Call(Call::AnonymousCall(FunctionArgs::Parentheses { arguments, .. }))) => {
            match arguments.iter().next() {
                Some(expression) => FirstArgument::Given(expression.clone()),
                None => FirstArgument::Missing,
            }
        },
        _ => FirstArgument::NoCall,
    }
}

/// The content of an `Expression` that is a string literal.
#[verifier::external_body]
pub(crate) fn literal_content(expression: &Expression) -> (content: Option<String>)
    ensures
        match content {
            Some(found) => expression_shape(*expression) == RequireArgument::Literal(found),
            None => expression_shape(*expression) is Chain || expression_shape(*expression) is Other,
        },
{
    match expression {
        Expression::String(token) => match token.token_type() {
            TokenType::StringLiteral { literal, .. } => Some(literal.to_string()),
            _ => None,
        },
        _ => None,
    }
}

/// The tokens that `Node::tokens` lists for an `Expression` that is a chain,
/// each with its name where it is an identifier.
#[verifier::external_body]
pub(crate) fn chain_tokens(expression: &Expression) -> (tokens: Option<Vec<Option<String>>>)
    ensures
        match tokens {
            Some(found) => expression_shape(*expression) == RequireArgument::Chain(found),
            None => expression_shape(*expression) is Literal || expression_shape(*expression) is Other,
        },
{
    match expression {
        Expression::Var(Var::Expression(chain)) => Some(
            Node::tokens(&**chain).map(|token| match token.token_type() {
                TokenType::Identifier { identifier } => Some(identifier.to_string()),
                _ => None,
            }).collect(),
        ),
        _ => None,
    }
}

/// `ContainedSpan::tokens` and `TokenReference::trailing_trivia`: the
/// characters of the last token that trails the closing parenthesis of the
/// call's first suffix, where that token is whitespace.
#[verifier::external_body]
pub(crate) fn closing_whitespace(call: &FunctionCall) -> (space: Option<String>)
    ensures
        space == closing_space(*call),
{
    match call.suffixes().next() {
        Some(Suffix::Call(Call::AnonymousCall(FunctionArgs::Parentheses { parentheses, .. }))) => {
            match parentheses.tokens().1.trailing_trivia().last().map(|token| token.token_type()) {
                Some(TokenType::Whitespace { characters }) => Some(characters.to_string()),
                _ => None,
            }
        },
        _ => None,
    }
}

/// `FunctionCall::with_prefix` and `with_suffixes`: the call with the given
/// name as its prefix and, as its only suffix, an argument list between the
/// two given tokens that holds the one given token as a string. It prints
/// the name, the opening token, the string and the closing token.
#[verifier::external_body]
pub(crate) fn string_call(
    call: FunctionCall,
    name: TokenReference,
    open: TokenReference,
    close: TokenReference,
    literal: TokenReference,
) -> (rewritten: FunctionCall)
    ensures
        call_print(rewritten) == reference_text(name) + reference_text(open) + reference_text(
            literal,
        ) + reference_text(close),
{
    let mut arguments = Punctuated::new();
    arguments.push(Pair::new(Expression::String(literal), None));
    let parentheses = ContainedSpan::new(open, close);
    let suffix = Suffix::Call(Call::AnonymousCall(FunctionArgs::Parentheses { parentheses, arguments }));
    call.with_prefix(Prefix::Name(name)).with_suffixes(vec![suffix])
}

} // verus!
