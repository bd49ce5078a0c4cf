//! The rewriter: what happens to a module's source on its way into the
//! bundle. Comments and type annotations give way to blank space that keeps
//! the line breaks, and every `require` is noted; one written as a path from
//! `script` becomes a call of `_require` with the path as a string.

use vstd::prelude::*;
use vstd::string::StringExecFns;
use full_moon::ast::types::{TypeAssertion, TypeDeclaration, TypeSpecifier};
use full_moon::ast::{Ast, FunctionCall};
use full_moon::tokenizer::{Token, TokenReference};
use full_moon::visitors::VisitorMut;
use crate::lua::{
    call_argument, call_name, call_print, can_parse, closing_space, lua_accepted, parsed_tree,
    tree_print,
    assertion_print, declaration_print, inner_piece, leading_pieces, pieces, pieces_text,
    parse_is_safe, reference_text, space_piece, specifier_print, token_piece, trailing_pieces,
    Piece,
    lua_parses, assertion_text, called_name, chain_tokens, closing_whitespace, declaration_text,
    first_argument, identifier_token, literal_content, parse_error_text, specifier_text,
    string_call, string_token, token_reference, token_text, type_assertion, type_declaration,
    type_specifier, whitespace_token, FirstArgument,
};
use crate::path::{dot, dot_dot};
use crate::text::{count_newlines, join, join_strings, newlines, same_text, to_chars, views};

verus! {

/// The argument of a call, as far as the rewriter looks at it.
#[derive(Debug)]
pub enum RequireArgument {
    /// What follows the called name is no argument list in parentheses.
    NoCall,
    /// The argument list is empty.
    Missing,
    /// A string literal, with its content.
    Literal(String),
    /// A chain such as `script.Parent.lib`: its tokens in order, each with
    /// its name if it is an identifier.
    Chain(Vec<Option<String>>),
    /// Anything else.
    Other,
}

/// What the rewriter does with a call.
#[derive(Debug)]
pub enum RequireAction {
    /// Leave the call as it is.
    Keep,
    /// Leave the call as it is and note the module it names.
    Record(String),
    /// Note the module, and put `_require` with this string in its place.
    Rewrite(String),
    /// Leave the call as it is and report it.
    Reject(String),
}

/// A `RequireAction` with its text as characters.
pub enum Outcome {
    Keep,
    Record(Seq<char>),
    Rewrite(Seq<char>),
    Reject(Seq<char>),
}

impl View for RequireAction {
    type V = Outcome;

    open spec fn view(&self) -> Outcome {
        match self {
            RequireAction::Keep => Outcome::Keep,
            RequireAction::Record(reference) => Outcome::Record(reference@),
            RequireAction::Rewrite(reference) => Outcome::Rewrite(reference@),
            RequireAction::Reject(message) => Outcome::Reject(message@),
        }
    }
}

/// The names under which a module is required.
pub open spec fn is_require_name(name: Seq<char>) -> bool {
    name == "require"@ || name == "_require"@
}

/// The path segment that an identifier of a chain stands for: `script` is the
/// module itself, `Parent` one level up, any other name a step down.
pub open spec fn chain_segment(identifier: Seq<char>) -> Seq<char> {
    if identifier == "script"@ {
        dot()
    } else if identifier == "Parent"@ {
        dot_dot()
    } else {
        identifier
    }
}

/// The path segments of a chain: one for each identifier among its tokens.
pub open spec fn chain_segments(tokens: Seq<Option<String>>) -> Seq<Seq<char>>
    decreases tokens.len(),
{
    if tokens.len() == 0 {
        Seq::<Seq<char>>::empty()
    } else {
        match tokens.last() {
            Some(identifier) => chain_segments(tokens.drop_last()).push(
                chain_segment(identifier@),
            ),
            None => chain_segments(tokens.drop_last()),
        }
    }
}

/// The reference that a chain stands for, if it starts at `script`.
pub open spec fn chain_reference(tokens: Seq<Option<String>>) -> Option<Seq<char>> {
    let segments = chain_segments(tokens);
    if segments.len() > 0 && segments[0] == dot() {
        Some(join(segments, "/"@))
    } else {
        None
    }
}

/// What is reported for a `require` without an argument.
pub open spec fn missing_argument() -> Seq<char> {
    "An argument is required for '_require'"@
}

/// What the rewriter does with a call, given the identifier that is called,
/// if it is one, and the first argument.
pub open spec fn decide(name: Option<String>, argument: RequireArgument) -> Outcome {
    if name is Some && is_require_name(name->0@) {
        match argument {
            RequireArgument::NoCall => Outcome::Keep,
            RequireArgument::Missing => Outcome::Reject(missing_argument()),
            RequireArgument::Literal(text) => Outcome::Record(text@),
            RequireArgument::Chain(tokens) => match chain_reference(tokens@) {
                Some(reference) => Outcome::Rewrite(reference),
                None => Outcome::Keep,
            },
            RequireArgument::Other => Outcome::Keep,
        }
    } else {
        Outcome::Keep
    }
}

/// As many line breaks as `text` holds, and nothing else.
pub open spec fn blank(text: Seq<char>) -> Seq<char> {
    Seq::new(newlines(text), |i: int| '\n')
}

/// A run of line breaks holds as many line breaks as it is long.
pub proof fn lemma_newlines_of_breaks(n: nat)
    ensures
        newlines(Seq::new(n, |i: int| '\n')) == n,
    decreases n,
{
    let run = Seq::new(n, |i: int| '\n');
    if n > 0 {
        lemma_newlines_of_breaks((n - 1) as nat);
        assert(run.drop_last() =~= Seq::new((n - 1) as nat, |i: int| '\n'));
    }
}

/// The blank space that replaces a comment or a type annotation holds as
/// many line breaks as the text it replaces, so every later line of the
/// module stays where it was.
pub proof fn lemma_blank_keeps_lines(text: Seq<char>)
    ensures
        newlines(blank(text)) == newlines(text),
{
    lemma_newlines_of_breaks(newlines(text));
}

/// The blank space that stands in for `text`.
pub fn blank_lines(text: &str) -> (space: String)
    ensures
        space@ == blank(text@),
{
    let count = count_newlines(text);
    let mut space = String::new();
    let mut i: usize = 0;
    proof {
        reveal_strlit("\n");
    }
    while i < count
        invariant
            i <= count,
            "\n"@ =~= seq!['\n'],
            space@ == Seq::new(i as nat, |j: int| '\n'),
        decreases count - i,
    {
        space.append("\n");
        i = i + 1;
        proof {
            assert(space@ =~= Seq::new(i as nat, |j: int| '\n'));
        }
    }
    space
}

/// Whether a call of this name asks for a module.
pub fn is_require(name: &str) -> (yes: bool)
    ensures
        yes == is_require_name(name@),
{
    same_text(name, "require") || same_text(name, "_require")
}

/// The path segment for one identifier of a chain.
pub fn segment_of(identifier: &String) -> (segment: String)
    ensures
        segment@ == chain_segment(identifier@),
{
    proof {
        reveal_strlit(".");
        reveal_strlit("..");
    }
    if same_text(identifier.as_str(), "script") {
        let segment = String::from_str(".");
        proof {
            assert(segment@ =~= dot());
        }
        segment
    } else if same_text(identifier.as_str(), "Parent") {
        let segment = String::from_str("..");
        proof {
            assert(segment@ =~= dot_dot());
        }
        segment
    } else {
        identifier.clone()
    }
}

/// The reference that a chain of tokens stands for: the segments of its
/// identifiers joined by `/`, provided the first of them is `script`.
pub fn reference_of(tokens: &Vec<Option<String>>) -> (reference: Option<String>)
    ensures
        match reference {
            Some(text) => chain_reference(tokens@) == Some(text@),
            None => chain_reference(tokens@) is None,
        },
{
    let mut segments: Vec<String> = Vec::new();
    let mut i: usize = 0;
    while i < tokens.len()
        invariant
            i <= tokens.len(),
            views(segments@) == chain_segments(tokens@.take(i as int)),
        decreases tokens.len() - i,
    {
        proof {
            assert(tokens@.take(i + 1).drop_last() == tokens@.take(i as int));
        }
        match &tokens[i] {
            Some(identifier) => {
                let segment = segment_of(identifier);
                let ghost before = views(segments@);
                segments.push(segment);
                proof {
                    assert(views(segments@) =~= before.push(segment@));
                }
            },
            None => {},
        }
        i = i + 1;
    }
    proof {
        assert(tokens@.take(i as int) == tokens@);
        reveal_strlit(".");
    }
    if segments.len() == 0 {
        return None;
    }
    let first = to_chars(segments[0].as_str());
    proof {
        assert(views(segments@)[0] == segments@[0]@);
    }
    if first.len() == 1 && first[0] == '.' {
        proof {
            assert(first@ =~= dot());
        }
        Some(join_strings(&segments, "/"))
    } else {
        None
    }
}

/// Decides what to do with a call, from the identifier that is called and
/// the first argument: only `require` and `_require` matter; an empty
/// argument list is reported, a string literal is noted, a chain from
/// `script` is noted and rewritten, and everything else is left alone.
pub fn require_action(name: &Option<String>, argument: &RequireArgument) -> (action:
    RequireAction)
    ensures
        action@ == decide(*name, *argument),
{
    match name {
        Some(called) => {
            if !is_require(called.as_str()) {
                return RequireAction::Keep;
            }
        },
        None => {
            return RequireAction::Keep;
        },
    }
    match argument {
        RequireArgument::NoCall => RequireAction::Keep,
        RequireArgument::Missing => RequireAction::Reject(
            String::from_str("An argument is required for '_require'"),
        ),
        RequireArgument::Literal(text) => RequireAction::Record(text.clone()),
        RequireArgument::Chain(tokens) => match reference_of(tokens) {
            Some(reference) => RequireAction::Rewrite(reference),
            None => RequireAction::Keep,
        },
        RequireArgument::Other => RequireAction::Keep,
    }
}

/// What one walk over a module gathers.
pub struct Rewriter {
    /// The references of the `require` calls met so far, as written.
    pub imports: Vec<String>,
    /// What was found wrong so far.
    pub errors: Vec<String>,
}

/// The calls that a walk of the rewriter meets in a tree, in the order in
/// which it meets them, each with the name it calls and its first argument.
pub uninterp spec fn met_calls(ast: Ast) -> Seq<(Option<String>, RequireArgument)>;

/// The tree that a walk of the rewriter makes of a tree.
pub uninterp spec fn walked_tree(ast: Ast) -> Ast;

/// The references that the rewriter notes for the calls, in order: one for
/// every call that is recorded or rewritten.
pub open spec fn gathered_imports(calls: Seq<(Option<String>, RequireArgument)>) -> Seq<Seq<char>>
    decreases calls.len(),
{
    if calls.len() == 0 {
        Seq::<Seq<char>>::empty()
    } else {
        let before = gathered_imports(calls.drop_last());
        match decide(calls.last().0, calls.last().1) {
            Outcome::Record(reference) => before.push(reference),
            Outcome::Rewrite(reference) => before.push(reference),
            _ => before,
        }
    }
}

/// The messages that the rewriter notes for the calls, in order: one for
/// every call that is rejected.
pub open spec fn gathered_errors(calls: Seq<(Option<String>, RequireArgument)>) -> Seq<Seq<char>>
    decreases calls.len(),
{
    if calls.len() == 0 {
        Seq::<Seq<char>>::empty()
    } else {
        let before = gathered_errors(calls.drop_last());
        match decide(calls.last().0, calls.last().1) {
            Outcome::Reject(message) => before.push(message),
            _ => before,
        }
    }
}

/// What follows a rewritten call: a line break where the call it replaces
/// was followed by whitespace that holds one, and nothing otherwise.
pub open spec fn closing_break(space: Option<String>) -> Seq<char> {
    match space {
        Some(characters) => if newlines(characters@) > 0 {
            "\n"@
        } else {
            Seq::<char>::empty()
        },
        None => Seq::<char>::empty(),
    }
}

/// What a rewritten call prints: `_require`, and the reference as a string
/// between parentheses.
pub open spec fn rewritten_call(reference: Seq<char>) -> Seq<char> {
    "_require(\""@ + reference + "\")"@
}

/// A rewritten call holds the line breaks of its reference and the one that
/// it keeps after it, and no other: the line breaks that stood before the
/// call or between its parentheses are not kept.
pub proof fn lemma_rewritten_call_lines(reference: Seq<char>, space: Option<String>)
    ensures
        newlines(rewritten_call(reference) + closing_break(space)) == newlines(reference)
            + newlines(closing_break(space)),
        newlines(closing_break(space)) <= 1,
{
    reveal_strlit("_require(\"");
    reveal_strlit("\")");
    reveal_strlit("\n");
    let head = "_require(\""@;
    let tail = "\")"@;
    assert(newlines(head) == 0) by {
        reveal_with_fuel(newlines, 12);
        assert(head =~= seq!['_', 'r', 'e', 'q', 'u', 'i', 'r', 'e', '(', '"']);
        lemma_no_newline(head);
    }
    assert(newlines(tail) == 0) by {
        lemma_no_newline(tail);
    }
    assert(newlines("\n"@) == 1) by {
        reveal_with_fuel(newlines, 3);
        assert("\n"@.drop_last() =~= Seq::<char>::empty());
    }
    assert(newlines(Seq::<char>::empty()) == 0);
    crate::text::lemma_newlines_concat(head, reference);
    crate::text::lemma_newlines_concat(head + reference, tail);
    crate::text::lemma_newlines_concat(head + reference + tail, closing_break(space));
}

/// A text without a line break holds none.
pub proof fn lemma_no_newline(text: Seq<char>)
    requires
        forall|i: int| 0 <= i < text.len() ==> text[i] != '\n',
    ensures
        newlines(text) == 0,
    decreases text.len(),
{
    if text.len() > 0 {
        lemma_no_newline(text.drop_last());
    }
}

/// What the rewriter makes of a source: none for a source that the bundler
/// does not take; else the references and the messages that it notes for the
/// calls that its walk meets in the source's tree, and what the walked tree
/// prints.
pub open spec fn rewriting(code: Seq<char>, outcome: Result<Rewritten, String>) -> bool {
    match outcome {
        Ok(rewritten) => {
            &&& lua_accepted(code)
            &&& views(rewritten.imports@) == gathered_imports(met_calls(parsed_tree(code)))
            &&& views(rewritten.errors@) == gathered_errors(met_calls(parsed_tree(code)))
            &&& rewritten.source@ == tree_print(walked_tree(parsed_tree(code)))
        },
        Err(_) => !lua_accepted(code),
    }
}

/// `VisitorMut::visit_ast` hands every node and token of the tree to the
/// rewriter's visit methods, in an order that the tree fixes, and puts what
/// they return in its place. Of these methods only `visit_function_call`
/// touches what the rewriter has gathered, and it adds what `decide` says of
/// the call; so the walk adds that for every call it meets, in order.
#[verifier::external_body]
fn walk_ast(rewriter: &mut Rewriter, ast: Ast) -> (rewritten: Ast)
    ensures
        rewritten == walked_tree(ast),
        views(final(rewriter).imports@) == views(old(rewriter).imports@) + gathered_imports(
            met_calls(ast),
        ),
        views(final(rewriter).errors@) == views(old(rewriter).errors@) + gathered_errors(
            met_calls(ast),
        ),
{
    VisitorMut::visit_ast(rewriter, ast)
}

/// Whether a text holds a line break.
pub fn has_newline(text: &str) -> (yes: bool)
    ensures
        yes == (newlines(text@) > 0),
{
    count_newlines(text) > 0
}

/// A token reference that holds nothing but the blank space for `text`, and
/// prints as that.
fn blank_reference(text: &str) -> (reference: TokenReference)
    ensures
        leading_pieces(reference) == Seq::<Piece>::empty(),
        inner_piece(reference) == space_piece(blank(text@)),
        trailing_pieces(reference) == Seq::<Piece>::empty(),
        reference_text(reference) == blank(text@),
{
    let space = blank_lines(text);
    let leading: Vec<Token> = Vec::new();
    let trailing: Vec<Token> = Vec::new();
    proof {
        assert(pieces(leading@) =~= Seq::<Piece>::empty());
        assert(pieces(trailing@) =~= Seq::<Piece>::empty());
    }
    let reference = token_reference(leading, whitespace_token(space.as_str()), trailing);
    proof {
        assert(reference_text(reference) =~= blank(text@));
    }
    reference
}

/// The blank space for an empty text is empty.
proof fn lemma_blank_of_nothing()
    ensures
        blank(""@) == Seq::<char>::empty(),
{
    reveal_strlit("");
    assert(blank(""@) =~= Seq::<char>::empty());
}

impl Rewriter {
    /// A rewriter that has gathered nothing.
    pub fn new() -> (rewriter: Self)
        ensures
            rewriter.imports@.len() == 0,
            rewriter.errors@.len() == 0,
    {
        Rewriter { imports: Vec::new(), errors: Vec::new() }
    }

    /// What a call adds to what the rewriter has gathered: the reference of
    /// a `require` that is recorded or rewritten, the message of one that is
    /// rejected, and nothing otherwise.
    pub open spec fn noted(&self, outcome: Outcome, after: Rewriter) -> bool {
        match outcome {
            Outcome::Keep => after == *self,
            Outcome::Record(reference) => views(after.imports@) == views(self.imports@).push(
                reference,
            ) && after.errors == self.errors,
            Outcome::Rewrite(reference) => views(after.imports@) == views(self.imports@).push(
                reference,
            ) && after.errors == self.errors,
            Outcome::Reject(message) => views(after.errors@) == views(self.errors@).push(message)
                && after.imports == self.imports,
        }
    }

    /// Decides what to do with a call and notes what it adds.
    pub fn note(&mut self, name: &Option<String>, argument: &RequireArgument) -> (action:
        RequireAction)
        ensures
            action@ == decide(*name, *argument),
            old(self).noted(action@, *final(self)),
    {
        let action = require_action(name, argument);
        match &action {
            RequireAction::Keep => {},
            RequireAction::Record(reference) => {
                self.imports.push(reference.clone());
                proof {
                    assert(views(self.imports@) =~= views(old(self).imports@).push(reference@));
                }
            },
            RequireAction::Rewrite(reference) => {
                self.imports.push(reference.clone());
                proof {
                    assert(views(self.imports@) =~= views(old(self).imports@).push(reference@));
                }
            },
            RequireAction::Reject(message) => {
                self.errors.push(message.clone());
                proof {
                    assert(views(self.errors@) =~= views(old(self).errors@).push(message@));
                }
            },
        }
        action
    }
}

impl VisitorMut for Rewriter {
    /// A comment of several lines gives way to a whitespace token that holds
    /// its line breaks and nothing else: what follows the comment stays on
    /// its line.
    fn visit_multi_line_comment(&mut self, token: Token) -> (cleared: Token)
        ensures
            *final(self) == *old(self),
            token_piece(cleared) == space_piece(blank(token_piece(token).text)),
            newlines(token_piece(cleared).text) == newlines(token_piece(token).text),
    {
        let text = token_text(&token);
        let space = blank_lines(text.as_str());
        proof {
            lemma_blank_keeps_lines(text@);
        }
        whitespace_token(space.as_str())
    }

    /// A comment of one line gives way to an empty whitespace token.
    fn visit_single_line_comment(&mut self, token: Token) -> (cleared: Token)
        ensures
            *final(self) == *old(self),
            token_piece(cleared) == space_piece(Seq::<char>::empty()),
    {
        proof {
            reveal_strlit("");
            assert(""@ =~= Seq::<char>::empty());
        }
        whitespace_token("")
    }

    /// `: string` in `function f(x: string)` gives way to an annotation that
    /// prints its line breaks and nothing else.
    fn visit_type_specifier(&mut self, node: TypeSpecifier) -> (cleared: TypeSpecifier)
        ensures
            *final(self) == *old(self),
            specifier_print(cleared) == blank(specifier_print(node)),
            newlines(specifier_print(cleared)) == newlines(specifier_print(node)),
    {
        let text = specifier_text(&node);
        proof {
            lemma_blank_of_nothing();
            lemma_blank_keeps_lines(text@);
            assert(Seq::<char>::empty() + blank(text@) =~= blank(text@));
        }
        type_specifier(blank_reference(""), blank_reference(text.as_str()))
    }

    /// `:: string` in `x :: string` gives way to an assertion that prints its
    /// line breaks and nothing else.
    fn visit_type_assertion(&mut self, node: TypeAssertion) -> (cleared: TypeAssertion)
        ensures
            *final(self) == *old(self),
            assertion_print(cleared) == blank(assertion_print(node)),
            newlines(assertion_print(cleared)) == newlines(assertion_print(node)),
    {
        let text = assertion_text(&node);
        proof {
            lemma_blank_of_nothing();
            lemma_blank_keeps_lines(text@);
            assert(Seq::<char>::empty() + blank(text@) =~= blank(text@));
        }
        type_assertion(blank_reference(""), blank_reference(text.as_str()))
    }

    /// `type T = string` gives way to a declaration that prints its line
    /// breaks and nothing else.
    fn visit_type_declaration(&mut self, node: TypeDeclaration) -> (cleared: TypeDeclaration)
        ensures
            *final(self) == *old(self),
            declaration_print(cleared) == blank(declaration_print(node)),
            newlines(declaration_print(cleared)) == newlines(declaration_print(node)),
    {
        let text = declaration_text(&node);
        proof {
            lemma_blank_of_nothing();
            lemma_blank_keeps_lines(text@);
            let empty = Seq::<char>::empty();
            assert(blank(text@) + empty + empty + empty =~= blank(text@));
        }
        type_declaration(
            blank_reference(text.as_str()),
            blank_reference(""),
            blank_reference(""),
            blank_reference(""),
        )
    }

    /// Notes a `require`, and rewrites one that names its module by a chain
    /// from `script`. What is noted is what `decide` says of the name that
    /// is called and the first argument. A call that is rewritten comes back
    /// as `_require` with the reference as a string, and keeps the line break
    /// that followed it; every other call comes back as it came.
    fn visit_function_call(&mut self, node: FunctionCall) -> (call: FunctionCall)
        ensures
            old(self).noted(decide(call_name(node), call_argument(node)), *final(self)),
            match decide(call_name(node), call_argument(node)) {
                Outcome::Rewrite(reference) => call_print(call) == rewritten_call(reference)
                    + closing_break(closing_space(node)),
                _ => call == node,
            },
    {
        let name = called_name(&node);
        let argument = match first_argument(&node) {
            FirstArgument::NoCall => RequireArgument::NoCall,
            FirstArgument::Missing => RequireArgument::Missing,
            FirstArgument::Given(expression) => match literal_content(&expression) {
                Some(content) => RequireArgument::Literal(content),
                None => match chain_tokens(&expression) {
                    Some(tokens) => RequireArgument::Chain(tokens),
                    None => RequireArgument::Other,
                },
            },
        };
        proof {
            assert(argument == call_argument(node));
        }
        let action = self.note(&name, &argument);
        match action {
            RequireAction::Rewrite(reference) => {
                let mut trailing: Vec<Token> = Vec::new();
                let space = closing_whitespace(&node);
                let ends_line = match &space {
                    Some(characters) => has_newline(characters.as_str()),
                    None => false,
                };
                proof {
                    assert(pieces(trailing@) =~= Seq::<Piece>::empty());
                }
                if ends_line {
                    let line_break = whitespace_token("\n");
                    trailing.push(line_break);
                    proof {
                        assert(pieces(trailing@) =~= seq![space_piece("\n"@)]);
                        let held = pieces(trailing@);
                        assert(held.drop_last() =~= Seq::<Piece>::empty());
                        assert(pieces_text(held.drop_last()) =~= Seq::<char>::empty());
                        assert(held.last().text == "\n"@);
                        assert(pieces_text(held) =~= "\n"@);
                    }
                }
                proof {
                    assert(pieces_text(pieces(trailing@)) =~= closing_break(space));
                }
                let leading: Vec<Token> = Vec::new();
                let none: Vec<Token> = Vec::new();
                proof {
                    assert(pieces(leading@) =~= Seq::<Piece>::empty());
                    assert(pieces(none@) =~= Seq::<Piece>::empty());
                }
                let name_token = token_reference(Vec::new(), identifier_token("_require"), Vec::new());
                let open = token_reference(Vec::new(), identifier_token("("), Vec::new());
                let close = token_reference(Vec::new(), identifier_token(")"), trailing);
                let literal = token_reference(
                    Vec::new(),
                    string_token(reference.as_str()),
                    Vec::new(),
                );
                proof {
                    reveal_strlit("_require");
                    reveal_strlit("(");
                    reveal_strlit(")");
                    reveal_strlit("\"");
                    reveal_strlit("_require(\"");
                    reveal_strlit("\")");
                    let empty = Seq::<char>::empty();
                    assert(reference_text(name_token) =~= "_require"@);
                    assert(reference_text(open) =~= "("@);
                    assert(reference_text(literal) =~= "\""@ + reference@ + "\""@);
                    assert(reference_text(close) =~= ")"@ + closing_break(space));
                    assert("_require"@ + "("@ + ("\""@ + reference@ + "\""@) + (")"@
                        + closing_break(space)) =~= rewritten_call(reference@) + closing_break(
                        space,
                    ));
                }
                string_call(node, name_token, open, close, literal)
            },
            _ => node,
        }
    }
}

/// A module's source after the rewriter, with what the walk gathered.
#[derive(Debug)]
pub struct Rewritten {
    /// The source as the bundle will hold it.
    pub source: String,
    /// The references of its `require` calls, as written, in order.
    pub imports: Vec<String>,
    /// What was found wrong; the source is of no use unless this is empty.
    pub errors: Vec<String>,
}

/// What is answered for a source that cannot be handed to the parser.
pub open spec fn unsafe_source() -> Seq<char> {
    "a backquoted string that is written around braces is not supported"@
}

/// Parses a module, walks it with a fresh rewriter and prints it again. It
/// fails on a source that holds a backquoted string written around braces
/// and on one that the parser does not accept, and on no other. What comes
/// back is what the rewriter notes for the calls that the walk meets, and
/// what the walked tree prints.
pub fn rewrite_source(source: &str) -> (rewritten: Result<Rewritten, String>)
    ensures
        rewriting(source@, rewritten),
        !parse_is_safe(source@) ==> (rewritten matches Err(message) && message@
            == unsafe_source()),
{
    if !can_parse(source) {
        return Err(
            String::from_str("a backquoted string that is written around braces is not supported"),
        );
    }
    match full_moon::parse(source) {
        Ok(ast) => {
            let mut rewriter = Rewriter::new();
            proof {
                assert(views(rewriter.imports@) =~= Seq::<Seq<char>>::empty());
                assert(views(rewriter.errors@) =~= Seq::<Seq<char>>::empty());
            }
            let new_ast = walk_ast(&mut rewriter, ast);
            let text = full_moon::print(&new_ast);
            proof {
                let empty = Seq::<Seq<char>>::empty();
                assert(empty + gathered_imports(met_calls(ast)) =~= gathered_imports(
                    met_calls(ast),
                ));
                assert(empty + gathered_errors(met_calls(ast)) =~= gathered_errors(met_calls(ast)));
            }
            Ok(Rewritten { source: text, imports: rewriter.imports, errors: rewriter.errors })
        },
        Err(error) => Err(parse_error_text(&error)),
    }
}

} // verus!
