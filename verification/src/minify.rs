//! The release pass: a bundle is parsed once more, its comments are dropped
//! and every run of blank space is brought down to one space or to nothing.

use vstd::prelude::*;
use vstd::string::StringExecFns;
use full_moon::ast::Ast;
use full_moon::tokenizer::{Token, TokenReference};
use full_moon::visitors::VisitorMut;
use crate::lua::{
    inner_piece, leading_pieces, pieces, space_piece, token_piece, trailing_pieces, Piece,
    can_parse, lua_accepted, parsed_tree, tree_print, inner_token, leading_tokens, parse_error_text, token_reference, trailing_tokens,
    whitespace_of, whitespace_token,
};
use crate::text::to_chars;

verus! {

/// Whether a text holds a line feed or a carriage return.
pub open spec fn breaks_line(characters: Seq<char>) -> bool {
    characters.contains('\n') || characters.contains('\r')
}

/// What a run of blank space becomes. One that breaks the line becomes a
/// space. Any other becomes nothing before a token and a space after one.
/// An empty run stays empty.
pub open spec fn squeezed(characters: Seq<char>, leading: bool) -> Seq<char> {
    if breaks_line(characters) {
        " "@
    } else if characters.len() > 0 && !leading {
        " "@
    } else {
        Seq::<char>::empty()
    }
}

/// What a token becomes: whitespace is squeezed, any other token is kept.
pub open spec fn squeezed_piece(piece: Piece, leading: bool) -> Piece {
    match piece.space {
        Some(characters) => space_piece(squeezed(characters, leading)),
        None => piece,
    }
}

/// What the tokens become, one for one.
pub open spec fn squeezed_pieces(pieces: Seq<Piece>, leading: bool) -> Seq<Piece> {
    pieces.map_values(|piece: Piece| squeezed_piece(piece, leading))
}

/// Brings a run of blank space down to one space or to nothing.
pub fn squeeze(characters: &str, leading: bool) -> (space: String)
    ensures
        space@ == squeezed(characters@, leading),
{
    let chars = to_chars(characters);
    let mut breaks = false;
    let mut i: usize = 0;
    while i < chars.len()
        invariant
            i <= chars.len(),
            breaks == breaks_line(chars@.take(i as int)),
        decreases chars.len() - i,
    {
        proof {
            let done = chars@.take(i + 1);
            let before = chars@.take(i as int);
            assert(done =~= before.push(chars@[i as int]));
            assert(done[i as int] == chars@[i as int]);
            if before.contains('\n') {
                let j = choose|j: int| 0 <= j < before.len() && before[j] == '\n';
                assert(done[j] == '\n');
            }
            if before.contains('\r') {
                let j = choose|j: int| 0 <= j < before.len() && before[j] == '\r';
                assert(done[j] == '\r');
            }
            if done.contains('\n') && chars@[i as int] != '\n' {
                let j = choose|j: int| 0 <= j < done.len() && done[j] == '\n';
                assert(before[j] == '\n');
            }
            if done.contains('\r') && chars@[i as int] != '\r' {
                let j = choose|j: int| 0 <= j < done.len() && done[j] == '\r';
                assert(before[j] == '\r');
            }
        }
        if chars[i] == '\n' || chars[i] == '\r' {
            breaks = true;
        }
        i = i + 1;
    }
    proof {
        assert(chars@.take(i as int) == chars@);
    }
    if breaks || (chars.len() > 0 && !leading) {
        String::from_str(" ")
    } else {
        String::new()
    }
}

/// The tree that a walk of the release pass makes of a tree.
pub uninterp spec fn squeezed_tree(ast: Ast) -> Ast;

/// `VisitorMut::visit_ast` hands every node and token of the tree to the
/// visit methods of `BuildVisitor`, in an order that the tree fixes, and
/// puts what they return in its place.
#[verifier::external_body]
fn walk_build(visitor: &mut BuildVisitor, ast: Ast) -> (rewritten: Ast)
    ensures
        rewritten == squeezed_tree(ast),
{
    visitor.visit_ast(ast)
}

/// Squeezes the whitespace among the tokens; the others are kept. Every
/// token stays in its place.
fn squeeze_tokens(tokens: Vec<Token>, leading: bool) -> (squeezed: Vec<Token>)
    ensures
        squeezed@.len() == tokens@.len(),
        pieces(squeezed@) == squeezed_pieces(pieces(tokens@), leading),
{
    let mut out: Vec<Token> = Vec::new();
    let ghost all = tokens@;
    let mut tokens = tokens;
    while tokens.len() > 0
        invariant
            out@.len() + tokens@.len() == all.len(),
            tokens@ == all.skip(out@.len() as int),
            forall|i: int|
                0 <= i < out@.len() ==> token_piece(out@[i]) == squeezed_piece(
                    token_piece(all[i]),
                    leading,
                ),
        decreases tokens.len(),
    {
        let ghost done = out@.len() as int;
        let ghost rest = tokens@;
        let token = tokens.remove(0);
        proof {
            assert(token == all[done]);
            assert(tokens@ =~= all.skip(done + 1));
        }
        match whitespace_of(&token) {
            Some(characters) => {
                let space = squeeze(characters.as_str(), leading);
                out.push(whitespace_token(space.as_str()));
            },
            None => {
                out.push(token);
            },
        }
    }
    proof {
        assert(pieces(out@) =~= squeezed_pieces(pieces(all), leading));
    }
    out
}

/// The visitor of the release pass.
pub struct BuildVisitor;

impl VisitorMut for BuildVisitor {
    /// The blank space around a token is squeezed: before it, a run that
    /// breaks the line becomes a space and any other nothing; after it, every
    /// run becomes a space. The token itself and the comments around it are
    /// kept.
    fn visit_token_reference(&mut self, node: TokenReference) -> (squeezed: TokenReference)
        ensures
            leading_pieces(squeezed) == squeezed_pieces(leading_pieces(node), true),
            inner_piece(squeezed) == inner_piece(node),
            trailing_pieces(squeezed) == squeezed_pieces(trailing_pieces(node), false),
    {
        let leading = squeeze_tokens(leading_tokens(&node), true);
        let trailing = squeeze_tokens(trailing_tokens(&node), false);
        token_reference(leading, inner_token(&node), trailing)
    }

    /// A comment of one line gives way to an empty whitespace token.
    fn visit_single_line_comment(&mut self, token: Token) -> (cleared: Token)
        ensures
            token_piece(cleared) == space_piece(Seq::<char>::empty()),
    {
        proof {
            reveal_strlit("");
            assert(""@ =~= Seq::<char>::empty());
        }
        whitespace_token("")
    }

    /// A comment of several lines gives way to an empty whitespace token.
    fn visit_multi_line_comment(&mut self, token: Token) -> (cleared: Token)
        ensures
            token_piece(cleared) == space_piece(Seq::<char>::empty()),
    {
        proof {
            reveal_strlit("");
            assert(""@ =~= Seq::<char>::empty());
        }
        whitespace_token("")
    }
}

/// Parses a bundle, squeezes it and prints it again. It fails on a source
/// that holds a backquoted string written around braces and on one that the
/// parser does not accept, and on no other; else it gives what the squeezed
/// tree prints.
pub fn minify(source: &str) -> (squeezed: Result<String, String>)
    ensures
        match squeezed {
            Ok(text) => lua_accepted(source@) && text@ == tree_print(
                squeezed_tree(parsed_tree(source@)),
            ),
            Err(_) => !lua_accepted(source@),
        },
{
    if !can_parse(source) {
        return Err(
            String::from_str("a backquoted string that is written around braces is not supported"),
        );
    }
    match full_moon::parse(source) {
        Ok(ast) => {
            let mut visitor = BuildVisitor;
            let new_ast = walk_build(&mut visitor, ast);
            Ok(full_moon::print(&new_ast))
        },
        Err(error) => Err(parse_error_text(&error)),
    }
}

} // verus!
