//! Token trees written out as text, so that the parser of the host language can be asked
//! about them.
//!
//! The text is cut into the same tokens again by a lexer, with one exception: no text marks
//! a group without visible delimiters, so such a group is written as its contents alone.

use vstd::prelude::*;
use vstd::std_specs::vec::axiom_vec_index_decreases;
use crate::spelling::push_char;
use crate::token::{trees, Delimiter, Spacing, TokenTree, Tree};

verus! {

/// What opens a group in the text.
pub open spec fn opening(delimiter: Delimiter) -> Seq<char> {
    match delimiter {
        Delimiter::Parenthesis => "( "@,
        Delimiter::Brace => "{ "@,
        Delimiter::Bracket => "[ "@,
        Delimiter::Invisible => ""@,
    }
}

/// What closes a group in the text.
pub open spec fn closing(delimiter: Delimiter) -> Seq<char> {
    match delimiter {
        Delimiter::Parenthesis => ") "@,
        Delimiter::Brace => "} "@,
        Delimiter::Bracket => "] "@,
        Delimiter::Invisible => ""@,
    }
}

/// The text of one token tree: its spelling and a space, but no space behind a punctuation
/// character that is glued to what follows; a group is its contents between its delimiters.
pub open spec fn rendered_tree(token: Tree) -> Seq<char>
    decreases token, 0nat,
{
    match token {
        Tree::Group(delimiter, stream) => opening(delimiter) + rendered(stream) + closing(
            delimiter,
        ),
        Tree::Ident(text) => text + " "@,
        Tree::Punct(ch, Spacing::Joint) => seq![ch],
        Tree::Punct(ch, Spacing::Alone) => seq![ch] + " "@,
        Tree::Literal(text) => text + " "@,
    }
}

/// The text of a token sequence: the texts of its token trees, one after the other.
pub open spec fn rendered(stream: Seq<Tree>) -> Seq<char>
    decreases stream, 1nat,
{
    if stream.len() == 0 {
        Seq::empty()
    } else {
        rendered(stream.drop_last()) + rendered_tree(stream.last())
    }
}

/// Writes a token sequence out as text.
pub fn render(stream: &Vec<TokenTree>) -> (text: String)
    ensures
        text@ == rendered(trees(stream@)),
    decreases stream,
{
    let mut text = String::new();
    let mut i: usize = 0;
    while i < stream.len()
        invariant
            i <= stream.len(),
            text@ == rendered(trees(stream@).take(i as int)),
        decreases stream.len() - i,
    {
        proof {
            axiom_vec_index_decreases(*stream, i as int);
            let next = trees(stream@).take(i + 1);
            assert(next.drop_last() =~= trees(stream@).take(i as int));
            assert(next.last() == stream[i as int]@);
        }
        let ghost before = text@;
        let ghost piece = rendered_tree(stream[i as int]@);
        match &stream[i] {
            TokenTree::Group(delimiter, inner) => {
                let (open, close) = match delimiter {
                    Delimiter::Parenthesis => ("( ", ") "),
                    Delimiter::Brace => ("{ ", "} "),
                    Delimiter::Bracket => ("[ ", "] "),
                    Delimiter::Invisible => ("", ""),
                };
                let inside = render(inner);
                text.append(open);
                text.append(inside.as_str());
                text.append(close);
                assert(text@ =~= before + piece);
            },
            TokenTree::Ident(spelling) => {
                text.append(spelling.as_str());
                text.append(" ");
                assert(text@ =~= before + piece);
            },
            TokenTree::Punct(ch, spacing) => {
                push_char(&mut text, *ch);
                match spacing {
                    Spacing::Joint => {},
                    Spacing::Alone => {
                        text.append(" ");
                    },
                }
                assert(text@ =~= before + piece);
            },
            TokenTree::Literal(spelling) => {
                text.append(spelling.as_str());
                text.append(" ");
                assert(text@ =~= before + piece);
            },
        }
        i += 1;
    }
    assert(trees(stream@).take(stream.len() as int) =~= trees(stream@));
    text
}

} // verus!
