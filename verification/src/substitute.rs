//! The substitution engine: replacing an identifier by a literal throughout a token sequence.

use vstd::prelude::*;
use vstd::std_specs::vec::axiom_vec_index_decreases;
use crate::token::{trees, TokenTree, Tree};

verus! {

/// One token tree after substitution: an identifier spelled `name` becomes the literal spelled
/// `value`, a group keeps its delimiter around its substituted contents, and any other token
/// stays as it is.
pub open spec fn substitute_tree(token: Tree, name: Seq<char>, value: Seq<char>) -> Tree
    decreases token, 0nat,
{
    match token {
        Tree::Ident(text) => if text == name {
            Tree::Literal(value)
        } else {
            token
        },
        Tree::Group(delimiter, stream) => Tree::Group(delimiter, substitute(stream, name, value)),
        _ => token,
    }
}

/// A token sequence after substitution: each token tree substituted in its place.
pub open spec fn substitute(stream: Seq<Tree>, name: Seq<char>, value: Seq<char>) -> Seq<Tree>
    decreases stream, 1nat,
{
    Seq::new(
        stream.len(),
        |i: int|
            if 0 <= i < stream.len() {
                substitute_tree(stream[i], name, value)
            } else {
                arbitrary()
            },
    )
}

/// Whether an identifier spelled `name` occurs in the token tree, at any depth.
pub open spec fn tree_mentions(token: Tree, name: Seq<char>) -> bool
    decreases token, 0nat,
{
    match token {
        Tree::Ident(text) => text == name,
        Tree::Group(_, stream) => mentions(stream, name),
        _ => false,
    }
}

/// Whether an identifier spelled `name` occurs in the token sequence, at any depth.
pub open spec fn mentions(stream: Seq<Tree>, name: Seq<char>) -> bool
    decreases stream, 1nat,
{
    exists|i: int| 0 <= i < stream.len() && tree_mentions(#[trigger] stream[i], name)
}

/// Replaces every identifier spelled like `ident` by the literal `value`, at every depth.
pub fn replace_tokens(stream: &Vec<TokenTree>, ident: &String, value: &String) -> (out: Vec<
    TokenTree,
>)
    ensures
        trees(out@) == substitute(trees(stream@), ident@, value@),
    decreases stream,
{
    let mut out: Vec<TokenTree> = Vec::new();
    let mut i: usize = 0;
    while i < stream.len()
        invariant
            i <= stream.len(),
            out.len() == i,
            forall|k: int| 0 <= k < i ==> out[k]@ == substitute_tree(stream[k]@, ident@, value@),
        decreases stream.len() - i,
    {
        proof {
            axiom_vec_index_decreases(*stream, i as int);
        }
        let replaced = match &stream[i] {
            TokenTree::Ident(text) => {
                if *text == *ident {
                    TokenTree::Literal(value.clone())
                } else {
                    TokenTree::Ident(text.clone())
                }
            },
            TokenTree::Group(delimiter, inner) => TokenTree::Group(
                *delimiter,
                replace_tokens(inner, ident, value),
            ),
            TokenTree::Punct(ch, spacing) => TokenTree::Punct(*ch, *spacing),
            TokenTree::Literal(text) => TokenTree::Literal(text.clone()),
        };
        out.push(replaced);
        i += 1;
    }
    assert(trees(out@) =~= substitute(trees(stream@), ident@, value@));
    out
}

/// The token tree found by following `path` into the sequence: the first index picks a token of
/// the sequence, each further index a token inside the group picked so far.
pub open spec fn token_at(stream: Seq<Tree>, path: Seq<int>) -> Option<Tree>
    decreases path.len(),
{
    if path.len() == 0 || !(0 <= path[0] < stream.len()) {
        None
    } else if path.len() == 1 {
        Some(stream[path[0]])
    } else {
        match stream[path[0]] {
            Tree::Group(_, inner) => token_at(inner, path.drop_first()),
            _ => None,
        }
    }
}

/// Substitution inside a group is substitution of its contents: the group stays in its place
/// and keeps its delimiter, whatever the delimiter is.
pub proof fn law_groups_are_entered(
    stream: Seq<Tree>,
    name: Seq<char>,
    value: Seq<char>,
    i: int,
)
    requires
        0 <= i < stream.len(),
        stream[i] is Group,
    ensures
        substitute(stream, name, value).len() == stream.len(),
        substitute(stream, name, value)[i] == Tree::Group(
            stream[i]->Group_0,
            substitute(stream[i]->Group_1, name, value),
        ),
{
}

/// Substitution changes no position: wherever the input has a token, at whatever depth, the
/// output has that token substituted, and where the input has none, neither has the output.
pub proof fn law_substitution_by_position(
    stream: Seq<Tree>,
    name: Seq<char>,
    value: Seq<char>,
    path: Seq<int>,
)
    ensures
        token_at(substitute(stream, name, value), path) == match token_at(stream, path) {
            Some(token) => Some(substitute_tree(token, name, value)),
            None => None,
        },
    decreases path.len(),
{
    if path.len() > 1 && 0 <= path[0] < stream.len() {
        if let Tree::Group(_, inner) = stream[path[0]] {
            law_substitution_by_position(inner, name, value, path.drop_first());
        }
    }
}

/// A token that is neither a group nor an identifier spelled `name` is never altered,
/// however deeply it is nested.
pub proof fn law_other_tokens_untouched(
    stream: Seq<Tree>,
    name: Seq<char>,
    value: Seq<char>,
    path: Seq<int>,
)
    requires
        token_at(stream, path) matches Some(token) && token !is Group && token != Tree::Ident(
            name,
        ),
    ensures
        token_at(substitute(stream, name, value), path) == token_at(stream, path),
{
    law_substitution_by_position(stream, name, value, path);
}

/// An identifier spelled `name` is replaced by the literal wherever it stands, with no regard
/// to what the surrounding tokens declare.
pub proof fn law_occurrences_become_literals(
    stream: Seq<Tree>,
    name: Seq<char>,
    value: Seq<char>,
    path: Seq<int>,
)
    requires
        token_at(stream, path) == Some(Tree::Ident(name)),
    ensures
        token_at(substitute(stream, name, value), path) == Some(Tree::Literal(value)),
{
    law_substitution_by_position(stream, name, value, path);
}

/// A sequence in which `name` does not occur is left exactly as it is.
pub proof fn law_unmentioned_is_identity(stream: Seq<Tree>, name: Seq<char>, value: Seq<char>)
    requires
        !mentions(stream, name),
    ensures
        substitute(stream, name, value) == stream,
    decreases stream,
{
    assert forall|i: int| 0 <= i < stream.len() implies substitute_tree(stream[i], name, value)
        == stream[i] by {
        if tree_mentions(stream[i], name) {
            assert(mentions(stream, name));
        }
        if let Tree::Group(_, inner) = stream[i] {
            law_unmentioned_is_identity(inner, name, value);
        }
    }
    assert(substitute(stream, name, value) =~= stream);
}

/// After substitution no identifier spelled `name` is left, at any depth.
pub proof fn law_no_occurrence_remains(stream: Seq<Tree>, name: Seq<char>, value: Seq<char>)
    ensures
        !mentions(substitute(stream, name, value), name),
    decreases stream,
{
    let out = substitute(stream, name, value);
    assert forall|i: int| 0 <= i < out.len() implies !tree_mentions(out[i], name) by {
        if let Tree::Group(_, inner) = stream[i] {
            law_no_occurrence_remains(inner, name, value);
        }
    }
}

/// Substituting a second time, for the same name, changes nothing more, whatever the
/// second value is.
pub proof fn law_substitution_is_idempotent(
    stream: Seq<Tree>,
    name: Seq<char>,
    value: Seq<char>,
    other: Seq<char>,
)
    ensures
        substitute(substitute(stream, name, value), name, other) == substitute(
            stream,
            name,
            value,
        ),
{
    law_no_occurrence_remains(stream, name, value);
    law_unmentioned_is_identity(substitute(stream, name, value), name, other);
}

/// Substitution goes piece by piece: however a sequence is cut in two, say into statements,
/// substituting in each piece and joining the results is substituting in the whole.
pub proof fn law_substitution_goes_piece_by_piece(
    first: Seq<Tree>,
    second: Seq<Tree>,
    name: Seq<char>,
    value: Seq<char>,
)
    ensures
        substitute(first + second, name, value) == substitute(first, name, value) + substitute(
            second,
            name,
            value,
        ),
{
    assert(substitute(first + second, name, value) =~= substitute(first, name, value)
        + substitute(second, name, value));
}

} // verus!
