//! Token trees: the lexical structure on which the expansion works.

use vstd::prelude::*;

verus! {

/// The kind of bracket that encloses a group.
#[derive(Clone, Copy, Debug, PartialEq, Eq, Structural)]
pub enum Delimiter {
    /// `( ... )`
    Parenthesis,
    /// `{ ... }`
    Brace,
    /// `[ ... ]`
    Bracket,
    /// A group without visible brackets, as a macro fragment forms one.
    Invisible,
}

/// Whether a punctuation character is glued to the character after it.
#[derive(Clone, Copy, Debug, PartialEq, Eq, Structural)]
pub enum Spacing {
    /// The next token is not part of the same operator.
    Alone,
    /// The next punctuation character continues the operator, as the `=` in `=>`.
    Joint,
}

/// A token tree as executable data.
#[derive(Debug, PartialEq, Eq)]
pub enum TokenTree {
    /// A delimited sequence of token trees.
    Group(Delimiter, Vec<TokenTree>),
    /// An identifier, by its spelling.
    Ident(String),
    /// One punctuation character.
    Punct(char, Spacing),
    /// A literal, by its spelling.
    Literal(String),
}

/// The mathematical model of a token tree.
pub enum Tree {
    Group(Delimiter, Seq<Tree>),
    Ident(Seq<char>),
    Punct(char, Spacing),
    Literal(Seq<char>),
}

/// The model of one token tree.
pub open spec fn tree(token: TokenTree) -> Tree
    decreases token, 0nat,
{
    match token {
        TokenTree::Group(delimiter, stream) => Tree::Group(delimiter, trees(stream@)),
        TokenTree::Ident(text) => Tree::Ident(text@),
        TokenTree::Punct(ch, spacing) => Tree::Punct(ch, spacing),
        TokenTree::Literal(text) => Tree::Literal(text@),
    }
}

/// The models of a sequence of token trees, element by element.
pub open spec fn trees(stream: Seq<TokenTree>) -> Seq<Tree>
    decreases stream, 1nat,
{
    Seq::new(stream.len(), |i: int| if 0 <= i < stream.len() {
            tree(stream[i])
        } else {
            arbitrary()
        })
}

impl View for TokenTree {
    type V = Tree;

    open spec fn view(&self) -> Tree {
        tree(*self)
    }
}

/// The body of a loop: the token trees between its braces, taken as they are.
#[derive(Clone, Debug, PartialEq, Eq)]
pub struct Block {
    /// The token trees of the statements, in order.
    pub stmts: Vec<TokenTree>,
}

impl View for Block {
    type V = Seq<Tree>;

    open spec fn view(&self) -> Seq<Tree> {
        trees(self.stmts@)
    }
}

/// Copies a sequence of token trees.
pub fn clone_stream(stream: &Vec<TokenTree>) -> (copy: Vec<TokenTree>)
    ensures
        trees(copy@) == trees(stream@),
    decreases stream,
{
    let mut copy: Vec<TokenTree> = Vec::new();
    let mut i: usize = 0;
    while i < stream.len()
        invariant
            i <= stream.len(),
            copy.len() == i,
            forall|k: int| 0 <= k < i ==> copy[k]@ == stream[k]@,
        decreases stream.len() - i,
    {
        proof {
            vstd::std_specs::vec::axiom_vec_index_decreases(*stream, i as int);
        }
        let item = stream[i].clone();
        copy.push(item);
        i += 1;
    }
    assert(trees(copy@) =~= trees(stream@));
    copy
}

impl Clone for TokenTree {
    fn clone(&self) -> (copy: Self)
        ensures
            copy@ == self@,
        decreases self,
    {
        match self {
            TokenTree::Group(delimiter, stream) => TokenTree::Group(*delimiter, clone_stream(stream)),
            TokenTree::Ident(text) => TokenTree::Ident(text.clone()),
            TokenTree::Punct(ch, spacing) => TokenTree::Punct(*ch, *spacing),
            TokenTree::Literal(text) => TokenTree::Literal(text.clone()),
        }
    }
}

} // verus!
