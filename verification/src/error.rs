//! The two ways an expansion can fail, each with the place of the offending token.

use vstd::prelude::*;
use crate::token::Delimiter;

verus! {

/// Where a token stands in the input of an expansion.
#[derive(Clone, Copy, Debug, PartialEq, Eq, Structural)]
pub enum Place {
    /// The token with this index in the input; the length of the input stands for its end.
    Input(usize),
    /// The token with this index inside the group that holds the values; the length of the
    /// group's contents stands for its end.
    ValueSpace(usize),
}

/// What the grammar asks for at some place.
#[derive(Clone, Copy, Debug, PartialEq, Eq, Structural)]
pub enum Expected {
    /// The name of the loop variable.
    Identifier,
    /// The keyword `in`.
    In,
    /// A bracketed list or a parenthesized range.
    ValueSpace,
    /// A literal.
    Literal,
    /// The comma between two list values.
    Comma,
    /// The operator `..=` between the two bounds of a range.
    RangeOperator,
    /// The arrow `=>` in front of the block.
    Arrow,
    /// The block in curly braces.
    Block,
    /// Statements between the curly braces of the block.
    Statements,
    /// Nothing more.
    End,
}

/// What stands at the place where the grammar asked for something else.
#[derive(Clone, Copy, Debug, PartialEq, Eq, Structural)]
pub enum Found {
    /// An identifier that is not reserved.
    Identifier,
    /// An identifier that the language reserves.
    Keyword,
    /// A punctuation character.
    Punctuation,
    /// A literal.
    Literal,
    /// A group with this delimiter.
    Group(Delimiter),
    /// The end of the input, or of the group.
    End,
}

/// The input does not match the grammar of an invocation.
#[derive(Clone, Copy, Debug, PartialEq, Eq, Structural)]
pub struct GrammarError {
    /// The place of the first token that does not fit.
    pub at: Place,
    /// What the grammar asks for there.
    pub expected: Expected,
    /// What stands there.
    pub found: Found,
}

/// The part that a literal plays in the description of the values.
#[derive(Clone, Copy, Debug, PartialEq, Eq, Structural)]
pub enum Role {
    /// One value of a list.
    ListValue,
    /// The lower or the upper bound of a range.
    RangeBound,
}

/// Why a literal gives no value.
#[derive(Clone, Debug, PartialEq, Eq)]
pub enum Fault {
    /// The literal is not an integer.
    NotInteger,
    /// The literal is an integer whose digits give no value of 128 bits; the text says how.
    OutOfRange(String),
}

/// The mathematical model of a [`Fault`].
pub enum FaultView {
    NotInteger,
    OutOfRange(Seq<char>),
}

impl View for Fault {
    type V = FaultView;

    open spec fn view(&self) -> FaultView {
        match self {
            Fault::NotInteger => FaultView::NotInteger,
            Fault::OutOfRange(words) => FaultView::OutOfRange(words@),
        }
    }
}

/// A literal in the description of the values is not an integer of 128 bits.
#[derive(Clone, Debug, PartialEq, Eq)]
pub struct ValueParseError {
    /// The spelling of the offending literal.
    pub literal: String,
    /// The index of its first token inside the group that holds the values.
    pub index: usize,
    /// The part that the literal plays.
    pub role: Role,
    /// Why it gives no value.
    pub fault: Fault,
}

/// The mathematical model of a [`ValueParseError`].
pub struct ValueParseErrorView {
    pub literal: Seq<char>,
    pub index: usize,
    pub role: Role,
    pub fault: FaultView,
}

impl View for ValueParseError {
    type V = ValueParseErrorView;

    open spec fn view(&self) -> ValueParseErrorView {
        ValueParseErrorView {
            literal: self.literal@,
            index: self.index,
            role: self.role,
            fault: self.fault@,
        }
    }
}

/// Why an expansion failed.
#[derive(Clone, Debug, PartialEq, Eq)]
pub enum ExpandError {
    /// The input does not match the grammar.
    Grammar(GrammarError),
    /// A literal is not an integer of 128 bits.
    Value(ValueParseError),
}

/// The mathematical model of an [`ExpandError`].
pub enum ExpandErrorView {
    Grammar(GrammarError),
    Value(ValueParseErrorView),
}

impl View for ExpandError {
    type V = ExpandErrorView;

    open spec fn view(&self) -> ExpandErrorView {
        match self {
            ExpandError::Grammar(error) => ExpandErrorView::Grammar(*error),
            ExpandError::Value(error) => ExpandErrorView::Value(error@),
        }
    }
}

/// The words for what the grammar asks for.
pub open spec fn expected_words(expected: Expected) -> Seq<char> {
    match expected {
        Expected::Identifier => "expected identifier"@,
        Expected::In => "expected `in`"@,
        Expected::ValueSpace => "expected square brackets or parentheses"@,
        Expected::Literal => "expected literal"@,
        Expected::Comma => "expected `,`"@,
        Expected::RangeOperator => "expected `..=`"@,
        Expected::Arrow => "expected `=>`"@,
        Expected::Block => "expected curly braces"@,
        Expected::Statements => "expected statements"@,
        Expected::End => "expected nothing more"@,
    }
}

/// The words for what stands at a place.
pub open spec fn found_words(found: Found) -> Seq<char> {
    match found {
        Found::Identifier => "an identifier"@,
        Found::Keyword => "a keyword"@,
        Found::Punctuation => "punctuation"@,
        Found::Literal => "a literal"@,
        Found::Group(Delimiter::Parenthesis) => "parentheses"@,
        Found::Group(Delimiter::Brace) => "curly braces"@,
        Found::Group(Delimiter::Bracket) => "square brackets"@,
        Found::Group(Delimiter::Invisible) => "a group without delimiters"@,
        Found::End => "the end of the input"@,
    }
}

/// The message of a grammar error.
pub open spec fn grammar_message(error: GrammarError) -> Seq<char> {
    expected_words(error.expected) + ", found "@ + found_words(error.found)
}

/// The message of a value error.
pub open spec fn value_message(error: ValueParseErrorView) -> Seq<char> {
    match error.fault {
        FaultView::OutOfRange(words) => words,
        FaultView::NotInteger => match error.role {
            Role::ListValue => "List values must be integers"@,
            Role::RangeBound => "Range bounds must be integers"@,
        },
    }
}

impl GrammarError {
    /// Says in words what was expected and what was found.
    pub fn message(&self) -> (text: String)
        ensures
            text@ == grammar_message(*self),
    {
        let expected = match self.expected {
            Expected::Identifier => "expected identifier",
            Expected::In => "expected `in`",
            Expected::ValueSpace => "expected square brackets or parentheses",
            Expected::Literal => "expected literal",
            Expected::Comma => "expected `,`",
            Expected::RangeOperator => "expected `..=`",
            Expected::Arrow => "expected `=>`",
            Expected::Block => "expected curly braces",
            Expected::Statements => "expected statements",
            Expected::End => "expected nothing more",
        };
        let found = match self.found {
            Found::Identifier => "an identifier",
            Found::Keyword => "a keyword",
            Found::Punctuation => "punctuation",
            Found::Literal => "a literal",
            Found::Group(Delimiter::Parenthesis) => "parentheses",
            Found::Group(Delimiter::Brace) => "curly braces",
            Found::Group(Delimiter::Bracket) => "square brackets",
            Found::Group(Delimiter::Invisible) => "a group without delimiters",
            Found::End => "the end of the input",
        };
        String::from_str(expected).concat(", found ").concat(found)
    }
}

impl ValueParseError {
    /// Says in words why the literal gives no value.
    pub fn message(&self) -> (text: String)
        ensures
            text@ == value_message(self@),
    {
        match &self.fault {
            Fault::OutOfRange(words) => words.clone(),
            Fault::NotInteger => match self.role {
                Role::ListValue => String::from_str("List values must be integers"),
                Role::RangeBound => String::from_str("Range bounds must be integers"),
            },
        }
    }
}

impl ExpandError {
    /// The place of the offending token.
    pub fn place(&self) -> (place: Place)
        ensures
            place == match self@ {
                ExpandErrorView::Grammar(error) => error.at,
                ExpandErrorView::Value(error) => Place::ValueSpace(error.index),
            },
    {
        match self {
            ExpandError::Grammar(error) => error.at,
            ExpandError::Value(error) => Place::ValueSpace(error.index),
        }
    }

    /// The message of the error.
    pub fn message(&self) -> (text: String)
        ensures
            text@ == match self@ {
                ExpandErrorView::Grammar(error) => grammar_message(error),
                ExpandErrorView::Value(error) => value_message(error),
            },
    {
        match self {
            ExpandError::Grammar(error) => error.message(),
            ExpandError::Value(error) => error.message(),
        }
    }
}

} // verus!
