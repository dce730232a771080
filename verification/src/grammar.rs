//! The grammar of an invocation: `name in [v, ...] => { ... }` or `name in (a..=b) => { ... }`.

use vstd::prelude::*;
use crate::error::{Expected, Found, GrammarError, Place};
use crate::render::{render, rendered_tree};
use crate::spelling::{accepts_block, accepts_identifier, block_accepted, identifier_accepted};
use crate::token::{clone_stream, trees, Block, Delimiter, Spacing, TokenTree, Tree};
use crate::values::{literals, LiteralView, LoopValues, RawLiteral, ValuesView};

verus! {

/// An invocation, taken apart.
#[derive(Clone, Debug, PartialEq, Eq)]
pub struct Loop {
    /// The spelling of the loop variable.
    pub ident: String,
    /// The description of the values.
    pub values: LoopValues,
    /// The body.
    pub block: Block,
}

/// The mathematical model of a [`Loop`].
pub struct LoopView {
    pub ident: Seq<char>,
    pub values: ValuesView,
    pub block: Seq<Tree>,
}

impl View for Loop {
    type V = LoopView;

    open spec fn view(&self) -> LoopView {
        LoopView { ident: self.ident@, values: self.values@, block: self.block@ }
    }
}

/// A result with both sides taken by their models.
pub open spec fn loop_result(result: Result<Loop, GrammarError>) -> Result<LoopView, GrammarError> {
    match result {
        Ok(parsed) => Ok(parsed@),
        Err(error) => Err(error),
    }
}

/// What stands at a position of a token sequence.
pub open spec fn found_at(stream: Seq<Tree>, i: int) -> Found {
    if 0 <= i < stream.len() {
        match stream[i] {
            Tree::Group(delimiter, _) => Found::Group(delimiter),
            Tree::Ident(_) => Found::Identifier,
            Tree::Punct(_, _) => Found::Punctuation,
            Tree::Literal(_) => Found::Literal,
        }
    } else {
        Found::End
    }
}

/// The error for a token inside the group of the values that does not fit.
pub open spec fn misfit(stream: Seq<Tree>, i: int, expected: Expected) -> GrammarError {
    GrammarError { at: Place::ValueSpace(i as usize), expected, found: found_at(stream, i) }
}

/// The error for a token of the input that does not fit.
pub open spec fn input_misfit(stream: Seq<Tree>, i: int, expected: Expected) -> GrammarError {
    GrammarError { at: Place::Input(i as usize), expected, found: found_at(stream, i) }
}

/// Whether a character is a decimal digit.
pub open spec fn is_digit(ch: char) -> bool {
    ch == '0' || ch == '1' || ch == '2' || ch == '3' || ch == '4' || ch == '5' || ch == '6'
        || ch == '7' || ch == '8' || ch == '9'
}

/// The literal that begins at a position, as its spelling and the number of its tokens.
///
/// A literal is a literal token, one of the words `true` and `false`, or a minus sign in
/// front of a literal token that begins with a digit; the minus sign is then part of the
/// spelling.
pub open spec fn literal_at(stream: Seq<Tree>, i: int) -> Option<(Seq<char>, int)> {
    if 0 <= i < stream.len() {
        match stream[i] {
            Tree::Literal(text) => Some((text, 1)),
            Tree::Ident(text) => if text == "true"@ || text == "false"@ {
                Some((text, 1))
            } else {
                None
            },
            Tree::Punct(ch, _) => if ch == '-' && i + 1 < stream.len() && stream[i + 1] is Literal
                && stream[i + 1]->Literal_0.len() > 0 && is_digit(stream[i + 1]->Literal_0[0]) {
                Some((seq!['-'] + stream[i + 1]->Literal_0, 2))
            } else {
                None
            },
            Tree::Group(_, _) => None,
        }
    } else {
        None
    }
}

/// The literals of a list of which the tokens from position `from` on remain to be read: a
/// literal, and then as often as one likes a comma and another literal. So a list holds at
/// least one literal, and a comma is always followed by one.
pub open spec fn list_items(stream: Seq<Tree>, from: int) -> Result<Seq<LiteralView>, GrammarError>
    decreases stream.len() - from,
{
    match literal_at(stream, from) {
        None => Err(misfit(stream, from, Expected::Literal)),
        Some((text, width)) => {
            let item = LiteralView { text, index: from as usize };
            let after = from + width;
            if after >= stream.len() {
                Ok(seq![item])
            } else if stream[after] is Punct && stream[after]->Punct_0 == ',' {
                match list_items(stream, after + 1) {
                    Ok(rest) => Ok(seq![item] + rest),
                    Err(error) => Err(error),
                }
            } else {
                Err(misfit(stream, after, Expected::Comma))
            }
        },
    }
}

/// Whether the operator `..=` begins at a position: two dots glued to what follows them,
/// then an equals sign.
pub open spec fn range_operator_at(stream: Seq<Tree>, i: int) -> bool {
    &&& 0 <= i
    &&& i + 2 < stream.len()
    &&& stream[i] == Tree::Punct('.', Spacing::Joint)
    &&& stream[i + 1] == Tree::Punct('.', Spacing::Joint)
    &&& stream[i + 2] is Punct
    &&& stream[i + 2]->Punct_0 == '='
}

/// The two bounds of a range and the position behind the second: a literal, the operator
/// `..=`, and a literal.
pub open spec fn range_items(stream: Seq<Tree>) -> Result<(LiteralView, LiteralView, int), GrammarError> {
    match literal_at(stream, 0) {
        None => Err(misfit(stream, 0, Expected::Literal)),
        Some((lower, width)) => if !range_operator_at(stream, width) {
            Err(misfit(stream, width, Expected::RangeOperator))
        } else {
            match literal_at(stream, width + 3) {
                None => Err(misfit(stream, width + 3, Expected::Literal)),
                Some((upper, upper_width)) => Ok(
                    (
                        LiteralView { text: lower, index: 0 },
                        LiteralView { text: upper, index: (width + 3) as usize },
                        width + 3 + upper_width,
                    ),
                ),
            }
        },
    }
}

/// Whether the arrow `=>` begins at a position: an equals sign glued to a `>`.
pub open spec fn arrow_at(stream: Seq<Tree>, i: int) -> bool {
    &&& 0 <= i
    &&& i + 1 < stream.len()
    &&& stream[i] == Tree::Punct('=', Spacing::Joint)
    &&& stream[i + 1] is Punct
    &&& stream[i + 1]->Punct_0 == '>'
}

/// The description of the values that a group holds, and the position in the group at which
/// the description ends.
pub open spec fn value_space(group: Tree) -> Result<(ValuesView, int), GrammarError>
    recommends
        group is Group,
{
    let inner = group->Group_1;
    if group->Group_0 == Delimiter::Bracket {
        match list_items(inner, 0) {
            Ok(items) => Ok((ValuesView::List(items), inner.len() as int)),
            Err(error) => Err(error),
        }
    } else {
        match range_items(inner) {
            Ok((lower, upper, end)) => Ok((ValuesView::Range(lower, upper), end)),
            Err(error) => Err(error),
        }
    }
}

/// What the grammar makes of an input, given the two things that only the host language can
/// judge: whether the first token, if it is an identifier, is `named` as a loop variable can
/// be, and whether the group in the place of the block is `formed` of statements.
///
/// The input is read from left to right, and the first token that does not fit is reported;
/// only tokens left over behind the second bound of a range are reported last of all, when
/// the rest of the input is in order.
pub open spec fn grammar(stream: Seq<Tree>, named: bool, formed: bool) -> Result<
    LoopView,
    GrammarError,
> {
    if !(stream.len() > 0 && stream[0] is Ident) {
        Err(input_misfit(stream, 0, Expected::Identifier))
    } else if !named {
        Err(GrammarError { at: Place::Input(0), expected: Expected::Identifier, found: Found::Keyword })
    } else if !(stream.len() > 1 && stream[1] == Tree::Ident("in"@)) {
        Err(input_misfit(stream, 1, Expected::In))
    } else if !(stream.len() > 2 && stream[2] is Group && (stream[2]->Group_0 == Delimiter::Bracket
        || stream[2]->Group_0 == Delimiter::Parenthesis)) {
        Err(input_misfit(stream, 2, Expected::ValueSpace))
    } else {
        match value_space(stream[2]) {
            Err(error) => Err(error),
            Ok((values, end)) => if !arrow_at(stream, 3) {
                Err(input_misfit(stream, 3, Expected::Arrow))
            } else if !(stream.len() > 5 && stream[5] is Group && stream[5]->Group_0
                == Delimiter::Brace) {
                Err(input_misfit(stream, 5, Expected::Block))
            } else if !formed {
                Err(input_misfit(stream, 5, Expected::Statements))
            } else if end < stream[2]->Group_1.len() {
                Err(misfit(stream[2]->Group_1, end, Expected::End))
            } else if stream.len() > 6 {
                Err(input_misfit(stream, 6, Expected::End))
            } else {
                Ok(LoopView { ident: stream[0]->Ident_0, values, block: stream[5]->Group_1 })
            },
        }
    }
}

/// Whether the first token is an identifier that can name a loop variable.
pub open spec fn well_named(stream: Seq<Tree>) -> bool {
    stream.len() > 0 && stream[0] is Ident && identifier_accepted(stream[0]->Ident_0)
}

/// Whether the sixth token is a group in curly braces whose text is a block of statements.
pub open spec fn well_formed(stream: Seq<Tree>) -> bool {
    stream.len() > 5 && stream[5] is Group && stream[5]->Group_0 == Delimiter::Brace
        && block_accepted(rendered_tree(stream[5]))
}

/// What the grammar makes of an input.
pub open spec fn parsed(stream: Seq<Tree>) -> Result<LoopView, GrammarError> {
    grammar(stream, well_named(stream), well_formed(stream))
}

/// A token sequence of literal tokens with one comma between each two.
pub open spec fn separated(texts: Seq<Seq<char>>) -> Seq<Tree> {
    Seq::new(
        if texts.len() == 0 {
            0
        } else {
            (2 * texts.len() - 1) as nat
        },
        |i: int|
            if i % 2 == 0 {
                Tree::Literal(texts[i / 2])
            } else {
                Tree::Punct(',', Spacing::Alone)
            },
    )
}

/// The literals with the given spellings, each at the place that [`separated`] gives it.
pub open spec fn listed(texts: Seq<Seq<char>>) -> Seq<LiteralView> {
    Seq::new(texts.len(), |k: int| LiteralView { text: texts[k], index: (2 * k) as usize })
}

/// The tokens of an invocation: the name, `in`, the group of the values, `=>`, and the body
/// in braces.
pub open spec fn invocation(name: Seq<char>, values: Tree, body: Seq<Tree>) -> Seq<Tree> {
    seq![
        Tree::Ident(name),
        Tree::Ident("in"@),
        values,
        Tree::Punct('=', Spacing::Joint),
        Tree::Punct('>', Spacing::Alone),
        Tree::Group(Delimiter::Brace, body),
    ]
}

/// One or more literal tokens with commas between them are read as the list of exactly
/// those literals, in their order.
pub proof fn law_separated_literals_are_a_list(texts: Seq<Seq<char>>)
    requires
        texts.len() > 0,
    ensures
        list_items(separated(texts), 0) == Ok::<Seq<LiteralView>, GrammarError>(listed(texts)),
{
    lemma_list_from(texts, 0);
    assert(listed(texts).skip(0) =~= listed(texts));
}

proof fn lemma_list_from(texts: Seq<Seq<char>>, k: int)
    requires
        0 <= k < texts.len(),
    ensures
        list_items(separated(texts), 2 * k) == Ok::<Seq<LiteralView>, GrammarError>(
            listed(texts).skip(k),
        ),
    decreases texts.len() - k,
{
    let stream = separated(texts);
    let item = LiteralView { text: texts[k], index: (2 * k) as usize };
    assert(stream[2 * k] == Tree::Literal(texts[k]));
    assert(literal_at(stream, 2 * k) == Some((texts[k], 1int)));
    if k + 1 == texts.len() {
        assert(listed(texts).skip(k) =~= seq![item]);
    } else {
        assert(stream[2 * k + 1] == Tree::Punct(',', Spacing::Alone));
        lemma_list_from(texts, k + 1);
        assert(listed(texts).skip(k) =~= seq![item] + listed(texts).skip(k + 1));
    }
}

/// A list without a literal is rejected: the grammar asks for a literal where the list
/// ends, and so an invocation with empty brackets is no invocation, whatever its body is.
pub proof fn law_list_needs_a_literal(name: Seq<char>, body: Seq<Tree>, formed: bool)
    ensures
        list_items(Seq::<Tree>::empty(), 0) == Err::<Seq<LiteralView>, GrammarError>(
            GrammarError {
                at: Place::ValueSpace(0),
                expected: Expected::Literal,
                found: Found::End,
            },
        ),
        grammar(
            invocation(name, Tree::Group(Delimiter::Bracket, Seq::empty()), body),
            true,
            formed,
        ) == Err::<LoopView, GrammarError>(
            GrammarError {
                at: Place::ValueSpace(0),
                expected: Expected::Literal,
                found: Found::End,
            },
        ),
{
}

/// A comma at the end of a list is rejected: the grammar asks for a literal behind it.
pub proof fn law_comma_needs_a_literal_behind(texts: Seq<Seq<char>>, spacing: Spacing)
    requires
        texts.len() > 0,
    ensures
        list_items(separated(texts).push(Tree::Punct(',', spacing)), 0) == Err::<
            Seq<LiteralView>,
            GrammarError,
        >(
            GrammarError {
                at: Place::ValueSpace((2 * texts.len()) as usize),
                expected: Expected::Literal,
                found: Found::End,
            },
        ),
{
    lemma_trailing_comma_from(texts, spacing, 0);
}

proof fn lemma_trailing_comma_from(texts: Seq<Seq<char>>, spacing: Spacing, k: int)
    requires
        0 <= k < texts.len(),
    ensures
        list_items(separated(texts).push(Tree::Punct(',', spacing)), 2 * k) == Err::<
            Seq<LiteralView>,
            GrammarError,
        >(
            GrammarError {
                at: Place::ValueSpace((2 * texts.len()) as usize),
                expected: Expected::Literal,
                found: Found::End,
            },
        ),
    decreases texts.len() - k,
{
    let stream = separated(texts).push(Tree::Punct(',', spacing));
    assert(stream.len() == 2 * texts.len());
    assert(stream[2 * k] == Tree::Literal(texts[k]));
    assert(literal_at(stream, 2 * k) == Some((texts[k], 1int)));
    if k + 1 == texts.len() {
        assert(stream[2 * k + 1] == Tree::Punct(',', spacing));
        assert(literal_at(stream, 2 * k + 2) is None);
        assert(list_items(stream, 2 * k + 2) == Err::<Seq<LiteralView>, GrammarError>(
            misfit(stream, 2 * k + 2, Expected::Literal),
        ));
    } else {
        assert(stream[2 * k + 1] == Tree::Punct(',', Spacing::Alone));
        lemma_trailing_comma_from(texts, spacing, k + 1);
    }
}

/// An invocation with a bracketed list of one or more literal tokens is accepted where its
/// name and its body are, and it is taken apart into its name, those literals and its body.
pub proof fn law_list_invocation_is_accepted(
    name: Seq<char>,
    texts: Seq<Seq<char>>,
    body: Seq<Tree>,
)
    requires
        texts.len() > 0,
    ensures
        grammar(
            invocation(name, Tree::Group(Delimiter::Bracket, separated(texts)), body),
            true,
            true,
        ) == Ok::<LoopView, GrammarError>(
            LoopView { ident: name, values: ValuesView::List(listed(texts)), block: body },
        ),
{
    law_separated_literals_are_a_list(texts);
}

/// An invocation with a parenthesized pair of literal tokens around `..=` is accepted where
/// its name and its body are, and it is taken apart into its name, the two bounds and its
/// body.
pub proof fn law_range_invocation_is_accepted(
    name: Seq<char>,
    lower: Seq<char>,
    upper: Seq<char>,
    last: Spacing,
    body: Seq<Tree>,
)
    ensures
        grammar(
            invocation(
                name,
                Tree::Group(
                    Delimiter::Parenthesis,
                    seq![
                        Tree::Literal(lower),
                        Tree::Punct('.', Spacing::Joint),
                        Tree::Punct('.', Spacing::Joint),
                        Tree::Punct('=', last),
                        Tree::Literal(upper),
                    ],
                ),
                body,
            ),
            true,
            true,
        ) == Ok::<LoopView, GrammarError>(
            LoopView {
                ident: name,
                values: ValuesView::Range(
                    LiteralView { text: lower, index: 0 },
                    LiteralView { text: upper, index: 4 },
                ),
                block: body,
            },
        ),
{
}

/// Whatever is accepted has the six tokens of an invocation and nothing else: the accepted
/// name, `in`, a bracketed list or a parenthesized range, `=>`, and a body of statements in
/// braces.
pub proof fn law_accepted_input_is_an_invocation(stream: Seq<Tree>, named: bool, formed: bool)
    requires
        grammar(stream, named, formed) is Ok,
    ensures
        named,
        formed,
        stream.len() == 6,
        stream[2] is Group,
        stream[2]->Group_0 == match grammar(stream, named, formed)->Ok_0.values {
            ValuesView::List(_) => Delimiter::Bracket,
            ValuesView::Range(_, _) => Delimiter::Parenthesis,
        },
        arrow_at(stream, 3),
        stream =~= invocation(
            grammar(stream, named, formed)->Ok_0.ident,
            stream[2],
            grammar(stream, named, formed)->Ok_0.block,
        ).update(4, stream[4]),
{
}

/// Where the token behind `in` is no bracketed and no parenthesized group, the input is
/// rejected for its grammar at that token, whatever follows.
pub proof fn law_values_must_follow_in(stream: Seq<Tree>, formed: bool)
    requires
        stream.len() >= 2,
        stream[0] is Ident,
        stream[1] == Tree::Ident("in"@),
        !(stream.len() > 2 && stream[2] is Group && (stream[2]->Group_0 == Delimiter::Bracket
            || stream[2]->Group_0 == Delimiter::Parenthesis)),
    ensures
        grammar(stream, true, formed) == Err::<LoopView, GrammarError>(
            input_misfit(stream, 2, Expected::ValueSpace),
        ),
        grammar(stream, false, formed) is Err,
{
}

/// What stands at a position of the token sequence.
fn found(stream: &Vec<TokenTree>, i: usize) -> (kind: Found)
    ensures
        kind == found_at(trees(stream@), i as int),
{
    if i < stream.len() {
        match &stream[i] {
            TokenTree::Group(delimiter, _) => Found::Group(*delimiter),
            TokenTree::Ident(_) => Found::Identifier,
            TokenTree::Punct(_, _) => Found::Punctuation,
            TokenTree::Literal(_) => Found::Literal,
        }
    } else {
        Found::End
    }
}

/// The error for a token of the input that does not fit.
fn input_error(input: &Vec<TokenTree>, i: usize, expected: Expected) -> (error: GrammarError)
    ensures
        error == input_misfit(trees(input@), i as int, expected),
{
    GrammarError { at: Place::Input(i), expected, found: found(input, i) }
}

/// The error for a token inside the group of the values that does not fit.
fn value_error(inner: &Vec<TokenTree>, i: usize, expected: Expected) -> (error: GrammarError)
    ensures
        error == misfit(trees(inner@), i as int, expected),
{
    GrammarError { at: Place::ValueSpace(i), expected, found: found(inner, i) }
}

/// Whether the token is the punctuation character `ch`.
fn is_punct(token: &TokenTree, ch: char) -> (yes: bool)
    ensures
        yes == (token@ is Punct && token@->Punct_0 == ch),
{
    match token {
        TokenTree::Punct(found, _) => *found == ch,
        _ => false,
    }
}

/// Whether the token is the punctuation character `ch`, glued to what follows it.
fn is_joint_punct(token: &TokenTree, ch: char) -> (yes: bool)
    ensures
        yes == (token@ == Tree::Punct(ch, Spacing::Joint)),
{
    match token {
        TokenTree::Punct(found, Spacing::Joint) => *found == ch,
        _ => false,
    }
}

/// Whether the spelling begins with a decimal digit.
fn begins_with_digit(text: &String) -> (yes: bool)
    ensures
        yes == (text@.len() > 0 && is_digit(text@[0])),
{
    if text.as_str().is_empty() {
        false
    } else {
        let ch = text.as_str().get_char(0);
        ch == '0' || ch == '1' || ch == '2' || ch == '3' || ch == '4' || ch == '5' || ch == '6'
            || ch == '7' || ch == '8' || ch == '9'
    }
}

/// The literal that begins at a position, as its spelling and the number of its tokens.
fn literal_here(stream: &Vec<TokenTree>, i: usize) -> (here: Option<(String, usize)>)
    ensures
        match here {
            Some((text, width)) => literal_at(trees(stream@), i as int) == Some(
                (text@, width as int),
            ) && 1 <= width <= 2 && i + width <= stream.len(),
            None => literal_at(trees(stream@), i as int) is None,
        },
{
    if i >= stream.len() {
        return None;
    }
    match &stream[i] {
        TokenTree::Literal(text) => Some((text.clone(), 1)),
        TokenTree::Ident(text) => {
            if *text == String::from_str("true") || *text == String::from_str("false") {
                Some((text.clone(), 1))
            } else {
                None
            }
        },
        TokenTree::Punct(ch, _) => {
            if *ch == '-' && i + 1 < stream.len() {
                match &stream[i + 1] {
                    TokenTree::Literal(text) => {
                        if begins_with_digit(text) {
                            proof {
                                reveal_strlit("-");
                                assert("-"@ =~= seq!['-']);
                            }
                            Some((String::from_str("-").concat(text.as_str()), 2))
                        } else {
                            None
                        }
                    },
                    _ => None,
                }
            } else {
                None
            }
        },
        TokenTree::Group(_, _) => None,
    }
}

/// A result with both sides taken by their models.
spec fn list_result(result: Result<Vec<RawLiteral>, GrammarError>) -> Result<
    Seq<LiteralView>,
    GrammarError,
> {
    match result {
        Ok(items) => Ok(literals(items@)),
        Err(error) => Err(error),
    }
}

/// The items read so far, in front of what the rest of the list gives.
spec fn continued(items: Seq<LiteralView>, rest: Result<Seq<LiteralView>, GrammarError>) -> Result<
    Seq<LiteralView>,
    GrammarError,
> {
    match rest {
        Ok(more) => Ok(items + more),
        Err(error) => Err(error),
    }
}

/// Reads the contents of a bracketed group as a list of literals.
fn parse_list(inner: &Vec<TokenTree>) -> (result: Result<Vec<RawLiteral>, GrammarError>)
    ensures
        list_result(result) == list_items(trees(inner@), 0),
{
    let ghost stream = trees(inner@);
    let mut items: Vec<RawLiteral> = Vec::new();
    let mut at: usize = 0;
    assert(continued(literals(items@), list_items(stream, 0)) == list_items(stream, 0)) by {
        if let Ok(more) = list_items(stream, 0) {
            assert(literals(items@) + more =~= more);
        }
    }
    loop
        invariant
            stream == trees(inner@),
            at <= inner.len(),
            list_items(stream, 0) == continued(literals(items@), list_items(stream, at as int)),
        decreases inner.len() - at,
    {
        let ghost before = literals(items@);
        let (text, width) = match literal_here(inner, at) {
            Some(here) => here,
            None => {
                return Err(value_error(inner, at, Expected::Literal));
            },
        };
        let ghost item = LiteralView { text: text@, index: at };
        items.push(RawLiteral { text, index: at });
        assert(literals(items@) =~= before + seq![item]);
        let after = at + width;
        if after >= inner.len() {
            return Ok(items);
        }
        if !is_punct(&inner[after], ',') {
            return Err(value_error(inner, after, Expected::Comma));
        }
        proof {
            if let Ok(more) = list_items(stream, after + 1) {
                assert(before + (seq![item] + more) =~= (before + seq![item]) + more);
            }
        }
        at = after + 1;
    }
}

/// A result with both sides taken by their models.
spec fn range_result(result: Result<(RawLiteral, RawLiteral, usize), GrammarError>) -> Result<
    (LiteralView, LiteralView, int),
    GrammarError,
> {
    match result {
        Ok((lower, upper, end)) => Ok((lower@, upper@, end as int)),
        Err(error) => Err(error),
    }
}

/// Reads the contents of a parenthesized group as the two bounds of a range.
fn parse_range(inner: &Vec<TokenTree>) -> (result: Result<
    (RawLiteral, RawLiteral, usize),
    GrammarError,
>)
    ensures
        range_result(result) == range_items(trees(inner@)),
        result matches Ok((_, _, end)) ==> end <= inner.len(),
{
    let (lower, width) = match literal_here(inner, 0) {
        Some(here) => here,
        None => {
            return Err(value_error(inner, 0, Expected::Literal));
        },
    };
    let operator = width + 2 < inner.len() && is_joint_punct(&inner[width], '.') && is_joint_punct(
        &inner[width + 1],
        '.',
    ) && is_punct(&inner[width + 2], '=');
    if !operator {
        return Err(value_error(inner, width, Expected::RangeOperator));
    }
    let second = width + 3;
    match literal_here(inner, second) {
        Some((upper, upper_width)) => Ok(
            (
                RawLiteral { text: lower, index: 0 },
                RawLiteral { text: upper, index: second },
                second + upper_width,
            ),
        ),
        None => Err(value_error(inner, second, Expected::Literal)),
    }
}

impl Loop {
    /// Takes an invocation apart, or reports the first token that does not fit the grammar.
    pub fn parse(input: &Vec<TokenTree>) -> (result: Result<Loop, GrammarError>)
        ensures
            loop_result(result) == parsed(trees(input@)),
    {
        let named = input.len() > 0 && match &input[0] {
            TokenTree::Ident(name) => accepts_identifier(name),
            _ => false,
        };
        let formed = input.len() > 5 && match &input[5] {
            TokenTree::Group(Delimiter::Brace, body) => {
                let text = String::from_str("{ ").concat(render(body).as_str()).concat("} ");
                accepts_block(&text)
            },
            _ => false,
        };
        Loop::parse_judged(input, named, formed)
    }

    /// Takes an invocation apart, given what the host language says of its name and of its
    /// body: whether the first token, if it is an identifier, can name a loop variable, and
    /// whether the group in the place of the block holds statements.
    pub fn parse_judged(input: &Vec<TokenTree>, named: bool, formed: bool) -> (result: Result<
        Loop,
        GrammarError,
    >)
        ensures
            loop_result(result) == grammar(trees(input@), named, formed),
    {
        let ident = if input.len() > 0 {
            match &input[0] {
                TokenTree::Ident(name) => Some(name),
                _ => None,
            }
        } else {
            None
        };
        let ident = match ident {
            Some(name) => name,
            None => {
                return Err(input_error(input, 0, Expected::Identifier));
            },
        };
        if !named {
            return Err(
                GrammarError {
                    at: Place::Input(0),
                    expected: Expected::Identifier,
                    found: Found::Keyword,
                },
            );
        }
        let keyword = input.len() > 1 && match &input[1] {
            TokenTree::Ident(word) => *word == String::from_str("in"),
            _ => false,
        };
        if !keyword {
            return Err(input_error(input, 1, Expected::In));
        }
        let group = if input.len() > 2 {
            match &input[2] {
                TokenTree::Group(Delimiter::Bracket, inner) => Some((true, inner)),
                TokenTree::Group(Delimiter::Parenthesis, inner) => Some((false, inner)),
                _ => None,
            }
        } else {
            None
        };
        let (listed, inner) = match group {
            Some(group) => group,
            None => {
                return Err(input_error(input, 2, Expected::ValueSpace));
            },
        };
        let (values, end) = if listed {
            (LoopValues::List(parse_list(inner)?), inner.len())
        } else {
            let (lower, upper, end) = parse_range(inner)?;
            (LoopValues::Range(lower, upper), end)
        };
        let arrow = input.len() > 4 && is_joint_punct(&input[3], '=') && is_punct(&input[4], '>');
        if !arrow {
            return Err(input_error(input, 3, Expected::Arrow));
        }
        let body = if input.len() > 5 {
            match &input[5] {
                TokenTree::Group(Delimiter::Brace, body) => Some(body),
                _ => None,
            }
        } else {
            None
        };
        let body = match body {
            Some(body) => body,
            None => {
                return Err(input_error(input, 5, Expected::Block));
            },
        };
        if !formed {
            return Err(input_error(input, 5, Expected::Statements));
        }
        if end < inner.len() {
            return Err(value_error(inner, end, Expected::End));
        }
        if input.len() > 6 {
            return Err(input_error(input, 6, Expected::End));
        }
        Ok(Loop { ident: ident.clone(), values, block: Block { stmts: clone_stream(body) } })
    }
}

} // verus!
