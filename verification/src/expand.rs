//! The expansion of an invocation: one copy of the body for each value, in order.

use vstd::prelude::*;
use crate::error::{ExpandError, ExpandErrorView, Role};
use crate::grammar::{
    invocation, law_list_invocation_is_accepted, law_range_invocation_is_accepted, listed,
    parsed, separated, Loop, LoopView,
};
use crate::render::rendered_tree;
use crate::spelling::{
    block_accepted, decimal_text, identifier_accepted, literal_reading, unsuffixed_literal,
    Reading,
};
use crate::substitute::{replace_tokens, substitute};
use crate::token::{trees, Block, Delimiter, Spacing, TokenTree, Tree};
use crate::values::{
    fault_of, inclusive_range, integers, is_first_fault, law_first_non_integer_is_reported,
    law_list_keeps_its_values, literals_of, readings_of, values_given, LiteralView, ValuesView,
};

verus! {

/// The copies of a body for a sequence of values: for each value in order, the body with the
/// loop variable replaced by the decimal spelling of the value, one copy after the other with
/// nothing in between.
pub open spec fn unrolled(block: Seq<Tree>, name: Seq<char>, values: Seq<int>) -> Seq<Tree>
    decreases values.len(),
{
    if values.len() == 0 {
        Seq::empty()
    } else {
        unrolled(block, name, values.drop_last()) + substitute(
            block,
            name,
            decimal_text(values.last()),
        )
    }
}

/// What a loop expands to when its literals read as `readings`, one reading for each literal
/// in order: the copies of its body for its values, or the error of the first literal that
/// is not an integer.
pub open spec fn outcome(input: LoopView, readings: Seq<Reading>) -> Result<
    Seq<Tree>,
    ExpandErrorView,
>
    recommends
        readings.len() == literals_of(input.values).len(),
{
    match values_given(input.values, readings) {
        Err(error) => Err(ExpandErrorView::Value(error)),
        Ok(values) => Ok(unrolled(input.block, input.ident, values)),
    }
}

/// What an invocation expands to: the copies of its body for its values, or the first error
/// of its grammar or of its values.
pub open spec fn expansion(stream: Seq<Tree>) -> Result<Seq<Tree>, ExpandErrorView> {
    match parsed(stream) {
        Err(error) => Err(ExpandErrorView::Grammar(error)),
        Ok(input) => outcome(input, readings_of(literals_of(input.values))),
    }
}

/// A result with both sides taken by their models.
pub open spec fn stream_result(result: Result<Vec<TokenTree>, ExpandError>) -> Result<
    Seq<Tree>,
    ExpandErrorView,
> {
    match result {
        Ok(stream) => Ok(trees(stream@)),
        Err(error) => Err(error@),
    }
}

/// Makes the copy of a body for one value: every identifier spelled like `ident`, at every
/// depth, becomes the unsuffixed decimal literal of `value`, and nothing else changes.
pub fn substituted_block(block: &Block, ident: &String, value: i128) -> (unit: Vec<TokenTree>)
    ensures
        trees(unit@) == substitute(block@, ident@, decimal_text(value as int)),
{
    let literal = unsuffixed_literal(value);
    replace_tokens(&block.stmts, ident, &literal)
}

/// Makes the copies of a body for the given values and puts them one after the other.
pub fn unroll(block: &Block, ident: &String, values: &Vec<i128>) -> (out: Vec<TokenTree>)
    ensures
        trees(out@) == unrolled(block@, ident@, integers(values@)),
{
    let mut out: Vec<TokenTree> = Vec::new();
    let mut i: usize = 0;
    while i < values.len()
        invariant
            i <= values.len(),
            trees(out@) == unrolled(block@, ident@, integers(values@).take(i as int)),
        decreases values.len() - i,
    {
        let ghost before = trees(out@);
        let mut unit = substituted_block(block, ident, values[i]);
        let ghost copy = trees(unit@);
        out.append(&mut unit);
        proof {
            let taken = integers(values@).take(i + 1);
            assert(taken.drop_last() =~= integers(values@).take(i as int));
            assert(taken.last() == values[i as int] as int);
            assert(trees(out@) =~= before + copy);
        }
        i += 1;
    }
    assert(integers(values@).take(values.len() as int) =~= integers(values@));
    out
}

/// Expands an invocation: takes it apart, reads its values, and makes one copy of the body
/// for each value, in order. Fails with the first error of the grammar, or else with the
/// first literal that is not an integer of 128 bits.
pub fn repeat_for(stream: &Vec<TokenTree>) -> (result: Result<Vec<TokenTree>, ExpandError>)
    ensures
        stream_result(result) == expansion(trees(stream@)),
{
    let input = match Loop::parse(stream) {
        Ok(input) => input,
        Err(error) => {
            return Err(ExpandError::Grammar(error));
        },
    };
    let values = match input.values.expand() {
        Ok(values) => values,
        Err(error) => {
            return Err(ExpandError::Value(error));
        },
    };
    Ok(unroll(&input.block, &input.ident, &values))
}

/// The expansion holds as many tokens as the body, once for each value: nothing is put
/// between two copies or around them.
pub proof fn law_copies_fill_the_expansion(block: Seq<Tree>, name: Seq<char>, values: Seq<int>)
    ensures
        unrolled(block, name, values).len() == values.len() * block.len(),
    decreases values.len(),
{
    if values.len() > 0 {
        law_copies_fill_the_expansion(block, name, values.drop_last());
        assert(values.len() * block.len() == (values.len() - 1) * block.len() + block.len())
            by (nonlinear_arith);
    }
}

/// The copies stand in the order of the values: the copy with index `k` is the body with
/// the loop variable replaced by the value with index `k`, whether or not that value has
/// come before.
pub proof fn law_copies_follow_the_values(
    block: Seq<Tree>,
    name: Seq<char>,
    values: Seq<int>,
    k: int,
)
    requires
        0 <= k < values.len(),
    ensures
        0 <= k * block.len() <= (k + 1) * block.len() <= unrolled(block, name, values).len(),
        unrolled(block, name, values).subrange(k * block.len(), (k + 1) * block.len())
            == substitute(block, name, decimal_text(values[k])),
    decreases values.len(),
{
    let n = block.len() as int;
    let front = values.drop_last();
    law_copies_fill_the_expansion(block, name, values);
    law_copies_fill_the_expansion(block, name, front);
    assert((k + 1) * n == k * n + n) by (nonlinear_arith);
    assert(0 <= k * n) by (nonlinear_arith)
        requires
            0 <= k,
            0 <= n,
    ;
    assert((k + 1) * n <= values.len() * n) by (nonlinear_arith)
        requires
            k + 1 <= values.len(),
            0 <= n,
    ;
    let whole = unrolled(block, name, values);
    let last = substitute(block, name, decimal_text(values.last()));
    if k == values.len() - 1 {
        assert(whole.subrange(k * n, (k + 1) * n) =~= last);
    } else {
        law_copies_follow_the_values(block, name, front, k);
        assert(front[k] == values[k]);
        assert(whole.subrange(k * n, (k + 1) * n) =~= unrolled(block, name, front).subrange(
            k * n,
            (k + 1) * n,
        ));
    }
}

/// A list of integer literals expands to the copies of the body for exactly those integers:
/// as many copies as the list has literals, in the order of the list.
pub proof fn law_list_expands_to_its_copies(
    ident: Seq<char>,
    block: Seq<Tree>,
    items: Seq<LiteralView>,
    values: Seq<int>,
)
    requires
        values.len() == items.len(),
    ensures
        outcome(
            LoopView { ident, values: ValuesView::List(items), block },
            values.map_values(|v: int| Reading::Integer(v)),
        ) == Ok::<Seq<Tree>, ExpandErrorView>(unrolled(block, ident, values)),
{
    law_list_keeps_its_values(items, values);
}

/// A loop with a literal that is not an integer of 128 bits expands to nothing but the
/// error for the first such literal.
pub proof fn law_non_integer_stops_the_expansion(input: LoopView, readings: Seq<Reading>, k: int)
    requires
        readings.len() == literals_of(input.values).len(),
        is_first_fault(readings, k),
    ensures
        outcome(input, readings) is Err,
        outcome(input, readings)->Err_0 is Value,
        outcome(input, readings)->Err_0->Value_0.literal == literals_of(input.values)[k].text,
        outcome(input, readings)->Err_0->Value_0.index == literals_of(input.values)[k].index,
{
    law_first_non_integer_is_reported(input.values, readings, k);
}

/// A range whose lower bound does not exceed its upper bound expands as the list of the
/// integers from the one to the other does.
pub proof fn law_range_is_the_list_of_its_integers(
    ident: Seq<char>,
    block: Seq<Tree>,
    lower: LiteralView,
    upper: LiteralView,
    low: int,
    high: int,
    items: Seq<LiteralView>,
)
    requires
        low <= high,
        items.len() == high - low + 1,
    ensures
        outcome(
            LoopView { ident, values: ValuesView::Range(lower, upper), block },
            seq![Reading::Integer(low), Reading::Integer(high)],
        ) == outcome(
            LoopView { ident, values: ValuesView::List(items), block },
            Seq::new(items.len(), |i: int| Reading::Integer(low + i)),
        ),
{
    let readings = Seq::new(items.len(), |i: int| Reading::Integer(low + i));
    assert(Seq::new(items.len(), |i: int| readings[i]->Integer_0) =~= inclusive_range(low, high));
}

/// A range whose lower bound exceeds its upper bound expands to nothing at all, and that
/// is no error.
pub proof fn law_descending_range_expands_to_nothing(
    ident: Seq<char>,
    block: Seq<Tree>,
    lower: LiteralView,
    upper: LiteralView,
    low: int,
    high: int,
)
    requires
        low > high,
    ensures
        outcome(
            LoopView { ident, values: ValuesView::Range(lower, upper), block },
            seq![Reading::Integer(low), Reading::Integer(high)],
        ) == Ok::<Seq<Tree>, ExpandErrorView>(Seq::empty()),
{
    assert(inclusive_range(low, high) =~= Seq::<int>::empty());
}

/// An invocation with a list of one or more literals expands to the copies of its body for
/// the integers that its literals read as, in the order of the list, provided that the host
/// language accepts the name and the body.
pub proof fn law_list_invocation_expands(
    name: Seq<char>,
    texts: Seq<Seq<char>>,
    body: Seq<Tree>,
    values: Seq<int>,
)
    requires
        identifier_accepted(name),
        block_accepted(rendered_tree(Tree::Group(Delimiter::Brace, body))),
        texts.len() > 0,
        values.len() == texts.len(),
        forall|i: int| 0 <= i < texts.len() ==> literal_reading(#[trigger] texts[i])
            == Reading::Integer(values[i]),
    ensures
        expansion(invocation(name, Tree::Group(Delimiter::Bracket, separated(texts)), body))
            == Ok::<Seq<Tree>, ExpandErrorView>(unrolled(body, name, values)),
{
    law_list_invocation_is_accepted(name, texts, body);
    let readings = readings_of(listed(texts));
    assert(readings =~= values.map_values(|v: int| Reading::Integer(v)));
    law_list_expands_to_its_copies(name, body, listed(texts), values);
}

/// An invocation with a list in which some literal is no integer of 128 bits, be it a string,
/// a float or an integer out of range, expands to nothing: it fails with the error for the
/// first such literal.
pub proof fn law_list_invocation_with_a_bad_literal_fails(
    name: Seq<char>,
    texts: Seq<Seq<char>>,
    body: Seq<Tree>,
    k: int,
)
    requires
        identifier_accepted(name),
        block_accepted(rendered_tree(Tree::Group(Delimiter::Brace, body))),
        texts.len() > 0,
        is_first_fault(readings_of(listed(texts)), k),
    ensures
        expansion(invocation(name, Tree::Group(Delimiter::Bracket, separated(texts)), body))
            == Err::<Seq<Tree>, ExpandErrorView>(
            ExpandErrorView::Value(
                fault_of(listed(texts)[k], literal_reading(texts[k]), Role::ListValue),
            ),
        ),
{
    law_list_invocation_is_accepted(name, texts, body);
    law_first_non_integer_is_reported(
        ValuesView::List(listed(texts)),
        readings_of(listed(texts)),
        k,
    );
}

/// An invocation with a range expands to the copies of its body for every integer from the
/// lower bound up to the upper, both included, and so to nothing where the lower bound is
/// the greater, provided that the host language accepts the name and the body.
pub proof fn law_range_invocation_expands(
    name: Seq<char>,
    lower: Seq<char>,
    upper: Seq<char>,
    body: Seq<Tree>,
    low: int,
    high: int,
)
    requires
        identifier_accepted(name),
        block_accepted(rendered_tree(Tree::Group(Delimiter::Brace, body))),
        literal_reading(lower) == Reading::Integer(low),
        literal_reading(upper) == Reading::Integer(high),
    ensures
        expansion(
            invocation(
                name,
                Tree::Group(
                    Delimiter::Parenthesis,
                    seq![
                        Tree::Literal(lower),
                        Tree::Punct('.', Spacing::Joint),
                        Tree::Punct('.', Spacing::Joint),
                        Tree::Punct('=', Spacing::Alone),
                        Tree::Literal(upper),
                    ],
                ),
                body,
            ),
        ) == Ok::<Seq<Tree>, ExpandErrorView>(unrolled(body, name, inclusive_range(low, high))),
        low > high ==> unrolled(body, name, inclusive_range(low, high)) == Seq::<Tree>::empty(),
{
    law_range_invocation_is_accepted(name, lower, upper, Spacing::Alone, body);
    if low > high {
        assert(inclusive_range(low, high) =~= Seq::<int>::empty());
    }
}

} // verus!
