//! The values of a loop: a list of literals or an inclusive range between two literals,
//! and the integers that they stand for.

use vstd::prelude::*;
use crate::error::{Fault, FaultView, Role, ValueParseError, ValueParseErrorView};
use crate::spelling::{literal_reading, read_literal, IntegerReading, Reading};

verus! {

/// A literal as it stands in the input, not yet read as an integer.
#[derive(Clone, Debug, PartialEq, Eq)]
pub struct RawLiteral {
    /// The spelling, with the minus sign of a negative number in front.
    pub text: String,
    /// The index of the literal's first token inside the group that holds the values.
    pub index: usize,
}

/// The mathematical model of a [`RawLiteral`].
pub struct LiteralView {
    pub text: Seq<char>,
    pub index: usize,
}

impl View for RawLiteral {
    type V = LiteralView;

    open spec fn view(&self) -> LiteralView {
        LiteralView { text: self.text@, index: self.index }
    }
}

/// The description of the values that a loop runs over.
#[derive(Clone, Debug, PartialEq, Eq)]
pub enum LoopValues {
    /// The values, one by one, in the order in which the loop takes them.
    List(Vec<RawLiteral>),
    /// Every integer from the first bound up to the second, both included.
    Range(RawLiteral, RawLiteral),
}

/// The mathematical model of [`LoopValues`].
pub enum ValuesView {
    List(Seq<LiteralView>),
    Range(LiteralView, LiteralView),
}

/// The models of a sequence of literals, element by element.
pub open spec fn literals(items: Seq<RawLiteral>) -> Seq<LiteralView> {
    Seq::new(items.len(), |i: int| items[i]@)
}

impl View for LoopValues {
    type V = ValuesView;

    open spec fn view(&self) -> ValuesView {
        match self {
            LoopValues::List(items) => ValuesView::List(literals(items@)),
            LoopValues::Range(lower, upper) => ValuesView::Range(lower@, upper@),
        }
    }
}

/// A result with both sides taken by their models.
pub open spec fn integer_result(result: Result<i128, ValueParseError>) -> Result<
    int,
    ValueParseErrorView,
> {
    match result {
        Ok(value) => Ok(value as int),
        Err(error) => Err(error@),
    }
}

/// The integers of a sequence of 128-bit values.
pub open spec fn integers(values: Seq<i128>) -> Seq<int> {
    Seq::new(values.len(), |i: int| values[i] as int)
}

/// A result with both sides taken by their models.
pub open spec fn integers_result(result: Result<Vec<i128>, ValueParseError>) -> Result<
    Seq<int>,
    ValueParseErrorView,
> {
    match result {
        Ok(values) => Ok(integers(values@)),
        Err(error) => Err(error@),
    }
}

/// The error for a literal that does not read as an integer of 128 bits.
pub open spec fn fault_of(literal: LiteralView, reading: Reading, role: Role) -> ValueParseErrorView
    recommends
        reading !is Integer,
{
    ValueParseErrorView {
        literal: literal.text,
        index: literal.index,
        role,
        fault: match reading {
            Reading::OutOfRange(words) => FaultView::OutOfRange(words),
            _ => FaultView::NotInteger,
        },
    }
}

/// The integer that a literal stands for, given how its spelling reads.
pub open spec fn integer_of(literal: LiteralView, reading: Reading, role: Role) -> Result<
    int,
    ValueParseErrorView,
> {
    match reading {
        Reading::Integer(value) => Ok(value),
        _ => Err(fault_of(literal, reading, role)),
    }
}

/// Every integer from `lower` up to `upper`, both included, in rising order; none if
/// `lower` exceeds `upper`.
pub open spec fn inclusive_range(lower: int, upper: int) -> Seq<int> {
    Seq::new(
        if lower <= upper {
            (upper - lower + 1) as nat
        } else {
            0
        },
        |i: int| lower + i,
    )
}

/// Whether `k` is the first position whose reading is not an integer.
pub open spec fn is_first_fault(readings: Seq<Reading>, k: int) -> bool {
    &&& 0 <= k < readings.len()
    &&& readings[k] !is Integer
    &&& forall|j: int| 0 <= j < k ==> readings[j] is Integer
}

/// The values of a list whose literals read as `readings`: the integers in the order of the
/// list, repeated where the list repeats them, or the error for the first literal that is
/// not an integer.
pub open spec fn list_values(items: Seq<LiteralView>, readings: Seq<Reading>) -> Result<
    Seq<int>,
    ValueParseErrorView,
>
    recommends
        readings.len() == items.len(),
{
    if forall|i: int| 0 <= i < items.len() ==> (#[trigger] readings[i]) is Integer {
        Ok(Seq::new(items.len(), |i: int| readings[i]->Integer_0))
    } else {
        let k = choose|k: int| is_first_fault(readings.take(items.len() as int), k);
        Err(fault_of(items[k], readings[k], Role::ListValue))
    }
}

/// The values of a range whose bounds read as `lower_reading` and `upper_reading`: the
/// integers between the bounds, or the error for the first bound that is not an integer.
pub open spec fn range_values(
    lower: LiteralView,
    lower_reading: Reading,
    upper: LiteralView,
    upper_reading: Reading,
) -> Result<Seq<int>, ValueParseErrorView> {
    match (lower_reading, upper_reading) {
        (Reading::Integer(low), Reading::Integer(high)) => Ok(inclusive_range(low, high)),
        (Reading::Integer(_), _) => Err(fault_of(upper, upper_reading, Role::RangeBound)),
        _ => Err(fault_of(lower, lower_reading, Role::RangeBound)),
    }
}

/// How the spelling of each literal of a sequence reads.
pub open spec fn readings_of(items: Seq<LiteralView>) -> Seq<Reading> {
    Seq::new(items.len(), |i: int| literal_reading(items[i].text))
}

/// The literals of a description, in the order in which they are read.
pub open spec fn literals_of(values: ValuesView) -> Seq<LiteralView> {
    match values {
        ValuesView::List(items) => items,
        ValuesView::Range(lower, upper) => seq![lower, upper],
    }
}

/// The values that a description stands for when its literals read as `readings`, one
/// reading for each literal in order.
pub open spec fn values_given(values: ValuesView, readings: Seq<Reading>) -> Result<
    Seq<int>,
    ValueParseErrorView,
>
    recommends
        readings.len() == literals_of(values).len(),
{
    match values {
        ValuesView::List(items) => list_values(items, readings),
        ValuesView::Range(lower, upper) => range_values(lower, readings[0], upper, readings[1]),
    }
}

/// The values that a description stands for.
pub open spec fn values_of(values: ValuesView) -> Result<Seq<int>, ValueParseErrorView> {
    values_given(values, readings_of(literals_of(values)))
}

/// A list or a range is rejected as soon as one of its literals is not an integer of 128
/// bits, and the error names the first such literal.
pub proof fn law_first_non_integer_is_reported(values: ValuesView, readings: Seq<Reading>, k: int)
    requires
        readings.len() == literals_of(values).len(),
        is_first_fault(readings, k),
    ensures
        values_given(values, readings) == Err::<Seq<int>, ValueParseErrorView>(
            fault_of(
                literals_of(values)[k],
                readings[k],
                if values is List {
                    Role::ListValue
                } else {
                    Role::RangeBound
                },
            ),
        ),
{
    match values {
        ValuesView::List(items) => {
            let taken = readings.take(items.len() as int);
            assert(taken =~= readings);
            let chosen = choose|j: int| is_first_fault(taken, j);
            assert(chosen == k);
        },
        ValuesView::Range(lower, upper) => {},
    }
}

/// A list whose literals are all integers gives exactly those integers, as many as the list
/// has literals and in its order, with nothing left out where a value comes twice.
pub proof fn law_list_keeps_its_values(items: Seq<LiteralView>, values: Seq<int>)
    requires
        values.len() == items.len(),
    ensures
        values_given(ValuesView::List(items), values.map_values(|v: int| Reading::Integer(v)))
            == Ok::<Seq<int>, ValueParseErrorView>(values),
{
    let readings = values.map_values(|v: int| Reading::Integer(v));
    assert(Seq::new(items.len(), |i: int| readings[i]->Integer_0) =~= values);
}

impl RawLiteral {
    /// The integer that the literal stands for, given how its spelling reads: the value of
    /// an integer reading, and an error that names the literal for any other.
    pub fn integer(&self, reading: IntegerReading, role: Role) -> (result: Result<
        i128,
        ValueParseError,
    >)
        ensures
            integer_result(result) == integer_of(self@, reading@, role),
    {
        match reading {
            IntegerReading::Integer(value) => Ok(value),
            IntegerReading::OutOfRange(words) => Err(
                ValueParseError {
                    literal: self.text.clone(),
                    index: self.index,
                    role,
                    fault: Fault::OutOfRange(words),
                },
            ),
            IntegerReading::NotInteger => Err(
                ValueParseError {
                    literal: self.text.clone(),
                    index: self.index,
                    role,
                    fault: Fault::NotInteger,
                },
            ),
        }
    }
}

/// Counts from `lower` up to `upper`, both included.
pub fn count_up(lower: i128, upper: i128) -> (values: Vec<i128>)
    ensures
        integers(values@) == inclusive_range(lower as int, upper as int),
{
    let mut values: Vec<i128> = Vec::new();
    if lower > upper {
        assert(integers(values@) =~= inclusive_range(lower as int, upper as int));
        return values;
    }
    let mut next: i128 = lower;
    loop
        invariant_except_break
            lower <= next <= upper,
            values.len() == next - lower,
            forall|i: int| 0 <= i < values.len() ==> values[i] == lower + i,
        ensures
            values.len() == upper - lower + 1,
            forall|i: int| 0 <= i < values.len() ==> values[i] == lower + i,
        decreases upper - next,
    {
        values.push(next);
        if next == upper {
            break ;
        }
        next = next + 1;
    }
    assert(integers(values@) =~= inclusive_range(lower as int, upper as int));
    values
}

impl LoopValues {
    /// Reads the literals and gives the integers that the loop runs over, in order, or the
    /// error for the first literal that is not an integer of 128 bits.
    pub fn expand(&self) -> (result: Result<Vec<i128>, ValueParseError>)
        ensures
            integers_result(result) == values_of(self@),
    {
        match self {
            LoopValues::List(items) => {
                let ghost readings = readings_of(literals(items@));
                let mut values: Vec<i128> = Vec::new();
                let mut i: usize = 0;
                while i < items.len()
                    invariant
                        i <= items.len(),
                        values.len() == i,
                        self@ == ValuesView::List(literals(items@)),
                        readings == readings_of(literals(items@)),
                        forall|j: int| 0 <= j < i ==> readings[j] == Reading::Integer(values[j] as int),
                    decreases items.len() - i,
                {
                    let reading = read_literal(&items[i].text);
                    assert(readings[i as int] == reading@);
                    match items[i].integer(reading, Role::ListValue) {
                        Ok(value) => {
                            values.push(value);
                        },
                        Err(error) => {
                            proof {
                                law_first_non_integer_is_reported(self@, readings, i as int);
                            }
                            return Err(error);
                        },
                    }
                    i += 1;
                }
                assert(integers(values@) =~= Seq::new(
                    literals(items@).len(),
                    |i: int| readings[i]->Integer_0,
                ));
                Ok(values)
            },
            LoopValues::Range(lower, upper) => {
                let low = lower.integer(read_literal(&lower.text), Role::RangeBound)?;
                let high = upper.integer(read_literal(&upper.text), Role::RangeBound)?;
                Ok(count_up(low, high))
            },
        }
    }
}

} // verus!
