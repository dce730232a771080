//! Spellings: how an integer is written as a literal, and how the host language reads the
//! spelling of a literal, of an identifier or of a block.
//!
//! Writing and reading are done by `proc_macro2` and `syn`. The functions that call them,
//! and the two that call the standard library to convert decimal digits and to append a
//! character to a string, are the only code of this crate that is taken on trust.

use vstd::prelude::*;

verus! {

/// The character that stands for one decimal digit.
pub open spec fn digit_char(digit: int) -> char
    recommends
        0 <= digit <= 9,
{
    if digit == 0 {
        '0'
    } else if digit == 1 {
        '1'
    } else if digit == 2 {
        '2'
    } else if digit == 3 {
        '3'
    } else if digit == 4 {
        '4'
    } else if digit == 5 {
        '5'
    } else if digit == 6 {
        '6'
    } else if digit == 7 {
        '7'
    } else if digit == 8 {
        '8'
    } else {
        '9'
    }
}

/// The decimal digits of a natural number, most significant first, without leading zeros.
pub open spec fn decimal_digits(n: nat) -> Seq<char>
    decreases n,
{
    if n < 10 {
        seq![digit_char(n as int)]
    } else {
        decimal_digits(n / 10).push(digit_char((n % 10) as int))
    }
}

/// The decimal spelling of an integer: its digits, after a minus sign if it is negative.
pub open spec fn decimal_text(value: int) -> Seq<char> {
    if value < 0 {
        seq!['-'] + decimal_digits((-value) as nat)
    } else {
        decimal_digits(value as nat)
    }
}

/// The digit that a character stands for, if it is a decimal digit.
pub open spec fn digit_value(ch: char) -> Option<int> {
    if ch == '0' {
        Some(0)
    } else if ch == '1' {
        Some(1)
    } else if ch == '2' {
        Some(2)
    } else if ch == '3' {
        Some(3)
    } else if ch == '4' {
        Some(4)
    } else if ch == '5' {
        Some(5)
    } else if ch == '6' {
        Some(6)
    } else if ch == '7' {
        Some(7)
    } else if ch == '8' {
        Some(8)
    } else if ch == '9' {
        Some(9)
    } else {
        None
    }
}

/// The natural number that one or more decimal digits stand for; nothing for an empty text
/// or one with any other character.
pub open spec fn digits_value(digits: Seq<char>) -> Option<int>
    decreases digits.len(),
{
    if digits.len() == 0 {
        None
    } else {
        match digit_value(digits.last()) {
            None => None,
            Some(unit) => if digits.len() == 1 {
                Some(unit)
            } else {
                match digits_value(digits.drop_last()) {
                    Some(tens) => Some(10 * tens + unit),
                    None => None,
                }
            },
        }
    }
}

/// The integer that a decimal text stands for: one or more digits, after a minus or a plus
/// sign if there is one; nothing for any other text.
pub open spec fn decimal_value(text: Seq<char>) -> Option<int> {
    if text.len() > 0 && text[0] == '-' {
        match digits_value(text.skip(1)) {
            Some(value) => Some(-value),
            None => None,
        }
    } else if text.len() > 0 && text[0] == '+' {
        digits_value(text.skip(1))
    } else {
        digits_value(text)
    }
}

/// Whether an integer fits in 128 bits with a sign.
pub open spec fn fits(value: int) -> bool {
    i128::MIN <= value <= i128::MAX
}

/// What the spelling of a literal says when it is read as an integer.
#[derive(Clone, Debug, PartialEq, Eq)]
pub enum IntegerReading {
    /// An integer literal whose value fits in 128 bits.
    Integer(i128),
    /// An integer literal whose digits give no value of 128 bits, with the words of the
    /// failed conversion.
    OutOfRange(String),
    /// Anything else: a string, a float, a boolean, or no literal at all.
    NotInteger,
}

/// The mathematical model of an [`IntegerReading`].
pub enum Reading {
    Integer(int),
    OutOfRange(Seq<char>),
    NotInteger,
}

impl View for IntegerReading {
    type V = Reading;

    open spec fn view(&self) -> Reading {
        match self {
            IntegerReading::Integer(value) => Reading::Integer(*value as int),
            IntegerReading::OutOfRange(words) => Reading::OutOfRange(words@),
            IntegerReading::NotInteger => Reading::NotInteger,
        }
    }
}

/// The decimal digits that `syn` finds in a spelling that is one integer literal, with the
/// minus sign of a negative one in front; nothing for any other spelling.
pub uninterp spec fn integer_digits(text: Seq<char>) -> Option<Seq<char>>;

/// The words with which the standard library refuses to convert a text to an integer of
/// 128 bits.
pub uninterp spec fn conversion_failure(digits: Seq<char>) -> Seq<char>;

/// How a spelling reads as an integer: not at all where it is no integer literal; else as
/// the value of its decimal digits where that fits in 128 bits, and as out of range where
/// it does not.
pub open spec fn literal_reading(text: Seq<char>) -> Reading {
    match integer_digits(text) {
        None => Reading::NotInteger,
        Some(digits) => match decimal_value(digits) {
            Some(value) => if fits(value) {
                Reading::Integer(value)
            } else {
                Reading::OutOfRange(conversion_failure(digits))
            },
            None => Reading::OutOfRange(conversion_failure(digits)),
        },
    }
}

/// Whether `syn` takes a spelling for an identifier that is not a reserved word.
pub uninterp spec fn identifier_accepted(text: Seq<char>) -> bool;

/// Whether `syn` takes a text for a block: a sequence of statements in curly braces.
pub uninterp spec fn block_accepted(text: Seq<char>) -> bool;

/// Spells an integer as a literal without a type suffix.
///
/// Taken on trust: `proc_macro2::Literal::i128_unsuffixed` makes the literal and its
/// `to_string` gives the spelling, which is the value in decimal, with a minus sign
/// in front of a negative one.
#[verifier::external_body]
pub(crate) fn unsuffixed_literal(value: i128) -> (text: String)
    ensures
        text@ == decimal_text(value as int),
{
    proc_macro2::Literal::i128_unsuffixed(value).to_string()
}

/// Finds the decimal digits of a spelling that is one integer literal.
///
/// Taken on trust: `syn::parse_str` tells whether the text is one literal and of which
/// kind, and `syn::LitInt::base10_digits` gives the digits of an integer literal. The
/// outcome depends on the text alone; nothing more is claimed of it.
#[verifier::external_body]
pub(crate) fn read_digits(text: &String) -> (digits: Option<String>)
    ensures
        match digits {
            Some(digits) => integer_digits(text@) == Some(digits@),
            None => integer_digits(text@) is None,
        },
{
    match syn::parse_str::<syn::Lit>(text) {
        Ok(syn::Lit::Int(literal)) => Some(literal.base10_digits().to_string()),
        _ => None,
    }
}

/// Converts a decimal text to an integer of 128 bits.
///
/// Taken on trust: `str::parse` of the standard library, for `i128`. It succeeds exactly
/// for one or more decimal digits, after a minus or a plus sign if there is one, whose
/// value fits in 128 bits, and then gives that value. The words of a failure depend on the
/// text alone; nothing more is claimed of them.
#[verifier::external_body]
pub(crate) fn parse_decimal(digits: &String) -> (result: Result<i128, String>)
    ensures
        match result {
            Ok(value) => decimal_value(digits@) == Some(value as int),
            Err(words) => !(decimal_value(digits@) matches Some(value) && fits(value)) && words@
                == conversion_failure(digits@),
        },
{
    match digits.parse::<i128>() {
        Ok(value) => Ok(value),
        Err(error) => Err(error.to_string()),
    }
}

/// Reads a spelling as an integer literal.
pub fn read_literal(text: &String) -> (reading: IntegerReading)
    ensures
        reading@ == literal_reading(text@),
{
    match read_digits(text) {
        None => IntegerReading::NotInteger,
        Some(digits) => match parse_decimal(&digits) {
            Ok(value) => IntegerReading::Integer(value),
            Err(words) => IntegerReading::OutOfRange(words),
        },
    }
}

/// Asks whether a spelling is an identifier that can name a loop variable.
///
/// Taken on trust: `syn::parse_str` parses the text as a `syn::Ident`, which succeeds for
/// one identifier that is not a reserved word. The outcome depends on the text alone;
/// nothing more is claimed of it.
#[verifier::external_body]
pub(crate) fn accepts_identifier(text: &String) -> (accepted: bool)
    ensures
        accepted == identifier_accepted(text@),
{
    syn::parse_str::<syn::Ident>(text).is_ok()
}

/// Asks whether a text is a block of statements.
///
/// Taken on trust: `syn::parse_str` parses the text as a `syn::Block`, which succeeds for
/// curly braces around a sequence of statements. The outcome depends on the text alone;
/// nothing more is claimed of it.
#[verifier::external_body]
pub(crate) fn accepts_block(text: &String) -> (accepted: bool)
    ensures
        accepted == block_accepted(text@),
{
    syn::parse_str::<syn::Block>(text).is_ok()
}

/// Appends one character to a text.
///
/// Taken on trust: `String::push` of the standard library.
#[verifier::external_body]
pub(crate) fn push_char(text: &mut String, ch: char)
    ensures
        final(text)@ == old(text)@.push(ch),
{
    text.push(ch)
}

/// The first decimal digit of a natural number is a digit, and so no sign.
proof fn lemma_digits_begin_with_a_digit(n: nat)
    ensures
        decimal_digits(n).len() > 0,
        digit_value(decimal_digits(n)[0]) is Some,
    decreases n,
{
    if n >= 10 {
        lemma_digits_begin_with_a_digit(n / 10);
    }
}

/// The decimal digits of a natural number stand for that number.
proof fn lemma_digits_are_read_back(n: nat)
    ensures
        digits_value(decimal_digits(n)) == Some(n as int),
    decreases n,
{
    if n >= 10 {
        let front = decimal_digits(n / 10);
        let all = front.push(digit_char((n % 10) as int));
        lemma_digits_are_read_back(n / 10);
        lemma_digits_begin_with_a_digit(n / 10);
        assert(all.drop_last() =~= front);
        assert(all.last() == digit_char((n % 10) as int));
    }
}

/// Writing and reading agree: the decimal spelling of an integer stands for that integer.
pub proof fn law_written_value_is_read_back(value: int)
    ensures
        decimal_value(decimal_text(value)) == Some(value),
{
    if value < 0 {
        let digits = decimal_digits((-value) as nat);
        lemma_digits_are_read_back((-value) as nat);
        assert(decimal_text(value).skip(1) =~= digits);
    } else {
        lemma_digits_are_read_back(value as nat);
        lemma_digits_begin_with_a_digit(value as nat);
    }
}

/// A literal whose digits are the decimal spelling of an integer reads as that integer
/// where it fits in 128 bits, and is out of range where it does not.
pub proof fn law_literal_reads_as_its_digits(text: Seq<char>, value: int)
    requires
        integer_digits(text) == Some(decimal_text(value)),
    ensures
        fits(value) ==> literal_reading(text) == Reading::Integer(value),
        !fits(value) ==> literal_reading(text) == Reading::OutOfRange(
            conversion_failure(decimal_text(value)),
        ),
{
    law_written_value_is_read_back(value);
}

} // verus!
