use literal_loop::spelling::{read_literal, IntegerReading};

fn read(text: &str) -> IntegerReading {
    read_literal(&text.to_string())
}

fn out_of_range(words: &str) -> IntegerReading {
    IntegerReading::OutOfRange(words.to_string())
}

#[test]
fn decimal_literal_reads_as_its_value() {
    assert_eq!(read("0"), IntegerReading::Integer(0));
    assert_eq!(read("7"), IntegerReading::Integer(7));
    assert_eq!(read("1234567890"), IntegerReading::Integer(1234567890));
    assert_eq!(read("007"), IntegerReading::Integer(7));
}

#[test]
fn minus_sign_makes_the_value_negative() {
    assert_eq!(read("-7"), IntegerReading::Integer(-7));
    assert_eq!(read("-0"), IntegerReading::Integer(0));
    assert_eq!(read("- 12"), IntegerReading::Integer(-12));
}

#[test]
fn digits_are_taken_in_base_ten_whatever_the_literal_is_written_in() {
    assert_eq!(read("0x10"), IntegerReading::Integer(16));
    assert_eq!(read("0xff"), IntegerReading::Integer(255));
    assert_eq!(read("0o10"), IntegerReading::Integer(8));
    assert_eq!(read("0b10"), IntegerReading::Integer(2));
    assert_eq!(read("-0b11"), IntegerReading::Integer(-3));
}

#[test]
fn underscores_and_suffixes_do_not_count() {
    assert_eq!(read("1_000_000"), IntegerReading::Integer(1000000));
    assert_eq!(read("42u8"), IntegerReading::Integer(42));
    assert_eq!(read("42_i64"), IntegerReading::Integer(42));
    assert_eq!(read("300u8"), IntegerReading::Integer(300));
}

#[test]
fn ends_of_the_range_of_128_bits_are_read() {
    assert_eq!(
        read("170141183460469231731687303715884105727"),
        IntegerReading::Integer(i128::MAX)
    );
    assert_eq!(
        read("-170141183460469231731687303715884105728"),
        IntegerReading::Integer(i128::MIN)
    );
    assert_eq!(read("0x7fffffffffffffffffffffffffffffff"), IntegerReading::Integer(i128::MAX));
}

#[test]
fn one_beyond_the_range_is_out_of_range() {
    assert_eq!(
        read("170141183460469231731687303715884105728"),
        out_of_range("number too large to fit in target type")
    );
    assert_eq!(
        read("-170141183460469231731687303715884105729"),
        out_of_range("number too small to fit in target type")
    );
    assert_eq!(
        read("0x80000000000000000000000000000000"),
        out_of_range("number too large to fit in target type")
    );
}

#[test]
fn other_literals_are_no_integers() {
    for text in ["1.0", "1.", "1e3", "2.5f32", "\"1\"", "'1'", "b'1'", "b\"1\"", "true", "false"] {
        assert_eq!(read(text), IntegerReading::NotInteger);
    }
}

#[test]
fn what_is_no_single_literal_is_no_integer() {
    for text in ["", " ", "x", "+1", "--1", "1 2", "1,", "(1)", "[1]", "-", "0x", "\"open"] {
        assert_eq!(read(text), IntegerReading::NotInteger);
    }
}
