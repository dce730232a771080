use literal_loop::error::{ExpandError, Expected, Fault, Found, GrammarError, Place, Role};
use literal_loop::expand::unroll;
use literal_loop::repeat_for;
use literal_loop::token::{Block, Delimiter, Spacing, TokenTree};

/// The token trees of a piece of source text, as the lexer of `proc_macro2` cuts them.
fn lex(source: &str) -> Vec<TokenTree> {
    let stream: proc_macro2::TokenStream = source.parse().unwrap();
    convert(stream)
}

fn convert(stream: proc_macro2::TokenStream) -> Vec<TokenTree> {
    let mut out = Vec::new();
    for tree in stream {
        out.push(match tree {
            proc_macro2::TokenTree::Group(group) => {
                let delimiter = match group.delimiter() {
                    proc_macro2::Delimiter::Parenthesis => Delimiter::Parenthesis,
                    proc_macro2::Delimiter::Brace => Delimiter::Brace,
                    proc_macro2::Delimiter::Bracket => Delimiter::Bracket,
                    proc_macro2::Delimiter::None => Delimiter::Invisible,
                };
                TokenTree::Group(delimiter, convert(group.stream()))
            }
            proc_macro2::TokenTree::Ident(ident) => TokenTree::Ident(ident.to_string()),
            proc_macro2::TokenTree::Punct(punct) => TokenTree::Punct(
                punct.as_char(),
                match punct.spacing() {
                    proc_macro2::Spacing::Alone => Spacing::Alone,
                    proc_macro2::Spacing::Joint => Spacing::Joint,
                },
            ),
            proc_macro2::TokenTree::Literal(literal) => TokenTree::Literal(literal.to_string()),
        });
    }
    out
}

#[test]
fn list_of_three_indices() {
    assert_eq!(
        repeat_for(&lex("i in [1, 2, 3] => { arr[i] = i * 2; }")),
        Ok(lex("arr[1] = 1 * 2; arr[2] = 2 * 2; arr[3] = 3 * 2;"))
    );
}

#[test]
fn range_from_zero_to_two() {
    assert_eq!(
        repeat_for(&lex("n in (0..=2) => { println(n); }")),
        Ok(lex("println(0); println(1); println(2);"))
    );
}

#[test]
fn one_copy_for_each_value_in_the_order_of_the_list() {
    let out = repeat_for(&lex("x in [30, 10, 20, 10] => { f(x); g(y, x) }")).unwrap();
    let body = 5;
    assert_eq!(out.len(), 4 * body);
    assert_eq!(out[..body].to_vec(), lex("f(30); g(y, 30)"));
    assert_eq!(out[body..2 * body].to_vec(), lex("f(10); g(y, 10)"));
    assert_eq!(out[2 * body..3 * body].to_vec(), lex("f(20); g(y, 20)"));
    assert_eq!(out[3 * body..].to_vec(), lex("f(10); g(y, 10)"));
}

#[test]
fn range_expands_as_the_list_of_its_integers() {
    assert_eq!(
        repeat_for(&lex("x in (3..=6) => { let a = [x; x]; }")),
        repeat_for(&lex("x in [3, 4, 5, 6] => { let a = [x; x]; }"))
    );
    assert_eq!(
        repeat_for(&lex("x in (-1..=1) => { t(x) }")),
        repeat_for(&lex("x in [-1, 0, 1] => { t(x) }"))
    );
}

#[test]
fn descending_range_expands_to_nothing() {
    assert_eq!(repeat_for(&lex("x in (5..=4) => { f(x); }")), Ok(Vec::new()));
    assert_eq!(repeat_for(&lex("x in (0..=-1) => { f(x); }")), Ok(Vec::new()));
}

#[test]
fn empty_list_is_a_grammar_error() {
    assert_eq!(
        repeat_for(&lex("x in [] => { f(x); }")),
        Err(ExpandError::Grammar(GrammarError {
            at: Place::ValueSpace(0),
            expected: Expected::Literal,
            found: Found::End,
        }))
    );
}

#[test]
fn comma_at_the_end_of_a_list_is_a_grammar_error() {
    let error = repeat_for(&lex("x in [1, 2,] => { f(x); }")).unwrap_err();
    assert_eq!(error.place(), Place::ValueSpace(4));
    assert_eq!(error.message(), "expected literal, found the end of the input");
}

#[test]
fn list_of_one_value_expands_to_one_copy() {
    assert_eq!(repeat_for(&lex("x in [9] => { f(x); }")), Ok(lex("f(9);")));
}

#[test]
fn empty_body_expands_to_nothing() {
    assert_eq!(repeat_for(&lex("x in [1, 2] => { }")), Ok(Vec::new()));
}

#[test]
fn nested_groups_are_substituted_like_the_top_level() {
    assert_eq!(
        repeat_for(&lex("x in [7] => { a(x, [x, (x)], {x}); x }")),
        Ok(lex("a(7, [7, (7)], {7}); 7"))
    );
}

#[test]
fn negative_value_is_one_literal() {
    assert_eq!(
        repeat_for(&lex("x in [-3] => { f(x) }")),
        Ok(vec![
            TokenTree::Ident("f".to_string()),
            TokenTree::Group(Delimiter::Parenthesis, vec![TokenTree::Literal("-3".to_string())]),
        ])
    );
}

#[test]
fn values_are_written_in_decimal_without_suffix() {
    assert_eq!(repeat_for(&lex("x in [0x10, 1_0u8, 0b11] => { x }")), Ok(lex("16 10 3")));
}

#[test]
fn tokens_that_only_look_alike_are_kept() {
    assert_eq!(
        repeat_for(&lex("x in [1] => { xx + x1 + \"x\" + 'x' + x.x + s::x + X }")),
        Ok(lex("xx + x1 + \"x\" + 'x' + 1 . 1 + s::1 + X"))
    );
}

#[test]
fn redeclaration_in_the_body_is_substituted() {
    assert_eq!(
        repeat_for(&lex("x in [4] => { let x = 0; { let x = x; } }")),
        Ok(lex("let 4 = 0; { let 4 = 4; }"))
    );
}

#[test]
fn string_in_a_list_is_a_value_error() {
    let error = repeat_for(&lex("i in [1, \"two\"] => { f(i); }")).unwrap_err();
    match &error {
        ExpandError::Value(value) => {
            assert_eq!(value.literal, "\"two\"");
            assert_eq!(value.index, 2);
            assert_eq!(value.role, Role::ListValue);
            assert_eq!(value.fault, Fault::NotInteger);
        }
        other => panic!("not a value error: {:?}", other),
    }
    assert_eq!(error.place(), Place::ValueSpace(2));
    assert_eq!(error.message(), "List values must be integers");
}

#[test]
fn float_bound_is_a_value_error() {
    let error = repeat_for(&lex("i in (1..=2.5) => { f(i); }")).unwrap_err();
    assert_eq!(error.place(), Place::ValueSpace(4));
    assert_eq!(error.message(), "Range bounds must be integers");
}

#[test]
fn value_beyond_128_bits_is_a_value_error() {
    let error =
        repeat_for(&lex("i in [340282366920938463463374607431768211456] => { f(i); }")).unwrap_err();
    assert_eq!(error.place(), Place::ValueSpace(0));
    assert_eq!(error.message(), "number too large to fit in target type");
}

#[test]
fn token_after_in_that_holds_no_values_is_a_grammar_error() {
    for source in ["i in 5 => { }", "i in values => { }", "i in {1, 2} => { }", "i in => { }"] {
        match repeat_for(&lex(source)) {
            Err(ExpandError::Grammar(error)) => {
                assert_eq!(error.at, Place::Input(2));
                assert_eq!(error.expected, Expected::ValueSpace);
            }
            other => panic!("no grammar error: {:?}", other),
        }
    }
}

#[test]
fn grammar_error_comes_before_value_error() {
    assert_eq!(
        repeat_for(&lex("i in [\"a\"] { }")),
        Err(ExpandError::Grammar(GrammarError {
            at: Place::Input(3),
            expected: Expected::Arrow,
            found: Found::Group(Delimiter::Brace),
        }))
    );
}

#[test]
fn grammar_error_has_place_and_message() {
    let error = repeat_for(&lex("i of [1] => { }")).unwrap_err();
    assert_eq!(error.place(), Place::Input(1));
    assert_eq!(error.message(), "expected `in`, found an identifier");
}

#[test]
fn body_that_holds_no_statements_is_a_grammar_error() {
    for source in ["i in [1] => { i + }", "i in (5..=4) => { let = ; }", "i in [1, 2] => { fn }"] {
        assert_eq!(
            repeat_for(&lex(source)),
            Err(ExpandError::Grammar(GrammarError {
                at: Place::Input(5),
                expected: Expected::Statements,
                found: Found::Group(Delimiter::Brace),
            }))
        );
    }
}

#[test]
fn body_is_judged_before_the_values_are_put_in() {
    // `x.f()` holds statements, though `1.f()` would not be taken for a method call.
    assert_eq!(repeat_for(&lex("x in [1] => { x.f(); fn x() {} }")), Ok(lex("1 . f(); fn 1() {}")));
}

#[test]
fn exclusive_range_is_a_grammar_error() {
    match repeat_for(&lex("i in (0..3) => { }")) {
        Err(ExpandError::Grammar(error)) => {
            assert_eq!(error.at, Place::ValueSpace(1));
            assert_eq!(error.expected, Expected::RangeOperator);
        }
        other => panic!("no grammar error: {:?}", other),
    }
}

#[test]
fn unroll_puts_the_copies_one_after_the_other() {
    let block = Block { stmts: lex("a[k] = k;") };
    assert_eq!(unroll(&block, &"k".to_string(), &vec![2, -1, 2]), {
        let mut expected = lex("a[2] = 2;");
        expected.extend(vec![
            TokenTree::Ident("a".to_string()),
            TokenTree::Group(Delimiter::Bracket, vec![TokenTree::Literal("-1".to_string())]),
            TokenTree::Punct('=', Spacing::Alone),
            TokenTree::Literal("-1".to_string()),
            TokenTree::Punct(';', Spacing::Alone),
        ]);
        expected.extend(lex("a[2] = 2;"));
        expected
    });
    assert_eq!(unroll(&block, &"k".to_string(), &Vec::new()), Vec::new());
}

#[test]
fn input_is_left_as_it_was() {
    let input = lex("i in [1, 2] => { f(i); }");
    let _ = repeat_for(&input);
    assert_eq!(input, lex("i in [1, 2] => { f(i); }"));
}
