use literal_loop::replace_tokens;
use literal_loop::substituted_block;
use literal_loop::token::{clone_stream, Block, Delimiter, Spacing, TokenTree};

fn ident(text: &str) -> TokenTree {
    TokenTree::Ident(text.to_string())
}

fn literal(text: &str) -> TokenTree {
    TokenTree::Literal(text.to_string())
}

fn punct(ch: char) -> TokenTree {
    TokenTree::Punct(ch, Spacing::Alone)
}

#[test]
fn matching_identifier_becomes_the_literal() {
    let stream = vec![ident("x"), punct('+'), ident("y")];
    let out = replace_tokens(&stream, &"x".to_string(), &"7".to_string());
    assert_eq!(out, vec![literal("7"), punct('+'), ident("y")]);
}

#[test]
fn empty_stream_stays_empty() {
    let out = replace_tokens(&Vec::new(), &"x".to_string(), &"7".to_string());
    assert_eq!(out, Vec::new());
}

#[test]
fn every_occurrence_is_replaced() {
    let stream = vec![ident("x"), ident("x"), punct(','), ident("x")];
    let out = replace_tokens(&stream, &"x".to_string(), &"0".to_string());
    assert_eq!(out, vec![literal("0"), literal("0"), punct(','), literal("0")]);
}

#[test]
fn spelling_must_match_exactly() {
    let stream = vec![ident("x1"), ident("X"), ident("xx"), ident("r#x"), ident("x")];
    let out = replace_tokens(&stream, &"x".to_string(), &"5".to_string());
    assert_eq!(out, vec![ident("x1"), ident("X"), ident("xx"), ident("r#x"), literal("5")]);
}

#[test]
fn literals_and_punctuation_are_kept() {
    let stream = vec![
        literal("\"x\""),
        literal("'x'"),
        TokenTree::Punct('=', Spacing::Joint),
        TokenTree::Punct('>', Spacing::Alone),
        literal("1.5"),
    ];
    let out = replace_tokens(&stream, &"x".to_string(), &"5".to_string());
    assert_eq!(out, stream);
}

#[test]
fn nested_groups_are_entered_and_keep_their_delimiters() {
    let stream = vec![
        ident("f"),
        TokenTree::Group(
            Delimiter::Parenthesis,
            vec![
                ident("x"),
                punct(','),
                TokenTree::Group(
                    Delimiter::Bracket,
                    vec![ident("x"), TokenTree::Group(Delimiter::Brace, vec![ident("x")])],
                ),
            ],
        ),
        TokenTree::Group(Delimiter::Invisible, vec![ident("x")]),
    ];
    let out = replace_tokens(&stream, &"x".to_string(), &"3".to_string());
    let expected = vec![
        ident("f"),
        TokenTree::Group(
            Delimiter::Parenthesis,
            vec![
                literal("3"),
                punct(','),
                TokenTree::Group(
                    Delimiter::Bracket,
                    vec![literal("3"), TokenTree::Group(Delimiter::Brace, vec![literal("3")])],
                ),
            ],
        ),
        TokenTree::Group(Delimiter::Invisible, vec![literal("3")]),
    ];
    assert_eq!(out, expected);
}

#[test]
fn stream_without_the_identifier_is_unchanged() {
    let stream = vec![
        ident("a"),
        TokenTree::Group(Delimiter::Brace, vec![ident("b"), literal("1"), punct(';')]),
        TokenTree::Group(Delimiter::Parenthesis, Vec::new()),
    ];
    let out = replace_tokens(&stream, &"x".to_string(), &"3".to_string());
    assert_eq!(out, stream);
}

#[test]
fn redeclared_name_is_substituted_too() {
    // let x = 5; x
    let stream = vec![ident("let"), ident("x"), punct('='), literal("5"), punct(';'), ident("x")];
    let out = replace_tokens(&stream, &"x".to_string(), &"1".to_string());
    assert_eq!(
        out,
        vec![ident("let"), literal("1"), punct('='), literal("5"), punct(';'), literal("1")]
    );
}

#[test]
fn substituting_twice_changes_nothing_more() {
    let stream = vec![ident("x"), TokenTree::Group(Delimiter::Bracket, vec![ident("x")])];
    let once = replace_tokens(&stream, &"x".to_string(), &"2".to_string());
    let twice = replace_tokens(&once, &"x".to_string(), &"9".to_string());
    assert_eq!(once, twice);
}

#[test]
fn the_replacement_is_taken_as_given() {
    let stream = vec![ident("x")];
    let out = replace_tokens(&stream, &"x".to_string(), &"-0x1F_u8".to_string());
    assert_eq!(out, vec![literal("-0x1F_u8")]);
}

#[test]
fn block_gets_the_decimal_spelling() {
    let block = Block { stmts: vec![ident("x"), punct(';')] };
    assert_eq!(substituted_block(&block, &"x".to_string(), 42), vec![literal("42"), punct(';')]);
    assert_eq!(substituted_block(&block, &"x".to_string(), 0), vec![literal("0"), punct(';')]);
    assert_eq!(substituted_block(&block, &"x".to_string(), 10), vec![literal("10"), punct(';')]);
    assert_eq!(substituted_block(&block, &"x".to_string(), 1005), vec![literal("1005"), punct(';')]);
}

#[test]
fn block_gets_a_minus_sign_for_a_negative_value() {
    let block = Block { stmts: vec![ident("x")] };
    assert_eq!(substituted_block(&block, &"x".to_string(), -42), vec![literal("-42")]);
    assert_eq!(substituted_block(&block, &"x".to_string(), -1), vec![literal("-1")]);
}

#[test]
fn block_takes_the_whole_range_of_128_bits() {
    let block = Block { stmts: vec![ident("x")] };
    assert_eq!(
        substituted_block(&block, &"x".to_string(), i128::MAX),
        vec![literal("170141183460469231731687303715884105727")]
    );
    assert_eq!(
        substituted_block(&block, &"x".to_string(), i128::MIN),
        vec![literal("-170141183460469231731687303715884105728")]
    );
}

#[test]
fn block_literal_has_no_suffix() {
    let block = Block { stmts: vec![ident("n")] };
    let out = substituted_block(&block, &"n".to_string(), 255);
    match &out[0] {
        TokenTree::Literal(text) => assert!(text.chars().all(|ch| ch.is_ascii_digit())),
        other => panic!("not a literal: {:?}", other),
    }
}

#[test]
fn block_is_left_as_it_was() {
    let block = Block { stmts: vec![ident("x"), TokenTree::Group(Delimiter::Brace, vec![ident("x")])] };
    let _ = substituted_block(&block, &"x".to_string(), 1);
    assert_eq!(
        block.stmts,
        vec![ident("x"), TokenTree::Group(Delimiter::Brace, vec![ident("x")])]
    );
}

#[test]
fn copies_are_equal_to_what_they_copy() {
    let stream = vec![
        ident("a"),
        TokenTree::Punct(':', Spacing::Joint),
        TokenTree::Group(Delimiter::Bracket, vec![literal("1"), TokenTree::Group(Delimiter::Brace, Vec::new())]),
    ];
    assert_eq!(clone_stream(&stream), stream);
    assert_eq!(stream[2].clone(), stream[2]);
}
