use seq_macro::decimal::{decimal_string, parse_u16};
use seq_macro::repeat::find_and_replace_repetition;
use seq_macro::splice::find_and_replace_n;
use seq_macro::token::{clone_stream, clone_token, Delimiter, Spacing, Token};

fn ident(text: &str, loc: u32) -> Token<u32> {
    Token::Ident(text.to_string(), loc)
}

fn lit(text: &str, loc: u32) -> Token<u32> {
    Token::Literal(text.to_string(), loc)
}

fn punct(ch: char, loc: u32) -> Token<u32> {
    Token::Punct(ch, Spacing::Alone, loc)
}

fn joint(ch: char, loc: u32) -> Token<u32> {
    Token::Punct(ch, Spacing::Joint, loc)
}

fn group(delimiter: Delimiter, inner: Vec<Token<u32>>) -> Token<u32> {
    Token::Group(delimiter, inner)
}

fn name() -> String {
    "N".to_string()
}

#[test]
fn decimal_string_of_small_and_large_values() {
    assert_eq!(decimal_string(0), "0");
    assert_eq!(decimal_string(7), "7");
    assert_eq!(decimal_string(10), "10");
    assert_eq!(decimal_string(305), "305");
    assert_eq!(decimal_string(65535), "65535");
    assert_eq!(decimal_string(65536), "65536");
    assert_eq!(decimal_string(4294967295), "4294967295");
}

#[test]
fn parse_u16_reads_runs_of_digits() {
    assert_eq!(parse_u16("0"), Some(0));
    assert_eq!(parse_u16("9"), Some(9));
    assert_eq!(parse_u16("007"), Some(7));
    assert_eq!(parse_u16("1234"), Some(1234));
    assert_eq!(parse_u16("65535"), Some(65535));
}

#[test]
fn parse_u16_refuses_what_does_not_fit_or_is_no_number() {
    assert_eq!(parse_u16("65536"), None);
    assert_eq!(parse_u16("99999999999999999999"), None);
    assert_eq!(parse_u16(""), None);
    assert_eq!(parse_u16("12a"), None);
    assert_eq!(parse_u16("-5"), None);
    assert_eq!(parse_u16("+5"), None);
    assert_eq!(parse_u16("1 "), None);
    assert_eq!(parse_u16("٣"), None);
}

#[test]
fn parse_u16_inverts_decimal_string() {
    for n in [0u32, 1, 9, 10, 99, 100, 4096, 65535] {
        assert_eq!(parse_u16(&decimal_string(n)), Some(n as u16));
    }
}

#[test]
fn splice_fuses_identifier_with_value() {
    let input = vec![ident("foo", 1), punct('~', 2), ident("N", 3)];
    let out = find_and_replace_n(&input, &name(), 5);
    assert_eq!(out, vec![ident("foo5", 1)]);
}

#[test]
fn bare_placeholder_becomes_literal() {
    let input = vec![ident("N", 9)];
    let out = find_and_replace_n(&input, &name(), 5);
    assert_eq!(out, vec![lit("5", 9)]);
}

#[test]
fn placeholder_name_is_a_parameter() {
    let input = vec![ident("N", 1), ident("idx", 2), ident("x", 3), punct('~', 4), ident("idx", 5)];
    let out = find_and_replace_n(&input, &"idx".to_string(), 12);
    assert_eq!(out, vec![ident("N", 1), lit("12", 2), ident("x12", 3)]);
}

#[test]
fn splice_of_placeholder_with_itself() {
    let input = vec![ident("N", 1), punct('~', 2), ident("N", 3)];
    let out = find_and_replace_n(&input, &name(), 5);
    assert_eq!(out, vec![ident("N5", 1)]);
}

#[test]
fn splice_accepts_joint_tilde() {
    let input = vec![ident("a", 1), joint('~', 2), ident("N", 3), ident("b", 4)];
    let out = find_and_replace_n(&input, &name(), 40);
    assert_eq!(out, vec![ident("a40", 1), ident("b", 4)]);
}

#[test]
fn incomplete_splice_passes_through() {
    let input = vec![ident("foo", 1), punct('~', 2), ident("bar", 3)];
    let out = find_and_replace_n(&input, &name(), 5);
    assert_eq!(out, input);

    let input = vec![ident("foo", 1), punct('~', 2)];
    let out = find_and_replace_n(&input, &name(), 5);
    assert_eq!(out, input);

    let input = vec![ident("foo", 1), punct('~', 2), lit("1", 3), ident("N", 4)];
    let out = find_and_replace_n(&input, &name(), 5);
    assert_eq!(out, vec![ident("foo", 1), punct('~', 2), lit("1", 3), lit("5", 4)]);
}

#[test]
fn tilde_after_something_else_than_an_identifier() {
    let input = vec![lit("1", 1), punct('~', 2), ident("N", 3)];
    let out = find_and_replace_n(&input, &name(), 5);
    assert_eq!(out, vec![lit("1", 1), punct('~', 2), lit("5", 3)]);
}

#[test]
fn consecutive_splices_do_not_overlap() {
    let input = vec![
        ident("a", 1),
        punct('~', 2),
        ident("N", 3),
        punct('~', 4),
        ident("N", 5),
    ];
    let out = find_and_replace_n(&input, &name(), 2);
    assert_eq!(out, vec![ident("a2", 1), punct('~', 4), lit("2", 5)]);
}

#[test]
fn rewriting_without_placeholder_changes_nothing() {
    let input = vec![
        ident("fn", 1),
        ident("f", 2),
        group(Delimiter::Parenthesis, vec![]),
        joint('-', 3),
        punct('>', 4),
        ident("u8", 5),
        group(
            Delimiter::Brace,
            vec![lit("1", 6), punct('~', 7), group(Delimiter::Bracket, vec![ident("n", 8)])],
        ),
    ];
    for n in [0u32, 1, 77, 65535] {
        assert_eq!(find_and_replace_n(&input, &name(), n), input);
    }
}

#[test]
fn placeholder_in_nested_groups_is_rewritten() {
    let input = vec![group(
        Delimiter::Parenthesis,
        vec![group(
            Delimiter::Bracket,
            vec![group(
                Delimiter::Brace,
                vec![group(Delimiter::Invisible, vec![ident("N", 1), ident("x", 2), punct('~', 3), ident("N", 4)])],
            )],
        )],
    )];
    let expected = vec![group(
        Delimiter::Parenthesis,
        vec![group(
            Delimiter::Bracket,
            vec![group(
                Delimiter::Brace,
                vec![group(Delimiter::Invisible, vec![lit("3", 1), ident("x3", 2)])],
            )],
        )],
    )];
    assert_eq!(find_and_replace_n(&input, &name(), 3), expected);
}

#[test]
fn splice_does_not_reach_across_a_group_boundary() {
    let input = vec![
        ident("a", 1),
        group(Delimiter::Parenthesis, vec![punct('~', 2), ident("N", 3)]),
    ];
    let out = find_and_replace_n(&input, &name(), 5);
    assert_eq!(
        out,
        vec![ident("a", 1), group(Delimiter::Parenthesis, vec![punct('~', 2), lit("5", 3)])]
    );
}

#[test]
fn rewriting_the_empty_stream() {
    let input: Vec<Token<u32>> = vec![];
    assert_eq!(find_and_replace_n(&input, &name(), 5), input);
}

#[test]
fn marker_is_replaced_by_one_copy_per_value() {
    let input = vec![
        ident("a", 1),
        punct('#', 2),
        group(Delimiter::Parenthesis, vec![ident("b", 3), punct('~', 4), ident("N", 5), punct(',', 6)]),
        punct('*', 7),
        ident("c", 8),
    ];
    let (out, found) = find_and_replace_repetition(&input, &name(), 1, 4);
    assert!(found);
    assert_eq!(
        out,
        vec![
            ident("a", 1),
            ident("b1", 3),
            punct(',', 6),
            ident("b2", 3),
            punct(',', 6),
            ident("b3", 3),
            punct(',', 6),
            ident("c", 8),
        ]
    );
}

#[test]
fn stream_without_marker_is_unchanged_and_not_flagged() {
    let input = vec![
        ident("N", 1),
        punct('#', 2),
        group(Delimiter::Bracket, vec![ident("N", 3)]),
        punct('*', 4),
        punct('#', 5),
        group(Delimiter::Parenthesis, vec![ident("N", 6)]),
        punct('+', 7),
        punct('#', 8),
        group(Delimiter::Parenthesis, vec![]),
    ];
    let (out, found) = find_and_replace_repetition(&input, &name(), 0, 3);
    assert!(!found);
    assert_eq!(out, input);
}

#[test]
fn several_markers_are_all_expanded() {
    let input = vec![
        punct('#', 1),
        group(Delimiter::Parenthesis, vec![ident("N", 2)]),
        punct('*', 3),
        punct(';', 4),
        punct('#', 5),
        group(Delimiter::Parenthesis, vec![ident("x", 6), punct('~', 7), ident("N", 8)]),
        punct('*', 9),
    ];
    let (out, found) = find_and_replace_repetition(&input, &name(), 0, 2);
    assert!(found);
    assert_eq!(
        out,
        vec![lit("0", 2), lit("1", 2), punct(';', 4), ident("x0", 6), ident("x1", 6)]
    );
}

#[test]
fn marker_inside_a_group_is_found() {
    let input = vec![
        ident("enum", 1),
        ident("E", 2),
        group(
            Delimiter::Brace,
            vec![
                punct('#', 3),
                group(Delimiter::Parenthesis, vec![ident("V", 4), punct('~', 5), ident("N", 6), punct(',', 7)]),
                punct('*', 8),
            ],
        ),
    ];
    let (out, found) = find_and_replace_repetition(&input, &name(), 0, 2);
    assert!(found);
    assert_eq!(
        out,
        vec![
            ident("enum", 1),
            ident("E", 2),
            group(
                Delimiter::Brace,
                vec![ident("V0", 4), punct(',', 7), ident("V1", 4), punct(',', 7)],
            ),
        ]
    );
}

#[test]
fn placeholder_outside_a_marker_is_left_alone() {
    let input = vec![
        ident("N", 1),
        punct('#', 2),
        group(Delimiter::Parenthesis, vec![ident("N", 3)]),
        punct('*', 4),
    ];
    let (out, found) = find_and_replace_repetition(&input, &name(), 7, 9);
    assert!(found);
    assert_eq!(out, vec![ident("N", 1), lit("7", 3), lit("8", 3)]);
}

#[test]
fn marker_nested_in_a_marker_body_is_only_rewritten() {
    let inner_marker = vec![
        punct('#', 1),
        group(Delimiter::Parenthesis, vec![ident("N", 2)]),
        punct('*', 3),
    ];
    let input = vec![
        punct('#', 4),
        group(Delimiter::Parenthesis, inner_marker),
        punct('*', 5),
    ];
    let (out, found) = find_and_replace_repetition(&input, &name(), 0, 2);
    assert!(found);
    assert_eq!(
        out,
        vec![
            punct('#', 1),
            group(Delimiter::Parenthesis, vec![lit("0", 2)]),
            punct('*', 3),
            punct('#', 1),
            group(Delimiter::Parenthesis, vec![lit("1", 2)]),
            punct('*', 3),
        ]
    );
}

#[test]
fn marker_over_an_empty_range_leaves_the_rest() {
    let input = vec![
        ident("a", 1),
        punct('#', 2),
        group(Delimiter::Parenthesis, vec![ident("N", 3)]),
        punct('*', 4),
        ident("b", 5),
    ];
    let (out, found) = find_and_replace_repetition(&input, &name(), 3, 3);
    assert!(found);
    assert_eq!(out, vec![ident("a", 1), ident("b", 5)]);
    let (out, found) = find_and_replace_repetition(&input, &name(), 5, 2);
    assert!(found);
    assert_eq!(out, vec![ident("a", 1), ident("b", 5)]);
}

#[test]
fn copies_keep_every_nested_token() {
    let stream = vec![
        ident("a", 1),
        group(
            Delimiter::Brace,
            vec![lit("\"s\"", 2), group(Delimiter::Bracket, vec![joint(':', 3), punct(':', 4)])],
        ),
    ];
    assert_eq!(clone_stream(&stream), stream);
    assert_eq!(clone_token(&stream[1]), stream[1]);
    assert_eq!(stream[1].clone(), stream[1]);
    assert_eq!(stream.clone(), stream);
    assert_eq!(clone_token(&stream[0]), stream[0]);
    assert_eq!(clone_token(&punct('+', 6)), punct('+', 6));
    assert_eq!(clone_token(&lit("1u8", 7)), lit("1u8", 7));
}
