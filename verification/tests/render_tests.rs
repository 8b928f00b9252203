use frontend::lexical::get_tokens;
use frontend::render::{decimal_string, kind_name, render_tokens};
use frontend::token::{Token, TokenKind};

#[test]
fn decimal_strings_are_exact() {
    assert_eq!(decimal_string(0), "0");
    assert_eq!(decimal_string(7), "7");
    assert_eq!(decimal_string(10), "10");
    assert_eq!(decimal_string(907), "907");
    assert_eq!(decimal_string(120034), "120034");
}

#[test]
fn kind_names_match_the_artifact_format() {
    assert_eq!(kind_name(TokenKind::Colon), "COLON");
    assert_eq!(kind_name(TokenKind::Equal), "EQUAL");
    assert_eq!(kind_name(TokenKind::StringLit), "STRING");
    assert_eq!(kind_name(TokenKind::EndLine), "END_LINE");
    assert_eq!(kind_name(TokenKind::IntDeclaration), "INT_DECLARATION");
}

#[test]
fn token_with_payload_renders_kind_value_and_position() {
    let tokens = vec![Token::new(
        TokenKind::Number,
        Some("123".to_string()),
        1,
        3,
    )];
    assert_eq!(render_tokens(&tokens), "NUMBER|123(1:3)");
}

#[test]
fn token_without_payload_renders_kind_and_position() {
    let tokens = vec![Token::new(TokenKind::Colon, None, 2, 5)];
    assert_eq!(render_tokens(&tokens), "COLON(2:5)");
}

#[test]
fn end_line_token_renders_as_a_line_break() {
    let tokens = vec![Token::new(TokenKind::EndLine, None, 1, 0)];
    assert_eq!(render_tokens(&tokens), "\n");
}

#[test]
fn whole_stream_renders_one_output_line_per_source_line() {
    let tokens = get_tokens(&vec!["x : int".to_string(), "".to_string()]);
    assert_eq!(render_tokens(&tokens), "IDENT|x(1:1)COLON(1:3)INT(1:7)\n\n");
}
