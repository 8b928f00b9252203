use frontend::lexical::get_tokens;
use frontend::token::{Token, TokenKind};

fn lines(xs: &[&str]) -> Vec<String> {
    let mut v = Vec::new();
    for x in xs {
        v.push(x.to_string());
    }
    v
}

fn kinds(tokens: &[Token]) -> Vec<TokenKind> {
    let mut v = Vec::new();
    for t in tokens {
        v.push(t.kind);
    }
    v
}

#[test]
fn digits_lex_to_one_number_token() {
    let tokens = get_tokens(&lines(&["123"]));
    assert_eq!(tokens.len(), 2);
    assert_eq!(tokens[0].kind, TokenKind::Number);
    assert_eq!(tokens[0].value, Some("123".to_string()));
    assert_eq!(tokens[1].kind, TokenKind::EndLine);
}

#[test]
fn string_literal_lexes_to_one_string_token() {
    let tokens = get_tokens(&lines(&["\"hello\""]));
    assert_eq!(tokens.len(), 2);
    assert_eq!(tokens[0].kind, TokenKind::StringLit);
    assert_eq!(tokens[0].value, Some("hello".to_string()));
    assert_eq!(tokens[1].kind, TokenKind::EndLine);
}

#[test]
fn unterminated_string_becomes_illegal_with_partial_text() {
    let tokens = get_tokens(&lines(&["\"hello"]));
    assert_eq!(tokens.len(), 2);
    assert_eq!(tokens[0].kind, TokenKind::Illegal);
    assert_eq!(tokens[0].value, Some("hello".to_string()));
    assert_eq!(tokens[1].kind, TokenKind::EndLine);
}

#[test]
fn keywords_and_identifiers_are_told_apart() {
    let tokens = get_tokens(&lines(&["int", "if", "myvar"]));
    assert_eq!(
        kinds(&tokens),
        vec![
            TokenKind::Int,
            TokenKind::EndLine,
            TokenKind::If,
            TokenKind::EndLine,
            TokenKind::Ident,
            TokenKind::EndLine,
        ]
    );
    assert_eq!(tokens[0].value, None);
    assert_eq!(tokens[2].value, None);
    assert_eq!(tokens[4].value, Some("myvar".to_string()));
}

#[test]
fn all_keywords_lex_to_their_kinds() {
    let tokens = get_tokens(&lines(&["for if else int bool function return"]));
    assert_eq!(
        kinds(&tokens),
        vec![
            TokenKind::For,
            TokenKind::If,
            TokenKind::Else,
            TokenKind::Int,
            TokenKind::Bool,
            TokenKind::Function,
            TokenKind::Return,
            TokenKind::EndLine,
        ]
    );
}

#[test]
fn identifier_with_underscore_and_digits_keeps_its_text() {
    let tokens = get_tokens(&lines(&["my_var2"]));
    assert_eq!(kinds(&tokens), vec![TokenKind::Ident, TokenKind::EndLine]);
    assert_eq!(tokens[0].value, Some("my_var2".to_string()));
}

#[test]
fn double_equal_is_one_equal_token() {
    let tokens = get_tokens(&lines(&["=="]));
    assert_eq!(kinds(&tokens), vec![TokenKind::Equal, TokenKind::EndLine]);
}

#[test]
fn bang_equal_is_one_different_token() {
    let tokens = get_tokens(&lines(&["!="]));
    assert_eq!(kinds(&tokens), vec![TokenKind::Different, TokenKind::EndLine]);
}

#[test]
fn bang_alone_leaves_next_character_independent() {
    let tokens = get_tokens(&lines(&["!x"]));
    assert_eq!(
        kinds(&tokens),
        vec![TokenKind::Bang, TokenKind::Ident, TokenKind::EndLine]
    );
    assert_eq!(tokens[1].value, Some("x".to_string()));
    let spaced = get_tokens(&lines(&["! ="]));
    assert_eq!(
        kinds(&spaced),
        vec![TokenKind::Bang, TokenKind::Assign, TokenKind::EndLine]
    );
}

#[test]
fn spacing_does_not_change_the_kind_sequence() {
    let tight = get_tokens(&lines(&["+ -"]));
    let wide = get_tokens(&lines(&["  +    -   "]));
    assert_eq!(kinds(&tight), kinds(&wide));
    let tight_kw = get_tokens(&lines(&["int bool for"]));
    let wide_kw = get_tokens(&lines(&[" int   bool  for "]));
    assert_eq!(kinds(&tight_kw), kinds(&wide_kw));
    assert_eq!(
        kinds(&tight_kw),
        vec![
            TokenKind::Int,
            TokenKind::Bool,
            TokenKind::For,
            TokenKind::EndLine,
        ]
    );
}

#[test]
fn every_line_ends_with_exactly_one_end_line_token() {
    let tokens = get_tokens(&lines(&["x", "", "y"]));
    assert_eq!(
        kinds(&tokens),
        vec![
            TokenKind::Ident,
            TokenKind::EndLine,
            TokenKind::EndLine,
            TokenKind::Ident,
            TokenKind::EndLine,
        ]
    );
    assert_eq!(tokens[1].line, 1);
    assert_eq!(tokens[2].line, 2);
    assert_eq!(tokens[4].line, 3);
}

#[test]
fn empty_input_produces_no_tokens() {
    let tokens = get_tokens(&lines(&[]));
    assert_eq!(tokens.len(), 0);
}

#[test]
fn positions_count_characters_consumed_through_each_token() {
    let tokens = get_tokens(&lines(&["x : int"]));
    assert_eq!(tokens.len(), 4);
    assert_eq!(tokens[0].kind, TokenKind::Ident);
    assert_eq!((tokens[0].line, tokens[0].column), (1, 1));
    assert_eq!(tokens[1].kind, TokenKind::Colon);
    assert_eq!((tokens[1].line, tokens[1].column), (1, 3));
    assert_eq!(tokens[2].kind, TokenKind::Int);
    assert_eq!((tokens[2].line, tokens[2].column), (1, 7));
    assert_eq!(tokens[3].kind, TokenKind::EndLine);
}

#[test]
fn bad_number_run_is_absorbed_to_the_next_terminal() {
    let tokens = get_tokens(&lines(&["12ab cd"]));
    assert_eq!(
        kinds(&tokens),
        vec![TokenKind::Illegal, TokenKind::Ident, TokenKind::EndLine]
    );
    assert_eq!(tokens[0].value, Some("12ab".to_string()));
    assert_eq!(tokens[1].value, Some("cd".to_string()));
}

#[test]
fn uppercase_word_is_illegal() {
    let tokens = get_tokens(&lines(&["Abc"]));
    assert_eq!(kinds(&tokens), vec![TokenKind::Illegal, TokenKind::EndLine]);
    assert_eq!(tokens[0].value, Some("Abc".to_string()));
}

#[test]
fn bad_word_run_is_absorbed_to_the_next_terminal() {
    let tokens = get_tokens(&lines(&["x$y+z"]));
    assert_eq!(
        kinds(&tokens),
        vec![
            TokenKind::Illegal,
            TokenKind::Plus,
            TokenKind::Ident,
            TokenKind::EndLine,
        ]
    );
    assert_eq!(tokens[0].value, Some("x$y".to_string()));
    assert_eq!(tokens[2].value, Some("z".to_string()));
}

#[test]
fn all_single_character_operators_lex() {
    let tokens = get_tokens(&lines(&[": = + - * / ! ( ) { }"]));
    assert_eq!(
        kinds(&tokens),
        vec![
            TokenKind::Colon,
            TokenKind::Assign,
            TokenKind::Plus,
            TokenKind::Minus,
            TokenKind::Asterisk,
            TokenKind::Divide,
            TokenKind::Bang,
            TokenKind::LParen,
            TokenKind::RParen,
            TokenKind::LBrace,
            TokenKind::RBrace,
            TokenKind::EndLine,
        ]
    );
}

#[test]
fn string_between_identifiers_keeps_source_order() {
    let tokens = get_tokens(&lines(&["a \"hi\" b"]));
    assert_eq!(
        kinds(&tokens),
        vec![
            TokenKind::Ident,
            TokenKind::StringLit,
            TokenKind::Ident,
            TokenKind::EndLine,
        ]
    );
    assert_eq!(tokens[1].value, Some("hi".to_string()));
}

#[test]
fn token_new_fills_all_fields() {
    let t = Token::new(TokenKind::Number, Some("7".to_string()), 3, 4);
    assert_eq!(t.kind, TokenKind::Number);
    assert_eq!(t.value, Some("7".to_string()));
    assert_eq!(t.line, 3);
    assert_eq!(t.column, 4);
}
