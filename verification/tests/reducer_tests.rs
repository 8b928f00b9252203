use frontend::lexical::get_tokens;
use frontend::parser::{ASTNode, Reducer};
use frontend::rules::{lookup, MAX_RULE_LEN};
use frontend::token::{Token, TokenKind};

#[test]
fn int_declaration_reduces_on_the_third_token() {
    let mut reducer = Reducer::new();
    let fed = reducer.feed(Token::new(TokenKind::Ident, Some("x".to_string()), 1, 1));
    assert_eq!(fed.len(), 0);
    assert_eq!(reducer.stack.len(), 1);
    let fed = reducer.feed(Token::new(TokenKind::Colon, None, 1, 3));
    assert_eq!(fed.len(), 0);
    assert_eq!(reducer.stack.len(), 2);
    let fed = reducer.feed(Token::new(TokenKind::Int, None, 1, 7));
    assert_eq!(fed.len(), 1);
    match &fed[0] {
        ASTNode::IntDeclaration(name) => assert_eq!(name, "x"),
        ASTNode::BoolDeclaration(_) => panic!("wrong declaration kind"),
    }
    assert_eq!(reducer.stack.len(), 1);
    assert_eq!(reducer.stack[0].kind, TokenKind::IntDeclaration);
    assert_eq!(reducer.stack[0].value, None);
}

#[test]
fn bool_declaration_reduces_to_its_own_kind() {
    let mut reducer = Reducer::new();
    reducer.feed(Token::new(TokenKind::Ident, Some("flag".to_string()), 1, 4));
    reducer.feed(Token::new(TokenKind::Colon, None, 1, 6));
    let fed = reducer.feed(Token::new(TokenKind::Bool, None, 1, 11));
    assert_eq!(fed.len(), 1);
    match &fed[0] {
        ASTNode::BoolDeclaration(name) => assert_eq!(name, "flag"),
        ASTNode::IntDeclaration(_) => panic!("wrong declaration kind"),
    }
    assert_eq!(reducer.stack.len(), 1);
    assert_eq!(reducer.stack[0].kind, TokenKind::BoolDeclaration);
}

#[test]
fn reduction_loop_is_idempotent_on_a_stuck_stack() {
    let mut reducer = Reducer::new();
    reducer.feed(Token::new(TokenKind::Ident, Some("x".to_string()), 1, 1));
    reducer.feed(Token::new(TokenKind::Plus, None, 1, 3));
    let before: Vec<(TokenKind, Option<String>, usize, usize)> = reducer
        .stack
        .iter()
        .map(|t| (t.kind, t.value.clone(), t.line, t.column))
        .collect();
    let nodes = reducer.reduce();
    assert_eq!(nodes.len(), 0);
    let after: Vec<(TokenKind, Option<String>, usize, usize)> = reducer
        .stack
        .iter()
        .map(|t| (t.kind, t.value.clone(), t.line, t.column))
        .collect();
    assert_eq!(before, after);
}

#[test]
fn tokens_matching_no_rule_stay_on_the_stack() {
    let mut reducer = Reducer::new();
    for token in get_tokens(&vec!["x + y".to_string()]) {
        let fed = reducer.feed(token);
        assert_eq!(fed.len(), 0);
    }
    assert_eq!(reducer.stack.len(), 4);
    assert_eq!(reducer.stack[0].kind, TokenKind::Ident);
    assert_eq!(reducer.stack[1].kind, TokenKind::Plus);
    assert_eq!(reducer.stack[2].kind, TokenKind::Ident);
    assert_eq!(reducer.stack[3].kind, TokenKind::EndLine);
}

#[test]
fn lexer_output_drives_declarations_line_by_line() {
    let mut reducer = Reducer::new();
    let mut nodes: Vec<ASTNode> = Vec::new();
    let source = vec!["x : int".to_string(), "flag : bool".to_string()];
    for token in get_tokens(&source) {
        nodes.extend(reducer.feed(token));
    }
    assert_eq!(nodes.len(), 2);
    match &nodes[0] {
        ASTNode::IntDeclaration(name) => assert_eq!(name, "x"),
        ASTNode::BoolDeclaration(_) => panic!("wrong declaration kind"),
    }
    match &nodes[1] {
        ASTNode::BoolDeclaration(name) => assert_eq!(name, "flag"),
        ASTNode::IntDeclaration(_) => panic!("wrong declaration kind"),
    }
    assert_eq!(reducer.stack.len(), 4);
    assert_eq!(reducer.stack[0].kind, TokenKind::IntDeclaration);
    assert_eq!(reducer.stack[1].kind, TokenKind::EndLine);
    assert_eq!(reducer.stack[2].kind, TokenKind::BoolDeclaration);
    assert_eq!(reducer.stack[3].kind, TokenKind::EndLine);
    assert_eq!(reducer.first_unreduced(), None);
}

#[test]
fn first_unreduced_reports_unexpected_trailing_input() {
    let mut reducer = Reducer::new();
    for token in get_tokens(&vec!["x +".to_string()]) {
        reducer.feed(token);
    }
    assert_eq!(reducer.first_unreduced(), Some(0));
    let mut clean = Reducer::new();
    for token in get_tokens(&vec!["x : int".to_string()]) {
        clean.feed(token);
    }
    assert_eq!(clean.first_unreduced(), None);
}

#[test]
fn identifier_without_payload_declares_an_empty_name() {
    let mut reducer = Reducer::new();
    reducer.feed(Token::new(TokenKind::Ident, None, 0, 0));
    reducer.feed(Token::new(TokenKind::Colon, None, 0, 0));
    let fed = reducer.feed(Token::new(TokenKind::Int, None, 0, 0));
    assert_eq!(fed.len(), 1);
    match &fed[0] {
        ASTNode::IntDeclaration(name) => assert_eq!(name, ""),
        ASTNode::BoolDeclaration(_) => panic!("wrong declaration kind"),
    }
}

#[test]
fn rule_table_holds_exactly_the_two_declarations() {
    let key = vec![TokenKind::Ident, TokenKind::Colon, TokenKind::Int];
    let rule = lookup(&key).expect("integer declaration rule missing");
    assert_eq!(rule.make, TokenKind::IntDeclaration);
    assert_eq!(rule.tokens, key);
    assert!(rule.is_final);
    let key = vec![TokenKind::Ident, TokenKind::Colon, TokenKind::Bool];
    let rule = lookup(&key).expect("boolean declaration rule missing");
    assert_eq!(rule.make, TokenKind::BoolDeclaration);
    assert_eq!(rule.tokens, key);
    assert!(rule.is_final);
    assert!(lookup(&vec![TokenKind::Ident, TokenKind::Colon]).is_none());
    assert!(lookup(&vec![TokenKind::Colon, TokenKind::Int]).is_none());
    assert!(lookup(&vec![]).is_none());
    assert!(MAX_RULE_LEN >= 3);
}
