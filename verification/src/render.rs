//! Rendering the token stream into the build artifact's text.
//!
//! One line of output per source line: each non-boundary token is rendered
//! as `KIND(line:column)`, or `KIND|value(line:column)` when it carries a
//! payload, tokens concatenated in source order; the line-boundary token
//! renders as the line break. Writing the text to disk is the caller's
//! concern.

use vstd::prelude::*;
use vstd::string::StringExecFns;

use crate::token::models;
use crate::token::Token;
use crate::token::TokenKind;
use crate::token::TokenModel;

verus! {

/// The decimal digit character for `d`, 0 through 9.
pub open spec fn spec_digit_char(d: int) -> char {
    if d == 0 {
        '0'
    } else if d == 1 {
        '1'
    } else if d == 2 {
        '2'
    } else if d == 3 {
        '3'
    } else if d == 4 {
        '4'
    } else if d == 5 {
        '5'
    } else if d == 6 {
        '6'
    } else if d == 7 {
        '7'
    } else if d == 8 {
        '8'
    } else {
        '9'
    }
}

/// The decimal rendering of `n`, most significant digit first, without
/// leading zeros (a single `0` for zero itself).
pub open spec fn dec_str(n: nat) -> Seq<char>
    decreases n,
{
    if n < 10 {
        seq![spec_digit_char(n as int)]
    } else {
        dec_str(n / 10) + seq![spec_digit_char((n % 10) as int)]
    }
}

/// The one-character string for the decimal digit `d`.
fn digit_str(d: usize) -> (r: &'static str)
    requires
        d < 10,
    ensures
        r@ == seq![spec_digit_char(d as int)],
{
    let r = if d == 0 {
        "0"
    } else if d == 1 {
        "1"
    } else if d == 2 {
        "2"
    } else if d == 3 {
        "3"
    } else if d == 4 {
        "4"
    } else if d == 5 {
        "5"
    } else if d == 6 {
        "6"
    } else if d == 7 {
        "7"
    } else if d == 8 {
        "8"
    } else {
        "9"
    };
    proof {
        reveal_strlit("0");
        reveal_strlit("1");
        reveal_strlit("2");
        reveal_strlit("3");
        reveal_strlit("4");
        reveal_strlit("5");
        reveal_strlit("6");
        reveal_strlit("7");
        reveal_strlit("8");
        reveal_strlit("9");
        assert(r@ =~= seq![spec_digit_char(d as int)]);
    }
    r
}

/// The decimal rendering of `n` as a string.
pub fn decimal_string(n: usize) -> (s: String)
    ensures
        s@ == dec_str(n as nat),
    decreases n,
{
    if n < 10 {
        String::from_str(digit_str(n))
    } else {
        let mut s = decimal_string(n / 10);
        s.append(digit_str(n % 10));
        s
    }
}

/// The fixed name under which each token kind is rendered.
pub open spec fn spec_kind_name(k: TokenKind) -> Seq<char> {
    match k {
        TokenKind::Colon => "COLON"@,
        TokenKind::Assign => "ASSIGN"@,
        TokenKind::Plus => "PLUS"@,
        TokenKind::Minus => "MINUS"@,
        TokenKind::Asterisk => "ASTERISK"@,
        TokenKind::Divide => "DIVIDE"@,
        TokenKind::Bang => "BANG"@,
        TokenKind::Equal => "EQUAL"@,
        TokenKind::Different => "DIFFERENT"@,
        TokenKind::LParen => "LPAREN"@,
        TokenKind::RParen => "RPAREN"@,
        TokenKind::LBrace => "LBRACE"@,
        TokenKind::RBrace => "RBRACE"@,
        TokenKind::For => "FOR"@,
        TokenKind::If => "IF"@,
        TokenKind::Else => "ELSE"@,
        TokenKind::Int => "INT"@,
        TokenKind::Bool => "BOOL"@,
        TokenKind::Function => "FUNCTION"@,
        TokenKind::Return => "RETURN"@,
        TokenKind::Ident => "IDENT"@,
        TokenKind::Number => "NUMBER"@,
        TokenKind::StringLit => "STRING"@,
        TokenKind::Illegal => "ILLEGAL"@,
        TokenKind::EndLine => "END_LINE"@,
        TokenKind::IntDeclaration => "INT_DECLARATION"@,
        TokenKind::BoolDeclaration => "BOOL_DECLARATION"@,
    }
}

/// The name under which a token kind is rendered.
pub fn kind_name(k: TokenKind) -> (r: &'static str)
    ensures
        r@ == spec_kind_name(k),
{
    match k {
        TokenKind::Colon => "COLON",
        TokenKind::Assign => "ASSIGN",
        TokenKind::Plus => "PLUS",
        TokenKind::Minus => "MINUS",
        TokenKind::Asterisk => "ASTERISK",
        TokenKind::Divide => "DIVIDE",
        TokenKind::Bang => "BANG",
        TokenKind::Equal => "EQUAL",
        TokenKind::Different => "DIFFERENT",
        TokenKind::LParen => "LPAREN",
        TokenKind::RParen => "RPAREN",
        TokenKind::LBrace => "LBRACE",
        TokenKind::RBrace => "RBRACE",
        TokenKind::For => "FOR",
        TokenKind::If => "IF",
        TokenKind::Else => "ELSE",
        TokenKind::Int => "INT",
        TokenKind::Bool => "BOOL",
        TokenKind::Function => "FUNCTION",
        TokenKind::Return => "RETURN",
        TokenKind::Ident => "IDENT",
        TokenKind::Number => "NUMBER",
        TokenKind::StringLit => "STRING",
        TokenKind::Illegal => "ILLEGAL",
        TokenKind::EndLine => "END_LINE",
        TokenKind::IntDeclaration => "INT_DECLARATION",
        TokenKind::BoolDeclaration => "BOOL_DECLARATION",
    }
}

/// The rendering of one token: the line break for the line-boundary token,
/// `KIND|value(line:column)` for a token carrying a payload, and
/// `KIND(line:column)` otherwise.
pub open spec fn render_token(t: TokenModel) -> Seq<char> {
    if t.kind == TokenKind::EndLine {
        "\n"@
    } else {
        spec_kind_name(t.kind) + (match t.value {
            Some(v) => "|"@ + v,
            None => Seq::empty(),
        }) + "("@ + dec_str(t.line as nat) + ":"@ + dec_str(t.column as nat) + ")"@
    }
}

/// The rendering of a token sequence: each token's text, concatenated in
/// order.
pub open spec fn render_tokens_spec(ts: Seq<TokenModel>) -> Seq<char>
    decreases ts.len(),
{
    if ts.len() == 0 {
        Seq::empty()
    } else {
        render_token(ts[0]) + render_tokens_spec(ts.drop_first())
    }
}

/// Render one token into its artifact text.
fn render_one(t: &Token) -> (s: String)
    ensures
        s@ == render_token(t@),
{
    if matches!(t.kind, TokenKind::EndLine) {
        String::from_str("\n")
    } else {
        let mut s = String::from_str(kind_name(t.kind));
        match &t.value {
            Some(v) => {
                s.append("|");
                s.append(v.as_str());
            },
            None => {},
        }
        s.append("(");
        let line_text = decimal_string(t.line);
        s.append(line_text.as_str());
        s.append(":");
        let column_text = decimal_string(t.column);
        s.append(column_text.as_str());
        s.append(")");
        proof {
            assert(s@ =~= render_token(t@));
        }
        s
    }
}

/// Render the whole token stream into the build artifact's text: one line
/// of output per source line, closed by the line break its line-boundary
/// token renders as.
#[verifier::loop_isolation(false)]
pub fn render_tokens(tokens: &Vec<Token>) -> (out: String)
    ensures
        out@ == render_tokens_spec(models(tokens@)),
{
    let ghost all = models(tokens@);
    let mut out = String::new();
    proof {
        assert(all.skip(0) =~= all);
        assert(out@ + render_tokens_spec(all) =~= render_tokens_spec(all));
    }
    let mut i: usize = 0;
    while i < tokens.len()
        invariant
            i <= tokens@.len(),
            out@ + render_tokens_spec(all.skip(i as int)) == render_tokens_spec(all),
        decreases tokens@.len() - i,
    {
        let ghost out_before = out@;
        let piece = render_one(&tokens[i]);
        out.append(piece.as_str());
        proof {
            assert(all.skip(i as int).drop_first() =~= all.skip(i as int + 1));
            assert(all.skip(i as int)[0] == all[i as int]);
            assert(out@ + render_tokens_spec(all.skip(i as int + 1)) =~= out_before
                + render_tokens_spec(all.skip(i as int)));
        }
        i = i + 1;
    }
    proof {
        assert(all.skip(i as int) =~= Seq::<TokenModel>::empty());
        assert(out@ + render_tokens_spec(all.skip(i as int)) =~= out@);
    }
    out
}

} // verus!
