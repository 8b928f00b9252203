//! The mathematical model of the lexical analyzer.
//!
//! A source line is a `Seq<char>`; `lex_from` walks it from a position,
//! skipping spaces and classifying each remaining character into one of four
//! states (string, number, operator, word), and yields the sequence of token
//! models the lexer must produce. `lex_line` appends the line-boundary
//! marker; `lex_lines` strings whole lines together with 1-based line
//! numbers. Every executable lexer function is proved against these
//! definitions.

use vstd::prelude::*;

use crate::token::TokenKind;
use crate::token::TokenModel;

verus! {

broadcast use vstd::string::group_string_axioms;

/// A decimal digit.
pub open spec fn spec_digit(c: char) -> bool {
    '0' as u32 <= c as u32 && c as u32 <= '9' as u32
}

/// A character that ends a number or word run: the eleven operator
/// characters and the space.
pub open spec fn spec_terminal(c: char) -> bool {
    ||| c == ':'
    ||| c == '='
    ||| c == '+'
    ||| c == '-'
    ||| c == '*'
    ||| c == '/'
    ||| c == '!'
    ||| c == '('
    ||| c == ')'
    ||| c == '{'
    ||| c == '}'
    ||| c == ' '
}

/// A character of the identifier alphabet: lowercase letters, the
/// underscore, and digits.
pub open spec fn spec_ident_char(c: char) -> bool {
    ||| 'a' as u32 <= c as u32 && c as u32 <= 'z' as u32
    ||| c == '_'
    ||| spec_digit(c)
}

/// The state a non-space character sends the tokenizer into:
/// 1 string, 2 number, 3 operator, 4 word.
pub open spec fn spec_state(c: char) -> i8 {
    if c == '"' {
        1
    } else if spec_digit(c) {
        2
    } else if spec_terminal(c) {
        3
    } else {
        4
    }
}

/// First position at or after `i` whose character is not a digit, or the
/// line's length if the digits run to its end.
pub open spec fn digit_run_end(s: Seq<char>, i: int) -> int
    recommends
        0 <= i <= s.len(),
    decreases s.len() - i,
{
    if i < 0 || i >= s.len() {
        s.len() as int
    } else if !spec_digit(s[i]) {
        i
    } else {
        digit_run_end(s, i + 1)
    }
}

/// First position at or after `i` whose character is outside the identifier
/// alphabet, or the line's length.
pub open spec fn ident_run_end(s: Seq<char>, i: int) -> int
    recommends
        0 <= i <= s.len(),
    decreases s.len() - i,
{
    if i < 0 || i >= s.len() {
        s.len() as int
    } else if !spec_ident_char(s[i]) {
        i
    } else {
        ident_run_end(s, i + 1)
    }
}

/// First position at or after `i` holding a terminal character or space, or
/// the line's length: how far greedy error recovery absorbs a bad run.
pub open spec fn terminal_search(s: Seq<char>, i: int) -> int
    recommends
        0 <= i <= s.len(),
    decreases s.len() - i,
{
    if i < 0 || i >= s.len() {
        s.len() as int
    } else if spec_terminal(s[i]) {
        i
    } else {
        terminal_search(s, i + 1)
    }
}

/// First position at or after `i` holding a double quote, or the line's
/// length if the string literal is never closed.
pub open spec fn quote_search(s: Seq<char>, i: int) -> int
    recommends
        0 <= i <= s.len(),
    decreases s.len() - i,
{
    if i < 0 || i >= s.len() {
        s.len() as int
    } else if s[i] == '"' {
        i
    } else {
        quote_search(s, i + 1)
    }
}

pub proof fn lemma_digit_run_end_bounds(s: Seq<char>, i: int)
    requires
        0 <= i <= s.len(),
    ensures
        i <= digit_run_end(s, i) <= s.len(),
    decreases s.len() - i,
{
    if i < s.len() && spec_digit(s[i]) {
        lemma_digit_run_end_bounds(s, i + 1);
    }
}

pub proof fn lemma_ident_run_end_bounds(s: Seq<char>, i: int)
    requires
        0 <= i <= s.len(),
    ensures
        i <= ident_run_end(s, i) <= s.len(),
    decreases s.len() - i,
{
    if i < s.len() && spec_ident_char(s[i]) {
        lemma_ident_run_end_bounds(s, i + 1);
    }
}

pub proof fn lemma_terminal_search_bounds(s: Seq<char>, i: int)
    requires
        0 <= i <= s.len(),
    ensures
        i <= terminal_search(s, i) <= s.len(),
    decreases s.len() - i,
{
    if i < s.len() && !spec_terminal(s[i]) {
        lemma_terminal_search_bounds(s, i + 1);
    }
}

pub proof fn lemma_quote_search_bounds(s: Seq<char>, i: int)
    requires
        0 <= i <= s.len(),
    ensures
        i <= quote_search(s, i) <= s.len(),
    decreases s.len() - i,
{
    if i < s.len() && s[i] != '"' {
        lemma_quote_search_bounds(s, i + 1);
    }
}

/// Scan a string literal opened by the quote at `i`: the token is the text
/// up to the closing quote, or an illegal token carrying the partial text
/// when the line ends first.
pub open spec fn scan_string(s: Seq<char>, i: int, line: int) -> (TokenModel, int)
    recommends
        0 <= i < s.len(),
        s[i] == '"',
{
    let q = quote_search(s, i + 1);
    if q < s.len() {
        (
            TokenModel {
                kind: TokenKind::StringLit,
                value: Some(s.subrange(i + 1, q)),
                line,
                column: q + 1,
            },
            q + 1,
        )
    } else {
        (
            TokenModel {
                kind: TokenKind::Illegal,
                value: Some(s.subrange(i + 1, s.len() as int)),
                line,
                column: s.len() as int,
            },
            s.len() as int,
        )
    }
}

/// Scan a maximal digit run starting at `i`. A run ended by a terminal
/// character, space or the line's end is a number; any other character
/// turns the run illegal and is absorbed, together with what follows it,
/// up to the next terminal character or space.
pub open spec fn scan_number(s: Seq<char>, i: int, line: int) -> (TokenModel, int)
    recommends
        0 <= i < s.len(),
        spec_digit(s[i]),
{
    let j = digit_run_end(s, i);
    if j >= s.len() || spec_terminal(s[j]) {
        (TokenModel { kind: TokenKind::Number, value: Some(s.subrange(i, j)), line, column: j }, j)
    } else {
        let m = terminal_search(s, j);
        (
            TokenModel { kind: TokenKind::Illegal, value: Some(s.subrange(i, m)), line, column: m },
            m,
        )
    }
}

/// The kind of a one-character operator token.
pub open spec fn operator_kind(c: char) -> TokenKind {
    if c == ':' {
        TokenKind::Colon
    } else if c == '=' {
        TokenKind::Assign
    } else if c == '+' {
        TokenKind::Plus
    } else if c == '-' {
        TokenKind::Minus
    } else if c == '*' {
        TokenKind::Asterisk
    } else if c == '/' {
        TokenKind::Divide
    } else if c == '!' {
        TokenKind::Bang
    } else if c == '(' {
        TokenKind::LParen
    } else if c == ')' {
        TokenKind::RParen
    } else if c == '{' {
        TokenKind::LBrace
    } else if c == '}' {
        TokenKind::RBrace
    } else {
        TokenKind::Illegal
    }
}

/// Scan an operator at `i`: one character, unless that character is `!` or
/// `=` immediately followed by `=`, in which case both characters form a
/// single two-character token (maximal munch).
pub open spec fn scan_operator(s: Seq<char>, i: int, line: int) -> (TokenModel, int)
    recommends
        0 <= i < s.len(),
        spec_terminal(s[i]) && s[i] != ' ',
{
    if (s[i] == '!' || s[i] == '=') && i + 1 < s.len() && s[i + 1] == '=' {
        (
            TokenModel {
                kind: if s[i] == '!' {
                    TokenKind::Different
                } else {
                    TokenKind::Equal
                },
                value: None,
                line,
                column: i + 2,
            },
            i + 2,
        )
    } else {
        (TokenModel { kind: operator_kind(s[i]), value: None, line, column: i + 1 }, i + 1)
    }
}

/// The keyword table: the fixed words whose runs are keyword tokens rather
/// than identifiers.
pub open spec fn spec_keyword(w: Seq<char>) -> Option<TokenKind> {
    if w == "for"@ {
        Some(TokenKind::For)
    } else if w == "if"@ {
        Some(TokenKind::If)
    } else if w == "else"@ {
        Some(TokenKind::Else)
    } else if w == "int"@ {
        Some(TokenKind::Int)
    } else if w == "bool"@ {
        Some(TokenKind::Bool)
    } else if w == "function"@ {
        Some(TokenKind::Function)
    } else if w == "return"@ {
        Some(TokenKind::Return)
    } else {
        None
    }
}

/// The full lexeme table: operators, the two two-character operators, and
/// the keywords.
pub open spec fn spec_lexeme(w: Seq<char>) -> Option<TokenKind> {
    if w == ":"@ {
        Some(TokenKind::Colon)
    } else if w == "="@ {
        Some(TokenKind::Assign)
    } else if w == "+"@ {
        Some(TokenKind::Plus)
    } else if w == "-"@ {
        Some(TokenKind::Minus)
    } else if w == "*"@ {
        Some(TokenKind::Asterisk)
    } else if w == "/"@ {
        Some(TokenKind::Divide)
    } else if w == "!"@ {
        Some(TokenKind::Bang)
    } else if w == "=="@ {
        Some(TokenKind::Equal)
    } else if w == "!="@ {
        Some(TokenKind::Different)
    } else if w == "("@ {
        Some(TokenKind::LParen)
    } else if w == ")"@ {
        Some(TokenKind::RParen)
    } else if w == "{"@ {
        Some(TokenKind::LBrace)
    } else if w == "}"@ {
        Some(TokenKind::RBrace)
    } else {
        spec_keyword(w)
    }
}

/// A terminal character other than the space, alone, is a known
/// one-character lexeme whose kind is the operator's.
pub proof fn lemma_lexeme_operator(c: char)
    requires
        spec_terminal(c),
        c != ' ',
    ensures
        spec_lexeme(seq![c]) == Some(operator_kind(c)),
{
    reveal_strlit(":");
    reveal_strlit("=");
    reveal_strlit("+");
    reveal_strlit("-");
    reveal_strlit("*");
    reveal_strlit("/");
    reveal_strlit("!");
    reveal_strlit("==");
    reveal_strlit("!=");
    reveal_strlit("(");
    reveal_strlit(")");
    reveal_strlit("{");
    reveal_strlit("}");
    reveal_strlit("for");
    reveal_strlit("if");
    reveal_strlit("else");
    reveal_strlit("int");
    reveal_strlit("bool");
    reveal_strlit("function");
    reveal_strlit("return");
    assert(seq![c].len() == 1);
    assert(seq![c][0] == c);
    if c == ':' {
        assert(seq![c] =~= ":"@);
    } else if c == '=' {
        assert(seq![c] =~= "="@);
    } else if c == '+' {
        assert(seq![c] =~= "+"@);
    } else if c == '-' {
        assert(seq![c] =~= "-"@);
    } else if c == '*' {
        assert(seq![c] =~= "*"@);
    } else if c == '/' {
        assert(seq![c] =~= "/"@);
    } else if c == '!' {
        assert(seq![c] =~= "!"@);
    } else if c == '(' {
        assert(seq![c] =~= "("@);
    } else if c == ')' {
        assert(seq![c] =~= ")"@);
    } else if c == '{' {
        assert(seq![c] =~= "{"@);
    } else {
        assert(seq![c] =~= "}"@);
    }
}

/// `==` and `!=` are known two-character lexemes: `Equal` and `Different`.
pub proof fn lemma_lexeme_double(w: Seq<char>)
    requires
        w.len() == 2,
        w[0] == '!' || w[0] == '=',
        w[1] == '=',
    ensures
        spec_lexeme(w) == Some(
            if w[0] == '!' {
                TokenKind::Different
            } else {
                TokenKind::Equal
            },
        ),
{
    reveal_strlit(":");
    reveal_strlit("=");
    reveal_strlit("+");
    reveal_strlit("-");
    reveal_strlit("*");
    reveal_strlit("/");
    reveal_strlit("!");
    reveal_strlit("==");
    reveal_strlit("!=");
    if w[0] == '!' {
        assert(w =~= "!="@);
    } else {
        assert(w =~= "=="@);
    }
}

/// Scan a word run starting at `i`: a maximal run of identifier characters,
/// a keyword if the accumulated text is in the keyword table, an identifier
/// otherwise. A character outside the identifier alphabet that is not a
/// terminal turns the run illegal, absorbed up to the next terminal or
/// space.
pub open spec fn scan_word(s: Seq<char>, i: int, line: int) -> (TokenModel, int)
    recommends
        0 <= i < s.len(),
        s[i] != '"' && !spec_digit(s[i]) && !spec_terminal(s[i]),
{
    let j = ident_run_end(s, i);
    if j >= s.len() || spec_terminal(s[j]) {
        let w = s.subrange(i, j);
        match spec_keyword(w) {
            Some(k) => (TokenModel { kind: k, value: None, line, column: j }, j),
            None => (TokenModel { kind: TokenKind::Ident, value: Some(w), line, column: j }, j),
        }
    } else {
        let m = terminal_search(s, j);
        (
            TokenModel { kind: TokenKind::Illegal, value: Some(s.subrange(i, m)), line, column: m },
            m,
        )
    }
}

/// Classify the non-space character at `i` and scan one token, yielding the
/// token and the position right after it.
pub open spec fn scan_token(s: Seq<char>, i: int, line: int) -> (TokenModel, int)
    recommends
        0 <= i < s.len(),
        s[i] != ' ',
{
    if s[i] == '"' {
        scan_string(s, i, line)
    } else if spec_digit(s[i]) {
        scan_number(s, i, line)
    } else if spec_terminal(s[i]) {
        scan_operator(s, i, line)
    } else {
        scan_word(s, i, line)
    }
}

/// Every scanned token ends strictly after the position it starts at and
/// within the line: the tokenizer always makes progress.
pub proof fn lemma_scan_advances(s: Seq<char>, i: int, line: int)
    requires
        0 <= i < s.len(),
        s[i] != ' ',
    ensures
        i < scan_token(s, i, line).1 <= s.len(),
{
    if s[i] == '"' {
        lemma_quote_search_bounds(s, i + 1);
    } else if spec_digit(s[i]) {
        lemma_digit_run_end_bounds(s, i + 1);
        let j = digit_run_end(s, i);
        if !(j >= s.len() || spec_terminal(s[j])) {
            lemma_terminal_search_bounds(s, j);
        }
    } else if spec_terminal(s[i]) {
    } else {
        lemma_ident_run_end_bounds(s, i);
        let j = ident_run_end(s, i);
        if j >= s.len() || spec_terminal(s[j]) {
        } else {
            lemma_terminal_search_bounds(s, j + 1);
        }
    }
}

/// The tokens of the line `s` from position `i` on: spaces are skipped, and
/// each remaining character starts exactly one scanned token.
pub open spec fn lex_from(s: Seq<char>, i: int, line: int) -> Seq<TokenModel>
    decreases s.len() - i,
{
    if i < 0 || i >= s.len() {
        Seq::empty()
    } else if s[i] == ' ' {
        lex_from(s, i + 1, line)
    } else {
        proof {
            lemma_scan_advances(s, i, line);
        }
        let (t, j) = scan_token(s, i, line);
        seq![t] + lex_from(s, j, line)
    }
}

/// The line-boundary marker appended after the tokens of every line.
pub open spec fn end_line_token(line: int) -> TokenModel {
    TokenModel { kind: TokenKind::EndLine, value: None, line, column: 0 }
}

/// All tokens of one line: its scanned tokens followed by exactly one
/// line-boundary marker, also on an empty line.
pub open spec fn lex_line(s: Seq<char>, line: int) -> Seq<TokenModel> {
    lex_from(s, 0, line).push(end_line_token(line))
}

/// All tokens of a sequence of lines, numbering them from `first` on.
pub open spec fn lex_lines(lines: Seq<Seq<char>>, first: int) -> Seq<TokenModel>
    decreases lines.len(),
{
    if lines.len() == 0 {
        Seq::empty()
    } else {
        lex_line(lines[0], first) + lex_lines(lines.drop_first(), first + 1)
    }
}

/// The kind sequence of a token sequence.
pub open spec fn kinds_of(ts: Seq<TokenModel>) -> Seq<TokenKind> {
    ts.map(|i: int, t: TokenModel| t.kind)
}

} // verus!
