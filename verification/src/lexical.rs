//! The lexical analyzer.
//!
//! `get_tokens` turns source lines into the ordered token stream that
//! `crate::lex_spec::lex_lines` describes: `read_line` scans one line by
//! skipping spaces, classifying the next character into one of four states
//! (string, number, terminal character, word) and dispatching to the
//! matching `process_*` function, and `insert_end_line_token` closes every
//! line, also an empty one, with exactly one line-boundary token.

use vstd::prelude::*;
use vstd::string::StrSliceExecFns;
use vstd::string::StringExecFns;

use crate::lex_spec::digit_run_end;
use crate::lex_spec::end_line_token;
use crate::lex_spec::ident_run_end;
use crate::lex_spec::lemma_lexeme_double;
use crate::lex_spec::lemma_lexeme_operator;
use crate::lex_spec::lex_from;
use crate::lex_spec::lex_line;
use crate::lex_spec::lex_lines;
use crate::lex_spec::quote_search;
use crate::lex_spec::scan_number;
use crate::lex_spec::scan_operator;
use crate::lex_spec::scan_string;
use crate::lex_spec::scan_token;
use crate::lex_spec::scan_word;
use crate::lex_spec::spec_digit;
use crate::lex_spec::spec_ident_char;
use crate::lex_spec::spec_keyword;
use crate::lex_spec::spec_lexeme;
use crate::lex_spec::spec_state;
use crate::lex_spec::spec_terminal;
use crate::lex_spec::terminal_search;
use crate::token::lemma_models_push;
use crate::token::models;
use crate::token::Token;
use crate::token::TokenKind;
use crate::token::TokenModel;

verus! {

/// Whether `c` is a decimal digit.
pub fn is_number(c: &char) -> (r: bool)
    ensures
        r == spec_digit(*c),
{
    let u = *c as u32;
    48 <= u && u <= 57
}

/// Whether `c` is a terminal character: one of the eleven operator
/// characters, or the space.
pub fn is_terminal_char(c: &char) -> (r: bool)
    ensures
        r == spec_terminal(*c),
{
    match *c {
        ':' | '=' | '+' | '-' | '*' | '/' | '!' | '(' | ')' | '{' | '}' | ' ' => true,
        _ => false,
    }
}

/// Whether `c` belongs to the identifier alphabet: lowercase letters, the
/// underscore, and digits.
fn is_ident_char(c: &char) -> (r: bool)
    ensures
        r == spec_ident_char(*c),
{
    let u = *c as u32;
    (97 <= u && u <= 122) || *c == '_' || is_number(c)
}

/// The state a non-space character sends the tokenizer into:
/// 1 string, 2 number, 3 terminal character, 4 word.
pub fn identify_state(c: &char) -> (state: i8)
    ensures
        state == spec_state(*c),
{
    if *c == '"' {
        1
    } else if is_number(c) {
        2
    } else if is_terminal_char(c) {
        3
    } else {
        4
    }
}

/// Build a token and append it to the token stream.
pub fn create_token(
    kind: TokenKind,
    value: Option<String>,
    line: usize,
    column: usize,
    tokens: &mut Vec<Token>,
)
    ensures
        models(final(tokens)@) == models(old(tokens)@).push(
            (TokenModel {
                kind,
                value: value.deep_view(),
                line: line as int,
                column: column as int,
            }),
        ),
{
    let new_token = Token::new(kind, value, line, column);
    proof {
        lemma_models_push(tokens@, new_token);
    }
    tokens.push(new_token);
}

/// Append the line-boundary token that closes a source line.
pub fn insert_end_line_token(tokens: &mut Vec<Token>, line_number: usize)
    ensures
        models(final(tokens)@) == models(old(tokens)@).push(end_line_token(line_number as int)),
{
    create_token(TokenKind::EndLine, None, line_number, 0, tokens);
}

/// Look a complete word up in the keyword table.
fn keyword_lookup(w: &String) -> (r: Option<TokenKind>)
    ensures
        r == spec_keyword(w@),
{
    if *w == String::from_str("for") {
        Some(TokenKind::For)
    } else if *w == String::from_str("if") {
        Some(TokenKind::If)
    } else if *w == String::from_str("else") {
        Some(TokenKind::Else)
    } else if *w == String::from_str("int") {
        Some(TokenKind::Int)
    } else if *w == String::from_str("bool") {
        Some(TokenKind::Bool)
    } else if *w == String::from_str("function") {
        Some(TokenKind::Function)
    } else if *w == String::from_str("return") {
        Some(TokenKind::Return)
    } else {
        None
    }
}

/// Look a complete lexeme up in the full token table: operators, the two
/// two-character operators, and the keywords.
fn lexeme_lookup(w: &String) -> (r: Option<TokenKind>)
    ensures
        r == spec_lexeme(w@),
{
    if *w == String::from_str(":") {
        Some(TokenKind::Colon)
    } else if *w == String::from_str("=") {
        Some(TokenKind::Assign)
    } else if *w == String::from_str("+") {
        Some(TokenKind::Plus)
    } else if *w == String::from_str("-") {
        Some(TokenKind::Minus)
    } else if *w == String::from_str("*") {
        Some(TokenKind::Asterisk)
    } else if *w == String::from_str("/") {
        Some(TokenKind::Divide)
    } else if *w == String::from_str("!") {
        Some(TokenKind::Bang)
    } else if *w == String::from_str("==") {
        Some(TokenKind::Equal)
    } else if *w == String::from_str("!=") {
        Some(TokenKind::Different)
    } else if *w == String::from_str("(") {
        Some(TokenKind::LParen)
    } else if *w == String::from_str(")") {
        Some(TokenKind::RParen)
    } else if *w == String::from_str("{") {
        Some(TokenKind::LBrace)
    } else if *w == String::from_str("}") {
        Some(TokenKind::RBrace)
    } else {
        keyword_lookup(w)
    }
}

/// Classify the accumulated lexeme and append its token: the table's kind
/// for a known lexeme, an illegal token carrying the text otherwise. An
/// empty lexeme appends nothing. The lexeme is cleared.
pub fn flush_token(word: &mut String, tokens: &mut Vec<Token>, line_number: usize, column_number: usize)
    ensures
        old(word)@.len() == 0 ==> final(tokens)@ == old(tokens)@ && final(word)@ == old(word)@,
        old(word)@.len() > 0 ==> final(word)@.len() == 0 && models(final(tokens)@) == models(
            old(tokens)@,
        ).push(
            (match spec_lexeme(old(word)@) {
                Some(k) => TokenModel {
                    kind: k,
                    value: None,
                    line: line_number as int,
                    column: column_number as int,
                },
                None => TokenModel {
                    kind: TokenKind::Illegal,
                    value: Some(old(word)@),
                    line: line_number as int,
                    column: column_number as int,
                },
            }),
        ),
{
    if word.as_str().is_empty() {
        return ;
    }
    let kind = lexeme_lookup(word);
    match kind {
        Some(k) => create_token(k, None, line_number, column_number, tokens),
        None => {
            let text = word.clone();
            create_token(TokenKind::Illegal, Some(text), line_number, column_number, tokens);
        },
    }
    *word = String::new();
}

/// Scan the string literal opened by the quote at `i`: the enclosed text up
/// to the closing quote, or an illegal token carrying the partial text when
/// the line ends first. Returns the position after the token.
#[verifier::loop_isolation(false)]
pub fn process_string(line: &str, i: usize, tokens: &mut Vec<Token>, line_number: usize) -> (r: usize)
    requires
        i < line@.len(),
        line@[i as int] == '"',
    ensures
        ({
            let (t, j) = scan_string(line@, i as int, line_number as int);
            &&& models(final(tokens)@) == models(old(tokens)@).push(t)
            &&& r as int == j
        }),
{
    let n = line.unicode_len();
    let mut q: usize = i + 1;
    while q < n && line.get_char(q) != '"'
        invariant
            i + 1 <= q <= n,
            quote_search(line@, i + 1 as int) == quote_search(line@, q as int),
        decreases n - q,
    {
        q = q + 1;
    }
    if q < n {
        let value = String::from_str(line.substring_char(i + 1, q));
        create_token(TokenKind::StringLit, Some(value), line_number, q + 1, tokens);
        q + 1
    } else {
        let value = String::from_str(line.substring_char(i + 1, n));
        create_token(TokenKind::Illegal, Some(value), line_number, n, tokens);
        n
    }
}

/// Scan the maximal digit run starting at `i`: a number token when the run
/// is ended by a terminal character, space or the line's end, an illegal
/// token absorbing the bad run up to the next terminal character otherwise.
/// Returns the position after the token.
#[verifier::loop_isolation(false)]
pub fn process_number(line: &str, i: usize, tokens: &mut Vec<Token>, line_number: usize) -> (r: usize)
    requires
        i < line@.len(),
        spec_digit(line@[i as int]),
    ensures
        ({
            let (t, j) = scan_number(line@, i as int, line_number as int);
            &&& models(final(tokens)@) == models(old(tokens)@).push(t)
            &&& r as int == j
        }),
{
    let n = line.unicode_len();
    let mut j: usize = i;
    while j < n && is_number(&line.get_char(j))
        invariant
            i <= j <= n,
            digit_run_end(line@, i as int) == digit_run_end(line@, j as int),
        decreases n - j,
    {
        j = j + 1;
    }
    if j >= n || is_terminal_char(&line.get_char(j)) {
        let value = String::from_str(line.substring_char(i, j));
        create_token(TokenKind::Number, Some(value), line_number, j, tokens);
        j
    } else {
        let mut m: usize = j;
        while m < n && !is_terminal_char(&line.get_char(m))
            invariant
                j <= m <= n,
                terminal_search(line@, j as int) == terminal_search(line@, m as int),
            decreases n - m,
        {
            m = m + 1;
        }
        let value = String::from_str(line.substring_char(i, m));
        create_token(TokenKind::Illegal, Some(value), line_number, m, tokens);
        m
    }
}

/// Scan the terminal character at `i` as a one-character token, unless it is
/// `!` or `=` immediately followed by `=`: then both characters form a
/// single two-character token. Returns the position after the token.
pub fn process_terminal_char(line: &str, i: usize, tokens: &mut Vec<Token>, line_number: usize) -> (r:
    usize)
    requires
        i < line@.len(),
        spec_terminal(line@[i as int]),
        line@[i as int] != ' ',
    ensures
        ({
            let (t, j) = scan_operator(line@, i as int, line_number as int);
            &&& models(final(tokens)@) == models(old(tokens)@).push(t)
            &&& r as int == j
        }),
{
    let n = line.unicode_len();
    let c = line.get_char(i);
    if (c == '!' || c == '=') && i + 1 < n && line.get_char(i + 1) == '=' {
        let mut word = String::from_str(line.substring_char(i, i + 2));
        proof {
            assert(line@.subrange(i as int, i + 2 as int)[0] == line@[i as int]);
            assert(line@.subrange(i as int, i + 2 as int)[1] == line@[i + 1 as int]);
            lemma_lexeme_double(line@.subrange(i as int, i + 2 as int));
        }
        flush_token(&mut word, tokens, line_number, i + 2);
        i + 2
    } else {
        let mut word = String::from_str(line.substring_char(i, i + 1));
        proof {
            assert(line@.subrange(i as int, i + 1 as int) =~= seq![line@[i as int]]);
            lemma_lexeme_operator(line@[i as int]);
        }
        flush_token(&mut word, tokens, line_number, i + 1);
        i + 1
    }
}

/// Scan the maximal identifier run starting at `i`: a keyword token when
/// the accumulated text is in the keyword table, an identifier carrying the
/// text otherwise; a character outside the identifier alphabet that is not
/// a terminal turns the run illegal, absorbed up to the next terminal
/// character. Returns the position after the token.
#[verifier::loop_isolation(false)]
pub fn process_word(line: &str, i: usize, tokens: &mut Vec<Token>, line_number: usize) -> (r: usize)
    requires
        i < line@.len(),
        line@[i as int] != '"' && line@[i as int] != ' ',
        !spec_digit(line@[i as int]),
        !spec_terminal(line@[i as int]),
    ensures
        ({
            let (t, j) = scan_word(line@, i as int, line_number as int);
            &&& models(final(tokens)@) == models(old(tokens)@).push(t)
            &&& r as int == j
        }),
{
    let n = line.unicode_len();
    let mut j: usize = i;
    while j < n && is_ident_char(&line.get_char(j))
        invariant
            i <= j <= n,
            ident_run_end(line@, i as int) == ident_run_end(line@, j as int),
        decreases n - j,
    {
        j = j + 1;
    }
    if j >= n || is_terminal_char(&line.get_char(j)) {
        let w = String::from_str(line.substring_char(i, j));
        match keyword_lookup(&w) {
            Some(k) => create_token(k, None, line_number, j, tokens),
            None => create_token(TokenKind::Ident, Some(w), line_number, j, tokens),
        }
        j
    } else {
        let mut m: usize = j;
        while m < n && !is_terminal_char(&line.get_char(m))
            invariant
                j <= m <= n,
                terminal_search(line@, j as int) == terminal_search(line@, m as int),
            decreases n - m,
        {
            m = m + 1;
        }
        let value = String::from_str(line.substring_char(i, m));
        create_token(TokenKind::Illegal, Some(value), line_number, m, tokens);
        m
    }
}

/// Scan one whole source line, appending its tokens in source order: spaces
/// separate tokens and are never part of one, and every malformed run
/// degrades to an illegal token instead of ending the scan.
#[verifier::loop_isolation(false)]
pub fn read_line(line: &str, tokens: &mut Vec<Token>, line_number: usize)
    ensures
        models(final(tokens)@) == models(old(tokens)@) + lex_from(line@, 0, line_number as int),
{
    let n = line.unicode_len();
    let mut i: usize = 0;
    while i < n
        invariant
            i <= n,
            models(tokens@) + lex_from(line@, i as int, line_number as int) == models(old(tokens)@)
                + lex_from(line@, 0, line_number as int),
        decreases n - i,
    {
        let ghost prev = models(tokens@);
        let ghost i0 = i as int;
        let c = line.get_char(i);
        if c == ' ' {
            i = i + 1;
        } else {
            let state = identify_state(&c);
            if state == 1 {
                i = process_string(line, i, tokens, line_number);
            } else if state == 2 {
                i = process_number(line, i, tokens, line_number);
            } else if state == 3 {
                i = process_terminal_char(line, i, tokens, line_number);
            } else {
                i = process_word(line, i, tokens, line_number);
            }
            proof {
                crate::lex_spec::lemma_scan_advances(line@, i0, line_number as int);
                let (t, j) = scan_token(line@, i0, line_number as int);
                assert(models(tokens@) + lex_from(line@, i as int, line_number as int) =~= prev
                    + lex_from(line@, i0, line_number as int));
            }
        }
    }
    proof {
        assert(models(tokens@) + lex_from(line@, i as int, line_number as int) =~= models(
            tokens@,
        ));
    }
}

/// Tokenize whole source lines in order, numbering them from 1: each line's
/// tokens followed by exactly one line-boundary token, also for an empty
/// line.
#[verifier::loop_isolation(false)]
pub fn get_tokens(lines: &Vec<String>) -> (tokens: Vec<Token>)
    ensures
        models(tokens@) == lex_lines(lines.deep_view(), 1),
{
    let mut tokens: Vec<Token> = Vec::new();
    proof {
        assert(lines.deep_view().skip(0) =~= lines.deep_view());
        assert(models(tokens@) + lex_lines(lines.deep_view(), 1) =~= lex_lines(
            lines.deep_view(),
            1,
        ));
    }
    let mut idx: usize = 0;
    while idx < lines.len()
        invariant
            idx <= lines@.len(),
            models(tokens@) + lex_lines(lines.deep_view().skip(idx as int), idx as int + 1)
                == lex_lines(lines.deep_view(), 1),
        decreases lines@.len() - idx,
    {
        let ghost prev = models(tokens@);
        let ghost ls = lines.deep_view();
        let ghost k = idx as int;
        read_line(lines[idx].as_str(), &mut tokens, idx + 1);
        insert_end_line_token(&mut tokens, idx + 1);
        proof {
            assert(ls.skip(k).drop_first() =~= ls.skip(k + 1));
            assert(ls.skip(k)[0] == ls[k]);
            assert(ls[k] == lines@[k]@);
            assert(models(tokens@) =~= prev + lex_line(ls[k], k + 1));
            assert(models(tokens@) + lex_lines(ls.skip(k + 1), k + 2) =~= prev + lex_lines(
                ls.skip(k),
                k + 1,
            ));
        }
        idx = idx + 1;
    }
    proof {
        assert(lines.deep_view().skip(idx as int) =~= Seq::<Seq<char>>::empty());
        assert(models(tokens@) + lex_lines(lines.deep_view().skip(idx as int), idx as int + 1)
            =~= models(tokens@));
    }
    tokens
}

} // verus!
