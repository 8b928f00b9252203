//! Laws of the lexical analyzer.
//!
//! Statements that relate whole runs of the tokenizer rather than one
//! scanning step: every line is closed by exactly one line-boundary token;
//! the two-character operators win over their one-character prefixes, and a
//! lone `!` leaves what follows to be lexed on its own; and a line of
//! whitespace-separated terminals and keywords produces a kind sequence
//! that does not depend on the spacing used.

use vstd::prelude::*;

use crate::lex_spec::end_line_token;
use crate::lex_spec::ident_run_end;
use crate::lex_spec::kinds_of;
use crate::lex_spec::lemma_scan_advances;
use crate::lex_spec::lex_from;
use crate::lex_spec::lex_line;
use crate::lex_spec::operator_kind;
use crate::lex_spec::scan_token;
use crate::lex_spec::scan_word;
use crate::lex_spec::spec_digit;
use crate::lex_spec::spec_ident_char;
use crate::lex_spec::spec_keyword;
use crate::lex_spec::spec_lexeme;
use crate::lex_spec::spec_terminal;
use crate::token::TokenKind;
use crate::token::TokenModel;

verus! {

/// No token scanned from a line's text is the line-boundary marker: that
/// kind is appended once per line and never produced by scanning.
proof fn lemma_lex_from_no_end_line(s: Seq<char>, i: int, line: int)
    ensures
        forall|k: int|
            0 <= k < lex_from(s, i, line).len() ==> lex_from(s, i, line)[k].kind
                != TokenKind::EndLine,
    decreases s.len() - i,
{
    if i < 0 || i >= s.len() {
    } else if s[i] == ' ' {
        lemma_lex_from_no_end_line(s, i + 1, line);
    } else {
        lemma_scan_advances(s, i, line);
        let (t, j) = scan_token(s, i, line);
        lemma_lex_from_no_end_line(s, j, line);
        assert(t.kind != TokenKind::EndLine);
        assert forall|k: int| 0 <= k < lex_from(s, i, line).len() implies lex_from(s, i, line)[k].kind
            != TokenKind::EndLine by {
            if k > 0 {
                assert(lex_from(s, i, line)[k] == lex_from(s, j, line)[k - 1]);
            }
        }
    }
}

/// Law: every source line, including an empty one, yields exactly one
/// line-boundary token, and it is the last token of that line.
pub proof fn lemma_one_end_line_per_line(s: Seq<char>, line: int)
    ensures
        lex_line(s, line).len() >= 1,
        lex_line(s, line)[lex_line(s, line).len() - 1] == end_line_token(line),
        forall|k: int|
            0 <= k < lex_line(s, line).len() - 1 ==> lex_line(s, line)[k].kind
                != TokenKind::EndLine,
{
    lemma_lex_from_no_end_line(s, 0, line);
}

/// Each scanned token records the line it came from, and its column is the
/// count of characters consumed through it: exactly the position scanning
/// continues from.
proof fn lemma_scan_position(s: Seq<char>, i: int, line: int)
    requires
        0 <= i < s.len(),
        s[i] != ' ',
    ensures
        scan_token(s, i, line).0.line == line,
        scan_token(s, i, line).0.column == scan_token(s, i, line).1,
{
}

/// Law: position fields are monotonically non-decreasing within a line:
/// every scanned token carries the line's number and a column past the
/// scan's start, and columns strictly increase in source order.
pub proof fn lemma_positions_monotonic(s: Seq<char>, i: int, line: int)
    ensures
        forall|k: int|
            0 <= k < lex_from(s, i, line).len() ==> (#[trigger] lex_from(s, i, line)[k]).line
                == line,
        forall|k: int|
            0 <= k < lex_from(s, i, line).len() ==> (#[trigger] lex_from(s, i, line)[k]).column
                > i,
        forall|k1: int, k2: int|
            0 <= k1 < k2 < lex_from(s, i, line).len() ==> (#[trigger] lex_from(s, i, line)[k1]).column
                < (#[trigger] lex_from(s, i, line)[k2]).column,
    decreases s.len() - i,
{
    if i < 0 || i >= s.len() {
    } else if s[i] == ' ' {
        lemma_positions_monotonic(s, i + 1, line);
    } else {
        lemma_scan_advances(s, i, line);
        lemma_scan_position(s, i, line);
        let (t, j) = scan_token(s, i, line);
        lemma_positions_monotonic(s, j, line);
        let lex = lex_from(s, i, line);
        let rest = lex_from(s, j, line);
        assert forall|k1: int, k2: int| 0 <= k1 < k2 < lex.len() implies (#[trigger] lex[k1]).column
            < (#[trigger] lex[k2]).column by {
            assert(lex[k2] == rest[k2 - 1]);
            if k1 == 0 {
                assert(rest[k2 - 1].column > j);
            } else {
                assert(lex[k1] == rest[k1 - 1]);
            }
        }
    }
}

/// Law: a scanned token carries a payload exactly when its kind is
/// open-ended: identifiers, numbers, string literals and illegal runs carry
/// their text, and every other kind carries none.
pub proof fn lemma_payload_exactly_on_open_kinds(s: Seq<char>, i: int, line: int)
    ensures
        forall|k: int|
            0 <= k < lex_from(s, i, line).len() ==> ((#[trigger] lex_from(s, i, line)[k].value)
                is Some <==> (lex_from(s, i, line)[k].kind == TokenKind::Ident || lex_from(
                s,
                i,
                line,
            )[k].kind == TokenKind::Number || lex_from(s, i, line)[k].kind == TokenKind::StringLit
                || lex_from(s, i, line)[k].kind == TokenKind::Illegal)),
    decreases s.len() - i,
{
    if i < 0 || i >= s.len() {
    } else if s[i] == ' ' {
        lemma_payload_exactly_on_open_kinds(s, i + 1, line);
    } else {
        lemma_scan_advances(s, i, line);
        let (t, j) = scan_token(s, i, line);
        lemma_payload_exactly_on_open_kinds(s, j, line);
        assert(t.value is Some <==> (t.kind == TokenKind::Ident || t.kind == TokenKind::Number
            || t.kind == TokenKind::StringLit || t.kind == TokenKind::Illegal));
        assert forall|k: int| 0 < k < lex_from(s, i, line).len() implies lex_from(s, i, line)[k]
            == lex_from(s, j, line)[k - 1] by {
        }
    }
}

/// Law: `==` at the head of the scan is consumed as one `Equal` token
/// covering both characters, never as two `Assign` tokens.
pub proof fn lemma_equal_maximal_munch(s: Seq<char>, line: int)
    requires
        s.len() >= 2,
        s[0] == '=',
        s[1] == '=',
    ensures
        lex_from(s, 0, line) == seq![
            (TokenModel { kind: TokenKind::Equal, value: None, line, column: 2 }),
        ] + lex_from(s, 2, line),
{
}

/// Law: `!=` at the head of the scan is consumed as one `Different` token
/// covering both characters.
pub proof fn lemma_different_maximal_munch(s: Seq<char>, line: int)
    requires
        s.len() >= 2,
        s[0] == '!',
        s[1] == '=',
    ensures
        lex_from(s, 0, line) == seq![
            (TokenModel { kind: TokenKind::Different, value: None, line, column: 2 }),
        ] + lex_from(s, 2, line),
{
}

/// Law: `!` not followed by `=` is one `Bang` token, and the following
/// character is lexed independently of it: the rest of the line's tokens
/// are exactly those of scanning on from the next position.
pub proof fn lemma_bang_alone(s: Seq<char>, line: int)
    requires
        s.len() >= 1,
        s[0] == '!',
        s.len() < 2 || s[1] != '=',
    ensures
        lex_from(s, 0, line) == seq![
            (TokenModel { kind: TokenKind::Bang, value: None, line, column: 1 }),
        ] + lex_from(s, 1, line),
{
}

/// A run of `n` spaces (none for a non-positive `n`).
pub open spec fn spaces(n: int) -> Seq<char> {
    Seq::new(n as nat, |k: int| ' ')
}

/// The line spelled by writing each word in order, `gs[k]` spaces before
/// the `k`-th word and `gs[last]` spaces after the final one.
pub open spec fn render_words(ws: Seq<Seq<char>>, gs: Seq<int>) -> Seq<char>
    recommends
        gs.len() == ws.len() + 1,
    decreases ws.len(),
{
    if ws.len() == 0 {
        spaces(gs[0])
    } else {
        spaces(gs[0]) + ws[0] + render_words(ws.drop_first(), gs.drop_first())
    }
}

/// A spacing for `n` words: one gap before each word and one after the
/// last, every gap non-negative, and at least one space between two words.
pub open spec fn valid_gaps(gs: Seq<int>, n: int) -> bool {
    &&& gs.len() == n + 1
    &&& forall|k: int| 0 <= k <= n ==> gs[k] >= 0
    &&& forall|k: int| 1 <= k < n ==> gs[k] >= 1
}

/// Every word is a fixed lexeme of the language: a terminal or a keyword.
pub open spec fn lexeme_words(ws: Seq<Seq<char>>) -> bool {
    forall|k: int| 0 <= k < ws.len() ==> spec_lexeme(ws[k]) is Some
}

/// The kinds the words lex to.
pub open spec fn word_kinds(ws: Seq<Seq<char>>) -> Seq<TokenKind> {
    ws.map(|k: int, w: Seq<char>| spec_lexeme(w)->Some_0)
}

/// Scanning skips a run of spaces without emitting a token.
pub proof fn lemma_skip_spaces(s: Seq<char>, i: int, j: int, line: int)
    requires
        0 <= i <= j <= s.len(),
        forall|k: int| i <= k < j ==> s[k] == ' ',
    ensures
        lex_from(s, i, line) == lex_from(s, j, line),
    decreases j - i,
{
    if i < j {
        lemma_skip_spaces(s, i + 1, j, line);
    }
}

/// The identifier run from `i` ends exactly at `e` when all of `[i, e)` is
/// identifier characters and `e` is the line's end or a character outside
/// the identifier alphabet.
proof fn lemma_ident_run_exact(s: Seq<char>, i: int, e: int)
    requires
        0 <= i <= e <= s.len(),
        forall|k: int| i <= k < e ==> spec_ident_char(s[k]),
        e == s.len() || !spec_ident_char(s[e]),
    ensures
        ident_run_end(s, i) == e,
    decreases e - i,
{
    if i < e {
        lemma_ident_run_exact(s, i + 1, e);
    }
}

/// Scanning at a terminal character other than the space, when no `=`
/// follows an `!` or `=`, consumes exactly that character as its operator
/// token.
proof fn lemma_scan_single_op(s: Seq<char>, i: int, line: int)
    requires
        0 <= i < s.len(),
        spec_terminal(s[i]),
        s[i] != ' ',
        (s[i] == '!' || s[i] == '=') ==> (i + 1 == s.len() || s[i + 1] != '='),
    ensures
        scan_token(s, i, line) == (
            (TokenModel { kind: operator_kind(s[i]), value: None, line, column: i + 1 }),
            i + 1,
        ),
{
}

/// Scanning at `!` or `=` immediately followed by `=` consumes both
/// characters as one token.
proof fn lemma_scan_double_op(s: Seq<char>, i: int, line: int)
    requires
        0 <= i,
        i + 2 <= s.len(),
        s[i] == '!' || s[i] == '=',
        s[i + 1] == '=',
    ensures
        scan_token(s, i, line) == (
            (TokenModel {
                kind: if s[i] == '!' {
                    TokenKind::Different
                } else {
                    TokenKind::Equal
                },
                value: None,
                line,
                column: i + 2,
            }),
            i + 2,
        ),
{
}

/// Scanning at the head of an identifier run `[i, e)` bounded by the line's
/// end or a terminal character consumes exactly the run, as a keyword token
/// if the run is in the keyword table and an identifier otherwise.
proof fn lemma_scan_word_run(s: Seq<char>, i: int, e: int, line: int)
    requires
        0 <= i < e <= s.len(),
        forall|k: int| i <= k < e ==> spec_ident_char(s[k]),
        !spec_digit(s[i]),
        e == s.len() || spec_terminal(s[e]),
    ensures
        s[i] != '"' && s[i] != ' ' && !spec_terminal(s[i]),
        scan_token(s, i, line) == scan_word(s, i, line),
        scan_token(s, i, line).1 == e,
        scan_token(s, i, line).0 == (match spec_keyword(s.subrange(i, e)) {
            Some(k) => TokenModel { kind: k, value: None, line, column: e },
            None => TokenModel {
                kind: TokenKind::Ident,
                value: Some(s.subrange(i, e)),
                line,
                column: e,
            },
        }),
{
    if e < s.len() {
        assert(!spec_ident_char(s[e]));
    }
    lemma_ident_run_exact(s, i, e);
}

/// Scanning at the head of one whole lexeme bounded by the line's end or a
/// space consumes exactly the lexeme, emits its kind, and carries no
/// payload.
proof fn lemma_scan_lexeme(s: Seq<char>, i: int, w: Seq<char>, line: int)
    requires
        0 <= i,
        i + w.len() <= s.len(),
        s.subrange(i, i + w.len() as int) == w,
        spec_lexeme(w) is Some,
        i + w.len() == s.len() || s[i + w.len()] == ' ',
    ensures
        w.len() >= 1,
        s[i] != ' ',
        scan_token(s, i, line).0.kind == spec_lexeme(w)->Some_0,
        scan_token(s, i, line).0.value == Option::<Seq<char>>::None,
        scan_token(s, i, line).1 == i + w.len(),
{
    reveal_strlit(":");
    reveal_strlit("=");
    reveal_strlit("+");
    reveal_strlit("-");
    reveal_strlit("*");
    reveal_strlit("/");
    reveal_strlit("!");
    reveal_strlit("==");
    reveal_strlit("!=");
    reveal_strlit("(");
    reveal_strlit(")");
    reveal_strlit("{");
    reveal_strlit("}");
    reveal_strlit("for");
    reveal_strlit("if");
    reveal_strlit("else");
    reveal_strlit("int");
    reveal_strlit("bool");
    reveal_strlit("function");
    reveal_strlit("return");
    assert forall|k: int| 0 <= k < w.len() implies s[i + k] == w[k] by {
        assert(w[k] == s.subrange(i, i + w.len() as int)[k]);
    }
    if w == ":"@ || w == "+"@ || w == "-"@ || w == "*"@ || w == "/"@ || w == "("@ || w == ")"@ || w
        == "{"@ || w == "}"@ || w == "="@ || w == "!"@ {
        assert(s[i] == w[0]);
        lemma_scan_single_op(s, i, line);
    } else if w == "=="@ || w == "!="@ {
        assert(s[i] == w[0] && s[i + 1] == w[1]);
        lemma_scan_double_op(s, i, line);
    } else if w == "for"@ || w == "if"@ || w == "else"@ || w == "int"@ || w == "bool"@ || w
        == "function"@ || w == "return"@ {
        assert forall|k: int| i <= k < i + w.len() implies spec_ident_char(s[k]) by {
            assert(s[k] == w[k - i]);
        }
        lemma_scan_word_run(s, i, i + w.len() as int, line);
        assert(s.subrange(i, i + w.len() as int) == w);
    } else {
        assert(spec_lexeme(w) is None);
    }
}

/// The tokens of a rendering of words from position `i` on have exactly the
/// words' kinds, whatever the gaps.
proof fn lemma_words_from(s: Seq<char>, i: int, ws: Seq<Seq<char>>, gs: Seq<int>, line: int)
    requires
        0 <= i <= s.len(),
        s.subrange(i, s.len() as int) == render_words(ws, gs),
        lexeme_words(ws),
        valid_gaps(gs, ws.len() as int),
    ensures
        kinds_of(lex_from(s, i, line)) == word_kinds(ws),
    decreases ws.len(),
{
    let tail = s.subrange(i, s.len() as int);
    if ws.len() == 0 {
        assert(gs[0] >= 0);
        assert(spaces(gs[0]).len() == gs[0]);
        assert(s.len() - i == gs[0]);
        assert forall|k: int| i <= k < s.len() implies s[k] == ' ' by {
            assert(s[k] == tail[k - i]);
            assert(tail[k - i] == spaces(gs[0])[k - i]);
        }
        lemma_skip_spaces(s, i, s.len() as int, line);
        assert(kinds_of(lex_from(s, s.len() as int, line)) =~= word_kinds(ws));
    } else {
        let g = gs[0];
        let w = ws[0];
        let rest = render_words(ws.drop_first(), gs.drop_first());
        let iw = i + g;
        let ie = iw + w.len();
        assert(tail == spaces(g) + w + rest);
        assert(s.len() - i == g + w.len() + rest.len());
        assert forall|k: int| i <= k < iw implies s[k] == ' ' by {
            assert(s[k] == tail[k - i]);
            assert(tail[k - i] == spaces(g)[k - i]);
        }
        lemma_skip_spaces(s, i, iw, line);
        assert forall|k: int| 0 <= k < w.len() implies s.subrange(iw, ie as int)[k] == w[k] by {
            assert(s.subrange(iw, ie as int)[k] == s[iw + k]);
            assert(s[iw + k] == tail[g + k]);
            assert(tail[g + k] == w[k]);
        }
        assert(s.subrange(iw, ie as int) =~= w);
        // the character after the word, if any, is a space: the next gap is
        // positive when words follow, and only trailing spaces remain else
        if ie < s.len() {
            assert(rest.len() > 0);
            if ws.len() == 1 {
                assert(rest == spaces(gs.drop_first()[0]));
                assert(rest[0] == ' ');
            } else {
                assert(gs.drop_first()[0] == gs[1] && gs[1] >= 1);
                assert(rest == spaces(gs.drop_first()[0]) + ws.drop_first()[0] + render_words(
                    ws.drop_first().drop_first(),
                    gs.drop_first().drop_first(),
                ));
                assert(rest[0] == spaces(gs.drop_first()[0])[0]);
            }
            assert(s[ie] == tail[g + w.len()]);
            assert(tail[g + w.len()] == rest[0]);
            assert(s[ie] == ' ');
        }
        assert(spec_lexeme(w) is Some);
        lemma_scan_lexeme(s, iw, w, line);
        assert forall|k: int| 0 <= k < rest.len() implies s.subrange(ie as int, s.len() as int)[k]
            == rest[k] by {
            assert(s.subrange(ie as int, s.len() as int)[k] == s[ie + k]);
            assert(s[ie + k] == tail[g + w.len() + k]);
        }
        assert(s.subrange(ie as int, s.len() as int) =~= rest);
        assert(valid_gaps(gs.drop_first(), ws.len() as int - 1));
        assert(lexeme_words(ws.drop_first()));
        lemma_words_from(s, ie as int, ws.drop_first(), gs.drop_first(), line);
        let (t, j) = scan_token(s, iw, line);
        assert(lex_from(s, iw, line) == seq![t] + lex_from(s, j, line));
        assert(kinds_of(lex_from(s, i, line)) =~= seq![t.kind] + kinds_of(lex_from(s, j, line)));
        assert(word_kinds(ws) =~= seq![spec_lexeme(w)->Some_0] + word_kinds(ws.drop_first()));
        assert(kinds_of(lex_from(s, i, line)) =~= word_kinds(ws));
    }
}

/// Law: a line consisting solely of whitespace-separated terminals and
/// keywords lexes to exactly the words' kinds, for every valid spacing.
pub proof fn lemma_words_lex_to_kinds(ws: Seq<Seq<char>>, gs: Seq<int>, line: int)
    requires
        lexeme_words(ws),
        valid_gaps(gs, ws.len() as int),
    ensures
        kinds_of(lex_from(render_words(ws, gs), 0, line)) == word_kinds(ws),
{
    let s = render_words(ws, gs);
    assert(s.subrange(0, s.len() as int) =~= s);
    lemma_words_from(s, 0, ws, gs, line);
}

/// Law: the kind sequence of such a line is independent of the exact
/// spacing used: any two valid spacings of the same words lex to the same
/// kinds.
pub proof fn lemma_spacing_independent(
    ws: Seq<Seq<char>>,
    gs1: Seq<int>,
    gs2: Seq<int>,
    line: int,
)
    requires
        lexeme_words(ws),
        valid_gaps(gs1, ws.len() as int),
        valid_gaps(gs2, ws.len() as int),
    ensures
        kinds_of(lex_from(render_words(ws, gs1), 0, line)) == kinds_of(
            lex_from(render_words(ws, gs2), 0, line),
        ),
{
    lemma_words_lex_to_kinds(ws, gs1, line);
    lemma_words_lex_to_kinds(ws, gs2, line);
}

} // verus!
