//! The lexer. It turns a document into the token list the parser
//! consumes: comments run from `#` to end of line, string literals run
//! between double quotes and may span lines (an unterminated one runs to
//! end of text), identifiers are ASCII words, and `( ) , ;` are the
//! punctuation. Every other character becomes a token of its own. Each
//! token carries its span both as character offsets and as parser-native
//! (row, column) points.

use vstd::prelude::*;

use crate::position::Point;

verus! {

/// The kinds of lexeme the language has.
#[derive(Clone, Copy, Debug, PartialEq, Eq, Structural)]
pub enum TokKind {
    Comment,
    Str,
    Ident,
    OpenParen,
    CloseParen,
    Comma,
    Semi,
    Unknown,
}

/// One lexeme: its kind and its span, as character offsets into the text
/// and as (row, column) points.
#[derive(Clone, Copy, Debug, PartialEq, Eq, Structural)]
pub struct Token {
    pub kind: TokKind,
    pub start: Point,
    pub end: Point,
    pub start_off: usize,
    pub end_off: usize,
}

pub open spec fn mk_token(
    kind: TokKind,
    so: int,
    sr: int,
    sc: int,
    eo: int,
    er: int,
    ec: int,
) -> Token {
    Token {
        kind,
        start: Point { row: sr as usize, column: sc as usize },
        end: Point { row: er as usize, column: ec as usize },
        start_off: so as usize,
        end_off: eo as usize,
    }
}

pub open spec fn is_ws(c: char) -> bool {
    c == ' ' || c == '\t' || c == '\r' || c == '\n'
}

pub open spec fn is_ident_start(c: char) -> bool {
    ||| ('a' as u32) <= (c as u32) <= ('z' as u32)
    ||| ('A' as u32) <= (c as u32) <= ('Z' as u32)
    ||| c == '_'
}

pub open spec fn is_ident_char(c: char) -> bool {
    is_ident_start(c) || ('0' as u32) <= (c as u32) <= ('9' as u32)
}

/// The kind of a one-character token that is not a comment, string,
/// identifier or whitespace.
pub open spec fn punct_kind(c: char) -> TokKind {
    if c == '(' {
        TokKind::OpenParen
    } else if c == ')' {
        TokKind::CloseParen
    } else if c == ',' {
        TokKind::Comma
    } else if c == ';' {
        TokKind::Semi
    } else {
        TokKind::Unknown
    }
}

/// The offset of the next newline at or after `i`, or the text's length.
pub open spec fn scan_line_end(s: Seq<char>, i: int) -> int
    decreases s.len() - i,
{
    if i >= s.len() {
        s.len() as int
    } else if s[i] == '\n' {
        i
    } else {
        scan_line_end(s, i + 1)
    }
}

pub proof fn lemma_scan_line_end_bounds(s: Seq<char>, i: int)
    requires
        0 <= i <= s.len(),
    ensures
        i <= scan_line_end(s, i) <= s.len(),
    decreases s.len() - i,
{
    if i < s.len() && s[i] != '\n' {
        lemma_scan_line_end_bounds(s, i + 1);
    }
}

/// Where a string literal opened before `i` ends: the offset just past
/// the closing quote, or the end of text, with the row and column the
/// scan reaches.
pub open spec fn scan_string(s: Seq<char>, i: int, row: int, col: int) -> (int, int, int)
    decreases s.len() - i,
{
    if i >= s.len() {
        (s.len() as int, row, col)
    } else if s[i] == '"' {
        (i + 1, row, col + 1)
    } else if s[i] == '\n' {
        scan_string(s, i + 1, row + 1, 0)
    } else {
        scan_string(s, i + 1, row, col + 1)
    }
}

pub proof fn lemma_scan_string_bounds(s: Seq<char>, i: int, row: int, col: int)
    requires
        0 <= i <= s.len(),
    ensures
        i <= scan_string(s, i, row, col).0 <= s.len(),
    decreases s.len() - i,
{
    if i < s.len() && s[i] != '"' {
        if s[i] == '\n' {
            lemma_scan_string_bounds(s, i + 1, row + 1, 0);
        } else {
            lemma_scan_string_bounds(s, i + 1, row, col + 1);
        }
    }
}

/// The offset of the first non-identifier character at or after `i`.
pub open spec fn scan_ident_end(s: Seq<char>, i: int) -> int
    decreases s.len() - i,
{
    if i >= s.len() {
        s.len() as int
    } else if is_ident_char(s[i]) {
        scan_ident_end(s, i + 1)
    } else {
        i
    }
}

pub proof fn lemma_scan_ident_end_bounds(s: Seq<char>, i: int)
    requires
        0 <= i <= s.len(),
    ensures
        i <= scan_ident_end(s, i) <= s.len(),
    decreases s.len() - i,
{
    if i < s.len() && is_ident_char(s[i]) {
        lemma_scan_ident_end_bounds(s, i + 1);
    }
}

/// The token list from offset `i`, the scan standing at row `row`,
/// column `col`. Whitespace separates tokens and is not one.
pub open spec fn spec_lex(s: Seq<char>, i: int, row: int, col: int) -> Seq<Token>
    decreases s.len() - i,
    via spec_lex_decreases
{
    if i < 0 || i >= s.len() {
        Seq::empty()
    } else {
        let c = s[i];
        if c == '\n' {
            spec_lex(s, i + 1, row + 1, 0)
        } else if is_ws(c) {
            spec_lex(s, i + 1, row, col + 1)
        } else if c == '#' {
            let e = scan_line_end(s, i + 1);
            seq![mk_token(TokKind::Comment, i, row, col, e, row, col + (e - i))] + spec_lex(
                s,
                e,
                row,
                col + (e - i),
            )
        } else if c == '"' {
            let (e, er, ec) = scan_string(s, i + 1, row, col + 1);
            seq![mk_token(TokKind::Str, i, row, col, e, er, ec)] + spec_lex(s, e, er, ec)
        } else if is_ident_start(c) {
            let e = scan_ident_end(s, i + 1);
            seq![mk_token(TokKind::Ident, i, row, col, e, row, col + (e - i))] + spec_lex(
                s,
                e,
                row,
                col + (e - i),
            )
        } else {
            seq![mk_token(punct_kind(c), i, row, col, i + 1, row, col + 1)] + spec_lex(
                s,
                i + 1,
                row,
                col + 1,
            )
        }
    }
}

#[via_fn]
proof fn spec_lex_decreases(s: Seq<char>, i: int, row: int, col: int) {
    if 0 <= i < s.len() {
        lemma_scan_line_end_bounds(s, i + 1);
        lemma_scan_string_bounds(s, i + 1, row, col + 1);
        lemma_scan_ident_end_bounds(s, i + 1);
    }
}

fn is_ws_char(c: char) -> (r: bool)
    ensures
        r == is_ws(c),
{
    c == ' ' || c == '\t' || c == '\r' || c == '\n'
}

fn is_ident_start_char(c: char) -> (r: bool)
    ensures
        r == is_ident_start(c),
{
    ('a' <= c && c <= 'z') || ('A' <= c && c <= 'Z') || c == '_'
}

fn is_ident_char_exec(c: char) -> (r: bool)
    ensures
        r == is_ident_char(c),
{
    is_ident_start_char(c) || ('0' <= c && c <= '9')
}

fn find_line_end(text: &Vec<char>, from: usize) -> (r: usize)
    requires
        from <= text@.len(),
    ensures
        r == scan_line_end(text@, from as int),
        from <= r <= text@.len(),
{
    let n = text.len();
    let mut j = from;
    while j < n
        invariant
            from <= j <= n,
            n == text@.len(),
            scan_line_end(text@, from as int) == scan_line_end(text@, j as int),
        decreases n - j,
    {
        if text[j] == '\n' {
            proof {
                lemma_scan_line_end_bounds(text@, from as int);
            }
            return j;
        }
        j = j + 1;
    }
    proof {
        lemma_scan_line_end_bounds(text@, from as int);
    }
    j
}

fn find_string_end(text: &Vec<char>, from: usize, row: usize, col: usize) -> (r: (
    usize,
    usize,
    usize,
))
    requires
        from <= text@.len(),
        row <= from,
        col <= from,
    ensures
        ({
            let (e, er, ec) = scan_string(text@, from as int, row as int, col as int);
            r.0 == e && r.1 == er && r.2 == ec
        }),
        from <= r.0 <= text@.len(),
        r.1 <= r.0,
        r.2 <= r.0,
{
    let n = text.len();
    let mut j = from;
    let mut r = row;
    let mut c = col;
    while j < n
        invariant
            from <= j <= n,
            n == text@.len(),
            r <= j,
            c <= j,
            scan_string(text@, from as int, row as int, col as int) == scan_string(
                text@,
                j as int,
                r as int,
                c as int,
            ),
        decreases n - j,
    {
        let ch = text[j];
        if ch == '"' {
            proof {
                lemma_scan_string_bounds(text@, from as int, row as int, col as int);
            }
            return (j + 1, r, c + 1);
        } else if ch == '\n' {
            r = r + 1;
            c = 0;
        } else {
            c = c + 1;
        }
        j = j + 1;
    }
    proof {
        lemma_scan_string_bounds(text@, from as int, row as int, col as int);
    }
    (j, r, c)
}

fn find_ident_end(text: &Vec<char>, from: usize) -> (r: usize)
    requires
        from <= text@.len(),
    ensures
        r == scan_ident_end(text@, from as int),
        from <= r <= text@.len(),
{
    let n = text.len();
    let mut j = from;
    while j < n
        invariant
            from <= j <= n,
            n == text@.len(),
            scan_ident_end(text@, from as int) == scan_ident_end(text@, j as int),
        decreases n - j,
    {
        if !is_ident_char_exec(text[j]) {
            proof {
                lemma_scan_ident_end_bounds(text@, from as int);
            }
            return j;
        }
        j = j + 1;
    }
    proof {
        lemma_scan_ident_end_bounds(text@, from as int);
    }
    j
}

/// Lex the whole document.
pub fn lex(text: &Vec<char>) -> (r: Vec<Token>)
    ensures
        r@ == spec_lex(text@, 0, 0, 0),
{
    let n = text.len();
    let mut out: Vec<Token> = Vec::new();
    let mut i: usize = 0;
    let mut row: usize = 0;
    let mut col: usize = 0;
    proof {
        assert(out@ + spec_lex(text@, 0, 0, 0) =~= spec_lex(text@, 0, 0, 0));
    }
    while i < n
        invariant
            i <= n,
            n == text@.len(),
            row <= i,
            col <= i,
            spec_lex(text@, 0, 0, 0) == out@ + spec_lex(text@, i as int, row as int, col as int),
        decreases n - i,
    {
        let c = text[i];
        if c == '\n' {
            proof {
                assert(out@ + spec_lex(text@, i as int, row as int, col as int) =~= out@
                    + spec_lex(text@, i + 1, row + 1, 0));
            }
            i = i + 1;
            row = row + 1;
            col = 0;
        } else if is_ws_char(c) {
            proof {
                assert(out@ + spec_lex(text@, i as int, row as int, col as int) =~= out@
                    + spec_lex(text@, i + 1, row as int, col + 1));
            }
            i = i + 1;
            col = col + 1;
        } else if c == '#' {
            let e = find_line_end(text, i + 1);
            let tok = Token {
                kind: TokKind::Comment,
                start: Point { row, column: col },
                end: Point { row, column: col + (e - i) },
                start_off: i,
                end_off: e,
            };
            let ghost rest = spec_lex(text@, e as int, row as int, col + (e - i));
            proof {
                assert(spec_lex(text@, i as int, row as int, col as int) == seq![tok] + rest);
                assert((out@ + (seq![tok] + rest)) =~= (out@.push(tok) + rest));
            }
            out.push(tok);
            col = col + (e - i);
            i = e;
        } else if c == '"' {
            let (e, er, ec) = find_string_end(text, i + 1, row, col + 1);
            let tok = Token {
                kind: TokKind::Str,
                start: Point { row, column: col },
                end: Point { row: er, column: ec },
                start_off: i,
                end_off: e,
            };
            let ghost rest = spec_lex(text@, e as int, er as int, ec as int);
            proof {
                assert(spec_lex(text@, i as int, row as int, col as int) == seq![tok] + rest);
                assert((out@ + (seq![tok] + rest)) =~= (out@.push(tok) + rest));
            }
            out.push(tok);
            row = er;
            col = ec;
            i = e;
        } else if is_ident_start_char(c) {
            let e = find_ident_end(text, i + 1);
            let tok = Token {
                kind: TokKind::Ident,
                start: Point { row, column: col },
                end: Point { row, column: col + (e - i) },
                start_off: i,
                end_off: e,
            };
            let ghost rest = spec_lex(text@, e as int, row as int, col + (e - i));
            proof {
                assert(spec_lex(text@, i as int, row as int, col as int) == seq![tok] + rest);
                assert((out@ + (seq![tok] + rest)) =~= (out@.push(tok) + rest));
            }
            out.push(tok);
            col = col + (e - i);
            i = e;
        } else {
            let kind = if c == '(' {
                TokKind::OpenParen
            } else if c == ')' {
                TokKind::CloseParen
            } else if c == ',' {
                TokKind::Comma
            } else if c == ';' {
                TokKind::Semi
            } else {
                TokKind::Unknown
            };
            let tok = Token {
                kind,
                start: Point { row, column: col },
                end: Point { row, column: col + 1 },
                start_off: i,
                end_off: i + 1,
            };
            let ghost rest = spec_lex(text@, i + 1, row as int, col + 1);
            proof {
                assert(kind == punct_kind(c));
                assert(spec_lex(text@, i as int, row as int, col as int) == seq![tok] + rest);
                assert((out@ + (seq![tok] + rest)) =~= (out@.push(tok) + rest));
            }
            out.push(tok);
            col = col + 1;
            i = i + 1;
        }
    }
    proof {
        assert(spec_lex(text@, i as int, row as int, col as int) =~= Seq::<Token>::empty());
        assert(out@ + Seq::<Token>::empty() =~= out@);
    }
    out
}

} // verus!
