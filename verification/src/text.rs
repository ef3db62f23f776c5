//! The text index: per-document conversion from parser-native positions
//! (row, character column) to protocol positions (line, UTF-16 offset).
//!
//! An index is built once per distinct text value and holds the document
//! split into lines. A column past the end of its line saturates to the
//! line's true end-of-line UTF-16 offset, which is how a token that runs
//! to end-of-line is addressed. Empty text yields a one-line index with an
//! empty extent.

use vstd::prelude::*;

use crate::position::{lemma_utf16_width_push, utf16_width, Point, Position};

verus! {

/// The largest document length, in characters, that the index accepts.
/// It keeps every line count and every UTF-16 offset within `u32`, the
/// protocol's position type.
pub const MAX_TEXT_LEN: usize = 0x7FFF_FFFF;

/// The document's text split at `'\n'`: every document has at least one
/// line, and a trailing newline yields a final empty line.
pub open spec fn line_split(s: Seq<char>) -> Seq<Seq<char>>
    decreases s.len(),
{
    if s.len() == 0 {
        seq![Seq::<char>::empty()]
    } else if s[0] == '\n' {
        seq![Seq::<char>::empty()] + line_split(s.drop_first())
    } else {
        let rest = line_split(s.drop_first());
        seq![seq![s[0]] + rest[0]] + rest.drop_first()
    }
}

pub proof fn lemma_line_split_len(s: Seq<char>)
    ensures
        1 <= line_split(s).len() <= s.len() + 1,
    decreases s.len(),
{
    if s.len() > 0 {
        lemma_line_split_len(s.drop_first());
    }
}

pub proof fn lemma_line_split_line_len(s: Seq<char>)
    ensures
        forall|i: int|
            0 <= i < line_split(s).len() ==> #[trigger] line_split(s)[i].len() <= s.len(),
    decreases s.len(),
{
    if s.len() > 0 {
        lemma_line_split_line_len(s.drop_first());
        let ls = line_split(s);
        let rest = line_split(s.drop_first());
        assert forall|i: int| 0 <= i < ls.len() implies #[trigger] ls[i].len() <= s.len() by {
            if s[0] == '\n' {
                if i > 0 {
                    assert(ls[i] == rest[i - 1]);
                }
            } else {
                if i == 0 {
                    assert(ls[0] == seq![s[0]] + rest[0]);
                } else {
                    assert(ls[i] == rest.drop_first()[i - 1]);
                    assert(rest.drop_first()[i - 1] == rest[i]);
                }
            }
        }
    }
}

/// Appending one character extends the last line, or opens a new empty
/// line when the character is a newline.
pub proof fn lemma_line_split_push(s: Seq<char>, c: char)
    ensures
        c == '\n' ==> line_split(s.push(c)) == line_split(s).push(Seq::<char>::empty()),
        c != '\n' ==> line_split(s.push(c)) == line_split(s).update(
            line_split(s).len() - 1,
            line_split(s).last().push(c),
        ),
    decreases s.len(),
{
    reveal_with_fuel(line_split, 4);
    lemma_line_split_len(s);
    if s.len() == 0 {
        if c == '\n' {
            assert(s.push(c).drop_first() =~= Seq::<char>::empty());
            assert(line_split(s.push(c)) =~= line_split(s).push(Seq::<char>::empty()));
        } else {
            assert(s.push(c).drop_first() =~= Seq::<char>::empty());
            assert(line_split(s.push(c)) =~= line_split(s).update(
                line_split(s).len() - 1,
                line_split(s).last().push(c),
            ));
        }
    } else {
        assert(s.push(c).drop_first() =~= s.drop_first().push(c));
        lemma_line_split_push(s.drop_first(), c);
        lemma_line_split_len(s.drop_first());
        if s[0] == '\n' {
            if c == '\n' {
                assert(line_split(s.push(c)) =~= line_split(s).push(Seq::<char>::empty()));
            } else {
                assert(line_split(s.push(c)) =~= line_split(s).update(
                    line_split(s).len() - 1,
                    line_split(s).last().push(c),
                ));
            }
        } else {
            let rest = line_split(s.drop_first());
            if c == '\n' {
                assert(line_split(s.push(c)) =~= line_split(s).push(Seq::<char>::empty()));
            } else {
                assert(line_split(s.push(c)) =~= line_split(s).update(
                    line_split(s).len() - 1,
                    line_split(s).last().push(c),
                ));
            }
        }
    }
}

/// Well-formed line table: non-empty, and small enough that every line
/// number and every line's UTF-16 extent fits in `u32`.
pub open spec fn lines_wf(v: Seq<Seq<char>>) -> bool {
    &&& 1 <= v.len() <= 0x8000_0000
    &&& forall|i: int| 0 <= i < v.len() ==> #[trigger] v[i].len() <= 0x7FFF_FFFF
}

/// The conversion the index computes: the row is clamped to the last
/// line, the column saturates to the end of its line, and the character
/// offset is the UTF-16 width of the line's prefix before the column.
pub open spec fn spec_to_lsp(lines: Seq<Seq<char>>, row: int, column: int) -> (int, int) {
    let r = if row < lines.len() {
        row
    } else {
        lines.len() - 1
    };
    let line = lines[r];
    let c = if column <= line.len() {
        column
    } else {
        line.len() as int
    };
    (r, utf16_width(line.take(c)))
}

/// A per-document line table, built once per distinct text value.
pub struct Index {
    lines: Vec<Vec<char>>,
}

impl View for Index {
    type V = Seq<Seq<char>>;

    closed spec fn view(&self) -> Seq<Seq<char>> {
        self.lines.deep_view()
    }
}

impl Index {
    /// Split the text into its line table.
    pub fn new(text: &Vec<char>) -> (r: Index)
        requires
            text@.len() <= MAX_TEXT_LEN,
        ensures
            r@ == line_split(text@),
            lines_wf(r@),
    {
        let mut lines: Vec<Vec<char>> = Vec::new();
        lines.push(Vec::new());
        proof {
            assert(text@.take(0) =~= Seq::<char>::empty());
            assert(lines.deep_view() =~~= line_split(text@.take(0)));
        }
        let n = text.len();
        let mut i: usize = 0;
        while i < n
            invariant
                n == text@.len() <= MAX_TEXT_LEN,
                i <= n,
                lines.len() >= 1,
                lines.deep_view() == line_split(text@.take(i as int)),
            decreases n - i,
        {
            let c = text[i];
            proof {
                lemma_line_split_push(text@.take(i as int), c);
                lemma_line_split_len(text@.take(i as int));
                assert(text@.take(i + 1) =~= text@.take(i as int).push(c));
            }
            if c == '\n' {
                lines.push(Vec::new());
                proof {
                    assert(lines.deep_view() =~~= line_split(text@.take(i + 1)));
                }
            } else {
                let mut last = match lines.pop() {
                    Some(l) => l,
                    None => Vec::new(),
                };
                last.push(c);
                lines.push(last);
                proof {
                    assert(lines.deep_view() =~~= line_split(text@.take(i + 1)));
                }
            }
            i = i + 1;
        }
        proof {
            assert(text@.take(n as int) =~= text@);
            lemma_line_split_len(text@);
            lemma_line_split_line_len(text@);
        }
        Index { lines }
    }

    /// A copy with the same view.
    pub fn duplicate(&self) -> (r: Index)
        ensures
            r@ == self@,
    {
        let mut lines: Vec<Vec<char>> = Vec::new();
        let n = self.lines.len();
        let mut i: usize = 0;
        proof {
            assert(lines.deep_view() =~~= self@.take(0));
        }
        while i < n
            invariant
                i <= n,
                n == self.lines@.len(),
                lines.deep_view() == self@.take(i as int),
            decreases n - i,
        {
            let src: &Vec<char> = &self.lines[i];
            let mut line: Vec<char> = Vec::new();
            let m = src.len();
            let mut j: usize = 0;
            while j < m
                invariant
                    j <= m,
                    m == src@.len(),
                    line@ == src@.take(j as int),
                decreases m - j,
            {
                line.push(src[j]);
                proof {
                    assert(line@ =~= src@.take(j + 1));
                }
                j = j + 1;
            }
            proof {
                assert(src@.take(m as int) =~= src@);
            }
            let ghost pre = lines.deep_view();
            lines.push(line);
            proof {
                assert forall|q: int| 0 <= q < lines@.len() implies #[trigger] (
                lines.deep_view())[q] == lines@[q].deep_view() by {}
                assert(lines.deep_view() =~~= pre.push(src@));
                assert(self@[i as int] == self.lines@[i as int].deep_view());
                assert(lines.deep_view() =~~= self@.take(i + 1));
            }
            i = i + 1;
        }
        proof {
            assert(self@.take(n as int) =~= self@);
        }
        Index { lines }
    }

    /// Convert a parser-native point to a protocol position.
    pub fn to_lsp(&self, p: Point) -> (r: Position)
        requires
            lines_wf(self@),
        ensures
            ({
                let (l, ch) = spec_to_lsp(self@, p.row as int, p.column as int);
                r.line == l && r.character == ch
            }),
    {
        let row = if p.row < self.lines.len() {
            p.row
        } else {
            self.lines.len() - 1
        };
        let line: &Vec<char> = &self.lines[row];
        proof {
            assert(line.deep_view() =~~= line@);
            assert(self@[row as int] == line@);
        }
        let col = if p.column <= line.len() {
            p.column
        } else {
            line.len()
        };
        let mut w: u32 = 0;
        let mut j: usize = 0;
        proof {
            assert(line@.take(0) =~= Seq::<char>::empty());
        }
        while j < col
            invariant
                j <= col <= line@.len() <= 0x7FFF_FFFF,
                w == utf16_width(line@.take(j as int)),
                w <= 2 * j,
            decreases col - j,
        {
            let c = line[j];
            let cw: u32 = if (c as u32) >= 0x10000 {
                2
            } else {
                1
            };
            proof {
                lemma_utf16_width_push(line@.take(j as int), line@[j as int]);
                assert(line@.take(j + 1) =~= line@.take(j as int).push(line@[j as int]));
            }
            w = w + cw;
            j = j + 1;
        }
        Position { line: row as u32, character: w }
    }
}

} // verus!
