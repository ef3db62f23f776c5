//! The semantic-token extractor. A pre-order walk classifies comment,
//! string and identifier nodes; a node spanning several lines is split
//! into one token per covered line, every line but the last running to
//! end-of-line. A second, independent pass delta-encodes the absolute
//! list: the first token keeps its own position, every later token's line
//! is relative to its predecessor's, and its start column is relative
//! only when both share a line.

use vstd::prelude::*;

use crate::position::Point;
use crate::text::{lines_wf, spec_to_lsp, Index};
use crate::tree::{NodeKind, SpecNode, SyntaxNode};

verus! {

broadcast use vstd::std_specs::vec::group_vec_axioms;

/// The closed set of lexical classes the extractor reports, in legend
/// order.
#[derive(Clone, Copy, Debug, PartialEq, Eq, Structural)]
pub enum TokenType {
    Comment,
    Str,
    Variable,
}

/// The wire index of a class: its position in the legend.
pub open spec fn spec_token_type_index(t: TokenType) -> int {
    match t {
        TokenType::Comment => 0,
        TokenType::Str => 1,
        TokenType::Variable => 2,
    }
}

pub fn token_type_index(t: TokenType) -> (r: u32)
    ensures
        r == spec_token_type_index(t),
{
    match t {
        TokenType::Comment => 0,
        TokenType::Str => 1,
        TokenType::Variable => 2,
    }
}

/// The legend: the token-type names, in the order whose positions the
/// wire indices refer to, with an empty modifier set.
pub fn token_types() -> (r: Vec<String>)
    ensures
        r.deep_view() == seq!["comment"@, "string"@, "variable"@],
{
    let mut v: Vec<String> = Vec::new();
    v.push("comment".to_owned());
    v.push("string".to_owned());
    v.push("variable".to_owned());
    proof {
        assert(v.deep_view() =~= seq!["comment"@, "string"@, "variable"@]);
    }
    v
}

/// A token with its absolute position: line and UTF-16 start offset, a
/// UTF-16 length, and its class.
#[derive(Clone, Copy, Debug, PartialEq, Eq, Structural)]
pub struct AbsoluteToken {
    pub line: u32,
    pub start: u32,
    pub length: u32,
    pub token_type: TokenType,
}

/// The mathematical form of an absolute token.
pub ghost struct SpecAbsToken {
    pub line: int,
    pub start: int,
    pub length: int,
    pub token_type: TokenType,
}

impl View for AbsoluteToken {
    type V = SpecAbsToken;

    open spec fn view(&self) -> SpecAbsToken {
        SpecAbsToken {
            line: self.line as int,
            start: self.start as int,
            length: self.length as int,
            token_type: self.token_type,
        }
    }
}

impl DeepView for AbsoluteToken {
    type V = SpecAbsToken;

    open spec fn deep_view(&self) -> SpecAbsToken {
        self@
    }
}

/// A delta-encoded token, as the protocol carries it.
#[derive(Clone, Copy, Debug, PartialEq, Eq, Structural)]
pub struct SemanticToken {
    pub delta_line: u32,
    pub delta_start: u32,
    pub length: u32,
    pub token_type: u32,
    pub token_modifiers_bitset: u32,
}

/// The mathematical form of a delta-encoded token.
pub ghost struct SpecSemToken {
    pub delta_line: int,
    pub delta_start: int,
    pub length: int,
    pub token_type: int,
    pub token_modifiers_bitset: int,
}

impl View for SemanticToken {
    type V = SpecSemToken;

    open spec fn view(&self) -> SpecSemToken {
        SpecSemToken {
            delta_line: self.delta_line as int,
            delta_start: self.delta_start as int,
            length: self.length as int,
            token_type: self.token_type as int,
            token_modifiers_bitset: self.token_modifiers_bitset as int,
        }
    }
}

impl DeepView for SemanticToken {
    type V = SpecSemToken;

    open spec fn deep_view(&self) -> SpecSemToken {
        self@
    }
}

/// The class of a node's kind, if the node is a token at all.
pub open spec fn spec_token_class(k: NodeKind) -> Option<TokenType> {
    match k {
        NodeKind::Comment => Some(TokenType::Comment),
        NodeKind::Str => Some(TokenType::Str),
        NodeKind::Ident => Some(TokenType::Variable),
        _ => None,
    }
}

/// One absolute token: position converted through the line table; an
/// absent end column saturates to the row's end of line.
pub open spec fn spec_via_index(
    lines: Seq<Seq<char>>,
    row: int,
    column: int,
    end: Option<int>,
    t: TokenType,
) -> SpecAbsToken {
    let (line, start) = spec_to_lsp(lines, row, column);
    let endcol = match end {
        Some(e) => e,
        None => lines[line].len() as int,
    };
    let (el, endch) = spec_to_lsp(lines, row, endcol);
    SpecAbsToken {
        line,
        start,
        length: if endch >= start {
            endch - start
        } else {
            0
        },
        token_type: t,
    }
}

/// The per-line tokens of one classified node: every covered row but the
/// last runs from its start column (0 after the first row) to end of
/// line; the last runs to the node's true end column.
pub open spec fn spec_row_tokens(
    lines: Seq<Seq<char>>,
    row: int,
    col: int,
    end_row: int,
    end_col: int,
    t: TokenType,
) -> Seq<SpecAbsToken>
    decreases end_row - row,
{
    if row >= end_row {
        seq![spec_via_index(lines, end_row, col, Some(end_col), t)]
    } else {
        seq![spec_via_index(lines, row, col, None, t)] + spec_row_tokens(
            lines,
            row + 1,
            0,
            end_row,
            end_col,
            t,
        )
    }
}

/// The absolute tokens of one node, in pre-order: a classified node
/// yields its per-line tokens and hides its children; any other node
/// yields its children's tokens, left to right.
pub open spec fn spec_node_tokens(n: SpecNode, lines: Seq<Seq<char>>) -> Seq<SpecAbsToken>
    decreases n, n.children.len() + 1,
{
    match spec_token_class(n.kind) {
        Some(t) => spec_row_tokens(lines, n.start_row, n.start_col, n.end_row, n.end_col, t),
        None => spec_children_tokens(n, 0, lines),
    }
}

pub open spec fn spec_children_tokens(n: SpecNode, i: int, lines: Seq<Seq<char>>)
    -> Seq<SpecAbsToken>
    decreases n, n.children.len() - i,
{
    if i < 0 || i >= n.children.len() {
        Seq::empty()
    } else {
        spec_node_tokens(n.children[i], lines) + spec_children_tokens(n, i + 1, lines)
    }
}

/// The delta encoding of a non-first token against its predecessor. A
/// predecessor placed after its token would make a negative delta; the
/// encoding clamps those to zero rather than wrap.
pub open spec fn spec_rel_next(p: SpecAbsToken, t: SpecAbsToken) -> SpecSemToken {
    SpecSemToken {
        delta_line: if t.line >= p.line {
            t.line - p.line
        } else {
            0
        },
        delta_start: if t.line == p.line {
            if t.start >= p.start {
                t.start - p.start
            } else {
                0
            }
        } else {
            t.start
        },
        length: t.length,
        token_type: spec_token_type_index(t.token_type),
        token_modifiers_bitset: 0,
    }
}

/// The delta encoding of the first token: its own absolute position.
pub open spec fn spec_rel_first(t: SpecAbsToken) -> SpecSemToken {
    SpecSemToken {
        delta_line: t.line,
        delta_start: t.start,
        length: t.length,
        token_type: spec_token_type_index(t.token_type),
        token_modifiers_bitset: 0,
    }
}

/// The delta pass: a pure function of the absolute list alone.
pub open spec fn spec_relative(toks: Seq<SpecAbsToken>) -> Seq<SpecSemToken> {
    Seq::new(
        toks.len(),
        |i: int|
            if i == 0 {
                spec_rel_first(toks[0])
            } else {
                spec_rel_next(toks[i - 1], toks[i])
            },
    )
}

/// Delta-encoding depends on nothing but the absolute list: equal inputs
/// give equal outputs, however each list was produced.
pub proof fn lemma_relative_pure(a: Seq<SpecAbsToken>, b: Seq<SpecAbsToken>)
    requires
        a == b,
    ensures
        spec_relative(a) == spec_relative(b),
{
}

/// An empty absolute list delta-encodes to an empty output.
pub proof fn lemma_relative_empty()
    ensures
        spec_relative(Seq::<SpecAbsToken>::empty()) == Seq::<SpecSemToken>::empty(),
{
    assert(spec_relative(Seq::<SpecAbsToken>::empty()) =~= Seq::<SpecSemToken>::empty());
}

fn via_index(index: &Index, row: usize, column: usize, end: Option<usize>, t: TokenType) -> (r:
    AbsoluteToken)
    requires
        lines_wf(index@),
    ensures
        r@ == spec_via_index(
            index@,
            row as int,
            column as int,
            match end {
                Some(e) => Some(e as int),
                None => None,
            },
            t,
        ),
{
    let p = index.to_lsp(Point { row, column });
    let endcol: usize = match end {
        Some(e) => e,
        None => usize::MAX,
    };
    let q = index.to_lsp(Point { row, column: endcol });
    proof {
        let (l, s) = spec_to_lsp(index@, row as int, column as int);
        if end is None {
            assert(spec_to_lsp(index@, row as int, usize::MAX as int) == spec_to_lsp(
                index@,
                row as int,
                index@[l].len() as int,
            ));
        }
    }
    AbsoluteToken {
        line: p.line,
        start: p.character,
        length: if q.character >= p.character {
            q.character - p.character
        } else {
            0
        },
        token_type: t,
    }
}

fn node_tokens(n: &SyntaxNode, index: &Index, out: &mut Vec<AbsoluteToken>)
    requires
        lines_wf(index@),
    ensures
        final(out).deep_view() == old(out).deep_view() + spec_node_tokens(n@, index@),
    decreases *n,
{
    let class: Option<TokenType> = match n.kind {
        NodeKind::Comment => Some(TokenType::Comment),
        NodeKind::Str => Some(TokenType::Str),
        NodeKind::Ident => Some(TokenType::Variable),
        _ => None,
    };
    match class {
        Some(t) => {
            let ghost out0 = out.deep_view();
            let ghost full = spec_row_tokens(
                index@,
                n@.start_row,
                n@.start_col,
                n@.end_row,
                n@.end_col,
                t,
            );
            let end_row = n.end.row;
            let end_col = n.end.column;
            let mut row = n.start.row;
            let mut col = n.start.column;
            let ghost mut done: Seq<SpecAbsToken> = Seq::empty();
            proof {
                assert(out.deep_view() =~= out0 + done);
                assert(full =~= done + spec_row_tokens(
                    index@,
                    row as int,
                    col as int,
                    end_row as int,
                    end_col as int,
                    t,
                ));
            }
            while row < end_row
                invariant
                    lines_wf(index@),
                    out.deep_view() == out0 + done,
                    full == done + spec_row_tokens(
                        index@,
                        row as int,
                        col as int,
                        end_row as int,
                        end_col as int,
                        t,
                    ),
                decreases end_row - row,
            {
                let tok = via_index(index, row, col, None, t);
                let ghost pre = out.deep_view();
                out.push(tok);
                proof {
                    assert forall|j: int| 0 <= j < out@.len() implies #[trigger] out.deep_view()[j]
                        == out@[j].deep_view() by {}
                    assert(out.deep_view() =~= pre.push(tok@));
                    let rest = spec_row_tokens(
                        index@,
                        row as int,
                        col as int,
                        end_row as int,
                        end_col as int,
                        t,
                    );
                    let rest2 = spec_row_tokens(
                        index@,
                        row as int + 1,
                        0,
                        end_row as int,
                        end_col as int,
                        t,
                    );
                    assert(rest == seq![spec_via_index(index@, row as int, col as int, None, t)]
                        + rest2);
                    done = done.push(tok@);
                    assert(out.deep_view() =~= out0 + done);
                    assert(full =~= done + rest2);
                }
                row = row + 1;
                col = 0;
            }
            let tok = via_index(index, end_row, col, Some(end_col), t);
            let ghost pre = out.deep_view();
            out.push(tok);
            proof {
                assert forall|j: int| 0 <= j < out@.len() implies #[trigger] out.deep_view()[j]
                    == out@[j].deep_view() by {}
                assert(out.deep_view() =~= pre.push(tok@));
                let rest = spec_row_tokens(
                    index@,
                    row as int,
                    col as int,
                    end_row as int,
                    end_col as int,
                    t,
                );
                assert(rest =~= seq![
                    spec_via_index(index@, end_row as int, col as int, Some(end_col as int), t),
                ]);
                assert(out.deep_view() =~= old(out).deep_view() + spec_node_tokens(n@, index@));
            }
        },
        None => {
            let ghost out0 = out.deep_view();
            let mut i: usize = 0;
            let k = n.children.len();
            while i < k
                invariant
                    lines_wf(index@),
                    k == n.children.len(),
                    i <= k,
                    spec_token_class(n@.kind) is None,
                    out.deep_view() == out0 + spec_children_tokens_upto(n@, i as int, index@),
                decreases k - i,
            {
                proof {
                    assert(n@.children[i as int] == n.children@[i as int]@);
                }
                node_tokens(&n.children[i], index, out);
                proof {
                    lemma_children_tokens_upto_step(n@, i as int, index@);
                    assert(out.deep_view() =~= out0 + spec_children_tokens_upto(
                        n@,
                        i as int + 1,
                        index@,
                    ));
                }
                i = i + 1;
            }
            proof {
                lemma_children_tokens_upto_all(n@, 0, index@);
                assert(final(out).deep_view() =~= old(out).deep_view() + spec_node_tokens(
                    n@,
                    index@,
                ));
            }
        },
    }
}

/// The tokens of the first `i` children, the prefix form used by the
/// walk's loop invariant.
pub open spec fn spec_children_tokens_upto(n: SpecNode, i: int, lines: Seq<Seq<char>>)
    -> Seq<SpecAbsToken>
    decreases n, i,
{
    if i <= 0 || i > n.children.len() {
        Seq::empty()
    } else {
        spec_children_tokens_upto(n, i - 1, lines) + spec_node_tokens(n.children[i - 1], lines)
    }
}

pub proof fn lemma_children_tokens_upto_step(n: SpecNode, i: int, lines: Seq<Seq<char>>)
    requires
        0 <= i < n.children.len(),
    ensures
        spec_children_tokens_upto(n, i + 1, lines) == spec_children_tokens_upto(n, i, lines)
            + spec_node_tokens(n.children[i], lines),
{
}

pub proof fn lemma_children_tokens_upto_all(n: SpecNode, i: int, lines: Seq<Seq<char>>)
    requires
        0 <= i <= n.children.len(),
    ensures
        spec_children_tokens_upto(n, n.children.len() as int, lines)
            == spec_children_tokens_upto(n, i, lines) + spec_children_tokens(n, i, lines),
    decreases n.children.len() - i,
{
    if i < n.children.len() {
        lemma_children_tokens_upto_all(n, i + 1, lines);
        lemma_children_tokens_upto_step(n, i, lines);
        assert(spec_children_tokens_upto(n, i, lines) + (spec_node_tokens(n.children[i], lines)
            + spec_children_tokens(n, i + 1, lines)) =~= (spec_children_tokens_upto(n, i, lines)
            + spec_node_tokens(n.children[i], lines)) + spec_children_tokens(n, i + 1, lines));
    } else {
        assert(spec_children_tokens(n, i, lines) =~= Seq::<SpecAbsToken>::empty());
        assert(spec_children_tokens_upto(n, i, lines) + Seq::<SpecAbsToken>::empty()
            =~= spec_children_tokens_upto(n, i, lines));
    }
}

/// Walk the tree and collect its absolute tokens in pre-order.
pub fn absolute_tokens(root: &SyntaxNode, index: &Index) -> (r: Vec<AbsoluteToken>)
    requires
        lines_wf(index@),
    ensures
        r.deep_view() == spec_node_tokens(root@, index@),
{
    let mut out: Vec<AbsoluteToken> = Vec::new();
    proof {
        assert(out.deep_view() =~= Seq::<SpecAbsToken>::empty());
    }
    node_tokens(root, index, &mut out);
    proof {
        assert(out.deep_view() =~= spec_node_tokens(root@, index@));
    }
    out
}

/// Delta-encode an absolute token list for the wire.
pub fn make_relative(tokens: &Vec<AbsoluteToken>) -> (r: Vec<SemanticToken>)
    ensures
        r.deep_view() == spec_relative(tokens.deep_view()),
{
    let mut out: Vec<SemanticToken> = Vec::new();
    let mut i: usize = 0;
    let n = tokens.len();
    while i < n
        invariant
            n == tokens.len(),
            i <= n,
            out.deep_view() == spec_relative(tokens.deep_view()).take(i as int),
        decreases n - i,
    {
        let t = tokens[i];
        let s: SemanticToken = if i == 0 {
            SemanticToken {
                delta_line: t.line,
                delta_start: t.start,
                length: t.length,
                token_type: token_type_index(t.token_type),
                token_modifiers_bitset: 0,
            }
        } else {
            let p = tokens[i - 1];
            SemanticToken {
                delta_line: if t.line >= p.line {
                    t.line - p.line
                } else {
                    0
                },
                delta_start: if t.line == p.line {
                    if t.start >= p.start {
                        t.start - p.start
                    } else {
                        0
                    }
                } else {
                    t.start
                },
                length: t.length,
                token_type: token_type_index(t.token_type),
                token_modifiers_bitset: 0,
            }
        };
        let ghost pre = out.deep_view();
        out.push(s);
        proof {
            assert forall|j: int| 0 <= j < out@.len() implies #[trigger] out.deep_view()[j]
                == out@[j].deep_view() by {}
            assert(out.deep_view() =~= pre.push(s@));
            let dv = tokens.deep_view();
            assert(dv[i as int] == tokens@[i as int]@);
            if i > 0 {
                assert(dv[i as int - 1] == tokens@[i as int - 1]@);
            }
            assert(s@ == spec_relative(dv)[i as int]);
            assert(out.deep_view() =~= spec_relative(dv).take(i as int + 1));
        }
        i = i + 1;
    }
    proof {
        assert(spec_relative(tokens.deep_view()).take(n as int) =~= spec_relative(
            tokens.deep_view(),
        ));
    }
    out
}

} // verus!
