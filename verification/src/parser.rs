//! The parser. It turns the lexer's token list into a concrete syntax
//! tree for the language's grammar: a source file is a run of comments
//! and statements; a statement is an expression closed by `;`; an
//! expression is a string literal, an identifier, or a call
//! `identifier ( arguments )`. Malformed input parses to a tree with
//! error nodes (an unexpected token, or an argument an unexpected token
//! follows) and missing-token nodes (an absent `;` or `)`), never to a
//! failure: malformed text is a normal, fully representable state.

use vstd::prelude::*;

use crate::lexer::{lex, spec_lex, TokKind, Token};
use crate::position::Point;
use crate::text::{lemma_line_split_len, lemma_line_split_push, line_split};
use crate::tree::{NodeKind, SpecNode, SyntaxNode};

verus! {

broadcast use vstd::std_specs::vec::group_vec_axioms;

/// A leaf node covering one token.
pub open spec fn leaf_from(kind: NodeKind, t: Token) -> SpecNode {
    SpecNode {
        kind,
        missing: false,
        start_row: t.start.row as int,
        start_col: t.start.column as int,
        end_row: t.end.row as int,
        end_col: t.end.column as int,
        start_off: t.start_off as int,
        end_off: t.end_off as int,
        children: Seq::empty(),
    }
}

/// A zero-width node for a required token the text lacks.
pub open spec fn missing_at(kind: NodeKind, row: int, col: int, off: int) -> SpecNode {
    SpecNode {
        kind,
        missing: true,
        start_row: row,
        start_col: col,
        end_row: row,
        end_col: col,
        start_off: off,
        end_off: off,
        children: Seq::empty(),
    }
}

/// An error node over a node the parser accepted but whose continuation
/// was malformed: same span, the node as its only child.
pub open spec fn error_wrap(n: SpecNode) -> SpecNode {
    SpecNode {
        kind: NodeKind::Error,
        missing: false,
        start_row: n.start_row,
        start_col: n.start_col,
        end_row: n.end_row,
        end_col: n.end_col,
        start_off: n.start_off,
        end_off: n.end_off,
        children: seq![n],
    }
}

/// One expression starting at token `i`: a string, an identifier, a call
/// when an identifier is followed by `(`, or an error node over any
/// other token. Returns the node and the index after it.
pub open spec fn spec_expr(toks: Seq<Token>, i: int, eof_off: int, eof_row: int, eof_col: int)
    -> (SpecNode, int)
    decreases toks.len() - i, 0int,
{
    if i < 0 || i >= toks.len() {
        (missing_at(NodeKind::Semi, eof_row, eof_col, eof_off), i + 1)
    } else {
        let t = toks[i];
        if t.kind == TokKind::Str {
            (leaf_from(NodeKind::Str, t), i + 1)
        } else if t.kind == TokKind::Ident {
            if i + 1 < toks.len() && toks[i + 1].kind == TokKind::OpenParen {
                let (children, j, er, ec, eo) = spec_args(toks, i + 2, eof_off, eof_row, eof_col);
                let args_node = SpecNode {
                    kind: NodeKind::Arguments,
                    missing: false,
                    start_row: toks[i + 1].start.row as int,
                    start_col: toks[i + 1].start.column as int,
                    end_row: er,
                    end_col: ec,
                    start_off: toks[i + 1].start_off as int,
                    end_off: eo,
                    children,
                };
                let call_node = SpecNode {
                    kind: NodeKind::Call,
                    missing: false,
                    start_row: t.start.row as int,
                    start_col: t.start.column as int,
                    end_row: er,
                    end_col: ec,
                    start_off: t.start_off as int,
                    end_off: eo,
                    children: seq![leaf_from(NodeKind::Ident, t), args_node],
                };
                (call_node, j)
            } else {
                (leaf_from(NodeKind::Ident, t), i + 1)
            }
        } else {
            (leaf_from(NodeKind::Error, t), i + 1)
        }
    }
}

/// The argument list from token `i` (just after `(`) to the matching
/// `)`: the children of the arguments node, the index after the list,
/// and the row, column and offset where the list ends. A `)` closes the
/// list; a `,` or a comment is consumed in place; after an accepted
/// argument any other token marks that argument as an error and the
/// scan goes on; at end of text a missing-`)` node closes the list.
pub open spec fn spec_args(toks: Seq<Token>, i: int, eof_off: int, eof_row: int, eof_col: int)
    -> (Seq<SpecNode>, int, int, int, int)
    decreases toks.len() - i, 1int,
{
    if i < 0 || i >= toks.len() {
        (
            seq![missing_at(NodeKind::CloseParen, eof_row, eof_col, eof_off)],
            if i < 0 {
                0
            } else {
                i
            },
            eof_row,
            eof_col,
            eof_off,
        )
    } else {
        let t = toks[i];
        if t.kind == TokKind::CloseParen {
            (
                Seq::empty(),
                i + 1,
                t.end.row as int,
                t.end.column as int,
                t.end_off as int,
            )
        } else if t.kind == TokKind::Comma {
            spec_args(toks, i + 1, eof_off, eof_row, eof_col)
        } else if t.kind == TokKind::Comment {
            let (rest, j, er, ec, eo) = spec_args(toks, i + 1, eof_off, eof_row, eof_col);
            (seq![leaf_from(NodeKind::Comment, t)] + rest, j, er, ec, eo)
        } else {
            let (expr, j) = spec_expr(toks, i, eof_off, eof_row, eof_col);
            let j2 = if i < j <= toks.len() {
                j
            } else {
                i + 1
            };
            let wrapped = if j2 < toks.len() && toks[j2].kind != TokKind::Comma && toks[j2].kind
                != TokKind::CloseParen {
                error_wrap(expr)
            } else {
                expr
            };
            let (rest, k, er, ec, eo) = spec_args(toks, j2, eof_off, eof_row, eof_col);
            (seq![wrapped] + rest, k, er, ec, eo)
        }
    }
}

/// One statement: an expression, then `;`. When the `;` is absent a
/// zero-width missing-`;` node stands at the expression's end.
pub open spec fn spec_stmt(toks: Seq<Token>, i: int, eof_off: int, eof_row: int, eof_col: int)
    -> (Seq<SpecNode>, int)
    decreases toks.len() - i, 2int,
{
    let (expr, j) = spec_expr(toks, i, eof_off, eof_row, eof_col);
    if 0 <= j < toks.len() && toks[j].kind == TokKind::Semi {
        (seq![expr], j + 1)
    } else {
        (seq![expr, missing_at(NodeKind::Semi, expr.end_row, expr.end_col, expr.end_off)], j)
    }
}

/// The items of a source file from token `i`: comments, statements, and
/// nothing for a stray `;`.
pub open spec fn spec_items(toks: Seq<Token>, i: int, eof_off: int, eof_row: int, eof_col: int)
    -> Seq<SpecNode>
    decreases toks.len() - i, 3int,
{
    if i < 0 || i >= toks.len() {
        Seq::empty()
    } else if toks[i].kind == TokKind::Comment {
        seq![leaf_from(NodeKind::Comment, toks[i])] + spec_items(
            toks,
            i + 1,
            eof_off,
            eof_row,
            eof_col,
        )
    } else if toks[i].kind == TokKind::Semi {
        spec_items(toks, i + 1, eof_off, eof_row, eof_col)
    } else {
        let (nodes, j) = spec_stmt(toks, i, eof_off, eof_row, eof_col);
        let j2 = if i < j <= toks.len() {
            j
        } else {
            i + 1
        };
        nodes + spec_items(toks, j2, eof_off, eof_row, eof_col)
    }
}

/// The tree of a whole token list: a source-file node spanning the text.
pub open spec fn spec_parse(toks: Seq<Token>, eof_off: int, eof_row: int, eof_col: int)
    -> SpecNode {
    SpecNode {
        kind: NodeKind::SourceFile,
        missing: false,
        start_row: 0,
        start_col: 0,
        end_row: eof_row,
        end_col: eof_col,
        start_off: 0,
        end_off: eof_off,
        children: spec_items(toks, 0, eof_off, eof_row, eof_col),
    }
}

/// The tree of a document: lex, then parse, the text's end position
/// taken from its line table.
pub open spec fn spec_parse_text(s: Seq<char>) -> SpecNode {
    spec_parse(
        spec_lex(s, 0, 0, 0),
        s.len() as int,
        line_split(s).len() - 1,
        line_split(s).last().len() as int,
    )
}

/// The end of the text as a parser-native point: its last line and that
/// line's length.
fn text_end(text: &Vec<char>) -> (r: Point)
    ensures
        r.row == line_split(text@).len() - 1,
        r.column == line_split(text@).last().len(),
{
    let n = text.len();
    let mut row: usize = 0;
    let mut col: usize = 0;
    let mut i: usize = 0;
    proof {
        assert(text@.take(0) =~= Seq::<char>::empty());
    }
    while i < n
        invariant
            i <= n,
            n == text@.len(),
            row <= i,
            col <= i,
            row == line_split(text@.take(i as int)).len() - 1,
            col == line_split(text@.take(i as int)).last().len(),
        decreases n - i,
    {
        let c = text[i];
        proof {
            lemma_line_split_push(text@.take(i as int), c);
            lemma_line_split_len(text@.take(i as int));
            assert(text@.take(i + 1) =~= text@.take(i as int).push(c));
        }
        if c == '\n' {
            row = row + 1;
            col = 0;
        } else {
            col = col + 1;
        }
        i = i + 1;
    }
    proof {
        assert(text@.take(n as int) =~= text@);
    }
    Point { row, column: col }
}

fn leaf_node(kind: NodeKind, t: &Token) -> (r: SyntaxNode)
    ensures
        r@ == leaf_from(kind, *t),
{
    let r = SyntaxNode {
        kind,
        missing: false,
        start: t.start,
        end: t.end,
        start_off: t.start_off,
        end_off: t.end_off,
        children: Vec::new(),
    };
    proof {
        assert(r@.children =~= Seq::<SpecNode>::empty());
    }
    r
}

fn missing_node(kind: NodeKind, at: Point, off: usize) -> (r: SyntaxNode)
    ensures
        r@ == missing_at(kind, at.row as int, at.column as int, off as int),
{
    let r = SyntaxNode {
        kind,
        missing: true,
        start: at,
        end: at,
        start_off: off,
        end_off: off,
        children: Vec::new(),
    };
    proof {
        assert(r@.children =~= Seq::<SpecNode>::empty());
    }
    r
}

fn parse_expr(toks: &Vec<Token>, i: usize, eof: Point, eof_off: usize) -> (r: (SyntaxNode, usize))
    requires
        i < toks@.len(),
    ensures
        ({
            let (n, j) = spec_expr(
                toks@,
                i as int,
                eof_off as int,
                eof.row as int,
                eof.column as int,
            );
            r.0@ == n && r.1 == j
        }),
        i < r.1 <= toks@.len(),
    decreases toks@.len() - i, 0int,
{
    let n = toks.len();
    let t = toks[i];
    match t.kind {
        TokKind::Str => (leaf_node(NodeKind::Str, &t), i + 1),
        TokKind::Ident => {
            if i + 1 < toks.len() && matches!(toks[i + 1].kind, TokKind::OpenParen) {
                let open_tok = toks[i + 1];
                let (args_children, j, args_end, args_end_off) = parse_args(
                    toks,
                    i + 2,
                    eof,
                    eof_off,
                );
                let args_node = SyntaxNode {
                    kind: NodeKind::Arguments,
                    missing: false,
                    start: open_tok.start,
                    end: args_end,
                    start_off: open_tok.start_off,
                    end_off: args_end_off,
                    children: args_children,
                };
                let ident_node = leaf_node(NodeKind::Ident, &t);
                let ghost ident_spec = ident_node@;
                let ghost args_spec = args_node@;
                let mut kids: Vec<SyntaxNode> = Vec::new();
                kids.push(ident_node);
                kids.push(args_node);
                let call_node = SyntaxNode {
                    kind: NodeKind::Call,
                    missing: false,
                    start: t.start,
                    end: args_end,
                    start_off: t.start_off,
                    end_off: args_end_off,
                    children: kids,
                };
                proof {
                    let (n, jj) = spec_expr(
                        toks@,
                        i as int,
                        eof_off as int,
                        eof.row as int,
                        eof.column as int,
                    );
                    assert(call_node@.children =~= seq![ident_spec, args_spec]);
                    assert(args_spec.children == spec_args(
                        toks@,
                        i + 2,
                        eof_off as int,
                        eof.row as int,
                        eof.column as int,
                    ).0);
                    assert(call_node@ == n);
                }
                (call_node, j)
            } else {
                (leaf_node(NodeKind::Ident, &t), i + 1)
            }
        },
        _ => (leaf_node(NodeKind::Error, &t), i + 1),
    }
}

fn parse_args(toks: &Vec<Token>, i: usize, eof: Point, eof_off: usize) -> (r: (
    Vec<SyntaxNode>,
    usize,
    Point,
    usize,
))
    requires
        i <= toks@.len(),
    ensures
        ({
            let (nodes, j, er, ec, eo) = spec_args(
                toks@,
                i as int,
                eof_off as int,
                eof.row as int,
                eof.column as int,
            );
            r.0.deep_view() == nodes && r.1 == j && r.2.row == er && r.2.column == ec && r.3 == eo
        }),
        i <= r.1 <= toks@.len(),
    decreases toks@.len() - i, 1int,
{
    let ghost full = spec_args(toks@, i as int, eof_off as int, eof.row as int, eof.column as int);
    let mut out: Vec<SyntaxNode> = Vec::new();
    let mut k = i;
    proof {
        assert(out.deep_view() =~= Seq::<SpecNode>::empty());
        assert(out.deep_view() + spec_args(
            toks@,
            k as int,
            eof_off as int,
            eof.row as int,
            eof.column as int,
        ).0 =~= full.0);
    }
    loop
        invariant
            i <= k <= toks@.len(),
            full == spec_args(toks@, i as int, eof_off as int, eof.row as int, eof.column as int),
            ({
                let cur = spec_args(
                    toks@,
                    k as int,
                    eof_off as int,
                    eof.row as int,
                    eof.column as int,
                );
                &&& full.0 == out.deep_view() + cur.0
                &&& full.1 == cur.1
                &&& full.2 == cur.2
                &&& full.3 == cur.3
                &&& full.4 == cur.4
            }),
        decreases toks@.len() - k,
    {
        let ghost cur = spec_args(
            toks@,
            k as int,
            eof_off as int,
            eof.row as int,
            eof.column as int,
        );
        if k >= toks.len() {
            let m = missing_node(NodeKind::CloseParen, eof, eof_off);
            let ghost pre = out.deep_view();
            out.push(m);
            proof {
                assert forall|q: int| 0 <= q < out@.len() implies #[trigger] out.deep_view()[q]
                    == out@[q].deep_view() by {}
                assert(out.deep_view() =~= pre.push(m@));
                assert(out.deep_view() =~= full.0);
            }
            return (out, k, eof, eof_off);
        }
        let t = toks[k];
        match t.kind {
            TokKind::CloseParen => {
                proof {
                    assert(cur.0 =~= Seq::<SpecNode>::empty());
                    assert(out.deep_view() + cur.0 =~= out.deep_view());
                }
                return (out, k + 1, t.end, t.end_off);
            },
            TokKind::Comma => {
                k = k + 1;
            },
            TokKind::Comment => {
                let c = leaf_node(NodeKind::Comment, &t);
                let ghost pre = out.deep_view();
                out.push(c);
                proof {
                    assert forall|q: int| 0 <= q < out@.len() implies #[trigger] out.deep_view()[q]
                        == out@[q].deep_view() by {}
                    assert(out.deep_view() =~= pre.push(leaf_from(NodeKind::Comment, t)));
                    let nxt = spec_args(
                        toks@,
                        k + 1,
                        eof_off as int,
                        eof.row as int,
                        eof.column as int,
                    );
                    assert(pre + cur.0 =~= out.deep_view() + nxt.0);
                }
                k = k + 1;
            },
            _ => {
                let (expr, j) = parse_expr(toks, k, eof, eof_off);
                let j2 = if j > k {
                    j
                } else {
                    k + 1
                };
                let wrap = j2 < toks.len() && !matches!(toks[j2].kind, TokKind::Comma)
                    && !matches!(toks[j2].kind, TokKind::CloseParen);
                let ghost expr_spec = expr@;
                let node: SyntaxNode = if wrap {
                    let mut kids: Vec<SyntaxNode> = Vec::new();
                    let start = expr.start;
                    let end = expr.end;
                    let start_off = expr.start_off;
                    let end_off = expr.end_off;
                    kids.push(expr);
                    let w = SyntaxNode {
                        kind: NodeKind::Error,
                        missing: false,
                        start,
                        end,
                        start_off,
                        end_off,
                        children: kids,
                    };
                    proof {
                        assert(w@.children =~= seq![expr_spec]);
                        assert(w@ == error_wrap(expr_spec));
                    }
                    w
                } else {
                    expr
                };
                let ghost pre = out.deep_view();
                out.push(node);
                proof {
                    assert forall|q: int| 0 <= q < out@.len() implies #[trigger] out.deep_view()[q]
                        == out@[q].deep_view() by {}
                    assert(out.deep_view() =~= pre.push(node@));
                    let nxt = spec_args(
                        toks@,
                        j2 as int,
                        eof_off as int,
                        eof.row as int,
                        eof.column as int,
                    );
                    assert(pre + cur.0 =~= out.deep_view() + nxt.0);
                }
                k = j2;
            },
        }
    }
}

fn parse_stmt(toks: &Vec<Token>, i: usize, eof: Point, eof_off: usize) -> (r: (
    Vec<SyntaxNode>,
    usize,
))
    requires
        i < toks@.len(),
    ensures
        ({
            let (nodes, j) = spec_stmt(
                toks@,
                i as int,
                eof_off as int,
                eof.row as int,
                eof.column as int,
            );
            r.0.deep_view() == nodes && r.1 == j
        }),
        i < r.1 <= toks@.len(),
    decreases toks@.len() - i, 2int,
{
    let (expr, j) = parse_expr(toks, i, eof, eof_off);
    let ghost expr_spec = expr@;
    let mut out: Vec<SyntaxNode> = Vec::new();
    if j < toks.len() && matches!(toks[j].kind, TokKind::Semi) {
        out.push(expr);
        proof {
            assert forall|q: int| 0 <= q < out@.len() implies #[trigger] out.deep_view()[q]
                == out@[q].deep_view() by {}
            assert(out.deep_view() =~= seq![expr_spec]);
        }
        (out, j + 1)
    } else {
        let at = expr.end;
        let at_off = expr.end_off;
        let ghost m_spec = missing_at(
            NodeKind::Semi,
            expr_spec.end_row,
            expr_spec.end_col,
            expr_spec.end_off,
        );
        out.push(expr);
        let m = missing_node(NodeKind::Semi, at, at_off);
        out.push(m);
        proof {
            assert forall|q: int| 0 <= q < out@.len() implies #[trigger] out.deep_view()[q]
                == out@[q].deep_view() by {}
            assert(out.deep_view() =~= seq![expr_spec, m_spec]);
        }
        (out, j)
    }
}

/// Parse a document into its concrete syntax tree.
pub fn parse(text: &Vec<char>) -> (r: SyntaxNode)
    ensures
        r@ == spec_parse_text(text@),
{
    let toks = lex(text);
    let eof = text_end(text);
    let eof_off = text.len();
    let ghost eof_row: int = line_split(text@).len() - 1;
    let ghost eof_col: int = line_split(text@).last().len() as int;
    let mut items: Vec<SyntaxNode> = Vec::new();
    let mut i: usize = 0;
    let n = toks.len();
    proof {
        assert(items.deep_view() =~= Seq::<SpecNode>::empty());
        assert(items.deep_view() + spec_items(toks@, 0, eof_off as int, eof_row, eof_col)
            =~= spec_items(toks@, 0, eof_off as int, eof_row, eof_col));
    }
    while i < n
        invariant
            i <= n,
            n == toks@.len(),
            eof.row == eof_row,
            eof.column == eof_col,
            eof_row == line_split(text@).len() - 1,
            eof_col == line_split(text@).last().len() as int,
            eof_off == text@.len(),
            toks@ == spec_lex(text@, 0, 0, 0),
            spec_items(toks@, 0, eof_off as int, eof_row, eof_col) == items.deep_view()
                + spec_items(toks@, i as int, eof_off as int, eof_row, eof_col),
        decreases n - i,
    {
        let ghost cur = spec_items(toks@, i as int, eof_off as int, eof_row, eof_col);
        let t = toks[i];
        match t.kind {
            TokKind::Comment => {
                let c = leaf_node(NodeKind::Comment, &t);
                let ghost pre = items.deep_view();
                items.push(c);
                proof {
                    assert forall|q: int| 0 <= q < items@.len() implies #[trigger] (
                    items.deep_view())[q] == items@[q].deep_view() by {}
                    assert(items.deep_view() =~= pre.push(leaf_from(NodeKind::Comment, t)));
                    let nxt = spec_items(toks@, i + 1, eof_off as int, eof_row, eof_col);
                    assert(pre + cur =~= items.deep_view() + nxt);
                }
                i = i + 1;
            },
            TokKind::Semi => {
                i = i + 1;
            },
            _ => {
                let (nodes, j) = parse_stmt(&toks, i, eof, eof_off);
                let ghost nodes_spec = nodes.deep_view();
                let ghost pre = items.deep_view();
                let mut nodes_mut = nodes;
                proof {
                    assert(items.deep_view() + nodes_mut.deep_view() =~= pre + nodes_spec);
                }
                while nodes_mut.len() > 0
                    invariant
                        items.deep_view() + nodes_mut.deep_view() == pre + nodes_spec,
                    decreases nodes_mut@.len(),
                {
                    let ghost items_pre = items.deep_view();
                    let ghost nd0 = nodes_mut.deep_view();
                    let node = nodes_mut.remove(0);
                    let ghost moved = node.deep_view();
                    items.push(node);
                    proof {
                        assert forall|q: int| 0 <= q < items@.len() implies
                            #[trigger] items.deep_view()[q] == items@[q].deep_view() by {}
                        assert forall|q: int| 0 <= q < nodes_mut@.len() implies
                            #[trigger] nodes_mut.deep_view()[q] == nodes_mut@[q].deep_view() by {}
                        let rest = nodes_mut.deep_view();
                        assert(nd0 =~= seq![moved] + rest);
                        assert(items.deep_view() =~= items_pre.push(moved));
                        assert((items_pre.push(moved)) + rest =~= items_pre + (seq![moved] + rest));
                        assert(items.deep_view() + nodes_mut.deep_view() =~= pre + nodes_spec);
                    }
                }
                proof {
                    assert(nodes_mut.deep_view() =~= Seq::<SpecNode>::empty());
                    assert(items.deep_view() =~= pre + nodes_spec);
                    let nxt = spec_items(toks@, j as int, eof_off as int, eof_row, eof_col);
                    assert(pre + cur =~= items.deep_view() + nxt);
                }
                i = j;
            },
        }
    }
    proof {
        assert(spec_items(toks@, i as int, eof_off as int, eof_row, eof_col) =~= Seq::<
            SpecNode,
        >::empty());
        assert(items.deep_view() + Seq::<SpecNode>::empty() =~= items.deep_view());
    }
    let root = SyntaxNode {
        kind: NodeKind::SourceFile,
        missing: false,
        start: Point { row: 0, column: 0 },
        end: eof,
        start_off: 0,
        end_off: eof_off,
        children: items,
    };
    proof {
        assert(root@.children =~= spec_items(toks@, 0, eof_off as int, eof_row, eof_col));
        assert(root@ == spec_parse_text(text@));
    }
    root
}

} // verus!
