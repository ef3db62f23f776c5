//! The diagnostics extractor: a pre-order walk of a syntax tree that
//! reports one diagnostic per error node ("syntax error") and one per
//! missing required token ("syntax missing"), with the node's own span
//! converted to protocol positions. A node that itself yielded a
//! diagnostic is not descended into; every other node is.

use vstd::prelude::*;

use crate::position::{Position, Range};
use crate::text::{lines_wf, spec_to_lsp, Index};
use crate::tree::{NodeKind, SpecNode, SyntaxNode};

verus! {

broadcast use vstd::std_specs::vec::group_vec_axioms;

/// A diagnostic's severity, in the protocol's order of weight.
#[derive(Clone, Copy, Debug, PartialEq, Eq, Structural)]
pub enum Severity {
    Error,
    Warning,
    Information,
    Hint,
}

/// A reported syntax problem: a protocol-position span, a severity, and a
/// human-readable message.
#[derive(Debug, PartialEq, Eq)]
pub struct Diagnostic {
    pub range: Range,
    pub severity: Severity,
    pub message: String,
}

/// The mathematical form of a diagnostic.
pub ghost struct SpecDiagnostic {
    pub start_line: int,
    pub start_char: int,
    pub end_line: int,
    pub end_char: int,
    pub severity: Severity,
    pub message: Seq<char>,
}

impl View for Diagnostic {
    type V = SpecDiagnostic;

    open spec fn view(&self) -> SpecDiagnostic {
        SpecDiagnostic {
            start_line: self.range.start.line as int,
            start_char: self.range.start.character as int,
            end_line: self.range.end.line as int,
            end_char: self.range.end.character as int,
            severity: self.severity,
            message: self.message@,
        }
    }
}

impl DeepView for Diagnostic {
    type V = SpecDiagnostic;

    open spec fn deep_view(&self) -> SpecDiagnostic {
        self@
    }
}

impl Diagnostic {
    /// A copy with the same view.
    pub fn duplicate(&self) -> (r: Diagnostic)
        ensures
            r@ == self@,
    {
        Diagnostic {
            range: self.range,
            severity: self.severity,
            message: self.message.clone(),
        }
    }
}

/// The diagnostic a single error or missing node contributes: its own
/// span, converted to protocol positions.
pub open spec fn spec_diag_for(n: SpecNode, lines: Seq<Seq<char>>, message: Seq<char>)
    -> SpecDiagnostic {
    let (sl, sc) = spec_to_lsp(lines, n.start_row, n.start_col);
    let (el, ec) = spec_to_lsp(lines, n.end_row, n.end_col);
    SpecDiagnostic {
        start_line: sl,
        start_char: sc,
        end_line: el,
        end_char: ec,
        severity: Severity::Error,
        message,
    }
}

/// The diagnostics of one node, in pre-order: an error or missing node
/// contributes itself and hides its children; any other node contributes
/// its children's diagnostics, left to right.
pub open spec fn spec_node_diags(n: SpecNode, lines: Seq<Seq<char>>) -> Seq<SpecDiagnostic>
    decreases n, n.children.len() + 1,
{
    if n.kind == NodeKind::Error {
        seq![spec_diag_for(n, lines, "syntax error"@)]
    } else if n.missing {
        seq![spec_diag_for(n, lines, "syntax missing"@)]
    } else {
        spec_children_diags(n, 0, lines)
    }
}

pub open spec fn spec_children_diags(n: SpecNode, i: int, lines: Seq<Seq<char>>)
    -> Seq<SpecDiagnostic>
    decreases n, n.children.len() - i,
{
    if i < 0 || i >= n.children.len() {
        Seq::empty()
    } else {
        spec_node_diags(n.children[i], lines) + spec_children_diags(n, i + 1, lines)
    }
}

/// Whether the tree under `n` holds any error or missing node.
pub open spec fn spec_has_problem(n: SpecNode) -> bool
    decreases n, n.children.len() + 1,
{
    ||| n.kind == NodeKind::Error
    ||| n.missing
    ||| spec_children_have_problem(n, 0)
}

pub open spec fn spec_children_have_problem(n: SpecNode, i: int) -> bool
    decreases n, n.children.len() - i,
{
    if i < 0 || i >= n.children.len() {
        false
    } else {
        spec_has_problem(n.children[i]) || spec_children_have_problem(n, i + 1)
    }
}

/// The diagnostic list is empty exactly when the tree has no error and no
/// missing node.
pub proof fn lemma_diags_empty_iff_no_problem(n: SpecNode, lines: Seq<Seq<char>>)
    ensures
        spec_node_diags(n, lines).len() == 0 <==> !spec_has_problem(n),
    decreases n, n.children.len() + 1,
{
    if n.kind == NodeKind::Error || n.missing {
    } else {
        lemma_children_diags_empty_iff(n, 0, lines);
    }
}

pub proof fn lemma_children_diags_empty_iff(n: SpecNode, i: int, lines: Seq<Seq<char>>)
    ensures
        spec_children_diags(n, i, lines).len() == 0 <==> !spec_children_have_problem(n, i),
    decreases n, n.children.len() - i,
{
    if 0 <= i < n.children.len() {
        lemma_diags_empty_iff_no_problem(n.children[i], lines);
        lemma_children_diags_empty_iff(n, i + 1, lines);
    }
}

fn make_diagnostic(start: Position, end: Position, message: String, severity: Severity) -> (r:
    Diagnostic)
    ensures
        r@ == (SpecDiagnostic {
            start_line: start.line as int,
            start_char: start.character as int,
            end_line: end.line as int,
            end_char: end.character as int,
            severity,
            message: message@,
        }),
{
    Diagnostic { range: Range { start, end }, severity, message }
}

fn node_diags(n: &SyntaxNode, index: &Index, out: &mut Vec<Diagnostic>)
    requires
        lines_wf(index@),
    ensures
        final(out).deep_view() == old(out).deep_view() + spec_node_diags(n@, index@),
    decreases *n,
{
    let error = n.is_error();
    if error || n.is_missing() {
        let start = index.to_lsp(n.start);
        let end = index.to_lsp(n.end);
        let message: String = if error {
            "syntax error".to_owned()
        } else {
            "syntax missing".to_owned()
        };
        let d = make_diagnostic(start, end, message, Severity::Error);
        proof {
            assert(d@ == spec_diag_for(
                n@,
                index@,
                if n@.kind == NodeKind::Error {
                    "syntax error"@
                } else {
                    "syntax missing"@
                },
            ));
        }
        out.push(d);
        proof {
            assert(final(out).deep_view() =~= old(out).deep_view() + spec_node_diags(n@, index@));
        }
    } else {
        let ghost out0 = out.deep_view();
        let mut i: usize = 0;
        let k = n.children.len();
        while i < k
            invariant
                lines_wf(index@),
                k == n.children.len(),
                i <= k,
                n@.kind != NodeKind::Error,
                !n@.missing,
                out.deep_view() == out0 + spec_children_diags_upto(n@, i as int, index@),
            decreases k - i,
        {
            proof {
                assert(n@.children[i as int] == n.children@[i as int]@);
            }
            node_diags(&n.children[i], index, out);
            proof {
                lemma_children_diags_upto_step(n@, i as int, index@);
                assert(out.deep_view() =~= out0 + spec_children_diags_upto(
                    n@,
                    i as int + 1,
                    index@,
                ));
            }
            i = i + 1;
        }
        proof {
            lemma_children_diags_upto_all(n@, 0, index@);
            assert(final(out).deep_view() =~= old(out).deep_view() + spec_node_diags(n@, index@));
        }
    }
}

/// The diagnostics of the first `i` children, used to state the walk's
/// loop invariant as a prefix of the full child list.
pub open spec fn spec_children_diags_upto(n: SpecNode, i: int, lines: Seq<Seq<char>>)
    -> Seq<SpecDiagnostic>
    decreases n, i,
{
    if i <= 0 || i > n.children.len() {
        Seq::empty()
    } else {
        spec_children_diags_upto(n, i - 1, lines) + spec_node_diags(n.children[i - 1], lines)
    }
}

pub proof fn lemma_children_diags_upto_step(n: SpecNode, i: int, lines: Seq<Seq<char>>)
    requires
        0 <= i < n.children.len(),
    ensures
        spec_children_diags_upto(n, i + 1, lines) == spec_children_diags_upto(n, i, lines)
            + spec_node_diags(n.children[i], lines),
{
}

/// The prefix form and the suffix form of the children's diagnostics
/// agree: the prefix of all children is the full list.
pub proof fn lemma_children_diags_upto_all(n: SpecNode, i: int, lines: Seq<Seq<char>>)
    requires
        0 <= i <= n.children.len(),
    ensures
        spec_children_diags_upto(n, n.children.len() as int, lines) == spec_children_diags_upto(
            n,
            i,
            lines,
        ) + spec_children_diags(n, i, lines),
    decreases n.children.len() - i,
{
    if i < n.children.len() {
        lemma_children_diags_upto_all(n, i + 1, lines);
        lemma_children_diags_upto_step(n, i, lines);
        assert(spec_children_diags_upto(n, i, lines) + (spec_node_diags(n.children[i], lines)
            + spec_children_diags(n, i + 1, lines)) =~= (spec_children_diags_upto(n, i, lines)
            + spec_node_diags(n.children[i], lines)) + spec_children_diags(n, i + 1, lines));
    } else {
        assert(spec_children_diags(n, i, lines) =~= Seq::<SpecDiagnostic>::empty());
        assert(spec_children_diags_upto(n, i, lines) + Seq::<SpecDiagnostic>::empty()
            =~= spec_children_diags_upto(n, i, lines));
    }
}

/// Walk the tree and collect its diagnostics in pre-order.
pub fn extract(root: &SyntaxNode, index: &Index) -> (r: Vec<Diagnostic>)
    requires
        lines_wf(index@),
    ensures
        r.deep_view() == spec_node_diags(root@, index@),
{
    let mut out: Vec<Diagnostic> = Vec::new();
    proof {
        assert(out.deep_view() =~= Seq::<SpecDiagnostic>::empty());
    }
    node_diags(root, index, &mut out);
    proof {
        assert(out.deep_view() =~= spec_node_diags(root@, index@));
    }
    out
}

} // verus!
