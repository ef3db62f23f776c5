//! An s-expression rendering of a syntax tree, the form the command
//! line reports: each node as `(kind child child ...)`, a call's two
//! children labelled with their field names, and a missing token as
//! `(MISSING kind)`.

use vstd::prelude::*;

use crate::tree::{NodeKind, SpecNode, SyntaxNode};

verus! {

broadcast use vstd::std_specs::vec::group_vec_axioms;

/// A node kind's display name; the token kinds print as their quoted
/// spelling.
pub open spec fn spec_kind_name(k: NodeKind) -> Seq<char> {
    match k {
        NodeKind::SourceFile => "source_file"@,
        NodeKind::Comment => "comment"@,
        NodeKind::Str => "string"@,
        NodeKind::Ident => "identifier"@,
        NodeKind::Call => "call"@,
        NodeKind::Arguments => "arguments"@,
        NodeKind::Error => "ERROR"@,
        NodeKind::Semi => "\";\""@,
        NodeKind::CloseParen => "\")\""@,
    }
}

/// The field label before a call's children; empty elsewhere.
pub open spec fn spec_field_label(k: NodeKind, i: int) -> Seq<char> {
    if k == NodeKind::Call && i == 0 {
        "function: "@
    } else if k == NodeKind::Call && i == 1 {
        "arguments: "@
    } else {
        ""@
    }
}

/// The rendering of one node.
pub open spec fn spec_sexp(n: SpecNode) -> Seq<char>
    decreases n, n.children.len() + 1,
{
    if n.missing {
        "(MISSING "@ + spec_kind_name(n.kind) + ")"@
    } else {
        "("@ + spec_kind_name(n.kind) + spec_sexp_children(n, 0) + ")"@
    }
}

/// The rendering of the children from `i` on: a space, the field label
/// if any, the child, then the rest.
pub open spec fn spec_sexp_children(n: SpecNode, i: int) -> Seq<char>
    decreases n, n.children.len() - i,
{
    if i < 0 || i >= n.children.len() {
        Seq::empty()
    } else {
        " "@ + spec_field_label(n.kind, i) + spec_sexp(n.children[i]) + spec_sexp_children(
            n,
            i + 1,
        )
    }
}

/// Append a string slice.
///
/// Relies on String::push_str: it appends exactly the slice.
#[verifier::external_body]
fn push_str(out: &mut String, s: &str)
    ensures
        final(out)@ == old(out)@ + s@,
{
    out.push_str(s);
}

fn push_kind(out: &mut String, k: NodeKind)
    ensures
        final(out)@ == old(out)@ + spec_kind_name(k),
{
    match k {
        NodeKind::SourceFile => push_str(out, "source_file"),
        NodeKind::Comment => push_str(out, "comment"),
        NodeKind::Str => push_str(out, "string"),
        NodeKind::Ident => push_str(out, "identifier"),
        NodeKind::Call => push_str(out, "call"),
        NodeKind::Arguments => push_str(out, "arguments"),
        NodeKind::Error => push_str(out, "ERROR"),
        NodeKind::Semi => push_str(out, "\";\""),
        NodeKind::CloseParen => push_str(out, "\")\""),
    }
}

fn sexp_into(n: &SyntaxNode, out: &mut String)
    ensures
        final(out)@ == old(out)@ + spec_sexp(n@),
    decreases *n,
{
    if n.missing {
        push_str(out, "(MISSING ");
        push_kind(out, n.kind);
        push_str(out, ")");
        proof {
            assert(final(out)@ =~= old(out)@ + spec_sexp(n@));
        }
        return ;
    }
    push_str(out, "(");
    push_kind(out, n.kind);
    let ghost base = out@;
    let k = n.children.len();
    let mut i: usize = 0;
    proof {
        assert(base + spec_sexp_children(n@, 0) =~= out@ + spec_sexp_children(n@, 0));
    }
    while i < k
        invariant
            i <= k,
            k == n.children@.len(),
            k == n@.children.len(),
            base + spec_sexp_children(n@, 0) == out@ + spec_sexp_children(n@, i as int),
            forall|q: int| 0 <= q < k ==> #[trigger] n@.children[q] == n.children@[q]@,
        decreases k - i,
    {
        push_str(out, " ");
        let is_call = matches!(n.kind, NodeKind::Call);
        if is_call && i == 0 {
            push_str(out, "function: ");
        } else if is_call && i == 1 {
            push_str(out, "arguments: ");
        } else {
            proof {
                reveal_strlit("");
                assert(spec_field_label(n@.kind, i as int) =~= Seq::<char>::empty());
            }
        }
        sexp_into(&n.children[i], out);
        proof {
            assert(spec_sexp_children(n@, i as int) == " "@ + spec_field_label(n@.kind, i as int)
                + spec_sexp(n@.children[i as int]) + spec_sexp_children(n@, i + 1));
            assert(base + spec_sexp_children(n@, 0) =~= out@ + spec_sexp_children(n@, i + 1));
        }
        i = i + 1;
    }
    push_str(out, ")");
    proof {
        assert(spec_sexp_children(n@, k as int) =~= Seq::<char>::empty());
        assert(base =~= base + spec_sexp_children(n@, k as int));
        assert(final(out)@ =~= old(out)@ + spec_sexp(n@));
    }
}

impl SyntaxNode {
    /// Render this tree as one s-expression line.
    pub fn sexp(&self) -> (r: String)
        ensures
            r@ == spec_sexp(self@),
    {
        let mut out = String::new();
        sexp_into(self, &mut out);
        proof {
            assert(Seq::<char>::empty() + spec_sexp(self@) =~= spec_sexp(self@));
        }
        out
    }
}

} // verus!
