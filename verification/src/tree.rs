//! The concrete syntax tree: nodes with a kind tag, a span, and ordered
//! children. A node either is a genuine syntax error, is a token that the
//! grammar required but the text lacks (`missing`, always zero-width), or
//! is ordinary and carries its children.

use vstd::prelude::*;

use crate::position::Point;

verus! {

broadcast use vstd::std_specs::vec::group_vec_axioms;

/// The closed set of node kinds the grammar produces. `Semi` and
/// `CloseParen` appear only as missing required tokens.
#[derive(Clone, Copy, Debug, PartialEq, Eq, Structural)]
pub enum NodeKind {
    SourceFile,
    Comment,
    Str,
    Ident,
    Call,
    Arguments,
    Error,
    Semi,
    CloseParen,
}

/// The mathematical form of a syntax node: rows, columns and offsets as
/// unbounded integers, children as a sequence.
pub ghost struct SpecNode {
    pub kind: NodeKind,
    pub missing: bool,
    pub start_row: int,
    pub start_col: int,
    pub end_row: int,
    pub end_col: int,
    pub start_off: int,
    pub end_off: int,
    pub children: Seq<SpecNode>,
}

/// A syntax node as the parser builds it: positions are parser-native
/// (row, character column), offsets are character offsets into the text.
#[derive(Debug)]
pub struct SyntaxNode {
    pub kind: NodeKind,
    pub missing: bool,
    pub start: Point,
    pub end: Point,
    pub start_off: usize,
    pub end_off: usize,
    pub children: Vec<SyntaxNode>,
}

pub open spec fn node_view(n: SyntaxNode) -> SpecNode
    decreases n,
{
    SpecNode {
        kind: n.kind,
        missing: n.missing,
        start_row: n.start.row as int,
        start_col: n.start.column as int,
        end_row: n.end.row as int,
        end_col: n.end.column as int,
        start_off: n.start_off as int,
        end_off: n.end_off as int,
        children: Seq::new(
            n.children@.len(),
            |i: int|
                if 0 <= i < n.children@.len() {
                    node_view(n.children@[i])
                } else {
                    arbitrary()
                },
        ),
    }
}

impl View for SyntaxNode {
    type V = SpecNode;

    open spec fn view(&self) -> SpecNode {
        node_view(*self)
    }
}

impl DeepView for SyntaxNode {
    type V = SpecNode;

    open spec fn deep_view(&self) -> SpecNode {
        node_view(*self)
    }
}

impl SyntaxNode {
    /// A leaf node: a token or an atomic named node.
    pub fn leaf(
        kind: NodeKind,
        start: Point,
        end: Point,
        start_off: usize,
        end_off: usize,
    ) -> (r: SyntaxNode)
        ensures
            r@ == (SpecNode {
                kind,
                missing: false,
                start_row: start.row as int,
                start_col: start.column as int,
                end_row: end.row as int,
                end_col: end.column as int,
                start_off: start_off as int,
                end_off: end_off as int,
                children: Seq::<SpecNode>::empty(),
            }),
    {
        let r = SyntaxNode {
            kind,
            missing: false,
            start,
            end,
            start_off,
            end_off,
            children: Vec::new(),
        };
        proof {
            assert(r@.children =~= Seq::<SpecNode>::empty());
        }
        r
    }

    /// A zero-width node standing for a token the grammar requires at this
    /// position but the text lacks.
    pub fn missing_token(kind: NodeKind, at: Point, off: usize) -> (r: SyntaxNode)
        ensures
            r@ == (SpecNode {
                kind,
                missing: true,
                start_row: at.row as int,
                start_col: at.column as int,
                end_row: at.row as int,
                end_col: at.column as int,
                start_off: off as int,
                end_off: off as int,
                children: Seq::<SpecNode>::empty(),
            }),
    {
        let r = SyntaxNode {
            kind,
            missing: true,
            start: at,
            end: at,
            start_off: off,
            end_off: off,
            children: Vec::new(),
        };
        proof {
            assert(r@.children =~= Seq::<SpecNode>::empty());
        }
        r
    }

    /// A deep copy with the same view.
    pub fn duplicate(&self) -> (r: SyntaxNode)
        ensures
            r@ == self@,
        decreases *self,
    {
        let mut kids: Vec<SyntaxNode> = Vec::new();
        let mut i: usize = 0;
        let n = self.children.len();
        proof {
            assert(kids.deep_view() =~= self@.children.take(0));
        }
        while i < n
            invariant
                i <= n,
                n == self.children@.len(),
                n == self@.children.len(),
                kids.deep_view() == self@.children.take(i as int),
                forall|q: int|
                    0 <= q < n ==> #[trigger] self@.children[q] == node_view(self.children@[q]),
            decreases n - i,
        {
            let child = self.children[i].duplicate();
            let ghost pre = kids.deep_view();
            kids.push(child);
            proof {
                assert forall|q: int| 0 <= q < kids@.len() implies #[trigger] (kids.deep_view())[q]
                    == kids@[q].deep_view() by {}
                assert(kids.deep_view() =~= pre.push(child@));
                assert(kids.deep_view() =~= self@.children.take(i + 1));
            }
            i = i + 1;
        }
        let r = SyntaxNode {
            kind: self.kind,
            missing: self.missing,
            start: self.start,
            end: self.end,
            start_off: self.start_off,
            end_off: self.end_off,
            children: kids,
        };
        proof {
            assert(self@.children.take(n as int) =~= self@.children);
            assert(r@.children =~= self@.children);
        }
        r
    }

    /// Whether the parser marked this node as a genuine syntax error.
    pub fn is_error(&self) -> (r: bool)
        ensures
            r == (self@.kind == NodeKind::Error),
    {
        match self.kind {
            NodeKind::Error => true,
            _ => false,
        }
    }

    /// Whether this node stands for a required token absent from the text.
    pub fn is_missing(&self) -> (r: bool)
        ensures
            r == self@.missing,
    {
        self.missing
    }
}

} // verus!
