//! The typed abstract syntax tree for the language's small grammar, and
//! the mapping from a concrete syntax node onto it. A node maps to a
//! typed value only when it has the right shape; anything else is
//! dropped, never an error.

use vstd::prelude::*;

use crate::tree::{NodeKind, SpecNode, SyntaxNode};

verus! {

broadcast use vstd::std_specs::vec::group_vec_axioms;

/// A whole source file: its statements.
#[derive(Debug, PartialEq, Eq)]
pub struct File {
    pub body: Vec<Statement>,
}

/// A statement: the grammar has only expression statements.
#[derive(Debug, PartialEq, Eq)]
pub enum Statement {
    Expr(Expression),
}

/// An expression: a literal, an identifier, or a call.
#[derive(Debug, PartialEq, Eq)]
pub enum Expression {
    Lit(Literal),
    Id(Identifier),
    Call(Call),
}

/// A literal: the grammar has only string literals. The value is the
/// text between the quotes.
#[derive(Debug, PartialEq, Eq)]
pub enum Literal {
    Str(Vec<char>),
}

/// An identifier, by its characters.
#[derive(Debug, PartialEq, Eq)]
pub struct Identifier {
    pub name: Vec<char>,
}

/// A call: the called identifier and the argument expressions.
#[derive(Debug, PartialEq, Eq)]
pub struct Call {
    pub function: Identifier,
    pub arguments: Vec<Expression>,
}

/// The mathematical forms of the typed tree.
pub ghost struct SpecFile {
    pub body: Seq<SpecStatement>,
}

pub ghost enum SpecStatement {
    Expr(SpecExpression),
}

pub ghost enum SpecExpression {
    Lit(SpecLiteral),
    Id(SpecIdentifier),
    Call(SpecCall),
}

pub ghost enum SpecLiteral {
    Str(Seq<char>),
}

pub ghost struct SpecIdentifier {
    pub name: Seq<char>,
}

pub ghost struct SpecCall {
    pub function: SpecIdentifier,
    pub arguments: Seq<SpecExpression>,
}

pub open spec fn call_view(c: Call) -> SpecCall
    decreases c,
{
    SpecCall {
        function: SpecIdentifier { name: c.function.name@ },
        arguments: Seq::new(
            c.arguments@.len(),
            |i: int|
                if 0 <= i < c.arguments@.len() {
                    expr_view(c.arguments@[i])
                } else {
                    arbitrary()
                },
        ),
    }
}

pub open spec fn expr_view(e: Expression) -> SpecExpression
    decreases e,
{
    match e {
        Expression::Lit(Literal::Str(v)) => SpecExpression::Lit(SpecLiteral::Str(v@)),
        Expression::Id(id) => SpecExpression::Id(SpecIdentifier { name: id.name@ }),
        Expression::Call(c) => SpecExpression::Call(call_view(c)),
    }
}

impl View for Expression {
    type V = SpecExpression;

    open spec fn view(&self) -> SpecExpression {
        expr_view(*self)
    }
}

impl DeepView for Expression {
    type V = SpecExpression;

    open spec fn deep_view(&self) -> SpecExpression {
        expr_view(*self)
    }
}

impl View for Identifier {
    type V = SpecIdentifier;

    open spec fn view(&self) -> SpecIdentifier {
        SpecIdentifier { name: self.name@ }
    }
}

impl View for Literal {
    type V = SpecLiteral;

    open spec fn view(&self) -> SpecLiteral {
        match self {
            Literal::Str(v) => SpecLiteral::Str(v@),
        }
    }
}

impl View for Call {
    type V = SpecCall;

    open spec fn view(&self) -> SpecCall {
        call_view(*self)
    }
}

impl View for Statement {
    type V = SpecStatement;

    open spec fn view(&self) -> SpecStatement {
        match self {
            Statement::Expr(e) => SpecStatement::Expr(expr_view(*e)),
        }
    }
}

impl DeepView for Statement {
    type V = SpecStatement;

    open spec fn deep_view(&self) -> SpecStatement {
        self@
    }
}

impl View for File {
    type V = SpecFile;

    open spec fn view(&self) -> SpecFile {
        SpecFile { body: self.body.deep_view() }
    }
}

/// Whether a node's character span lies within the text.
pub open spec fn node_text_ok(text: Seq<char>, n: SpecNode) -> bool {
    0 <= n.start_off <= n.end_off <= text.len()
}

/// The literal a string node denotes: the text between its quotes. A
/// node whose span is not a quoted span denotes nothing.
pub open spec fn spec_make_literal(text: Seq<char>, n: SpecNode) -> Option<SpecLiteral> {
    if node_text_ok(text, n) {
        let v = text.subrange(n.start_off, n.end_off);
        if v.len() >= 2 && v[0] == '"' && v[v.len() - 1] == '"' {
            Some(SpecLiteral::Str(v.subrange(1, v.len() - 1)))
        } else {
            None
        }
    } else {
        None
    }
}

/// The identifier a node's span spells.
pub open spec fn spec_make_identifier(text: Seq<char>, n: SpecNode) -> Option<SpecIdentifier> {
    if node_text_ok(text, n) {
        Some(SpecIdentifier { name: text.subrange(n.start_off, n.end_off) })
    } else {
        None
    }
}

/// The expression a node denotes, by its kind; any other kind denotes
/// nothing.
pub open spec fn spec_make_expression(text: Seq<char>, n: SpecNode) -> Option<SpecExpression>
    decreases n, 1int,
{
    if n.kind == NodeKind::Str {
        match spec_make_literal(text, n) {
            Some(l) => Some(SpecExpression::Lit(l)),
            None => None,
        }
    } else if n.kind == NodeKind::Ident {
        match spec_make_identifier(text, n) {
            Some(id) => Some(SpecExpression::Id(id)),
            None => None,
        }
    } else if n.kind == NodeKind::Call {
        match spec_make_call(text, n) {
            Some(c) => Some(SpecExpression::Call(c)),
            None => None,
        }
    } else {
        None
    }
}

/// The call a call node denotes: its identifier child and whichever of
/// the argument children denote expressions.
pub open spec fn spec_make_call(text: Seq<char>, n: SpecNode) -> Option<SpecCall>
    decreases n, 0int,
{
    if n.children.len() == 2 && n.children[0].kind == NodeKind::Ident && n.children[1].kind
        == NodeKind::Arguments {
        match spec_make_identifier(text, n.children[0]) {
            Some(f) => Some(
                SpecCall { function: f, arguments: spec_make_args(text, n.children[1], 0) },
            ),
            None => None,
        }
    } else {
        None
    }
}

pub open spec fn spec_make_args(text: Seq<char>, args: SpecNode, i: int) -> Seq<SpecExpression>
    decreases args, args.children.len() - i,
{
    if i < 0 || i >= args.children.len() {
        Seq::empty()
    } else {
        match spec_make_expression(text, args.children[i]) {
            Some(e) => seq![e] + spec_make_args(text, args, i + 1),
            None => spec_make_args(text, args, i + 1),
        }
    }
}

/// The statement a node denotes: an expression statement, when the node
/// denotes an expression.
pub open spec fn spec_make_statement(text: Seq<char>, n: SpecNode) -> Option<SpecStatement>
    decreases n, 2int,
{
    match spec_make_expression(text, n) {
        Some(e) => Some(SpecStatement::Expr(e)),
        None => None,
    }
}

/// The file a root node denotes: whichever children denote statements.
pub open spec fn spec_make_file(text: Seq<char>, n: SpecNode) -> Option<SpecFile> {
    Some(SpecFile { body: spec_make_body(text, n, 0) })
}

pub open spec fn spec_make_body(text: Seq<char>, n: SpecNode, i: int) -> Seq<SpecStatement>
    decreases n, n.children.len() - i,
{
    if i < 0 || i >= n.children.len() {
        Seq::empty()
    } else {
        match spec_make_statement(text, n.children[i]) {
            Some(s) => seq![s] + spec_make_body(text, n, i + 1),
            None => spec_make_body(text, n, i + 1),
        }
    }
}

/// A copy of the text's span `a..b`.
fn slice_chars(text: &Vec<char>, a: usize, b: usize) -> (r: Vec<char>)
    requires
        a <= b <= text@.len(),
    ensures
        r@ == text@.subrange(a as int, b as int),
{
    let mut r: Vec<char> = Vec::new();
    let mut i = a;
    proof {
        assert(r@ =~= text@.subrange(a as int, a as int));
    }
    while i < b
        invariant
            a <= i <= b <= text@.len(),
            r@ == text@.subrange(a as int, i as int),
        decreases b - i,
    {
        r.push(text[i]);
        proof {
            assert(r@ =~= text@.subrange(a as int, i + 1));
        }
        i = i + 1;
    }
    r
}

fn make_literal(text: &Vec<char>, node: &SyntaxNode) -> (r: Option<Literal>)
    ensures
        match r {
            Some(v) => spec_make_literal(text@, node@) == Some(v@),
            None => spec_make_literal(text@, node@) is None,
        },
{
    let a = node.start_off;
    let b = node.end_off;
    if !(a <= b && b <= text.len()) {
        return None;
    }
    if b - a < 2 || !(text[a] == '"') || !(text[b - 1] == '"') {
        proof {
            let v = text@.subrange(a as int, b as int);
            assert(b - a >= 2 ==> v[0] == text@[a as int] && v[v.len() - 1] == text@[b - 1]);
        }
        return None;
    }
    let value = slice_chars(text, a + 1, b - 1);
    proof {
        let v = text@.subrange(a as int, b as int);
        assert(v[0] == text@[a as int] && v[v.len() - 1] == text@[b - 1]);
        assert(v.subrange(1, v.len() - 1) =~= text@.subrange(a + 1, b - 1));
    }
    Some(Literal::Str(value))
}

fn make_identifier(text: &Vec<char>, node: &SyntaxNode) -> (r: Option<Identifier>)
    ensures
        match r {
            Some(v) => spec_make_identifier(text@, node@) == Some(v@),
            None => spec_make_identifier(text@, node@) is None,
        },
{
    let a = node.start_off;
    let b = node.end_off;
    if !(a <= b && b <= text.len()) {
        return None;
    }
    Some(Identifier { name: slice_chars(text, a, b) })
}

fn make_expression(text: &Vec<char>, node: &SyntaxNode) -> (r: Option<Expression>)
    ensures
        match r {
            Some(v) => spec_make_expression(text@, node@) == Some(v@),
            None => spec_make_expression(text@, node@) is None,
        },
    decreases *node, 1int,
{
    match node.kind {
        NodeKind::Str => match make_literal(text, node) {
            Some(l) => Some(Expression::Lit(l)),
            None => None,
        },
        NodeKind::Ident => match make_identifier(text, node) {
            Some(id) => Some(Expression::Id(id)),
            None => None,
        },
        NodeKind::Call => match make_call(text, node) {
            Some(c) => Some(Expression::Call(c)),
            None => None,
        },
        _ => None,
    }
}

fn make_call(text: &Vec<char>, node: &SyntaxNode) -> (r: Option<Call>)
    ensures
        match r {
            Some(v) => spec_make_call(text@, node@) == Some(v@),
            None => spec_make_call(text@, node@) is None,
        },
    decreases *node, 0int,
{
    proof {
        assert(node@.children.len() == node.children@.len());
    }
    if !(node.children.len() == 2) {
        return None;
    }
    proof {
        assert(node@.children[0] == node.children@[0]@);
        assert(node@.children[1] == node.children@[1]@);
    }
    let ident_ok = matches!(node.children[0].kind, NodeKind::Ident);
    let args_ok = matches!(node.children[1].kind, NodeKind::Arguments);
    if !ident_ok || !args_ok {
        return None;
    }
    let function = match make_identifier(text, &node.children[0]) {
        Some(f) => f,
        None => {
            return None;
        },
    };
    let arguments = make_args(text, &node.children[1]);
    let c = Call { function, arguments };
    proof {
        assert(call_view(c).arguments =~= c.arguments.deep_view());
    }
    Some(c)
}

fn make_args(text: &Vec<char>, args_node: &SyntaxNode) -> (r: Vec<Expression>)
    ensures
        r.deep_view() == spec_make_args(text@, args_node@, 0),
    decreases *args_node, 3int,
{
    let mut arguments: Vec<Expression> = Vec::new();
    let k = args_node.children.len();
    let mut i: usize = 0;
    proof {
        assert(args_node@.children.len() == args_node.children@.len());
        assert(arguments.deep_view() + spec_make_args(text@, args_node@, 0) =~= spec_make_args(
            text@,
            args_node@,
            0,
        ));
    }
    while i < k
        invariant
            i <= k,
            k == args_node.children@.len(),
            k == args_node@.children.len(),
            spec_make_args(text@, args_node@, 0) == arguments.deep_view() + spec_make_args(
                text@,
                args_node@,
                i as int,
            ),
            forall|q: int|
                0 <= q < k ==> #[trigger] args_node@.children[q] == args_node.children@[q]@,
        decreases k - i,
    {
        match make_expression(text, &args_node.children[i]) {
            Some(e) => {
                let ghost pre = arguments.deep_view();
                let ghost ev = expr_view(e);
                arguments.push(e);
                proof {
                    assert forall|q: int| 0 <= q < arguments@.len() implies #[trigger] (
                    arguments.deep_view())[q] == arguments@[q].deep_view() by {}
                    assert(arguments.deep_view() =~= pre.push(ev));
                    assert(spec_make_args(text@, args_node@, i as int) == seq![ev]
                        + spec_make_args(text@, args_node@, i + 1));
                    assert(pre + (seq![ev] + spec_make_args(text@, args_node@, i + 1))
                        =~= arguments.deep_view() + spec_make_args(text@, args_node@, i + 1));
                }
            },
            None => {},
        }
        i = i + 1;
    }
    proof {
        assert(spec_make_args(text@, args_node@, k as int) =~= Seq::<SpecExpression>::empty());
        assert(arguments.deep_view() + Seq::<SpecExpression>::empty() =~= arguments.deep_view());
    }
    arguments
}

fn make_statement(text: &Vec<char>, node: &SyntaxNode) -> (r: Option<Statement>)
    ensures
        match r {
            Some(v) => spec_make_statement(text@, node@) == Some(v@),
            None => spec_make_statement(text@, node@) is None,
        },
    decreases *node, 2int,
{
    match make_expression(text, node) {
        Some(e) => Some(Statement::Expr(e)),
        None => None,
    }
}

fn make_file(text: &Vec<char>, node: &SyntaxNode) -> (r: Option<File>)
    ensures
        match r {
            Some(v) => spec_make_file(text@, node@) == Some(v@),
            None => spec_make_file(text@, node@) is None,
        },
{
    let mut body: Vec<Statement> = Vec::new();
    let k = node.children.len();
    let mut i: usize = 0;
    proof {
        assert(body.deep_view() + spec_make_body(text@, node@, 0) =~= spec_make_body(
            text@,
            node@,
            0,
        ));
    }
    while i < k
        invariant
            i <= k,
            k == node.children@.len(),
            k == node@.children.len(),
            spec_make_body(text@, node@, 0) == body.deep_view() + spec_make_body(
                text@,
                node@,
                i as int,
            ),
            forall|q: int| 0 <= q < k ==> #[trigger] node@.children[q] == node.children@[q]@,
        decreases k - i,
    {
        match make_statement(text, &node.children[i]) {
            Some(s) => {
                let ghost pre = body.deep_view();
                let ghost sv = s@;
                body.push(s);
                proof {
                    assert forall|q: int| 0 <= q < body@.len() implies #[trigger] (
                    body.deep_view())[q] == body@[q].deep_view() by {}
                    assert(body.deep_view() =~= pre.push(sv));
                    assert(spec_make_body(text@, node@, i as int) == seq![sv] + spec_make_body(
                        text@,
                        node@,
                        i + 1,
                    ));
                    assert(pre + (seq![sv] + spec_make_body(text@, node@, i + 1))
                        =~= body.deep_view() + spec_make_body(text@, node@, i + 1));
                }
            },
            None => {},
        }
        i = i + 1;
    }
    proof {
        assert(spec_make_body(text@, node@, k as int) =~= Seq::<SpecStatement>::empty());
        assert(body.deep_view() + Seq::<SpecStatement>::empty() =~= body.deep_view());
    }
    Some(File { body })
}

/// A typed value that a concrete syntax node may denote.
pub trait Node: View + Sized {
    /// The value this node denotes, if it has the right shape.
    spec fn spec_make(text: Seq<char>, node: SpecNode) -> Option<Self::V>;

    /// Map a node onto this type, or drop it.
    fn make(text: &Vec<char>, node: &SyntaxNode) -> (r: Option<Self>)
        ensures
            match r {
                Some(v) => Self::spec_make(text@, node@) == Some(v@),
                None => Self::spec_make(text@, node@) is None,
            },
    ;
}

impl Node for File {
    open spec fn spec_make(text: Seq<char>, node: SpecNode) -> Option<SpecFile> {
        spec_make_file(text, node)
    }

    fn make(text: &Vec<char>, node: &SyntaxNode) -> (r: Option<File>) {
        make_file(text, node)
    }
}

impl Node for Statement {
    open spec fn spec_make(text: Seq<char>, node: SpecNode) -> Option<SpecStatement> {
        spec_make_statement(text, node)
    }

    fn make(text: &Vec<char>, node: &SyntaxNode) -> (r: Option<Statement>) {
        make_statement(text, node)
    }
}

impl Node for Expression {
    open spec fn spec_make(text: Seq<char>, node: SpecNode) -> Option<SpecExpression> {
        spec_make_expression(text, node)
    }

    fn make(text: &Vec<char>, node: &SyntaxNode) -> (r: Option<Expression>) {
        make_expression(text, node)
    }
}

impl Node for Literal {
    open spec fn spec_make(text: Seq<char>, node: SpecNode) -> Option<SpecLiteral> {
        spec_make_literal(text, node)
    }

    fn make(text: &Vec<char>, node: &SyntaxNode) -> (r: Option<Literal>) {
        make_literal(text, node)
    }
}

impl Node for Identifier {
    open spec fn spec_make(text: Seq<char>, node: SpecNode) -> Option<SpecIdentifier> {
        spec_make_identifier(text, node)
    }

    fn make(text: &Vec<char>, node: &SyntaxNode) -> (r: Option<Identifier>) {
        make_identifier(text, node)
    }
}

impl Node for Call {
    open spec fn spec_make(text: Seq<char>, node: SpecNode) -> Option<SpecCall> {
        spec_make_call(text, node)
    }

    fn make(text: &Vec<char>, node: &SyntaxNode) -> (r: Option<Call>) {
        make_call(text, node)
    }
}

} // verus!
