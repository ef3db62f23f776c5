//! The target output tree: the ES5 abstract syntax, as the estree
//! specification lays it out. Pure data; the compiler builds a small
//! corner of it, and the program layer owns its wire encoding.

use vstd::prelude::*;

verus! {

#[derive(Debug, PartialEq, Eq)]
pub struct Identifier {
    pub name: String,
}

/// A literal's value. A number is carried as the bit pattern of its
/// IEEE 754 double, so equality on values is equality of
/// representations.
#[derive(Debug, PartialEq, Eq)]
pub enum Value {
    String(String),
    Boolean(bool),
    Null,
    Number(u64),
}

#[derive(Debug, PartialEq, Eq)]
pub enum Literal {
    Literal { value: Value },
    RegExp { regex: RegExp },
}

#[derive(Debug, PartialEq, Eq)]
pub struct RegExp {
    pub pattern: String,
    pub flags: String,
}

/// A top-level item: a directive, or an ordinary statement.
#[derive(Debug, PartialEq, Eq)]
pub enum ProgramItem {
    Directive(Directive),
    Statement(Statement),
}

#[derive(Debug, PartialEq, Eq)]
pub struct Program {
    pub body: Vec<ProgramItem>,
}

#[derive(Debug, PartialEq, Eq)]
pub enum Statement {
    Expression { expression: Box<Expression> },
    Block { body: Vec<Statement> },
    Empty,
    Debugger,
    WIth { object: Box<Expression>, body: Box<Statement> },
    Return { argument: Option<Box<Expression>> },
    Labeled { label: Identifier, body: Box<Statement> },
    Break { label: Option<Identifier> },
    Continue { label: Option<Identifier> },
    If {
        test: Box<Expression>,
        consequent: Box<Statement>,
        alternate: Option<Box<Statement>>,
    },
    Switch { discriminant: Box<Expression>, cases: Vec<SwitchCase> },
    Throw { argument: Box<Expression> },
    Try {
        block: BlockStatement,
        handler: Option<CatchClause>,
        finalizer: Option<BlockStatement>,
    },
    While { test: Box<Expression>, body: Box<Statement> },
    DoWhile { body: Box<Statement>, test: Box<Expression> },
    For {
        init: Option<ForInit>,
        test: Option<Box<Expression>>,
        update: Option<Box<Expression>>,
        body: Box<Statement>,
    },
    ForIn { left: ForInLeft, right: Box<Expression>, body: Box<Statement> },
    FunctionDeclaration { id: Identifier, params: Vec<Pattern>, body: FunctionBody },
    VariableDeclaration { declarations: Vec<VariableDeclarator>, kind: DeclarationKind },
}

/// A `for` initializer: a declaration, or an expression.
#[derive(Debug, PartialEq, Eq)]
pub enum ForInit {
    Declaration(VariableDeclaration),
    Expression(Box<Expression>),
}

/// A `for..in` target: a declaration, or a pattern.
#[derive(Debug, PartialEq, Eq)]
pub enum ForInLeft {
    Declaration(VariableDeclaration),
    Pattern(Pattern),
}

#[derive(Debug, PartialEq, Eq)]
pub struct Directive {
    pub expression: Literal,
    pub directive: String,
}

#[derive(Debug, PartialEq, Eq)]
pub struct BlockStatement {
    pub body: Vec<Statement>,
}

#[derive(Debug, PartialEq, Eq)]
pub struct FunctionBody {
    pub body: Vec<ProgramItem>,
}

#[derive(Debug, PartialEq, Eq)]
pub struct SwitchCase {
    pub test: Option<Box<Expression>>,
    pub consequent: Vec<Statement>,
}

#[derive(Debug, PartialEq, Eq)]
pub struct CatchClause {
    pub param: Pattern,
    pub body: BlockStatement,
}

#[derive(Debug, PartialEq, Eq)]
pub struct VariableDeclaration {
    pub declarations: Vec<VariableDeclarator>,
    pub kind: DeclarationKind,
}

#[derive(Debug, PartialEq, Eq)]
pub enum DeclarationKind {
    Var,
}

#[derive(Debug, PartialEq, Eq)]
pub struct VariableDeclarator {
    pub id: Pattern,
    pub init: Option<Box<Expression>>,
}

#[derive(Debug, PartialEq, Eq)]
pub enum Expression {
    Identifier { name: String },
    Literal { value: Value },
    RegExpLiteral { regex: RegExp },
    This,
    Array { elements: Vec<Option<Expression>> },
    Object { properties: Vec<Property> },
    Function { id: Option<Identifier>, params: Vec<Pattern>, body: FunctionBody },
    Unary { operator: UnaryOperator, prefix: bool, argument: Box<Expression> },
    Update { operator: UpdateOperator, argument: Box<Expression>, prefix: bool },
    Binary { operator: BinaryOperator, left: Box<Expression>, right: Box<Expression> },
    Assignment { operator: AssignmentOperator, left: AssignTarget, right: Box<Expression> },
    Logical { operator: LogicalOperator, left: Box<Expression>, right: Box<Expression> },
    Member { object: Box<Expression>, property: Box<Expression>, computed: bool },
    Conditional { test: Box<Expression>, alternate: Box<Expression>, consequent: Box<Expression> },
    Call { callee: Box<Expression>, arguments: Vec<Expression> },
    New { callee: Box<Expression>, arguments: Vec<Expression> },
    Sequence { expressions: Vec<Expression> },
}

/// An assignment's target: a pattern, or an expression.
#[derive(Debug, PartialEq, Eq)]
pub enum AssignTarget {
    Pattern(Pattern),
    Expression(Box<Expression>),
}

/// An object property's key: a literal, or an identifier.
#[derive(Debug, PartialEq, Eq)]
pub enum PropertyKey {
    Literal(Literal),
    Identifier(Identifier),
}

#[derive(Debug, PartialEq, Eq)]
pub struct Property {
    pub key: PropertyKey,
    pub value: Box<Expression>,
    pub kind: PropertyKind,
}

#[derive(Debug, PartialEq, Eq)]
pub enum PropertyKind {
    Init,
    Get,
    Setter,
}

#[derive(Debug, PartialEq, Eq)]
pub enum UnaryOperator {
    Negative,
    Positive,
    Not,
    BitwiseNot,
    Typeof,
    Void,
    Delete,
}

#[derive(Debug, PartialEq, Eq)]
pub enum UpdateOperator {
    Increment,
    Decrement,
}

#[derive(Debug, PartialEq, Eq)]
pub enum BinaryOperator {
    DoubleEqual,
    NotDoubleEqual,
    TripleEqual,
    NotTripleEqual,
    Less,
    LessEqual,
    Greater,
    GreaterEqual,
    LeftShift,
    RightShift,
    UnsignedRightShift,
    Add,
    Subtract,
    Multiply,
    Divide,
    Modulus,
    BitwiseOr,
    BitwiseXor,
    BitwiseAnd,
    In,
    Instanceof,
}

#[derive(Debug, PartialEq, Eq)]
pub enum AssignmentOperator {
    Equal,
    AddEqual,
    SubtractEqual,
    MultiplyEqual,
    DivideEqual,
    ModulusEqual,
    LeftShiftEqual,
    RightShiftEqual,
    UnsignedRightShiftEqual,
    BitwiseOrEqual,
    BitwiseXorEqual,
    BitwiseAndEqual,
}

#[derive(Debug, PartialEq, Eq)]
pub enum LogicalOperator {
    Or,
    And,
}

#[derive(Debug, PartialEq, Eq)]
pub enum Pattern {
    Identifier { name: String },
    MemberExpression { object: Box<Expression>, property: Box<Expression>, computed: bool },
}

} // verus!
