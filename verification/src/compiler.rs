//! The compiler: it lowers the typed syntax tree to the target output
//! tree. Only two identifiers have a meaning — `print` becomes
//! `console.log` and `args` becomes `Deno.args`; anything the compiler
//! cannot lower is dropped, a statement with an unknown callee is
//! dropped whole, and unknown arguments of a known call are dropped one
//! by one.

use vstd::prelude::*;

use crate::estree;
use crate::syntax::{
    call_view, expr_view, Call, Expression, File, Identifier, Literal, SpecCall, SpecExpression, SpecFile,
    SpecLiteral, SpecStatement, Statement,
};

verus! {

broadcast use vstd::std_specs::vec::group_vec_axioms;

/// The identifiers the compiler knows how to lower.
pub open spec fn is_known_ident(name: Seq<char>) -> bool {
    name == "print"@ || name == "args"@
}

/// Whether `e` is exactly the non-computed member access `obj.prop`.
pub open spec fn is_member_expr(e: estree::Expression, obj: Seq<char>, prop: Seq<char>) -> bool {
    match e {
        estree::Expression::Member { object, property, computed } => {
            &&& !computed
            &&& match *object {
                estree::Expression::Identifier { name } => name@ == obj,
                _ => false,
            }
            &&& match *property {
                estree::Expression::Identifier { name } => name@ == prop,
                _ => false,
            }
        },
        _ => false,
    }
}

/// What a known identifier lowers to: `print` to `console.log`, `args`
/// to `Deno.args`.
pub open spec fn compiles_ident(name: Seq<char>, e: estree::Expression) -> bool {
    if name == "print"@ {
        is_member_expr(e, "console"@, "log"@)
    } else if name == "args"@ {
        is_member_expr(e, "Deno"@, "args"@)
    } else {
        false
    }
}

/// Whether an expression lowers at all: literals always, identifiers
/// and calls only when the (called) identifier is known.
pub open spec fn compile_expr_defined(src: SpecExpression) -> bool {
    match src {
        SpecExpression::Lit(_) => true,
        SpecExpression::Id(id) => is_known_ident(id.name),
        SpecExpression::Call(c) => is_known_ident(c.function.name),
    }
}

/// What an expression lowers to.
pub open spec fn compiles_expr(src: SpecExpression, e: estree::Expression) -> bool
    decreases src, 0int,
{
    match src {
        SpecExpression::Lit(SpecLiteral::Str(v)) => match e {
            estree::Expression::Literal { value } => match value {
                estree::Value::String(s) => s@ == v,
                _ => false,
            },
            _ => false,
        },
        SpecExpression::Id(id) => compiles_ident(id.name, e),
        SpecExpression::Call(c) => match e {
            estree::Expression::Call { callee, arguments } => {
                &&& compiles_ident(c.function.name, *callee)
                &&& compiles_args(c, 0, arguments@)
            },
            _ => false,
        },
    }
}

/// What a call's argument list lowers to: the arguments that lower, in
/// order, each to its lowered form; the rest dropped.
pub open spec fn compiles_args(c: SpecCall, i: int, outs: Seq<estree::Expression>) -> bool
    decreases c, c.arguments.len() - i,
{
    if i < 0 {
        false
    } else if i >= c.arguments.len() {
        outs.len() == 0
    } else if compile_expr_defined(c.arguments[i]) {
        &&& outs.len() > 0
        &&& compiles_expr(c.arguments[i], outs[0])
        &&& compiles_args(c, i + 1, outs.drop_first())
    } else {
        compiles_args(c, i + 1, outs)
    }
}

/// Whether a statement lowers at all.
pub open spec fn compile_stmt_defined(src: SpecStatement) -> bool {
    match src {
        SpecStatement::Expr(e) => compile_expr_defined(e),
    }
}

/// What a statement lowers to: an expression statement around its
/// lowered expression.
pub open spec fn compiles_stmt(src: SpecStatement, out: estree::Statement) -> bool {
    match src {
        SpecStatement::Expr(e) => match out {
            estree::Statement::Expression { expression } => compiles_expr(e, *expression),
            _ => false,
        },
    }
}

/// What a file lowers to: the statements that lower, in order, each as
/// a plain (non-directive) program item.
pub open spec fn compiles_file(f: SpecFile, i: int, outs: Seq<estree::ProgramItem>) -> bool
    decreases f.body.len() - i,
{
    if i < 0 {
        false
    } else if i >= f.body.len() {
        outs.len() == 0
    } else if compile_stmt_defined(f.body[i]) {
        &&& outs.len() > 0
        &&& match outs[0] {
            estree::ProgramItem::Statement(st) => compiles_stmt(f.body[i], st),
            _ => false,
        }
        &&& compiles_file(f, i + 1, outs.drop_first())
    } else {
        compiles_file(f, i + 1, outs)
    }
}

fn name_is_print(v: &Vec<char>) -> (r: bool)
    ensures
        r == (v@ == "print"@),
{
    proof {
        reveal_strlit("print");
    }
    let r = v.len() == 5 && v[0] == 'p' && v[1] == 'r' && v[2] == 'i' && v[3] == 'n' && v[4]
        == 't';
    proof {
        if r {
            assert(v@ =~= "print"@);
        }
    }
    r
}

fn name_is_args(v: &Vec<char>) -> (r: bool)
    ensures
        r == (v@ == "args"@),
{
    proof {
        reveal_strlit("args");
    }
    let r = v.len() == 4 && v[0] == 'a' && v[1] == 'r' && v[2] == 'g' && v[3] == 's';
    proof {
        if r {
            assert(v@ =~= "args"@);
        }
    }
    r
}

fn member_of(obj: &str, prop: &str) -> (r: estree::Expression)
    ensures
        is_member_expr(r, obj@, prop@),
{
    estree::Expression::Member {
        object: Box::new(estree::Expression::Identifier { name: obj.to_owned() }),
        property: Box::new(estree::Expression::Identifier { name: prop.to_owned() }),
        computed: false,
    }
}

/// Lower an identifier, or report that it has no meaning here.
pub fn compile_identifier(id: &Identifier) -> (r: Option<estree::Expression>)
    ensures
        r is Some <==> is_known_ident(id@.name),
        match r {
            Some(e) => compiles_ident(id@.name, e),
            None => true,
        },
{
    if name_is_print(&id.name) {
        Some(member_of("console", "log"))
    } else if name_is_args(&id.name) {
        Some(member_of("Deno", "args"))
    } else {
        proof {
            reveal_strlit("print");
            reveal_strlit("args");
        }
        None
    }
}

/// Build a string from the text's characters.
///
/// Relies on String::push: it appends the one character.
#[verifier::external_body]
fn push_char(s: &mut String, c: char)
    ensures
        final(s)@ == old(s)@.push(c),
{
    s.push(c);
}

fn chars_to_string(v: &Vec<char>) -> (r: String)
    ensures
        r@ == v@,
{
    let mut s = String::new();
    let n = v.len();
    let mut i: usize = 0;
    proof {
        assert(s@ =~= v@.take(0));
    }
    while i < n
        invariant
            i <= n,
            n == v@.len(),
            s@ == v@.take(i as int),
        decreases n - i,
    {
        push_char(&mut s, v[i]);
        proof {
            assert(s@ =~= v@.take(i + 1));
        }
        i = i + 1;
    }
    proof {
        assert(v@.take(n as int) =~= v@);
    }
    s
}

/// Lower an expression, or report that it has no lowered form.
pub fn compile_expression(expr: &Expression) -> (r: Option<estree::Expression>)
    ensures
        r is Some <==> compile_expr_defined(expr@),
        match r {
            Some(e) => compiles_expr(expr@, e),
            None => true,
        },
    decreases *expr, 1int,
{
    match expr {
        Expression::Lit(Literal::Str(v)) => {
            let s = chars_to_string(v);
            Some(estree::Expression::Literal { value: estree::Value::String(s) })
        },
        Expression::Id(id) => compile_identifier(id),
        Expression::Call(c) => {
            match compile_identifier(&c.function) {
                Some(callee) => {
                    let arguments = compile_args(c, 0);
                    Some(
                        estree::Expression::Call { callee: Box::new(callee), arguments },
                    )
                },
                None => None,
            }
        },
    }
}

fn compile_args(c: &Call, i: usize) -> (r: Vec<estree::Expression>)
    requires
        i <= c.arguments@.len(),
    ensures
        compiles_args(c@, i as int, r@),
    decreases *c, c.arguments@.len() - i,
{
    if i == c.arguments.len() {
        let r: Vec<estree::Expression> = Vec::new();
        return r;
    }
    proof {
        assert(c@.arguments[i as int] == expr_view(c.arguments@[i as int]));
    }
    let compiled = compile_expression(&c.arguments[i]);
    let rest = compile_args(c, i + 1);
    match compiled {
        Some(e) => {
            let ghost rest_v = rest@;
            let mut r = rest;
            r.insert(0, e);
            proof {
                assert(r@.drop_first() =~= rest_v);
            }
            r
        },
        None => rest,
    }
}

/// Lower a statement, or report that it has no lowered form.
pub fn compile_statement(stmt: &Statement) -> (r: Option<estree::Statement>)
    ensures
        r is Some <==> compile_stmt_defined(stmt@),
        match r {
            Some(s) => compiles_stmt(stmt@, s),
            None => true,
        },
{
    match stmt {
        Statement::Expr(e) => match compile_expression(e) {
            Some(compiled) => Some(
                estree::Statement::Expression { expression: Box::new(compiled) },
            ),
            None => None,
        },
    }
}

/// Lower a whole file to a program: every statement that lowers, in
/// order.
pub fn compile_file(file: &File) -> (r: Option<estree::Program>)
    ensures
        match r {
            Some(p) => compiles_file(file@, 0, p.body@),
            None => false,
        },
{
    let body = compile_body(file, 0);
    Some(estree::Program { body })
}

fn compile_body(file: &File, i: usize) -> (r: Vec<estree::ProgramItem>)
    requires
        i <= file.body@.len(),
    ensures
        compiles_file(file@, i as int, r@),
    decreases file.body@.len() - i,
{
    if i == file.body.len() {
        let r: Vec<estree::ProgramItem> = Vec::new();
        return r;
    }
    proof {
        assert(file@.body[i as int] == file.body@[i as int].deep_view());
    }
    let compiled = compile_statement(&file.body[i]);
    let rest = compile_body(file, i + 1);
    match compiled {
        Some(s) => {
            let ghost rest_v = rest@;
            let mut r = rest;
            r.insert(0, estree::ProgramItem::Statement(s));
            proof {
                assert(r@.drop_first() =~= rest_v);
            }
            r
        },
        None => rest,
    }
}

} // verus!
