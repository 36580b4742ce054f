use vstd::prelude::*;
use crate::ast::{BinOp, Expr, Stmt};

verus! {

/// Line break used throughout the output.
pub open spec fn crlf() -> Seq<char> {
    "\r\n"@
}

/// `unit` repeated `n` times.
pub open spec fn indent(n: nat, unit: Seq<char>) -> Seq<char>
    decreases n,
{
    if n == 0 {
        Seq::empty()
    } else {
        indent((n - 1) as nat, unit) + unit
    }
}

/// The decimal digit for `d < 10`.
pub open spec fn digit_char(d: nat) -> char {
    if d == 0 { '0' }
    else if d == 1 { '1' }
    else if d == 2 { '2' }
    else if d == 3 { '3' }
    else if d == 4 { '4' }
    else if d == 5 { '5' }
    else if d == 6 { '6' }
    else if d == 7 { '7' }
    else if d == 8 { '8' }
    else { '9' }
}

/// Decimal digits of `n`, most significant first, without leading zeros.
pub open spec fn decimal(n: nat) -> Seq<char>
    decreases n,
{
    if n < 10 {
        seq![digit_char(n)]
    } else {
        decimal(n / 10) + seq![digit_char(n % 10)]
    }
}

/// Canonical text of an integer literal.
pub open spec fn num_text(x: int) -> Seq<char> {
    if x < 0 {
        seq!['-'] + decimal((-x) as nat)
    } else {
        decimal(x as nat)
    }
}

/// A binary expression from its printed operands: wrapped in parentheses
/// exactly when the context binds tighter than the operator.
pub open spec fn binary_text(ctx: u8, op: BinOp, lhs: Seq<char>, rhs: Seq<char>) -> Seq<char> {
    let inner = lhs + " "@ + op.spec_symbol() + " "@ + rhs;
    if ctx > op.spec_prec() {
        "("@ + inner + ")"@
    } else {
        inner
    }
}

/// Parameter names separated by `", "`; the type annotations are dropped.
pub open spec fn params_text(ps: Seq<(String, String)>) -> Seq<char>
    decreases ps.len(),
{
    if ps.len() == 0 {
        Seq::empty()
    } else if ps.len() == 1 {
        ps[0].0@
    } else {
        params_text(ps.drop_last()) + ", "@ + ps.last().0@
    }
}

/// Text of `e` printed in a context of precedence `ctx`, with nested scopes
/// indented from depth `d` by `unit`.
pub open spec fn expr_text(e: Expr, ctx: u8, d: nat, unit: Seq<char>) -> Seq<char>
    decreases e, 0nat,
{
    match e {
        Expr::Binary(op, l, r) => binary_text(
            ctx,
            op,
            expr_text(*l, op.spec_prec(), d, unit),
            expr_text(*r, op.spec_prec(), d, unit),
        ),
        Expr::Var(n) => n@,
        Expr::Num(x) => num_text(x as int),
        Expr::Block(b) => block_text(b@, d, unit),
        Expr::IfElse(c, t, f) => "(() => { if ("@ + expr_text(*c, 0, d, unit) + ") { return "@
            + block_text(t@, d, unit) + (match f {
            Some(fb) => "; } else { return "@ + block_text(fb@, d, unit),
            None => Seq::empty(),
        }) + "; }})()"@,
        Expr::Fn(name, params, _, body) => "function "@ + name@ + "("@ + params_text(params@)
            + ") {\r\n"@ + body_text(body@, d, unit) + indent(d, unit) + "}"@,
        Expr::Call(callee, args) => expr_text(*callee, 0, d, unit) + "("@ + args_text(args@, d, unit)
            + ")"@,
    }
}

/// Call arguments, each at the root precedence, separated by `", "`.
pub open spec fn args_text(args: Seq<Expr>, d: nat, unit: Seq<char>) -> Seq<char>
    decreases args, 0nat,
{
    if args.len() == 0 {
        Seq::empty()
    } else if args.len() == 1 {
        expr_text(args[0], 0, d, unit)
    } else {
        args_text(args.drop_last(), d, unit) + ", "@ + expr_text(args.last(), 0, d, unit)
    }
}

/// One statement on its own line at depth `d`; `tail` marks the last
/// statement of a scope, whose expression is returned.
pub open spec fn stmt_text(s: Stmt, tail: bool, d: nat, unit: Seq<char>) -> Seq<char>
    decreases s, 0nat,
{
    indent(d, unit) + (match s {
        Stmt::Let(name, init) => "let "@ + name@ + (match init {
            Some(v) => " = "@ + expr_text(v, 0, d, unit),
            None => Seq::empty(),
        }) + ";\r\n"@,
        Stmt::Expr(e) => (if tail { "return "@ } else { Seq::empty() }) + expr_text(e, 0, d, unit)
            + ";\r\n"@,
        Stmt::Break => "break;\r\n"@,
        Stmt::Continue => "continue;\r\n"@,
        Stmt::Return(v) => "return"@ + (match v {
            Some(x) => " "@ + expr_text(x, 0, d, unit),
            None => Seq::empty(),
        }) + ";\r\n"@,
    })
}

/// Statements printed one after another, none in tail position.
pub open spec fn plain_stmts(ss: Seq<Stmt>, d: nat, unit: Seq<char>) -> Seq<char>
    decreases ss, 0nat,
{
    if ss.len() == 0 {
        Seq::empty()
    } else {
        plain_stmts(ss.drop_last(), d, unit) + stmt_text(ss.last(), false, d, unit)
    }
}

/// The body of a scope opened at depth `d`: its statements one level deeper,
/// the last in tail position. An empty scope prints nothing.
pub open spec fn body_text(ss: Seq<Stmt>, d: nat, unit: Seq<char>) -> Seq<char>
    decreases ss, 0nat,
{
    if ss.len() == 0 {
        Seq::empty()
    } else {
        plain_stmts(ss.drop_last(), d + 1, unit) + stmt_text(ss.last(), true, d + 1, unit)
    }
}

/// A statement sequence lowered to an immediately-invoked closure.
pub open spec fn block_text(ss: Seq<Stmt>, d: nat, unit: Seq<char>) -> Seq<char>
    decreases ss, 1nat,
{
    "(() => {\r\n"@ + body_text(ss, d, unit) + indent(d, unit) + "})()"@
}

} // verus!

verus! {

/// How many scopes below the current one printing `e` opens at most.
pub open spec fn expr_nest(e: Expr) -> nat
    decreases e, 0nat,
{
    match e {
        Expr::Binary(_, l, r) => vstd::math::max(expr_nest(*l) as int, expr_nest(*r) as int) as nat,
        Expr::Var(_) => 0,
        Expr::Num(_) => 0,
        Expr::Block(b) => scope_nest(b@),
        Expr::IfElse(c, t, f) => {
            let ft: nat = match f {
                Some(fb) => scope_nest(fb@),
                None => 0,
            };
            vstd::math::max(
                expr_nest(*c) as int,
                vstd::math::max(scope_nest(t@) as int, ft as int),
            ) as nat
        },
        Expr::Fn(_, _, _, body) => scope_nest(body@),
        Expr::Call(callee, args) => vstd::math::max(
            expr_nest(*callee) as int,
            args_nest(args@) as int,
        ) as nat,
    }
}

/// The largest nesting among call arguments.
pub open spec fn args_nest(args: Seq<Expr>) -> nat
    decreases args, 0nat,
{
    if args.len() == 0 {
        0
    } else {
        vstd::math::max(args_nest(args.drop_last()) as int, expr_nest(args.last()) as int) as nat
    }
}

/// The nesting of the expression a statement holds, if any.
pub open spec fn stmt_nest(s: Stmt) -> nat
    decreases s, 0nat,
{
    match s {
        Stmt::Let(_, Some(v)) => expr_nest(v),
        Stmt::Expr(e) => expr_nest(e),
        Stmt::Return(Some(x)) => expr_nest(x),
        _ => 0,
    }
}

/// The largest nesting among statements.
pub open spec fn stmts_nest(ss: Seq<Stmt>) -> nat
    decreases ss, 0nat,
{
    if ss.len() == 0 {
        0
    } else {
        vstd::math::max(stmts_nest(ss.drop_last()) as int, stmt_nest(ss.last()) as int) as nat
    }
}

/// Scopes opened by printing a statement sequence as a body: none when it
/// is empty, else one more than its statements open.
pub open spec fn scope_nest(ss: Seq<Stmt>) -> nat
    decreases ss, 1nat,
{
    if ss.len() == 0 {
        0
    } else {
        1 + stmts_nest(ss)
    }
}

/// Each statement nests no deeper than the sequence.
pub proof fn lemma_stmts_nest_elem(ss: Seq<Stmt>, i: int)
    requires
        0 <= i < ss.len(),
    ensures
        stmt_nest(ss[i]) <= stmts_nest(ss),
    decreases ss.len(),
{
    if i < ss.len() - 1 {
        lemma_stmts_nest_elem(ss.drop_last(), i);
    }
}

/// Each argument nests no deeper than the argument list.
pub proof fn lemma_args_nest_elem(args: Seq<Expr>, i: int)
    requires
        0 <= i < args.len(),
    ensures
        expr_nest(args[i]) <= args_nest(args),
    decreases args.len(),
{
    if i < args.len() - 1 {
        lemma_args_nest_elem(args.drop_last(), i);
    }
}

} // verus!

verus! {

/// A binary expression is wrapped in parentheses exactly when its context
/// binds tighter than its operator: an operand whose operator binds at least
/// as tightly as its parent's is printed bare.
pub proof fn lemma_minimal_parens(op: BinOp, l: Expr, r: Expr, ctx: u8, d: nat, unit: Seq<char>)
    ensures
        ({
            let e = Expr::Binary(op, Box::new(l), Box::new(r));
            let inner = expr_text(l, op.spec_prec(), d, unit) + " "@ + op.spec_symbol() + " "@
                + expr_text(r, op.spec_prec(), d, unit);
            &&& ctx <= op.spec_prec() ==> expr_text(e, ctx, d, unit) == inner
            &&& ctx > op.spec_prec() ==> expr_text(e, ctx, d, unit) == "("@ + inner + ")"@
        }),
{
}

} // verus!
