use vstd::prelude::*;
use crate::ast::{Expr, Program, Stmt};
use crate::stream::Stream;
use crate::text::{
    args_nest, args_text, block_text, body_text, decimal, digit_char, expr_nest, expr_text, indent,
    lemma_args_nest_elem, lemma_stmts_nest_elem, num_text, params_text, plain_stmts, scope_nest,
    stmt_nest, stmt_text,
};

verus! {

/// The decimal digit `d` as a one-character string.
fn digit_str(d: u64) -> (r: &'static str)
    requires
        d < 10,
    ensures
        r@ == seq![digit_char(d as nat)],
{
    proof {
        reveal_strlit("0");
        reveal_strlit("1");
        reveal_strlit("2");
        reveal_strlit("3");
        reveal_strlit("4");
        reveal_strlit("5");
        reveal_strlit("6");
        reveal_strlit("7");
        reveal_strlit("8");
        reveal_strlit("9");
    }
    if d == 0 { "0" }
    else if d == 1 { "1" }
    else if d == 2 { "2" }
    else if d == 3 { "3" }
    else if d == 4 { "4" }
    else if d == 5 { "5" }
    else if d == 6 { "6" }
    else if d == 7 { "7" }
    else if d == 8 { "8" }
    else { "9" }
}

/// Writes the decimal digits of `n`.
fn write_decimal(stream: &mut Stream, n: u64)
    ensures
        final(stream)@ == old(stream)@ + decimal(n as nat),
    decreases n,
{
    if n >= 10 {
        write_decimal(stream, n / 10);
    }
    stream.write(digit_str(n % 10));
}

/// Writes the canonical text of an integer literal.
fn write_num(stream: &mut Stream, x: i64)
    ensures
        final(stream)@ == old(stream)@ + num_text(x as int),
{
    if x < 0 {
        proof {
            reveal_strlit("-");
        }
        stream.write("-");
        let m: u64 = (0i128 - x as i128) as u64;
        write_decimal(stream, m);
    } else {
        write_decimal(stream, x as u64);
    }
}

/// Prints program trees as source text of the target syntax.
pub struct JSEmitter {
    ident: usize,
    ident_str: String,
}

impl JSEmitter {
    /// The current indentation depth.
    pub closed spec fn depth(&self) -> nat {
        self.ident as nat
    }

    /// The text written once per level of indentation.
    pub closed spec fn unit(&self) -> Seq<char> {
        self.ident_str@
    }

    /// An emitter at depth zero that indents with `ident_str`.
    pub fn new(ident_str: &str) -> (r: Self)
        ensures
            r.depth() == 0,
            r.unit() == ident_str@,
    {
        JSEmitter { ident: 0, ident_str: ident_str.to_string() }
    }

    /// The current indentation depth.
    pub fn indent_depth(&self) -> (r: usize)
        ensures
            r == self.depth(),
    {
        self.ident
    }

    /// Enters a nested scope.
    fn begin(&mut self)
        requires
            old(self).ident < usize::MAX,
        ensures
            final(self).ident == old(self).ident + 1,
            final(self).ident_str == old(self).ident_str,
    {
        self.ident += 1;
    }

    /// Leaves a nested scope; never below depth zero.
    fn close(&mut self)
        requires
            old(self).ident > 0,
        ensures
            final(self).ident == old(self).ident - 1,
            final(self).ident_str == old(self).ident_str,
    {
        self.ident = self.ident - 1;
    }

    /// Writes the indentation of the current depth.
    fn emit_ident(&self, stream: &mut Stream)
        ensures
            final(stream)@ == old(stream)@ + indent(self.depth(), self.unit()),
    {
        let mut i: usize = 0;
        while i < self.ident
            invariant
                i <= self.ident,
                stream@ == old(stream)@ + indent(i as nat, self.unit()),
            decreases self.ident - i,
        {
            stream.write(self.ident_str.as_str());
            i += 1;
        }
    }

    /// Prints `expr` in a context of precedence `proc`.
    fn emit_expr_proc(&mut self, expr: &Expr, stream: &mut Stream, proc: u8)
        requires
            old(self).depth() + expr_nest(*expr) <= usize::MAX,
        ensures
            *final(self) == *old(self),
            final(stream)@ == old(stream)@ + expr_text(*expr, proc, old(self).depth(), old(self).unit()),
        decreases expr, 1nat,
    {
        match expr {
            Expr::Binary(..) => {
                self.emit_binary(expr, stream, proc);
            },
            Expr::Var(n) => {
                stream.write(n.as_str());
            },
            Expr::Num(x) => {
                write_num(stream, *x);
            },
            Expr::Block(block) => {
                self.emit_block(block, stream);
            },
            Expr::IfElse(cond, tcase, fcase) => {
                stream.write("(() => { if (");
                self.emit_expr(cond, stream);
                stream.write(") { return ");
                self.emit_block(tcase, stream);
                if let Some(vfcase) = fcase {
                    stream.write("; } else { return ");
                    self.emit_block(vfcase, stream);
                }
                stream.write("; }})()");
            },
            Expr::Fn(..) => {
                self.emit_fn(expr, stream);
            },
            Expr::Call(..) => {
                self.emit_call(expr, stream);
            },
        }
    }

    /// Prints a binary expression, parenthesised when `proc` binds tighter.
    fn emit_binary(&mut self, expr: &Expr, stream: &mut Stream, proc: u8)
        requires
            expr is Binary,
            old(self).depth() + expr_nest(*expr) <= usize::MAX,
        ensures
            *final(self) == *old(self),
            final(stream)@ == old(stream)@ + expr_text(*expr, proc, old(self).depth(), old(self).unit()),
        decreases expr, 0nat,
    {
        match expr {
            Expr::Binary(op, lhs, rhs) => {
                let p = op.prec();
                let ghost d = old(self).depth();
                let ghost u = old(self).unit();
                let ghost lt = expr_text(**lhs, p, d, u);
                let ghost rt = expr_text(**rhs, p, d, u);
                let ghost inner = lt + " "@ + op.spec_symbol() + " "@ + rt;
                let ghost s0 = stream@;
                if proc > p {
                    stream.write("(");
                }
                let ghost s1 = stream@;
                self.emit_expr_proc(lhs, stream, p);
                stream.write(" ");
                stream.write(op.symbol());
                stream.write(" ");
                self.emit_expr_proc(rhs, stream, p);
                assert(stream@ =~= s1 + inner);
                if proc > p {
                    stream.write(")");
                    assert(stream@ =~= s0 + ("("@ + inner + ")"@));
                } else {
                    assert(stream@ =~= s0 + inner);
                }
            },
            _ => {},
        }
    }

    /// Prints a function literal: header with parameter names, then its body.
    fn emit_fn(&mut self, expr: &Expr, stream: &mut Stream)
        requires
            expr is Fn,
            old(self).depth() + expr_nest(*expr) <= usize::MAX,
        ensures
            *final(self) == *old(self),
            final(stream)@ == old(stream)@ + expr_text(*expr, 0, old(self).depth(), old(self).unit()),
        decreases expr, 0nat,
    {
        match expr {
            Expr::Fn(fname, fargs, _, fbody) => {
                stream.write("function ");
                stream.write(fname.as_str());
                stream.write("(");
                let ghost s0 = stream@;
                if fargs.len() > 0 {
                    stream.write(fargs[0].0.as_str());
                    let mut i: usize = 1;
                    while i < fargs.len()
                        invariant
                            1 <= i <= fargs.len(),
                            stream@ == s0 + params_text(fargs@.subrange(0, i as int)),
                        decreases fargs.len() - i,
                    {
                        stream.write(", ");
                        stream.write(fargs[i].0.as_str());
                        proof {
                            assert(fargs@.subrange(0, i + 1).drop_last() =~= fargs@.subrange(0, i as int));
                        }
                        i += 1;
                    }
                    assert(fargs@.subrange(0, fargs.len() as int) =~= fargs@);
                }
                stream.write(") {\r\n");
                self.emit_block_internal(fbody, stream);
                self.emit_ident(stream);
                stream.write("}");
            },
            _ => {},
        }
    }

    /// Prints a call: callee, then arguments separated by commas.
    #[verifier::loop_isolation(false)]
    fn emit_call(&mut self, expr: &Expr, stream: &mut Stream)
        requires
            expr is Call,
            old(self).depth() + expr_nest(*expr) <= usize::MAX,
        ensures
            *final(self) == *old(self),
            final(stream)@ == old(stream)@ + expr_text(*expr, 0, old(self).depth(), old(self).unit()),
        decreases expr, 0nat,
    {
        match expr {
            Expr::Call(callable, fargs) => {
                let ghost s_start = stream@;
                self.emit_expr(callable, stream);
                stream.write("(");
                let ghost s0 = stream@;
                if fargs.len() > 0 {
                    proof {
                        lemma_args_nest_elem(fargs@, 0);
                    }
                    self.emit_expr(&fargs[0], stream);
                    let mut i: usize = 1;
                    while i < fargs.len()
                        invariant
                            1 <= i <= fargs.len(),
                            *self == *old(self),
                            old(self).depth() + args_nest(fargs@) <= usize::MAX,
                            stream@ == s0 + args_text(fargs@.subrange(0, i as int), self.depth(), self.unit()),
                        decreases fargs.len() - i,
                    {
                        stream.write(", ");
                        proof {
                            lemma_args_nest_elem(fargs@, i as int);
                        }
                        self.emit_expr(&fargs[i], stream);
                        proof {
                            assert(fargs@.subrange(0, i + 1).drop_last() =~= fargs@.subrange(0, i as int));
                        }
                        i += 1;
                    }
                    assert(fargs@.subrange(0, fargs.len() as int) =~= fargs@);
                }
                stream.write(")");
                proof {
                    let d = old(self).depth();
                    let u = old(self).unit();
                    assert(stream@ =~= s_start + (expr_text(**callable, 0, d, u) + "("@ + args_text(fargs@, d, u)
                        + ")"@));
                }
            },
            _ => {},
        }
    }

    /// Prints `expr` at the root precedence, so that it is never wrapped in
    /// parentheses as a whole.
    pub fn emit_expr(&mut self, expr: &Expr, stream: &mut Stream)
        requires
            old(self).depth() + expr_nest(*expr) <= usize::MAX,
        ensures
            *final(self) == *old(self),
            final(stream)@ == old(stream)@ + expr_text(*expr, 0, old(self).depth(), old(self).unit()),
        decreases expr, 2nat,
    {
        self.emit_expr_proc(expr, stream, 0);
    }

    /// Prints one statement on its own line; `ret` marks the tail of a scope.
    fn emit_stmt(&mut self, stmt: &Stmt, stream: &mut Stream, ret: bool)
        requires
            old(self).depth() + stmt_nest(*stmt) <= usize::MAX,
        ensures
            *final(self) == *old(self),
            final(stream)@ == old(stream)@ + stmt_text(*stmt, ret, old(self).depth(), old(self).unit()),
        decreases stmt, 0nat,
    {
        self.emit_ident(stream);
        match stmt {
            Stmt::Let(pattern, value) => {
                stream.write("let ");
                stream.write(pattern.as_str());
                if let Some(vvalue) = value {
                    stream.write(" = ");
                    self.emit_expr(vvalue, stream);
                }
                stream.write(";\r\n");
            },
            Stmt::Expr(e) => {
                if ret {
                    stream.write("return ");
                }
                self.emit_expr(e, stream);
                stream.write(";\r\n");
            },
            Stmt::Break => stream.write("break;\r\n"),
            Stmt::Continue => stream.write("continue;\r\n"),
            Stmt::Return(value) => {
                stream.write("return");
                if let Some(vv) = value {
                    stream.write(" ");
                    self.emit_expr(vv, stream);
                }
                stream.write(";\r\n");
            },
        }
    }

    /// Prints a scope body one level deeper, the last statement in tail position.
    fn emit_block_internal(&mut self, block: &Vec<Stmt>, stream: &mut Stream)
        requires
            old(self).depth() + scope_nest(block@) <= usize::MAX,
        ensures
            *final(self) == *old(self),
            final(stream)@ == old(stream)@ + body_text(block@, old(self).depth(), old(self).unit()),
        decreases block, 0nat,
    {
        let n = block.len();
        if n > 0 {
            self.begin();
            let mut i: usize = 0;
            while i < n - 1
                invariant
                    n == block.len(),
                    0 < n,
                    i <= n - 1,
                    self.ident == old(self).ident + 1,
                    self.ident_str == old(self).ident_str,
                    old(self).depth() + scope_nest(block@) <= usize::MAX,
                    stream@ == old(stream)@ + plain_stmts(block@.subrange(0, i as int), self.depth(), self.unit()),
                decreases n - 1 - i,
            {
                proof {
                    lemma_stmts_nest_elem(block@, i as int);
                }
                self.emit_stmt(&block[i], stream, false);
                proof {
                    assert(block@.subrange(0, i + 1).drop_last() =~= block@.subrange(0, i as int));
                }
                i += 1;
            }
            proof {
                lemma_stmts_nest_elem(block@, n - 1);
                assert(block@.subrange(0, n - 1) =~= block@.drop_last());
            }
            self.emit_stmt(&block[n - 1], stream, true);
            self.close();
        }
    }

    /// Prints a statement sequence as an immediately-invoked closure.
    fn emit_block(&mut self, block: &Vec<Stmt>, stream: &mut Stream)
        requires
            old(self).depth() + scope_nest(block@) <= usize::MAX,
        ensures
            *final(self) == *old(self),
            final(stream)@ == old(stream)@ + block_text(block@, old(self).depth(), old(self).unit()),
        decreases block, 1nat,
    {
        stream.write("(() => {\r\n");
        self.emit_block_internal(block, stream);
        self.emit_ident(stream);
        stream.write("})()");
    }

    /// Prints a whole program as one scope lowered to an immediately-invoked
    /// closure; the indentation depth is the same afterwards.
    pub fn emit(&mut self, ast: &Program, stream: &mut Stream)
        requires
            old(self).depth() + scope_nest(ast.stmts@) <= usize::MAX,
        ensures
            final(self).depth() == old(self).depth(),
            final(self).unit() == old(self).unit(),
            final(stream)@ == old(stream)@ + block_text(ast.stmts@, old(self).depth(), old(self).unit()),
    {
        self.emit_block(&ast.stmts, stream);
    }
}

} // verus!
