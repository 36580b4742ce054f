use vstd::prelude::*;

verus! {

/// The binary operators, each with a fixed precedence and a symbol in the target syntax.
#[derive(Clone, Copy, Debug, PartialEq, Eq, Structural)]
pub enum BinOp {
    Assign,
    Or,
    And,
    Neq,
    Eq,
    Grt,
    Geq,
    Les,
    Leq,
    Add,
    Sub,
    Mul,
    Div,
}

impl BinOp {
    /// Binding strength: assignment binds loosest, multiplication tightest.
    pub open spec fn spec_prec(self) -> u8 {
        match self {
            BinOp::Assign => 16,
            BinOp::Or => 17,
            BinOp::And => 18,
            BinOp::Neq | BinOp::Eq => 19,
            BinOp::Grt | BinOp::Geq | BinOp::Les | BinOp::Leq => 20,
            BinOp::Add | BinOp::Sub => 21,
            BinOp::Mul | BinOp::Div => 22,
        }
    }

    /// The operator's text in the target syntax.
    pub open spec fn spec_symbol(self) -> Seq<char> {
        match self {
            BinOp::Assign => "="@,
            BinOp::Or => "||"@,
            BinOp::And => "&&"@,
            BinOp::Neq => "!=="@,
            BinOp::Eq => "==="@,
            BinOp::Grt => ">"@,
            BinOp::Geq => ">="@,
            BinOp::Les => "<"@,
            BinOp::Leq => "<="@,
            BinOp::Add => "+"@,
            BinOp::Sub => "-"@,
            BinOp::Mul => "*"@,
            BinOp::Div => "/"@,
        }
    }

    pub fn prec(&self) -> (r: u8)
        ensures
            r == self.spec_prec(),
    {
        match self {
            BinOp::Assign => 16,
            BinOp::Or => 17,
            BinOp::And => 18,
            BinOp::Neq | BinOp::Eq => 19,
            BinOp::Grt | BinOp::Geq | BinOp::Les | BinOp::Leq => 20,
            BinOp::Add | BinOp::Sub => 21,
            BinOp::Mul | BinOp::Div => 22,
        }
    }

    pub fn symbol(&self) -> (r: &'static str)
        ensures
            r@ == self.spec_symbol(),
    {
        match self {
            BinOp::Assign => "=",
            BinOp::Or => "||",
            BinOp::And => "&&",
            BinOp::Neq => "!==",
            BinOp::Eq => "===",
            BinOp::Grt => ">",
            BinOp::Geq => ">=",
            BinOp::Les => "<",
            BinOp::Leq => "<=",
            BinOp::Add => "+",
            BinOp::Sub => "-",
            BinOp::Mul => "*",
            BinOp::Div => "/",
        }
    }
}

/// An expression of the source language.
#[derive(Debug)]
pub enum Expr {
    /// Operator, left operand, right operand.
    Binary(BinOp, Box<Expr>, Box<Expr>),
    /// A variable reference, printed verbatim.
    Var(String),
    /// An integer literal.
    Num(i64),
    /// A nested scope used as a value.
    Block(Vec<Stmt>),
    /// Condition, then-branch, optional else-branch.
    IfElse(Box<Expr>, Vec<Stmt>, Option<Vec<Stmt>>),
    /// Name, parameters as (name, type annotation), return type annotation, body.
    /// The annotations are not printed.
    Fn(String, Vec<(String, String)>, String, Vec<Stmt>),
    /// Callee and arguments.
    Call(Box<Expr>, Vec<Expr>),
}

/// A statement of the source language.
#[derive(Debug)]
pub enum Stmt {
    Let(String, Option<Expr>),
    Expr(Expr),
    Break,
    Continue,
    Return(Option<Expr>),
}

/// A whole program: its top-level statements in order.
#[derive(Debug)]
pub struct Program {
    pub stmts: Vec<Stmt>,
}

} // verus!
