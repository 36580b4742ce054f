use vstd::prelude::*;
use crate::ast::{BinOp, Expr};
use crate::text::{expr_text, num_text};

verus! {

/// A lexical token of printed binary expressions.
pub enum Tok {
    /// A variable or a number literal.
    Atom(Expr),
    Op(BinOp),
    Open,
    Close,
}

/// Trees of binary operators over variables and number literals whose
/// grouping survives printing: no right operand is a
/// bare operator of its parent's precedence (it would print without
/// parentheses and regroup to the left), and no assignment is the left
/// operand of an assignment (assignment groups to the right in the target).
pub open spec fn keeps_grouping(e: Expr) -> bool
    decreases e,
{
    match e {
        Expr::Binary(op, l, r) => {
            &&& keeps_grouping(*l)
            &&& keeps_grouping(*r)
            &&& !(*r matches Expr::Binary(rop, _, _) && rop.spec_prec() == op.spec_prec())
            &&& !(op == BinOp::Assign && *l matches Expr::Binary(BinOp::Assign, _, _))
        },
        Expr::Var(_) => true,
        Expr::Num(_) => true,
        _ => false,
    }
}

/// The tokens of `e` printed in a context of precedence `ctx`.
pub open spec fn tokens(e: Expr, ctx: nat) -> Seq<Tok>
    decreases e,
{
    match e {
        Expr::Binary(op, l, r) => {
            let p = op.spec_prec() as nat;
            let inner = tokens(*l, p) + seq![Tok::Op(op)] + tokens(*r, p);
            if ctx > p {
                seq![Tok::Open] + inner + seq![Tok::Close]
            } else {
                inner
            }
        },
        _ => seq![Tok::Atom(e)],
    }
}

/// The text of one token.
pub open spec fn tok_text(t: Tok) -> Seq<char> {
    match t {
        Tok::Atom(Expr::Var(n)) => n@,
        Tok::Atom(Expr::Num(x)) => num_text(x as int),
        Tok::Atom(_) => Seq::empty(),
        Tok::Op(op) => " "@ + op.spec_symbol() + " "@,
        Tok::Open => "("@,
        Tok::Close => ")"@,
    }
}

/// The text of a token sequence.
pub open spec fn render(ts: Seq<Tok>) -> Seq<char>
    decreases ts.len(),
{
    if ts.len() == 0 {
        Seq::empty()
    } else {
        render(ts.drop_last()) + tok_text(ts.last())
    }
}

/// Precedence-climbing parser: an operand, then operators binding at least
/// as tightly as `min`, each grouping to the left. Returns the tree and the
/// tokens left over.
pub open spec fn parse_expr(ts: Seq<Tok>, min: nat) -> Option<(Expr, Seq<Tok>)>
    decreases ts.len(), 1nat,
{
    match parse_primary(ts) {
        Some((a, r)) => if r.len() < ts.len() {
            climb(a, r, min)
        } else {
            None
        },
        None => None,
    }
}

/// An atom, or a parenthesised expression.
pub open spec fn parse_primary(ts: Seq<Tok>) -> Option<(Expr, Seq<Tok>)>
    decreases ts.len(), 0nat,
{
    if ts.len() == 0 {
        None
    } else {
        match ts[0] {
            Tok::Atom(a) => Some((a, ts.drop_first())),
            Tok::Open => match parse_expr(ts.drop_first(), 0) {
                Some((e, r)) => if r.len() > 0 && r[0] == Tok::Close {
                    Some((e, r.drop_first()))
                } else {
                    None
                },
                None => None,
            },
            _ => None,
        }
    }
}

/// Extends `lhs` to the left-grouped expression formed by the operators in
/// front of `ts` that bind at least as tightly as `min`.
pub open spec fn climb(lhs: Expr, ts: Seq<Tok>, min: nat) -> Option<(Expr, Seq<Tok>)>
    decreases ts.len(), 2nat,
{
    if ts.len() > 0 && ts[0] is Op && ts[0]->Op_0.spec_prec() >= min {
        let op = ts[0]->Op_0;
        match parse_expr(ts.drop_first(), op.spec_prec() as nat + 1) {
            Some((rhs, r)) => if r.len() < ts.len() {
                climb(Expr::Binary(op, Box::new(lhs), Box::new(rhs)), r, min)
            } else {
                None
            },
            None => None,
        }
    } else {
        Some((lhs, ts))
    }
}

proof fn lemma_render_single(t: Tok)
    ensures
        render(seq![t]) == tok_text(t),
{
    let s = seq![t];
    assert(s.drop_last() =~= Seq::<Tok>::empty());
    assert(render(Seq::<Tok>::empty()) == Seq::<char>::empty());
    assert(render(s) =~= tok_text(t));
}

proof fn lemma_render_append(a: Seq<Tok>, b: Seq<Tok>)
    ensures
        render(a + b) == render(a) + render(b),
    decreases b.len(),
{
    if b.len() == 0 {
        assert(a + b =~= a);
        assert(render(b) =~= Seq::<char>::empty());
        assert(render(a) + render(b) =~= render(a));
    } else {
        assert((a + b).drop_last() =~= a + b.drop_last());
        lemma_render_append(a, b.drop_last());
        assert(render(a) + render(b) =~= render(a) + render(b.drop_last()) + tok_text(b.last()));
    }
}

proof fn lemma_text_is_render(e: Expr, ctx: u8, d: nat, unit: Seq<char>)
    requires
        keeps_grouping(e),
    ensures
        expr_text(e, ctx, d, unit) == render(tokens(e, ctx as nat)),
    decreases e,
{
    match e {
        Expr::Binary(op, l, r) => {
            let p = op.spec_prec();
            lemma_text_is_render(*l, p, d, unit);
            lemma_text_is_render(*r, p, d, unit);
            let tl = tokens(*l, p as nat);
            let tr = tokens(*r, p as nat);
            let o = seq![Tok::Op(op)];
            lemma_render_append(tl, o);
            lemma_render_append(tl + o, tr);
            lemma_render_single(Tok::Op(op));
            let inner = tl + o + tr;
            let ti = render(inner);
            assert(ti =~= expr_text(*l, p, d, unit) + " "@ + op.spec_symbol() + " "@ + expr_text(*r, p, d, unit));
            if ctx > p {
                let c = seq![Tok::Close];
                let b = seq![Tok::Open];
                lemma_render_append(b, inner);
                lemma_render_append(b + inner, c);
                lemma_render_single(Tok::Open);
                lemma_render_single(Tok::Close);
                assert(render(tokens(e, ctx as nat)) =~= "("@ + ti + ")"@);
            }
        },
        _ => {
            lemma_render_single(Tok::Atom(e));
        },
    }
}

/// How tightly the tokens of `e` printed at `ctx` hold together: the
/// precedence of a bare operator at the root, else the most.
pub open spec fn bind(e: Expr, ctx: nat) -> nat {
    match e {
        Expr::Binary(op, _, _) => if ctx <= op.spec_prec() {
            op.spec_prec() as nat
        } else {
            24
        },
        _ => 24,
    }
}

/// `rest` does not begin with an operator binding tighter than `b`.
pub open spec fn follows(rest: Seq<Tok>, b: nat) -> bool {
    !(rest.len() > 0 && rest[0] is Op && rest[0]->Op_0.spec_prec() > b)
}

proof fn lemma_parse_tokens(e: Expr, c: nat, m: nat, rest: Seq<Tok>)
    requires
        keeps_grouping(e),
        m <= bind(e, c),
        follows(rest, bind(e, c)),
    ensures
        parse_expr(tokens(e, c) + rest, m) == climb(e, rest, m),
    decreases e, (if bind(e, c) == 24 && e is Binary { 1nat } else { 0nat }),
{
    let ts = tokens(e, c) + rest;
    match e {
        Expr::Binary(op, l, r) => {
            let p = op.spec_prec() as nat;
            let tl = tokens(*l, p);
            let tr = tokens(*r, p);
            if c <= p {
                let x = seq![Tok::Op(op)] + tr + rest;
                assert(ts =~= tl + x);
                lemma_parse_tokens(*l, p, m, x);
                assert(x.drop_first() =~= tr + rest);
                lemma_parse_tokens(*r, p, p + 1, rest);
                assert(climb(*r, rest, p + 1) == Some((*r, rest)));
            } else {
                let inner = tokens(e, p);
                let rest2 = seq![Tok::Close] + rest;
                lemma_parse_tokens(e, p, 0, rest2);
                assert(climb(e, rest2, 0) == Some((e, rest2)));
                assert(ts.drop_first() =~= inner + rest2);
                assert(rest2.drop_first() =~= rest);
                assert(parse_primary(ts) == Some((e, rest)));
            }
        },
        _ => {
            assert(ts.drop_first() =~= rest);
        },
    }
}

/// Printing keeps the grouping of operators: for a tree of binary operators
/// over variables and literals whose grouping survives printing, the text
/// is the rendering of its tokens, and precedence parsing of those tokens
/// gives back the same tree with nothing left over.
pub proof fn lemma_reparse_keeps_grouping(e: Expr, d: nat, unit: Seq<char>)
    requires
        keeps_grouping(e),
    ensures
        expr_text(e, 0, d, unit) == render(tokens(e, 0)),
        parse_expr(tokens(e, 0), 0) == Some((e, Seq::<Tok>::empty())),
{
    lemma_text_is_render(e, 0, d, unit);
    lemma_parse_tokens(e, 0, 0, Seq::empty());
    assert(tokens(e, 0) + Seq::<Tok>::empty() =~= tokens(e, 0));
}

} // verus!
