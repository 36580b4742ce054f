use jsemit::ast::{BinOp, Expr, Program, Stmt};
use jsemit::emitter::JSEmitter;
use jsemit::stream::Stream;

fn var(n: &str) -> Expr {
    Expr::Var(n.to_string())
}

fn num(x: i64) -> Expr {
    Expr::Num(x)
}

fn bin(op: BinOp, l: Expr, r: Expr) -> Expr {
    Expr::Binary(op, Box::new(l), Box::new(r))
}

fn expr_out(e: &Expr) -> String {
    let mut em = JSEmitter::new("  ");
    let mut s = Stream::new();
    em.emit_expr(e, &mut s);
    s.as_str().to_string()
}

fn prog_out(stmts: Vec<Stmt>, unit: &str) -> String {
    let mut em = JSEmitter::new(unit);
    let mut s = Stream::new();
    em.emit(&Program { stmts }, &mut s);
    s.as_str().to_string()
}

#[test]
fn precedence_no_parens_for_tighter_child() {
    let e = bin(BinOp::Add, num(1), bin(BinOp::Mul, num(2), num(3)));
    assert_eq!(expr_out(&e), "1 + 2 * 3");
}

#[test]
fn precedence_parens_for_looser_child() {
    let e = bin(BinOp::Mul, bin(BinOp::Add, num(1), num(2)), num(3));
    assert_eq!(expr_out(&e), "(1 + 2) * 3");
}

#[test]
fn precedence_right_operand_parenthesised() {
    let e = bin(BinOp::Mul, var("a"), bin(BinOp::Sub, var("b"), var("c")));
    assert_eq!(expr_out(&e), "a * (b - c)");
}

#[test]
fn minimal_parens_equal_precedence() {
    let e = bin(BinOp::Sub, bin(BinOp::Add, var("a"), var("b")), var("c"));
    assert_eq!(expr_out(&e), "a + b - c");
}

#[test]
fn minimal_parens_across_levels() {
    let e = bin(
        BinOp::Assign,
        var("x"),
        bin(
            BinOp::Or,
            bin(BinOp::And, bin(BinOp::Eq, var("a"), var("b")), bin(BinOp::Les, var("c"), var("d"))),
            bin(BinOp::Neq, var("e"), bin(BinOp::Div, var("f"), var("g"))),
        ),
    );
    assert_eq!(expr_out(&e), "x = a === b && c < d || e !== f / g");
}

#[test]
fn parens_chain_of_looser_operators() {
    let e = bin(
        BinOp::Div,
        bin(BinOp::Geq, var("a"), var("b")),
        bin(BinOp::Assign, var("c"), bin(BinOp::Leq, var("d"), bin(BinOp::Grt, var("e"), var("f")))),
    );
    assert_eq!(expr_out(&e), "(a >= b) / (c = d <= e > f)");
}

#[test]
fn indentation_balanced_after_emit() {
    let mut em = JSEmitter::new("  ");
    assert_eq!(em.indent_depth(), 0);
    let mut s = Stream::new();
    let inner = Expr::Block(vec![Stmt::Expr(Expr::Block(vec![Stmt::Expr(num(1))]))]);
    em.emit(&Program { stmts: vec![Stmt::Expr(inner)] }, &mut s);
    assert_eq!(em.indent_depth(), 0);
    let f = Expr::Fn("f".to_string(), vec![], "int".to_string(), vec![Stmt::Expr(num(2))]);
    em.emit_expr(&f, &mut s);
    assert_eq!(em.indent_depth(), 0);
}

#[test]
fn empty_block_lowering() {
    assert_eq!(expr_out(&Expr::Block(vec![])), "(() => {\r\n})()");
    assert_eq!(prog_out(vec![], "  "), "(() => {\r\n})()");
}

#[test]
fn tail_return_in_function_body() {
    let f = Expr::Fn(
        "f".to_string(),
        vec![("a".to_string(), "int".to_string()), ("b".to_string(), "int".to_string())],
        "int".to_string(),
        vec![Stmt::Expr(bin(BinOp::Add, var("a"), var("b")))],
    );
    assert_eq!(expr_out(&f), "function f(a, b) {\r\n  return a + b;\r\n}");
}

#[test]
fn tail_return_in_nested_block() {
    let b = Expr::Block(vec![Stmt::Expr(bin(BinOp::Add, var("a"), var("b")))]);
    assert_eq!(expr_out(&b), "(() => {\r\n  return a + b;\r\n})()");
}

#[test]
fn only_last_expression_statement_returns() {
    let out = prog_out(vec![Stmt::Expr(var("a")), Stmt::Expr(var("b"))], "  ");
    assert_eq!(out, "(() => {\r\n  a;\r\n  return b;\r\n})()");
}

#[test]
fn conditional_without_else() {
    let e = Expr::IfElse(Box::new(var("c")), vec![Stmt::Expr(var("x"))], None);
    let out = expr_out(&e);
    assert_eq!(out, "(() => { if (c) { return (() => {\r\n  return x;\r\n})(); }})()");
    assert!(!out.contains("else"));
}

#[test]
fn conditional_with_else() {
    let e = Expr::IfElse(
        Box::new(bin(BinOp::Grt, var("a"), num(0))),
        vec![Stmt::Expr(num(1))],
        Some(vec![Stmt::Expr(num(2))]),
    );
    assert_eq!(
        expr_out(&e),
        "(() => { if (a > 0) { return (() => {\r\n  return 1;\r\n})(); } else { return (() => {\r\n  return 2;\r\n})(); }})()"
    );
}

#[test]
fn declaration_with_initializer() {
    let out = prog_out(vec![Stmt::Let("x".to_string(), Some(num(5)))], "  ");
    assert_eq!(out, "(() => {\r\n  let x = 5;\r\n})()");
}

#[test]
fn declaration_without_initializer() {
    let out = prog_out(vec![Stmt::Let("y".to_string(), None), Stmt::Expr(var("y"))], "  ");
    assert_eq!(out, "(() => {\r\n  let y;\r\n  return y;\r\n})()");
}

#[test]
fn call_printing() {
    let e = Expr::Call(Box::new(var("add")), vec![var("a"), var("b")]);
    assert_eq!(expr_out(&e), "add(a, b)");
}

#[test]
fn call_without_arguments() {
    let e = Expr::Call(Box::new(var("f")), vec![]);
    assert_eq!(expr_out(&e), "f()");
}

#[test]
fn call_arguments_at_root_precedence() {
    let e = Expr::Call(
        Box::new(var("g")),
        vec![bin(BinOp::Assign, var("x"), num(1)), bin(BinOp::Mul, bin(BinOp::Add, num(1), num(2)), num(3)), var("z")],
    );
    assert_eq!(expr_out(&e), "g(x = 1, (1 + 2) * 3, z)");
}

#[test]
fn jump_and_return_statements() {
    let out = prog_out(
        vec![Stmt::Break, Stmt::Continue, Stmt::Return(None), Stmt::Return(Some(var("v")))],
        "  ",
    );
    assert_eq!(out, "(() => {\r\n  break;\r\n  continue;\r\n  return;\r\n  return v;\r\n})()");
}

#[test]
fn nested_scope_indentation_with_tab_unit() {
    let inner = Expr::Block(vec![Stmt::Expr(num(1))]);
    let out = prog_out(vec![Stmt::Let("v".to_string(), Some(inner))], "\t");
    assert_eq!(out, "(() => {\r\n\tlet v = (() => {\r\n\t\treturn 1;\r\n\t})();\r\n})()");
}

#[test]
fn function_in_scope_indents_closing_brace() {
    let f = Expr::Fn("h".to_string(), vec![("p".to_string(), "T".to_string())], "T".to_string(), vec![
        Stmt::Let("q".to_string(), Some(var("p"))),
        Stmt::Expr(var("q")),
    ]);
    let out = prog_out(vec![Stmt::Expr(f)], "  ");
    assert_eq!(
        out,
        "(() => {\r\n  return function h(p) {\r\n    let q = p;\r\n    return q;\r\n  };\r\n})()"
    );
}

#[test]
fn function_without_parameters_or_body() {
    let f = Expr::Fn("g".to_string(), vec![], "void".to_string(), vec![]);
    assert_eq!(expr_out(&f), "function g() {\r\n}");
}

#[test]
fn number_literals() {
    assert_eq!(expr_out(&num(0)), "0");
    assert_eq!(expr_out(&num(7)), "7");
    assert_eq!(expr_out(&num(1200)), "1200");
    assert_eq!(expr_out(&num(-42)), "-42");
    assert_eq!(expr_out(&num(i64::MAX)), "9223372036854775807");
    assert_eq!(expr_out(&num(i64::MIN)), "-9223372036854775808");
}

#[test]
fn variable_printed_verbatim() {
    assert_eq!(expr_out(&var("$tmp_1")), "$tmp_1");
}

#[test]
fn stream_appends_in_order() {
    let mut s = Stream::new();
    assert_eq!(s.as_str(), "");
    s.write("ab");
    s.write("cd");
    assert_eq!(s.as_str(), "abcd");
}

#[test]
fn emit_appends_after_existing_text() {
    let mut em = JSEmitter::new("  ");
    let mut s = Stream::new();
    s.write("x = ");
    em.emit_expr(&num(3), &mut s);
    em.emit(&Program { stmts: vec![] }, &mut s);
    assert_eq!(s.as_str(), "x = 3(() => {\r\n})()");
}

#[test]
fn right_nested_equal_precedence_is_printed_bare() {
    let e = bin(BinOp::Sub, var("a"), bin(BinOp::Sub, var("b"), var("c")));
    assert_eq!(expr_out(&e), "a - b - c");
    let a = bin(BinOp::Assign, var("a"), bin(BinOp::Assign, var("b"), var("c")));
    assert_eq!(expr_out(&a), "a = b = c");
}
