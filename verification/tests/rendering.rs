use seva::types::{BinaryOp, Expr, PostfixOp, PrefixOp, Stmt};

fn num(text: &str) -> Expr {
    Expr::Number(text.to_string())
}

#[test]
fn operators_have_their_symbols() {
    assert_eq!(BinaryOp::Add.symbol(), "+");
    assert_eq!(BinaryOp::Sub.symbol(), "-");
    assert_eq!(BinaryOp::Mul.symbol(), "*");
    assert_eq!(BinaryOp::Div.symbol(), "/");
    assert_eq!(BinaryOp::Rem.symbol(), "%");
    assert_eq!(BinaryOp::Pow.symbol(), "^");
    assert_eq!(PrefixOp::Neg.symbol(), "-");
    assert_eq!(PostfixOp::Fac.symbol(), "!");
}

#[test]
fn expressions_are_rendered_in_infix_form() {
    assert_eq!(num("2.50").to_text(), "2.50");
    assert_eq!(Expr::Variable("x".to_string()).to_text(), "x");
    assert_eq!(Expr::PrevAnswer.to_text(), "_");
    assert_eq!(Expr::FnCall { name: "f".to_string(), args: vec![] }.to_text(), "f()");
    assert_eq!(Expr::FnCall { name: "f".to_string(), args: vec![num("1")] }.to_text(), "f(1)");
    assert_eq!(
        Expr::FnCall { name: "max".to_string(), args: vec![num("1"), num("2"), num("3")] }.to_text(),
        "max(1, 2, 3)"
    );
    assert_eq!(Expr::PrefixOp { op: PrefixOp::Neg, arg: Box::new(num("1")) }.to_text(), "(-1)");
    assert_eq!(Expr::PostfixOp { op: PostfixOp::Fac, arg: Box::new(num("3")) }.to_text(), "(3!)");
    assert_eq!(Expr::infix(BinaryOp::Rem, num("7"), num("3")).to_text(), "(7 % 3)");
    assert_eq!(
        Expr::infix(BinaryOp::Div, Expr::infix(BinaryOp::Sub, num("1"), num("2")), num("3")).to_text(),
        "((1 - 2) / 3)"
    );
}

#[test]
fn statements_are_rendered_as_typed() {
    assert_eq!(Stmt::Expr(num("1")).to_text(), "1");
    assert_eq!(Stmt::DefVar { name: "x".to_string(), expr: num("1") }.to_text(), "let x = 1");
    assert_eq!(
        Stmt::DefFun { name: "f".to_string(), arg_names: vec![], body: num("1") }.to_text(),
        "let f() = 1"
    );
    assert_eq!(
        Stmt::DefFun {
            name: "f".to_string(),
            arg_names: vec!["a".to_string(), "b".to_string()],
            body: Expr::infix(BinaryOp::Add, Expr::Variable("a".to_string()), Expr::Variable("b".to_string())),
        }
        .to_text(),
        "let f(a, b) = (a + b)"
    );
}
