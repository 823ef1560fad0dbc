use seva::context::{AngleUnit, Context};
use seva::eval::{eval, EvalError, Operation};
use seva::models::Value;
use seva::parser::parser;
use seva::types::BinaryOp;

fn number(v: Value) -> f64 {
    f64::from_bits(v.bits)
}

fn value(x: f64) -> Value {
    Value { bits: x.to_bits() }
}

fn arithmetic(op: Operation) -> Value {
    match op {
        Operation::Literal(text) => value(text.parse::<f64>().unwrap()),
        Operation::Infix(op, lhs, rhs) => {
            let (a, b) = (number(lhs), number(rhs));
            value(match op {
                BinaryOp::Add => a + b,
                BinaryOp::Sub => a - b,
                BinaryOp::Mul => a * b,
                BinaryOp::Div => a / b,
                BinaryOp::Rem => a.rem_euclid(b),
                BinaryOp::Pow => a.powf(b),
            })
        }
        Operation::Builtin(name, args) => match name.as_str() {
            "sqrt" => value(number(args[0]).sqrt()),
            "max" => value(number(args[0]).max(number(args[1]))),
            _ => panic!("no such builtin"),
        },
    }
}

fn session() -> Context {
    let mut context = Context::new(10, 10, AngleUnit::Radian);
    context.set_builtin("sqrt".to_string(), 1);
    context.set_builtin("max".to_string(), 2);
    context.set_external("pi".to_string(), value(std::f64::consts::PI));
    context
}

fn run(context: &mut Context, line: &str) -> Result<f64, EvalError> {
    let stmt = parser(line).unwrap();
    eval(stmt, context, &arithmetic).map(number)
}

fn once(line: &str) -> Result<f64, EvalError> {
    run(&mut session(), line)
}

#[test]
fn product_binds_tighter_than_sum() {
    assert_eq!(once("2+3*4"), Ok(14.0));
    assert_eq!(once("2*3+4"), Ok(10.0));
}

#[test]
fn power_groups_from_the_right() {
    assert_eq!(once("2^3^2"), Ok(512.0));
    assert_eq!(once("2**3**2"), Ok(512.0));
    assert_eq!(once("(2^3)^2"), Ok(64.0));
}

#[test]
fn juxtaposition_multiplies_and_a_sign_subtracts() {
    assert_eq!(once("2 3"), Ok(6.0));
    assert_eq!(once("3 -2"), Ok(1.0));
    assert_eq!(once("3 +2"), Ok(5.0));
    assert_eq!(once("2 pi"), Ok(2.0 * std::f64::consts::PI));
    assert_eq!(once("2(3+4)"), Ok(14.0));
    assert_eq!(once("2 3 4"), Ok(24.0));
}

#[test]
fn remainder_is_euclidean() {
    assert_eq!(once("-1 % 3"), Ok(2.0));
    assert_eq!(once("7 % -3"), Ok(1.0));
    assert!(once("1 % 0").unwrap().is_nan());
}

#[test]
fn division_by_zero_is_no_error() {
    assert_eq!(once("1/0"), Ok(f64::INFINITY));
    assert!(once("0/0").unwrap().is_nan());
}

#[test]
fn a_defined_function_is_called() {
    let mut context = session();
    assert!(run(&mut context, "let f(x) = x^2 + 1").unwrap().is_nan());
    assert_eq!(run(&mut context, "f(3)"), Ok(10.0));
    assert_eq!(run(&mut context, "f(f(1))"), Ok(5.0));
}

#[test]
fn a_variable_is_bound_again() {
    let mut context = session();
    assert_eq!(run(&mut context, "let x = 1"), Ok(1.0));
    assert_eq!(run(&mut context, "let x = x + 1"), Ok(2.0));
    assert_eq!(run(&mut context, "x"), Ok(2.0));
    assert_eq!(context.get_variable("x").map(number), Some(2.0));
}

#[test]
fn an_unbound_name_is_undefined() {
    assert_eq!(once("y"), Err(EvalError::Undefined("y".to_string())));
    assert_eq!(once("1 + y * 2"), Err(EvalError::Undefined("y".to_string())));
    assert_eq!(once("g(1)"), Err(EvalError::Undefined("g".to_string())));
}

#[test]
fn the_previous_answer_is_kept() {
    let mut context = session();
    assert_eq!(run(&mut context, "_"), Err(EvalError::Undefined("_".to_string())));
    assert_eq!(run(&mut context, "2+2"), Ok(4.0));
    assert_eq!(run(&mut context, "_*2"), Ok(8.0));
    assert_eq!(run(&mut context, "_*2"), Ok(16.0));
    assert_eq!(run(&mut context, "let x = 1"), Ok(1.0));
    assert_eq!(run(&mut context, "_"), Ok(16.0));
    assert_eq!(run(&mut context, "nothing"), Err(EvalError::Undefined("nothing".to_string())));
    assert_eq!(run(&mut context, "_"), Ok(16.0));
}

#[test]
fn a_wrong_number_of_arguments_is_an_arity_mismatch() {
    let mut context = session();
    run(&mut context, "let f(x) = x").unwrap();
    assert_eq!(
        run(&mut context, "f(1, 2)"),
        Err(EvalError::ArityMismatch { name: "f".to_string(), expected: 1, got: 2 })
    );
    assert_eq!(
        run(&mut context, "f()"),
        Err(EvalError::ArityMismatch { name: "f".to_string(), expected: 1, got: 0 })
    );
    assert_eq!(
        run(&mut context, "sqrt(1, 2)"),
        Err(EvalError::ArityMismatch { name: "sqrt".to_string(), expected: 1, got: 2 })
    );
}

#[test]
fn arguments_come_before_the_call() {
    let mut context = session();
    run(&mut context, "let f(x) = x").unwrap();
    assert_eq!(run(&mut context, "f(y, 2)"), Err(EvalError::Undefined("y".to_string())));
    assert_eq!(run(&mut context, "g(y)"), Err(EvalError::Undefined("y".to_string())));
    assert_eq!(run(&mut context, "f(a) + f(b)"), Err(EvalError::Undefined("a".to_string())));
}

#[test]
fn builtins_come_before_session_functions() {
    let mut context = session();
    assert!(run(&mut context, "let sqrt(x) = x").unwrap().is_nan());
    assert_eq!(run(&mut context, "sqrt(16)"), Ok(4.0));
    assert_eq!(run(&mut context, "max(1, sqrt(9))"), Ok(3.0));
}

#[test]
fn parameters_shadow_variables_for_the_call_only() {
    let mut context = session();
    run(&mut context, "let x = 10").unwrap();
    run(&mut context, "let y = 5").unwrap();
    run(&mut context, "let f(x) = x + y").unwrap();
    assert_eq!(run(&mut context, "f(1)"), Ok(6.0));
    assert_eq!(run(&mut context, "x"), Ok(10.0));
    run(&mut context, "let g(a) = f(a) + x").unwrap();
    assert_eq!(run(&mut context, "g(2)"), Ok(17.0));
    run(&mut context, "let h(a) = k(1)").unwrap();
    run(&mut context, "let k(b) = a").unwrap();
    assert_eq!(run(&mut context, "h(7)"), Err(EvalError::Undefined("a".to_string())));
}

#[test]
fn a_function_body_is_evaluated_at_the_call() {
    let mut context = session();
    run(&mut context, "let f(x) = x + later").unwrap();
    assert_eq!(run(&mut context, "f(1)"), Err(EvalError::Undefined("later".to_string())));
    run(&mut context, "let later = 2").unwrap();
    assert_eq!(run(&mut context, "f(1)"), Ok(3.0));
}

#[test]
fn an_external_variable_keeps_its_value() {
    let mut context = session();
    assert_eq!(run(&mut context, "let pi = 3"), Ok(3.0));
    assert_eq!(run(&mut context, "pi"), Ok(std::f64::consts::PI));
}

#[test]
fn negation_flips_the_sign() {
    assert_eq!(once("-pi"), Ok(-std::f64::consts::PI));
    assert_eq!(once("-(2+3)"), Ok(-5.0));
    assert_eq!(once("-2^2"), Ok(4.0));
    assert_eq!(once("-pi^2"), Ok((-std::f64::consts::PI).powf(2.0)));
    let zero = once("-(0)").unwrap();
    assert!(zero == 0.0 && zero.is_sign_negative());
}

#[test]
fn factorial_of_whole_numbers() {
    assert_eq!(once("0!"), Ok(1.0));
    assert_eq!(once("1!"), Ok(1.0));
    assert_eq!(once("5!"), Ok(120.0));
    assert_eq!(once("(2+1)!"), Ok(6.0));
    assert_eq!(once("3!^2"), Ok(36.0));
    assert_eq!(once("(-0)!"), Ok(1.0));
    let mut expected = 1.0f64;
    for k in 2..=170 {
        expected *= k as f64;
    }
    assert_eq!(once("170!"), Ok(expected));
    assert!(expected.is_finite());
}

fn factorial_failure() -> EvalError {
    EvalError::DomainError {
        operation: "factorial".to_string(),
        detail: "the operand is not a whole number from 0 to 170".to_string(),
    }
}

#[test]
fn factorial_outside_its_domain() {
    assert_eq!(once("171!"), Err(factorial_failure()));
    assert_eq!(once("2.5!"), Err(factorial_failure()));
    assert_eq!(once("-3!"), Err(factorial_failure()));
    assert_eq!(once("(0-1)!"), Err(factorial_failure()));
    assert_eq!(once("inf!"), Err(factorial_failure()));
    assert_eq!(once("nan!"), Err(factorial_failure()));
    assert_eq!(once("1e300!"), Err(factorial_failure()));
    assert_eq!(once("0.5!"), Err(factorial_failure()));
}

fn too_deep() -> EvalError {
    EvalError::DomainError {
        operation: "evaluation".to_string(),
        detail: "nested too deep".to_string(),
    }
}

#[test]
fn endless_recursion_is_an_error() {
    let mut context = session();
    run(&mut context, "let f(x) = f(x + 1)").unwrap();
    assert_eq!(run(&mut context, "f(0)"), Err(too_deep()));
    run(&mut context, "let g(x) = h(x)").unwrap();
    run(&mut context, "let h(x) = -g(x)").unwrap();
    assert_eq!(run(&mut context, "1 + g(0)"), Err(too_deep()));
    assert_eq!(run(&mut context, "2 + 2"), Ok(4.0));
}

#[test]
fn calls_nest_as_deep_as_the_evaluation_may_descend() {
    let mut context = session();
    run(&mut context, "let f0(x) = x").unwrap();
    for k in 1..2100 {
        run(&mut context, &format!("let f{}(x) = f{}(x)", k, k - 1)).unwrap();
    }
    // Each call is one step down to its body, and the name in the last
    // body one more: 2048 steps hold 2047 calls.
    assert_eq!(run(&mut context, "f63(7)"), Ok(7.0));
    assert_eq!(run(&mut context, "f2046(7)"), Ok(7.0));
    assert_eq!(run(&mut context, "f2047(7)"), Err(too_deep()));
    assert_eq!(run(&mut context, "f2099(7)"), Err(too_deep()));
}

#[test]
fn every_line_is_less_deep_than_the_evaluation_may_descend() {
    let mut context = session();
    run(&mut context, "let f(x) = x").unwrap();
    for line in [
        format!("2{}", "^1".repeat(511)),
        format!("1{}", "+1".repeat(511)),
        format!("-({}2{}", "-(".repeat(340), ")".repeat(341)),
        format!("{}2{}", "f(".repeat(340), ")".repeat(340)),
        format!("{}2{}", "(".repeat(511), ")".repeat(511)),
    ] {
        assert!(line.len() <= 1024);
        assert!(run(&mut context, &line).is_ok(), "{}", line);
    }
}

#[test]
fn deep_bodies_in_nested_calls() {
    let mut context = session();
    let wrap = |inner: &str| format!("{}{}{}", "-(".repeat(330), inner, ")".repeat(330));
    run(&mut context, &format!("let f0(x) = {}", wrap("x"))).unwrap();
    for k in 1..64 {
        run(&mut context, &format!("let f{}(x) = {}", k, wrap(&format!("f{}(x)", k - 1)))).unwrap();
    }
    assert_eq!(run(&mut context, "f0(1)"), Ok(1.0));
    assert_eq!(run(&mut context, "f5(1)"), Ok(1.0));
    assert_eq!(run(&mut context, "f6(1)"), Err(too_deep()));
    assert_eq!(run(&mut context, "f63(1)"), Err(too_deep()));
}

#[test]
fn a_repeated_parameter_is_rejected() {
    let mut context = session();
    assert_eq!(
        run(&mut context, "let f(x, x) = x"),
        Err(EvalError::DomainError {
            operation: "definition".to_string(),
            detail: "a parameter name occurs twice".to_string(),
        })
    );
    assert_eq!(run(&mut context, "f(1, 2)"), Err(EvalError::Undefined("f".to_string())));
    assert!(context.get_function("f").is_none());
}

#[test]
fn a_failed_statement_changes_nothing() {
    let mut context = session();
    run(&mut context, "let x = 1").unwrap();
    run(&mut context, "5").unwrap();
    assert!(run(&mut context, "let x = y").is_err());
    assert!(run(&mut context, "y + 1").is_err());
    assert_eq!(run(&mut context, "_ + x"), Ok(6.0));
}

#[test]
fn literals_denote_their_numbers() {
    assert_eq!(once("3.5"), Ok(3.5));
    assert_eq!(once("2e3"), Ok(2000.0));
    assert_eq!(once(".5"), Ok(0.5));
    assert_eq!(once("2."), Ok(2.0));
    assert_eq!(once("1E-2"), Ok(0.01));
    assert_eq!(once("inf"), Ok(f64::INFINITY));
    assert_eq!(once("-Infinity"), Ok(f64::NEG_INFINITY));
    assert!(once("NaN").unwrap().is_nan());
    assert_eq!(once("99999999999999999999"), Ok(1e20));
}

#[test]
fn what_is_fixed_does_not_hang_on_the_arithmetic() {
    let calls = std::cell::Cell::new(0u64);
    let fickle = |_: Operation| {
        calls.set(calls.get() + 1);
        Value { bits: calls.get() }
    };
    let mut context = session();
    let mut ask = |line: &str| eval(parser(line).unwrap(), &mut context, &fickle);
    assert!(ask("let f(x) = x").is_ok());
    assert!(ask("let a = 1 + 2 * 3").is_ok());
    assert_eq!(ask("y"), Err(EvalError::Undefined("y".to_string())));
    assert_eq!(ask("pi"), Ok(Value { bits: std::f64::consts::PI.to_bits() }));
    assert_eq!(
        ask("f(1, 2)"),
        Err(EvalError::ArityMismatch { name: "f".to_string(), expected: 1, got: 2 })
    );
    assert_eq!(
        ask("sqrt(1, a, pi)"),
        Err(EvalError::ArityMismatch { name: "sqrt".to_string(), expected: 1, got: 3 })
    );
    assert_eq!(ask("g(1 + 1)"), Err(EvalError::Undefined("g".to_string())));
    assert!(ask("f(f(1 + a) * 2)").is_ok());
    assert_eq!(ask("_"), ask("_"));
    assert!(calls.get() > 0);
}

#[test]
fn whitespace_changes_no_value() {
    let mut context = session();
    assert!(run(&mut context, "let f ( x , y ) = x + y").unwrap().is_nan());
    assert_eq!(run(&mut context, "f (1)"), Err(EvalError::Undefined("f".to_string())));
    assert_eq!(run(&mut context, "f( 1 , 2 )"), Ok(3.0));
    assert_eq!(run(&mut context, "3 !"), Ok(6.0));
    assert_eq!(run(&mut context, "- pi"), Ok(-std::f64::consts::PI));
    assert_eq!(run(&mut context, "- 2 ^ 2"), Ok(4.0));
}

#[test]
fn the_keyword_is_a_name_in_an_expression() {
    let mut context = session();
    assert_eq!(run(&mut context, "let x"), Err(EvalError::Undefined("let".to_string())));
    run(&mut context, "let let = 3").unwrap();
    run(&mut context, "let x = 2").unwrap();
    assert_eq!(run(&mut context, "let x"), Ok(6.0));
}

#[test]
fn power_follows_the_doubles() {
    assert_eq!(once("4^0.5"), Ok(2.0));
    assert_eq!(once("2^-1"), Ok(0.5));
    assert!(once("(0-8)^(1/3)").unwrap().is_nan());
}

