use akame::akame_interpreter::interpreter::{Interpreter, RunError, Value};
use akame::akame_interpreter::parse;
use akame::ast::{BinaryOp, Expr};

#[test]
fn interpret_runs_a_program_and_keeps_the_last_value() {
    let program = parse("fn add(a, b) { return a + b; } let r = add(20, 22);").expect("parse");
    let mut interp = Interpreter::new();
    let last = interp.interpret(&program).expect("run");
    // An assignment's value is the bound value; a call's value wraps
    // the body's last value.
    match last {
        Value::Return(inner) => assert_eq!(*inner, Value::Number(42)),
        other => panic!("unexpected value: {:?}", other),
    }
}

#[test]
fn visit_expr_evaluates_arithmetic() {
    let mut interp = Interpreter::new();
    let e = Expr::Infix(
        Box::new(Expr::Num(6)),
        BinaryOp::Multiply,
        Box::new(Expr::Num(7)),
    );
    assert_eq!(interp.visit_expr(&e), Ok(Value::Number(42)));
}

#[test]
fn division_by_zero_is_an_error() {
    let mut interp = Interpreter::new();
    let e = Expr::Infix(Box::new(Expr::Num(1)), BinaryOp::Divide, Box::new(Expr::Num(0)));
    assert_eq!(interp.visit_expr(&e), Err(RunError::DivisionByZero));
}

#[test]
fn string_concatenation_uses_plus() {
    let mut interp = Interpreter::new();
    let e = Expr::Infix(
        Box::new(Expr::Str("foo".to_string())),
        BinaryOp::Add,
        Box::new(Expr::Str("bar".to_string())),
    );
    assert_eq!(interp.visit_expr(&e), Ok(Value::Str("foobar".to_string())));
}

#[test]
fn comparison_operators_are_not_evaluated() {
    let mut interp = Interpreter::new();
    let e = Expr::Infix(Box::new(Expr::Num(1)), BinaryOp::Lt, Box::new(Expr::Num(2)));
    assert_eq!(interp.visit_expr(&e), Err(RunError::UnexpectedOperator(BinaryOp::Lt)));
}

#[test]
fn undefined_variable_is_an_error() {
    let mut interp = Interpreter::new();
    let e = Expr::Ident("ghost_town".to_string());
    assert_eq!(
        interp.visit_expr(&e),
        Err(RunError::UndefinedVariable("ghost_town".to_string()))
    );
}

#[test]
fn array_indexing_checks_bounds() {
    let program = parse("let a = [10, 20, 30]; let x = a[1];").expect("parse");
    let mut interp = Interpreter::new();
    let last = interp.interpret(&program).expect("run");
    assert_eq!(last, Value::Number(20));

    let bad = parse("let a = [10, 20, 30]; let x = a[3];").expect("parse");
    let mut interp2 = Interpreter::new();
    assert_eq!(interp2.interpret(&bad), Err(RunError::IndexOutOfBounds(3)));
}

#[test]
fn visit_function_call_checks_argument_count() {
    let program = parse("fn twice(n) { return n + n; }").expect("parse");
    let mut interp = Interpreter::new();
    interp.interpret(&program).expect("define");
    let ok = interp.visit_function_call("twice", &vec![Expr::Num(4)]).expect("call");
    match ok {
        Value::Return(inner) => assert_eq!(*inner, Value::Number(8)),
        other => panic!("unexpected value: {:?}", other),
    }
    let err = interp.visit_function_call("twice", &vec![]).expect_err("must fail");
    assert_eq!(err, RunError::WrongArgumentCount("twice".to_string(), 1, 0));
}

#[test]
fn function_definitions_and_stacktrace() {
    let mut interp = Interpreter::new();
    interp.visit_function_def("f".to_string(), vec!["x".to_string()], vec![]);
    let program = parse("let n = 1; let s = \"hi\";").expect("parse");
    interp.interpret(&program).expect("run");
    assert_eq!(interp.get_stacktrace(), "f: function\nn: number\ns: string\n");
}

#[test]
fn value_kinds_are_named() {
    assert_eq!(Value::Number(1).kind_name(), "number");
    assert_eq!(Value::Str(String::new()).kind_name(), "string");
    assert_eq!(Value::Char('x').kind_name(), "char");
    assert_eq!(Value::Nothing.kind_name(), "none");
}

#[test]
fn wrapping_arithmetic_in_the_interpreter() {
    let mut interp = Interpreter::new();
    let e = Expr::Infix(
        Box::new(Expr::Num(i32::MAX)),
        BinaryOp::Add,
        Box::new(Expr::Num(1)),
    );
    assert_eq!(interp.visit_expr(&e), Ok(Value::Number(i32::MIN)));
}
