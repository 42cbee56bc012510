use akame::ast::{BinaryOp, Expr, Stmt};
use akame::parsers::{parse_program, CustomError};

#[test]
fn test_function_declarations() {
    let input = r#"
        fn hello(num) {
            return num + 5;
        }

        fn main() {
            let ee = "hello";
            let value = std::args[1];
            printf(value);
            let number = hello(3);
            printd(number);
        }
        "#;

    let parsed = parse_program(input).expect("program should parse");

    let expected = vec![
        Stmt::FunctionDeclaration {
            ident: "hello".to_string(),
            params: vec!["num".to_string()],
            body: vec![Stmt::Return(Expr::Infix(
                Box::new(Expr::Ident("num".to_string())),
                BinaryOp::Add,
                Box::new(Expr::Num(5)),
            ))],
        },
        Stmt::FunctionDeclaration {
            // `main` is renamed to the reserved user-entry symbol at parse time.
            ident: "_main".to_string(),
            params: vec![],
            body: vec![
                Stmt::Assignment {
                    ident: "ee".to_string(),
                    expr: Expr::Str("hello".to_string()),
                },
                Stmt::Assignment {
                    ident: "value".to_string(),
                    expr: Expr::ArrayIndexing(
                        Box::new(Expr::QualifiedIdent(vec![
                            "std".to_string(),
                            "args".to_string(),
                        ])),
                        Box::new(Expr::Num(1)),
                    ),
                },
                Stmt::Expression(Expr::Call(
                    "printf".to_string(),
                    vec![Expr::Ident("value".to_string())],
                )),
                Stmt::Assignment {
                    ident: "number".to_string(),
                    expr: Expr::Call("hello".to_string(), vec![Expr::Num(3)]),
                },
                Stmt::Expression(Expr::Call(
                    "printd".to_string(),
                    vec![Expr::Ident("number".to_string())],
                )),
            ],
        },
    ];

    assert_eq!(parsed, expected);
}

#[test]
fn parsing_is_deterministic() {
    let input = "fn add(a, b) { return a + b; } fn main() { let r = add(2, 3); }";
    let first = parse_program(input).expect("parse");
    let second = parse_program(input).expect("parse");
    assert_eq!(first, second);
}

#[test]
fn main_with_parameters_is_a_distinct_error() {
    let err = parse_program("fn main(x) { }").expect_err("must fail");
    assert!(matches!(err, CustomError::MainFunctionWithParams(_)));
}

#[test]
fn garbage_is_a_token_error() {
    let err = parse_program("let x = 5; @@@").expect_err("must fail");
    match err {
        CustomError::UnexpectedToken(rest) => assert_eq!(rest, "@@@"),
        other => panic!("wrong error: {:?}", other),
    }
}

#[test]
fn number_at_i128_max_parses() {
    // The largest magnitude a literal may have: 2^127 - 1. The stored
    // value is the literal truncated to 32 bits.
    let parsed = parse_program("let x = 170141183460469231731687303715884105727;")
        .expect("should parse");
    assert_eq!(
        parsed,
        vec![Stmt::Assignment {
            ident: "x".to_string(),
            expr: Expr::Num(-1),
        }]
    );
}

#[test]
fn number_one_past_i128_max_fails() {
    assert!(parse_program("let x = 170141183460469231731687303715884105728;").is_err());
}

#[test]
fn number_truncates_to_32_bits() {
    // 2^32 truncates to 0, 2^31 wraps to the smallest 32-bit integer.
    let parsed = parse_program("let a = 4294967296; let b = 2147483648;").expect("parse");
    assert_eq!(
        parsed,
        vec![
            Stmt::Assignment { ident: "a".to_string(), expr: Expr::Num(0) },
            Stmt::Assignment { ident: "b".to_string(), expr: Expr::Num(-2147483648) },
        ]
    );
}

#[test]
fn char_literals_and_escapes() {
    let parsed = parse_program("let a = 'x'; let b = '\\''; let c = '\\\\';").expect("parse");
    assert_eq!(
        parsed,
        vec![
            Stmt::Assignment { ident: "a".to_string(), expr: Expr::Char('x') },
            Stmt::Assignment { ident: "b".to_string(), expr: Expr::Char('\'') },
            Stmt::Assignment { ident: "c".to_string(), expr: Expr::Char('\\') },
        ]
    );
}

#[test]
fn empty_char_literal_fails() {
    assert!(parse_program("let a = '';").is_err());
}

#[test]
fn strings_take_no_escapes() {
    let parsed = parse_program("let s = \"a\\nb\";").expect("parse");
    assert_eq!(
        parsed,
        vec![Stmt::Assignment {
            ident: "s".to_string(),
            expr: Expr::Str("a\\nb".to_string()),
        }]
    );
}

#[test]
fn comparison_operators_are_recognized_lexically() {
    let parsed = parse_program("let t = a == b;").expect("parse");
    assert_eq!(
        parsed,
        vec![Stmt::Assignment {
            ident: "t".to_string(),
            expr: Expr::Infix(
                Box::new(Expr::Ident("a".to_string())),
                BinaryOp::Eq,
                Box::new(Expr::Ident("b".to_string())),
            ),
        }]
    );
}

#[test]
fn array_literal_and_indexing() {
    let parsed = parse_program("let a = [1, 2, 3]; let b = a[0];").expect("parse");
    assert_eq!(
        parsed,
        vec![
            Stmt::Assignment {
                ident: "a".to_string(),
                expr: Expr::Array(vec![Expr::Num(1), Expr::Num(2), Expr::Num(3)]),
            },
            Stmt::Assignment {
                ident: "b".to_string(),
                expr: Expr::ArrayIndexing(
                    Box::new(Expr::Ident("a".to_string())),
                    Box::new(Expr::Num(0)),
                ),
            },
        ]
    );
}

#[test]
fn qualified_identifier_needs_two_segments() {
    let parsed = parse_program("std::printf;").expect("parse");
    assert_eq!(
        parsed,
        vec![Stmt::Expression(Expr::QualifiedIdent(vec![
            "std".to_string(),
            "printf".to_string(),
        ]))]
    );
}

#[test]
fn infix_does_not_nest() {
    // Operands of an infix expression are restricted to primary forms,
    // so `a + b + c` is not one expression; the parse stops early and
    // the program fails on the remaining input.
    assert!(parse_program("let x = a + b + c;").is_err());
}
