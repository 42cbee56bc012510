use akame::llvm::codegen::emit_from_statements;
use akame::llvm::compiler::GenError;
use akame::llvm::emit;
use akame::llvm::ir::{GlobalInit, Inst, IrValue};
use akame::parsers::parse_program;

/// The bootstrap layout: functions 0..=3 are printf, print, printd and
/// the wrapper entry; globals 0..=3 are the two format strings and the
/// argc/argv cells. User items start at index 4.
const ENTRY_FN: usize = 3;
const ARGV_GLOBAL: usize = 3;
const FIRST_USER_FN: usize = 4;

#[test]
fn end_to_end_add_program() {
    let ast = parse_program("fn add(a, b) { return a + b; } fn main() { let r = add(2, 3); }")
        .expect("parse");
    let module = emit_from_statements(&ast).expect("generate");

    // The module holds `add` and the renamed user entry.
    let add_ix = module.find_function("add").expect("add exists");
    let user_main_ix = module.find_function("_main").expect("renamed entry exists");
    assert_eq!(add_ix, FIRST_USER_FN);

    // `add` returns the sum of its two parameters.
    let add = &module.funcs[add_ix];
    assert_eq!(add.n_params, 2);
    assert_eq!(
        add.body,
        vec![
            Inst::Add {
                dst: 0,
                a: IrValue::Param(0, false),
                b: IrValue::Param(1, false),
            },
            Inst::Ret { val: Some(IrValue::Temp(0, false)) },
        ]
    );

    // The wrapper entry stores argc and argv, then calls the renamed
    // main and returns the fixed success code.
    let entry = &module.funcs[ENTRY_FN];
    assert_eq!(entry.name, "main");
    assert_eq!(
        entry.body,
        vec![
            Inst::StoreGlobal { global: 2, val: IrValue::Param(0, false) },
            Inst::StoreGlobal { global: 3, val: IrValue::Param(1, true) },
            Inst::CallFn { dst: 0, callee: user_main_ix, args: vec![] },
            Inst::Ret { val: Some(IrValue::ConstI32(0)) },
        ]
    );
}

#[test]
fn missing_return_gets_implicit_return_zero() {
    let ast = parse_program("fn noret() { let x = 1; } fn main() { }").expect("parse");
    let module = emit_from_statements(&ast).expect("generate");
    let f = &module.funcs[module.find_function("noret").unwrap()];
    assert_eq!(f.body.last(), Some(&Inst::Ret { val: Some(IrValue::ConstI32(0)) }));
    // The empty main body also closes with the implicit return.
    let m = &module.funcs[module.find_function("_main").unwrap()];
    assert_eq!(m.body, vec![Inst::Ret { val: Some(IrValue::ConstI32(0)) }]);
}

#[test]
fn std_args_indexing_loads_argv_without_arithmetic() {
    let ast = parse_program("fn main() { let v = std::args[1]; }").expect("parse");
    let module = emit_from_statements(&ast).expect("generate");
    let m = &module.funcs[module.find_function("_main").unwrap()];
    assert_eq!(
        m.body,
        vec![
            Inst::LoadGlobal { dst: 0, global: ARGV_GLOBAL },
            Inst::Gep {
                dst: 1,
                base: IrValue::Temp(0, true),
                index: IrValue::ConstI32(1),
            },
            Inst::Load { dst: 2, addr: IrValue::Temp(1, true) },
            Inst::Ret { val: Some(IrValue::ConstI32(0)) },
        ]
    );
    // No arithmetic lowering path is involved.
    for f in &module.funcs {
        for inst in &f.body {
            assert!(!matches!(
                inst,
                Inst::Add { .. } | Inst::Sub { .. } | Inst::Mul { .. } | Inst::Div { .. }
            ));
        }
    }
}

#[test]
fn call_arity_mismatch_fails_generation() {
    let ast =
        parse_program("fn add(a, b) { return a + b; } fn main() { let r = add(2); }").expect(
            "parse",
        );
    let err = emit_from_statements(&ast).expect_err("must fail");
    assert_eq!(err, GenError::ArityMismatch("add".to_string(), 2, 1));
}

#[test]
fn unknown_std_member_fails_generation() {
    let ast = parse_program("fn main() { let x = std::unknown; }").expect("parse");
    let err = emit_from_statements(&ast).expect_err("must fail");
    assert_eq!(
        err,
        GenError::MalformedQualifiedIdentifier("unknown".to_string())
    );
}

#[test]
fn foreign_namespace_fails_generation() {
    let ast = parse_program("fn main() { let x = other::anything; }").expect("parse");
    let err = emit_from_statements(&ast).expect_err("must fail");
    assert_eq!(err, GenError::MalformedQualifiedIdentifier("other".to_string()));
}

#[test]
fn identical_string_literals_get_distinct_globals() {
    let ast = parse_program("fn main() { let a = \"dup\"; let b = \"dup\"; }").expect("parse");
    let module = emit_from_statements(&ast).expect("generate");
    let hits: Vec<usize> = module
        .globals
        .iter()
        .enumerate()
        .filter(|(_, g)| g.init == GlobalInit::Text("dup".to_string()))
        .map(|(i, _)| i)
        .collect();
    assert_eq!(hits.len(), 2);
    assert_ne!(hits[0], hits[1]);
}

#[test]
fn comparison_operator_is_rejected_by_the_generator() {
    let ast = parse_program("fn main() { let t = a == b; }").expect("parse");
    let err = emit_from_statements(&ast).expect_err("must fail");
    assert_eq!(
        err,
        GenError::UnsupportedOperator(akame::ast::BinaryOp::Eq)
    );
}

#[test]
fn unresolved_identifier_fails_generation() {
    let ast = parse_program("fn main() { let x = y; }").expect("parse");
    let err = emit_from_statements(&ast).expect_err("must fail");
    assert_eq!(err, GenError::UnresolvedIdentifier("y".to_string()));
}

#[test]
fn program_without_main_fails_entry_linking() {
    let ast = parse_program("fn helper() { return 1; }").expect("parse");
    let err = emit_from_statements(&ast).expect_err("must fail");
    assert_eq!(err, GenError::UnresolvedIdentifier("_main".to_string()));
}

#[test]
fn printd_call_lowers_against_the_bootstrap() {
    let ast = parse_program("fn main() { printd(41); }").expect("parse");
    let module = emit_from_statements(&ast).expect("generate");
    let m = &module.funcs[module.find_function("_main").unwrap()];
    let printd_ix = module.find_function("printd").unwrap();
    assert_eq!(
        m.body,
        vec![
            Inst::CallFn { dst: 0, callee: printd_ix, args: vec![IrValue::ConstI32(41)] },
            Inst::Ret { val: Some(IrValue::ConstI32(0)) },
        ]
    );
}

#[test]
fn top_level_name_binding_is_an_alias() {
    // `let b = a;` at top level records an alias, followed one level at
    // use sites.
    let ast = parse_program("let a = 5; let b = a; fn main() { printd(b); }").expect("parse");
    let module = emit_from_statements(&ast).expect("generate");
    let m = &module.funcs[module.find_function("_main").unwrap()];
    let printd_ix = module.find_function("printd").unwrap();
    assert_eq!(
        m.body[0],
        Inst::CallFn { dst: 0, callee: printd_ix, args: vec![IrValue::ConstI32(5)] }
    );
}

#[test]
fn alias_of_alias_fails_generation() {
    let ast = parse_program("let a = 5; let b = a; let c = b; fn main() { printd(c); }")
        .expect("parse");
    let err = emit_from_statements(&ast).expect_err("must fail");
    assert_eq!(err, GenError::AliasOfAlias("b".to_string()));
}

#[test]
fn array_literal_global_stores_only_its_first_element() {
    let ast = parse_program("fn main() { let x = [7, 8, 9]; }").expect("parse");
    let module = emit_from_statements(&ast).expect("generate");
    let array_global = module
        .globals
        .iter()
        .find(|g| matches!(g.init, GlobalInit::ArrayFirst { .. }))
        .expect("array global");
    assert_eq!(
        array_global.init,
        GlobalInit::ArrayFirst { len: 3, first: IrValue::ConstI32(7), elem_ptr: false }
    );
}

#[test]
fn empty_array_literal_fails_generation() {
    let ast = parse_program("fn main() { let x = []; }").expect("parse");
    let err = emit_from_statements(&ast).expect_err("must fail");
    assert_eq!(err, GenError::EmptyArrayLiteral);
}

#[test]
fn std_printf_intrinsic_calls_the_format_print_primitive() {
    let ast = parse_program("fn main() { let x = std::printf; }").expect("parse");
    let module = emit_from_statements(&ast).expect("generate");
    // A fresh format-string global is created for the intrinsic.
    let fmt_ix = module
        .globals
        .iter()
        .position(|g| g.name == "str_format")
        .expect("format global");
    assert_eq!(module.globals[fmt_ix].init, GlobalInit::Text("%s\n".to_string()));
    let printf_ix = module.find_function("printf").unwrap();
    let m = &module.funcs[module.find_function("_main").unwrap()];
    assert_eq!(
        m.body[0],
        Inst::CallFn {
            dst: 0,
            callee: printf_ix,
            args: vec![IrValue::GlobalRef(fmt_ix)],
        }
    );
}

#[test]
fn emitted_text_has_the_expected_shape() {
    let text = {
        let ast = parse_program("fn add(a, b) { return a + b; } fn main() { let r = add(2, 3); }")
            .expect("parse");
        emit(&ast).expect("emit")
    };
    assert!(text.contains("declare i8 @printf(ptr, ...)"));
    assert!(text.contains("define void @print(ptr %p0)"));
    assert!(text.contains("define i32 @main(i32 %p0, ptr %p1)"));
    assert!(text.contains("define i32 @add(i32 %p0, i32 %p1)"));
    assert!(text.contains("%t0 = add i32 %p0, %p1"));
    assert!(text.contains("ret i32 %t0"));
    assert!(text.contains("call i32 @_main()"));
    // The two format-string globals, null-terminated and fully escaped.
    assert!(text.contains("@g0 = private constant [4 x i8] c\"\\25\\73\\0A\\00\""));
    assert!(text.contains("@g1 = private constant [4 x i8] c\"\\25\\64\\0A\\00\""));
}
