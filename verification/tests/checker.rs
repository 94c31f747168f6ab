use lightc::ast::{Ast, AstNode, Literal, Prototype};
use lightc::checker::TypeChecker;
use lightc::symbol::Symbol;
use lightc::symbol_table::SymbolTable;
use lightc::types::{Operator, Type};

fn proto(name: &str, args: &[(&str, &str)], ret_ty: Type, is_extern: bool) -> Prototype {
    Prototype {
        name: name.to_string(),
        args: args.iter().map(|(a, t)| (a.to_string(), t.to_string())).collect(),
        ret_ty,
        is_extern,
    }
}

fn install_fn(table: &mut SymbolTable, name: &str, args: &[(&str, &str)], ret_ty: &str, is_extern: bool) {
    let owned: Vec<(String, String)> =
        args.iter().map(|(a, t)| (a.to_string(), t.to_string())).collect();
    table.insert(Symbol::new_fn(name, &owned, ret_ty, is_extern));
}

fn main_fn(body: Vec<AstNode>) -> AstNode {
    AstNode::new_fn(
        proto("main", &[], Type::Void, false),
        Some(AstNode::new_block(body, None)),
    )
}

fn uint_lit(v: u64) -> AstNode {
    AstNode::new_lit(Literal::UInt64(v), None)
}

/// `fn main() { let x: int32 = 3 + 4 }` — succeeds; the initializer is a
/// binop typed `int32` whose sides are the narrowed literals.
#[test]
fn test_scenario_let_binop() {
    let mut table = SymbolTable::new();
    install_fn(&mut table, "main", &[], "void", false);
    let init = AstNode::new_binop(Operator::Add, uint_lit(3), uint_lit(4), None);
    let mut ast = Ast::new();
    ast.add(main_fn(vec![AstNode::new_let(
        "x".to_string(),
        Type::Int32,
        Some(init),
    )]));
    let mut tc = TypeChecker::new(table);
    let typed = tc.walk(ast).unwrap();
    assert_eq!(tc.into_symbol_table().depth(), 1);
    let nodes = typed.nodes();
    let body = match &nodes[0] {
        AstNode::Fn { body: Some(b), .. } => b,
        n => panic!("expected fn, got {:?}", n),
    };
    let stmts = match &**body {
        AstNode::Block { list, .. } => list,
        n => panic!("expected block, got {:?}", n),
    };
    match &stmts[0] {
        AstNode::Let { antn, init: Some(init), .. } => {
            assert_eq!(*antn, Type::Int32);
            match &**init {
                AstNode::BinOp { op, lhs, rhs, ty } => {
                    assert_eq!(*op, Operator::Add);
                    assert_eq!(*ty, Some(Type::Int32));
                    assert_eq!(
                        **lhs,
                        AstNode::new_lit(Literal::Int32(3), Some(Type::Int32))
                    );
                    assert_eq!(
                        **rhs,
                        AstNode::new_lit(Literal::Int32(4), Some(Type::Int32))
                    );
                },
                n => panic!("expected binop, got {:?}", n),
            }
        },
        n => panic!("expected let, got {:?}", n),
    }
}

/// `fn main() { let x: int32 = true }` — fails with the annotated-type
/// mismatch message.
#[test]
fn test_scenario_let_bool_mismatch() {
    let mut table = SymbolTable::new();
    install_fn(&mut table, "main", &[], "void", false);
    let init = AstNode::new_lit(Literal::Bool(true), None);
    let mut ast = Ast::new();
    ast.add(main_fn(vec![AstNode::new_let(
        "x".to_string(),
        Type::Int32,
        Some(init),
    )]));
    let mut tc = TypeChecker::new(table);
    let err = tc.walk(ast).unwrap_err();
    assert_eq!(
        err,
        "Types don't match in let statement. `x` annotated with `int32` but initial value is `bool`"
    );
}

/// `extern cos(x: double) -> double  fn main() { let y: double = cos(3.14) }`
/// — succeeds; the call resolves against the extern with type `double`.
#[test]
fn test_scenario_extern_call() {
    let mut table = SymbolTable::new();
    install_fn(&mut table, "cos", &[("x", "double")], "double", true);
    install_fn(&mut table, "main", &[], "void", false);
    let mut ast = Ast::new();
    ast.add(AstNode::new_fn(proto("cos", &[("x", "double")], Type::Double, true), None));
    let call = AstNode::new_call(
        "cos".to_string(),
        vec![AstNode::new_lit(Literal::Float("3.14".to_string()), None)],
        None,
    );
    ast.add(main_fn(vec![AstNode::new_let(
        "y".to_string(),
        Type::Double,
        Some(call),
    )]));
    let mut tc = TypeChecker::new(table);
    let typed = tc.walk(ast).unwrap();
    let body = match &typed.nodes()[1] {
        AstNode::Fn { body: Some(b), .. } => b,
        n => panic!("expected fn, got {:?}", n),
    };
    let stmts = match &**body {
        AstNode::Block { list, .. } => list,
        n => panic!("expected block, got {:?}", n),
    };
    match &stmts[0] {
        AstNode::Let { init: Some(init), .. } => match &**init {
            AstNode::Call { name, args, ty } => {
                assert_eq!(name, "cos");
                assert_eq!(*ty, Some(Type::Double));
                assert_eq!(
                    args[0],
                    AstNode::new_lit(Literal::Double("3.14".to_string()), Some(Type::Double))
                );
            },
            n => panic!("expected call, got {:?}", n),
        },
        n => panic!("expected let, got {:?}", n),
    }
}

/// `fn main() -> int32 { 0 }` — fails: main must not annotate a return
/// type.
#[test]
fn test_scenario_main_annotated() {
    let mut table = SymbolTable::new();
    install_fn(&mut table, "main", &[], "int32", false);
    let mut ast = Ast::new();
    ast.add(AstNode::new_fn(
        proto("main", &[], Type::Int32, false),
        Some(AstNode::new_block(vec![uint_lit(0)], None)),
    ));
    let mut tc = TypeChecker::new(table);
    let err = tc.walk(ast).unwrap_err();
    assert_eq!(err, "main()'s return value shouldn't be annotated. Found `int32`");
}

/// `fn f(a: int32, b: int32) -> int32 { a + b }  fn main() { f(1) }` —
/// fails with the arity message.
#[test]
fn test_scenario_call_arity() {
    let mut table = SymbolTable::new();
    install_fn(&mut table, "f", &[("a", "int32"), ("b", "int32")], "int32", false);
    install_fn(&mut table, "main", &[], "void", false);
    let mut ast = Ast::new();
    let f_body = AstNode::new_block(
        vec![AstNode::new_binop(
            Operator::Add,
            AstNode::new_ident("a".to_string(), None),
            AstNode::new_ident("b".to_string(), None),
            None,
        )],
        None,
    );
    ast.add(AstNode::new_fn(
        proto("f", &[("a", "int32"), ("b", "int32")], Type::Int32, false),
        Some(f_body),
    ));
    ast.add(main_fn(vec![AstNode::new_call(
        "f".to_string(),
        vec![uint_lit(1)],
        None,
    )]));
    let mut tc = TypeChecker::new(table);
    let err = tc.walk(ast).unwrap_err();
    assert_eq!(err, "Call to `f()` takes 2 args and 1 were given");
}

/// `fn main() { let xs: array(int32, 3) = [1, 2, 3, 4] }` — fails: the
/// literal is longer than the annotated array.
#[test]
fn test_scenario_array_too_big() {
    let mut table = SymbolTable::new();
    install_fn(&mut table, "main", &[], "void", false);
    let lit = AstNode::new_lit(
        Literal::Array {
            elements: vec![uint_lit(1), uint_lit(2), uint_lit(3), uint_lit(4)],
            inner_ty: None,
        },
        None,
    );
    let mut ast = Ast::new();
    ast.add(main_fn(vec![AstNode::new_let(
        "xs".to_string(),
        Type::Array(Box::new(Type::Int32), 3),
        Some(lit),
    )]));
    let mut tc = TypeChecker::new(table);
    let err = tc.walk(ast).unwrap_err();
    assert_eq!(err, "Array literal too big in assignment: `4` > `3`");
}

/// `fn main() { for i: int32 = 0; i < 10; i = i + 1 { } }` — succeeds;
/// the step is `int32` and the condition `bool`.
#[test]
fn test_scenario_for_loop() {
    let mut table = SymbolTable::new();
    install_fn(&mut table, "main", &[], "void", false);
    let cond = AstNode::new_binop(
        Operator::Lt,
        AstNode::new_ident("i".to_string(), None),
        uint_lit(10),
        None,
    );
    let step = AstNode::new_binop(
        Operator::Assign,
        AstNode::new_ident("i".to_string(), None),
        AstNode::new_binop(
            Operator::Add,
            AstNode::new_ident("i".to_string(), None),
            uint_lit(1),
            None,
        ),
        None,
    );
    let for_node = AstNode::new_for(
        "i".to_string(),
        Type::Int32,
        Some(uint_lit(0)),
        cond,
        step,
        AstNode::new_block(vec![], None),
    );
    let mut ast = Ast::new();
    ast.add(main_fn(vec![for_node]));
    let mut tc = TypeChecker::new(table);
    let typed = tc.walk(ast).unwrap();
    assert_eq!(tc.into_symbol_table().depth(), 1);
    let body = match &typed.nodes()[0] {
        AstNode::Fn { body: Some(b), .. } => b,
        n => panic!("expected fn, got {:?}", n),
    };
    let stmts = match &**body {
        AstNode::Block { list, .. } => list,
        n => panic!("expected block, got {:?}", n),
    };
    match &stmts[0] {
        AstNode::For { cond_expr, step_expr, .. } => {
            assert_eq!(cond_expr.ty(), Some(&Type::Bool));
            assert_eq!(step_expr.ty(), Some(&Type::Int32));
            match &**step_expr {
                AstNode::BinOp { op, rhs, .. } => {
                    assert_eq!(*op, Operator::Assign);
                    assert_eq!(rhs.ty(), Some(&Type::Int32));
                },
                n => panic!("expected assignment step, got {:?}", n),
            }
        },
        n => panic!("expected for, got {:?}", n),
    }
}

/// Narrowing round-trip on concrete values: `let x: int8 = 100` keeps the
/// value; `let x: int8 = 200` is out of range.
#[test]
fn test_narrowing_concrete() {
    let mut table = SymbolTable::new();
    install_fn(&mut table, "main", &[], "void", false);
    let mut ast = Ast::new();
    ast.add(main_fn(vec![AstNode::new_let(
        "x".to_string(),
        Type::Int8,
        Some(uint_lit(100)),
    )]));
    let mut tc = TypeChecker::new(table);
    let typed = tc.walk(ast).unwrap();
    let body = match &typed.nodes()[0] {
        AstNode::Fn { body: Some(b), .. } => b,
        n => panic!("expected fn, got {:?}", n),
    };
    let stmts = match &**body {
        AstNode::Block { list, .. } => list,
        n => panic!("expected block, got {:?}", n),
    };
    match &stmts[0] {
        AstNode::Let { init: Some(init), .. } => {
            assert_eq!(
                **init,
                AstNode::new_lit(Literal::Int8(100), Some(Type::Int8))
            );
        },
        n => panic!("expected let, got {:?}", n),
    }

    let mut table = SymbolTable::new();
    install_fn(&mut table, "main", &[], "void", false);
    let mut ast = Ast::new();
    ast.add(main_fn(vec![AstNode::new_let(
        "x".to_string(),
        Type::Int8,
        Some(uint_lit(200)),
    )]));
    let mut tc = TypeChecker::new(table);
    assert_eq!(tc.walk(ast).unwrap_err(), "Numeric literal out of range");
}

#[test]
fn test_unknown_variable() {
    let mut table = SymbolTable::new();
    install_fn(&mut table, "main", &[], "void", false);
    let mut ast = Ast::new();
    ast.add(main_fn(vec![AstNode::new_ident("nope".to_string(), None)]));
    let mut tc = TypeChecker::new(table);
    assert_eq!(tc.walk(ast).unwrap_err(), "Unknown variable: `nope`");
}

#[test]
fn test_assign_lhs_not_variable() {
    let mut table = SymbolTable::new();
    install_fn(&mut table, "main", &[], "void", false);
    let bad = AstNode::new_binop(Operator::Assign, uint_lit(1), uint_lit(2), None);
    let mut ast = Ast::new();
    ast.add(main_fn(vec![bad]));
    let mut tc = TypeChecker::new(table);
    assert_eq!(
        tc.walk(ast).unwrap_err(),
        "Expected LHS to be a variable for assignment"
    );
}

#[test]
fn test_cond_not_bool() {
    let mut table = SymbolTable::new();
    install_fn(&mut table, "main", &[], "void", false);
    let cond = AstNode::new_cond(
        uint_lit(1),
        AstNode::new_block(vec![], None),
        None,
        None,
    );
    let mut ast = Ast::new();
    ast.add(main_fn(vec![cond]));
    let mut tc = TypeChecker::new(table);
    assert_eq!(tc.walk(ast).unwrap_err(), "Conditional should always be a bool");
}

#[test]
fn test_cond_arm_mismatch() {
    let mut table = SymbolTable::new();
    install_fn(&mut table, "main", &[], "void", false);
    let cond = AstNode::new_cond(
        AstNode::new_lit(Literal::Bool(true), None),
        AstNode::new_block(vec![uint_lit(1)], None),
        Some(AstNode::new_block(
            vec![AstNode::new_lit(Literal::Bool(false), None)],
            None,
        )),
        None,
    );
    let mut ast = Ast::new();
    ast.add(main_fn(vec![cond]));
    let mut tc = TypeChecker::new(table);
    assert_eq!(
        tc.walk(ast).unwrap_err(),
        "Both arms of conditional must be the same type: `then` == `int32`; `else` == `bool`"
    );
}

#[test]
fn test_binop_mismatched_types() {
    let mut table = SymbolTable::new();
    install_fn(&mut table, "main", &[], "void", false);
    let bad = AstNode::new_binop(
        Operator::Add,
        AstNode::new_lit(Literal::Bool(true), None),
        AstNode::new_lit(Literal::Char('a'), None),
        None,
    );
    let mut ast = Ast::new();
    ast.add(main_fn(vec![bad]));
    let mut tc = TypeChecker::new(table);
    assert_eq!(
        tc.walk(ast).unwrap_err(),
        "Mismatched types in binop: `bool` != `char`"
    );
}

#[test]
fn test_unop_requires_numeric() {
    let mut table = SymbolTable::new();
    install_fn(&mut table, "main", &[], "void", false);
    let bad = AstNode::new_unop(Operator::Not, AstNode::new_lit(Literal::Bool(true), None), None);
    let mut ast = Ast::new();
    ast.add(main_fn(vec![bad]));
    let mut tc = TypeChecker::new(table);
    assert_eq!(
        tc.walk(ast).unwrap_err(),
        "Expected numeric type in unary operation `!`, got rhs: `bool`"
    );
}

#[test]
fn test_let_without_init_synthesizes_zero() {
    let mut table = SymbolTable::new();
    install_fn(&mut table, "main", &[], "void", false);
    let mut ast = Ast::new();
    ast.add(main_fn(vec![AstNode::new_let("x".to_string(), Type::UInt16, None)]));
    let mut tc = TypeChecker::new(table);
    let typed = tc.walk(ast).unwrap();
    let body = match &typed.nodes()[0] {
        AstNode::Fn { body: Some(b), .. } => b,
        n => panic!("expected fn, got {:?}", n),
    };
    let stmts = match &**body {
        AstNode::Block { list, .. } => list,
        n => panic!("expected block, got {:?}", n),
    };
    match &stmts[0] {
        AstNode::Let { init: Some(init), .. } => {
            assert_eq!(
                **init,
                AstNode::new_lit(Literal::UInt16(0), Some(Type::UInt16))
            );
        },
        n => panic!("expected let, got {:?}", n),
    }
}

#[test]
fn test_function_return_mismatch() {
    let mut table = SymbolTable::new();
    install_fn(&mut table, "f", &[], "int32", false);
    let mut ast = Ast::new();
    ast.add(AstNode::new_fn(
        proto("f", &[], Type::Int32, false),
        Some(AstNode::new_block(
            vec![AstNode::new_lit(Literal::Bool(true), None)],
            None,
        )),
    ));
    let mut tc = TypeChecker::new(table);
    assert_eq!(
        tc.walk(ast).unwrap_err(),
        "Function `f` should return type `int32` but last statement is `bool`"
    );
}

#[test]
fn test_index_requires_array_and_int32() {
    let mut table = SymbolTable::new();
    install_fn(&mut table, "main", &[], "void", false);
    let body = vec![
        AstNode::new_let(
            "xs".to_string(),
            Type::Array(Box::new(Type::Int32), 2),
            None,
        ),
        AstNode::new_index(
            AstNode::new_ident("xs".to_string(), None),
            uint_lit(0),
            None,
        ),
    ];
    let mut ast = Ast::new();
    ast.add(main_fn(body));
    let mut tc = TypeChecker::new(table);
    let typed = tc.walk(ast).unwrap();
    let b = match &typed.nodes()[0] {
        AstNode::Fn { body: Some(b), .. } => b,
        n => panic!("expected fn, got {:?}", n),
    };
    let stmts = match &**b {
        AstNode::Block { list, .. } => list,
        n => panic!("expected block, got {:?}", n),
    };
    assert_eq!(stmts[1].ty(), Some(&Type::Int32));

    let mut table = SymbolTable::new();
    install_fn(&mut table, "main", &[], "void", false);
    let mut ast = Ast::new();
    ast.add(main_fn(vec![AstNode::new_index(uint_lit(1), uint_lit(0), None)]));
    let mut tc = TypeChecker::new(table);
    assert_eq!(tc.walk(ast).unwrap_err(), "Can't index `int32`");
}

#[test]
fn test_call_arg_type_mismatch() {
    let mut table = SymbolTable::new();
    install_fn(&mut table, "f", &[("a", "bool")], "void", false);
    install_fn(&mut table, "main", &[], "void", false);
    let mut ast = Ast::new();
    ast.add(AstNode::new_fn(proto("f", &[("a", "bool")], Type::Void, false), None));
    ast.add(main_fn(vec![AstNode::new_call(
        "f".to_string(),
        vec![AstNode::new_lit(Literal::Char('x'), None)],
        None,
    )]));
    let mut tc = TypeChecker::new(table);
    assert_eq!(
        tc.walk(ast).unwrap_err(),
        "Type mismatch in arg 1 of call to `f()`: `bool` != `char`"
    );
}

#[test]
fn test_call_to_undefined_function() {
    let mut table = SymbolTable::new();
    install_fn(&mut table, "main", &[], "void", false);
    let mut ast = Ast::new();
    ast.add(main_fn(vec![AstNode::new_call("ghost_fn".to_string(), vec![], None)]));
    let mut tc = TypeChecker::new(table);
    assert_eq!(
        tc.walk(ast).unwrap_err(),
        "Call to undefined function: `ghost_fn`"
    );
}

#[test]
fn test_scope_shadowing_and_lookup() {
    let mut table = SymbolTable::new();
    table.insert(Symbol::new_var("x", &Type::Int32));
    table.enter_scope();
    table.insert(Symbol::new_var("x", &Type::Bool));
    assert_eq!(table.get("x").unwrap().ty(), &Type::Bool);
    table.leave_scope();
    assert_eq!(table.get("x").unwrap().ty(), &Type::Int32);
    assert!(table.get("y").is_none());
    assert_eq!(table.depth(), 1);
}

#[test]
fn test_symbol_accessors() {
    let args = vec![("a".to_string(), "int32".to_string()), ("b".to_string(), "double".to_string())];
    let sym = Symbol::new_fn("f", &args, "bool", true);
    assert_eq!(sym.ret_ty(), "bool");
    assert!(sym.is_extern());
    assert_eq!(sym.arg_tys(), vec!["int32", "double"]);
    assert_eq!(sym.args(), vec![("a", "int32"), ("b", "double")]);
    let mut sym = sym;
    sym.set_name("g");
    assert_eq!(sym.name, "g");
    let ty_sym = Symbol::new_ty("int32");
    assert_eq!(ty_sym.name, "_type_int32");
}

#[test]
fn test_int_literal_in_bool_context() {
    let mut table = SymbolTable::new();
    install_fn(&mut table, "main", &[], "void", false);
    let mut ast = Ast::new();
    ast.add(main_fn(vec![AstNode::new_let(
        "b".to_string(),
        Type::Bool,
        Some(uint_lit(5)),
    )]));
    let mut tc = TypeChecker::new(table);
    assert_eq!(
        tc.walk(ast).unwrap_err(),
        "Literal is an integer in a bool context"
    );
}

#[test]
fn test_float_literal_in_integer_context() {
    let mut table = SymbolTable::new();
    install_fn(&mut table, "main", &[], "void", false);
    let mut ast = Ast::new();
    ast.add(main_fn(vec![AstNode::new_let(
        "x".to_string(),
        Type::Int32,
        Some(AstNode::new_lit(Literal::Float("2.5".to_string()), None)),
    )]));
    let mut tc = TypeChecker::new(table);
    assert_eq!(
        tc.walk(ast).unwrap_err(),
        "Literal is a float in an integer context"
    );
}

#[test]
fn test_struct_fields_checked() {
    let mut table = SymbolTable::new();
    let st = AstNode::new_struct(
        "Point".to_string(),
        vec![
            AstNode::new_let("x".to_string(), Type::Int32, None),
            AstNode::new_let("y".to_string(), Type::Int32, None),
        ],
        vec![],
    );
    let mut ast = Ast::new();
    ast.add(st);
    let mut tc = TypeChecker::new(table);
    let typed = tc.walk(ast).unwrap();
    match &typed.nodes()[0] {
        AstNode::Struct { name, fields, methods } => {
            assert_eq!(name, "Point");
            assert_eq!(fields.len(), 2);
            assert!(methods.is_empty());
            match &fields[0] {
                AstNode::Let { init: Some(init), .. } => {
                    assert_eq!(
                        **init,
                        AstNode::new_lit(Literal::Int32(0), Some(Type::Int32))
                    );
                },
                n => panic!("expected let field, got {:?}", n),
            }
        },
        n => panic!("expected struct, got {:?}", n),
    }
}

#[test]
fn test_array_literal_default_fill() {
    let mut table = SymbolTable::new();
    install_fn(&mut table, "main", &[], "void", false);
    let mut ast = Ast::new();
    ast.add(main_fn(vec![AstNode::new_let(
        "xs".to_string(),
        Type::Array(Box::new(Type::Int8), 2),
        None,
    )]));
    let mut tc = TypeChecker::new(table);
    let typed = tc.walk(ast).unwrap();
    let body = match &typed.nodes()[0] {
        AstNode::Fn { body: Some(b), .. } => b,
        n => panic!("expected fn, got {:?}", n),
    };
    let stmts = match &**body {
        AstNode::Block { list, .. } => list,
        n => panic!("expected block, got {:?}", n),
    };
    match &stmts[0] {
        AstNode::Let { init: Some(init), .. } => match &**init {
            AstNode::Lit { value: Literal::Array { elements, inner_ty }, ty } => {
                assert_eq!(elements.len(), 2);
                assert_eq!(*inner_ty, Some(Type::Int8));
                assert_eq!(*ty, Some(Type::Array(Box::new(Type::Int8), 2)));
                assert_eq!(
                    elements[0],
                    AstNode::new_lit(Literal::Int8(0), Some(Type::Int8))
                );
            },
            n => panic!("expected array literal, got {:?}", n),
        },
        n => panic!("expected let, got {:?}", n),
    }
}

#[test]
fn test_array_literal_without_hint_rejected() {
    let mut table = SymbolTable::new();
    install_fn(&mut table, "main", &[], "void", false);
    let lit = AstNode::new_lit(
        Literal::Array { elements: vec![uint_lit(1)], inner_ty: None },
        None,
    );
    let mut ast = Ast::new();
    ast.add(main_fn(vec![lit]));
    let mut tc = TypeChecker::new(table);
    assert_eq!(tc.walk(ast).unwrap_err(), "Array literal needs a type hint");
}

#[test]
fn test_index_width_errors() {
    let mut table = SymbolTable::new();
    install_fn(&mut table, "main", &[], "void", false);
    let body = vec![
        AstNode::new_let("xs".to_string(), Type::Array(Box::new(Type::Int32), 2), None),
        AstNode::new_index(
            AstNode::new_ident("xs".to_string(), None),
            AstNode::new_lit(Literal::Int64(0), None),
            None,
        ),
    ];
    let mut ast = Ast::new();
    ast.add(main_fn(body));
    let mut tc = TypeChecker::new(table);
    assert_eq!(tc.walk(ast).unwrap_err(), "Index must be an int32 (for now)");

    let mut table = SymbolTable::new();
    install_fn(&mut table, "main", &[], "void", false);
    let body = vec![
        AstNode::new_let("xs".to_string(), Type::Array(Box::new(Type::Int32), 2), None),
        AstNode::new_index(
            AstNode::new_ident("xs".to_string(), None),
            AstNode::new_lit(Literal::Bool(true), None),
            None,
        ),
    ];
    let mut ast = Ast::new();
    ast.add(main_fn(body));
    let mut tc = TypeChecker::new(table);
    assert_eq!(
        tc.walk(ast).unwrap_err(),
        "Array index must be an `int`, found `bool`"
    );
}

#[test]
fn test_logical_op_requires_bools() {
    let mut table = SymbolTable::new();
    install_fn(&mut table, "main", &[], "void", false);
    let bad = AstNode::new_binop(Operator::And, uint_lit(1), uint_lit(1), None);
    let mut ast = Ast::new();
    ast.add(main_fn(vec![bad]));
    let mut tc = TypeChecker::new(table);
    assert_eq!(
        tc.walk(ast).unwrap_err(),
        "Expected bools on either side of `&&`, got lhs: `int32`, rhs: `int32`"
    );
}
