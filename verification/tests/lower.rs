use lightc::ast::{Ast, AstNode, Literal};
use lightc::lower::{lower_ast, lower_node};
use lightc::types::{Operator, Type};

fn int_lit(v: i32) -> AstNode {
    AstNode::new_lit(Literal::Int32(v), Some(Type::Int32))
}

fn ident(name: &str) -> AstNode {
    AstNode::new_ident(name.to_string(), Some(Type::Int32))
}

/// `x += 1` becomes `x = x + 1`; no compound operator survives.
#[test]
fn test_lower_compound_assign() {
    let node = AstNode::new_binop(Operator::AddEq, ident("x"), int_lit(1), Some(Type::Void));
    let lowered = lower_node(node);
    match lowered {
        AstNode::BinOp { op, lhs, rhs, ty } => {
            assert_eq!(op, Operator::Assign);
            assert_eq!(ty, Some(Type::Int32));
            assert_eq!(*lhs, ident("x"));
            match *rhs {
                AstNode::BinOp { op, lhs, rhs, ty } => {
                    assert_eq!(op, Operator::Add);
                    assert_eq!(ty, Some(Type::Int32));
                    assert_eq!(*lhs, ident("x"));
                    assert_eq!(*rhs, int_lit(1));
                },
                n => panic!("expected expanded binop, got {:?}", n),
            }
        },
        n => panic!("expected assignment, got {:?}", n),
    }
}

/// `++x` becomes `x = x + 1` of the operand's type.
#[test]
fn test_lower_increment() {
    let node = AstNode::new_unop(Operator::Inc, ident("x"), Some(Type::Int32));
    let lowered = lower_node(node);
    match lowered {
        AstNode::BinOp { op, lhs, rhs, .. } => {
            assert_eq!(op, Operator::Assign);
            assert_eq!(*lhs, ident("x"));
            match *rhs {
                AstNode::BinOp { op, rhs, .. } => {
                    assert_eq!(op, Operator::Add);
                    assert_eq!(*rhs, int_lit(1));
                },
                n => panic!("expected step binop, got {:?}", n),
            }
        },
        n => panic!("expected assignment, got {:?}", n),
    }
}

/// `--x` becomes `x = x - 1`.
#[test]
fn test_lower_decrement() {
    let node = AstNode::new_unop(Operator::Dec, ident("x"), Some(Type::Int32));
    let lowered = lower_node(node);
    match lowered {
        AstNode::BinOp { rhs, .. } => match *rhs {
            AstNode::BinOp { op, .. } => assert_eq!(op, Operator::Sub),
            n => panic!("expected step binop, got {:?}", n),
        },
        n => panic!("expected assignment, got {:?}", n),
    }
}

/// A conditional without an `else` gains an explicit empty `Void` arm.
#[test]
fn test_lower_cond_canonical() {
    let cond = AstNode::new_cond(
        AstNode::new_lit(Literal::Bool(true), Some(Type::Bool)),
        AstNode::new_block(vec![], Some(Type::Void)),
        None,
        Some(Type::Void),
    );
    let lowered = lower_node(cond);
    match lowered {
        AstNode::Cond { else_block: Some(e), .. } => match *e {
            AstNode::Block { list, ty } => {
                assert!(list.is_empty());
                assert_eq!(ty, Some(Type::Void));
            },
            n => panic!("expected empty block, got {:?}", n),
        },
        n => panic!("expected cond with else, got {:?}", n),
    }
}

fn has_forbidden_op(node: &AstNode) -> bool {
    let bad = |op: &Operator| {
        matches!(
            op,
            Operator::AddEq
                | Operator::SubEq
                | Operator::MulEq
                | Operator::DivEq
                | Operator::Inc
                | Operator::Dec
        )
    };
    match node {
        AstNode::BinOp { op, lhs, rhs, .. } => {
            bad(op) || has_forbidden_op(lhs) || has_forbidden_op(rhs)
        },
        AstNode::UnOp { op, rhs, .. } => bad(op) || has_forbidden_op(rhs),
        AstNode::Block { list, .. } => list.iter().any(has_forbidden_op),
        AstNode::Fn { body: Some(b), .. } => has_forbidden_op(b),
        _ => false,
    }
}

/// A whole lowered program carries neither compound assignments nor
/// increment or decrement operators.
#[test]
fn test_lower_program_clean() {
    let body = vec![
        AstNode::new_binop(Operator::MulEq, ident("x"), int_lit(2), Some(Type::Void)),
        AstNode::new_unop(Operator::Dec, ident("x"), Some(Type::Int32)),
        AstNode::new_binop(Operator::Add, ident("x"), int_lit(1), Some(Type::Int32)),
    ];
    let mut ast = Ast::new();
    ast.add(AstNode::new_block(body, Some(Type::Int32)));
    let lowered = lower_ast(ast);
    for node in lowered.nodes() {
        assert!(!has_forbidden_op(node));
    }
    assert_eq!(lowered.nodes().len(), 1);
}
