use vstd::prelude::*;

use crate::ast::{
    eff_ty, group_ast_views, node_ty_spec, node_view, nodes_view, Ast, AstNode, LitV, Literal,
    NodeV,
};
use crate::checker::{list_size, node_size};
use crate::types::{Operator, Type, TypeV};
use vstd::string::StringExecFns;

verus! {

/// The operators the lowering pass eliminates: the compound assignments
/// and the increment and decrement forms.
pub open spec fn is_compound(op: Operator) -> bool {
    op == Operator::AddEq || op == Operator::SubEq || op == Operator::MulEq || op
        == Operator::DivEq
}

pub open spec fn is_incdec(op: Operator) -> bool {
    op == Operator::Inc || op == Operator::Dec
}

/// The plain operator a compound or stepping form expands to.
pub open spec fn base_op(op: Operator) -> Operator {
    if op == Operator::AddEq || op == Operator::Inc {
        Operator::Add
    } else if op == Operator::SubEq || op == Operator::Dec {
        Operator::Sub
    } else if op == Operator::MulEq {
        Operator::Mul
    } else {
        Operator::Div
    }
}

/// The literal one of a numeric type, the step of `++` and `--`.
pub open spec fn one_lit(t: TypeV) -> LitV {
    match t {
        TypeV::Int8 => LitV::Int8(1),
        TypeV::Int16 => LitV::Int16(1),
        TypeV::Int32 => LitV::Int32(1),
        TypeV::Int64 => LitV::Int64(1),
        TypeV::UInt8 => LitV::UInt8(1),
        TypeV::UInt16 => LitV::UInt16(1),
        TypeV::UInt32 => LitV::UInt32(1),
        TypeV::UInt64 => LitV::UInt64(1),
        TypeV::Float => LitV::Float("1.0"@),
        TypeV::Double => LitV::Double("1.0"@),
        _ => LitV::Int32(1),
    }
}

/// The lowering of a typed node: compound assignments become plain
/// assignments of the expanded operation, increments and decrements
/// become assignments of a one-step operation, and a conditional without
/// an `else` gets an explicit empty `Void` arm. Everything else keeps its
/// shape, lowered recursively.
pub open spec fn lower(n: NodeV) -> NodeV
    decreases n, 1nat,
{
    match n {
        NodeV::BinOp { op, lhs, rhs, ty } => {
            let l = lower(*lhs);
            let r = lower(*rhs);
            if is_compound(op) {
                NodeV::BinOp {
                    op: Operator::Assign,
                    lhs: Box::new(l),
                    rhs: Box::new(
                        NodeV::BinOp {
                            op: base_op(op),
                            lhs: Box::new(l),
                            rhs: Box::new(r),
                            ty: node_ty_spec(l),
                        },
                    ),
                    ty: node_ty_spec(l),
                }
            } else {
                NodeV::BinOp { op, lhs: Box::new(l), rhs: Box::new(r), ty }
            }
        },
        NodeV::UnOp { op, rhs, ty } => {
            let r = lower(*rhs);
            if is_incdec(op) {
                let t = eff_ty(r);
                NodeV::BinOp {
                    op: Operator::Assign,
                    lhs: Box::new(r),
                    rhs: Box::new(
                        NodeV::BinOp {
                            op: base_op(op),
                            lhs: Box::new(r),
                            rhs: Box::new(NodeV::Lit { value: one_lit(t), ty: Some(t) }),
                            ty: Some(t),
                        },
                    ),
                    ty: Some(t),
                }
            } else {
                NodeV::UnOp { op, rhs: Box::new(r), ty }
            }
        },
        NodeV::Cond { cond_expr, then_block, else_block, ty } => NodeV::Cond {
            cond_expr: Box::new(lower(*cond_expr)),
            then_block: Box::new(lower(*then_block)),
            else_block: match else_block {
                Some(e) => Some(Box::new(lower(*e))),
                None => Some(
                    Box::new(NodeV::Block { list: Seq::empty(), ty: Some(TypeV::Void) }),
                ),
            },
            ty,
        },
        NodeV::Lit { value, ty } => NodeV::Lit {
            value: match value {
                LitV::Array { elements, inner_ty } => LitV::Array {
                    elements: lower_list(elements),
                    inner_ty,
                },
                other => other,
            },
            ty,
        },
        NodeV::Ident { .. } => n,
        NodeV::Call { name, args, ty } => NodeV::Call { name, args: lower_list(args), ty },
        NodeV::Index { binding, idx, ty } => NodeV::Index {
            binding: Box::new(lower(*binding)),
            idx: Box::new(lower(*idx)),
            ty,
        },
        NodeV::Block { list, ty } => NodeV::Block { list: lower_list(list), ty },
        NodeV::For { start_name, start_antn, start_expr, cond_expr, step_expr, loop_body } => NodeV::For {
            start_name,
            start_antn,
            start_expr: match start_expr {
                Some(e) => Some(Box::new(lower(*e))),
                None => None,
            },
            cond_expr: Box::new(lower(*cond_expr)),
            step_expr: Box::new(lower(*step_expr)),
            loop_body: Box::new(lower(*loop_body)),
        },
        NodeV::Let { name, antn, init } => NodeV::Let {
            name,
            antn,
            init: match init {
                Some(e) => Some(Box::new(lower(*e))),
                None => None,
            },
        },
        NodeV::Fn { proto, body } => NodeV::Fn {
            proto,
            body: match body {
                Some(b) => Some(Box::new(lower(*b))),
                None => None,
            },
        },
        NodeV::Struct { name, fields, methods } => NodeV::Struct {
            name,
            fields: lower_list(fields),
            methods: lower_list(methods),
        },
    }
}

pub open spec fn lower_list(s: Seq<NodeV>) -> Seq<NodeV>
    decreases s, 0nat,
{
    if s.len() == 0 {
        Seq::empty()
    } else {
        seq![lower(s[0])] + lower_list(s.drop_first())
    }
}

/// No compound-assignment, increment or decrement operator stands
/// anywhere in the node.
pub open spec fn op_clean(n: NodeV) -> bool
    decreases n, 1nat,
{
    match n {
        NodeV::BinOp { op, lhs, rhs, .. } => !is_compound(op) && !is_incdec(op) && op_clean(*lhs)
            && op_clean(*rhs),
        NodeV::UnOp { op, rhs, .. } => !is_compound(op) && !is_incdec(op) && op_clean(*rhs),
        NodeV::Cond { cond_expr, then_block, else_block, .. } => op_clean(*cond_expr) && op_clean(
            *then_block,
        ) && (match else_block {
            Some(e) => op_clean(*e),
            None => true,
        }),
        NodeV::Lit { value, .. } => match value {
            LitV::Array { elements, .. } => list_clean(elements),
            _ => true,
        },
        NodeV::Ident { .. } => true,
        NodeV::Call { args, .. } => list_clean(args),
        NodeV::Index { binding, idx, .. } => op_clean(*binding) && op_clean(*idx),
        NodeV::Block { list, .. } => list_clean(list),
        NodeV::For { start_expr, cond_expr, step_expr, loop_body, .. } => (match start_expr {
            Some(e) => op_clean(*e),
            None => true,
        }) && op_clean(*cond_expr) && op_clean(*step_expr) && op_clean(*loop_body),
        NodeV::Let { init, .. } => match init {
            Some(e) => op_clean(*e),
            None => true,
        },
        NodeV::Fn { body, .. } => match body {
            Some(b) => op_clean(*b),
            None => true,
        },
        NodeV::Struct { fields, methods, .. } => list_clean(fields) && list_clean(methods),
    }
}

pub open spec fn list_clean(s: Seq<NodeV>) -> bool
    decreases s, 0nat,
{
    if s.len() == 0 {
        true
    } else {
        op_clean(s[0]) && list_clean(s.drop_first())
    }
}

/// Operators stand where the parser puts them: increment and decrement
/// only as unary operators, compound assignments only as binary ones.
pub open spec fn ops_placed(n: NodeV) -> bool
    decreases n, 1nat,
{
    match n {
        NodeV::BinOp { op, lhs, rhs, .. } => !is_incdec(op) && ops_placed(*lhs) && ops_placed(
            *rhs,
        ),
        NodeV::UnOp { op, rhs, .. } => !is_compound(op) && ops_placed(*rhs),
        NodeV::Cond { cond_expr, then_block, else_block, .. } => ops_placed(*cond_expr)
            && ops_placed(*then_block) && (match else_block {
            Some(e) => ops_placed(*e),
            None => true,
        }),
        NodeV::Lit { value, .. } => match value {
            LitV::Array { elements, .. } => list_placed(elements),
            _ => true,
        },
        NodeV::Ident { .. } => true,
        NodeV::Call { args, .. } => list_placed(args),
        NodeV::Index { binding, idx, .. } => ops_placed(*binding) && ops_placed(*idx),
        NodeV::Block { list, .. } => list_placed(list),
        NodeV::For { start_expr, cond_expr, step_expr, loop_body, .. } => (match start_expr {
            Some(e) => ops_placed(*e),
            None => true,
        }) && ops_placed(*cond_expr) && ops_placed(*step_expr) && ops_placed(*loop_body),
        NodeV::Let { init, .. } => match init {
            Some(e) => ops_placed(*e),
            None => true,
        },
        NodeV::Fn { body, .. } => match body {
            Some(b) => ops_placed(*b),
            None => true,
        },
        NodeV::Struct { fields, methods, .. } => list_placed(fields) && list_placed(methods),
    }
}

pub open spec fn list_placed(s: Seq<NodeV>) -> bool
    decreases s, 0nat,
{
    if s.len() == 0 {
        true
    } else {
        ops_placed(s[0]) && list_placed(s.drop_first())
    }
}

/// Lowering a node whose operators stand where the parser puts them
/// leaves no compound-assignment, increment or decrement operator
/// anywhere in it.
pub proof fn lemma_lower_clean(n: NodeV)
    requires
        ops_placed(n),
    ensures
        op_clean(lower(n)),
    decreases n, 1nat,
{
    match n {
        NodeV::BinOp { op, lhs, rhs, .. } => {
            lemma_lower_clean(*lhs);
            lemma_lower_clean(*rhs);
            let l = lower(*lhs);
            let r = lower(*rhs);
            if is_compound(op) {
                assert(op_clean(
                    NodeV::BinOp {
                        op: base_op(op),
                        lhs: Box::new(l),
                        rhs: Box::new(r),
                        ty: node_ty_spec(l),
                    },
                ));
            }
        },
        NodeV::UnOp { op, rhs, .. } => {
            lemma_lower_clean(*rhs);
            let r = lower(*rhs);
            if is_incdec(op) {
                let t = eff_ty(r);
                assert(op_clean(NodeV::Lit { value: one_lit(t), ty: Some(t) }));
                assert(op_clean(
                    NodeV::BinOp {
                        op: base_op(op),
                        lhs: Box::new(r),
                        rhs: Box::new(NodeV::Lit { value: one_lit(t), ty: Some(t) }),
                        ty: Some(t),
                    },
                ));
            }
        },
        NodeV::Cond { cond_expr, then_block, else_block, .. } => {
            lemma_lower_clean(*cond_expr);
            lemma_lower_clean(*then_block);
            if let Some(e) = else_block {
                lemma_lower_clean(*e);
            } else {
                assert(list_clean(Seq::<NodeV>::empty()));
                assert(op_clean(NodeV::Block { list: Seq::empty(), ty: Some(TypeV::Void) }));
            }
        },
        NodeV::Lit { value, .. } => {
            if let LitV::Array { elements, .. } = value {
                lemma_lower_list_clean(elements);
            }
        },
        NodeV::Ident { .. } => {},
        NodeV::Call { args, .. } => {
            lemma_lower_list_clean(args);
        },
        NodeV::Index { binding, idx, .. } => {
            lemma_lower_clean(*binding);
            lemma_lower_clean(*idx);
        },
        NodeV::Block { list, .. } => {
            lemma_lower_list_clean(list);
        },
        NodeV::For { start_expr, cond_expr, step_expr, loop_body, .. } => {
            if let Some(e) = start_expr {
                lemma_lower_clean(*e);
            }
            lemma_lower_clean(*cond_expr);
            lemma_lower_clean(*step_expr);
            lemma_lower_clean(*loop_body);
        },
        NodeV::Let { init, .. } => {
            if let Some(e) = init {
                lemma_lower_clean(*e);
            }
        },
        NodeV::Fn { body, .. } => {
            if let Some(b) = body {
                lemma_lower_clean(*b);
            }
        },
        NodeV::Struct { fields, methods, .. } => {
            lemma_lower_list_clean(fields);
            lemma_lower_list_clean(methods);
        },
    }
}

pub proof fn lemma_lower_list_clean(s: Seq<NodeV>)
    requires
        list_placed(s),
    ensures
        list_clean(lower_list(s)),
    decreases s, 0nat,
{
    if s.len() > 0 {
        lemma_lower_clean(s[0]);
        lemma_lower_list_clean(s.drop_first());
        let out = seq![lower(s[0])] + lower_list(s.drop_first());
        assert(out[0] == lower(s[0]));
        assert(out.drop_first() =~= lower_list(s.drop_first()));
    }
}

fn one_lit_exec(t: &Type) -> (r: Literal)
    ensures
        r@ == one_lit(t@),
{
    match t {
        Type::Int8 => Literal::Int8(1),
        Type::Int16 => Literal::Int16(1),
        Type::Int32 => Literal::Int32(1),
        Type::Int64 => Literal::Int64(1),
        Type::UInt8 => Literal::UInt8(1),
        Type::UInt16 => Literal::UInt16(1),
        Type::UInt32 => Literal::UInt32(1),
        Type::UInt64 => Literal::UInt64(1),
        Type::Float => Literal::Float(String::from_str("1.0")),
        Type::Double => Literal::Double(String::from_str("1.0")),
        _ => Literal::Int32(1),
    }
}

fn base_op_exec(op: Operator) -> (r: Operator)
    ensures
        r == base_op(op),
{
    match op {
        Operator::AddEq => Operator::Add,
        Operator::Inc => Operator::Add,
        Operator::SubEq => Operator::Sub,
        Operator::Dec => Operator::Sub,
        Operator::MulEq => Operator::Mul,
        _ => Operator::Div,
    }
}

/// Lowers one typed node.
pub fn lower_node(node: AstNode) -> (r: AstNode)
    ensures
        r@ == lower(node@),
    decreases node_size(node@), 1nat,
{
    broadcast use group_ast_views;

    let ghost nv = node@;
    match node {
        AstNode::BinOp { op, lhs, rhs, ty } => {
            let l = lower_node(*lhs);
            let r = lower_node(*rhs);
            let compound = match op {
                Operator::AddEq => true,
                Operator::SubEq => true,
                Operator::MulEq => true,
                Operator::DivEq => true,
                _ => false,
            };
            if compound {
                let lty_inner = match l.ty() {
                    Some(t) => Some(t.clone()),
                    None => None,
                };
                let lty_outer = match l.ty() {
                    Some(t) => Some(t.clone()),
                    None => None,
                };
                let inner = AstNode::new_binop(base_op_exec(op), l.clone(), r, lty_inner);
                AstNode::new_binop(Operator::Assign, l, inner, lty_outer)
            } else {
                AstNode::new_binop(op, l, r, ty)
            }
        },
        AstNode::UnOp { op, rhs, ty } => {
            let r = lower_node(*rhs);
            let stepping = match op {
                Operator::Inc => true,
                Operator::Dec => true,
                _ => false,
            };
            if stepping {
                let t = crate::checker::eff_of(&r).clone();
                let one = AstNode::new_lit(one_lit_exec(&t), Some(t.clone()));
                let inner = AstNode::new_binop(base_op_exec(op), r.clone(), one, Some(t.clone()));
                AstNode::new_binop(Operator::Assign, r, inner, Some(t))
            } else {
                AstNode::new_unop(op, r, ty)
            }
        },
        AstNode::Cond { cond_expr, then_block, else_block, ty } => {
            proof {
                assert(node_size(nv) == 1 + node_size(*nv->Cond_cond_expr) + node_size(
                    *nv->Cond_then_block,
                ) + crate::checker::opt_size(nv->Cond_else_block));
            }
            let c = lower_node(*cond_expr);
            let t = lower_node(*then_block);
            let e = match else_block {
                Some(e) => lower_node(*e),
                None => {
                    let empty = AstNode::new_block(Vec::new(), Some(Type::Void));
                    proof {
                        assert(nodes_view(Seq::<AstNode>::empty()) =~= Seq::<NodeV>::empty());
                    }
                    empty
                },
            };
            AstNode::new_cond(c, t, Some(e), ty)
        },
        AstNode::Lit { value, ty } => {
            let value = match value {
                Literal::Array { elements, inner_ty } => {
                    proof {
                        assert(node_size(node_view(node)) == 1 + crate::checker::lit_size(
                            node_view(node)->Lit_value,
                        ));
                    }
                    Literal::Array { elements: lower_vec(elements), inner_ty }
                },
                other => other,
            };
            AstNode::Lit { value, ty }
        },
        AstNode::Ident { name, ty } => AstNode::Ident { name, ty },
        AstNode::Call { name, args, ty } => AstNode::new_call(name, lower_vec(args), ty),
        AstNode::Index { binding, idx, ty } => {
            let b = lower_node(*binding);
            let i = lower_node(*idx);
            AstNode::new_index(b, i, ty)
        },
        AstNode::Block { list, ty } => AstNode::new_block(lower_vec(list), ty),
        AstNode::For { start_name, start_antn, start_expr, cond_expr, step_expr, loop_body } => {
            proof {
                assert(node_size(nv) == 1 + crate::checker::opt_size(nv->For_start_expr)
                    + node_size(*nv->For_cond_expr) + node_size(*nv->For_step_expr) + node_size(
                    *nv->For_loop_body,
                ));
            }
            let se = match start_expr {
                Some(e) => Some(lower_node(*e)),
                None => None,
            };
            let c = lower_node(*cond_expr);
            let st = lower_node(*step_expr);
            let b = lower_node(*loop_body);
            AstNode::new_for(start_name, start_antn, se, c, st, b)
        },
        AstNode::Let { name, antn, init } => {
            proof {
                assert(node_size(nv) == 1 + crate::checker::opt_size(nv->Let_init));
            }
            let init = match init {
                Some(e) => Some(lower_node(*e)),
                None => None,
            };
            AstNode::new_let(name, antn, init)
        },
        AstNode::Fn { proto, body } => {
            proof {
                assert(node_size(nv) == 1 + crate::checker::opt_size(nv->Fn_body));
            }
            let body = match body {
                Some(b) => Some(lower_node(*b)),
                None => None,
            };
            AstNode::new_fn(*proto, body)
        },
        AstNode::Struct { name, fields, methods } => {
            let f = lower_vec(fields);
            let m = lower_vec(methods);
            AstNode::new_struct(name, f, m)
        },
    }
}

#[verifier::loop_isolation(false)]
fn lower_vec(nodes: Vec<AstNode>) -> (r: Vec<AstNode>)
    ensures
        nodes_view(r@) == lower_list(nodes_view(nodes@)),
    decreases list_size(nodes_view(nodes@)), 2nat,
{
    broadcast use group_ast_views;

    let ghost full = nodes_view(nodes@);
    let mut rem = nodes;
    let mut out: Vec<AstNode> = Vec::new();
    proof {
        assert(nodes_view(out@) =~= Seq::<NodeV>::empty());
    }
    while rem.len() > 0
        invariant
            lower_list(full) =~= nodes_view(out@) + lower_list(nodes_view(rem@)),
            crate::checker::list_size(nodes_view(rem@)) <= crate::checker::list_size(full),
        decreases rem.len(),
    {
        let ghost pre = rem@;
        let el = rem.remove(0);
        proof {
            crate::ast::lemma_nodes_view_index(pre);
            crate::ast::lemma_nodes_view_index(pre.drop_first());
            assert(rem@ =~= pre.drop_first());
            assert forall|k: int|
                0 <= k < pre.len() - 1 implies nodes_view(pre.drop_first())[k] == nodes_view(
                pre,
            ).drop_first()[k] by {
                assert(pre.drop_first()[k] == pre[k + 1]);
            }
            assert(nodes_view(pre.drop_first()) =~= nodes_view(pre).drop_first());
            assert(el@ == nodes_view(pre)[0]);
            crate::checker::lemma_list_size_index(nodes_view(pre), 0);
            crate::checker::lemma_list_size_skip(nodes_view(pre), 1);
            assert(nodes_view(pre).skip(1) =~= nodes_view(pre).drop_first());
        }
        let low = lower_node(el);
        let ghost outpre = out@;
        let ghost lowv = low@;
        out.push(low);
        proof {
            assert(out@ == outpre.push(out@.last()));
            assert(nodes_view(out@) =~= nodes_view(outpre).push(lowv));
            assert(nodes_view(outpre) + lower_list(nodes_view(pre)) =~= nodes_view(outpre) + (
            seq![lower(nodes_view(pre)[0])] + lower_list(nodes_view(pre).drop_first())));
            assert(nodes_view(outpre) + (seq![lowv] + lower_list(nodes_view(rem@)))
                =~= nodes_view(out@) + lower_list(nodes_view(rem@)));
        }
    }
    proof {
        assert(nodes_view(rem@) =~= Seq::<NodeV>::empty());
        assert(lower_list(nodes_view(rem@)) =~= Seq::<NodeV>::empty());
        assert(nodes_view(out@) + Seq::<NodeV>::empty() =~= nodes_view(out@));
    }
    out
}

/// Lowers a whole typed program, node by node, in program order.
pub fn lower_ast(ast: Ast) -> (r: Ast)
    ensures
        r@ == lower_list(ast@),
{
    broadcast use group_ast_views;

    let nodes = ast.into_nodes();
    let ghost full = nodes_view(nodes@);
    let out = lower_vec(nodes);
    let mut lowered = Ast::new();
    let mut out = out;
    let ghost outv = nodes_view(out@);
    while out.len() > 0
        invariant
            lowered@ + nodes_view(out@) =~= outv,
        decreases out.len(),
    {
        let ghost pre = out@;
        let node = out.remove(0);
        proof {
            crate::ast::lemma_nodes_view_index(pre);
            crate::ast::lemma_nodes_view_index(pre.drop_first());
            assert(out@ =~= pre.drop_first());
            assert forall|k: int|
                0 <= k < pre.len() - 1 implies nodes_view(pre.drop_first())[k] == nodes_view(
                pre,
            ).drop_first()[k] by {
                assert(pre.drop_first()[k] == pre[k + 1]);
            }
            assert(nodes_view(pre.drop_first()) =~= nodes_view(pre).drop_first());
        }
        lowered.add(node);
    }
    proof {
        assert(lowered@ =~= outv);
    }
    lowered
}

} // verus!
