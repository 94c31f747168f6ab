use vstd::prelude::*;

use crate::ast::{
    eff_ty, group_ast_views, is_num_lit, lit_view, node_ty_spec, node_view, nodes_view,
    opt_ty_view, Ast, AstNode, LitV, Literal, NodeV, ProtoV, Prototype,
};
use crate::strutil::{dec_spec, str_eq, u64_to_string};
use crate::symbol::{AssocDataV, FnDataV, Symbol, SymbolV};
use crate::symbol_table::{lookup_spec, SymbolTable};
use crate::types::{is_int, is_numeric, op_str, resolve_spec, ty_str, Operator, Type, TypeV};
use vstd::string::StringExecFns;

verus! {

/// The size of a node: every node counts one, children included. The
/// measure that the checker's recursion descends along.
pub open spec fn node_size(n: NodeV) -> nat
    decreases n,
{
    match n {
        NodeV::Lit { value, .. } => 1 + lit_size(value),
        NodeV::Ident { .. } => 1,
        NodeV::BinOp { lhs, rhs, .. } => 1 + node_size(*lhs) + node_size(*rhs),
        NodeV::UnOp { rhs, .. } => 1 + node_size(*rhs),
        NodeV::Call { args, .. } => 1 + list_size(args),
        NodeV::Index { binding, idx, .. } => 1 + node_size(*binding) + node_size(*idx),
        NodeV::Cond { cond_expr, then_block, else_block, .. } => 1 + node_size(*cond_expr)
            + node_size(*then_block) + opt_size(else_block),
        NodeV::Block { list, .. } => 1 + list_size(list),
        NodeV::For { start_expr, cond_expr, step_expr, loop_body, .. } => 1 + opt_size(start_expr)
            + node_size(*cond_expr) + node_size(*step_expr) + node_size(*loop_body),
        NodeV::Let { init, .. } => 1 + opt_size(init),
        NodeV::Fn { body, .. } => 1 + opt_size(body),
        NodeV::Struct { fields, methods, .. } => 1 + list_size(fields) + list_size(methods),
    }
}

pub open spec fn opt_size(o: Option<Box<NodeV>>) -> nat
    decreases o,
{
    match o {
        Some(b) => node_size(*b),
        None => 0,
    }
}

pub open spec fn list_size(s: Seq<NodeV>) -> nat
    decreases s,
{
    if s.len() == 0 {
        0
    } else {
        node_size(s[0]) + list_size(s.drop_first())
    }
}

pub open spec fn lit_size(l: LitV) -> nat
    decreases l,
{
    match l {
        LitV::Array { elements, .. } => 1 + list_size(elements),
        _ => 1,
    }
}

/// Every element weighs no more than its list.
pub proof fn lemma_list_size_index(s: Seq<NodeV>, i: int)
    requires
        0 <= i < s.len(),
    ensures
        node_size(s[i]) <= list_size(s),
    decreases s.len(),
{
    if i > 0 {
        lemma_list_size_index(s.drop_first(), i - 1);
    }
}

pub proof fn lemma_list_size_skip(s: Seq<NodeV>, i: int)
    requires
        0 <= i <= s.len(),
    ensures
        list_size(s.skip(i)) <= list_size(s),
    decreases i,
{
    if i > 0 {
        lemma_list_size_skip(s.drop_first(), i - 1);
        assert(s.drop_first().skip(i - 1) =~= s.skip(i));
    } else {
        assert(s.skip(0) =~= s);
    }
}

/// Whether an integer value fits the width of an integer type.
pub open spec fn int_fits(v: u64, h: TypeV) -> bool {
    match h {
        TypeV::Int8 => v <= i8::MAX as u64,
        TypeV::Int16 => v <= i16::MAX as u64,
        TypeV::Int32 => v <= i32::MAX as u64,
        TypeV::Int64 => v <= i64::MAX as u64,
        TypeV::UInt8 => v <= u8::MAX as u64,
        TypeV::UInt16 => v <= u16::MAX as u64,
        TypeV::UInt32 => v <= u32::MAX as u64,
        TypeV::UInt64 => true,
        _ => false,
    }
}

/// The literal an integer value narrows to at an integer width.
pub open spec fn narrow_int(v: u64, h: TypeV) -> LitV {
    match h {
        TypeV::Int8 => LitV::Int8(v as i8),
        TypeV::Int16 => LitV::Int16(v as i16),
        TypeV::Int32 => LitV::Int32(v as i32),
        TypeV::Int64 => LitV::Int64(v as i64),
        TypeV::UInt8 => LitV::UInt8(v as u8),
        TypeV::UInt16 => LitV::UInt16(v as u16),
        TypeV::UInt32 => LitV::UInt32(v as u32),
        _ => LitV::UInt64(v),
    }
}

/// The zero-valued literal node synthesized for a variable that is declared
/// without an initializer: zero for the integer widths, a zero spelling for
/// the floating widths, `false` for booleans, the null byte for characters,
/// and a zero-filled array of the right shape for arrays. `Void` and
/// composite annotations have no default.
pub open spec fn default_lit(antn: TypeV) -> Option<NodeV>
    decreases antn,
{
    match antn {
        TypeV::Int8 => Some(NodeV::Lit { value: LitV::Int8(0), ty: Some(antn) }),
        TypeV::Int16 => Some(NodeV::Lit { value: LitV::Int16(0), ty: Some(antn) }),
        TypeV::Int32 => Some(NodeV::Lit { value: LitV::Int32(0), ty: Some(antn) }),
        TypeV::Int64 => Some(NodeV::Lit { value: LitV::Int64(0), ty: Some(antn) }),
        TypeV::UInt8 => Some(NodeV::Lit { value: LitV::UInt8(0), ty: Some(antn) }),
        TypeV::UInt16 => Some(NodeV::Lit { value: LitV::UInt16(0), ty: Some(antn) }),
        TypeV::UInt32 => Some(NodeV::Lit { value: LitV::UInt32(0), ty: Some(antn) }),
        TypeV::UInt64 => Some(NodeV::Lit { value: LitV::UInt64(0), ty: Some(antn) }),
        TypeV::Float => Some(NodeV::Lit { value: LitV::Float("0.0"@), ty: Some(antn) }),
        TypeV::Double => Some(NodeV::Lit { value: LitV::Double("0.0"@), ty: Some(antn) }),
        TypeV::Bool => Some(NodeV::Lit { value: LitV::Bool(false), ty: Some(antn) }),
        TypeV::Char => Some(NodeV::Lit { value: LitV::Char('\0'), ty: Some(antn) }),
        TypeV::Array(el, len) => match default_lit(*el) {
            Some(d) => Some(
                NodeV::Lit {
                    value: LitV::Array {
                        elements: Seq::new(len as int as nat, |i: int| d),
                        inner_ty: Some(*el),
                    },
                    ty: Some(antn),
                },
            ),
            None => None,
        },
        TypeV::Void => None,
        TypeV::Comp(_) => None,
    }
}

/// The scope a function body is checked in: one variable symbol for each
/// parameter, in declaration order.
pub open spec fn param_scope(args: Seq<(Seq<char>, Seq<char>)>) -> Seq<SymbolV> {
    Seq::new(
        args.len(),
        |i: int| SymbolV { name: args[i].0, data: AssocDataV::Var(resolve_spec(args[i].1)) },
    )
}

/// The message a rejection carries, together with the symbol table as
/// the failing run leaves it: each checking function below fails with a
/// pair of both, so that a failing run is as fully determined as a
/// succeeding one.
pub open spec fn msg_unknown_variable(name: Seq<char>) -> Seq<char> {
    "Unknown variable: `"@ + name + "`"@
}

pub open spec fn msg_unop_not_numeric(op: Operator, rty: TypeV) -> Seq<char> {
    "Expected numeric type in unary operation `"@ + op_str(op) + "`, got rhs: `"@ + ty_str(rty)
        + "`"@
}

pub open spec fn msg_binop_mismatch(lty: TypeV, rty: TypeV) -> Seq<char> {
    "Mismatched types in binop: `"@ + ty_str(lty) + "` != `"@ + ty_str(rty) + "`"@
}

pub open spec fn msg_binop_bools(op: Operator, lty: TypeV, rty: TypeV) -> Seq<char> {
    "Expected bools on either side of `"@ + op_str(op) + "`, got lhs: `"@ + ty_str(lty)
        + "`, rhs: `"@ + ty_str(rty) + "`"@
}

pub open spec fn msg_binop_combo(op: Operator, lty: TypeV, rty: TypeV) -> Seq<char> {
    "Invalid type combination found in `"@ + op_str(op) + "` operation: (lhs: `"@ + ty_str(lty)
        + "`, rhs: `"@ + ty_str(rty) + "`)"@
}

pub open spec fn msg_undefined_function(name: Seq<char>) -> Seq<char> {
    "Call to undefined function: `"@ + name + "`"@
}

pub open spec fn msg_call_arity(name: Seq<char>, want: nat, got: nat) -> Seq<char> {
    "Call to `"@ + name + "()` takes "@ + dec_spec(want) + " args and "@ + dec_spec(got)
        + " were given"@
}

pub open spec fn msg_call_arg_mismatch(idx: nat, name: Seq<char>, fa: TypeV, ca: TypeV) -> Seq<
    char,
> {
    "Type mismatch in arg "@ + dec_spec(idx) + " of call to `"@ + name + "()`: `"@ + ty_str(fa)
        + "` != `"@ + ty_str(ca) + "`"@
}

pub open spec fn msg_cant_index(t: TypeV) -> Seq<char> {
    "Can't index `"@ + ty_str(t) + "`"@
}

pub open spec fn msg_index_not_int(t: TypeV) -> Seq<char> {
    "Array index must be an `int`, found `"@ + ty_str(t) + "`"@
}

pub open spec fn msg_cond_arms(thty: TypeV, ety: TypeV) -> Seq<char> {
    "Both arms of conditional must be the same type: `then` == `"@ + ty_str(thty) + "`; `else` == `"@
        + ty_str(ety) + "`"@
}

pub open spec fn msg_step_mismatch(sty: TypeV, name: Seq<char>, antn: TypeV) -> Seq<char> {
    "Step type mismatch in for statement. Step is `"@ + ty_str(sty) + "` but `"@ + name + "` is `"@
        + ty_str(antn) + "`"@
}

pub open spec fn msg_var_init(caller: Seq<char>, name: Seq<char>, antn: TypeV, got: TypeV) -> Seq<
    char,
> {
    "Types don't match in "@ + caller + ". `"@ + name + "` annotated with `"@ + ty_str(antn)
        + "` but initial value is `"@ + ty_str(got) + "`"@
}

pub open spec fn msg_main_annotated(t: TypeV) -> Seq<char> {
    "main()'s return value shouldn't be annotated. Found `"@ + ty_str(t) + "`"@
}

pub open spec fn msg_fn_ret_mismatch(name: Seq<char>, want: TypeV, got: TypeV) -> Seq<char> {
    "Function `"@ + name + "` should return type `"@ + ty_str(want) + "` but last statement is `"@
        + ty_str(got) + "`"@
}

pub open spec fn msg_missing_fn_entry(name: Seq<char>) -> Seq<char> {
    "missing symbol table entry for function: "@ + name
}

/// The message for a variable declared without an initializer whose
/// annotation has no zero value; for an array, the element type decides.
pub open spec fn msg_no_default(antn: TypeV) -> Seq<char>
    decreases antn,
{
    match antn {
        TypeV::Void => "void type for variable initialization annotation"@,
        TypeV::Array(el, _) => msg_no_default(*el),
        _ => "no default initialization for compound types"@,
    }
}

/// The context word an integer literal is rejected with under a
/// non-integer hint.
pub open spec fn msg_int_context(h: TypeV) -> Seq<char> {
    match h {
        TypeV::Float => "Literal is an integer in a float context"@,
        TypeV::Double => "Literal is an integer in a float context"@,
        TypeV::Bool => "Literal is an integer in a bool context"@,
        TypeV::Char => "Literal is an integer in a char context"@,
        TypeV::Array(..) => "Literal is an integer in an array context"@,
        TypeV::Void => "Literal is an integer in a void context"@,
        TypeV::Comp(_) => "Literal is an integer in a compound context"@,
        _ => Seq::empty(),
    }
}

/// The context word a floating literal is rejected with under a
/// non-floating hint.
pub open spec fn msg_float_context(h: TypeV) -> Seq<char> {
    match h {
        TypeV::Bool => "Literal is a float in a bool context"@,
        TypeV::Char => "Literal is a float in a char context"@,
        TypeV::Array(..) => "Literal is a float in an array context"@,
        TypeV::Void => "Literal is a float in a void context"@,
        TypeV::Comp(_) => "Literal is a float in a compound context"@,
        TypeV::Float => Seq::empty(),
        TypeV::Double => Seq::empty(),
        _ => "Literal is a float in an integer context"@,
    }
}

pub open spec fn msg_array_bad_hint(h: TypeV) -> Seq<char> {
    "Array literal has invalid type hint `"@ + ty_str(h) + "`"@
}

pub open spec fn msg_array_too_big(got: nat, want: nat) -> Seq<char> {
    "Array literal too big in assignment: `"@ + dec_spec(got) + "` > `"@ + dec_spec(want) + "`"@
}

pub open spec fn msg_array_elem(el: TypeV, want: TypeV) -> Seq<char> {
    "Array literal's element wrong type: `"@ + ty_str(el) + "` isn't a `"@ + ty_str(want) + "`"@
}

/// The first checked argument whose type differs from its formal
/// parameter's resolved type, if any.
pub open spec fn first_bad_arg(
    formals: Seq<(Seq<char>, Seq<char>)>,
    out: Seq<NodeV>,
    i: int,
) -> Option<int>
    decreases out.len() - i,
{
    if i < 0 || i >= out.len() || i >= formals.len() {
        None
    } else if eff_ty(out[i]) != resolve_spec(formals[i].1) {
        Some(i)
    } else {
        first_bad_arg(formals, out, i + 1)
    }
}

/// The first checked array element whose type differs from the hinted
/// element type, if any.
pub open spec fn first_bad_elem(els: Seq<NodeV>, want: TypeV, i: int) -> Option<int>
    decreases els.len() - i,
{
    if i < 0 || i >= els.len() {
        None
    } else if eff_ty(els[i]) != want {
        Some(i)
    } else {
        first_bad_elem(els, want, i + 1)
    }
}

/// The typing judgment, stated as a function: what the checker produces
/// from a symbol table, an optional hint, and a node — on acceptance the
/// rebuilt, fully typed node together with the table as the node's side
/// effects leave it; on rejection the exact error message and the table
/// as the failing run leaves it. The arms no run can reach — a `let`
/// with no scope open, which the checker's own preconditions exclude —
/// fail with the empty message, to keep the function total.
pub open spec fn chk(t: Seq<Seq<SymbolV>>, hint: Option<TypeV>, n: NodeV) -> Result<
    (NodeV, Seq<Seq<SymbolV>>),
    (Seq<char>, Seq<Seq<SymbolV>>),
>
    decreases n, 1nat,
{
    match n {
        NodeV::Lit { value, .. } => match chk_lit(t, hint, value) {
            Ok((v2, lt, t2)) => Ok((NodeV::Lit { value: v2, ty: Some(lt) }, t2)),
            Err(e) => Err(e),
        },
        NodeV::Ident { name, .. } => match lookup_spec(t, name) {
            Some(sym) => match sym.data {
                AssocDataV::Var(vt) => Ok((NodeV::Ident { name, ty: Some(vt) }, t)),
                _ => Err(("expected symbol to be a variable"@, t)),
            },
            None => Err((msg_unknown_variable(name), t)),
        },
        NodeV::BinOp { .. } => chk_binop_steps(t, n),
        NodeV::UnOp { op, rhs, .. } => match chk(t, None, *rhs) {
            Ok((r2, t1)) => {
                let rty = eff_ty(r2);
                if is_numeric(rty) {
                    Ok((NodeV::UnOp { op, rhs: Box::new(r2), ty: Some(rty) }, t1))
                } else {
                    Err((msg_unop_not_numeric(op, rty), t1))
                }
            },
            Err(e) => Err(e),
        },
        NodeV::Call { name, args, .. } => match lookup_spec(t, name) {
            Some(sym) => match sym.data {
                AssocDataV::Fn(f) => {
                    if f.args.len() != args.len() {
                        Err((msg_call_arity(name, f.args.len(), args.len()), t))
                    } else {
                        match chk_call_args(t, f.args, args) {
                            Ok((out, t2)) => match first_bad_arg(f.args, out, 0) {
                                None => Ok(
                                    (
                                        NodeV::Call {
                                            name,
                                            args: out,
                                            ty: Some(resolve_spec(f.ret_ty)),
                                        },
                                        t2,
                                    ),
                                ),
                                Some(i) => Err(
                                    (
                                        msg_call_arg_mismatch(
                                            (i + 1) as nat,
                                            name,
                                            resolve_spec(f.args[i].1),
                                            eff_ty(out[i]),
                                        ),
                                        t2,
                                    ),
                                ),
                            },
                            Err(e) => Err(e),
                        }
                    }
                },
                _ => Err(("expected symbol to be a function"@, t)),
            },
            None => Err((msg_undefined_function(name), t)),
        },
        NodeV::Index { binding, idx, .. } => match chk(t, None, *binding) {
            Ok((b2, t1)) => match eff_ty(b2) {
                TypeV::Array(el, _) => match chk(t1, Some(TypeV::Int32), *idx) {
                    Ok((i2, t2)) => {
                        let ity = eff_ty(i2);
                        if !is_int(ity) {
                            Err((msg_index_not_int(ity), t2))
                        } else if ity != TypeV::Int32 {
                            Err(("Index must be an int32 (for now)"@, t2))
                        } else {
                            Ok(
                                (
                                    NodeV::Index {
                                        binding: Box::new(b2),
                                        idx: Box::new(i2),
                                        ty: Some(*el),
                                    },
                                    t2,
                                ),
                            )
                        }
                    },
                    Err(e) => Err(e),
                },
                bt => Err((msg_cant_index(bt), t1)),
            },
            Err(e) => Err(e),
        },
        NodeV::Cond { cond_expr, then_block, else_block, .. } => match chk(t, None, *cond_expr) {
            Ok((c2, t1)) => {
                if eff_ty(c2) != TypeV::Bool {
                    Err(("Conditional should always be a bool"@, t1))
                } else {
                    match chk(t1, None, *then_block) {
                        Ok((th2, t2)) => {
                            let thty = eff_ty(th2);
                            match else_block {
                                Some(e) => match chk(t2, Some(thty), *e) {
                                    Ok((e2, t3)) => {
                                        if eff_ty(e2) == thty {
                                            Ok(
                                                (
                                                    NodeV::Cond {
                                                        cond_expr: Box::new(c2),
                                                        then_block: Box::new(th2),
                                                        else_block: Some(Box::new(e2)),
                                                        ty: Some(thty),
                                                    },
                                                    t3,
                                                ),
                                            )
                                        } else {
                                            Err((msg_cond_arms(thty, eff_ty(e2)), t3))
                                        }
                                    },
                                    Err(e) => Err(e),
                                },
                                None => Ok(
                                    (
                                        NodeV::Cond {
                                            cond_expr: Box::new(c2),
                                            then_block: Box::new(th2),
                                            else_block: None,
                                            ty: Some(thty),
                                        },
                                        t2,
                                    ),
                                ),
                            }
                        },
                        Err(e) => Err(e),
                    }
                }
            },
            Err(e) => Err(e),
        },
        NodeV::Block { list, .. } => {
            let t1 = t.push(Seq::<SymbolV>::empty());
            match chk_list(t1, None, list) {
                Ok((out, t2)) => {
                    let list_ty = if out.len() == 0 {
                        TypeV::Void
                    } else {
                        eff_ty(out.last())
                    };
                    Ok((NodeV::Block { list: out, ty: Some(list_ty) }, t2.drop_last()))
                },
                Err(e) => Err(e),
            }
        },
        NodeV::For { start_name, start_antn, start_expr, cond_expr, step_expr, loop_body } => {
            let t1 = t.push(
                seq![SymbolV { name: start_name, data: AssocDataV::Var(start_antn) }],
            );
            let init_r = match start_expr {
                Some(e) => match chk(t1, Some(start_antn), *e) {
                    Ok((i2, t2)) => {
                        if eff_ty(i2) == start_antn {
                            Ok((i2, t2))
                        } else {
                            Err(
                                (
                                    msg_var_init(
                                        "for statement"@,
                                        start_name,
                                        start_antn,
                                        eff_ty(i2),
                                    ),
                                    t2,
                                ),
                            )
                        }
                    },
                    Err(e) => Err(e),
                },
                None => match default_lit(start_antn) {
                    Some(d) => Ok((d, t1)),
                    None => Err((msg_no_default(start_antn), t1)),
                },
            };
            match init_r {
                Ok((i2, t2)) => match chk(t2, None, *cond_expr) {
                    Ok((c2, t3)) => {
                        if eff_ty(c2) != TypeV::Bool {
                            Err(("For loop conditional should always be a bool"@, t3))
                        } else {
                            match chk(t3, Some(start_antn), *step_expr) {
                                Ok((s2, t4)) => {
                                    if eff_ty(s2) != start_antn {
                                        Err(
                                            (
                                                msg_step_mismatch(
                                                    eff_ty(s2),
                                                    start_name,
                                                    start_antn,
                                                ),
                                                t4,
                                            ),
                                        )
                                    } else {
                                        match chk(t4, None, *loop_body) {
                                            Ok((b2, t5)) => Ok(
                                                (
                                                    NodeV::For {
                                                        start_name,
                                                        start_antn,
                                                        start_expr: Some(Box::new(i2)),
                                                        cond_expr: Box::new(c2),
                                                        step_expr: Box::new(s2),
                                                        loop_body: Box::new(b2),
                                                    },
                                                    t5.drop_last(),
                                                ),
                                            ),
                                            Err(e) => Err(e),
                                        }
                                    }
                                },
                                Err(e) => Err(e),
                            }
                        }
                    },
                    Err(e) => Err(e),
                },
                Err(e) => Err(e),
            }
        },
        NodeV::Let { name, antn, init } => {
            if t.len() == 0 {
                Err((Seq::empty(), t))
            } else {
                let t1 = t.update(
                    t.len() - 1,
                    t.last().push(SymbolV { name, data: AssocDataV::Var(antn) }),
                );
                let init_r = match init {
                    Some(e) => match chk(t1, Some(antn), *e) {
                        Ok((i2, t2)) => {
                            if eff_ty(i2) == antn {
                                Ok((i2, t2))
                            } else {
                                Err(
                                    (
                                        msg_var_init("let statement"@, name, antn, eff_ty(i2)),
                                        t2,
                                    ),
                                )
                            }
                        },
                        Err(e) => Err(e),
                    },
                    None => match default_lit(antn) {
                        Some(d) => Ok((d, t1)),
                        None => Err((msg_no_default(antn), t1)),
                    },
                };
                match init_r {
                    Ok((i2, t2)) => Ok((NodeV::Let { name, antn, init: Some(Box::new(i2)) }, t2)),
                    Err(e) => Err(e),
                }
            }
        },
        NodeV::Fn { proto, body } => match lookup_spec(t, proto.name) {
            Some(sym) => match sym.data {
                AssocDataV::Fn(f) => match body {
                    None => Ok((NodeV::Fn { proto, body: None }, t)),
                    Some(b) => {
                        let t1 = t.push(param_scope(proto.args));
                        match chk(t1, None, *b) {
                            Ok((b2, t2)) => {
                                let bty = eff_ty(b2);
                                let is_main = proto.name == "main"@;
                                if is_main && proto.ret_ty != TypeV::Void {
                                    Err((msg_main_annotated(proto.ret_ty), t2))
                                } else {
                                    let fret = resolve_spec(f.ret_ty);
                                    if fret != bty && fret != TypeV::Void && !is_main {
                                        Err((msg_fn_ret_mismatch(proto.name, fret, bty), t2))
                                    } else {
                                        let proto2 = ProtoV {
                                            ret_ty: if is_main {
                                                TypeV::Void
                                            } else {
                                                fret
                                            },
                                            ..proto
                                        };
                                        Ok(
                                            (
                                                NodeV::Fn {
                                                    proto: proto2,
                                                    body: Some(Box::new(b2)),
                                                },
                                                t2.drop_last(),
                                            ),
                                        )
                                    }
                                }
                            },
                            Err(e) => Err(e),
                        }
                    },
                },
                _ => Err(("expected symbol to be a function"@, t)),
            },
            None => Err((msg_missing_fn_entry(proto.name), t)),
        },
        NodeV::Struct { name, fields, methods } => match chk_list(t, None, fields) {
            Ok((f2, t1)) => match chk_list(t1, None, methods) {
                Ok((m2, t2)) => Ok((NodeV::Struct { name, fields: f2, methods: m2 }, t2)),
                Err(e) => Err(e),
            },
            Err(e) => Err(e),
        },
    }
}

/// The two operand checks of a binary operation: a lone numeric literal
/// on the left is checked after the right side, which hints its type;
/// otherwise left first, hinting right. An assignment demands a variable
/// or an index on its left.
pub open spec fn chk_binop_steps(t: Seq<Seq<SymbolV>>, n: NodeV) -> Result<
    (NodeV, Seq<Seq<SymbolV>>),
    (Seq<char>, Seq<Seq<SymbolV>>),
>
    recommends
        n is BinOp,
    decreases n, 0nat,
{
    match n {
        NodeV::BinOp { op, lhs, rhs, .. } => {
            if op == Operator::Assign && !(*lhs matches NodeV::Ident { .. } || *lhs
                matches NodeV::Index { .. }) {
                Err(("Expected LHS to be a variable for assignment"@, t))
            } else {
                let steps = if is_num_lit(*lhs) && !is_num_lit(*rhs) {
                    match chk(t, None, *rhs) {
                        Ok((r2, t1)) => match chk(t1, Some(eff_ty(r2)), *lhs) {
                            Ok((l2, t2)) => Ok((l2, r2, t2)),
                            Err(e) => Err(e),
                        },
                        Err(e) => Err(e),
                    }
                } else {
                    match chk(t, None, *lhs) {
                        Ok((l2, t1)) => match chk(t1, Some(eff_ty(l2)), *rhs) {
                            Ok((r2, t2)) => Ok((l2, r2, t2)),
                            Err(e) => Err(e),
                        },
                        Err(e) => Err(e),
                    }
                };
                match steps {
                    Ok((l2, r2, t2)) => {
                        let lty = eff_ty(l2);
                        let rty = eff_ty(r2);
                        if lty != rty {
                            Err((msg_binop_mismatch(lty, rty), t2))
                        } else {
                            match binop_result_ty(op, lty, rty) {
                                Ok(ty_out) => Ok(
                                    (
                                        NodeV::BinOp {
                                            op,
                                            lhs: Box::new(l2),
                                            rhs: Box::new(r2),
                                            ty: Some(ty_out),
                                        },
                                        t2,
                                    ),
                                ),
                                Err(e) => Err((e, t2)),
                            }
                        }
                    },
                    Err(e) => Err(e),
                }
            }
        },
        _ => Err((Seq::empty(), t)),
    }
}

/// What type a binary operation has once its two sides agree: the logical
/// operators demand booleans and give one; the comparisons demand numeric
/// or character operands and give a boolean; the arithmetic and bitwise
/// operators demand numeric operands and keep their type; an assignment
/// takes the type of the value it assigns, so that a `for` step written
/// as an assignment carries the stepped variable's type; the compound
/// forms are left for the lowerer and marked `Void`. A side of the wrong
/// kind is the exact message it is rejected with.
pub open spec fn binop_result_ty(op: Operator, lty: TypeV, rty: TypeV) -> Result<
    TypeV,
    Seq<char>,
> {
    match op {
        Operator::And | Operator::Or => {
            if lty == TypeV::Bool && rty == TypeV::Bool {
                Ok(TypeV::Bool)
            } else {
                Err(msg_binop_bools(op, lty, rty))
            }
        },
        Operator::Eq | Operator::NotEq => {
            if (is_numeric(lty) || lty == TypeV::Bool || lty == TypeV::Char) && (is_numeric(rty)
                || rty == TypeV::Bool || rty == TypeV::Char) {
                Ok(TypeV::Bool)
            } else {
                Err(msg_binop_combo(op, lty, rty))
            }
        },
        Operator::Gt | Operator::GtEq | Operator::Lt | Operator::LtEq => {
            if (is_numeric(lty) || lty == TypeV::Char) && (is_numeric(rty) || rty == TypeV::Char) {
                Ok(TypeV::Bool)
            } else {
                Err(msg_binop_combo(op, lty, rty))
            }
        },
        Operator::Add | Operator::Div | Operator::Mul | Operator::Pow | Operator::Sub
            | Operator::BitAnd | Operator::BitXor | Operator::BitOr => {
            if is_numeric(lty) && is_numeric(rty) {
                Ok(lty)
            } else {
                Err(msg_binop_combo(op, lty, rty))
            }
        },
        Operator::Assign => Ok(lty),
        _ => Ok(TypeV::Void),
    }
}

/// Literal narrowing: how a literal and an optional hint give the
/// literal's final form and type, or the exact rejection. Integer
/// literals arrive in the widest unsigned form and are narrowed here,
/// exactly once.
pub open spec fn chk_lit(t: Seq<Seq<SymbolV>>, hint: Option<TypeV>, l: LitV) -> Result<
    (LitV, TypeV, Seq<Seq<SymbolV>>),
    (Seq<char>, Seq<Seq<SymbolV>>),
>
    decreases l, 0nat,
{
    match hint {
        Some(h) => match l {
            LitV::Int8(v) => Ok((l, TypeV::Int8, t)),
            LitV::Int16(v) => Ok((l, TypeV::Int16, t)),
            LitV::Int32(v) => Ok((l, TypeV::Int32, t)),
            LitV::Int64(v) => Ok((l, TypeV::Int64, t)),
            LitV::UInt8(v) => Ok((l, TypeV::UInt8, t)),
            LitV::UInt16(v) => Ok((l, TypeV::UInt16, t)),
            LitV::UInt32(v) => Ok((l, TypeV::UInt32, t)),
            LitV::UInt64(v) => {
                if is_int(h) {
                    if int_fits(v, h) {
                        Ok((narrow_int(v, h), h, t))
                    } else {
                        Err(("Numeric literal out of range"@, t))
                    }
                } else {
                    Err((msg_int_context(h), t))
                }
            },
            LitV::Float(s) => match h {
                TypeV::Float => Ok((LitV::Float(s), TypeV::Float, t)),
                TypeV::Double => Ok((LitV::Double(s), TypeV::Double, t)),
                _ => Err((msg_float_context(h), t)),
            },
            LitV::Double(s) => Ok((l, TypeV::Double, t)),
            LitV::Bool(v) => Ok((l, TypeV::Bool, t)),
            LitV::Char(v) => Ok((l, TypeV::Char, t)),
            LitV::Array { elements, .. } => match h {
                TypeV::Array(el, size) => {
                    if elements.len() > size {
                        Err((msg_array_too_big(elements.len(), size), t))
                    } else {
                        match chk_list(t, Some(*el), elements) {
                            Ok((els, t2)) => match first_bad_elem(els, *el, 0) {
                                None => Ok(
                                    (
                                        LitV::Array { elements: els, inner_ty: Some(*el) },
                                        TypeV::Array(el, size),
                                        t2,
                                    ),
                                ),
                                Some(i) => Err((msg_array_elem(eff_ty(els[i]), *el), t2)),
                            },
                            Err(e) => Err(e),
                        }
                    }
                },
                _ => Err((msg_array_bad_hint(h), t)),
            },
        },
        None => match l {
            LitV::Int32(v) => Ok((l, TypeV::Int32, t)),
            LitV::UInt64(v) => {
                if v <= i32::MAX as u64 {
                    Ok((LitV::Int32(v as i32), TypeV::Int32, t))
                } else {
                    Err(("Numeric literal out of range"@, t))
                }
            },
            LitV::Float(s) => Ok((l, TypeV::Float, t)),
            LitV::Bool(v) => Ok((l, TypeV::Bool, t)),
            LitV::Char(v) => Ok((l, TypeV::Char, t)),
            LitV::Array { .. } => Err(("Array literal needs a type hint"@, t)),
            _ => Err(("numeric conversion error"@, t)),
        },
    }
}

/// A list of nodes checked left to right, every one with the same hint,
/// each seeing the table as the one before it left it; the first failure
/// is the list's.
pub open spec fn chk_list(t: Seq<Seq<SymbolV>>, hint: Option<TypeV>, s: Seq<NodeV>) -> Result<
    (Seq<NodeV>, Seq<Seq<SymbolV>>),
    (Seq<char>, Seq<Seq<SymbolV>>),
>
    decreases s, 0nat,
{
    if s.len() == 0 {
        Ok((Seq::empty(), t))
    } else {
        match chk(t, hint, s[0]) {
            Ok((n2, t1)) => match chk_list(t1, hint, s.drop_first()) {
                Ok((rest, t2)) => Ok((seq![n2] + rest, t2)),
                Err(e) => Err(e),
            },
            Err(e) => Err(e),
        }
    }
}

/// Call arguments checked left to right, each with the matching formal
/// parameter's resolved type as its hint.
pub open spec fn chk_call_args(
    t: Seq<Seq<SymbolV>>,
    formals: Seq<(Seq<char>, Seq<char>)>,
    args: Seq<NodeV>,
) -> Result<(Seq<NodeV>, Seq<Seq<SymbolV>>), (Seq<char>, Seq<Seq<SymbolV>>)>
    decreases args, 0nat,
{
    if args.len() == 0 {
        Ok((Seq::empty(), t))
    } else if formals.len() == 0 {
        Err((Seq::empty(), t))
    } else {
        match chk(t, Some(resolve_spec(formals[0].1)), args[0]) {
            Ok((a2, t1)) => match chk_call_args(t1, formals.drop_first(), args.drop_first()) {
                Ok((rest, t2)) => Ok((seq![a2] + rest, t2)),
                Err(e) => Err(e),
            },
            Err(e) => Err(e),
        }
    }
}

} // verus!
use vstd::prelude::*;

verus! {

/// Well-typedness of the checker's output: every expression node carries a
/// resolved type, and the two sides of every binary operation agree.
pub open spec fn typed_wf(n: NodeV) -> bool
    decreases n, 1nat,
{
    match n {
        NodeV::Lit { value, ty } => ty is Some && lit_wf(value),
        NodeV::Ident { ty, .. } => ty is Some,
        NodeV::BinOp { lhs, rhs, ty, .. } => ty is Some && typed_wf(*lhs) && typed_wf(*rhs)
            && eff_ty(*lhs) == eff_ty(*rhs),
        NodeV::UnOp { rhs, ty, .. } => ty is Some && typed_wf(*rhs),
        NodeV::Call { args, ty, .. } => ty is Some && list_wf(args),
        NodeV::Index { binding, idx, ty } => ty is Some && typed_wf(*binding) && typed_wf(*idx),
        NodeV::Cond { cond_expr, then_block, else_block, ty } => ty is Some && typed_wf(*cond_expr)
            && typed_wf(*then_block) && (match else_block {
            Some(e) => typed_wf(*e),
            None => true,
        }),
        NodeV::Block { list, ty } => ty is Some && list_wf(list),
        NodeV::For { start_expr, cond_expr, step_expr, loop_body, .. } => (match start_expr {
            Some(e) => typed_wf(*e),
            None => false,
        }) && typed_wf(*cond_expr) && typed_wf(*step_expr) && typed_wf(*loop_body),
        NodeV::Let { init, .. } => match init {
            Some(e) => typed_wf(*e),
            None => false,
        },
        NodeV::Fn { body, .. } => match body {
            Some(b) => typed_wf(*b),
            None => true,
        },
        NodeV::Struct { fields, methods, .. } => list_wf(fields) && list_wf(methods),
    }
}

pub open spec fn list_wf(s: Seq<NodeV>) -> bool
    decreases s, 0nat,
{
    if s.len() == 0 {
        true
    } else {
        typed_wf(s[0]) && list_wf(s.drop_first())
    }
}

pub open spec fn lit_wf(l: LitV) -> bool
    decreases l, 0nat,
{
    match l {
        LitV::Array { elements, inner_ty } => inner_ty is Some && list_wf(elements),
        _ => true,
    }
}

proof fn lemma_default_wf(antn: TypeV)
    ensures
        match default_lit(antn) {
            Some(d) => typed_wf(d) && node_ty_spec(d) == Some(antn),
            None => true,
        },
    decreases antn,
{
    if let TypeV::Array(el, len) = antn {
        lemma_default_wf(*el);
    }
    if let Some(d) = default_lit(antn) {
        if let NodeV::Lit { value, ty } = d {
            match value {
                LitV::Array { elements, inner_ty } => {
                    if let TypeV::Array(el, len) = antn {
                        if let Some(inner_d) = default_lit(*el) {
                            assert(forall|i: int|
                                0 <= i < elements.len() ==> elements[i] == inner_d);
                            lemma_default_list_wf(inner_d, elements);
                        }
                    }
                    assert(lit_wf(value));
                },
                _ => {
                    assert(lit_wf(value));
                },
            }
        }
    }
}

proof fn lemma_default_list_wf(d: NodeV, s: Seq<NodeV>)
    requires
        typed_wf(d),
        forall|i: int| 0 <= i < s.len() ==> s[i] == d,
    ensures
        list_wf(s),
    decreases s.len(),
{
    if s.len() > 0 {
        lemma_default_list_wf(d, s.drop_first());
    }
}

/// The central induction: a successful check leaves the scope stack as
/// deep as it found it, and yields a well-typed node.
#[verifier::rlimit(100)]
pub proof fn lemma_chk_props(t: Seq<Seq<SymbolV>>, hint: Option<TypeV>, n: NodeV)
    ensures
        match chk(t, hint, n) {
            Ok((m, t2)) => t2.len() == t.len() && typed_wf(m),
            Err(_) => true,
        },
    decreases n, 1nat,
{
    match n {
        NodeV::Lit { value, ty } => {
            lemma_chk_lit_props(t, hint, value);
        },
        NodeV::Ident { .. } => {},
        NodeV::BinOp { op, lhs, rhs, .. } => {
            lemma_chk_binop_props(t, n);
        },
        NodeV::UnOp { op, rhs, .. } => {
            lemma_chk_props(t, None, *rhs);
        },
        NodeV::Call { name, args, .. } => {
            if let Some(sym) = lookup_spec(t, name) {
                if let AssocDataV::Fn(f) = sym.data {
                    lemma_chk_args_props(t, f.args, args);
                }
            }
        },
        NodeV::Index { binding, idx, .. } => {
            lemma_chk_props(t, None, *binding);
            if let Ok((b2, t1)) = chk(t, None, *binding) {
                lemma_chk_props(t1, Some(TypeV::Int32), *idx);
            }
        },
        NodeV::Cond { cond_expr, then_block, else_block, .. } => {
            lemma_chk_props(t, None, *cond_expr);
            if let Ok((c2, t1)) = chk(t, None, *cond_expr) {
                lemma_chk_props(t1, None, *then_block);
                if let Ok((th2, t2)) = chk(t1, None, *then_block) {
                    if let Some(e) = else_block {
                        lemma_chk_props(t2, Some(eff_ty(th2)), *e);
                    }
                }
            }
        },
        NodeV::Block { list, .. } => {
            let t1 = t.push(Seq::<SymbolV>::empty());
            lemma_chk_list_props(t1, None, list);
        },
        NodeV::For { start_name, start_antn, start_expr, cond_expr, step_expr, loop_body } => {
            let t1 = t.push(seq![SymbolV { name: start_name, data: AssocDataV::Var(start_antn) }]);
            match start_expr {
                Some(e) => {
                    lemma_chk_props(t1, Some(start_antn), *e);
                },
                None => {
                    lemma_default_wf(start_antn);
                },
            }
            let init_r = match start_expr {
                Some(e) => match chk(t1, Some(start_antn), *e) {
                    Ok((i2, t2)) => {
                        if eff_ty(i2) == start_antn {
                            Ok((i2, t2))
                        } else {
                            Err(())
                        }
                    },
                    Err(_) => Err(()),
                },
                None => match default_lit(start_antn) {
                    Some(d) => Ok((d, t1)),
                    None => Err(()),
                },
            };
            if let Ok((i2, t2)) = init_r {
                lemma_chk_props(t2, None, *cond_expr);
                if let Ok((c2, t3)) = chk(t2, None, *cond_expr) {
                    lemma_chk_props(t3, Some(start_antn), *step_expr);
                    if let Ok((s2, t4)) = chk(t3, Some(start_antn), *step_expr) {
                        lemma_chk_props(t4, None, *loop_body);
                    }
                }
            }
        },
        NodeV::Let { name, antn, init } => {
            if t.len() > 0 {
                let t1 = t.update(
                    t.len() - 1,
                    t.last().push(SymbolV { name, data: AssocDataV::Var(antn) }),
                );
                match init {
                    Some(e) => {
                        lemma_chk_props(t1, Some(antn), *e);
                    },
                    None => {
                        lemma_default_wf(antn);
                    },
                }
            }
        },
        NodeV::Fn { proto, body } => {
            if let Some(sym) = lookup_spec(t, proto.name) {
                if let AssocDataV::Fn(f) = sym.data {
                    if let Some(b) = body {
                        let t1 = t.push(param_scope(proto.args));
                        lemma_chk_props(t1, None, *b);
                    }
                }
            }
        },
        NodeV::Struct { name, fields, methods } => {
            lemma_chk_list_props(t, None, fields);
            if let Ok((f2, t1)) = chk_list(t, None, fields) {
                lemma_chk_list_props(t1, None, methods);
            }
        },
    }
}

proof fn lemma_chk_binop_props(t: Seq<Seq<SymbolV>>, n: NodeV)
    requires
        n is BinOp,
    ensures
        match chk_binop_steps(t, n) {
            Ok((m, t2)) => t2.len() == t.len() && typed_wf(m),
            Err(_) => true,
        },
    decreases n, 0nat,
{
    if let NodeV::BinOp { op, lhs, rhs, .. } = n {
        if is_num_lit(*lhs) && !is_num_lit(*rhs) {
            lemma_chk_props(t, None, *rhs);
            if let Ok((r2, t1)) = chk(t, None, *rhs) {
                lemma_chk_props(t1, Some(eff_ty(r2)), *lhs);
            }
        } else {
            lemma_chk_props(t, None, *lhs);
            if let Ok((l2, t1)) = chk(t, None, *lhs) {
                lemma_chk_props(t1, Some(eff_ty(l2)), *rhs);
            }
        }
    }
}

proof fn lemma_chk_lit_props(t: Seq<Seq<SymbolV>>, hint: Option<TypeV>, l: LitV)
    ensures
        match chk_lit(t, hint, l) {
            Ok((v2, lt, t2)) => t2.len() == t.len() && lit_wf(v2),
            Err(_) => true,
        },
    decreases l, 0nat,
{
    if let LitV::Array { elements, .. } = l {
        if let Some(TypeV::Array(el, size)) = hint {
            lemma_chk_list_props(t, Some(*el), elements);
        }
    }
}

proof fn lemma_chk_list_props(t: Seq<Seq<SymbolV>>, hint: Option<TypeV>, s: Seq<NodeV>)
    ensures
        match chk_list(t, hint, s) {
            Ok((out, t2)) => t2.len() == t.len() && out.len() == s.len() && list_wf(out),
            Err(_) => true,
        },
    decreases s, 0nat,
{
    if s.len() > 0 {
        lemma_chk_props(t, hint, s[0]);
        if let Ok((n2, t1)) = chk(t, hint, s[0]) {
            lemma_chk_list_props(t1, hint, s.drop_first());
            if let Ok((rest, t2)) = chk_list(t1, hint, s.drop_first()) {
                let out = seq![n2] + rest;
                assert(out.drop_first() =~= rest);
                assert(out[0] == n2);
            }
        }
    }
}

proof fn lemma_chk_args_props(
    t: Seq<Seq<SymbolV>>,
    formals: Seq<(Seq<char>, Seq<char>)>,
    args: Seq<NodeV>,
)
    ensures
        match chk_call_args(t, formals, args) {
            Ok((out, t2)) => t2.len() == t.len() && out.len() == args.len() && list_wf(out),
            Err(_) => true,
        },
    decreases args, 0nat,
{
    if args.len() > 0 && formals.len() > 0 {
        lemma_chk_props(t, Some(resolve_spec(formals[0].1)), args[0]);
        if let Ok((a2, t1)) = chk(t, Some(resolve_spec(formals[0].1)), args[0]) {
            lemma_chk_args_props(t1, formals.drop_first(), args.drop_first());
            if let Ok((rest, t2)) = chk_call_args(t1, formals.drop_first(), args.drop_first()) {
                let out = seq![a2] + rest;
                assert(out.drop_first() =~= rest);
                assert(out[0] == a2);
            }
        }
    }
}

/// What `first_bad_arg` finds: nothing exactly when every argument from
/// `j` on matches its formal, else the first mismatch.
pub proof fn lemma_first_bad_arg_from(
    formals: Seq<(Seq<char>, Seq<char>)>,
    out: Seq<NodeV>,
    j: int,
)
    requires
        0 <= j <= out.len(),
        out.len() <= formals.len(),
    ensures
        match first_bad_arg(formals, out, j) {
            None => forall|k: int|
                j <= k < out.len() ==> eff_ty(#[trigger] out[k]) == resolve_spec(formals[k].1),
            Some(i) => j <= i < out.len() && eff_ty(out[i]) != resolve_spec(formals[i].1)
                && forall|k: int|
                j <= k < i ==> eff_ty(#[trigger] out[k]) == resolve_spec(formals[k].1),
        },
    decreases out.len() - j,
{
    if j < out.len() {
        lemma_first_bad_arg_from(formals, out, j + 1);
    }
}

/// What `first_bad_elem` finds, in the same way.
pub proof fn lemma_first_bad_elem_from(els: Seq<NodeV>, want: TypeV, j: int)
    requires
        0 <= j <= els.len(),
    ensures
        match first_bad_elem(els, want, j) {
            None => forall|k: int| j <= k < els.len() ==> eff_ty(#[trigger] els[k]) == want,
            Some(i) => j <= i < els.len() && eff_ty(els[i]) != want && forall|k: int|
                j <= k < i ==> eff_ty(#[trigger] els[k]) == want,
        },
    decreases els.len() - j,
{
    if j < els.len() {
        lemma_first_bad_elem_from(els, want, j + 1);
    }
}

proof fn lemma_first_bad_arg_skip(formals: Seq<(Seq<char>, Seq<char>)>, out: Seq<NodeV>, j: int)
    requires
        0 <= j <= out.len(),
        out.len() <= formals.len(),
        forall|k: int| 0 <= k < j ==> eff_ty(#[trigger] out[k]) == resolve_spec(formals[k].1),
    ensures
        first_bad_arg(formals, out, 0) == first_bad_arg(formals, out, j),
    decreases j,
{
    if j > 0 {
        lemma_first_bad_arg_skip_step(formals, out, j - 1);
        lemma_first_bad_arg_skip(formals, out, j - 1);
    }
}

proof fn lemma_first_bad_arg_skip_step(
    formals: Seq<(Seq<char>, Seq<char>)>,
    out: Seq<NodeV>,
    j: int,
)
    requires
        0 <= j < out.len(),
        out.len() <= formals.len(),
        eff_ty(out[j]) == resolve_spec(formals[j].1),
    ensures
        first_bad_arg(formals, out, j) == first_bad_arg(formals, out, j + 1),
{
}

proof fn lemma_first_bad_elem_skip(els: Seq<NodeV>, want: TypeV, j: int)
    requires
        0 <= j <= els.len(),
        forall|k: int| 0 <= k < j ==> eff_ty(#[trigger] els[k]) == want,
    ensures
        first_bad_elem(els, want, 0) == first_bad_elem(els, want, j),
    decreases j,
{
    if j > 0 {
        assert(first_bad_elem(els, want, j - 1) == first_bad_elem(els, want, j));
        lemma_first_bad_elem_skip(els, want, j - 1);
    }
}

/// Every well-typed program comes out of the checker with every expression
/// node carrying a resolved type, and with the two sides of every binary
/// operation of one type.
pub proof fn lemma_checker_output_typed(t: Seq<Seq<SymbolV>>, hint: Option<TypeV>, n: NodeV)
    ensures
        chk(t, hint, n) matches Ok((m, t2)) ==> typed_wf(m),
{
    lemma_chk_props(t, hint, n);
}

/// Scope discipline: a successful check, whatever it opened on the way,
/// closes every scope it opened — the table is as deep after as before.
pub proof fn lemma_checker_scope_discipline(t: Seq<Seq<SymbolV>>, hint: Option<TypeV>, n: NodeV)
    ensures
        chk(t, hint, n) matches Ok((m, t2)) ==> t2.len() == t.len(),
{
    lemma_chk_props(t, hint, n);
}

/// Scope discipline over a whole stage run: checking a program leaves
/// the scope stack exactly as deep as it found it.
pub proof fn lemma_walk_scope_discipline(t: Seq<Seq<SymbolV>>, s: Seq<NodeV>)
    ensures
        chk_list(t, None, s) matches Ok((out, t2)) ==> t2.len() == t.len(),
{
    lemma_chk_list_props(t, None, s);
}

/// A checked call has exactly as many arguments as its callee declares,
/// and each argument's type is the matching parameter's resolved type.
pub proof fn lemma_checker_call_arity(t: Seq<Seq<SymbolV>>, hint: Option<TypeV>, n: NodeV)
    requires
        n is Call,
    ensures
        chk(t, hint, n) matches Ok((m, t2)) ==> {
            &&& lookup_spec(t, n->Call_name) matches Some(sym)
            &&& sym.data matches AssocDataV::Fn(f)
            &&& m matches NodeV::Call { args: out, .. }
            &&& out.len() == f.args.len()
            &&& forall|i: int|
                0 <= i < out.len() ==> eff_ty(#[trigger] out[i]) == resolve_spec(f.args[i].1)
        },
{
    if let NodeV::Call { name, args, .. } = n {
        if let Some(sym) = lookup_spec(t, name) {
            if let AssocDataV::Fn(f) = sym.data {
                lemma_chk_args_props(t, f.args, args);
                if f.args.len() == args.len() {
                    if let Ok((out, t2)) = chk_call_args(t, f.args, args) {
                        lemma_first_bad_arg_from(f.args, out, 0);
                    }
                }
            }
        }
    }
}

/// The integer value an already-narrowed literal holds, if it is one.
pub open spec fn lit_int_value(l: LitV) -> Option<int> {
    match l {
        LitV::Int8(v) => Some(v as int),
        LitV::Int16(v) => Some(v as int),
        LitV::Int32(v) => Some(v as int),
        LitV::Int64(v) => Some(v as int),
        LitV::UInt8(v) => Some(v as int),
        LitV::UInt16(v) => Some(v as int),
        LitV::UInt32(v) => Some(v as int),
        LitV::UInt64(v) => Some(v as int),
        _ => None,
    }
}

/// Literal narrowing round-trip: an integer literal that fits the hinted
/// integer width is narrowed to that width with its value unchanged.
pub proof fn lemma_literal_narrowing(t: Seq<Seq<SymbolV>>, w: TypeV, v: u64)
    requires
        is_int(w),
        int_fits(v, w),
    ensures
        chk(t, Some(w), NodeV::Lit { value: LitV::UInt64(v), ty: None }) matches Ok((m, t2)) && ({
            &&& t2 == t
            &&& m matches NodeV::Lit { value, ty }
            &&& ty == Some(w)
            &&& lit_int_value(value) == Some(v as int)
        }),
{
    let l = LitV::UInt64(v);
    assert(chk_lit(t, Some(w), l) == Ok::<(LitV, TypeV, Seq<Seq<SymbolV>>), (Seq<char>, Seq<
        Seq<SymbolV>,
    >)>((narrow_int(v, w), w, t)));
    match w {
        TypeV::Int8 => assert(v as i8 as int == v as int),
        TypeV::Int16 => assert(v as i16 as int == v as int),
        TypeV::Int32 => assert(v as i32 as int == v as int),
        TypeV::Int64 => assert(v as i64 as int == v as int),
        TypeV::UInt8 => assert(v as u8 as int == v as int),
        TypeV::UInt16 => assert(v as u16 as int == v as int),
        TypeV::UInt32 => assert(v as u32 as int == v as int),
        _ => {},
    }
}

} // verus!
use vstd::prelude::*;

verus! {

/// The view of an optional hint handed by reference.
pub open spec fn hint_v(h: Option<&Type>) -> Option<TypeV> {
    match h {
        Some(t) => Some(t@),
        None => None,
    }
}

/// What a node-checking call promises: exactly the judgment `chk`.
pub open spec fn check_post(
    t0: Seq<Seq<SymbolV>>,
    h: Option<TypeV>,
    n: NodeV,
    r: Result<AstNode, String>,
    t1: Seq<Seq<SymbolV>>,
) -> bool {
    match chk(t0, h, n) {
        Ok((m, t2)) => r matches Ok(out) && out@ == m && t1 == t2,
        Err((e, te)) => r matches Err(s) && s@ == e && t1 == te,
    }
}

/// What a list-checking call promises: exactly the judgment `chk_list`.
pub open spec fn check_list_post(
    t0: Seq<Seq<SymbolV>>,
    h: Option<TypeV>,
    s: Seq<NodeV>,
    r: Result<Vec<AstNode>, String>,
    t1: Seq<Seq<SymbolV>>,
) -> bool {
    match chk_list(t0, h, s) {
        Ok((out, t2)) => r matches Ok(v) && nodes_view(v@) == out && t1 == t2,
        Err((e, te)) => r matches Err(m) && m@ == e && t1 == te,
    }
}

/// What narrowing a literal node promises, stated over `chk_lit`: the
/// rebuilt, typed literal node on acceptance, the exact message and
/// failure table on rejection.
pub open spec fn lit_post(
    t0: Seq<Seq<SymbolV>>,
    h: Option<TypeV>,
    value: LitV,
    r: Result<AstNode, String>,
    t1: Seq<Seq<SymbolV>>,
) -> bool {
    match chk_lit(t0, h, value) {
        Ok((v2, lt, t2)) => r matches Ok(out) && out@ == (NodeV::Lit { value: v2, ty: Some(lt) })
            && t1 == t2,
        Err((e, te)) => r matches Err(m) && m@ == e && t1 == te,
    }
}

/// One step of the judgment: on a literal node, `chk` is exactly the
/// literal narrowing `chk_lit`, the node rebuilt around its result.
proof fn lemma_lit_post_implies(
    t0: Seq<Seq<SymbolV>>,
    h: Option<TypeV>,
    n: NodeV,
    r: Result<AstNode, String>,
    t1: Seq<Seq<SymbolV>>,
)
    requires
        n is Lit,
        lit_post(t0, h, n->Lit_value, r, t1),
    ensures
        check_post(t0, h, n, r, t1),
{
}

proof fn lemma_nodes_view_drop_first(s: Seq<AstNode>)
    requires
        s.len() > 0,
    ensures
        nodes_view(s.drop_first()) =~= nodes_view(s).drop_first(),
        nodes_view(s).len() == s.len(),
        nodes_view(s)[0] == node_view(s[0]),
{
    crate::ast::lemma_nodes_view_index(s);
    crate::ast::lemma_nodes_view_index(s.drop_first());
    assert forall|k: int| 0 <= k < s.len() - 1 implies nodes_view(s.drop_first())[k] == nodes_view(
        s,
    ).drop_first()[k] by {
        assert(s.drop_first()[k] == s[k + 1]);
    }
    assert(nodes_view(s.drop_first()) =~= nodes_view(s).drop_first());
}

/// The effective type a checked node hands its context: its recorded type,
/// or `Void` where it records none.
pub fn eff_of(n: &AstNode) -> (r: &Type)
    ensures
        r@ == eff_ty(n@),
{
    match n.ty() {
        Some(t) => t,
        None => &Type::Void,
    }
}

fn ty_is_numeric(t: &Type) -> (r: bool)
    ensures
        r == is_numeric(t@),
{
    match t {
        Type::Int8 => true,
        Type::Int16 => true,
        Type::Int32 => true,
        Type::Int64 => true,
        Type::UInt8 => true,
        Type::UInt16 => true,
        Type::UInt32 => true,
        Type::UInt64 => true,
        Type::Float => true,
        Type::Double => true,
        _ => false,
    }
}

fn ty_is_bool(t: &Type) -> (r: bool)
    ensures
        r == (t@ == TypeV::Bool),
{
    match t {
        Type::Bool => true,
        _ => false,
    }
}

fn ty_is_char(t: &Type) -> (r: bool)
    ensures
        r == (t@ == TypeV::Char),
{
    match t {
        Type::Char => true,
        _ => false,
    }
}

/// The checker: walks an AST, hands back the same tree with every node
/// resolved to a type, and rejects programs that break the typing rules.
/// It owns the symbol table for the duration of the walk.
pub struct TypeChecker {
    symbol_table: SymbolTable,
}

impl View for TypeChecker {
    type V = Seq<Seq<SymbolV>>;

    closed spec fn view(&self) -> Seq<Seq<SymbolV>> {
        self.symbol_table@
    }
}

impl TypeChecker {
    pub fn new(symbol_table: SymbolTable) -> (r: Self)
        ensures
            r@ == symbol_table@,
    {
        TypeChecker { symbol_table }
    }

    /// Hands the symbol table back once the walk is over.
    pub fn into_symbol_table(self) -> (r: SymbolTable)
        ensures
            r@ == self@,
    {
        self.symbol_table
    }

    /// Checks a whole program: each declaration in order, each seeing the
    /// table as the one before it left it. Returns the typed AST exactly
    /// when the judgment `chk_list` accepts the program.
    pub fn walk(&mut self, ast: Ast) -> (r: Result<Ast, String>)
        requires
            old(self)@.len() > 0,
        ensures
            match chk_list(old(self)@, None, ast@) {
                Ok((out, t2)) => r matches Ok(a) && a@ == out && final(self)@ == t2,
                Err((e, te)) => r matches Err(m) && m@ == e && final(self)@ == te,
            },
    {
        let nodes = ast.into_nodes();
        match self.check_list(nodes, None) {
            Ok(out) => {
                let mut typed_ast = Ast::new();
                let mut out = out;
                let ghost outv = nodes_view(out@);
                let mut i: usize = 0;
                while out.len() > 0
                    invariant
                        typed_ast@ + nodes_view(out@) =~= outv,
                    decreases out.len(),
                {
                    let ghost pre = out@;
                    let node = out.remove(0);
                    proof {
                        lemma_nodes_view_drop_first(pre);
                        assert(out@ =~= pre.drop_first());
                    }
                    typed_ast.add(node);
                }
                proof {
                    assert(typed_ast@ =~= outv);
                }
                Ok(typed_ast)
            },
            Err(e) => Err(e),
        }
    }

    /// Checks one node under an optional hint: the wrapper every recursive
    /// descent goes through.
    fn check_node(&mut self, node: AstNode, hint: Option<&Type>) -> (r: Result<AstNode, String>)
        requires
            old(self)@.len() > 0,
        ensures
            check_post(old(self)@, hint_v(hint), node@, r, final(self)@),
        decreases node_size(node@), 1nat,
    {
        broadcast use crate::ast::group_ast_views;

        let ghost t0 = self@;
        let ghost nv = node@;
        match node {
            AstNode::Lit { value, ty } => {
                let ghost vv = lit_view(value);
                let r = self.visit_lit(value, Ghost(nv), hint);
                proof {
                    lemma_lit_post_implies(t0, hint_v(hint), nv, r, self@);
                }
                r
            },
            AstNode::Ident { name, ty } => self.visit_ident(name, Ghost(nv)),
            AstNode::BinOp { op, lhs, rhs, ty } => self.visit_binop(op, lhs, rhs, Ghost(nv), hint),
            AstNode::UnOp { op, rhs, ty } => self.visit_unop(op, rhs, Ghost(nv)),
            AstNode::Call { name, args, ty } => self.visit_call(name, args, Ghost(nv)),
            AstNode::Index { binding, idx, ty } => self.visit_index(binding, idx, Ghost(nv)),
            AstNode::Cond { cond_expr, then_block, else_block, ty } => self.visit_cond(
                cond_expr,
                then_block,
                else_block,
                Ghost(nv),
            ),
            AstNode::Block { list, ty } => self.visit_block(list, Ghost(nv)),
            AstNode::For { start_name, start_antn, start_expr, cond_expr, step_expr, loop_body } => self
                .visit_for(
                start_name,
                start_antn,
                start_expr,
                cond_expr,
                step_expr,
                loop_body,
                Ghost(nv),
            ),
            AstNode::Let { name, antn, init } => self.visit_let(name, antn, init, Ghost(nv)),
            AstNode::Fn { proto, body } => self.visit_fn(proto, body, Ghost(nv)),
            AstNode::Struct { name, fields, methods } => self.visit_struct(
                name,
                fields,
                methods,
                Ghost(nv),
            ),
        }
    }

    fn visit_ident(&mut self, name: String, nv: Ghost<NodeV>) -> (r: Result<AstNode, String>)
        requires
            old(self)@.len() > 0,
            nv@ matches NodeV::Ident { name: n2, .. } && n2 == name@,
        ensures
            forall|h: Option<TypeV>| check_post(old(self)@, h, nv@, r, final(self)@),
    {
        let found = match self.symbol_table.get(name.as_str()) {
            Some(sym) => match &sym.data {
                crate::symbol::AssocData::Var(v) => Ok(v.ty.clone()),
                _ => Err(String::from_str("expected symbol to be a variable")),
            },
            None => {
                let mut m = String::from_str("Unknown variable: `");
                m.append(name.as_str());
                m.append("`");
                Err(m)
            },
        };
        match found {
            Ok(t) => Ok(AstNode::new_ident(name, Some(t))),
            Err(e) => Err(e),
        }
    }

    fn visit_unop(&mut self, op: Operator, rhs: Box<AstNode>, nv: Ghost<NodeV>) -> (r: Result<
        AstNode,
        String,
    >)
        requires
            old(self)@.len() > 0,
            nv@ matches NodeV::UnOp { op: o2, rhs: r2, .. } && o2 == op && r2 == Box::new((*rhs)@),
        ensures
            forall|h: Option<TypeV>| check_post(old(self)@, h, nv@, r, final(self)@),
        decreases node_size(nv@), 0nat,
    {
        proof {
            assert(node_size(nv@) == 1 + node_size((*rhs)@));
        }
        let chkd_rhs = match self.check_node(*rhs, None) {
            Ok(n) => n,
            Err(e) => {
                return Err(e);
            },
        };
        let rhs_ty = eff_of(&chkd_rhs).clone();
        if !ty_is_numeric(&rhs_ty) {
            let mut m = String::from_str("Expected numeric type in unary operation `");
            m.append(op.as_str());
            m.append("`, got rhs: `");
            let ts = rhs_ty.to_str();
            m.append(ts.as_str());
            m.append("`");
            return Err(m);
        }
        Ok(AstNode::new_unop(op, chkd_rhs, Some(rhs_ty)))
    }
}

} // verus!
use vstd::prelude::*;

verus! {

proof fn lemma_pairs_deep(v: Vec<(String, String)>)
    ensures
        v.deep_view().len() == v@.len(),
        forall|k: int| 0 <= k < v@.len() ==> v.deep_view()[k] == #[trigger] v@[k].deep_view(),
{
}

/// Whether a node can stand on the left of an assignment: a variable or
/// an index.
fn is_assignable(n: &AstNode) -> (r: bool)
    ensures
        r == (n@ matches NodeV::Ident { .. } || n@ matches NodeV::Index { .. }),
{
    broadcast use crate::ast::group_ast_views;

    match n {
        AstNode::Ident { .. } => true,
        AstNode::Index { .. } => true,
        AstNode::Lit { .. } => false,
        AstNode::BinOp { .. } => false,
        AstNode::UnOp { .. } => false,
        AstNode::Call { .. } => false,
        AstNode::Cond { .. } => false,
        AstNode::Block { .. } => false,
        AstNode::For { .. } => false,
        AstNode::Let { .. } => false,
        AstNode::Fn { .. } => false,
        AstNode::Struct { .. } => false,
    }
}

fn ty_is_int_exec(t: &Type) -> (r: bool)
    ensures
        r == is_int(t@),
{
    match t {
        Type::Int8 => true,
        Type::Int16 => true,
        Type::Int32 => true,
        Type::Int64 => true,
        Type::UInt8 => true,
        Type::UInt16 => true,
        Type::UInt32 => true,
        Type::UInt64 => true,
        _ => false,
    }
}

impl TypeChecker {
    /// Checks each node of a list in order, all under the same hint, the
    /// table threading through.
    #[verifier::loop_isolation(false)]
    fn check_list(&mut self, nodes: Vec<AstNode>, hint: Option<&Type>) -> (r: Result<
        Vec<AstNode>,
        String,
    >)
        requires
            old(self)@.len() > 0,
        ensures
            check_list_post(old(self)@, hint_v(hint), nodes_view(nodes@), r, final(self)@),
        decreases list_size(nodes_view(nodes@)), 2nat,
    {
        broadcast use crate::ast::group_ast_views;

        let ghost t0 = self@;
        let ghost hv = hint_v(hint);
        let ghost full = nodes_view(nodes@);
        let mut rem = nodes;
        let mut out: Vec<AstNode> = Vec::new();
        proof {
            assert(nodes_view(out@) =~= Seq::<NodeV>::empty());
        }
        while rem.len() > 0
            invariant
                self@.len() == t0.len(),
                t0.len() > 0,
                hv == hint_v(hint),
                list_size(nodes_view(rem@)) <= list_size(full),
                chk_list(t0, hv, full) == (match chk_list(self@, hv, nodes_view(rem@)) {
                    Ok((rest, tf)) => Ok((nodes_view(out@) + rest, tf)),
                    Err(e) => Err::<(Seq<NodeV>, Seq<Seq<SymbolV>>), (Seq<char>, Seq<
                        Seq<SymbolV>,
                    >)>(e),
                }),
            decreases rem.len(),
        {
            let ghost pre = rem@;
            let ghost tcur = self@;
            let el = rem.remove(0);
            proof {
                lemma_nodes_view_drop_first(pre);
                assert(rem@ =~= pre.drop_first());
                assert(el@ == nodes_view(pre)[0]);
                lemma_list_size_index(nodes_view(pre), 0);
            }
            let chkd = match self.check_node(el, hint) {
                Ok(n) => n,
                Err(e) => {
                    proof {
                        assert(chk(tcur, hv, nodes_view(pre)[0]) is Err);
                        assert(chk_list(tcur, hv, nodes_view(pre)) is Err);
                    }
                    return Err(e);
                },
            };
            proof {
                assert(chk(tcur, hv, nodes_view(pre)[0]) is Ok);
                lemma_chk_props(tcur, hv, nodes_view(pre)[0]);
                let (m, t2) = chk(tcur, hv, nodes_view(pre)[0])->Ok_0;
                assert(chk_list(tcur, hv, nodes_view(pre)) == (match chk_list(
                    t2,
                    hv,
                    nodes_view(pre).drop_first(),
                ) {
                    Ok((rest, tf)) => Ok((seq![m] + rest, tf)),
                    Err(e2) => Err::<(Seq<NodeV>, Seq<Seq<SymbolV>>), (Seq<char>, Seq<
                        Seq<SymbolV>,
                    >)>(e2),
                }));
            }
            let ghost outpre = out@;
            out.push(chkd);
            proof {
                assert(out@ == outpre.push(chkd));
                assert(nodes_view(outpre.push(chkd)) =~= nodes_view(outpre).push(chkd@));
                let m = chkd@;
                if let Ok((rest, tf)) = chk_list(self@, hv, nodes_view(rem@)) {
                    assert(nodes_view(outpre) + (seq![m] + rest) =~= nodes_view(out@) + rest);
                }
                lemma_list_size_skip(nodes_view(pre), 1);
                assert(nodes_view(pre).skip(1) =~= nodes_view(pre).drop_first());
            }
        }
        proof {
            assert(nodes_view(rem@) =~= Seq::<NodeV>::empty());
            assert(chk_list(self@, hv, nodes_view(rem@)) == Ok::<(Seq<NodeV>, Seq<
                Seq<SymbolV>,
            >), (Seq<char>, Seq<Seq<SymbolV>>)>((Seq::<NodeV>::empty(), self@)));
            assert(nodes_view(out@) + Seq::<NodeV>::empty() =~= nodes_view(out@));
        }
        Ok(out)
    }

    /// Checks the arguments of a call in order, each under the matching
    /// formal parameter's resolved type.
    #[verifier::loop_isolation(false)]
    fn check_call_args(&mut self, formals: &Vec<(String, String)>, args: Vec<AstNode>) -> (r:
        Result<Vec<AstNode>, String>)
        requires
            old(self)@.len() > 0,
            formals@.len() == args@.len(),
        ensures
            match chk_call_args(old(self)@, formals.deep_view(), nodes_view(args@)) {
                Ok((out, t2)) => r matches Ok(v) && nodes_view(v@) == out && final(self)@ == t2,
                Err((e, te)) => r matches Err(m) && m@ == e && final(self)@ == te,
            },
        decreases list_size(nodes_view(args@)), 2nat,
    {
        broadcast use crate::ast::group_ast_views;

        let ghost t0 = self@;
        let ghost fdv = formals.deep_view();
        let ghost full = nodes_view(args@);
        let mut rem = args;
        let mut out: Vec<AstNode> = Vec::new();
        let mut idx: usize = 0;
        let flen = formals.len();
        proof {
            lemma_pairs_deep(*formals);
            crate::ast::lemma_nodes_view_index(rem@);
            assert(nodes_view(out@) =~= Seq::<NodeV>::empty());
            assert(fdv.len() == formals@.len());
            assert(formals@.len() == flen);
            assert(fdv.len() <= usize::MAX);
            assert(fdv.skip(0) =~= fdv);
            assert(full.skip(0) =~= full);
        }
        while rem.len() > 0
            invariant
                self@.len() == t0.len(),
                t0.len() > 0,
                fdv == formals.deep_view(),
                formals@.len() == fdv.len(),
                idx + rem@.len() == fdv.len(),
                fdv.len() == full.len(),
                fdv.len() <= usize::MAX,
                nodes_view(rem@) =~= full.skip(idx as int),
                list_size(nodes_view(rem@)) <= list_size(full),
                chk_call_args(t0, fdv, full) == (match chk_call_args(
                    self@,
                    fdv.skip(idx as int),
                    nodes_view(rem@),
                ) {
                    Ok((rest, tf)) => Ok((nodes_view(out@) + rest, tf)),
                    Err(e) => Err::<(Seq<NodeV>, Seq<Seq<SymbolV>>), (Seq<char>, Seq<
                        Seq<SymbolV>,
                    >)>(e),
                }),
            decreases rem.len(),
        {
            let ghost pre = rem@;
            let ghost tcur = self@;
            let ghost fcur = fdv.skip(idx as int);
            let el = rem.remove(0);
            let resolved = Type::resolve_type(formals[idx].1.as_str());
            proof {
                lemma_nodes_view_drop_first(pre);
                assert(rem@ =~= pre.drop_first());
                assert(el@ == nodes_view(pre)[0]);
                lemma_list_size_index(nodes_view(pre), 0);
                lemma_pairs_deep(*formals);
                assert(fdv[idx as int] == formals@[idx as int].deep_view());
                assert(fcur[0] == fdv[idx as int]);
                assert(resolved@ == resolve_spec(fcur[0].1));
            }
            let chkd = match self.check_node(el, Some(&resolved)) {
                Ok(n) => n,
                Err(e) => {
                    proof {
                        assert(chk(tcur, Some(resolved@), nodes_view(pre)[0]) is Err);
                        assert(chk_call_args(tcur, fcur, nodes_view(pre)) is Err);
                    }
                    return Err(e);
                },
            };
            proof {
                assert(chk(tcur, Some(resolved@), nodes_view(pre)[0]) is Ok);
                lemma_chk_props(tcur, Some(resolved@), nodes_view(pre)[0]);
                let (m, t2) = chk(tcur, Some(resolved@), nodes_view(pre)[0])->Ok_0;
                assert(chk_call_args(tcur, fcur, nodes_view(pre)) == (match chk_call_args(
                    t2,
                    fcur.drop_first(),
                    nodes_view(pre).drop_first(),
                ) {
                    Ok((rest, tf)) => Ok((seq![m] + rest, tf)),
                    Err(e2) => Err::<(Seq<NodeV>, Seq<Seq<SymbolV>>), (Seq<char>, Seq<
                        Seq<SymbolV>,
                    >)>(e2),
                }));
            }
            let ghost outpre = out@;
            out.push(chkd);
            idx = idx + 1;
            proof {
                assert(out@ == outpre.push(chkd));
                assert(nodes_view(outpre.push(chkd)) =~= nodes_view(outpre).push(chkd@));
                let m = chkd@;
                assert(fcur.drop_first() =~= fdv.skip(idx as int));
                if let Ok((rest, tf)) = chk_call_args(
                    self@,
                    fdv.skip(idx as int),
                    nodes_view(rem@),
                ) {
                    assert(nodes_view(outpre) + (seq![m] + rest) =~= nodes_view(out@) + rest);
                }
                lemma_list_size_skip(nodes_view(pre), 1);
                assert(nodes_view(pre).skip(1) =~= nodes_view(pre).drop_first());
                assert(nodes_view(rem@) =~= full.skip(idx as int));
            }
        }
        proof {
            assert(nodes_view(rem@) =~= Seq::<NodeV>::empty());
            assert(chk_call_args(self@, fdv.skip(idx as int), nodes_view(rem@)) == Ok::<(Seq<
                NodeV,
            >, Seq<Seq<SymbolV>>), (Seq<char>, Seq<Seq<SymbolV>>)>(
                (Seq::<NodeV>::empty(), self@),
            ));
            assert(nodes_view(out@) + Seq::<NodeV>::empty() =~= nodes_view(out@));
        }
        Ok(out)
    }
}

} // verus!
use vstd::prelude::*;

verus! {

impl TypeChecker {
    /// Narrows a literal under the hint, as §literal narrowing fixes it.
    #[verifier::rlimit(100)]
    fn visit_lit(&mut self, value: Literal, nv: Ghost<NodeV>, hint: Option<&Type>) -> (r: Result<
        AstNode,
        String,
    >)
        requires
            old(self)@.len() > 0,
            nv@ matches NodeV::Lit { value: vv, .. } && vv == value@,
        ensures
            lit_post(old(self)@, hint_v(hint), value@, r, final(self)@),
        decreases node_size(nv@), 0nat,
    {
        broadcast use crate::ast::group_ast_views;

        let ghost t0 = self@;
        let ghost hv = hint_v(hint);
        proof {
            assert(chk_lit(t0, hv, value@) == chk_lit(t0, hv, value@));
        }
        match hint {
            Some(h) => match value {
                Literal::Int8(v) => Ok(AstNode::new_lit(Literal::Int8(v), Some(Type::Int8))),
                Literal::Int16(v) => Ok(AstNode::new_lit(Literal::Int16(v), Some(Type::Int16))),
                Literal::Int32(v) => Ok(AstNode::new_lit(Literal::Int32(v), Some(Type::Int32))),
                Literal::Int64(v) => Ok(AstNode::new_lit(Literal::Int64(v), Some(Type::Int64))),
                Literal::UInt8(v) => Ok(AstNode::new_lit(Literal::UInt8(v), Some(Type::UInt8))),
                Literal::UInt16(v) => Ok(AstNode::new_lit(Literal::UInt16(v), Some(Type::UInt16))),
                Literal::UInt32(v) => Ok(AstNode::new_lit(Literal::UInt32(v), Some(Type::UInt32))),
                Literal::UInt64(v) => match h {
                    Type::Int8 => {
                        if v <= i8::MAX as u64 {
                            Ok(AstNode::new_lit(Literal::Int8(v as i8), Some(Type::Int8)))
                        } else {
                            Err(String::from_str("Numeric literal out of range"))
                        }
                    },
                    Type::Int16 => {
                        if v <= i16::MAX as u64 {
                            Ok(AstNode::new_lit(Literal::Int16(v as i16), Some(Type::Int16)))
                        } else {
                            Err(String::from_str("Numeric literal out of range"))
                        }
                    },
                    Type::Int32 => {
                        if v <= i32::MAX as u64 {
                            Ok(AstNode::new_lit(Literal::Int32(v as i32), Some(Type::Int32)))
                        } else {
                            Err(String::from_str("Numeric literal out of range"))
                        }
                    },
                    Type::Int64 => {
                        if v <= i64::MAX as u64 {
                            Ok(AstNode::new_lit(Literal::Int64(v as i64), Some(Type::Int64)))
                        } else {
                            Err(String::from_str("Numeric literal out of range"))
                        }
                    },
                    Type::UInt8 => {
                        if v <= u8::MAX as u64 {
                            Ok(AstNode::new_lit(Literal::UInt8(v as u8), Some(Type::UInt8)))
                        } else {
                            Err(String::from_str("Numeric literal out of range"))
                        }
                    },
                    Type::UInt16 => {
                        if v <= u16::MAX as u64 {
                            Ok(AstNode::new_lit(Literal::UInt16(v as u16), Some(Type::UInt16)))
                        } else {
                            Err(String::from_str("Numeric literal out of range"))
                        }
                    },
                    Type::UInt32 => {
                        if v <= u32::MAX as u64 {
                            Ok(AstNode::new_lit(Literal::UInt32(v as u32), Some(Type::UInt32)))
                        } else {
                            Err(String::from_str("Numeric literal out of range"))
                        }
                    },
                    Type::UInt64 => Ok(AstNode::new_lit(Literal::UInt64(v), Some(Type::UInt64))),
                    Type::Float => Err(
                        String::from_str("Literal is an integer in a float context"),
                    ),
                    Type::Double => Err(
                        String::from_str("Literal is an integer in a float context"),
                    ),
                    Type::Bool => Err(String::from_str("Literal is an integer in a bool context")),
                    Type::Char => Err(String::from_str("Literal is an integer in a char context")),
                    Type::Array(..) => Err(
                        String::from_str("Literal is an integer in an array context"),
                    ),
                    Type::Void => Err(String::from_str("Literal is an integer in a void context")),
                    Type::Comp(_) => Err(
                        String::from_str("Literal is an integer in a compound context"),
                    ),
                },
                Literal::Float(s) => match h {
                    Type::Float => Ok(AstNode::new_lit(Literal::Float(s), Some(Type::Float))),
                    Type::Double => Ok(AstNode::new_lit(Literal::Double(s), Some(Type::Double))),
                    Type::Int8 | Type::Int16 | Type::Int32 | Type::Int64 | Type::UInt8
                        | Type::UInt16 | Type::UInt32 | Type::UInt64 => Err(
                        String::from_str("Literal is a float in an integer context"),
                    ),
                    Type::Bool => Err(String::from_str("Literal is a float in a bool context")),
                    Type::Char => Err(String::from_str("Literal is a float in a char context")),
                    Type::Array(..) => Err(
                        String::from_str("Literal is a float in an array context"),
                    ),
                    Type::Void => Err(String::from_str("Literal is a float in a void context")),
                    Type::Comp(_) => Err(
                        String::from_str("Literal is a float in a compound context"),
                    ),
                },
                Literal::Double(s) => Ok(AstNode::new_lit(Literal::Double(s), Some(Type::Double))),
                Literal::Bool(v) => Ok(AstNode::new_lit(Literal::Bool(v), Some(Type::Bool))),
                Literal::Char(v) => Ok(AstNode::new_lit(Literal::Char(v), Some(Type::Char))),
                Literal::Array { elements, inner_ty } => {
                    proof {
                        assert(nv@->Lit_value == (LitV::Array {
                            elements: nodes_view(elements@),
                            inner_ty: opt_ty_view(inner_ty),
                        }));
                        assert(node_size(nv@) == 1 + lit_size(nv@->Lit_value));
                        assert(lit_size(nv@->Lit_value) == 1 + list_size(nodes_view(elements@)));
                        assert(chk_lit(
                            t0,
                            hv,
                            LitV::Array {
                                elements: nodes_view(elements@),
                                inner_ty: opt_ty_view(inner_ty),
                            },
                        ) == chk_lit(
                            t0,
                            hv,
                            LitV::Array { elements: nodes_view(elements@), inner_ty: None },
                        ));
                    }
                    self.check_lit_array(elements, h, Ghost(hv))
                },
            },
            None => match value {
                Literal::Int32(v) => Ok(AstNode::new_lit(Literal::Int32(v), Some(Type::Int32))),
                Literal::UInt64(v) => {
                    if v <= i32::MAX as u64 {
                        Ok(AstNode::new_lit(Literal::Int32(v as i32), Some(Type::Int32)))
                    } else {
                        Err(String::from_str("Numeric literal out of range"))
                    }
                },
                Literal::Float(s) => Ok(AstNode::new_lit(Literal::Float(s), Some(Type::Float))),
                Literal::Bool(v) => Ok(AstNode::new_lit(Literal::Bool(v), Some(Type::Bool))),
                Literal::Char(v) => Ok(AstNode::new_lit(Literal::Char(v), Some(Type::Char))),
                Literal::Array { .. } => Err(String::from_str("Array literal needs a type hint")),
                Literal::Int8(_) => Err(String::from_str("numeric conversion error")),
                Literal::Int16(_) => Err(String::from_str("numeric conversion error")),
                Literal::Int64(_) => Err(String::from_str("numeric conversion error")),
                Literal::UInt8(_) => Err(String::from_str("numeric conversion error")),
                Literal::UInt16(_) => Err(String::from_str("numeric conversion error")),
                Literal::UInt32(_) => Err(String::from_str("numeric conversion error")),
                Literal::Double(_) => Err(String::from_str("numeric conversion error")),
            },
        }
    }

    /// Checks an array literal against an array hint: the literal must not
    /// be longer than the hinted length, and every element must check to
    /// exactly the element type.
    #[verifier::loop_isolation(false)]
    fn check_lit_array(&mut self, elements: Vec<AstNode>, h: &Type, hv: Ghost<Option<TypeV>>) -> (r:
        Result<AstNode, String>)
        requires
            old(self)@.len() > 0,
            hv@ == Some(h@),
        ensures
            ({
                let lv = LitV::Array { elements: nodes_view(elements@), inner_ty: None };
                match chk_lit(old(self)@, hv@, lv) {
                    Ok((v2, lt, t2)) => r matches Ok(out) && out@ == (NodeV::Lit {
                        value: v2,
                        ty: Some(lt),
                    }) && final(self)@ == t2,
                    Err((e, te)) => r matches Err(m) && m@ == e && final(self)@ == te,
                }
            }),
        decreases list_size(nodes_view(elements@)) + 1, 0nat,
    {
        broadcast use crate::ast::group_ast_views;

        let ghost t0 = self@;
        let ghost lv = LitV::Array { elements: nodes_view(elements@), inner_ty: None };
        proof {
            assert(chk_lit(t0, hv@, lv) == chk_lit(t0, hv@, lv));
            crate::ast::lemma_nodes_view_index(elements@);
        }
        let (elty, size): (&Type, usize) = match h {
            Type::Array(bty, size) => (&**bty, *size),
            _ => {
                let mut m = String::from_str("Array literal has invalid type hint `");
                let ts = h.to_str();
                m.append(ts.as_str());
                m.append("`");
                return Err(m);
            },
        };
        if elements.len() > size {
            let mut m = String::from_str("Array literal too big in assignment: `");
            let a = u64_to_string(elements.len() as u64);
            m.append(a.as_str());
            m.append("` > `");
            let b = u64_to_string(size as u64);
            m.append(b.as_str());
            m.append("`");
            return Err(m);
        }
        let chkd = match self.check_list(elements, Some(elty)) {
            Ok(v) => v,
            Err(e) => {
                return Err(e);
            },
        };
        let ghost outv = nodes_view(chkd@);
        proof {
            crate::ast::lemma_nodes_view_index(chkd@);
        }
        let mut i: usize = 0;
        while i < chkd.len()
            invariant
                0 <= i <= chkd@.len(),
                outv == nodes_view(chkd@),
                outv.len() == chkd@.len(),
                forall|k: int| 0 <= k < chkd@.len() ==> outv[k] == node_view(#[trigger] chkd@[k]),
                forall|k: int| 0 <= k < i ==> eff_ty(#[trigger] outv[k]) == h@->Array_0,
                h@ matches TypeV::Array(b, _) && *b == elty@,
            decreases chkd@.len() - i,
        {
            proof {
                crate::ast::lemma_nodes_view_index(chkd@);
            }
            let el_ok = eff_of(&chkd[i]).same_as(elty);
            if !el_ok {
                proof {
                    lemma_first_bad_elem_skip(outv, elty@, i as int);
                    assert(first_bad_elem(outv, elty@, 0) == Some(i as int));
                }
                let mut m = String::from_str("Array literal's element wrong type: `");
                let ts = eff_of(&chkd[i]).to_str();
                m.append(ts.as_str());
                m.append("` isn't a `");
                let es = elty.to_str();
                m.append(es.as_str());
                m.append("`");
                return Err(m);
            }
            i = i + 1;
        }
        proof {
            lemma_first_bad_elem_skip(outv, elty@, outv.len() as int);
            assert(first_bad_elem(outv, elty@, 0) is None);
        }
        let lit2 = Literal::Array { elements: chkd, inner_ty: Some(elty.clone()) };
        let out_ty = Type::Array(Box::new(elty.clone()), size);
        Ok(AstNode::new_lit(lit2, Some(out_ty)))
    }

    /// Checks a binary operation: sides first (a lone numeric literal is
    /// hinted by the other side), then type agreement, then the operator's
    /// own rule.
    #[verifier::rlimit(100)]
    fn visit_binop(
        &mut self,
        op: Operator,
        lhs: Box<AstNode>,
        rhs: Box<AstNode>,
        nv: Ghost<NodeV>,
        hint: Option<&Type>,
    ) -> (r: Result<AstNode, String>)
        requires
            old(self)@.len() > 0,
            nv@ matches NodeV::BinOp { op: o2, lhs: l2, rhs: r2, .. } && o2 == op && l2 == Box::new(
                (*lhs)@,
            ) && r2 == Box::new((*rhs)@),
        ensures
            check_post(old(self)@, hint_v(hint), nv@, r, final(self)@),
        decreases node_size(nv@), 0nat,
    {
        broadcast use crate::ast::group_ast_views;

        let ghost t0 = self@;
        proof {
            assert(chk_binop_steps(t0, nv@) == chk_binop_steps(t0, nv@));
            assert(node_size(nv@) == 1 + node_size((*lhs)@) + node_size((*rhs)@));
        }
        let lhs_is_var = is_assignable(&lhs);
        if matches!(op, Operator::Assign) && !lhs_is_var {
            proof {
                assert(nv@ matches NodeV::BinOp { .. });
                assert(chk_binop_steps(t0, nv@) == Err::<(NodeV, Seq<Seq<SymbolV>>), (Seq<
                    char,
                >, Seq<Seq<SymbolV>>)>(("Expected LHS to be a variable for assignment"@, t0)));
                assert(chk(t0, hint_v(hint), nv@) == chk_binop_steps(t0, nv@));
            }
            return Err(String::from_str("Expected LHS to be a variable for assignment"));
        }
        let (chkd_lhs, chkd_rhs) = if lhs.is_num_literal() && !rhs.is_num_literal() {
            let chkd_rhs = match self.check_node(*rhs, None) {
                Ok(n) => n,
                Err(e) => {
                    return Err(e);
                },
            };
            proof {
                lemma_chk_props(t0, None, (*rhs)@);
            }
            let ghost t1 = self@;
            let rhs_ty = eff_of(&chkd_rhs).clone();
            let chkd_lhs = match self.check_node(*lhs, Some(&rhs_ty)) {
                Ok(n) => n,
                Err(e) => {
                    return Err(e);
                },
            };
            proof {
                lemma_chk_props(t1, Some(rhs_ty@), (*lhs)@);
            }
            (chkd_lhs, chkd_rhs)
        } else {
            let chkd_lhs = match self.check_node(*lhs, None) {
                Ok(n) => n,
                Err(e) => {
                    return Err(e);
                },
            };
            proof {
                lemma_chk_props(t0, None, (*lhs)@);
            }
            let ghost t1 = self@;
            let lhs_ty = eff_of(&chkd_lhs).clone();
            let chkd_rhs = match self.check_node(*rhs, Some(&lhs_ty)) {
                Ok(n) => n,
                Err(e) => {
                    return Err(e);
                },
            };
            proof {
                lemma_chk_props(t1, Some(lhs_ty@), (*rhs)@);
            }
            (chkd_lhs, chkd_rhs)
        };
        let lhs_ty = eff_of(&chkd_lhs).clone();
        let rhs_ty = eff_of(&chkd_rhs).clone();
        if !lhs_ty.same_as(&rhs_ty) {
            let mut m = String::from_str("Mismatched types in binop: `");
            let a = lhs_ty.to_str();
            m.append(a.as_str());
            m.append("` != `");
            let b = rhs_ty.to_str();
            m.append(b.as_str());
            m.append("`");
            return Err(m);
        }
        let ty: Type = match op {
            Operator::And | Operator::Or => {
                if !ty_is_bool(&lhs_ty) || !ty_is_bool(&rhs_ty) {
                    let mut m = String::from_str("Expected bools on either side of `");
                    m.append(op.as_str());
                    m.append("`, got lhs: `");
                    let a = lhs_ty.to_str();
                    m.append(a.as_str());
                    m.append("`, rhs: `");
                    let b = rhs_ty.to_str();
                    m.append(b.as_str());
                    m.append("`");
                    return Err(m);
                }
                Type::Bool
            },
            Operator::Eq | Operator::NotEq => {
                let lok = ty_is_numeric(&lhs_ty) || ty_is_bool(&lhs_ty) || ty_is_char(&lhs_ty);
                let rok = ty_is_numeric(&rhs_ty) || ty_is_bool(&rhs_ty) || ty_is_char(&rhs_ty);
                if !lok || !rok {
                    return Err(Self::invalid_combo_msg(op, &lhs_ty, &rhs_ty));
                }
                Type::Bool
            },
            Operator::Gt | Operator::GtEq | Operator::Lt | Operator::LtEq => {
                let lok = ty_is_numeric(&lhs_ty) || ty_is_char(&lhs_ty);
                let rok = ty_is_numeric(&rhs_ty) || ty_is_char(&rhs_ty);
                if !lok || !rok {
                    return Err(Self::invalid_combo_msg(op, &lhs_ty, &rhs_ty));
                }
                Type::Bool
            },
            Operator::Add | Operator::Div | Operator::Mul | Operator::Pow | Operator::Sub
                | Operator::BitAnd | Operator::BitXor | Operator::BitOr => {
                if !ty_is_numeric(&lhs_ty) || !ty_is_numeric(&rhs_ty) {
                    return Err(Self::invalid_combo_msg(op, &lhs_ty, &rhs_ty));
                }
                lhs_ty.clone()
            },
            Operator::Assign => lhs_ty.clone(),
            _ => Type::Void,
        };
        Ok(AstNode::new_binop(op, chkd_lhs, chkd_rhs, Some(ty)))
    }

    fn invalid_combo_msg(op: Operator, lhs_ty: &Type, rhs_ty: &Type) -> (r: String)
        ensures
            r@ == msg_binop_combo(op, lhs_ty@, rhs_ty@),
    {
        let mut m = String::from_str("Invalid type combination found in `");
        m.append(op.as_str());
        m.append("` operation: (lhs: `");
        let a = lhs_ty.to_str();
        m.append(a.as_str());
        m.append("`, rhs: `");
        let b = rhs_ty.to_str();
        m.append(b.as_str());
        m.append("`)");
        m
    }
}

} // verus!
use vstd::prelude::*;

verus! {

impl TypeChecker {
    /// Checks a call: the callee must be a known function, the argument
    /// count must match its declared arity, and every argument must check
    /// to the matching parameter's type.
    #[verifier::loop_isolation(false)]
    fn visit_call(&mut self, name: String, args: Vec<AstNode>, nv: Ghost<NodeV>) -> (r: Result<
        AstNode,
        String,
    >)
        requires
            old(self)@.len() > 0,
            nv@ matches NodeV::Call { name: n2, args: a2, .. } && n2 == name@ && a2 == nodes_view(
                args@,
            ),
        ensures
            forall|h: Option<TypeV>| check_post(old(self)@, h, nv@, r, final(self)@),
        decreases node_size(nv@), 0nat,
    {
        broadcast use crate::ast::group_ast_views;

        let ghost t0 = self@;
        let ghost argsv = nodes_view(args@);
        proof {
            crate::ast::lemma_nodes_view_index(args@);
        }
        let fn_entry = match self.symbol_table.get(name.as_str()) {
            Some(s) => s.clone(),
            None => {
                let mut m = String::from_str("Call to undefined function: `");
                m.append(name.as_str());
                m.append("`");
                return Err(m);
            },
        };
        let fd = match fn_entry.data {
            crate::symbol::AssocData::Fn(f) => f,
            _ => {
                return Err(String::from_str("expected symbol to be a function"));
            },
        };
        proof {
            lemma_pairs_deep(fd.args);
            assert(chk_call_args(t0, fd.args.deep_view(), argsv) == chk_call_args(
                t0,
                fd.args.deep_view(),
                argsv,
            ));
        }
        if fd.args.len() != args.len() {
            let mut m = String::from_str("Call to `");
            m.append(name.as_str());
            m.append("()` takes ");
            let a = u64_to_string(fd.args.len() as u64);
            m.append(a.as_str());
            m.append(" args and ");
            let b = u64_to_string(args.len() as u64);
            m.append(b.as_str());
            m.append(" were given");
            return Err(m);
        }
        proof {
            assert(node_size(nv@) == 1 + list_size(argsv));
            lemma_pairs_deep(fd.args);
            assert(chk_call_args(t0, fd.args.deep_view(), argsv) == chk_call_args(
                t0,
                fd.args.deep_view(),
                argsv,
            ));
        }
        let chkd_args = match self.check_call_args(&fd.args, args) {
            Ok(v) => v,
            Err(e) => {
                return Err(e);
            },
        };
        proof {
            lemma_chk_args_props(t0, fd.args.deep_view(), argsv);
        }
        let ghost outv = nodes_view(chkd_args@);
        let ghost fdv = fd.args.deep_view();
        proof {
            crate::ast::lemma_nodes_view_index(chkd_args@);
            lemma_pairs_deep(fd.args);
        }
        let mut idx: usize = 0;
        while idx < chkd_args.len()
            invariant
                0 <= idx <= chkd_args@.len(),
                outv == nodes_view(chkd_args@),
                outv.len() == chkd_args@.len(),
                fdv == fd.args.deep_view(),
                fdv.len() == chkd_args@.len(),
                forall|k: int|
                    0 <= k < chkd_args@.len() ==> outv[k] == node_view(#[trigger] chkd_args@[k]),
                forall|k: int|
                    0 <= k < idx ==> eff_ty(#[trigger] outv[k]) == resolve_spec(fdv[k].1),
            decreases chkd_args@.len() - idx,
        {
            proof {
                crate::ast::lemma_nodes_view_index(chkd_args@);
            }
            let resolved = Type::resolve_type(fd.args[idx].1.as_str());
            if !eff_of(&chkd_args[idx]).same_as(&resolved) {
                proof {
                    assert(resolved@ == resolve_spec(fdv[idx as int].1));
                    lemma_first_bad_arg_skip(fdv, outv, idx as int);
                    assert(first_bad_arg(fdv, outv, 0) == Some(idx as int));
                }
                let mut m = String::from_str("Type mismatch in arg ");
                let a = u64_to_string((idx + 1) as u64);
                m.append(a.as_str());
                m.append(" of call to `");
                m.append(name.as_str());
                m.append("()`: `");
                let b = resolved.to_str();
                m.append(b.as_str());
                m.append("` != `");
                let c = eff_of(&chkd_args[idx]).to_str();
                m.append(c.as_str());
                m.append("`");
                return Err(m);
            }
            idx = idx + 1;
        }
        proof {
            lemma_first_bad_arg_skip(fdv, outv, outv.len() as int);
            assert(first_bad_arg(fdv, outv, 0) is None);
        }
        let ret_ty = Type::resolve_type(fd.ret_ty.as_str());
        Ok(AstNode::new_call(name, chkd_args, Some(ret_ty)))
    }

    /// Checks an index expression: only an array can be indexed, and the
    /// index must resolve to the one supported width.
    fn visit_index(&mut self, binding: Box<AstNode>, idx: Box<AstNode>, nv: Ghost<NodeV>) -> (r:
        Result<AstNode, String>)
        requires
            old(self)@.len() > 0,
            nv@ matches NodeV::Index { binding: b2, idx: i2, .. } && b2 == Box::new((*binding)@)
                && i2 == Box::new((*idx)@),
        ensures
            forall|h: Option<TypeV>| check_post(old(self)@, h, nv@, r, final(self)@),
        decreases node_size(nv@), 0nat,
    {
        broadcast use crate::ast::group_ast_views;

        let ghost t0 = self@;
        proof {
            assert(node_size(nv@) == 1 + node_size((*binding)@) + node_size((*idx)@));
        }
        let chkd_binding = match self.check_node(*binding, None) {
            Ok(n) => n,
            Err(e) => {
                return Err(e);
            },
        };
        proof {
            lemma_chk_props(t0, None, (*binding)@);
        }
        let binding_ty = eff_of(&chkd_binding).clone();
        let elem_ty = match binding_ty {
            Type::Array(t, _) => *t,
            t => {
                let mut m = String::from_str("Can't index `");
                let ts = t.to_str();
                m.append(ts.as_str());
                m.append("`");
                return Err(m);
            },
        };
        let chkd_idx = match self.check_node(*idx, Some(&Type::Int32)) {
            Ok(n) => n,
            Err(e) => {
                return Err(e);
            },
        };
        let idx_ty = eff_of(&chkd_idx);
        if !ty_is_int_exec(idx_ty) {
            let mut m = String::from_str("Array index must be an `int`, found `");
            let ts = idx_ty.to_str();
            m.append(ts.as_str());
            m.append("`");
            return Err(m);
        }
        let idx_is_i32 = match idx_ty {
            Type::Int32 => true,
            _ => false,
        };
        if !idx_is_i32 {
            return Err(String::from_str("Index must be an int32 (for now)"));
        }
        Ok(AstNode::new_index(chkd_binding, chkd_idx, Some(elem_ty)))
    }

    /// Checks a conditional: the condition must be boolean, and where an
    /// `else` exists, both arms must be of one type.
    fn visit_cond(
        &mut self,
        cond_expr: Box<AstNode>,
        then_block: Box<AstNode>,
        else_block: Option<Box<AstNode>>,
        nv: Ghost<NodeV>,
    ) -> (r: Result<AstNode, String>)
        requires
            old(self)@.len() > 0,
            nv@ matches NodeV::Cond { cond_expr: c2, then_block: t2, else_block: e2, .. } && c2
                == Box::new((*cond_expr)@) && t2 == Box::new((*then_block)@) && e2 == (match else_block {
                Some(e) => Some(Box::new((*e)@)),
                None => None,
            }),
        ensures
            forall|h: Option<TypeV>| check_post(old(self)@, h, nv@, r, final(self)@),
        decreases node_size(nv@), 0nat,
    {
        broadcast use crate::ast::group_ast_views;

        let ghost t0 = self@;
        proof {
            assert(node_size(nv@) == 1 + node_size((*cond_expr)@) + node_size((*then_block)@)
                + opt_size(nv@->Cond_else_block));
        }
        let chkd_cond = match self.check_node(*cond_expr, None) {
            Ok(n) => n,
            Err(e) => {
                return Err(e);
            },
        };
        proof {
            lemma_chk_props(t0, None, (*cond_expr)@);
        }
        if !ty_is_bool(eff_of(&chkd_cond)) {
            return Err(String::from_str("Conditional should always be a bool"));
        }
        let ghost tc = self@;
        let chkd_then = match self.check_node(*then_block, None) {
            Ok(n) => n,
            Err(e) => {
                return Err(e);
            },
        };
        proof {
            lemma_chk_props(tc, None, (*then_block)@);
        }
        let then_ty = eff_of(&chkd_then).clone();
        match else_block {
            Some(els) => {
                let chkd_else = match self.check_node(*els, Some(&then_ty)) {
                    Ok(n) => n,
                    Err(e) => {
                        return Err(e);
                    },
                };
                let else_ty = eff_of(&chkd_else).clone();
                if !then_ty.same_as(&else_ty) {
                    let mut m = String::from_str(
                        "Both arms of conditional must be the same type: `then` == `",
                    );
                    let a = then_ty.to_str();
                    m.append(a.as_str());
                    m.append("`; `else` == `");
                    let b = else_ty.to_str();
                    m.append(b.as_str());
                    m.append("`");
                    return Err(m);
                }
                Ok(AstNode::new_cond(chkd_cond, chkd_then, Some(chkd_else), Some(then_ty)))
            },
            None => Ok(AstNode::new_cond(chkd_cond, chkd_then, None, Some(then_ty))),
        }
    }

    /// Checks a block: a fresh scope, each statement in order without a
    /// hint; the block's type is its last statement's.
    fn visit_block(&mut self, list: Vec<AstNode>, nv: Ghost<NodeV>) -> (r: Result<AstNode, String>)
        requires
            old(self)@.len() > 0,
            nv@ matches NodeV::Block { list: l2, .. } && l2 == nodes_view(list@),
        ensures
            forall|h: Option<TypeV>| check_post(old(self)@, h, nv@, r, final(self)@),
        decreases node_size(nv@), 0nat,
    {
        broadcast use crate::ast::group_ast_views;

        let ghost t0 = self@;
        proof {
            assert(node_size(nv@) == 1 + list_size(nodes_view(list@)));
        }
        self.symbol_table.enter_scope();
        proof {
            assert(self@ =~= t0.push(Seq::<SymbolV>::empty()));
        }
        let ghost t1 = self@;
        let chkd_list = match self.check_list(list, None) {
            Ok(v) => v,
            Err(e) => {
                return Err(e);
            },
        };
        proof {
            assert(chk_list(t1, None, nodes_view(list@)) is Ok);
            lemma_chk_list_props(t1, None, nodes_view(list@));
            crate::ast::lemma_nodes_view_index(chkd_list@);
            assert(self@.len() == t1.len());
        }
        let list_ty: Type = if chkd_list.len() == 0 {
            Type::Void
        } else {
            eff_of(&chkd_list[chkd_list.len() - 1]).clone()
        };
        proof {
            if chkd_list@.len() > 0 {
                assert(nodes_view(chkd_list@).last() == node_view(
                    chkd_list@[chkd_list@.len() - 1],
                ));
            }
        }
        self.symbol_table.leave_scope();
        Ok(AstNode::new_block(chkd_list, Some(list_ty)))
    }

    /// Checks a `for`: a fresh scope holding the start variable, the start
    /// initializer against its annotation, a boolean condition, a step of
    /// the start variable's type, and the body.
    #[verifier::rlimit(100)]
    fn visit_for(
        &mut self,
        start_name: String,
        start_antn: Type,
        start_expr: Option<Box<AstNode>>,
        cond_expr: Box<AstNode>,
        step_expr: Box<AstNode>,
        loop_body: Box<AstNode>,
        nv: Ghost<NodeV>,
    ) -> (r: Result<AstNode, String>)
        requires
            old(self)@.len() > 0,
            nv@ matches NodeV::For {
                start_name: n2,
                start_antn: a2,
                start_expr: s2,
                cond_expr: c2,
                step_expr: p2,
                loop_body: b2,
            } && n2 == start_name@ && a2 == start_antn@ && s2 == (match start_expr {
                Some(e) => Some(Box::new((*e)@)),
                None => None,
            }) && c2 == Box::new((*cond_expr)@) && p2 == Box::new((*step_expr)@) && b2 == Box::new(
                (*loop_body)@,
            ),
        ensures
            forall|h: Option<TypeV>| check_post(old(self)@, h, nv@, r, final(self)@),
        decreases node_size(nv@), 0nat,
    {
        broadcast use crate::ast::group_ast_views;

        let ghost t0 = self@;
        proof {
            assert(node_size(nv@) == 1 + opt_size(nv@->For_start_expr) + node_size((*cond_expr)@)
                + node_size((*step_expr)@) + node_size((*loop_body)@));
        }
        self.symbol_table.enter_scope();
        self.symbol_table.insert(Symbol::new_var(start_name.as_str(), &start_antn));
        proof {
            assert(self@ =~= t0.push(
                seq![SymbolV { name: start_name@, data: AssocDataV::Var(start_antn@) }],
            ));
        }
        let ghost t1 = self@;
        let start_node = match start_expr {
            Some(e) => {
                let chkd = match self.check_node(*e, Some(&start_antn)) {
                    Ok(n) => n,
                    Err(er) => {
                        return Err(er);
                    },
                };
                proof {
                    lemma_chk_props(t1, Some(start_antn@), (*e)@);
                }
                if !eff_of(&chkd).same_as(&start_antn) {
                    return Err(Self::var_init_msg("for statement", &start_name, &start_antn, eff_of(&chkd)));
                }
                chkd
            },
            None => match Self::default_literal(&start_antn) {
                Ok(n) => n,
                Err(er) => {
                    return Err(er);
                },
            },
        };
        let ghost t2g = self@;
        let chkd_cond = match self.check_node(*cond_expr, None) {
            Ok(n) => n,
            Err(er) => {
                return Err(er);
            },
        };
        proof {
            lemma_chk_props(t2g, None, (*cond_expr)@);
        }
        if !ty_is_bool(eff_of(&chkd_cond)) {
            return Err(String::from_str("For loop conditional should always be a bool"));
        }
        let ghost t3g = self@;
        let chkd_step = match self.check_node(*step_expr, Some(&start_antn)) {
            Ok(n) => n,
            Err(er) => {
                return Err(er);
            },
        };
        proof {
            lemma_chk_props(t3g, Some(start_antn@), (*step_expr)@);
        }
        if !eff_of(&chkd_step).same_as(&start_antn) {
            let mut m = String::from_str("Step type mismatch in for statement. Step is `");
            let a = eff_of(&chkd_step).to_str();
            m.append(a.as_str());
            m.append("` but `");
            m.append(start_name.as_str());
            m.append("` is `");
            let b = start_antn.to_str();
            m.append(b.as_str());
            m.append("`");
            return Err(m);
        }
        let ghost t4g = self@;
        let chkd_body = match self.check_node(*loop_body, None) {
            Ok(n) => n,
            Err(er) => {
                return Err(er);
            },
        };
        proof {
            lemma_chk_props(t4g, None, (*loop_body)@);
        }
        self.symbol_table.leave_scope();
        Ok(
            AstNode::new_for(
                start_name,
                start_antn,
                Some(start_node),
                chkd_cond,
                chkd_step,
                chkd_body,
            ),
        )
    }

    fn var_init_msg(caller: &str, name: &String, antn: &Type, got: &Type) -> (r: String)
        ensures
            r@ == msg_var_init(caller@, name@, antn@, got@),
    {
        let mut m = String::from_str("Types don't match in ");
        m.append(caller);
        m.append(". `");
        m.append(name.as_str());
        m.append("` annotated with `");
        let a = antn.to_str();
        m.append(a.as_str());
        m.append("` but initial value is `");
        let b = got.to_str();
        m.append(b.as_str());
        m.append("`");
        m
    }

    /// The zero-valued literal node for a variable declared without an
    /// initializer.
    #[verifier::loop_isolation(false)]
    fn default_literal(antn: &Type) -> (r: Result<AstNode, String>)
        ensures
            match default_lit(antn@) {
                Some(d) => r matches Ok(out) && out@ == d,
                None => r matches Err(e) && e@ == msg_no_default(antn@),
            },
        decreases *antn,
    {
        broadcast use crate::ast::group_ast_views;

        match antn {
            Type::Int8 => Ok(AstNode::new_lit(Literal::Int8(0), Some(Type::Int8))),
            Type::Int16 => Ok(AstNode::new_lit(Literal::Int16(0), Some(Type::Int16))),
            Type::Int32 => Ok(AstNode::new_lit(Literal::Int32(0), Some(Type::Int32))),
            Type::Int64 => Ok(AstNode::new_lit(Literal::Int64(0), Some(Type::Int64))),
            Type::UInt8 => Ok(AstNode::new_lit(Literal::UInt8(0), Some(Type::UInt8))),
            Type::UInt16 => Ok(AstNode::new_lit(Literal::UInt16(0), Some(Type::UInt16))),
            Type::UInt32 => Ok(AstNode::new_lit(Literal::UInt32(0), Some(Type::UInt32))),
            Type::UInt64 => Ok(AstNode::new_lit(Literal::UInt64(0), Some(Type::UInt64))),
            Type::Float => Ok(
                AstNode::new_lit(Literal::Float(String::from_str("0.0")), Some(Type::Float)),
            ),
            Type::Double => Ok(
                AstNode::new_lit(Literal::Double(String::from_str("0.0")), Some(Type::Double)),
            ),
            Type::Bool => Ok(AstNode::new_lit(Literal::Bool(false), Some(Type::Bool))),
            Type::Char => Ok(AstNode::new_lit(Literal::Char('\0'), Some(Type::Char))),
            Type::Array(el, len) => {
                if let Err(er) = Self::default_literal(&**el) {
                    return Err(er);
                }
                let mut elements: Vec<AstNode> = Vec::new();
                let ghost dspec = default_lit((**el)@)->0;
                let mut i: usize = 0;
                while i < *len
                    invariant
                        0 <= i <= *len,
                        default_lit((**el)@) is Some,
                        dspec == default_lit((**el)@)->0,
                        nodes_view(elements@) =~= Seq::new(i as nat, |k: int| dspec),
                    decreases *len - i,
                {
                    let d = match Self::default_literal(&**el) {
                        Ok(n) => n,
                        Err(er) => {
                            return Err(er);
                        },
                    };
                    proof {
                        broadcast use crate::ast::group_ast_views;
                    }
                    elements.push(d);
                    proof {
                        assert(nodes_view(elements@) =~= Seq::new((i + 1) as nat, |k: int| dspec));
                    }
                    i = i + 1;
                }
                let lit = Literal::Array { elements, inner_ty: Some((**el).clone()) };
                let out_ty = Type::Array(Box::new((**el).clone()), *len);
                let r = AstNode::new_lit(lit, Some(out_ty));
                proof {
                    assert(r@->Lit_value->Array_elements =~= default_lit(
                        antn@,
                    )->0->Lit_value->Array_elements);
                }
                Ok(r)
            },
            Type::Void => Err(
                String::from_str("void type for variable initialization annotation"),
            ),
            Type::Comp(_) => Err(
                String::from_str("no default initialization for compound types"),
            ),
        }
    }

    /// Checks a `let`: installs the variable in the current scope, then
    /// checks the initializer against the annotation, synthesizing a
    /// zero-valued one where it is absent.
    fn visit_let(
        &mut self,
        name: String,
        antn: Type,
        init: Option<Box<AstNode>>,
        nv: Ghost<NodeV>,
    ) -> (r: Result<AstNode, String>)
        requires
            old(self)@.len() > 0,
            nv@ matches NodeV::Let { name: n2, antn: a2, init: i2 } && n2 == name@ && a2 == antn@
                && i2 == (match init {
                Some(e) => Some(Box::new((*e)@)),
                None => None,
            }),
        ensures
            forall|h: Option<TypeV>| check_post(old(self)@, h, nv@, r, final(self)@),
        decreases node_size(nv@), 0nat,
    {
        broadcast use crate::ast::group_ast_views;

        let ghost t0 = self@;
        proof {
            assert(node_size(nv@) == 1 + opt_size(nv@->Let_init));
        }
        self.symbol_table.insert(Symbol::new_var(name.as_str(), &antn));
        let init_node = match init {
            Some(e) => {
                let chkd = match self.check_node(*e, Some(&antn)) {
                    Ok(n) => n,
                    Err(er) => {
                        return Err(er);
                    },
                };
                if !eff_of(&chkd).same_as(&antn) {
                    return Err(Self::var_init_msg("let statement", &name, &antn, eff_of(&chkd)));
                }
                chkd
            },
            None => match Self::default_literal(&antn) {
                Ok(n) => n,
                Err(er) => {
                    return Err(er);
                },
            },
        };
        Ok(AstNode::new_let(name, antn, Some(init_node)))
    }

    /// Checks a function: externs pass through; a body is checked in a
    /// scope holding the parameters, `main` must not annotate a return
    /// type, and the body's type must match the declared return type
    /// unless that is `Void`.
    #[verifier::loop_isolation(false)]
    fn visit_fn(&mut self, proto: Box<Prototype>, body: Option<Box<AstNode>>, nv: Ghost<NodeV>) -> (r:
        Result<AstNode, String>)
        requires
            old(self)@.len() > 0,
            nv@ matches NodeV::Fn { proto: p2, body: b2 } && p2 == (*proto)@ && b2 == (match body {
                Some(b) => Some(Box::new((*b)@)),
                None => None,
            }),
        ensures
            forall|h: Option<TypeV>| check_post(old(self)@, h, nv@, r, final(self)@),
        decreases node_size(nv@), 0nat,
    {
        broadcast use crate::ast::group_ast_views;

        let ghost t0 = self@;
        proof {
            assert(node_size(nv@) == 1 + opt_size(nv@->Fn_body));
        }
        let proto = *proto;
        let fn_entry = match self.symbol_table.get(proto.name.as_str()) {
            Some(s) => s.clone(),
            None => {
                let mut m = String::from_str("missing symbol table entry for function: ");
                m.append(proto.name.as_str());
                return Err(m);
            },
        };
        let fd = match fn_entry.data {
            crate::symbol::AssocData::Fn(f) => f,
            _ => {
                return Err(String::from_str("expected symbol to be a function"));
            },
        };
        let body = match body {
            Some(b) => b,
            None => {
                return Ok(AstNode::new_fn(proto, None));
            },
        };
        self.symbol_table.enter_scope();
        let ghost pargs = proto.args.deep_view();
        proof {
            lemma_pairs_deep(proto.args);
            assert(param_scope(pargs).subrange(0, 0) =~= Seq::<SymbolV>::empty());
            assert(self@ =~= t0.push(param_scope(pargs).subrange(0, 0)));
        }
        let mut i: usize = 0;
        while i < proto.args.len()
            invariant
                0 <= i <= proto.args@.len(),
                pargs == proto.args.deep_view(),
                pargs.len() == proto.args@.len(),
                forall|k: int|
                    0 <= k < pargs.len() ==> pargs[k] == (#[trigger] proto.args@[k]).deep_view(),
                self@ =~= t0.push(param_scope(pargs).subrange(0, i as int)),
            decreases proto.args@.len() - i,
        {
            let arg = &proto.args[i];
            let rt = Type::resolve_type(arg.1.as_str());
            self.symbol_table.insert(Symbol::new_var(arg.0.as_str(), &rt));
            proof {
                assert(param_scope(pargs).subrange(0, i + 1 as int) =~= param_scope(
                    pargs,
                ).subrange(0, i as int).push(
                    SymbolV { name: pargs[i as int].0, data: AssocDataV::Var(resolve_spec(pargs[i as int].1)) },
                ));
                assert(self@ =~= t0.push(param_scope(pargs).subrange(0, i + 1 as int)));
            }
            i = i + 1;
        }
        proof {
            assert(param_scope(pargs).subrange(0, pargs.len() as int) =~= param_scope(pargs));
            assert(self@ =~= t0.push(param_scope(pargs)));
        }
        let ghost tb = self@;
        let body_node = match self.check_node(*body, None) {
            Ok(n) => n,
            Err(er) => {
                return Err(er);
            },
        };
        proof {
            lemma_chk_props(tb, None, (*body)@);
        }
        let body_ty = eff_of(&body_node).clone();
        let is_main = str_eq(proto.name.as_str(), "main");
        let ret_is_void = match &proto.ret_ty {
            Type::Void => true,
            _ => false,
        };
        if is_main && !ret_is_void {
            let mut m = String::from_str("main()'s return value shouldn't be annotated. Found `");
            let a = proto.ret_ty.to_str();
            m.append(a.as_str());
            m.append("`");
            return Err(m);
        }
        let fret = Type::resolve_type(fd.ret_ty.as_str());
        let fret_is_void = match &fret {
            Type::Void => true,
            _ => false,
        };
        if !fret.same_as(&body_ty) && !fret_is_void && !is_main {
            let mut m = String::from_str("Function `");
            m.append(proto.name.as_str());
            m.append("` should return type `");
            let a = fret.to_str();
            m.append(a.as_str());
            m.append("` but last statement is `");
            let b = body_ty.to_str();
            m.append(b.as_str());
            m.append("`");
            return Err(m);
        }
        let proto2 = Prototype {
            name: proto.name,
            args: proto.args,
            ret_ty: if is_main {
                Type::Void
            } else {
                fret
            },
            is_extern: proto.is_extern,
        };
        self.symbol_table.leave_scope();
        Ok(AstNode::new_fn(proto2, Some(body_node)))
    }

    /// Checks a composite declaration: each field and each method on its
    /// own, with no cross-field rules at this stage.
    fn visit_struct(
        &mut self,
        name: String,
        fields: Vec<AstNode>,
        methods: Vec<AstNode>,
        nv: Ghost<NodeV>,
    ) -> (r: Result<AstNode, String>)
        requires
            old(self)@.len() > 0,
            nv@ matches NodeV::Struct { name: n2, fields: f2, methods: m2 } && n2 == name@ && f2
                == nodes_view(fields@) && m2 == nodes_view(methods@),
        ensures
            forall|h: Option<TypeV>| check_post(old(self)@, h, nv@, r, final(self)@),
        decreases node_size(nv@), 0nat,
    {
        broadcast use crate::ast::group_ast_views;

        let ghost t0 = self@;
        proof {
            assert(node_size(nv@) == 1 + list_size(nodes_view(fields@)) + list_size(
                nodes_view(methods@),
            ));
            lemma_list_size_skip(nodes_view(fields@), 0);
        }
        let chkd_fields = match self.check_list(fields, None) {
            Ok(v) => v,
            Err(e) => {
                return Err(e);
            },
        };
        proof {
            lemma_chk_list_props(t0, None, nodes_view(fields@));
        }
        let chkd_methods = match self.check_list(methods, None) {
            Ok(v) => v,
            Err(e) => {
                return Err(e);
            },
        };
        Ok(AstNode::new_struct(name, chkd_fields, chkd_methods))
    }
}

} // verus!
