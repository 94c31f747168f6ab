use vstd::prelude::*;

use crate::types::{Type, TypeV};

verus! {

/// A literal value, tagged with its type. Integer literals come out of the
/// parser as `UInt64`, the widest unsigned form, and are narrowed during
/// type checking. Floating literals keep their source spelling: the core
/// never computes with floating values, it only records the spelling and
/// the resolved width, and the backend converts.
#[derive(Debug, PartialEq)]
pub enum Literal {
    Int8(i8),
    Int16(i16),
    Int32(i32),
    Int64(i64),
    UInt8(u8),
    UInt16(u16),
    UInt32(u32),
    UInt64(u64),
    Float(String),
    Double(String),
    Bool(bool),
    Char(char),
    Array { elements: Vec<AstNode>, inner_ty: Option<Type> },
}

/// A function prototype: name, positional arguments as `(name, type name)`
/// pairs, declared return type, and an extern flag.
#[derive(Debug, PartialEq)]
pub struct Prototype {
    pub name: String,
    pub args: Vec<(String, String)>,
    pub ret_ty: Type,
    pub is_extern: bool,
}

/// An AST node. Every expression node carries an optional resolved type,
/// `None` until the checker fills it in.
#[derive(Debug, PartialEq)]
pub enum AstNode {
    Lit { value: Literal, ty: Option<Type> },
    Ident { name: String, ty: Option<Type> },
    BinOp { op: crate::types::Operator, lhs: Box<AstNode>, rhs: Box<AstNode>, ty: Option<Type> },
    UnOp { op: crate::types::Operator, rhs: Box<AstNode>, ty: Option<Type> },
    Call { name: String, args: Vec<AstNode>, ty: Option<Type> },
    Index { binding: Box<AstNode>, idx: Box<AstNode>, ty: Option<Type> },
    Cond {
        cond_expr: Box<AstNode>,
        then_block: Box<AstNode>,
        else_block: Option<Box<AstNode>>,
        ty: Option<Type>,
    },
    Block { list: Vec<AstNode>, ty: Option<Type> },
    For {
        start_name: String,
        start_antn: Type,
        start_expr: Option<Box<AstNode>>,
        cond_expr: Box<AstNode>,
        step_expr: Box<AstNode>,
        loop_body: Box<AstNode>,
    },
    Let { name: String, antn: Type, init: Option<Box<AstNode>> },
    Fn { proto: Box<Prototype>, body: Option<Box<AstNode>> },
    Struct { name: String, fields: Vec<AstNode>, methods: Vec<AstNode> },
}

/// The mathematical shape of a literal.
pub enum LitV {
    Int8(i8),
    Int16(i16),
    Int32(i32),
    Int64(i64),
    UInt8(u8),
    UInt16(u16),
    UInt32(u32),
    UInt64(u64),
    Float(Seq<char>),
    Double(Seq<char>),
    Bool(bool),
    Char(char),
    Array { elements: Seq<NodeV>, inner_ty: Option<TypeV> },
}

/// The mathematical shape of a prototype.
pub struct ProtoV {
    pub name: Seq<char>,
    pub args: Seq<(Seq<char>, Seq<char>)>,
    pub ret_ty: TypeV,
    pub is_extern: bool,
}

/// The mathematical shape of an AST node.
pub enum NodeV {
    Lit { value: LitV, ty: Option<TypeV> },
    Ident { name: Seq<char>, ty: Option<TypeV> },
    BinOp { op: crate::types::Operator, lhs: Box<NodeV>, rhs: Box<NodeV>, ty: Option<TypeV> },
    UnOp { op: crate::types::Operator, rhs: Box<NodeV>, ty: Option<TypeV> },
    Call { name: Seq<char>, args: Seq<NodeV>, ty: Option<TypeV> },
    Index { binding: Box<NodeV>, idx: Box<NodeV>, ty: Option<TypeV> },
    Cond {
        cond_expr: Box<NodeV>,
        then_block: Box<NodeV>,
        else_block: Option<Box<NodeV>>,
        ty: Option<TypeV>,
    },
    Block { list: Seq<NodeV>, ty: Option<TypeV> },
    For {
        start_name: Seq<char>,
        start_antn: TypeV,
        start_expr: Option<Box<NodeV>>,
        cond_expr: Box<NodeV>,
        step_expr: Box<NodeV>,
        loop_body: Box<NodeV>,
    },
    Let { name: Seq<char>, antn: TypeV, init: Option<Box<NodeV>> },
    Fn { proto: ProtoV, body: Option<Box<NodeV>> },
    Struct { name: Seq<char>, fields: Seq<NodeV>, methods: Seq<NodeV> },
}

pub open spec fn proto_view(p: Prototype) -> ProtoV {
    ProtoV { name: p.name@, args: p.args.deep_view(), ret_ty: p.ret_ty@, is_extern: p.is_extern }
}

pub open spec fn opt_ty_view(o: Option<Type>) -> Option<TypeV> {
    match o {
        Some(t) => Some(t@),
        None => None,
    }
}

pub open spec fn node_view(n: AstNode) -> NodeV
    decreases n,
{
    match n {
        AstNode::Lit { value, ty } => NodeV::Lit { value: lit_view(value), ty: opt_ty_view(ty) },
        AstNode::Ident { name, ty } => NodeV::Ident { name: name@, ty: opt_ty_view(ty) },
        AstNode::BinOp { op, lhs, rhs, ty } => NodeV::BinOp {
            op,
            lhs: Box::new(node_view(*lhs)),
            rhs: Box::new(node_view(*rhs)),
            ty: opt_ty_view(ty),
        },
        AstNode::UnOp { op, rhs, ty } => NodeV::UnOp {
            op,
            rhs: Box::new(node_view(*rhs)),
            ty: opt_ty_view(ty),
        },
        AstNode::Call { name, args, ty } => NodeV::Call {
            name: name@,
            args: nodes_view(args@),
            ty: opt_ty_view(ty),
        },
        AstNode::Index { binding, idx, ty } => NodeV::Index {
            binding: Box::new(node_view(*binding)),
            idx: Box::new(node_view(*idx)),
            ty: opt_ty_view(ty),
        },
        AstNode::Cond { cond_expr, then_block, else_block, ty } => NodeV::Cond {
            cond_expr: Box::new(node_view(*cond_expr)),
            then_block: Box::new(node_view(*then_block)),
            else_block: match else_block {
                Some(e) => Some(Box::new(node_view(*e))),
                None => None,
            },
            ty: opt_ty_view(ty),
        },
        AstNode::Block { list, ty } => NodeV::Block {
            list: nodes_view(list@),
            ty: opt_ty_view(ty),
        },
        AstNode::For { start_name, start_antn, start_expr, cond_expr, step_expr, loop_body } => NodeV::For {
            start_name: start_name@,
            start_antn: start_antn@,
            start_expr: match start_expr {
                Some(e) => Some(Box::new(node_view(*e))),
                None => None,
            },
            cond_expr: Box::new(node_view(*cond_expr)),
            step_expr: Box::new(node_view(*step_expr)),
            loop_body: Box::new(node_view(*loop_body)),
        },
        AstNode::Let { name, antn, init } => NodeV::Let {
            name: name@,
            antn: antn@,
            init: match init {
                Some(e) => Some(Box::new(node_view(*e))),
                None => None,
            },
        },
        AstNode::Fn { proto, body } => NodeV::Fn {
            proto: proto_view(*proto),
            body: match body {
                Some(b) => Some(Box::new(node_view(*b))),
                None => None,
            },
        },
        AstNode::Struct { name, fields, methods } => NodeV::Struct {
            name: name@,
            fields: nodes_view(fields@),
            methods: nodes_view(methods@),
        },
    }
}

pub open spec fn nodes_view(s: Seq<AstNode>) -> Seq<NodeV>
    decreases s,
{
    if s.len() == 0 {
        Seq::empty()
    } else {
        nodes_view(s.drop_last()).push(node_view(s.last()))
    }
}

pub open spec fn lit_view(l: Literal) -> LitV
    decreases l,
{
    match l {
        Literal::Int8(v) => LitV::Int8(v),
        Literal::Int16(v) => LitV::Int16(v),
        Literal::Int32(v) => LitV::Int32(v),
        Literal::Int64(v) => LitV::Int64(v),
        Literal::UInt8(v) => LitV::UInt8(v),
        Literal::UInt16(v) => LitV::UInt16(v),
        Literal::UInt32(v) => LitV::UInt32(v),
        Literal::UInt64(v) => LitV::UInt64(v),
        Literal::Float(s) => LitV::Float(s@),
        Literal::Double(s) => LitV::Double(s@),
        Literal::Bool(v) => LitV::Bool(v),
        Literal::Char(v) => LitV::Char(v),
        Literal::Array { elements, inner_ty } => LitV::Array {
            elements: nodes_view(elements@),
            inner_ty: opt_ty_view(inner_ty),
        },
    }
}

impl View for AstNode {
    type V = NodeV;

    open spec fn view(&self) -> NodeV {
        node_view(*self)
    }
}

impl View for Literal {
    type V = LitV;

    open spec fn view(&self) -> LitV {
        lit_view(*self)
    }
}

impl View for Prototype {
    type V = ProtoV;

    open spec fn view(&self) -> ProtoV {
        proto_view(*self)
    }
}

/// The length of `nodes_view` is the length of the node list, and each
/// element is the view of the node at the same place.
pub proof fn lemma_nodes_view_index(s: Seq<AstNode>)
    ensures
        nodes_view(s).len() == s.len(),
        forall|i: int| 0 <= i < s.len() ==> nodes_view(s)[i] == node_view(#[trigger] s[i]),
    decreases s.len(),
{
    if s.len() > 0 {
        lemma_nodes_view_index(s.drop_last());
        assert forall|i: int| 0 <= i < s.len() implies nodes_view(s)[i] == node_view(s[i]) by {
            if i < s.len() - 1 {
                assert(s.drop_last()[i] == s[i]);
            }
        }
    }
}

/// The resolved type recorded on a node, if any. Statement nodes record
/// none.
pub open spec fn node_ty_spec(n: NodeV) -> Option<TypeV> {
    match n {
        NodeV::Lit { ty, .. } => ty,
        NodeV::Ident { ty, .. } => ty,
        NodeV::BinOp { ty, .. } => ty,
        NodeV::UnOp { ty, .. } => ty,
        NodeV::Call { ty, .. } => ty,
        NodeV::Index { ty, .. } => ty,
        NodeV::Cond { ty, .. } => ty,
        NodeV::Block { ty, .. } => ty,
        NodeV::For { .. } => None,
        NodeV::Let { .. } => None,
        NodeV::Fn { .. } => None,
        NodeV::Struct { .. } => None,
    }
}

/// The type a node contributes to its context: its recorded type, or
/// `Void` where it records none.
pub open spec fn eff_ty(n: NodeV) -> TypeV {
    match node_ty_spec(n) {
        Some(t) => t,
        None => TypeV::Void,
    }
}

/// Whether a node is a numeric literal, the shape whose type the checker
/// infers from the other side of a binary operation.
pub open spec fn is_num_lit(n: NodeV) -> bool {
    match n {
        NodeV::Lit { value, ty } => match value {
            LitV::Int8(_) => true,
            LitV::Int16(_) => true,
            LitV::Int32(_) => true,
            LitV::Int64(_) => true,
            LitV::UInt8(_) => true,
            LitV::UInt16(_) => true,
            LitV::UInt32(_) => true,
            LitV::UInt64(_) => true,
            LitV::Float(_) => true,
            LitV::Double(_) => true,
            LitV::Bool(_) => false,
            LitV::Char(_) => false,
            LitV::Array { elements, inner_ty } => false,
        },
        _ => false,
    }
}

impl AstNode {
    /// The resolved type recorded on this node, if any.
    pub fn ty(&self) -> (r: Option<&Type>)
        ensures
            match node_ty_spec(self@) {
                Some(tv) => r matches Some(t) && t@ == tv,
                None => r is None,
            },
    {
        match self {
            AstNode::Lit { ty, .. } => ty.as_ref(),
            AstNode::Ident { ty, .. } => ty.as_ref(),
            AstNode::BinOp { ty, .. } => ty.as_ref(),
            AstNode::UnOp { ty, .. } => ty.as_ref(),
            AstNode::Call { ty, .. } => ty.as_ref(),
            AstNode::Index { ty, .. } => ty.as_ref(),
            AstNode::Cond { ty, .. } => ty.as_ref(),
            AstNode::Block { ty, .. } => ty.as_ref(),
            AstNode::For { .. } => None,
            AstNode::Let { .. } => None,
            AstNode::Fn { .. } => None,
            AstNode::Struct { .. } => None,
        }
    }

    /// Whether this node is a numeric literal.
    pub fn is_num_literal(&self) -> (r: bool)
        ensures
            r == is_num_lit(self@),
    {
        broadcast use group_ast_views;

        match self {
            AstNode::Lit { value, .. } => match value {
                Literal::Bool(_) => false,
                Literal::Char(_) => false,
                Literal::Array { .. } => false,
                Literal::Int8(_) => true,
                Literal::Int16(_) => true,
                Literal::Int32(_) => true,
                Literal::Int64(_) => true,
                Literal::UInt8(_) => true,
                Literal::UInt16(_) => true,
                Literal::UInt32(_) => true,
                Literal::UInt64(_) => true,
                Literal::Float(_) => true,
                Literal::Double(_) => true,
            },
            AstNode::Ident { .. } => false,
            AstNode::BinOp { .. } => false,
            AstNode::UnOp { .. } => false,
            AstNode::Call { .. } => false,
            AstNode::Index { .. } => false,
            AstNode::Cond { .. } => false,
            AstNode::Block { .. } => false,
            AstNode::For { .. } => false,
            AstNode::Let { .. } => false,
            AstNode::Fn { .. } => false,
            AstNode::Struct { .. } => false,
        }
    }

    pub fn new_lit(value: Literal, ty: Option<Type>) -> (r: Self)
        ensures
            r@ == (NodeV::Lit { value: value@, ty: opt_ty_view(ty) }),
    {
        AstNode::Lit { value, ty }
    }

    pub fn new_ident(name: String, ty: Option<Type>) -> (r: Self)
        ensures
            r@ == (NodeV::Ident { name: name@, ty: opt_ty_view(ty) }),
    {
        AstNode::Ident { name, ty }
    }

    pub fn new_binop(op: crate::types::Operator, lhs: AstNode, rhs: AstNode, ty: Option<Type>) -> (r:
        Self)
        ensures
            r@ == (NodeV::BinOp {
                op,
                lhs: Box::new(lhs@),
                rhs: Box::new(rhs@),
                ty: opt_ty_view(ty),
            }),
    {
        AstNode::BinOp { op, lhs: Box::new(lhs), rhs: Box::new(rhs), ty }
    }

    pub fn new_unop(op: crate::types::Operator, rhs: AstNode, ty: Option<Type>) -> (r: Self)
        ensures
            r@ == (NodeV::UnOp { op, rhs: Box::new(rhs@), ty: opt_ty_view(ty) }),
    {
        AstNode::UnOp { op, rhs: Box::new(rhs), ty }
    }

    pub fn new_call(name: String, args: Vec<AstNode>, ty: Option<Type>) -> (r: Self)
        ensures
            r@ == (NodeV::Call { name: name@, args: nodes_view(args@), ty: opt_ty_view(ty) }),
    {
        AstNode::Call { name, args, ty }
    }

    pub fn new_index(binding: AstNode, idx: AstNode, ty: Option<Type>) -> (r: Self)
        ensures
            r@ == (NodeV::Index {
                binding: Box::new(binding@),
                idx: Box::new(idx@),
                ty: opt_ty_view(ty),
            }),
    {
        AstNode::Index { binding: Box::new(binding), idx: Box::new(idx), ty }
    }

    pub fn new_cond(cond_expr: AstNode, then_block: AstNode, else_block: Option<AstNode>, ty: Option<
        Type>) -> (r: Self)
        ensures
            r@ == (NodeV::Cond {
                cond_expr: Box::new(cond_expr@),
                then_block: Box::new(then_block@),
                else_block: match else_block {
                    Some(e) => Some(Box::new(e@)),
                    None => None,
                },
                ty: opt_ty_view(ty),
            }),
    {
        AstNode::Cond {
            cond_expr: Box::new(cond_expr),
            then_block: Box::new(then_block),
            else_block: match else_block {
                Some(e) => Some(Box::new(e)),
                None => None,
            },
            ty,
        }
    }

    pub fn new_block(list: Vec<AstNode>, ty: Option<Type>) -> (r: Self)
        ensures
            r@ == (NodeV::Block { list: nodes_view(list@), ty: opt_ty_view(ty) }),
    {
        AstNode::Block { list, ty }
    }

    pub fn new_for(
        start_name: String,
        start_antn: Type,
        start_expr: Option<AstNode>,
        cond_expr: AstNode,
        step_expr: AstNode,
        body: AstNode,
    ) -> (r: Self)
        ensures
            r@ == (NodeV::For {
                start_name: start_name@,
                start_antn: start_antn@,
                start_expr: match start_expr {
                    Some(e) => Some(Box::new(e@)),
                    None => None,
                },
                cond_expr: Box::new(cond_expr@),
                step_expr: Box::new(step_expr@),
                loop_body: Box::new(body@),
            }),
    {
        AstNode::For {
            start_name,
            start_antn,
            start_expr: match start_expr {
                Some(e) => Some(Box::new(e)),
                None => None,
            },
            cond_expr: Box::new(cond_expr),
            step_expr: Box::new(step_expr),
            loop_body: Box::new(body),
        }
    }

    pub fn new_let(name: String, antn: Type, init: Option<AstNode>) -> (r: Self)
        ensures
            r@ == (NodeV::Let {
                name: name@,
                antn: antn@,
                init: match init {
                    Some(e) => Some(Box::new(e@)),
                    None => None,
                },
            }),
    {
        AstNode::Let {
            name,
            antn,
            init: match init {
                Some(e) => Some(Box::new(e)),
                None => None,
            },
        }
    }

    pub fn new_fn(proto: Prototype, body: Option<AstNode>) -> (r: Self)
        ensures
            r@ == (NodeV::Fn {
                proto: proto@,
                body: match body {
                    Some(b) => Some(Box::new(b@)),
                    None => None,
                },
            }),
    {
        AstNode::Fn {
            proto: Box::new(proto),
            body: match body {
                Some(b) => Some(Box::new(b)),
                None => None,
            },
        }
    }

    pub fn new_struct(name: String, fields: Vec<AstNode>, methods: Vec<AstNode>) -> (r: Self)
        ensures
            r@ == (NodeV::Struct {
                name: name@,
                fields: nodes_view(fields@),
                methods: nodes_view(methods@),
            }),
    {
        AstNode::Struct { name, fields, methods }
    }
}

/// A whole program: the parser's node sequence, in program order.
#[derive(Debug, PartialEq)]
pub struct Ast {
    nodes: Vec<AstNode>,
}

impl View for Ast {
    type V = Seq<NodeV>;

    closed spec fn view(&self) -> Seq<NodeV> {
        nodes_view(self.nodes@)
    }
}

impl Ast {
    pub fn new() -> (r: Self)
        ensures
            r@ =~= Seq::<NodeV>::empty(),
    {
        Ast { nodes: Vec::new() }
    }

    pub fn add(&mut self, node: AstNode)
        ensures
            final(self)@ =~= old(self)@.push(node@),
    {
        let ghost pre = self.nodes@;
        self.nodes.push(node);
        proof {
            assert(self.nodes@.drop_last() =~= pre);
        }
    }

    pub fn nodes(&self) -> (r: &Vec<AstNode>)
        ensures
            nodes_view(r@) == self@,
    {
        &self.nodes
    }

    pub fn into_nodes(self) -> (r: Vec<AstNode>)
        ensures
            nodes_view(r@) == self@,
    {
        self.nodes
    }
}

} // verus!

use vstd::prelude::*;

verus! {

// Evaluation lemmas: one unfolding of the view functions for each node
// shape, so that proofs about views need not manage fuel by hand.
pub broadcast proof fn lemma_view_lit(value: Literal, ty: Option<Type>)
    ensures
        #[trigger] node_view(AstNode::Lit { value, ty }) == (NodeV::Lit {
            value: lit_view(value),
            ty: opt_ty_view(ty),
        }),
{
}

pub broadcast proof fn lemma_view_ident(name: String, ty: Option<Type>)
    ensures
        #[trigger] node_view(AstNode::Ident { name, ty }) == (NodeV::Ident {
            name: name@,
            ty: opt_ty_view(ty),
        }),
{
}

pub broadcast proof fn lemma_view_binop(
    op: crate::types::Operator,
    lhs: Box<AstNode>,
    rhs: Box<AstNode>,
    ty: Option<Type>,
)
    ensures
        #[trigger] node_view(AstNode::BinOp { op, lhs, rhs, ty }) == (NodeV::BinOp {
            op,
            lhs: Box::new(node_view(*lhs)),
            rhs: Box::new(node_view(*rhs)),
            ty: opt_ty_view(ty),
        }),
{
}

pub broadcast proof fn lemma_view_unop(op: crate::types::Operator, rhs: Box<AstNode>, ty: Option<
    Type>)
    ensures
        #[trigger] node_view(AstNode::UnOp { op, rhs, ty }) == (NodeV::UnOp {
            op,
            rhs: Box::new(node_view(*rhs)),
            ty: opt_ty_view(ty),
        }),
{
}

pub broadcast proof fn lemma_view_call(name: String, args: Vec<AstNode>, ty: Option<Type>)
    ensures
        #[trigger] node_view(AstNode::Call { name, args, ty }) == (NodeV::Call {
            name: name@,
            args: nodes_view(args@),
            ty: opt_ty_view(ty),
        }),
{
}

pub broadcast proof fn lemma_view_index(binding: Box<AstNode>, idx: Box<AstNode>, ty: Option<Type>)
    ensures
        #[trigger] node_view(AstNode::Index { binding, idx, ty }) == (NodeV::Index {
            binding: Box::new(node_view(*binding)),
            idx: Box::new(node_view(*idx)),
            ty: opt_ty_view(ty),
        }),
{
}

pub broadcast proof fn lemma_view_cond(
    cond_expr: Box<AstNode>,
    then_block: Box<AstNode>,
    else_block: Option<Box<AstNode>>,
    ty: Option<Type>,
)
    ensures
        #[trigger] node_view(AstNode::Cond { cond_expr, then_block, else_block, ty })
            == (NodeV::Cond {
            cond_expr: Box::new(node_view(*cond_expr)),
            then_block: Box::new(node_view(*then_block)),
            else_block: match else_block {
                Some(e) => Some(Box::new(node_view(*e))),
                None => None,
            },
            ty: opt_ty_view(ty),
        }),
{
}

pub broadcast proof fn lemma_view_block(list: Vec<AstNode>, ty: Option<Type>)
    ensures
        #[trigger] node_view(AstNode::Block { list, ty }) == (NodeV::Block {
            list: nodes_view(list@),
            ty: opt_ty_view(ty),
        }),
{
}

pub broadcast proof fn lemma_view_for(
    start_name: String,
    start_antn: Type,
    start_expr: Option<Box<AstNode>>,
    cond_expr: Box<AstNode>,
    step_expr: Box<AstNode>,
    loop_body: Box<AstNode>,
)
    ensures
        #[trigger] node_view(
            AstNode::For { start_name, start_antn, start_expr, cond_expr, step_expr, loop_body },
        ) == (NodeV::For {
            start_name: start_name@,
            start_antn: start_antn@,
            start_expr: match start_expr {
                Some(e) => Some(Box::new(node_view(*e))),
                None => None,
            },
            cond_expr: Box::new(node_view(*cond_expr)),
            step_expr: Box::new(node_view(*step_expr)),
            loop_body: Box::new(node_view(*loop_body)),
        }),
{
}

pub broadcast proof fn lemma_view_let(name: String, antn: Type, init: Option<Box<AstNode>>)
    ensures
        #[trigger] node_view(AstNode::Let { name, antn, init }) == (NodeV::Let {
            name: name@,
            antn: antn@,
            init: match init {
                Some(e) => Some(Box::new(node_view(*e))),
                None => None,
            },
        }),
{
}

pub broadcast proof fn lemma_view_fn(proto: Box<Prototype>, body: Option<Box<AstNode>>)
    ensures
        #[trigger] node_view(AstNode::Fn { proto, body }) == (NodeV::Fn {
            proto: proto_view(*proto),
            body: match body {
                Some(b) => Some(Box::new(node_view(*b))),
                None => None,
            },
        }),
{
}

pub broadcast proof fn lemma_view_struct(name: String, fields: Vec<AstNode>, methods: Vec<AstNode>)
    ensures
        #[trigger] node_view(AstNode::Struct { name, fields, methods }) == (NodeV::Struct {
            name: name@,
            fields: nodes_view(fields@),
            methods: nodes_view(methods@),
        }),
{
}

pub broadcast proof fn lemma_lit_view_eval(l: Literal)
    ensures
        #[trigger] lit_view(l) == (match l {
            Literal::Int8(v) => LitV::Int8(v),
            Literal::Int16(v) => LitV::Int16(v),
            Literal::Int32(v) => LitV::Int32(v),
            Literal::Int64(v) => LitV::Int64(v),
            Literal::UInt8(v) => LitV::UInt8(v),
            Literal::UInt16(v) => LitV::UInt16(v),
            Literal::UInt32(v) => LitV::UInt32(v),
            Literal::UInt64(v) => LitV::UInt64(v),
            Literal::Float(s) => LitV::Float(s@),
            Literal::Double(s) => LitV::Double(s@),
            Literal::Bool(v) => LitV::Bool(v),
            Literal::Char(v) => LitV::Char(v),
            Literal::Array { elements, inner_ty } => LitV::Array {
                elements: nodes_view(elements@),
                inner_ty: opt_ty_view(inner_ty),
            },
        }),
{
}

pub broadcast proof fn lemma_nodes_view_empty(s: Seq<AstNode>)
    ensures
        s.len() == 0 ==> #[trigger] nodes_view(s) =~= Seq::<NodeV>::empty(),
{
}

pub broadcast proof fn lemma_nodes_view_push(s: Seq<AstNode>, x: AstNode)
    ensures
        #[trigger] nodes_view(s.push(x)) =~= nodes_view(s).push(node_view(x)),
{
    assert(s.push(x).drop_last() =~= s);
    assert(s.push(x).last() == x);
}

pub broadcast group group_ast_views {
    lemma_view_lit,
    lemma_view_ident,
    lemma_view_binop,
    lemma_view_unop,
    lemma_view_call,
    lemma_view_index,
    lemma_view_cond,
    lemma_view_block,
    lemma_view_for,
    lemma_view_let,
    lemma_view_fn,
    lemma_view_struct,
    lemma_lit_view_eval,
    lemma_nodes_view_empty,
    lemma_nodes_view_push,
}

} // verus!
use vstd::prelude::*;

verus! {

impl Clone for Prototype {
    /// A clone has the same mathematical shape as the original.
    fn clone(&self) -> (r: Self)
        ensures
            r@ == self@,
    {
        let r = Prototype {
            name: self.name.clone(),
            args: crate::symbol::clone_pairs(self.args.as_slice()),
            ret_ty: self.ret_ty.clone(),
            is_extern: self.is_extern,
        };
        proof {
            assert(r@.args =~~= self@.args);
        }
        r
    }
}

impl Clone for Literal {
    /// A clone has the same mathematical shape as the original.
    fn clone(&self) -> (r: Self)
        ensures
            r@ == self@,
        decreases *self,
    {
        match self {
            Literal::Int8(v) => Literal::Int8(*v),
            Literal::Int16(v) => Literal::Int16(*v),
            Literal::Int32(v) => Literal::Int32(*v),
            Literal::Int64(v) => Literal::Int64(*v),
            Literal::UInt8(v) => Literal::UInt8(*v),
            Literal::UInt16(v) => Literal::UInt16(*v),
            Literal::UInt32(v) => Literal::UInt32(*v),
            Literal::UInt64(v) => Literal::UInt64(*v),
            Literal::Float(s) => Literal::Float(s.clone()),
            Literal::Double(s) => Literal::Double(s.clone()),
            Literal::Bool(v) => Literal::Bool(*v),
            Literal::Char(v) => Literal::Char(*v),
            Literal::Array { elements, inner_ty } => Literal::Array {
                elements: clone_nodes(elements),
                inner_ty: clone_opt_ty(inner_ty),
            },
        }
    }
}

fn clone_opt_ty(o: &Option<Type>) -> (r: Option<Type>)
    ensures
        opt_ty_view(r) == opt_ty_view(*o),
{
    match o {
        Some(t) => Some(t.clone()),
        None => None,
    }
}

#[verifier::loop_isolation(false)]
fn clone_nodes(v: &Vec<AstNode>) -> (r: Vec<AstNode>)
    ensures
        nodes_view(r@) == nodes_view(v@),
    decreases v,
{
    let mut out: Vec<AstNode> = Vec::new();
    let mut i: usize = 0;
    proof {
        lemma_nodes_view_index(v@);
        assert(nodes_view(out@) =~= nodes_view(v@.subrange(0, 0)));
    }
    while i < v.len()
        invariant
            0 <= i <= v@.len(),
            nodes_view(out@) =~= nodes_view(v@.subrange(0, i as int)),
        decreases v@.len() - i,
    {
        proof {
            lemma_nodes_view_index(v@);
        }
        let c = v[i].clone();
        let ghost cv = c@;
        let ghost outpre = out@;
        out.push(c);
        proof {
            lemma_nodes_view_push(outpre, out@.last());
            assert(out@ == outpre.push(out@.last()));
            assert(nodes_view(out@) =~= nodes_view(outpre).push(cv));
            lemma_nodes_view_index(v@.subrange(0, i as int));
            assert(nodes_view(outpre).len() == i);
            lemma_nodes_view_index(v@.subrange(0, i + 1 as int));
            assert forall|k: int| 0 <= k < i + 1 implies nodes_view(out@)[k] == nodes_view(
                v@.subrange(0, i + 1 as int),
            )[k] by {
                assert(v@.subrange(0, i + 1 as int)[k] == v@[k]);
                if k < i {
                    assert(nodes_view(out@)[k] == nodes_view(outpre)[k]);
                    assert(v@.subrange(0, i as int)[k] == v@[k]);
                }
            }
            assert(nodes_view(out@) =~= nodes_view(v@.subrange(0, i + 1 as int)));
        }
        i = i + 1;
    }
    proof {
        assert(v@.subrange(0, v@.len() as int) =~= v@);
    }
    out
}

impl Clone for AstNode {
    /// A clone has the same mathematical shape as the original.
    fn clone(&self) -> (r: Self)
        ensures
            r@ == self@,
        decreases *self,
    {
        broadcast use group_ast_views;

        match self {
            AstNode::Lit { value, ty } => AstNode::Lit {
                value: value.clone(),
                ty: clone_opt_ty(ty),
            },
            AstNode::Ident { name, ty } => AstNode::Ident {
                name: name.clone(),
                ty: clone_opt_ty(ty),
            },
            AstNode::BinOp { op, lhs, rhs, ty } => AstNode::BinOp {
                op: *op,
                lhs: Box::new((**lhs).clone()),
                rhs: Box::new((**rhs).clone()),
                ty: clone_opt_ty(ty),
            },
            AstNode::UnOp { op, rhs, ty } => AstNode::UnOp {
                op: *op,
                rhs: Box::new((**rhs).clone()),
                ty: clone_opt_ty(ty),
            },
            AstNode::Call { name, args, ty } => AstNode::Call {
                name: name.clone(),
                args: clone_nodes(args),
                ty: clone_opt_ty(ty),
            },
            AstNode::Index { binding, idx, ty } => AstNode::Index {
                binding: Box::new((**binding).clone()),
                idx: Box::new((**idx).clone()),
                ty: clone_opt_ty(ty),
            },
            AstNode::Cond { cond_expr, then_block, else_block, ty } => AstNode::Cond {
                cond_expr: Box::new((**cond_expr).clone()),
                then_block: Box::new((**then_block).clone()),
                else_block: match else_block {
                    Some(e) => Some(Box::new((**e).clone())),
                    None => None,
                },
                ty: clone_opt_ty(ty),
            },
            AstNode::Block { list, ty } => AstNode::Block {
                list: clone_nodes(list),
                ty: clone_opt_ty(ty),
            },
            AstNode::For { start_name, start_antn, start_expr, cond_expr, step_expr, loop_body } => AstNode::For {
                start_name: start_name.clone(),
                start_antn: start_antn.clone(),
                start_expr: match start_expr {
                    Some(e) => Some(Box::new((**e).clone())),
                    None => None,
                },
                cond_expr: Box::new((**cond_expr).clone()),
                step_expr: Box::new((**step_expr).clone()),
                loop_body: Box::new((**loop_body).clone()),
            },
            AstNode::Let { name, antn, init } => AstNode::Let {
                name: name.clone(),
                antn: antn.clone(),
                init: match init {
                    Some(e) => Some(Box::new((**e).clone())),
                    None => None,
                },
            },
            AstNode::Fn { proto, body } => AstNode::Fn {
                proto: Box::new((**proto).clone()),
                body: match body {
                    Some(b) => Some(Box::new((**b).clone())),
                    None => None,
                },
            },
            AstNode::Struct { name, fields, methods } => AstNode::Struct {
                name: name.clone(),
                fields: clone_nodes(fields),
                methods: clone_nodes(methods),
            },
        }
    }
}

} // verus!
