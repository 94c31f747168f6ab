use vstd::prelude::*;

use crate::strutil::{dec_spec, str_eq, u64_to_string};
use vstd::string::StringExecFns;

verus! {

/// An `Operator` is an extra layer of abstraction between an operator token
/// and the actual character(s). Convenient to help constrain matching.
#[derive(Debug, PartialEq, Eq, Structural, Clone, Copy)]
pub enum Operator {
    Add,
    AddEq,
    And,
    Assign,
    BitAnd,
    BitOr,
    BitXor,
    Dec,
    Div,
    DivEq,
    Eq,
    Gt,
    GtEq,
    Inc,
    Lt,
    LtEq,
    Mul,
    MulEq,
    Not,
    NotEq,
    Or,
    Pow,
    RetType,
    Sub,
    SubEq,
}

/// The characters an operator is written with.
pub open spec fn op_str(op: Operator) -> Seq<char> {
    match op {
        Operator::Add => "+"@,
        Operator::AddEq => "+="@,
        Operator::Assign => "="@,
        Operator::And => "&&"@,
        Operator::BitAnd => "&"@,
        Operator::BitOr => "|"@,
        Operator::BitXor => "^"@,
        Operator::Dec => "--"@,
        Operator::Div => "/"@,
        Operator::DivEq => "/="@,
        Operator::Eq => "=="@,
        Operator::Gt => ">"@,
        Operator::GtEq => ">="@,
        Operator::Inc => "++"@,
        Operator::Lt => "<"@,
        Operator::LtEq => "<="@,
        Operator::Mul => "*"@,
        Operator::MulEq => "*="@,
        Operator::Not => "!"@,
        Operator::NotEq => "!="@,
        Operator::Or => "||"@,
        Operator::Pow => "**"@,
        Operator::RetType => "->"@,
        Operator::Sub => "-"@,
        Operator::SubEq => "-="@,
    }
}

impl Operator {
    /// The characters this operator is written with.
    pub fn as_str(&self) -> (r: &'static str)
        ensures
            r@ == op_str(*self),
    {
        match self {
            Operator::Add => "+",
            Operator::AddEq => "+=",
            Operator::Assign => "=",
            Operator::And => "&&",
            Operator::BitAnd => "&",
            Operator::BitOr => "|",
            Operator::BitXor => "^",
            Operator::Dec => "--",
            Operator::Div => "/",
            Operator::DivEq => "/=",
            Operator::Eq => "==",
            Operator::Gt => ">",
            Operator::GtEq => ">=",
            Operator::Inc => "++",
            Operator::Lt => "<",
            Operator::LtEq => "<=",
            Operator::Mul => "*",
            Operator::MulEq => "*=",
            Operator::Not => "!",
            Operator::NotEq => "!=",
            Operator::Or => "||",
            Operator::Pow => "**",
            Operator::RetType => "->",
            Operator::Sub => "-",
            Operator::SubEq => "-=",
        }
    }
}

/// The type algebra: primitive scalars, fixed-length arrays, and nominal
/// composites identified by name.
#[derive(Debug, PartialEq)]
pub enum Type {
    Int8,
    Int16,
    Int32,
    Int64,
    UInt8,
    UInt16,
    UInt32,
    UInt64,
    Float,
    Double,
    Bool,
    Char,
    Void,
    Array(Box<Type>, usize),
    Comp(String),
}

/// The mathematical shape of a `Type`: names become character sequences.
pub enum TypeV {
    Int8,
    Int16,
    Int32,
    Int64,
    UInt8,
    UInt16,
    UInt32,
    UInt64,
    Float,
    Double,
    Bool,
    Char,
    Void,
    Array(Box<TypeV>, nat),
    Comp(Seq<char>),
}

pub open spec fn ty_view(t: Type) -> TypeV
    decreases t,
{
    match t {
        Type::Int8 => TypeV::Int8,
        Type::Int16 => TypeV::Int16,
        Type::Int32 => TypeV::Int32,
        Type::Int64 => TypeV::Int64,
        Type::UInt8 => TypeV::UInt8,
        Type::UInt16 => TypeV::UInt16,
        Type::UInt32 => TypeV::UInt32,
        Type::UInt64 => TypeV::UInt64,
        Type::Float => TypeV::Float,
        Type::Double => TypeV::Double,
        Type::Bool => TypeV::Bool,
        Type::Char => TypeV::Char,
        Type::Void => TypeV::Void,
        Type::Array(el, len) => TypeV::Array(Box::new(ty_view(*el)), len as nat),
        Type::Comp(name) => TypeV::Comp(name@),
    }
}

impl View for Type {
    type V = TypeV;

    open spec fn view(&self) -> TypeV {
        ty_view(*self)
    }
}

impl Clone for Type {
    /// A clone is equal to the original.
    fn clone(&self) -> (r: Self)
        ensures
            r == *self,
        decreases *self,
    {
        match self {
            Type::Int8 => Type::Int8,
            Type::Int16 => Type::Int16,
            Type::Int32 => Type::Int32,
            Type::Int64 => Type::Int64,
            Type::UInt8 => Type::UInt8,
            Type::UInt16 => Type::UInt16,
            Type::UInt32 => Type::UInt32,
            Type::UInt64 => Type::UInt64,
            Type::Float => Type::Float,
            Type::Double => Type::Double,
            Type::Bool => Type::Bool,
            Type::Char => Type::Char,
            Type::Void => Type::Void,
            Type::Array(el, len) => Type::Array(Box::new((**el).clone()), *len),
            Type::Comp(name) => Type::Comp(name.clone()),
        }
    }
}

/// The primitive scalar type a source name resolves to, if any. The aliases
/// `int` and `uint` stand for the 32-bit widths.
pub open spec fn prim_of_name(s: Seq<char>) -> Option<TypeV> {
    if s == "int8"@ {
        Some(TypeV::Int8)
    } else if s == "int16"@ {
        Some(TypeV::Int16)
    } else if s == "int32"@ {
        Some(TypeV::Int32)
    } else if s == "int64"@ {
        Some(TypeV::Int64)
    } else if s == "uint8"@ {
        Some(TypeV::UInt8)
    } else if s == "uint16"@ {
        Some(TypeV::UInt16)
    } else if s == "uint32"@ {
        Some(TypeV::UInt32)
    } else if s == "uint64"@ {
        Some(TypeV::UInt64)
    } else if s == "float"@ {
        Some(TypeV::Float)
    } else if s == "double"@ {
        Some(TypeV::Double)
    } else if s == "bool"@ {
        Some(TypeV::Bool)
    } else if s == "char"@ {
        Some(TypeV::Char)
    } else if s == "void"@ {
        Some(TypeV::Void)
    } else if s == "int"@ {
        Some(TypeV::Int32)
    } else if s == "uint"@ {
        Some(TypeV::UInt32)
    } else {
        None
    }
}

/// The type a source name resolves to: a primitive for the fixed names,
/// and a nominal composite for anything else.
pub open spec fn resolve_spec(s: Seq<char>) -> TypeV {
    match prim_of_name(s) {
        Some(t) => t,
        None => TypeV::Comp(s),
    }
}

impl Type {
    /// Resolution of a source type name, as the specification fixes it.
    pub fn resolve_type(ty: &str) -> (r: Self)
        ensures
            r@ == resolve_spec(ty@),
    {
        if str_eq(ty, "int8") {
            Type::Int8
        } else if str_eq(ty, "int16") {
            Type::Int16
        } else if str_eq(ty, "int32") {
            Type::Int32
        } else if str_eq(ty, "int64") {
            Type::Int64
        } else if str_eq(ty, "uint8") {
            Type::UInt8
        } else if str_eq(ty, "uint16") {
            Type::UInt16
        } else if str_eq(ty, "uint32") {
            Type::UInt32
        } else if str_eq(ty, "uint64") {
            Type::UInt64
        } else if str_eq(ty, "float") {
            Type::Float
        } else if str_eq(ty, "double") {
            Type::Double
        } else if str_eq(ty, "bool") {
            Type::Bool
        } else if str_eq(ty, "char") {
            Type::Char
        } else if str_eq(ty, "void") {
            Type::Void
        } else if str_eq(ty, "int") {
            Type::Int32
        } else if str_eq(ty, "uint") {
            Type::UInt32
        } else {
            Type::Comp(ty.to_owned())
        }
    }

    /// The names that resolve to built-in types, installed as type symbols
    /// in the global scope.
    pub fn as_strings() -> (r: Vec<String>)
        ensures
            r.deep_view() =~= type_name_list(),
    {
        let mut v: Vec<String> = Vec::new();
        v.push("int8".to_owned());
        v.push("int16".to_owned());
        v.push("int32".to_owned());
        v.push("int64".to_owned());
        v.push("uint8".to_owned());
        v.push("uint16".to_owned());
        v.push("uint32".to_owned());
        v.push("uint64".to_owned());
        v.push("float".to_owned());
        v.push("double".to_owned());
        v.push("bool".to_owned());
        v.push("char".to_owned());
        v.push("void".to_owned());
        v.push("array".to_owned());
        v
    }

    /// Structural equality of types, meaning equality of their views.
    pub fn same_as(&self, other: &Type) -> (r: bool)
        ensures
            r == (self@ == other@),
        decreases *self,
    {
        match (self, other) {
            (Type::Int8, Type::Int8) => true,
            (Type::Int16, Type::Int16) => true,
            (Type::Int32, Type::Int32) => true,
            (Type::Int64, Type::Int64) => true,
            (Type::UInt8, Type::UInt8) => true,
            (Type::UInt16, Type::UInt16) => true,
            (Type::UInt32, Type::UInt32) => true,
            (Type::UInt64, Type::UInt64) => true,
            (Type::Float, Type::Float) => true,
            (Type::Double, Type::Double) => true,
            (Type::Bool, Type::Bool) => true,
            (Type::Char, Type::Char) => true,
            (Type::Void, Type::Void) => true,
            (Type::Array(a, n), Type::Array(b, m)) => {
                let r = a.same_as(b);
                r && *n == *m
            },
            (Type::Comp(a), Type::Comp(b)) => str_eq(a.as_str(), b.as_str()),
            _ => false,
        }
    }

    /// The characters this type prints as.
    pub fn to_str(&self) -> (r: String)
        ensures
            r@ == ty_str(self@),
        decreases *self,
    {
        match self {
            Type::Int8 => "int8".to_owned(),
            Type::Int16 => "int16".to_owned(),
            Type::Int32 => "int32".to_owned(),
            Type::Int64 => "int64".to_owned(),
            Type::UInt8 => "uint8".to_owned(),
            Type::UInt16 => "uint16".to_owned(),
            Type::UInt32 => "uint32".to_owned(),
            Type::UInt64 => "uint64".to_owned(),
            Type::Float => "float".to_owned(),
            Type::Double => "double".to_owned(),
            Type::Bool => "bool".to_owned(),
            Type::Char => "char".to_owned(),
            Type::Void => "void".to_owned(),
            Type::Array(el, len) => {
                let mut s = "array(".to_owned();
                let inner = el.to_str();
                s.append(inner.as_str());
                s.append(", ");
                let n = u64_to_string(*len as u64);
                s.append(n.as_str());
                s.append(")");
                s
            },
            Type::Comp(name) => name.clone(),
        }
    }
}

pub open spec fn type_name_list() -> Seq<Seq<char>> {
    seq![
        "int8"@,
        "int16"@,
        "int32"@,
        "int64"@,
        "uint8"@,
        "uint16"@,
        "uint32"@,
        "uint64"@,
        "float"@,
        "double"@,
        "bool"@,
        "char"@,
        "void"@,
        "array"@,
    ]
}

/// How a type prints: primitives by their lower-case name, arrays with their
/// element type and length, composites by their name.
pub open spec fn ty_str(t: TypeV) -> Seq<char>
    decreases t,
{
    match t {
        TypeV::Int8 => "int8"@,
        TypeV::Int16 => "int16"@,
        TypeV::Int32 => "int32"@,
        TypeV::Int64 => "int64"@,
        TypeV::UInt8 => "uint8"@,
        TypeV::UInt16 => "uint16"@,
        TypeV::UInt32 => "uint32"@,
        TypeV::UInt64 => "uint64"@,
        TypeV::Float => "float"@,
        TypeV::Double => "double"@,
        TypeV::Bool => "bool"@,
        TypeV::Char => "char"@,
        TypeV::Void => "void"@,
        TypeV::Array(el, len) => "array("@ + ty_str(*el) + ", "@ + dec_spec(len) + ")"@,
        TypeV::Comp(name) => name,
    }
}

/// The numeric types: the integer widths and the two floating widths.
pub open spec fn is_numeric(t: TypeV) -> bool {
    is_int(t) || t == TypeV::Float || t == TypeV::Double
}

/// The integer types of the algebra, signed and unsigned.
pub open spec fn is_int(t: TypeV) -> bool {
    ||| t == TypeV::Int8
    ||| t == TypeV::Int16
    ||| t == TypeV::Int32
    ||| t == TypeV::Int64
    ||| t == TypeV::UInt8
    ||| t == TypeV::UInt16
    ||| t == TypeV::UInt32
    ||| t == TypeV::UInt64
}

impl Default for Type {
    /// The default type, used where an annotation is absent.
    fn default() -> (r: Self)
        ensures
            r@ == TypeV::Void,
    {
        Type::Void
    }
}

} // verus!
