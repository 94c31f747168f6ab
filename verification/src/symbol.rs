use vstd::prelude::*;

use crate::strutil::str_eq;
use crate::types::{Type, TypeV};
use vstd::pervasive::unreached;
use vstd::string::StringExecFns;

verus! {

/// What the symbol table records about a function: its positional arguments
/// as `(name, type name)` pairs, its declared return type name, and whether
/// it was declared `extern`.
#[derive(Debug, PartialEq)]
pub struct FnData {
    pub args: Vec<(String, String)>,
    pub ret_ty: String,
    pub is_extern: bool,
}

/// What the symbol table records about a variable: its resolved type.
#[derive(Debug, PartialEq)]
pub struct VarData {
    pub ty: Type,
}

/// What the symbol table records about a composite: its fields as
/// `(name, type name)` pairs and, optionally, its method names.
#[derive(Debug, PartialEq)]
pub struct StructData {
    pub fields: Vec<(String, String)>,
    pub methods: Option<Vec<String>>,
}

/// A named entry of the symbol table.
#[derive(Debug, PartialEq)]
pub struct Symbol {
    pub name: String,
    pub data: AssocData,
}

/// The data associated with a symbol: a function, a variable, a composite,
/// or a marker for a built-in type.
#[derive(Debug, PartialEq)]
pub enum AssocData {
    Fn(FnData),
    Var(VarData),
    Struct(StructData),
    Type(),
}

/// The mathematical shape of a function entry.
pub struct FnDataV {
    pub args: Seq<(Seq<char>, Seq<char>)>,
    pub ret_ty: Seq<char>,
    pub is_extern: bool,
}

/// The mathematical shape of a composite entry.
pub struct StructDataV {
    pub fields: Seq<(Seq<char>, Seq<char>)>,
    pub methods: Option<Seq<Seq<char>>>,
}

/// The mathematical shape of a symbol's data.
pub enum AssocDataV {
    Fn(FnDataV),
    Var(TypeV),
    Struct(StructDataV),
    Ty,
}

/// The mathematical shape of a symbol.
pub struct SymbolV {
    pub name: Seq<char>,
    pub data: AssocDataV,
}

pub open spec fn sym_view(s: Symbol) -> SymbolV {
    SymbolV {
        name: s.name@,
        data: match s.data {
            AssocData::Fn(f) => AssocDataV::Fn(
                FnDataV {
                    args: f.args.deep_view(),
                    ret_ty: f.ret_ty@,
                    is_extern: f.is_extern,
                },
            ),
            AssocData::Var(v) => AssocDataV::Var(v.ty@),
            AssocData::Struct(d) => AssocDataV::Struct(
                StructDataV { fields: d.fields.deep_view(), methods: d.methods.deep_view() },
            ),
            AssocData::Type() => AssocDataV::Ty,
        },
    }
}

impl View for Symbol {
    type V = SymbolV;

    open spec fn view(&self) -> SymbolV {
        sym_view(*self)
    }
}

impl DeepView for Symbol {
    type V = SymbolV;

    open spec fn deep_view(&self) -> SymbolV {
        sym_view(*self)
    }
}

/// Copies a list of `(name, type name)` pairs.
pub fn clone_pairs(pairs: &[(String, String)]) -> (r: Vec<(String, String)>)
    ensures
        r@ == pairs@,
{
    let mut v: Vec<(String, String)> = Vec::new();
    let mut i: usize = 0;
    while i < pairs.len()
        invariant
            0 <= i <= pairs@.len(),
            v@ =~= pairs@.subrange(0, i as int),
        decreases pairs@.len() - i,
    {
        let p = vstd::slice::slice_index_get(pairs, i);
        v.push((p.0.clone(), p.1.clone()));
        assert(v@ =~= pairs@.subrange(0, i + 1 as int));
        i = i + 1;
    }
    assert(pairs@.subrange(0, pairs@.len() as int) =~= pairs@);
    v
}

impl Clone for Symbol {
    /// A clone has the same mathematical shape as the original.
    fn clone(&self) -> (r: Self)
        ensures
            r@ == self@,
    {
        let data = match &self.data {
            AssocData::Fn(f) => AssocData::Fn(
                FnData {
                    args: clone_pairs(f.args.as_slice()),
                    ret_ty: f.ret_ty.clone(),
                    is_extern: f.is_extern,
                },
            ),
            AssocData::Var(v) => AssocData::Var(VarData { ty: v.ty.clone() }),
            AssocData::Struct(d) => {
                let methods = match &d.methods {
                    Some(ms) => {
                        let mut v: Vec<String> = Vec::new();
                        let mut i: usize = 0;
                        while i < ms.len()
                            invariant
                                0 <= i <= ms@.len(),
                                v@ =~= ms@.subrange(0, i as int),
                            decreases ms@.len() - i,
                        {
                            v.push(ms[i].clone());
                            assert(v@ =~= ms@.subrange(0, i + 1 as int));
                            i = i + 1;
                        }
                        assert(ms@.subrange(0, ms@.len() as int) =~= ms@);
                        Some(v)
                    },
                    None => None,
                };
                AssocData::Struct(StructData { fields: clone_pairs(d.fields.as_slice()), methods })
            },
            AssocData::Type() => AssocData::Type(),
        };
        let r = Symbol { name: self.name.clone(), data };
        proof {
            assert(sym_view(r).data =~~= sym_view(*self).data) by {
                match self.data {
                    AssocData::Fn(_) => {},
                    AssocData::Var(_) => {},
                    AssocData::Struct(_) => {},
                    AssocData::Type() => {},
                }
            }
        }
        r
    }
}

impl Symbol {
    /// A function symbol, as the parser installs it in the global scope.
    pub fn new_fn(name: &str, args: &[(String, String)], ret_ty: &str, is_extern: bool) -> (r: Self)
        ensures
            r@ == (SymbolV {
                name: name@,
                data: AssocDataV::Fn(
                    FnDataV { args: args.deep_view(), ret_ty: ret_ty@, is_extern },
                ),
            }),
    {
        let r = Symbol {
            name: name.to_owned(),
            data: AssocData::Fn(
                FnData { args: clone_pairs(args), ret_ty: ret_ty.to_owned(), is_extern },
            ),
        };
        proof {
            assert(r@.data->Fn_0.args =~~= args.deep_view());
        }
        r
    }

    /// A variable symbol.
    pub fn new_var(name: &str, ty: &Type) -> (r: Self)
        ensures
            r@ == (SymbolV { name: name@, data: AssocDataV::Var(ty@) }),
    {
        Symbol { name: name.to_owned(), data: AssocData::Var(VarData { ty: ty.clone() }) }
    }

    /// A marker symbol for a built-in type, stored under a reserved key so
    /// that it cannot collide with value names.
    pub fn new_ty(name: &str) -> (r: Self)
        ensures
            r@ == (SymbolV { name: "_type_"@ + name@, data: AssocDataV::Ty }),
    {
        let mut key = "_type_".to_owned();
        key.append(name);
        Symbol { name: key, data: AssocData::Type() }
    }

    pub fn set_name(&mut self, name: &str)
        ensures
            final(self)@ == (SymbolV { name: name@, data: old(self)@.data }),
    {
        self.name = name.to_owned();
    }

    /// The type of a variable symbol.
    pub fn ty(&self) -> (r: &Type)
        requires
            self@.data is Var,
        ensures
            self@.data == AssocDataV::Var(r@),
    {
        match &self.data {
            AssocData::Var(s) => &s.ty,
            _ => unreached(),
        }
    }

    /// The `(name, type name)` pairs of a function symbol's arguments.
    pub fn args(&self) -> (r: Vec<(&str, &str)>)
        requires
            self@.data is Fn,
        ensures
            r.deep_view() == self@.data->Fn_0.args,
    {
        match &self.data {
            AssocData::Fn(s) => {
                let mut v: Vec<(&str, &str)> = Vec::new();
                let mut i: usize = 0;
                while i < s.args.len()
                    invariant
                        0 <= i <= s.args@.len(),
                        v.deep_view() =~~= s.args.deep_view().subrange(0, i as int),
                    decreases s.args@.len() - i,
                {
                    let p = &s.args[i];
                    v.push((p.0.as_str(), p.1.as_str()));
                    assert(v.deep_view() =~~= s.args.deep_view().subrange(0, i + 1 as int));
                    i = i + 1;
                }
                assert(s.args.deep_view().subrange(0, s.args@.len() as int) =~~= s.args.deep_view());
                v
            },
            _ => unreached(),
        }
    }

    /// The type names of a function symbol's arguments.
    pub fn arg_tys(&self) -> (r: Vec<&str>)
        requires
            self@.data is Fn,
        ensures
            r.deep_view() == self@.data->Fn_0.args.map_values(|p: (Seq<char>, Seq<char>)| p.1),
    {
        match &self.data {
            AssocData::Fn(s) => {
                let mut v: Vec<&str> = Vec::new();
                let mut i: usize = 0;
                while i < s.args.len()
                    invariant
                        0 <= i <= s.args@.len(),
                        v.deep_view().len() == i,
                        forall|k: int|
                            0 <= k < i ==> v.deep_view()[k] == s.args.deep_view()[k].1,
                    decreases s.args@.len() - i,
                {
                    let p = &s.args[i];
                    let x = p.1.as_str();
                    let ghost vold = v@;
                    let ghost dvold = v.deep_view();
                    v.push(x);
                    proof {
                        assert(forall|k: int|
                            0 <= k < i ==> dvold[k] == #[trigger] vold[k].deep_view());
                        assert(v@ == vold.push(x));
                        assert(v@[i as int] == x);
                        assert(v.deep_view()[i as int] == x.deep_view());
                        assert(x@ == s.args@[i as int].1@);
                        assert(s.args.deep_view()[i as int] == s.args@[i as int].deep_view());
                        assert(forall|k: int| 0 <= k < i ==> v@[k] == vold[k]);
                        assert(forall|k: int|
                            0 <= k < i ==> v.deep_view()[k] == #[trigger] v@[k].deep_view());
                    }
                    i = i + 1;
                }
                proof {
                    let tys = self@.data->Fn_0.args.map_values(|p: (Seq<char>, Seq<char>)| p.1);
                    assert forall|k: int| 0 <= k < tys.len() implies v.deep_view()[k] == tys[k] by {
                        assert(tys[k] == s.args.deep_view()[k].1);
                    }
                    assert(v.deep_view() =~~= tys);
                }
                v
            },
            _ => unreached(),
        }
    }

    /// The declared return type name of a function symbol.
    pub fn ret_ty(&self) -> (r: &str)
        requires
            self@.data is Fn,
        ensures
            r@ == self@.data->Fn_0.ret_ty,
    {
        match &self.data {
            AssocData::Fn(s) => s.ret_ty.as_str(),
            _ => unreached(),
        }
    }

    /// Whether a function symbol was declared `extern`.
    pub fn is_extern(&self) -> (r: bool)
        requires
            self@.data is Fn,
        ensures
            r == self@.data->Fn_0.is_extern,
    {
        match &self.data {
            AssocData::Fn(s) => s.is_extern,
            _ => unreached(),
        }
    }
}

} // verus!
