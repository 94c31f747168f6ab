use vstd::prelude::*;

use crate::strutil::str_eq;
use crate::symbol::{Symbol, SymbolV};
use vstd::pervasive::unreached;

verus! {

/// A stack of lexical scopes, innermost last. Each scope maps names to
/// symbols; an insertion into a scope shadows an earlier symbol of the
/// same name, and lookup searches the scopes innermost to outermost.
pub struct SymbolTable {
    scopes: Vec<Vec<Symbol>>,
}

/// What a single scope resolves a name to: the symbol of that name that
/// was inserted last, if any.
pub open spec fn scope_lookup(s: Seq<SymbolV>, name: Seq<char>) -> Option<SymbolV>
    decreases s.len(),
{
    if s.len() == 0 {
        None
    } else if s.last().name == name {
        Some(s.last())
    } else {
        scope_lookup(s.drop_last(), name)
    }
}

/// What the whole table resolves a name to: the innermost scope that
/// knows the name wins.
pub open spec fn lookup_spec(t: Seq<Seq<SymbolV>>, name: Seq<char>) -> Option<SymbolV>
    decreases t.len(),
{
    if t.len() == 0 {
        None
    } else {
        match scope_lookup(t.last(), name) {
            Some(s) => Some(s),
            None => lookup_spec(t.drop_last(), name),
        }
    }
}

proof fn lemma_deep_index(v: Vec<Vec<Symbol>>)
    ensures
        v.deep_view().len() == v@.len(),
        forall|k: int| 0 <= k < v@.len() ==> v.deep_view()[k] == #[trigger] v@[k].deep_view(),
{
}

proof fn lemma_scope_deep_index(v: Vec<Symbol>)
    ensures
        v.deep_view().len() == v@.len(),
        forall|k: int| 0 <= k < v@.len() ==> v.deep_view()[k] == #[trigger] v@[k]@,
{
    assert(forall|k: int| 0 <= k < v@.len() ==> v.deep_view()[k] == #[trigger] v@[k].deep_view());
}

impl View for SymbolTable {
    type V = Seq<Seq<SymbolV>>;

    closed spec fn view(&self) -> Seq<Seq<SymbolV>> {
        self.scopes.deep_view()
    }
}

impl SymbolTable {
    /// A fresh table holding one scope, the global one.
    pub fn new() -> (r: Self)
        ensures
            r@ =~= seq![Seq::<SymbolV>::empty()],
    {
        let mut scopes: Vec<Vec<Symbol>> = Vec::new();
        let inner: Vec<Symbol> = Vec::new();
        proof {
            assert(inner.deep_view() =~= Seq::<SymbolV>::empty());
        }
        scopes.push(inner);
        let r = SymbolTable { scopes };
        proof {
            lemma_deep_index(r.scopes);
        }
        r
    }

    /// How many scopes are open.
    pub fn depth(&self) -> (r: usize)
        ensures
            r == self@.len(),
    {
        self.scopes.len()
    }

    /// Opens a new innermost scope.
    pub fn enter_scope(&mut self)
        ensures
            final(self)@ =~= old(self)@.push(Seq::<SymbolV>::empty()),
    {
        let ghost told = self@;
        proof {
            lemma_deep_index(self.scopes);
        }
        let inner: Vec<Symbol> = Vec::new();
        proof {
            assert(inner.deep_view() =~= Seq::<SymbolV>::empty());
        }
        self.scopes.push(inner);
        proof {
            lemma_deep_index(self.scopes);
            assert(self@ =~= told.push(Seq::<SymbolV>::empty()));
        }
    }

    /// Closes the innermost scope, dropping its symbols.
    pub fn leave_scope(&mut self)
        requires
            old(self)@.len() > 0,
        ensures
            final(self)@ =~= old(self)@.drop_last(),
    {
        let ghost told = self@;
        proof {
            lemma_deep_index(self.scopes);
        }
        self.scopes.pop();
        proof {
            lemma_deep_index(self.scopes);
        }
    }

    /// Inserts a symbol into the innermost scope, shadowing any earlier
    /// symbol of the same name there.
    pub fn insert(&mut self, sym: Symbol)
        requires
            old(self)@.len() > 0,
        ensures
            final(self)@ =~= old(self)@.update(
                old(self)@.len() - 1,
                old(self)@.last().push(sym@),
            ),
    {
        let ghost told = self@;
        let ghost symv = sym@;
        proof {
            lemma_deep_index(self.scopes);
        }
        let mut scope = match self.scopes.pop() {
            Some(s) => s,
            None => unreached(),
        };
        let ghost dlast = scope.deep_view();
        proof {
            lemma_deep_index(self.scopes);
            lemma_scope_deep_index(scope);
        }
        scope.push(sym);
        proof {
            lemma_scope_deep_index(scope);
            assert(scope.deep_view() =~= dlast.push(symv));
        }
        self.scopes.push(scope);
        proof {
            lemma_deep_index(self.scopes);
            assert(self@ =~= told.update(told.len() - 1, told.last().push(symv)));
        }
    }

    /// Resolves a name, searching the scopes innermost to outermost.
    #[verifier::loop_isolation(false)]
    pub fn get(&self, name: &str) -> (r: Option<&Symbol>)
        ensures
            match lookup_spec(self@, name@) {
                Some(sv) => r matches Some(s) && s@ == sv,
                None => r is None,
            },
    {
        proof {
            lemma_deep_index(self.scopes);
        }
        let mut si = self.scopes.len();
        proof {
            assert(self@.subrange(0, self@.len() as int) =~= self@);
        }
        while si > 0
            invariant
                0 <= si <= self.scopes@.len(),
                self@ == self.scopes.deep_view(),
                self@.len() == self.scopes@.len(),
                lookup_spec(self@, name@) == lookup_spec(self@.subrange(0, si as int), name@),
            decreases si,
        {
            si = si - 1;
            let scope = &self.scopes[si];
            proof {
                lemma_deep_index(self.scopes);
                lemma_scope_deep_index(*scope);
            }
            let mut j = scope.len();
            proof {
                assert(self@[si as int].subrange(0, scope@.len() as int) =~= self@[si as int]);
            }
            while j > 0
                invariant
                    0 <= j <= scope@.len(),
                    0 <= si < self.scopes@.len(),
                    *scope == self.scopes@[si as int],
                    self@ == self.scopes.deep_view(),
                    scope.deep_view() == self@[si as int],
                    scope.deep_view().len() == scope@.len(),
                    forall|k: int| 0 <= k < scope@.len() ==> scope.deep_view()[k] == #[trigger] scope@[k]@,
                    scope_lookup(self@[si as int], name@) == scope_lookup(
                        self@[si as int].subrange(0, j as int),
                        name@,
                    ),
                decreases j,
            {
                j = j - 1;
                let ghost pre = self@[si as int].subrange(0, j + 1);
                proof {
                    assert(pre.last() == scope@[j as int]@);
                    assert(pre.drop_last() =~= self@[si as int].subrange(0, j as int));
                }
                if str_eq(scope[j].name.as_str(), name) {
                    proof {
                        assert(scope_lookup(pre, name@) == Some(scope@[j as int]@));
                        let prefix = self@.subrange(0, si + 1);
                        assert(prefix.last() == self@[si as int]);
                        assert(lookup_spec(prefix, name@) == Some(scope@[j as int]@));
                    }
                    return Some(&self.scopes[si][j]);
                }
            }
            proof {
                assert(self@[si as int].subrange(0, 0) =~= Seq::<SymbolV>::empty());
                let prefix = self@.subrange(0, si + 1);
                assert(prefix.last() == self@[si as int]);
                assert(prefix.drop_last() =~= self@.subrange(0, si as int));
            }
        }
        proof {
            assert(self@.subrange(0, 0) =~= Seq::<Seq<SymbolV>>::empty());
        }
        None
    }
}

} // verus!
