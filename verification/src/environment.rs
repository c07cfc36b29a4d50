//! The environment: a chain of lexical scopes from the global scope up to the
//! innermost one. Lookup walks from the innermost scope outward and stops at
//! the first hit; definition always targets the innermost scope, shadowing
//! any binding of the same name further out.
use vstd::prelude::*;

use crate::callable::{Callable, CallableM};
use crate::functions::{Factors, Pi, Plot, Sin};
use crate::value::{value_view, Value, ValueM};

verus! {

/// The model of the scope chain: scopes from the outermost to the innermost,
/// each a sequence of name/value pairs in definition order.
pub type EnvM = Seq<Seq<(Seq<char>, ValueM)>>;

/// The model of one scope: name/value pairs in definition order; a later
/// entry shadows an earlier one with the same name.
pub open spec fn scope_view(sc: Seq<(String, Value)>) -> Seq<(Seq<char>, ValueM)> {
    Seq::new(sc.len(), |i: int| (sc[i].0@, value_view(sc[i].1)))
}

/// The model of the scope chain, outermost scope first.
pub open spec fn env_view_of(scopes: Seq<Vec<(String, Value)>>) -> Seq<Seq<(Seq<char>, ValueM)>> {
    Seq::new(scopes.len(), |i: int| scope_view(scopes[i]@))
}

/// Lookup in one scope: the value of the latest entry with this name.
pub open spec fn scope_lookup(sc: Seq<(Seq<char>, ValueM)>, name: Seq<char>) -> Option<ValueM>
    decreases sc.len(),
{
    if sc.len() == 0 {
        None
    } else if sc.last().0 == name {
        Some(sc.last().1)
    } else {
        scope_lookup(sc.drop_last(), name)
    }
}

/// Lookup across the chain: the innermost scope first, then its ancestors.
pub open spec fn env_lookup(
    st: Seq<Seq<(Seq<char>, ValueM)>>,
    name: Seq<char>,
) -> Option<ValueM>
    decreases st.len(),
{
    if st.len() == 0 {
        None
    } else {
        match scope_lookup(st.last(), name) {
            Some(v) => Some(v),
            None => env_lookup(st.drop_last(), name),
        }
    }
}

/// Definition: a new entry in the innermost scope.
pub open spec fn env_define(
    st: Seq<Seq<(Seq<char>, ValueM)>>,
    name: Seq<char>,
    v: ValueM,
) -> Seq<Seq<(Seq<char>, ValueM)>> {
    st.update(st.len() - 1, st.last().push((name, v)))
}

/// The global scope a session starts from: the four built-ins under their
/// canonical names.
pub open spec fn global_env() -> Seq<Seq<(Seq<char>, ValueM)>> {
    seq![
        seq![
            (seq!['p', 'i'], ValueM::Function(CallableM::Pi)),
            (seq!['s', 'i', 'n'], ValueM::Function(CallableM::Sin)),
            (
                seq!['f', 'a', 'c', 't', 'o', 'r', 's'],
                ValueM::Function(CallableM::Factors),
            ),
            (seq!['p', 'l', 'o', 't'], ValueM::Function(CallableM::Plot)),
        ],
    ]
}

/// A definition is found again: looking the name up right after defining it
/// yields the defined value, whatever the name was bound to before — the new
/// binding shadows any older one.
pub proof fn lemma_define_then_lookup(st: Seq<Seq<(Seq<char>, ValueM)>>, name: Seq<char>, v: ValueM)
    requires
        st.len() >= 1,
    ensures
        env_lookup(env_define(st, name, v), name) == Some(v),
{
    let st2 = env_define(st, name, v);
    assert(st2.last() == st.last().push((name, v)));
    assert(st2.last().last() == (name, v));
    assert(scope_lookup(st2.last(), name) == Some(v));
}

/// A definition leaves every other name alone: looking up a different name
/// after a definition yields what it yielded before.
pub proof fn lemma_define_other_name(
    st: Seq<Seq<(Seq<char>, ValueM)>>,
    name: Seq<char>,
    v: ValueM,
    other: Seq<char>,
)
    requires
        st.len() >= 1,
        other != name,
    ensures
        env_lookup(env_define(st, name, v), other) == env_lookup(st, other),
{
    let st2 = env_define(st, name, v);
    assert(st2.last() == st.last().push((name, v)));
    assert(st2.last().drop_last() =~= st.last());
    assert(scope_lookup(st2.last(), other) == scope_lookup(st.last(), other));
    assert(st2.drop_last() =~= st.drop_last());
}

/// The chain of scopes of one session.
pub struct Environment {
    scopes: Vec<Vec<(String, Value)>>,
}

impl View for Environment {
    type V = Seq<Seq<(Seq<char>, ValueM)>>;

    closed spec fn view(&self) -> Seq<Seq<(Seq<char>, ValueM)>> {
        env_view_of(self.scopes@)
    }
}

impl Environment {
    /// There is always at least the global scope.
    pub open spec fn wf(&self) -> bool {
        self@.len() >= 1
    }

    /// The global scope, pre-populated with the built-in callables.
    pub fn global() -> (e: Environment)
        ensures
            e.wf(),
            e@ == global_env(),
    {
        let mut scope: Vec<(String, Value)> = Vec::new();
        scope.push((String::from_str("pi"), Value::Function(Callable::Pi(Pi))));
        scope.push((String::from_str("sin"), Value::Function(Callable::Sin(Sin))));
        scope.push((String::from_str("factors"), Value::Function(Callable::Factors(Factors))));
        scope.push((String::from_str("plot"), Value::Function(Callable::Plot(Plot))));
        let mut scopes: Vec<Vec<(String, Value)>> = Vec::new();
        scopes.push(scope);
        let e = Environment { scopes };
        proof {
            reveal_strlit("pi");
            reveal_strlit("sin");
            reveal_strlit("factors");
            reveal_strlit("plot");
            assert(e@ =~~= global_env());
        }
        e
    }

    /// Inserts or overwrites in the innermost scope only.
    pub fn define(&mut self, name: String, value: Value)
        requires
            old(self).wf(),
        ensures
            final(self).wf(),
            final(self)@ == env_define(old(self)@, name@, value_view(value)),
    {
        let ghost st0 = self@;
        let mut sc = match self.scopes.pop() {
            Some(s) => s,
            None => Vec::new(),
        };
        sc.push((name, value));
        self.scopes.push(sc);
        proof {
            assert(self@ =~~= env_define(st0, name@, value_view(value)));
        }
    }

    /// Looks the name up, innermost scope first; a miss is not by itself an
    /// error, the caller decides what it means.
    pub fn get(&self, name: &String) -> (r: Option<Value>)
        ensures
            match r {
                Some(v) => env_lookup(self@, name@) == Some(value_view(v)),
                None => env_lookup(self@, name@) is None,
            },
    {
        let ghost st = self@;
        let mut k = self.scopes.len();
        proof {
            assert(st.subrange(0, k as int) =~= st);
        }
        while k > 0
            invariant
                k <= self.scopes.len(),
                st == self@,
                env_lookup(st, name@) == env_lookup(st.subrange(0, k as int), name@),
            decreases k,
        {
            let sc = &self.scopes[k - 1];
            let ghost scm = scope_view(sc@);
            let mut j = sc.len();
            proof {
                assert(scm.subrange(0, j as int) =~= scm);
            }
            while j > 0
                invariant
                    1 <= k <= self.scopes.len(),
                    st == self@,
                    j <= sc@.len(),
                    sc@ == self.scopes@[k - 1 as int]@,
                    scm == scope_view(sc@),
                    env_lookup(st, name@) == env_lookup(st.subrange(0, k as int), name@),
                    scope_lookup(scm, name@) == scope_lookup(scm.subrange(0, j as int), name@),
                decreases j,
            {
                if sc[j - 1].0.eq(name) {
                    proof {
                        assert(scm.subrange(0, j as int).last() == scm[j - 1]);
                        assert(scope_lookup(scm.subrange(0, j as int), name@)
                            == Some(scm[j - 1].1));
                        assert(st.subrange(0, k as int).last() == st[k - 1]);
                        assert(st[k - 1] == scm);
                        assert(env_lookup(st, name@) == Some(scm[j - 1].1));
                    }
                    return Some(sc[j - 1].1.clone());
                }
                proof {
                    assert(scm.subrange(0, j as int).last() == scm[j - 1]);
                    assert(scm.subrange(0, j as int).drop_last() =~= scm.subrange(0, j - 1 as int));
                }
                j = j - 1;
            }
            proof {
                assert(scm.subrange(0, 0) =~= Seq::<(Seq<char>, ValueM)>::empty());
                assert(scope_lookup(scm, name@) is None);
                assert(st.subrange(0, k as int).last() == st[k - 1]);
                assert(st[k - 1] == scm);
                assert(st.subrange(0, k as int).drop_last() =~= st.subrange(0, k - 1 as int));
            }
            k = k - 1;
        }
        proof {
            assert(st.subrange(0, 0) =~= Seq::<Seq<(Seq<char>, ValueM)>>::empty());
        }
        None
    }

    /// Opens a fresh innermost scope whose parent is the current chain.
    pub fn push_scope(&mut self)
        requires
            old(self).wf(),
        ensures
            final(self).wf(),
            final(self)@ == old(self)@.push(Seq::empty()),
    {
        let fresh: Vec<(String, Value)> = Vec::new();
        self.scopes.push(fresh);
        proof {
            assert(self@ =~~= old(self)@.push(Seq::empty()));
        }
    }

    /// Discards the innermost scope, restoring its parent chain.
    pub fn pop_scope(&mut self)
        requires
            old(self)@.len() >= 2,
        ensures
            final(self).wf(),
            final(self)@ == old(self)@.drop_last(),
    {
        let _ = self.scopes.pop();
        proof {
            assert(self@ =~~= old(self)@.drop_last());
        }
    }
}

} // verus!
