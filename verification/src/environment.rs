//! The variable environment: a mapping from names to values.

use vstd::prelude::*;
use crate::value::{ValueView, VariableValue};

verus! {

/// One name with the value bound to it.
struct Binding {
    name: String,
    value: VariableValue,
}

/// The run's bindings from variable name to value. A name is bound at most
/// once: binding it again replaces its value.
pub struct Environment {
    bindings: Vec<Binding>,
}

impl View for Environment {
    type V = Map<Seq<char>, ValueView>;

    closed spec fn view(&self) -> Map<Seq<char>, ValueView> {
        Map::new(
            |k: Seq<char>| self.binds(k),
            |k: Seq<char>| self.bindings[self.position(k)].value@,
        )
    }
}

impl Environment {
    /// No name is bound twice. Every environment that this module hands out
    /// is well formed, and every method keeps it so.
    pub closed spec fn wf(&self) -> bool {
        forall|i: int, j: int|
            0 <= i < j < self.bindings.len() ==> self.bindings[i].name@ != self.bindings[j].name@
    }

    /// Some binding is for the name `k`.
    spec fn binds(&self, k: Seq<char>) -> bool {
        exists|i: int| self.bound_at(k, i)
    }

    /// The binding at `i` is for the name `k`.
    spec fn bound_at(&self, k: Seq<char>, i: int) -> bool {
        0 <= i < self.bindings.len() && self.bindings[i].name@ == k
    }

    /// Where the name `k` is bound, if it is.
    spec fn position(&self, k: Seq<char>) -> int {
        choose|i: int| self.bound_at(k, i)
    }

    /// The environment in which no name is bound.
    pub fn new() -> (env: Environment)
        ensures
            env.wf(),
            env@ == Map::<Seq<char>, ValueView>::empty(),
    {
        let env = Environment { bindings: Vec::new() };
        assert(env@ =~= Map::<Seq<char>, ValueView>::empty());
        env
    }

    /// The index of the binding for `name`, or the number of bindings if
    /// there is none.
    fn find(&self, name: &String) -> (p: usize)
        ensures
            p <= self.bindings.len(),
            p < self.bindings.len() ==> self.bound_at(name@, p as int),
            p == self.bindings.len() ==> !self.binds(name@),
    {
        let mut p: usize = 0;
        while p < self.bindings.len()
            invariant
                p <= self.bindings.len(),
                forall|i: int| 0 <= i < p ==> !self.bound_at(name@, i),
            decreases self.bindings.len() - p,
        {
            if self.bindings[p].name == *name {
                return p;
            }
            p = p + 1;
        }
        p
    }

    /// The value bound to `name`, if one is.
    pub fn get(&self, name: &String) -> (found: Option<&VariableValue>)
        requires
            self.wf(),
        ensures
            match found {
                Some(v) => self@.contains_key(name@) && v@ == self@[name@],
                None => !self@.contains_key(name@),
            },
    {
        let p = self.find(name);
        if p < self.bindings.len() {
            proof {
                assert(self.bound_at(name@, self.position(name@)));
            }
            Some(&self.bindings[p].value)
        } else {
            None
        }
    }

    /// Binds `name` to `value`, in place of whatever it was bound to.
    pub fn insert(&mut self, name: String, value: VariableValue)
        requires
            old(self).wf(),
        ensures
            final(self).wf(),
            final(self)@ == old(self)@.insert(name@, value@),
    {
        let p = self.find(&name);
        let ghost key = name@;
        let ghost val = value@;
        if p < self.bindings.len() {
            self.bindings.set(p, Binding { name, value });
        } else {
            self.bindings.push(Binding { name, value });
        }
        proof {
            let before = *old(self);
            let after = *self;
            assert(after.bound_at(key, p as int));
            assert forall|i: int, j: int| 0 <= i < j < after.bindings.len() implies after.bindings[i].name@
                != after.bindings[j].name@ by {
                if p < before.bindings.len() {
                    assert(before.bound_at(key, p as int));
                    assert(after.bindings[i].name@ == before.bindings[i].name@);
                    assert(after.bindings[j].name@ == before.bindings[j].name@);
                } else {
                    assert(!before.bound_at(key, i));
                }
            }
            assert(after.wf());
            assert forall|k: Seq<char>| after.binds(k) <==> (k == key || before.binds(k)) by {
                if before.binds(k) {
                    assert(after.bound_at(k, before.position(k)));
                }
                if after.binds(k) && k != key {
                    assert(before.bound_at(k, after.position(k)));
                }
            }
            assert forall|k: Seq<char>| after.binds(k) implies after@[k] == (if k == key {
                val
            } else {
                before@[k]
            }) by {
                let i = after.position(k);
                assert(after.bound_at(k, i));
                if k == key {
                    assert(i == p);
                } else {
                    assert(before.bound_at(k, i));
                    assert(before.bound_at(k, before.position(k)));
                }
            }
            assert(after@ =~= before@.insert(key, val));
        }
    }
}

} // verus!
