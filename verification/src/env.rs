//! The binding environment: a table from identifier to storage slot.
//!
//! A slot is the index at which a name first appears; declaring a name that
//! is already known is a no-op that returns the existing slot. The table is
//! flat across the whole compilation: there is no removal and no scoping
//! stack, so nested functions and nested `let` blocks share one namespace.

use vstd::prelude::*;

verus! {

/// True when no name appears twice.
pub open spec fn distinct_names(names: Seq<Seq<char>>) -> bool {
    forall|i: int, j: int| 0 <= i < j < names.len() ==> names[i] != names[j]
}

/// True when `name` is declared.
pub open spec fn env_has(names: Seq<Seq<char>>, name: Seq<char>) -> bool {
    exists|i: int| 0 <= i < names.len() && names[i] == name
}

/// The slot of a declared name: its index in the table.
pub open spec fn env_slot(names: Seq<Seq<char>>, name: Seq<char>) -> int {
    choose|i: int| 0 <= i < names.len() && names[i] == name
}

/// The table after declaring `name`: unchanged when the name is already
/// known, extended by one slot otherwise.
pub open spec fn declared(names: Seq<Seq<char>>, name: Seq<char>) -> Seq<Seq<char>> {
    if env_has(names, name) {
        names
    } else {
        names.push(name)
    }
}

/// The binding environment.
pub struct Env {
    pub names: Vec<String>,
}

impl View for Env {
    type V = Seq<Seq<char>>;

    open spec fn view(&self) -> Seq<Seq<char>> {
        self.names@.map(|i: int, s: String| s@)
    }
}

impl Env {
    /// An environment with no declarations.
    pub fn new() -> (e: Env)
        ensures
            e@ =~= Seq::<Seq<char>>::empty(),
    {
        Env { names: Vec::new() }
    }

    /// The number of declared names.
    pub fn len(&self) -> (n: usize)
        ensures
            n == self@.len(),
    {
        self.names.len()
    }

    /// The slot bound to `name`, or `None` when the name was never declared.
    pub fn lookup(&self, name: &String) -> (r: Option<usize>)
        requires
            distinct_names(self@),
        ensures
            match r {
                Some(slot) => {
                    &&& slot < self@.len()
                    &&& self@[slot as int] == name@
                    &&& env_has(self@, name@)
                    &&& slot == env_slot(self@, name@)
                },
                None => !env_has(self@, name@),
            },
    {
        let n = self.names.len();
        for i in 0..n
            invariant
                n == self@.len(),
                distinct_names(self@),
                forall|j: int| 0 <= j < i ==> self@[j] != name@,
        {
            if self.names[i].eq(name) {
                proof {
                    assert(self@[i as int] == name@);
                    assert(env_has(self@, name@));
                    let s = env_slot(self@, name@);
                    assert(0 <= s < self@.len() && self@[s] == name@);
                    assert(s == i as int) by {
                        if s < i as int {
                            assert(self@[s] != self@[i as int]);
                        }
                        if s > i as int {
                            assert(self@[i as int] != self@[s]);
                        }
                    }
                }
                return Some(i);
            }
        }
        None
    }
}

/// Declare a single variable declaration: when the name is already known the
/// call is a no-op that returns the existing slot, otherwise the name is
/// bound to the next free slot. Re-declaring therefore never creates a
/// second binding.
pub fn declare_variable(env: &mut Env, name: &String) -> (slot: usize)
    requires
        distinct_names(old(env)@),
    ensures
        distinct_names(final(env)@),
        final(env)@ =~= declared(old(env)@, name@),
        env_has(final(env)@, name@),
        slot == env_slot(final(env)@, name@),
        slot < final(env)@.len(),
        final(env)@[slot as int] == name@,
        old(env)@.is_prefix_of(final(env)@),
{
    match env.lookup(name) {
        Some(slot) => {
            proof {
                assert(env@.is_prefix_of(env@)) by {
                    assert(env@.subrange(0, env@.len() as int) =~= env@);
                }
            }
            slot
        },
        None => {
            let slot = env.names.len();
            env.names.push(name.clone());
            proof {
                assert(env@ =~= old(env)@.push(name@));
                assert(env@[slot as int] == name@);
                assert(env_has(env@, name@));
                assert(distinct_names(env@)) by {
                    assert(forall|i: int| 0 <= i < old(env)@.len()
                        ==> env@[i] == old(env)@[i]);
                    assert(forall|i: int| 0 <= i < old(env)@.len()
                        ==> old(env)@[i] != name@);
                }
                let s = env_slot(env@, name@);
                assert(0 <= s < env@.len() && env@[s] == name@);
                assert(s == slot as int);
                assert(old(env)@.is_prefix_of(env@)) by {
                    assert(env@.subrange(0, old(env)@.len() as int) =~= old(env)@);
                }
            }
            slot
        },
    }
}

} // verus!
