//! Modules: the variables of a module while it is evaluated, and what it gives to those
//! that import it once it is frozen.
use vstd::prelude::*;
use crate::errors::{EnvironmentError, Error, ErrorKind};
use crate::freeze::{
    blocked_any, forwarded, frozen_on, lemma_all_free, lemma_blocked_before, lemma_cell_stays,
    lemma_frozen_on_trans, lemma_moved_refl, lemma_moved_trans, lemma_resolved_stays, moved,
    resolved,
};
use crate::heap::{Memory, Store};
use crate::slots::ValueRef;
use crate::state::Evaluator;
use crate::text::{same_text, to_chars};
use crate::value::{FrozenValue, Value};

verus! {

/// A module after its evaluation: the values of its variables, frozen.
#[derive(Debug)]
pub struct FrozenModule {
    pub mem: Memory,
    /// The name of the variable in each slot.
    pub names: Vec<String>,
    /// The value of the variable in each slot, if it was assigned.
    pub slots: Vec<Option<FrozenValue>>,
}

/// Is the name private: does it begin with an underscore?
pub open spec fn is_private(name: Seq<char>) -> bool {
    name.len() > 0 && name[0] == '_'
}

/// Is the name private?
pub fn private(name: &str) -> (r: bool)
    ensures
        r == is_private(name@),
{
    let chars = to_chars(name);
    chars.len() > 0 && chars[0] == '_'
}

impl FrozenModule {
    /// The value of the last variable of the first `n` that has the name `name` and a
    /// value.
    pub open spec fn find_upto(self, name: Seq<char>, n: int) -> Option<FrozenValue>
        decreases n,
    {
        if n <= 0 || n > self.names@.len() || n > self.slots@.len() {
            None
        } else if self.names@[n - 1]@ == name && self.slots@[n - 1] is Some {
            self.slots@[n - 1]
        } else {
            self.find_upto(name, n - 1)
        }
    }

    /// What the module gives to a module that imports `name`: the value of the variable,
    /// unless the name is private or the variable is not there.
    pub open spec fn export(self, name: Seq<char>) -> Result<FrozenValue, ErrorKind> {
        if is_private(name) {
            Err(ErrorKind::CannotImportPrivate)
        } else {
            let n = if self.names@.len() <= self.slots@.len() {
                self.names@.len()
            } else {
                self.slots@.len()
            };
            match self.find_upto(name, n as int) {
                Some(v) => Ok(v),
                None => Err(ErrorKind::VariableNotFound),
            }
        }
    }

    /// The value that the module exports under `name`.
    pub fn get(&self, name: &str) -> (r: Result<FrozenValue, Error>)
        ensures
            crate::errors::agrees(r, self.export(name@)),
    {
        if private(name) {
            return Err(
                Error::from_environment(
                    EnvironmentError::CannotImportPrivateSymbol(crate::text::owned(name)),
                ),
            );
        }
        let mut n: usize = if self.names.len() <= self.slots.len() {
            self.names.len()
        } else {
            self.slots.len()
        };
        let ghost all = n;
        while n > 0
            invariant
                n <= self.names.len(),
                n <= self.slots.len(),
                !is_private(name@),
                all == (if self.names.len() <= self.slots.len() {
                    self.names.len()
                } else {
                    self.slots.len()
                }),
                self.find_upto(name@, all as int) == self.find_upto(name@, n as int),
            decreases n,
        {
            if same_text(self.names[n - 1].as_str(), name) {
                match self.slots[n - 1] {
                    Some(v) => {
                        return Ok(v);
                    },
                    None => {},
                }
            }
            n -= 1;
        }
        Err(Error::from_environment(EnvironmentError::VariableNotFound(crate::text::owned(name))))
    }
}

/// The values of the variables in `slots`; `None` for a variable that has no value.
pub open spec fn slot_values(s: Store, slots: Seq<ValueRef>) -> Seq<Value> {
    Seq::new(
        slots.len(),
        |i: int|
            match slots[i].get_spec(s) {
                Some(v) => v,
                None => Value::Nil,
            },
    )
}

/// Is `now` what the variable `was` comes to when the store `before` is frozen into
/// `after`: the frozen value that stands for its value, or nothing for a variable that has
/// no value?
pub open spec fn slot_frozen(before: Store, after: Store, was: ValueRef, now: Option<FrozenValue>) -> bool {
    match was.get_spec(before) {
        Some(v) => now is Some && resolved(after, v) && now.unwrap().to_value_spec() == forwarded(
            after,
            v,
        ),
        None => now is None,
    }
}

/// Freezing leaves what a variable holds as it is.
pub proof fn lemma_slot_stays(before: Store, after: Store, slot: ValueRef)
    requires
        frozen_on(before, after),
    ensures
        slot.get_spec(after) == slot.get_spec(before),
{
    match slot.0 {
        Some(c) => {
            lemma_cell_stays(before, after, c);
        },
        None => {},
    }
}

impl Evaluator {
    /// Freezes the module: the value of each module variable, and all that it refers to,
    /// moves to the frozen heap. A variable that was not assigned stays unassigned. The
    /// evaluator is used up. This fails if and only if a variable reaches a value that
    /// cannot be frozen.
    pub fn freeze(self, names: Vec<String>) -> (r: Result<FrozenModule, Error>)
        ensures
            r is Ok <==> !blocked_any(self.mem@, slot_values(self.mem@, self.module@)),
            r is Err ==> r->Err_0.kind == ErrorKind::NotSupported,
            r is Ok ==> r->Ok_0.names == names && r->Ok_0.slots@.len() == self.module@.len()
                && frozen_on(self.mem@, r->Ok_0.mem@) && moved(self.mem@, r->Ok_0.mem@),
            r is Ok ==> forall|i: int|
                0 <= i < self.module@.len() ==> slot_frozen(
                    self.mem@,
                    r->Ok_0.mem@,
                    self.module@[i],
                    #[trigger] r->Ok_0.slots@[i],
                ),
    {
        let ghost start = self.mem@;
        let ghost all = slot_values(start, self.module@);
        let mut mem = self.mem;
        let module = self.module;
        let mut slots: Vec<Option<FrozenValue>> = Vec::new();
        let mut i: usize = 0;
        proof {
            lemma_moved_refl(start);
        }
        while i < module.len()
            invariant
                i <= module.len(),
                slots@.len() == i,
                module == self.module,
                start == self.mem@,
                all == slot_values(start, module@),
                frozen_on(start, mem@),
                moved(start, mem@),
                forall|k: int|
                    0 <= k < i ==> slot_frozen(start, mem@, module@[k], #[trigger] slots@[k]),
            decreases module.len() - i,
        {
            let ghost before = mem@;
            let ghost sofar = slots@;
            let cell: ValueRef = module[i];
            proof {
                lemma_slot_stays(start, before, cell);
            }
            match cell.get(&mem) {
                Some(v) => match mem.freeze(v) {
                    Ok(f) => {
                        slots.push(Some(f));
                    },
                    Err(e) => {
                        proof {
                            lemma_blocked_before(start, before, v);
                            assert(all[i as int] == v);
                        }
                        return Err(e);
                    },
                },
                None => {
                    slots.push(None);
                    proof {
                        lemma_moved_refl(before);
                    }
                },
            }
            proof {
                lemma_frozen_on_trans(start, before, mem@);
                lemma_moved_trans(start, before, mem@);
                assert forall|k: int| 0 <= k < i + 1 implies slot_frozen(
                    start,
                    mem@,
                    module@[k],
                    #[trigger] slots@[k],
                ) by {
                    if k < i {
                        assert(slot_frozen(start, before, module@[k], sofar[k]));
                        assert(slots@[k] == sofar[k]);
                        match module@[k].get_spec(start) {
                            Some(v) => {
                                lemma_resolved_stays(before, mem@, v);
                            },
                            None => {},
                        }
                    }
                }
            }
            i += 1;
        }
        proof {
            assert forall|k: int| 0 <= k < all.len() implies resolved(mem@, #[trigger] all[k]) by {
                assert(slot_frozen(start, mem@, module@[k], slots@[k]));
            }
            lemma_all_free(start, mem@, all);
        }
        Ok(FrozenModule { mem, names, slots })
    }
}

} // verus!
