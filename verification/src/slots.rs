//! Variable slots. A slot holds a value, or the address of an indirection cell when the
//! variable is captured by an inner function: all slots that hold the same cell see the
//! same value.
use vstd::prelude::*;
use crate::heap::{Entry, Memory, Store, ValueMem};
use crate::value::{FrozenValue, Value};

verus! {

/// A value that might have reference semantics: unassigned, a value, or a cell.
#[derive(Clone, Copy, PartialEq, Eq, Structural, Debug)]
pub struct ValueRef(pub Option<Value>);

impl ValueRef {
    /// Does this slot hold the address of a cell?
    pub open spec fn is_ref_spec(self) -> bool {
        self.0 is Some && self.0.unwrap() is Cell
    }

    /// The index of the cell that this slot goes through, if it holds one that exists.
    pub open spec fn cell(self, s: Store) -> Option<int> {
        match self.0 {
            Some(Value::Cell(i)) if i < s.heap.len() && s.heap[i as int] is Ref => Some(i as int),
            _ => None,
        }
    }

    /// Is this slot consistent with the store: if it holds a cell, the cell exists.
    pub open spec fn wf(self, s: Store) -> bool {
        self.is_ref_spec() ==> self.cell(s) is Some
    }

    /// The value of the variable: what the cell holds, or what the slot holds.
    pub open spec fn get_spec(self, s: Store) -> Option<Value> {
        match self.cell(s) {
            Some(i) => s.heap[i]->Ref_0,
            None => if self.is_ref_spec() {
                None
            } else {
                self.0
            },
        }
    }

    /// The slot and the store after the variable is set to `v`: written to the cell if
    /// there is one, else to the slot.
    pub open spec fn set_spec(self, s: Store, v: Value) -> (ValueRef, Store) {
        match self.cell(s) {
            Some(i) => (self, s.update(i, Entry::Ref(Some(v)))),
            None => (ValueRef(Some(v)), s),
        }
    }

    /// A slot of a variable that has no value yet.
    pub fn new_unassigned() -> (r: ValueRef)
        ensures
            r == ValueRef(None),
    {
        ValueRef(None)
    }

    /// A slot that holds a frozen value, or none.
    pub fn new_frozen(x: Option<FrozenValue>) -> (r: ValueRef)
        ensures
            r.0 == (match x {
                Some(v) => Some(v.to_value_spec()),
                None => None,
            }),
            !r.is_ref_spec(),
    {
        match x {
            Some(v) => ValueRef(Some(Value::new_frozen(v))),
            None => ValueRef(None),
        }
    }

    /// Does this slot hold the address of a cell?
    pub fn is_ref(&self) -> (r: bool)
        ensures
            r == self.is_ref_spec(),
    {
        match self.0 {
            Some(Value::Cell(_)) => true,
            _ => false,
        }
    }

    fn get_cell(&self, mem: &Memory) -> (r: Option<usize>)
        ensures
            match self.cell(mem@) {
                Some(i) => r == Some(i as usize) && i < mem.heap.arena.len(),
                None => r is None,
            },
    {
        match self.0 {
            Some(Value::Cell(i)) => {
                if i < mem.heap.arena.len() {
                    match &mem.heap.arena[i] {
                        ValueMem::Ref(_) => Some(i),
                        _ => None,
                    }
                } else {
                    None
                }
            },
            _ => None,
        }
    }

    /// Sets the variable, through the cell if the slot holds one.
    pub fn set(&mut self, mem: &mut Memory, value: Value)
        ensures
            (*final(self), final(mem)@) == old(self).set_spec(old(mem)@, value),
    {
        match self.get_cell(mem) {
            Some(i) => {
                mem.heap.arena[i] = ValueMem::Ref(Some(value));
                assert(final(mem)@.heap =~= old(mem)@.heap.update(i as int, Entry::Ref(Some(value))));
            },
            None => {
                self.0 = Some(value);
            },
        }
    }

    /// Sets the slot itself. Only for a slot that holds no cell.
    pub fn set_direct(&mut self, value: Value)
        requires
            !old(self).is_ref_spec(),
        ensures
            *final(self) == ValueRef(Some(value)),
    {
        self.0 = Some(value);
    }

    /// What the slot itself holds. Only for a slot that holds no cell.
    pub fn get_direct(&self) -> (r: Option<Value>)
        requires
            !self.is_ref_spec(),
        ensures
            r == self.0,
    {
        self.0
    }

    /// The value of the variable, through the cell if the slot holds one.
    pub fn get(&self, mem: &Memory) -> (r: Option<Value>)
        ensures
            r == self.get_spec(mem@),
    {
        match self.get_cell(mem) {
            Some(i) => match &mem.heap.arena[i] {
                ValueMem::Ref(v) => *v,
                _ => None,
            },
            None => match self.0 {
                Some(Value::Cell(_)) => None,
                v => v,
            },
        }
    }

    /// Return a new `ValueRef` that points at the same underlying memory as this one.
    /// Updates to either will result in both changing. A slot that holds no cell yet is
    /// given a new one, which takes over its value.
    pub fn clone_reference(&mut self, mem: &mut Memory) -> (r: ValueRef)
        requires
            old(self).wf(old(mem)@),
        ensures
            r == *final(self),
            r.cell(final(mem)@) is Some,
            r.get_spec(final(mem)@) == old(self).get_spec(old(mem)@),
            old(self).is_ref_spec() ==> r == *old(self) && final(mem)@ == old(mem)@,
            !old(self).is_ref_spec() ==> final(mem)@ == old(mem)@.push(Entry::Ref(old(self).0))
                && r.0 == Some(Value::Cell(old(mem)@.heap.len() as usize)),
    {
        match self.0 {
            Some(Value::Cell(_)) => *self,
            v => {
                let at = mem.alloc_raw(ValueMem::Ref(v));
                let reffed = match at {
                    Value::Heap(i) => Value::Cell(i),
                    other => other,
                };
                self.0 = Some(reffed);
                ValueRef(Some(reffed))
            },
        }
    }

    /// Create a duplicate `ValueRef` on something that must have been turned into a real
    /// ref, probably via `clone_reference`.
    pub fn dupe_reference(&self) -> (r: ValueRef)
        requires
            self.is_ref_spec(),
        ensures
            r == *self,
    {
        ValueRef(self.0)
    }
}

/// A write through one slot of a captured variable is seen through every slot that holds
/// the same cell, and through the writing slot itself.
pub proof fn lemma_ref_transparency(s: Store, writer: ValueRef, reader: ValueRef, v: Value)
    requires
        writer.cell(s) is Some,
        reader.0 == writer.0,
    ensures
        ({
            let (w2, s2) = writer.set_spec(s, v);
            &&& w2 == writer
            &&& w2.get_spec(s2) == Some(v)
            &&& reader.get_spec(s2) == Some(v)
        }),
{
}

/// A write to a variable that is not captured is read back from its slot.
pub proof fn lemma_set_get(s: Store, slot: ValueRef, v: Value)
    requires
        slot.wf(s),
        !(v is Cell),
    ensures
        ({
            let (slot2, s2) = slot.set_spec(s, v);
            &&& slot2.get_spec(s2) == Some(v)
            &&& slot2.wf(s2)
        }),
{
}

/// A write to one variable leaves every variable that has another cell, or none, as it was.
pub proof fn lemma_set_frame(s: Store, writer: ValueRef, other: ValueRef, v: Value)
    requires
        writer.wf(s),
        other.wf(s),
        other.0 != writer.0 || !writer.is_ref_spec(),
    ensures
        other.get_spec(writer.set_spec(s, v).1) == other.get_spec(s),
        other.wf(writer.set_spec(s, v).1),
{
}

} // verus!
