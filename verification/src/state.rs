//! The state of an evaluation: the heaps, the variable slots and the output.
use vstd::prelude::*;
use crate::compiled::DefCompiled;
use crate::errors::{agrees, EnvironmentError, Error, ErrorKind};
use crate::heap::{Memory, Store};
use crate::slots::ValueRef;
use crate::value::{FrozenValue, Value};

verus! {

/// The names that every module sees, and the methods of the built-in types.
#[derive(Debug)]
pub struct Globals {
    /// The global names and their values.
    pub names: Vec<(String, FrozenValue)>,
    /// The methods: the name of the type, the name of the method, and the method.
    pub members: Vec<(String, String, FrozenValue)>,
}

/// What an evaluation reads and never changes: the functions of the module and the globals.
#[derive(Debug)]
pub struct Program {
    pub code: Vec<DefCompiled>,
    pub globals: Globals,
    /// The number of local variables of the module itself: those of its comprehensions
    /// outside any function.
    pub locals: usize,
}

/// What an evaluation changes.
#[derive(Debug)]
pub struct Evaluator {
    pub mem: Memory,
    /// The slots of the module variables.
    pub module: Vec<ValueRef>,
    /// The slots of the local variables, one vector for each call in progress.
    pub frames: Vec<Vec<ValueRef>>,
    /// The lines printed so far.
    pub output: Vec<String>,
    /// Set from outside to stop the evaluation at the next call.
    pub cancelled: bool,
}

/// The content of an [`Evaluator`].
pub struct State {
    pub store: Store,
    pub module: Seq<ValueRef>,
    pub frames: Seq<Seq<ValueRef>>,
    pub output: Seq<Seq<char>>,
    pub cancelled: bool,
}

impl View for Evaluator {
    type V = State;

    open spec fn view(&self) -> State {
        State {
            store: self.mem@,
            module: self.module@,
            frames: Seq::new(self.frames@.len(), |i: int| self.frames@[i]@),
            output: Seq::new(self.output@.len(), |i: int| self.output@[i]@),
            cancelled: self.cancelled,
        }
    }
}

impl Globals {
    /// The last of the first `n` globals that has the name `name`.
    pub open spec fn find_upto(self, name: Seq<char>, n: int) -> Option<FrozenValue>
        decreases n,
    {
        if n <= 0 || n > self.names.len() {
            None
        } else if self.names@[n - 1].0@ == name {
            Some(self.names@[n - 1].1)
        } else {
            self.find_upto(name, n - 1)
        }
    }

    /// The global of the name `name`: the one that was set last.
    pub open spec fn get_frozen_spec(self, name: Seq<char>) -> Option<FrozenValue> {
        self.find_upto(name, self.names.len() as int)
    }

    /// The last of the first `n` methods that is the method `attr` of the type `typ`.
    pub open spec fn member_upto(self, typ: Seq<char>, attr: Seq<char>, n: int) -> Option<
        FrozenValue,
    >
        decreases n,
    {
        if n <= 0 || n > self.members.len() {
            None
        } else if self.members@[n - 1].0@ == typ && self.members@[n - 1].1@ == attr {
            Some(self.members@[n - 1].2)
        } else {
            self.member_upto(typ, attr, n - 1)
        }
    }

    /// The method `attr` of the type `typ`: the one that was set last.
    pub open spec fn member_spec(self, typ: Seq<char>, attr: Seq<char>) -> Option<FrozenValue> {
        self.member_upto(typ, attr, self.members.len() as int)
    }

    /// No names and no methods.
    pub fn new() -> (g: Globals)
        ensures
            g.names@.len() == 0,
            g.members@.len() == 0,
            forall|name: Seq<char>| g.get_frozen_spec(name) is None,
            forall|typ: Seq<char>, attr: Seq<char>| g.member_spec(typ, attr) is None,
    {
        Globals { names: Vec::new(), members: Vec::new() }
    }

    /// The global of the name `name`.
    pub fn get_frozen(&self, name: &str) -> (r: Option<FrozenValue>)
        ensures
            r == self.get_frozen_spec(name@),
    {
        let mut n: usize = self.names.len();
        while n > 0
            invariant
                n <= self.names.len(),
                self.get_frozen_spec(name@) == self.find_upto(name@, n as int),
            decreases n,
        {
            if crate::text::same_text(self.names[n - 1].0.as_str(), name) {
                return Some(self.names[n - 1].1);
            }
            n -= 1;
        }
        None
    }

    /// The method `attr` of the type `typ`.
    pub fn member(&self, typ: &str, attr: &str) -> (r: Option<FrozenValue>)
        ensures
            r == self.member_spec(typ@, attr@),
    {
        let mut n: usize = self.members.len();
        while n > 0
            invariant
                n <= self.members.len(),
                self.member_spec(typ@, attr@) == self.member_upto(typ@, attr@, n as int),
            decreases n,
        {
            if crate::text::same_text(self.members[n - 1].0.as_str(), typ)
                && crate::text::same_text(self.members[n - 1].1.as_str(), attr) {
                return Some(self.members[n - 1].2);
            }
            n -= 1;
        }
        None
    }

    /// Binds the name `name` to `value`. Other names stay as they are.
    pub fn set(&mut self, name: &str, value: FrozenValue)
        ensures
            final(self).get_frozen_spec(name@) == Some(value),
            forall|other: Seq<char>|
                other != name@ ==> final(self).get_frozen_spec(other) == old(self).get_frozen_spec(
                    other,
                ),
            final(self).members == old(self).members,
    {
        self.names.push((crate::text::owned(name), value));
        assert forall|other: Seq<char>| other != name@ implies final(self).get_frozen_spec(other)
            == old(self).get_frozen_spec(other) by {
            lemma_find_prefix(*final(self), *old(self), other, old(self).names.len() as int);
        }
    }

    /// Makes `value` the method `attr` of the type `typ`. Other methods stay as they are.
    pub fn set_member(&mut self, typ: &str, attr: &str, value: FrozenValue)
        ensures
            final(self).member_spec(typ@, attr@) == Some(value),
            forall|t: Seq<char>, a: Seq<char>|
                (t != typ@ || a != attr@) ==> final(self).member_spec(t, a) == old(self).member_spec(t, a),
            final(self).names == old(self).names,
    {
        self.members.push((crate::text::owned(typ), crate::text::owned(attr), value));
        assert forall|t: Seq<char>, a: Seq<char>| (t != typ@ || a != attr@) implies final(self).member_spec(t, a) == old(self).member_spec(t, a) by {
            lemma_member_prefix(*final(self), *old(self), t, a, old(self).members.len() as int);
        }
    }
}

/// Two tables that agree on their first `n` names agree on what is found among them.
pub proof fn lemma_find_prefix(a: Globals, b: Globals, name: Seq<char>, n: int)
    requires
        0 <= n <= a.names.len(),
        n <= b.names.len(),
        forall|i: int| 0 <= i < n ==> a.names@[i] == b.names@[i],
    ensures
        a.find_upto(name, n) == b.find_upto(name, n),
    decreases n,
{
    if n > 0 {
        lemma_find_prefix(a, b, name, n - 1);
    }
}

/// Two tables that agree on their first `n` methods agree on what is found among them.
pub proof fn lemma_member_prefix(a: Globals, b: Globals, typ: Seq<char>, attr: Seq<char>, n: int)
    requires
        0 <= n <= a.members.len(),
        n <= b.members.len(),
        forall|i: int| 0 <= i < n ==> a.members@[i] == b.members@[i],
    ensures
        a.member_upto(typ, attr, n) == b.member_upto(typ, attr, n),
    decreases n,
{
    if n > 0 {
        lemma_member_prefix(a, b, typ, attr, n - 1);
    }
}

impl State {
    /// This state with another store.
    pub open spec fn with_store(self, store: Store) -> State {
        State { store, ..self }
    }

    /// The value of the local variable in `slot` of the innermost call.
    pub open spec fn get_slot_local(self, slot: int) -> Result<Value, ErrorKind> {
        if self.frames.len() > 0 && 0 <= slot < self.frames.last().len() {
            match self.frames.last()[slot].get_spec(self.store) {
                Some(v) => Ok(v),
                None => Err(ErrorKind::LocalReferencedBeforeAssignment),
            }
        } else {
            Err(ErrorKind::LocalReferencedBeforeAssignment)
        }
    }

    /// The value of the module variable in `slot`.
    pub open spec fn get_slot_module(self, slot: int) -> Result<Value, ErrorKind> {
        if 0 <= slot < self.module.len() {
            match self.module[slot].get_spec(self.store) {
                Some(v) => Ok(v),
                None => Err(ErrorKind::LocalReferencedBeforeAssignment),
            }
        } else {
            Err(ErrorKind::LocalReferencedBeforeAssignment)
        }
    }
}

fn unassigned(name: &str) -> (e: Error)
    ensures
        e.kind == ErrorKind::LocalReferencedBeforeAssignment,
        e.span is None,
{
    Error::from_environment(
        EnvironmentError::LocalVariableReferencedBeforeAssignment(crate::text::owned(name)),
    )
}

impl Evaluator {
    /// An evaluator on `mem`, with `module_slots` unassigned module variables.
    pub fn new(mem: Memory, module_slots: usize) -> (ev: Evaluator)
        ensures
            ev@.store == mem@,
            ev@.module == Seq::new(module_slots as nat, |i: int| ValueRef(None)),
            ev@.frames.len() == 0,
            ev@.output.len() == 0,
            !ev@.cancelled,
    {
        let mut module: Vec<ValueRef> = Vec::new();
        let mut i: usize = 0;
        while i < module_slots
            invariant
                i <= module_slots,
                module@ == Seq::new(i as nat, |k: int| ValueRef(None)),
            decreases module_slots - i,
        {
            module.push(ValueRef(None));
            i += 1;
            assert(module@ =~= Seq::new(i as nat, |k: int| ValueRef(None)));
        }
        let ev = Evaluator {
            mem,
            module,
            frames: Vec::new(),
            output: Vec::new(),
            cancelled: false,
        };
        assert(ev@.frames =~= Seq::empty());
        assert(ev@.output =~= Seq::empty());
        ev
    }

    /// Makes the slots of the `locals` local variables of the module itself, all unassigned:
    /// the variables of its comprehensions outside any function live there.
    pub fn enter_module(&mut self, locals: usize)
        ensures
            final(self)@ == (State {
                frames: old(self)@.frames.push(Seq::new(locals as nat, |i: int| ValueRef(None))),
                ..old(self)@
            }),
    {
        let ghost before = self@;
        let mut frame: Vec<ValueRef> = Vec::new();
        let mut i: usize = 0;
        while i < locals
            invariant
                i <= locals,
                frame@ == Seq::new(i as nat, |k: int| ValueRef(None)),
            decreases locals - i,
        {
            frame.push(ValueRef(None));
            i += 1;
            assert(frame@ =~= Seq::new(i as nat, |k: int| ValueRef(None)));
        }
        self.frames.push(frame);
        assert(self@.frames =~= before.frames.push(Seq::new(locals as nat, |i: int| ValueRef(None))));
        assert(self@.output =~= before.output);
    }

    /// Sets the module variable `name` in `slot`, and tells the value the name that it is
    /// bound to. Fails for a slot that the module does not have.
    pub fn set_slot_module(&mut self, slot: usize, name: &str, value: Value) -> (r: Result<
        (),
        Error,
    >)
        ensures
            slot >= old(self).module@.len() ==> r is Err && r->Err_0.kind
                == ErrorKind::CannotSetVariable && *final(self) == *old(self),
            slot < old(self).module@.len() ==> r is Ok && ({
                let (cell, store) = old(self).module@[slot as int].set_spec(old(self).mem@, value);
                &&& final(self).module@ == old(self).module@.update(slot as int, cell)
                &&& final(self).mem@ == store.export_as(value, name@)
                &&& final(self).frames == old(self).frames
                &&& final(self).output == old(self).output
                &&& final(self).cancelled == old(self).cancelled
            }),
    {
        if slot >= self.module.len() {
            return Err(
                Error::from_environment(
                    EnvironmentError::CannotSetVariable(crate::text::owned(name)),
                ),
            );
        }
        let mut cell = self.module[slot];
        cell.set(&mut self.mem, value);
        self.module[slot] = cell;
        self.mem.export_as(value, name);
        Ok(())
    }

    /// The value of the local variable `name` in `slot` of the innermost call.
    pub fn get_slot_local(&self, slot: usize, name: &str) -> (r: Result<Value, Error>)
        ensures
            agrees(r, self@.get_slot_local(slot as int)),
            r is Err ==> r->Err_0.span is None,
    {
        let n = self.frames.len();
        if n > 0 && slot < self.frames[n - 1].len() {
            assert(self@.frames.last() == self.frames@[n - 1]@);
            match self.frames[n - 1][slot].get(&self.mem) {
                Some(v) => Ok(v),
                None => Err(unassigned(name)),
            }
        } else {
            assert(n > 0 ==> self@.frames.last() == self.frames@[n - 1]@);
            Err(unassigned(name))
        }
    }

    /// The value of the module variable `name` in `slot`.
    pub fn get_slot_module(&self, slot: usize, name: &str) -> (r: Result<Value, Error>)
        ensures
            agrees(r, self@.get_slot_module(slot as int)),
            r is Err ==> r->Err_0.span is None,
    {
        if slot < self.module.len() {
            match self.module[slot].get(&self.mem) {
                Some(v) => Ok(v),
                None => Err(unassigned(name)),
            }
        } else {
            Err(unassigned(name))
        }
    }
}

} // verus!
