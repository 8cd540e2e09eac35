//! The two heaps: the mutable heap of the current evaluation and the frozen heap.
use vstd::prelude::*;
use crate::errors::{Error, ErrorKind};
use crate::object::{Obj, Object};
use crate::value::{FrozenValue, Value};

verus! {

/// An entry of the mutable heap.
#[derive(Debug)]
pub enum ValueMem {
    /// An immutable string.
    Str(String),
    /// Only during freezing: the entry has moved to the frozen heap, to this value.
    Forward(FrozenValue),
    /// Reserved for a relocating collector.
    Copied(Value),
    /// Reserved for a relocating collector.
    Blackhole,
    /// An object that refers to no other value.
    Simple(Object),
    /// An object that refers to other values and does not change.
    Immutable(Object),
    /// An object that may change, behind its lock: the number of readers that hold it.
    Mutable(usize, Object),
    /// An indirection cell for a captured variable: unassigned, or a value that is no cell.
    Ref(Option<Value>),
    /// Used for profiling: a call was entered, at this time.
    CallEnter(Value, u64),
    /// Used for profiling: a call was left, at this time.
    CallExit(u64),
}

/// An entry of the frozen heap.
#[derive(Debug)]
pub enum FrozenValueMem {
    Str(String),
    /// Only during freezing: the entry is reserved and not yet written.
    Blackhole,
    Simple(Object),
}

/// The content of a heap entry.
pub enum Entry {
    Str(Seq<char>),
    Forward(FrozenValue),
    Copied(Value),
    Blackhole,
    Simple(Obj),
    Immutable(Obj),
    Mutable(nat, Obj),
    Ref(Option<Value>),
    CallEnter(Value, u64),
    CallExit(u64),
}

impl ValueMem {
    /// The name of the variant.
    pub fn variant_name(&self) -> (r: &'static str)
        ensures
            r@ == self@.variant_name(),
    {
        match self {
            ValueMem::Str(_) => "Str",
            ValueMem::Forward(_) => "Forward",
            ValueMem::Copied(_) => "Copied",
            ValueMem::Blackhole => "Blackhole",
            ValueMem::Simple(_) => "Simple",
            ValueMem::Immutable(_) => "Immutable",
            ValueMem::Mutable(_, _) => "Mutable",
            ValueMem::Ref(_) => "Ref",
            ValueMem::CallEnter(_, _) => "CallEnter",
            ValueMem::CallExit(_) => "CallExit",
        }
    }

    /// The message for an entry of a variant that the method `method` cannot meet.
    pub fn unexpected(&self, method: &str) -> (r: String)
        ensures
            r@ == "ValueMem::"@ + method@ + ", unexpected variant "@ + self@.variant_name(),
    {
        let mut out = crate::text::owned("ValueMem::");
        vstd::string::StringExecFns::append(&mut out, method);
        vstd::string::StringExecFns::append(&mut out, ", unexpected variant ");
        vstd::string::StringExecFns::append(&mut out, self.variant_name());
        out
    }
}

impl FrozenValueMem {
    /// The name of the variant.
    pub fn variant_name(&self) -> (r: &'static str)
        ensures
            r@ == self@.variant_name(),
    {
        match self {
            FrozenValueMem::Str(_) => "Str",
            FrozenValueMem::Blackhole => "Blackhole",
            FrozenValueMem::Simple(_) => "Simple",
        }
    }

    /// The message for an entry of a variant that the method `method` cannot meet.
    pub fn unexpected(&self, method: &str) -> (r: String)
        ensures
            r@ == "FrozenValueMem::"@ + method@ + ", unexpected variant "@
                + self@.variant_name(),
    {
        let mut out = crate::text::owned("FrozenValueMem::");
        vstd::string::StringExecFns::append(&mut out, method);
        vstd::string::StringExecFns::append(&mut out, ", unexpected variant ");
        vstd::string::StringExecFns::append(&mut out, self.variant_name());
        out
    }
}

impl View for ValueMem {
    type V = Entry;

    open spec fn view(&self) -> Entry {
        match self {
            ValueMem::Str(s) => Entry::Str(s@),
            ValueMem::Forward(v) => Entry::Forward(*v),
            ValueMem::Copied(v) => Entry::Copied(*v),
            ValueMem::Blackhole => Entry::Blackhole,
            ValueMem::Simple(o) => Entry::Simple(o@),
            ValueMem::Immutable(o) => Entry::Immutable(o@),
            ValueMem::Mutable(n, o) => Entry::Mutable(*n as nat, o@),
            ValueMem::Ref(v) => Entry::Ref(*v),
            ValueMem::CallEnter(v, t) => Entry::CallEnter(*v, *t),
            ValueMem::CallExit(t) => Entry::CallExit(*t),
        }
    }
}

impl View for FrozenValueMem {
    type V = Entry;

    open spec fn view(&self) -> Entry {
        match self {
            FrozenValueMem::Str(s) => Entry::Str(s@),
            FrozenValueMem::Blackhole => Entry::Blackhole,
            FrozenValueMem::Simple(o) => Entry::Simple(o@),
        }
    }
}

/// The mutable heap of one evaluation. It only grows.
#[derive(Debug)]
pub struct Heap {
    pub arena: Vec<ValueMem>,
}

/// The frozen heap: constants, built-in functions and the values of frozen modules.
#[derive(Debug)]
pub struct FrozenHeap {
    pub arena: Vec<FrozenValueMem>,
}

/// Both heaps: what a value is valid for.
#[derive(Debug)]
pub struct Memory {
    pub frozen: FrozenHeap,
    pub heap: Heap,
}

/// The content of both heaps.
pub struct Store {
    pub frozen: Seq<Entry>,
    pub heap: Seq<Entry>,
}

impl View for Heap {
    type V = Seq<Entry>;

    open spec fn view(&self) -> Seq<Entry> {
        Seq::new(self.arena@.len(), |i: int| self.arena@[i]@)
    }
}

impl View for FrozenHeap {
    type V = Seq<Entry>;

    open spec fn view(&self) -> Seq<Entry> {
        Seq::new(self.arena@.len(), |i: int| self.arena@[i]@)
    }
}

impl View for Memory {
    type V = Store;

    open spec fn view(&self) -> Store {
        Store { frozen: self.frozen@, heap: self.heap@ }
    }
}

/// What a value denotes.
pub enum Target {
    Nil,
    Bool(bool),
    Int(i32),
    Str(Seq<char>),
    Object(Obj),
    /// Nothing that a program can observe: a dangling pointer, a cell, or an entry that only
    /// exists while the heap is frozen or collected.
    Unexpected,
}

/// A borrowed view of what a value denotes.
#[derive(Debug)]
pub enum ARef<'a> {
    Nil,
    Bool(bool),
    Int(i32),
    Str(&'a String),
    Object(&'a Object),
    Unexpected,
}

impl<'a> View for ARef<'a> {
    type V = Target;

    open spec fn view(&self) -> Target {
        match self {
            ARef::Nil => Target::Nil,
            ARef::Bool(b) => Target::Bool(*b),
            ARef::Int(i) => Target::Int(*i),
            ARef::Str(s) => Target::Str(s@),
            ARef::Object(o) => Target::Object(o@),
            ARef::Unexpected => Target::Unexpected,
        }
    }
}

impl Entry {
    /// The name of the variant.
    pub open spec fn variant_name(self) -> Seq<char> {
        match self {
            Entry::Str(_) => "Str"@,
            Entry::Forward(_) => "Forward"@,
            Entry::Copied(_) => "Copied"@,
            Entry::Blackhole => "Blackhole"@,
            Entry::Simple(_) => "Simple"@,
            Entry::Immutable(_) => "Immutable"@,
            Entry::Mutable(_, _) => "Mutable"@,
            Entry::Ref(_) => "Ref"@,
            Entry::CallEnter(_, _) => "CallEnter"@,
            Entry::CallExit(_) => "CallExit"@,
        }
    }

    /// What a pointer to this entry denotes.
    pub open spec fn target(self) -> Target {
        match self {
            Entry::Str(s) => Target::Str(s),
            Entry::Simple(o) => Target::Object(o),
            Entry::Immutable(o) => Target::Object(o),
            Entry::Mutable(_, o) => Target::Object(o),
            _ => Target::Unexpected,
        }
    }
}

impl Store {
    /// What the value `v` denotes.
    pub open spec fn target(self, v: Value) -> Target {
        match v {
            Value::Nil => Target::Nil,
            Value::Bool(b) => Target::Bool(b),
            Value::Int(i) => Target::Int(i),
            Value::Frozen(i) => if i < self.frozen.len() {
                self.frozen[i as int].target()
            } else {
                Target::Unexpected
            },
            Value::Heap(i) => if i < self.heap.len() {
                self.heap[i as int].target()
            } else {
                Target::Unexpected
            },
            Value::Cell(_) => Target::Unexpected,
        }
    }

    /// Is `v` a mutable object that is being read, so that it must not change now?
    pub open spec fn is_locked(self, v: Value) -> bool {
        match v {
            Value::Heap(i) => i < self.heap.len() && (match self.heap[i as int] {
                Entry::Mutable(n, _) => n > 0,
                _ => false,
            }),
            _ => false,
        }
    }

    /// Is `v` a mutable object of the mutable heap?
    pub open spec fn is_mutable(self, v: Value) -> bool {
        match v {
            Value::Heap(i) => i < self.heap.len() && self.heap[i as int] is Mutable,
            _ => false,
        }
    }

    /// This store with one more entry on the mutable heap.
    pub open spec fn push(self, e: Entry) -> Store {
        Store { heap: self.heap.push(e), ..self }
    }

    /// This store with one more entry on the frozen heap.
    pub open spec fn push_frozen(self, e: Entry) -> Store {
        Store { frozen: self.frozen.push(e), ..self }
    }

    /// This store with the entry at `i` of the mutable heap replaced.
    pub open spec fn update(self, i: int, e: Entry) -> Store {
        Store { heap: self.heap.update(i, e), ..self }
    }

    /// The entry for a new object on the mutable heap, by the kind of the object.
    pub open spec fn entry_for(o: Obj) -> Entry {
        if o.is_simple() {
            Entry::Simple(o)
        } else if o.is_mutable() {
            Entry::Mutable(0, o)
        } else {
            Entry::Immutable(o)
        }
    }

    /// The outcome of asking to change `v`: the index of its entry, if it is a mutable
    /// object that nobody reads.
    pub open spec fn writable(self, v: Value) -> Result<int, ErrorKind> {
        if self.is_locked(v) {
            Err(ErrorKind::MutationDuringIteration)
        } else if self.is_mutable(v) {
            Ok(v->Heap_0 as int)
        } else {
            Err(ErrorKind::CannotMutateImmutable)
        }
    }

    /// This store with one more reader on `v`, if `v` is a mutable object.
    pub open spec fn lock(self, v: Value) -> Store {
        match v {
            Value::Heap(i) if i < self.heap.len() => match self.heap[i as int] {
                Entry::Mutable(n, o) if n < usize::MAX => self.update(
                    i as int,
                    Entry::Mutable(n + 1, o),
                ),
                _ => self,
            },
            _ => self,
        }
    }

    /// This store with one reader less on `v`, if `v` is a mutable object that is read.
    pub open spec fn unlock(self, v: Value) -> Store {
        match v {
            Value::Heap(i) if i < self.heap.len() => match self.heap[i as int] {
                Entry::Mutable(n, o) if n > 0 => self.update(
                    i as int,
                    Entry::Mutable((n - 1) as nat, o),
                ),
                _ => self,
            },
            _ => self,
        }
    }
}

impl Memory {
    /// Two empty heaps.
    pub fn new() -> (m: Memory)
        ensures
            m@.frozen.len() == 0,
            m@.heap.len() == 0,
    {
        Memory { frozen: FrozenHeap { arena: Vec::new() }, heap: Heap { arena: Vec::new() } }
    }

    /// Puts an entry on the mutable heap. The value returned points to it.
    pub fn alloc_raw(&mut self, mem: ValueMem) -> (v: Value)
        ensures
            final(self)@ == old(self)@.push(mem@),
            v == Value::Heap(old(self)@.heap.len() as usize),
            old(self)@.heap.len() <= usize::MAX,
    {
        let i = self.heap.arena.len();
        self.heap.arena.push(mem);
        assert(final(self)@.heap =~= old(self)@.heap.push(mem@));
        Value::Heap(i)
    }

    /// Puts a string on the mutable heap.
    pub fn alloc_str(&mut self, s: String) -> (v: Value)
        ensures
            final(self)@ == old(self)@.push(Entry::Str(s@)),
            v == Value::Heap(old(self)@.heap.len() as usize),
            final(self)@.target(v) == Target::Str(s@),
    {
        self.alloc_raw(ValueMem::Str(s))
    }

    /// Puts an object on the mutable heap: as it is if it refers to no value, behind a lock
    /// if it can change.
    pub fn alloc_object(&mut self, o: Object) -> (v: Value)
        ensures
            final(self)@ == old(self)@.push(Store::entry_for(o@)),
            v == Value::Heap(old(self)@.heap.len() as usize),
            final(self)@.target(v) == Target::Object(o@),
    {
        if o.is_simple() {
            self.alloc_raw(ValueMem::Simple(o))
        } else if o.is_mutable() {
            self.alloc_raw(ValueMem::Mutable(0, o))
        } else {
            self.alloc_raw(ValueMem::Immutable(o))
        }
    }

    /// Puts an entry on the frozen heap. The value returned points to it.
    pub fn alloc_frozen_raw(&mut self, mem: FrozenValueMem) -> (v: FrozenValue)
        ensures
            final(self)@ == old(self)@.push_frozen(mem@),
            v == FrozenValue::Ptr(old(self)@.frozen.len() as usize),
            old(self)@.frozen.len() <= usize::MAX,
    {
        let i = self.frozen.arena.len();
        self.frozen.arena.push(mem);
        assert(final(self)@.frozen =~= old(self)@.frozen.push(mem@));
        FrozenValue::Ptr(i)
    }

    /// Puts a string on the frozen heap.
    pub fn alloc_frozen_str(&mut self, s: String) -> (v: FrozenValue)
        ensures
            final(self)@ == old(self)@.push_frozen(Entry::Str(s@)),
            v == FrozenValue::Ptr(old(self)@.frozen.len() as usize),
            final(self)@.target(v.to_value_spec()) == Target::Str(s@),
    {
        self.alloc_frozen_raw(FrozenValueMem::Str(s))
    }

    /// Puts an object on the frozen heap.
    pub fn alloc_frozen_object(&mut self, o: Object) -> (v: FrozenValue)
        ensures
            final(self)@ == old(self)@.push_frozen(Entry::Simple(o@)),
            v == FrozenValue::Ptr(old(self)@.frozen.len() as usize),
            final(self)@.target(v.to_value_spec()) == Target::Object(o@),
    {
        self.alloc_frozen_raw(FrozenValueMem::Simple(o))
    }

    /// What the value `v` denotes, borrowed from the heap.
    pub fn get_aref(&self, v: Value) -> (r: ARef<'_>)
        ensures
            r@ == self@.target(v),
    {
        match v {
            Value::Nil => ARef::Nil,
            Value::Bool(b) => ARef::Bool(b),
            Value::Int(i) => ARef::Int(i),
            Value::Frozen(i) => {
                if i < self.frozen.arena.len() {
                    match &self.frozen.arena[i] {
                        FrozenValueMem::Str(s) => ARef::Str(s),
                        FrozenValueMem::Simple(o) => ARef::Object(o),
                        FrozenValueMem::Blackhole => ARef::Unexpected,
                    }
                } else {
                    ARef::Unexpected
                }
            },
            Value::Heap(i) => {
                if i < self.heap.arena.len() {
                    match &self.heap.arena[i] {
                        ValueMem::Str(s) => ARef::Str(s),
                        ValueMem::Simple(o) => ARef::Object(o),
                        ValueMem::Immutable(o) => ARef::Object(o),
                        ValueMem::Mutable(_, o) => ARef::Object(o),
                        _ => ARef::Unexpected,
                    }
                } else {
                    ARef::Unexpected
                }
            },
            Value::Cell(_) => ARef::Unexpected,
        }
    }

    /// What the value `v` denotes, unless it is an object that can change.
    pub fn get_ref(&self, v: Value) -> (r: Option<ARef<'_>>)
        ensures
            self@.is_mutable(v) ==> r is None,
            !self@.is_mutable(v) ==> r is Some && r.unwrap()@ == self@.target(v),
    {
        match v {
            Value::Heap(i) => {
                if i < self.heap.arena.len() {
                    match &self.heap.arena[i] {
                        ValueMem::Mutable(_, _) => None,
                        _ => Some(self.get_aref(v)),
                    }
                } else {
                    Some(ARef::Unexpected)
                }
            },
            _ => Some(self.get_aref(v)),
        }
    }

    /// The string that `v` is, if it is one.
    pub fn unpack_str(&self, v: Value) -> (r: Option<&String>)
        ensures
            match self@.target(v) {
                Target::Str(s) => r is Some && r.unwrap()@ == s,
                _ => r is None,
            },
    {
        match self.get_aref(v) {
            ARef::Str(s) => Some(s),
            _ => None,
        }
    }

    /// Asks to change the object `v`. Fails with `MutationDuringIteration` while it is read,
    /// and with `CannotMutateImmutable` if it is no mutable object. On success, gives the
    /// index of its entry.
    pub fn get_ref_mut(&self, v: Value) -> (r: Result<usize, Error>)
        ensures
            match self@.writable(v) {
                Ok(i) => r == Ok::<usize, Error>(i as usize) && i < self.heap.arena.len()
                    && self.heap.arena[i] is Mutable,
                Err(k) => r is Err && r->Err_0.kind == k && r->Err_0.span is None,
            },
    {
        match v {
            Value::Heap(i) => {
                if i < self.heap.arena.len() {
                    match &self.heap.arena[i] {
                        ValueMem::Mutable(n, _) => {
                            if *n > 0 {
                                Err(
                                    Error::new(
                                        ErrorKind::MutationDuringIteration,
                                        "This operation mutate an iterable for an iterator while iterating.",
                                    ),
                                )
                            } else {
                                Ok(i)
                            }
                        },
                        _ => Err(
                            Error::new(ErrorKind::CannotMutateImmutable, "Immutable"),
                        ),
                    }
                } else {
                    Err(Error::new(ErrorKind::CannotMutateImmutable, "Immutable"))
                }
            },
            _ => Err(Error::new(ErrorKind::CannotMutateImmutable, "Immutable")),
        }
    }

    /// Takes the lock of `v` for reading, for the time of an iteration. Does nothing if `v`
    /// is no mutable object.
    pub fn lock_read(&mut self, v: Value)
        ensures
            final(self)@ == old(self)@.lock(v),
    {
        match v {
            Value::Heap(i) => {
                if i < self.heap.arena.len() {
                    match &mut self.heap.arena[i] {
                        ValueMem::Mutable(n, _) => {
                            if *n < usize::MAX {
                                *n = *n + 1;
                            }
                        },
                        _ => {},
                    }
                }
            },
            _ => {},
        }
        assert(final(self)@.heap =~= old(self)@.lock(v).heap);
    }

    /// Gives back the lock of `v` that was taken for reading.
    pub fn unlock_read(&mut self, v: Value)
        ensures
            final(self)@ == old(self)@.unlock(v),
    {
        match v {
            Value::Heap(i) => {
                if i < self.heap.arena.len() {
                    match &mut self.heap.arena[i] {
                        ValueMem::Mutable(n, _) => {
                            if *n > 0 {
                                *n = *n - 1;
                            }
                        },
                        _ => {},
                    }
                }
            },
            _ => {},
        }
        assert(final(self)@.heap =~= old(self)@.unlock(v).heap);
    }
}

/// A frozen value with the type of what it denotes: a reference to the object itself.
#[derive(Debug)]
pub struct FrozenRef<'a, T: ?Sized> {
    pub value: &'a T,
}

impl Value {
    /// Obtain the underlying string if it is a string.
    pub fn unpack_str(self, mem: &Memory) -> (r: Option<&str>)
        ensures
            match mem@.target(self) {
                Target::Str(s) => r is Some && r.unwrap()@ == s,
                _ => r is None,
            },
    {
        match mem.unpack_str(self) {
            Some(s) => Some(s.as_str()),
            None => None,
        }
    }

    /// Like [`Value::unpack_str`], but gives the owned string of the heap.
    pub fn unpack_box_str(self, mem: &Memory) -> (r: Option<&String>)
        ensures
            match mem@.target(self) {
                Target::Str(s) => r is Some && r.unwrap()@ == s,
                _ => r is None,
            },
    {
        mem.unpack_str(self)
    }

    /// What the value denotes; `None` only for an object that can change. If you want it
    /// to always give something, see [`Value::get_aref`].
    pub fn get_ref(self, mem: &Memory) -> (r: Option<ARef<'_>>)
        ensures
            mem@.is_mutable(self) ==> r is None,
            !mem@.is_mutable(self) ==> r is Some && r.unwrap()@ == mem@.target(self),
    {
        mem.get_ref(self)
    }

    /// What the value denotes.
    pub fn get_aref(self, mem: &Memory) -> (r: ARef<'_>)
        ensures
            r@ == mem@.target(self),
    {
        mem.get_aref(self)
    }

    /// Asks to change the object that the value denotes.
    pub fn get_ref_mut(self, mem: &Memory) -> (r: Result<usize, Error>)
        ensures
            match mem@.writable(self) {
                Ok(i) => r == Ok::<usize, Error>(i as usize) && i < mem.heap.arena.len()
                    && mem.heap.arena[i] is Mutable,
                Err(k) => r is Err && r->Err_0.kind == k && r->Err_0.span is None,
            },
    {
        mem.get_ref_mut(self)
    }
}

impl FrozenValue {
    /// The string that the value is, if it is one.
    pub fn unpack_str(self, mem: &Memory) -> (r: Option<&str>)
        ensures
            match mem@.target(self.to_value_spec()) {
                Target::Str(s) => r is Some && r.unwrap()@ == s,
                _ => r is None,
            },
    {
        self.to_value().unpack_str(mem)
    }

    /// What the value denotes.
    pub fn get_ref(self, mem: &Memory) -> (r: ARef<'_>)
        ensures
            r@ == mem@.target(self.to_value_spec()),
    {
        mem.get_aref(self.to_value())
    }

    /// The object that the value denotes, if it denotes one.
    pub fn downcast_frozen_ref(self, mem: &Memory) -> (r: Option<FrozenRef<'_, Object>>)
        ensures
            match mem@.target(self.to_value_spec()) {
                Target::Object(o) => r is Some && r.unwrap().value@ == o,
                _ => r is None,
            },
    {
        match mem.get_aref(self.to_value()) {
            ARef::Object(o) => Some(FrozenRef { value: o }),
            _ => None,
        }
    }
}

impl<'a, T: ?Sized> FrozenRef<'a, T> {
    /// What the reference points to.
    pub fn as_ref(&self) -> (r: &T)
        ensures
            r == self.value,
    {
        self.value
    }
}

/// Is the lock of `v` free to take: `v` is no mutable object, or its count of readers can
/// still grow.
pub open spec fn lockable(s: Store, v: Value) -> bool {
    s.is_mutable(v) ==> s.heap[v->Heap_0 as int]->Mutable_0 < usize::MAX
}

/// Taking a read lock and giving it back leaves the store as it was. While it is held, the
/// object is locked, and every value denotes what it did.
pub proof fn lemma_lock_unlock(s: Store, v: Value)
    requires
        lockable(s, v),
    ensures
        s.lock(v).unlock(v) == s,
        s.is_mutable(v) ==> s.lock(v).is_locked(v),
        forall|w: Value| s.lock(v).target(w) == s.target(w),
{
    assert(s.lock(v).unlock(v).heap =~= s.heap);
}

} // verus!
