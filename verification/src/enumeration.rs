//! Fixed set enumerations, with runtime checking of validity.
//!
//! Calling `enum()` produces an enumeration type. Calling the type with one of its elements
//! gives the enumeration value of that element. Each value of an enumeration is stored
//! once.
use vstd::prelude::*;
use crate::equality::MAX_NESTING;
use crate::errors::{Error, ErrorKind};
use crate::heap::{ARef, Entry, Memory, Store, Target, ValueMem};
use crate::object::{
    Builtin, EnumTypeGen, EnumTypeView, EnumValueGen, NativeFunction, NativeView, Obj, Object,
};
use crate::ops::did;
use crate::params::{ParameterKind, ParametersSpecBuilder, Signature};
use crate::value::Value;

verus! {

/// The signature of the constructor of an enumeration: one value, by position.
pub open spec fn constructor_signature() -> Signature {
    Signature::empty("enum"@).with_param("$value"@, ParameterKind::Required, true)
}

/// The constructor of an enumeration, as the content of a native function.
pub open spec fn constructor() -> NativeView {
    NativeView {
        function: Builtin::EnumConstructor,
        name: "enum"@,
        parameters: constructor_signature(),
        typ: None,
    }
}

impl Store {
    /// The store and the members after the enumeration values of `elements[i..]` are
    /// allocated for the type `typ` and added to `acc`. An element must be hashable, and
    /// must not equal an earlier one.
    pub open spec fn enum_members_from(
        self,
        typ: Value,
        elements: Seq<Value>,
        i: int,
        acc: Seq<(Value, Value)>,
    ) -> (Store, Result<Seq<(Value, Value)>, ErrorKind>)
        decreases elements.len() - i,
    {
        if i < 0 || i >= elements.len() {
            (self, Ok(acc))
        } else {
            let (s, v) = self.allocate(
                Entry::Immutable(
                    Obj::EnumValue(EnumValueGen { typ, value: elements[i], index: i as i32 }),
                ),
            );
            match s.dict_insert(acc, elements[i], v) {
                Ok((members, false)) => s.enum_members_from(typ, elements, i + 1, members),
                Ok((_, true)) => (s, Err(ErrorKind::DuplicateEnumValue)),
                Err(k) => (s, Err(k)),
            }
        }
    }

    /// The store and the result after making the enumeration of `elements`: the
    /// constructor, the type, and a value for each element in order, which the type then
    /// holds. At most `i32::MAX` elements.
    pub open spec fn new_enum(self, elements: Seq<Value>) -> (Store, Result<Value, ErrorKind>) {
        if elements.len() > i32::MAX {
            (self, Err(ErrorKind::IndexOutOfRange))
        } else {
            let (s1, ctor) = self.allocate(Entry::Simple(Obj::Native(constructor())));
            let (s2, typ) = s1.allocate(
                Entry::Mutable(
                    0,
                    Obj::EnumType(
                        EnumTypeView { typ: None, elements: Seq::empty(), constructor: ctor },
                    ),
                ),
            );
            match s2.enum_members_from(typ, elements, 0, Seq::empty()) {
                (s3, Ok(members)) => (
                    s3.update(
                        typ->Heap_0 as int,
                        Entry::Mutable(
                            0,
                            Obj::EnumType(
                                EnumTypeView { typ: None, elements: members, constructor: ctor },
                            ),
                        ),
                    ),
                    Ok(typ),
                ),
                (s3, Err(k)) => (s3, Err(k)),
            }
        }
    }

    /// The enumeration value of the type `this` for the element `val`.
    pub open spec fn enum_value(self, this: Option<Value>, val: Value) -> Result<Value, ErrorKind> {
        match this {
            Some(t) => match self.target(t) {
                Target::Object(Obj::EnumType(typ)) => match self.get_hash(val) {
                    Err(k) => Err(k),
                    Ok(_) => match self.dict_find_from(typ.elements, val, 0, MAX_NESTING as nat) {
                        Ok(Some(j)) => Ok(typ.elements[j].1),
                        Ok(None) => Err(ErrorKind::InvalidEnumElement),
                        Err(k) => Err(k),
                    },
                },
                _ => Err(ErrorKind::WrongType),
            },
            None => Err(ErrorKind::WrongType),
        }
    }

    /// The store after the value `v` is bound to the module variable `name`: an
    /// enumeration type without a name, which nobody reads, takes the name.
    pub open spec fn export_as(self, v: Value, name: Seq<char>) -> Store {
        match v {
            Value::Heap(i) if i < self.heap.len() => match self.heap[i as int] {
                Entry::Mutable(n, Obj::EnumType(t)) if n == 0 && t.typ is None => self.update(
                    i as int,
                    Entry::Mutable(0, Obj::EnumType(EnumTypeView { typ: Some(name), ..t })),
                ),
                _ => self,
            },
            _ => self,
        }
    }
}

/// The constructor of an enumeration.
pub fn make_constructor() -> (f: NativeFunction)
    ensures
        f@ == constructor(),
{
    let mut signature = ParametersSpecBuilder::with_capacity(crate::text::owned("enum"), 2);
    signature.required("$value");
    let parameters = signature.build();
    NativeFunction::new(Builtin::EnumConstructor, crate::text::owned("enum"), parameters)
}

/// The message for an enumeration in which the element shown as `element` comes twice.
pub open spec fn repeated_text(element: Seq<char>) -> Seq<char> {
    crate::errors::framed("enum values must all be distinct, but repeated `"@, element, "`"@)
}

/// The message for the element shown as `element`, which the enumeration shown as `given`
/// does not have.
pub open spec fn unknown_text(element: Seq<char>, given: Seq<char>) -> Seq<char> {
    crate::errors::framed(
        crate::errors::framed("Unknown enum element `"@, element, "`, given to `"@),
        given,
        "`"@,
    )
}

/// Does `message` say that the elements must be distinct, and name one of `elements`?
pub open spec fn names_repeated(s: Store, elements: Seq<Value>, message: Seq<char>) -> bool {
    exists|i: int|
        0 <= i < elements.len() && message == repeated_text(s.shown(#[trigger] elements[i]))
}

impl Store {
    /// Is `this` an enumeration that does not have the element `val`, which can be hashed?
    pub open spec fn is_unknown(self, this: Value, val: Value) -> bool {
        match self.target(this) {
            Target::Object(Obj::EnumType(typ)) => self.get_hash(val) is Ok && self.dict_find_from(
                typ.elements,
                val,
                0,
                MAX_NESTING as nat,
            ) == Ok::<Option<int>, ErrorKind>(None),
            _ => false,
        }
    }
}

impl Memory {
    fn enum_members(&mut self, typ: Value, elements: &Vec<Value>) -> (r: Result<
        Vec<(Value, Value)>,
        Error,
    >)
        requires
            elements.len() <= i32::MAX,
        ensures
            ({
                let s = old(self)@.enum_members_from(typ, elements@, 0, Seq::empty());
                &&& final(self)@ == s.0
                &&& match s.1 {
                    Ok(members) => r is Ok && r->Ok_0@ == members,
                    Err(k) => r is Err && r->Err_0.kind == k && r->Err_0.span is None,
                }
            }),
            r is Err && r->Err_0.kind == ErrorKind::DuplicateEnumValue ==> names_repeated(
                final(self)@,
                elements@,
                r->Err_0.message@,
            ),
    {
        let mut res: Vec<(Value, Value)> = Vec::new();
        let mut i: usize = 0;
        while i < elements.len()
            invariant
                i <= elements.len(),
                elements.len() <= i32::MAX,
                old(self)@.enum_members_from(typ, elements@, 0, Seq::empty())
                    == self@.enum_members_from(typ, elements@, i as int, res@),
            decreases elements.len() - i,
        {
            let x = elements[i];
            let v = self.alloc_object(
                Object::EnumValue(EnumValueGen { typ, value: x, index: i as i32 }),
            );
            let ghost sofar = res@;
            match self.dict_insert(&mut res, x, v) {
                Ok(false) => {},
                Ok(true) => {
                    let shown = self.shown(x);
                    assert(shown@ == self@.shown(elements@[i as int]));
                    return Err(
                        Error::with_message(
                            ErrorKind::DuplicateEnumValue,
                            crate::errors::frame(
                                "enum values must all be distinct, but repeated `",
                                shown.as_str(),
                                "`",
                            ),
                        ),
                    );
                },
                Err(e) => {
                    proof {
                        // Hashing and comparing fail in other ways.
                        crate::eval::lemma_insert_kinds(self@, sofar, x, v);
                    }
                    return Err(e);
                },
            }
            i += 1;
        }
        Ok(res)
    }

    /// Makes the enumeration of `elements`: the type and all its values in one go. They
    /// point at each other.
    pub fn new_enum(&mut self, elements: &Vec<Value>) -> (r: Result<Value, Error>)
        ensures
            did(final(self)@, r, old(self)@.new_enum(elements@)),
            r is Err && r->Err_0.kind == ErrorKind::DuplicateEnumValue ==> names_repeated(
                final(self)@,
                elements@,
                r->Err_0.message@,
            ),
    {
        if elements.len() > 0x7fff_ffff {
            return Err(Error::new(ErrorKind::IndexOutOfRange, "Too many enum values"));
        }
        let ctor = self.alloc_object(Object::NativeFunction(make_constructor()));
        let typ = self.alloc_object(
            Object::EnumType(EnumTypeGen { typ: None, elements: Vec::new(), constructor: ctor }),
        );
        let res = match self.enum_members(typ, elements) {
            Ok(res) => res,
            Err(e) => {
                return Err(e);
            },
        };
        // Here we tie the cycle.
        match typ {
            Value::Heap(at) => {
                let ghost before = self@;
                assert(at < self.heap.arena.len()) by {
                    lemma_members_grow(
                        old(self)@.allocate(Entry::Simple(Obj::Native(constructor()))).0.allocate(
                            Entry::Mutable(
                                0,
                                Obj::EnumType(
                                    EnumTypeView {
                                        typ: None,
                                        elements: Seq::empty(),
                                        constructor: ctor,
                                    },
                                ),
                            ),
                        ).0,
                        typ,
                        elements@,
                        0,
                        Seq::empty(),
                    );
                }
                self.heap.arena[at] = ValueMem::Mutable(
                    0,
                    Object::EnumType(EnumTypeGen { typ: None, elements: res, constructor: ctor }),
                );
                assert(final(self)@.heap =~= before.heap.update(
                    at as int,
                    Entry::Mutable(
                        0,
                        Obj::EnumType(
                            EnumTypeView { typ: None, elements: res@, constructor: ctor },
                        ),
                    ),
                ));
            },
            _ => {},
        }
        Ok(typ)
    }

    /// The enumeration value of the type `this` for the element `val`.
    pub fn enum_value(&self, this: Option<Value>, val: Value) -> (r: Result<Value, Error>)
        ensures
            crate::errors::agrees(r, self@.enum_value(this, val)),
            this is Some && self@.is_unknown(this.unwrap(), val) ==> r is Err && r->Err_0.message@
                == unknown_text(self@.shown(val), self@.shown(this.unwrap())),
    {
        let this = match this {
            Some(t) => t,
            None => {
                return Err(Error::new(ErrorKind::WrongType, "An enum type is expected"));
            },
        };
        match self.get_aref(this) {
            ARef::Object(Object::EnumType(typ)) => {
                match self.get_hash(val) {
                    Ok(_) => {},
                    Err(e) => {
                        return Err(e);
                    },
                }
                match self.dict_find(&typ.elements, val, MAX_NESTING) {
                    Ok(Some(j)) => Ok(typ.elements[j].1),
                    Ok(None) => {
                        let shown = self.shown(val);
                        let given = self.shown(this);
                        let head = crate::errors::frame(
                            "Unknown enum element `",
                            shown.as_str(),
                            "`, given to `",
                        );
                        Err(
                            Error::with_message(
                                ErrorKind::InvalidEnumElement,
                                crate::errors::frame(head.as_str(), given.as_str(), "`"),
                            ),
                        )
                    },
                    Err(e) => Err(e),
                }
            },
            _ => Err(Error::new(ErrorKind::WrongType, "An enum type is expected")),
        }
    }

    /// Tells the value `v` that it is bound to the module variable `name`.
    pub fn export_as(&mut self, v: Value, name: &str)
        ensures
            final(self)@ == old(self)@.export_as(v, name@),
    {
        match v {
            Value::Heap(i) => {
                if i < self.heap.arena.len() {
                    match &mut self.heap.arena[i] {
                        ValueMem::Mutable(n, Object::EnumType(t)) => {
                            if *n == 0 && t.typ.is_none() {
                                t.typ = Some(crate::text::owned(name));
                            }
                        },
                        _ => {},
                    }
                }
            },
            _ => {},
        }
        assert(final(self)@.heap =~= old(self)@.export_as(v, name@).heap);
    }
}

/// Allocating the members of an enumeration only adds entries to the heap.
pub proof fn lemma_members_grow(
    s: Store,
    typ: Value,
    elements: Seq<Value>,
    i: int,
    acc: Seq<(Value, Value)>,
)
    ensures
        s.enum_members_from(typ, elements, i, acc).0.heap.len() >= s.heap.len(),
        s.enum_members_from(typ, elements, i, acc).0.frozen == s.frozen,
        forall|j: int|
            0 <= j < s.heap.len() ==> s.enum_members_from(typ, elements, i, acc).0.heap[j]
                == s.heap[j],
    decreases elements.len() - i,
{
    if 0 <= i < elements.len() {
        let (s1, v) = s.allocate(
            Entry::Immutable(
                Obj::EnumValue(EnumValueGen { typ, value: elements[i], index: i as i32 }),
            ),
        );
        let out = s.enum_members_from(typ, elements, i, acc).0;
        match s1.dict_insert(acc, elements[i], v) {
            Ok((members, false)) => {
                lemma_members_grow(s1, typ, elements, i + 1, members);
                assert forall|j: int| 0 <= j < s.heap.len() implies out.heap[j] == s.heap[j] by {
                    assert(s1.heap[j] == s.heap[j]);
                }
            },
            _ => {
                assert forall|j: int| 0 <= j < s.heap.len() implies out.heap[j] == s.heap[j] by {
                    assert(s1.heap[j] == s.heap[j]);
                }
            },
        }
    }
}

/// What allocating the members of an enumeration comes to, if no element fails: a value
/// for each element, in order, each with its element and its index, on top of the heap.
pub proof fn lemma_members_shape(
    s: Store,
    typ: Value,
    elements: Seq<Value>,
    i: int,
    acc: Seq<(Value, Value)>,
)
    requires
        0 <= i <= elements.len(),
        s.enum_members_from(typ, elements, i, acc).1 is Ok,
    ensures
        ({
            let out = s.enum_members_from(typ, elements, i, acc);
            let members = out.1->Ok_0;
            &&& out.0.heap.len() == s.heap.len() + elements.len() - i
            &&& members.len() == acc.len() + elements.len() - i
            &&& forall|k: int| 0 <= k < acc.len() ==> #[trigger] members[k] == acc[k]
            &&& forall|k: int|
                i <= k < elements.len() ==> #[trigger] members[acc.len() + k - i] == (
                    elements[k],
                    Value::Heap((s.heap.len() + k - i) as usize),
                ) && out.0.heap[s.heap.len() + k - i] == Entry::Immutable(
                    Obj::EnumValue(EnumValueGen { typ, value: elements[k], index: k as i32 }),
                )
        }),
    decreases elements.len() - i,
{
    if i < elements.len() {
        let (s1, v) = s.allocate(
            Entry::Immutable(
                Obj::EnumValue(EnumValueGen { typ, value: elements[i], index: i as i32 }),
            ),
        );
        match s1.dict_insert(acc, elements[i], v) {
            Ok((members, false)) => {
                assert(members == acc.push((elements[i], v)));
                lemma_members_shape(s1, typ, elements, i + 1, members);
                lemma_members_grow(s1, typ, elements, i + 1, members);
                let out = s.enum_members_from(typ, elements, i, acc);
                let all = out.1->Ok_0;
                assert forall|k: int| 0 <= k < acc.len() implies #[trigger] all[k] == acc[k] by {
                    assert(all[k] == members[k]);
                }
                assert forall|k: int| i <= k < elements.len() implies #[trigger] all[acc.len() + k
                    - i] == (elements[k], Value::Heap((s.heap.len() + k - i) as usize))
                    && out.0.heap[s.heap.len() + k - i] == Entry::Immutable(
                    Obj::EnumValue(EnumValueGen { typ, value: elements[k], index: k as i32 }),
                ) by {
                    assert(out == s1.enum_members_from(typ, elements, i + 1, members));
                    assert(members.len() == acc.len() + 1);
                    assert(s1.heap.len() == s.heap.len() + 1);
                    if k == i {
                        assert(all[acc.len() as int] == members[acc.len() as int]);
                        assert(members[acc.len() as int] == (elements[i], v));
                        assert(v == Value::Heap(s.heap.len() as usize));
                        assert(out.0.heap[s.heap.len() as int] == s1.heap[s.heap.len() as int]);
                    } else {
                        assert(acc.len() + k - i == members.len() + k - (i + 1));
                        assert(s.heap.len() + k - i == s1.heap.len() + k - (i + 1));
                        assert(all[members.len() + k - (i + 1)] == (
                            elements[k],
                            Value::Heap((s1.heap.len() + k - (i + 1)) as usize),
                        ));
                    }
                }
            },
            _ => {},
        }
    }
}

/// An enumeration that is made holds a value for each of its elements, in order: the value
/// at index `i` has the element `i` and the index `i`, and belongs to the type. Nothing
/// else on the heaps changes.
pub proof fn lemma_new_enum(s: Store, elements: Seq<Value>, i: int)
    requires
        s.new_enum(elements).1 is Ok,
        0 <= i < elements.len(),
        s.heap.len() + elements.len() + 2 <= usize::MAX,
    ensures
        ({
            let (after, r) = s.new_enum(elements);
            let typ = r->Ok_0;
            &&& after.target(typ) is Object
            &&& after.target(typ)->Object_0 is EnumType
            &&& ({
                let t = after.target(typ)->Object_0->EnumType_0;
                &&& t.elements.len() == elements.len()
                &&& t.elements[i].0 == elements[i]
                &&& after.target(t.elements[i].1) == Target::Object(
                    Obj::EnumValue(EnumValueGen { typ, value: elements[i], index: i as i32 }),
                )
            })
            &&& forall|w: Value| #[trigger] s.target(w) != Target::Unexpected ==> after.target(w)
                == s.target(w)
        }),
{
    let (s1, ctor) = s.allocate(Entry::Simple(Obj::Native(constructor())));
    let (s2, typ) = s1.allocate(
        Entry::Mutable(
            0,
            Obj::EnumType(EnumTypeView { typ: None, elements: Seq::empty(), constructor: ctor }),
        ),
    );
    lemma_members_shape(s2, typ, elements, 0, Seq::empty());
    lemma_members_grow(s2, typ, elements, 0, Seq::empty());
    let (s3, r) = s2.enum_members_from(typ, elements, 0, Seq::empty());
    let members = r->Ok_0;
    let after = s.new_enum(elements).0;
    let none = Seq::<(Value, Value)>::empty();
    assert(members[none.len() + i - 0] == (
        elements[i],
        Value::Heap((s2.heap.len() + i - 0) as usize),
    ));
    assert(s3.heap[s2.heap.len() + i - 0] == Entry::Immutable(
        Obj::EnumValue(EnumValueGen { typ, value: elements[i], index: i as i32 }),
    ));
    assert(typ == Value::Heap(s1.heap.len() as usize));
    assert(after == s3.update(
        s1.heap.len() as int,
        Entry::Mutable(
            0,
            Obj::EnumType(EnumTypeView { typ: None, elements: members, constructor: ctor }),
        ),
    ));
    assert(after.heap[s2.heap.len() + i] == s3.heap[s2.heap.len() + i]);
    assert(after.target(members[i].1) == Target::Object(
        Obj::EnumValue(EnumValueGen { typ, value: elements[i], index: i as i32 }),
    ));
    assert forall|w: Value| #[trigger] s.target(w) != Target::Unexpected implies after.target(w)
        == s.target(w) by {
        match w {
            Value::Heap(j) => {
                assert(s1.heap[j as int] == s.heap[j as int]);
                assert(s2.heap[j as int] == s1.heap[j as int]);
                assert(s3.heap[j as int] == s2.heap[j as int]);
            },
            _ => {},
        }
    }
}

} // verus!
