//! Function values: native functions, attributes backed by a function, and bound methods;
//! and the attributes that values have of themselves.
use vstd::prelude::*;
use crate::errors::{agrees, Error, ErrorKind};
use crate::heap::{ARef, Entry, Memory, Store, Target};
use crate::object::{Accessor, BoundMethodGen, Builtin, NativeAttribute, NativeFunction, Obj, Object};
use crate::params::ParametersSpec;
use crate::value::{FrozenValue, Value};

verus! {

/// The name of the type of every function.
pub const FUNCTION_TYPE: &'static str = "function";

/// A native function that reads as an attribute: from the receiver to the value.
pub trait NativeAttr {
    /// What reading the attribute of `value` gives.
    spec fn outcome(&self, s: Store, value: Value) -> Result<Value, ErrorKind>;

    /// Reads the attribute of `value`.
    fn call(&self, value: Value, mem: &Memory) -> (r: Result<Value, Error>)
        ensures
            agrees(r, self.outcome(mem@, value)),
    ;
}

impl NativeAttr for Accessor {
    open spec fn outcome(&self, s: Store, value: Value) -> Result<Value, ErrorKind> {
        s.access(NativeAttribute { function: *self }, value)
    }

    fn call(&self, value: Value, mem: &Memory) -> (r: Result<Value, Error>) {
        mem.access(NativeAttribute { function: *self }, value)
    }
}

impl NativeAttribute {
    /// Reads the attribute of `value`.
    pub fn call(&self, value: Value, mem: &Memory) -> (r: Result<Value, Error>)
        ensures
            agrees(r, mem@.access(*self, value)),
    {
        self.function.call(value, mem)
    }
}

impl NativeFunction {
    /// A native function from the function of the engine and its parameters.
    pub fn new(function: Builtin, name: String, parameters: ParametersSpec) -> (f: NativeFunction)
        ensures
            f.function == function,
            f.name == name,
            f.parameters == parameters,
            f.typ is None,
    {
        NativeFunction { function, name, parameters, typ: None }
    }

    /// Gives the function a `.type` attribute.
    pub fn set_type(&mut self, typ: FrozenValue)
        ensures
            final(self).typ == Some(typ),
            final(self).function == old(self).function,
            final(self).name == old(self).name,
            final(self).parameters == old(self).parameters,
    {
        self.typ = Some(typ);
    }

    /// The names of the attributes: `type`, if the function has one.
    pub fn dir_attr(&self) -> (r: Vec<String>)
        ensures
            self.typ is Some ==> r@.len() == 1 && r@[0]@ == "type"@,
            self.typ is None ==> r@.len() == 0,
    {
        let mut out: Vec<String> = Vec::new();
        if self.typ.is_some() {
            out.push(crate::text::owned("type"));
        }
        out
    }
}

impl NativeAttribute {
    /// An attribute that is computed by `function`.
    pub fn new(function: Accessor) -> (a: NativeAttribute)
        ensures
            a.function == function,
    {
        NativeAttribute { function }
    }
}

impl BoundMethodGen {
    /// Create a new bound method. Given the expression `object.function`, the first
    /// argument would be `object`, and the second would be the attribute `function` of it.
    pub fn new(this: Value, method: Value) -> (b: BoundMethodGen)
        ensures
            b.this == this,
            b.method == method,
    {
        BoundMethodGen { method, this }
    }
}

impl Store {
    /// What the accessor of a native attribute gives for the receiver `v`.
    pub open spec fn access(self, a: NativeAttribute, v: Value) -> Result<Value, ErrorKind> {
        match a.function {
            Accessor::Length => match self.length(v) {
                Ok(n) => Ok(Value::Int(n)),
                Err(k) => Err(k),
            },
        }
    }

    /// The store and the value after reading the attribute `attr` that `v` has of itself:
    /// `type` of an enumeration type or of a native function, `index` and `value` of an
    /// enumeration value. `None` for any other.
    pub open spec fn get_attr(self, v: Value, attr: Seq<char>) -> (Store, Option<Value>) {
        match self.target(v) {
            Target::Object(Obj::EnumType(t)) => if attr == "type"@ {
                let (s, name) = self.allocate(
                    Entry::Str(
                        match t.typ {
                            Some(n) => n,
                            None => "enum"@,
                        },
                    ),
                );
                (s, Some(name))
            } else {
                (self, None)
            },
            Target::Object(Obj::EnumValue(e)) => if attr == "index"@ {
                (self, Some(Value::Int(e.index)))
            } else if attr == "value"@ {
                (self, Some(e.value))
            } else {
                (self, None)
            },
            Target::Object(Obj::Native(f)) => if attr == "type"@ && f.typ is Some {
                (self, Some(f.typ.unwrap().to_value_spec()))
            } else {
                (self, None)
            },
            _ => (self, None),
        }
    }

    /// Does `v` have the attribute `attr` of itself?
    pub open spec fn has_attr(self, v: Value, attr: Seq<char>) -> bool {
        self.get_attr(v, attr).1 is Some
    }

    /// The names of the attributes that `v` has of itself.
    pub open spec fn dir_attr(self, v: Value) -> Seq<Seq<char>> {
        match self.target(v) {
            Target::Object(Obj::EnumType(_)) => seq!["type"@],
            Target::Object(Obj::EnumValue(_)) => seq!["index"@, "value"@],
            Target::Object(Obj::Native(f)) => if f.typ is Some {
                seq!["type"@]
            } else {
                seq![]
            },
            _ => seq![],
        }
    }
}

impl Memory {
    /// Calls the accessor of a native attribute on the receiver `v`.
    pub fn access(&self, a: NativeAttribute, v: Value) -> (r: Result<Value, Error>)
        ensures
            agrees(r, self@.access(a, v)),
    {
        match a.function {
            Accessor::Length => match self.length(v) {
                Ok(n) => Ok(Value::Int(n)),
                Err(e) => Err(e),
            },
        }
    }

    /// Reads the attribute `attr` that `v` has of itself.
    pub fn get_attr(&mut self, v: Value, attr: &str) -> (r: Option<Value>)
        ensures
            (final(self)@, r) == old(self)@.get_attr(v, attr@),
    {
        match self.get_aref(v) {
            ARef::Object(Object::EnumType(t)) => {
                if crate::text::same_text(attr, "type") {
                    let name = match &t.typ {
                        Some(n) => n.clone(),
                        None => crate::text::owned("enum"),
                    };
                    Some(self.alloc_str(name))
                } else {
                    None
                }
            },
            ARef::Object(Object::EnumValue(e)) => {
                if crate::text::same_text(attr, "index") {
                    Some(Value::Int(e.index))
                } else if crate::text::same_text(attr, "value") {
                    Some(e.value)
                } else {
                    None
                }
            },
            ARef::Object(Object::NativeFunction(f)) => {
                if crate::text::same_text(attr, "type") {
                    match f.typ {
                        Some(t) => Some(t.to_value()),
                        None => None,
                    }
                } else {
                    None
                }
            },
            _ => None,
        }
    }

    /// Does `v` have the attribute `attr` of itself?
    pub fn has_attr(&self, v: Value, attr: &str) -> (r: bool)
        ensures
            r == self@.has_attr(v, attr@),
    {
        match self.get_aref(v) {
            ARef::Object(Object::EnumType(_)) => crate::text::same_text(attr, "type"),
            ARef::Object(Object::EnumValue(_)) => crate::text::same_text(attr, "index")
                || crate::text::same_text(attr, "value"),
            ARef::Object(Object::NativeFunction(f)) => crate::text::same_text(attr, "type")
                && f.typ.is_some(),
            _ => false,
        }
    }

    /// The names of the attributes that `v` has of itself.
    pub fn dir_attr(&self, v: Value) -> (r: Vec<String>)
        ensures
            r.deep_view() == self@.dir_attr(v),
    {
        let mut out: Vec<String> = Vec::new();
        match self.get_aref(v) {
            ARef::Object(Object::EnumType(_)) => {
                out.push(crate::text::owned("type"));
            },
            ARef::Object(Object::EnumValue(_)) => {
                out.push(crate::text::owned("index"));
                out.push(crate::text::owned("value"));
            },
            ARef::Object(Object::NativeFunction(f)) => {
                if f.typ.is_some() {
                    out.push(crate::text::owned("type"));
                }
            },
            _ => {},
        }
        assert(out.deep_view() =~= self@.dir_attr(v));
        out
    }
}

} // verus!
