//! The registry of built-in functions: their names, their parameters, and how they are
//! made known to every module.
use vstd::prelude::*;
use crate::heap::{Entry, Memory, Store, Target};
use crate::object::{Builtin, NativeFunction, NativeView, Obj, Object};
use crate::params::{ParameterKind, ParametersSpec, ParametersSpecBuilder, Signature};
use crate::state::Globals;
use crate::value::{FrozenValue, Value};

verus! {

/// The name of a built-in function.
pub open spec fn builtin_name(b: Builtin) -> Seq<char> {
    match b {
        Builtin::Fail => "fail"@,
        Builtin::Any => "any"@,
        Builtin::All => "all"@,
        Builtin::Bool => "bool"@,
        Builtin::Chr => "chr"@,
        Builtin::Dict => "dict"@,
        Builtin::Dir => "dir"@,
        Builtin::Enumerate => "enumerate"@,
        Builtin::Getattr => "getattr"@,
        Builtin::Hasattr => "hasattr"@,
        Builtin::Hash => "hash"@,
        Builtin::Int => "int"@,
        Builtin::Len => "len"@,
        Builtin::List => "list"@,
        Builtin::Max => "max"@,
        Builtin::Min => "min"@,
        Builtin::Ord => "ord"@,
        Builtin::Range => "range"@,
        Builtin::Repr => "repr"@,
        Builtin::Reversed => "reversed"@,
        Builtin::Sorted => "sorted"@,
        Builtin::Str => "str"@,
        Builtin::Tuple => "tuple"@,
        Builtin::Type => "type"@,
        Builtin::Zip => "zip"@,
        Builtin::Filter => "filter"@,
        Builtin::MapEach => "map"@,
        Builtin::Partial => "partial"@,
        Builtin::Debug => "debug"@,
        Builtin::Dedupe => "dedupe"@,
        Builtin::Print => "print"@,
        Builtin::Json => "json"@,
        Builtin::Abs => "abs"@,
        Builtin::Enum => "enum"@,
        Builtin::EnumConstructor => "enum"@,
        Builtin::ListAppend => "append"@,
        Builtin::DictKeys => "keys"@,
    }
}

/// The parameters of a built-in function. A name that starts with `$` cannot be written in
/// a program, so such a parameter is passed by position only.
pub open spec fn signature_of(b: Builtin) -> Signature {
    match b {
        Builtin::Fail => Signature::empty("fail"@).with_param("msg"@, ParameterKind::Required, true),
        Builtin::Any => Signature::empty("any"@).with_param("$x"@, ParameterKind::Required, true),
        Builtin::All => Signature::empty("all"@).with_param("$x"@, ParameterKind::Required, true),
        Builtin::Bool => Signature::empty("bool"@).with_param("$x"@, ParameterKind::Optional, true),
        Builtin::Chr => Signature::empty("chr"@).with_param("$i"@, ParameterKind::Required, true),
        Builtin::Dict => Signature::empty("dict"@).with_param("$a"@, ParameterKind::Optional, true).with_kwargs(),
        Builtin::Dir => Signature::empty("dir"@).with_param("$x"@, ParameterKind::Required, true),
        Builtin::Enumerate => Signature::empty("enumerate"@).with_param("$it"@, ParameterKind::Required, true).with_param("offset"@, ParameterKind::Optional, true),
        Builtin::Getattr => Signature::empty("getattr"@).with_param("$a"@, ParameterKind::Required, true).with_param("$attr"@, ParameterKind::Required, true).with_param("$default"@, ParameterKind::Optional, true),
        Builtin::Hasattr => Signature::empty("hasattr"@).with_param("$a"@, ParameterKind::Required, true).with_param("$attr"@, ParameterKind::Required, true),
        Builtin::Hash => Signature::empty("hash"@).with_param("$a"@, ParameterKind::Required, true),
        Builtin::Int => Signature::empty("int"@).with_param("$a"@, ParameterKind::Optional, true).with_param("base"@, ParameterKind::Optional, true),
        Builtin::Len => Signature::empty("len"@).with_param("$a"@, ParameterKind::Required, true),
        Builtin::List => Signature::empty("list"@).with_param("$a"@, ParameterKind::Optional, true),
        Builtin::Max => Signature::empty("max"@).with_args().with_param("key"@, ParameterKind::Optional, false),
        Builtin::Min => Signature::empty("min"@).with_args().with_param("key"@, ParameterKind::Optional, false),
        Builtin::Ord => Signature::empty("ord"@).with_param("$a"@, ParameterKind::Required, true),
        Builtin::Range => Signature::empty("range"@).with_param("$a1"@, ParameterKind::Required, true).with_param("$a2"@, ParameterKind::Optional, true).with_param("$step"@, ParameterKind::Optional, true),
        Builtin::Repr => Signature::empty("repr"@).with_param("$a"@, ParameterKind::Required, true),
        Builtin::Reversed => Signature::empty("reversed"@).with_param("$a"@, ParameterKind::Required, true),
        Builtin::Sorted => Signature::empty("sorted"@).with_param("$x"@, ParameterKind::Required, true).with_param("key"@, ParameterKind::Optional, true).with_param("reverse"@, ParameterKind::Optional, true),
        Builtin::Str => Signature::empty("str"@).with_param("$a"@, ParameterKind::Required, true),
        Builtin::Tuple => Signature::empty("tuple"@).with_param("$a"@, ParameterKind::Optional, true),
        Builtin::Type => Signature::empty("type"@).with_param("$a"@, ParameterKind::Required, true),
        Builtin::Zip => Signature::empty("zip"@).with_args(),
        Builtin::Filter => Signature::empty("filter"@).with_param("$func"@, ParameterKind::Required, true).with_param("$seq"@, ParameterKind::Required, true),
        Builtin::MapEach => Signature::empty("map"@).with_param("$func"@, ParameterKind::Required, true).with_param("$seq"@, ParameterKind::Required, true),
        Builtin::Partial => Signature::empty("partial"@).with_param("$func"@, ParameterKind::Required, true).with_args().with_kwargs(),
        Builtin::Debug => Signature::empty("debug"@).with_param("$val"@, ParameterKind::Required, true),
        Builtin::Dedupe => Signature::empty("dedupe"@).with_param("$val"@, ParameterKind::Required, true),
        Builtin::Print => Signature::empty("print"@).with_args(),
        Builtin::Json => Signature::empty("json"@).with_param("$x"@, ParameterKind::Required, true),
        Builtin::Abs => Signature::empty("abs"@).with_param("$x"@, ParameterKind::Required, true),
        Builtin::Enum => Signature::empty("enum"@).with_args(),
        Builtin::EnumConstructor => Signature::empty("enum"@).with_param("$value"@, ParameterKind::Required, true),
        Builtin::ListAppend => Signature::empty("append"@).with_param("$x"@, ParameterKind::Required, true),
        Builtin::DictKeys => Signature::empty("keys"@),
    }
}

/// The text of the attribute `type` of a built-in function, for those that stand for a
/// type.
pub open spec fn type_of(b: Builtin) -> Option<Seq<char>> {
    match b {
        Builtin::Bool => Some("bool"@),
        Builtin::Dict => Some("dict"@),
        Builtin::Int => Some("int"@),
        Builtin::List => Some("list"@),
        Builtin::Range => Some("range"@),
        Builtin::Str => Some("string"@),
        Builtin::Tuple => Some("tuple"@),
        _ => None,
    }
}

/// The name of a built-in function.
pub fn name_of(b: Builtin) -> (r: &'static str)
    ensures
        r@ == builtin_name(b),
{
    match b {
        Builtin::Fail => "fail",
        Builtin::Any => "any",
        Builtin::All => "all",
        Builtin::Bool => "bool",
        Builtin::Chr => "chr",
        Builtin::Dict => "dict",
        Builtin::Dir => "dir",
        Builtin::Enumerate => "enumerate",
        Builtin::Getattr => "getattr",
        Builtin::Hasattr => "hasattr",
        Builtin::Hash => "hash",
        Builtin::Int => "int",
        Builtin::Len => "len",
        Builtin::List => "list",
        Builtin::Max => "max",
        Builtin::Min => "min",
        Builtin::Ord => "ord",
        Builtin::Range => "range",
        Builtin::Repr => "repr",
        Builtin::Reversed => "reversed",
        Builtin::Sorted => "sorted",
        Builtin::Str => "str",
        Builtin::Tuple => "tuple",
        Builtin::Type => "type",
        Builtin::Zip => "zip",
        Builtin::Filter => "filter",
        Builtin::MapEach => "map",
        Builtin::Partial => "partial",
        Builtin::Debug => "debug",
        Builtin::Dedupe => "dedupe",
        Builtin::Print => "print",
        Builtin::Json => "json",
        Builtin::Abs => "abs",
        Builtin::Enum => "enum",
        Builtin::EnumConstructor => "enum",
        Builtin::ListAppend => "append",
        Builtin::DictKeys => "keys",
    }
}

/// The text of the attribute `type` of a built-in function.
pub fn type_text(b: Builtin) -> (r: Option<&'static str>)
    ensures
        match type_of(b) {
            Some(t) => r is Some && r.unwrap()@ == t,
            None => r is None,
        },
{
    match b {
        Builtin::Bool => Some("bool"),
        Builtin::Dict => Some("dict"),
        Builtin::Int => Some("int"),
        Builtin::List => Some("list"),
        Builtin::Range => Some("range"),
        Builtin::Str => Some("string"),
        Builtin::Tuple => Some("tuple"),
        _ => None,
    }
}

/// The parameters of a built-in function.
pub fn make_signature(b: Builtin) -> (r: ParametersSpec)
    ensures
        r@ == signature_of(b),
{
    match b {
        Builtin::Fail => {
            let mut b = ParametersSpecBuilder::with_capacity(crate::text::owned("fail"), 1);
            b.required("msg");
            b.build()
        },
        Builtin::Any => {
            let mut b = ParametersSpecBuilder::with_capacity(crate::text::owned("any"), 1);
            b.required("$x");
            b.build()
        },
        Builtin::All => {
            let mut b = ParametersSpecBuilder::with_capacity(crate::text::owned("all"), 1);
            b.required("$x");
            b.build()
        },
        Builtin::Bool => {
            let mut b = ParametersSpecBuilder::with_capacity(crate::text::owned("bool"), 1);
            b.optional("$x");
            b.build()
        },
        Builtin::Chr => {
            let mut b = ParametersSpecBuilder::with_capacity(crate::text::owned("chr"), 1);
            b.required("$i");
            b.build()
        },
        Builtin::Dict => {
            let mut b = ParametersSpecBuilder::with_capacity(crate::text::owned("dict"), 2);
            b.optional("$a");
            b.kwargs();
            b.build()
        },
        Builtin::Dir => {
            let mut b = ParametersSpecBuilder::with_capacity(crate::text::owned("dir"), 1);
            b.required("$x");
            b.build()
        },
        Builtin::Enumerate => {
            let mut b = ParametersSpecBuilder::with_capacity(crate::text::owned("enumerate"), 2);
            b.required("$it");
            b.optional("offset");
            b.build()
        },
        Builtin::Getattr => {
            let mut b = ParametersSpecBuilder::with_capacity(crate::text::owned("getattr"), 3);
            b.required("$a");
            b.required("$attr");
            b.optional("$default");
            b.build()
        },
        Builtin::Hasattr => {
            let mut b = ParametersSpecBuilder::with_capacity(crate::text::owned("hasattr"), 2);
            b.required("$a");
            b.required("$attr");
            b.build()
        },
        Builtin::Hash => {
            let mut b = ParametersSpecBuilder::with_capacity(crate::text::owned("hash"), 1);
            b.required("$a");
            b.build()
        },
        Builtin::Int => {
            let mut b = ParametersSpecBuilder::with_capacity(crate::text::owned("int"), 2);
            b.optional("$a");
            b.optional("base");
            b.build()
        },
        Builtin::Len => {
            let mut b = ParametersSpecBuilder::with_capacity(crate::text::owned("len"), 1);
            b.required("$a");
            b.build()
        },
        Builtin::List => {
            let mut b = ParametersSpecBuilder::with_capacity(crate::text::owned("list"), 1);
            b.optional("$a");
            b.build()
        },
        Builtin::Max => {
            let mut b = ParametersSpecBuilder::with_capacity(crate::text::owned("max"), 2);
            b.args();
            b.optional("key");
            b.build()
        },
        Builtin::Min => {
            let mut b = ParametersSpecBuilder::with_capacity(crate::text::owned("min"), 2);
            b.args();
            b.optional("key");
            b.build()
        },
        Builtin::Ord => {
            let mut b = ParametersSpecBuilder::with_capacity(crate::text::owned("ord"), 1);
            b.required("$a");
            b.build()
        },
        Builtin::Range => {
            let mut b = ParametersSpecBuilder::with_capacity(crate::text::owned("range"), 3);
            b.required("$a1");
            b.optional("$a2");
            b.optional("$step");
            b.build()
        },
        Builtin::Repr => {
            let mut b = ParametersSpecBuilder::with_capacity(crate::text::owned("repr"), 1);
            b.required("$a");
            b.build()
        },
        Builtin::Reversed => {
            let mut b = ParametersSpecBuilder::with_capacity(crate::text::owned("reversed"), 1);
            b.required("$a");
            b.build()
        },
        Builtin::Sorted => {
            let mut b = ParametersSpecBuilder::with_capacity(crate::text::owned("sorted"), 3);
            b.required("$x");
            b.optional("key");
            b.optional("reverse");
            b.build()
        },
        Builtin::Str => {
            let mut b = ParametersSpecBuilder::with_capacity(crate::text::owned("str"), 1);
            b.required("$a");
            b.build()
        },
        Builtin::Tuple => {
            let mut b = ParametersSpecBuilder::with_capacity(crate::text::owned("tuple"), 1);
            b.optional("$a");
            b.build()
        },
        Builtin::Type => {
            let mut b = ParametersSpecBuilder::with_capacity(crate::text::owned("type"), 1);
            b.required("$a");
            b.build()
        },
        Builtin::Zip => {
            let mut b = ParametersSpecBuilder::with_capacity(crate::text::owned("zip"), 1);
            b.args();
            b.build()
        },
        Builtin::Filter => {
            let mut b = ParametersSpecBuilder::with_capacity(crate::text::owned("filter"), 2);
            b.required("$func");
            b.required("$seq");
            b.build()
        },
        Builtin::MapEach => {
            let mut b = ParametersSpecBuilder::with_capacity(crate::text::owned("map"), 2);
            b.required("$func");
            b.required("$seq");
            b.build()
        },
        Builtin::Partial => {
            let mut b = ParametersSpecBuilder::with_capacity(crate::text::owned("partial"), 3);
            b.required("$func");
            b.args();
            b.kwargs();
            b.build()
        },
        Builtin::Debug => {
            let mut b = ParametersSpecBuilder::with_capacity(crate::text::owned("debug"), 1);
            b.required("$val");
            b.build()
        },
        Builtin::Dedupe => {
            let mut b = ParametersSpecBuilder::with_capacity(crate::text::owned("dedupe"), 1);
            b.required("$val");
            b.build()
        },
        Builtin::Print => {
            let mut b = ParametersSpecBuilder::with_capacity(crate::text::owned("print"), 1);
            b.args();
            b.build()
        },
        Builtin::Json => {
            let mut b = ParametersSpecBuilder::with_capacity(crate::text::owned("json"), 1);
            b.required("$x");
            b.build()
        },
        Builtin::Abs => {
            let mut b = ParametersSpecBuilder::with_capacity(crate::text::owned("abs"), 1);
            b.required("$x");
            b.build()
        },
        Builtin::Enum => {
            let mut b = ParametersSpecBuilder::with_capacity(crate::text::owned("enum"), 1);
            b.args();
            b.build()
        },
        Builtin::EnumConstructor => {
            let mut b = ParametersSpecBuilder::with_capacity(crate::text::owned("enum"), 1);
            b.required("$value");
            b.build()
        },
        Builtin::ListAppend => {
            let mut b = ParametersSpecBuilder::with_capacity(crate::text::owned("append"), 1);
            b.required("$x");
            b.build()
        },
        Builtin::DictKeys => {
            let mut b = ParametersSpecBuilder::with_capacity(crate::text::owned("keys"), 0);
            b.build()
        },
    }
}

/// Is `b` made known by [`global_functions`]?
pub open spec fn is_standard(b: Builtin) -> bool {
    match b {
        Builtin::Fail | Builtin::Any | Builtin::All | Builtin::Bool | Builtin::Chr | Builtin::Dict
        | Builtin::Dir | Builtin::Enumerate | Builtin::Getattr | Builtin::Hasattr | Builtin::Hash
        | Builtin::Int | Builtin::Len | Builtin::List | Builtin::Max | Builtin::Min | Builtin::Ord
        | Builtin::Range | Builtin::Repr | Builtin::Reversed | Builtin::Sorted | Builtin::Str
        | Builtin::Tuple | Builtin::Type | Builtin::Zip => true,
        _ => false,
    }
}

/// Does the value `v` denote the built-in function `b`, with its name, its parameters and
/// its `type` attribute?
pub open spec fn denotes_builtin(s: Store, v: FrozenValue, b: Builtin) -> bool {
    match s.target(v.to_value_spec()) {
        Target::Object(Obj::Native(f)) => {
            &&& f.function == b
            &&& f.name == builtin_name(b)
            &&& f.parameters == signature_of(b)
            &&& match f.typ {
                Some(t) => type_of(b) is Some && s.target(t.to_value_spec()) == Target::Str(
                    type_of(b).unwrap(),
                ),
                None => type_of(b) is None,
            }
        },
        _ => false,
    }
}

/// Collects the names that every module sees, and the frozen values that they stand for.
#[derive(Debug)]
pub struct GlobalsBuilder {
    pub mem: Memory,
    pub globals: Globals,
}

impl GlobalsBuilder {
    /// Does the frozen heap of `self` hold all that the one of `before` held, and is the
    /// mutable heap the same?
    pub open spec fn extends(self, before: GlobalsBuilder) -> bool {
        &&& self.mem@.heap == before.mem@.heap
        &&& before.mem@.frozen.len() <= self.mem@.frozen.len()
        &&& forall|i: int|
            0 <= i < before.mem@.frozen.len() ==> self.mem@.frozen[i] == before.mem@.frozen[i]
    }

    /// Is the name `name` bound to the built-in function `b`?
    pub open spec fn has(self, name: Seq<char>, b: Builtin) -> bool {
        match self.globals.get_frozen_spec(name) {
            Some(v) => denotes_builtin(self.mem@, v, b),
            None => false,
        }
    }

    /// Is `b` the method `attr` of the type `typ`?
    pub open spec fn has_member(self, typ: Seq<char>, attr: Seq<char>, b: Builtin) -> bool {
        match self.globals.member_spec(typ, attr) {
            Some(v) => denotes_builtin(self.mem@, v, b),
            None => false,
        }
    }

    /// A builder without names, on empty heaps.
    pub fn new() -> (b: GlobalsBuilder)
        ensures
            b.mem@.frozen.len() == 0,
            b.mem@.heap.len() == 0,
            forall|name: Seq<char>| b.globals.get_frozen_spec(name) is None,
    {
        GlobalsBuilder { mem: Memory::new(), globals: Globals::new() }
    }

    /// Binds the name `name` to `value`.
    pub fn set(&mut self, name: &str, value: FrozenValue)
        ensures
            final(self).globals.get_frozen_spec(name@) == Some(value),
            forall|other: Seq<char>|
                other != name@ ==> final(self).globals.get_frozen_spec(other) == old(
                    self,
                ).globals.get_frozen_spec(other),
            final(self).globals.members == old(self).globals.members,
            final(self).mem == old(self).mem,
    {
        self.globals.set(name, value);
    }

    /// Puts the built-in function `b` on the frozen heap.
    pub fn alloc_function(&mut self, b: Builtin) -> (v: FrozenValue)
        ensures
            denotes_builtin(final(self).mem@, v, b),
            final(self).extends(*old(self)),
            final(self).globals == old(self).globals,
    {
        let mut f = NativeFunction::new(b, crate::text::owned(name_of(b)), make_signature(b));
        match type_text(b) {
            Some(t) => {
                let typ = self.mem.alloc_frozen_str(crate::text::owned(t));
                f.set_type(typ);
            },
            None => {},
        }
        self.mem.alloc_frozen_object(Object::NativeFunction(f))
    }

    /// Binds the name of the built-in function `b` to a new function value for it.
    pub fn set_function(&mut self, b: Builtin)
        ensures
            final(self).has(builtin_name(b), b),
            final(self).extends(*old(self)),
            forall|other: Seq<char>|
                other != builtin_name(b) ==> final(self).globals.get_frozen_spec(other) == old(
                    self,
                ).globals.get_frozen_spec(other),
            final(self).globals.members == old(self).globals.members,
    {
        let v = self.alloc_function(b);
        self.globals.set(name_of(b), v);
    }

    /// Makes the built-in function `b` the method of its name of the type `typ`.
    pub fn set_method(&mut self, typ: &str, b: Builtin)
        ensures
            final(self).has_member(typ@, builtin_name(b), b),
            final(self).extends(*old(self)),
            forall|t: Seq<char>, a: Seq<char>|
                (t != typ@ || a != builtin_name(b)) ==> final(self).globals.member_spec(t, a)
                    == old(self).globals.member_spec(t, a),
            final(self).globals.names == old(self).globals.names,
    {
        let v = self.alloc_function(b);
        self.globals.set_member(typ, name_of(b), v);
    }

    /// The heaps and the names.
    pub fn build(self) -> (r: (Memory, Globals))
        ensures
            r.0 == self.mem,
            r.1 == self.globals,
    {
        (self.mem, self.globals)
    }
}

/// What was a built-in function on a frozen heap stays one when the heap grows.
pub proof fn lemma_denotes_extends(before: GlobalsBuilder, after: GlobalsBuilder, v: FrozenValue, b: Builtin)
    requires
        after.extends(before),
        denotes_builtin(before.mem@, v, b),
    ensures
        denotes_builtin(after.mem@, v, b),
{
}


/// Can a program call `b` by its name?
pub open spec fn is_public(b: Builtin) -> bool {
    !(b is EnumConstructor) && !(b is ListAppend) && !(b is DictKeys)
}

/// The name of `a` is the name of no other built-in function that a program can call.
proof fn lemma_name_unique(a: Builtin, b: Builtin)
    requires
        is_public(a),
        is_public(b),
        a != b,
    ensures
        builtin_name(a) != builtin_name(b),
{
    reveal_strlit("fail");
    reveal_strlit("any");
    reveal_strlit("all");
    reveal_strlit("bool");
    reveal_strlit("chr");
    reveal_strlit("dict");
    reveal_strlit("dir");
    reveal_strlit("enumerate");
    reveal_strlit("getattr");
    reveal_strlit("hasattr");
    reveal_strlit("hash");
    reveal_strlit("int");
    reveal_strlit("len");
    reveal_strlit("list");
    reveal_strlit("max");
    reveal_strlit("min");
    reveal_strlit("ord");
    reveal_strlit("range");
    reveal_strlit("repr");
    reveal_strlit("reversed");
    reveal_strlit("sorted");
    reveal_strlit("str");
    reveal_strlit("tuple");
    reveal_strlit("type");
    reveal_strlit("zip");
    reveal_strlit("filter");
    reveal_strlit("map");
    reveal_strlit("partial");
    reveal_strlit("debug");
    reveal_strlit("dedupe");
    reveal_strlit("print");
    reveal_strlit("json");
    reveal_strlit("abs");
    reveal_strlit("enum");
    assert("fail"@.len() == 4);
    assert("any"@.len() == 3);
    assert("all"@.len() == 3);
    assert("bool"@.len() == 4);
    assert("chr"@.len() == 3);
    assert("dict"@.len() == 4);
    assert("dir"@.len() == 3);
    assert("enumerate"@.len() == 9);
    assert("getattr"@.len() == 7);
    assert("hasattr"@.len() == 7);
    assert("hash"@.len() == 4);
    assert("int"@.len() == 3);
    assert("len"@.len() == 3);
    assert("list"@.len() == 4);
    assert("max"@.len() == 3);
    assert("min"@.len() == 3);
    assert("ord"@.len() == 3);
    assert("range"@.len() == 5);
    assert("repr"@.len() == 4);
    assert("reversed"@.len() == 8);
    assert("sorted"@.len() == 6);
    assert("str"@.len() == 3);
    assert("tuple"@.len() == 5);
    assert("type"@.len() == 4);
    assert("zip"@.len() == 3);
    assert("filter"@.len() == 6);
    assert("map"@.len() == 3);
    assert("partial"@.len() == 7);
    assert("debug"@.len() == 5);
    assert("dedupe"@.len() == 6);
    assert("print"@.len() == 5);
    assert("json"@.len() == 4);
    assert("abs"@.len() == 3);
    assert("enum"@.len() == 4);
    match a {
        Builtin::Fail => {
            assert("fail"@[0] != "bool"@[0]);
            assert("fail"@[0] != "dict"@[0]);
            assert("fail"@[0] != "hash"@[0]);
            assert("fail"@[0] != "list"@[0]);
            assert("fail"@[0] != "repr"@[0]);
            assert("fail"@[0] != "type"@[0]);
            assert("fail"@[0] != "json"@[0]);
            assert("fail"@[0] != "enum"@[0]);
        },
        Builtin::Any => {
            assert("any"@[1] != "all"@[1]);
            assert("any"@[0] != "chr"@[0]);
            assert("any"@[0] != "dir"@[0]);
            assert("any"@[0] != "int"@[0]);
            assert("any"@[0] != "len"@[0]);
            assert("any"@[0] != "max"@[0]);
            assert("any"@[0] != "min"@[0]);
            assert("any"@[0] != "ord"@[0]);
            assert("any"@[0] != "str"@[0]);
            assert("any"@[0] != "zip"@[0]);
            assert("any"@[0] != "map"@[0]);
            assert("any"@[1] != "abs"@[1]);
        },
        Builtin::All => {
            assert("all"@[1] != "any"@[1]);
            assert("all"@[0] != "chr"@[0]);
            assert("all"@[0] != "dir"@[0]);
            assert("all"@[0] != "int"@[0]);
            assert("all"@[0] != "len"@[0]);
            assert("all"@[0] != "max"@[0]);
            assert("all"@[0] != "min"@[0]);
            assert("all"@[0] != "ord"@[0]);
            assert("all"@[0] != "str"@[0]);
            assert("all"@[0] != "zip"@[0]);
            assert("all"@[0] != "map"@[0]);
            assert("all"@[1] != "abs"@[1]);
        },
        Builtin::Bool => {
            assert("bool"@[0] != "fail"@[0]);
            assert("bool"@[0] != "dict"@[0]);
            assert("bool"@[0] != "hash"@[0]);
            assert("bool"@[0] != "list"@[0]);
            assert("bool"@[0] != "repr"@[0]);
            assert("bool"@[0] != "type"@[0]);
            assert("bool"@[0] != "json"@[0]);
            assert("bool"@[0] != "enum"@[0]);
        },
        Builtin::Chr => {
            assert("chr"@[0] != "any"@[0]);
            assert("chr"@[0] != "all"@[0]);
            assert("chr"@[0] != "dir"@[0]);
            assert("chr"@[0] != "int"@[0]);
            assert("chr"@[0] != "len"@[0]);
            assert("chr"@[0] != "max"@[0]);
            assert("chr"@[0] != "min"@[0]);
            assert("chr"@[0] != "ord"@[0]);
            assert("chr"@[0] != "str"@[0]);
            assert("chr"@[0] != "zip"@[0]);
            assert("chr"@[0] != "map"@[0]);
            assert("chr"@[0] != "abs"@[0]);
        },
        Builtin::Dict => {
            assert("dict"@[0] != "fail"@[0]);
            assert("dict"@[0] != "bool"@[0]);
            assert("dict"@[0] != "hash"@[0]);
            assert("dict"@[0] != "list"@[0]);
            assert("dict"@[0] != "repr"@[0]);
            assert("dict"@[0] != "type"@[0]);
            assert("dict"@[0] != "json"@[0]);
            assert("dict"@[0] != "enum"@[0]);
        },
        Builtin::Dir => {
            assert("dir"@[0] != "any"@[0]);
            assert("dir"@[0] != "all"@[0]);
            assert("dir"@[0] != "chr"@[0]);
            assert("dir"@[0] != "int"@[0]);
            assert("dir"@[0] != "len"@[0]);
            assert("dir"@[0] != "max"@[0]);
            assert("dir"@[0] != "min"@[0]);
            assert("dir"@[0] != "ord"@[0]);
            assert("dir"@[0] != "str"@[0]);
            assert("dir"@[0] != "zip"@[0]);
            assert("dir"@[0] != "map"@[0]);
            assert("dir"@[0] != "abs"@[0]);
        },
        Builtin::Enumerate => {
        },
        Builtin::Getattr => {
            assert("getattr"@[0] != "hasattr"@[0]);
            assert("getattr"@[0] != "partial"@[0]);
        },
        Builtin::Hasattr => {
            assert("hasattr"@[0] != "getattr"@[0]);
            assert("hasattr"@[0] != "partial"@[0]);
        },
        Builtin::Hash => {
            assert("hash"@[0] != "fail"@[0]);
            assert("hash"@[0] != "bool"@[0]);
            assert("hash"@[0] != "dict"@[0]);
            assert("hash"@[0] != "list"@[0]);
            assert("hash"@[0] != "repr"@[0]);
            assert("hash"@[0] != "type"@[0]);
            assert("hash"@[0] != "json"@[0]);
            assert("hash"@[0] != "enum"@[0]);
        },
        Builtin::Int => {
            assert("int"@[0] != "any"@[0]);
            assert("int"@[0] != "all"@[0]);
            assert("int"@[0] != "chr"@[0]);
            assert("int"@[0] != "dir"@[0]);
            assert("int"@[0] != "len"@[0]);
            assert("int"@[0] != "max"@[0]);
            assert("int"@[0] != "min"@[0]);
            assert("int"@[0] != "ord"@[0]);
            assert("int"@[0] != "str"@[0]);
            assert("int"@[0] != "zip"@[0]);
            assert("int"@[0] != "map"@[0]);
            assert("int"@[0] != "abs"@[0]);
        },
        Builtin::Len => {
            assert("len"@[0] != "any"@[0]);
            assert("len"@[0] != "all"@[0]);
            assert("len"@[0] != "chr"@[0]);
            assert("len"@[0] != "dir"@[0]);
            assert("len"@[0] != "int"@[0]);
            assert("len"@[0] != "max"@[0]);
            assert("len"@[0] != "min"@[0]);
            assert("len"@[0] != "ord"@[0]);
            assert("len"@[0] != "str"@[0]);
            assert("len"@[0] != "zip"@[0]);
            assert("len"@[0] != "map"@[0]);
            assert("len"@[0] != "abs"@[0]);
        },
        Builtin::List => {
            assert("list"@[0] != "fail"@[0]);
            assert("list"@[0] != "bool"@[0]);
            assert("list"@[0] != "dict"@[0]);
            assert("list"@[0] != "hash"@[0]);
            assert("list"@[0] != "repr"@[0]);
            assert("list"@[0] != "type"@[0]);
            assert("list"@[0] != "json"@[0]);
            assert("list"@[0] != "enum"@[0]);
        },
        Builtin::Max => {
            assert("max"@[0] != "any"@[0]);
            assert("max"@[0] != "all"@[0]);
            assert("max"@[0] != "chr"@[0]);
            assert("max"@[0] != "dir"@[0]);
            assert("max"@[0] != "int"@[0]);
            assert("max"@[0] != "len"@[0]);
            assert("max"@[1] != "min"@[1]);
            assert("max"@[0] != "ord"@[0]);
            assert("max"@[0] != "str"@[0]);
            assert("max"@[0] != "zip"@[0]);
            assert("max"@[2] != "map"@[2]);
            assert("max"@[0] != "abs"@[0]);
        },
        Builtin::Min => {
            assert("min"@[0] != "any"@[0]);
            assert("min"@[0] != "all"@[0]);
            assert("min"@[0] != "chr"@[0]);
            assert("min"@[0] != "dir"@[0]);
            assert("min"@[0] != "int"@[0]);
            assert("min"@[0] != "len"@[0]);
            assert("min"@[1] != "max"@[1]);
            assert("min"@[0] != "ord"@[0]);
            assert("min"@[0] != "str"@[0]);
            assert("min"@[0] != "zip"@[0]);
            assert("min"@[1] != "map"@[1]);
            assert("min"@[0] != "abs"@[0]);
        },
        Builtin::Ord => {
            assert("ord"@[0] != "any"@[0]);
            assert("ord"@[0] != "all"@[0]);
            assert("ord"@[0] != "chr"@[0]);
            assert("ord"@[0] != "dir"@[0]);
            assert("ord"@[0] != "int"@[0]);
            assert("ord"@[0] != "len"@[0]);
            assert("ord"@[0] != "max"@[0]);
            assert("ord"@[0] != "min"@[0]);
            assert("ord"@[0] != "str"@[0]);
            assert("ord"@[0] != "zip"@[0]);
            assert("ord"@[0] != "map"@[0]);
            assert("ord"@[0] != "abs"@[0]);
        },
        Builtin::Range => {
            assert("range"@[0] != "tuple"@[0]);
            assert("range"@[0] != "debug"@[0]);
            assert("range"@[0] != "print"@[0]);
        },
        Builtin::Repr => {
            assert("repr"@[0] != "fail"@[0]);
            assert("repr"@[0] != "bool"@[0]);
            assert("repr"@[0] != "dict"@[0]);
            assert("repr"@[0] != "hash"@[0]);
            assert("repr"@[0] != "list"@[0]);
            assert("repr"@[0] != "type"@[0]);
            assert("repr"@[0] != "json"@[0]);
            assert("repr"@[0] != "enum"@[0]);
        },
        Builtin::Reversed => {
        },
        Builtin::Sorted => {
            assert("sorted"@[0] != "filter"@[0]);
            assert("sorted"@[0] != "dedupe"@[0]);
        },
        Builtin::Str => {
            assert("str"@[0] != "any"@[0]);
            assert("str"@[0] != "all"@[0]);
            assert("str"@[0] != "chr"@[0]);
            assert("str"@[0] != "dir"@[0]);
            assert("str"@[0] != "int"@[0]);
            assert("str"@[0] != "len"@[0]);
            assert("str"@[0] != "max"@[0]);
            assert("str"@[0] != "min"@[0]);
            assert("str"@[0] != "ord"@[0]);
            assert("str"@[0] != "zip"@[0]);
            assert("str"@[0] != "map"@[0]);
            assert("str"@[0] != "abs"@[0]);
        },
        Builtin::Tuple => {
            assert("tuple"@[0] != "range"@[0]);
            assert("tuple"@[0] != "debug"@[0]);
            assert("tuple"@[0] != "print"@[0]);
        },
        Builtin::Type => {
            assert("type"@[0] != "fail"@[0]);
            assert("type"@[0] != "bool"@[0]);
            assert("type"@[0] != "dict"@[0]);
            assert("type"@[0] != "hash"@[0]);
            assert("type"@[0] != "list"@[0]);
            assert("type"@[0] != "repr"@[0]);
            assert("type"@[0] != "json"@[0]);
            assert("type"@[0] != "enum"@[0]);
        },
        Builtin::Zip => {
            assert("zip"@[0] != "any"@[0]);
            assert("zip"@[0] != "all"@[0]);
            assert("zip"@[0] != "chr"@[0]);
            assert("zip"@[0] != "dir"@[0]);
            assert("zip"@[0] != "int"@[0]);
            assert("zip"@[0] != "len"@[0]);
            assert("zip"@[0] != "max"@[0]);
            assert("zip"@[0] != "min"@[0]);
            assert("zip"@[0] != "ord"@[0]);
            assert("zip"@[0] != "str"@[0]);
            assert("zip"@[0] != "map"@[0]);
            assert("zip"@[0] != "abs"@[0]);
        },
        Builtin::Filter => {
            assert("filter"@[0] != "sorted"@[0]);
            assert("filter"@[0] != "dedupe"@[0]);
        },
        Builtin::MapEach => {
            assert("map"@[0] != "any"@[0]);
            assert("map"@[0] != "all"@[0]);
            assert("map"@[0] != "chr"@[0]);
            assert("map"@[0] != "dir"@[0]);
            assert("map"@[0] != "int"@[0]);
            assert("map"@[0] != "len"@[0]);
            assert("map"@[2] != "max"@[2]);
            assert("map"@[1] != "min"@[1]);
            assert("map"@[0] != "ord"@[0]);
            assert("map"@[0] != "str"@[0]);
            assert("map"@[0] != "zip"@[0]);
            assert("map"@[0] != "abs"@[0]);
        },
        Builtin::Partial => {
            assert("partial"@[0] != "getattr"@[0]);
            assert("partial"@[0] != "hasattr"@[0]);
        },
        Builtin::Debug => {
            assert("debug"@[0] != "range"@[0]);
            assert("debug"@[0] != "tuple"@[0]);
            assert("debug"@[0] != "print"@[0]);
        },
        Builtin::Dedupe => {
            assert("dedupe"@[0] != "sorted"@[0]);
            assert("dedupe"@[0] != "filter"@[0]);
        },
        Builtin::Print => {
            assert("print"@[0] != "range"@[0]);
            assert("print"@[0] != "tuple"@[0]);
            assert("print"@[0] != "debug"@[0]);
        },
        Builtin::Json => {
            assert("json"@[0] != "fail"@[0]);
            assert("json"@[0] != "bool"@[0]);
            assert("json"@[0] != "dict"@[0]);
            assert("json"@[0] != "hash"@[0]);
            assert("json"@[0] != "list"@[0]);
            assert("json"@[0] != "repr"@[0]);
            assert("json"@[0] != "type"@[0]);
            assert("json"@[0] != "enum"@[0]);
        },
        Builtin::Abs => {
            assert("abs"@[1] != "any"@[1]);
            assert("abs"@[1] != "all"@[1]);
            assert("abs"@[0] != "chr"@[0]);
            assert("abs"@[0] != "dir"@[0]);
            assert("abs"@[0] != "int"@[0]);
            assert("abs"@[0] != "len"@[0]);
            assert("abs"@[0] != "max"@[0]);
            assert("abs"@[0] != "min"@[0]);
            assert("abs"@[0] != "ord"@[0]);
            assert("abs"@[0] != "str"@[0]);
            assert("abs"@[0] != "zip"@[0]);
            assert("abs"@[0] != "map"@[0]);
        },
        Builtin::Enum => {
            assert("enum"@[0] != "fail"@[0]);
            assert("enum"@[0] != "bool"@[0]);
            assert("enum"@[0] != "dict"@[0]);
            assert("enum"@[0] != "hash"@[0]);
            assert("enum"@[0] != "list"@[0]);
            assert("enum"@[0] != "repr"@[0]);
            assert("enum"@[0] != "type"@[0]);
            assert("enum"@[0] != "json"@[0]);
        },
        _ => {},
    }
}

/// No two built-in functions that a program can call have the same name.
pub proof fn lemma_names_distinct()
    ensures
        forall|a: Builtin, b: Builtin|
            is_public(a) && is_public(b) && a != b ==> builtin_name(a) != builtin_name(b),
{
    assert forall|a: Builtin, b: Builtin| is_public(a) && is_public(b) && a != b implies builtin_name(
        a,
    ) != builtin_name(b) by {
        lemma_name_unique(a, b);
    }
}

/// The built-in functions that [`global_functions`] makes known, in order.
pub open spec fn standard(i: int) -> Builtin {
    if i == 0 {
        Builtin::Fail
    }     else if i == 1 {
        Builtin::Any
    }     else if i == 2 {
        Builtin::All
    }     else if i == 3 {
        Builtin::Bool
    }     else if i == 4 {
        Builtin::Chr
    }     else if i == 5 {
        Builtin::Dict
    }     else if i == 6 {
        Builtin::Dir
    }     else if i == 7 {
        Builtin::Enumerate
    }     else if i == 8 {
        Builtin::Getattr
    }     else if i == 9 {
        Builtin::Hasattr
    }     else if i == 10 {
        Builtin::Hash
    }     else if i == 11 {
        Builtin::Int
    }     else if i == 12 {
        Builtin::Len
    }     else if i == 13 {
        Builtin::List
    }     else if i == 14 {
        Builtin::Max
    }     else if i == 15 {
        Builtin::Min
    }     else if i == 16 {
        Builtin::Ord
    }     else if i == 17 {
        Builtin::Range
    }     else if i == 18 {
        Builtin::Repr
    }     else if i == 19 {
        Builtin::Reversed
    }     else if i == 20 {
        Builtin::Sorted
    }     else if i == 21 {
        Builtin::Str
    }     else if i == 22 {
        Builtin::Tuple
    }     else if i == 23 {
        Builtin::Type
    }     else if i == 24 {
        Builtin::Zip
    } else {
        Builtin::Zip
    }
}

/// The number of built-in functions that [`global_functions`] makes known.
pub const STANDARD: usize = 25;

/// The built-in function at `i` of the standard ones.
pub fn standard_at(i: usize) -> (b: Builtin)
    ensures
        b == standard(i as int),
{
    if i == 0 {
        Builtin::Fail
    }     else if i == 1 {
        Builtin::Any
    }     else if i == 2 {
        Builtin::All
    }     else if i == 3 {
        Builtin::Bool
    }     else if i == 4 {
        Builtin::Chr
    }     else if i == 5 {
        Builtin::Dict
    }     else if i == 6 {
        Builtin::Dir
    }     else if i == 7 {
        Builtin::Enumerate
    }     else if i == 8 {
        Builtin::Getattr
    }     else if i == 9 {
        Builtin::Hasattr
    }     else if i == 10 {
        Builtin::Hash
    }     else if i == 11 {
        Builtin::Int
    }     else if i == 12 {
        Builtin::Len
    }     else if i == 13 {
        Builtin::List
    }     else if i == 14 {
        Builtin::Max
    }     else if i == 15 {
        Builtin::Min
    }     else if i == 16 {
        Builtin::Ord
    }     else if i == 17 {
        Builtin::Range
    }     else if i == 18 {
        Builtin::Repr
    }     else if i == 19 {
        Builtin::Reversed
    }     else if i == 20 {
        Builtin::Sorted
    }     else if i == 21 {
        Builtin::Str
    }     else if i == 22 {
        Builtin::Tuple
    }     else if i == 23 {
        Builtin::Type
    }     else if i == 24 {
        Builtin::Zip
    } else {
        Builtin::Zip
    }
}

/// Each standard built-in function has its place in the order, and is public.
pub proof fn lemma_standard_complete(b: Builtin)
    requires
        is_standard(b),
    ensures
        exists|i: int| 0 <= i < STANDARD && #[trigger] standard(i) == b,
{
    if b == Builtin::Fail {
        assert(standard(0) == b);
    }
    if b == Builtin::Any {
        assert(standard(1) == b);
    }
    if b == Builtin::All {
        assert(standard(2) == b);
    }
    if b == Builtin::Bool {
        assert(standard(3) == b);
    }
    if b == Builtin::Chr {
        assert(standard(4) == b);
    }
    if b == Builtin::Dict {
        assert(standard(5) == b);
    }
    if b == Builtin::Dir {
        assert(standard(6) == b);
    }
    if b == Builtin::Enumerate {
        assert(standard(7) == b);
    }
    if b == Builtin::Getattr {
        assert(standard(8) == b);
    }
    if b == Builtin::Hasattr {
        assert(standard(9) == b);
    }
    if b == Builtin::Hash {
        assert(standard(10) == b);
    }
    if b == Builtin::Int {
        assert(standard(11) == b);
    }
    if b == Builtin::Len {
        assert(standard(12) == b);
    }
    if b == Builtin::List {
        assert(standard(13) == b);
    }
    if b == Builtin::Max {
        assert(standard(14) == b);
    }
    if b == Builtin::Min {
        assert(standard(15) == b);
    }
    if b == Builtin::Ord {
        assert(standard(16) == b);
    }
    if b == Builtin::Range {
        assert(standard(17) == b);
    }
    if b == Builtin::Repr {
        assert(standard(18) == b);
    }
    if b == Builtin::Reversed {
        assert(standard(19) == b);
    }
    if b == Builtin::Sorted {
        assert(standard(20) == b);
    }
    if b == Builtin::Str {
        assert(standard(21) == b);
    }
    if b == Builtin::Tuple {
        assert(standard(22) == b);
    }
    if b == Builtin::Type {
        assert(standard(23) == b);
    }
    if b == Builtin::Zip {
        assert(standard(24) == b);
    }
}

/// The standard functions and constants that are by default in every module: `None`,
/// `True` and `False`, and each standard built-in function under its name.
pub fn global_functions(builder: &mut GlobalsBuilder)
    ensures
        final(builder).globals.get_frozen_spec("None"@) == Some(FrozenValue::Nil),
        final(builder).globals.get_frozen_spec("True"@) == Some(FrozenValue::Bool(true)),
        final(builder).globals.get_frozen_spec("False"@) == Some(FrozenValue::Bool(false)),
        forall|b: Builtin| is_standard(b) ==> final(builder).has(builtin_name(b), b),
        final(builder).extends(*old(builder)),
        final(builder).globals.members == old(builder).globals.members,
{
    let mut i: usize = 0;
    while i < STANDARD
        invariant
            i <= STANDARD,
            builder.extends(*old(builder)),
            builder.globals.members == old(builder).globals.members,
            forall|j: int| 0 <= j < i ==> builder.has(builtin_name(standard(j)), standard(j)),
        decreases STANDARD - i,
    {
        let b = standard_at(i);
        let ghost before = *builder;
        builder.set_function(b);
        proof {
            lemma_names_distinct();
            assert forall|j: int| 0 <= j < i + 1 implies builder.has(
                builtin_name(standard(j)),
                standard(j),
            ) by {
                if j < i {
                    assert(before.has(builtin_name(standard(j)), standard(j)));
                    assert(standard(j) != b);
                    let v = before.globals.get_frozen_spec(builtin_name(standard(j))).unwrap();
                    lemma_denotes_extends(before, *builder, v, standard(j));
                }
            }
        }
        i += 1;
    }
    let ghost before = *builder;
    builder.set("None", FrozenValue::Nil);
    builder.set("True", FrozenValue::Bool(true));
    builder.set("False", FrozenValue::Bool(false));
    proof {
        lemma_constants_distinct();
        assert forall|b: Builtin| is_standard(b) implies builder.has(builtin_name(b), b) by {
            lemma_standard_complete(b);
            let j = choose|j: int| 0 <= j < STANDARD && #[trigger] standard(j) == b;
            assert(before.has(builtin_name(standard(j)), standard(j)));
        }
    }
}

/// The names of the constants are no names of built-in functions, and differ.
pub proof fn lemma_constants_distinct()
    ensures
        forall|b: Builtin| builtin_name(b) != "None"@,
        forall|b: Builtin| builtin_name(b) != "True"@,
        forall|b: Builtin| builtin_name(b) != "False"@,
        "None"@ != "True"@,
        "None"@ != "False"@,
        "True"@ != "False"@,
{
    reveal_strlit("None");
    reveal_strlit("True");
    reveal_strlit("False");
    reveal_strlit("append");
    reveal_strlit("keys");
    reveal_strlit("fail");
    reveal_strlit("any");
    reveal_strlit("all");
    reveal_strlit("bool");
    reveal_strlit("chr");
    reveal_strlit("dict");
    reveal_strlit("dir");
    reveal_strlit("enumerate");
    reveal_strlit("getattr");
    reveal_strlit("hasattr");
    reveal_strlit("hash");
    reveal_strlit("int");
    reveal_strlit("len");
    reveal_strlit("list");
    reveal_strlit("max");
    reveal_strlit("min");
    reveal_strlit("ord");
    reveal_strlit("range");
    reveal_strlit("repr");
    reveal_strlit("reversed");
    reveal_strlit("sorted");
    reveal_strlit("str");
    reveal_strlit("tuple");
    reveal_strlit("type");
    reveal_strlit("zip");
    reveal_strlit("filter");
    reveal_strlit("map");
    reveal_strlit("partial");
    reveal_strlit("debug");
    reveal_strlit("dedupe");
    reveal_strlit("print");
    reveal_strlit("json");
    reveal_strlit("abs");
    reveal_strlit("enum");
    assert("None"@[0] != "fail"@[0]);
    assert("None"@[0] != "bool"@[0]);
    assert("None"@[0] != "dict"@[0]);
    assert("None"@[0] != "hash"@[0]);
    assert("None"@[0] != "list"@[0]);
    assert("None"@[0] != "repr"@[0]);
    assert("None"@[0] != "type"@[0]);
    assert("None"@[0] != "json"@[0]);
    assert("None"@[0] != "enum"@[0]);
    assert("None"@[0] != "keys"@[0]);
    assert("True"@[0] != "fail"@[0]);
    assert("True"@[0] != "bool"@[0]);
    assert("True"@[0] != "dict"@[0]);
    assert("True"@[0] != "hash"@[0]);
    assert("True"@[0] != "list"@[0]);
    assert("True"@[0] != "repr"@[0]);
    assert("True"@[0] != "type"@[0]);
    assert("True"@[0] != "json"@[0]);
    assert("True"@[0] != "enum"@[0]);
    assert("True"@[0] != "keys"@[0]);
    assert("False"@[0] != "range"@[0]);
    assert("False"@[0] != "tuple"@[0]);
    assert("False"@[0] != "debug"@[0]);
    assert("False"@[0] != "print"@[0]);
    assert("fail"@.len() == 4);
    assert("any"@.len() == 3);
    assert("all"@.len() == 3);
    assert("bool"@.len() == 4);
    assert("chr"@.len() == 3);
    assert("dict"@.len() == 4);
    assert("dir"@.len() == 3);
    assert("enumerate"@.len() == 9);
    assert("getattr"@.len() == 7);
    assert("hasattr"@.len() == 7);
    assert("hash"@.len() == 4);
    assert("int"@.len() == 3);
    assert("len"@.len() == 3);
    assert("list"@.len() == 4);
    assert("max"@.len() == 3);
    assert("min"@.len() == 3);
    assert("ord"@.len() == 3);
    assert("range"@.len() == 5);
    assert("repr"@.len() == 4);
    assert("reversed"@.len() == 8);
    assert("sorted"@.len() == 6);
    assert("str"@.len() == 3);
    assert("tuple"@.len() == 5);
    assert("type"@.len() == 4);
    assert("zip"@.len() == 3);
    assert("filter"@.len() == 6);
    assert("map"@.len() == 3);
    assert("partial"@.len() == 7);
    assert("debug"@.len() == 5);
    assert("dedupe"@.len() == 6);
    assert("print"@.len() == 5);
    assert("json"@.len() == 4);
    assert("abs"@.len() == 3);
    assert("enum"@.len() == 4);
    assert("append"@.len() == 6);
    assert("keys"@.len() == 4);
    assert("None"@.len() == 4);
    assert("True"@.len() == 4);
    assert("False"@.len() == 5);
    assert("None"@[0] != "True"@[0]);
}

/// Makes known the function `filter`, which keeps the values of a sequence for which a function gives a true value.
pub fn filter(builder: &mut GlobalsBuilder)
    ensures
        final(builder).has(builtin_name(Builtin::Filter), Builtin::Filter),
        final(builder).extends(*old(builder)),
        forall|other: Seq<char>|
            other != builtin_name(Builtin::Filter) ==> final(builder).globals.get_frozen_spec(other)
                == old(builder).globals.get_frozen_spec(other),
        final(builder).globals.members == old(builder).globals.members,
{
    builder.set_function(Builtin::Filter);
}

/// Makes known the function `map`, which applies a function to each value of a sequence.
pub fn map(builder: &mut GlobalsBuilder)
    ensures
        final(builder).has(builtin_name(Builtin::MapEach), Builtin::MapEach),
        final(builder).extends(*old(builder)),
        forall|other: Seq<char>|
            other != builtin_name(Builtin::MapEach) ==> final(builder).globals.get_frozen_spec(other)
                == old(builder).globals.get_frozen_spec(other),
        final(builder).globals.members == old(builder).globals.members,
{
    builder.set_function(Builtin::MapEach);
}

/// Makes known the function `partial`, which holds some of the arguments of a function.
pub fn partial(builder: &mut GlobalsBuilder)
    ensures
        final(builder).has(builtin_name(Builtin::Partial), Builtin::Partial),
        final(builder).extends(*old(builder)),
        forall|other: Seq<char>|
            other != builtin_name(Builtin::Partial) ==> final(builder).globals.get_frozen_spec(other)
                == old(builder).globals.get_frozen_spec(other),
        final(builder).globals.members == old(builder).globals.members,
{
    builder.set_function(Builtin::Partial);
}

/// Makes known the function `debug`, which shows a value with full debug formatting.
pub fn debug(builder: &mut GlobalsBuilder)
    ensures
        final(builder).has(builtin_name(Builtin::Debug), Builtin::Debug),
        final(builder).extends(*old(builder)),
        forall|other: Seq<char>|
            other != builtin_name(Builtin::Debug) ==> final(builder).globals.get_frozen_spec(other)
                == old(builder).globals.get_frozen_spec(other),
        final(builder).globals.members == old(builder).globals.members,
{
    builder.set_function(Builtin::Debug);
}

/// Makes known the function `dedupe`, which removes the duplicates of a list, by the identity of the values.
pub fn dedupe(builder: &mut GlobalsBuilder)
    ensures
        final(builder).has(builtin_name(Builtin::Dedupe), Builtin::Dedupe),
        final(builder).extends(*old(builder)),
        forall|other: Seq<char>|
            other != builtin_name(Builtin::Dedupe) ==> final(builder).globals.get_frozen_spec(other)
                == old(builder).globals.get_frozen_spec(other),
        final(builder).globals.members == old(builder).globals.members,
{
    builder.set_function(Builtin::Dedupe);
}

/// Makes known the function `print`, which prints its arguments.
pub fn print(builder: &mut GlobalsBuilder)
    ensures
        final(builder).has(builtin_name(Builtin::Print), Builtin::Print),
        final(builder).extends(*old(builder)),
        forall|other: Seq<char>|
            other != builtin_name(Builtin::Print) ==> final(builder).globals.get_frozen_spec(other)
                == old(builder).globals.get_frozen_spec(other),
        final(builder).globals.members == old(builder).globals.members,
{
    builder.set_function(Builtin::Print);
}

/// Makes known the function `json`, which shows a value as JSON.
pub fn json(builder: &mut GlobalsBuilder)
    ensures
        final(builder).has(builtin_name(Builtin::Json), Builtin::Json),
        final(builder).extends(*old(builder)),
        forall|other: Seq<char>|
            other != builtin_name(Builtin::Json) ==> final(builder).globals.get_frozen_spec(other)
                == old(builder).globals.get_frozen_spec(other),
        final(builder).globals.members == old(builder).globals.members,
{
    builder.set_function(Builtin::Json);
}

/// Makes known the function `abs`, which gives the absolute value of an integer.
pub fn abs(builder: &mut GlobalsBuilder)
    ensures
        final(builder).has(builtin_name(Builtin::Abs), Builtin::Abs),
        final(builder).extends(*old(builder)),
        forall|other: Seq<char>|
            other != builtin_name(Builtin::Abs) ==> final(builder).globals.get_frozen_spec(other)
                == old(builder).globals.get_frozen_spec(other),
        final(builder).globals.members == old(builder).globals.members,
{
    builder.set_function(Builtin::Abs);
}

/// Makes known the function `enum`, which makes an enumeration type.
pub fn enumeration(builder: &mut GlobalsBuilder)
    ensures
        final(builder).has(builtin_name(Builtin::Enum), Builtin::Enum),
        final(builder).extends(*old(builder)),
        forall|other: Seq<char>|
            other != builtin_name(Builtin::Enum) ==> final(builder).globals.get_frozen_spec(other)
                == old(builder).globals.get_frozen_spec(other),
        final(builder).globals.members == old(builder).globals.members,
{
    builder.set_function(Builtin::Enum);
}

/// Makes known the methods of the built-in types: `append` of lists and `keys` of
/// dictionaries.
pub fn methods(builder: &mut GlobalsBuilder)
    ensures
        final(builder).has_member("list"@, builtin_name(Builtin::ListAppend), Builtin::ListAppend),
        final(builder).has_member("dict"@, builtin_name(Builtin::DictKeys), Builtin::DictKeys),
        final(builder).extends(*old(builder)),
        final(builder).globals.names == old(builder).globals.names,
{
    builder.set_method("list", Builtin::ListAppend);
    let ghost before = *builder;
    builder.set_method("dict", Builtin::DictKeys);
    proof {
        reveal_strlit("list");
        reveal_strlit("dict");
        assert("list"@[0] != "dict"@[0]);
        let v = before.globals.member_spec("list"@, builtin_name(Builtin::ListAppend)).unwrap();
        lemma_denotes_extends(before, *builder, v, Builtin::ListAppend);
    }
}

} // verus!
