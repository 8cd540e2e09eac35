//! The objects that live on a heap, and their mathematical content.
use vstd::prelude::*;
use crate::params::{ParametersSpec, Signature, names_view};
use crate::value::{FrozenValue, Value};

verus! {

/// The integers from `start` towards `stop`, `step` apart. The step is never zero.
#[derive(Clone, Copy, PartialEq, Eq, Structural, Debug)]
pub struct Range {
    pub start: i32,
    pub stop: i32,
    pub step: i32,
}

/// The functions that the engine itself provides.
#[derive(Clone, Copy, PartialEq, Eq, Structural, Debug)]
pub enum Builtin {
    Fail,
    Any,
    All,
    Bool,
    Chr,
    Dict,
    Dir,
    Enumerate,
    Getattr,
    Hasattr,
    Hash,
    Int,
    Len,
    List,
    Max,
    Min,
    Ord,
    Range,
    Repr,
    Reversed,
    Sorted,
    Str,
    Tuple,
    Type,
    Zip,
    Filter,
    MapEach,
    Partial,
    Debug,
    Dedupe,
    Print,
    Json,
    Abs,
    Enum,
    /// The constructor that every enumeration type carries.
    EnumConstructor,
    /// The method `append` of lists.
    ListAppend,
    /// The method `keys` of dictionaries.
    DictKeys,
}

/// The accessors that pretend to be attributes.
#[derive(Clone, Copy, PartialEq, Eq, Structural, Debug)]
pub enum Accessor {
    /// The number of elements of the receiver.
    Length,
}

/// A function of the engine, as a value.
#[derive(Debug)]
pub struct NativeFunction {
    pub function: Builtin,
    pub name: String,
    pub parameters: ParametersSpec,
    pub typ: Option<FrozenValue>,
}

/// A function that pretends to be an attribute: reading the attribute calls it.
#[derive(Clone, Copy, PartialEq, Eq, Structural, Debug)]
pub struct NativeAttribute {
    pub function: Accessor,
}

/// A wrapper for a method with a self object already bound.
#[derive(Clone, Copy, PartialEq, Eq, Structural, Debug)]
pub struct BoundMethodGen {
    pub method: Value,
    pub this: Value,
}

/// A function with some of its arguments already given.
#[derive(Debug)]
pub struct PartialGen {
    pub func: Value,
    pub pos: Vec<Value>,
    pub named: Vec<Value>,
    pub names: Vec<(String, Value)>,
    pub signature: ParametersSpec,
}

/// The type of an enumeration.
#[derive(Debug)]
pub struct EnumTypeGen {
    pub typ: Option<String>,
    /// For each element, in declaration order: its value, and the enumeration value for it.
    pub elements: Vec<(Value, Value)>,
    /// The function that constructs a value of the enumeration.
    pub constructor: Value,
}

/// A value from an enumeration.
#[derive(Clone, Copy, PartialEq, Eq, Structural, Debug)]
pub struct EnumValueGen {
    /// The enumeration type it belongs to.
    pub typ: Value,
    /// The value of this element.
    pub value: Value,
    /// The index in the enumeration.
    pub index: i32,
}

/// A function defined by the program.
#[derive(Debug)]
pub struct Def {
    pub name: String,
    /// The parameters, their defaults evaluated.
    pub parameters: ParametersSpec,
    /// The index of the body in the code of the module.
    pub code: usize,
    /// The variables captured from the enclosing scope: the slot in a frame of this
    /// function, and the indirection cell that the slot shares.
    pub captured: Vec<(usize, Value)>,
}

/// An object on a heap.
#[derive(Debug)]
pub enum Object {
    List(Vec<Value>),
    Tuple(Vec<Value>),
    Dict(Vec<(Value, Value)>),
    Range(Range),
    NativeFunction(NativeFunction),
    NativeAttribute(NativeAttribute),
    BoundMethod(BoundMethodGen),
    Partial(PartialGen),
    EnumType(EnumTypeGen),
    EnumValue(EnumValueGen),
    Def(Def),
}

/// A bound method of the mutable heap.
pub type BoundMethod = BoundMethodGen;

/// An enumeration type of the mutable heap.
pub type EnumType = EnumTypeGen;

/// An enumeration value of the mutable heap.
pub type EnumValue = EnumValueGen;

/// A partial application of the mutable heap.
pub type Partial = PartialGen;

/// The content of a [`NativeFunction`].
pub struct NativeView {
    pub function: Builtin,
    pub name: Seq<char>,
    pub parameters: Signature,
    pub typ: Option<FrozenValue>,
}

/// The content of a [`PartialGen`].
pub struct PartialView {
    pub func: Value,
    pub pos: Seq<Value>,
    pub named: Seq<Value>,
    pub names: Seq<(Seq<char>, Value)>,
    pub signature: Signature,
}

/// The content of an [`EnumTypeGen`].
pub struct EnumTypeView {
    pub typ: Option<Seq<char>>,
    pub elements: Seq<(Value, Value)>,
    pub constructor: Value,
}

/// The content of a [`Def`].
pub struct DefView {
    pub name: Seq<char>,
    pub parameters: Signature,
    pub code: int,
    pub captured: Seq<(usize, Value)>,
}

/// The content of an [`Object`].
pub enum Obj {
    List(Seq<Value>),
    Tuple(Seq<Value>),
    Dict(Seq<(Value, Value)>),
    Range(Range),
    Native(NativeView),
    Attribute(NativeAttribute),
    Bound(BoundMethodGen),
    Partial(PartialView),
    EnumType(EnumTypeView),
    EnumValue(EnumValueGen),
    Def(DefView),
}

impl View for NativeFunction {
    type V = NativeView;

    open spec fn view(&self) -> NativeView {
        NativeView {
            function: self.function,
            name: self.name@,
            parameters: self.parameters@,
            typ: self.typ,
        }
    }
}

impl View for PartialGen {
    type V = PartialView;

    open spec fn view(&self) -> PartialView {
        PartialView {
            func: self.func,
            pos: self.pos@,
            named: self.named@,
            names: names_view(self.names@),
            signature: self.signature@,
        }
    }
}

impl View for EnumTypeGen {
    type V = EnumTypeView;

    open spec fn view(&self) -> EnumTypeView {
        EnumTypeView {
            typ: match self.typ {
                Some(s) => Some(s@),
                None => None,
            },
            elements: self.elements@,
            constructor: self.constructor,
        }
    }
}

impl View for Def {
    type V = DefView;

    open spec fn view(&self) -> DefView {
        DefView {
            name: self.name@,
            parameters: self.parameters@,
            code: self.code as int,
            captured: self.captured@,
        }
    }
}

impl View for Object {
    type V = Obj;

    open spec fn view(&self) -> Obj {
        match self {
            Object::List(v) => Obj::List(v@),
            Object::Tuple(v) => Obj::Tuple(v@),
            Object::Dict(v) => Obj::Dict(v@),
            Object::Range(r) => Obj::Range(*r),
            Object::NativeFunction(f) => Obj::Native(f@),
            Object::NativeAttribute(a) => Obj::Attribute(*a),
            Object::BoundMethod(b) => Obj::Bound(*b),
            Object::Partial(p) => Obj::Partial(p@),
            Object::EnumType(t) => Obj::EnumType(t@),
            Object::EnumValue(v) => Obj::EnumValue(*v),
            Object::Def(d) => Obj::Def(d@),
        }
    }
}

/// The first components of a sequence of pairs.
pub open spec fn firsts(pairs: Seq<(Value, Value)>) -> Seq<Value> {
    Seq::new(pairs.len(), |i: int| pairs[i].0)
}

/// The second components of a sequence of pairs.
pub open spec fn seconds(pairs: Seq<(Value, Value)>) -> Seq<Value> {
    Seq::new(pairs.len(), |i: int| pairs[i].1)
}

impl Obj {
    /// The values that this object refers to.
    pub open spec fn values(self) -> Seq<Value> {
        match self {
            Obj::List(v) => v,
            Obj::Tuple(v) => v,
            Obj::Dict(v) => firsts(v) + seconds(v),
            Obj::Range(_) => seq![],
            Obj::Native(f) => seq![],
            Obj::Attribute(_) => seq![],
            Obj::Bound(b) => seq![b.method, b.this],
            Obj::Partial(p) => seq![p.func] + p.pos + p.named + Seq::new(
                p.names.len(),
                |i: int| p.names[i].1,
            ),
            Obj::EnumType(t) => seq![t.constructor] + firsts(t.elements) + seconds(t.elements),
            Obj::EnumValue(v) => seq![v.typ, v.value],
            Obj::Def(d) => Seq::new(d.captured.len(), |i: int| d.captured[i].1),
        }
    }

    /// Can this object change after it is made? Lists, dictionaries and enumeration types
    /// can.
    pub open spec fn is_mutable(self) -> bool {
        self is List || self is Dict || self is EnumType
    }

    /// Does this object refer to no other value? Such an object is stored as it is on
    /// either heap.
    pub open spec fn is_simple(self) -> bool {
        self is Range || self is Native || self is Attribute
    }

    /// The name of the type of this object.
    pub open spec fn kind_name(self) -> Seq<char> {
        match self {
            Obj::List(_) => "list"@,
            Obj::Tuple(_) => "tuple"@,
            Obj::Dict(_) => "dict"@,
            Obj::Range(_) => "range"@,
            Obj::Attribute(_) => "attribute"@,
            Obj::EnumValue(_) => "enum"@,
            _ => "function"@,
        }
    }
}

impl Object {
    /// Can this object change after it is made?
    pub fn is_mutable(&self) -> (r: bool)
        ensures
            r == self@.is_mutable(),
    {
        match self {
            Object::List(_) => true,
            Object::Dict(_) => true,
            Object::EnumType(_) => true,
            _ => false,
        }
    }

    /// Does this object refer to no other value?
    pub fn is_simple(&self) -> (r: bool)
        ensures
            r == self@.is_simple(),
    {
        match self {
            Object::Range(_) => true,
            Object::NativeFunction(_) => true,
            Object::NativeAttribute(_) => true,
            _ => false,
        }
    }

    /// The name of the type of this object.
    pub fn get_type(&self) -> (r: &'static str)
        ensures
            r@ == self@.kind_name(),
    {
        match self {
            Object::List(_) => "list",
            Object::Tuple(_) => "tuple",
            Object::Dict(_) => "dict",
            Object::Range(_) => "range",
            Object::NativeAttribute(_) => "attribute",
            Object::EnumValue(_) => "enum",
            _ => "function",
        }
    }
}

} // verus!
