//! Values: word-sized tagged references into the two heaps.
//!
//! A value is `None`, a boolean, a 32-bit integer, a pointer to an entry of the frozen heap,
//! or a pointer to an entry of the mutable heap. A pointer into the mutable heap may carry a
//! user tag, which marks it as the address of an indirection cell.
use vstd::prelude::*;

verus! {

/// A value that can never change: it holds no pointer into a mutable heap.
#[derive(Clone, Copy, PartialEq, Eq, Structural, Debug)]
pub enum FrozenValue {
    /// The singleton `None`.
    Nil,
    Bool(bool),
    Int(i32),
    /// The entry of the frozen heap at this index.
    Ptr(usize),
}

/// A value of the language, valid for the heaps that produced it.
#[derive(Clone, Copy, PartialEq, Eq, Structural, Debug)]
pub enum Value {
    /// The singleton `None`.
    Nil,
    Bool(bool),
    Int(i32),
    /// The entry of the frozen heap at this index.
    Frozen(usize),
    /// The entry of the mutable heap at this index.
    Heap(usize),
    /// The entry of the mutable heap at this index, with the user tag set: an indirection
    /// cell. Such a value is held by variable slots only.
    Cell(usize),
}

/// The two low bits of the word that encodes a value.
pub open spec fn tag_bits(word: u128) -> int {
    word as int % 4
}

impl Value {
    /// The word that encodes this value. Pointers are shifted left by three bits; the two low
    /// bits are 00 for a frozen pointer, 01 for a mutable one, 10 for `None` and 11 for a
    /// boolean. The third bit is the user tag of a mutable pointer, the value of a boolean,
    /// and tells an integer from `None`; an integer is stored above it, offset by 2^31.
    pub open spec fn word(self) -> u128 {
        match self {
            Value::Frozen(i) => (8 * i) as u128,
            Value::Heap(i) => (8 * i + 1) as u128,
            Value::Cell(i) => (8 * i + 5) as u128,
            Value::Nil => 2,
            Value::Bool(b) => if b { 7 } else { 3 },
            Value::Int(x) => (8 * (x + 0x8000_0000) + 6) as u128,
        }
    }

    /// Does this value live outside the mutable heap?
    pub open spec fn is_frozen(self) -> bool {
        !(self is Heap) && !(self is Cell)
    }

    /// Create a new `None` value.
    pub fn new_none() -> (v: Value)
        ensures
            v == Value::Nil,
    {
        Value::Nil
    }

    /// Create a new boolean.
    pub fn new_bool(x: bool) -> (v: Value)
        ensures
            v == Value::Bool(x),
    {
        Value::Bool(x)
    }

    /// Create a new integer.
    pub fn new_int(x: i32) -> (v: Value)
        ensures
            v == Value::Int(x),
    {
        Value::Int(x)
    }

    /// Turn a [`FrozenValue`] into a [`Value`].
    pub fn new_frozen(x: FrozenValue) -> (v: Value)
        ensures
            v == x.to_value_spec(),
    {
        match x {
            FrozenValue::Nil => Value::Nil,
            FrozenValue::Bool(b) => Value::Bool(b),
            FrozenValue::Int(i) => Value::Int(i),
            FrozenValue::Ptr(p) => Value::Frozen(p),
        }
    }

    /// The frozen value that this value is, unless it points into the mutable heap.
    pub open spec fn unpack_frozen_spec(self) -> Option<FrozenValue> {
        match self {
            Value::Nil => Some(FrozenValue::Nil),
            Value::Bool(b) => Some(FrozenValue::Bool(b)),
            Value::Int(i) => Some(FrozenValue::Int(i)),
            Value::Frozen(p) => Some(FrozenValue::Ptr(p)),
            _ => None,
        }
    }

    /// Obtain the underlying [`FrozenValue`] from inside the [`Value`], if it is one.
    pub fn unpack_frozen(self) -> (r: Option<FrozenValue>)
        ensures
            r == self.unpack_frozen_spec(),
            r is Some <==> self.is_frozen(),
    {
        match self {
            Value::Nil => Some(FrozenValue::Nil),
            Value::Bool(b) => Some(FrozenValue::Bool(b)),
            Value::Int(i) => Some(FrozenValue::Int(i)),
            Value::Frozen(p) => Some(FrozenValue::Ptr(p)),
            _ => None,
        }
    }

    /// Is this value `None`.
    pub fn is_none(self) -> (r: bool)
        ensures
            r == (self == Value::Nil),
    {
        match self {
            Value::Nil => true,
            _ => false,
        }
    }

    /// Obtain the underlying `bool` if it is a boolean.
    pub fn unpack_bool(self) -> (r: Option<bool>)
        ensures
            r == (match self {
                Value::Bool(b) => Some(b),
                _ => None,
            }),
    {
        match self {
            Value::Bool(b) => Some(b),
            _ => None,
        }
    }

    /// Obtain the underlying `int` if it is an integer.
    pub fn unpack_int(self) -> (r: Option<i32>)
        ensures
            r == (match self {
                Value::Int(i) => Some(i),
                _ => None,
            }),
    {
        match self {
            Value::Int(i) => Some(i),
            _ => None,
        }
    }

    /// Are two values the same word: the same inline value, or the same address.
    pub fn ptr_eq(self, other: Value) -> (r: bool)
        ensures
            r == (self == other),
    {
        self == other
    }

    /// The word that encodes this value, for use as a key by identity.
    pub fn ptr_value(self) -> (w: u128)
        ensures
            w == self.word(),
    {
        match self {
            Value::Frozen(i) => 8 * (i as u128),
            Value::Heap(i) => 8 * (i as u128) + 1,
            Value::Cell(i) => 8 * (i as u128) + 5,
            Value::Nil => 2,
            Value::Bool(b) => if b {
                7
            } else {
                3
            },
            Value::Int(x) => 8 * ((x as i64 + 0x8000_0000) as u128) + 6,
        }
    }
}

/// The three low bits of the word of a value, and the rest of it.
pub proof fn lemma_word_parts(a: Value)
    ensures
        a.word() as int % 8 == (match a {
            Value::Frozen(_) => 0int,
            Value::Heap(_) => 1,
            Value::Cell(_) => 5,
            Value::Nil => 2,
            Value::Bool(b) => if b {
                7
            } else {
                3
            },
            Value::Int(_) => 6,
        }),
        a.word() as int / 8 == (match a {
            Value::Frozen(i) => i as int,
            Value::Heap(i) => i as int,
            Value::Cell(i) => i as int,
            Value::Nil => 0,
            Value::Bool(_) => 0,
            Value::Int(x) => x + 0x8000_0000,
        }),
{
    match a {
        Value::Frozen(i) => {
            assert((8 * i) % 8 == 0 && (8 * i) / 8 == i) by (nonlinear_arith);
        },
        Value::Heap(i) => {
            assert((8 * i + 1) % 8 == 1 && (8 * i + 1) / 8 == i) by (nonlinear_arith);
        },
        Value::Cell(i) => {
            assert((8 * i + 5) % 8 == 5 && (8 * i + 5) / 8 == i) by (nonlinear_arith);
        },
        Value::Int(x) => {
            let p = x + 0x8000_0000;
            assert((8 * p + 6) % 8 == 6 && (8 * p + 6) / 8 == p) by (nonlinear_arith);
        },
        _ => {},
    }
}

/// The encoding of values as words follows the tag table, and loses nothing: two values
/// with the same word are the same value.
pub proof fn lemma_word_encoding(a: Value, b: Value)
    ensures
        a is Frozen ==> tag_bits(a.word()) == 0,
        a is Heap || a is Cell ==> tag_bits(a.word()) == 1,
        a is Nil || a is Int ==> tag_bits(a.word()) == 2,
        a is Bool ==> tag_bits(a.word()) == 3,
        a.word() == b.word() ==> a == b,
{
    lemma_word_parts(a);
    lemma_word_parts(b);
    let w = a.word() as int;
    assert(w % 4 == (w % 8) % 4) by (nonlinear_arith)
        requires
            w >= 0,
    ;
}

impl FrozenValue {
    /// This value as a [`Value`].
    pub open spec fn to_value_spec(self) -> Value {
        match self {
            FrozenValue::Nil => Value::Nil,
            FrozenValue::Bool(b) => Value::Bool(b),
            FrozenValue::Int(i) => Value::Int(i),
            FrozenValue::Ptr(p) => Value::Frozen(p),
        }
    }

    /// Create a new value representing `None`.
    pub fn new_none() -> (v: FrozenValue)
        ensures
            v == FrozenValue::Nil,
    {
        FrozenValue::Nil
    }

    /// Create a new boolean.
    pub fn new_bool(x: bool) -> (v: FrozenValue)
        ensures
            v == FrozenValue::Bool(x),
    {
        FrozenValue::Bool(x)
    }

    /// Create a new integer.
    pub fn new_int(x: i32) -> (v: FrozenValue)
        ensures
            v == FrozenValue::Int(x),
    {
        FrozenValue::Int(x)
    }

    /// Is a value `None`.
    pub fn is_none(self) -> (r: bool)
        ensures
            r == (self == FrozenValue::Nil),
    {
        match self {
            FrozenValue::Nil => true,
            _ => false,
        }
    }

    /// Return the `bool` if the value is a boolean, otherwise `None`.
    pub fn unpack_bool(self) -> (r: Option<bool>)
        ensures
            r == self.to_value_spec().unpack_bool_spec(),
    {
        match self {
            FrozenValue::Bool(b) => Some(b),
            _ => None,
        }
    }

    /// Return the int if the value is an integer, otherwise `None`.
    pub fn unpack_int(self) -> (r: Option<i32>)
        ensures
            r == self.to_value_spec().unpack_int_spec(),
    {
        match self {
            FrozenValue::Int(i) => Some(i),
            _ => None,
        }
    }

    /// This value as a [`Value`]: the same word.
    pub fn to_value(self) -> (v: Value)
        ensures
            v == self.to_value_spec(),
            v.is_frozen(),
            v.unpack_frozen_spec() == Some(self),
    {
        Value::new_frozen(self)
    }
}

impl Value {
    pub open spec fn unpack_bool_spec(self) -> Option<bool> {
        match self {
            Value::Bool(b) => Some(b),
            _ => None,
        }
    }

    pub open spec fn unpack_int_spec(self) -> Option<i32> {
        match self {
            Value::Int(i) => Some(i),
            _ => None,
        }
    }
}

} // verus!
