//! The operations that every value supports: truth, type name, length, iteration.
use vstd::prelude::*;
use crate::errors::{agrees, Error, ErrorKind};
use crate::heap::{ARef, Memory, Store, Target};
use crate::object::{seconds, firsts, Obj, Object, Range};
use crate::value::Value;

verus! {

/// How far `cur` is from `stop` in the direction of `step`; zero once it has met or passed it.
pub open spec fn range_gap(cur: int, stop: int, step: int) -> nat {
    if step > 0 && cur < stop {
        (stop - cur) as nat
    } else if step < 0 && cur > stop {
        (cur - stop) as nat
    } else {
        0
    }
}

/// The integers of a range from `cur` on: `cur`, then `cur + step`, and so on, as long as
/// they are before `stop` in the direction of `step`.
pub open spec fn range_items(cur: int, stop: int, step: int) -> Seq<Value>
    decreases range_gap(cur, stop, step),
{
    if (step > 0 && cur < stop) || (step < 0 && cur > stop) {
        seq![Value::Int(cur as i32)] + range_items(cur + step, stop, step)
    } else {
        seq![]
    }
}

/// How many integers a range from `cur` has.
pub open spec fn range_count(cur: int, stop: int, step: int) -> int {
    if step > 0 && cur < stop {
        (stop - cur - 1) / step + 1
    } else if step < 0 && cur > stop {
        (cur - stop - 1) / (-step) + 1
    } else {
        0
    }
}

/// A range has as many items as the closed form says.
pub proof fn lemma_range_count(cur: int, stop: int, step: int)
    ensures
        range_items(cur, stop, step).len() == range_count(cur, stop, step),
    decreases range_gap(cur, stop, step),
{
    if step > 0 && cur < stop {
        lemma_range_count(cur + step, stop, step);
        if cur + step < stop {
            assert((stop - cur - 1) / step == (stop - (cur + step) - 1) / step + 1)
                by (nonlinear_arith)
                requires
                    step > 0,
                    cur + step < stop,
            ;
        } else {
            assert((stop - cur - 1) / step == 0) by (nonlinear_arith)
                requires
                    step > 0,
                    cur < stop,
                    cur + step >= stop,
            ;
        }
    } else if step < 0 && cur > stop {
        lemma_range_count(cur + step, stop, step);
        let m = -step;
        if cur + step > stop {
            assert((cur - stop - 1) / m == ((cur - m) - stop - 1) / m + 1) by (nonlinear_arith)
                requires
                    m > 0,
                    cur - m > stop,
            ;
        } else {
            assert((cur - stop - 1) / m == 0) by (nonlinear_arith)
                requires
                    m > 0,
                    cur > stop,
                    cur - m <= stop,
            ;
        }
    }
}

impl Range {
    /// The integers of this range, in order.
    pub open spec fn items(self) -> Seq<Value> {
        range_items(self.start as int, self.stop as int, self.step as int)
    }

    /// How many integers this range has.
    pub open spec fn count(self) -> int {
        range_count(self.start as int, self.stop as int, self.step as int)
    }

    /// How many integers this range has.
    pub fn len(&self) -> (n: i64)
        ensures
            n == self.count(),
            n == self.items().len(),
            0 <= n <= 0x1_0000_0000,
    {
        proof {
            lemma_range_count(self.start as int, self.stop as int, self.step as int);
        }
        let start = self.start as i64;
        let stop = self.stop as i64;
        let step = self.step as i64;
        if step > 0 && start < stop {
            (stop - start - 1) / step + 1
        } else if step < 0 && start > stop {
            (start - stop - 1) / (-step) + 1
        } else {
            0
        }
    }

    /// The integers of this range, in order.
    pub fn to_vec(&self) -> (out: Vec<Value>)
        ensures
            out@ == self.items(),
    {
        let stop = self.stop as i64;
        let step = self.step as i64;
        let mut cur: i64 = self.start as i64;
        let mut out: Vec<Value> = Vec::new();
        while (step > 0 && cur < stop) || (step < 0 && cur > stop)
            invariant
                stop == self.stop,
                step == self.step,
                i32::MIN <= cur <= i32::MAX || !((step > 0 && cur < stop) || (step < 0 && cur
                    > stop)),
                -0x1_0000_0000 <= cur <= 0x1_0000_0000,
                self.items() == out@ + range_items(cur as int, stop as int, step as int),
            decreases range_gap(cur as int, stop as int, step as int),
        {
            let ghost rest = range_items(cur + step, stop as int, step as int);
            assert(out@ + (seq![Value::Int(cur as i32)] + rest) == out@.push(Value::Int(cur as i32))
                + rest);
            out.push(Value::Int(cur as i32));
            cur = cur + step;
        }
        assert(out@ + Seq::<Value>::empty() == out@);
        out
    }
}

impl Store {
    /// The truth value of `v`: false for `None`, `False`, zero, and the empty string and
    /// containers.
    pub open spec fn to_bool(self, v: Value) -> bool {
        match self.target(v) {
            Target::Nil => false,
            Target::Bool(b) => b,
            Target::Int(i) => i != 0,
            Target::Str(s) => s.len() > 0,
            Target::Object(o) => match o {
                Obj::List(v) => v.len() > 0,
                Obj::Tuple(v) => v.len() > 0,
                Obj::Dict(v) => v.len() > 0,
                Obj::Range(r) => r.count() > 0,
                _ => true,
            },
            Target::Unexpected => false,
        }
    }

    /// The name of the type of `v`.
    pub open spec fn get_type(self, v: Value) -> Seq<char> {
        match self.target(v) {
            Target::Nil => "NoneType"@,
            Target::Bool(_) => "bool"@,
            Target::Int(_) => "int"@,
            Target::Str(_) => "string"@,
            Target::Object(o) => o.kind_name(),
            Target::Unexpected => "unexpected"@,
        }
    }

    /// The number of elements of `v`, before it is held against the range of integers.
    pub open spec fn size(self, v: Value) -> Option<int> {
        match self.target(v) {
            Target::Str(s) => Some(s.len() as int),
            Target::Object(o) => match o {
                Obj::List(v) => Some(v.len() as int),
                Obj::Tuple(v) => Some(v.len() as int),
                Obj::Dict(v) => Some(v.len() as int),
                Obj::Range(r) => Some(r.count()),
                Obj::EnumType(t) => Some(t.elements.len() as int),
                _ => None,
            },
            _ => None,
        }
    }

    /// The length of `v`: the number of characters of a string, of elements of a container.
    /// Not supported by other values; out of range if it is no 32-bit integer.
    pub open spec fn length(self, v: Value) -> Result<i32, ErrorKind> {
        match self.size(v) {
            Some(n) => if n <= i32::MAX {
                Ok(n as i32)
            } else {
                Err(ErrorKind::IndexOutOfRange)
            },
            None => Err(ErrorKind::NotSupported),
        }
    }

    /// The values that an iteration over `v` yields: the elements of a list or tuple, the
    /// keys of a dictionary, the integers of a range, the values of an enumeration.
    pub open spec fn iterate(self, v: Value) -> Result<Seq<Value>, ErrorKind> {
        match self.target(v) {
            Target::Object(o) => match o {
                Obj::List(v) => Ok(v),
                Obj::Tuple(v) => Ok(v),
                Obj::Dict(v) => Ok(firsts(v)),
                Obj::Range(r) => Ok(r.items()),
                Obj::EnumType(t) => Ok(seconds(t.elements)),
                _ => Err(ErrorKind::NotSupported),
            },
            _ => Err(ErrorKind::NotSupported),
        }
    }
}

/// A copy of the values of `v`.
pub fn copy_values(v: &Vec<Value>) -> (out: Vec<Value>)
    ensures
        out@ == v@,
{
    let mut out: Vec<Value> = Vec::new();
    let mut i: usize = 0;
    while i < v.len()
        invariant
            i <= v.len(),
            out@ == v@.take(i as int),
        decreases v.len() - i,
    {
        out.push(v[i]);
        i += 1;
        assert(v@.take(i as int) == v@.take(i - 1).push(v@[i - 1]));
    }
    assert(v@.take(v.len() as int) == v@);
    out
}

/// The first components of `v`.
pub fn copy_firsts(v: &Vec<(Value, Value)>) -> (out: Vec<Value>)
    ensures
        out@ == firsts(v@),
{
    let mut out: Vec<Value> = Vec::new();
    let mut i: usize = 0;
    while i < v.len()
        invariant
            i <= v.len(),
            out@ == firsts(v@).take(i as int),
        decreases v.len() - i,
    {
        out.push(v[i].0);
        i += 1;
        assert(firsts(v@).take(i as int) == firsts(v@).take(i - 1).push(v@[i - 1].0));
    }
    assert(firsts(v@).take(v.len() as int) == firsts(v@));
    out
}

/// The second components of `v`.
pub fn copy_seconds(v: &Vec<(Value, Value)>) -> (out: Vec<Value>)
    ensures
        out@ == seconds(v@),
{
    let mut out: Vec<Value> = Vec::new();
    let mut i: usize = 0;
    while i < v.len()
        invariant
            i <= v.len(),
            out@ == seconds(v@).take(i as int),
        decreases v.len() - i,
    {
        out.push(v[i].1);
        i += 1;
        assert(seconds(v@).take(i as int) == seconds(v@).take(i - 1).push(v@[i - 1].1));
    }
    assert(seconds(v@).take(v.len() as int) == seconds(v@));
    out
}

impl Memory {
    /// The truth value of `v`.
    pub fn to_bool(&self, v: Value) -> (r: bool)
        ensures
            r == self@.to_bool(v),
    {
        match self.get_aref(v) {
            ARef::Nil => false,
            ARef::Bool(b) => b,
            ARef::Int(i) => i != 0,
            ARef::Str(s) => !s.as_str().is_empty(),
            ARef::Object(o) => match o {
                Object::List(v) => v.len() > 0,
                Object::Tuple(v) => v.len() > 0,
                Object::Dict(v) => v.len() > 0,
                Object::Range(r) => r.len() > 0,
                _ => true,
            },
            ARef::Unexpected => false,
        }
    }

    /// The name of the type of `v`.
    pub fn get_type(&self, v: Value) -> (r: &'static str)
        ensures
            r@ == self@.get_type(v),
    {
        match self.get_aref(v) {
            ARef::Nil => "NoneType",
            ARef::Bool(_) => "bool",
            ARef::Int(_) => "int",
            ARef::Str(_) => "string",
            ARef::Object(o) => o.get_type(),
            ARef::Unexpected => "unexpected",
        }
    }

    /// The error for an operation that `v` does not support.
    pub fn unsupported(&self, operation: &str, v: Value) -> (e: Error)
        ensures
            e.kind == ErrorKind::NotSupported,
            e.span is None,
    {
        Error::not_supported(operation, self.get_type(v))
    }

    /// The length of `v`.
    pub fn length(&self, v: Value) -> (r: Result<i32, Error>)
        ensures
            agrees(r, self@.length(v)),
    {
        let n: Option<u64> = match self.get_aref(v) {
            ARef::Str(s) => Some(s.as_str().unicode_len() as u64),
            ARef::Object(o) => match o {
                Object::List(v) => Some(v.len() as u64),
                Object::Tuple(v) => Some(v.len() as u64),
                Object::Dict(v) => Some(v.len() as u64),
                Object::Range(r) => Some(r.len() as u64),
                Object::EnumType(t) => Some(t.elements.len() as u64),
                _ => None,
            },
            _ => None,
        };
        match n {
            Some(n) => {
                if n <= 0x7fff_ffff {
                    Ok(n as i32)
                } else {
                    Err(Error::new(ErrorKind::IndexOutOfRange, "Length does not fit an integer"))
                }
            },
            None => Err(self.unsupported("len()", v)),
        }
    }

    /// The values that an iteration over `v` yields, as they are now.
    pub fn iterate(&self, v: Value) -> (r: Result<Vec<Value>, Error>)
        ensures
            match self@.iterate(v) {
                Ok(items) => r is Ok && r->Ok_0@ == items,
                Err(k) => r is Err && r->Err_0.kind == k && r->Err_0.span is None,
            },
    {
        match self.get_aref(v) {
            ARef::Object(o) => match o {
                Object::List(v) => Ok(copy_values(v)),
                Object::Tuple(v) => Ok(copy_values(v)),
                Object::Dict(v) => Ok(copy_firsts(v)),
                Object::Range(r) => Ok(r.to_vec()),
                Object::EnumType(t) => Ok(copy_seconds(&t.elements)),
                _ => Err(self.unsupported("(iter)", v)),
            },
            _ => Err(self.unsupported("(iter)", v)),
        }
    }
}

} // verus!
