//! Operators on values: arithmetic, concatenation, membership, indexing and slicing.
use vstd::prelude::*;
use crate::arith::{int_binary, int_binary_exec, int_minus, int_minus_exec, op_name, BinaryOp};
use crate::basics::copy_values;
use crate::equality::MAX_NESTING;
use crate::errors::{agrees, Error, ErrorKind};
use crate::heap::{ARef, Entry, Memory, Store, Target};
use crate::object::{Obj, Object, Range};
use crate::text::{from_chars, to_chars};
use crate::value::Value;

verus! {

/// The index `i` within a sequence of `len` elements: counted from the end if negative.
pub open spec fn convert_index(i: int, len: int) -> Result<int, ErrorKind> {
    let at = if i < 0 {
        i + len
    } else {
        i
    };
    if 0 <= at < len {
        Ok(at)
    } else {
        Err(ErrorKind::IndexOutOfRange)
    }
}

/// `x`, brought into `lo..=hi`.
pub open spec fn clamp(x: int, lo: int, hi: int) -> int {
    if x < lo {
        lo
    } else if x > hi {
        hi
    } else {
        x
    }
}

/// A bound of a slice within `lo..=hi`: counted from the end if negative, `absent` if not
/// given.
pub open spec fn slice_bound(bound: Option<i32>, len: int, lo: int, hi: int, absent: int) -> int {
    match bound {
        None => absent,
        Some(v) => clamp(
            if v < 0 {
                v + len
            } else {
                v as int
            },
            lo,
            hi,
        ),
    }
}

/// The index at which a slice starts.
pub open spec fn slice_start(start: Option<i32>, len: int, stride: int) -> int {
    if stride > 0 {
        slice_bound(start, len, 0, len, 0)
    } else {
        slice_bound(start, len, -1, len - 1, len - 1)
    }
}

/// The index before which a slice stops.
pub open spec fn slice_stop(stop: Option<i32>, len: int, stride: int) -> int {
    if stride > 0 {
        slice_bound(stop, len, 0, len, len)
    } else {
        slice_bound(stop, len, -1, len - 1, -1)
    }
}

/// The elements of `p` at `cur`, `cur + stride`, and so on, as long as the index is before
/// `stop` in the direction of `stride`.
pub open spec fn slice_items<T>(p: Seq<T>, cur: int, stop: int, stride: int) -> Seq<T>
    decreases crate::basics::range_gap(cur, stop, stride),
{
    if (stride > 0 && cur < stop) || (stride < 0 && cur > stop) {
        seq![p[cur]] + slice_items(p, cur + stride, stop, stride)
    } else {
        seq![]
    }
}

/// The slice of `p` from `start` to `stop` by `stride`.
pub open spec fn slice_of<T>(p: Seq<T>, start: Option<i32>, stop: Option<i32>, stride: int) -> Seq<
    T,
> {
    slice_items(
        p,
        slice_start(start, p.len() as int, stride),
        slice_stop(stop, p.len() as int, stride),
        stride,
    )
}

/// Is `needle` a contiguous part of `hay`?
pub open spec fn is_substring(hay: Seq<char>, needle: Seq<char>) -> bool {
    exists|i: int|
        0 <= i && i + needle.len() <= hay.len() && #[trigger] hay.subrange(
            i,
            i + needle.len(),
        ) == needle
}

impl Store {
    /// The integer that `v` is: an integer itself, or 0 and 1 for booleans.
    pub open spec fn to_int(self, v: Value) -> Result<i32, ErrorKind> {
        match self.target(v) {
            Target::Int(i) => Ok(i),
            Target::Bool(b) => Ok(if b { 1i32 } else { 0i32 }),
            _ => Err(ErrorKind::NotSupported),
        }
    }

    /// A bound of a slice: `None` if absent or `None`, else an integer.
    pub open spec fn to_bound(self, v: Option<Value>) -> Result<Option<i32>, ErrorKind> {
        match v {
            None => Ok(None),
            Some(Value::Nil) => Ok(None),
            Some(Value::Int(i)) => Ok(Some(i)),
            Some(_) => Err(ErrorKind::WrongType),
        }
    }

    /// The store with a new entry, and the value that points to it.
    pub open spec fn allocate(self, e: Entry) -> (Store, Value) {
        (self.push(e), Value::Heap(self.heap.len() as usize))
    }

    /// The store and the result after applying a binary operator. Integers follow
    /// [`int_binary`]. `+` also joins two strings, two lists and two tuples into a new one;
    /// joining with an empty string gives the other string itself.
    pub open spec fn binary(self, op: BinaryOp, l: Value, r: Value) -> (
        Store,
        Result<Value, ErrorKind>,
    ) {
        match (self.target(l), self.target(r)) {
            (Target::Int(x), Target::Int(y)) => (
                self,
                match int_binary(op, x, y) {
                    Ok(v) => Ok(Value::Int(v)),
                    Err(k) => Err(k),
                },
            ),
            (Target::Str(a), Target::Str(b)) if op == BinaryOp::Add => if a.len() == 0 {
                (self, Ok(r))
            } else if b.len() == 0 {
                (self, Ok(l))
            } else {
                let (s, v) = self.allocate(Entry::Str(a + b));
                (s, Ok(v))
            },
            (Target::Object(Obj::List(p)), Target::Object(Obj::List(q))) if op == BinaryOp::Add => {
                let (s, v) = self.allocate(Entry::Mutable(0, Obj::List(p + q)));
                (s, Ok(v))
            },
            (Target::Object(Obj::Tuple(p)), Target::Object(Obj::Tuple(q))) if op
                == BinaryOp::Add => {
                let (s, v) = self.allocate(Entry::Immutable(Obj::Tuple(p + q)));
                (s, Ok(v))
            },
            _ => (self, Err(ErrorKind::NotSupported)),
        }
    }

    /// The negation of `v`, an integer.
    pub open spec fn minus(self, v: Value) -> Result<Value, ErrorKind> {
        match self.target(v) {
            Target::Int(i) => match int_minus(i) {
                Ok(m) => Ok(Value::Int(m)),
                Err(k) => Err(k),
            },
            _ => Err(ErrorKind::NotSupported),
        }
    }

    /// `+v`: `v` itself, an integer.
    pub open spec fn plus(self, v: Value) -> Result<Value, ErrorKind> {
        match self.target(v) {
            Target::Int(i) => Ok(v),
            _ => Err(ErrorKind::NotSupported),
        }
    }

    /// Is an element of `p` from index `i` on equal to `item`?
    pub open spec fn seq_contains_from(self, p: Seq<Value>, item: Value, i: int) -> Result<
        bool,
        ErrorKind,
    >
        decreases p.len() - i,
    {
        if i < 0 || i >= p.len() {
            Ok(false)
        } else {
            match self.equals(p[i], item) {
                Ok(true) => Ok(true),
                Ok(false) => self.seq_contains_from(p, item, i + 1),
                Err(k) => Err(k),
            }
        }
    }

    /// Is `item` in `container`: an element of a list or tuple, a key of a dictionary, an
    /// integer of a range, a part of a string.
    pub open spec fn is_in(self, container: Value, item: Value) -> Result<bool, ErrorKind> {
        match self.target(container) {
            Target::Str(hay) => match self.target(item) {
                Target::Str(needle) => Ok(is_substring(hay, needle)),
                _ => Err(ErrorKind::WrongType),
            },
            Target::Object(o) => match o {
                Obj::List(p) => self.seq_contains_from(p, item, 0),
                Obj::Tuple(p) => self.seq_contains_from(p, item, 0),
                Obj::Dict(d) => match self.dict_find_from(d, item, 0, MAX_NESTING as nat) {
                    Ok(found) => Ok(found is Some),
                    Err(k) => Err(k),
                },
                Obj::Range(r) => match self.target(item) {
                    Target::Int(i) => Ok(r.items().contains(Value::Int(i))),
                    _ => Ok(false),
                },
                _ => Err(ErrorKind::NotSupported),
            },
            _ => Err(ErrorKind::NotSupported),
        }
    }

    /// The store and the result after reading `container[index]`: the element of a list or
    /// tuple, the value under a key of a dictionary, the integer of a range, the value of
    /// an enumeration, and a new string for the character of a string.
    pub open spec fn at(self, container: Value, index: Value) -> (Store, Result<Value, ErrorKind>) {
        match self.target(container) {
            Target::Object(Obj::Dict(d)) => match self.dict_find_from(
                d,
                index,
                0,
                MAX_NESTING as nat,
            ) {
                Ok(Some(j)) => (self, Ok(d[j].1)),
                Ok(None) => (self, Err(ErrorKind::KeyNotFound)),
                Err(k) => (self, Err(k)),
            },
            Target::Str(s) => match index {
                Value::Int(i) => match convert_index(i as int, s.len() as int) {
                    Ok(at) => {
                        let (st, v) = self.allocate(Entry::Str(seq![s[at]]));
                        (st, Ok(v))
                    },
                    Err(k) => (self, Err(k)),
                },
                _ => (self, Err(ErrorKind::WrongType)),
            },
            Target::Object(o) => match self.iterate(container) {
                Ok(items) => match index {
                    Value::Int(i) => match convert_index(i as int, items.len() as int) {
                        Ok(at) => (self, Ok(items[at])),
                        Err(k) => (self, Err(k)),
                    },
                    _ => (self, Err(ErrorKind::WrongType)),
                },
                Err(k) => (self, Err(k)),
            },
            _ => (self, Err(ErrorKind::NotSupported)),
        }
    }

    /// The store and the result after slicing `container`, a list, a tuple or a string,
    /// into a new value of the same kind. The stride is 1 if absent and must not be 0.
    pub open spec fn slice(
        self,
        container: Value,
        start: Option<Value>,
        stop: Option<Value>,
        stride: Option<Value>,
    ) -> (Store, Result<Value, ErrorKind>) {
        match (self.to_bound(start), self.to_bound(stop), self.to_bound(stride)) {
            (Ok(a), Ok(b), Ok(c)) => {
                let by: int = match c {
                    Some(n) => n as int,
                    None => 1,
                };
                if by == 0 {
                    (self, Err(ErrorKind::UserFail))
                } else {
                    match self.target(container) {
                        Target::Str(s) => {
                            let (st, v) = self.allocate(Entry::Str(slice_of(s, a, b, by)));
                            (st, Ok(v))
                        },
                        Target::Object(Obj::List(p)) => {
                            let (st, v) = self.allocate(
                                Entry::Mutable(0, Obj::List(slice_of(p, a, b, by))),
                            );
                            (st, Ok(v))
                        },
                        Target::Object(Obj::Tuple(p)) => {
                            let (st, v) = self.allocate(
                                Entry::Immutable(Obj::Tuple(slice_of(p, a, b, by))),
                            );
                            (st, Ok(v))
                        },
                        _ => (self, Err(ErrorKind::NotSupported)),
                    }
                }
            },
            (Err(k), _, _) => (self, Err(k)),
            (_, Err(k), _) => (self, Err(k)),
            (_, _, Err(k)) => (self, Err(k)),
        }
    }
}

/// Does the call leave `mem` and return `r` as the specified outcome `s` says?
pub open spec fn did(mem: Store, r: Result<Value, Error>, s: (Store, Result<Value, ErrorKind>)) -> bool {
    mem == s.0 && agrees(r, s.1)
}

/// The index `i` within a sequence of `len` elements.
pub fn convert_index_exec(i: i32, len: usize) -> (r: Result<usize, Error>)
    ensures
        match convert_index(i as int, len as int) {
            Ok(at) => r is Ok && r->Ok_0 == at && at < len,
            Err(k) => r is Err && r->Err_0.kind == k && r->Err_0.span is None,
        },
{
    let at: i128 = if i < 0 {
        i as i128 + len as i128
    } else {
        i as i128
    };
    if 0 <= at && at < len as i128 {
        Ok(at as usize)
    } else {
        Err(Error::new(ErrorKind::IndexOutOfRange, "Index out of bound"))
    }
}

fn bound_exec(bound: Option<i32>, len: usize, lo: i128, hi: i128, absent: i128) -> (r: i128)
    ensures
        r == slice_bound(bound, len as int, lo as int, hi as int, absent as int),
{
    match bound {
        None => absent,
        Some(v) => {
            let adj: i128 = if v < 0 {
                v as i128 + len as i128
            } else {
                v as i128
            };
            if adj < lo {
                lo
            } else if adj > hi {
                hi
            } else {
                adj
            }
        },
    }
}

/// The slice of `p` from `start` to `stop` by `stride`.
pub fn slice_vec<T: Copy>(p: &Vec<T>, start: Option<i32>, stop: Option<i32>, stride: i32) -> (out:
    Vec<T>)
    requires
        stride != 0,
    ensures
        out@ == slice_of(p@, start, stop, stride as int),
{
    let len = p.len();
    let by = stride as i128;
    let mut cur: i128 = if stride > 0 {
        bound_exec(start, len, 0, len as i128, 0)
    } else {
        bound_exec(start, len, -1, len as i128 - 1, len as i128 - 1)
    };
    let end: i128 = if stride > 0 {
        bound_exec(stop, len, 0, len as i128, len as i128)
    } else {
        bound_exec(stop, len, -1, len as i128 - 1, -1)
    };
    let mut out: Vec<T> = Vec::new();
    while (by > 0 && cur < end) || (by < 0 && cur > end)
        invariant
            by == stride,
            len == p.len(),
            -1 <= end <= len,
            by > 0 ==> 0 <= cur,
            by < 0 ==> cur <= len - 1,
            -0x1_0000_0000_0000_0000_0000 <= cur <= 0x1_0000_0000_0000_0000_0000,
            slice_of(p@, start, stop, stride as int) == out@ + slice_items(
                p@,
                cur as int,
                end as int,
                by as int,
            ),
        decreases crate::basics::range_gap(cur as int, end as int, by as int),
    {
        let ghost rest = slice_items(p@, cur + by, end as int, by as int);
        assert(out@ + (seq![p@[cur as int]] + rest) == out@.push(p@[cur as int]) + rest);
        out.push(p[cur as usize]);
        cur = cur + by;
    }
    assert(out@ + Seq::<T>::empty() == out@);
    out
}

/// Is `needle` a contiguous part of `hay`?
pub fn contains_text(hay: &str, needle: &str) -> (r: bool)
    ensures
        r == is_substring(hay@, needle@),
{
    let h = to_chars(hay);
    let n = to_chars(needle);
    if n.len() > h.len() {
        assert(!is_substring(hay@, needle@));
        return false;
    }
    let last = h.len() - n.len();
    let mut i: usize = 0;
    while i <= last
        invariant
            h@ == hay@,
            n@ == needle@,
            n.len() <= h.len(),
            last == h.len() - n.len(),
            i <= last + 1,
            forall|k: int| 0 <= k < i ==> #[trigger] hay@.subrange(k, k + n.len()) != needle@,
        decreases last + 1 - i,
    {
        let mut j: usize = 0;
        while j < n.len() && h[i + j] == n[j]
            invariant
                i <= last,
                last == h.len() - n.len(),
                n.len() <= h.len(),
                j <= n.len(),
                forall|k: int| 0 <= k < j ==> h@[i + k] == n@[k],
            decreases n.len() - j,
        {
            j += 1;
        }
        if j == n.len() {
            assert(hay@.subrange(i as int, i + n.len()) =~= needle@);
            return true;
        }
        assert(hay@.subrange(i as int, i + n.len())[j as int] != needle@[j as int]);
        i += 1;
    }
    assert forall|k: int| 0 <= k && k + needle@.len() <= hay@.len() implies #[trigger] hay@.subrange(
        k,
        k + needle@.len(),
    ) != needle@ by {
        assert(k < i);
    }
    false
}

impl Memory {
    /// The integer that `v` is.
    pub fn to_int(&self, v: Value) -> (r: Result<i32, Error>)
        ensures
            agrees(r, self@.to_int(v)),
    {
        match self.get_aref(v) {
            ARef::Int(i) => Ok(i),
            ARef::Bool(b) => Ok(if b {
                1
            } else {
                0
            }),
            _ => Err(self.unsupported("int()", v)),
        }
    }

    /// A bound of a slice.
    pub fn to_bound(&self, v: Option<Value>) -> (r: Result<Option<i32>, Error>)
        ensures
            agrees(r, self@.to_bound(v)),
    {
        match v {
            None => Ok(None),
            Some(Value::Nil) => Ok(None),
            Some(Value::Int(i)) => Ok(Some(i)),
            Some(_) => Err(
                Error::new(ErrorKind::WrongType, "Type of parameters mismatch"),
            ),
        }
    }

    /// Applies a binary operator.
    pub fn binary(&mut self, op: BinaryOp, l: Value, r: Value) -> (res: Result<Value, Error>)
        ensures
            did(final(self)@, res, old(self)@.binary(op, l, r)),
    {
        let is_add = match op {
            BinaryOp::Add => true,
            _ => false,
        };
        match (self.get_aref(l), self.get_aref(r)) {
            (ARef::Int(x), ARef::Int(y)) => match int_binary_exec(op, x, y) {
                Ok(v) => Ok(Value::Int(v)),
                Err(e) => Err(e),
            },
            (ARef::Str(a), ARef::Str(b)) => {
                if !is_add {
                    return Err(self.unsupported(op_name(op), l));
                }
                if a.as_str().is_empty() {
                    Ok(r)
                } else if b.as_str().is_empty() {
                    Ok(l)
                } else {
                    let mut joined = to_chars(a.as_str());
                    let mut tail = to_chars(b.as_str());
                    joined.append(&mut tail);
                    let text = from_chars(&joined);
                    Ok(self.alloc_str(text))
                }
            },
            (ARef::Object(Object::List(p)), ARef::Object(Object::List(q))) => {
                if !is_add {
                    return Err(self.unsupported(op_name(op), l));
                }
                let mut joined = copy_values(p);
                let mut tail = copy_values(q);
                joined.append(&mut tail);
                Ok(self.alloc_object(Object::List(joined)))
            },
            (ARef::Object(Object::Tuple(p)), ARef::Object(Object::Tuple(q))) => {
                if !is_add {
                    return Err(self.unsupported(op_name(op), l));
                }
                let mut joined = copy_values(p);
                let mut tail = copy_values(q);
                joined.append(&mut tail);
                Ok(self.alloc_object(Object::Tuple(joined)))
            },
            _ => Err(self.unsupported(op_name(op), l)),
        }
    }

    /// The negation of `v`.
    pub fn minus(&self, v: Value) -> (r: Result<Value, Error>)
        ensures
            agrees(r, self@.minus(v)),
    {
        match self.get_aref(v) {
            ARef::Int(i) => match int_minus_exec(i) {
                Ok(m) => Ok(Value::Int(m)),
                Err(e) => Err(e),
            },
            _ => Err(self.unsupported("-", v)),
        }
    }

    /// `+v`.
    pub fn plus(&self, v: Value) -> (r: Result<Value, Error>)
        ensures
            agrees(r, self@.plus(v)),
    {
        match self.get_aref(v) {
            ARef::Int(_) => Ok(v),
            _ => Err(self.unsupported("+", v)),
        }
    }

    fn seq_contains(&self, p: &Vec<Value>, item: Value) -> (r: Result<bool, Error>)
        ensures
            agrees(r, self@.seq_contains_from(p@, item, 0)),
    {
        let mut i: usize = 0;
        while i < p.len()
            invariant
                i <= p.len(),
                self@.seq_contains_from(p@, item, 0) == self@.seq_contains_from(
                    p@,
                    item,
                    i as int,
                ),
            decreases p.len() - i,
        {
            match self.equals(p[i], item) {
                Ok(true) => {
                    return Ok(true);
                },
                Ok(false) => {},
                Err(e) => {
                    return Err(e);
                },
            }
            i += 1;
        }
        Ok(false)
    }

    /// Is `item` in `container`?
    pub fn is_in(&self, container: Value, item: Value) -> (r: Result<bool, Error>)
        ensures
            agrees(r, self@.is_in(container, item)),
    {
        match self.get_aref(container) {
            ARef::Str(hay) => match self.get_aref(item) {
                ARef::Str(needle) => Ok(contains_text(hay.as_str(), needle.as_str())),
                _ => Err(
                    Error::new(ErrorKind::WrongType, "Type of parameters mismatch"),
                ),
            },
            ARef::Object(o) => match o {
                Object::List(p) => self.seq_contains(p, item),
                Object::Tuple(p) => self.seq_contains(p, item),
                Object::Dict(d) => match self.dict_find(d, item, MAX_NESTING) {
                    Ok(found) => Ok(found.is_some()),
                    Err(e) => Err(e),
                },
                Object::Range(r) => match item {
                    Value::Int(i) => Ok(range_contains(r, i)),
                    _ => Ok(false),
                },
                _ => Err(self.unsupported("in", container)),
            },
            _ => Err(self.unsupported("in", container)),
        }
    }

    /// Reads `container[index]`.
    pub fn at(&mut self, container: Value, index: Value) -> (r: Result<Value, Error>)
        ensures
            did(final(self)@, r, old(self)@.at(container, index)),
    {
        match self.get_aref(container) {
            ARef::Object(Object::Dict(d)) => match self.dict_find(d, index, MAX_NESTING) {
                Ok(Some(j)) => Ok(d[j].1),
                Ok(None) => Err(Error::new(ErrorKind::KeyNotFound, "Key not found")),
                Err(e) => Err(e),
            },
            ARef::Str(s) => match index {
                Value::Int(i) => {
                    let chars = to_chars(s.as_str());
                    match convert_index_exec(i, chars.len()) {
                        Ok(at) => {
                            let mut one: Vec<char> = Vec::new();
                            one.push(chars[at]);
                            let text = from_chars(&one);
                            Ok(self.alloc_str(text))
                        },
                        Err(e) => Err(e),
                    }
                },
                _ => Err(
                    Error::new(ErrorKind::WrongType, "Type of parameters mismatch"),
                ),
            },
            ARef::Object(_) => match self.iterate(container) {
                Ok(items) => match index {
                    Value::Int(i) => match convert_index_exec(i, items.len()) {
                        Ok(at) => Ok(items[at]),
                        Err(e) => Err(e),
                    },
                    _ => Err(
                        Error::new(ErrorKind::WrongType, "Type of parameters mismatch"),
                    ),
                },
                Err(e) => Err(e),
            },
            _ => Err(self.unsupported("[]", container)),
        }
    }

    /// Slices `container` into a new value.
    pub fn slice(
        &mut self,
        container: Value,
        start: Option<Value>,
        stop: Option<Value>,
        stride: Option<Value>,
    ) -> (r: Result<Value, Error>)
        ensures
            did(final(self)@, r, old(self)@.slice(container, start, stop, stride)),
    {
        let a = match self.to_bound(start) {
            Ok(a) => a,
            Err(e) => {
                return Err(e);
            },
        };
        let b = match self.to_bound(stop) {
            Ok(b) => b,
            Err(e) => {
                return Err(e);
            },
        };
        let c = match self.to_bound(stride) {
            Ok(c) => c,
            Err(e) => {
                return Err(e);
            },
        };
        let by: i32 = match c {
            Some(n) => n,
            None => 1,
        };
        if by == 0 {
            return Err(Error::new(ErrorKind::UserFail, "Slice stride cannot be zero"));
        }
        match self.get_aref(container) {
            ARef::Str(s) => {
                let chars = to_chars(s.as_str());
                let part = slice_vec(&chars, a, b, by);
                let text = from_chars(&part);
                Ok(self.alloc_str(text))
            },
            ARef::Object(Object::List(p)) => {
                let part = slice_vec(p, a, b, by);
                Ok(self.alloc_object(Object::List(part)))
            },
            ARef::Object(Object::Tuple(p)) => {
                let part = slice_vec(p, a, b, by);
                Ok(self.alloc_object(Object::Tuple(part)))
            },
            _ => Err(self.unsupported("[::]", container)),
        }
    }
}

/// Is `i` one of the integers of `r`?
pub fn range_contains(r: &Range, i: i32) -> (b: bool)
    ensures
        b == r.items().contains(Value::Int(i)),
{
    let items = r.to_vec();
    let mut k: usize = 0;
    while k < items.len()
        invariant
            k <= items.len(),
            items@ == r.items(),
            forall|j: int| 0 <= j < k ==> items@[j] != Value::Int(i),
        decreases items.len() - k,
    {
        if items[k] == Value::Int(i) {
            return true;
        }
        k += 1;
    }
    false
}

} // verus!
