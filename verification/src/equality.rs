//! Equality, ordering and hashing of values.
//!
//! All three follow the structure of the values. They look at most [`MAX_NESTING`] levels
//! deep and fail with `StackOverflow` on anything deeper, which covers cyclic values.
use vstd::prelude::*;
use crate::errors::{agrees, Error, ErrorKind};
use crate::heap::{ARef, Memory, Store, Target};
use crate::object::{firsts, Obj, Object, Range};
use crate::text::{string_hash, hash_str, to_chars};
use crate::value::Value;

verus! {

/// How many levels of nested values the structural operations follow. A value can hold
/// itself, so there is a bound: it is far above what programs nest by hand.
pub const MAX_NESTING: usize = 256;

/// The outcome of a comparison.
#[derive(Clone, Copy, PartialEq, Eq, Structural, Debug)]
pub enum Order {
    Less,
    Equal,
    Greater,
}

/// The order of two integers.
pub open spec fn int_order(a: int, b: int) -> Order {
    if a < b {
        Order::Less
    } else if a > b {
        Order::Greater
    } else {
        Order::Equal
    }
}

/// The order of two texts from index `i` on: by the first character that differs, a proper
/// prefix first.
pub open spec fn text_order_from(a: Seq<char>, b: Seq<char>, i: int) -> Order
    decreases a.len() - i,
{
    if i >= a.len() || i >= b.len() || i < 0 {
        int_order(a.len() as int, b.len() as int)
    } else if a[i] != b[i] {
        int_order(a[i] as u32 as int, b[i] as u32 as int)
    } else {
        text_order_from(a, b, i + 1)
    }
}

/// Do two ranges hold the same integers?
pub open spec fn range_equals(a: Range, b: Range) -> bool {
    a.count() == b.count() && (a.count() == 0 || (a.start == b.start && (a.count() == 1 || a.step
        == b.step)))
}

/// One step of the hash of a tuple: `31 * h + e`, wrapping.
pub open spec fn combine(h: i32, e: i32) -> i32 {
    31i32.wrapping_mul(h).wrapping_add(e)
}

impl Store {
    /// Are `a` and `b` equal, looking `depth` levels deep? The same word is equal; otherwise
    /// values are equal if they are of the same kind and their contents are equal.
    pub open spec fn equals_at(self, a: Value, b: Value, depth: nat) -> Result<bool, ErrorKind>
        decreases depth, 5nat, 0nat,
    {
        if a == b {
            Ok(true)
        } else {
            match (self.target(a), self.target(b)) {
                (Target::Bool(x), Target::Bool(y)) => Ok(x == y),
                (Target::Int(x), Target::Int(y)) => Ok(x == y),
                (Target::Str(x), Target::Str(y)) => Ok(x == y),
                (Target::Object(x), Target::Object(y)) => match (x, y) {
                    (Obj::List(p), Obj::List(q)) => self.seq_equals(p, q, depth),
                    (Obj::Tuple(p), Obj::Tuple(q)) => self.seq_equals(p, q, depth),
                    (Obj::Dict(p), Obj::Dict(q)) => if p.len() != q.len() {
                        Ok(false)
                    } else if depth == 0 {
                        Err(ErrorKind::StackOverflow)
                    } else {
                        self.dict_equals_from(p, q, 0, (depth - 1) as nat)
                    },
                    (Obj::Range(r1), Obj::Range(r2)) => Ok(range_equals(r1, r2)),
                    (Obj::EnumType(t1), Obj::EnumType(t2)) => if t1.typ != t2.typ {
                        Ok(false)
                    } else {
                        self.seq_equals(firsts(t1.elements), firsts(t2.elements), depth)
                    },
                    (Obj::EnumValue(v1), Obj::EnumValue(v2)) => if depth == 0 {
                        Err(ErrorKind::StackOverflow)
                    } else {
                        match self.equals_at(v1.typ, v2.typ, (depth - 1) as nat) {
                            Ok(true) => Ok(v1.index == v2.index),
                            other => other,
                        }
                    },
                    _ => Ok(false),
                },
                _ => Ok(false),
            }
        }
    }

    /// Are two sequences equal: of the same length, with equal elements.
    pub open spec fn seq_equals(self, p: Seq<Value>, q: Seq<Value>, depth: nat) -> Result<
        bool,
        ErrorKind,
    >
        decreases depth, 4nat, 0nat,
    {
        if p.len() != q.len() {
            Ok(false)
        } else if depth == 0 {
            Err(ErrorKind::StackOverflow)
        } else {
            self.seq_equals_from(p, q, 0, (depth - 1) as nat)
        }
    }

    /// Are the elements of `p` and `q` equal from index `i` on?
    pub open spec fn seq_equals_from(self, p: Seq<Value>, q: Seq<Value>, i: int, depth: nat) -> Result<
        bool,
        ErrorKind,
    >
        decreases depth, 6nat, p.len() - i,
    {
        if i < 0 || i >= p.len() || i >= q.len() {
            Ok(true)
        } else {
            match self.equals_at(p[i], q[i], depth) {
                Ok(true) => self.seq_equals_from(p, q, i + 1, depth),
                other => other,
            }
        }
    }

    /// The index of the first entry of `d` at or after `j` whose key equals `k`.
    pub open spec fn dict_find_from(self, d: Seq<(Value, Value)>, k: Value, j: int, depth: nat) -> Result<
        Option<int>,
        ErrorKind,
    >
        decreases depth, 6nat, d.len() - j,
    {
        if j < 0 || j >= d.len() {
            Ok(None)
        } else {
            match self.equals_at(d[j].0, k, depth) {
                Ok(true) => Ok(Some(j)),
                Ok(false) => self.dict_find_from(d, k, j + 1, depth),
                Err(e) => Err(e),
            }
        }
    }

    /// Does every entry of `p` from index `i` on have an entry of `q` with an equal key and
    /// an equal value?
    pub open spec fn dict_equals_from(
        self,
        p: Seq<(Value, Value)>,
        q: Seq<(Value, Value)>,
        i: int,
        depth: nat,
    ) -> Result<bool, ErrorKind>
        decreases depth, 7nat, p.len() - i,
    {
        if i < 0 || i >= p.len() {
            Ok(true)
        } else {
            match self.dict_find_from(q, p[i].0, 0, depth) {
                Ok(Some(j)) => match self.equals_at(p[i].1, q[j].1, depth) {
                    Ok(true) => self.dict_equals_from(p, q, i + 1, depth),
                    other => other,
                },
                Ok(None) => Ok(false),
                Err(e) => Err(e),
            }
        }
    }

    /// Are `a` and `b` equal?
    pub open spec fn equals(self, a: Value, b: Value) -> Result<bool, ErrorKind> {
        self.equals_at(a, b, MAX_NESTING as nat)
    }

    /// The order of `a` and `b`, looking `depth` levels deep: of integers by value, of
    /// strings by their characters, of lists and of tuples by their first elements that
    /// differ. Other values have no order.
    pub open spec fn compare_at(self, a: Value, b: Value, depth: nat) -> Result<Order, ErrorKind>
        decreases depth, 5nat, 0nat,
    {
        match (self.target(a), self.target(b)) {
            (Target::Int(x), Target::Int(y)) => Ok(int_order(x as int, y as int)),
            (Target::Str(x), Target::Str(y)) => Ok(text_order_from(x, y, 0)),
            (Target::Object(Obj::List(p)), Target::Object(Obj::List(q))) => if depth == 0 {
                Err(ErrorKind::StackOverflow)
            } else {
                self.seq_compare_from(p, q, 0, (depth - 1) as nat)
            },
            (Target::Object(Obj::Tuple(p)), Target::Object(Obj::Tuple(q))) => if depth == 0 {
                Err(ErrorKind::StackOverflow)
            } else {
                self.seq_compare_from(p, q, 0, (depth - 1) as nat)
            },
            _ => Err(ErrorKind::NotSupported),
        }
    }

    /// The order of two sequences from index `i` on.
    pub open spec fn seq_compare_from(self, p: Seq<Value>, q: Seq<Value>, i: int, depth: nat) -> Result<
        Order,
        ErrorKind,
    >
        decreases depth, 6nat, p.len() - i,
    {
        if i < 0 || i >= p.len() || i >= q.len() {
            Ok(int_order(p.len() as int, q.len() as int))
        } else {
            match self.compare_at(p[i], q[i], depth) {
                Ok(Order::Equal) => self.seq_compare_from(p, q, i + 1, depth),
                other => other,
            }
        }
    }

    /// The order of `a` and `b`.
    pub open spec fn compare(self, a: Value, b: Value) -> Result<Order, ErrorKind> {
        self.compare_at(a, b, MAX_NESTING as nat)
    }

    /// The hash of `v`, looking `depth` levels deep. `None`, booleans, integers, strings,
    /// tuples of hashable values and enumeration values have one.
    pub open spec fn hash_at(self, v: Value, depth: nat) -> Result<i32, ErrorKind>
        decreases depth, 5nat, 0nat,
    {
        match self.target(v) {
            Target::Nil => Ok(0),
            Target::Bool(b) => Ok(if b { 1 } else { 0 }),
            Target::Int(i) => Ok(i),
            Target::Str(s) => Ok(string_hash(s)),
            Target::Object(Obj::Tuple(p)) => if depth == 0 {
                Err(ErrorKind::StackOverflow)
            } else {
                self.seq_hash_from(p, 0, 0, (depth - 1) as nat)
            },
            Target::Object(Obj::EnumValue(e)) => if depth == 0 {
                Err(ErrorKind::StackOverflow)
            } else {
                self.hash_at(e.value, (depth - 1) as nat)
            },
            _ => Err(ErrorKind::NotSupported),
        }
    }

    /// The hash of a sequence from index `i` on, continuing from `h`.
    pub open spec fn seq_hash_from(self, p: Seq<Value>, i: int, h: i32, depth: nat) -> Result<
        i32,
        ErrorKind,
    >
        decreases depth, 6nat, p.len() - i,
    {
        if i < 0 || i >= p.len() {
            Ok(h)
        } else {
            match self.hash_at(p[i], depth) {
                Ok(e) => self.seq_hash_from(p, i + 1, combine(h, e), depth),
                Err(k) => Err(k),
            }
        }
    }

    /// The hash of `v`.
    pub open spec fn get_hash(self, v: Value) -> Result<i32, ErrorKind> {
        self.hash_at(v, MAX_NESTING as nat)
    }
}

/// Is `k` a kind of failure of hashing and comparing: a value that has no hash or no
/// order, or values that are nested too deeply?
pub open spec fn nesting_kind(k: ErrorKind) -> bool {
    k == ErrorKind::StackOverflow || k == ErrorKind::NotSupported
}

/// Does the result fail, if at all, with a kind of failure of hashing and comparing?
pub open spec fn fails_by_nesting<T>(r: Result<T, ErrorKind>) -> bool {
    match r {
        Err(k) => nesting_kind(k),
        Ok(_) => true,
    }
}

/// Hashing fails only on a value that has no hash or is nested too deeply.
pub proof fn lemma_hash_kinds(s: Store, v: Value, depth: nat)
    ensures
        fails_by_nesting(s.hash_at(v, depth)),
    decreases depth, 5nat, 0nat,
{
    match s.target(v) {
        Target::Object(Obj::Tuple(p)) => {
            if depth > 0 {
                lemma_seq_hash_kinds(s, p, 0, 0, (depth - 1) as nat);
            }
        },
        Target::Object(Obj::EnumValue(e)) => {
            if depth > 0 {
                lemma_hash_kinds(s, e.value, (depth - 1) as nat);
            }
        },
        _ => {},
    }
}

/// As [`lemma_hash_kinds`], for the hash of a sequence.
pub proof fn lemma_seq_hash_kinds(s: Store, p: Seq<Value>, i: int, h: i32, depth: nat)
    ensures
        fails_by_nesting(s.seq_hash_from(p, i, h, depth)),
    decreases depth, 6nat, p.len() - i,
{
    if 0 <= i < p.len() {
        lemma_hash_kinds(s, p[i], depth);
        match s.hash_at(p[i], depth) {
            Ok(e) => {
                lemma_seq_hash_kinds(s, p, i + 1, combine(h, e), depth);
            },
            Err(_) => {},
        }
    }
}

/// Equality fails only on values that are nested too deeply.
pub proof fn lemma_equals_kinds(s: Store, a: Value, b: Value, depth: nat)
    ensures
        fails_by_nesting(s.equals_at(a, b, depth)),
    decreases depth, 5nat, 0nat,
{
    if a != b {
        match (s.target(a), s.target(b)) {
            (Target::Object(x), Target::Object(y)) => match (x, y) {
                (Obj::List(p), Obj::List(q)) => {
                    lemma_seq_equals_kinds(s, p, q, depth);
                },
                (Obj::Tuple(p), Obj::Tuple(q)) => {
                    lemma_seq_equals_kinds(s, p, q, depth);
                },
                (Obj::Dict(p), Obj::Dict(q)) => {
                    if p.len() == q.len() && depth > 0 {
                        lemma_dict_equals_kinds(s, p, q, 0, (depth - 1) as nat);
                    }
                },
                (Obj::EnumType(t1), Obj::EnumType(t2)) => {
                    lemma_seq_equals_kinds(s, firsts(t1.elements), firsts(t2.elements), depth);
                },
                (Obj::EnumValue(v1), Obj::EnumValue(v2)) => {
                    if depth > 0 {
                        lemma_equals_kinds(s, v1.typ, v2.typ, (depth - 1) as nat);
                    }
                },
                _ => {},
            },
            _ => {},
        }
    }
}

/// As [`lemma_equals_kinds`], for sequences.
pub proof fn lemma_seq_equals_kinds(s: Store, p: Seq<Value>, q: Seq<Value>, depth: nat)
    ensures
        fails_by_nesting(s.seq_equals(p, q, depth)),
    decreases depth, 4nat, 0nat,
{
    if p.len() == q.len() && depth > 0 {
        lemma_seq_equals_from_kinds(s, p, q, 0, (depth - 1) as nat);
    }
}

/// As [`lemma_equals_kinds`], for sequences from index `i` on.
pub proof fn lemma_seq_equals_from_kinds(s: Store, p: Seq<Value>, q: Seq<Value>, i: int, depth: nat)
    ensures
        fails_by_nesting(s.seq_equals_from(p, q, i, depth)),
    decreases depth, 6nat, p.len() - i,
{
    if 0 <= i < p.len() && i < q.len() {
        lemma_equals_kinds(s, p[i], q[i], depth);
        lemma_seq_equals_from_kinds(s, p, q, i + 1, depth);
    }
}

/// As [`lemma_equals_kinds`], for the search of a key.
pub proof fn lemma_find_kinds(s: Store, d: Seq<(Value, Value)>, k: Value, j: int, depth: nat)
    ensures
        fails_by_nesting(s.dict_find_from(d, k, j, depth)),
    decreases depth, 6nat, d.len() - j,
{
    if 0 <= j < d.len() {
        lemma_equals_kinds(s, d[j].0, k, depth);
        lemma_find_kinds(s, d, k, j + 1, depth);
    }
}

/// As [`lemma_equals_kinds`], for dictionaries from entry `i` on.
pub proof fn lemma_dict_equals_kinds(
    s: Store,
    p: Seq<(Value, Value)>,
    q: Seq<(Value, Value)>,
    i: int,
    depth: nat,
)
    ensures
        fails_by_nesting(s.dict_equals_from(p, q, i, depth)),
    decreases depth, 7nat, p.len() - i,
{
    if 0 <= i < p.len() {
        lemma_find_kinds(s, q, p[i].0, 0, depth);
        match s.dict_find_from(q, p[i].0, 0, depth) {
            Ok(Some(j)) => {
                lemma_equals_kinds(s, p[i].1, q[j].1, depth);
                lemma_dict_equals_kinds(s, p, q, i + 1, depth);
            },
            _ => {},
        }
    }
}

fn stack_overflow() -> (e: Error)
    ensures
        e.kind == ErrorKind::StackOverflow,
        e.span is None,
{
    Error::new(ErrorKind::StackOverflow, "Values are nested too deeply")
}

/// The order of two integers.
pub fn order_of(a: u64, b: u64) -> (r: Order)
    ensures
        r == int_order(a as int, b as int),
{
    if a < b {
        Order::Less
    } else if a > b {
        Order::Greater
    } else {
        Order::Equal
    }
}

/// The order of two texts.
pub fn text_order(a: &str, b: &str) -> (r: Order)
    ensures
        r == text_order_from(a@, b@, 0),
{
    let x = to_chars(a);
    let y = to_chars(b);
    let mut i: usize = 0;
    while i < x.len() && i < y.len()
        invariant
            x@ == a@,
            y@ == b@,
            i <= x.len(),
            i <= y.len(),
            text_order_from(a@, b@, 0) == text_order_from(a@, b@, i as int),
        decreases x.len() - i,
    {
        let ca: char = x[i];
        let cb: char = y[i];
        let cx: u32 = ca as u32;
        let cy: u32 = cb as u32;
        if ca != cb {
            return order_of(cx as u64, cy as u64);
        }
        i += 1;
    }
    order_of(x.len() as u64, y.len() as u64)
}

impl Memory {
    /// Are `a` and `b` equal, looking `depth` levels deep?
    pub fn equals_at(&self, a: Value, b: Value, depth: usize) -> (r: Result<bool, Error>)
        ensures
            agrees(r, self@.equals_at(a, b, depth as nat)),
        decreases depth, 5nat,
    {
        if a == b {
            return Ok(true);
        }
        match (self.get_aref(a), self.get_aref(b)) {
            (ARef::Bool(x), ARef::Bool(y)) => Ok(x == y),
            (ARef::Int(x), ARef::Int(y)) => Ok(x == y),
            (ARef::Str(x), ARef::Str(y)) => Ok(crate::text::same_text(x.as_str(), y.as_str())),
            (ARef::Object(x), ARef::Object(y)) => match (x, y) {
                (Object::List(p), Object::List(q)) => self.seq_equals(p, q, depth),
                (Object::Tuple(p), Object::Tuple(q)) => self.seq_equals(p, q, depth),
                (Object::Dict(p), Object::Dict(q)) => {
                    if p.len() != q.len() {
                        Ok(false)
                    } else if depth == 0 {
                        Err(stack_overflow())
                    } else {
                        self.dict_equals(p, q, depth - 1)
                    }
                },
                (Object::Range(r1), Object::Range(r2)) => {
                    let n = r1.len();
                    Ok(n == r2.len() && (n == 0 || (r1.start == r2.start && (n == 1 || r1.step
                        == r2.step))))
                },
                (Object::EnumType(t1), Object::EnumType(t2)) => {
                    let same_name = match (&t1.typ, &t2.typ) {
                        (Some(x), Some(y)) => crate::text::same_text(x.as_str(), y.as_str()),
                        (None, None) => true,
                        _ => false,
                    };
                    if !same_name {
                        Ok(false)
                    } else {
                        let k1 = crate::basics::copy_firsts(&t1.elements);
                        let k2 = crate::basics::copy_firsts(&t2.elements);
                        self.seq_equals(&k1, &k2, depth)
                    }
                },
                (Object::EnumValue(v1), Object::EnumValue(v2)) => {
                    if depth == 0 {
                        Err(stack_overflow())
                    } else {
                        match self.equals_at(v1.typ, v2.typ, depth - 1) {
                            Ok(true) => Ok(v1.index == v2.index),
                            other => other,
                        }
                    }
                },
                _ => Ok(false),
            },
            _ => Ok(false),
        }
    }

    fn seq_equals(&self, p: &Vec<Value>, q: &Vec<Value>, depth: usize) -> (r: Result<bool, Error>)
        ensures
            agrees(r, self@.seq_equals(p@, q@, depth as nat)),
        decreases depth, 4nat,
    {
        if p.len() != q.len() {
            return Ok(false);
        }
        if depth == 0 {
            return Err(stack_overflow());
        }
        let mut i: usize = 0;
        while i < p.len()
            invariant
                depth > 0,
                p.len() == q.len(),
                i <= p.len(),
                self@.seq_equals(p@, q@, depth as nat) == self@.seq_equals_from(
                    p@,
                    q@,
                    i as int,
                    (depth - 1) as nat,
                ),
            decreases p.len() - i,
        {
            match self.equals_at(p[i], q[i], depth - 1) {
                Ok(true) => {},
                other => {
                    return other;
                },
            }
            i += 1;
        }
        Ok(true)
    }

    /// The index of the first entry of `d` whose key equals `k`.
    pub fn dict_find(&self, d: &Vec<(Value, Value)>, k: Value, depth: usize) -> (r: Result<
        Option<usize>,
        Error,
    >)
        ensures
            match self@.dict_find_from(d@, k, 0, depth as nat) {
                Ok(Some(j)) => r is Ok && r->Ok_0 == Some(j as usize) && 0 <= j < d.len(),
                Ok(None) => r is Ok && r->Ok_0 is None,
                Err(e) => r is Err && r->Err_0.kind == e && r->Err_0.span is None,
            },
        decreases depth, 6nat,
    {
        let mut j: usize = 0;
        while j < d.len()
            invariant
                j <= d.len(),
                self@.dict_find_from(d@, k, 0, depth as nat) == self@.dict_find_from(
                    d@,
                    k,
                    j as int,
                    depth as nat,
                ),
            decreases d.len() - j,
        {
            match self.equals_at(d[j].0, k, depth) {
                Ok(true) => {
                    return Ok(Some(j));
                },
                Ok(false) => {},
                Err(e) => {
                    return Err(e);
                },
            }
            j += 1;
        }
        Ok(None)
    }

    fn dict_equals(&self, p: &Vec<(Value, Value)>, q: &Vec<(Value, Value)>, depth: usize) -> (r:
        Result<bool, Error>)
        ensures
            agrees(r, self@.dict_equals_from(p@, q@, 0, depth as nat)),
        decreases depth, 7nat,
    {
        let mut i: usize = 0;
        while i < p.len()
            invariant
                i <= p.len(),
                self@.dict_equals_from(p@, q@, 0, depth as nat) == self@.dict_equals_from(
                    p@,
                    q@,
                    i as int,
                    depth as nat,
                ),
            decreases p.len() - i,
        {
            match self.dict_find(q, p[i].0, depth) {
                Ok(Some(j)) => match self.equals_at(p[i].1, q[j].1, depth) {
                    Ok(true) => {},
                    other => {
                        return other;
                    },
                },
                Ok(None) => {
                    return Ok(false);
                },
                Err(e) => {
                    return Err(e);
                },
            }
            i += 1;
        }
        Ok(true)
    }

    /// Are `a` and `b` equal?
    pub fn equals(&self, a: Value, b: Value) -> (r: Result<bool, Error>)
        ensures
            agrees(r, self@.equals(a, b)),
    {
        self.equals_at(a, b, MAX_NESTING)
    }

    /// The order of `a` and `b`, looking `depth` levels deep.
    pub fn compare_at(&self, a: Value, b: Value, depth: usize) -> (r: Result<Order, Error>)
        ensures
            agrees(r, self@.compare_at(a, b, depth as nat)),
        decreases depth, 5nat,
    {
        match (self.get_aref(a), self.get_aref(b)) {
            (ARef::Int(x), ARef::Int(y)) => Ok(
                if x < y {
                    Order::Less
                } else if x > y {
                    Order::Greater
                } else {
                    Order::Equal
                },
            ),
            (ARef::Str(x), ARef::Str(y)) => Ok(text_order(x.as_str(), y.as_str())),
            (ARef::Object(Object::List(p)), ARef::Object(Object::List(q))) => {
                if depth == 0 {
                    Err(stack_overflow())
                } else {
                    self.seq_compare(p, q, depth - 1)
                }
            },
            (ARef::Object(Object::Tuple(p)), ARef::Object(Object::Tuple(q))) => {
                if depth == 0 {
                    Err(stack_overflow())
                } else {
                    self.seq_compare(p, q, depth - 1)
                }
            },
            _ => Err(self.unsupported("compare", a)),
        }
    }

    fn seq_compare(&self, p: &Vec<Value>, q: &Vec<Value>, depth: usize) -> (r: Result<Order, Error>)
        ensures
            agrees(r, self@.seq_compare_from(p@, q@, 0, depth as nat)),
        decreases depth, 6nat,
    {
        let mut i: usize = 0;
        while i < p.len() && i < q.len()
            invariant
                i <= p.len(),
                i <= q.len(),
                self@.seq_compare_from(p@, q@, 0, depth as nat) == self@.seq_compare_from(
                    p@,
                    q@,
                    i as int,
                    depth as nat,
                ),
            decreases p.len() - i,
        {
            match self.compare_at(p[i], q[i], depth) {
                Ok(Order::Equal) => {},
                other => {
                    return other;
                },
            }
            i += 1;
        }
        Ok(order_of(p.len() as u64, q.len() as u64))
    }

    /// The order of `a` and `b`.
    pub fn compare(&self, a: Value, b: Value) -> (r: Result<Order, Error>)
        ensures
            agrees(r, self@.compare(a, b)),
    {
        self.compare_at(a, b, MAX_NESTING)
    }

    /// The hash of `v`, looking `depth` levels deep.
    pub fn hash_at(&self, v: Value, depth: usize) -> (r: Result<i32, Error>)
        ensures
            agrees(r, self@.hash_at(v, depth as nat)),
        decreases depth, 5nat,
    {
        match self.get_aref(v) {
            ARef::Nil => Ok(0),
            ARef::Bool(b) => Ok(if b {
                1
            } else {
                0
            }),
            ARef::Int(i) => Ok(i),
            ARef::Str(s) => Ok(hash_str(s.as_str())),
            ARef::Object(Object::Tuple(p)) => {
                if depth == 0 {
                    return Err(stack_overflow());
                }
                let mut h: i32 = 0;
                let mut i: usize = 0;
                while i < p.len()
                    invariant
                        depth > 0,
                        i <= p.len(),
                        self@.hash_at(v, depth as nat) == self@.seq_hash_from(
                            p@,
                            0,
                            0,
                            (depth - 1) as nat,
                        ),
                        self@.seq_hash_from(p@, 0, 0, (depth - 1) as nat) == self@.seq_hash_from(
                            p@,
                            i as int,
                            h,
                            (depth - 1) as nat,
                        ),
                    decreases p.len() - i,
                {
                    match self.hash_at(p[i], depth - 1) {
                        Ok(e) => {
                            h = 31i32.wrapping_mul(h).wrapping_add(e);
                        },
                        Err(e) => {
                            return Err(e);
                        },
                    }
                    i += 1;
                }
                Ok(h)
            },
            ARef::Object(Object::EnumValue(e)) => {
                if depth == 0 {
                    Err(stack_overflow())
                } else {
                    self.hash_at(e.value, depth - 1)
                }
            },
            _ => Err(
                Error::new(ErrorKind::NotSupported, "Value is not hashable"),
            ),
        }
    }

    /// The hash of `v`.
    pub fn get_hash(&self, v: Value) -> (r: Result<i32, Error>)
        ensures
            agrees(r, self@.get_hash(v)),
    {
        self.hash_at(v, MAX_NESTING)
    }
}

} // verus!
