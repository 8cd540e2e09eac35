//! The built-in functions that read or make sequences and dictionaries.
use vstd::prelude::*;
use std::collections::HashSet;
use crate::basics::{copy_firsts, copy_seconds, copy_values};
use crate::builtins::{arg, get_arg, get_int, get_required, int_arg, required};
use crate::call::sink_entries;
use crate::errors::{agrees, Error, ErrorKind};
use crate::heap::{ARef, Entry, Memory, Store, Target, ValueMem};
use crate::object::{firsts, seconds, Obj, Object, PartialGen, PartialView};
use crate::ops::did;
use crate::params::{names_view, ParametersSpecBuilder, Signature};
use crate::value::Value;

verus! {

/// The values of `items` without those that came before: each value once, where it first
/// stands. Values are the same if they are the same word.
pub open spec fn dedupe_from(items: Seq<Value>, i: int, acc: Seq<Value>) -> Seq<Value>
    decreases items.len() - i,
{
    if i < 0 || i >= items.len() {
        acc
    } else if acc.contains(items[i]) {
        dedupe_from(items, i + 1, acc)
    } else {
        dedupe_from(items, i + 1, acc.push(items[i]))
    }
}

/// The signature of a partial application: it takes any arguments.
pub open spec fn partial_signature() -> Signature {
    Signature::empty("partial_closure"@).with_args().with_kwargs()
}

/// The length of the shortest of `lists`; zero if there is none.
pub open spec fn shortest(lists: Seq<Seq<Value>>) -> int
    decreases lists.len(),
{
    if lists.len() == 0 {
        0
    } else if lists.len() == 1 {
        lists[0].len() as int
    } else {
        let rest = shortest(lists.drop_last());
        if lists.last().len() < rest {
            lists.last().len() as int
        } else {
            rest
        }
    }
}

/// The contents of the vectors `lists`.
pub open spec fn views(lists: Seq<Vec<Value>>) -> Seq<Seq<Value>> {
    Seq::new(lists.len(), |i: int| lists[i]@)
}

/// The elements at index `i` of each of `lists`.
pub open spec fn column(lists: Seq<Seq<Value>>, i: int) -> Seq<Value> {
    Seq::new(lists.len(), |k: int| lists[k][i])
}

impl Store {
    /// The values that the argument in slot `i` yields: none if the argument is absent.
    pub open spec fn items_of(self, slots: Seq<Option<Value>>, i: int) -> Result<
        Seq<Value>,
        ErrorKind,
    > {
        match arg(slots, i) {
            None => Ok(Seq::empty()),
            Some(v) => self.iterate(v),
        }
    }

    /// Is one of `items` true?
    pub open spec fn any_true(self, items: Seq<Value>) -> bool {
        exists|i: int| 0 <= i < items.len() && #[trigger] self.to_bool(items[i])
    }

    /// Are all of `items` true?
    pub open spec fn all_true(self, items: Seq<Value>) -> bool {
        forall|i: int| 0 <= i < items.len() ==> #[trigger] self.to_bool(items[i])
    }

    /// `any(x)`: does `x` yield a value that is true?
    pub open spec fn builtin_any(self, slots: Seq<Option<Value>>) -> Result<Value, ErrorKind> {
        match required(slots, 0) {
            Err(k) => Err(k),
            Ok(v) => match self.iterate(v) {
                Err(k) => Err(k),
                Ok(items) => Ok(Value::Bool(self.any_true(items))),
            },
        }
    }

    /// `all(x)`: is every value that `x` yields true?
    pub open spec fn builtin_all(self, slots: Seq<Option<Value>>) -> Result<Value, ErrorKind> {
        match required(slots, 0) {
            Err(k) => Err(k),
            Ok(v) => match self.iterate(v) {
                Err(k) => Err(k),
                Ok(items) => Ok(Value::Bool(self.all_true(items))),
            },
        }
    }

    /// `list(x)`: a new list of the values that `x` yields; empty without an argument.
    pub open spec fn builtin_list(self, slots: Seq<Option<Value>>) -> (
        Store,
        Result<Value, ErrorKind>,
    ) {
        match self.items_of(slots, 0) {
            Err(k) => (self, Err(k)),
            Ok(items) => {
                let (s, v) = self.allocate(Entry::Mutable(0, Obj::List(items)));
                (s, Ok(v))
            },
        }
    }

    /// `tuple(x)`: a new tuple of the values that `x` yields; empty without an argument.
    pub open spec fn builtin_tuple(self, slots: Seq<Option<Value>>) -> (
        Store,
        Result<Value, ErrorKind>,
    ) {
        match self.items_of(slots, 0) {
            Err(k) => (self, Err(k)),
            Ok(items) => {
                let (s, v) = self.allocate(Entry::Immutable(Obj::Tuple(items)));
                (s, Ok(v))
            },
        }
    }

    /// `reversed(x)`: a new list of the values that `x` yields, last first.
    pub open spec fn builtin_reversed(self, slots: Seq<Option<Value>>) -> (
        Store,
        Result<Value, ErrorKind>,
    ) {
        match required(slots, 0) {
            Err(k) => (self, Err(k)),
            Ok(v) => match self.iterate(v) {
                Err(k) => (self, Err(k)),
                Ok(items) => {
                    let (s, r) = self.allocate(Entry::Mutable(0, Obj::List(items.reverse())));
                    (s, Ok(r))
                },
            },
        }
    }

    /// `dedupe(x)`: a new list of the values that `x` yields, each once, by identity.
    pub open spec fn builtin_dedupe(self, slots: Seq<Option<Value>>) -> (
        Store,
        Result<Value, ErrorKind>,
    ) {
        match required(slots, 0) {
            Err(k) => (self, Err(k)),
            Ok(v) => match self.iterate(v) {
                Err(k) => (self, Err(k)),
                Ok(items) => {
                    let (s, r) = self.allocate(
                        Entry::Mutable(0, Obj::List(dedupe_from(items, 0, Seq::empty()))),
                    );
                    (s, Ok(r))
                },
            },
        }
    }

    /// The store and the pairs after a tuple `(offset + k, items[k])` is allocated for each
    /// `k` from `i` on.
    pub open spec fn enumerate_from(self, items: Seq<Value>, offset: int, i: int, acc: Seq<Value>) -> (
        Store,
        Seq<Value>,
    )
        decreases items.len() - i,
    {
        if i < 0 || i >= items.len() {
            (self, acc)
        } else {
            let (s, t) = self.allocate(
                Entry::Immutable(Obj::Tuple(seq![Value::Int((offset + i) as i32), items[i]])),
            );
            s.enumerate_from(items, offset, i + 1, acc.push(t))
        }
    }

    /// `enumerate(x, offset)`: a new list of the pairs of index and value, the indices
    /// counted from `offset`. An index beyond 32 bits is an error.
    pub open spec fn builtin_enumerate(self, slots: Seq<Option<Value>>) -> (
        Store,
        Result<Value, ErrorKind>,
    ) {
        let offset = match arg(slots, 1) {
            None => Ok(0i32),
            Some(_) => int_arg(slots, 1),
        };
        match (required(slots, 0), offset) {
            (Err(k), _) => (self, Err(k)),
            (_, Err(k)) => (self, Err(k)),
            (Ok(v), Ok(from)) => match self.iterate(v) {
                Err(k) => (self, Err(k)),
                Ok(items) => if from + items.len() > i32::MAX + 1 {
                    (self, Err(ErrorKind::UserFail))
                } else {
                    let (s, pairs) = self.enumerate_from(items, from as int, 0, Seq::empty());
                    let (s2, r) = s.allocate(Entry::Mutable(0, Obj::List(pairs)));
                    (s2, Ok(r))
                },
            },
        }
    }

    /// The values that each of `args[i..]` yields, after `acc`.
    pub open spec fn iterate_all_from(self, args: Seq<Value>, i: int, acc: Seq<Seq<Value>>) -> Result<
        Seq<Seq<Value>>,
        ErrorKind,
    >
        decreases args.len() - i,
    {
        if i < 0 || i >= args.len() {
            Ok(acc)
        } else {
            match self.iterate(args[i]) {
                Ok(items) => self.iterate_all_from(args, i + 1, acc.push(items)),
                Err(k) => Err(k),
            }
        }
    }

    /// The store and the tuples after the column `k` of `lists` is allocated as a tuple,
    /// for each `k` from `i` up to `n`.
    pub open spec fn zip_from(self, lists: Seq<Seq<Value>>, n: int, i: int, acc: Seq<Value>) -> (
        Store,
        Seq<Value>,
    )
        decreases n - i,
    {
        if i < 0 || i >= n {
            (self, acc)
        } else {
            let (s, t) = self.allocate(Entry::Immutable(Obj::Tuple(column(lists, i))));
            s.zip_from(lists, n, i + 1, acc.push(t))
        }
    }

    /// `zip(*args)`: a new list of tuples, the `k`-th of the `k`-th values of each
    /// argument, as many as the shortest argument yields.
    pub open spec fn builtin_zip(self, slots: Seq<Option<Value>>) -> (
        Store,
        Result<Value, ErrorKind>,
    ) {
        match self.items_of(slots, 0) {
            Err(k) => (self, Err(k)),
            Ok(args) => match self.iterate_all_from(args, 0, Seq::empty()) {
                Err(k) => (self, Err(k)),
                Ok(lists) => {
                    let (s, tuples) = self.zip_from(lists, shortest(lists), 0, Seq::empty());
                    let (s2, r) = s.allocate(Entry::Mutable(0, Obj::List(tuples)));
                    (s2, Ok(r))
                },
            },
        }
    }

    /// The entries after each of `items[i..]`, which must yield a key and a value, is set
    /// in `acc`.
    pub open spec fn pairs_from(self, items: Seq<Value>, i: int, acc: Seq<(Value, Value)>) -> Result<
        Seq<(Value, Value)>,
        ErrorKind,
    >
        decreases items.len() - i,
    {
        if i < 0 || i >= items.len() {
            Ok(acc)
        } else {
            match self.iterate(items[i]) {
                Ok(pair) if pair.len() == 2 => match self.dict_insert(acc, pair[0], pair[1]) {
                    Ok((entries, _)) => self.pairs_from(items, i + 1, entries),
                    Err(k) => Err(k),
                },
                _ => Err(ErrorKind::UserFail),
            }
        }
    }

    /// The entries after each of `more[i..]` is set in `acc`.
    pub open spec fn insert_all_from(
        self,
        more: Seq<(Value, Value)>,
        i: int,
        acc: Seq<(Value, Value)>,
    ) -> Result<Seq<(Value, Value)>, ErrorKind>
        decreases more.len() - i,
    {
        if i < 0 || i >= more.len() {
            Ok(acc)
        } else {
            match self.dict_insert(acc, more[i].0, more[i].1) {
                Ok((entries, _)) => self.insert_all_from(more, i + 1, entries),
                Err(k) => Err(k),
            }
        }
    }

    /// `dict(x, **kwargs)`: without `x`, the dictionary of the named arguments itself.
    /// Else a new dictionary: the entries of the dictionary `x`, or the pairs that `x`
    /// yields, and then the named arguments.
    pub open spec fn builtin_dict(self, slots: Seq<Option<Value>>) -> (
        Store,
        Result<Value, ErrorKind>,
    ) {
        match (arg(slots, 0), required(slots, 1)) {
            (_, Err(k)) => (self, Err(k)),
            (None, Ok(kwargs)) => (self, Ok(kwargs)),
            (Some(a), Ok(kwargs)) => {
                let first = match self.target(a) {
                    Target::Object(Obj::Dict(d)) => self.insert_all_from(d, 0, Seq::empty()),
                    _ => match self.iterate(a) {
                        Ok(items) => self.pairs_from(items, 0, Seq::empty()),
                        Err(k) => Err(k),
                    },
                };
                match (first, self.target(kwargs)) {
                    (Err(k), _) => (self, Err(k)),
                    (Ok(entries), Target::Object(Obj::Dict(more))) => match self.insert_all_from(
                        more,
                        0,
                        entries,
                    ) {
                        Ok(all) => {
                            let (s, r) = self.allocate(Entry::Mutable(0, Obj::Dict(all)));
                            (s, Ok(r))
                        },
                        Err(k) => (self, Err(k)),
                    },
                    (Ok(_), _) => (self, Err(ErrorKind::WrongType)),
                }
            },
        }
    }

    /// `partial(f, *args, **kwargs)`: a new function that calls `f` with the arguments
    /// given here before those given to it.
    pub open spec fn builtin_partial(self, slots: Seq<Option<Value>>) -> (
        Store,
        Result<Value, ErrorKind>,
    ) {
        match (required(slots, 0), self.items_of(slots, 1), required(slots, 2)) {
            (Err(k), _, _) => (self, Err(k)),
            (_, Err(k), _) => (self, Err(k)),
            (_, _, Err(k)) => (self, Err(k)),
            (Ok(func), Ok(pos), Ok(kwargs)) => match self.target(kwargs) {
                Target::Object(Obj::Dict(d)) => match self.kwargs_names_from(d, 0, Seq::empty()) {
                    Err(k) => (self, Err(k)),
                    Ok(names) => {
                        let (s, r) = self.allocate(
                            Entry::Immutable(
                                Obj::Partial(
                                    PartialView {
                                        func,
                                        pos,
                                        named: seconds(d),
                                        names,
                                        signature: partial_signature(),
                                    },
                                ),
                            ),
                        );
                        (s, Ok(r))
                    },
                },
                _ => (self, Err(ErrorKind::WrongType)),
            },
        }
    }

    /// `enum(*args)`: a new enumeration of the arguments.
    pub open spec fn builtin_enum(self, slots: Seq<Option<Value>>) -> (
        Store,
        Result<Value, ErrorKind>,
    ) {
        match self.items_of(slots, 0) {
            Err(k) => (self, Err(k)),
            Ok(items) => self.new_enum(items),
        }
    }

    /// The method `append` of lists: the list `this` gets `x` at its end. Fails while the
    /// list is iterated over, and leaves it as it is.
    pub open spec fn list_append(self, this: Option<Value>, slots: Seq<Option<Value>>) -> (
        Store,
        Result<Value, ErrorKind>,
    ) {
        match (this, required(slots, 0)) {
            (None, _) => (self, Err(ErrorKind::WrongType)),
            (_, Err(k)) => (self, Err(k)),
            (Some(l), Ok(x)) => match self.writable(l) {
                Err(k) => (self, Err(k)),
                Ok(i) => match self.heap[i] {
                    Entry::Mutable(n, Obj::List(p)) => (
                        self.update(i, Entry::Mutable(n, Obj::List(p.push(x)))),
                        Ok(Value::Nil),
                    ),
                    _ => (self, Err(ErrorKind::NotSupported)),
                },
            },
        }
    }

    /// The method `keys` of dictionaries: a new list of the keys of `this`.
    pub open spec fn dict_keys(self, this: Option<Value>) -> (Store, Result<Value, ErrorKind>) {
        match this {
            Some(d) => match self.target(d) {
                Target::Object(Obj::Dict(entries)) => {
                    let (s, r) = self.allocate(Entry::Mutable(0, Obj::List(firsts(entries))));
                    (s, Ok(r))
                },
                _ => (self, Err(ErrorKind::NotSupported)),
            },
            None => (self, Err(ErrorKind::WrongType)),
        }
    }
}

/// The values of `items`, each once, where it first stands.
pub fn dedupe_values(items: &Vec<Value>) -> (out: Vec<Value>)
    ensures
        out@ == dedupe_from(items@, 0, Seq::empty()),
{
    let mut seen: HashSet<u128> = HashSet::new();
    let mut out: Vec<Value> = Vec::new();
    let mut i: usize = 0;
    while i < items.len()
        invariant
            i <= items.len(),
            dedupe_from(items@, 0, Seq::empty()) == dedupe_from(items@, i as int, out@),
            forall|w: u128| seen@.contains(w) <==> exists|k: int| 0 <= k < out@.len() && (
            #[trigger] out@[k]).word() == w,
        decreases items.len() - i,
    {
        let v = items[i];
        let p = v.ptr_value();
        let ghost before = out@;
        if !seen.contains(&p) {
            proof {
                if before.contains(v) {
                    let k = choose|k: int| 0 <= k < before.len() && before[k] == v;
                    assert(before[k].word() == p);
                }
            }
            seen.insert(p);
            out.push(v);
            assert forall|w: u128| seen@.contains(w) <==> exists|k: int|
                0 <= k < out@.len() && (#[trigger] out@[k]).word() == w by {
                if seen@.contains(w) {
                    if w == p {
                        assert(out@[before.len() as int].word() == w);
                    } else {
                        let k = choose|k: int| 0 <= k < before.len() && (#[trigger] before[k]).word()
                            == w;
                        assert(out@[k].word() == w);
                    }
                }
                if exists|k: int| 0 <= k < out@.len() && (#[trigger] out@[k]).word() == w {
                    let k = choose|k: int| 0 <= k < out@.len() && (#[trigger] out@[k]).word() == w;
                    if k < before.len() {
                        assert(before[k].word() == w);
                    }
                }
            }
        } else {
            proof {
                let k = choose|k: int| 0 <= k < before.len() && (#[trigger] before[k]).word() == p;
                crate::value::lemma_word_encoding(before[k], v);
                assert(before.contains(v));
            }
        }
        i += 1;
    }
    out
}

/// The values of `items`, last first.
pub fn reverse_values(items: &Vec<Value>) -> (out: Vec<Value>)
    ensures
        out@ == items@.reverse(),
{
    let mut out: Vec<Value> = Vec::new();
    let n = items.len();
    let mut i: usize = 0;
    while i < n
        invariant
            n == items.len(),
            i <= n,
            out.len() == i,
            forall|k: int| 0 <= k < i ==> out@[k] == items@[n - 1 - k],
        decreases n - i,
    {
        out.push(items[n - 1 - i]);
        i += 1;
    }
    assert(out@ =~= items@.reverse());
    out
}

impl Memory {
    /// The values that the argument in slot `i` yields.
    pub fn items_of(&self, slots: &Vec<Option<Value>>, i: usize) -> (r: Result<Vec<Value>, Error>)
        ensures
            match self@.items_of(slots@, i as int) {
                Ok(items) => r is Ok && r->Ok_0@ == items,
                Err(k) => r is Err && r->Err_0.kind == k && r->Err_0.span is None,
            },
    {
        match get_arg(slots, i) {
            None => Ok(Vec::new()),
            Some(v) => self.iterate(v),
        }
    }

    /// `any(x)`.
    pub fn builtin_any(&self, slots: &Vec<Option<Value>>) -> (r: Result<Value, Error>)
        ensures
            agrees(r, self@.builtin_any(slots@)),
    {
        let v = match get_required(slots, 0, "x") {
            Ok(v) => v,
            Err(e) => {
                return Err(e);
            },
        };
        let items = match self.iterate(v) {
            Ok(items) => items,
            Err(e) => {
                return Err(e);
            },
        };
        let mut i: usize = 0;
        while i < items.len()
            invariant
                i <= items.len(),
                required(slots@, 0) == Ok::<Value, ErrorKind>(v),
                self@.iterate(v) == Ok::<Seq<Value>, ErrorKind>(items@),
                forall|k: int| 0 <= k < i ==> !self@.to_bool(items@[k]),
            decreases items.len() - i,
        {
            if self.to_bool(items[i]) {
                assert(self@.to_bool(items@[i as int]));
                assert(self@.any_true(items@));
                return Ok(Value::Bool(true));
            }
            i += 1;
        }
        Ok(Value::Bool(false))
    }

    /// `all(x)`.
    pub fn builtin_all(&self, slots: &Vec<Option<Value>>) -> (r: Result<Value, Error>)
        ensures
            agrees(r, self@.builtin_all(slots@)),
    {
        let v = match get_required(slots, 0, "x") {
            Ok(v) => v,
            Err(e) => {
                return Err(e);
            },
        };
        let items = match self.iterate(v) {
            Ok(items) => items,
            Err(e) => {
                return Err(e);
            },
        };
        let mut i: usize = 0;
        while i < items.len()
            invariant
                i <= items.len(),
                required(slots@, 0) == Ok::<Value, ErrorKind>(v),
                self@.iterate(v) == Ok::<Seq<Value>, ErrorKind>(items@),
                forall|k: int| 0 <= k < i ==> self@.to_bool(items@[k]),
            decreases items.len() - i,
        {
            if !self.to_bool(items[i]) {
                assert(!self@.to_bool(items@[i as int]));
                assert(!self@.all_true(items@));
                return Ok(Value::Bool(false));
            }
            i += 1;
        }
        Ok(Value::Bool(true))
    }

    /// `list(x)`.
    pub fn builtin_list(&mut self, slots: &Vec<Option<Value>>) -> (r: Result<Value, Error>)
        ensures
            did(final(self)@, r, old(self)@.builtin_list(slots@)),
    {
        match self.items_of(slots, 0) {
            Ok(items) => Ok(self.alloc_object(Object::List(items))),
            Err(e) => Err(e),
        }
    }

    /// `tuple(x)`.
    pub fn builtin_tuple(&mut self, slots: &Vec<Option<Value>>) -> (r: Result<Value, Error>)
        ensures
            did(final(self)@, r, old(self)@.builtin_tuple(slots@)),
    {
        match self.items_of(slots, 0) {
            Ok(items) => Ok(self.alloc_object(Object::Tuple(items))),
            Err(e) => Err(e),
        }
    }

    /// `reversed(x)`.
    pub fn builtin_reversed(&mut self, slots: &Vec<Option<Value>>) -> (r: Result<Value, Error>)
        ensures
            did(final(self)@, r, old(self)@.builtin_reversed(slots@)),
    {
        let v = match get_required(slots, 0, "a") {
            Ok(v) => v,
            Err(e) => {
                return Err(e);
            },
        };
        match self.iterate(v) {
            Ok(items) => Ok(self.alloc_object(Object::List(reverse_values(&items)))),
            Err(e) => Err(e),
        }
    }

    /// `dedupe(x)`.
    pub fn builtin_dedupe(&mut self, slots: &Vec<Option<Value>>) -> (r: Result<Value, Error>)
        ensures
            did(final(self)@, r, old(self)@.builtin_dedupe(slots@)),
    {
        let v = match get_required(slots, 0, "val") {
            Ok(v) => v,
            Err(e) => {
                return Err(e);
            },
        };
        match self.iterate(v) {
            Ok(items) => Ok(self.alloc_object(Object::List(dedupe_values(&items)))),
            Err(e) => Err(e),
        }
    }

    /// `enumerate(x, offset)`.
    pub fn builtin_enumerate(&mut self, slots: &Vec<Option<Value>>) -> (r: Result<Value, Error>)
        ensures
            did(final(self)@, r, old(self)@.builtin_enumerate(slots@)),
    {
        let offset = match get_arg(slots, 1) {
            None => Ok(0),
            Some(_) => get_int(self, slots, 1, "offset"),
        };
        let v = match get_required(slots, 0, "it") {
            Ok(v) => v,
            Err(e) => {
                return Err(e);
            },
        };
        let from = match offset {
            Ok(n) => n,
            Err(e) => {
                return Err(e);
            },
        };
        let items = match self.iterate(v) {
            Ok(items) => items,
            Err(e) => {
                return Err(e);
            },
        };
        if from as i128 + items.len() as i128 > 0x8000_0000 {
            return Err(Error::new(ErrorKind::UserFail, "Integer overflow"));
        }
        let mut pairs: Vec<Value> = Vec::new();
        let mut i: usize = 0;
        while i < items.len()
            invariant
                i <= items.len(),
                from + items.len() <= 0x8000_0000,
                old(self)@.enumerate_from(items@, from as int, 0, Seq::empty())
                    == self@.enumerate_from(items@, from as int, i as int, pairs@),
            decreases items.len() - i,
        {
            let mut pair: Vec<Value> = Vec::new();
            pair.push(Value::Int((from as i64 + i as i64) as i32));
            pair.push(items[i]);
            assert(pair@ =~= seq![Value::Int((from + i) as i32), items@[i as int]]);
            let t = self.alloc_object(Object::Tuple(pair));
            pairs.push(t);
            i += 1;
        }
        Ok(self.alloc_object(Object::List(pairs)))
    }

    fn iterate_all(&self, args: &Vec<Value>) -> (r: Result<Vec<Vec<Value>>, Error>)
        ensures
            match self@.iterate_all_from(args@, 0, Seq::empty()) {
                Ok(lists) => r is Ok && views(r->Ok_0@) == lists,
                Err(k) => r is Err && r->Err_0.kind == k && r->Err_0.span is None,
            },
    {
        let mut out: Vec<Vec<Value>> = Vec::new();
        let mut i: usize = 0;
        assert(views(out@) =~= Seq::empty());
        while i < args.len()
            invariant
                i <= args.len(),
                self@.iterate_all_from(args@, 0, Seq::empty()) == self@.iterate_all_from(
                    args@,
                    i as int,
                    views(out@),
                ),
            decreases args.len() - i,
        {
            let ghost before = views(out@);
            match self.iterate(args[i]) {
                Ok(items) => {
                    let ghost its = items@;
                    out.push(items);
                    assert(views(out@) =~= before.push(its));
                },
                Err(e) => {
                    return Err(e);
                },
            }
            i += 1;
        }
        Ok(out)
    }

    /// `zip(*args)`.
    pub fn builtin_zip(&mut self, slots: &Vec<Option<Value>>) -> (r: Result<Value, Error>)
        ensures
            did(final(self)@, r, old(self)@.builtin_zip(slots@)),
    {
        let args = match self.items_of(slots, 0) {
            Ok(a) => a,
            Err(e) => {
                return Err(e);
            },
        };
        let lists = match self.iterate_all(&args) {
            Ok(l) => l,
            Err(e) => {
                return Err(e);
            },
        };
        let n = shortest_len(&lists);
        let mut tuples: Vec<Value> = Vec::new();
        let mut i: usize = 0;
        while i < n
            invariant
                i <= n,
                n == shortest(views(lists@)),
                forall|k: int| 0 <= k < lists.len() ==> n <= (#[trigger] lists@[k]).len(),
                old(self)@.zip_from(views(lists@), n as int, 0, Seq::empty())
                    == self@.zip_from(views(lists@), n as int, i as int, tuples@),
            decreases n - i,
        {
            let mut col: Vec<Value> = Vec::new();
            let mut k: usize = 0;
            while k < lists.len()
                invariant
                    k <= lists.len(),
                    i < n,
                    forall|j: int| 0 <= j < lists.len() ==> n <= (#[trigger] lists@[j]).len(),
                    col.len() == k,
                    forall|j: int| 0 <= j < k ==> col@[j] == lists@[j]@[i as int],
                decreases lists.len() - k,
            {
                col.push(lists[k][i]);
                k += 1;
            }
            assert(col@ =~= column(views(lists@), i as int));
            let t = self.alloc_object(Object::Tuple(col));
            tuples.push(t);
            i += 1;
        }
        Ok(self.alloc_object(Object::List(tuples)))
    }

    fn pairs_into(&self, items: &Vec<Value>, entries: &mut Vec<(Value, Value)>) -> (r: Result<
        (),
        Error,
    >)
        ensures
            match self@.pairs_from(items@, 0, old(entries)@) {
                Ok(all) => r is Ok && final(entries)@ == all,
                Err(k) => r is Err && r->Err_0.kind == k && r->Err_0.span is None,
            },
    {
        let mut i: usize = 0;
        while i < items.len()
            invariant
                i <= items.len(),
                self@.pairs_from(items@, 0, old(entries)@) == self@.pairs_from(
                    items@,
                    i as int,
                    entries@,
                ),
            decreases items.len() - i,
        {
            let pair = match self.iterate(items[i]) {
                Ok(p) => p,
                Err(_) => Vec::new(),
            };
            if pair.len() != 2 {
                let shown = match self.to_repr(items[i]) {
                    Ok(s) => s,
                    Err(_) => crate::text::owned("?"),
                };
                return Err(
                    Error::fail(
                        crate::errors::frame(
                            "Found a non-pair element in the positional argument of dict(): ",
                            shown.as_str(),
                            "",
                        ),
                    ),
                );
            }
            match self.dict_insert(entries, pair[0], pair[1]) {
                Ok(_) => {},
                Err(e) => {
                    return Err(e);
                },
            }
            i += 1;
        }
        Ok(())
    }

    fn insert_all(&self, more: &Vec<(Value, Value)>, entries: &mut Vec<(Value, Value)>) -> (r:
        Result<(), Error>)
        ensures
            match self@.insert_all_from(more@, 0, old(entries)@) {
                Ok(all) => r is Ok && final(entries)@ == all,
                Err(k) => r is Err && r->Err_0.kind == k && r->Err_0.span is None,
            },
    {
        let mut i: usize = 0;
        while i < more.len()
            invariant
                i <= more.len(),
                self@.insert_all_from(more@, 0, old(entries)@) == self@.insert_all_from(
                    more@,
                    i as int,
                    entries@,
                ),
            decreases more.len() - i,
        {
            match self.dict_insert(entries, more[i].0, more[i].1) {
                Ok(_) => {},
                Err(e) => {
                    return Err(e);
                },
            }
            i += 1;
        }
        Ok(())
    }

    /// `dict(x, **kwargs)`.
    pub fn builtin_dict(&mut self, slots: &Vec<Option<Value>>) -> (r: Result<Value, Error>)
        ensures
            did(final(self)@, r, old(self)@.builtin_dict(slots@)),
    {
        let kwargs = match get_required(slots, 1, "kwargs") {
            Ok(v) => v,
            Err(e) => {
                return Err(e);
            },
        };
        let a = match get_arg(slots, 0) {
            Some(a) => a,
            None => {
                return Ok(kwargs);
            },
        };
        let mut entries: Vec<(Value, Value)> = Vec::new();
        let first = match self.get_aref(a) {
            ARef::Object(Object::Dict(d)) => self.insert_all(d, &mut entries),
            _ => match self.iterate(a) {
                Ok(items) => self.pairs_into(&items, &mut entries),
                Err(e) => Err(e),
            },
        };
        match first {
            Ok(()) => {},
            Err(e) => {
                return Err(e);
            },
        }
        match self.get_aref(kwargs) {
            ARef::Object(Object::Dict(more)) => match self.insert_all(more, &mut entries) {
                Ok(()) => {},
                Err(e) => {
                    return Err(e);
                },
            },
            _ => {
                return Err(Error::new(ErrorKind::WrongType, "The named arguments are no dictionary"));
            },
        }
        Ok(self.alloc_object(Object::Dict(entries)))
    }

    /// `partial(f, *args, **kwargs)`.
    pub fn builtin_partial(&mut self, slots: &Vec<Option<Value>>) -> (r: Result<Value, Error>)
        ensures
            did(final(self)@, r, old(self)@.builtin_partial(slots@)),
    {
        let func = get_required(slots, 0, "func");
        let pos = self.items_of(slots, 1);
        let kwargs = get_required(slots, 2, "kwargs");
        let func = match func {
            Ok(f) => f,
            Err(e) => {
                return Err(e);
            },
        };
        let pos = match pos {
            Ok(p) => p,
            Err(e) => {
                return Err(e);
            },
        };
        let kwargs = match kwargs {
            Ok(k) => k,
            Err(e) => {
                return Err(e);
            },
        };
        let (names, named) = match self.get_aref(kwargs) {
            ARef::Object(Object::Dict(d)) => match self.kwargs_names_of(d) {
                Ok(names) => (names, copy_seconds(d)),
                Err(e) => {
                    return Err(e);
                },
            },
            _ => {
                return Err(Error::new(ErrorKind::WrongType, "The named arguments are no dictionary"));
            },
        };
        let mut signature = ParametersSpecBuilder::with_capacity(
            crate::text::owned("partial_closure"),
            2,
        );
        signature.args();
        signature.kwargs();
        Ok(
            self.alloc_object(
                Object::Partial(PartialGen { func, pos, named, names, signature: signature.build() }),
            ),
        )
    }

    /// `enum(*args)`.
    pub fn builtin_enum(&mut self, slots: &Vec<Option<Value>>) -> (r: Result<Value, Error>)
        ensures
            did(final(self)@, r, old(self)@.builtin_enum(slots@)),
    {
        match self.items_of(slots, 0) {
            Ok(items) => self.new_enum(&items),
            Err(e) => Err(e),
        }
    }

    /// The method `append` of lists.
    pub fn list_append(&mut self, this: Option<Value>, slots: &Vec<Option<Value>>) -> (r: Result<
        Value,
        Error,
    >)
        ensures
            did(final(self)@, r, old(self)@.list_append(this, slots@)),
    {
        let l = match this {
            Some(l) => l,
            None => {
                return Err(Error::new(ErrorKind::WrongType, "A list is expected"));
            },
        };
        let x = match get_required(slots, 0, "x") {
            Ok(x) => x,
            Err(e) => {
                return Err(e);
            },
        };
        let i = match self.get_ref_mut(l) {
            Ok(i) => i,
            Err(e) => {
                return Err(e);
            },
        };
        let is_list = match &self.heap.arena[i] {
            ValueMem::Mutable(_, Object::List(_)) => true,
            _ => false,
        };
        if !is_list {
            return Err(Error::new(ErrorKind::NotSupported, "A list is expected"));
        }
        match &mut self.heap.arena[i] {
            ValueMem::Mutable(_, Object::List(p)) => {
                p.push(x);
            },
            _ => {},
        }
        assert(final(self)@.heap =~= old(self)@.list_append(this, slots@).0.heap);
        Ok(Value::Nil)
    }

    /// The method `keys` of dictionaries.
    pub fn dict_keys(&mut self, this: Option<Value>) -> (r: Result<Value, Error>)
        ensures
            did(final(self)@, r, old(self)@.dict_keys(this)),
    {
        let d = match this {
            Some(d) => d,
            None => {
                return Err(Error::new(ErrorKind::WrongType, "A dictionary is expected"));
            },
        };
        match self.get_aref(d) {
            ARef::Object(Object::Dict(entries)) => {
                let keys = copy_firsts(entries);
                Ok(self.alloc_object(Object::List(keys)))
            },
            _ => Err(self.unsupported("keys", d)),
        }
    }
}

/// The length of the shortest of `lists`; zero if there is none.
pub fn shortest_len(lists: &Vec<Vec<Value>>) -> (n: usize)
    ensures
        n == shortest(views(lists@)),
        forall|k: int| 0 <= k < lists.len() ==> n <= (#[trigger] lists@[k]).len(),
{
    if lists.len() == 0 {
        return 0;
    }
    let mut n: usize = lists[0].len();
    let mut i: usize = 1;
    assert(views(lists@).take(1) =~= seq![lists@[0]@]);
    while i < lists.len()
        invariant
            1 <= i <= lists.len(),
            n == shortest(views(lists@).take(i as int)),
            forall|k: int| 0 <= k < i ==> n <= (#[trigger] lists@[k]).len(),
        decreases lists.len() - i,
    {
        assert(views(lists@).take(i + 1).drop_last() =~= views(lists@).take(i as int));
        assert(views(lists@).take(i + 1).last() == lists@[i as int]@);
        if lists[i].len() < n {
            n = lists[i].len();
        }
        i += 1;
    }
    assert(views(lists@).take(lists.len() as int) =~= views(lists@));
    n
}

} // verus!
