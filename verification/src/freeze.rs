//! Freezing: the walk that moves the values reachable from a root from the mutable heap to
//! the frozen heap.
//!
//! An entry that has moved is overwritten by a forward marker, so that a second encounter
//! gives the same frozen value: sharing is kept, and cycles end.
use vstd::prelude::*;
use crate::errors::{Error, ErrorKind};
use crate::heap::{Entry, FrozenValueMem, Memory, Store, ValueMem};
use crate::object::{firsts, seconds};
use crate::object::{
    BoundMethodGen, Def, DefView, EnumTypeGen, EnumTypeView, EnumValueGen, Obj, Object,
    PartialGen, PartialView,
};
use crate::params::{names_view, ParameterKind, ParametersSpec, Signature};
use crate::slots::ValueRef;
use crate::value::{FrozenValue, Value};

verus! {

/// How many of the first `n` entries of a heap have not moved to the frozen heap.
pub open spec fn unforwarded_upto(heap: Seq<Entry>, n: int) -> nat
    decreases n,
{
    if n <= 0 || n > heap.len() {
        0
    } else {
        unforwarded_upto(heap, n - 1) + if heap[n - 1] is Forward {
            0nat
        } else {
            1nat
        }
    }
}

/// How many entries of a heap have not moved to the frozen heap.
pub open spec fn unforwarded(heap: Seq<Entry>) -> nat {
    unforwarded_upto(heap, heap.len() as int)
}

/// Has the store `after` come from `before` by freezing: the mutable heap has the same
/// entries but for forward markers in place of some, and the frozen heap has all it had?
pub open spec fn frozen_on(before: Store, after: Store) -> bool {
    &&& after.heap.len() == before.heap.len()
    &&& forall|i: int|
        0 <= i < before.heap.len() ==> #[trigger] after.heap[i] == before.heap[i]
            || after.heap[i] is Forward
    &&& forall|i: int|
        0 <= i < before.heap.len() && before.heap[i] is Forward ==> #[trigger] after.heap[i]
            == before.heap[i]
    &&& forall|i: int|
        0 <= i < before.heap.len() && (#[trigger] after.heap[i]) is Forward ==> before.heap[i]
            is Forward || before.heap[i] is Str || before.heap[i] is Simple || before.heap[i]
            is Immutable || before.heap[i] is Mutable
    &&& before.frozen.len() <= after.frozen.len()
    &&& forall|i: int| 0 <= i < before.frozen.len() ==> #[trigger] after.frozen[i] == before.frozen[i]
}

/// The value that stands for `v` once the heap is frozen: the frozen value that the
/// forward marker of its entry names, and `v` itself if it has not moved.
pub open spec fn forwarded(s: Store, v: Value) -> Value {
    match v {
        Value::Heap(i) if i < s.heap.len() => match s.heap[i as int] {
            Entry::Forward(f) => f.to_value_spec(),
            _ => v,
        },
        _ => v,
    }
}

/// Does `v` need no freezing any more: does it live outside the mutable heap, or has its
/// entry moved?
pub open spec fn resolved(s: Store, v: Value) -> bool {
    v.is_frozen() || (v is Heap && v->Heap_0 < s.heap.len() && s.heap[v->Heap_0 as int] is Forward)
}

/// Each of `vs` as it stands once the heap is frozen.
pub open spec fn forwarded_all(s: Store, vs: Seq<Value>) -> Seq<Value> {
    Seq::new(vs.len(), |i: int| forwarded(s, vs[i]))
}

/// Each pair of `vs` as it stands once the heap is frozen.
pub open spec fn forwarded_pairs(s: Store, vs: Seq<(Value, Value)>) -> Seq<(Value, Value)> {
    Seq::new(vs.len(), |i: int| (forwarded(s, vs[i].0), forwarded(s, vs[i].1)))
}

/// What a captured variable holds once the heap is frozen: the cell is erased, and what it
/// holds stands in its place; `None` if it holds nothing.
pub open spec fn erased(s: Store, cell: Value) -> Value {
    match ValueRef(Some(cell)).get_spec(s) {
        Some(v) => forwarded(s, v),
        None => Value::Nil,
    }
}

/// The parameter as it stands once the heap is frozen.
pub open spec fn forwarded_kind(s: Store, k: ParameterKind) -> ParameterKind {
    match k {
        ParameterKind::Defaulted(v) => ParameterKind::Defaulted(forwarded(s, v)),
        other => other,
    }
}

/// The object as it stands once the heap is frozen: every value that it refers to is
/// replaced by the value that stands for it.
pub open spec fn image(s: Store, o: Obj) -> Obj {
    match o {
        Obj::List(p) => Obj::List(forwarded_all(s, p)),
        Obj::Tuple(p) => Obj::Tuple(forwarded_all(s, p)),
        Obj::Dict(p) => Obj::Dict(forwarded_pairs(s, p)),
        Obj::Bound(b) => Obj::Bound(
            BoundMethodGen { method: forwarded(s, b.method), this: forwarded(s, b.this) },
        ),
        Obj::EnumValue(e) => Obj::EnumValue(
            EnumValueGen { typ: forwarded(s, e.typ), value: forwarded(s, e.value), index: e.index },
        ),
        Obj::EnumType(t) => Obj::EnumType(
            EnumTypeView {
                typ: t.typ,
                elements: forwarded_pairs(s, t.elements),
                constructor: forwarded(s, t.constructor),
            },
        ),
        Obj::Partial(p) => Obj::Partial(
            PartialView {
                func: forwarded(s, p.func),
                pos: forwarded_all(s, p.pos),
                named: forwarded_all(s, p.named),
                names: Seq::new(p.names.len(), |i: int| (p.names[i].0, forwarded(s, p.names[i].1))),
                signature: p.signature,
            },
        ),
        Obj::Def(d) => Obj::Def(
            DefView {
                name: d.name,
                parameters: Signature {
                    kinds: Seq::new(
                        d.parameters.kinds.len(),
                        |i: int| forwarded_kind(s, d.parameters.kinds[i]),
                    ),
                    ..d.parameters
                },
                code: d.code,
                captured: Seq::new(
                    d.captured.len(),
                    |i: int| (d.captured[i].0, erased(s, d.captured[i].1)),
                ),
            },
        ),
        other => other,
    }
}

/// Has every value that the object refers to moved, or is it outside the mutable heap?
pub open spec fn closed(s: Store, o: Obj) -> bool {
    match o {
        Obj::List(p) => forall|i: int| 0 <= i < p.len() ==> resolved(s, #[trigger] p[i]),
        Obj::Tuple(p) => forall|i: int| 0 <= i < p.len() ==> resolved(s, #[trigger] p[i]),
        Obj::Dict(p) => forall|i: int|
            0 <= i < p.len() ==> resolved(s, (#[trigger] p[i]).0) && resolved(s, p[i].1),
        Obj::Bound(b) => resolved(s, b.method) && resolved(s, b.this),
        Obj::EnumValue(e) => resolved(s, e.typ) && resolved(s, e.value),
        Obj::EnumType(t) => resolved(s, t.constructor) && forall|i: int|
            0 <= i < t.elements.len() ==> resolved(s, (#[trigger] t.elements[i]).0) && resolved(
                s,
                t.elements[i].1,
            ),
        Obj::Partial(p) => resolved(s, p.func) && (forall|i: int|
            0 <= i < p.pos.len() ==> resolved(s, #[trigger] p.pos[i])) && (forall|i: int|
            0 <= i < p.named.len() ==> resolved(s, #[trigger] p.named[i])) && (forall|i: int|
            0 <= i < p.names.len() ==> resolved(s, (#[trigger] p.names[i]).1)),
        Obj::Def(d) => (forall|i: int|
            0 <= i < d.parameters.kinds.len() && (#[trigger] d.parameters.kinds[i]) is Defaulted
                ==> resolved(s, d.parameters.kinds[i]->Defaulted_0)) && (forall|i: int|
            0 <= i < d.captured.len() ==> match ValueRef(
                Some((#[trigger] d.captured[i]).1),
            ).get_spec(s) {
                Some(v) => resolved(s, v),
                None => true,
            }),
        _ => true,
    }
}

/// As [`closed`], for the object of an entry.
pub open spec fn closed_entry(s: Store, e: Entry) -> bool {
    match e {
        Entry::Immutable(o) => closed(s, o),
        Entry::Mutable(_, o) => closed(s, o),
        _ => true,
    }
}

/// The entry of the frozen heap that the entry `e` of the mutable heap moves to.
pub open spec fn image_entry(s: Store, e: Entry) -> Entry {
    match e {
        Entry::Str(t) => Entry::Str(t),
        Entry::Simple(o) => Entry::Simple(o),
        Entry::Immutable(o) => Entry::Simple(image(s, o)),
        Entry::Mutable(_, o) => Entry::Simple(image(s, o)),
        _ => Entry::Blackhole,
    }
}

/// Have the entries that moved between `before` and `after` moved faithfully: each to an
/// entry of its own that the frozen heap did not have, which holds what the entry held,
/// as it stands once the heap is frozen?
pub open spec fn moved(before: Store, after: Store) -> bool {
    &&& frozen_on(before, after)
    &&& forall|i: int|
        0 <= i < before.heap.len() && !(before.heap[i] is Forward) && (
        #[trigger] after.heap[i]) is Forward ==> {
            let f = after.heap[i]->Forward_0;
            &&& f is Ptr
            &&& before.frozen.len() <= f->Ptr_0 < after.frozen.len()
            &&& after.frozen[f->Ptr_0 as int] == image_entry(after, before.heap[i])
            &&& closed_entry(after, before.heap[i])
        }
    &&& forall|i: int, j: int|
        0 <= i < j < before.heap.len() && !(before.heap[i] is Forward) && !(before.heap[j]
            is Forward) && (#[trigger] after.heap[i]) is Forward && (#[trigger] after.heap[j])
            is Forward ==> after.heap[i] != after.heap[j]
}

/// Can `v` itself be frozen: does it live outside the mutable heap, or is its entry a
/// string or an object, or one that has moved? A cell, a value without an entry and an
/// entry that is under construction cannot.
pub open spec fn freezable(s: Store, v: Value) -> bool {
    v.is_frozen() || (v is Heap && v->Heap_0 < s.heap.len() && {
        let e = s.heap[v->Heap_0 as int];
        e is Forward || e is Str || e is Simple || e is Immutable || e is Mutable
    })
}

/// What the variable behind `cell` holds; `None` if it holds nothing.
pub open spec fn held(s: Store, cell: Value) -> Value {
    match ValueRef(Some(cell)).get_spec(s) {
        Some(v) => v,
        None => Value::Nil,
    }
}

/// The default of a parameter that has one; `None` for any other parameter.
pub open spec fn default_of(k: ParameterKind) -> Value {
    match k {
        ParameterKind::Defaulted(v) => v,
        _ => Value::Nil,
    }
}

/// The values that the object refers to: freezing the object freezes each of them. A
/// function refers to the defaults of its parameters and to what its captured variables
/// hold.
pub open spec fn refs(s: Store, o: Obj) -> Seq<Value> {
    match o {
        Obj::List(p) => p,
        Obj::Tuple(p) => p,
        Obj::Dict(p) => firsts(p) + seconds(p),
        Obj::Bound(b) => seq![b.method, b.this],
        Obj::EnumValue(e) => seq![e.typ, e.value],
        Obj::EnumType(t) => (firsts(t.elements) + seconds(t.elements)) + seq![t.constructor],
        Obj::Partial(p) => ((seq![p.func] + p.pos) + p.named) + Seq::new(
            p.names.len(),
            |i: int| p.names[i].1,
        ),
        Obj::Def(d) => Seq::new(
            d.parameters.kinds.len(),
            |i: int| default_of(d.parameters.kinds[i]),
        ) + Seq::new(d.captured.len(), |i: int| held(s, d.captured[i].1)),
        _ => Seq::empty(),
    }
}

/// The values that an entry of the mutable heap refers to. An entry that has moved refers
/// to none.
pub open spec fn entry_refs(s: Store, e: Entry) -> Seq<Value> {
    match e {
        Entry::Immutable(o) => refs(s, o),
        Entry::Mutable(_, o) => refs(s, o),
        _ => Seq::empty(),
    }
}

/// Does the entry of `v` refer to `w`?
pub open spec fn links(s: Store, v: Value, w: Value) -> bool {
    v is Heap && v->Heap_0 < s.heap.len() && entry_refs(s, s.heap[v->Heap_0 as int]).contains(w)
}

/// Does each value of `p` but the last refer to the next?
pub open spec fn walk(s: Store, p: Seq<Value>) -> bool {
    p.len() > 0 && forall|k: int| 0 <= k < p.len() - 1 ==> links(s, #[trigger] p[k], p[k + 1])
}

/// Does `p` lead from `v`, through entries that have not moved, to a value that cannot be
/// frozen?
pub open spec fn stuck(s: Store, v: Value, p: Seq<Value>) -> bool {
    walk(s, p) && p[0] == v && !freezable(s, p.last())
}

/// Does `v` reach a value that cannot be frozen? Freezing `v` fails if and only if it
/// does.
pub open spec fn blocked(s: Store, v: Value) -> bool {
    exists|p: Seq<Value>| stuck(s, v, p)
}

/// Does one of `vs` reach a value that cannot be frozen?
pub open spec fn blocked_any(s: Store, vs: Seq<Value>) -> bool {
    exists|k: int| 0 <= k < vs.len() && blocked(s, #[trigger] vs[k])
}

/// A value that cannot be frozen is blocked.
pub proof fn lemma_blocked_self(s: Store, v: Value)
    requires
        !freezable(s, v),
    ensures
        blocked(s, v),
{
    assert(stuck(s, v, seq![v]));
}

/// Freezing leaves what an object refers to as it is.
pub proof fn lemma_refs_same(a: Store, b: Store, o: Obj)
    requires
        frozen_on(a, b),
    ensures
        refs(b, o) == refs(a, o),
{
    match o {
        Obj::Def(d) => {
            let x = Seq::new(d.captured.len(), |i: int| held(a, d.captured[i].1));
            let y = Seq::new(d.captured.len(), |i: int| held(b, d.captured[i].1));
            assert(x =~= y) by {
                assert forall|i: int| 0 <= i < d.captured.len() implies x[i] == y[i] by {
                    lemma_cell_stays(a, b, d.captured[i].1);
                }
            }
        },
        _ => {},
    }
}

/// What is blocked once some entries have moved was blocked before.
pub proof fn lemma_blocked_before(a: Store, b: Store, v: Value)
    requires
        frozen_on(a, b),
        blocked(b, v),
    ensures
        blocked(a, v),
{
    let p = choose|p: Seq<Value>| stuck(b, v, p);
    assert forall|k: int| 0 <= k < p.len() - 1 implies links(a, #[trigger] p[k], p[k + 1]) by {
        assert(links(b, p[k], p[k + 1]));
        let i = p[k]->Heap_0 as int;
        assert(b.heap[i] == a.heap[i] || b.heap[i] is Forward);
        match b.heap[i] {
            Entry::Immutable(o) => {
                lemma_refs_same(a, b, o);
            },
            Entry::Mutable(_, o) => {
                lemma_refs_same(a, b, o);
            },
            _ => {},
        }
    }
    let w = p.last();
    if w is Heap && w->Heap_0 < b.heap.len() {
        let i = w->Heap_0 as int;
        assert(b.heap[i] == a.heap[i] || b.heap[i] is Forward);
    }
    assert(stuck(a, v, p));
}

/// A value whose entry refers to a blocked value is blocked.
pub proof fn lemma_blocked_from(s: Store, v: Value, w: Value)
    requires
        links(s, v, w),
        blocked(s, w),
    ensures
        blocked(s, v),
{
    let p = choose|p: Seq<Value>| stuck(s, w, p);
    let q = seq![v] + p;
    assert forall|k: int| 0 <= k < q.len() - 1 implies links(s, #[trigger] q[k], q[k + 1]) by {
        if k > 0 {
            assert(q[k] == p[k - 1]);
            assert(q[k + 1] == p[k]);
            assert(links(s, p[k - 1], p[k - 1 + 1]));
        } else {
            assert(q[1] == p[0]);
        }
    }
    assert(q.last() == p.last());
    assert(stuck(s, v, q));
}

/// If one of `xs` is blocked, one of `xs + ys` is.
pub proof fn lemma_any_left(s: Store, xs: Seq<Value>, ys: Seq<Value>)
    requires
        blocked_any(s, xs),
    ensures
        blocked_any(s, xs + ys),
{
    let k = choose|k: int| 0 <= k < xs.len() && blocked(s, #[trigger] xs[k]);
    assert((xs + ys)[k] == xs[k]);
}

/// If one of `ys` is blocked, one of `xs + ys` is.
pub proof fn lemma_any_right(s: Store, xs: Seq<Value>, ys: Seq<Value>)
    requires
        blocked_any(s, ys),
    ensures
        blocked_any(s, xs + ys),
{
    let k = choose|k: int| 0 <= k < ys.len() && blocked(s, #[trigger] ys[k]);
    assert((xs + ys)[xs.len() + k] == ys[k]);
}

/// What is blocked once some entries have moved was blocked before.
pub proof fn lemma_any_before(a: Store, b: Store, vs: Seq<Value>)
    requires
        frozen_on(a, b),
        blocked_any(b, vs),
    ensures
        blocked_any(a, vs),
{
    let k = choose|k: int| 0 <= k < vs.len() && blocked(b, #[trigger] vs[k]);
    lemma_blocked_before(a, b, vs[k]);
}

/// The values that an object refers to have all moved if the object is closed.
pub proof fn lemma_closed_refs(s: Store, o: Obj)
    requires
        closed(s, o),
    ensures
        forall|k: int| 0 <= k < refs(s, o).len() ==> resolved(s, #[trigger] refs(s, o)[k]),
{
    let r = refs(s, o);
    assert forall|k: int| 0 <= k < r.len() implies resolved(s, #[trigger] r[k]) by {
        match o {
            Obj::Dict(p) => {
                if k < p.len() {
                    assert(r[k] == p[k].0);
                } else {
                    assert(r[k] == p[k - p.len()].1);
                }
            },
            Obj::EnumType(t) => {
                let p = t.elements;
                if k < p.len() {
                    assert(r[k] == p[k].0);
                } else if k < 2 * p.len() {
                    assert(r[k] == p[k - p.len()].1);
                } else {
                    assert(r[k] == t.constructor);
                }
            },
            Obj::Partial(p) => {
                if k < 1 {
                    assert(r[k] == p.func);
                } else if k < 1 + p.pos.len() {
                    assert(r[k] == p.pos[k - 1]);
                } else if k < 1 + p.pos.len() + p.named.len() {
                    assert(r[k] == p.named[k - 1 - p.pos.len()]);
                } else {
                    let j = k - 1 - p.pos.len() - p.named.len();
                    assert(r[k] == p.names[j].1);
                }
            },
            Obj::Def(d) => {
                let n = d.parameters.kinds.len();
                if k < n {
                    assert(r[k] == default_of(d.parameters.kinds[k]));
                } else {
                    assert(r[k] == held(s, d.captured[k - n].1));
                }
            },
            _ => {},
        }
    }
}

/// Along a walk from a value that has moved, every value has moved.
pub proof fn lemma_walk_resolved(a: Store, b: Store, p: Seq<Value>, k: int)
    requires
        moved(a, b),
        walk(a, p),
        resolved(b, p[0]),
        0 <= k < p.len(),
    ensures
        resolved(b, p[k]),
    decreases k,
{
    if k > 0 {
        lemma_walk_resolved(a, b, p, k - 1);
        let v = p[k - 1];
        assert(links(a, v, p[k - 1 + 1]));
        let i = v->Heap_0 as int;
        assert(b.heap[i] is Forward);
        assert(!(a.heap[i] is Forward));
        assert(closed_entry(b, a.heap[i]));
        match a.heap[i] {
            Entry::Immutable(o) => {
                lemma_closed_refs(b, o);
                lemma_refs_same(a, b, o);
            },
            Entry::Mutable(_, o) => {
                lemma_closed_refs(b, o);
                lemma_refs_same(a, b, o);
            },
            _ => {},
        }
        let r = entry_refs(a, a.heap[i]);
        let j = choose|j: int| 0 <= j < r.len() && r[j] == p[k];
        assert(resolved(b, r[j]));
    }
}

/// A value that has moved faithfully was not blocked.
pub proof fn lemma_frozen_free(a: Store, b: Store, v: Value)
    requires
        moved(a, b),
        resolved(b, v),
    ensures
        !blocked(a, v),
{
    if blocked(a, v) {
        let p = choose|p: Seq<Value>| stuck(a, v, p);
        lemma_walk_resolved(a, b, p, p.len() - 1);
        let w = p.last();
        if w is Heap {
            let i = w->Heap_0 as int;
            assert(b.heap[i] is Forward);
        }
    }
}

/// Values that have moved faithfully were not blocked.
pub proof fn lemma_all_free(a: Store, b: Store, vs: Seq<Value>)
    requires
        moved(a, b),
        forall|k: int| 0 <= k < vs.len() ==> resolved(b, #[trigger] vs[k]),
    ensures
        !blocked_any(a, vs),
{
    if blocked_any(a, vs) {
        let k = choose|k: int| 0 <= k < vs.len() && blocked(a, #[trigger] vs[k]);
        lemma_frozen_free(a, b, vs[k]);
    }
}

/// Freezing never brings an entry back: the count of entries that have not moved does not
/// grow.
pub proof fn lemma_unforwarded_shrinks(before: Seq<Entry>, after: Seq<Entry>, n: int)
    requires
        after.len() == before.len(),
        0 <= n <= before.len(),
        forall|i: int|
            0 <= i < before.len() ==> #[trigger] after[i] == before[i] || after[i] is Forward,
    ensures
        unforwarded_upto(after, n) <= unforwarded_upto(before, n),
    decreases n,
{
    if n > 0 {
        lemma_unforwarded_shrinks(before, after, n - 1);
    }
}

/// Marking one more entry as moved lowers the count by one.
pub proof fn lemma_forward_one(heap: Seq<Entry>, at: int, f: FrozenValue, n: int)
    requires
        0 <= at < heap.len(),
        !(heap[at] is Forward),
        0 <= n <= heap.len(),
    ensures
        unforwarded_upto(heap.update(at, Entry::Forward(f)), n) + (if at < n {
            1nat
        } else {
            0nat
        }) == unforwarded_upto(heap, n),
    decreases n,
{
    if n > 0 {
        lemma_forward_one(heap, at, f, n - 1);
    }
}

/// Freezing in two steps is freezing.
pub proof fn lemma_frozen_on_trans(a: Store, b: Store, c: Store)
    requires
        frozen_on(a, b),
        frozen_on(b, c),
    ensures
        frozen_on(a, c),
{
    assert forall|i: int| 0 <= i < a.heap.len() implies #[trigger] c.heap[i] == a.heap[i]
        || c.heap[i] is Forward by {
        assert(b.heap[i] == a.heap[i] || b.heap[i] is Forward);
        assert(c.heap[i] == b.heap[i] || c.heap[i] is Forward);
    }
    assert forall|i: int| 0 <= i < a.heap.len() && a.heap[i] is Forward implies #[trigger] c.heap[i]
        == a.heap[i] by {
        assert(b.heap[i] == a.heap[i]);
        assert(c.heap[i] == b.heap[i]);
    }
    assert forall|i: int| 0 <= i < a.frozen.len() implies #[trigger] c.frozen[i] == a.frozen[i] by {
        assert(b.frozen[i] == a.frozen[i]);
        assert(c.frozen[i] == b.frozen[i]);
    }
    assert forall|i: int| 0 <= i < a.heap.len() && (#[trigger] c.heap[i]) is Forward implies a.heap[i]
        is Forward || a.heap[i] is Str || a.heap[i] is Simple || a.heap[i] is Immutable
        || a.heap[i] is Mutable by {
        assert(b.heap[i] == a.heap[i] || b.heap[i] is Forward);
        assert(c.heap[i] == b.heap[i] || c.heap[i] is Forward);
    }
}

impl Memory {
    /// Moves `value`, and all that it refers to, to the frozen heap, and gives the frozen
    /// value for it. A value that lives outside the mutable heap is its own frozen value,
    /// and nothing changes. A value that has moved before gives the frozen value that it
    /// gave then, and nothing changes. A cell is no value, and fails.
    pub fn freeze(&mut self, value: Value) -> (r: Result<FrozenValue, Error>)
        ensures
            frozen_on(old(self)@, final(self)@),
            value.is_frozen() ==> r == Ok::<FrozenValue, Error>(
                value.unpack_frozen_spec().unwrap(),
            ) && final(self)@ == old(self)@,
            (value is Heap && value->Heap_0 < old(self)@.heap.len() && (old(self)@.heap[value->Heap_0 as int] matches Entry::Forward(f))) ==> r == Ok::<
                FrozenValue,
                Error,
            >(old(self)@.heap[value->Heap_0 as int]->Forward_0) && final(self)@ == old(self)@,
            r is Ok ==> resolved(final(self)@, value) && r->Ok_0.to_value_spec() == forwarded(
                final(self)@,
                value,
            ),
            r is Ok ==> moved(old(self)@, final(self)@),
            r is Ok <==> !blocked(old(self)@, value),
            r is Err ==> r->Err_0.kind == ErrorKind::NotSupported,
        decreases unforwarded(old(self)@.heap), 0nat,
    {
        // Case 1: We have our value encoded in our pointer.
        match value.unpack_frozen() {
            Some(f) => {
                proof {
                    lemma_moved_refl(old(self)@);
                    lemma_frozen_free(old(self)@, old(self)@, value);
                }
                return Ok(f);
            },
            None => {},
        }
        let at = match value {
            Value::Heap(i) => i,
            _ => {
                proof {
                    lemma_blocked_self(old(self)@, value);
                }
                return Err(Error::new(ErrorKind::NotSupported, "A cell cannot be frozen"));
            },
        };
        if at >= self.heap.arena.len() {
            proof {
                lemma_blocked_self(old(self)@, value);
            }
            return Err(Error::new(ErrorKind::NotSupported, "No such value"));
        }
        // Case 2: We have already been replaced with a forwarding, or need to freeze.
        match &self.heap.arena[at] {
            ValueMem::Forward(f) => {
                proof {
                    lemma_moved_refl(old(self)@);
                    lemma_frozen_free(old(self)@, old(self)@, value);
                }
                return Ok(*f);
            },
            ValueMem::Str(_) | ValueMem::Simple(_) | ValueMem::Immutable(_) | ValueMem::Mutable(
                _,
                _,
            ) => {},
            _ => {
                proof {
                    lemma_blocked_self(old(self)@, value);
                }
                return Err(Error::new(ErrorKind::NotSupported, "The value cannot be frozen"));
            },
        }
        let ghost start = self@;
        let reserved = self.alloc_frozen_raw(FrozenValueMem::Blackhole);
        let slot = match reserved {
            FrozenValue::Ptr(p) => p,
            _ => 0,
        };
        let mut taken = ValueMem::Forward(reserved);
        std::mem::swap(&mut taken, &mut self.heap.arena[at]);
        let ghost marked = self@;
        proof {
            assert(marked.heap =~= start.heap.update(at as int, Entry::Forward(reserved)));
            lemma_forward_one(start.heap, at as int, reserved, start.heap.len() as int);
            assert(frozen_on(start, marked));
        }
        let ghost was = taken@;
        assert(was == start.heap[at as int]);
        let entry = match taken {
            ValueMem::Str(s) => Ok(FrozenValueMem::Str(s)),
            ValueMem::Simple(o) => Ok(FrozenValueMem::Simple(o)),
            ValueMem::Immutable(o) => match self.freeze_object(o) {
                Ok(f) => Ok(FrozenValueMem::Simple(f)),
                Err(e) => Err(e),
            },
            ValueMem::Mutable(_, o) => match self.freeze_object(o) {
                Ok(f) => Ok(FrozenValueMem::Simple(f)),
                Err(e) => Err(e),
            },
            _ => Err(Error::new(ErrorKind::NotSupported, "The value cannot be frozen")),
        };
        let ghost walked = self@;
        proof {
            lemma_frozen_on_trans(start, marked, walked);
            if entry is Ok {
                if was is Str || was is Simple {
                    lemma_moved_refl(marked);
                }
                assert(moved(marked, walked));
                assert(entry->Ok_0@ == image_entry(walked, was));
                assert(closed_entry(walked, was));
            } else {
                let held = entry_refs(marked, was);
                assert(blocked_any(marked, held));
                let k = choose|k: int| 0 <= k < held.len() && blocked(marked, #[trigger] held[k]);
                lemma_blocked_before(start, marked, held[k]);
                match was {
                    Entry::Immutable(o) => {
                        lemma_refs_same(start, marked, o);
                    },
                    Entry::Mutable(_, o) => {
                        lemma_refs_same(start, marked, o);
                    },
                    _ => {},
                }
                assert(entry_refs(start, start.heap[at as int])[k] == held[k]);
                assert(links(start, value, held[k]));
                lemma_blocked_from(start, value, held[k]);
            }
        }
        match entry {
            Ok(entry) => {
                let ghost filled = entry@;
                if slot < self.frozen.arena.len() {
                    self.frozen.arena[slot] = entry;
                }
                proof {
                    assert(slot == start.frozen.len());
                    assert(final(self)@.heap =~= walked.heap);
                    assert(final(self)@.frozen =~= walked.frozen.update(slot as int, filled));
                    assert forall|i: int| 0 <= i < start.frozen.len() implies #[trigger] final(self)@.frozen[i] == start.frozen[i] by {
                        assert(walked.frozen[i] == start.frozen[i]);
                    }
                    assert(walked.heap[at as int] == marked.heap[at as int]);
                    assert(frozen_on(start, final(self)@));
                    let last = final(self)@;
                    assert forall|o: Obj| image(last, o) == image(walked, o) by {
                        lemma_image_same_heap(walked, last, o);
                    }
                    assert forall|i: int|
                        0 <= i < start.heap.len() && !(start.heap[i] is Forward) && (
                        #[trigger] last.heap[i]) is Forward implies {
                        let f = last.heap[i]->Forward_0;
                        &&& f is Ptr
                        &&& start.frozen.len() <= f->Ptr_0 < last.frozen.len()
                        &&& last.frozen[f->Ptr_0 as int] == image_entry(last, start.heap[i])
                        &&& closed_entry(last, start.heap[i])
                    } by {
                        if i != at {
                            assert(marked.heap[i] == start.heap[i]);
                            assert(walked.heap[i] is Forward);
                            let k = walked.heap[i]->Forward_0->Ptr_0 as int;
                            assert(last.frozen[k] == walked.frozen[k]);
                            lemma_closed_same_heap(walked, last, start.heap[i]);
                        } else {
                            lemma_closed_same_heap(walked, last, start.heap[i]);
                        }
                    }
                    assert forall|i: int, j: int|
                        0 <= i < j < start.heap.len() && !(start.heap[i] is Forward) && !(
                        start.heap[j] is Forward) && (#[trigger] last.heap[i]) is Forward && (
                        #[trigger] last.heap[j]) is Forward implies last.heap[i] != last.heap[j] by {
                        if i != at && j != at {
                            assert(marked.heap[i] == start.heap[i]);
                            assert(marked.heap[j] == start.heap[j]);
                            assert(walked.heap[i] is Forward);
                            assert(walked.heap[j] is Forward);
                        } else if i == at {
                            assert(marked.heap[j] == start.heap[j]);
                            assert(walked.heap[j] is Forward);
                        } else {
                            assert(marked.heap[i] == start.heap[i]);
                            assert(walked.heap[i] is Forward);
                        }
                    }
                    assert(moved(start, last));
                    lemma_frozen_free(start, last, value);
                }
                Ok(reserved)
            },
            Err(e) => {
                proof {
                    assert(walked.heap[at as int] == marked.heap[at as int]);
                }
                Err(e)
            },
        }
    }

    /// Freezes each of `values`, in order.
    fn freeze_values(&mut self, values: &Vec<Value>) -> (r: Result<Vec<Value>, Error>)
        ensures
            frozen_on(old(self)@, final(self)@),
            r is Ok ==> r->Ok_0@ == forwarded_all(final(self)@, values@) && forall|i: int|
                0 <= i < values@.len() ==> resolved(final(self)@, #[trigger] values@[i]),
            r is Ok ==> moved(old(self)@, final(self)@),
            r is Ok <==> !blocked_any(old(self)@, values@),
            r is Err ==> r->Err_0.kind == ErrorKind::NotSupported,
        decreases unforwarded(old(self)@.heap), 1nat,
    {
        let mut out: Vec<Value> = Vec::new();
        let mut i: usize = 0;
        proof {
            lemma_moved_refl(old(self)@);
        }
        while i < values.len()
            invariant
                i <= values.len(),
                out@.len() == i,
                frozen_on(old(self)@, self@),
                moved(old(self)@, self@),
                forall|k: int|
                    0 <= k < i ==> resolved(self@, #[trigger] values@[k]) && out@[k] == forwarded(
                        self@,
                        values@[k],
                    ),
            decreases values.len() - i,
        {
            let ghost before = self@;
            proof {
                lemma_unforwarded_shrinks(
                    old(self)@.heap,
                    before.heap,
                    before.heap.len() as int,
                );
            }
            match self.freeze(values[i]) {
                Ok(f) => {
                    out.push(f.to_value());
                },
                Err(e) => {
                    proof {
                        lemma_frozen_on_trans(old(self)@, before, self@);
                        lemma_blocked_before(old(self)@, before, values@[i as int]);
                    }
                    return Err(e);
                },
            }
            proof {
                lemma_frozen_on_trans(old(self)@, before, self@);
                lemma_moved_trans(old(self)@, before, self@);
                assert forall|k: int| 0 <= k < i implies resolved(self@, #[trigger] values@[k])
                    && out@[k] == forwarded(self@, values@[k]) by {
                    lemma_resolved_stays(before, self@, values@[k]);
                }
            }
            i += 1;
        }
        assert(out@ =~= forwarded_all(self@, values@));
        proof {
            lemma_all_free(old(self)@, self@, values@);
        }
        Ok(out)
    }

    /// Freezes one value, and gives it as a value.
    fn freeze_value(&mut self, value: Value) -> (r: Result<Value, Error>)
        ensures
            frozen_on(old(self)@, final(self)@),
            r is Ok ==> resolved(final(self)@, value) && r->Ok_0 == forwarded(final(self)@, value),
            r is Ok ==> moved(old(self)@, final(self)@),
            r is Ok <==> !blocked(old(self)@, value),
            r is Err ==> r->Err_0.kind == ErrorKind::NotSupported,
        decreases unforwarded(old(self)@.heap), 1nat,
    {
        match self.freeze(value) {
            Ok(f) => Ok(f.to_value()),
            Err(e) => Err(e),
        }
    }

    /// Freezes the value of a captured variable: the cell is erased, and what it holds is
    /// frozen. An unassigned variable becomes `None`.
    fn freeze_captured(&mut self, value: Value) -> (r: Result<Value, Error>)
        ensures
            frozen_on(old(self)@, final(self)@),
            r is Ok ==> r->Ok_0 == erased(final(self)@, value) && (match ValueRef(
                Some(value),
            ).get_spec(final(self)@) {
                Some(v) => resolved(final(self)@, v),
                None => true,
            }),
            r is Ok ==> moved(old(self)@, final(self)@),
            r is Ok <==> !blocked(old(self)@, held(old(self)@, value)),
            r is Err ==> r->Err_0.kind == ErrorKind::NotSupported,
        decreases unforwarded(old(self)@.heap), 2nat,
    {
        let held = ValueRef(Some(value)).get(self);
        match held {
            Some(Value::Cell(_)) => {
                proof {
                    lemma_blocked_self(old(self)@, held.unwrap());
                }
                Err(Error::new(ErrorKind::NotSupported, "A cell holds a cell"))
            },
            Some(v) => {
                let r = self.freeze_value(v);
                proof {
                    lemma_cell_stays(old(self)@, self@, value);
                }
                r
            },
            None => {
                proof {
                    lemma_moved_refl(old(self)@);
                    lemma_frozen_free(old(self)@, old(self)@, Value::Nil);
                }
                Ok(Value::Nil)
            },
        }
    }

    /// The object with every value that it refers to frozen.
    fn freeze_object(&mut self, o: Object) -> (r: Result<Object, Error>)
        ensures
            frozen_on(old(self)@, final(self)@),
            r is Ok ==> r->Ok_0@ == image(final(self)@, o@),
            r is Ok ==> moved(old(self)@, final(self)@) && closed(final(self)@, o@),
            r is Ok <==> !blocked_any(old(self)@, refs(old(self)@, o@)),
            r is Err ==> r->Err_0.kind == ErrorKind::NotSupported,
        decreases unforwarded(old(self)@.heap), 4nat,
    {
        match o {
            Object::List(vs) => match self.freeze_values(&vs) {
                Ok(f) => Ok(Object::List(f)),
                Err(e) => Err(e),
            },
            Object::Tuple(vs) => match self.freeze_values(&vs) {
                Ok(f) => Ok(Object::Tuple(f)),
                Err(e) => Err(e),
            },
            Object::Dict(entries) => match self.freeze_pairs(&entries) {
                Ok(f) => Ok(Object::Dict(f)),
                Err(e) => Err(e),
            },
            Object::BoundMethod(b) => self.freeze_bound(b),
            Object::EnumValue(v) => self.freeze_enum_value(v),
            Object::EnumType(t) => self.freeze_enum_type(t),
            Object::Partial(p) => self.freeze_partial(p),
            Object::Def(d) => self.freeze_def(d),
            other => {
                proof {
                    lemma_moved_refl(old(self)@);
                }
                Ok(other)
            },
        }
    }

    /// A bound method with its function and its receiver frozen.
    fn freeze_bound(&mut self, b: BoundMethodGen) -> (r: Result<Object, Error>)
        ensures
            frozen_on(old(self)@, final(self)@),
            r is Ok ==> r->Ok_0@ == image(final(self)@, Obj::Bound(b)),
            r is Ok ==> moved(old(self)@, final(self)@) && closed(final(self)@, Obj::Bound(b)),
            r is Ok <==> !blocked_any(old(self)@, refs(old(self)@, Obj::Bound(b))),
            r is Err ==> r->Err_0.kind == ErrorKind::NotSupported,
        decreases unforwarded(old(self)@.heap), 3nat,
    {
        let ghost ov = Obj::Bound(b);
        let ghost start = self@;
        let ghost all = refs(start, ov);
        let method = match self.freeze_value(b.method) {
            Ok(m) => m,
            Err(e) => {
                assert(blocked(start, all[0]));
                return Err(e);
            },
        };
        let ghost mid = self@;
        proof {
            lemma_unforwarded_shrinks(start.heap, mid.heap, mid.heap.len() as int);
        }
        match self.freeze_value(b.this) {
            Ok(this) => {
                proof {
                    lemma_frozen_on_trans(start, mid, self@);
                    lemma_moved_trans(start, mid, self@);
                    lemma_resolved_stays(mid, self@, b.method);
                    lemma_all_free(start, self@, all);
                }
                Ok(Object::BoundMethod(BoundMethodGen { method, this }))
            },
            Err(e) => {
                proof {
                    lemma_frozen_on_trans(start, mid, self@);
                    lemma_blocked_before(start, mid, b.this);
                    assert(blocked(start, all[1]));
                }
                Err(e)
            },
        }
    }

    /// A value of an enumeration with its type and its value frozen.
    fn freeze_enum_value(&mut self, v: EnumValueGen) -> (r: Result<Object, Error>)
        ensures
            frozen_on(old(self)@, final(self)@),
            r is Ok ==> r->Ok_0@ == image(final(self)@, Obj::EnumValue(v)),
            r is Ok ==> moved(old(self)@, final(self)@) && closed(final(self)@, Obj::EnumValue(v)),
            r is Ok <==> !blocked_any(old(self)@, refs(old(self)@, Obj::EnumValue(v))),
            r is Err ==> r->Err_0.kind == ErrorKind::NotSupported,
        decreases unforwarded(old(self)@.heap), 3nat,
    {
        let ghost ov = Obj::EnumValue(v);
        let ghost start = self@;
        let ghost all = refs(start, ov);
        let typ = match self.freeze_value(v.typ) {
            Ok(t) => t,
            Err(e) => {
                assert(blocked(start, all[0]));
                return Err(e);
            },
        };
        let ghost mid = self@;
        proof {
            lemma_unforwarded_shrinks(start.heap, mid.heap, mid.heap.len() as int);
        }
        match self.freeze_value(v.value) {
            Ok(value) => {
                proof {
                    lemma_frozen_on_trans(start, mid, self@);
                    lemma_moved_trans(start, mid, self@);
                    lemma_resolved_stays(mid, self@, v.typ);
                    lemma_all_free(start, self@, all);
                }
                Ok(Object::EnumValue(EnumValueGen { typ, value, index: v.index }))
            },
            Err(e) => {
                proof {
                    lemma_frozen_on_trans(start, mid, self@);
                    lemma_blocked_before(start, mid, v.value);
                    assert(blocked(start, all[1]));
                }
                Err(e)
            },
        }
    }

    /// An enumeration type with its members and its constructor frozen.
    fn freeze_enum_type(&mut self, t: EnumTypeGen) -> (r: Result<Object, Error>)
        ensures
            frozen_on(old(self)@, final(self)@),
            r is Ok ==> r->Ok_0@ == image(final(self)@, Obj::EnumType(t@)),
            r is Ok ==> moved(old(self)@, final(self)@) && closed(final(self)@, Obj::EnumType(t@)),
            r is Ok <==> !blocked_any(old(self)@, refs(old(self)@, Obj::EnumType(t@))),
            r is Err ==> r->Err_0.kind == ErrorKind::NotSupported,
        decreases unforwarded(old(self)@.heap), 3nat,
    {
        let ghost ov = Obj::EnumType(t@);
        let ghost start = self@;
        let ghost tv = t@;
        let ghost members = firsts(tv.elements) + seconds(tv.elements);
        let elements = match self.freeze_pairs(&t.elements) {
            Ok(f) => f,
            Err(e) => {
                proof {
                    lemma_any_left(start, members, seq![tv.constructor]);
                }
                return Err(e);
            },
        };
        let ghost mid = self@;
        proof {
            lemma_unforwarded_shrinks(start.heap, mid.heap, mid.heap.len() as int);
        }
        match self.freeze_value(t.constructor) {
            Ok(constructor) => {
                proof {
                    lemma_frozen_on_trans(start, mid, self@);
                    lemma_moved_trans(start, mid, self@);
                    lemma_pairs_stay(mid, self@, tv.elements);
                    lemma_closed_refs(self@, ov);
                    lemma_refs_same(start, self@, ov);
                    lemma_all_free(start, self@, refs(start, ov));
                }
                Ok(Object::EnumType(EnumTypeGen { typ: t.typ, elements, constructor }))
            },
            Err(e) => {
                proof {
                    lemma_frozen_on_trans(start, mid, self@);
                    lemma_blocked_before(start, mid, tv.constructor);
                    assert(blocked(start, seq![tv.constructor][0]));
                    lemma_any_right(start, members, seq![tv.constructor]);
                }
                Err(e)
            },
        }
    }

    fn freeze_pairs(&mut self, pairs: &Vec<(Value, Value)>) -> (r: Result<
        Vec<(Value, Value)>,
        Error,
    >)
        ensures
            frozen_on(old(self)@, final(self)@),
            r is Ok ==> r->Ok_0@ == forwarded_pairs(final(self)@, pairs@) && forall|i: int|
                0 <= i < pairs@.len() ==> resolved(final(self)@, (#[trigger] pairs@[i]).0)
                    && resolved(final(self)@, pairs@[i].1),
            r is Ok ==> moved(old(self)@, final(self)@),
            r is Ok <==> !blocked_any(old(self)@, firsts(pairs@) + seconds(pairs@)),
            r is Err ==> r->Err_0.kind == ErrorKind::NotSupported,
        decreases unforwarded(old(self)@.heap), 2nat,
    {
        let ghost start = self@;
        let keys = crate::basics::copy_firsts(pairs);
        let values = crate::basics::copy_seconds(pairs);
        let fk = match self.freeze_values(&keys) {
            Ok(f) => f,
            Err(e) => {
                proof {
                    lemma_any_left(start, keys@, values@);
                }
                return Err(e);
            },
        };
        let ghost mid = self@;
        proof {
            lemma_unforwarded_shrinks(start.heap, mid.heap, mid.heap.len() as int);
        }
        let fv = match self.freeze_values(&values) {
            Ok(f) => f,
            Err(e) => {
                proof {
                    lemma_frozen_on_trans(start, mid, self@);
                    lemma_any_before(start, mid, values@);
                    lemma_any_right(start, keys@, values@);
                }
                return Err(e);
            },
        };
        proof {
            lemma_frozen_on_trans(start, mid, self@);
            lemma_moved_trans(start, mid, self@);
            assert forall|k: int| 0 <= k < pairs@.len() implies resolved(
                self@,
                (#[trigger] pairs@[k]).0,
            ) && resolved(self@, pairs@[k].1) && fk@[k] == forwarded(self@, pairs@[k].0) by {
                assert(keys@[k] == pairs@[k].0);
                assert(values@[k] == pairs@[k].1);
                lemma_resolved_stays(mid, self@, keys@[k]);
            }
        }
        let mut out: Vec<(Value, Value)> = Vec::new();
        let mut i: usize = 0;
        while i < fk.len()
            invariant
                i <= fk.len(),
                fk.len() == fv.len(),
                out@.len() == i,
                forall|k: int| 0 <= k < i ==> out@[k] == (fk@[k], fv@[k]),
            decreases fk.len() - i,
        {
            out.push((fk[i], fv[i]));
            i += 1;
        }
        assert(out@ =~= forwarded_pairs(self@, pairs@)) by {
            assert forall|k: int| 0 <= k < pairs@.len() implies out@[k] == forwarded_pairs(
                self@,
                pairs@,
            )[k] by {
                assert(values@[k] == pairs@[k].1);
                assert(fv@[k] == forwarded(self@, values@[k]));
                assert(resolved(self@, pairs@[k].0));
            }
        }
        proof {
            let all = keys@ + values@;
            assert forall|k: int| 0 <= k < all.len() implies resolved(self@, #[trigger] all[k]) by {
                if k < keys@.len() {
                    assert(all[k] == pairs@[k].0);
                } else {
                    assert(all[k] == pairs@[k - keys@.len()].1);
                }
            }
            lemma_all_free(start, self@, all);
        }
        Ok(out)
    }

    fn freeze_partial(&mut self, p: PartialGen) -> (r: Result<Object, Error>)
        ensures
            frozen_on(old(self)@, final(self)@),
            r is Ok ==> r->Ok_0@ == image(final(self)@, Obj::Partial(p@)),
            r is Ok ==> moved(old(self)@, final(self)@) && closed(final(self)@, Obj::Partial(p@)),
            r is Ok <==> !blocked_any(old(self)@, refs(old(self)@, Obj::Partial(p@))),
            r is Err ==> r->Err_0.kind == ErrorKind::NotSupported,
        decreases unforwarded(old(self)@.heap), 3nat,
    {
        let ghost start = self@;
        let ghost pv = p@;
        let ghost head = seq![pv.func];
        let ghost tail = Seq::new(pv.names.len(), |i: int| pv.names[i].1);
        let func = match self.freeze_value(p.func) {
            Ok(f) => f,
            Err(e) => {
                proof {
                    assert(blocked(start, head[0]));
                    lemma_any_left(start, head, pv.pos);
                    lemma_any_left(start, head + pv.pos, pv.named);
                    lemma_any_left(start, (head + pv.pos) + pv.named, tail);
                }
                return Err(e);
            },
        };
        let ghost s1 = self@;
        proof {
            lemma_unforwarded_shrinks(start.heap, s1.heap, s1.heap.len() as int);
        }
        let pos = match self.freeze_values(&p.pos) {
            Ok(f) => f,
            Err(e) => {
                proof {
                    lemma_frozen_on_trans(start, s1, self@);
                    lemma_any_before(start, s1, pv.pos);
                    lemma_any_right(start, head, pv.pos);
                    lemma_any_left(start, head + pv.pos, pv.named);
                    lemma_any_left(start, (head + pv.pos) + pv.named, tail);
                }
                return Err(e);
            },
        };
        let ghost s2 = self@;
        proof {
            lemma_frozen_on_trans(start, s1, s2);
            lemma_moved_trans(start, s1, s2);
            lemma_unforwarded_shrinks(start.heap, s2.heap, s2.heap.len() as int);
        }
        let named = match self.freeze_values(&p.named) {
            Ok(f) => f,
            Err(e) => {
                proof {
                    lemma_frozen_on_trans(start, s2, self@);
                    lemma_any_before(start, s2, pv.named);
                    lemma_any_right(start, head + pv.pos, pv.named);
                    lemma_any_left(start, (head + pv.pos) + pv.named, tail);
                }
                return Err(e);
            },
        };
        let ghost s3 = self@;
        proof {
            lemma_frozen_on_trans(start, s2, s3);
            lemma_moved_trans(start, s2, s3);
            lemma_unforwarded_shrinks(start.heap, s3.heap, s3.heap.len() as int);
        }
        let mut keys: Vec<Value> = Vec::new();
        let mut i: usize = 0;
        while i < p.names.len()
            invariant
                i <= p.names.len(),
                keys@.len() == i,
                forall|k: int| 0 <= k < i ==> keys@[k] == p.names@[k].1,
            decreases p.names.len() - i,
        {
            keys.push(p.names[i].1);
            i += 1;
        }
        assert(keys@ =~= tail);
        let fkeys = match self.freeze_values(&keys) {
            Ok(f) => f,
            Err(e) => {
                proof {
                    lemma_frozen_on_trans(start, s3, self@);
                    lemma_any_before(start, s3, tail);
                    lemma_any_right(start, (head + pv.pos) + pv.named, tail);
                }
                return Err(e);
            },
        };
        let ghost s4 = self@;
        proof {
            lemma_frozen_on_trans(start, s3, s4);
            lemma_moved_trans(start, s3, s4);
            lemma_frozen_on_trans(s1, s2, s3);
            lemma_frozen_on_trans(s1, s3, s4);
            lemma_frozen_on_trans(s2, s3, s4);
            lemma_resolved_stays(s1, s4, pv.func);
            lemma_all_stay(s2, s4, pv.pos);
            lemma_all_stay(s3, s4, pv.named);
        }
        let mut names: Vec<(String, Value)> = Vec::new();
        let mut j: usize = 0;
        while j < p.names.len()
            invariant
                j <= p.names.len(),
                names@.len() == j,
                fkeys@.len() == p.names@.len(),
                forall|k: int|
                    0 <= k < j ==> (#[trigger] names@[k]).0@ == p.names@[k].0@ && names@[k].1
                        == fkeys@[k],
            decreases p.names.len() - j,
        {
            names.push((p.names[j].0.clone(), fkeys[j]));
            j += 1;
        }
        let r = PartialGen { func, pos, named, names, signature: p.signature };
        proof {
            let want = image(s4, Obj::Partial(pv))->Partial_0;
            assert(r@.names =~= want.names) by {
                assert forall|k: int| 0 <= k < pv.names.len() implies r@.names[k] == want.names[k] by {
                    assert(keys@[k] == p.names@[k].1);
                    assert(fkeys@[k] == forwarded(s4, keys@[k]));
                }
            }
            assert forall|k: int| 0 <= k < pv.names.len() implies resolved(
                s4,
                (#[trigger] pv.names[k]).1,
            ) by {
                assert(keys@[k] == p.names@[k].1);
                assert(resolved(s4, keys@[k]));
            }
            lemma_closed_refs(s4, Obj::Partial(pv));
            lemma_refs_same(start, s4, Obj::Partial(pv));
            lemma_all_free(start, s4, refs(start, Obj::Partial(pv)));
        }
        Ok(Object::Partial(r))
    }

    fn freeze_def(&mut self, d: Def) -> (r: Result<Object, Error>)
        ensures
            frozen_on(old(self)@, final(self)@),
            r is Ok ==> r->Ok_0@ == image(final(self)@, Obj::Def(d@)),
            r is Ok ==> moved(old(self)@, final(self)@) && closed(final(self)@, Obj::Def(d@)),
            r is Ok <==> !blocked_any(old(self)@, refs(old(self)@, Obj::Def(d@))),
            r is Err ==> r->Err_0.kind == ErrorKind::NotSupported,
        decreases unforwarded(old(self)@.heap), 3nat,
    {
        let ghost start = self@;
        let ghost dv = d@;
        let ghost defaults = Seq::new(
            dv.parameters.kinds.len(),
            |i: int| default_of(dv.parameters.kinds[i]),
        );
        let ghost cells = Seq::new(dv.captured.len(), |i: int| held(start, dv.captured[i].1));
        let mut kinds: Vec<ParameterKind> = Vec::new();
        let mut i: usize = 0;
        proof {
            lemma_moved_refl(start);
        }
        while i < d.parameters.kinds.len()
            invariant
                i <= d.parameters.kinds.len(),
                start == old(self)@,
                dv == d@,
                defaults == Seq::new(
                    dv.parameters.kinds.len(),
                    |i: int| default_of(dv.parameters.kinds[i]),
                ),
                cells == Seq::new(dv.captured.len(), |i: int| held(start, dv.captured[i].1)),
                kinds@.len() == i,
                frozen_on(start, self@),
                moved(start, self@),
                forall|k: int|
                    0 <= k < i ==> #[trigger] kinds@[k] == forwarded_kind(
                        self@,
                        d.parameters.kinds@[k],
                    ) && (d.parameters.kinds@[k] is Defaulted ==> resolved(
                        self@,
                        d.parameters.kinds@[k]->Defaulted_0,
                    )),
            decreases d.parameters.kinds.len() - i,
        {
            let ghost before = self@;
            proof {
                lemma_unforwarded_shrinks(start.heap, before.heap, before.heap.len() as int);
            }
            let kind = match d.parameters.kinds[i] {
                ParameterKind::Defaulted(v) => {
                    match self.freeze_value(v) {
                        Ok(f) => ParameterKind::Defaulted(f),
                        Err(e) => {
                            proof {
                                lemma_frozen_on_trans(start, before, self@);
                                lemma_blocked_before(start, before, v);
                                assert(defaults[i as int] == v);
                                lemma_any_left(start, defaults, cells);
                            }
                            return Err(e);
                        },
                    }
                },
                other => other,
            };
            proof {
                lemma_frozen_on_trans(start, before, self@);
                if kind == d.parameters.kinds@[i as int] && !(kind is Defaulted) {
                    lemma_moved_refl(before);
                }
                lemma_moved_trans(start, before, self@);
                assert forall|k: int| 0 <= k < i implies #[trigger] kinds@[k] == forwarded_kind(
                    self@,
                    d.parameters.kinds@[k],
                ) && (d.parameters.kinds@[k] is Defaulted ==> resolved(
                    self@,
                    d.parameters.kinds@[k]->Defaulted_0,
                )) by {
                    if d.parameters.kinds@[k] is Defaulted {
                        lemma_resolved_stays(before, self@, d.parameters.kinds@[k]->Defaulted_0);
                    }
                }
            }
            kinds.push(kind);
            i += 1;
        }
        let ghost s1 = self@;
        let mut captured: Vec<(usize, Value)> = Vec::new();
        let mut j: usize = 0;
        while j < d.captured.len()
            invariant
                j <= d.captured.len(),
                start == old(self)@,
                dv == d@,
                defaults == Seq::new(
                    dv.parameters.kinds.len(),
                    |i: int| default_of(dv.parameters.kinds[i]),
                ),
                cells == Seq::new(dv.captured.len(), |i: int| held(start, dv.captured[i].1)),
                captured@.len() == j,
                frozen_on(start, self@),
                frozen_on(s1, self@),
                moved(start, self@),
                kinds@.len() == d.parameters.kinds@.len(),
                forall|k: int|
                    0 <= k < kinds@.len() ==> #[trigger] kinds@[k] == forwarded_kind(
                        s1,
                        d.parameters.kinds@[k],
                    ) && (d.parameters.kinds@[k] is Defaulted ==> resolved(
                        s1,
                        d.parameters.kinds@[k]->Defaulted_0,
                    )),
                forall|k: int|
                    0 <= k < j ==> capture_frozen(self@, d.captured@[k], #[trigger] captured@[k]),
            decreases d.captured.len() - j,
        {
            let ghost before = self@;
            let ghost sofar = captured@;
            proof {
                lemma_unforwarded_shrinks(start.heap, before.heap, before.heap.len() as int);
            }
            match self.freeze_captured(d.captured[j].1) {
                Ok(v) => {
                    captured.push((d.captured[j].0, v));
                },
                Err(e) => {
                    proof {
                        lemma_frozen_on_trans(start, before, self@);
                        let c = d.captured@[j as int].1;
                        lemma_cell_stays(start, before, c);
                        lemma_blocked_before(start, before, held(before, c));
                        assert(cells[j as int] == held(start, c));
                        lemma_any_right(start, defaults, cells);
                    }
                    return Err(e);
                },
            }
            proof {
                lemma_frozen_on_trans(start, before, self@);
                lemma_frozen_on_trans(s1, before, self@);
                lemma_moved_trans(start, before, self@);
                assert forall|k: int| 0 <= k < j + 1 implies capture_frozen(
                    self@,
                    d.captured@[k],
                    #[trigger] captured@[k],
                ) by {
                    if k < j {
                        assert(capture_frozen(before, d.captured@[k], sofar[k]));
                        assert(sofar[k] == captured@[k]);
                        lemma_cell_stays(before, self@, d.captured@[k].1);
                        lemma_erased_stays(before, self@, d.captured@[k].1);
                    }
                }
            }
            j += 1;
        }
        let parameters = ParametersSpec {
            function_name: d.parameters.function_name,
            kinds,
            names: d.parameters.names,
            positional: d.parameters.positional,
            args: d.parameters.args,
            kwargs: d.parameters.kwargs,
        };
        let r = Def { name: d.name, parameters, code: d.code, captured };
        proof {
            let want = image(self@, Obj::Def(dv))->Def_0;
            assert(r@.captured =~= want.captured);
            assert forall|k: int|
                0 <= k < dv.parameters.kinds.len() && (#[trigger] dv.parameters.kinds[k])
                    is Defaulted implies resolved(self@, dv.parameters.kinds[k]->Defaulted_0) by {
                assert(kinds@[k] == forwarded_kind(s1, d.parameters.kinds@[k]));
                lemma_resolved_stays(s1, self@, dv.parameters.kinds[k]->Defaulted_0);
            }
            assert forall|k: int| 0 <= k < dv.captured.len() implies match ValueRef(
                Some((#[trigger] dv.captured[k]).1),
            ).get_spec(self@) {
                Some(v) => resolved(self@, v),
                None => true,
            } by {
                assert(capture_frozen(self@, d.captured@[k], captured@[k]));
            }
            assert(r@.parameters.kinds =~= want.parameters.kinds) by {
                assert forall|k: int| 0 <= k < dv.parameters.kinds.len() implies r@.parameters.kinds[k]
                    == want.parameters.kinds[k] by {
                    assert(kinds@[k] == forwarded_kind(s1, d.parameters.kinds@[k]));
                    if dv.parameters.kinds[k] is Defaulted {
                        lemma_resolved_stays(s1, self@, dv.parameters.kinds[k]->Defaulted_0);
                    }
                }
            }
            lemma_closed_refs(self@, Obj::Def(dv));
            lemma_refs_same(start, self@, Obj::Def(dv));
            lemma_all_free(start, self@, refs(start, Obj::Def(dv)));
        }
        Ok(Object::Def(r))
    }
}

/// An object whose values have all moved stands for the same frozen object ever after.
pub proof fn lemma_image_stays(before: Store, after: Store, o: Obj)
    requires
        frozen_on(before, after),
        closed(before, o),
    ensures
        closed(after, o),
        image(after, o) == image(before, o),
{
    match o {
        Obj::List(p) => {
            lemma_all_stay(before, after, p);
        },
        Obj::Tuple(p) => {
            lemma_all_stay(before, after, p);
        },
        Obj::Dict(p) => {
            lemma_pairs_stay(before, after, p);
        },
        Obj::Bound(b) => {
            lemma_resolved_stays(before, after, b.method);
            lemma_resolved_stays(before, after, b.this);
        },
        Obj::EnumValue(e) => {
            lemma_resolved_stays(before, after, e.typ);
            lemma_resolved_stays(before, after, e.value);
        },
        Obj::EnumType(t) => {
            lemma_pairs_stay(before, after, t.elements);
            lemma_resolved_stays(before, after, t.constructor);
        },
        Obj::Partial(p) => {
            lemma_resolved_stays(before, after, p.func);
            lemma_all_stay(before, after, p.pos);
            lemma_all_stay(before, after, p.named);
            let a = image(after, o)->Partial_0;
            let b = image(before, o)->Partial_0;
            assert(a.names =~= b.names) by {
                assert forall|i: int| 0 <= i < p.names.len() implies a.names[i] == b.names[i] by {
                    assert(resolved(before, p.names[i].1));
                    lemma_resolved_stays(before, after, p.names[i].1);
                }
            }
            assert forall|i: int| 0 <= i < p.names.len() implies resolved(
                after,
                (#[trigger] p.names[i]).1,
            ) by {
                lemma_resolved_stays(before, after, p.names[i].1);
            }
        },
        Obj::Def(d) => {
            let a = image(after, o)->Def_0;
            let b = image(before, o)->Def_0;
            assert(a.parameters.kinds =~= b.parameters.kinds) by {
                assert forall|i: int| 0 <= i < d.parameters.kinds.len() implies a.parameters.kinds[i]
                    == b.parameters.kinds[i] by {
                    if d.parameters.kinds[i] is Defaulted {
                        lemma_resolved_stays(before, after, d.parameters.kinds[i]->Defaulted_0);
                    }
                }
            }
            assert forall|i: int|
                0 <= i < d.parameters.kinds.len() && (#[trigger] d.parameters.kinds[i])
                    is Defaulted implies resolved(after, d.parameters.kinds[i]->Defaulted_0) by {
                lemma_resolved_stays(before, after, d.parameters.kinds[i]->Defaulted_0);
            }
            assert(a.captured =~= b.captured) by {
                assert forall|i: int| 0 <= i < d.captured.len() implies a.captured[i]
                    == b.captured[i] by {
                    assert(d.captured[i].1 == d.captured[i].1);
                    lemma_cell_stays(before, after, d.captured[i].1);
                    lemma_erased_stays(before, after, d.captured[i].1);
                }
            }
            assert forall|i: int| 0 <= i < d.captured.len() implies match ValueRef(
                Some((#[trigger] d.captured[i]).1),
            ).get_spec(after) {
                Some(v) => resolved(after, v),
                None => true,
            } by {
                lemma_cell_stays(before, after, d.captured[i].1);
                lemma_erased_stays(before, after, d.captured[i].1);
            }
        },
        _ => {},
    }
}

/// What an object comes to once the heap is frozen depends on the mutable heap alone.
pub proof fn lemma_image_same_heap(a: Store, b: Store, o: Obj)
    requires
        a.heap == b.heap,
    ensures
        image(a, o) == image(b, o),
{
    match o {
        Obj::List(p) => {
            assert(forwarded_all(a, p) =~= forwarded_all(b, p));
        },
        Obj::Tuple(p) => {
            assert(forwarded_all(a, p) =~= forwarded_all(b, p));
        },
        Obj::Dict(p) => {
            assert(forwarded_pairs(a, p) =~= forwarded_pairs(b, p));
        },
        Obj::EnumType(t) => {
            assert(forwarded_pairs(a, t.elements) =~= forwarded_pairs(b, t.elements));
        },
        Obj::Partial(p) => {
            assert(forwarded_all(a, p.pos) =~= forwarded_all(b, p.pos));
            assert(forwarded_all(a, p.named) =~= forwarded_all(b, p.named));
            assert(image(a, o)->Partial_0.names =~= image(b, o)->Partial_0.names);
        },
        Obj::Def(d) => {
            assert(image(a, o)->Def_0.parameters.kinds =~= image(b, o)->Def_0.parameters.kinds);
            assert(image(a, o)->Def_0.captured =~= image(b, o)->Def_0.captured);
        },
        _ => {},
    }
}

/// Whether the values of an entry have moved depends on the mutable heap alone.
pub proof fn lemma_closed_same_heap(a: Store, b: Store, e: Entry)
    requires
        a.heap == b.heap,
        closed_entry(a, e),
    ensures
        closed_entry(b, e),
        image_entry(b, e) == image_entry(a, e),
{
    match e {
        Entry::Immutable(o) => {
            lemma_image_same_heap(a, b, o);
        },
        Entry::Mutable(_, o) => {
            lemma_image_same_heap(a, b, o);
        },
        _ => {},
    }
}

/// Nothing has moved between a store and itself.
pub proof fn lemma_moved_refl(s: Store)
    ensures
        moved(s, s),
{
}

/// Moving faithfully in two steps is moving faithfully.
pub proof fn lemma_moved_trans(a: Store, b: Store, c: Store)
    requires
        moved(a, b),
        moved(b, c),
    ensures
        moved(a, c),
{
    lemma_frozen_on_trans(a, b, c);
    assert forall|i: int|
        0 <= i < a.heap.len() && !(a.heap[i] is Forward) && (#[trigger] c.heap[i])
            is Forward implies {
        let f = c.heap[i]->Forward_0;
        &&& f is Ptr
        &&& a.frozen.len() <= f->Ptr_0 < c.frozen.len()
        &&& c.frozen[f->Ptr_0 as int] == image_entry(c, a.heap[i])
        &&& closed_entry(c, a.heap[i])
    } by {
        assert(b.heap[i] == a.heap[i] || b.heap[i] is Forward);
        if b.heap[i] is Forward {
            assert(c.heap[i] == b.heap[i]);
            let k = b.heap[i]->Forward_0->Ptr_0 as int;
            assert(c.frozen[k] == b.frozen[k]);
            match a.heap[i] {
                Entry::Immutable(o) => {
                    lemma_image_stays(b, c, o);
                },
                Entry::Mutable(_, o) => {
                    lemma_image_stays(b, c, o);
                },
                _ => {},
            }
        }
    }
    assert forall|i: int, j: int|
        0 <= i < j < a.heap.len() && !(a.heap[i] is Forward) && !(a.heap[j] is Forward) && (
        #[trigger] c.heap[i]) is Forward && (#[trigger] c.heap[j]) is Forward implies c.heap[i]
        != c.heap[j] by {
        assert(b.heap[i] == a.heap[i] || b.heap[i] is Forward);
        assert(b.heap[j] == a.heap[j] || b.heap[j] is Forward);
        if b.heap[i] is Forward {
            assert(c.heap[i] == b.heap[i]);
        }
        if b.heap[j] is Forward {
            assert(c.heap[j] == b.heap[j]);
        }
    }
}

/// Is `now` what the captured variable `was` comes to once the heap is frozen, and is what
/// the variable holds frozen?
pub open spec fn capture_frozen(s: Store, was: (usize, Value), now: (usize, Value)) -> bool {
    &&& now == (was.0, erased(s, was.1))
    &&& match ValueRef(Some(was.1)).get_spec(s) {
        Some(v) => resolved(s, v),
        None => true,
    }
}

/// A value that has moved stands for the same frozen value ever after.
pub proof fn lemma_resolved_stays(before: Store, after: Store, v: Value)
    requires
        frozen_on(before, after),
        resolved(before, v),
    ensures
        resolved(after, v),
        forwarded(after, v) == forwarded(before, v),
{
}

/// Values that have moved stand for the same frozen values ever after.
pub proof fn lemma_all_stay(before: Store, after: Store, vs: Seq<Value>)
    requires
        frozen_on(before, after),
        forall|i: int| 0 <= i < vs.len() ==> resolved(before, #[trigger] vs[i]),
    ensures
        forall|i: int| 0 <= i < vs.len() ==> resolved(after, #[trigger] vs[i]),
        forwarded_all(after, vs) == forwarded_all(before, vs),
{
    assert(forwarded_all(after, vs) =~= forwarded_all(before, vs)) by {
        assert forall|i: int| 0 <= i < vs.len() implies forwarded_all(after, vs)[i]
            == forwarded_all(before, vs)[i] by {
            lemma_resolved_stays(before, after, vs[i]);
        }
    }
}

/// Pairs of values that have moved stand for the same frozen values ever after.
pub proof fn lemma_pairs_stay(before: Store, after: Store, vs: Seq<(Value, Value)>)
    requires
        frozen_on(before, after),
        forall|i: int|
            0 <= i < vs.len() ==> resolved(before, (#[trigger] vs[i]).0) && resolved(
                before,
                vs[i].1,
            ),
    ensures
        forall|i: int|
            0 <= i < vs.len() ==> resolved(after, (#[trigger] vs[i]).0) && resolved(after, vs[i].1),
        forwarded_pairs(after, vs) == forwarded_pairs(before, vs),
{
    assert(forwarded_pairs(after, vs) =~= forwarded_pairs(before, vs)) by {
        assert forall|i: int| 0 <= i < vs.len() implies forwarded_pairs(after, vs)[i]
            == forwarded_pairs(before, vs)[i] by {
            lemma_resolved_stays(before, after, vs[i].0);
            lemma_resolved_stays(before, after, vs[i].1);
        }
    }
}

/// Freezing leaves cells as they are.
pub proof fn lemma_cell_stays(before: Store, after: Store, cell: Value)
    requires
        frozen_on(before, after),
    ensures
        ValueRef(Some(cell)).get_spec(after) == ValueRef(Some(cell)).get_spec(before),
{
    match cell {
        Value::Cell(i) => {
            if i < before.heap.len() {
                assert(after.heap[i as int] == before.heap[i as int] || after.heap[i as int]
                    is Forward);
            }
        },
        _ => {},
    }
}

/// What a captured variable holds stands for the same frozen value ever after.
pub proof fn lemma_erased_stays(before: Store, after: Store, cell: Value)
    requires
        frozen_on(before, after),
        ValueRef(Some(cell)).get_spec(before) == ValueRef(Some(cell)).get_spec(after),
        match ValueRef(Some(cell)).get_spec(before) {
            Some(v) => resolved(before, v),
            None => true,
        },
    ensures
        erased(after, cell) == erased(before, cell),
        match ValueRef(Some(cell)).get_spec(after) {
            Some(v) => resolved(after, v),
            None => true,
        },
{
    match ValueRef(Some(cell)).get_spec(before) {
        Some(v) => {
            lemma_resolved_stays(before, after, v);
        },
        None => {},
    }
}

impl ValueRef {
    /// Freezes the value of the variable: the cell, if there is one, is erased, and what it
    /// holds is frozen. An unassigned variable stays unassigned.
    pub fn freeze(&self, mem: &mut Memory) -> (r: Result<Option<FrozenValue>, Error>)
        ensures
            frozen_on(old(mem)@, final(mem)@),
            self.get_spec(old(mem)@) is None ==> r == Ok::<Option<FrozenValue>, Error>(None)
                && final(mem)@ == old(mem)@,
            r is Ok ==> (r->Ok_0 is Some <==> self.get_spec(old(mem)@) is Some),
            r is Ok && r->Ok_0 is Some ==> r->Ok_0.unwrap().to_value_spec() == forwarded(
                final(mem)@,
                self.get_spec(old(mem)@).unwrap(),
            ),
            self.get_spec(old(mem)@) is Some && self.get_spec(old(mem)@).unwrap().is_frozen()
                ==> r == Ok::<Option<FrozenValue>, Error>(
                Some(self.get_spec(old(mem)@).unwrap().unpack_frozen_spec().unwrap()),
            ) && final(mem)@ == old(mem)@,
            r is Ok ==> moved(old(mem)@, final(mem)@),
            r is Err <==> self.get_spec(old(mem)@) is Some && blocked(
                old(mem)@,
                self.get_spec(old(mem)@).unwrap(),
            ),
            r is Err ==> r->Err_0.kind == ErrorKind::NotSupported,
    {
        match self.get(mem) {
            Some(v) => match mem.freeze(v) {
                Ok(f) => Ok(Some(f)),
                Err(e) => Err(e),
            },
            None => {
                proof {
                    lemma_moved_refl(old(mem)@);
                }
                Ok(None)
            },
        }
    }
}

} // verus!
