//! Freezing keeps values equal: two values are equal after they have moved to the frozen
//! heap if and only if they were equal before.
use vstd::prelude::*;
use crate::errors::ErrorKind;
use crate::freeze::{
    closed, closed_entry, forwarded, forwarded_all, forwarded_pairs, frozen_on, image,
    image_entry, moved, resolved,
};
use crate::heap::{Entry, Store, Target};
use crate::object::{firsts, Obj};
use crate::value::Value;

verus! {

/// Does `v` denote something in the store?
pub open spec fn valid(s: Store, v: Value) -> bool {
    !(s.target(v) is Unexpected)
}

/// The values of an object that equality looks at.
pub open spec fn parts(o: Obj) -> Seq<Value> {
    match o {
        Obj::List(p) => p,
        Obj::Tuple(p) => p,
        Obj::Dict(p) => firsts(p) + crate::object::seconds(p),
        Obj::EnumType(t) => firsts(t.elements),
        Obj::EnumValue(e) => seq![e.typ],
        _ => seq![],
    }
}

/// Is the store sound: does every value that an object holds denote something, does the
/// frozen heap hold no value of the mutable heap, and does an object that is stored as one
/// that refers to nothing refer to nothing?
pub open spec fn sound(s: Store) -> bool {
    &&& forall|k: int, c: int|
        0 <= k < s.frozen.len() && (#[trigger] s.frozen[k].target()) is Object && 0 <= c < parts(
            s.frozen[k].target()->Object_0,
        ).len() ==> (#[trigger] parts(s.frozen[k].target()->Object_0)[c]).is_frozen() && valid(
            s,
            parts(s.frozen[k].target()->Object_0)[c],
        )
    &&& forall|i: int, c: int|
        0 <= i < s.heap.len() && (#[trigger] s.heap[i].target()) is Object && 0 <= c < parts(
            s.heap[i].target()->Object_0,
        ).len() ==> valid(s, #[trigger] parts(s.heap[i].target()->Object_0)[c])
    &&& forall|i: int|
        0 <= i < s.heap.len() && (#[trigger] s.heap[i]) is Simple ==> parts(
            s.heap[i]->Simple_0,
        ).len() == 0
}

/// Is `v` a value of the store `before` that has settled in `after`: it denoted
/// something, and lives outside the mutable heap or has moved?
pub open spec fn settled(before: Store, after: Store, v: Value) -> bool {
    valid(before, v) && resolved(after, v)
}

/// The values of an object whose values have all moved have moved.
pub proof fn lemma_parts_closed(s: Store, o: Obj, c: int)
    requires
        closed(s, o),
        0 <= c < parts(o).len(),
    ensures
        resolved(s, parts(o)[c]),
{
    match o {
        Obj::Dict(p) => {
            if c < p.len() {
                assert(parts(o)[c] == p[c].0);
            } else {
                assert(parts(o)[c] == p[c - p.len()].1);
            }
        },
        Obj::EnumType(t) => {
            assert(parts(o)[c] == t.elements[c].0);
        },
        _ => {},
    }
}

/// An object that holds no value of the mutable heap, as far as equality looks, stands
/// for an object with the same parts once the heap is frozen.
pub proof fn lemma_frozen_image(before: Store, after: Store, o: Obj)
    requires
        forall|c: int| 0 <= c < parts(o).len() ==> (#[trigger] parts(o)[c]).is_frozen(),
    ensures
        same_parts(after, o, image(after, o)),
        same_parts(after, o, o),
        closed_parts(after, o),
{
    match o {
        Obj::List(p) => {
            assert(forwarded_all(after, p) =~= p) by {
                assert forall|i: int| 0 <= i < p.len() implies forwarded_all(after, p)[i] == p[i] by {
                    assert(parts(o)[i].is_frozen());
                }
            }
        },
        Obj::Tuple(p) => {
            assert(forwarded_all(after, p) =~= p) by {
                assert forall|i: int| 0 <= i < p.len() implies forwarded_all(after, p)[i] == p[i] by {
                    assert(parts(o)[i].is_frozen());
                }
            }
        },
        Obj::Dict(p) => {
            assert(forwarded_pairs(after, p) =~= p) by {
                assert forall|i: int| 0 <= i < p.len() implies forwarded_pairs(after, p)[i]
                    == p[i] by {
                    assert(parts(o)[i] == p[i].0);
                    assert(parts(o)[p.len() + i] == p[i].1);
                    assert(parts(o)[i].is_frozen());
                    assert(parts(o)[p.len() + i].is_frozen());
                }
            }
        },
        Obj::EnumType(t) => {
            let k = firsts(t.elements);
            assert(forwarded_all(after, k) =~= k) by {
                assert forall|i: int| 0 <= i < k.len() implies forwarded_all(after, k)[i] == k[i] by {
                    assert(parts(o)[i].is_frozen());
                }
            }
            assert(firsts(forwarded_pairs(after, t.elements)) =~= forwarded_all(after, k));
        },
        Obj::EnumValue(e) => {
            assert(parts(o)[0].is_frozen());
        },
        _ => {},
    }
}

/// Do the objects `was` and `now` have the same parts, as equality looks at them, once the
/// values of `was` are replaced by those that stand for them?
pub open spec fn same_parts(s: Store, was: Obj, now: Obj) -> bool {
    match (was, now) {
        (Obj::List(p), Obj::List(q)) => q == forwarded_all(s, p),
        (Obj::Tuple(p), Obj::Tuple(q)) => q == forwarded_all(s, p),
        (Obj::Dict(p), Obj::Dict(q)) => q == forwarded_pairs(s, p),
        (Obj::Range(r), Obj::Range(t)) => r == t,
        (Obj::EnumType(t), Obj::EnumType(u)) => t.typ == u.typ && firsts(u.elements)
            == forwarded_all(s, firsts(t.elements)),
        (Obj::EnumValue(e), Obj::EnumValue(f)) => f.typ == forwarded(s, e.typ) && f.index
            == e.index,
        (Obj::List(_), _) | (Obj::Tuple(_), _) | (Obj::Dict(_), _) | (Obj::Range(_), _) | (
            Obj::EnumType(_),
            _,
        ) | (Obj::EnumValue(_), _) => false,
        (_, Obj::List(_)) | (_, Obj::Tuple(_)) | (_, Obj::Dict(_)) | (_, Obj::Range(_)) | (
            _,
            Obj::EnumType(_),
        ) | (_, Obj::EnumValue(_)) => false,
        _ => true,
    }
}

/// Have the values of the object that equality looks at moved?
pub open spec fn closed_parts(s: Store, o: Obj) -> bool {
    forall|c: int| 0 <= c < parts(o).len() ==> resolved(s, #[trigger] parts(o)[c])
}

/// What an object comes to once the heap is frozen has the parts of the object, replaced
/// by the values that stand for them.
pub proof fn lemma_image_parts(s: Store, o: Obj)
    ensures
        same_parts(s, o, image(s, o)),
{
    match o {
        Obj::EnumType(t) => {
            assert(firsts(forwarded_pairs(s, t.elements)) =~= forwarded_all(s, firsts(t.elements)));
        },
        _ => {},
    }
}

/// Two settled values stand for the same frozen value only if they are the same value.
pub proof fn lemma_forwarded_injective(before: Store, after: Store, a: Value, b: Value)
    requires
        moved(before, after),
        settled(before, after, a),
        settled(before, after, b),
        forwarded(after, a) == forwarded(after, b),
    ensures
        a == b,
{
    match (a, b) {
        (Value::Heap(i), Value::Heap(j)) => {
            assert(after.heap[i as int] is Forward);
            assert(after.heap[j as int] is Forward);
            if i < j {
                assert(after.heap[i as int] != after.heap[j as int]);
            } else if j < i {
                assert(after.heap[j as int] != after.heap[i as int]);
            }
        },
        (Value::Heap(i), _) => {
            assert(after.heap[i as int] is Forward);
        },
        (_, Value::Heap(j)) => {
            assert(after.heap[j as int] is Forward);
        },
        _ => {},
    }
}

/// What a settled value denotes after freezing, in the terms of what it denoted before:
/// the same text or inline value, or an object of the same kind with the same parts, which
/// have settled.
pub proof fn lemma_settled_target(before: Store, after: Store, v: Value)
    requires
        moved(before, after),
        sound(before),
        settled(before, after, v),
    ensures
        match (before.target(v), after.target(forwarded(after, v))) {
            (Target::Object(o), Target::Object(n)) => same_parts(after, o, n) && forall|c: int|
                0 <= c < parts(o).len() ==> settled(before, after, #[trigger] parts(o)[c]),
            (Target::Object(_), _) => false,
            (x, y) => x == y,
        },
{
    match v {
        Value::Frozen(k) => {
            assert(after.frozen[k as int] == before.frozen[k as int]);
            match before.target(v) {
                Target::Object(o) => {
                    assert(before.frozen[k as int].target() == Target::Object(o));
                    assert forall|c: int| 0 <= c < parts(o).len() implies (#[trigger] parts(
                        o,
                    )[c]).is_frozen() && settled(before, after, parts(o)[c]) by {
                        assert(parts(before.frozen[k as int].target()->Object_0)[c].is_frozen());
                    }
                    lemma_frozen_image(before, after, o);
                },
                _ => {},
            }
        },
        Value::Heap(i) => {
            let e = before.heap[i as int];
            assert(after.heap[i as int] is Forward);
            assert(!(e is Forward));
            let f = after.heap[i as int]->Forward_0;
            assert(after.frozen[f->Ptr_0 as int] == image_entry(after, e));
            assert(closed_entry(after, e));
            match before.target(v) {
                Target::Object(o) => {
                    assert(before.heap[i as int].target() == Target::Object(o));
                    if e is Simple {
                        assert(parts(o).len() == 0);
                        lemma_frozen_image(before, after, o);
                    } else {
                        lemma_image_parts(after, o);
                        assert forall|c: int| 0 <= c < parts(o).len() implies settled(
                            before,
                            after,
                            #[trigger] parts(o)[c],
                        ) by {
                            assert(valid(
                                before,
                                parts(before.heap[i as int].target()->Object_0)[c],
                            ));
                            lemma_parts_closed(after, o, c);
                        }
                    }
                },
                _ => {},
            }
        },
        _ => {},
    }
}

/// Freezing preserves equality, `depth` levels deep: settled values are equal after they
/// have moved exactly if they were equal before.
pub proof fn lemma_freeze_keeps_equals(before: Store, after: Store, a: Value, b: Value, depth: nat)
    requires
        moved(before, after),
        sound(before),
        settled(before, after, a),
        settled(before, after, b),
    ensures
        after.equals_at(forwarded(after, a), forwarded(after, b), depth) == before.equals_at(
            a,
            b,
            depth,
        ),
    decreases depth, 5nat, 0nat,
{
    let fa = forwarded(after, a);
    let fb = forwarded(after, b);
    if fa == fb {
        lemma_forwarded_injective(before, after, a, b);
    }
    if a != b {
        lemma_settled_target(before, after, a);
        lemma_settled_target(before, after, b);
        match (before.target(a), before.target(b)) {
            (Target::Object(x), Target::Object(y)) => {
                let nx = after.target(fa)->Object_0;
                let ny = after.target(fb)->Object_0;
                match (x, y) {
                    (Obj::List(p), Obj::List(q)) => {
                        lemma_seq_keeps(before, after, p, q, depth);
                    },
                    (Obj::Tuple(p), Obj::Tuple(q)) => {
                        lemma_seq_keeps(before, after, p, q, depth);
                    },
                    (Obj::Dict(p), Obj::Dict(q)) => {
                        if p.len() == q.len() && depth > 0 {
                            assert forall|c: int| 0 <= c < p.len() implies settled(
                                before,
                                after,
                                (#[trigger] p[c]).0,
                            ) && settled(before, after, p[c].1) by {
                                assert(parts(x)[c] == p[c].0);
                                assert(parts(x)[p.len() + c] == p[c].1);
                            }
                            assert forall|c: int| 0 <= c < q.len() implies settled(
                                before,
                                after,
                                (#[trigger] q[c]).0,
                            ) && settled(before, after, q[c].1) by {
                                assert(parts(y)[c] == q[c].0);
                                assert(parts(y)[q.len() + c] == q[c].1);
                            }
                            lemma_dict_keeps(before, after, p, q, 0, (depth - 1) as nat);
                        }
                    },
                    (Obj::EnumType(t), Obj::EnumType(u)) => {
                        let nt = nx->EnumType_0;
                        let nu = ny->EnumType_0;
                        if t.typ == u.typ {
                            lemma_seq_keeps(
                                before,
                                after,
                                firsts(t.elements),
                                firsts(u.elements),
                                depth,
                            );
                        }
                    },
                    (Obj::EnumValue(e), Obj::EnumValue(f)) => {
                        if depth > 0 {
                            assert(parts(x)[0] == e.typ);
                            assert(parts(y)[0] == f.typ);
                            lemma_freeze_keeps_equals(
                                before,
                                after,
                                e.typ,
                                f.typ,
                                (depth - 1) as nat,
                            );
                        }
                    },
                    _ => {},
                }
            },
            _ => {},
        }
    }
}

/// As [`lemma_freeze_keeps_equals`], for two sequences of settled values.
pub proof fn lemma_seq_keeps(before: Store, after: Store, p: Seq<Value>, q: Seq<Value>, depth: nat)
    requires
        moved(before, after),
        sound(before),
        forall|c: int| 0 <= c < p.len() ==> settled(before, after, #[trigger] p[c]),
        forall|c: int| 0 <= c < q.len() ==> settled(before, after, #[trigger] q[c]),
    ensures
        after.seq_equals(forwarded_all(after, p), forwarded_all(after, q), depth)
            == before.seq_equals(p, q, depth),
    decreases depth, 4nat, 0nat,
{
    if p.len() == q.len() && depth > 0 {
        lemma_seq_from_keeps(before, after, p, q, 0, (depth - 1) as nat);
    }
}

/// As [`lemma_freeze_keeps_equals`], for two sequences of settled values from an index on.
pub proof fn lemma_seq_from_keeps(
    before: Store,
    after: Store,
    p: Seq<Value>,
    q: Seq<Value>,
    i: int,
    depth: nat,
)
    requires
        moved(before, after),
        sound(before),
        forall|c: int| 0 <= c < p.len() ==> settled(before, after, #[trigger] p[c]),
        forall|c: int| 0 <= c < q.len() ==> settled(before, after, #[trigger] q[c]),
    ensures
        after.seq_equals_from(forwarded_all(after, p), forwarded_all(after, q), i, depth)
            == before.seq_equals_from(p, q, i, depth),
    decreases depth, 6nat, p.len() - i,
{
    if 0 <= i < p.len() && i < q.len() {
        lemma_freeze_keeps_equals(before, after, p[i], q[i], depth);
        lemma_seq_from_keeps(before, after, p, q, i + 1, depth);
    }
}

/// As [`lemma_freeze_keeps_equals`], for finding a settled key among settled keys.
pub proof fn lemma_find_keeps(
    before: Store,
    after: Store,
    d: Seq<(Value, Value)>,
    k: Value,
    j: int,
    depth: nat,
)
    requires
        moved(before, after),
        sound(before),
        settled(before, after, k),
        forall|c: int|
            0 <= c < d.len() ==> settled(before, after, (#[trigger] d[c]).0) && settled(
                before,
                after,
                d[c].1,
            ),
    ensures
        after.dict_find_from(forwarded_pairs(after, d), forwarded(after, k), j, depth)
            == before.dict_find_from(d, k, j, depth),
    decreases depth, 6nat, d.len() - j,
{
    if 0 <= j < d.len() {
        lemma_freeze_keeps_equals(before, after, d[j].0, k, depth);
        lemma_find_keeps(before, after, d, k, j + 1, depth);
    }
}

/// As [`lemma_freeze_keeps_equals`], for two dictionaries of settled values.
pub proof fn lemma_dict_keeps(
    before: Store,
    after: Store,
    p: Seq<(Value, Value)>,
    q: Seq<(Value, Value)>,
    i: int,
    depth: nat,
)
    requires
        moved(before, after),
        sound(before),
        forall|c: int|
            0 <= c < p.len() ==> settled(before, after, (#[trigger] p[c]).0) && settled(
                before,
                after,
                p[c].1,
            ),
        forall|c: int|
            0 <= c < q.len() ==> settled(before, after, (#[trigger] q[c]).0) && settled(
                before,
                after,
                q[c].1,
            ),
    ensures
        after.dict_equals_from(forwarded_pairs(after, p), forwarded_pairs(after, q), i, depth)
            == before.dict_equals_from(p, q, i, depth),
    decreases depth, 7nat, p.len() - i,
{
    if 0 <= i < p.len() {
        lemma_find_keeps(before, after, q, p[i].0, 0, depth);
        match before.dict_find_from(q, p[i].0, 0, depth) {
            Ok(Some(j)) => {
                lemma_find_in_range(before, q, p[i].0, 0, depth);
                lemma_freeze_keeps_equals(before, after, p[i].1, q[j].1, depth);
                lemma_dict_keeps(before, after, p, q, i + 1, depth);
            },
            _ => {},
        }
    }
}

/// A key that is found is found at an index of the dictionary.
pub proof fn lemma_find_in_range(s: Store, d: Seq<(Value, Value)>, k: Value, j: int, depth: nat)
    requires
        j >= 0,
    ensures
        match s.dict_find_from(d, k, j, depth) {
            Ok(Some(at)) => j <= at < d.len(),
            _ => true,
        },
    decreases d.len() - j,
{
    if j < d.len() {
        match s.equals_at(d[j].0, k, depth) {
            Ok(false) => {
                lemma_find_in_range(s, d, k, j + 1, depth);
            },
            _ => {},
        }
    }
}

/// Freeze idempotence: freezing what is frozen changes nothing, and freezing preserves
/// `==`. Values that denoted something in a sound store, and that have moved to the frozen
/// heap or lived outside the mutable heap, are equal after freezing exactly if they were
/// equal before.
pub proof fn lemma_freeze_preserves_equality(before: Store, after: Store, a: Value, b: Value)
    requires
        moved(before, after),
        sound(before),
        settled(before, after, a),
        settled(before, after, b),
    ensures
        after.equals(forwarded(after, a), forwarded(after, b)) == before.equals(a, b),
        a.is_frozen() ==> forwarded(after, a) == a,
{
    lemma_freeze_keeps_equals(before, after, a, b, crate::equality::MAX_NESTING as nat);
}

} // verus!
