//! Laws of the engine: what holds of every state and every call.
use vstd::prelude::*;
use crate::builtins::required;
use crate::errors::{raised, ErrorKind, Fault};
use crate::heap::{lockable, Entry, Store, Target};
use crate::object::{firsts, Obj};
use crate::params::{
    bind_named, bind_one_named, bind_one_positional, bind_positional, binding_start, finish,
    has_name, missing_required, Binding, ParameterKind, Signature,
};
use crate::call::Params;
use crate::state::{Program, State};
use crate::value::Value;

verus! {

/// Iteration safety: while a mutable container is iterated over, a request to change it
/// fails with `MutationDuringIteration`, the operations that would change it leave the
/// store as it is, and every value still denotes what it did. When the iteration ends, the
/// store is as it was before.
pub proof fn lemma_iteration_safety(s: Store, m: Value, x: Value, name: Seq<char>)
    requires
        s.is_mutable(m),
        lockable(s, m),
    ensures
        ({
            let during = s.lock(m);
            &&& during.writable(m) == Err::<int, ErrorKind>(ErrorKind::MutationDuringIteration)
            &&& during.list_append(Some(m), seq![Some(x)]) == (
                during,
                Err::<Value, ErrorKind>(ErrorKind::MutationDuringIteration),
            )
            &&& during.export_as(m, name) == during
            &&& forall|w: Value| during.target(w) == s.target(w)
            &&& during.unlock(m) == s
        }),
{
    let during = s.lock(m);
    assert(required(seq![Some(x)], 0) == Ok::<Value, ErrorKind>(x));
    assert(during.unlock(m).heap =~= s.heap);
}

/// Does the call fit the signature: no more positional arguments than can be taken, each
/// name known or taken by `**kwargs`, no name twice, no name for a parameter that a
/// positional argument fills, and an argument for each required parameter.
pub open spec fn shape_matches(sig: Signature, pos: Seq<Value>, names: Seq<(Seq<char>, Value)>) -> bool {
    &&& pos.len() <= sig.positional || sig.args is Some
    &&& forall|j: int|
        0 <= j < names.len() ==> match sig.find((#[trigger] names[j]).0) {
            Some(i) => i >= pos.len(),
            None => sig.kwargs is Some,
        }
    &&& forall|j: int, k: int|
        0 <= j < k < names.len() ==> (#[trigger] names[j]).0 != (#[trigger] names[k]).0
    &&& forall|i: int|
        0 <= i < sig.kinds.len() && #[trigger] sig.kinds[i] == ParameterKind::Required ==> (i
            < pos.len() && i < sig.positional) || exists|j: int|
            0 <= j < names.len() && sig.find((#[trigger] names[j]).0) == Some(i)
}

/// How many positional arguments go into slots.
pub open spec fn taken(sig: Signature, pos: Seq<Value>) -> int {
    if pos.len() <= sig.positional {
        pos.len() as int
    } else {
        sig.positional
    }
}

/// The binding after the first `n` positional arguments of a call that fits.
pub open spec fn after_positional(sig: Signature, pos: Seq<Value>, n: int) -> Binding {
    let filled = if n <= sig.positional {
        n
    } else {
        sig.positional
    };
    Binding {
        slots: Seq::new(
            sig.kinds.len(),
            |i: int|
                if i < filled {
                    Some(pos[i])
                } else {
                    None
                },
        ),
        extra_pos: if n <= sig.positional {
            Seq::empty()
        } else {
            pos.subrange(sig.positional, n)
        },
        extra_named: Seq::empty(),
        next: filled,
    }
}

/// Binding the positional arguments of a call that fits puts each into the slot of its
/// position, and those beyond the positional parameters into `*args`.
pub proof fn lemma_bind_positional(sig: Signature, pos: Seq<Value>, from: int)
    requires
        sig.wf(),
        pos.len() <= sig.positional || sig.args is Some,
        0 <= from <= pos.len(),
    ensures
        bind_positional(sig, after_positional(sig, pos, from), pos, from) == Ok::<
            Binding,
            ErrorKind,
        >(after_positional(sig, pos, pos.len() as int)),
    decreases pos.len() - from,
{
    if from < pos.len() {
        let b = after_positional(sig, pos, from);
        let next = after_positional(sig, pos, from + 1);
        if from < sig.positional {
            assert(b.slots.update(from, Some(pos[from])) =~= next.slots);
            assert(next.extra_pos =~= b.extra_pos);
        } else {
            assert(b.extra_pos.push(pos[from]) =~= next.extra_pos);
            assert(next.slots =~= b.slots);
        }
        assert(bind_one_positional(sig, b, pos[from]) == Ok::<Binding, ErrorKind>(next));
        lemma_bind_positional(sig, pos, from + 1);
    }
}

/// The slot that the first `n` named arguments give to the parameter `i`, if one of them
/// names it.
pub open spec fn named_for(
    sig: Signature,
    names: Seq<(Seq<char>, Value)>,
    named: Seq<Value>,
    n: int,
    i: int,
) -> Option<Value>
    decreases n,
{
    if n <= 0 || n > names.len() || n > named.len() {
        None
    } else if sig.find(names[n - 1].0) == Some(i) {
        Some(named[n - 1])
    } else {
        named_for(sig, names, named, n - 1, i)
    }
}

/// The named arguments among the first `n` that no parameter has, in order.
pub open spec fn unknown_named(
    sig: Signature,
    names: Seq<(Seq<char>, Value)>,
    named: Seq<Value>,
    n: int,
) -> Seq<(Seq<char>, Value, Value)>
    decreases n,
{
    if n <= 0 || n > names.len() || n > named.len() {
        Seq::empty()
    } else if sig.find(names[n - 1].0) is None {
        unknown_named(sig, names, named, n - 1).push((names[n - 1].0, names[n - 1].1, named[n - 1]))
    } else {
        unknown_named(sig, names, named, n - 1)
    }
}

/// The binding after all positional and the first `n` named arguments of a call that fits.
pub open spec fn after_named(
    sig: Signature,
    pos: Seq<Value>,
    names: Seq<(Seq<char>, Value)>,
    named: Seq<Value>,
    n: int,
) -> Binding {
    let base = after_positional(sig, pos, pos.len() as int);
    Binding {
        slots: Seq::new(
            sig.kinds.len(),
            |i: int|
                match named_for(sig, names, named, n, i) {
                    Some(v) => Some(v),
                    None => base.slots[i],
                },
        ),
        extra_named: unknown_named(sig, names, named, n),
        ..base
    }
}

/// A parameter that is found by name is one of the parameters.
pub proof fn lemma_find_in_range(sig: Signature, name: Seq<char>, from: int)
    requires
        from >= 0,
    ensures
        match sig.find_from(name, from) {
            Some(i) => from <= i < sig.names.len() && sig.named_at(i, name),
            None => true,
        },
    decreases sig.names.len() - from,
{
    if from < sig.names.len() && !sig.named_at(from, name) {
        lemma_find_in_range(sig, name, from + 1);
    }
}

/// None of the first `n` named arguments of a call that fits names the parameter `i`, if
/// a later one does; and none of them has the name of a later one.
proof fn lemma_names_apart(
    sig: Signature,
    pos: Seq<Value>,
    names: Seq<(Seq<char>, Value)>,
    named: Seq<Value>,
    n: int,
    j: int,
)
    requires
        shape_matches(sig, pos, names),
        names.len() == named.len(),
        0 <= n <= j < names.len(),
    ensures
        match sig.find(names[j].0) {
            Some(i) => named_for(sig, names, named, n, i) is None,
            None => true,
        },
        !has_name(unknown_named(sig, names, named, n), names[j].0),
    decreases n,
{
    if n > 0 {
        lemma_names_apart(sig, pos, names, named, n - 1, j);
        assert(names[n - 1].0 != names[j].0);
        let before = unknown_named(sig, names, named, n - 1);
        let now = unknown_named(sig, names, named, n);
        if has_name(now, names[j].0) {
            let k = choose|k: int| 0 <= k < now.len() && (#[trigger] now[k]).0 == names[j].0;
            if k < before.len() {
                assert(before[k].0 == names[j].0);
            }
        }
        match sig.find(names[j].0) {
            Some(i) => {
                if sig.find(names[n - 1].0) == Some(i) {
                    lemma_find_in_range(sig, names[j].0, 0);
                    lemma_find_in_range(sig, names[n - 1].0, 0);
                }
            },
            None => {},
        }
    }
}

/// Binding the named arguments of a call that fits puts each into the slot of its name,
/// and those that no parameter has into `**kwargs`.
pub proof fn lemma_bind_named(
    sig: Signature,
    pos: Seq<Value>,
    names: Seq<(Seq<char>, Value)>,
    named: Seq<Value>,
    from: int,
)
    requires
        sig.wf(),
        shape_matches(sig, pos, names),
        names.len() == named.len(),
        0 <= from <= names.len(),
    ensures
        bind_named(sig, after_named(sig, pos, names, named, from), names, named, from) == Ok::<
            Binding,
            ErrorKind,
        >(after_named(sig, pos, names, named, names.len() as int)),
    decreases names.len() - from,
{
    if from < names.len() {
        let b = after_named(sig, pos, names, named, from);
        let next = after_named(sig, pos, names, named, from + 1);
        let name = names[from].0;
        lemma_names_apart(sig, pos, names, named, from, from);
        lemma_find_in_range(sig, name, 0);
        match sig.find(name) {
            Some(i) => {
                assert(i >= pos.len());
                assert(b.slots[i] is None);
                assert(b.slots.update(i, Some(named[from])) =~= next.slots);
                assert(next.extra_named =~= b.extra_named);
            },
            None => {
                assert(next.slots =~= b.slots);
                assert(b.extra_named.push((name, names[from].1, named[from])) =~= next.extra_named);
            },
        }
        assert(bind_one_named(sig, b, name, names[from].1, named[from]) == Ok::<
            Binding,
            ErrorKind,
        >(next));
        lemma_bind_named(sig, pos, names, named, from + 1);
    }
}

/// A named argument of a call that fits is found in the slot of its name.
proof fn lemma_named_found(
    sig: Signature,
    pos: Seq<Value>,
    names: Seq<(Seq<char>, Value)>,
    named: Seq<Value>,
    n: int,
    j: int,
)
    requires
        shape_matches(sig, pos, names),
        names.len() == named.len(),
        0 <= j < n <= names.len(),
        sig.find(names[j].0) is Some,
    ensures
        named_for(sig, names, named, n, sig.find(names[j].0).unwrap()) == Some(named[j]),
    decreases n,
{
    let i = sig.find(names[j].0).unwrap();
    if n - 1 > j {
        lemma_named_found(sig, pos, names, named, n - 1, j);
        assert(names[j].0 != names[n - 1].0);
        if sig.find(names[n - 1].0) == Some(i) {
            lemma_find_in_range(sig, names[j].0, 0);
            lemma_find_in_range(sig, names[n - 1].0, 0);
        }
    }
}

/// Parameter binding totality: a call that fits the signature is bound without error, and
/// every slot is filled exactly once. A positional argument is in the slot of its
/// position, a named argument in the slot of its name, and no slot has both. Every other
/// slot has its default or its sink, and only a parameter that may stay unset is unset.
pub proof fn lemma_binding_totality(
    sig: Signature,
    pos: Seq<Value>,
    names: Seq<(Seq<char>, Value)>,
    named: Seq<Value>,
    args_sink: Value,
    kwargs_sink: Value,
)
    requires
        sig.wf(),
        names.len() == named.len(),
        shape_matches(sig, pos, names),
    ensures
        ({
            let b1 = bind_positional(sig, binding_start(sig), pos, 0);
            let b2 = bind_named(sig, b1->Ok_0, names, named, 0);
            let slots = finish(sig.kinds, b2->Ok_0, args_sink, kwargs_sink);
            &&& b1 is Ok
            &&& b2 is Ok
            &&& slots is Ok
            &&& slots->Ok_0.len() == sig.kinds.len()
            &&& forall|i: int|
                0 <= i < taken(sig, pos) ==> #[trigger] slots->Ok_0[i] == Some(pos[i])
            &&& forall|j: int|
                0 <= j < names.len() && sig.find((#[trigger] names[j]).0) is Some ==> sig.find(
                    names[j].0,
                ).unwrap() >= taken(sig, pos) && slots->Ok_0[sig.find(names[j].0).unwrap()]
                    == Some(named[j])
            &&& forall|i: int|
                0 <= i < sig.kinds.len() ==> (#[trigger] slots->Ok_0[i]) is Some || sig.kinds[i]
                    == ParameterKind::Optional
            &&& b2->Ok_0.extra_pos == pos.skip(taken(sig, pos))
        }),
{
    assert(binding_start(sig) =~= after_positional(sig, pos, 0)) by {
        assert(binding_start(sig).slots =~= after_positional(sig, pos, 0).slots);
        if 0 > sig.positional {
        } else {
            assert(after_positional(sig, pos, 0).extra_pos =~= Seq::empty());
        }
    }
    lemma_bind_positional(sig, pos, 0);
    let b1 = after_positional(sig, pos, pos.len() as int);
    assert(after_named(sig, pos, names, named, 0) =~= b1) by {
        assert(after_named(sig, pos, names, named, 0).slots =~= b1.slots);
    }
    lemma_bind_named(sig, pos, names, named, 0);
    let b2 = after_named(sig, pos, names, named, names.len() as int);
    assert(b2.extra_pos =~= pos.skip(taken(sig, pos)));
    assert forall|j: int|
        0 <= j < names.len() && sig.find((#[trigger] names[j]).0) is Some implies sig.find(
        names[j].0,
    ).unwrap() >= taken(sig, pos) && b2.slots[sig.find(names[j].0).unwrap()] == Some(
        named[j],
    ) by {
        lemma_named_found(sig, pos, names, named, names.len() as int, j);
        lemma_find_in_range(sig, names[j].0, 0);
    }
    assert(!missing_required(sig.kinds, b2)) by {
        if missing_required(sig.kinds, b2) {
            let i = choose|i: int|
                0 <= i < sig.kinds.len() && i < b2.slots.len() && (#[trigger] sig.kinds[i])
                    == ParameterKind::Required && b2.slots[i] is None;
            if i < pos.len() && i < sig.positional {
                assert(b1.slots[i] is Some);
            } else {
                let j = choose|j: int|
                    0 <= j < names.len() && sig.find((#[trigger] names[j]).0) == Some(i);
                lemma_named_found(sig, pos, names, named, names.len() as int, j);
            }
        }
    }
    let slots = finish(sig.kinds, b2, args_sink, kwargs_sink)->Ok_0;
    assert(bind_positional(sig, binding_start(sig), pos, 0) == Ok::<Binding, ErrorKind>(b1));
    assert(bind_named(sig, b1, names, named, 0) == Ok::<Binding, ErrorKind>(b2));
    assert(b2.slots.len() == sig.kinds.len());
    assert(finish(sig.kinds, b2, args_sink, kwargs_sink) is Ok);
    assert(slots.len() == sig.kinds.len());
    assert forall|i: int| 0 <= i < taken(sig, pos) implies #[trigger] slots[i] == Some(pos[i]) by {
        lemma_no_name_for(sig, pos, names, named, names.len() as int, i);
    }
    assert forall|j: int|
        0 <= j < names.len() && sig.find((#[trigger] names[j]).0) is Some implies sig.find(
        names[j].0,
    ).unwrap() >= taken(sig, pos) && slots[sig.find(names[j].0).unwrap()] == Some(named[j]) by {
        lemma_find_in_range(sig, names[j].0, 0);
        let i = sig.find(names[j].0).unwrap();
        assert(b2.slots[i] == Some(named[j]));
    }
    assert forall|i: int| 0 <= i < sig.kinds.len() implies (#[trigger] slots[i]) is Some
        || sig.kinds[i] == ParameterKind::Optional by {
        if slots[i] is None {
            assert(b2.slots[i] is None);
            assert(sig.kinds[i] != ParameterKind::Required);
        }
    }
}

/// No named argument of a call that fits names a parameter that a positional argument
/// fills.
proof fn lemma_no_name_for(
    sig: Signature,
    pos: Seq<Value>,
    names: Seq<(Seq<char>, Value)>,
    named: Seq<Value>,
    n: int,
    i: int,
)
    requires
        shape_matches(sig, pos, names),
        names.len() == named.len(),
        0 <= n <= names.len(),
        0 <= i < pos.len(),
    ensures
        named_for(sig, names, named, n, i) is None,
    decreases n,
{
    if n > 0 {
        lemma_no_name_for(sig, pos, names, named, n - 1, i);
    }
}

/// Is the enumeration value `e` the value of its type for its index: does the type hold,
/// at the index of `e`, the element of `e`?
pub open spec fn enum_value_wf(s: Store, e: crate::object::EnumValueGen) -> bool {
    match s.target(e.typ) {
        Target::Object(Obj::EnumType(t)) => 0 <= e.index < t.elements.len()
            && t.elements[e.index as int].0 == e.value,
        _ => false,
    }
}

/// Are the enumeration values that the hash of `v` goes through, `depth` levels deep, the
/// values of their types?
pub open spec fn enums_wf(s: Store, v: Value, depth: nat) -> bool
    decreases depth,
{
    if depth == 0 {
        true
    } else {
        match s.target(v) {
            Target::Object(Obj::EnumValue(e)) => enum_value_wf(s, e) && enums_wf(
                s,
                e.value,
                (depth - 1) as nat,
            ),
            Target::Object(Obj::Tuple(p)) => forall|i: int|
                0 <= i < p.len() ==> enums_wf(s, #[trigger] p[i], (depth - 1) as nat),
            _ => true,
        }
    }
}

/// A hash that is found at one depth is found at every greater depth.
pub proof fn lemma_hash_deeper(s: Store, v: Value, d: nat, deeper: nat)
    requires
        s.hash_at(v, d) is Ok,
        deeper >= d,
    ensures
        s.hash_at(v, deeper) == s.hash_at(v, d),
    decreases d, 1nat,
{
    match s.target(v) {
        Target::Object(Obj::Tuple(p)) => {
            lemma_seq_hash_deeper(s, p, 0, 0, (d - 1) as nat, (deeper - 1) as nat);
        },
        Target::Object(Obj::EnumValue(e)) => {
            lemma_hash_deeper(s, e.value, (d - 1) as nat, (deeper - 1) as nat);
        },
        _ => {},
    }
}

/// As [`lemma_hash_deeper`], for the hash of a sequence.
pub proof fn lemma_seq_hash_deeper(s: Store, p: Seq<Value>, i: int, h: i32, d: nat, deeper: nat)
    requires
        s.seq_hash_from(p, i, h, d) is Ok,
        deeper >= d,
    ensures
        s.seq_hash_from(p, i, h, deeper) == s.seq_hash_from(p, i, h, d),
    decreases d, 2nat, p.len() - i,
{
    if 0 <= i < p.len() {
        lemma_hash_deeper(s, p[i], d, deeper);
        let e = s.hash_at(p[i], d)->Ok_0;
        lemma_seq_hash_deeper(s, p, i + 1, crate::equality::combine(h, e), d, deeper);
    }
}

/// Sequences that are equal from an index on have equal elements from there on.
pub proof fn lemma_seq_equals_each(s: Store, p: Seq<Value>, q: Seq<Value>, i: int, d: nat, k: int)
    requires
        s.seq_equals_from(p, q, i, d) == Ok::<bool, ErrorKind>(true),
        0 <= i <= k,
        k < p.len(),
        k < q.len(),
    ensures
        s.equals_at(p[k], q[k], d) == Ok::<bool, ErrorKind>(true),
    decreases k - i,
{
    if i < k {
        lemma_seq_equals_each(s, p, q, i + 1, d, k);
    }
}

/// Sequences whose elements have equal hashes have equal hashes.
pub proof fn lemma_seq_hash_equal(
    s: Store,
    p: Seq<Value>,
    q: Seq<Value>,
    i: int,
    h: i32,
    d2: nat,
    d3: nat,
)
    requires
        p.len() == q.len(),
        0 <= i <= p.len(),
        s.seq_hash_from(p, i, h, d2) is Ok,
        s.seq_hash_from(q, i, h, d3) is Ok,
        forall|k: int|
            i <= k < p.len() && s.hash_at(p[k], d2) is Ok && s.hash_at(q[k], d3) is Ok
                ==> #[trigger] s.hash_at(p[k], d2) == s.hash_at(q[k], d3),
    ensures
        s.seq_hash_from(p, i, h, d2) == s.seq_hash_from(q, i, h, d3),
    decreases p.len() - i,
{
    if i < p.len() {
        let e = s.hash_at(p[i], d2)->Ok_0;
        assert(s.hash_at(p[i], d2) == s.hash_at(q[i], d3));
        lemma_seq_hash_equal(s, p, q, i + 1, crate::equality::combine(h, e), d2, d3);
    }
}

/// The hash equals contract: values that are equal have the same hash, if they have one.
pub proof fn lemma_hash_equals(s: Store, a: Value, b: Value, d1: nat, d2: nat, d3: nat)
    requires
        enums_wf(s, a, d2),
        enums_wf(s, b, d3),
        s.equals_at(a, b, d1) == Ok::<bool, ErrorKind>(true),
        s.hash_at(a, d2) is Ok,
        s.hash_at(b, d3) is Ok,
    ensures
        s.hash_at(a, d2) == s.hash_at(b, d3),
    decreases d1,
{
    if a == b {
        if d2 <= d3 {
            lemma_hash_deeper(s, a, d2, d3);
        } else {
            lemma_hash_deeper(s, a, d3, d2);
        }
    } else {
        match (s.target(a), s.target(b)) {
            (Target::Object(Obj::Tuple(p)), Target::Object(Obj::Tuple(q))) => {
                assert(s.equals_at(a, b, d1) == s.seq_equals(p, q, d1));
                assert(p.len() == q.len());
                assert(d1 > 0);
                assert(s.seq_equals(p, q, d1) == s.seq_equals_from(p, q, 0, (d1 - 1) as nat));
                assert forall|k: int|
                    0 <= k < p.len() && s.hash_at(p[k], (d2 - 1) as nat) is Ok && s.hash_at(
                        q[k],
                        (d3 - 1) as nat,
                    ) is Ok implies #[trigger] s.hash_at(p[k], (d2 - 1) as nat) == s.hash_at(
                    q[k],
                    (d3 - 1) as nat,
                ) by {
                    lemma_seq_equals_each(s, p, q, 0, (d1 - 1) as nat, k);
                    assert(enums_wf(s, p[k], (d2 - 1) as nat));
                    assert(enums_wf(s, q[k], (d3 - 1) as nat));
                    lemma_hash_equals(
                        s,
                        p[k],
                        q[k],
                        (d1 - 1) as nat,
                        (d2 - 1) as nat,
                        (d3 - 1) as nat,
                    );
                }
                lemma_seq_hash_equal(s, p, q, 0, 0, (d2 - 1) as nat, (d3 - 1) as nat);
            },
            (Target::Object(Obj::EnumValue(e1)), Target::Object(Obj::EnumValue(e2))) => {
                assert(s.equals_at(e1.typ, e2.typ, (d1 - 1) as nat) == Ok::<bool, ErrorKind>(true));
                assert(e1.index == e2.index);
                let index = e1.index as int;
                assert(enum_value_wf(s, e1));
                assert(enum_value_wf(s, e2));
                let t1 = s.target(e1.typ)->Object_0->EnumType_0;
                let t2 = s.target(e2.typ)->Object_0->EnumType_0;
                if e1.typ == e2.typ {
                    assert(e1.value == e2.value);
                    if d2 <= d3 {
                        lemma_hash_deeper(s, e1.value, (d2 - 1) as nat, (d3 - 1) as nat);
                    } else {
                        lemma_hash_deeper(s, e1.value, (d3 - 1) as nat, (d2 - 1) as nat);
                    }
                } else {
                    let k1 = firsts(t1.elements);
                    let k2 = firsts(t2.elements);
                    assert(s.equals_at(e1.typ, e2.typ, (d1 - 1) as nat) == s.seq_equals(
                        k1,
                        k2,
                        (d1 - 1) as nat,
                    ));
                    assert(s.seq_equals(k1, k2, (d1 - 1) as nat) == Ok::<bool, ErrorKind>(true));
                    assert(k1.len() == k2.len());
                    assert(d1 - 1 > 0);
                    assert(s.seq_equals(k1, k2, (d1 - 1) as nat) == s.seq_equals_from(
                        k1,
                        k2,
                        0,
                        (d1 - 2) as nat,
                    ));
                    lemma_seq_equals_each(s, k1, k2, 0, (d1 - 2) as nat, index);
                    lemma_hash_equals(
                        s,
                        e1.value,
                        e2.value,
                        (d1 - 2) as nat,
                        (d2 - 1) as nat,
                        (d3 - 1) as nat,
                    );
                }
            },
            _ => {},
        }
    }
}

/// As [`lemma_hash_follows`], for the hash of a sequence from index `i` on.
pub proof fn lemma_seq_hash_follows(
    s: Store,
    p: Seq<Value>,
    q: Seq<Value>,
    i: int,
    h: i32,
    d1: nat,
    d: nat,
)
    requires
        p.len() == q.len(),
        0 <= i <= p.len(),
        s.seq_equals_from(p, q, 0, d1) == Ok::<bool, ErrorKind>(true),
        s.seq_hash_from(p, i, h, d) is Ok,
        forall|k: int| 0 <= k < p.len() ==> enums_wf(s, #[trigger] p[k], d),
        forall|k: int| 0 <= k < q.len() ==> enums_wf(s, #[trigger] q[k], d),
    ensures
        s.seq_hash_from(q, i, h, d) == s.seq_hash_from(p, i, h, d),
    decreases d1, 1nat, p.len() - i,
{
    if i < p.len() {
        lemma_seq_equals_each(s, p, q, 0, d1, i);
        assert(enums_wf(s, p[i], d) && enums_wf(s, q[i], d));
        lemma_hash_follows(s, p[i], q[i], d1, d);
        let e = s.hash_at(p[i], d)->Ok_0;
        lemma_seq_hash_follows(s, p, q, i + 1, crate::equality::combine(h, e), d1, d);
    }
}

/// The hash equals contract: a value that is equal to one that has a hash has the same
/// hash.
pub proof fn lemma_hash_follows(s: Store, a: Value, b: Value, d1: nat, d: nat)
    requires
        enums_wf(s, a, d),
        enums_wf(s, b, d),
        s.equals_at(a, b, d1) == Ok::<bool, ErrorKind>(true),
        s.hash_at(a, d) is Ok,
    ensures
        s.hash_at(b, d) == s.hash_at(a, d),
    decreases d1, 0nat, 0nat,
{
    if a != b {
        match (s.target(a), s.target(b)) {
            (Target::Object(Obj::Tuple(p)), Target::Object(Obj::Tuple(q))) => {
                assert(s.equals_at(a, b, d1) == s.seq_equals(p, q, d1));
                assert(p.len() == q.len());
                assert(d1 > 0);
                assert(d > 0);
                assert(s.seq_equals(p, q, d1) == s.seq_equals_from(p, q, 0, (d1 - 1) as nat));
                assert forall|k: int| 0 <= k < p.len() implies enums_wf(
                    s,
                    #[trigger] p[k],
                    (d - 1) as nat,
                ) by {}
                assert forall|k: int| 0 <= k < q.len() implies enums_wf(
                    s,
                    #[trigger] q[k],
                    (d - 1) as nat,
                ) by {}
                lemma_seq_hash_follows(s, p, q, 0, 0, (d1 - 1) as nat, (d - 1) as nat);
            },
            (Target::Object(Obj::EnumValue(e1)), Target::Object(Obj::EnumValue(e2))) => {
                assert(d > 0);
                assert(s.equals_at(e1.typ, e2.typ, (d1 - 1) as nat) == Ok::<bool, ErrorKind>(true));
                assert(e1.index == e2.index);
                let index = e1.index as int;
                assert(enum_value_wf(s, e1));
                assert(enum_value_wf(s, e2));
                let t1 = s.target(e1.typ)->Object_0->EnumType_0;
                let t2 = s.target(e2.typ)->Object_0->EnumType_0;
                if e1.typ == e2.typ {
                    assert(e1.value == e2.value);
                } else {
                    let k1 = firsts(t1.elements);
                    let k2 = firsts(t2.elements);
                    assert(s.equals_at(e1.typ, e2.typ, (d1 - 1) as nat) == s.seq_equals(
                        k1,
                        k2,
                        (d1 - 1) as nat,
                    ));
                    assert(k1.len() == k2.len());
                    assert(d1 - 1 > 0);
                    assert(s.seq_equals(k1, k2, (d1 - 1) as nat) == s.seq_equals_from(
                        k1,
                        k2,
                        0,
                        (d1 - 2) as nat,
                    ));
                    lemma_seq_equals_each(s, k1, k2, 0, (d1 - 2) as nat, index);
                    lemma_hash_follows(s, e1.value, e2.value, (d1 - 2) as nat, (d - 1) as nat);
                }
            },
            _ => {},
        }
    }
}

/// The hash equals contract at the depth that the engine uses: if `a == b` and `a` has a
/// hash, then `b` has one, and `hash(a) == hash(b)`, for all values whose enumeration
/// values are the values of their types.
pub proof fn lemma_hash_equals_contract(s: Store, a: Value, b: Value)
    requires
        enums_wf(s, a, crate::equality::MAX_NESTING as nat),
        enums_wf(s, b, crate::equality::MAX_NESTING as nat),
        s.equals(a, b) == Ok::<bool, ErrorKind>(true),
        s.get_hash(a) is Ok,
    ensures
        s.get_hash(b) == s.get_hash(a),
{
    lemma_hash_follows(
        s,
        a,
        b,
        crate::equality::MAX_NESTING as nat,
        crate::equality::MAX_NESTING as nat,
    );
}

/// The hash of an enumeration value is the hash of its element.
pub proof fn lemma_enum_hash(s: Store, a: Value)
    requires
        s.target(a) is Object,
        s.target(a)->Object_0 is EnumValue,
        s.get_hash(a) is Ok,
    ensures
        s.get_hash(s.target(a)->Object_0->EnumValue_0.value) == s.get_hash(a),
{
    let e = s.target(a)->Object_0->EnumValue_0;
    lemma_hash_deeper(
        s,
        e.value,
        (crate::equality::MAX_NESTING - 1) as nat,
        crate::equality::MAX_NESTING as nat,
    );
}

/// Is every slot of `slots` filled for the call of `sig` with `p`: a positional argument
/// in the slot of its position, a named argument in the slot of its name, and in every
/// other slot its default or its sink, but for a parameter that may stay unset?
pub open spec fn filled_once(sig: Signature, p: Params, slots: Seq<Option<Value>>) -> bool {
    &&& slots.len() == sig.kinds.len()
    &&& forall|i: int| 0 <= i < taken(sig, p.pos) ==> #[trigger] slots[i] == Some(p.pos[i])
    &&& forall|j: int|
        0 <= j < p.names.len() && sig.find((#[trigger] p.names[j]).0) is Some ==> sig.find(
            p.names[j].0,
        ).unwrap() >= taken(sig, p.pos) && slots[sig.find(p.names[j].0).unwrap()] == Some(
            p.named[j],
        )
    &&& forall|i: int|
        0 <= i < sig.kinds.len() ==> (#[trigger] slots[i]) is Some || sig.kinds[i]
            == ParameterKind::Optional
}

/// Parameter binding totality, of a whole call: the arguments `p` of a call that fits the
/// signature, without `*` and `**` values, are collected without error into a slot vector
/// in which every slot is filled exactly once.
pub proof fn lemma_collect_totality(s: Store, sig: Signature, p: Params)
    requires
        sig.wf(),
        p.names.len() == p.named.len(),
        p.args is None,
        p.kwargs is None,
        shape_matches(sig, p.pos, p.names),
    ensures
        s.collect(sig, p).1 is Ok,
        filled_once(sig, p, s.collect(sig, p).1->Ok_0),
{
    let b = s.bind(sig, p)->Ok_0;
    let (s1, args_sink) = if sig.args is Some {
        s.allocate(Entry::Immutable(Obj::Tuple(b.extra_pos)))
    } else {
        (s, Value::Nil)
    };
    let (s2, kwargs_sink) = if sig.kwargs is Some {
        s1.allocate(Entry::Mutable(0, Obj::Dict(crate::call::sink_entries(b.extra_named))))
    } else {
        (s1, Value::Nil)
    };
    lemma_binding_totality(sig, p.pos, p.names, p.named, args_sink, kwargs_sink);
}

/// Parameter binding totality, of the call of a native function: a call that fits its
/// signature, without `*` and `**` values, runs the function once, on a slot vector in
/// which every slot is filled exactly once. A call that does not bind does not run it.
pub proof fn lemma_native_call(st: State, prog: Program, f: Value, p: Params, depth: nat)
    requires
        !st.cancelled,
        st.store.target(f) is Object,
        st.store.target(f)->Object_0 is Native,
    ensures
        ({
            let nf = st.store.target(f)->Object_0->Native_0;
            let (s, slots) = st.store.collect(nf.parameters, p);
            &&& slots is Ok ==> st.invoke(prog, f, p, depth) == st.with_store(s).call_builtin(
                prog,
                nf.function,
                p.this,
                slots->Ok_0,
                depth,
            )
            &&& slots is Err ==> st.invoke(prog, f, p, depth).1 == Err::<Value, Fault>(
                raised(slots->Err_0),
            )
            &&& nf.parameters.wf() && p.names.len() == p.named.len() && p.args is None && p.kwargs
                is None && shape_matches(nf.parameters, p.pos, p.names) ==> slots is Ok
                && filled_once(nf.parameters, p, slots->Ok_0)
        }),
{
    let nf = st.store.target(f)->Object_0->Native_0;
    if nf.parameters.wf() && p.names.len() == p.named.len() && p.args is None && p.kwargs is None
        && shape_matches(nf.parameters, p.pos, p.names) {
        lemma_collect_totality(st.store, nf.parameters, p);
    }
}

} // verus!
