//! The compiler: from syntax trees to compiled expressions. Names are resolved to slots,
//! and expressions made of literals are folded into constants.
use vstd::prelude::*;
use vstd::string::StringExecFns;
use crate::arith::BinaryOp;
use crate::ast::{
    chain_text, constant_of, constants_from, lemma_chain_constant, Argument, AstExpr, AstLiteral,
    distinct_keys, key_ok, keys_from, values_from, Assign, BinOp, Clause, Constant, Expr, ForClause,
    Parameter,
};
use crate::equality::MAX_NESTING;
use crate::errors::ErrorKind;
use crate::eval::thaw_pairs;
use crate::compiled::{
    ArgsCompiled, AssignCompiled, CallArgs, ClauseCompiled, Comparison, DefCompiled, ExprCompiled,
    ExprCompiledValue, Node, ParameterCompiled,
};
use crate::errors::{EnvironmentError, Error, Span};
use crate::heap::{ARef, Entry, Memory, Store, Target};
use crate::lowering::arithmetic_op;
use crate::lowering::{
    forget_assign, forget_assigns, lowered_assign, lowered_clause, lowered_clauses, LAssign,
    LClause,
};
use crate::lowering::{
    all_constants, as_nodes, binary_node, lowered, lowered_all, lowered_args, lowered_def,
    lowered_general, lowered_names, lowered_opt, lowered_param, lowered_value, not_found,
    affirmation, negatable, negation, one_positional, plain_call_node, specialised, CState, LArgs, LExpr, LGeneral, LNode, LParam, LParams, LValue,
    Recorded,
};
use crate::object::{Obj, Object};
use crate::scope::{Scope, Slot};
use crate::state::Globals;
use crate::value::{FrozenValue, Value};

verus! {

/// Does the frozen value `v` denote the constant `c`?
pub open spec fn denotes(s: Store, v: FrozenValue, c: Constant) -> bool
    decreases c,
{
    match c {
        Constant::Int(i) => v == FrozenValue::Int(i),
        Constant::Str(t) => v is Ptr && s.target(v.to_value_spec()) == Target::Str(t),
        Constant::Tuple(cs) => v is Ptr && match s.target(v.to_value_spec()) {
            Target::Object(Obj::Tuple(vs)) => vs.len() == cs.len() && forall|i: int|
                0 <= i < cs.len() ==> (#[trigger] vs[i]).unpack_frozen_spec() is Some && denotes(
                    s,
                    vs[i].unpack_frozen_spec().unwrap(),
                    cs[i],
                ),
            _ => false,
        },
        Constant::List(cs) => v is Ptr && match s.target(v.to_value_spec()) {
            Target::Object(Obj::List(vs)) => vs.len() == cs.len() && forall|i: int|
                0 <= i < cs.len() ==> (#[trigger] vs[i]).unpack_frozen_spec() is Some && denotes(
                    s,
                    vs[i].unpack_frozen_spec().unwrap(),
                    cs[i],
                ),
            _ => false,
        },
        Constant::Dict(ks, ws) => v is Ptr && match s.target(v.to_value_spec()) {
            Target::Object(Obj::Dict(es)) => es.len() == ks.len() && es.len() == ws.len()
                && forall|i: int|
                0 <= i < es.len() ==> (#[trigger] es[i]).0.unpack_frozen_spec() is Some
                    && es[i].1.unpack_frozen_spec() is Some && denotes(
                    s,
                    es[i].0.unpack_frozen_spec().unwrap(),
                    ks[i],
                ) && denotes(s, es[i].1.unpack_frozen_spec().unwrap(), ws[i]),
            _ => false,
        },
    }
}

/// Does the store `after` hold all that `before` held on the frozen heap, with the same
/// mutable heap?
pub open spec fn grown(before: Store, after: Store) -> bool {
    &&& after.heap == before.heap
    &&& before.frozen.len() <= after.frozen.len()
    &&& forall|i: int| 0 <= i < before.frozen.len() ==> after.frozen[i] == before.frozen[i]
}

/// What denotes a constant keeps denoting it when the frozen heap grows.
pub proof fn lemma_denotes_grown(before: Store, after: Store, v: FrozenValue, c: Constant)
    requires
        grown(before, after),
        denotes(before, v, c),
    ensures
        denotes(after, v, c),
    decreases c,
{
    match c {
        Constant::Tuple(cs) => {
            let vs = before.target(v.to_value_spec())->Object_0->Tuple_0;
            assert forall|i: int| 0 <= i < cs.len() implies (#[trigger] vs[i]).unpack_frozen_spec()
                is Some && denotes(after, vs[i].unpack_frozen_spec().unwrap(), cs[i]) by {
                lemma_denotes_grown(before, after, vs[i].unpack_frozen_spec().unwrap(), cs[i]);
            }
        },
        Constant::List(cs) => {
            let vs = before.target(v.to_value_spec())->Object_0->List_0;
            assert forall|i: int| 0 <= i < cs.len() implies (#[trigger] vs[i]).unpack_frozen_spec()
                is Some && denotes(after, vs[i].unpack_frozen_spec().unwrap(), cs[i]) by {
                lemma_denotes_grown(before, after, vs[i].unpack_frozen_spec().unwrap(), cs[i]);
            }
        },
        Constant::Dict(ks, ws) => {
            let es = before.target(v.to_value_spec())->Object_0->Dict_0;
            assert forall|i: int| 0 <= i < es.len() implies (#[trigger] es[i]).0.unpack_frozen_spec()
                is Some && es[i].1.unpack_frozen_spec() is Some && denotes(
                after,
                es[i].0.unpack_frozen_spec().unwrap(),
                ks[i],
            ) && denotes(after, es[i].1.unpack_frozen_spec().unwrap(), ws[i]) by {
                lemma_denotes_grown(before, after, es[i].0.unpack_frozen_spec().unwrap(), ks[i]);
                lemma_denotes_grown(before, after, es[i].1.unpack_frozen_spec().unwrap(), ws[i]);
            }
        },
        _ => {},
    }
}

/// Is the result `r` of compiling `e` the constant that `e` is made of, if it is made of
/// literals?
pub open spec fn folded(s: Store, e: AstExpr, r: ExprCompiledValue) -> bool {
    match constant_of(e) {
        Some(c) => r is Value && denotes(s, r->Value_0, c),
        None => true,
    }
}

/// The expressions `xs[i..]` have values if and only if each of them has one.
pub proof fn lemma_constants_each(xs: Vec<AstExpr>, i: int)
    requires
        0 <= i <= xs.len(),
    ensures
        match constants_from(xs, i) {
            Some(cs) => cs.len() == xs.len() - i && forall|k: int|
                i <= k < xs.len() ==> constant_of(#[trigger] xs@[k]) == Some(cs[k - i]),
            None => exists|k: int| i <= k < xs.len() && constant_of(#[trigger] xs@[k]) is None,
        },
    decreases xs.len() - i,
{
    if i < xs.len() {
        lemma_constants_each(xs, i + 1);
        match constants_from(xs, i + 1) {
            Some(rest) => {
                match constant_of(xs@[i]) {
                    Some(c) => {
                        let cs = seq![c] + rest;
                        assert forall|k: int| i <= k < xs.len() implies constant_of(
                            #[trigger] xs@[k],
                        ) == Some(cs[k - i]) by {
                            if k > i {
                                assert(cs[k - i] == rest[k - (i + 1)]);
                            }
                        }
                    },
                    None => {
                        assert(constant_of(xs@[i]) is None);
                    },
                }
            },
            None => {
                let k = choose|k: int| i + 1 <= k < xs.len() && constant_of(#[trigger] xs@[k]) is None;
                assert(constant_of(xs@[k]) is None);
            },
        }
    }
}

/// The keys of the entries `kvs[i..]` have values if and only if each of them has one.
pub proof fn lemma_keys_each(kvs: Vec<(AstExpr, AstExpr)>, i: int)
    requires
        0 <= i <= kvs.len(),
    ensures
        match keys_from(kvs, i) {
            Some(cs) => cs.len() == kvs.len() - i && forall|k: int|
                i <= k < kvs.len() ==> constant_of((#[trigger] kvs@[k]).0) == Some(cs[k - i]),
            None => true,
        },
    decreases kvs.len() - i,
{
    if i < kvs.len() {
        lemma_keys_each(kvs, i + 1);
        match (constant_of(kvs@[i].0), keys_from(kvs, i + 1)) {
            (Some(c), Some(rest)) => {
                let cs = seq![c] + rest;
                assert forall|k: int| i <= k < kvs.len() implies constant_of(
                    (#[trigger] kvs@[k]).0,
                ) == Some(cs[k - i]) by {
                    if k > i {
                        assert(cs[k - i] == rest[k - (i + 1)]);
                    }
                }
            },
            _ => {},
        }
    }
}

/// The values of the entries `kvs[i..]` have values if and only if each of them has one.
pub proof fn lemma_values_each(kvs: Vec<(AstExpr, AstExpr)>, i: int)
    requires
        0 <= i <= kvs.len(),
    ensures
        match values_from(kvs, i) {
            Some(cs) => cs.len() == kvs.len() - i && forall|k: int|
                i <= k < kvs.len() ==> constant_of((#[trigger] kvs@[k]).1) == Some(cs[k - i]),
            None => true,
        },
    decreases kvs.len() - i,
{
    if i < kvs.len() {
        lemma_values_each(kvs, i + 1);
        match (constant_of(kvs@[i].1), values_from(kvs, i + 1)) {
            (Some(c), Some(rest)) => {
                let cs = seq![c] + rest;
                assert forall|k: int| i <= k < kvs.len() implies constant_of(
                    (#[trigger] kvs@[k]).1,
                ) == Some(cs[k - i]) by {
                    if k > i {
                        assert(cs[k - i] == rest[k - (i + 1)]);
                    }
                }
            },
            _ => {},
        }
    }
}

/// Are the constants `x` and `y` the same from index `i` on?
pub open spec fn same_from(x: Seq<Constant>, y: Seq<Constant>, i: int) -> bool {
    forall|k: int| i <= k < x.len() ==> #[trigger] x[k] == y[k]
}

/// A frozen value denotes one constant that can be a key, at most.
pub proof fn lemma_key_unique(s: Store, v: FrozenValue, c1: Constant, c2: Constant, depth: nat)
    requires
        denotes(s, v, c1),
        denotes(s, v, c2),
        key_ok(c1, depth),
        key_ok(c2, depth),
    ensures
        c1 == c2,
    decreases depth,
{
    match (c1, c2) {
        (Constant::Tuple(x), Constant::Tuple(y)) => {
            let vs = s.target(v.to_value_spec())->Object_0->Tuple_0;
            assert forall|i: int| 0 <= i < x.len() implies x[i] == y[i] by {
                assert(denotes(s, vs[i].unpack_frozen_spec().unwrap(), x[i]));
                assert(denotes(s, vs[i].unpack_frozen_spec().unwrap(), y[i]));
                lemma_key_unique(
                    s,
                    vs[i].unpack_frozen_spec().unwrap(),
                    x[i],
                    y[i],
                    (depth - 1) as nat,
                );
            }
            assert(x =~= y);
        },
        _ => {},
    }
}

/// A constant that can be a key has a hash.
pub proof fn lemma_key_hash(s: Store, v: FrozenValue, c: Constant, depth: nat)
    requires
        denotes(s, v, c),
        key_ok(c, depth),
    ensures
        s.hash_at(v.to_value_spec(), depth) is Ok,
    decreases depth, 0nat, 0nat,
{
    match c {
        Constant::Tuple(cs) => {
            let vs = s.target(v.to_value_spec())->Object_0->Tuple_0;
            lemma_keys_hash(s, vs, cs, 0, 0, (depth - 1) as nat);
        },
        _ => {},
    }
}

/// As [`lemma_key_hash`], for the elements of a tuple from index `i` on.
pub proof fn lemma_keys_hash(s: Store, vs: Seq<Value>, cs: Seq<Constant>, i: int, h: i32, depth: nat)
    requires
        0 <= i <= vs.len(),
        vs.len() == cs.len(),
        forall|k: int|
            0 <= k < cs.len() ==> (#[trigger] vs[k]).unpack_frozen_spec() is Some && denotes(
                s,
                vs[k].unpack_frozen_spec().unwrap(),
                cs[k],
            ) && key_ok(cs[k], depth),
    ensures
        s.seq_hash_from(vs, i, h, depth) is Ok,
    decreases depth, 1nat, vs.len() - i,
{
    if i < vs.len() {
        let f = vs[i].unpack_frozen_spec().unwrap();
        assert(f.to_value_spec() == vs[i]);
        lemma_key_hash(s, f, cs[i], depth);
        lemma_keys_hash(
            s,
            vs,
            cs,
            i + 1,
            crate::equality::combine(h, s.hash_at(vs[i], depth)->Ok_0),
            depth,
        );
    }
}

/// Two constants that can be keys are equal as values if and only if they are the same.
pub proof fn lemma_key_equals(
    s: Store,
    a: FrozenValue,
    b: FrozenValue,
    c1: Constant,
    c2: Constant,
    depth: nat,
)
    requires
        denotes(s, a, c1),
        denotes(s, b, c2),
        key_ok(c1, depth),
        key_ok(c2, depth),
    ensures
        s.equals_at(a.to_value_spec(), b.to_value_spec(), depth) == Ok::<bool, ErrorKind>(c1 == c2),
    decreases depth, 0nat, 0nat,
{
    if a.to_value_spec() == b.to_value_spec() {
        assert(a == b);
        lemma_key_unique(s, a, c1, c2, depth);
    } else {
        match (c1, c2) {
            (Constant::Tuple(x), Constant::Tuple(y)) => {
                let p = s.target(a.to_value_spec())->Object_0->Tuple_0;
                let q = s.target(b.to_value_spec())->Object_0->Tuple_0;
                let r = s.equals_at(a.to_value_spec(), b.to_value_spec(), depth);
                assert(r == s.seq_equals(p, q, depth));
                if p.len() == q.len() {
                    lemma_keys_equal(s, p, q, x, y, 0, (depth - 1) as nat);
                    assert(r == Ok::<bool, ErrorKind>(same_from(x, y, 0)));
                    if same_from(x, y, 0) {
                        assert(x =~= y);
                    }
                    if c1 == c2 {
                        assert(same_from(x, y, 0));
                    }
                } else {
                    assert(x.len() != y.len());
                }
            },
            (Constant::Int(i), Constant::Int(j)) => {
                assert(a == FrozenValue::Int(i) && b == FrozenValue::Int(j));
            },
            (Constant::Str(x), Constant::Str(y)) => {
                assert(s.target(a.to_value_spec()) == Target::Str(x));
                assert(s.target(b.to_value_spec()) == Target::Str(y));
            },
            (Constant::Int(i), Constant::Str(y)) => {
                assert(s.target(a.to_value_spec()) == Target::Int(i));
                assert(s.target(b.to_value_spec()) == Target::Str(y));
            },
            (Constant::Str(x), Constant::Int(j)) => {
                assert(s.target(a.to_value_spec()) == Target::Str(x));
                assert(s.target(b.to_value_spec()) == Target::Int(j));
            },
            (Constant::Int(i), Constant::Tuple(y)) => {
                assert(s.target(a.to_value_spec()) == Target::Int(i));
                assert(s.target(b.to_value_spec()) is Object);
            },
            (Constant::Tuple(x), Constant::Int(j)) => {
                assert(s.target(b.to_value_spec()) == Target::Int(j));
                assert(s.target(a.to_value_spec()) is Object);
            },
            (Constant::Str(x), Constant::Tuple(y)) => {
                assert(s.target(a.to_value_spec()) == Target::Str(x));
                assert(s.target(b.to_value_spec()) is Object);
            },
            (Constant::Tuple(x), Constant::Str(y)) => {
                assert(s.target(b.to_value_spec()) == Target::Str(y));
                assert(s.target(a.to_value_spec()) is Object);
            },
            _ => {},
        }
    }
}

/// As [`lemma_key_equals`], for the elements of two tuples from index `i` on.
pub proof fn lemma_keys_equal(
    s: Store,
    p: Seq<Value>,
    q: Seq<Value>,
    x: Seq<Constant>,
    y: Seq<Constant>,
    i: int,
    depth: nat,
)
    requires
        0 <= i <= p.len(),
        p.len() == q.len(),
        p.len() == x.len(),
        q.len() == y.len(),
        forall|k: int|
            0 <= k < x.len() ==> (#[trigger] p[k]).unpack_frozen_spec() is Some && denotes(
                s,
                p[k].unpack_frozen_spec().unwrap(),
                x[k],
            ) && key_ok(x[k], depth),
        forall|k: int|
            0 <= k < y.len() ==> (#[trigger] q[k]).unpack_frozen_spec() is Some && denotes(
                s,
                q[k].unpack_frozen_spec().unwrap(),
                y[k],
            ) && key_ok(y[k], depth),
    ensures
        s.seq_equals_from(p, q, i, depth) == Ok::<bool, ErrorKind>(same_from(x, y, i)),
    decreases depth, 1nat, p.len() - i,
{
    if i < p.len() {
        let fa = p[i].unpack_frozen_spec().unwrap();
        let fb = q[i].unpack_frozen_spec().unwrap();
        assert(fa.to_value_spec() == p[i]);
        assert(fb.to_value_spec() == q[i]);
        lemma_key_equals(s, fa, fb, x[i], y[i], depth);
        lemma_keys_equal(s, p, q, x, y, i + 1, depth);
        if x[i] == y[i] {
            assert(same_from(x, y, i) == same_from(x, y, i + 1)) by {
                if same_from(x, y, i + 1) {
                    assert forall|k: int| i <= k < x.len() implies #[trigger] x[k] == y[k] by {
                        if k > i {
                        }
                    }
                }
            }
        } else {
            assert(!same_from(x, y, i));
        }
    }
}

/// The keys `ks[..n]` as the entries of a dictionary that holds nothing under them.
pub open spec fn seen_keys(ks: Seq<FrozenValue>, n: int) -> Seq<(Value, Value)> {
    Seq::new(n as nat, |j: int| (ks[j].to_value_spec(), Value::Nil))
}

/// Do the frozen values `ks` denote the constants `cs`, each of which can be a key?
pub open spec fn denote_keys(s: Store, ks: Seq<FrozenValue>, cs: Seq<Constant>) -> bool {
    &&& ks.len() == cs.len()
    &&& forall|i: int|
        0 <= i < ks.len() ==> key_ok(#[trigger] cs[i], MAX_NESTING as nat) && denotes(
            s,
            ks[i],
            cs[i],
        )
}

/// A constant that can be a key is found among the keys `ks[j..n]` only if one of them
/// denotes the same.
pub proof fn lemma_key_absent(
    s: Store,
    ks: Seq<FrozenValue>,
    cs: Seq<Constant>,
    n: int,
    k: FrozenValue,
    c: Constant,
    j: int,
)
    requires
        0 <= j <= n <= ks.len(),
        denote_keys(s, ks, cs),
        key_ok(c, MAX_NESTING as nat),
        denotes(s, k, c),
        forall|i: int| j <= i < n ==> #[trigger] cs[i] != c,
    ensures
        s.dict_find_from(seen_keys(ks, n), k.to_value_spec(), j, MAX_NESTING as nat) == Ok::<
            Option<int>,
            ErrorKind,
        >(None),
    decreases n - j,
{
    if j < n {
        assert(key_ok(cs[j], MAX_NESTING as nat) && denotes(s, ks[j], cs[j]));
        assert(cs[j] != c);
        assert(seen_keys(ks, n)[j].0 == ks[j].to_value_spec());
        lemma_key_equals(s, ks[j], k, cs[j], c, MAX_NESTING as nat);
        lemma_key_absent(s, ks, cs, n, k, c, j + 1);
    }
}

/// Keys that denote constants that can be keys, no two the same, are keys that differ
/// from `ks[n..]` on.
pub proof fn lemma_keys_distinct(s: Store, ks: Seq<FrozenValue>, cs: Seq<Constant>, n: int)
    requires
        0 <= n <= ks.len(),
        denote_keys(s, ks, cs),
        distinct_keys(cs),
    ensures
        s.distinct_from(ks, n, seen_keys(ks, n)),
    decreases ks.len() - n,
{
    if n < ks.len() {
        assert(key_ok(cs[n], MAX_NESTING as nat) && denotes(s, ks[n], cs[n]));
        assert forall|i: int| 0 <= i < n implies #[trigger] cs[i] != cs[n] by {}
        lemma_key_absent(s, ks, cs, n, ks[n], cs[n], 0);
        lemma_key_hash(s, ks[n], cs[n], MAX_NESTING as nat);
        assert(seen_keys(ks, n).push((ks[n].to_value_spec(), Value::Nil)) =~= seen_keys(
            ks,
            n + 1,
        ));
        lemma_keys_distinct(s, ks, cs, n + 1);
    }
}

/// Keys that denote constants that can be keys, no two the same, can be the keys of a
/// dictionary.
pub proof fn lemma_distinct_keys(s: Store, ks: Seq<FrozenValue>, cs: Seq<Constant>)
    requires
        denote_keys(s, ks, cs),
        distinct_keys(cs),
    ensures
        s.all_hashable(ks),
        s.distinct_from(ks, 0, Seq::empty()),
{
    assert forall|i: int| 0 <= i < ks.len() implies s.get_hash(
        (#[trigger] ks[i]).to_value_spec(),
    ) is Ok by {
        assert(key_ok(cs[i], MAX_NESTING as nat) && denotes(s, ks[i], cs[i]));
        lemma_key_hash(s, ks[i], cs[i], MAX_NESTING as nat);
    }
    lemma_keys_distinct(s, ks, cs, 0);
    assert(seen_keys(ks, 0) =~= Seq::empty());
}

/// The values that the compiler knows as such when it meets calls of them.
#[derive(Debug)]
pub struct Constants {
    /// The built-in `type`.
    pub fn_type: Option<FrozenValue>,
    /// The built-in `len`.
    pub fn_len: Option<FrozenValue>,
}

/// The compiler of one module.
#[derive(Debug)]
pub struct Compiler {
    /// The heaps: constants go to the frozen one.
    pub mem: Memory,
    pub scope: Scope,
    pub globals: Globals,
    /// The errors met so far. They fail the evaluation only if it reaches them.
    pub errors: Vec<Error>,
    /// The functions compiled so far.
    pub code: Vec<DefCompiled>,
    pub constants: Constants,
}

/// What the compiler has recorded of the error `e`.
pub open spec fn recorded(e: Error) -> Recorded {
    Recorded { kind: e.kind, message: e.message@, span: e.span }
}

/// The contents of the results `vs`.
pub open spec fn lvalues(vs: Seq<ExprCompiledValue>) -> Seq<LValue> {
    Seq::new(vs.len(), |i: int| lowered_value(vs[i]))
}

impl View for Compiler {
    type V = CState;

    open spec fn view(&self) -> CState {
        CState {
            store: self.mem@,
            scope: self.scope@,
            globals: self.globals,
            fn_type: self.constants.fn_type,
            fn_len: self.constants.fn_len,
            errors: Seq::new(self.errors@.len(), |i: int| recorded(self.errors@[i])),
            code: Seq::new(self.code@.len(), |i: int| lowered_def(self.code@[i])),
        }
    }
}

/// The contents of the targets `xs`.
pub open spec fn assign_views(xs: Seq<AssignCompiled>) -> Seq<LAssign> {
    Seq::new(xs.len(), |i: int| lowered_assign(xs[i]))
}

/// The contents of the clauses `cs`.
pub open spec fn clause_views(cs: Seq<ClauseCompiled>) -> Seq<LClause> {
    Seq::new(cs.len(), |i: int| lowered_clause(cs[i]))
}

/// Is `r` the result, and `after` the state, that compiling comes to?
pub open spec fn compiled_as(after: CState, r: ExprCompiledValue, s: (CState, LValue)) -> bool {
    after == s.0 && lowered_value(r) == s.1
}

/// Does the result of a chain of `+` on string literals agree with the text it spells?
pub open spec fn chain_agrees(r: Option<String>, t: Option<Seq<char>>) -> bool {
    match t {
        Some(x) => r is Some && r.unwrap()@ == x,
        None => r is None,
    }
}

/// Does an entire sequence of additions reduce to a string literal? `a + b + c`
/// associates as `(a + b) + c`.
pub fn reduces_to_string(op: BinOp, left: &AstExpr, right: &AstExpr) -> (r: Option<String>)
    ensures
        chain_agrees(r, chain_text(op, *left, *right)),
    decreases left,
{
    match op {
        BinOp::Add => {},
        _ => {
            return None;
        },
    }
    let last = match right.node.unpack_string_literal() {
        Some(x) => x,
        None => {
            return None;
        },
    };
    match &left.node {
        Expr::Op(left2, op2, right2) => match reduces_to_string(*op2, left2, right2) {
            Some(mut text) => {
                text.append(last);
                Some(text)
            },
            None => None,
        },
        _ => match left.node.unpack_string_literal() {
            Some(first) => {
                let mut text = crate::text::owned(first);
                text.append(last);
                Some(text)
            },
            None => None,
        },
    }
}

/// The operator of the compiled tree for a binary operator that computes a value.
fn arithmetic(op: BinOp) -> (r: Option<BinaryOp>)
    ensures
        r == arithmetic_op(op),
{
    match op {
        BinOp::Subtract => Some(BinaryOp::Subtract),
        BinOp::Add => Some(BinaryOp::Add),
        BinOp::Multiply => Some(BinaryOp::Multiply),
        BinOp::Percent => Some(BinaryOp::Percent),
        BinOp::FloorDivide => Some(BinaryOp::FloorDivide),
        BinOp::BitAnd => Some(BinaryOp::BitAnd),
        BinOp::BitOr => Some(BinaryOp::BitOr),
        BinOp::BitXor => Some(BinaryOp::BitXor),
        BinOp::LeftShift => Some(BinaryOp::LeftShift),
        BinOp::RightShift => Some(BinaryOp::RightShift),
        _ => None,
    }
}

fn compiled(span: Span, node: Node) -> (r: ExprCompiledValue)
    ensures
        r == ExprCompiledValue::Compiled(ExprCompiled { span, node }),
{
    ExprCompiledValue::Compiled(ExprCompiled { span, node })
}

impl Compiler {
    /// A compiler for a module with the variables `module`, on the heaps and names that a
    /// globals builder has made.
    pub fn new(mem: Memory, globals: Globals, module: Vec<String>) -> (c: Compiler)
        ensures
            c.mem == mem,
            c.globals == globals,
            c.scope.module == module,
            c@.scope.functions.len() == 0,
            c@.errors.len() == 0,
            c@.code.len() == 0,
            c.errors@.len() == 0,
            c.code@.len() == 0,
            c.constants.fn_type == globals.get_frozen_spec("type"@),
            c.constants.fn_len == globals.get_frozen_spec("len"@),
    {
        let fn_type = globals.get_frozen("type");
        let fn_len = globals.get_frozen("len");
        Compiler {
            mem,
            scope: Scope::new(module),
            globals,
            errors: Vec::new(),
            code: Vec::new(),
            constants: Constants { fn_type, fn_len },
        }
    }

    /// The heaps with the constants, and the program: the functions compiled and the
    /// globals.
    pub fn finish(self) -> (r: (Memory, crate::state::Program))
        ensures
            r.0 == self.mem,
            r.1.code == self.code,
            r.1.globals == self.globals,
            r.1.locals == (if self@.scope.functions.len() > 0 {
                self@.scope.functions.last().names.len()
            } else {
                0
            }),
    {
        let locals = self.scope.locals();
        (self.mem, crate::state::Program { code: self.code, globals: self.globals, locals })
    }

    /// The constant for a literal: the integer itself, or a new string on the frozen heap.
    pub fn literal(&mut self, x: &AstLiteral) -> (v: FrozenValue)
        ensures
            grown(old(self).mem@, final(self).mem@),
            match *x {
                AstLiteral::IntLiteral(i) => denotes(final(self).mem@, v, Constant::Int(i))
                    && v == FrozenValue::Int(i) && final(self)@ == old(self)@,
                AstLiteral::StringLiteral(s) => denotes(final(self).mem@, v, Constant::Str(s@))
                    && (final(self)@, v) == old(self)@.constant(Entry::Str(s@)),
            },
    {
        match x {
            AstLiteral::IntLiteral(i) => FrozenValue::new_int(*i),
            AstLiteral::StringLiteral(s) => self.text(s.clone()),
        }
    }

    /// Puts a constant string on the frozen heap.
    fn text(&mut self, s: String) -> (v: FrozenValue)
        ensures
            grown(old(self).mem@, final(self).mem@),
            denotes(final(self).mem@, v, Constant::Str(s@)),
            (final(self)@, v) == old(self)@.constant(Entry::Str(s@)),
    {
        let v = self.mem.alloc_frozen_str(s);
        assert(final(self)@.errors =~= old(self)@.errors);
        assert(final(self)@.code =~= old(self)@.code);
        v
    }

    /// Compiles an expression that may be absent.
    pub fn expr_opt(&mut self, expr: &Option<Box<AstExpr>>) -> (r: Option<Box<ExprCompiled>>)
        ensures
            grown(old(self).mem@, final(self).mem@),
            (final(self)@, lowered_opt(r)) == old(self)@.lower_opt(*expr),
        decreases expr, 3nat,
    {
        match expr {
            Some(v) => {
                let c = self.node(v);
                Some(Box::new(c))
            },
            None => None,
        }
    }

    /// Compiles an expression into a node to evaluate: a constant becomes the node that
    /// yields it.
    pub fn node(&mut self, expr: &AstExpr) -> (r: ExprCompiled)
        ensures
            grown(old(self).mem@, final(self).mem@),
            (final(self)@, lowered(r)) == old(self)@.lower_node(*expr),
        decreases expr, 2nat,
    {
        let c = self.expr(expr);
        c.as_compiled(expr.span)
    }

    /// Compiles an expression. An expression made of literals only becomes the constant
    /// that it spells. A name that is not known is no error yet: the error is recorded,
    /// and is raised if the expression is evaluated.
    pub fn expr(&mut self, expr: &AstExpr) -> (r: ExprCompiledValue)
        ensures
            grown(old(self).mem@, final(self).mem@),
            folded(final(self).mem@, *expr, r),
            compiled_as(final(self)@, r, old(self)@.lower(*expr)),
        decreases expr, 1nat,
    {
        match &expr.node {
            Expr::Identifier(_) | Expr::Literal(_) => self.leaf(expr),
            Expr::Lambda(_, _) => self.function(expr),
            Expr::Tuple(_) | Expr::List(_) => self.sequence(expr),
            Expr::Dict(_) => self.dict(expr),
            Expr::If(_, _, _) | Expr::Not(_) | Expr::BitNot(_) | Expr::Minus(_) | Expr::Plus(_) => self.unary(
                expr,
            ),
            Expr::Dot(_, _) | Expr::ArrayIndirection(_, _) | Expr::Slice(_, _, _, _) => self.access(
                expr,
            ),
            Expr::Call(_, _) => self.call(expr),
            Expr::Op(_, _, _) => self.op(expr),
            Expr::ListComprehension(_, _, _) | Expr::DictComprehension(_, _, _) => self.comprehension(
                expr,
            ),
        }
    }

    /// Brings the names of the target `a` into scope, each in a new slot of the innermost
    /// function.
    pub fn assign(&mut self, a: &Assign) -> (r: AssignCompiled)
        ensures
            final(self).mem == old(self).mem,
            (final(self)@, lowered_assign(r)) == old(self)@.lower_assign(*a),
        decreases a,
    {
        match a {
            Assign::Identifier(n) => {
                let ghost before = self@;
                let slot = self.scope.add_local(n.as_str());
                assert(self@.errors =~= before.errors);
                assert(self@.code =~= before.code);
                AssignCompiled::Slot(slot, n.clone())
            },
            Assign::Tuple(xs) => {
                let mut out: Vec<AssignCompiled> = Vec::new();
                let mut i: usize = 0;
                assert(assign_views(out@) =~= Seq::empty());
                while i < xs.len()
                    invariant
                        i <= xs.len(),
                        *a == Assign::Tuple(*xs),
                        self.mem == old(self).mem,
                        old(self)@.lower_assigns(*xs, 0, Seq::empty()) == self@.lower_assigns(
                            *xs,
                            i as int,
                            assign_views(out@),
                        ),
                    decreases xs.len() - i,
                {
                    let ghost sofar = out@;
                    assert(a->Tuple_0 == *xs);
                    let t = self.assign(&xs[i]);
                    let ghost tv = lowered_assign(t);
                    out.push(t);
                    assert(assign_views(out@) =~= assign_views(sofar).push(tv));
                    i += 1;
                }
                let ghost targets = assign_views(out@);
                let r = AssignCompiled::Tuple(out);
                assert(lowered_assign(r)->Tuple_0 =~= targets);
                r
            },
        }
    }

    /// Compiles a `for` clause: what it ranges over, then its variables.
    fn for_clause(&mut self, f: &ForClause) -> (r: ClauseCompiled)
        ensures
            grown(old(self).mem@, final(self).mem@),
            (final(self)@, lowered_clause(r)) == old(self)@.lower_for(*f),
        decreases f, 3nat,
    {
        let over = self.node(&f.over);
        let var = self.assign(&f.var);
        ClauseCompiled::For(var, over)
    }

    /// Compiles the clauses after the first of a comprehension, in order.
    fn clauses(&mut self, first: ClauseCompiled, clauses: &Vec<Clause>) -> (r: Vec<ClauseCompiled>)
        ensures
            grown(old(self).mem@, final(self).mem@),
            (final(self)@, clause_views(r@)) == old(self)@.lower_clauses(
                *clauses,
                0,
                seq![lowered_clause(first)],
            ),
        decreases clauses,
    {
        let mut out: Vec<ClauseCompiled> = Vec::new();
        let ghost head = lowered_clause(first);
        out.push(first);
        assert(clause_views(out@) =~= seq![head]);
        let mut i: usize = 0;
        while i < clauses.len()
            invariant
                i <= clauses.len(),
                grown(old(self).mem@, self.mem@),
                old(self)@.lower_clauses(*clauses, 0, seq![head]) == self@.lower_clauses(
                    *clauses,
                    i as int,
                    clause_views(out@),
                ),
            decreases clauses.len() - i,
        {
            let ghost sofar = out@;
            let c = match &clauses[i] {
                Clause::For(f) => self.for_clause(f),
                Clause::If(x) => ClauseCompiled::If(self.node(x)),
            };
            let ghost cv = lowered_clause(c);
            out.push(c);
            assert(clause_views(out@) =~= clause_views(sofar).push(cv));
            i += 1;
        }
        out
    }

    /// Hides the variables of the target `a`.
    fn forget_assign(&mut self, a: &AssignCompiled)
        ensures
            final(self).mem == old(self).mem,
            final(self)@ == (CState {
                scope: forget_assign(old(self)@.scope, lowered_assign(*a)),
                ..old(self)@
            }),
        decreases a,
    {
        let ghost before = self@;
        match a {
            AssignCompiled::Slot(i, _) => {
                self.scope.forget(*i);
                assert(self@.errors =~= before.errors);
                assert(self@.code =~= before.code);
            },
            AssignCompiled::Tuple(xs) => {
                let ghost ts = lowered_assign(*a)->Tuple_0;
                assert(ts =~= assign_views(xs@));
                let mut i: usize = 0;
                while i < xs.len()
                    invariant
                        i <= xs.len(),
                        *a == AssignCompiled::Tuple(*xs),
                        ts == assign_views(xs@),
                        self.mem == old(self).mem,
                        self@ == (CState { scope: self@.scope, ..before }),
                        forget_assigns(before.scope, ts, 0) == forget_assigns(
                            self@.scope,
                            ts,
                            i as int,
                        ),
                    decreases xs.len() - i,
                {
                    assert(a->Tuple_0 == *xs);
                    self.forget_assign(&xs[i]);
                    i += 1;
                }
            },
        }
    }

    /// Hides the variables of the clauses `cs`.
    fn forget_clauses(&mut self, cs: &Vec<ClauseCompiled>)
        ensures
            final(self).mem == old(self).mem,
            final(self)@ == old(self)@.forget_clauses(clause_views(cs@), 0),
    {
        let mut i: usize = 0;
        while i < cs.len()
            invariant
                i <= cs.len(),
                self.mem == old(self).mem,
                old(self)@.forget_clauses(clause_views(cs@), 0) == self@.forget_clauses(
                    clause_views(cs@),
                    i as int,
                ),
            decreases cs.len() - i,
        {
            match &cs[i] {
                ClauseCompiled::For(var, _) => {
                    self.forget_assign(var);
                },
                ClauseCompiled::If(_) => {},
            }
            i += 1;
        }
    }

    /// Compiles a comprehension: the clauses in order, then the element. The variables of
    /// its `for` clauses are in scope from their clause to the end of the comprehension.
    fn comprehension(&mut self, expr: &AstExpr) -> (r: ExprCompiledValue)
        requires
            expr.node is ListComprehension || expr.node is DictComprehension,
        ensures
            grown(old(self).mem@, final(self).mem@),
            folded(final(self).mem@, *expr, r),
            compiled_as(final(self)@, r, old(self)@.lower_comprehension(*expr)),
        decreases expr, 0nat,
    {
        let span = expr.span;
        assert(constant_of(*expr) is None);
        match &expr.node {
            Expr::ListComprehension(x, first, clauses) => {
                let head = self.for_clause(first);
                let cs = self.clauses(head, clauses);
                let body = self.node(x);
                self.forget_clauses(&cs);
                assert(lowered_clauses(cs) =~= clause_views(cs@));
                compiled(span, Node::ListComp(Box::new(body), cs))
            },
            Expr::DictComprehension(kv, first, clauses) => {
                let head = self.for_clause(first);
                let cs = self.clauses(head, clauses);
                let k = self.node(&kv.0);
                let v = self.node(&kv.1);
                self.forget_clauses(&cs);
                assert(lowered_clauses(cs) =~= clause_views(cs@));
                compiled(span, Node::DictComp(Box::new(k), Box::new(v), cs))
            },
            _ => compiled(span, Node::NotFound(crate::text::owned("?"))),
        }
    }

    fn leaf(&mut self, expr: &AstExpr) -> (r: ExprCompiledValue)
        requires
            expr.node is Identifier || expr.node is Literal,
        ensures
            grown(old(self).mem@, final(self).mem@),
            folded(final(self).mem@, *expr, r),
            compiled_as(final(self)@, r, old(self)@.lower_leaf(*expr)),
    {
        let span = expr.span;
        match &expr.node {
            Expr::Identifier(name) => {
                assert(constant_of(*expr) is None);
                let slot = self.scope.get_name(name.as_str());
                assert(self@.errors =~= old(self)@.errors);
                assert(self@.code =~= old(self)@.code);
                match slot {
                    // We can't look up the local variables in advance, because they are
                    // different each time we go through a new function call.
                    Some(Slot::Local(slot)) => compiled(span, Node::Local(slot, name.clone())),
                    // We can't look up the module variables in advance because the first
                    // time around they are mutable, but after freezing they point at a
                    // different set of frozen slots.
                    Some(Slot::Module(slot)) => compiled(span, Node::Module(slot, name.clone())),
                    // Must be a global, since we know all variables.
                    None => match self.globals.get_frozen(name.as_str()) {
                        Some(v) => ExprCompiledValue::Value(v),
                        None => {
                            let ghost before = self@;
                            let e = Error::from_environment(
                                EnvironmentError::VariableNotFound(name.clone()),
                            ).at(span);
                            assert(recorded(e) == not_found(name@, span));
                            self.errors.push(e);
                            assert(self@.errors =~= before.errors.push(not_found(name@, span)));
                            assert(self@.code =~= before.code);
                            compiled(span, Node::NotFound(name.clone()))
                        },
                    },
                }
            },
            Expr::Literal(x) => ExprCompiledValue::Value(self.literal(x)),
            _ => compiled(span, Node::NotFound(crate::text::owned("?"))),
        }
    }

    /// Compiles the expressions `xs` in order.
    fn exprs(&mut self, xs: &Vec<AstExpr>) -> (r: Vec<ExprCompiledValue>)
        ensures
            grown(old(self).mem@, final(self).mem@),
            r@.len() == xs@.len(),
            forall|k: int| 0 <= k < xs@.len() ==> folded(final(self).mem@, xs@[k], #[trigger] r@[k]),
            (final(self)@, lvalues(r@)) == old(self)@.lower_all(*xs, 0, Seq::empty()),
        decreases xs,
    {
        let mut out: Vec<ExprCompiledValue> = Vec::new();
        let mut i: usize = 0;
        assert(lvalues(out@) =~= Seq::empty());
        while i < xs.len()
            invariant
                i <= xs.len(),
                out@.len() == i,
                grown(old(self).mem@, self.mem@),
                forall|k: int| 0 <= k < i ==> folded(self.mem@, xs@[k], #[trigger] out@[k]),
                old(self)@.lower_all(*xs, 0, Seq::empty()) == self@.lower_all(
                    *xs,
                    i as int,
                    lvalues(out@),
                ),
            decreases xs.len() - i,
        {
            let ghost before = self.mem@;
            let ghost sofar = out@;
            let c = self.expr(&xs[i]);
            proof {
                assert forall|k: int| 0 <= k < i implies folded(self.mem@, xs@[k], #[trigger] sofar[k]) by {
                    match constant_of(xs@[k]) {
                        Some(c) => {
                            lemma_denotes_grown(before, self.mem@, sofar[k]->Value_0, c);
                        },
                        None => {},
                    }
                }
            }
            out.push(c);
            assert(lvalues(out@) =~= lvalues(sofar).push(lowered_value(c)));
            i += 1;
        }
        out
    }

    /// Puts a constant tuple on the frozen heap.
    fn tuple(&mut self, content: &Vec<FrozenValue>) -> (v: FrozenValue)
        ensures
            grown(old(self).mem@, final(self).mem@),
            (final(self)@, v) == old(self)@.constant(
                Entry::Simple(Obj::Tuple(crate::eval::thaw(content@))),
            ),
            v == FrozenValue::Ptr(old(self).mem@.frozen.len() as usize),
            final(self).mem@.target(v.to_value_spec()) == Target::Object(
                Obj::Tuple(crate::eval::thaw(content@)),
            ),
    {
        let items = crate::eval::thaw_values(content);
        let v = self.mem.alloc_frozen_object(Object::Tuple(items));
        assert(final(self)@.errors =~= old(self)@.errors);
        assert(final(self)@.code =~= old(self)@.code);
        v
    }

    /// Puts a constant list on the frozen heap.
    fn list(&mut self, content: &Vec<FrozenValue>) -> (v: FrozenValue)
        ensures
            grown(old(self).mem@, final(self).mem@),
            (final(self)@, v) == old(self)@.constant(
                Entry::Simple(Obj::List(crate::eval::thaw(content@))),
            ),
            v == FrozenValue::Ptr(old(self).mem@.frozen.len() as usize),
            final(self).mem@.target(v.to_value_spec()) == Target::Object(
                Obj::List(crate::eval::thaw(content@)),
            ),
    {
        let items = crate::eval::thaw_values(content);
        let v = self.mem.alloc_frozen_object(Object::List(items));
        assert(final(self)@.errors =~= old(self)@.errors);
        assert(final(self)@.code =~= old(self)@.code);
        v
    }

    fn sequence(&mut self, expr: &AstExpr) -> (r: ExprCompiledValue)
        requires
            expr.node is Tuple || expr.node is List,
        ensures
            grown(old(self).mem@, final(self).mem@),
            folded(final(self).mem@, *expr, r),
            compiled_as(final(self)@, r, old(self)@.lower_sequence(*expr)),
        decreases expr, 0nat,
    {
        let span = expr.span;
        match &expr.node {
            Expr::Tuple(exprs) => {
                let xs = self.exprs(exprs);
                match all_values(&xs) {
                    Some(content) => {
                        let ghost before = self.mem@;
                        let result = self.tuple(&content);
                        proof {
                            lemma_constants_each(*exprs, 0);
                            let items = crate::eval::thaw(content@);
                            match constants_from(*exprs, 0) {
                                Some(cs) => {
                                    assert forall|i: int| 0 <= i < cs.len() implies (
                                    #[trigger] items[i]).unpack_frozen_spec() is Some && denotes(
                                        self.mem@,
                                        items[i].unpack_frozen_spec().unwrap(),
                                        cs[i],
                                    ) by {
                                        assert(folded(before, exprs@[i], xs@[i]));
                                        assert(items[i] == content@[i].to_value_spec());
                                        lemma_denotes_grown(before, self.mem@, content@[i], cs[i]);
                                    }
                                },
                                None => {},
                            }
                        }
                        ExprCompiledValue::Value(result)
                    },
                    None => {
                        proof {
                            lemma_constants_each(*exprs, 0);
                        }
                        compiled(span, Node::Tuple(into_compiled(xs, span)))
                    },
                }
            },
            Expr::List(exprs) => {
                let xs = self.exprs(exprs);
                match all_values(&xs) {
                    Some(content) => {
                        if content.len() == 0 {
                            proof {
                                lemma_constants_each(*exprs, 0);
                            }
                            return compiled(span, Node::ListStatic(content));
                        }
                        let ghost before = self.mem@;
                        let result = self.list(&content);
                        proof {
                            lemma_constants_each(*exprs, 0);
                            let items = crate::eval::thaw(content@);
                            match constants_from(*exprs, 0) {
                                Some(cs) => {
                                    assert forall|i: int| 0 <= i < cs.len() implies (
                                    #[trigger] items[i]).unpack_frozen_spec() is Some && denotes(
                                        self.mem@,
                                        items[i].unpack_frozen_spec().unwrap(),
                                        cs[i],
                                    ) by {
                                        assert(folded(before, exprs@[i], xs@[i]));
                                        assert(items[i] == content@[i].to_value_spec());
                                        lemma_denotes_grown(before, self.mem@, content@[i], cs[i]);
                                    }
                                },
                                None => {},
                            }
                        }
                        ExprCompiledValue::Value(result)
                    },
                    None => {
                        proof {
                            lemma_constants_each(*exprs, 0);
                        }
                        compiled(span, Node::List(into_compiled(xs, span)))
                    },
                }
            },
            _ => compiled(span, Node::NotFound(crate::text::owned("?"))),
        }
    }

    fn dict(&mut self, expr: &AstExpr) -> (r: ExprCompiledValue)
        requires
            expr.node is Dict,
        ensures
            grown(old(self).mem@, final(self).mem@),
            folded(final(self).mem@, *expr, r),
            compiled_as(final(self)@, r, old(self)@.lower_dict(*expr)),
        decreases expr, 0nat,
    {
        let span = expr.span;
        match &expr.node {
            Expr::Dict(exprs) => {
                let mut keys: Vec<ExprCompiledValue> = Vec::new();
                let mut values: Vec<ExprCompiledValue> = Vec::new();
                let mut i: usize = 0;
                assert(lvalues(keys@) =~= Seq::empty());
                assert(lvalues(values@) =~= Seq::empty());
                while i < exprs.len()
                    invariant
                        i <= exprs.len(),
                        keys@.len() == i,
                        values@.len() == i,
                        expr.node is Dict,
                        expr.node->Dict_0 == *exprs,
                        grown(old(self).mem@, self.mem@),
                        forall|k: int|
                            0 <= k < i ==> folded(self.mem@, exprs@[k].0, #[trigger] keys@[k]),
                        forall|k: int|
                            0 <= k < i ==> folded(self.mem@, exprs@[k].1, #[trigger] values@[k]),
                        old(self)@.lower_pairs(*exprs, 0, Seq::empty(), Seq::empty())
                            == self@.lower_pairs(
                            *exprs,
                            i as int,
                            lvalues(keys@),
                            lvalues(values@),
                        ),
                    decreases exprs.len() - i,
                {
                    proof {
                        let pair = exprs@[i as int];
                        assert(decreases_to!(*exprs => pair));
                        assert(decreases_to!(pair => pair.0));
                        assert(decreases_to!(pair => pair.1));
                    }
                    let ghost ks = keys@;
                    let ghost vs = values@;
                    let ghost s0 = self.mem@;
                    let k = self.expr(&exprs[i].0);
                    let ghost s1 = self.mem@;
                    let v = self.expr(&exprs[i].1);
                    proof {
                        let s2 = self.mem@;
                        assert forall|j: int| 0 <= j < i implies folded(
                            s2,
                            exprs@[j].0,
                            #[trigger] ks[j],
                        ) by {
                            match constant_of(exprs@[j].0) {
                                Some(c) => {
                                    lemma_denotes_grown(s0, s2, ks[j]->Value_0, c);
                                },
                                None => {},
                            }
                        }
                        assert forall|j: int| 0 <= j < i implies folded(
                            s2,
                            exprs@[j].1,
                            #[trigger] vs[j],
                        ) by {
                            match constant_of(exprs@[j].1) {
                                Some(c) => {
                                    lemma_denotes_grown(s0, s2, vs[j]->Value_0, c);
                                },
                                None => {},
                            }
                        }
                        match constant_of(exprs@[i as int].0) {
                            Some(c) => {
                                lemma_denotes_grown(s1, s2, k->Value_0, c);
                            },
                            None => {},
                        }
                    }
                    keys.push(k);
                    values.push(v);
                    assert(lvalues(keys@) =~= lvalues(ks).push(lowered_value(k)));
                    assert(lvalues(values@) =~= lvalues(vs).push(lowered_value(v)));
                    i += 1;
                }
                let ghost before = self.mem@;
                let ghost kv = keys@;
                let ghost vv = values@;
                proof {
                    lemma_keys_each(*exprs, 0);
                    lemma_values_each(*exprs, 0);
                    match constant_of(*expr) {
                        Some(Constant::Dict(kc, wc)) => {
                            let ks = Seq::new(kv.len(), |i: int| kv[i]->Value_0);
                            assert forall|i: int| 0 <= i < kv.len() implies (#[trigger] lvalues(kv)[i])
                                is Value by {
                                assert(folded(before, exprs@[i].0, kv[i]));
                            }
                            assert forall|i: int| 0 <= i < vv.len() implies (#[trigger] lvalues(vv)[i])
                                is Value by {
                                assert(folded(before, exprs@[i].1, vv[i]));
                            }
                            assert(all_constants(lvalues(kv)) == Some(ks)) by {
                                assert(all_constants(lvalues(kv)).unwrap() =~= ks);
                            }
                            assert forall|i: int| 0 <= i < ks.len() implies key_ok(
                                #[trigger] kc[i],
                                MAX_NESTING as nat,
                            ) && denotes(before, ks[i], kc[i]) by {
                                assert(folded(before, exprs@[i].0, kv[i]));
                            }
                            lemma_distinct_keys(before, ks, kc);
                        },
                        _ => {},
                    }
                }
                let r = self.dict_value(keys, values, span);
                proof {
                    match constant_of(*expr) {
                        Some(Constant::Dict(kc, wc)) => {
                            let es = self.mem@.target(r->Value_0.to_value_spec())->Object_0->Dict_0;
                            assert forall|i: int| 0 <= i < es.len() implies (#[trigger] es[i]).0.unpack_frozen_spec()
                                is Some && es[i].1.unpack_frozen_spec() is Some && denotes(
                                self.mem@,
                                es[i].0.unpack_frozen_spec().unwrap(),
                                kc[i],
                            ) && denotes(self.mem@, es[i].1.unpack_frozen_spec().unwrap(), wc[i]) by {
                                assert(folded(before, exprs@[i].0, kv[i]));
                                assert(folded(before, exprs@[i].1, vv[i]));
                                assert(es[i] == (
                                    kv[i]->Value_0.to_value_spec(),
                                    vv[i]->Value_0.to_value_spec(),
                                ));
                                lemma_denotes_grown(before, self.mem@, kv[i]->Value_0, kc[i]);
                                lemma_denotes_grown(before, self.mem@, vv[i]->Value_0, wc[i]);
                            }
                        },
                        _ => {},
                    }
                }
                r
            },
            _ => compiled(span, Node::NotFound(crate::text::owned("?"))),
        }
    }

    /// The result for a dictionary, from the results of compiling its keys and values.
    fn dict_value(
        &mut self,
        keys: Vec<ExprCompiledValue>,
        values: Vec<ExprCompiledValue>,
        span: Span,
    ) -> (r: ExprCompiledValue)
        requires
            keys@.len() == values@.len(),
        ensures
            grown(old(self).mem@, final(self).mem@),
            compiled_as(
                final(self)@,
                r,
                old(self)@.dict_value(lvalues(keys@), lvalues(values@), span),
            ),
            ({
                let lk = lvalues(keys@);
                let lv = lvalues(values@);
                &&& all_constants(lk) is Some
                &&& all_constants(lv) is Some
                &&& lk.len() > 0
                &&& old(self).mem@.all_hashable(all_constants(lk).unwrap())
                &&& old(self).mem@.distinct_from(all_constants(lk).unwrap(), 0, Seq::empty())
            }) ==> r is Value && final(self).mem@.target(r->Value_0.to_value_spec())
                == Target::Object(
                Obj::Dict(
                    Seq::new(
                        keys@.len(),
                        |i: int|
                            (keys@[i]->Value_0.to_value_spec(), values@[i]->Value_0.to_value_spec()),
                    ),
                ),
            ),
    {
        let ghost lk = lvalues(keys@);
        let ghost lv = lvalues(values@);
        match all_values(&keys) {
            Some(ks) => {
                if self.hashable(&ks) {
                    match all_values(&values) {
                        Some(vs) => {
                            // If we lost some elements, then there are duplicates, so
                            // don't take the fast-literal path and go down the slow
                            // runtime path (which will raise the error).
                            if self.distinct(&ks) {
                                let pairs = zip_pairs(&ks, &vs);
                                if pairs.len() == 0 {
                                    let node = Node::DictStatic(pairs);
                                    assert(lowered(ExprCompiled { span, node }).node
                                        == LNode::DictStatic(pairs@));
                                    return compiled(span, node);
                                }
                                let entries = crate::eval::thaw_value_pairs(&pairs);
                                let ghost content = entries@;
                                let v = self.mem.alloc_frozen_object(Object::Dict(entries));
                                assert(final(self)@.errors =~= old(self)@.errors);
                                assert(final(self)@.code =~= old(self)@.code);
                                assert(content =~= Seq::new(
                                    keys@.len(),
                                    |i: int|
                                        (
                                            keys@[i]->Value_0.to_value_spec(),
                                            values@[i]->Value_0.to_value_spec(),
                                        ),
                                ));
                                return ExprCompiledValue::Value(v);
                            }
                        },
                        None => {
                            // The keys are all constant, but the variables change.
                            let nodes = into_compiled(values, span);
                            let pairs = zip_keys(&ks, nodes);
                            let node = Node::DictStaticKey(pairs);
                            assert(lowered(ExprCompiled { span, node }).node->DictStaticKey_0
                                =~= Seq::new(ks@.len(), |i: int| (ks@[i], lv[i].as_compiled(span))));
                            return compiled(span, node);
                        },
                    }
                }
            },
            None => {},
        }
        let knodes = into_compiled(keys, span);
        let vnodes = into_compiled(values, span);
        let pairs = zip_nodes(knodes, vnodes);
        let node = Node::Dict(pairs);
        assert(lowered(ExprCompiled { span, node }).node->Dict_0 =~= Seq::new(
            lk.len(),
            |i: int| (lk[i].as_compiled(span), lv[i].as_compiled(span)),
        ));
        compiled(span, node)
    }

    /// Can each of the constants `ks` be a key of a dictionary?
    fn hashable(&self, ks: &Vec<FrozenValue>) -> (r: bool)
        ensures
            r == self.mem@.all_hashable(ks@),
    {
        let mut i: usize = 0;
        while i < ks.len()
            invariant
                i <= ks.len(),
                forall|k: int|
                    0 <= k < i ==> self.mem@.get_hash((#[trigger] ks@[k]).to_value_spec()) is Ok,
            decreases ks.len() - i,
        {
            if self.mem.get_hash(ks[i].to_value()).is_err() {
                assert(!(self.mem@.get_hash(ks@[i as int].to_value_spec()) is Ok));
                return false;
            }
            i += 1;
        }
        true
    }

    /// Are no two of the constants `ks` equal?
    fn distinct(&self, ks: &Vec<FrozenValue>) -> (r: bool)
        ensures
            r == self.mem@.distinct_from(ks@, 0, Seq::empty()),
    {
        let mut seen: Vec<(Value, Value)> = Vec::new();
        let mut i: usize = 0;
        while i < ks.len()
            invariant
                i <= ks.len(),
                self.mem@.distinct_from(ks@, 0, Seq::empty()) == self.mem@.distinct_from(
                    ks@,
                    i as int,
                    seen@,
                ),
            decreases ks.len() - i,
        {
            match self.mem.dict_insert(&mut seen, ks[i].to_value(), Value::Nil) {
                Ok(false) => {},
                _ => {
                    return false;
                },
            }
            i += 1;
        }
        true
    }

    fn unary(&mut self, expr: &AstExpr) -> (r: ExprCompiledValue)
        requires
            expr.node is If || expr.node is Not || expr.node is BitNot || expr.node is Minus
                || expr.node is Plus,
        ensures
            grown(old(self).mem@, final(self).mem@),
            folded(final(self).mem@, *expr, r),
            compiled_as(final(self)@, r, old(self)@.lower_unary(*expr)),
        decreases expr, 0nat,
    {
        let span = expr.span;
        match &expr.node {
            Expr::If(cond, then_expr, else_expr) => {
                let c = self.node(cond);
                let t = self.node(then_expr);
                let f = self.node(else_expr);
                compiled(span, Node::If(Box::new(c), Box::new(t), Box::new(f)))
            },
            Expr::Not(x) => {
                let c = self.node(x);
                compiled(span, Node::Not(Box::new(c)))
            },
            Expr::BitNot(x) => {
                let c = self.node(x);
                compiled(span, Node::BitNot(Box::new(c)))
            },
            Expr::Minus(x) => {
                let c = self.expr(x);
                negated(c, x.span, span)
            },
            Expr::Plus(x) => {
                let c = self.expr(x);
                affirmed(c, x.span, span)
            },
            _ => compiled(span, Node::NotFound(crate::text::owned("?"))),
        }
    }

    fn access(&mut self, expr: &AstExpr) -> (r: ExprCompiledValue)
        requires
            expr.node is Dot || expr.node is ArrayIndirection || expr.node is Slice,
        ensures
            grown(old(self).mem@, final(self).mem@),
            folded(final(self).mem@, *expr, r),
            compiled_as(final(self)@, r, old(self)@.lower_access(*expr)),
        decreases expr, 0nat,
    {
        let span = expr.span;
        match &expr.node {
            Expr::Dot(left, right) => {
                let l = self.node(left);
                compiled(span, Node::Dot(Box::new(l), right.clone()))
            },
            Expr::ArrayIndirection(array, index) => {
                let a = self.node(array);
                let i = self.node(index);
                compiled(span, Node::Index(Box::new(a), Box::new(i)))
            },
            Expr::Slice(collection, start, stop, stride) => {
                let c = self.node(collection);
                let a = self.expr_opt(start);
                let b = self.expr_opt(stop);
                let s = self.expr_opt(stride);
                compiled(span, Node::Slice(Box::new(c), a, b, s))
            },
            _ => compiled(span, Node::NotFound(crate::text::owned("?"))),
        }
    }

    /// Compiles the arguments of a call: the positional and named ones in order, the names
    /// of the named ones as strings on the frozen heap.
    pub fn args(&mut self, args: &Vec<Argument>) -> (r: ArgsCompiled)
        ensures
            grown(old(self).mem@, final(self).mem@),
            (final(self)@, lowered_general(r)) == old(self)@.lower_args(
                *args,
                0,
                LGeneral {
                    pos_named: Seq::empty(),
                    names: Seq::empty(),
                    args: None,
                    kwargs: None,
                },
            ),
        decreases args,
    {
        let mut res = ArgsCompiled {
            pos_named: Vec::new(),
            names: Vec::new(),
            args: None,
            kwargs: None,
        };
        let mut i: usize = 0;
        assert(lowered_general(res).pos_named =~= Seq::empty());
        assert(lowered_general(res).names =~= Seq::empty());
        while i < args.len()
            invariant
                i <= args.len(),
                grown(old(self).mem@, self.mem@),
                old(self)@.lower_args(
                    *args,
                    0,
                    LGeneral {
                        pos_named: Seq::empty(),
                        names: Seq::empty(),
                        args: None,
                        kwargs: None,
                    },
                ) == self@.lower_args(*args, i as int, lowered_general(res)),
            decreases args.len() - i,
        {
            let ghost acc = lowered_general(res);
            match &args[i] {
                Argument::Positional(x) => {
                    let c = self.node(x);
                    res.pos_named.push(c);
                    assert(lowered_general(res).pos_named =~= acc.pos_named.push(lowered(c)));
                    assert(lowered_general(res).names =~= acc.names);
                },
                Argument::Named(name, value) => {
                    let name_value = self.text(name.clone());
                    res.names.push((name.clone(), name_value));
                    let c = self.node(value);
                    res.pos_named.push(c);
                    assert(lowered_general(res).pos_named =~= acc.pos_named.push(lowered(c)));
                    assert(lowered_general(res).names =~= acc.names.push((name@, name_value)));
                },
                Argument::Args(x) => {
                    let c = self.node(x);
                    res.args = Some(Box::new(c));
                    assert(lowered_general(res).pos_named =~= acc.pos_named);
                    assert(lowered_general(res).names =~= acc.names);
                },
                Argument::KWargs(x) => {
                    let c = self.node(x);
                    res.kwargs = Some(Box::new(c));
                    assert(lowered_general(res).pos_named =~= acc.pos_named);
                    assert(lowered_general(res).names =~= acc.names);
                },
            }
            i += 1;
        }
        res
    }

fn call(&mut self, expr: &AstExpr) -> (r: ExprCompiledValue)
        requires
            expr.node is Call,
        ensures
            grown(old(self).mem@, final(self).mem@),
            folded(final(self).mem@, *expr, r),
            compiled_as(final(self)@, r, old(self)@.lower_call(*expr)),
        decreases expr, 0nat,
    {
        let span = expr.span;
        match &expr.node {
            Expr::Call(left, args) => {
                let args = self.args(args);
                match &left.node {
                    Expr::Dot(e, s) => {
                        let receiver = self.node(e);
                        compiled(
                            span,
                            Node::CallMethod(Box::new(receiver), s.clone(), specialise(args)),
                        )
                    },
                    _ => {
                        let l = self.expr(left);
                        plain_call(l, args, self.constants.fn_type, self.constants.fn_len, left.span, span)
                    },
                }
            },
            _ => compiled(span, Node::NotFound(crate::text::owned("?"))),
        }
    }

        fn op(&mut self, expr: &AstExpr) -> (r: ExprCompiledValue)
        requires
            expr.node is Op,
        ensures
            grown(old(self).mem@, final(self).mem@),
            folded(final(self).mem@, *expr, r),
            compiled_as(final(self)@, r, old(self)@.lower_op(*expr)),
        decreases expr, 0nat,
    {
        let span = expr.span;
        match &expr.node {
            Expr::Op(left, op, right) => {
                match reduces_to_string(*op, left, right) {
                    Some(x) => {
                        proof {
                            lemma_chain_constant(*expr);
                        }
                        return ExprCompiledValue::Value(self.text(x));
                    },
                    None => {},
                }
                let ghost start = self.mem@;
                let l = self.expr(left);
                let ghost mid = self.mem@;
                let r = self.expr(right);
                proof {
                    match constant_of(**left) {
                        Some(c) => {
                            lemma_denotes_grown(mid, self.mem@, l->Value_0, c);
                        },
                        None => {},
                    }
                }
                let folded_text = match op {
                    BinOp::Add => match (l.as_value(), r.as_value()) {
                        (Some(a), Some(b)) => self.joined(a, b),
                        _ => None,
                    },
                    _ => None,
                };
                match folded_text {
                    Some(text) => ExprCompiledValue::Value(self.text(text)),
                    None => binary(*op, l.as_compiled(left.span), r.as_compiled(right.span), span),
                }
            },
            _ => compiled(span, Node::NotFound(crate::text::owned("?"))),
        }
    }

    /// The text of two constant strings, one after the other, if both are strings.
    fn joined(&self, a: FrozenValue, b: FrozenValue) -> (r: Option<String>)
        ensures
            match (self.mem@.target(a.to_value_spec()), self.mem@.target(b.to_value_spec())) {
                (Target::Str(x), Target::Str(y)) => r is Some && r.unwrap()@ == x + y,
                _ => r is None,
            },
    {
        match (self.mem.unpack_str(a.to_value()), self.mem.unpack_str(b.to_value())) {
            (Some(x), Some(y)) => {
                let mut text = x.clone();
                text.append(y.as_str());
                Some(text)
            },
            _ => None,
        }
    }

    /// Compiles the parameters of a function: the defaults where the function is defined.
    fn params(&mut self, params: &Vec<Parameter>) -> (r: (
        Vec<String>,
        Vec<ParameterCompiled>,
        Vec<ExprCompiled>,
    ))
        ensures
            grown(old(self).mem@, final(self).mem@),
            (
                final(self)@,
                LParams {
                    names: r.0.deep_view(),
                    params: Seq::new(r.1@.len(), |i: int| lowered_param(r.1@[i])),
                    defaults: lowered_all(r.2),
                },
            ) == old(self)@.lower_params(
                *params,
                0,
                LParams { names: Seq::empty(), params: Seq::empty(), defaults: Seq::empty() },
            ),
        decreases params,
    {
        let mut names: Vec<String> = Vec::new();
        let mut compiled_params: Vec<ParameterCompiled> = Vec::new();
        let mut defaults: Vec<ExprCompiled> = Vec::new();
        let mut i: usize = 0;
        assert(names.deep_view() =~= Seq::<Seq<char>>::empty());
        assert(Seq::new(compiled_params@.len(), |i: int| lowered_param(compiled_params@[i]))
            =~= Seq::<LParam>::empty());
        assert(lowered_all(defaults) =~= Seq::<LExpr>::empty());
        while i < params.len()
            invariant
                i <= params.len(),
                grown(old(self).mem@, self.mem@),
                old(self)@.lower_params(
                    *params,
                    0,
                    LParams { names: Seq::empty(), params: Seq::empty(), defaults: Seq::empty() },
                ) == self@.lower_params(
                    *params,
                    i as int,
                    LParams {
                        names: names.deep_view(),
                        params: Seq::new(
                            compiled_params@.len(),
                            |i: int| lowered_param(compiled_params@[i]),
                        ),
                        defaults: lowered_all(defaults),
                    },
                ),
            decreases params.len() - i,
        {
            let ghost ns = names.deep_view();
            let ghost ps = Seq::new(
                compiled_params@.len(),
                |i: int| lowered_param(compiled_params@[i]),
            );
            let ghost ds = lowered_all(defaults);
            match &params[i] {
                Parameter::Normal(n) => {
                    names.push(n.clone());
                    compiled_params.push(ParameterCompiled::Normal(n.clone()));
                    assert(names.deep_view() =~= ns.push(n@));
                    assert(Seq::new(
                        compiled_params@.len(),
                        |i: int| lowered_param(compiled_params@[i]),
                    ) =~= ps.push(LParam::Normal(n@)));
                },
                Parameter::WithDefaultValue(n, d) => {
                    proof {
                        let param = params@[i as int];
                        assert(decreases_to!(*params => param));
                    }
                    let c = self.node(d);
                    let ghost lc = lowered(c);
                    defaults.push(c);
                    names.push(n.clone());
                    compiled_params.push(ParameterCompiled::WithDefaultValue(n.clone()));
                    assert(lowered_all(defaults) =~= ds.push(lc));
                    assert(names.deep_view() =~= ns.push(n@));
                    assert(Seq::new(
                        compiled_params@.len(),
                        |i: int| lowered_param(compiled_params@[i]),
                    ) =~= ps.push(LParam::WithDefaultValue(n@)));
                },
                Parameter::NoArgs => {
                    compiled_params.push(ParameterCompiled::NoArgs);
                    assert(Seq::new(
                        compiled_params@.len(),
                        |i: int| lowered_param(compiled_params@[i]),
                    ) =~= ps.push(LParam::NoArgs));
                },
                Parameter::Args(n) => {
                    names.push(n.clone());
                    compiled_params.push(ParameterCompiled::Args(n.clone()));
                    assert(names.deep_view() =~= ns.push(n@));
                    assert(Seq::new(
                        compiled_params@.len(),
                        |i: int| lowered_param(compiled_params@[i]),
                    ) =~= ps.push(LParam::Args(n@)));
                },
                Parameter::KWargs(n) => {
                    names.push(n.clone());
                    compiled_params.push(ParameterCompiled::KWargs(n.clone()));
                    assert(names.deep_view() =~= ns.push(n@));
                    assert(Seq::new(
                        compiled_params@.len(),
                        |i: int| lowered_param(compiled_params@[i]),
                    ) =~= ps.push(LParam::KWargs(n@)));
                },
            }
            i += 1;
        }
        (names, compiled_params, defaults)
    }

    /// Compiles a function: its defaults where it is defined, its body in a scope of its
    /// own. The function goes to the code of the module.
    fn function(&mut self, expr: &AstExpr) -> (r: ExprCompiledValue)
        requires
            expr.node is Lambda,
        ensures
            grown(old(self).mem@, final(self).mem@),
            folded(final(self).mem@, *expr, r),
            compiled_as(final(self)@, r, old(self)@.lower_function(*expr)),
        decreases expr, 0nat,
    {
        let span = expr.span;
        match &expr.node {
            Expr::Lambda(params, inner) => {
                let (names, compiled_params, defaults) = self.params(params);
                let ghost c1 = self@;
                self.scope.enter(names);
                assert(self@ == CState { scope: c1.scope.enter(names.deep_view()), ..c1 }) by {
                    assert(self@.errors =~= c1.errors);
                    assert(self@.code =~= c1.code);
                }
                let body = self.node(inner);
                let ghost c3 = self@;
                let (slots, parent) = match self.scope.exit() {
                    Some(f) => (f.names.len(), f.parent),
                    None => (0, Vec::new()),
                };
                let index = self.code.len();
                let def = DefCompiled {
                    name: crate::text::owned("lambda"),
                    params: compiled_params,
                    body,
                    slots,
                    parent,
                };
                let ghost ld = lowered_def(def);
                self.code.push(def);
                assert(self@.code =~= c3.code.push(ld));
                assert(self@.errors =~= c3.errors);
                compiled(span, Node::Def(index, defaults))
            },
            _ => compiled(span, Node::NotFound(crate::text::owned("?"))),
        }
    }
}

/// The node for a call of the callee `l`, which is no method: of the built-in `type` or
/// `len` with one positional argument, the node that looks at the value directly.
fn plain_call(
    l: ExprCompiledValue,
    args: ArgsCompiled,
    fn_type: Option<FrozenValue>,
    fn_len: Option<FrozenValue>,
    at: Span,
    span: Span,
) -> (v: ExprCompiledValue)
    ensures
        v is Compiled,
        lowered_value(v) == LValue::Compiled(
            LExpr {
                span,
                node: plain_call_node(
                    lowered_value(l),
                    lowered_general(args),
                    fn_type,
                    fn_len,
                    at,
                ),
            },
        ),
{
    let mut args = args;
    let callee = l.as_value();
    let ghost g = lowered_general(args);
    let ghost all = args.pos_named@;
    let one = args.is_one_pos();
    proof {
        if one {
            assert(g.pos_named[0] == lowered(all[0]));
        }
    }
    if callee.is_some() && callee == fn_type && one {
        match args.pos_named.pop() {
            Some(x) => compiled(span, Node::TypeOf(Box::new(x))),
            None => compiled(span, Node::NotFound(crate::text::owned("?"))),
        }
    } else if callee.is_some() && callee == fn_len && one {
        match args.pos_named.pop() {
            // Technically the length command could call other functions, and we'd not get
            // entries on the call stack. But `len()` is super common, and no one expects
            // it to call other functions.
            Some(x) => compiled(span, Node::Len(Box::new(x))),
            None => compiled(span, Node::NotFound(crate::text::owned("?"))),
        }
    } else {
        compiled(span, Node::Call(Box::new(l.as_compiled(at)), specialise(args)))
    }
}

/// The node for a binary operator on two compiled operands.
fn binary(op: BinOp, l: ExprCompiled, r: ExprCompiled, span: Span) -> (v: ExprCompiledValue)
    ensures
        lowered_value(v) == LValue::Compiled(
            LExpr { span, node: binary_node(op, lowered(l), lowered(r)) },
        ),
        v is Compiled,
{
    let l = Box::new(l);
    let r = Box::new(r);
    let node = match arithmetic(op) {
        Some(b) => Node::Binary(l, r, b),
        None => match op {
            BinOp::Or => Node::Or(l, r),
            BinOp::And => Node::And(l, r),
            BinOp::Equal => Node::Equals(l, r, false),
            BinOp::NotEqual => Node::Equals(l, r, true),
            BinOp::Less => Node::Compare(l, r, Comparison::Less),
            BinOp::Greater => Node::Compare(l, r, Comparison::Greater),
            BinOp::LessOrEqual => Node::Compare(l, r, Comparison::LessOrEqual),
            BinOp::GreaterOrEqual => Node::Compare(l, r, Comparison::GreaterOrEqual),
            BinOp::In => Node::In(l, r, false),
            // What is left is `not in`: the arithmetic operators were taken above.
            _ => Node::In(l, r, true),
        },
    };
    compiled(span, node)
}

/// The negation of a constant integer that has one as a constant; of any other operand,
/// the node that negates it.
fn negated(c: ExprCompiledValue, at: Span, span: Span) -> (v: ExprCompiledValue)
    ensures
        lowered_value(v) == negation(lowered_value(c), at, span),
        v is Value <==> (c is Value && c->Value_0 is Int && c->Value_0->Int_0 != i32::MIN),
        v is Value ==> v->Value_0 == FrozenValue::Int((-c->Value_0->Int_0) as i32),
{
    let ghost lc = lowered_value(c);
    match c {
        ExprCompiledValue::Value(FrozenValue::Int(i)) => {
            assert(lc == LValue::Value(FrozenValue::Int(i)));
            if i != i32::MIN {
                assert(negatable(lc));
                ExprCompiledValue::Value(FrozenValue::new_int(-i))
            } else {
                assert(!negatable(lc));
                let n = c.as_compiled(at);
                assert(lowered(n) == lc.as_compiled(at));
                compiled(span, Node::Minus(Box::new(n)))
            }
        },
        _ => {
            assert(!negatable(lc));
            let n = c.as_compiled(at);
            assert(lowered(n) == lc.as_compiled(at));
            compiled(span, Node::Minus(Box::new(n)))
        },
    }
}

/// `+` of a constant integer as the constant; of any other operand, the node for it.
fn affirmed(c: ExprCompiledValue, at: Span, span: Span) -> (v: ExprCompiledValue)
    ensures
        lowered_value(v) == affirmation(lowered_value(c), at, span),
        v is Value <==> (c is Value && c->Value_0 is Int),
        v is Value ==> v == c,
{
    match c {
        ExprCompiledValue::Value(FrozenValue::Int(i)) => ExprCompiledValue::Value(
            FrozenValue::new_int(i),
        ),
        _ => compiled(span, Node::Plus(Box::new(c.as_compiled(at)))),
    }
}

/// The constants of `xs`, if all of them are constants.
fn all_values(xs: &Vec<ExprCompiledValue>) -> (r: Option<Vec<FrozenValue>>)
    ensures
        match r {
            Some(vs) => vs@.len() == xs@.len() && forall|i: int|
                0 <= i < xs@.len() ==> #[trigger] xs@[i] == ExprCompiledValue::Value(vs@[i]),
            None => exists|i: int| 0 <= i < xs@.len() && (#[trigger] xs@[i]) is Compiled,
        },
        match all_constants(lvalues(xs@)) {
            Some(cs) => r is Some && r.unwrap()@ == cs,
            None => r is None,
        },
{
    let mut out: Vec<FrozenValue> = Vec::new();
    let mut i: usize = 0;
    while i < xs.len()
        invariant
            i <= xs.len(),
            out@.len() == i,
            forall|k: int| 0 <= k < i ==> #[trigger] xs@[k] == ExprCompiledValue::Value(out@[k]),
        decreases xs.len() - i,
    {
        match xs[i].as_value() {
            Some(v) => {
                out.push(v);
            },
            None => {
                assert(xs@[i as int] is Compiled);
                assert(!(lvalues(xs@)[i as int] is Value));
                return None;
            },
        }
        i += 1;
    }
    proof {
        assert forall|k: int| 0 <= k < xs@.len() implies (#[trigger] lvalues(xs@)[k]) is Value by {
            assert(xs@[k] == ExprCompiledValue::Value(out@[k]));
        }
        assert(out@ =~= all_constants(lvalues(xs@)).unwrap());
    }
    Some(out)
}

/// The results `xs` as nodes to evaluate.
fn into_compiled(xs: Vec<ExprCompiledValue>, span: Span) -> (r: Vec<ExprCompiled>)
    ensures
        r@.len() == xs@.len(),
        lowered_all(r) == as_nodes(lvalues(xs@), span),
{
    let mut xs = xs;
    let ghost all = xs@;
    let mut out: Vec<ExprCompiled> = Vec::new();
    let n = xs.len();
    let mut i: usize = 0;
    while i < n
        invariant
            i <= n,
            n == all.len(),
            out@.len() == i,
            xs@.len() == n - i,
            forall|k: int| 0 <= k < n - i ==> #[trigger] xs@[k] == all[i + k],
            forall|k: int|
                0 <= k < i ==> lowered(#[trigger] out@[k]) == lowered_value(all[k]).as_compiled(
                    span,
                ),
        decreases n - i,
    {
        let x = xs.remove(0);
        assert(x == all[i as int]);
        out.push(x.as_compiled(span));
        i += 1;
    }
    assert(lowered_all(out) =~= as_nodes(lvalues(all), span));
    out
}

fn zip_pairs(ks: &Vec<FrozenValue>, vs: &Vec<FrozenValue>) -> (r: Vec<(FrozenValue, FrozenValue)>)
    requires
        ks@.len() == vs@.len(),
    ensures
        r@ == Seq::new(ks@.len(), |i: int| (ks@[i], vs@[i])),
{
    let mut out: Vec<(FrozenValue, FrozenValue)> = Vec::new();
    let mut i: usize = 0;
    while i < ks.len()
        invariant
            i <= ks.len(),
            ks@.len() == vs@.len(),
            out@.len() == i,
            forall|k: int| 0 <= k < i ==> out@[k] == (ks@[k], vs@[k]),
        decreases ks.len() - i,
    {
        out.push((ks[i], vs[i]));
        i += 1;
    }
    assert(out@ =~= Seq::new(ks@.len(), |i: int| (ks@[i], vs@[i])));
    out
}

fn zip_keys(ks: &Vec<FrozenValue>, vs: Vec<ExprCompiled>) -> (r: Vec<(FrozenValue, ExprCompiled)>)
    requires
        ks@.len() == vs@.len(),
    ensures
        r@.len() == ks@.len(),
        forall|i: int|
            0 <= i < ks@.len() ==> (#[trigger] r@[i]).0 == ks@[i] && lowered(r@[i].1)
                == lowered_all(vs)[i],
{
    let mut vs = vs;
    let ghost all = vs@;
    let mut out: Vec<(FrozenValue, ExprCompiled)> = Vec::new();
    let n = ks.len();
    let mut i: usize = 0;
    while i < n
        invariant
            i <= n,
            n == ks@.len(),
            n == all.len(),
            vs@.len() == n - i,
            out@.len() == i,
            forall|k: int| 0 <= k < n - i ==> #[trigger] vs@[k] == all[i + k],
            forall|k: int| 0 <= k < i ==> (#[trigger] out@[k]) == (ks@[k], all[k]),
        decreases n - i,
    {
        let v = vs.remove(0);
        out.push((ks[i], v));
        i += 1;
    }
    out
}

fn zip_nodes(ks: Vec<ExprCompiled>, vs: Vec<ExprCompiled>) -> (r: Vec<(ExprCompiled, ExprCompiled)>)
    requires
        ks@.len() == vs@.len(),
    ensures
        r@.len() == ks@.len(),
        forall|i: int|
            0 <= i < ks@.len() ==> lowered((#[trigger] r@[i]).0) == lowered_all(ks)[i] && lowered(
                r@[i].1,
            ) == lowered_all(vs)[i],
{
    let mut ks = ks;
    let mut vs = vs;
    let ghost allk = ks@;
    let ghost allv = vs@;
    let n = ks.len();
    let mut out: Vec<(ExprCompiled, ExprCompiled)> = Vec::new();
    let mut i: usize = 0;
    while i < n
        invariant
            i <= n,
            n == allk.len(),
            n == allv.len(),
            ks@.len() == n - i,
            vs@.len() == n - i,
            out@.len() == i,
            forall|k: int| 0 <= k < n - i ==> #[trigger] ks@[k] == allk[i + k],
            forall|k: int| 0 <= k < n - i ==> #[trigger] vs@[k] == allv[i + k],
            forall|k: int| 0 <= k < i ==> (#[trigger] out@[k]) == (allk[k], allv[k]),
        decreases n - i,
    {
        let k = ks.remove(0);
        let v = vs.remove(0);
        out.push((k, v));
        i += 1;
    }
    out
}

/// The shape of the arguments of a call: calls with up to two positional arguments and
/// nothing else get the shapes made for them.
pub fn specialise(args: ArgsCompiled) -> (r: CallArgs)
    ensures
        lowered_args(r) == specialised(lowered_general(args)),
{
    let ghost g = lowered_general(args);
    if args.names.len() == 0 && args.args.is_none() && args.kwargs.is_none()
        && args.pos_named.len() <= 2 {
        let mut args = args;
        let ghost all = args.pos_named@;
        match args.pos_named.pop() {
            None => CallArgs::Args0,
            Some(a1) => match args.pos_named.pop() {
                None => {
                    assert(all =~= seq![a1]);
                    assert(g.pos_named[0] == lowered(all[0]));
                    CallArgs::Args1(Box::new(a1))
                },
                Some(a2) => {
                    assert(all =~= seq![a2, a1]);
                    assert(g.pos_named[0] == lowered(all[0]));
                    assert(g.pos_named[1] == lowered(all[1]));
                    CallArgs::Args2(Box::new(a2), Box::new(a1))
                },
            },
        }
    } else {
        CallArgs::Args(args)
    }
}

} // verus!
