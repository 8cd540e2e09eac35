//! The built-in functions that order values: `sorted`, `max` and `min`.
use vstd::prelude::*;
use crate::builtins::{arg, get_arg, get_required, required};
use crate::equality::Order;
use crate::errors::{faults, raised, unpinned, Error, ErrorKind, Fault};
use crate::eval::{done, done_with, positional, positional_args, Outcome};
use crate::heap::{Entry, Memory, Store, Target};
use crate::object::{firsts, Obj, Object};
use crate::state::{Evaluator, Program, State};
use crate::value::Value;

verus! {

/// The order `o` the other way round.
pub open spec fn flip(o: Order) -> Order {
    match o {
        Order::Less => Order::Greater,
        Order::Equal => Order::Equal,
        Order::Greater => Order::Less,
    }
}

/// Is the key absent: not given, or `None`?
pub open spec fn no_key(key: Option<Value>) -> bool {
    key is None || key == Some(Value::Nil)
}

/// The pairs of `items` and `keys`, as many as both have.
pub open spec fn pair_up(items: Seq<Value>, keys: Seq<Value>) -> Seq<(Value, Value)> {
    Seq::new(
        if items.len() <= keys.len() {
            items.len()
        } else {
            keys.len()
        },
        |i: int| (items[i], keys[i]),
    )
}

impl Store {
    /// The order of `a` and `b`, the other way round if `reverse`.
    pub open spec fn ordered(self, a: Value, b: Value, reverse: bool) -> Result<Order, ErrorKind> {
        match self.compare(a, b) {
            Ok(o) => Ok(if reverse { flip(o) } else { o }),
            Err(k) => Err(k),
        }
    }

    /// The pairs `sorted` with `x` put in by its key: after every pair whose key is not
    /// greater, looking from position `at` down.
    pub open spec fn insert_pair(
        self,
        sorted: Seq<(Value, Value)>,
        x: (Value, Value),
        at: int,
        reverse: bool,
    ) -> Result<Seq<(Value, Value)>, ErrorKind>
        decreases at,
    {
        if at <= 0 || at > sorted.len() {
            Ok(seq![x] + sorted)
        } else {
            match self.ordered(sorted[at - 1].1, x.1, reverse) {
                Ok(Order::Greater) => self.insert_pair(sorted, x, at - 1, reverse),
                Ok(_) => Ok(sorted.take(at) + seq![x] + sorted.skip(at)),
                Err(k) => Err(k),
            }
        }
    }

    /// The pairs `pairs[i..]` put one by one into `acc`: a stable insertion sort by the
    /// keys. The first comparison that fails ends it.
    pub open spec fn sort_pairs_from(
        self,
        pairs: Seq<(Value, Value)>,
        i: int,
        acc: Seq<(Value, Value)>,
        reverse: bool,
    ) -> Result<Seq<(Value, Value)>, ErrorKind>
        decreases pairs.len() - i,
    {
        if i < 0 || i >= pairs.len() {
            Ok(acc)
        } else {
            match self.insert_pair(acc, pairs[i], acc.len() as int, reverse) {
                Ok(next) => self.sort_pairs_from(pairs, i + 1, next, reverse),
                Err(k) => Err(k),
            }
        }
    }

    /// The greatest of `best` and `items[i..]` if `want` is `Less`, the least if it is
    /// `Greater`: a later item takes over if `best` compares to it as `want`.
    pub open spec fn best_from(self, items: Seq<Value>, i: int, best: Value, want: Order) -> Result<
        Value,
        ErrorKind,
    >
        decreases items.len() - i,
    {
        if i < 0 || i >= items.len() {
            Ok(best)
        } else {
            match self.compare(best, items[i]) {
                Ok(o) => self.best_from(
                    items,
                    i + 1,
                    if o == want {
                        items[i]
                    } else {
                        best
                    },
                    want,
                ),
                Err(k) => Err(k),
            }
        }
    }

    /// As [`Store::best_from`], by the keys: the item at `best` is the best so far.
    pub open spec fn best_by_key_from(self, keys: Seq<Value>, i: int, best: int, want: Order) -> Result<
        int,
        ErrorKind,
    >
        decreases keys.len() - i,
    {
        if i < 0 || i >= keys.len() || best < 0 || best >= keys.len() {
            Ok(best)
        } else {
            match self.compare(keys[best], keys[i]) {
                Ok(o) => self.best_by_key_from(
                    keys,
                    i + 1,
                    if o == want {
                        i
                    } else {
                        best
                    },
                    want,
                ),
                Err(k) => Err(k),
            }
        }
    }

    /// The values among which `max` and `min` choose: those that the one argument yields,
    /// or the arguments themselves if there are more or none.
    pub open spec fn candidates(self, args: Seq<Value>) -> Result<Seq<Value>, ErrorKind> {
        if args.len() == 1 {
            self.iterate(args[0])
        } else {
            Ok(args)
        }
    }
}

impl Store {
    /// The place at which [`Store::insert_pair`] puts `x`, looking from `at` down.
    pub open spec fn place(self, sorted: Seq<(Value, Value)>, x: (Value, Value), at: int, reverse: bool) -> int
        decreases at,
    {
        if at <= 0 || at > sorted.len() {
            0
        } else {
            match self.ordered(sorted[at - 1].1, x.1, reverse) {
                Ok(Order::Greater) => self.place(sorted, x, at - 1, reverse),
                _ => at,
            }
        }
    }

    /// Where each pair of the outcome of [`Store::sort_pairs_from`] came from: the index in
    /// `pairs` of the pair at each place, after `perm` for the pairs of `acc`.
    pub open spec fn sort_order_from(
        self,
        pairs: Seq<(Value, Value)>,
        i: int,
        acc: Seq<(Value, Value)>,
        perm: Seq<int>,
        reverse: bool,
    ) -> Seq<int>
        decreases pairs.len() - i,
    {
        if i < 0 || i >= pairs.len() {
            perm
        } else {
            match self.insert_pair(acc, pairs[i], acc.len() as int, reverse) {
                Ok(next) => self.sort_order_from(
                    pairs,
                    i + 1,
                    next,
                    perm.insert(self.place(acc, pairs[i], acc.len() as int, reverse), i),
                    reverse,
                ),
                Err(_) => perm,
            }
        }
    }

    /// Does the pair `a` stand rightly before the pair `b`: have their keys an order, and
    /// is the key of `a` not greater than the key of `b`?
    pub open spec fn in_order(self, a: (Value, Value), b: (Value, Value), reverse: bool) -> bool {
        self.ordered(a.1, b.1, reverse) is Ok && self.ordered(a.1, b.1, reverse) != Ok::<
            Order,
            ErrorKind,
        >(Order::Greater)
    }

    /// Is `out` the pairs `pairs[..n]` rearranged, the pair at place `k` being the pair
    /// `perm[k]` of `pairs`: is `perm` a rearrangement of the first `n` indices?
    pub open spec fn arranged(
        pairs: Seq<(Value, Value)>,
        n: int,
        out: Seq<(Value, Value)>,
        perm: Seq<int>,
    ) -> bool {
        &&& out.len() == n
        &&& perm.len() == n
        &&& forall|k: int| 0 <= k < n ==> 0 <= #[trigger] perm[k] < n && out[k] == pairs[perm[k]]
        &&& forall|k: int, l: int| 0 <= k < l < n ==> perm[k] != perm[l]
    }

    /// Does each pair of `out` stand rightly before the next?
    pub open spec fn ascending(self, out: Seq<(Value, Value)>, reverse: bool) -> bool {
        forall|k: int| 0 <= k < out.len() - 1 ==> self.in_order(#[trigger] out[k], out[k + 1], reverse)
    }

    /// Does a pair that came later stand before one that came earlier only where its key
    /// is less? Pairs with equal keys, then, stay in the order in which they came.
    pub open spec fn stable(self, out: Seq<(Value, Value)>, perm: Seq<int>, reverse: bool) -> bool {
        forall|k: int, l: int|
            0 <= k < l < out.len() && perm[k] > perm[l] ==> self.ordered(
                out[k].1,
                out[l].1,
                reverse,
            ) == Ok::<Order, ErrorKind>(Order::Less)
    }

    /// Is `out` the pairs `pairs[..n]` in the order of their keys, the pair at place `k`
    /// being the pair `perm[k]` of `pairs`: a rearrangement in which each pair stands
    /// rightly before the next, and pairs with equal keys stay in the order in which they
    /// came?
    pub open spec fn sorted_by(
        self,
        pairs: Seq<(Value, Value)>,
        n: int,
        out: Seq<(Value, Value)>,
        perm: Seq<int>,
        reverse: bool,
    ) -> bool {
        Store::arranged(pairs, n, out, perm) && self.ascending(out, reverse) && self.stable(
            out,
            perm,
            reverse,
        )
    }
}

/// Is `p` a place for `x` among `acc`: has every pair from there on a greater key, and
/// the pair before none?
pub open spec fn fits(s: Store, acc: Seq<(Value, Value)>, x: (Value, Value), p: int, reverse: bool) -> bool {
    &&& 0 <= p <= acc.len()
    &&& forall|k: int|
        p <= k < acc.len() ==> s.ordered((#[trigger] acc[k]).1, x.1, reverse) == Ok::<
            Order,
            ErrorKind,
        >(Order::Greater)
    &&& p > 0 ==> s.ordered(acc[p - 1].1, x.1, reverse) is Ok && s.ordered(
        acc[p - 1].1,
        x.1,
        reverse,
    ) != Ok::<Order, ErrorKind>(Order::Greater)
}

/// The order of two texts the other way round is the other order.
pub proof fn lemma_text_order_flips(a: Seq<char>, b: Seq<char>, i: int)
    ensures
        crate::equality::text_order_from(b, a, i) == flip(crate::equality::text_order_from(a, b, i)),
    decreases a.len() - i,
{
    if 0 <= i < a.len() && i < b.len() && a[i] == b[i] {
        lemma_text_order_flips(a, b, i + 1);
    }
}

/// The order of two values the other way round is the other order.
pub proof fn lemma_compare_flips(s: Store, a: Value, b: Value, depth: nat)
    requires
        s.compare_at(a, b, depth) is Ok,
    ensures
        s.compare_at(b, a, depth) == Ok::<Order, ErrorKind>(flip(s.compare_at(a, b, depth)->Ok_0)),
    decreases depth, 0nat, 0nat,
{
    match (s.target(a), s.target(b)) {
        (Target::Str(x), Target::Str(y)) => {
            lemma_text_order_flips(x, y, 0);
        },
        (Target::Object(Obj::List(p)), Target::Object(Obj::List(q))) => {
            lemma_seq_compare_flips(s, p, q, 0, (depth - 1) as nat);
        },
        (Target::Object(Obj::Tuple(p)), Target::Object(Obj::Tuple(q))) => {
            lemma_seq_compare_flips(s, p, q, 0, (depth - 1) as nat);
        },
        _ => {},
    }
}

/// As [`lemma_compare_flips`], for two sequences from index `i` on.
pub proof fn lemma_seq_compare_flips(s: Store, p: Seq<Value>, q: Seq<Value>, i: int, depth: nat)
    requires
        s.seq_compare_from(p, q, i, depth) is Ok,
    ensures
        s.seq_compare_from(q, p, i, depth) == Ok::<Order, ErrorKind>(
            flip(s.seq_compare_from(p, q, i, depth)->Ok_0),
        ),
    decreases depth, 1nat, p.len() - i,
{
    if 0 <= i < p.len() && i < q.len() {
        lemma_compare_flips(s, p[i], q[i], depth);
        if s.compare_at(p[i], q[i], depth) == Ok::<Order, ErrorKind>(Order::Equal) {
            lemma_seq_compare_flips(s, p, q, i + 1, depth);
        }
    }
}

/// The order of two keys the other way round is the other order.
pub proof fn lemma_ordered_flips(s: Store, a: Value, b: Value, reverse: bool)
    requires
        s.ordered(a, b, reverse) is Ok,
    ensures
        s.ordered(b, a, reverse) == Ok::<Order, ErrorKind>(flip(s.ordered(a, b, reverse)->Ok_0)),
{
    lemma_compare_flips(s, a, b, crate::equality::MAX_NESTING as nat);
}

/// Where a pair is put in: every pair from there on has a greater key, and the pair before
/// has none.
pub proof fn lemma_place(s: Store, sorted: Seq<(Value, Value)>, x: (Value, Value), at: int, reverse: bool)
    requires
        0 <= at <= sorted.len(),
        s.insert_pair(sorted, x, at, reverse) is Ok,
    ensures
        ({
            let p = s.place(sorted, x, at, reverse);
            &&& 0 <= p <= at
            &&& s.insert_pair(sorted, x, at, reverse) == Ok::<Seq<(Value, Value)>, ErrorKind>(
                sorted.insert(p, x),
            )
            &&& forall|k: int|
                p <= k < at ==> s.ordered((#[trigger] sorted[k]).1, x.1, reverse) == Ok::<
                    Order,
                    ErrorKind,
                >(Order::Greater)
            &&& p > 0 ==> s.ordered(sorted[p - 1].1, x.1, reverse) is Ok && s.ordered(
                sorted[p - 1].1,
                x.1,
                reverse,
            ) != Ok::<Order, ErrorKind>(Order::Greater)
        }),
    decreases at,
{
    if at <= 0 {
        assert(seq![x] + sorted =~= sorted.insert(0, x));
    } else {
        match s.ordered(sorted[at - 1].1, x.1, reverse) {
            Ok(Order::Greater) => {
                lemma_place(s, sorted, x, at - 1, reverse);
            },
            Ok(_) => {
                assert(sorted.take(at) + seq![x] + sorted.skip(at) =~= sorted.insert(at, x));
            },
            Err(_) => {},
        }
    }
}

/// One more pair put in keeps the pairs a rearrangement.
pub proof fn lemma_insert_arranged(
    pairs: Seq<(Value, Value)>,
    i: int,
    acc: Seq<(Value, Value)>,
    perm: Seq<int>,
    p: int,
)
    requires
        0 <= i < pairs.len(),
        0 <= p <= acc.len(),
        Store::arranged(pairs, i, acc, perm),
    ensures
        Store::arranged(pairs, i + 1, acc.insert(p, pairs[i]), perm.insert(p, i)),
{
    let x = pairs[i];
    let out = acc.insert(p, x);
    let next = perm.insert(p, i);
    let n = i + 1;
    assert forall|k: int| 0 <= k < n implies 0 <= #[trigger] next[k] < n && out[k] == pairs[next[k]] by {
        if k < p {
            assert(next[k] == perm[k] && out[k] == acc[k]);
        } else if k > p {
            assert(next[k] == perm[k - 1] && out[k] == acc[k - 1]);
        }
    }
    assert forall|k: int, l: int| 0 <= k < l < n implies next[k] != next[l] by {
        let a = if k < p { k } else { k - 1 };
        let b = if l < p { l } else { l - 1 };
        if k != p && l != p {
            assert(next[k] == perm[a] && next[l] == perm[b]);
            assert(perm[a] != perm[b]);
        } else if k == p {
            assert(next[l] == perm[b] && perm[b] < i);
        } else {
            assert(next[k] == perm[a] && perm[a] < i);
        }
    }
}

/// One more pair put in at its place keeps each pair rightly before the next.
pub proof fn lemma_insert_ascending(
    s: Store,
    acc: Seq<(Value, Value)>,
    x: (Value, Value),
    p: int,
    reverse: bool,
)
    requires
        fits(s, acc, x, p, reverse),
        s.ascending(acc, reverse),
    ensures
        s.ascending(acc.insert(p, x), reverse),
{
    let out = acc.insert(p, x);
    assert forall|k: int| 0 <= k < out.len() - 1 implies s.in_order(
        #[trigger] out[k],
        out[k + 1],
        reverse,
    ) by {
        if k + 1 < p {
            assert(out[k] == acc[k] && out[k + 1] == acc[k + 1]);
            assert(s.in_order(acc[k], acc[k + 1], reverse));
        } else if k + 1 == p {
            assert(out[k] == acc[p - 1] && out[k + 1] == x);
        } else if k == p {
            assert(out[k] == x && out[k + 1] == acc[p]);
            assert(s.ordered(acc[p].1, x.1, reverse) == Ok::<Order, ErrorKind>(Order::Greater));
            lemma_ordered_flips(s, acc[p].1, x.1, reverse);
        } else {
            assert(out[k] == acc[k - 1] && out[k + 1] == acc[k]);
            assert(s.in_order(acc[k - 1], acc[k - 1 + 1], reverse));
        }
    }
}

/// One more pair put in at its place keeps the pairs with equal keys in their order.
pub proof fn lemma_insert_stable(
    s: Store,
    acc: Seq<(Value, Value)>,
    perm: Seq<int>,
    x: (Value, Value),
    i: int,
    p: int,
    reverse: bool,
)
    requires
        fits(s, acc, x, p, reverse),
        perm.len() == acc.len(),
        forall|k: int| 0 <= k < perm.len() ==> #[trigger] perm[k] < i,
        s.stable(acc, perm, reverse),
    ensures
        s.stable(acc.insert(p, x), perm.insert(p, i), reverse),
{
    let out = acc.insert(p, x);
    let next = perm.insert(p, i);
    assert forall|k: int, l: int| 0 <= k < l < out.len() && next[k] > next[l] implies s.ordered(
        out[k].1,
        out[l].1,
        reverse,
    ) == Ok::<Order, ErrorKind>(Order::Less) by {
        let a = if k < p { k } else { k - 1 };
        let b = if l < p { l } else { l - 1 };
        if k != p && l != p {
            assert(next[k] == perm[a] && next[l] == perm[b]);
            assert(out[k] == acc[a] && out[l] == acc[b]);
        } else if k == p {
            assert(out[l] == acc[b] && out[k] == x);
            assert(s.ordered(acc[b].1, x.1, reverse) == Ok::<Order, ErrorKind>(Order::Greater));
            lemma_ordered_flips(s, acc[b].1, x.1, reverse);
        } else {
            assert(next[k] == perm[a] && perm[a] < i);
        }
    }
}

/// One more pair put in keeps the pairs sorted.
pub proof fn lemma_insert_sorted(
    s: Store,
    pairs: Seq<(Value, Value)>,
    i: int,
    acc: Seq<(Value, Value)>,
    perm: Seq<int>,
    reverse: bool,
)
    requires
        0 <= i < pairs.len(),
        s.sorted_by(pairs, i, acc, perm, reverse),
        s.insert_pair(acc, pairs[i], acc.len() as int, reverse) is Ok,
    ensures
        s.sorted_by(
            pairs,
            i + 1,
            s.insert_pair(acc, pairs[i], acc.len() as int, reverse)->Ok_0,
            perm.insert(s.place(acc, pairs[i], acc.len() as int, reverse), i),
            reverse,
        ),
{
    let x = pairs[i];
    let p = s.place(acc, x, acc.len() as int, reverse);
    lemma_place(s, acc, x, acc.len() as int, reverse);
    assert(fits(s, acc, x, p, reverse));
    lemma_insert_arranged(pairs, i, acc, perm, p);
    lemma_insert_ascending(s, acc, x, p, reverse);
    lemma_insert_stable(s, acc, perm, x, i, p, reverse);
}

/// As [`lemma_sorted`], from pair `i` on.
pub proof fn lemma_sorted_from(
    s: Store,
    pairs: Seq<(Value, Value)>,
    i: int,
    acc: Seq<(Value, Value)>,
    perm: Seq<int>,
    reverse: bool,
)
    requires
        0 <= i <= pairs.len(),
        s.sorted_by(pairs, i, acc, perm, reverse),
        s.sort_pairs_from(pairs, i, acc, reverse) is Ok,
    ensures
        s.sorted_by(
            pairs,
            pairs.len() as int,
            s.sort_pairs_from(pairs, i, acc, reverse)->Ok_0,
            s.sort_order_from(pairs, i, acc, perm, reverse),
            reverse,
        ),
    decreases pairs.len() - i,
{
    if i < pairs.len() {
        lemma_insert_sorted(s, pairs, i, acc, perm, reverse);
        lemma_sorted_from(
            s,
            pairs,
            i + 1,
            s.insert_pair(acc, pairs[i], acc.len() as int, reverse)->Ok_0,
            perm.insert(s.place(acc, pairs[i], acc.len() as int, reverse), i),
            reverse,
        );
    }
}

/// What `sorted` gives is its input in the order of the keys: a rearrangement of the
/// pairs, each standing rightly before the next, in which pairs with equal keys stay in
/// the order in which they came.
pub proof fn lemma_sorted(s: Store, pairs: Seq<(Value, Value)>, reverse: bool)
    requires
        s.sort_pairs_from(pairs, 0, Seq::empty(), reverse) is Ok,
    ensures
        s.sorted_by(
            pairs,
            pairs.len() as int,
            s.sort_pairs_from(pairs, 0, Seq::empty(), reverse)->Ok_0,
            s.sort_order_from(pairs, 0, Seq::empty(), Seq::empty(), reverse),
            reverse,
        ),
{
    lemma_sorted_from(s, pairs, 0, Seq::empty(), Seq::empty(), reverse);
}

impl State {
    /// The outcome of calling `key` on each of `items`, while `over` is locked for
    /// reading. Takes one level of depth.
    pub open spec fn keys_of(self, prog: Program, key: Value, items: Seq<Value>, over: Value, depth: nat) -> (
        State,
        Result<Seq<Value>, Fault>,
    )
        decreases depth, 3nat,
    {
        if depth == 0 {
            (self, Err(raised(ErrorKind::StackOverflow)))
        } else {
            let st1 = self.with_store(self.store.lock(over));
            let (st2, r) = st1.map_from(prog, key, items, 0, Seq::empty(), (depth - 1) as nat);
            (st2.with_store(st2.store.unlock(over)), r)
        }
    }

    /// `sorted(x, key, reverse)`: a new list of the values that `x` yields, in the order of
    /// their keys, or of themselves without `key`; the other way round if `reverse`. Values
    /// with equal keys stay in the order in which they came.
    pub open spec fn builtin_sorted(self, prog: Program, slots: Seq<Option<Value>>, depth: nat) -> Outcome
        decreases depth, 5nat,
    {
        match required(slots, 0) {
            Err(k) => (self, Err(raised(k))),
            Ok(x) => match self.store.iterate(x) {
                Err(k) => (self, Err(raised(k))),
                Ok(items) => {
                    let (st, keys) = if no_key(arg(slots, 1)) {
                        (self, Ok(items))
                    } else {
                        self.keys_of(prog, arg(slots, 1).unwrap(), items, x, depth)
                    };
                    let reverse = match arg(slots, 2) {
                        Some(r) => st.store.to_bool(r),
                        None => false,
                    };
                    match keys {
                        Err(k) => (st, Err(k)),
                        Ok(ks) => match st.store.sort_pairs_from(
                            pair_up(items, ks),
                            0,
                            Seq::empty(),
                            reverse,
                        ) {
                            Ok(sorted) => st.alloc_entry(
                                Entry::Mutable(0, Obj::List(firsts(sorted))),
                            ),
                            Err(k) => (st, Err(raised(k))),
                        },
                    }
                },
            },
        }
    }

    /// `max(*args, key)` if `want` is `Less`, `min(*args, key)` if it is `Greater`: the
    /// greatest, or least, of the candidates, by their keys if `key` is given. The first of
    /// several such wins. No candidates is an error.
    pub open spec fn builtin_extreme(
        self,
        prog: Program,
        slots: Seq<Option<Value>>,
        want: Order,
        depth: nat,
    ) -> Outcome
        decreases depth, 5nat,
    {
        match self.store.items_of(slots, 0) {
            Err(k) => (self, Err(raised(k))),
            Ok(args) => match self.store.candidates(args) {
                Err(k) => (self, Err(raised(k))),
                Ok(items) => if items.len() == 0 {
                    (self, Err(raised(ErrorKind::UserFail)))
                } else if no_key(arg(slots, 1)) {
                    (self, unpinned(self.store.best_from(items, 1, items[0], want)))
                } else {
                    self.extreme_by_key(
                        prog,
                        items,
                        arg(slots, 1).unwrap(),
                        if args.len() == 1 {
                            args[0]
                        } else {
                            Value::Nil
                        },
                        want,
                        depth,
                    )
                },
            },
        }
    }

    /// The greatest, or least, of `items` by the keys that `key` gives for them, while
    /// `over` is locked for reading.
    pub open spec fn extreme_by_key(
        self,
        prog: Program,
        items: Seq<Value>,
        key: Value,
        over: Value,
        want: Order,
        depth: nat,
    ) -> Outcome
        decreases depth, 4nat,
    {
        match self.keys_of(prog, key, items, over, depth) {
            (st, Ok(keys)) => (
                st,
                match st.store.best_by_key_from(keys, 1, 0, want) {
                    Ok(i) => if 0 <= i < items.len() && keys.len() > 0 {
                        Ok(items[i])
                    } else {
                        Err(raised(ErrorKind::UserFail))
                    },
                    Err(k) => Err(raised(k)),
                },
            ),
            (st, Err(k)) => (st, Err(k)),
        }
    }
}

fn flip_exec(o: Order) -> (r: Order)
    ensures
        r == flip(o),
{
    match o {
        Order::Less => Order::Greater,
        Order::Equal => Order::Equal,
        Order::Greater => Order::Less,
    }
}

fn absent(key: Option<Value>) -> (r: bool)
    ensures
        r == no_key(key),
{
    match key {
        None => true,
        Some(Value::Nil) => true,
        Some(_) => false,
    }
}

fn same_order(a: Order, b: Order) -> (r: bool)
    ensures
        r == (a == b),
{
    match (a, b) {
        (Order::Less, Order::Less) => true,
        (Order::Equal, Order::Equal) => true,
        (Order::Greater, Order::Greater) => true,
        _ => false,
    }
}

impl Memory {
    /// The order of `a` and `b`, the other way round if `reverse`.
    pub fn ordered(&self, a: Value, b: Value, reverse: bool) -> (r: Result<Order, Error>)
        ensures
            crate::errors::agrees(r, self@.ordered(a, b, reverse)),
    {
        match self.compare(a, b) {
            Ok(o) => Ok(if reverse {
                flip_exec(o)
            } else {
                o
            }),
            Err(e) => Err(e),
        }
    }

    /// Sorts the pairs by their keys: a stable insertion sort.
    pub fn sort_pairs(&self, pairs: &Vec<(Value, Value)>, reverse: bool) -> (r: Result<
        Vec<(Value, Value)>,
        Error,
    >)
        ensures
            match self@.sort_pairs_from(pairs@, 0, Seq::empty(), reverse) {
                Ok(sorted) => r is Ok && r->Ok_0@ == sorted,
                Err(k) => r is Err && r->Err_0.kind == k && r->Err_0.span is None,
            },
    {
        let mut out: Vec<(Value, Value)> = Vec::new();
        let mut i: usize = 0;
        while i < pairs.len()
            invariant
                i <= pairs.len(),
                self@.sort_pairs_from(pairs@, 0, Seq::empty(), reverse) == self@.sort_pairs_from(
                    pairs@,
                    i as int,
                    out@,
                    reverse,
                ),
            decreases pairs.len() - i,
        {
            let x = pairs[i];
            let ghost sorted = out@;
            let mut at: usize = out.len();
            let mut placed = false;
            while at > 0 && !placed
                invariant
                    at <= out.len(),
                    sorted == out@,
                    !placed ==> self@.insert_pair(sorted, x, sorted.len() as int, reverse)
                        == self@.insert_pair(sorted, x, at as int, reverse),
                    placed ==> at > 0 && self@.insert_pair(sorted, x, sorted.len() as int, reverse)
                        == Ok::<Seq<(Value, Value)>, ErrorKind>(
                        sorted.take(at as int) + seq![x] + sorted.skip(at as int),
                    ),
                    self@.sort_pairs_from(pairs@, 0, Seq::empty(), reverse)
                        == self@.sort_pairs_from(pairs@, i as int, sorted, reverse),
                    i < pairs.len(),
                    x == pairs@[i as int],
                decreases at + (if placed { 0nat } else { 1nat }),
            {
                match self.ordered(out[at - 1].1, x.1, reverse) {
                    Ok(Order::Greater) => {
                        at -= 1;
                    },
                    Ok(_) => {
                        placed = true;
                    },
                    Err(e) => {
                        return Err(e);
                    },
                }
            }
            out.insert(at, x);
            assert(Ok::<Seq<(Value, Value)>, ErrorKind>(out@) == self@.insert_pair(
                sorted,
                x,
                sorted.len() as int,
                reverse,
            )) by {
                if placed {
                    assert(out@ =~= sorted.take(at as int) + seq![x] + sorted.skip(at as int));
                } else {
                    assert(out@ =~= seq![x] + sorted);
                }
            }
            i += 1;
        }
        Ok(out)
    }

    /// The greatest, or least, of `items`, which are not empty.
    pub fn best(&self, items: &Vec<Value>, want: Order) -> (r: Result<Value, Error>)
        requires
            items.len() > 0,
        ensures
            crate::errors::agrees(r, self@.best_from(items@, 1, items@[0], want)),
    {
        let mut best = items[0];
        let mut i: usize = 1;
        while i < items.len()
            invariant
                1 <= i <= items.len(),
                self@.best_from(items@, 1, items@[0], want) == self@.best_from(
                    items@,
                    i as int,
                    best,
                    want,
                ),
            decreases items.len() - i,
        {
            match self.compare(best, items[i]) {
                Ok(o) => {
                    if same_order(o, want) {
                        best = items[i];
                    }
                },
                Err(e) => {
                    return Err(e);
                },
            }
            i += 1;
        }
        Ok(best)
    }

    /// The index of the greatest, or least, of `keys`, which are not empty.
    pub fn best_by_key(&self, keys: &Vec<Value>, want: Order) -> (r: Result<usize, Error>)
        requires
            keys.len() > 0,
        ensures
            match self@.best_by_key_from(keys@, 1, 0, want) {
                Ok(i) => r is Ok && r->Ok_0 == i && 0 <= i < keys.len(),
                Err(k) => r is Err && r->Err_0.kind == k && r->Err_0.span is None,
            },
    {
        let mut best: usize = 0;
        let mut i: usize = 1;
        while i < keys.len()
            invariant
                1 <= i <= keys.len(),
                best < keys.len(),
                self@.best_by_key_from(keys@, 1, 0, want) == self@.best_by_key_from(
                    keys@,
                    i as int,
                    best as int,
                    want,
                ),
            decreases keys.len() - i,
        {
            match self.compare(keys[best], keys[i]) {
                Ok(o) => {
                    if same_order(o, want) {
                        best = i;
                    }
                },
                Err(e) => {
                    return Err(e);
                },
            }
            i += 1;
        }
        Ok(best)
    }
}

/// The pairs of `items` and `keys`.
fn pair_up_exec(items: &Vec<Value>, keys: &Vec<Value>) -> (r: Vec<(Value, Value)>)
    ensures
        r@ == pair_up(items@, keys@),
{
    let mut out: Vec<(Value, Value)> = Vec::new();
    let mut i: usize = 0;
    while i < items.len() && i < keys.len()
        invariant
            i <= items.len(),
            i <= keys.len(),
            out.len() == i,
            forall|k: int| 0 <= k < i ==> out@[k] == (items@[k], keys@[k]),
        decreases items.len() - i,
    {
        out.push((items[i], keys[i]));
        i += 1;
    }
    assert(out@ =~= pair_up(items@, keys@));
    out
}

impl Evaluator {
    fn keys_of(&mut self, prog: &Program, key: Value, items: &Vec<Value>, over: Value, depth: usize) -> (r:
        Result<Vec<Value>, Error>)
        ensures
            done_with(
                final(self)@,
                r,
                |v: Vec<Value>| v@,
                old(self)@.keys_of(*prog, key, items@, over, depth as nat),
            ),
        decreases depth, 3nat,
    {
        if depth == 0 {
            return Err(Error::new(ErrorKind::StackOverflow, "Too many nested calls"));
        }
        self.mem.lock_read(over);
        let r = self.map_items(prog, key, items, depth - 1);
        self.mem.unlock_read(over);
        r
    }

    /// `sorted(x, key, reverse)`.
    pub fn builtin_sorted(&mut self, prog: &Program, slots: &Vec<Option<Value>>, depth: usize) -> (r:
        Result<Value, Error>)
        ensures
            done(final(self)@, r, old(self)@.builtin_sorted(*prog, slots@, depth as nat)),
        decreases depth, 5nat,
    {
        let x = match get_required(slots, 0, "x") {
            Ok(x) => x,
            Err(e) => {
                return Err(e);
            },
        };
        let items = match self.mem.iterate(x) {
            Ok(i) => i,
            Err(e) => {
                return Err(e);
            },
        };
        let key = get_arg(slots, 1);
        let keys = if absent(key) {
            Ok(crate::basics::copy_values(&items))
        } else {
            match key {
                Some(k) => self.keys_of(prog, k, &items, x, depth),
                None => Ok(Vec::new()),
            }
        };
        let reverse = match get_arg(slots, 2) {
            Some(r) => self.mem.to_bool(r),
            None => false,
        };
        let keys = match keys {
            Ok(k) => k,
            Err(e) => {
                return Err(e);
            },
        };
        let pairs = pair_up_exec(&items, &keys);
        match self.mem.sort_pairs(&pairs, reverse) {
            Ok(sorted) => self.alloc_object(Object::List(crate::basics::copy_firsts(&sorted))),
            Err(e) => Err(e),
        }
    }

    fn extreme_by_key(
        &mut self,
        prog: &Program,
        items: &Vec<Value>,
        key: Value,
        over: Value,
        want: Order,
        depth: usize,
    ) -> (r: Result<Value, Error>)
        ensures
            done(
                final(self)@,
                r,
                old(self)@.extreme_by_key(*prog, items@, key, over, want, depth as nat),
            ),
        decreases depth, 4nat,
    {
        match self.keys_of(prog, key, items, over, depth) {
            Ok(keys) => {
                if keys.len() == 0 {
                    Err(Error::new(ErrorKind::UserFail, "No keys"))
                } else {
                    match self.mem.best_by_key(&keys, want) {
                        Ok(i) => {
                            if i < items.len() {
                                Ok(items[i])
                            } else {
                                Err(Error::new(ErrorKind::UserFail, "No such item"))
                            }
                        },
                        Err(e) => Err(e),
                    }
                }
            },
            Err(e) => Err(e),
        }
    }

    /// `max(*args, key)` if `want` is `Less`, `min(*args, key)` if it is `Greater`.
    pub fn builtin_extreme(
        &mut self,
        prog: &Program,
        slots: &Vec<Option<Value>>,
        want: Order,
        depth: usize,
    ) -> (r: Result<Value, Error>)
        ensures
            done(final(self)@, r, old(self)@.builtin_extreme(*prog, slots@, want, depth as nat)),
        decreases depth, 5nat,
    {
        let args = match self.mem.items_of(slots, 0) {
            Ok(a) => a,
            Err(e) => {
                return Err(e);
            },
        };
        let candidates = if args.len() == 1 {
            self.mem.iterate(args[0])
        } else {
            Ok(crate::basics::copy_values(&args))
        };
        match candidates {
            Err(e) => Err(e),
            Ok(items) => {
                if items.len() == 0 {
                    Err(
                        Error::new(
                            ErrorKind::UserFail,
                            "Argument is an empty iterable, max() and min() expect a non empty iterable",
                        ),
                    )
                } else {
                    match get_arg(slots, 1) {
                        None => self.mem.best(&items, want),
                        Some(Value::Nil) => self.mem.best(&items, want),
                        Some(key) => {
                            let over = if args.len() == 1 {
                                args[0]
                            } else {
                                Value::Nil
                            };
                            self.extreme_by_key(prog, &items, key, over, want, depth)
                        },
                    }
                }
            },
        }
    }
}

} // verus!
