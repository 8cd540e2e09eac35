//! The evaluator: what a compiled expression yields in a state, and what it does to it.
use vstd::prelude::*;
use crate::arith::BinaryOp;
use crate::builtins::{arg, required};
use crate::call::{Parameters, Params};
use crate::compiled::{
    ArgsCompiled, AssignCompiled, CallArgs, ClauseCompiled, Comparison, DefCompiled, ExprCompiled,
    Node, ParameterCompiled,
};
use crate::object::firsts;
use crate::equality::{Order, MAX_NESTING};
use crate::errors::{
    agrees, faults, pinned, raised, unpinned, EnvironmentError, Error, ErrorKind, Fault, Span,
};
use crate::heap::{ARef, Entry, Memory, Store, Target};
use crate::object::{BoundMethodGen, Builtin, Def, DefView, Obj, Object};
use crate::params::{names_view, ParameterKind, ParametersSpecBuilder, Signature};
use crate::slots::ValueRef;
use crate::state::{Evaluator, Program, State};
use crate::value::{FrozenValue, Value};

verus! {

/// The outcome of an evaluation: the state after it, and the value or the kind of error.
pub type Outcome = (State, Result<Value, Fault>);

/// Does the comparison `c` hold of the order `o`?
pub open spec fn holds(c: Comparison, o: Order) -> bool {
    match c {
        Comparison::Less => o == Order::Less,
        Comparison::Greater => o == Order::Greater,
        Comparison::LessOrEqual => o != Order::Greater,
        Comparison::GreaterOrEqual => o != Order::Less,
    }
}

/// The constants `vs` as values.
pub open spec fn thaw(vs: Seq<FrozenValue>) -> Seq<Value> {
    Seq::new(vs.len(), |i: int| vs[i].to_value_spec())
}

/// The pairs of constants `vs` as pairs of values.
pub open spec fn thaw_pairs(vs: Seq<(FrozenValue, FrozenValue)>) -> Seq<(Value, Value)> {
    Seq::new(vs.len(), |i: int| (vs[i].0.to_value_spec(), vs[i].1.to_value_spec()))
}

impl Store {
    /// The entries of a dictionary after `k` is set to `v`, and whether `k` was there
    /// before. The key must be hashable.
    pub open spec fn dict_insert(self, entries: Seq<(Value, Value)>, k: Value, v: Value) -> Result<
        (Seq<(Value, Value)>, bool),
        ErrorKind,
    > {
        match self.get_hash(k) {
            Err(e) => Err(e),
            Ok(_) => match self.dict_find_from(entries, k, 0, MAX_NESTING as nat) {
                Ok(Some(j)) => Ok((entries.update(j, (entries[j].0, v)), true)),
                Ok(None) => Ok((entries.push((k, v)), false)),
                Err(e) => Err(e),
            },
        }
    }
}

/// The clauses of a comprehension.
pub open spec fn clauses_of(n: Node) -> Option<Vec<ClauseCompiled>> {
    match n {
        Node::ListComp(_, cs) => Some(cs),
        Node::DictComp(_, _, cs) => Some(cs),
        _ => None,
    }
}

/// The number of clauses of the comprehension `e` from clause `i` on.
pub open spec fn clauses_left(e: ExprCompiled, i: int) -> int {
    match clauses_of(e.node) {
        Some(cs) => if 0 <= i <= cs.len() {
            cs.len() - i
        } else {
            0
        },
        None => 0,
    }
}

/// Setting a key fails only where hashing or comparing does.
pub proof fn lemma_insert_kinds(s: Store, entries: Seq<(Value, Value)>, k: Value, v: Value)
    ensures
        crate::equality::fails_by_nesting(s.dict_insert(entries, k, v)),
{
    crate::equality::lemma_hash_kinds(s, k, MAX_NESTING as nat);
    crate::equality::lemma_find_kinds(s, entries, k, 0, MAX_NESTING as nat);
}

impl State {
    /// The state with a new entry on the mutable heap, and the value that points to it.
    pub open spec fn alloc_entry(self, e: Entry) -> Outcome {
        let (s, v) = self.store.allocate(e);
        (self.with_store(s), Ok(v))
    }

    /// The outcome of evaluating `e`, with `depth` levels of calls left. A failure is
    /// pinned to the place of `e`, unless an expression within, or a call, has pinned it
    /// to its own: to the place, then, of the innermost expression that failed.
    pub open spec fn eval(self, prog: Program, e: ExprCompiled, depth: nat) -> Outcome
        decreases depth, 0nat, e, 2nat,
    {
        let (st, r) = self.eval_node(prog, e, depth);
        (st, pinned(r, e.span))
    }

    /// The outcome of evaluating `e`, before a failure of `e` itself is pinned to its
    /// place.
    pub open spec fn eval_node(self, prog: Program, e: ExprCompiled, depth: nat) -> Outcome
        decreases depth, 0nat, e, 1nat,
    {
        match e.node {
            Node::Value(_) | Node::Local(_, _) | Node::Module(_, _) | Node::NotFound(_) => self.eval_leaf(
                e,
            ),
            Node::Tuple(_) | Node::ListStatic(_) | Node::List(_) => self.eval_sequence(
                prog,
                e,
                depth,
            ),
            Node::DictStatic(_) | Node::DictStaticKey(_) | Node::Dict(_) => self.eval_dict_node(
                prog,
                e,
                depth,
            ),
            Node::If(_, _, _) | Node::Or(_, _) | Node::And(_, _) => self.eval_choice(
                prog,
                e,
                depth,
            ),
            Node::TypeOf(_) | Node::Len(_) | Node::Not(_) | Node::Minus(_) | Node::Plus(_)
            | Node::BitNot(_) => self.eval_unary(prog, e, depth),
            Node::Index(_, _) | Node::Slice(_, _, _, _) => self.eval_subscript(prog, e, depth),
            Node::Equals(_, _, _) | Node::Compare(_, _, _) | Node::In(_, _, _) | Node::Binary(
                _,
                _,
                _,
            ) => self.eval_binary(prog, e, depth),
            Node::Dot(_, _) | Node::CallMethod(_, _, _) | Node::Call(_, _) => self.eval_call(
                prog,
                e,
                depth,
            ),
            Node::ListComp(_, _) | Node::DictComp(_, _, _) => self.eval_comprehension(
                prog,
                e,
                depth,
            ),
            Node::Def(_, _) => self.eval_def(prog, e, depth),
        }
    }

    /// The state after `v` is assigned to `target`: a slot of the innermost call takes the
    /// value, through its cell if it has one; a tuple of targets takes the values that `v`
    /// yields, one each.
    pub open spec fn assign(self, target: AssignCompiled, v: Value) -> (State, Result<(), Fault>)
        decreases target,
    {
        match target {
            AssignCompiled::Slot(i, _) => if self.frames.len() > 0 && i < self.frames.last().len() {
                let (cell, store) = self.frames.last()[i as int].set_spec(self.store, v);
                (
                    State {
                        store,
                        frames: self.frames.update(
                            self.frames.len() - 1,
                            self.frames.last().update(i as int, cell),
                        ),
                        ..self
                    },
                    Ok(()),
                )
            } else {
                (self, Err(raised(ErrorKind::CannotSetVariable)))
            },
            AssignCompiled::Tuple(ts) => match self.store.iterate(v) {
                Ok(items) => if items.len() == ts.len() {
                    self.assign_all(ts, items, 0)
                } else {
                    (self, Err(raised(ErrorKind::WrongType)))
                },
                Err(k) => (self, Err(raised(k))),
            },
        }
    }

    /// The state after `items[i..]` are assigned to `ts[i..]`, one each.
    pub open spec fn assign_all(self, ts: Vec<AssignCompiled>, items: Seq<Value>, i: int) -> (
        State,
        Result<(), Fault>,
    )
        decreases ts, ts.len() - i,
    {
        if i < 0 || i >= ts.len() || i >= items.len() {
            (self, Ok(()))
        } else {
            match self.assign(ts@[i], items[i]) {
                (st, Ok(_)) => st.assign_all(ts, items, i + 1),
                (st, Err(k)) => (st, Err(k)),
            }
        }
    }

    /// The outcome of the clauses `i..` of the comprehension `e` and of its element, after
    /// the entries `acc`. An `if` goes on only where its condition is true. A `for` goes on
    /// once for each value that its container yields, with its variables set to the value;
    /// the container is locked for reading meanwhile. After the last clause the element is
    /// evaluated and added: to a list at its end, to a dictionary under its key.
    pub open spec fn eval_clauses(
        self,
        prog: Program,
        e: ExprCompiled,
        i: int,
        acc: Seq<(Value, Value)>,
        depth: nat,
    ) -> (State, Result<Seq<(Value, Value)>, Fault>)
        decreases depth, 0nat, e, 0nat, clauses_left(e, i), 1nat, 0nat,
    {
        match clauses_of(e.node) {
            None => (self, Err(raised(ErrorKind::NotSupported))),
            Some(cs) => if i < 0 {
                (self, Err(raised(ErrorKind::NotSupported)))
            } else if i >= cs.len() {
                match e.node {
                    Node::ListComp(x, _) => match self.eval(prog, *x, depth) {
                        (st, Ok(v)) => (st, Ok(acc.push((v, Value::Nil)))),
                        (st, Err(k)) => (st, Err(k)),
                    },
                    Node::DictComp(k, v, _) => match self.eval(prog, *k, depth) {
                        (st, Ok(key)) => match st.eval(prog, *v, depth) {
                            (st2, Ok(value)) => match st2.store.dict_insert(acc, key, value) {
                                Ok((entries, _)) => (st2, Ok(entries)),
                                Err(k) => (st2, Err(raised(k))),
                            },
                            (st2, Err(k)) => (st2, Err(k)),
                        },
                        (st, Err(k)) => (st, Err(k)),
                    },
                    _ => (self, Err(raised(ErrorKind::NotSupported))),
                }
            } else {
                match cs@[i] {
                    ClauseCompiled::If(c) => match self.eval(prog, c, depth) {
                        (st, Ok(v)) => if st.store.to_bool(v) {
                            st.eval_clauses(prog, e, i + 1, acc, depth)
                        } else {
                            (st, Ok(acc))
                        },
                        (st, Err(k)) => (st, Err(k)),
                    },
                    ClauseCompiled::For(_, over) => match self.eval(prog, over, depth) {
                        (st, Ok(c)) => match st.store.iterate(c) {
                            Ok(items) => {
                                let st1 = st.with_store(st.store.lock(c));
                                let (st2, r) = st1.eval_items(prog, e, i, items, 0, acc, depth);
                                (st2.with_store(st2.store.unlock(c)), r)
                            },
                            Err(k) => (st, Err(raised(k))),
                        },
                        (st, Err(k)) => (st, Err(k)),
                    },
                }
            },
        }
    }

    /// The outcome of the `for` clause `i` of the comprehension `e` on `items[j..]`: for
    /// each, the variables of the clause are set, and the clauses after it go on. A
    /// cancelled evaluation fails before the next item.
    pub open spec fn eval_items(
        self,
        prog: Program,
        e: ExprCompiled,
        i: int,
        items: Seq<Value>,
        j: int,
        acc: Seq<(Value, Value)>,
        depth: nat,
    ) -> (State, Result<Seq<(Value, Value)>, Fault>)
        decreases depth, 0nat, e, 0nat, clauses_left(e, i), 0nat, items.len() - j,
    {
        match clauses_of(e.node) {
            Some(cs) => if j < 0 || j >= items.len() {
                (self, Ok(acc))
            } else if self.cancelled {
                (self, Err(raised(ErrorKind::Cancelled)))
            } else if 0 <= i < cs.len() && cs@[i] is For {
                match self.assign(cs@[i]->For_0, items[j]) {
                    (st, Ok(_)) => match st.eval_clauses(prog, e, i + 1, acc, depth) {
                        (st2, Ok(entries)) => st2.eval_items(
                            prog,
                            e,
                            i,
                            items,
                            j + 1,
                            entries,
                            depth,
                        ),
                        (st2, Err(k)) => (st2, Err(k)),
                    },
                    (st, Err(k)) => (st, Err(k)),
                }
            } else {
                (self, Err(raised(ErrorKind::NotSupported)))
            },
            None => (self, Err(raised(ErrorKind::NotSupported))),
        }
    }

    /// The outcome of a comprehension: its clauses and element, then a new list of the
    /// elements, or a new dictionary of the entries.
    pub open spec fn eval_comprehension(self, prog: Program, e: ExprCompiled, depth: nat) -> Outcome
        decreases depth, 0nat, e, 0nat, clauses_left(e, 0) + 1, 0nat, 0nat,
    {
        match self.eval_clauses(prog, e, 0, Seq::empty(), depth) {
            (st, Ok(entries)) => match e.node {
                Node::ListComp(_, _) => st.alloc_entry(Entry::Mutable(0, Obj::List(firsts(entries)))),
                _ => st.alloc_entry(Entry::Mutable(0, Obj::Dict(entries))),
            },
            (st, Err(k)) => (st, Err(k)),
        }
    }

    /// The outcome of a constant, a variable, or a name that was not found.
    pub open spec fn eval_leaf(self, e: ExprCompiled) -> Outcome {
        match e.node {
            Node::Value(v) => (self, Ok(v.to_value_spec())),
            Node::Local(slot, _) => (self, unpinned(self.get_slot_local(slot as int))),
            Node::Module(slot, _) => (self, unpinned(self.get_slot_module(slot as int))),
            _ => (self, Err(raised(ErrorKind::VariableNotFound))),
        }
    }

    /// The outcome of a tuple or list: the elements in order, then a new object.
    pub open spec fn eval_sequence(self, prog: Program, e: ExprCompiled, depth: nat) -> Outcome
        decreases depth, 0nat, e, 0nat,
    {
        match e.node {
            Node::Tuple(xs) => match self.eval_list(prog, xs, 0, Seq::empty(), depth) {
                (st, Ok(vs)) => st.alloc_entry(Entry::Immutable(Obj::Tuple(vs))),
                (st, Err(k)) => (st, Err(k)),
            },
            Node::ListStatic(vs) => self.alloc_entry(Entry::Mutable(0, Obj::List(thaw(vs@)))),
            Node::List(xs) => match self.eval_list(prog, xs, 0, Seq::empty(), depth) {
                (st, Ok(vs)) => st.alloc_entry(Entry::Mutable(0, Obj::List(vs))),
                (st, Err(k)) => (st, Err(k)),
            },
            _ => (self, Err(raised(ErrorKind::NotSupported))),
        }
    }

    /// The outcome of a dictionary: the entries in order, then a new dictionary.
    pub open spec fn eval_dict_node(self, prog: Program, e: ExprCompiled, depth: nat) -> Outcome
        decreases depth, 0nat, e, 0nat,
    {
        match e.node {
            Node::DictStatic(kvs) => self.alloc_entry(
                Entry::Mutable(0, Obj::Dict(thaw_pairs(kvs@))),
            ),
            Node::DictStaticKey(kvs) => match self.eval_dict_static(
                prog,
                kvs,
                0,
                Seq::empty(),
                depth,
            ) {
                (st, Ok(entries)) => st.alloc_entry(Entry::Mutable(0, Obj::Dict(entries))),
                (st, Err(k)) => (st, Err(k)),
            },
            Node::Dict(kvs) => match self.eval_dict(prog, kvs, 0, Seq::empty(), depth) {
                (st, Ok(entries)) => st.alloc_entry(Entry::Mutable(0, Obj::Dict(entries))),
                (st, Err(k)) => (st, Err(k)),
            },
            _ => (self, Err(raised(ErrorKind::NotSupported))),
        }
    }

    /// The outcome of a conditional, of `or` and of `and`: only the operand that decides is
    /// evaluated after the first.
    pub open spec fn eval_choice(self, prog: Program, e: ExprCompiled, depth: nat) -> Outcome
        decreases depth, 0nat, e, 0nat,
    {
        match e.node {
            Node::If(c, t, f) => match self.eval(prog, *c, depth) {
                (st, Ok(v)) => if st.store.to_bool(v) {
                    st.eval(prog, *t, depth)
                } else {
                    st.eval(prog, *f, depth)
                },
                (st, Err(k)) => (st, Err(k)),
            },
            Node::Or(l, r) => match self.eval(prog, *l, depth) {
                (st, Ok(lv)) => if st.store.to_bool(lv) {
                    (st, Ok(lv))
                } else {
                    st.eval(prog, *r, depth)
                },
                (st, Err(k)) => (st, Err(k)),
            },
            Node::And(l, r) => match self.eval(prog, *l, depth) {
                (st, Ok(lv)) => if !st.store.to_bool(lv) {
                    (st, Ok(lv))
                } else {
                    st.eval(prog, *r, depth)
                },
                (st, Err(k)) => (st, Err(k)),
            },
            _ => (self, Err(raised(ErrorKind::NotSupported))),
        }
    }

    /// What a unary operation makes of the value of its operand.
    pub open spec fn apply_unary(self, node: Node, v: Value) -> Outcome {
        match node {
            Node::TypeOf(_) => self.alloc_entry(Entry::Str(self.store.get_type(v))),
            Node::Len(_) => (
                self,
                match self.store.length(v) {
                    Ok(n) => Ok(Value::Int(n)),
                    Err(k) => Err(raised(k)),
                },
            ),
            Node::Not(_) => (self, Ok(Value::Bool(!self.store.to_bool(v)))),
            Node::Minus(_) => (self, unpinned(self.store.minus(v))),
            Node::Plus(_) => (self, unpinned(self.store.plus(v))),
            _ => (
                self,
                match self.store.to_int(v) {
                    Ok(i) => Ok(Value::Int(!i)),
                    Err(k) => Err(raised(k)),
                },
            ),
        }
    }

    /// The outcome of a unary operation: the operand, then the operation.
    pub open spec fn eval_unary(self, prog: Program, e: ExprCompiled, depth: nat) -> Outcome
        decreases depth, 0nat, e, 0nat,
    {
        match e.node {
            Node::TypeOf(x) | Node::Len(x) | Node::Not(x) | Node::Minus(x) | Node::Plus(x)
            | Node::BitNot(x) => match self.eval(prog, *x, depth) {
                (st, Ok(v)) => st.apply_unary(e.node, v),
                (st, Err(k)) => (st, Err(k)),
            },
            _ => (self, Err(raised(ErrorKind::NotSupported))),
        }
    }

    /// The outcome of indexing and of slicing: the container, then the indices in order.
    pub open spec fn eval_subscript(self, prog: Program, e: ExprCompiled, depth: nat) -> Outcome
        decreases depth, 0nat, e, 0nat,
    {
        match e.node {
            Node::Index(a, i) => match self.eval(prog, *a, depth) {
                (st, Ok(av)) => match st.eval(prog, *i, depth) {
                    (st2, Ok(iv)) => {
                        let (s, r) = st2.store.at(av, iv);
                        (st2.with_store(s), unpinned(r))
                    },
                    (st2, Err(k)) => (st2, Err(k)),
                },
                (st, Err(k)) => (st, Err(k)),
            },
            Node::Slice(c, a, b, s) => match self.eval(prog, *c, depth) {
                (st, Ok(cv)) => match st.eval_opt(prog, a, depth) {
                    (st1, Ok(av)) => match st1.eval_opt(prog, b, depth) {
                        (st2, Ok(bv)) => match st2.eval_opt(prog, s, depth) {
                            (st3, Ok(sv)) => {
                                let (store, r) = st3.store.slice(cv, av, bv, sv);
                                (st3.with_store(store), unpinned(r))
                            },
                            (st3, Err(k)) => (st3, Err(k)),
                        },
                        (st2, Err(k)) => (st2, Err(k)),
                    },
                    (st1, Err(k)) => (st1, Err(k)),
                },
                (st, Err(k)) => (st, Err(k)),
            },
            _ => (self, Err(raised(ErrorKind::NotSupported))),
        }
    }

    /// What a binary operation makes of the values of its operands.
    pub open spec fn apply_binary(self, node: Node, lv: Value, rv: Value) -> Outcome {
        match node {
            Node::Equals(_, _, negate) => (
                self,
                match self.store.equals(lv, rv) {
                    Ok(b) => Ok(Value::Bool(b != negate)),
                    Err(k) => Err(raised(k)),
                },
            ),
            Node::Compare(_, _, c) => (
                self,
                match self.store.compare(lv, rv) {
                    Ok(o) => Ok(Value::Bool(holds(c, o))),
                    Err(k) => Err(raised(k)),
                },
            ),
            Node::In(_, _, negate) => (
                self,
                match self.store.is_in(lv, rv) {
                    Ok(b) => Ok(Value::Bool(b != negate)),
                    Err(k) => Err(raised(k)),
                },
            ),
            Node::Binary(_, _, op) => {
                let (s, res) = self.store.binary(op, lv, rv);
                (self.with_store(s), unpinned(res))
            },
            _ => (self, Err(raised(ErrorKind::NotSupported))),
        }
    }

    /// The outcome of a binary operation: the left operand, the right operand, then the
    /// operation. For `in`, the container on the right comes first.
    pub open spec fn eval_binary(self, prog: Program, e: ExprCompiled, depth: nat) -> Outcome
        decreases depth, 0nat, e, 0nat,
    {
        match e.node {
            Node::Equals(l, r, _) | Node::Compare(l, r, _) | Node::Binary(l, r, _) => match self.eval(
                prog,
                *l,
                depth,
            ) {
                (st, Ok(lv)) => match st.eval(prog, *r, depth) {
                    (st2, Ok(rv)) => st2.apply_binary(e.node, lv, rv),
                    (st2, Err(k)) => (st2, Err(k)),
                },
                (st, Err(k)) => (st, Err(k)),
            },
            Node::In(item, container, _) => match self.eval(prog, *container, depth) {
                (st, Ok(cv)) => match st.eval(prog, *item, depth) {
                    (st2, Ok(iv)) => st2.apply_binary(e.node, cv, iv),
                    (st2, Err(k)) => (st2, Err(k)),
                },
                (st, Err(k)) => (st, Err(k)),
            },
            _ => (self, Err(raised(ErrorKind::NotSupported))),
        }
    }

    /// The outcome of evaluating an expression that may be absent.
    pub open spec fn eval_opt(self, prog: Program, e: Option<Box<ExprCompiled>>, depth: nat) -> (
        State,
        Result<Option<Value>, Fault>,
    )
        decreases depth, 0nat, e,
    {
        match e {
            None => (self, Ok(None)),
            Some(x) => match self.eval(prog, *x, depth) {
                (st, Ok(v)) => (st, Ok(Some(v))),
                (st, Err(k)) => (st, Err(k)),
            },
        }
    }

    /// The outcome of evaluating the expressions `xs[i..]` in order, after those that gave
    /// `acc`.
    pub open spec fn eval_list(
        self,
        prog: Program,
        xs: Vec<ExprCompiled>,
        i: int,
        acc: Seq<Value>,
        depth: nat,
    ) -> (State, Result<Seq<Value>, Fault>)
        decreases depth, 0nat, xs, xs.len() - i,
    {
        if i < 0 || i >= xs.len() {
            (self, Ok(acc))
        } else {
            match self.eval(prog, xs[i], depth) {
                (st, Ok(v)) => st.eval_list(prog, xs, i + 1, acc.push(v), depth),
                (st, Err(k)) => (st, Err(k)),
            }
        }
    }

    /// The outcome of evaluating the values of the entries `kvs[i..]` of a dictionary with
    /// constant keys: a key that comes twice is an error.
    pub open spec fn eval_dict_static(
        self,
        prog: Program,
        kvs: Vec<(FrozenValue, ExprCompiled)>,
        i: int,
        acc: Seq<(Value, Value)>,
        depth: nat,
    ) -> (State, Result<Seq<(Value, Value)>, Fault>)
        decreases depth, 0nat, kvs, kvs.len() - i,
    {
        if i < 0 || i >= kvs.len() {
            (self, Ok(acc))
        } else {
            match self.eval(prog, kvs[i].1, depth) {
                (st, Ok(v)) => match st.store.dict_insert(acc, kvs[i].0.to_value_spec(), v) {
                    Ok((entries, false)) => st.eval_dict_static(prog, kvs, i + 1, entries, depth),
                    Ok((_, true)) => (st, Err(raised(ErrorKind::DuplicateDictionaryKey))),
                    Err(k) => (st, Err(raised(k))),
                },
                (st, Err(k)) => (st, Err(k)),
            }
        }
    }

    /// The outcome of evaluating the entries `kvs[i..]` of a dictionary: each key, which
    /// must be hashable, then its value. A key that comes twice is an error.
    pub open spec fn eval_dict(
        self,
        prog: Program,
        kvs: Vec<(ExprCompiled, ExprCompiled)>,
        i: int,
        acc: Seq<(Value, Value)>,
        depth: nat,
    ) -> (State, Result<Seq<(Value, Value)>, Fault>)
        decreases depth, 0nat, kvs, kvs.len() - i,
    {
        if i < 0 || i >= kvs.len() {
            (self, Ok(acc))
        } else {
            match self.eval(prog, kvs[i].0, depth) {
                (st, Ok(k)) => match st.store.get_hash(k) {
                    Err(e) => (st, Err(raised(e))),
                    Ok(_) => match st.eval(prog, kvs[i].1, depth) {
                        (st2, Ok(v)) => match st2.store.dict_insert(acc, k, v) {
                            Ok((entries, false)) => st2.eval_dict(prog, kvs, i + 1, entries, depth),
                            Ok((_, true)) => (st2, Err(raised(ErrorKind::DuplicateDictionaryKey))),
                            Err(e) => (st2, Err(raised(e))),
                        },
                        (st2, Err(e)) => (st2, Err(e)),
                    },
                },
                (st, Err(e)) => (st, Err(e)),
            }
        }
    }
}

/// The names of named arguments, with their string values thawed.
pub open spec fn promote_names(names: Seq<(String, FrozenValue)>) -> Seq<(Seq<char>, Value)> {
    Seq::new(names.len(), |i: int| (names[i].0@, names[i].1.to_value_spec()))
}

/// The arguments of a call from the values `xs` of the positional and named argument
/// expressions: the last `names.len()` of them are the named ones.
pub open spec fn split_params(
    this: Option<Value>,
    xs: Seq<Value>,
    names: Seq<(Seq<char>, Value)>,
    args: Option<Value>,
    kwargs: Option<Value>,
) -> Params {
    let n = if names.len() <= xs.len() {
        xs.len() - names.len()
    } else {
        0
    };
    Params { this, pos: xs.take(n), named: xs.skip(n), names, args, kwargs }
}

/// Positional arguments and nothing else.
pub open spec fn positional(this: Option<Value>, pos: Seq<Value>) -> Params {
    Params { this, pos, named: Seq::empty(), names: Seq::empty(), args: None, kwargs: None }
}

/// The arguments `p` after those that a partial application holds.
pub open spec fn after_partial(pt: crate::object::PartialView, p: Params) -> Params {
    Params {
        this: p.this,
        pos: pt.pos + p.pos,
        named: pt.named + p.named,
        names: pt.names + p.names,
        args: p.args,
        kwargs: p.kwargs,
    }
}

/// The slots of a new call: the bound parameters first, the rest unassigned.
pub open spec fn frame_base(n: int, slots: Seq<Option<Value>>) -> Seq<ValueRef> {
    Seq::new(
        n as nat,
        |i: int|
            if i < slots.len() {
                ValueRef(slots[i])
            } else {
                ValueRef(None)
            },
    )
}

/// The slots of a call after the captured variables `captured[j..]` are put in theirs.
pub open spec fn frame_captured(frame: Seq<ValueRef>, captured: Seq<(usize, Value)>, j: int) -> Seq<
    ValueRef,
>
    decreases captured.len() - j,
{
    if j < 0 || j >= captured.len() {
        frame
    } else if captured[j].0 < frame.len() {
        frame_captured(
            frame.update(captured[j].0 as int, ValueRef(Some(captured[j].1))),
            captured,
            j + 1,
        )
    } else {
        frame_captured(frame, captured, j + 1)
    }
}

/// The signature after the parameters `params[j..]` are added to `sig`; the defaults are
/// `defaults[d..]`, in order. A second `*args` or `**kwargs`, or a default that is not
/// there, is an error.
pub open spec fn def_signature(
    params: Seq<ParameterCompiled>,
    defaults: Seq<Value>,
    j: int,
    d: int,
    sig: Signature,
    named_only: bool,
) -> Result<Signature, ErrorKind>
    decreases params.len() - j,
{
    if j < 0 || j >= params.len() {
        Ok(sig)
    } else {
        let by_position = !named_only && sig.args is None && sig.kwargs is None && sig.positional
            == sig.kinds.len();
        match params[j] {
            ParameterCompiled::Normal(name) => def_signature(
                params,
                defaults,
                j + 1,
                d,
                sig.with_param(name@, ParameterKind::Required, by_position),
                named_only,
            ),
            ParameterCompiled::WithDefaultValue(name) => if 0 <= d < defaults.len() {
                def_signature(
                    params,
                    defaults,
                    j + 1,
                    d + 1,
                    sig.with_param(name@, ParameterKind::Defaulted(defaults[d]), by_position),
                    named_only,
                )
            } else {
                Err(ErrorKind::NotSupported)
            },
            ParameterCompiled::NoArgs => def_signature(params, defaults, j + 1, d, sig, true),
            ParameterCompiled::Args(_) => if sig.args is Some {
                Err(ErrorKind::NotSupported)
            } else {
                def_signature(params, defaults, j + 1, d, sig.with_args(), named_only)
            },
            ParameterCompiled::KWargs(_) => if sig.kwargs is Some {
                Err(ErrorKind::NotSupported)
            } else {
                def_signature(params, defaults, j + 1, d, sig.with_kwargs(), named_only)
            },
        }
    }
}

impl State {
    /// This state after a call with `store` as its store.
    pub open spec fn lift(self, s: (Store, Result<Value, ErrorKind>)) -> Outcome {
        (self.with_store(s.0), unpinned(s.1))
    }

    /// The outcome of evaluating the arguments of a call, in order: the positional and
    /// named ones, then `*args`, then `**kwargs`.
    pub open spec fn eval_args(self, prog: Program, args: CallArgs, this: Option<Value>, depth: nat) -> (
        State,
        Result<Params, Fault>,
    )
        decreases depth, 0nat, args, 0nat,
    {
        match args {
            CallArgs::Args0 => (self, Ok(positional(this, Seq::empty()))),
            CallArgs::Args1(a) => match self.eval(prog, *a, depth) {
                (st, Ok(v)) => (st, Ok(positional(this, seq![v]))),
                (st, Err(k)) => (st, Err(k)),
            },
            CallArgs::Args2(a, b) => match self.eval(prog, *a, depth) {
                (st, Ok(v)) => match st.eval(prog, *b, depth) {
                    (st2, Ok(w)) => (st2, Ok(positional(this, seq![v, w]))),
                    (st2, Err(k)) => (st2, Err(k)),
                },
                (st, Err(k)) => (st, Err(k)),
            },
            CallArgs::Args(g) => match self.eval_list(prog, g.pos_named, 0, Seq::empty(), depth) {
                (st, Ok(xs)) => match st.eval_opt(prog, g.args, depth) {
                    (st2, Ok(av)) => match st2.eval_opt(prog, g.kwargs, depth) {
                        (st3, Ok(kv)) => (
                            st3,
                            Ok(split_params(this, xs, promote_names(g.names@), av, kv)),
                        ),
                        (st3, Err(k)) => (st3, Err(k)),
                    },
                    (st2, Err(k)) => (st2, Err(k)),
                },
                (st, Err(k)) => (st, Err(k)),
            },
        }
    }

    /// The attribute `attr` of `v`: a method of its type, else an attribute that it has of
    /// itself. With the flag that tells the two apart: true for a method.
    pub open spec fn get_attr_error(self, prog: Program, v: Value, attr: Seq<char>) -> (
        State,
        Result<(bool, Value), Fault>,
    ) {
        match prog.globals.member_spec(self.store.get_type(v), attr) {
            Some(m) => (self, Ok((true, m.to_value_spec()))),
            None => {
                let (s, r) = self.store.get_attr(v, attr);
                match r {
                    Some(x) => (self.with_store(s), Ok((false, x))),
                    None => (self.with_store(s), Err(raised(ErrorKind::NotSupported))),
                }
            },
        }
    }

    /// The outcome of `left.attr`: an attribute of the value itself as it is; a method that
    /// is an accessor is called; any other method is bound to the value.
    pub open spec fn dot(self, prog: Program, left: Value, attr: Seq<char>) -> Outcome {
        match self.get_attr_error(prog, left, attr) {
            (st, Ok((false, v))) => (st, Ok(v)),
            (st, Ok((true, m))) => match st.store.target(m) {
                Target::Object(Obj::Attribute(a)) => (st, unpinned(st.store.access(a, left))),
                _ => st.alloc_entry(
                    Entry::Immutable(Obj::Bound(BoundMethodGen { method: m, this: left })),
                ),
            },
            (st, Err(k)) => (st, Err(k)),
        }
    }

    /// The outcome of an attribute access, of a method call and of a call. A call takes one
    /// level of depth.
    pub open spec fn eval_call(self, prog: Program, e: ExprCompiled, depth: nat) -> Outcome
        decreases depth, 0nat, e, 0nat,
    {
        match e.node {
            Node::Dot(l, attr) => match self.eval(prog, *l, depth) {
                (st, Ok(left)) => st.dot(prog, left, attr@),
                (st, Err(k)) => (st, Err(k)),
            },
            Node::CallMethod(x, name, args) => match self.eval(prog, *x, depth) {
                (st, Ok(this)) => match st.get_attr_error(prog, this, name@) {
                    (st1, Ok((_, fun))) => match st1.eval_args(prog, args, Some(this), depth) {
                        (st2, Ok(p)) => if depth == 0 {
                            (st2, Err(raised(ErrorKind::StackOverflow)))
                        } else {
                            st2.invoke(prog, fun, p, (depth - 1) as nat)
                        },
                        (st2, Err(k)) => (st2, Err(k)),
                    },
                    (st1, Err(k)) => (st1, Err(k)),
                },
                (st, Err(k)) => (st, Err(k)),
            },
            Node::Call(l, args) => match self.eval(prog, *l, depth) {
                (st, Ok(fun)) => match st.eval_args(prog, args, None, depth) {
                    (st2, Ok(p)) => if depth == 0 {
                        (st2, Err(raised(ErrorKind::StackOverflow)))
                    } else {
                        st2.invoke(prog, fun, p, (depth - 1) as nat)
                    },
                    (st2, Err(k)) => (st2, Err(k)),
                },
                (st, Err(k)) => (st, Err(k)),
            },
            _ => (self, Err(raised(ErrorKind::NotSupported))),
        }
    }

    /// The state and the captured variables after the slots `parent[j..]` of the innermost
    /// call are turned into cells and shared.
    pub open spec fn capture(self, parent: Seq<(usize, usize)>, j: int, acc: Seq<(usize, Value)>) -> (
        State,
        Result<Seq<(usize, Value)>, Fault>,
    )
        decreases parent.len() - j,
    {
        if j < 0 || j >= parent.len() {
            (self, Ok(acc))
        } else if self.frames.len() == 0 || parent[j].0 >= self.frames.last().len() {
            (self, Err(raised(ErrorKind::NotSupported)))
        } else {
            let at = parent[j].0 as int;
            let slot = self.frames.last()[at];
            if !slot.wf(self.store) {
                (self, Err(raised(ErrorKind::NotSupported)))
            } else if slot.is_ref_spec() {
                self.capture(parent, j + 1, acc.push((parent[j].1, slot.0.unwrap())))
            } else {
                let (s, cell) = self.store.allocate(Entry::Ref(slot.0));
                let shared = Value::Cell(cell->Heap_0);
                let st = State {
                    store: s,
                    frames: self.frames.update(
                        self.frames.len() - 1,
                        self.frames.last().update(at, ValueRef(Some(shared))),
                    ),
                    ..self
                };
                st.capture(parent, j + 1, acc.push((parent[j].1, shared)))
            }
        }
    }

    /// The outcome of a function definition: the defaults in order, then the captured
    /// variables, then a new function.
    pub open spec fn eval_def(self, prog: Program, e: ExprCompiled, depth: nat) -> Outcome
        decreases depth, 0nat, e, 0nat,
    {
        match e.node {
            Node::Def(i, defaults) => if i >= prog.code.len() {
                (self, Err(raised(ErrorKind::NotSupported)))
            } else {
                let def = prog.code[i as int];
                match self.eval_list(prog, defaults, 0, Seq::empty(), depth) {
                    (st, Ok(values)) => match def_signature(
                        def.params@,
                        values,
                        0,
                        0,
                        Signature::empty(def.name@),
                        false,
                    ) {
                        Ok(sig) => match st.capture(def.parent@, 0, Seq::empty()) {
                            (st2, Ok(captured)) => st2.alloc_entry(
                                Entry::Immutable(
                                    Obj::Def(
                                        DefView {
                                            name: def.name@,
                                            parameters: sig,
                                            code: i as int,
                                            captured,
                                        },
                                    ),
                                ),
                            ),
                            (st2, Err(k)) => (st2, Err(k)),
                        },
                        Err(k) => (st, Err(raised(k))),
                    },
                    (st, Err(k)) => (st, Err(k)),
                }
            },
            _ => (self, Err(raised(ErrorKind::NotSupported))),
        }
    }

    /// The outcome of running the body of the function at `code` on the slot vector
    /// `slots`: the slots of a new call are made, the body is evaluated, the slots are
    /// given up.
    pub open spec fn run_def(
        self,
        prog: Program,
        code: int,
        captured: Seq<(usize, Value)>,
        slots: Seq<Option<Value>>,
        depth: nat,
    ) -> Outcome
        decreases depth, 8nat,
    {
        if code < 0 || code >= prog.code.len() {
            (self, Err(raised(ErrorKind::NotSupported)))
        } else {
            let def = prog.code[code];
            let frame = frame_captured(frame_base(def.slots as int, slots), captured, 0);
            let st1 = State { frames: self.frames.push(frame), ..self };
            let (st2, res) = st1.eval(prog, def.body, depth);
            (
                State {
                    frames: if st2.frames.len() > 0 {
                        st2.frames.drop_last()
                    } else {
                        st2.frames
                    },
                    ..st2
                },
                res,
            )
        }
    }

    /// The outcome of calling `f` with the arguments `p`, with `depth` levels of calls
    /// left. A cancelled evaluation fails here. A bound method, a partial application, an
    /// enumeration type and an accessor pass the call on, which takes one level.
    pub open spec fn invoke(self, prog: Program, f: Value, p: Params, depth: nat) -> Outcome
        decreases depth, 9nat,
    {
        if self.cancelled {
            (self, Err(raised(ErrorKind::Cancelled)))
        } else {
            match self.store.target(f) {
                Target::Object(Obj::Native(nf)) => {
                    let (s, r) = self.store.collect(nf.parameters, p);
                    match r {
                        Ok(slots) => self.with_store(s).call_builtin(
                            prog,
                            nf.function,
                            p.this,
                            slots,
                            depth,
                        ),
                        Err(k) => (self.with_store(s), Err(raised(k))),
                    }
                },
                Target::Object(Obj::Def(d)) => {
                    let (s, r) = self.store.collect(d.parameters, p);
                    match r {
                        Ok(slots) => self.with_store(s).run_def(
                            prog,
                            d.code,
                            d.captured,
                            slots,
                            depth,
                        ),
                        Err(k) => (self.with_store(s), Err(raised(k))),
                    }
                },
                Target::Object(Obj::Bound(b)) => if depth == 0 {
                    (self, Err(raised(ErrorKind::StackOverflow)))
                } else {
                    self.invoke(prog, b.method, Params { this: Some(b.this), ..p }, (depth - 1) as nat)
                },
                Target::Object(Obj::Partial(pt)) => if depth == 0 {
                    (self, Err(raised(ErrorKind::StackOverflow)))
                } else {
                    self.invoke(prog, pt.func, after_partial(pt, p), (depth - 1) as nat)
                },
                Target::Object(Obj::EnumType(t)) => if depth == 0 {
                    (self, Err(raised(ErrorKind::StackOverflow)))
                } else {
                    self.invoke(prog, t.constructor, Params { this: Some(f), ..p }, (depth - 1) as nat)
                },
                Target::Object(Obj::Attribute(a)) => match p.this {
                    Some(t) => match self.store.access(a, t) {
                        Ok(me) => if depth == 0 {
                            (self, Err(raised(ErrorKind::StackOverflow)))
                        } else {
                            self.invoke(prog, me, p, (depth - 1) as nat)
                        },
                        Err(k) => (self, Err(raised(k))),
                    },
                    None => (self, Err(raised(ErrorKind::WrongType))),
                },
                _ => (self, Err(raised(ErrorKind::NotSupported))),
            }
        }
    }

    /// The outcome of a built-in function on the slots of a call.
    pub open spec fn call_builtin(
        self,
        prog: Program,
        b: Builtin,
        this: Option<Value>,
        slots: Seq<Option<Value>>,
        depth: nat,
    ) -> Outcome
        decreases depth, 7nat,
    {
        match b {
            Builtin::MapEach => self.builtin_map(prog, slots, depth),
            Builtin::Filter => self.builtin_filter(prog, slots, depth),
            Builtin::Sorted => self.builtin_sorted(prog, slots, depth),
            Builtin::Max => self.builtin_extreme(prog, slots, Order::Less, depth),
            Builtin::Min => self.builtin_extreme(prog, slots, Order::Greater, depth),
            _ => self.call_pure(prog, b, this, slots),
        }
    }

    /// The outcome of a built-in function that calls no function itself.
    pub open spec fn call_pure(
        self,
        prog: Program,
        b: Builtin,
        this: Option<Value>,
        slots: Seq<Option<Value>>,
    ) -> Outcome {
        match b {
            Builtin::Fail => (self, unpinned(self.store.builtin_fail(slots))),
            Builtin::Any => (self, unpinned(self.store.builtin_any(slots))),
            Builtin::All => (self, unpinned(self.store.builtin_all(slots))),
            Builtin::Bool => (self, unpinned(self.store.builtin_bool(slots))),
            Builtin::Ord => (self, unpinned(self.store.builtin_ord(slots))),
            Builtin::Hash => (self, unpinned(self.store.builtin_hash(slots))),
            Builtin::Int => (self, unpinned(self.store.builtin_int(slots))),
            Builtin::Len => (self, unpinned(self.store.builtin_len(slots))),
            Builtin::Abs => (self, unpinned(self.store.builtin_abs(slots))),
            Builtin::Chr => self.lift(self.store.builtin_chr(slots)),
            Builtin::Range => self.lift(self.store.builtin_range(slots)),
            Builtin::Repr => self.lift(self.store.builtin_repr(slots)),
            Builtin::Json => self.lift(self.store.builtin_show(slots, crate::repr::Style::Json)),
            Builtin::Debug => self.lift(self.store.builtin_show(slots, crate::repr::Style::Debug)),
            Builtin::Str => self.lift(self.store.builtin_str(slots)),
            Builtin::Type => self.lift(self.store.builtin_type(slots)),
            Builtin::List => self.lift(self.store.builtin_list(slots)),
            Builtin::Tuple => self.lift(self.store.builtin_tuple(slots)),
            Builtin::Reversed => self.lift(self.store.builtin_reversed(slots)),
            Builtin::Dedupe => self.lift(self.store.builtin_dedupe(slots)),
            Builtin::Enumerate => self.lift(self.store.builtin_enumerate(slots)),
            Builtin::Zip => self.lift(self.store.builtin_zip(slots)),
            Builtin::Dict => self.lift(self.store.builtin_dict(slots)),
            Builtin::Partial => self.lift(self.store.builtin_partial(slots)),
            Builtin::Enum => self.lift(self.store.builtin_enum(slots)),
            Builtin::ListAppend => self.lift(self.store.list_append(this, slots)),
            Builtin::DictKeys => self.lift(self.store.dict_keys(this)),
            Builtin::EnumConstructor => (
                self,
                match required(slots, 0) {
                    Ok(v) => unpinned(self.store.enum_value(this, v)),
                    Err(k) => Err(raised(k)),
                },
            ),
            Builtin::Print | Builtin::Getattr | Builtin::Hasattr | Builtin::Dir => self.call_inspect(
                prog,
                b,
                slots,
            ),
            // These call functions themselves, and are no part of this.
            _ => (self, Err(raised(ErrorKind::NotSupported))),
        }
    }

    /// The outcome of calling `f` on each of `items[i..]`, after the results `acc`.
    pub open spec fn map_from(
        self,
        prog: Program,
        f: Value,
        items: Seq<Value>,
        i: int,
        acc: Seq<Value>,
        depth: nat,
    ) -> (State, Result<Seq<Value>, Fault>)
        decreases depth, 10nat, items.len() - i,
    {
        if i < 0 || i >= items.len() {
            (self, Ok(acc))
        } else {
            match self.invoke(prog, f, positional(None, seq![items[i]]), depth) {
                (st, Ok(v)) => st.map_from(prog, f, items, i + 1, acc.push(v), depth),
                (st, Err(k)) => (st, Err(k)),
            }
        }
    }

    /// `map(f, x)`: a new list of the results of `f` on each value that `x` yields. `x`
    /// is locked for reading while `f` is called.
    pub open spec fn builtin_map(self, prog: Program, slots: Seq<Option<Value>>, depth: nat) -> Outcome
        decreases depth, 2nat,
    {
        match (required(slots, 0), required(slots, 1)) {
            (Err(k), _) => (self, Err(raised(k))),
            (_, Err(k)) => (self, Err(raised(k))),
            (Ok(f), Ok(x)) => match self.store.iterate(x) {
                Err(k) => (self, Err(raised(k))),
                Ok(items) => if depth == 0 {
                    (self, Err(raised(ErrorKind::StackOverflow)))
                } else {
                    let st1 = self.with_store(self.store.lock(x));
                    let (st2, r) = st1.map_from(prog, f, items, 0, Seq::empty(), (depth - 1) as nat);
                    let st3 = st2.with_store(st2.store.unlock(x));
                    match r {
                        Ok(vs) => st3.alloc_entry(Entry::Mutable(0, Obj::List(vs))),
                        Err(k) => (st3, Err(k)),
                    }
                },
            },
        }
    }

    /// The outcome of keeping those of `items[i..]` for which `f` gives a true value, after
    /// those kept in `acc`. Without a function, the true values are kept.
    pub open spec fn filter_from(
        self,
        prog: Program,
        f: Value,
        items: Seq<Value>,
        i: int,
        acc: Seq<Value>,
        depth: nat,
    ) -> (State, Result<Seq<Value>, Fault>)
        decreases depth, 10nat, items.len() - i,
    {
        if i < 0 || i >= items.len() {
            (self, Ok(acc))
        } else if f == Value::Nil {
            self.filter_from(
                prog,
                f,
                items,
                i + 1,
                if self.store.to_bool(items[i]) {
                    acc.push(items[i])
                } else {
                    acc
                },
                depth,
            )
        } else {
            match self.invoke(prog, f, positional(None, seq![items[i]]), depth) {
                (st, Ok(v)) => st.filter_from(
                    prog,
                    f,
                    items,
                    i + 1,
                    if st.store.to_bool(v) {
                        acc.push(items[i])
                    } else {
                        acc
                    },
                    depth,
                ),
                (st, Err(k)) => (st, Err(k)),
            }
        }
    }

    /// `filter(f, x)`: a new list of the values that `x` yields for which `f` gives a true
    /// value; without `f`, of those that are true. `x` is locked for reading meanwhile.
    pub open spec fn builtin_filter(self, prog: Program, slots: Seq<Option<Value>>, depth: nat) -> Outcome
        decreases depth, 2nat,
    {
        match (required(slots, 0), required(slots, 1)) {
            (Err(k), _) => (self, Err(raised(k))),
            (_, Err(k)) => (self, Err(raised(k))),
            (Ok(f), Ok(x)) => match self.store.iterate(x) {
                Err(k) => (self, Err(raised(k))),
                Ok(items) => if depth == 0 {
                    (self, Err(raised(ErrorKind::StackOverflow)))
                } else {
                    let st1 = self.with_store(self.store.lock(x));
                    let (st2, r) = st1.filter_from(
                        prog,
                        f,
                        items,
                        0,
                        Seq::empty(),
                        (depth - 1) as nat,
                    );
                    let st3 = st2.with_store(st2.store.unlock(x));
                    match r {
                        Ok(vs) => st3.alloc_entry(Entry::Mutable(0, Obj::List(vs))),
                        Err(k) => (st3, Err(k)),
                    }
                },
            },
        }
    }
}

/// Does the call leave the evaluator in the state, and return the result, that the
/// specified outcome `s` says: the same value, or an error of the same kind that is pinned
/// to the same place?
pub open spec fn done(ev: State, r: Result<Value, Error>, s: Outcome) -> bool {
    ev == s.0 && faults(r, s.1)
}

/// As [`done`], for a call that returns something other than a value.
pub open spec fn done_with<T, U>(
    ev: State,
    r: Result<T, Error>,
    got: spec_fn(T) -> U,
    s: (State, Result<U, Fault>),
) -> bool {
    ev == s.0 && match (r, s.1) {
        (Ok(a), Ok(b)) => got(a) == b,
        (Err(e), Err(f)) => e.kind == f.kind && e.span == f.span,
        _ => false,
    }
}

/// Is `ev` the state, and `out` what was gathered, that the clauses of a comprehension come
/// to?
pub open spec fn gathered(
    ev: State,
    r: Result<(), Error>,
    out: Seq<(Value, Value)>,
    s: (State, Result<Seq<(Value, Value)>, Fault>),
) -> bool {
    ev == s.0 && match s.1 {
        Ok(entries) => r is Ok && out == entries,
        Err(f) => r is Err && r->Err_0.kind == f.kind && r->Err_0.span == f.span,
    }
}

impl Memory {
    /// Sets `k` to `v` in the entries of a dictionary, and says whether `k` was there.
    pub fn dict_insert(&self, entries: &mut Vec<(Value, Value)>, k: Value, v: Value) -> (r: Result<
        bool,
        Error,
    >)
        ensures
            match self@.dict_insert(old(entries)@, k, v) {
                Ok((after, replaced)) => r is Ok && r->Ok_0 == replaced && final(entries)@ == after,
                Err(e) => r is Err && r->Err_0.kind == e && r->Err_0.span is None,
            },
    {
        match self.get_hash(k) {
            Ok(_) => {},
            Err(e) => {
                return Err(e);
            },
        }
        match self.dict_find(entries, k, MAX_NESTING) {
            Ok(Some(j)) => {
                let key = entries[j].0;
                entries[j] = (key, v);
                Ok(true)
            },
            Ok(None) => {
                entries.push((k, v));
                Ok(false)
            },
            Err(e) => Err(e),
        }
    }
}

/// The constants `vs` as values.
pub fn thaw_values(vs: &Vec<FrozenValue>) -> (out: Vec<Value>)
    ensures
        out@ == thaw(vs@),
{
    let mut out: Vec<Value> = Vec::new();
    let mut i: usize = 0;
    while i < vs.len()
        invariant
            i <= vs.len(),
            out@ == thaw(vs@).take(i as int),
        decreases vs.len() - i,
    {
        out.push(vs[i].to_value());
        i += 1;
        assert(thaw(vs@).take(i as int) == thaw(vs@).take(i - 1).push(thaw(vs@)[i - 1]));
    }
    assert(thaw(vs@).take(vs.len() as int) == thaw(vs@));
    out
}

/// The pairs of constants `vs` as pairs of values.
pub fn thaw_value_pairs(vs: &Vec<(FrozenValue, FrozenValue)>) -> (out: Vec<(Value, Value)>)
    ensures
        out@ == thaw_pairs(vs@),
{
    let mut out: Vec<(Value, Value)> = Vec::new();
    let mut i: usize = 0;
    while i < vs.len()
        invariant
            i <= vs.len(),
            out@ == thaw_pairs(vs@).take(i as int),
        decreases vs.len() - i,
    {
        out.push((vs[i].0.to_value(), vs[i].1.to_value()));
        i += 1;
        assert(thaw_pairs(vs@).take(i as int) == thaw_pairs(vs@).take(i - 1).push(
            thaw_pairs(vs@)[i - 1],
        ));
    }
    assert(thaw_pairs(vs@).take(vs.len() as int) == thaw_pairs(vs@));
    out
}

/// The message for a dictionary literal in which the key shown as `key` comes twice.
pub open spec fn repeated_text(key: Seq<char>) -> Seq<char> {
    crate::errors::framed("Dictionary key repeated for `"@, key, "`"@)
}

/// The error for a dictionary literal in which the key `k` comes twice: it names the key.
pub fn duplicate_key(mem: &Memory, k: Value) -> (e: Error)
    ensures
        e.kind == ErrorKind::DuplicateDictionaryKey,
        e.message@ == repeated_text(mem@.shown(k)),
        e.span is None,
{
    let shown = mem.shown(k);
    Error::with_message(
        ErrorKind::DuplicateDictionaryKey,
        crate::errors::frame("Dictionary key repeated for `", shown.as_str(), "`"),
    )
}

impl Evaluator {
    /// Puts an object on the mutable heap.
    pub fn alloc_object(&mut self, o: Object) -> (r: Result<Value, Error>)
        ensures
            done(final(self)@, r, old(self)@.alloc_entry(Store::entry_for(o@))),
    {
        Ok(self.mem.alloc_object(o))
    }

    /// Evaluates `e`, with `depth` levels of calls left. An error is pinned to the place of
    /// the innermost expression that failed.
    pub fn eval(&mut self, prog: &Program, e: &ExprCompiled, depth: usize) -> (r: Result<
        Value,
        Error,
    >)
        ensures
            done(final(self)@, r, old(self)@.eval(*prog, *e, depth as nat)),
            r is Err ==> r->Err_0.span is Some,
        decreases depth, 0nat, e, 2nat,
    {
        match self.eval_node(prog, e, depth) {
            Ok(v) => Ok(v),
            Err(err) => Err(err.at(e.span)),
        }
    }

    fn eval_node(&mut self, prog: &Program, e: &ExprCompiled, depth: usize) -> (r: Result<
        Value,
        Error,
    >)
        ensures
            done(final(self)@, r, old(self)@.eval_node(*prog, *e, depth as nat)),
        decreases depth, 0nat, e, 1nat,
    {
        match &e.node {
            Node::Value(_) | Node::Local(_, _) | Node::Module(_, _) | Node::NotFound(_) => self.eval_leaf(
                e,
            ),
            Node::Tuple(_) | Node::ListStatic(_) | Node::List(_) => self.eval_sequence(
                prog,
                e,
                depth,
            ),
            Node::DictStatic(_) | Node::DictStaticKey(_) | Node::Dict(_) => self.eval_dict_node(
                prog,
                e,
                depth,
            ),
            Node::If(_, _, _) | Node::Or(_, _) | Node::And(_, _) => self.eval_choice(
                prog,
                e,
                depth,
            ),
            Node::TypeOf(_) | Node::Len(_) | Node::Not(_) | Node::Minus(_) | Node::Plus(_)
            | Node::BitNot(_) => self.eval_unary(prog, e, depth),
            Node::Index(_, _) | Node::Slice(_, _, _, _) => self.eval_subscript(prog, e, depth),
            Node::Equals(_, _, _) | Node::Compare(_, _, _) | Node::In(_, _, _) | Node::Binary(
                _,
                _,
                _,
            ) => self.eval_binary(prog, e, depth),
            Node::Dot(_, _) | Node::CallMethod(_, _, _) | Node::Call(_, _) => self.eval_call(
                prog,
                e,
                depth,
            ),
            Node::ListComp(_, _) | Node::DictComp(_, _, _) => self.eval_comprehension(
                prog,
                e,
                depth,
            ),
            Node::Def(_, _) => self.eval_def(prog, e, depth),
        }
    }

    /// Assigns `v` to `target`.
    pub fn assign(&mut self, target: &AssignCompiled, v: Value) -> (r: Result<(), Error>)
        ensures
            done_with(final(self)@, r, |u: ()| (), old(self)@.assign(*target, v)),
        decreases target,
    {
        match target {
            AssignCompiled::Slot(i, name) => {
                let n = self.frames.len();
                if n == 0 || *i >= self.frames[n - 1].len() {
                    assert(n > 0 ==> self@.frames.last() == self.frames@[n - 1]@);
                    return Err(
                        Error::from_environment(EnvironmentError::CannotSetVariable(name.clone())),
                    );
                }
                let ghost before = self@;
                assert(before.frames.last() == self.frames@[n - 1]@);
                let mut frame = match self.frames.pop() {
                    Some(f) => f,
                    None => Vec::new(),
                };
                let mut cell = frame[*i];
                cell.set(&mut self.mem, v);
                frame[*i] = cell;
                self.frames.push(frame);
                assert(self@.frames =~= before.frames.update(
                    before.frames.len() - 1,
                    before.frames.last().update(*i as int, cell),
                ));
                assert(self@.output =~= before.output);
                Ok(())
            },
            AssignCompiled::Tuple(ts) => {
                let items = match self.mem.iterate(v) {
                    Ok(items) => items,
                    Err(k) => {
                        return Err(k);
                    },
                };
                if items.len() != ts.len() {
                    return Err(Error::new(ErrorKind::WrongType, "Wrong number of values to unpack"));
                }
                let mut i: usize = 0;
                while i < ts.len()
                    invariant
                        i <= ts.len(),
                        items.len() == ts.len(),
                        *target == AssignCompiled::Tuple(*ts),
                        old(self)@.assign(*target, v) == old(self)@.assign_all(*ts, items@, 0),
                        old(self)@.assign_all(*ts, items@, 0) == self@.assign_all(
                            *ts,
                            items@,
                            i as int,
                        ),
                    decreases ts.len() - i,
                {
                    assert(target->Tuple_0 == *ts);
                    match self.assign(&ts[i], items[i]) {
                        Ok(_) => {},
                        Err(k) => {
                            return Err(k);
                        },
                    }
                    i += 1;
                }
                Ok(())
            },
        }
    }

    /// Runs the clauses `i..` of the comprehension `e` and its element, and adds what comes
    /// of them to `acc`.
    fn eval_clauses(
        &mut self,
        prog: &Program,
        e: &ExprCompiled,
        i: usize,
        acc: &mut Vec<(Value, Value)>,
        depth: usize,
    ) -> (r: Result<(), Error>)
        ensures
            gathered(
                final(self)@,
                r,
                final(acc)@,
                old(self)@.eval_clauses(*prog, *e, i as int, old(acc)@, depth as nat),
            ),
        decreases depth, 0nat, e, 0nat, clauses_left(*e, i as int), 1nat, 0nat,
    {
        let cs = match &e.node {
            Node::ListComp(_, cs) => cs,
            Node::DictComp(_, _, cs) => cs,
            _ => {
                return Err(Error::new(ErrorKind::NotSupported, "Not supported"));
            },
        };
        if i >= cs.len() {
            match &e.node {
                Node::ListComp(x, _) => match self.eval(prog, x, depth) {
                    Ok(v) => {
                        acc.push((v, Value::new_none()));
                        Ok(())
                    },
                    Err(k) => Err(k),
                },
                Node::DictComp(k, v, _) => {
                    let key = match self.eval(prog, k, depth) {
                        Ok(x) => x,
                        Err(k) => {
                            return Err(k);
                        },
                    };
                    let value = match self.eval(prog, v, depth) {
                        Ok(x) => x,
                        Err(k) => {
                            return Err(k);
                        },
                    };
                    match self.mem.dict_insert(acc, key, value) {
                        Ok(_) => Ok(()),
                        Err(k) => Err(k),
                    }
                },
                _ => Err(Error::new(ErrorKind::NotSupported, "Not supported")),
            }
        } else {
            match &cs[i] {
                ClauseCompiled::If(c) => match self.eval(prog, c, depth) {
                    Ok(v) => if self.mem.to_bool(v) {
                        self.eval_clauses(prog, e, i + 1, acc, depth)
                    } else {
                        Ok(())
                    },
                    Err(k) => Err(k),
                },
                ClauseCompiled::For(_, over) => {
                    let c = match self.eval(prog, over, depth) {
                        Ok(x) => x,
                        Err(k) => {
                            return Err(k);
                        },
                    };
                    let items = match self.mem.iterate(c) {
                        Ok(x) => x,
                        Err(k) => {
                            return Err(k);
                        },
                    };
                    self.mem.lock_read(c);
                    let r = self.eval_items(prog, e, i, &items, acc, depth);
                    self.mem.unlock_read(c);
                    r
                },
            }
        }
    }

    /// Runs the `for` clause `i` of the comprehension `e` on each of `items`.
    fn eval_items(
        &mut self,
        prog: &Program,
        e: &ExprCompiled,
        i: usize,
        items: &Vec<Value>,
        acc: &mut Vec<(Value, Value)>,
        depth: usize,
    ) -> (r: Result<(), Error>)
        requires
            clauses_of(e.node) is Some,
            i < clauses_of(e.node).unwrap().len(),
            clauses_of(e.node).unwrap()@[i as int] is For,
        ensures
            gathered(
                final(self)@,
                r,
                final(acc)@,
                old(self)@.eval_items(*prog, *e, i as int, items@, 0, old(acc)@, depth as nat),
            ),
        decreases depth, 0nat, e, 0nat, clauses_left(*e, i as int), 0nat, items.len(),
    {
        let cs = match &e.node {
            Node::ListComp(_, cs) => cs,
            Node::DictComp(_, _, cs) => cs,
            _ => {
                return Err(Error::new(ErrorKind::NotSupported, "Not supported"));
            },
        };
        let var = match &cs[i] {
            ClauseCompiled::For(var, _) => var,
            _ => {
                return Err(Error::new(ErrorKind::NotSupported, "Not supported"));
            },
        };
        let mut j: usize = 0;
        while j < items.len()
            invariant
                j <= items.len(),
                clauses_of(e.node) == Some(*cs),
                i < cs.len(),
                cs@[i as int] is For,
                cs@[i as int]->For_0 == *var,
                old(self)@.eval_items(*prog, *e, i as int, items@, 0, old(acc)@, depth as nat)
                    == self@.eval_items(*prog, *e, i as int, items@, j as int, acc@, depth as nat),
            decreases items.len() - j,
        {
            if self.cancelled {
                return Err(Error::new(ErrorKind::Cancelled, "The evaluation was cancelled"));
            }
            match self.assign(var, items[j]) {
                Ok(_) => {},
                Err(k) => {
                    return Err(k);
                },
            }
            match self.eval_clauses(prog, e, i + 1, acc, depth) {
                Ok(_) => {},
                Err(k) => {
                    return Err(k);
                },
            }
            j += 1;
        }
        Ok(())
    }

    fn eval_comprehension(&mut self, prog: &Program, e: &ExprCompiled, depth: usize) -> (r: Result<
        Value,
        Error,
    >)
        ensures
            done(final(self)@, r, old(self)@.eval_comprehension(*prog, *e, depth as nat)),
        decreases depth, 0nat, e, 0nat, clauses_left(*e, 0) + 1, 0nat, 0nat,
    {
        let mut acc: Vec<(Value, Value)> = Vec::new();
        match self.eval_clauses(prog, e, 0, &mut acc, depth) {
            Ok(_) => match &e.node {
                Node::ListComp(_, _) => self.alloc_object(Object::List(crate::basics::copy_firsts(&acc))),
                _ => self.alloc_object(Object::Dict(acc)),
            },
            Err(k) => Err(k),
        }
    }

    fn eval_leaf(&self, e: &ExprCompiled) -> (r: Result<Value, Error>)
        ensures
            done(self@, r, self@.eval_leaf(*e)),
    {
        match &e.node {
            Node::Value(v) => Ok(v.to_value()),
            Node::Local(slot, name) => self.get_slot_local(*slot, name.as_str()),
            Node::Module(slot, name) => self.get_slot_module(*slot, name.as_str()),
            Node::NotFound(name) => Err(
                Error::from_environment(EnvironmentError::VariableNotFound(name.clone())),
            ),
            _ => Err(
                Error::from_environment(
                    EnvironmentError::VariableNotFound(crate::text::owned("?")),
                ),
            ),
        }
    }

    fn eval_sequence(&mut self, prog: &Program, e: &ExprCompiled, depth: usize) -> (r: Result<
        Value,
        Error,
    >)
        ensures
            done(final(self)@, r, old(self)@.eval_sequence(*prog, *e, depth as nat)),
        decreases depth, 0nat, e, 0nat,
    {
        match &e.node {
            Node::Tuple(xs) => match self.eval_list(prog, xs, depth) {
                Ok(vs) => self.alloc_object(Object::Tuple(vs)),
                Err(k) => Err(k),
            },
            Node::ListStatic(vs) => self.alloc_object(Object::List(thaw_values(vs))),
            Node::List(xs) => match self.eval_list(prog, xs, depth) {
                Ok(vs) => self.alloc_object(Object::List(vs)),
                Err(k) => Err(k),
            },
            _ => Err(Error::new(ErrorKind::NotSupported, "Not supported")),
        }
    }

    fn eval_dict_node(&mut self, prog: &Program, e: &ExprCompiled, depth: usize) -> (r: Result<
        Value,
        Error,
    >)
        ensures
            done(final(self)@, r, old(self)@.eval_dict_node(*prog, *e, depth as nat)),
        decreases depth, 0nat, e, 0nat,
    {
        match &e.node {
            Node::DictStatic(kvs) => self.alloc_object(Object::Dict(thaw_value_pairs(kvs))),
            Node::DictStaticKey(kvs) => match self.eval_dict_static(prog, kvs, depth) {
                Ok(entries) => self.alloc_object(Object::Dict(entries)),
                Err(k) => Err(k),
            },
            Node::Dict(kvs) => match self.eval_dict(prog, kvs, depth) {
                Ok(entries) => self.alloc_object(Object::Dict(entries)),
                Err(k) => Err(k),
            },
            _ => Err(Error::new(ErrorKind::NotSupported, "Not supported")),
        }
    }

    fn eval_choice(&mut self, prog: &Program, e: &ExprCompiled, depth: usize) -> (r: Result<
        Value,
        Error,
    >)
        ensures
            done(final(self)@, r, old(self)@.eval_choice(*prog, *e, depth as nat)),
        decreases depth, 0nat, e, 0nat,
    {
        match &e.node {
            Node::If(c, t, f) => match self.eval(prog, c, depth) {
                Ok(v) => if self.mem.to_bool(v) {
                    self.eval(prog, t, depth)
                } else {
                    self.eval(prog, f, depth)
                },
                Err(k) => Err(k),
            },
            Node::Or(l, r) => match self.eval(prog, l, depth) {
                Ok(lv) => if self.mem.to_bool(lv) {
                    Ok(lv)
                } else {
                    self.eval(prog, r, depth)
                },
                Err(k) => Err(k),
            },
            Node::And(l, r) => match self.eval(prog, l, depth) {
                Ok(lv) => if !self.mem.to_bool(lv) {
                    Ok(lv)
                } else {
                    self.eval(prog, r, depth)
                },
                Err(k) => Err(k),
            },
            _ => Err(Error::new(ErrorKind::NotSupported, "Not supported")),
        }
    }

    fn apply_unary(&mut self, node: &Node, v: Value) -> (r: Result<Value, Error>)
        ensures
            done(final(self)@, r, old(self)@.apply_unary(*node, v)),
    {
        match node {
            Node::TypeOf(_) => {
                let name = crate::text::owned(self.mem.get_type(v));
                Ok(self.mem.alloc_str(name))
            },
            Node::Len(_) => match self.mem.length(v) {
                Ok(n) => Ok(Value::Int(n)),
                Err(k) => Err(k),
            },
            Node::Not(_) => Ok(Value::Bool(!self.mem.to_bool(v))),
            Node::Minus(_) => self.mem.minus(v),
            Node::Plus(_) => self.mem.plus(v),
            _ => match self.mem.to_int(v) {
                Ok(i) => Ok(Value::Int(!i)),
                Err(k) => Err(k),
            },
        }
    }

    fn eval_unary(&mut self, prog: &Program, e: &ExprCompiled, depth: usize) -> (r: Result<
        Value,
        Error,
    >)
        ensures
            done(final(self)@, r, old(self)@.eval_unary(*prog, *e, depth as nat)),
        decreases depth, 0nat, e, 0nat,
    {
        match &e.node {
            Node::TypeOf(x) | Node::Len(x) | Node::Not(x) | Node::Minus(x) | Node::Plus(x)
            | Node::BitNot(x) => match self.eval(prog, x, depth) {
                Ok(v) => self.apply_unary(&e.node, v),
                Err(k) => Err(k),
            },
            _ => Err(Error::new(ErrorKind::NotSupported, "Not supported")),
        }
    }

    fn eval_subscript(&mut self, prog: &Program, e: &ExprCompiled, depth: usize) -> (r: Result<
        Value,
        Error,
    >)
        ensures
            done(final(self)@, r, old(self)@.eval_subscript(*prog, *e, depth as nat)),
        decreases depth, 0nat, e, 0nat,
    {
        match &e.node {
            Node::Index(a, i) => match self.eval(prog, a, depth) {
                Ok(av) => match self.eval(prog, i, depth) {
                    Ok(iv) => self.mem.at(av, iv),
                    Err(k) => Err(k),
                },
                Err(k) => Err(k),
            },
            Node::Slice(c, a, b, s) => match self.eval(prog, c, depth) {
                Ok(cv) => match self.eval_opt(prog, a, depth) {
                    Ok(av) => match self.eval_opt(prog, b, depth) {
                        Ok(bv) => match self.eval_opt(prog, s, depth) {
                            Ok(sv) => self.mem.slice(cv, av, bv, sv),
                            Err(k) => Err(k),
                        },
                        Err(k) => Err(k),
                    },
                    Err(k) => Err(k),
                },
                Err(k) => Err(k),
            },
            _ => Err(Error::new(ErrorKind::NotSupported, "Not supported")),
        }
    }

    fn apply_binary(&mut self, node: &Node, lv: Value, rv: Value) -> (r: Result<Value, Error>)
        ensures
            done(final(self)@, r, old(self)@.apply_binary(*node, lv, rv)),
    {
        match node {
            Node::Equals(_, _, negate) => match self.mem.equals(lv, rv) {
                Ok(b) => Ok(Value::Bool(b != *negate)),
                Err(k) => Err(k),
            },
            Node::Compare(_, _, c) => match self.mem.compare(lv, rv) {
                Ok(o) => Ok(Value::Bool(holds_exec(*c, o))),
                Err(k) => Err(k),
            },
            Node::In(_, _, negate) => match self.mem.is_in(lv, rv) {
                Ok(b) => Ok(Value::Bool(b != *negate)),
                Err(k) => Err(k),
            },
            Node::Binary(_, _, op) => self.mem.binary(*op, lv, rv),
            _ => Err(Error::new(ErrorKind::NotSupported, "Not supported")),
        }
    }

    fn eval_binary(&mut self, prog: &Program, e: &ExprCompiled, depth: usize) -> (r: Result<
        Value,
        Error,
    >)
        ensures
            done(final(self)@, r, old(self)@.eval_binary(*prog, *e, depth as nat)),
        decreases depth, 0nat, e, 0nat,
    {
        match &e.node {
            Node::Equals(l, r, _) | Node::Compare(l, r, _) | Node::Binary(l, r, _) => match self.eval(
                prog,
                l,
                depth,
            ) {
                Ok(lv) => match self.eval(prog, r, depth) {
                    Ok(rv) => self.apply_binary(&e.node, lv, rv),
                    Err(k) => Err(k),
                },
                Err(k) => Err(k),
            },
            Node::In(item, container, _) => match self.eval(prog, container, depth) {
                Ok(cv) => match self.eval(prog, item, depth) {
                    Ok(iv) => self.apply_binary(&e.node, cv, iv),
                    Err(k) => Err(k),
                },
                Err(k) => Err(k),
            },
            _ => Err(Error::new(ErrorKind::NotSupported, "Not supported")),
        }
    }

    fn eval_opt(&mut self, prog: &Program, e: &Option<Box<ExprCompiled>>, depth: usize) -> (r:
        Result<Option<Value>, Error>)
        ensures
            final(self)@ == old(self)@.eval_opt(*prog, *e, depth as nat).0,
            faults(r, old(self)@.eval_opt(*prog, *e, depth as nat).1),
        decreases depth, 0nat, e,
    {
        match e {
            None => Ok(None),
            Some(x) => match self.eval(prog, x, depth) {
                Ok(v) => Ok(Some(v)),
                Err(k) => Err(k),
            },
        }
    }

    fn eval_list(&mut self, prog: &Program, xs: &Vec<ExprCompiled>, depth: usize) -> (r: Result<
        Vec<Value>,
        Error,
    >)
        ensures
            done_with(
                final(self)@,
                r,
                |v: Vec<Value>| v@,
                old(self)@.eval_list(*prog, *xs, 0, Seq::empty(), depth as nat),
            ),
        decreases depth, 0nat, xs,
    {
        let mut out: Vec<Value> = Vec::new();
        let mut i: usize = 0;
        while i < xs.len()
            invariant
                i <= xs.len(),
                old(self)@.eval_list(*prog, *xs, 0, Seq::empty(), depth as nat) == self@.eval_list(
                    *prog,
                    *xs,
                    i as int,
                    out@,
                    depth as nat,
                ),
            decreases xs.len() - i,
        {
            match self.eval(prog, &xs[i], depth) {
                Ok(v) => {
                    out.push(v);
                },
                Err(k) => {
                    return Err(k);
                },
            }
            i += 1;
        }
        Ok(out)
    }

    fn eval_dict_static(
        &mut self,
        prog: &Program,
        kvs: &Vec<(FrozenValue, ExprCompiled)>,
        depth: usize,
    ) -> (r: Result<Vec<(Value, Value)>, Error>)
        ensures
            done_with(
                final(self)@,
                r,
                |v: Vec<(Value, Value)>| v@,
                old(self)@.eval_dict_static(*prog, *kvs, 0, Seq::empty(), depth as nat),
            ),
        decreases depth, 0nat, kvs,
    {
        let mut out: Vec<(Value, Value)> = Vec::new();
        let mut i: usize = 0;
        while i < kvs.len()
            invariant
                i <= kvs.len(),
                old(self)@.eval_dict_static(*prog, *kvs, 0, Seq::empty(), depth as nat)
                    == self@.eval_dict_static(*prog, *kvs, i as int, out@, depth as nat),
            decreases kvs.len() - i,
        {
            let key = kvs[i].0.to_value();
            match self.eval(prog, &kvs[i].1, depth) {
                Ok(v) => match self.mem.dict_insert(&mut out, key, v) {
                    Ok(false) => {},
                    Ok(true) => {
                        return Err(duplicate_key(&self.mem, key));
                    },
                    Err(k) => {
                        return Err(k);
                    },
                },
                Err(k) => {
                    return Err(k);
                },
            }
            i += 1;
        }
        Ok(out)
    }

    fn eval_dict(&mut self, prog: &Program, kvs: &Vec<(ExprCompiled, ExprCompiled)>, depth: usize) -> (r:
        Result<Vec<(Value, Value)>, Error>)
        ensures
            done_with(
                final(self)@,
                r,
                |v: Vec<(Value, Value)>| v@,
                old(self)@.eval_dict(*prog, *kvs, 0, Seq::empty(), depth as nat),
            ),
        decreases depth, 0nat, kvs,
    {
        let mut out: Vec<(Value, Value)> = Vec::new();
        let mut i: usize = 0;
        while i < kvs.len()
            invariant
                i <= kvs.len(),
                old(self)@.eval_dict(*prog, *kvs, 0, Seq::empty(), depth as nat)
                    == self@.eval_dict(*prog, *kvs, i as int, out@, depth as nat),
            decreases kvs.len() - i,
        {
            let key = match self.eval(prog, &kvs[i].0, depth) {
                Ok(k) => k,
                Err(e) => {
                    return Err(e);
                },
            };
            match self.mem.get_hash(key) {
                Ok(_) => {},
                Err(e) => {
                    return Err(e);
                },
            }
            match self.eval(prog, &kvs[i].1, depth) {
                Ok(v) => match self.mem.dict_insert(&mut out, key, v) {
                    Ok(false) => {},
                    Ok(true) => {
                        return Err(duplicate_key(&self.mem, key));
                    },
                    Err(k) => {
                        return Err(k);
                    },
                },
                Err(k) => {
                    return Err(k);
                },
            }
            i += 1;
        }
        Ok(out)
    }
}

/// What a call of a value comes to, once the value is looked at.
enum Step {
    Native(Builtin, Result<crate::call::Bound, Error>),
    Def(usize, Vec<(usize, Value)>, Result<crate::call::Bound, Error>),
    Forward(Value, Parameters),
    Access(Result<Value, Error>, Parameters),
    Fail(Error),
}

/// The names of named arguments, with their string values thawed.
pub fn promote(names: &Vec<(String, FrozenValue)>) -> (out: Vec<(String, Value)>)
    ensures
        names_view(out@) == promote_names(names@),
{
    let mut out: Vec<(String, Value)> = Vec::new();
    let mut i: usize = 0;
    while i < names.len()
        invariant
            i <= names.len(),
            out.len() == i,
            forall|k: int|
                0 <= k < i ==> (#[trigger] out@[k]).0@ == names@[k].0@ && out@[k].1
                    == names@[k].1.to_value_spec(),
        decreases names.len() - i,
    {
        out.push((names[i].0.clone(), names[i].1.to_value()));
        i += 1;
    }
    assert(names_view(out@) =~= promote_names(names@));
    out
}

/// A copy of names of named arguments.
pub fn copy_names(names: &Vec<(String, Value)>) -> (out: Vec<(String, Value)>)
    ensures
        names_view(out@) == names_view(names@),
{
    let mut out: Vec<(String, Value)> = Vec::new();
    let mut i: usize = 0;
    while i < names.len()
        invariant
            i <= names.len(),
            out.len() == i,
            forall|k: int|
                0 <= k < i ==> (#[trigger] out@[k]).0@ == names@[k].0@ && out@[k].1 == names@[k].1,
        decreases names.len() - i,
    {
        out.push((names[i].0.clone(), names[i].1));
        i += 1;
    }
    assert(names_view(out@) =~= names_view(names@));
    out
}

/// Positional arguments and nothing else.
pub fn positional_args(this: Option<Value>, pos: Vec<Value>) -> (p: Parameters)
    ensures
        p@ == positional(this, pos@),
{
    let p = Parameters {
        this,
        pos,
        named: Vec::new(),
        names: Vec::new(),
        args: None,
        kwargs: None,
    };
    assert(p@.names =~= Seq::empty());
    p
}

fn one(v: Value) -> (out: Vec<Value>)
    ensures
        out@ == seq![v],
{
    let mut out: Vec<Value> = Vec::new();
    out.push(v);
    out
}

fn deep() -> (e: Error)
    ensures
        e.kind == ErrorKind::StackOverflow,
        e.span is None,
{
    Error::new(ErrorKind::StackOverflow, "Too many nested calls")
}

/// The signature of a function from its parameters and the values of its defaults.
pub fn build_signature(name: &str, params: &Vec<ParameterCompiled>, defaults: &Vec<Value>) -> (r:
    Result<crate::params::ParametersSpec, Error>)
    ensures
        match def_signature(params@, defaults@, 0, 0, Signature::empty(name@), false) {
            Ok(sig) => r is Ok && r->Ok_0@ == sig,
            Err(k) => r is Err && r->Err_0.kind == k && r->Err_0.span is None,
        },
{
    let mut b = ParametersSpecBuilder::with_capacity(crate::text::owned(name), params.len());
    let mut j: usize = 0;
    let mut d: usize = 0;
    while j < params.len()
        invariant
            j <= params.len(),
            d <= j,
            b.wf(),
            b.spec.kinds.len() <= j,
            def_signature(params@, defaults@, 0, 0, Signature::empty(name@), false)
                == def_signature(params@, defaults@, j as int, d as int, b.spec@, b.no_args),
        decreases params.len() - j,
    {
        match &params[j] {
            ParameterCompiled::Normal(n) => {
                b.required(n.as_str());
            },
            ParameterCompiled::WithDefaultValue(n) => {
                if d < defaults.len() {
                    b.defaulted(n.as_str(), defaults[d]);
                    d += 1;
                } else {
                    return Err(
                        Error::new(ErrorKind::NotSupported, "A default value is missing"),
                    );
                }
            },
            ParameterCompiled::NoArgs => {
                b.no_args();
            },
            ParameterCompiled::Args(_) => {
                if b.spec.args.is_some() {
                    return Err(Error::new(ErrorKind::NotSupported, "More than one *args"));
                }
                b.args();
            },
            ParameterCompiled::KWargs(_) => {
                if b.spec.kwargs.is_some() {
                    return Err(Error::new(ErrorKind::NotSupported, "More than one **kwargs"));
                }
                b.kwargs();
            },
        }
        j += 1;
    }
    Ok(b.build())
}

impl Evaluator {
    /// Evaluates the arguments of a call into what the callee is given: the positional
    /// values in order, the named values with their names, and the `*` and `**` values.
    /// Each argument is evaluated once, in order, and the first error ends it.
    pub fn eval_args(&mut self, prog: &Program, args: &CallArgs, this: Option<Value>, depth: usize) -> (r:
        Result<Parameters, Error>)
        ensures
            done_with(
                final(self)@,
                r,
                |p: Parameters| p@,
                old(self)@.eval_args(*prog, *args, this, depth as nat),
            ),
        decreases depth, 0nat, args, 0nat,
    {
        match args {
            CallArgs::Args0 => Ok(positional_args(this, Vec::new())),
            CallArgs::Args1(a) => match self.eval(prog, a, depth) {
                Ok(v) => Ok(positional_args(this, one(v))),
                Err(k) => Err(k),
            },
            CallArgs::Args2(a, b) => match self.eval(prog, a, depth) {
                Ok(v) => match self.eval(prog, b, depth) {
                    Ok(w) => {
                        let mut pos = one(v);
                        pos.push(w);
                        assert(pos@ =~= seq![v, w]);
                        Ok(positional_args(this, pos))
                    },
                    Err(k) => Err(k),
                },
                Err(k) => Err(k),
            },
            CallArgs::Args(g) => {
                let mut xs = match self.eval_list(prog, &g.pos_named, depth) {
                    Ok(xs) => xs,
                    Err(k) => {
                        return Err(k);
                    },
                };
                let av = match self.eval_opt(prog, &g.args, depth) {
                    Ok(v) => v,
                    Err(k) => {
                        return Err(k);
                    },
                };
                let kv = match self.eval_opt(prog, &g.kwargs, depth) {
                    Ok(v) => v,
                    Err(k) => {
                        return Err(k);
                    },
                };
                let n = if g.names.len() <= xs.len() {
                    xs.len() - g.names.len()
                } else {
                    0
                };
                let ghost all = xs@;
                let named = xs.split_off(n);
                assert(xs@ =~= all.take(n as int));
                assert(named@ =~= all.skip(n as int));
                let p = Parameters {
                    this,
                    pos: xs,
                    named,
                    names: promote(&g.names),
                    args: av,
                    kwargs: kv,
                };
                assert(p@ == split_params(this, all, promote_names(g.names@), av, kv));
                Ok(p)
            },
        }
    }

    /// The attribute `attr` of `v`: a method of its type, else an attribute of its own.
    pub fn get_attr_error(&mut self, prog: &Program, v: Value, attr: &str) -> (r: Result<
        (bool, Value),
        Error,
    >)
        ensures
            done_with(
                final(self)@,
                r,
                |x: (bool, Value)| x,
                old(self)@.get_attr_error(*prog, v, attr@),
            ),
    {
        match prog.globals.member(self.mem.get_type(v), attr) {
            Some(m) => Ok((true, m.to_value())),
            None => match self.mem.get_attr(v, attr) {
                Some(x) => Ok((false, x)),
                None => {
                    let mut shown = crate::text::owned(".");
                    vstd::string::StringExecFns::append(&mut shown, attr);
                    Err(self.mem.unsupported(shown.as_str(), v))
                },
            },
        }
    }

    /// Reads `left.attr`.
    pub fn dot(&mut self, prog: &Program, left: Value, attr: &str) -> (r: Result<Value, Error>)
        ensures
            done(final(self)@, r, old(self)@.dot(*prog, left, attr@)),
    {
        match self.get_attr_error(prog, left, attr) {
            Ok((false, v)) => Ok(v),
            Ok((true, m)) => {
                let accessor = match self.mem.get_aref(m) {
                    ARef::Object(Object::NativeAttribute(a)) => Some(*a),
                    _ => None,
                };
                match accessor {
                    Some(a) => self.mem.access(a, left),
                    // Insert self so the method see the object it is acting on.
                    None => self.alloc_object(Object::BoundMethod(BoundMethodGen::new(left, m))),
                }
            },
            Err(k) => Err(k),
        }
    }

    fn eval_call(&mut self, prog: &Program, e: &ExprCompiled, depth: usize) -> (r: Result<
        Value,
        Error,
    >)
        ensures
            done(final(self)@, r, old(self)@.eval_call(*prog, *e, depth as nat)),
        decreases depth, 0nat, e, 0nat,
    {
        match &e.node {
            Node::Dot(l, attr) => match self.eval(prog, l, depth) {
                Ok(left) => self.dot(prog, left, attr.as_str()),
                Err(k) => Err(k),
            },
            Node::CallMethod(x, name, args) => match self.eval(prog, x, depth) {
                Ok(this) => match self.get_attr_error(prog, this, name.as_str()) {
                    // We don't need to worry about whether it's an attribute, method or
                    // field since those that don't want the `this` just ignore it.
                    Ok((_, fun)) => match self.eval_args(prog, args, Some(this), depth) {
                        Ok(p) => if depth == 0 {
                            Err(deep())
                        } else {
                            self.invoke(prog, fun, p, depth - 1)
                        },
                        Err(k) => Err(k),
                    },
                    Err(k) => Err(k),
                },
                Err(k) => Err(k),
            },
            Node::Call(l, args) => match self.eval(prog, l, depth) {
                Ok(fun) => match self.eval_args(prog, args, None, depth) {
                    Ok(p) => if depth == 0 {
                        Err(deep())
                    } else {
                        self.invoke(prog, fun, p, depth - 1)
                    },
                    Err(k) => Err(k),
                },
                Err(k) => Err(k),
            },
            _ => Err(Error::new(ErrorKind::NotSupported, "Not supported")),
        }
    }

    fn capture(&mut self, parent: &Vec<(usize, usize)>) -> (r: Result<Vec<(usize, Value)>, Error>)
        ensures
            done_with(
                final(self)@,
                r,
                |c: Vec<(usize, Value)>| c@,
                old(self)@.capture(parent@, 0, Seq::empty()),
            ),
    {
        let mut out: Vec<(usize, Value)> = Vec::new();
        let mut j: usize = 0;
        while j < parent.len()
            invariant
                j <= parent.len(),
                old(self)@.capture(parent@, 0, Seq::empty()) == self@.capture(
                    parent@,
                    j as int,
                    out@,
                ),
            decreases parent.len() - j,
        {
            let at = parent[j].0;
            let n = self.frames.len();
            if n == 0 || at >= self.frames[n - 1].len() {
                assert(n > 0 ==> self@.frames.last() == self.frames@[n - 1]@);
                return Err(Error::new(ErrorKind::NotSupported, "No such slot to capture"));
            }
            assert(self@.frames.last() == self.frames@[n - 1]@);
            let slot = self.frames[n - 1][at];
            match slot.0 {
                Some(Value::Cell(c)) => {
                    let exists = c < self.mem.heap.arena.len() && match &self.mem.heap.arena[c] {
                        crate::heap::ValueMem::Ref(_) => true,
                        _ => false,
                    };
                    if !exists {
                        return Err(Error::new(ErrorKind::NotSupported, "No such cell"));
                    }
                    out.push((parent[j].1, Value::Cell(c)));
                },
                other => {
                    let ghost before = self@;
                    let cell = self.mem.alloc_raw(crate::heap::ValueMem::Ref(other));
                    let shared = match cell {
                        Value::Heap(i) => Value::Cell(i),
                        v => v,
                    };
                    let mut frame = match self.frames.pop() {
                        Some(f) => f,
                        None => Vec::new(),
                    };
                    frame[at] = ValueRef(Some(shared));
                    self.frames.push(frame);
                    assert(self@.frames =~= before.frames.update(
                        before.frames.len() - 1,
                        before.frames.last().update(at as int, ValueRef(Some(shared))),
                    ));
                    assert(self@.output =~= before.output);
                    out.push((parent[j].1, shared));
                },
            }
            j += 1;
        }
        Ok(out)
    }

    fn eval_def(&mut self, prog: &Program, e: &ExprCompiled, depth: usize) -> (r: Result<
        Value,
        Error,
    >)
        ensures
            done(final(self)@, r, old(self)@.eval_def(*prog, *e, depth as nat)),
        decreases depth, 0nat, e, 0nat,
    {
        match &e.node {
            Node::Def(i, defaults) => {
                if *i >= prog.code.len() {
                    return Err(Error::new(ErrorKind::NotSupported, "No such function"));
                }
                let def = &prog.code[*i];
                let values = match self.eval_list(prog, defaults, depth) {
                    Ok(v) => v,
                    Err(k) => {
                        return Err(k);
                    },
                };
                let parameters = match build_signature(def.name.as_str(), &def.params, &values) {
                    Ok(p) => p,
                    Err(k) => {
                        return Err(k);
                    },
                };
                let captured = match self.capture(&def.parent) {
                    Ok(c) => c,
                    Err(k) => {
                        return Err(k);
                    },
                };
                self.alloc_object(
                    Object::Def(Def { name: def.name.clone(), parameters, code: *i, captured }),
                )
            },
            _ => Err(Error::new(ErrorKind::NotSupported, "Not supported")),
        }
    }

    fn run_def(
        &mut self,
        prog: &Program,
        code: usize,
        captured: Vec<(usize, Value)>,
        slots: Vec<Option<Value>>,
        depth: usize,
    ) -> (r: Result<Value, Error>)
        ensures
            done(
                final(self)@,
                r,
                old(self)@.run_def(*prog, code as int, captured@, slots@, depth as nat),
            ),
        decreases depth, 8nat,
    {
        if code >= prog.code.len() {
            return Err(Error::new(ErrorKind::NotSupported, "No such function"));
        }
        let def = &prog.code[code];
        let mut frame: Vec<ValueRef> = Vec::new();
        let mut i: usize = 0;
        while i < def.slots
            invariant
                i <= def.slots,
                frame.len() == i,
                forall|k: int|
                    0 <= k < i ==> #[trigger] frame@[k] == frame_base(def.slots as int, slots@)[k],
            decreases def.slots - i,
        {
            frame.push(
                if i < slots.len() {
                    ValueRef(slots[i])
                } else {
                    ValueRef(None)
                },
            );
            i += 1;
        }
        assert(frame@ =~= frame_base(def.slots as int, slots@));
        let mut j: usize = 0;
        while j < captured.len()
            invariant
                j <= captured.len(),
                frame_captured(frame_base(def.slots as int, slots@), captured@, 0)
                    == frame_captured(frame@, captured@, j as int),
            decreases captured.len() - j,
        {
            if captured[j].0 < frame.len() {
                frame[captured[j].0] = ValueRef(Some(captured[j].1));
            }
            j += 1;
        }
        let ghost before = self@;
        let ghost fv = frame@;
        self.frames.push(frame);
        assert(self@.frames =~= before.frames.push(fv));
        assert(self@.output =~= before.output);
        let r = self.eval(prog, &def.body, depth);
        let ghost after = self@;
        let _ = self.frames.pop();
        assert(self@.frames =~= if after.frames.len() > 0 {
            after.frames.drop_last()
        } else {
            after.frames
        });
        assert(self@.output =~= after.output);
        r
    }

    /// Calls `f` with the arguments `p`, with `depth` levels of calls left.
    pub fn invoke(&mut self, prog: &Program, f: Value, p: Parameters, depth: usize) -> (r: Result<
        Value,
        Error,
    >)
        ensures
            done(final(self)@, r, old(self)@.invoke(*prog, f, p@, depth as nat)),
        decreases depth, 9nat,
    {
        if self.cancelled {
            return Err(Error::new(ErrorKind::Cancelled, "The evaluation was cancelled"));
        }
        let this = p.this;
        let step = match self.mem.get_aref(f) {
            ARef::Object(Object::NativeFunction(nf)) => Step::Native(
                nf.function,
                self.mem.bind(&nf.parameters, &p),
            ),
            ARef::Object(Object::Def(d)) => Step::Def(
                d.code,
                copy_captured(&d.captured),
                self.mem.bind(&d.parameters, &p),
            ),
            ARef::Object(Object::BoundMethod(b)) => Step::Forward(
                b.method,
                Parameters {
                    this: Some(b.this),
                    pos: p.pos,
                    named: p.named,
                    names: p.names,
                    args: p.args,
                    kwargs: p.kwargs,
                },
            ),
            ARef::Object(Object::Partial(pt)) => {
                // Apply the partial arguments first, then the remaining arguments I was
                // given.
                let mut pos = crate::basics::copy_values(&pt.pos);
                let mut more_pos = p.pos;
                pos.append(&mut more_pos);
                let mut named = crate::basics::copy_values(&pt.named);
                let mut more_named = p.named;
                named.append(&mut more_named);
                let mut names = copy_names(&pt.names);
                let ghost first = names@;
                let mut more_names = p.names;
                let ghost second = more_names@;
                names.append(&mut more_names);
                assert(names_view(names@) =~= names_view(first) + names_view(second));
                Step::Forward(
                    pt.func,
                    Parameters { this: p.this, pos, named, names, args: p.args, kwargs: p.kwargs },
                )
            },
            ARef::Object(Object::EnumType(t)) => Step::Forward(
                t.constructor,
                Parameters {
                    this: Some(f),
                    pos: p.pos,
                    named: p.named,
                    names: p.names,
                    args: p.args,
                    kwargs: p.kwargs,
                },
            ),
            ARef::Object(Object::NativeAttribute(a)) => match p.this {
                // If someone tries to invoke us with a this, first unwind the call, then
                // continue onwards.
                Some(t) => Step::Access(self.mem.access(*a, t), p),
                None => Step::Fail(Error::new(ErrorKind::WrongType, "An attribute needs a receiver")),
            },
            _ => Step::Fail(self.mem.unsupported("call()", f)),
        };
        match step {
            Step::Native(function, bound) => match bound {
                Ok(b) => match self.mem.finish(b) {
                    Ok(slots) => self.call_builtin(prog, function, this, &slots, depth),
                    Err(k) => Err(k),
                },
                Err(k) => Err(k),
            },
            Step::Def(code, captured, bound) => match bound {
                Ok(b) => match self.mem.finish(b) {
                    Ok(slots) => self.run_def(prog, code, captured, slots, depth),
                    Err(k) => Err(k),
                },
                Err(k) => Err(k),
            },
            Step::Forward(g, q) => {
                if depth == 0 {
                    Err(deep())
                } else {
                    self.invoke(prog, g, q, depth - 1)
                }
            },
            Step::Access(me, q) => match me {
                Ok(g) => {
                    if depth == 0 {
                        Err(deep())
                    } else {
                        self.invoke(prog, g, q, depth - 1)
                    }
                },
                Err(k) => Err(k),
            },
            Step::Fail(k) => Err(k),
        }
    }
}

/// A native function that can be evaluated: from the slots of a call to a value.
pub trait NativeFunc {
    /// The outcome of the function on the slots of a call in a state.
    spec fn outcome(
        &self,
        st: State,
        prog: Program,
        this: Option<Value>,
        slots: Seq<Option<Value>>,
        depth: nat,
    ) -> Outcome;

    /// Runs the function on the slots of a call.
    fn call(
        &self,
        eval: &mut Evaluator,
        prog: &Program,
        this: Option<Value>,
        slots: &Vec<Option<Value>>,
        depth: usize,
    ) -> (r: Result<Value, Error>)
        ensures
            done(final(eval)@, r, self.outcome(old(eval)@, *prog, this, slots@, depth as nat)),
    ;
}

impl NativeFunc for Builtin {
    open spec fn outcome(
        &self,
        st: State,
        prog: Program,
        this: Option<Value>,
        slots: Seq<Option<Value>>,
        depth: nat,
    ) -> Outcome {
        st.call_builtin(prog, *self, this, slots, depth)
    }

    fn call(
        &self,
        eval: &mut Evaluator,
        prog: &Program,
        this: Option<Value>,
        slots: &Vec<Option<Value>>,
        depth: usize,
    ) -> (r: Result<Value, Error>) {
        eval.call_builtin(prog, *self, this, slots, depth)
    }
}

/// A copy of captured variables.
fn copy_captured(v: &Vec<(usize, Value)>) -> (out: Vec<(usize, Value)>)
    ensures
        out@ == v@,
{
    let mut out: Vec<(usize, Value)> = Vec::new();
    let mut i: usize = 0;
    while i < v.len()
        invariant
            i <= v.len(),
            out@ == v@.take(i as int),
        decreases v.len() - i,
    {
        out.push(v[i]);
        i += 1;
        assert(v@.take(i as int) == v@.take(i - 1).push(v@[i - 1]));
    }
    assert(v@.take(v.len() as int) == v@);
    out
}

impl Evaluator {
    /// Calls a built-in function on the slots of a call.
    pub fn call_builtin(
        &mut self,
        prog: &Program,
        b: Builtin,
        this: Option<Value>,
        slots: &Vec<Option<Value>>,
        depth: usize,
    ) -> (r: Result<Value, Error>)
        ensures
            done(final(self)@, r, old(self)@.call_builtin(*prog, b, this, slots@, depth as nat)),
        decreases depth, 7nat,
    {
        match b {
            Builtin::MapEach => self.builtin_map(prog, slots, depth),
            Builtin::Filter => self.builtin_filter(prog, slots, depth),
            Builtin::Sorted => self.builtin_sorted(prog, slots, depth),
            Builtin::Max => self.builtin_extreme(prog, slots, Order::Less, depth),
            Builtin::Min => self.builtin_extreme(prog, slots, Order::Greater, depth),
            _ => self.call_pure(prog, b, this, slots),
        }
    }

    /// Calls a built-in function that calls no function itself.
    pub fn call_pure(
        &mut self,
        prog: &Program,
        b: Builtin,
        this: Option<Value>,
        slots: &Vec<Option<Value>>,
    ) -> (r: Result<Value, Error>)
        ensures
            done(final(self)@, r, old(self)@.call_pure(*prog, b, this, slots@)),
    {
        match b {
            Builtin::Fail => self.mem.builtin_fail(slots),
            Builtin::Any => self.mem.builtin_any(slots),
            Builtin::All => self.mem.builtin_all(slots),
            Builtin::Bool => self.mem.builtin_bool(slots),
            Builtin::Ord => self.mem.builtin_ord(slots),
            Builtin::Hash => self.mem.builtin_hash(slots),
            Builtin::Int => self.mem.builtin_int(slots),
            Builtin::Len => self.mem.builtin_len(slots),
            Builtin::Abs => self.mem.builtin_abs(slots),
            Builtin::Chr => self.mem.builtin_chr(slots),
            Builtin::Range => self.mem.builtin_range(slots),
            Builtin::Repr => self.mem.builtin_repr(slots),
            Builtin::Json => self.mem.builtin_show(slots, crate::repr::Style::Json),
            Builtin::Debug => self.mem.builtin_show(slots, crate::repr::Style::Debug),
            Builtin::Str => self.mem.builtin_str(slots),
            Builtin::Type => self.mem.builtin_type(slots),
            Builtin::List => self.mem.builtin_list(slots),
            Builtin::Tuple => self.mem.builtin_tuple(slots),
            Builtin::Reversed => self.mem.builtin_reversed(slots),
            Builtin::Dedupe => self.mem.builtin_dedupe(slots),
            Builtin::Enumerate => self.mem.builtin_enumerate(slots),
            Builtin::Zip => self.mem.builtin_zip(slots),
            Builtin::Dict => self.mem.builtin_dict(slots),
            Builtin::Partial => self.mem.builtin_partial(slots),
            Builtin::Enum => self.mem.builtin_enum(slots),
            Builtin::ListAppend => self.mem.list_append(this, slots),
            Builtin::DictKeys => self.mem.dict_keys(this),
            Builtin::EnumConstructor => match crate::builtins::get_required(slots, 0, "value") {
                Ok(v) => self.mem.enum_value(this, v),
                Err(k) => Err(k),
            },
            Builtin::Print | Builtin::Getattr | Builtin::Hasattr | Builtin::Dir => self.call_inspect(
                prog,
                b,
                slots,
            ),
            _ => Err(Error::new(ErrorKind::NotSupported, "Not supported")),
        }
    }

    pub fn map_items(&mut self, prog: &Program, f: Value, items: &Vec<Value>, depth: usize) -> (r:
        Result<Vec<Value>, Error>)
        ensures
            done_with(
                final(self)@,
                r,
                |v: Vec<Value>| v@,
                old(self)@.map_from(*prog, f, items@, 0, Seq::empty(), depth as nat),
            ),
        decreases depth, 10nat,
    {
        let mut out: Vec<Value> = Vec::new();
        let mut i: usize = 0;
        while i < items.len()
            invariant
                i <= items.len(),
                old(self)@.map_from(*prog, f, items@, 0, Seq::empty(), depth as nat)
                    == self@.map_from(*prog, f, items@, i as int, out@, depth as nat),
            decreases items.len() - i,
        {
            match self.invoke(prog, f, positional_args(None, one(items[i])), depth) {
                Ok(v) => {
                    out.push(v);
                },
                Err(k) => {
                    return Err(k);
                },
            }
            i += 1;
        }
        Ok(out)
    }

    /// `map(f, x)`.
    pub fn builtin_map(&mut self, prog: &Program, slots: &Vec<Option<Value>>, depth: usize) -> (r:
        Result<Value, Error>)
        ensures
            done(final(self)@, r, old(self)@.builtin_map(*prog, slots@, depth as nat)),
        decreases depth, 2nat,
    {
        let f = crate::builtins::get_required(slots, 0, "func");
        let x = crate::builtins::get_required(slots, 1, "seq");
        let f = match f {
            Ok(f) => f,
            Err(k) => {
                return Err(k);
            },
        };
        let x = match x {
            Ok(x) => x,
            Err(k) => {
                return Err(k);
            },
        };
        let items = match self.mem.iterate(x) {
            Ok(items) => items,
            Err(k) => {
                return Err(k);
            },
        };
        if depth == 0 {
            return Err(deep());
        }
        self.mem.lock_read(x);
        let r = self.map_items(prog, f, &items, depth - 1);
        self.mem.unlock_read(x);
        match r {
            Ok(vs) => self.alloc_object(Object::List(vs)),
            Err(k) => Err(k),
        }
    }

    fn filter_items(&mut self, prog: &Program, f: Value, items: &Vec<Value>, depth: usize) -> (r:
        Result<Vec<Value>, Error>)
        ensures
            done_with(
                final(self)@,
                r,
                |v: Vec<Value>| v@,
                old(self)@.filter_from(*prog, f, items@, 0, Seq::empty(), depth as nat),
            ),
        decreases depth, 10nat,
    {
        let mut out: Vec<Value> = Vec::new();
        let mut i: usize = 0;
        while i < items.len()
            invariant
                i <= items.len(),
                old(self)@.filter_from(*prog, f, items@, 0, Seq::empty(), depth as nat)
                    == self@.filter_from(*prog, f, items@, i as int, out@, depth as nat),
            decreases items.len() - i,
        {
            let v = items[i];
            if f.is_none() {
                if self.mem.to_bool(v) {
                    out.push(v);
                }
            } else {
                match self.invoke(prog, f, positional_args(None, one(v)), depth) {
                    Ok(keep) => {
                        if self.mem.to_bool(keep) {
                            out.push(v);
                        }
                    },
                    Err(k) => {
                        return Err(k);
                    },
                }
            }
            i += 1;
        }
        Ok(out)
    }

    /// `filter(f, x)`.
    pub fn builtin_filter(&mut self, prog: &Program, slots: &Vec<Option<Value>>, depth: usize) -> (r:
        Result<Value, Error>)
        ensures
            done(final(self)@, r, old(self)@.builtin_filter(*prog, slots@, depth as nat)),
        decreases depth, 2nat,
    {
        let f = crate::builtins::get_required(slots, 0, "func");
        let x = crate::builtins::get_required(slots, 1, "seq");
        let f = match f {
            Ok(f) => f,
            Err(k) => {
                return Err(k);
            },
        };
        let x = match x {
            Ok(x) => x,
            Err(k) => {
                return Err(k);
            },
        };
        let items = match self.mem.iterate(x) {
            Ok(items) => items,
            Err(k) => {
                return Err(k);
            },
        };
        if depth == 0 {
            return Err(deep());
        }
        self.mem.lock_read(x);
        let r = self.filter_items(prog, f, &items, depth - 1);
        self.mem.unlock_read(x);
        match r {
            Ok(vs) => self.alloc_object(Object::List(vs)),
            Err(k) => Err(k),
        }
    }
}

/// Does the comparison `c` hold of the order `o`?
pub fn holds_exec(c: Comparison, o: Order) -> (r: bool)
    ensures
        r == holds(c, o),
{
    match c {
        Comparison::Less => match o {
            Order::Less => true,
            _ => false,
        },
        Comparison::Greater => match o {
            Order::Greater => true,
            _ => false,
        },
        Comparison::LessOrEqual => match o {
            Order::Greater => false,
            _ => true,
        },
        Comparison::GreaterOrEqual => match o {
            Order::Less => false,
            _ => true,
        },
    }
}

} // verus!
