//! The built-in functions that look at the attributes of values, and `print`.
use vstd::prelude::*;
use crate::builtins::{arg, get_arg, get_required, required};
use crate::equality::{text_order, text_order_from, Order};
use crate::errors::{faults, raised, unpinned, Error, ErrorKind, Fault};
use crate::eval::{done, Outcome};
use crate::heap::{ARef, Entry, Memory, Store, Target};
use crate::object::{BoundMethodGen, Obj, Object};
use crate::state::{Evaluator, Globals, Program, State};
use crate::text::{join, joined};
use crate::value::Value;

verus! {

/// The texts `sorted` with `x` put in: after every text that is not greater.
pub open spec fn insert_text(sorted: Seq<Seq<char>>, x: Seq<char>, at: int) -> Seq<Seq<char>>
    decreases at,
{
    if at <= 0 || at > sorted.len() {
        seq![x] + sorted
    } else if text_order_from(sorted[at - 1], x, 0) == Order::Greater {
        insert_text(sorted, x, at - 1)
    } else {
        sorted.take(at) + seq![x] + sorted.skip(at)
    }
}

/// The texts `texts[i..]` put one by one into `acc`, which is in order.
pub open spec fn sort_texts_from(texts: Seq<Seq<char>>, i: int, acc: Seq<Seq<char>>) -> Seq<
    Seq<char>,
>
    decreases texts.len() - i,
{
    if i < 0 || i >= texts.len() {
        acc
    } else {
        sort_texts_from(texts, i + 1, insert_text(acc, texts[i], acc.len() as int))
    }
}

/// The texts in order.
pub open spec fn sort_texts(texts: Seq<Seq<char>>) -> Seq<Seq<char>> {
    sort_texts_from(texts, 0, Seq::empty())
}

impl Globals {
    /// The names of the methods of the type `typ` among the first `n` methods, after `acc`.
    pub open spec fn member_names_from(self, typ: Seq<char>, i: int, acc: Seq<Seq<char>>) -> Seq<
        Seq<char>,
    >
        decreases self.members.len() - i,
    {
        if i < 0 || i >= self.members.len() {
            acc
        } else if self.members@[i].0@ == typ {
            self.member_names_from(typ, i + 1, acc.push(self.members@[i].1@))
        } else {
            self.member_names_from(typ, i + 1, acc)
        }
    }

    /// The names of the methods of the type `typ`.
    pub fn member_names(&self, typ: &str) -> (r: Vec<String>)
        ensures
            r.deep_view() == self.member_names_from(typ@, 0, Seq::empty()),
    {
        let mut out: Vec<String> = Vec::new();
        let mut i: usize = 0;
        assert(out.deep_view() =~= Seq::<Seq<char>>::empty());
        while i < self.members.len()
            invariant
                i <= self.members.len(),
                self.member_names_from(typ@, 0, Seq::empty()) == self.member_names_from(
                    typ@,
                    i as int,
                    out.deep_view(),
                ),
            decreases self.members.len() - i,
        {
            if crate::text::same_text(self.members[i].0.as_str(), typ) {
                let ghost before = out.deep_view();
                out.push(self.members[i].1.clone());
                assert(out.deep_view() =~= before.push(self.members@[i as int].1@));
            }
            i += 1;
        }
        out
    }
}

/// The texts in order.
pub fn sort_strings(texts: Vec<String>) -> (r: Vec<String>)
    ensures
        r.deep_view() == sort_texts(texts.deep_view()),
{
    let mut texts = texts;
    let ghost all = texts.deep_view();
    let mut out: Vec<String> = Vec::new();
    let n = texts.len();
    let mut i: usize = 0;
    assert(out.deep_view() =~= Seq::<Seq<char>>::empty());
    while i < n
        invariant
            i <= n,
            n == all.len(),
            texts.len() == n - i,
            forall|k: int| 0 <= k < n - i ==> (#[trigger] texts@[k])@ == all[i + k],
            sort_texts(all) == sort_texts_from(all, i as int, out.deep_view()),
        decreases n - i,
    {
        let x = texts.remove(0);
        assert(x@ == all[i as int]);
        let ghost sorted = out.deep_view();
        let mut at: usize = out.len();
        while at > 0 && is_greater(out[at - 1].as_str(), x.as_str())
            invariant
                at <= out.len(),
                sorted == out.deep_view(),
                insert_text(sorted, x@, sorted.len() as int) == insert_text(sorted, x@, at as int),
            decreases at,
        {
            assert(sorted[at - 1] == out@[at - 1]@);
            at -= 1;
        }
        proof {
            if at > 0 {
                assert(sorted[at - 1] == out@[at - 1]@);
            }
        }
        out.insert(at, x);
        assert(out.deep_view() =~= insert_text(sorted, all[i as int], sorted.len() as int)) by {
            if at == 0 {
                assert(out.deep_view() =~= seq![all[i as int]] + sorted);
            } else {
                assert(out.deep_view() =~= sorted.take(at as int) + seq![all[i as int]]
                    + sorted.skip(at as int));
            }
        }
        i += 1;
    }
    out
}

fn is_greater(a: &str, b: &str) -> (r: bool)
    ensures
        r == (text_order_from(a@, b@, 0) == Order::Greater),
{
    match text_order(a, b) {
        Order::Greater => true,
        _ => false,
    }
}

impl Store {
    /// The texts of `items[i..]`, after `acc`.
    pub open spec fn texts_from(self, items: Seq<Value>, i: int, acc: Seq<Seq<char>>) -> Result<
        Seq<Seq<char>>,
        ErrorKind,
    >
        decreases items.len() - i,
    {
        if i < 0 || i >= items.len() {
            Ok(acc)
        } else {
            match self.to_str(items[i]) {
                Ok(t) => self.texts_from(items, i + 1, acc.push(t)),
                Err(k) => Err(k),
            }
        }
    }

    /// The store and the values after a string is allocated for each of `texts[i..]`.
    pub open spec fn alloc_texts_from(self, texts: Seq<Seq<char>>, i: int, acc: Seq<Value>) -> (
        Store,
        Seq<Value>,
    )
        decreases texts.len() - i,
    {
        if i < 0 || i >= texts.len() {
            (self, acc)
        } else {
            let (s, v) = self.allocate(Entry::Str(texts[i]));
            s.alloc_texts_from(texts, i + 1, acc.push(v))
        }
    }
}

impl State {
    /// `print(*args)`: a new line of output, the texts of the arguments with a blank
    /// between each two.
    pub open spec fn builtin_print(self, slots: Seq<Option<Value>>) -> Outcome {
        match self.store.items_of(slots, 0) {
            Err(k) => (self, Err(raised(k))),
            Ok(items) => match self.store.texts_from(items, 0, Seq::empty()) {
                Err(k) => (self, Err(raised(k))),
                Ok(texts) => (
                    State { output: self.output.push(joined(texts, " "@)), ..self },
                    Ok(Value::Nil),
                ),
            },
        }
    }

    /// `getattr(x, name, default)`: a method of the type of `x`, bound to `x` if it is a
    /// function and called if it is an accessor; else the attribute that `x` has of
    /// itself; else `default`, if given.
    pub open spec fn builtin_getattr(self, prog: Program, slots: Seq<Option<Value>>) -> Outcome {
        match (required(slots, 0), required(slots, 1)) {
            (Err(k), _) => (self, Err(raised(k))),
            (_, Err(k)) => (self, Err(raised(k))),
            (Ok(a), Ok(n)) => match self.store.target(n) {
                Target::Str(attr) => match prog.globals.member_spec(self.store.get_type(a), attr) {
                    Some(m) => {
                        let v = m.to_value_spec();
                        match self.store.target(v) {
                            Target::Object(Obj::Attribute(acc)) => (self, unpinned(self.store.access(acc, a))),
                            Target::Object(o) if o.kind_name() == "function"@ => self.alloc_entry(
                                Entry::Immutable(
                                    Obj::Bound(BoundMethodGen { method: v, this: a }),
                                ),
                            ),
                            _ => (self, Ok(v)),
                        }
                    },
                    None => {
                        let (s, r) = self.store.get_attr(a, attr);
                        match (r, arg(slots, 2)) {
                            (Some(v), _) => (self.with_store(s), Ok(v)),
                            (None, Some(d)) => (self.with_store(s), Ok(d)),
                            (None, None) => (self.with_store(s), Err(raised(ErrorKind::NotSupported))),
                        }
                    },
                },
                _ => (self, Err(raised(ErrorKind::WrongType))),
            },
        }
    }

    /// `hasattr(x, name)`: does the type of `x` have the method, or `x` the attribute?
    pub open spec fn builtin_hasattr(self, prog: Program, slots: Seq<Option<Value>>) -> Outcome {
        match (required(slots, 0), required(slots, 1)) {
            (Err(k), _) => (self, Err(raised(k))),
            (_, Err(k)) => (self, Err(raised(k))),
            (Ok(a), Ok(n)) => match self.store.target(n) {
                Target::Str(attr) => (
                    self,
                    Ok(
                        Value::Bool(
                            prog.globals.member_spec(self.store.get_type(a), attr) is Some
                                || self.store.has_attr(a, attr),
                        ),
                    ),
                ),
                _ => (self, Err(raised(ErrorKind::WrongType))),
            },
        }
    }

    /// `dir(x)`: a new list of new strings: the names of the methods of the type of `x`
    /// and of the attributes of `x`, in order.
    pub open spec fn builtin_dir(self, prog: Program, slots: Seq<Option<Value>>) -> Outcome {
        match required(slots, 0) {
            Err(k) => (self, Err(raised(k))),
            Ok(x) => {
                let names = sort_texts(
                    prog.globals.member_names_from(self.store.get_type(x), 0, Seq::empty())
                        + self.store.dir_attr(x),
                );
                let (s, values) = self.store.alloc_texts_from(names, 0, Seq::empty());
                self.with_store(s).alloc_entry(Entry::Mutable(0, Obj::List(values)))
            },
        }
    }

    /// The outcome of a built-in function that looks at attributes, or prints.
    pub open spec fn call_inspect(self, prog: Program, b: crate::object::Builtin, slots: Seq<Option<Value>>) -> Outcome {
        match b {
            crate::object::Builtin::Print => self.builtin_print(slots),
            crate::object::Builtin::Getattr => self.builtin_getattr(prog, slots),
            crate::object::Builtin::Hasattr => self.builtin_hasattr(prog, slots),
            _ => self.builtin_dir(prog, slots),
        }
    }
}

impl Memory {
    fn texts_of(&self, items: &Vec<Value>) -> (r: Result<Vec<String>, Error>)
        ensures
            match self@.texts_from(items@, 0, Seq::empty()) {
                Ok(texts) => r is Ok && r->Ok_0.deep_view() == texts,
                Err(k) => r is Err && r->Err_0.kind == k && r->Err_0.span is None,
            },
    {
        let mut out: Vec<String> = Vec::new();
        let mut i: usize = 0;
        assert(out.deep_view() =~= Seq::<Seq<char>>::empty());
        while i < items.len()
            invariant
                i <= items.len(),
                self@.texts_from(items@, 0, Seq::empty()) == self@.texts_from(
                    items@,
                    i as int,
                    out.deep_view(),
                ),
            decreases items.len() - i,
        {
            match self.to_str(items[i]) {
                Ok(t) => {
                    let ghost before = out.deep_view();
                    let ghost tv = t@;
                    out.push(t);
                    assert(out.deep_view() =~= before.push(tv));
                },
                Err(e) => {
                    return Err(e);
                },
            }
            i += 1;
        }
        Ok(out)
    }

    fn alloc_texts(&mut self, texts: Vec<String>) -> (r: Vec<Value>)
        ensures
            (final(self)@, r@) == old(self)@.alloc_texts_from(texts.deep_view(), 0, Seq::empty()),
    {
        let mut texts = texts;
        let ghost all = texts.deep_view();
        let n = texts.len();
        let mut out: Vec<Value> = Vec::new();
        let mut i: usize = 0;
        while i < n
            invariant
                i <= n,
                n == all.len(),
                texts.len() == n - i,
                forall|k: int| 0 <= k < n - i ==> (#[trigger] texts@[k])@ == all[i + k],
                old(self)@.alloc_texts_from(all, 0, Seq::empty()) == self@.alloc_texts_from(
                    all,
                    i as int,
                    out@,
                ),
            decreases n - i,
        {
            let t = texts.remove(0);
            assert(t@ == all[i as int]);
            let v = self.alloc_str(t);
            out.push(v);
            i += 1;
        }
        out
    }
}

impl Evaluator {
    /// `print(*args)`.
    pub fn builtin_print(&mut self, slots: &Vec<Option<Value>>) -> (r: Result<Value, Error>)
        ensures
            done(final(self)@, r, old(self)@.builtin_print(slots@)),
    {
        let items = match self.mem.items_of(slots, 0) {
            Ok(i) => i,
            Err(e) => {
                return Err(e);
            },
        };
        let texts = match self.mem.texts_of(&items) {
            Ok(t) => t,
            Err(e) => {
                return Err(e);
            },
        };
        let line = join(&texts, " ");
        let ghost before = self@;
        let ghost text = line@;
        self.output.push(line);
        assert(self@.output =~= before.output.push(text));
        assert(self@.frames =~= before.frames);
        Ok(Value::Nil)
    }

    /// `getattr(x, name, default)`.
    pub fn builtin_getattr(&mut self, prog: &Program, slots: &Vec<Option<Value>>) -> (r: Result<
        Value,
        Error,
    >)
        ensures
            done(final(self)@, r, old(self)@.builtin_getattr(*prog, slots@)),
    {
        let a = get_required(slots, 0, "a");
        let n = get_required(slots, 1, "attr");
        let a = match a {
            Ok(a) => a,
            Err(e) => {
                return Err(e);
            },
        };
        let n = match n {
            Ok(n) => n,
            Err(e) => {
                return Err(e);
            },
        };
        let attr = match self.mem.unpack_str(n) {
            Some(s) => s.clone(),
            None => {
                return Err(crate::builtins::mismatch(&self.mem, "attr", "string", n));
            },
        };
        // Make sure we check the methods of the type first, to be consistent with `a.f`.
        match prog.globals.member(self.mem.get_type(a), attr.as_str()) {
            Some(m) => {
                let v = m.to_value();
                let (accessor, is_function) = match self.mem.get_aref(v) {
                    ARef::Object(Object::NativeAttribute(acc)) => (Some(*acc), false),
                    ARef::Object(o) => (
                        None,
                        crate::text::same_text(o.get_type(), crate::function::FUNCTION_TYPE),
                    ),
                    _ => (None, false),
                };
                match accessor {
                    Some(acc) => self.mem.access(acc, a),
                    None => {
                        if is_function {
                            // Insert self so the method see the object it is acting on.
                            self.alloc_object(Object::BoundMethod(BoundMethodGen::new(a, v)))
                        } else {
                            Ok(v)
                        }
                    },
                }
            },
            None => match (self.mem.get_attr(a, attr.as_str()), get_arg(slots, 2)) {
                (Some(v), _) => Ok(v),
                (None, Some(d)) => Ok(d),
                (None, None) => {
                    let mut shown = crate::text::owned(".");
                    vstd::string::StringExecFns::append(&mut shown, attr.as_str());
                    Err(self.mem.unsupported(shown.as_str(), a))
                },
            },
        }
    }

    /// `hasattr(x, name)`.
    pub fn builtin_hasattr(&mut self, prog: &Program, slots: &Vec<Option<Value>>) -> (r: Result<
        Value,
        Error,
    >)
        ensures
            done(final(self)@, r, old(self)@.builtin_hasattr(*prog, slots@)),
    {
        let a = get_required(slots, 0, "a");
        let n = get_required(slots, 1, "attr");
        let a = match a {
            Ok(a) => a,
            Err(e) => {
                return Err(e);
            },
        };
        let n = match n {
            Ok(n) => n,
            Err(e) => {
                return Err(e);
            },
        };
        match self.mem.unpack_str(n) {
            Some(attr) => {
                if prog.globals.member(self.mem.get_type(a), attr.as_str()).is_some() {
                    Ok(Value::Bool(true))
                } else {
                    Ok(Value::Bool(self.mem.has_attr(a, attr.as_str())))
                }
            },
            None => Err(crate::builtins::mismatch(&self.mem, "attr", "string", n)),
        }
    }

    /// `dir(x)`.
    pub fn builtin_dir(&mut self, prog: &Program, slots: &Vec<Option<Value>>) -> (r: Result<
        Value,
        Error,
    >)
        ensures
            done(final(self)@, r, old(self)@.builtin_dir(*prog, slots@)),
    {
        let x = match get_required(slots, 0, "x") {
            Ok(x) => x,
            Err(e) => {
                return Err(e);
            },
        };
        let mut result = prog.globals.member_names(self.mem.get_type(x));
        let mut own = self.mem.dir_attr(x);
        let ghost first = result.deep_view();
        let ghost second = own.deep_view();
        result.append(&mut own);
        assert(result.deep_view() =~= first + second);
        let names = sort_strings(result);
        let values = self.mem.alloc_texts(names);
        self.alloc_object(Object::List(values))
    }

    /// Calls a built-in function that looks at attributes, or prints.
    pub fn call_inspect(&mut self, prog: &Program, b: crate::object::Builtin, slots: &Vec<Option<Value>>) -> (r: Result<Value, Error>)
        ensures
            done(final(self)@, r, old(self)@.call_inspect(*prog, b, slots@)),
    {
        match b {
            crate::object::Builtin::Print => self.builtin_print(slots),
            crate::object::Builtin::Getattr => self.builtin_getattr(prog, slots),
            crate::object::Builtin::Hasattr => self.builtin_hasattr(prog, slots),
            _ => self.builtin_dir(prog, slots),
        }
    }
}

} // verus!
