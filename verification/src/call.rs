//! The caller's side of a call, and the binding of its arguments on the heap.
use vstd::prelude::*;
use crate::errors::{Error, ErrorKind};
use crate::heap::{ARef, Entry, Memory, Store, Target};
use crate::object::{seconds, Obj, Object};
use crate::params::{
    bind_named, bind_positional, binding_start, finish, finish_slots, missing_required,
    names_view, Binding, ParameterKind, ParametersSpec, Signature, Slots,
};
use crate::value::Value;

verus! {

/// What a caller passes: the receiver of a method call, the positional arguments, the named
/// arguments with their names, and the values of `*args` and `**kwargs`.
#[derive(Debug)]
pub struct Parameters {
    pub this: Option<Value>,
    pub pos: Vec<Value>,
    pub named: Vec<Value>,
    /// For each named argument: its name, and its name as a string value.
    pub names: Vec<(String, Value)>,
    pub args: Option<Value>,
    pub kwargs: Option<Value>,
}

/// The content of [`Parameters`].
pub struct Params {
    pub this: Option<Value>,
    pub pos: Seq<Value>,
    pub named: Seq<Value>,
    pub names: Seq<(Seq<char>, Value)>,
    pub args: Option<Value>,
    pub kwargs: Option<Value>,
}

impl View for Parameters {
    type V = Params;

    open spec fn view(&self) -> Params {
        Params {
            this: self.this,
            pos: self.pos@,
            named: self.named@,
            names: names_view(self.names@),
            args: self.args,
            kwargs: self.kwargs,
        }
    }
}

/// The entries of the `**kwargs` dictionary: the key and the value of each extra argument.
pub open spec fn sink_entries(extra: Seq<(Seq<char>, Value, Value)>) -> Seq<(Value, Value)> {
    Seq::new(extra.len(), |i: int| (extra[i].1, extra[i].2))
}

impl Store {
    /// The names of the entries `d[i..]` of a `**kwargs` dictionary, after `acc`: each key
    /// must be a string.
    pub open spec fn kwargs_names_from(
        self,
        d: Seq<(Value, Value)>,
        i: int,
        acc: Seq<(Seq<char>, Value)>,
    ) -> Result<Seq<(Seq<char>, Value)>, ErrorKind>
        decreases d.len() - i,
    {
        if i < 0 || i >= d.len() {
            Ok(acc)
        } else {
            match self.target(d[i].0) {
                Target::Str(s) => self.kwargs_names_from(d, i + 1, acc.push((s, d[i].0))),
                _ => Err(ErrorKind::WrongType),
            }
        }
    }

    /// The arguments bound to slots, before defaults: the positional ones, the named ones,
    /// the items of `*args` as further positional ones, and the entries of `**kwargs` as
    /// further named ones, in this order.
    pub open spec fn bind(self, sig: Signature, p: Params) -> Result<Binding, ErrorKind> {
        match bind_positional(sig, binding_start(sig), p.pos, 0) {
            Err(k) => Err(k),
            Ok(b1) => match bind_named(sig, b1, p.names, p.named, 0) {
                Err(k) => Err(k),
                Ok(b2) => match self.bind_args(sig, b2, p.args) {
                    Err(k) => Err(k),
                    Ok(b3) => self.bind_kwargs(sig, b3, p.kwargs),
                },
            },
        }
    }

    /// Binds the items of the `*args` value, if there is one.
    pub open spec fn bind_args(self, sig: Signature, b: Binding, args: Option<Value>) -> Result<
        Binding,
        ErrorKind,
    > {
        match args {
            None => Ok(b),
            Some(a) => match self.iterate(a) {
                Ok(items) => bind_positional(sig, b, items, 0),
                Err(k) => Err(k),
            },
        }
    }

    /// Binds the entries of the `**kwargs` value, if there is one. It must be a dictionary
    /// with strings for keys.
    pub open spec fn bind_kwargs(self, sig: Signature, b: Binding, kwargs: Option<Value>) -> Result<
        Binding,
        ErrorKind,
    > {
        match kwargs {
            None => Ok(b),
            Some(k) => match self.target(k) {
                Target::Object(Obj::Dict(d)) => match self.kwargs_names_from(d, 0, Seq::empty()) {
                    Ok(names) => bind_named(sig, b, names, seconds(d), 0),
                    Err(e) => Err(e),
                },
                _ => Err(ErrorKind::WrongType),
            },
        }
    }

    /// The store and the slot vector after binding `p` to `sig`. The sinks that `sig` has
    /// are allocated: a tuple for `*args`, then a dictionary for `**kwargs`.
    pub open spec fn collect(self, sig: Signature, p: Params) -> (
        Store,
        Result<Seq<Option<Value>>, ErrorKind>,
    ) {
        match self.bind(sig, p) {
            Err(k) => (self, Err(k)),
            Ok(b) => if missing_required(sig.kinds, b) || b.slots.len() != sig.kinds.len() {
                (self, Err(ErrorKind::MissingRequired))
            } else {
                let (s1, args_sink) = if sig.args is Some {
                    self.allocate(Entry::Immutable(Obj::Tuple(b.extra_pos)))
                } else {
                    (self, Value::Nil)
                };
                let (s2, kwargs_sink) = if sig.kwargs is Some {
                    s1.allocate(Entry::Mutable(0, Obj::Dict(sink_entries(b.extra_named))))
                } else {
                    (s1, Value::Nil)
                };
                (s2, finish(sig.kinds, b, args_sink, kwargs_sink))
            },
        }
    }
}

/// What a call needs of a signature once the arguments are bound.
pub struct Bound {
    pub slots: Slots,
    pub kinds: Vec<ParameterKind>,
    pub has_args: bool,
    pub has_kwargs: bool,
}

impl Memory {
    /// The names of the entries of a `**kwargs` dictionary: each key must be a string.
    pub fn kwargs_names_of(&self, d: &Vec<(Value, Value)>) -> (r: Result<Vec<(String, Value)>, Error>)
        ensures
            match self@.kwargs_names_from(d@, 0, Seq::empty()) {
                Ok(names) => r is Ok && names_view(r->Ok_0@) == names,
                Err(k) => r is Err && r->Err_0.kind == k && r->Err_0.span is None,
            },
    {
        let mut out: Vec<(String, Value)> = Vec::new();
        let mut i: usize = 0;
        assert(names_view(out@) =~= Seq::empty());
        while i < d.len()
            invariant
                i <= d.len(),
                self@.kwargs_names_from(d@, 0, Seq::empty()) == self@.kwargs_names_from(
                    d@,
                    i as int,
                    names_view(out@),
                ),
            decreases d.len() - i,
        {
            let ghost before = names_view(out@);
            match self.unpack_str(d[i].0) {
                Some(s) => {
                    out.push((s.clone(), d[i].0));
                    assert(names_view(out@) =~= before.push((s@, d@[i as int].0)));
                },
                None => {
                    return Err(
                        Error::new(ErrorKind::WrongType, "Keyword arguments must be strings"),
                    );
                },
            }
            i += 1;
        }
        Ok(out)
    }

    /// Binds the arguments `p` to the parameters `spec`, before defaults.
    pub fn bind(&self, spec: &ParametersSpec, p: &Parameters) -> (r: Result<Bound, Error>)
        ensures
            match self@.bind(spec@, p@) {
                Ok(b) => r is Ok && r->Ok_0.slots@ == b && r->Ok_0.kinds@ == spec@.kinds
                    && r->Ok_0.has_args == (spec@.args is Some) && r->Ok_0.has_kwargs == (
                spec@.kwargs is Some),
                Err(k) => r is Err && r->Err_0.kind == k && r->Err_0.span is None,
            },
    {
        let mut b = spec.start();
        match spec.bind_positional(&mut b, &p.pos) {
            Ok(()) => {},
            Err(e) => {
                return Err(e);
            },
        }
        match spec.bind_named(&mut b, &p.names, &p.named) {
            Ok(()) => {},
            Err(e) => {
                return Err(e);
            },
        }
        match p.args {
            None => {},
            Some(a) => match self.iterate(a) {
                Ok(items) => match spec.bind_positional(&mut b, &items) {
                    Ok(()) => {},
                    Err(e) => {
                        return Err(e);
                    },
                },
                Err(e) => {
                    return Err(e);
                },
            },
        }
        match p.kwargs {
            None => {},
            Some(k) => match self.get_aref(k) {
                ARef::Object(Object::Dict(d)) => match self.kwargs_names_of(d) {
                    Ok(names) => {
                        let values = crate::basics::copy_seconds(d);
                        match spec.bind_named(&mut b, &names, &values) {
                            Ok(()) => {},
                            Err(e) => {
                                return Err(e);
                            },
                        }
                    },
                    Err(e) => {
                        return Err(e);
                    },
                },
                _ => {
                    return Err(
                        Error::new(ErrorKind::WrongType, "The argument for ** is no dictionary"),
                    );
                },
            },
        }
        Ok(
            Bound {
                slots: b,
                kinds: spec.kinds_copy(),
                has_args: spec.args.is_some(),
                has_kwargs: spec.kwargs.is_some(),
            },
        )
    }

    /// Allocates the sinks and fills the defaults in: the slot vector of the call.
    pub fn finish(&mut self, b: Bound) -> (r: Result<Vec<Option<Value>>, Error>)
        ensures
            ({
                let s = old(self)@;
                let bv = b.slots@;
                if missing_required(b.kinds@, bv) || bv.slots.len() != b.kinds@.len() {
                    final(self)@ == s && r is Err && r->Err_0.kind == ErrorKind::MissingRequired
                        && r->Err_0.span is None
                } else {
                    let (s1, args_sink) = if b.has_args {
                        s.allocate(Entry::Immutable(Obj::Tuple(bv.extra_pos)))
                    } else {
                        (s, Value::Nil)
                    };
                    let (s2, kwargs_sink) = if b.has_kwargs {
                        s1.allocate(Entry::Mutable(0, Obj::Dict(sink_entries(bv.extra_named))))
                    } else {
                        (s1, Value::Nil)
                    };
                    final(self)@ == s2 && r is Ok && Ok::<Seq<Option<Value>>, ErrorKind>(r->Ok_0@)
                        == finish(b.kinds@, bv, args_sink, kwargs_sink)
                }
            }),
    {
        match finish_slots(&b.kinds, &b.slots, Value::Nil, Value::Nil) {
            Ok(_) => {},
            Err(e) => {
                return Err(e);
            },
        }
        let args_sink = if b.has_args {
            let items = crate::basics::copy_values(&b.slots.extra_pos);
            self.alloc_object(Object::Tuple(items))
        } else {
            Value::Nil
        };
        let kwargs_sink = if b.has_kwargs {
            let mut entries: Vec<(Value, Value)> = Vec::new();
            let mut i: usize = 0;
            while i < b.slots.extra_named.len()
                invariant
                    i <= b.slots.extra_named.len(),
                    entries@ == sink_entries(b.slots@.extra_named).take(i as int),
                decreases b.slots.extra_named.len() - i,
            {
                entries.push((b.slots.extra_named[i].1, b.slots.extra_named[i].2));
                i += 1;
                assert(sink_entries(b.slots@.extra_named).take(i as int) == sink_entries(
                    b.slots@.extra_named,
                ).take(i - 1).push(sink_entries(b.slots@.extra_named)[i - 1]));
            }
            assert(sink_entries(b.slots@.extra_named).take(i as int) == sink_entries(
                b.slots@.extra_named,
            ));
            self.alloc_object(Object::Dict(entries))
        } else {
            Value::Nil
        };
        finish_slots(&b.kinds, &b.slots, args_sink, kwargs_sink)
    }
}

} // verus!
