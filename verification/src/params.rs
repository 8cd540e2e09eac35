//! The parameter protocol: what a callable accepts, what a caller passes, and how the one
//! is bound to the other.
use vstd::prelude::*;
use crate::errors::{Error, ErrorKind};
use crate::text::same_text;
use crate::value::Value;

verus! {

/// How one parameter of a callable is filled when the caller does not pass it.
#[derive(Clone, Copy, PartialEq, Eq, Structural, Debug)]
pub enum ParameterKind {
    /// The caller must pass it.
    Required,
    /// It may stay unset.
    Optional,
    /// It takes this value.
    Defaulted(Value),
    /// The `*args` sink: it takes the positional arguments that are left over.
    Args,
    /// The `**kwargs` sink: it takes the named arguments that no parameter has.
    KWargs,
}

/// The parameters of a callable, in declaration order. The parameter at index `i` is bound
/// to slot `i`.
#[derive(Debug)]
pub struct ParametersSpec {
    pub function_name: String,
    pub kinds: Vec<ParameterKind>,
    pub names: Vec<String>,
    /// How many of the leading parameters can be passed by position.
    pub positional: usize,
    pub args: Option<usize>,
    pub kwargs: Option<usize>,
}

/// The mathematical content of a [`ParametersSpec`].
pub struct Signature {
    pub function_name: Seq<char>,
    pub kinds: Seq<ParameterKind>,
    pub names: Seq<Seq<char>>,
    pub positional: int,
    pub args: Option<int>,
    pub kwargs: Option<int>,
}

impl Signature {
    /// Is this a consistent description: a name for each parameter, the positional ones
    /// first, and the sinks where the indices say.
    pub open spec fn wf(self) -> bool {
        &&& self.names.len() == self.kinds.len()
        &&& 0 <= self.positional <= self.kinds.len()
        &&& self.args is Some ==> 0 <= self.args.unwrap() < self.kinds.len()
        &&& self.kwargs is Some ==> 0 <= self.kwargs.unwrap() < self.kinds.len()
        &&& forall|i: int|
            0 <= i < self.kinds.len() ==> ((#[trigger] self.kinds[i] is Args) <==> self.args
                == Some(i))
        &&& forall|i: int|
            0 <= i < self.kinds.len() ==> ((#[trigger] self.kinds[i] is KWargs) <==> self.kwargs
                == Some(i))
        &&& forall|i: int|
            0 <= i < self.positional ==> !(#[trigger] self.kinds[i] is Args)
                && !(self.kinds[i] is KWargs)
    }

    /// Can the parameter at `i` be passed by name `name`: it has that name and is no sink.
    pub open spec fn named_at(self, i: int, name: Seq<char>) -> bool {
        &&& 0 <= i < self.names.len()
        &&& i < self.kinds.len()
        &&& self.names[i] == name
        &&& !(self.kinds[i] is Args)
        &&& !(self.kinds[i] is KWargs)
    }

    /// The first parameter at or after `from` that can be passed by name `name`.
    pub open spec fn find_from(self, name: Seq<char>, from: int) -> Option<int>
        decreases self.names.len() - from,
    {
        if from < 0 || from >= self.names.len() {
            None
        } else if self.named_at(from, name) {
            Some(from)
        } else {
            self.find_from(name, from + 1)
        }
    }

    /// The slot of the parameter named `name`, if there is one.
    pub open spec fn find(self, name: Seq<char>) -> Option<int> {
        self.find_from(name, 0)
    }
}

impl View for ParametersSpec {
    type V = Signature;

    open spec fn view(&self) -> Signature {
        Signature {
            function_name: self.function_name@,
            kinds: self.kinds@,
            names: self.names.deep_view(),
            positional: self.positional as int,
            args: match self.args {
                Some(i) => Some(i as int),
                None => None,
            },
            kwargs: match self.kwargs {
                Some(i) => Some(i as int),
                None => None,
            },
        }
    }
}

/// Arguments on their way into slots.
pub struct Binding {
    /// The slots, each filled at most once so far.
    pub slots: Seq<Option<Value>>,
    /// The positional arguments beyond the positional parameters, for `*args`.
    pub extra_pos: Seq<Value>,
    /// The named arguments that no parameter has, for `**kwargs`: the name, the name as a
    /// string value, and the argument.
    pub extra_named: Seq<(Seq<char>, Value, Value)>,
    /// How many positional arguments have gone into slots.
    pub next: int,
}

/// The state before any argument is bound: every slot empty.
pub open spec fn binding_start(sig: Signature) -> Binding {
    Binding {
        slots: Seq::new(sig.kinds.len(), |i: int| None),
        extra_pos: Seq::empty(),
        extra_named: Seq::empty(),
        next: 0,
    }
}

/// Binds one more positional argument: to the next positional parameter, else to `*args`.
/// Fails if the slot was taken by name, or if there is neither a slot nor a sink.
pub open spec fn bind_one_positional(sig: Signature, b: Binding, v: Value) -> Result<
    Binding,
    ErrorKind,
> {
    if b.next < sig.positional && b.next < b.slots.len() {
        if b.slots[b.next] is Some {
            Err(ErrorKind::DuplicateNamedArgument)
        } else {
            Ok(Binding { slots: b.slots.update(b.next, Some(v)), next: b.next + 1, ..b })
        }
    } else if sig.args is Some {
        Ok(Binding { extra_pos: b.extra_pos.push(v), ..b })
    } else {
        Err(ErrorKind::TooManyPositional)
    }
}

/// Binds the positional arguments `pos[from..]`, left to right.
pub open spec fn bind_positional(sig: Signature, b: Binding, pos: Seq<Value>, from: int) -> Result<
    Binding,
    ErrorKind,
>
    decreases pos.len() - from,
{
    if from < 0 || from >= pos.len() {
        Ok(b)
    } else {
        match bind_one_positional(sig, b, pos[from]) {
            Ok(b2) => bind_positional(sig, b2, pos, from + 1),
            Err(e) => Err(e),
        }
    }
}

/// Is `name` among the names of `named`?
pub open spec fn has_name(named: Seq<(Seq<char>, Value, Value)>, name: Seq<char>) -> bool {
    exists|i: int| 0 <= i < named.len() && (#[trigger] named[i]).0 == name
}

/// Binds one named argument: to the parameter of that name, else to `**kwargs`. Fails if
/// the slot is taken or the name was passed before, or if there is neither.
pub open spec fn bind_one_named(
    sig: Signature,
    b: Binding,
    name: Seq<char>,
    key: Value,
    v: Value,
) -> Result<Binding, ErrorKind> {
    match sig.find(name) {
        Some(i) if 0 <= i < b.slots.len() => {
            if b.slots[i] is Some {
                Err(ErrorKind::DuplicateNamedArgument)
            } else {
                Ok(Binding { slots: b.slots.update(i, Some(v)), ..b })
            }
        },
        _ => {
            if sig.kwargs is None {
                Err(ErrorKind::UnexpectedNamed)
            } else if has_name(b.extra_named, name) {
                Err(ErrorKind::DuplicateNamedArgument)
            } else {
                Ok(Binding { extra_named: b.extra_named.push((name, key, v)), ..b })
            }
        },
    }
}

/// Binds the named arguments `values[from..]`, left to right; `names[i]` holds the name of
/// `values[i]`, as text and as a string value.
pub open spec fn bind_named(
    sig: Signature,
    b: Binding,
    names: Seq<(Seq<char>, Value)>,
    values: Seq<Value>,
    from: int,
) -> Result<Binding, ErrorKind>
    decreases values.len() - from,
{
    if from < 0 || from >= values.len() || from >= names.len() {
        Ok(b)
    } else {
        match bind_one_named(sig, b, names[from].0, names[from].1, values[from]) {
            Ok(b2) => bind_named(sig, b2, names, values, from + 1),
            Err(e) => Err(e),
        }
    }
}

/// Is a required parameter still without a value?
pub open spec fn missing_required(kinds: Seq<ParameterKind>, b: Binding) -> bool {
    exists|i: int|
        0 <= i < kinds.len() && i < b.slots.len() && (#[trigger] kinds[i])
            == ParameterKind::Required && b.slots[i] is None
}

/// The slot at `i` once the defaults are in: what was bound, else the default, else the sink.
pub open spec fn finished_slot(
    kinds: Seq<ParameterKind>,
    b: Binding,
    args_sink: Value,
    kwargs_sink: Value,
    i: int,
) -> Option<Value> {
    match b.slots[i] {
        Some(v) => Some(v),
        None => match kinds[i] {
            ParameterKind::Defaulted(d) => Some(d),
            ParameterKind::Args => Some(args_sink),
            ParameterKind::KWargs => Some(kwargs_sink),
            _ => None,
        },
    }
}

/// The slot vector: fails if a required parameter is missing.
pub open spec fn finish(
    kinds: Seq<ParameterKind>,
    b: Binding,
    args_sink: Value,
    kwargs_sink: Value,
) -> Result<Seq<Option<Value>>, ErrorKind> {
    if missing_required(kinds, b) || b.slots.len() != kinds.len() {
        Err(ErrorKind::MissingRequired)
    } else {
        Ok(Seq::new(kinds.len(), |i: int| finished_slot(kinds, b, args_sink, kwargs_sink, i)))
    }
}

impl Signature {
    /// The signature of a callable without parameters.
    pub open spec fn empty(function_name: Seq<char>) -> Signature {
        Signature {
            function_name,
            kinds: Seq::empty(),
            names: Seq::empty(),
            positional: 0,
            args: None,
            kwargs: None,
        }
    }

    /// This signature with one more parameter, which is no sink. It can be passed by
    /// position if `by_position` holds.
    pub open spec fn with_param(self, name: Seq<char>, kind: ParameterKind, by_position: bool) -> Signature {
        Signature {
            kinds: self.kinds.push(kind),
            names: self.names.push(name),
            positional: if by_position {
                (self.kinds.len() + 1) as int
            } else {
                self.positional
            },
            ..self
        }
    }

    /// This signature with a `*args` sink at the end.
    pub open spec fn with_args(self) -> Signature {
        Signature {
            kinds: self.kinds.push(ParameterKind::Args),
            names: self.names.push("*args"@),
            args: Some(self.kinds.len() as int),
            ..self
        }
    }

    /// This signature with a `**kwargs` sink at the end.
    pub open spec fn with_kwargs(self) -> Signature {
        Signature {
            kinds: self.kinds.push(ParameterKind::KWargs),
            names: self.names.push("**kwargs"@),
            kwargs: Some(self.kinds.len() as int),
            ..self
        }
    }
}

/// Builds a [`ParametersSpec`] one parameter at a time, in declaration order.
#[derive(Debug)]
pub struct ParametersSpecBuilder {
    pub spec: ParametersSpec,
    /// Set once the parameters that follow can only be passed by name.
    pub no_args: bool,
}

impl ParametersSpecBuilder {
    /// Can the next parameter still be passed by position?
    pub open spec fn by_position(self) -> bool {
        !self.no_args && self.spec.args is None && self.spec.kwargs is None
            && self.spec.positional == self.spec.kinds.len()
    }

    /// Is the builder in a consistent state?
    pub open spec fn wf(self) -> bool {
        self.spec@.wf()
    }

    /// A builder for the parameters of the function `function_name`.
    pub fn with_capacity(function_name: String, capacity: usize) -> (b: ParametersSpecBuilder)
        ensures
            b.spec@ == Signature::empty(function_name@),
            !b.no_args,
            b.wf(),
    {
        let b = ParametersSpecBuilder {
            spec: ParametersSpec {
                function_name,
                kinds: Vec::with_capacity(capacity),
                names: Vec::with_capacity(capacity),
                positional: 0,
                args: None,
                kwargs: None,
            },
            no_args: false,
        };
        assert(b.spec@.names =~= Seq::empty());
        b
    }

    fn add(&mut self, name: &str, kind: ParameterKind)
        requires
            old(self).wf(),
            old(self).spec.kinds.len() < usize::MAX,
            !(kind is Args),
            !(kind is KWargs),
        ensures
            final(self).spec@ == old(self).spec@.with_param(name@, kind, old(self).by_position()),
            final(self).no_args == old(self).no_args,
            final(self).wf(),
    {
        let by_position = !self.no_args && self.spec.args.is_none() && self.spec.kwargs.is_none()
            && self.spec.positional == self.spec.kinds.len();
        self.spec.kinds.push(kind);
        self.spec.names.push(crate::text::owned(name));
        if by_position {
            self.spec.positional = self.spec.kinds.len();
        }
        proof {
            assert(final(self).spec@.names =~= old(self).spec@.names.push(name@));
            let old_sig = old(self).spec@;
            let new_sig = final(self).spec@;
            assert forall|i: int| 0 <= i < new_sig.kinds.len() implies ((
            #[trigger] new_sig.kinds[i] is Args) <==> new_sig.args == Some(i)) by {
                if i < old_sig.kinds.len() {
                    assert(new_sig.kinds[i] == old_sig.kinds[i]);
                }
            }
            assert forall|i: int| 0 <= i < new_sig.kinds.len() implies ((
            #[trigger] new_sig.kinds[i] is KWargs) <==> new_sig.kwargs == Some(i)) by {
                if i < old_sig.kinds.len() {
                    assert(new_sig.kinds[i] == old_sig.kinds[i]);
                }
            }
            assert forall|i: int| 0 <= i < new_sig.positional implies !(
            #[trigger] new_sig.kinds[i] is Args) && !(new_sig.kinds[i] is KWargs) by {
                if i < old_sig.kinds.len() {
                    assert(new_sig.kinds[i] == old_sig.kinds[i]);
                    if old(self).by_position() {
                        assert(old_sig.args is None);
                        assert(old_sig.kwargs is None);
                    }
                }
            }
        }
    }

    /// Adds a parameter that the caller must pass.
    pub fn required(&mut self, name: &str)
        requires
            old(self).wf(),
            old(self).spec.kinds.len() < usize::MAX,
        ensures
            final(self).spec@ == old(self).spec@.with_param(
                name@,
                ParameterKind::Required,
                old(self).by_position(),
            ),
            final(self).no_args == old(self).no_args,
            final(self).wf(),
    {
        self.add(name, ParameterKind::Required)
    }

    /// Adds a parameter that may stay unset.
    pub fn optional(&mut self, name: &str)
        requires
            old(self).wf(),
            old(self).spec.kinds.len() < usize::MAX,
        ensures
            final(self).spec@ == old(self).spec@.with_param(
                name@,
                ParameterKind::Optional,
                old(self).by_position(),
            ),
            final(self).no_args == old(self).no_args,
            final(self).wf(),
    {
        self.add(name, ParameterKind::Optional)
    }

    /// Adds a parameter with a default value.
    pub fn defaulted(&mut self, name: &str, value: Value)
        requires
            old(self).wf(),
            old(self).spec.kinds.len() < usize::MAX,
        ensures
            final(self).spec@ == old(self).spec@.with_param(
                name@,
                ParameterKind::Defaulted(value),
                old(self).by_position(),
            ),
            final(self).no_args == old(self).no_args,
            final(self).wf(),
    {
        self.add(name, ParameterKind::Defaulted(value))
    }

    /// The parameters that follow can only be passed by name.
    pub fn no_args(&mut self)
        ensures
            final(self).spec == old(self).spec,
            final(self).no_args,
    {
        self.no_args = true;
    }

    /// Adds the `*args` sink.
    pub fn args(&mut self)
        requires
            old(self).wf(),
            old(self).spec.kinds.len() < usize::MAX,
            old(self).spec.args is None,
        ensures
            final(self).spec@ == old(self).spec@.with_args(),
            final(self).no_args == old(self).no_args,
            final(self).wf(),
    {
        self.spec.args = Some(self.spec.kinds.len());
        self.spec.kinds.push(ParameterKind::Args);
        self.spec.names.push(crate::text::owned("*args"));
        proof {
            assert(final(self).spec@.names =~= old(self).spec@.names.push("*args"@));
            let old_sig = old(self).spec@;
            let new_sig = final(self).spec@;
            assert forall|i: int| 0 <= i < new_sig.kinds.len() implies ((
            #[trigger] new_sig.kinds[i] is Args) <==> new_sig.args == Some(i)) by {
                if i < old_sig.kinds.len() {
                    assert(new_sig.kinds[i] == old_sig.kinds[i]);
                }
            }
            assert forall|i: int| 0 <= i < new_sig.kinds.len() implies ((
            #[trigger] new_sig.kinds[i] is KWargs) <==> new_sig.kwargs == Some(i)) by {
                if i < old_sig.kinds.len() {
                    assert(new_sig.kinds[i] == old_sig.kinds[i]);
                }
            }
            assert forall|i: int| 0 <= i < new_sig.positional implies !(
            #[trigger] new_sig.kinds[i] is Args) && !(new_sig.kinds[i] is KWargs) by {
                assert(new_sig.kinds[i] == old_sig.kinds[i]);
            }
        }
    }

    /// Adds the `**kwargs` sink.
    pub fn kwargs(&mut self)
        requires
            old(self).wf(),
            old(self).spec.kinds.len() < usize::MAX,
            old(self).spec.kwargs is None,
        ensures
            final(self).spec@ == old(self).spec@.with_kwargs(),
            final(self).no_args == old(self).no_args,
            final(self).wf(),
    {
        self.spec.kwargs = Some(self.spec.kinds.len());
        self.spec.kinds.push(ParameterKind::KWargs);
        self.spec.names.push(crate::text::owned("**kwargs"));
        proof {
            assert(final(self).spec@.names =~= old(self).spec@.names.push("**kwargs"@));
            let old_sig = old(self).spec@;
            let new_sig = final(self).spec@;
            assert forall|i: int| 0 <= i < new_sig.kinds.len() implies ((
            #[trigger] new_sig.kinds[i] is Args) <==> new_sig.args == Some(i)) by {
                if i < old_sig.kinds.len() {
                    assert(new_sig.kinds[i] == old_sig.kinds[i]);
                }
            }
            assert forall|i: int| 0 <= i < new_sig.kinds.len() implies ((
            #[trigger] new_sig.kinds[i] is KWargs) <==> new_sig.kwargs == Some(i)) by {
                if i < old_sig.kinds.len() {
                    assert(new_sig.kinds[i] == old_sig.kinds[i]);
                }
            }
            assert forall|i: int| 0 <= i < new_sig.positional implies !(
            #[trigger] new_sig.kinds[i] is Args) && !(new_sig.kinds[i] is KWargs) by {
                assert(new_sig.kinds[i] == old_sig.kinds[i]);
            }
        }
    }

    /// The finished description.
    pub fn build(self) -> (spec: ParametersSpec)
        requires
            self.wf(),
        ensures
            spec == self.spec,
            spec@.wf(),
    {
        self.spec
    }
}

/// Arguments on their way into slots.
#[derive(Debug)]
pub struct Slots {
    pub slots: Vec<Option<Value>>,
    pub extra_pos: Vec<Value>,
    pub extra_named: Vec<(String, Value, Value)>,
    pub next: usize,
}

/// The names of named arguments, as the contracts see them.
pub open spec fn names_view(names: Seq<(String, Value)>) -> Seq<(Seq<char>, Value)> {
    Seq::new(names.len(), |i: int| (names[i].0@, names[i].1))
}

impl View for Slots {
    type V = Binding;

    open spec fn view(&self) -> Binding {
        Binding {
            slots: self.slots@,
            extra_pos: self.extra_pos@,
            extra_named: Seq::new(
                self.extra_named@.len(),
                |i: int| (self.extra_named@[i].0@, self.extra_named@[i].1, self.extra_named@[i].2),
            ),
            next: self.next as int,
        }
    }
}

impl ParametersSpec {
    /// The slot of the parameter that can be passed by the name `name`.
    pub fn find(&self, name: &str) -> (r: Option<usize>)
        ensures
            match self@.find(name@) {
                Some(i) => r == Some(i as usize) && 0 <= i < self.kinds.len(),
                None => r is None,
            },
    {
        let mut i: usize = 0;
        while i < self.names.len()
            invariant
                i <= self.names.len(),
                self@.find(name@) == self@.find_from(name@, i as int),
            decreases self.names.len() - i,
        {
            let is_sink = i >= self.kinds.len() || match self.kinds[i] {
                ParameterKind::Args => true,
                ParameterKind::KWargs => true,
                _ => false,
            };
            assert(self@.names[i as int] == self.names@[i as int]@);
            if !is_sink && same_text(self.names[i].as_str(), name) {
                return Some(i);
            }
            i += 1;
        }
        None
    }

    /// The state before any argument is bound: every slot empty.
    pub fn start(&self) -> (b: Slots)
        ensures
            b@ == binding_start(self@),
    {
        let mut slots: Vec<Option<Value>> = Vec::new();
        let mut i: usize = 0;
        while i < self.kinds.len()
            invariant
                i <= self.kinds.len(),
                slots@ == Seq::new(i as nat, |k: int| None::<Value>),
            decreases self.kinds.len() - i,
        {
            slots.push(None);
            i += 1;
            assert(slots@ =~= Seq::new(i as nat, |k: int| None::<Value>));
        }
        let b = Slots { slots, extra_pos: Vec::new(), extra_named: Vec::new(), next: 0 };
        assert(b@.extra_named =~= Seq::empty());
        b
    }

    /// Binds the positional arguments `pos`, left to right, after those bound before.
    pub fn bind_positional(&self, b: &mut Slots, pos: &Vec<Value>) -> (r: Result<(), Error>)
        ensures
            match bind_positional(self@, old(b)@, pos@, 0) {
                Ok(b2) => r is Ok && final(b)@ == b2,
                Err(k) => r is Err && r->Err_0.kind == k && r->Err_0.span is None,
            },
    {
        let mut i: usize = 0;
        while i < pos.len()
            invariant
                i <= pos.len(),
                bind_positional(self@, old(b)@, pos@, 0) == bind_positional(
                    self@,
                    b@,
                    pos@,
                    i as int,
                ),
            decreases pos.len() - i,
        {
            let ghost before = b@;
            if b.next < self.positional && b.next < b.slots.len() {
                if b.slots[b.next].is_some() {
                    return Err(
                        Error::new(
                            ErrorKind::DuplicateNamedArgument,
                            "Parameter passed both by position and by name",
                        ),
                    );
                }
                let at = b.next;
                b.slots[at] = Some(pos[i]);
                b.next = b.next + 1;
            } else if self.args.is_some() {
                b.extra_pos.push(pos[i]);
            } else {
                return Err(
                    Error::new(ErrorKind::TooManyPositional, "Too many positional arguments"),
                );
            }
            assert(b@.extra_named =~= before.extra_named);
            assert(Ok::<Binding, ErrorKind>(b@) == bind_one_positional(self@, before, pos@[i as int]));
            i += 1;
        }
        Ok(())
    }

    /// Binds the named arguments, left to right: `names[i]` names `values[i]`.
    pub fn bind_named(&self, b: &mut Slots, names: &Vec<(String, Value)>, values: &Vec<Value>) -> (r:
        Result<(), Error>)
        ensures
            match bind_named(self@, old(b)@, names_view(names@), values@, 0) {
                Ok(b2) => r is Ok && final(b)@ == b2,
                Err(k) => r is Err && r->Err_0.kind == k && r->Err_0.span is None,
            },
    {
        let mut i: usize = 0;
        while i < values.len() && i < names.len()
            invariant
                i <= values.len(),
                i <= names.len(),
                bind_named(self@, old(b)@, names_view(names@), values@, 0) == bind_named(
                    self@,
                    b@,
                    names_view(names@),
                    values@,
                    i as int,
                ),
            decreases values.len() - i,
        {
            let ghost before = b@;
            let name = &names[i].0;
            let key = names[i].1;
            assert(names_view(names@)[i as int] == (name@, key));
            let found = match self.find(name.as_str()) {
                Some(at) => if at < b.slots.len() {
                    Some(at)
                } else {
                    None
                },
                None => None,
            };
            match found {
                Some(at) => {
                    if b.slots[at].is_some() {
                        return Err(
                            Error::new(
                                ErrorKind::DuplicateNamedArgument,
                                "Parameter passed more than once",
                            ),
                        );
                    }
                    b.slots[at] = Some(values[i]);
                    assert(b@.extra_named =~= before.extra_named);
                },
                None => {
                    if self.kwargs.is_none() {
                        return Err(
                            Error::new(ErrorKind::UnexpectedNamed, "Unexpected named argument"),
                        );
                    }
                    if extra_has_name(&b.extra_named, name.as_str()) {
                        return Err(
                            Error::new(
                                ErrorKind::DuplicateNamedArgument,
                                "Named argument passed more than once",
                            ),
                        );
                    }
                    b.extra_named.push((name.clone(), key, values[i]));
                    assert(b@.extra_named =~= before.extra_named.push((name@, key, values@[i as int])));
                },
            }
            assert(Ok::<Binding, ErrorKind>(b@) == bind_one_named(
                self@,
                before,
                name@,
                key,
                values@[i as int],
            ));
            i += 1;
        }
        Ok(())
    }

    /// The kinds of the parameters, copied.
    pub fn kinds_copy(&self) -> (out: Vec<ParameterKind>)
        ensures
            out@ == self.kinds@,
    {
        let mut out: Vec<ParameterKind> = Vec::new();
        let mut i: usize = 0;
        while i < self.kinds.len()
            invariant
                i <= self.kinds.len(),
                out@ == self.kinds@.take(i as int),
            decreases self.kinds.len() - i,
        {
            out.push(self.kinds[i]);
            i += 1;
            assert(self.kinds@.take(i as int) == self.kinds@.take(i - 1).push(self.kinds@[i - 1]));
        }
        assert(self.kinds@.take(self.kinds.len() as int) == self.kinds@);
        out
    }
}

/// The slot vector, with defaults and sinks in the slots that no argument filled.
pub fn finish_slots(kinds: &Vec<ParameterKind>, b: &Slots, args_sink: Value, kwargs_sink: Value) -> (r:
    Result<Vec<Option<Value>>, Error>)
    ensures
        match finish(kinds@, b@, args_sink, kwargs_sink) {
            Ok(s) => r is Ok && r->Ok_0@ == s,
            Err(k) => r is Err && r->Err_0.kind == k && r->Err_0.span is None,
        },
{
    if b.slots.len() != kinds.len() {
        return Err(Error::new(ErrorKind::MissingRequired, "Missing parameter"));
    }
    let mut out: Vec<Option<Value>> = Vec::new();
    let mut i: usize = 0;
    while i < kinds.len()
        invariant
            i <= kinds.len(),
            b.slots.len() == kinds.len(),
            out.len() == i,
            forall|k: int|
                0 <= k < i ==> !((#[trigger] kinds@[k]) == ParameterKind::Required
                    && b.slots@[k] is None),
            forall|k: int|
                0 <= k < i ==> #[trigger] out@[k] == finished_slot(
                    kinds@,
                    b@,
                    args_sink,
                    kwargs_sink,
                    k,
                ),
        decreases kinds.len() - i,
    {
        let v = match b.slots[i] {
            Some(v) => Some(v),
            None => match kinds[i] {
                ParameterKind::Required => {
                    assert(missing_required(kinds@, b@));
                    return Err(
                        Error::new(ErrorKind::MissingRequired, "Missing required parameter"),
                    );
                },
                ParameterKind::Optional => None,
                ParameterKind::Defaulted(d) => Some(d),
                ParameterKind::Args => Some(args_sink),
                ParameterKind::KWargs => Some(kwargs_sink),
            },
        };
        out.push(v);
        i += 1;
    }
    assert(out@ =~= Seq::new(
        kinds@.len(),
        |i: int| finished_slot(kinds@, b@, args_sink, kwargs_sink, i),
    ));
    Ok(out)
}

/// Is `name` among the names collected for `**kwargs`?
fn extra_has_name(extra: &Vec<(String, Value, Value)>, name: &str) -> (r: bool)
    ensures
        r == has_name(
            Seq::new(extra@.len(), |i: int| (extra@[i].0@, extra@[i].1, extra@[i].2)),
            name@,
        ),
{
    let ghost view = Seq::new(extra@.len(), |i: int| (extra@[i].0@, extra@[i].1, extra@[i].2));
    let mut i: usize = 0;
    while i < extra.len()
        invariant
            i <= extra.len(),
            view == Seq::new(extra@.len(), |i: int| (extra@[i].0@, extra@[i].1, extra@[i].2)),
            forall|k: int| 0 <= k < i ==> (#[trigger] view[k]).0 != name@,
        decreases extra.len() - i,
    {
        if same_text(extra[i].0.as_str(), name) {
            assert(view[i as int].0 == name@);
            return true;
        }
        i += 1;
    }
    false
}

} // verus!
