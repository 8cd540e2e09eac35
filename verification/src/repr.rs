//! Values as text: their representation, their JSON form and their debug form.
use vstd::prelude::*;
use vstd::string::StringExecFns;
use crate::equality::MAX_NESTING;
use crate::errors::{Error, ErrorKind};
use crate::heap::{ARef, Memory, Store, Target};
use crate::object::{firsts, Obj, Object, Range};
use crate::text::{decimal, int_to_string, push_quoted_with, quoted_with};
use crate::value::Value;

verus! {

/// The ways to show a value as text.
#[derive(Clone, Copy, PartialEq, Eq, Structural, Debug)]
pub enum Style {
    /// As the program would write it: `None`, `True`, `"a"`, `[1, 2]`.
    Repr,
    /// As JSON: `null`, `true`, `"a"`, `[1,2]`.
    Json,
    /// For debugging: every value as `Value(..)`, containers with their names.
    Debug,
}

/// The representation of a range: `range(stop)`, `range(start, stop)` or
/// `range(start, stop, step)`, with as many arguments as are needed.
pub open spec fn range_repr(r: Range) -> Seq<char> {
    if r.step != 1 {
        "range("@ + decimal(r.start as int) + ", "@ + decimal(r.stop as int) + ", "@ + decimal(
            r.step as int,
        ) + ")"@
    } else if r.start != 0 {
        "range("@ + decimal(r.start as int) + ", "@ + decimal(r.stop as int) + ")"@
    } else {
        "range("@ + decimal(r.stop as int) + ")"@
    }
}

/// What stands before a value.
pub open spec fn before_value(style: Style) -> Seq<char> {
    if style == Style::Debug {
        "Value("@
    } else {
        ""@
    }
}

/// What stands after a value.
pub open spec fn after_value(style: Style) -> Seq<char> {
    if style == Style::Debug {
        ")"@
    } else {
        ""@
    }
}

/// The text of `None`.
pub open spec fn nil_text(style: Style) -> Seq<char> {
    match style {
        Style::Repr => "None"@,
        Style::Json => "null"@,
        Style::Debug => "NoneType"@,
    }
}

/// The text of a boolean.
pub open spec fn bool_text(style: Style, b: bool) -> Seq<char> {
    if style == Style::Repr {
        if b {
            "True"@
        } else {
            "False"@
        }
    } else if b {
        "true"@
    } else {
        "false"@
    }
}

/// What stands between the elements of a container.
pub open spec fn separator(style: Style) -> Seq<char> {
    if style == Style::Json {
        ","@
    } else {
        ", "@
    }
}

/// What stands between a key and its value.
pub open spec fn colon(style: Style) -> Seq<char> {
    if style == Style::Json {
        ":"@
    } else {
        ": "@
    }
}

/// What opens a list.
pub open spec fn list_open(style: Style) -> Seq<char> {
    if style == Style::Debug {
        "ListGen { content: ["@
    } else {
        "["@
    }
}

/// What closes a list, and a tuple that is shown as one.
pub open spec fn list_close(style: Style) -> Seq<char> {
    if style == Style::Debug {
        "] }"@
    } else {
        "]"@
    }
}

/// What opens a tuple.
pub open spec fn tuple_open(style: Style) -> Seq<char> {
    match style {
        Style::Repr => "("@,
        Style::Json => "["@,
        Style::Debug => "TupleGen { content: ["@,
    }
}

/// What closes a tuple of `n` elements.
pub open spec fn tuple_close(style: Style, n: int) -> Seq<char> {
    if style == Style::Repr {
        if n == 1 {
            ",)"@
        } else {
            ")"@
        }
    } else {
        list_close(style)
    }
}

/// What opens a dictionary.
pub open spec fn dict_open(style: Style) -> Seq<char> {
    if style == Style::Debug {
        "DictGen { content: {"@
    } else {
        "{"@
    }
}

/// What closes a dictionary.
pub open spec fn dict_close(style: Style) -> Seq<char> {
    if style == Style::Debug {
        "} }"@
    } else {
        "}"@
    }
}

impl Store {
    /// The text `acc` followed by the text of `v` in the style `style`, looking `depth`
    /// levels deep. JSON has no form for functions, ranges and enumeration types, and its
    /// keys must be strings.
    pub open spec fn show_onto(self, v: Value, style: Style, acc: Seq<char>, depth: nat) -> Result<
        Seq<char>,
        ErrorKind,
    >
        decreases depth, 5nat, 1nat,
    {
        match self.show_inner(v, style, acc + before_value(style), depth) {
            Ok(t) => Ok(t + after_value(style)),
            Err(k) => Err(k),
        }
    }

    /// As [`Store::show_onto`], without what stands before and after a value.
    pub open spec fn show_inner(self, v: Value, style: Style, acc: Seq<char>, depth: nat) -> Result<
        Seq<char>,
        ErrorKind,
    >
        decreases depth, 5nat, 0nat,
    {
        match self.target(v) {
            Target::Nil => Ok(acc + nil_text(style)),
            Target::Bool(b) => Ok(acc + bool_text(style, b)),
            Target::Int(i) => Ok(acc + decimal(i as int)),
            Target::Str(s) => Ok(acc + quoted_with(s, style == Style::Repr)),
            Target::Unexpected => Err(ErrorKind::NotSupported),
            Target::Object(o) => match o {
                Obj::List(_) | Obj::Tuple(_) | Obj::Dict(_) | Obj::EnumValue(_) => if depth == 0 {
                    Err(ErrorKind::StackOverflow)
                } else {
                    self.show_container(o, style, acc, (depth - 1) as nat)
                },
                _ => if style == Style::Json {
                    Err(ErrorKind::NotSupported)
                } else if depth == 0 {
                    Err(ErrorKind::StackOverflow)
                } else {
                    self.show_function(o, style, acc, (depth - 1) as nat)
                },
            },
        }
    }

    /// The text `acc` followed by the text of a list, a tuple, a dictionary or an
    /// enumeration value.
    pub open spec fn show_container(self, o: Obj, style: Style, acc: Seq<char>, d: nat) -> Result<
        Seq<char>,
        ErrorKind,
    >
        decreases d, 7nat, 0nat,
    {
        match o {
            Obj::List(p) => match self.seq_show_onto(
                p,
                0,
                style,
                separator(style),
                acc + list_open(style),
                d,
            ) {
                Ok(t) => Ok(t + list_close(style)),
                Err(k) => Err(k),
            },
            Obj::Tuple(p) => match self.seq_show_onto(
                p,
                0,
                style,
                separator(style),
                acc + tuple_open(style),
                d,
            ) {
                Ok(t) => Ok(t + tuple_close(style, p.len() as int)),
                Err(k) => Err(k),
            },
            Obj::Dict(p) => match self.dict_show_onto(p, 0, style, acc + dict_open(style), d) {
                Ok(t) => Ok(t + dict_close(style)),
                Err(k) => Err(k),
            },
            Obj::EnumValue(e) => self.show_onto(e.value, style, acc, d),
            _ => Err(ErrorKind::NotSupported),
        }
    }

    /// The text `acc` followed by the text of a range, a function or an enumeration type.
    pub open spec fn show_function(self, o: Obj, style: Style, acc: Seq<char>, d: nat) -> Result<
        Seq<char>,
        ErrorKind,
    >
        decreases d, 7nat, 0nat,
    {
        match o {
            Obj::Range(r) => Ok(acc + range_repr(r)),
            Obj::Native(f) => Ok(acc + f.name),
            Obj::Attribute(_) => Ok(acc + "attribute"@),
            Obj::Def(f) => Ok(acc + f.name),
            Obj::EnumType(t) => match self.seq_show_onto(
                firsts(t.elements),
                0,
                style,
                ", "@,
                acc + "enum("@,
                d,
            ) {
                Ok(t) => Ok(t + ")"@),
                Err(k) => Err(k),
            },
            Obj::Bound(b) => self.show_onto(b.method, style, acc, d),
            Obj::Partial(p) => match self.show_onto(p.func, style, acc + "partial("@, d) {
                Ok(t1) => match self.seq_show_onto(p.pos, 0, style, ","@, t1 + ", *["@, d) {
                    Ok(t2) => match self.named_show_onto(
                        p.names,
                        p.named,
                        0,
                        style,
                        t2 + "], **{"@,
                        d,
                    ) {
                        Ok(t3) => Ok(t3 + "})"@),
                        Err(k) => Err(k),
                    },
                    Err(k) => Err(k),
                },
                Err(k) => Err(k),
            },
            _ => Err(ErrorKind::NotSupported),
        }
    }

    /// The text `acc` followed by the texts of `p[i..]`, with `sep` before each but the
    /// first of `p`.
    pub open spec fn seq_show_onto(
        self,
        p: Seq<Value>,
        i: int,
        style: Style,
        sep: Seq<char>,
        acc: Seq<char>,
        depth: nat,
    ) -> Result<Seq<char>, ErrorKind>
        decreases depth, 6nat, p.len() - i,
    {
        if i < 0 || i >= p.len() {
            Ok(acc)
        } else {
            match self.show_onto(p[i], style, if i > 0 { acc + sep } else { acc }, depth) {
                Ok(t) => self.seq_show_onto(p, i + 1, style, sep, t, depth),
                Err(k) => Err(k),
            }
        }
    }

    /// The text `acc` followed by the entries `p[i..]` of a dictionary, each as key, colon
    /// and value.
    pub open spec fn dict_show_onto(
        self,
        p: Seq<(Value, Value)>,
        i: int,
        style: Style,
        acc: Seq<char>,
        depth: nat,
    ) -> Result<Seq<char>, ErrorKind>
        decreases depth, 6nat, p.len() - i,
    {
        if i < 0 || i >= p.len() {
            Ok(acc)
        } else if style == Style::Json && !(self.target(p[i].0) is Str) {
            Err(ErrorKind::NotSupported)
        } else {
            match self.show_onto(
                p[i].0,
                style,
                if i > 0 { acc + separator(style) } else { acc },
                depth,
            ) {
                Ok(t) => match self.show_onto(p[i].1, style, t + colon(style), depth) {
                    Ok(t2) => self.dict_show_onto(p, i + 1, style, t2, depth),
                    Err(k) => Err(k),
                },
                Err(k) => Err(k),
            }
        }
    }

    /// The text `acc` followed by the named arguments from index `i` on, as `name:value`.
    pub open spec fn named_show_onto(
        self,
        names: Seq<(Seq<char>, Value)>,
        named: Seq<Value>,
        i: int,
        style: Style,
        acc: Seq<char>,
        depth: nat,
    ) -> Result<Seq<char>, ErrorKind>
        decreases depth, 6nat, names.len() - i,
    {
        if i < 0 || i >= names.len() || i >= named.len() {
            Ok(acc)
        } else {
            match self.show_onto(
                named[i],
                style,
                (if i > 0 { acc + ","@ } else { acc }) + names[i].0 + ":"@,
                depth,
            ) {
                Ok(t) => self.named_show_onto(names, named, i + 1, style, t, depth),
                Err(k) => Err(k),
            }
        }
    }

    /// The text `acc` followed by the representation of `v`.
    pub open spec fn repr_onto(self, v: Value, acc: Seq<char>, depth: nat) -> Result<
        Seq<char>,
        ErrorKind,
    > {
        self.show_onto(v, Style::Repr, acc, depth)
    }

    /// The representation of `v`.
    pub open spec fn to_repr(self, v: Value) -> Result<Seq<char>, ErrorKind> {
        self.show_onto(v, Style::Repr, Seq::empty(), MAX_NESTING as nat)
    }

    /// The JSON form of `v`.
    pub open spec fn to_json(self, v: Value) -> Result<Seq<char>, ErrorKind> {
        self.show_onto(v, Style::Json, Seq::empty(), MAX_NESTING as nat)
    }

    /// The debug form of `v`.
    pub open spec fn to_debug(self, v: Value) -> Result<Seq<char>, ErrorKind> {
        self.show_onto(v, Style::Debug, Seq::empty(), MAX_NESTING as nat)
    }

    /// The text of `v`: a string as it is, any other value by its representation.
    pub open spec fn to_str(self, v: Value) -> Result<Seq<char>, ErrorKind> {
        match self.target(v) {
            Target::Str(s) => Ok(s),
            _ => self.to_repr(v),
        }
    }

    /// The text of `v` as a message shows it: `?` for a value that has no text.
    pub open spec fn shown(self, v: Value) -> Seq<char> {
        match self.to_str(v) {
            Ok(t) => t,
            Err(_) => "?"@,
        }
    }
}

/// Does `out` hold what the specified outcome `s` says: on success, `r` is `Ok` and `out`
/// holds the text; on failure, `r` is an error of the kind.
pub open spec fn wrote(r: Result<(), Error>, out: Seq<char>, s: Result<Seq<char>, ErrorKind>) -> bool {
    match s {
        Ok(t) => r is Ok && out == t,
        Err(k) => r is Err && r->Err_0.kind == k && r->Err_0.span is None,
    }
}

fn too_deep() -> (e: Error)
    ensures
        e.kind == ErrorKind::StackOverflow,
        e.span is None,
{
    Error::new(ErrorKind::StackOverflow, "Values are nested too deeply")
}

fn no_form() -> (e: Error)
    ensures
        e.kind == ErrorKind::NotSupported,
        e.span is None,
{
    Error::new(ErrorKind::NotSupported, "Value has no such form")
}

/// Appends the representation of a range.
fn push_range(r: &Range, out: &mut String)
    ensures
        final(out)@ == old(out)@ + range_repr(*r),
{
    out.append("range(");
    if r.step != 1 {
        out.append(int_to_string(r.start).as_str());
        out.append(", ");
        out.append(int_to_string(r.stop).as_str());
        out.append(", ");
        out.append(int_to_string(r.step).as_str());
        out.append(")");
        assert(final(out)@ =~= old(out)@ + range_repr(*r));
    } else if r.start != 0 {
        out.append(int_to_string(r.start).as_str());
        out.append(", ");
        out.append(int_to_string(r.stop).as_str());
        out.append(")");
        assert(final(out)@ =~= old(out)@ + range_repr(*r));
    } else {
        out.append(int_to_string(r.stop).as_str());
        out.append(")");
        assert(final(out)@ =~= old(out)@ + range_repr(*r));
    }
}

fn is_json(style: Style) -> (r: bool)
    ensures
        r == (style == Style::Json),
{
    match style {
        Style::Json => true,
        _ => false,
    }
}

fn is_repr(style: Style) -> (r: bool)
    ensures
        r == (style == Style::Repr),
{
    match style {
        Style::Repr => true,
        _ => false,
    }
}

fn is_debug(style: Style) -> (r: bool)
    ensures
        r == (style == Style::Debug),
{
    match style {
        Style::Debug => true,
        _ => false,
    }
}

fn separator_of(style: Style) -> (r: &'static str)
    ensures
        r@ == separator(style),
{
    if is_json(style) {
        ","
    } else {
        ", "
    }
}

impl Memory {
    /// Appends the text of `v` in the style `style` to `out`, looking `depth` levels deep.
    pub fn collect(&self, v: Value, style: Style, out: &mut String, depth: usize) -> (r: Result<
        (),
        Error,
    >)
        ensures
            wrote(r, final(out)@, self@.show_onto(v, style, old(out)@, depth as nat)),
        decreases depth, 5nat, 1nat,
    {
        if is_debug(style) {
            out.append("Value(");
        } else {
            out.append("");
            proof {
                reveal_strlit("");
            }
            assert(out@ =~= old(out)@ + ""@);
        }
        match self.collect_inner(v, style, out, depth) {
            Ok(()) => {
                let ghost mid = out@;
                if is_debug(style) {
                    out.append(")");
                } else {
                    proof {
                        reveal_strlit("");
                    }
                    assert(out@ =~= mid + ""@);
                }
                Ok(())
            },
            Err(e) => Err(e),
        }
    }

    fn collect_inner(&self, v: Value, style: Style, out: &mut String, depth: usize) -> (r: Result<
        (),
        Error,
    >)
        ensures
            wrote(r, final(out)@, self@.show_inner(v, style, old(out)@, depth as nat)),
        decreases depth, 5nat, 0nat,
    {
        match self.get_aref(v) {
            ARef::Nil => {
                match style {
                    Style::Repr => out.append("None"),
                    Style::Json => out.append("null"),
                    Style::Debug => out.append("NoneType"),
                }
                Ok(())
            },
            ARef::Bool(b) => {
                if is_repr(style) {
                    if b {
                        out.append("True");
                    } else {
                        out.append("False");
                    }
                } else if b {
                    out.append("true");
                } else {
                    out.append("false");
                }
                Ok(())
            },
            ARef::Int(i) => {
                out.append(int_to_string(i).as_str());
                Ok(())
            },
            ARef::Str(s) => {
                push_quoted_with(s.as_str(), is_repr(style), out);
                Ok(())
            },
            ARef::Unexpected => Err(no_form()),
            ARef::Object(o) => match o {
                Object::List(_) | Object::Tuple(_) | Object::Dict(_) | Object::EnumValue(_) => {
                    if depth == 0 {
                        Err(too_deep())
                    } else {
                        self.collect_container(o, style, out, depth - 1)
                    }
                },
                _ => {
                    if is_json(style) {
                        Err(no_form())
                    } else if depth == 0 {
                        Err(too_deep())
                    } else {
                        self.collect_function(o, style, out, depth - 1)
                    }
                },
            },
        }
    }

    fn collect_container(&self, o: &Object, style: Style, out: &mut String, d: usize) -> (r: Result<
        (),
        Error,
    >)
        ensures
            wrote(r, final(out)@, self@.show_container(o@, style, old(out)@, d as nat)),
        decreases d, 7nat, 0nat,
    {
        match o {
            Object::List(p) => {
                if is_debug(style) {
                    out.append("ListGen { content: [");
                } else {
                    out.append("[");
                }
                match self.collect_seq(p, style, separator_of(style), out, d) {
                    Ok(()) => {
                        if is_debug(style) {
                            out.append("] }");
                        } else {
                            out.append("]");
                        }
                        Ok(())
                    },
                    Err(e) => Err(e),
                }
            },
            Object::Tuple(p) => {
                match style {
                    Style::Repr => out.append("("),
                    Style::Json => out.append("["),
                    Style::Debug => out.append("TupleGen { content: ["),
                }
                match self.collect_seq(p, style, separator_of(style), out, d) {
                    Ok(()) => {
                        match style {
                            Style::Repr => {
                                if p.len() == 1 {
                                    out.append(",)");
                                } else {
                                    out.append(")");
                                }
                            },
                            Style::Json => out.append("]"),
                            Style::Debug => out.append("] }"),
                        }
                        Ok(())
                    },
                    Err(e) => Err(e),
                }
            },
            Object::Dict(p) => {
                if is_debug(style) {
                    out.append("DictGen { content: {");
                } else {
                    out.append("{");
                }
                match self.collect_dict(p, style, out, d) {
                    Ok(()) => {
                        if is_debug(style) {
                            out.append("} }");
                        } else {
                            out.append("}");
                        }
                        Ok(())
                    },
                    Err(e) => Err(e),
                }
            },
            Object::EnumValue(e) => self.collect(e.value, style, out, d),
            _ => Err(no_form()),
        }
    }

    fn collect_function(&self, o: &Object, style: Style, out: &mut String, d: usize) -> (r: Result<
        (),
        Error,
    >)
        ensures
            wrote(r, final(out)@, self@.show_function(o@, style, old(out)@, d as nat)),
        decreases d, 7nat, 0nat,
    {
        match o {
            Object::Range(r) => {
                push_range(r, out);
                Ok(())
            },
            Object::NativeFunction(f) => {
                out.append(f.name.as_str());
                Ok(())
            },
            Object::NativeAttribute(_) => {
                out.append("attribute");
                Ok(())
            },
            Object::Def(f) => {
                out.append(f.name.as_str());
                Ok(())
            },
            Object::EnumType(t) => {
                out.append("enum(");
                let keys = crate::basics::copy_firsts(&t.elements);
                match self.collect_seq(&keys, style, ", ", out, d) {
                    Ok(()) => {
                        out.append(")");
                        Ok(())
                    },
                    Err(e) => Err(e),
                }
            },
            Object::BoundMethod(b) => self.collect(b.method, style, out, d),
            Object::Partial(p) => {
                out.append("partial(");
                match self.collect(p.func, style, out, d) {
                    Ok(()) => {},
                    Err(e) => {
                        return Err(e);
                    },
                }
                out.append(", *[");
                match self.collect_seq(&p.pos, style, ",", out, d) {
                    Ok(()) => {},
                    Err(e) => {
                        return Err(e);
                    },
                }
                out.append("], **{");
                match self.collect_named(&p.names, &p.named, style, out, d) {
                    Ok(()) => {},
                    Err(e) => {
                        return Err(e);
                    },
                }
                out.append("})");
                Ok(())
            },
            _ => Err(no_form()),
        }
    }

    fn collect_seq(&self, p: &Vec<Value>, style: Style, sep: &str, out: &mut String, depth: usize) -> (r:
        Result<(), Error>)
        ensures
            wrote(
                r,
                final(out)@,
                self@.seq_show_onto(p@, 0, style, sep@, old(out)@, depth as nat),
            ),
        decreases depth, 6nat,
    {
        let mut i: usize = 0;
        while i < p.len()
            invariant
                i <= p.len(),
                self@.seq_show_onto(p@, 0, style, sep@, old(out)@, depth as nat)
                    == self@.seq_show_onto(p@, i as int, style, sep@, out@, depth as nat),
            decreases p.len() - i,
        {
            if i > 0 {
                out.append(sep);
            }
            match self.collect(p[i], style, out, depth) {
                Ok(()) => {},
                Err(e) => {
                    return Err(e);
                },
            }
            i += 1;
        }
        Ok(())
    }

    fn collect_dict(&self, p: &Vec<(Value, Value)>, style: Style, out: &mut String, depth: usize) -> (r:
        Result<(), Error>)
        ensures
            wrote(r, final(out)@, self@.dict_show_onto(p@, 0, style, old(out)@, depth as nat)),
        decreases depth, 6nat,
    {
        let mut i: usize = 0;
        while i < p.len()
            invariant
                i <= p.len(),
                self@.dict_show_onto(p@, 0, style, old(out)@, depth as nat)
                    == self@.dict_show_onto(p@, i as int, style, out@, depth as nat),
            decreases p.len() - i,
        {
            if is_json(style) && self.unpack_str(p[i].0).is_none() {
                return Err(no_form());
            }
            if i > 0 {
                out.append(separator_of(style));
            }
            match self.collect(p[i].0, style, out, depth) {
                Ok(()) => {},
                Err(e) => {
                    return Err(e);
                },
            }
            if is_json(style) {
                out.append(":");
            } else {
                out.append(": ");
            }
            match self.collect(p[i].1, style, out, depth) {
                Ok(()) => {},
                Err(e) => {
                    return Err(e);
                },
            }
            i += 1;
        }
        Ok(())
    }

    fn collect_named(
        &self,
        names: &Vec<(String, Value)>,
        named: &Vec<Value>,
        style: Style,
        out: &mut String,
        depth: usize,
    ) -> (r: Result<(), Error>)
        ensures
            wrote(
                r,
                final(out)@,
                self@.named_show_onto(
                    crate::params::names_view(names@),
                    named@,
                    0,
                    style,
                    old(out)@,
                    depth as nat,
                ),
            ),
        decreases depth, 6nat,
    {
        let ghost nv = crate::params::names_view(names@);
        let mut i: usize = 0;
        while i < names.len() && i < named.len()
            invariant
                i <= names.len(),
                i <= named.len(),
                nv == crate::params::names_view(names@),
                self@.named_show_onto(nv, named@, 0, style, old(out)@, depth as nat)
                    == self@.named_show_onto(nv, named@, i as int, style, out@, depth as nat),
            decreases names.len() - i,
        {
            if i > 0 {
                out.append(",");
            }
            out.append(names[i].0.as_str());
            out.append(":");
            assert(nv[i as int].0 == names@[i as int].0@);
            match self.collect(named[i], style, out, depth) {
                Ok(()) => {},
                Err(e) => {
                    return Err(e);
                },
            }
            i += 1;
        }
        Ok(())
    }

    /// Appends the representation of `v` to `out`, looking `depth` levels deep.
    pub fn collect_repr(&self, v: Value, out: &mut String, depth: usize) -> (r: Result<(), Error>)
        ensures
            wrote(r, final(out)@, self@.repr_onto(v, old(out)@, depth as nat)),
    {
        self.collect(v, Style::Repr, out, depth)
    }

    /// The text of `v` in the style `style`.
    pub fn show(&self, v: Value, style: Style) -> (r: Result<String, Error>)
        ensures
            crate::errors::agrees_str(
                r,
                self@.show_onto(v, style, Seq::empty(), MAX_NESTING as nat),
            ),
    {
        let mut out = String::new();
        match self.collect(v, style, &mut out, MAX_NESTING) {
            Ok(()) => Ok(out),
            Err(e) => Err(e),
        }
    }

    /// The representation of `v`.
    pub fn to_repr(&self, v: Value) -> (r: Result<String, Error>)
        ensures
            crate::errors::agrees_str(r, self@.to_repr(v)),
    {
        self.show(v, Style::Repr)
    }

    /// The JSON form of `v`.
    pub fn to_json(&self, v: Value) -> (r: Result<String, Error>)
        ensures
            crate::errors::agrees_str(r, self@.to_json(v)),
    {
        self.show(v, Style::Json)
    }

    /// The debug form of `v`.
    pub fn to_debug(&self, v: Value) -> (r: Result<String, Error>)
        ensures
            crate::errors::agrees_str(r, self@.to_debug(v)),
    {
        self.show(v, Style::Debug)
    }

    /// The text of `v` as a message shows it.
    pub fn shown(&self, v: Value) -> (r: String)
        ensures
            r@ == self@.shown(v),
    {
        match self.to_str(v) {
            Ok(s) => s,
            Err(_) => crate::text::owned("?"),
        }
    }

    /// The text of `v`: a string as it is, any other value by its representation.
    pub fn to_str(&self, v: Value) -> (r: Result<String, Error>)
        ensures
            crate::errors::agrees_str(r, self@.to_str(v)),
    {
        match self.get_aref(v) {
            ARef::Str(s) => Ok(s.clone()),
            _ => self.to_repr(v),
        }
    }
}

} // verus!
