//! The built-in functions that work on one or two values: conversions, text and numbers.
use vstd::prelude::*;
use crate::errors::framed;
use vstd::string::StringExecFns;
use crate::arith::{int_abs, int_abs_exec};
use crate::errors::{agrees, Error, ErrorKind};
use crate::heap::{ARef, Entry, Memory, Store, Target};
use crate::object::{Obj, Object, Range};
use crate::ops::did;
use crate::text::{from_chars, hex_string, parse_i32, parse_int_radix, string_hash, to_chars};
use crate::value::Value;

verus! {

/// The argument in slot `i`, if the slot exists and is filled.
pub open spec fn arg(slots: Seq<Option<Value>>, i: int) -> Option<Value> {
    if 0 <= i < slots.len() {
        slots[i]
    } else {
        None
    }
}

/// The argument in slot `i`, which must be there.
pub open spec fn required(slots: Seq<Option<Value>>, i: int) -> Result<Value, ErrorKind> {
    match arg(slots, i) {
        Some(v) => Ok(v),
        None => Err(ErrorKind::MissingRequired),
    }
}

/// The argument in slot `i`, which must be there and be an integer.
pub open spec fn int_arg(slots: Seq<Option<Value>>, i: int) -> Result<i32, ErrorKind> {
    match arg(slots, i) {
        Some(Value::Int(n)) => Ok(n),
        Some(_) => Err(ErrorKind::WrongType),
        None => Err(ErrorKind::MissingRequired),
    }
}

/// Is `c` a Unicode scalar value: a code point that is no surrogate?
pub open spec fn is_scalar(c: int) -> bool {
    (0 <= c <= 0xD7FF) || (0xE000 <= c <= 0x10FFFF)
}

/// `char::from_u32` gives the character of a code point that is a scalar value, and
/// nothing for any other number.
pub assume_specification[ char::from_u32 ](c: u32) -> (r: Option<char>)
    ensures
        is_scalar(c as int) ==> r == Some(c as char),
        !is_scalar(c as int) ==> r is None,
;

/// The base that `int()` reads a text in: the base given, or by the prefix of the text.
pub open spec fn int_base(s: Seq<char>, base: int) -> int {
    if base != 0 {
        base
    } else if s.len() >= 2 && s[0] == '0' && (s[1] == 'b' || s[1] == 'B') {
        2
    } else if s.len() >= 2 && s[0] == '0' && (s[1] == 'o' || s[1] == 'O') {
        8
    } else if s.len() >= 2 && s[0] == '0' && (s[1] == 'x' || s[1] == 'X') {
        16
    } else {
        10
    }
}

/// Does `s` start with the prefix that marks the base `base`?
pub open spec fn has_base_prefix(s: Seq<char>, base: int) -> bool {
    s.len() >= 2 && s[0] == '0' && ((base == 16 && (s[1] == 'x' || s[1] == 'X')) || (base == 8
        && (s[1] == 'o' || s[1] == 'O')) || (base == 2 && (s[1] == 'b' || s[1] == 'B')))
}

/// The integer that `int()` reads from the text `s` in the base `base`, where 0 stands for
/// the base that the prefix of the text tells. A sign may lead; a prefix that marks the
/// base may follow it; the rest is read as a signed number in that base.
pub open spec fn int_of_text(s: Seq<char>, base: int) -> Result<i32, ErrorKind> {
    if base == 1 || base < 0 || base > 36 {
        Err(ErrorKind::UserFail)
    } else {
        let negative = s.len() > 0 && s[0] == '-';
        let body = if s.len() > 0 && (s[0] == '+' || s[0] == '-') {
            s.skip(1)
        } else {
            s
        };
        let radix = int_base(body, base);
        let digits = if has_base_prefix(body, radix) {
            body.skip(2)
        } else {
            body
        };
        match parse_i32(digits, radix) {
            Some(v) => if negative {
                crate::arith::fit(-(v as int))
            } else {
                Ok(v)
            },
            None => Err(ErrorKind::UserFail),
        }
    }
}

impl Store {
    /// `chr(i)`: a new string of the one character with the code point `i`.
    pub open spec fn builtin_chr(self, slots: Seq<Option<Value>>) -> (Store, Result<Value, ErrorKind>) {
        match required(slots, 0) {
            Err(k) => (self, Err(k)),
            Ok(v) => match self.to_int(v) {
                Err(k) => (self, Err(k)),
                Ok(code) => if is_scalar(code as int) {
                    let (s, r) = self.allocate(Entry::Str(seq![code as char]));
                    (s, Ok(r))
                } else {
                    (self, Err(ErrorKind::UserFail))
                },
            },
        }
    }

    /// `ord(s)`: the code point of the one character of the string `s`.
    pub open spec fn builtin_ord(self, slots: Seq<Option<Value>>) -> Result<Value, ErrorKind> {
        match required(slots, 0) {
            Err(k) => Err(k),
            Ok(v) => match self.target(v) {
                Target::Str(s) if s.len() == 1 => Ok(Value::Int(s[0] as u32 as i32)),
                _ => Err(ErrorKind::UserFail),
            },
        }
    }

    /// `hash(s)`: the hash of the string `s`. No other value is accepted.
    pub open spec fn builtin_hash(self, slots: Seq<Option<Value>>) -> Result<Value, ErrorKind> {
        match required(slots, 0) {
            Err(k) => Err(k),
            Ok(v) => match self.target(v) {
                Target::Str(s) => Ok(Value::Int(string_hash(s))),
                _ => Err(ErrorKind::WrongType),
            },
        }
    }

    /// `int(x, base)`: 0 without arguments; a string read in the base; any other value as
    /// the integer that it is, for which no base may be given.
    pub open spec fn builtin_int(self, slots: Seq<Option<Value>>) -> Result<Value, ErrorKind> {
        match arg(slots, 0) {
            None => Ok(Value::Int(0)),
            Some(a) => match self.target(a) {
                Target::Str(s) => {
                    let base = match arg(slots, 1) {
                        Some(b) => self.to_int(b),
                        None => Ok(0i32),
                    };
                    match base {
                        Err(k) => Err(k),
                        Ok(b) => match int_of_text(s, b as int) {
                            Ok(n) => Ok(Value::Int(n)),
                            Err(k) => Err(k),
                        },
                    }
                },
                _ => match arg(slots, 1) {
                    Some(_) => Err(ErrorKind::UnexpectedNamed),
                    None => match self.to_int(a) {
                        Ok(n) => Ok(Value::Int(n)),
                        Err(k) => Err(k),
                    },
                },
            },
        }
    }

    /// `range(a1, a2, step)`: the range to `a1` from 0, or from `a1` to `a2`; by `step`,
    /// which must not be zero.
    pub open spec fn builtin_range(self, slots: Seq<Option<Value>>) -> (
        Store,
        Result<Value, ErrorKind>,
    ) {
        match int_arg(slots, 0) {
            Err(k) => (self, Err(k)),
            Ok(a1) => {
                let a2 = match arg(slots, 1) {
                    None => Ok(None),
                    Some(Value::Int(n)) => Ok(Some(n)),
                    Some(_) => Err(ErrorKind::WrongType),
                };
                let step = match arg(slots, 2) {
                    None => Ok(1i32),
                    Some(Value::Int(n)) => Ok(n),
                    Some(_) => Err(ErrorKind::WrongType),
                };
                match (a2, step) {
                    (Err(k), _) => (self, Err(k)),
                    (_, Err(k)) => (self, Err(k)),
                    (Ok(stop), Ok(by)) => if by == 0 {
                        (self, Err(ErrorKind::UserFail))
                    } else {
                        let r = match stop {
                            None => Range { start: 0, stop: a1, step: by },
                            Some(s) => Range { start: a1, stop: s, step: by },
                        };
                        let (s, v) = self.allocate(Entry::Simple(Obj::Range(r)));
                        (s, Ok(v))
                    },
                }
            },
        }
    }

    /// `repr(x)`: a new string with the representation of `x`.
    pub open spec fn builtin_repr(self, slots: Seq<Option<Value>>) -> (
        Store,
        Result<Value, ErrorKind>,
    ) {
        match required(slots, 0) {
            Err(k) => (self, Err(k)),
            Ok(v) => match self.to_repr(v) {
                Ok(t) => {
                    let (s, r) = self.allocate(Entry::Str(t));
                    (s, Ok(r))
                },
                Err(k) => (self, Err(k)),
            },
        }
    }

    /// `json(x)` and `debug(x)`: a new string with the text of `x` in the style.
    pub open spec fn builtin_show(self, slots: Seq<Option<Value>>, style: crate::repr::Style) -> (
        Store,
        Result<Value, ErrorKind>,
    ) {
        match required(slots, 0) {
            Err(k) => (self, Err(k)),
            Ok(v) => match self.show_onto(
                v,
                style,
                Seq::empty(),
                crate::equality::MAX_NESTING as nat,
            ) {
                Ok(t) => {
                    let (s, r) = self.allocate(Entry::Str(t));
                    (s, Ok(r))
                },
                Err(k) => (self, Err(k)),
            },
        }
    }

    /// `str(x)`: a string itself, else a new string with the representation of `x`.
    pub open spec fn builtin_str(self, slots: Seq<Option<Value>>) -> (
        Store,
        Result<Value, ErrorKind>,
    ) {
        match required(slots, 0) {
            Err(k) => (self, Err(k)),
            Ok(v) => match self.target(v) {
                Target::Str(_) => (self, Ok(v)),
                _ => self.builtin_repr(slots),
            },
        }
    }

    /// `type(x)`: a new string with the name of the type of `x`.
    pub open spec fn builtin_type(self, slots: Seq<Option<Value>>) -> (
        Store,
        Result<Value, ErrorKind>,
    ) {
        match required(slots, 0) {
            Err(k) => (self, Err(k)),
            Ok(v) => {
                let (s, r) = self.allocate(Entry::Str(self.get_type(v)));
                (s, Ok(r))
            },
        }
    }

    /// `bool(x)`: the truth value of `x`; false without an argument.
    pub open spec fn builtin_bool(self, slots: Seq<Option<Value>>) -> Result<Value, ErrorKind> {
        match arg(slots, 0) {
            Some(v) => Ok(Value::Bool(self.to_bool(v))),
            None => Ok(Value::Bool(false)),
        }
    }

    /// `len(x)`: the length of `x`.
    pub open spec fn builtin_len(self, slots: Seq<Option<Value>>) -> Result<Value, ErrorKind> {
        match required(slots, 0) {
            Err(k) => Err(k),
            Ok(v) => match self.length(v) {
                Ok(n) => Ok(Value::Int(n)),
                Err(k) => Err(k),
            },
        }
    }

    /// `abs(x)`: the absolute value of the integer `x`.
    pub open spec fn builtin_abs(self, slots: Seq<Option<Value>>) -> Result<Value, ErrorKind> {
        match int_arg(slots, 0) {
            Err(k) => Err(k),
            Ok(n) => match int_abs(n) {
                Ok(m) => Ok(Value::Int(m)),
                Err(k) => Err(k),
            },
        }
    }

    /// `fail(msg)`: always an error of the program.
    pub open spec fn builtin_fail(self, slots: Seq<Option<Value>>) -> Result<Value, ErrorKind> {
        match required(slots, 0) {
            Err(k) => Err(k),
            Ok(_) => Err(ErrorKind::UserFail),
        }
    }
}

/// The argument in slot `i`.
pub fn get_arg(slots: &Vec<Option<Value>>, i: usize) -> (r: Option<Value>)
    ensures
        r == arg(slots@, i as int),
{
    if i < slots.len() {
        slots[i]
    } else {
        None
    }
}

fn missing(name: &str) -> (e: Error)
    ensures
        e.kind == ErrorKind::MissingRequired,
        e.span is None,
{
    Error::with_message(
        ErrorKind::MissingRequired,
        crate::errors::frame("Missing parameter `", name, "`"),
    )
}

/// The message for the argument `name` that should be of the type `expected` and is of
/// the type `actual`.
pub open spec fn mismatch_text(name: Seq<char>, expected: Seq<char>, actual: Seq<char>) -> Seq<char> {
    framed(
        framed(
            framed("Type of parameter `"@, name, "` doesn't match, expected `"@),
            expected,
            "`, actual `"@,
        ),
        actual,
        "`"@,
    )
}

/// The message of `chr` for the number `code`, which is no code point: the number is
/// shown as the 32 bits that hold it, in hexadecimal.
pub open spec fn chr_text(code: i32) -> Seq<char> {
    framed(
        "chr() parameter value is 0x"@,
        crate::text::digits(
            (if code >= 0 {
                code as int
            } else {
                code + 0x1_0000_0000
            }) as nat,
            16,
        ),
        " which is not a valid UTF-8 codepoint"@,
    )
}

/// The error for an argument of the wrong type.
pub fn mismatch(mem: &Memory, name: &str, expected: &str, actual: Value) -> (e: Error)
    ensures
        e.kind == ErrorKind::WrongType,
        e.message@ == mismatch_text(name@, expected@, mem@.get_type(actual)),
        e.span is None,
{
    let head = crate::errors::frame("Type of parameter `", name, "` doesn't match, expected `");
    let mid = crate::errors::frame(head.as_str(), expected, "`, actual `");
    Error::with_message(
        ErrorKind::WrongType,
        crate::errors::frame(mid.as_str(), mem.get_type(actual), "`"),
    )
}

/// The argument `name` in slot `i`, which must be there.
pub fn get_required(slots: &Vec<Option<Value>>, i: usize, name: &str) -> (r: Result<Value, Error>)
    ensures
        agrees(r, required(slots@, i as int)),
{
    match get_arg(slots, i) {
        Some(v) => Ok(v),
        None => Err(missing(name)),
    }
}

/// The argument `name` in slot `i`, which must be there and be an integer.
pub fn get_int(mem: &Memory, slots: &Vec<Option<Value>>, i: usize, name: &str) -> (r: Result<
    i32,
    Error,
>)
    ensures
        agrees(r, int_arg(slots@, i as int)),
{
    match get_arg(slots, i) {
        Some(Value::Int(n)) => Ok(n),
        Some(other) => Err(mismatch(mem, name, "int", other)),
        None => Err(missing(name)),
    }
}

fn starts_with_base(chars: &Vec<char>, from: usize, radix: u32) -> (r: bool)
    requires
        from <= chars.len(),
    ensures
        r == has_base_prefix(chars@.skip(from as int), radix as int),
{
    if chars.len() - from < 2 {
        return false;
    }
    let a = chars[from];
    let b = chars[from + 1];
    assert(chars@.skip(from as int)[0] == a);
    assert(chars@.skip(from as int)[1] == b);
    a == '0' && ((radix == 16 && (b == 'x' || b == 'X')) || (radix == 8 && (b == 'o' || b == 'O'))
        || (radix == 2 && (b == 'b' || b == 'B')))
}

/// The integer that `int()` reads from the text `s` in the base `base`.
pub fn int_from_text(s: &str, base: i32) -> (r: Result<i32, Error>)
    ensures
        agrees(r, int_of_text(s@, base as int)),
{
    if base == 1 || base < 0 || base > 36 {
        let shown = crate::text::int_to_string(base);
        return Err(
            Error::fail(
                crate::errors::frame(
                    "",
                    shown.as_str(),
                    " is not a valid base, int() base must be >= 2 and <= 36",
                ),
            ),
        );
    }
    let chars = to_chars(s);
    let negative = chars.len() > 0 && chars[0] == '-';
    let from: usize = if chars.len() > 0 && (chars[0] == '+' || chars[0] == '-') {
        1
    } else {
        0
    };
    let ghost body = chars@.skip(from as int);
    assert(chars@.skip(0) == chars@);
    let radix: u32 = if base != 0 {
        base as u32
    } else if starts_with_base(&chars, from, 2) {
        2
    } else if starts_with_base(&chars, from, 8) {
        8
    } else if starts_with_base(&chars, from, 16) {
        16
    } else {
        10
    };
    assert(radix == int_base(body, base as int));
    let skip: usize = if starts_with_base(&chars, from, radix) {
        from + 2
    } else {
        from
    };
    let mut digits: Vec<char> = Vec::new();
    let mut i: usize = skip;
    while i < chars.len()
        invariant
            skip <= i <= chars.len(),
            digits@ == chars@.subrange(skip as int, i as int),
        decreases chars.len() - i,
    {
        digits.push(chars[i]);
        i += 1;
        assert(chars@.subrange(skip as int, i as int) == chars@.subrange(
            skip as int,
            i - 1,
        ).push(chars@[i - 1]));
    }
    assert(chars@.subrange(skip as int, chars.len() as int) == chars@.skip(skip as int));
    if skip == from + 2 {
        assert(body.skip(2) =~= chars@.skip(from + 2));
    }
    let failed = Error::fail(
        crate::errors::frame(
            "",
            s,
            " is not a valid number",
        ),
    );
    match parse_int_radix(&digits, radix) {
        Some(v) => {
            if negative {
                if v == i32::MIN {
                    Err(failed)
                } else {
                    Ok(-v)
                }
            } else {
                Ok(v)
            }
        },
        None => Err(failed),
    }
}

impl Memory {
    /// `chr(i)`.
    pub fn builtin_chr(&mut self, slots: &Vec<Option<Value>>) -> (r: Result<Value, Error>)
        ensures
            did(final(self)@, r, old(self)@.builtin_chr(slots@)),
            match required(slots@, 0) {
                Ok(v) => match old(self)@.to_int(v) {
                    Ok(code) => !is_scalar(code as int) ==> r is Err && r->Err_0.message@
                        == chr_text(code),
                    Err(_) => true,
                },
                Err(_) => true,
            },
    {
        let v = match get_required(slots, 0, "i") {
            Ok(v) => v,
            Err(e) => {
                return Err(e);
            },
        };
        let code = match self.to_int(v) {
            Ok(c) => c,
            Err(e) => {
                return Err(e);
            },
        };
        let cp: u32 = if code >= 0 {
            code as u32
        } else {
            (code as i64 + 0x1_0000_0000) as u32
        };
        match char::from_u32(cp) {
            Some(c) => {
                let mut one: Vec<char> = Vec::new();
                one.push(c);
                let text = from_chars(&one);
                Ok(self.alloc_str(text))
            },
            None => {
                let hex = hex_string(cp);
                Err(
                    Error::fail(
                        crate::errors::frame(
                            "chr() parameter value is 0x",
                            hex.as_str(),
                            " which is not a valid UTF-8 codepoint",
                        ),
                    ),
                )
            },
        }
    }

    /// `ord(s)`.
    pub fn builtin_ord(&self, slots: &Vec<Option<Value>>) -> (r: Result<Value, Error>)
        ensures
            agrees(r, self@.builtin_ord(slots@)),
    {
        let v = match get_required(slots, 0, "a") {
            Ok(v) => v,
            Err(e) => {
                return Err(e);
            },
        };
        match self.unpack_str(v) {
            Some(s) => {
                let chars = to_chars(s.as_str());
                if chars.len() == 1 {
                    let c: char = chars[0];
                    let code: u32 = c as u32;
                    return Ok(Value::Int(code as i32));
                }
            },
            None => {},
        }
        let shown = match self.to_repr(v) {
            Ok(s) => s,
            Err(_) => crate::text::owned("?"),
        };
        Err(
            Error::fail(
                crate::errors::frame("ord(): ", shown.as_str(), " is not a single character string"),
            ),
        )
    }

    /// `hash(s)`.
    pub fn builtin_hash(&self, slots: &Vec<Option<Value>>) -> (r: Result<Value, Error>)
        ensures
            agrees(r, self@.builtin_hash(slots@)),
            match required(slots@, 0) {
                Ok(v) => !(self@.target(v) is Str) ==> r is Err && r->Err_0.message@
                    == mismatch_text("a"@, "string"@, self@.get_type(v)),
                Err(_) => true,
            },
    {
        let v = match get_required(slots, 0, "a") {
            Ok(v) => v,
            Err(e) => {
                return Err(e);
            },
        };
        match self.unpack_str(v) {
            Some(s) => Ok(Value::Int(crate::text::hash_str(s.as_str()))),
            None => Err(mismatch(self, "a", "string", v)),
        }
    }

    /// `int(x, base)`.
    pub fn builtin_int(&self, slots: &Vec<Option<Value>>) -> (r: Result<Value, Error>)
        ensures
            agrees(r, self@.builtin_int(slots@)),
    {
        let a = match get_arg(slots, 0) {
            Some(a) => a,
            None => {
                return Ok(Value::Int(0));
            },
        };
        match self.unpack_str(a) {
            Some(s) => {
                let base = match get_arg(slots, 1) {
                    Some(b) => match self.to_int(b) {
                        Ok(b) => b,
                        Err(e) => {
                            return Err(e);
                        },
                    },
                    None => 0,
                };
                match int_from_text(s.as_str(), base) {
                    Ok(n) => Ok(Value::Int(n)),
                    Err(e) => Err(e),
                }
            },
            None => match get_arg(slots, 1) {
                Some(_) => Err(
                    Error::new(
                        ErrorKind::UnexpectedNamed,
                        "int() cannot convert non-string with explicit base",
                    ),
                ),
                None => match self.to_int(a) {
                    Ok(n) => Ok(Value::Int(n)),
                    Err(e) => Err(e),
                },
            },
        }
    }

    /// `range(a1, a2, step)`.
    pub fn builtin_range(&mut self, slots: &Vec<Option<Value>>) -> (r: Result<Value, Error>)
        ensures
            did(final(self)@, r, old(self)@.builtin_range(slots@)),
    {
        let a1 = match get_int(self, slots, 0, "a1") {
            Ok(n) => n,
            Err(e) => {
                return Err(e);
            },
        };
        let a2 = match get_arg(slots, 1) {
            None => None,
            Some(Value::Int(n)) => Some(n),
            Some(other) => {
                return Err(mismatch(self, "a2", "int", other));
            },
        };
        let step = match get_arg(slots, 2) {
            None => 1,
            Some(Value::Int(n)) => n,
            Some(other) => {
                return Err(mismatch(self, "step", "int", other));
            },
        };
        if step == 0 {
            return Err(
                Error::new(ErrorKind::UserFail, "Third argument of range (step) cannot be zero"),
            );
        }
        let r = match a2 {
            None => Range { start: 0, stop: a1, step },
            Some(s) => Range { start: a1, stop: s, step },
        };
        Ok(self.alloc_object(Object::Range(r)))
    }

    /// `repr(x)`.
    pub fn builtin_repr(&mut self, slots: &Vec<Option<Value>>) -> (r: Result<Value, Error>)
        ensures
            did(final(self)@, r, old(self)@.builtin_repr(slots@)),
    {
        let v = match get_required(slots, 0, "a") {
            Ok(v) => v,
            Err(e) => {
                return Err(e);
            },
        };
        match self.to_repr(v) {
            Ok(t) => Ok(self.alloc_str(t)),
            Err(e) => Err(e),
        }
    }

    /// `json(x)` and `debug(x)`.
    pub fn builtin_show(&mut self, slots: &Vec<Option<Value>>, style: crate::repr::Style) -> (r:
        Result<Value, Error>)
        ensures
            did(final(self)@, r, old(self)@.builtin_show(slots@, style)),
    {
        let v = match get_required(slots, 0, "x") {
            Ok(v) => v,
            Err(e) => {
                return Err(e);
            },
        };
        match self.show(v, style) {
            Ok(t) => Ok(self.alloc_str(t)),
            Err(e) => Err(e),
        }
    }

    /// `str(x)`.
    pub fn builtin_str(&mut self, slots: &Vec<Option<Value>>) -> (r: Result<Value, Error>)
        ensures
            did(final(self)@, r, old(self)@.builtin_str(slots@)),
    {
        let v = match get_required(slots, 0, "a") {
            Ok(v) => v,
            Err(e) => {
                return Err(e);
            },
        };
        if self.unpack_str(v).is_some() {
            Ok(v)
        } else {
            self.builtin_repr(slots)
        }
    }

    /// `type(x)`.
    pub fn builtin_type(&mut self, slots: &Vec<Option<Value>>) -> (r: Result<Value, Error>)
        ensures
            did(final(self)@, r, old(self)@.builtin_type(slots@)),
    {
        let v = match get_required(slots, 0, "a") {
            Ok(v) => v,
            Err(e) => {
                return Err(e);
            },
        };
        let name = crate::text::owned(self.get_type(v));
        Ok(self.alloc_str(name))
    }

    /// `bool(x)`.
    pub fn builtin_bool(&self, slots: &Vec<Option<Value>>) -> (r: Result<Value, Error>)
        ensures
            agrees(r, self@.builtin_bool(slots@)),
    {
        match get_arg(slots, 0) {
            Some(v) => Ok(Value::Bool(self.to_bool(v))),
            None => Ok(Value::Bool(false)),
        }
    }

    /// `len(x)`.
    pub fn builtin_len(&self, slots: &Vec<Option<Value>>) -> (r: Result<Value, Error>)
        ensures
            agrees(r, self@.builtin_len(slots@)),
    {
        let v = match get_required(slots, 0, "a") {
            Ok(v) => v,
            Err(e) => {
                return Err(e);
            },
        };
        match self.length(v) {
            Ok(n) => Ok(Value::Int(n)),
            Err(e) => Err(e),
        }
    }

    /// `abs(x)`.
    pub fn builtin_abs(&self, slots: &Vec<Option<Value>>) -> (r: Result<Value, Error>)
        ensures
            agrees(r, self@.builtin_abs(slots@)),
    {
        let n = match get_int(self, slots, 0, "x") {
            Ok(n) => n,
            Err(e) => {
                return Err(e);
            },
        };
        match int_abs_exec(n) {
            Ok(m) => Ok(Value::Int(m)),
            Err(e) => Err(e),
        }
    }

    /// `fail(msg)`: fails with the message `fail(): ` followed by the text of `msg`.
    pub fn builtin_fail(&self, slots: &Vec<Option<Value>>) -> (r: Result<Value, Error>)
        ensures
            agrees(r, self@.builtin_fail(slots@)),
            match arg(slots@, 0) {
                Some(v) => match self@.to_str(v) {
                    Ok(t) => r->Err_0.message@ == "fail(): "@ + t,
                    Err(_) => true,
                },
                None => true,
            },
    {
        let v = match get_required(slots, 0, "msg") {
            Ok(v) => v,
            Err(e) => {
                return Err(e);
            },
        };
        let shown = match self.to_str(v) {
            Ok(s) => s,
            Err(_) => crate::text::owned("?"),
        };
        let mut message = crate::text::owned("fail(): ");
        message.append(shown.as_str());
        Err(Error::fail(message))
    }
}

} // verus!
