//! Text utilities: characters of a string, the string hash, and numbers as text.
use vstd::prelude::*;
use itertools::Itertools;

verus! {

/// The texts `parts` in order, with `sep` between each two.
pub open spec fn joined(parts: Seq<Seq<char>>, sep: Seq<char>) -> Seq<char>
    decreases parts.len(),
{
    if parts.len() == 0 {
        Seq::empty()
    } else if parts.len() == 1 {
        parts[0]
    } else {
        joined(parts.drop_last(), sep) + sep + parts.last()
    }
}

/// `Itertools::join` on the strings of a vector: all of them in order in one string, with
/// `sep` between each two, and the empty string for no strings.
#[verifier::external_body]
pub(crate) fn join(parts: &Vec<String>, sep: &str) -> (out: String)
    ensures
        out@ == joined(parts.deep_view(), sep@),
{
    parts.iter().join(sep)
}

/// `String::push` appends one character.
pub assume_specification[ String::push ](s: &mut String, c: char)
    ensures
        final(s)@ == old(s)@.push(c),
;

/// Two string slices are equal when they hold the same characters.
pub assume_specification[ <str as PartialEq>::eq ](a: &str, b: &str) -> (r: bool)
    ensures
        r == (a@ == b@),
;

/// Do `a` and `b` hold the same characters?
pub fn same_text(a: &str, b: &str) -> (r: bool)
    ensures
        r == (a@ == b@),
{
    a.eq(b)
}

/// An owned copy of `s`.
pub fn owned(s: &str) -> (out: String)
    ensures
        out@ == s@,
{
    s.to_owned()
}

/// The characters of `s`, in order.
pub fn to_chars(s: &str) -> (out: Vec<char>)
    ensures
        out@ == s@,
{
    let n = s.unicode_len();
    let mut out: Vec<char> = Vec::new();
    let mut i: usize = 0;
    while i < n
        invariant
            n == s@.len(),
            i <= n,
            out@ == s@.take(i as int),
        decreases n - i,
    {
        out.push(s.get_char(i));
        i += 1;
        assert(s@.take(i as int) == s@.take(i - 1).push(s@[i - 1]));
    }
    assert(s@.take(n as int) == s@);
    out
}

/// The string made of the characters `chars`.
pub fn from_chars(chars: &Vec<char>) -> (out: String)
    ensures
        out@ == chars@,
{
    let mut out = String::new();
    let mut i: usize = 0;
    while i < chars.len()
        invariant
            i <= chars.len(),
            out@ == chars@.take(i as int),
        decreases chars.len() - i,
    {
        out.push(chars[i]);
        i += 1;
        assert(chars@.take(i as int) == chars@.take(i - 1).push(chars@[i - 1]));
    }
    assert(chars@.take(chars.len() as int) == chars@);
    out
}

/// The UTF-16 code units of one character: one unit below U+10000, else a surrogate pair.
pub open spec fn utf16_units(c: char) -> Seq<u16> {
    let cp = c as u32;
    if cp < 0x10000 {
        seq![cp as u16]
    } else {
        let v = (cp - 0x10000) as u32;
        seq![(0xD800 + v / 0x400) as u16, (0xDC00 + v % 0x400) as u16]
    }
}

/// The UTF-16 transcoding of a text.
pub open spec fn utf16(s: Seq<char>) -> Seq<u16>
    decreases s.len(),
{
    if s.len() == 0 {
        seq![]
    } else {
        utf16(s.drop_last()) + utf16_units(s.last())
    }
}

/// One step of the polynomial accumulator: `31 * h + unit`, wrapping at 32 bits.
pub open spec fn hash_step(h: i32, unit: u16) -> i32 {
    31i32.wrapping_mul(h).wrapping_add(unit as i32)
}

/// The polynomial hash of a sequence of code units, starting from 0.
pub open spec fn hash_units(units: Seq<u16>) -> i32
    decreases units.len(),
{
    if units.len() == 0 {
        0
    } else {
        hash_step(hash_units(units.drop_last()), units.last())
    }
}

/// The hash of a text: the polynomial hash of its UTF-16 transcoding.
pub open spec fn string_hash(s: Seq<char>) -> i32 {
    hash_units(utf16(s))
}

/// Appending one unit to the input advances the hash by one step.
pub proof fn lemma_hash_units_push(units: Seq<u16>, unit: u16)
    ensures
        hash_units(units.push(unit)) == hash_step(hash_units(units), unit),
{
    assert(units.push(unit).drop_last() == units);
}

/// The hash of a text: `h = 31 * h + unit` over its UTF-16 code units, wrapping, from 0.
pub fn hash_str(s: &str) -> (h: i32)
    ensures
        h == string_hash(s@),
{
    let chars = to_chars(s);
    let mut h: i32 = 0;
    let mut i: usize = 0;
    while i < chars.len()
        invariant
            i <= chars.len(),
            h == string_hash(chars@.take(i as int)),
        decreases chars.len() - i,
    {
        let cp: u32 = chars[i] as u32;
        let ghost before = chars@.take(i as int);
        proof {
            assert(chars@.take(i + 1).drop_last() == before);
            assert(chars@.take(i + 1).last() == chars@[i as int]);
        }
        if cp < 0x10000 {
            let unit: u16 = cp as u16;
            proof {
                lemma_hash_units_push(utf16(before), unit);
                assert(utf16(before) + seq![unit] == utf16(before).push(unit));
            }
            h = 31i32.wrapping_mul(h).wrapping_add(unit as i32);
        } else {
            let v: u32 = cp - 0x10000;
            let hi: u16 = (0xD800 + v / 0x400) as u16;
            let lo: u16 = (0xDC00 + v % 0x400) as u16;
            proof {
                lemma_hash_units_push(utf16(before), hi);
                lemma_hash_units_push(utf16(before).push(hi), lo);
                assert(utf16(before) + seq![hi, lo] == utf16(before).push(hi).push(lo));
            }
            h = 31i32.wrapping_mul(h).wrapping_add(hi as i32);
            h = 31i32.wrapping_mul(h).wrapping_add(lo as i32);
        }
        i += 1;
    }
    assert(chars@.take(chars.len() as int) == chars@);
    h
}

/// The character for the digit `d`, for `d` below 36: `0` to `9`, then `a` to `z`.
pub open spec fn digit_char(d: int) -> char {
    if d < 10 {
        (48 + d) as char
    } else {
        (87 + d) as char
    }
}

/// The digits of `n` in base `base`, most significant first, without leading zeros.
pub open spec fn digits(n: nat, base: nat) -> Seq<char>
    decreases n,
    via digits_decreases
{
    if n < base || base < 2 {
        seq![digit_char(n as int)]
    } else {
        digits(n / base, base).push(digit_char((n % base) as int))
    }
}

#[via_fn]
proof fn digits_decreases(n: nat, base: nat) {
    if !(n < base || base < 2) {
        assert(n / base < n) by (nonlinear_arith)
            requires
                n >= base,
                base >= 2,
        ;
    }
}

/// The decimal form of an integer, with a leading `-` when negative.
pub open spec fn decimal(i: int) -> Seq<char> {
    if i < 0 {
        seq!['-'] + digits((-i) as nat, 10)
    } else {
        digits(i as nat, 10)
    }
}

fn push_digits(n: u64, base: u64, out: &mut String)
    requires
        2 <= base <= 36,
    ensures
        final(out)@ == old(out)@ + digits(n as nat, base as nat),
    decreases n,
{
    if n >= base {
        assert(n / base < n) by (nonlinear_arith)
            requires
                n >= base,
                base >= 2,
        ;
        push_digits(n / base, base, out);
    }
    let ghost mid = out@;
    let d: u8 = (n % base) as u8;
    let c: char = if d < 10 {
        (48 + d) as char
    } else {
        (87 + d) as char
    };
    out.push(c);
    proof {
        assert(c == digit_char((n % base) as int));
        assert(out@ == mid.push(c));
        if n >= base {
            let rest = digits((n / base) as nat, base as nat);
            assert(mid == old(out)@ + rest);
            assert((n as nat) / (base as nat) == (n / base) as nat);
            assert((n as nat) % (base as nat) == (n % base) as nat);
            assert(digits(n as nat, base as nat) == rest.push(c));
            assert(mid.push(c) == old(out)@ + rest.push(c));
        } else {
            assert(n % base == n) by (nonlinear_arith)
                requires
                    n < base,
            ;
            assert(digits(n as nat, base as nat) == seq![digit_char(n as int)]);
            assert(old(out)@.push(c) == old(out)@ + seq![c]);
        }
    }
}

/// The decimal form of `i`.
pub fn int_to_string(i: i32) -> (out: String)
    ensures
        out@ == decimal(i as int),
{
    let mut out = String::new();
    if i < 0 {
        out.push('-');
        let m: u64 = (-(i as i64)) as u64;
        push_digits(m, 10, &mut out);
    } else {
        push_digits(i as u64, 10, &mut out);
    }
    assert(Seq::<char>::empty().push('-') == seq!['-']);
    assert(Seq::<char>::empty() + digits(i as nat, 10) == digits(i as nat, 10));
    out
}

/// The decimal form of a count.
pub fn count_to_string(n: usize) -> (out: String)
    ensures
        out@ == digits(n as nat, 10),
{
    let mut out = String::new();
    push_digits(n as u64, 10, &mut out);
    assert(Seq::<char>::empty() + digits(n as nat, 10) == digits(n as nat, 10));
    out
}

/// The hexadecimal form of `n`, in lower case and without a prefix.
pub fn hex_string(n: u32) -> (out: String)
    ensures
        out@ == digits(n as nat, 16),
{
    let mut out = String::new();
    push_digits(n as u64, 16, &mut out);
    assert(Seq::<char>::empty() + digits(n as nat, 16) == digits(n as nat, 16));
    out
}

/// The value of a character as a digit: `0`-`9`, then letters of either case from 10 on.
pub open spec fn digit_value(c: char) -> Option<int> {
    let cp = c as u32 as int;
    if 48 <= cp <= 57 {
        Some(cp - 48)
    } else if 97 <= cp <= 122 {
        Some(cp - 87)
    } else if 65 <= cp <= 90 {
        Some(cp - 55)
    } else {
        None
    }
}

/// The number that the digits `s` spell in base `radix`; `None` for an empty text or one
/// with a character that is no digit of that base.
pub open spec fn parse_digits(s: Seq<char>, radix: int) -> Option<int>
    decreases s.len(),
{
    if s.len() == 0 {
        None
    } else {
        match digit_value(s.last()) {
            Some(d) if d < radix => {
                if s.len() == 1 {
                    Some(d)
                } else {
                    match parse_digits(s.drop_last(), radix) {
                        Some(p) => Some(p * radix + d),
                        None => None,
                    }
                }
            },
            _ => None,
        }
    }
}

/// The integer that `s` spells in base `radix`: an optional `+` or `-`, then digits.
pub open spec fn parse_signed(s: Seq<char>, radix: int) -> Option<int> {
    if s.len() > 0 && s[0] == '-' {
        match parse_digits(s.skip(1), radix) {
            Some(v) => Some(-v),
            None => None,
        }
    } else if s.len() > 0 && s[0] == '+' {
        parse_digits(s.skip(1), radix)
    } else {
        parse_digits(s, radix)
    }
}

/// As [`parse_signed`], where the result fits in 32 bits.
pub open spec fn parse_i32(s: Seq<char>, radix: int) -> Option<i32> {
    match parse_signed(s, radix) {
        Some(v) if i32::MIN <= v <= i32::MAX => Some(v as i32),
        _ => None,
    }
}

/// A prefix of a well-formed digit string is well formed and spells no larger a number.
pub proof fn lemma_parse_digits_prefix(s: Seq<char>, radix: int, k: int)
    requires
        2 <= radix,
        1 <= k <= s.len(),
        parse_digits(s, radix) is Some,
    ensures
        parse_digits(s.take(k), radix) is Some,
        0 <= parse_digits(s.take(k), radix).unwrap() <= parse_digits(s, radix).unwrap(),
    decreases s.len(),
{
    if k == s.len() {
        assert(s.take(k) == s);
        lemma_parse_digits_nonneg(s, radix);
    } else {
        lemma_parse_digits_prefix(s.drop_last(), radix, k);
        assert(s.drop_last().take(k) == s.take(k));
        let p = parse_digits(s.drop_last(), radix).unwrap();
        lemma_parse_digits_nonneg(s.drop_last(), radix);
        assert(p * radix >= p) by (nonlinear_arith)
            requires
                p >= 0,
                radix >= 2,
        ;
    }
}

/// A well-formed digit string spells a number that is not negative.
pub proof fn lemma_parse_digits_nonneg(s: Seq<char>, radix: int)
    requires
        2 <= radix,
        parse_digits(s, radix) is Some,
    ensures
        parse_digits(s, radix).unwrap() >= 0,
    decreases s.len(),
{
    if s.len() > 1 {
        lemma_parse_digits_nonneg(s.drop_last(), radix);
        let p = parse_digits(s.drop_last(), radix).unwrap();
        assert(p * radix >= 0) by (nonlinear_arith)
            requires
                p >= 0,
                radix >= 2,
        ;
    }
}

fn digit_of(c: char) -> (d: Option<u32>)
    ensures
        match digit_value(c) {
            Some(v) => d == Some(v as u32),
            None => d is None,
        },
{
    let cp: u32 = c as u32;
    if 48 <= cp && cp <= 57 {
        Some(cp - 48)
    } else if 97 <= cp && cp <= 122 {
        Some(cp - 87)
    } else if 65 <= cp && cp <= 90 {
        Some(cp - 55)
    } else {
        None
    }
}

/// Reads the digits `chars[from..]` in base `radix`, up to a magnitude of 2^31.
fn parse_magnitude(chars: &Vec<char>, from: usize, radix: u32) -> (r: Option<u64>)
    requires
        2 <= radix <= 36,
        from <= chars.len(),
    ensures
        r is Some <==> (parse_digits(chars@.skip(from as int), radix as int) is Some
            && parse_digits(chars@.skip(from as int), radix as int).unwrap() <= 0x8000_0000),
        r is Some ==> r.unwrap() == parse_digits(chars@.skip(from as int), radix as int).unwrap(),
{
    let ghost s = chars@.skip(from as int);
    if from == chars.len() {
        return None;
    }
    proof {
        if parse_digits(s, radix as int) is Some {
            lemma_parse_digits_nonneg(s, radix as int);
        }
    }
    let mut acc: u64 = 0;
    let mut i: usize = from;
    while i < chars.len()
        invariant
            2 <= radix <= 36,
            from <= i <= chars.len(),
            from < chars.len(),
            s == chars@.skip(from as int),
            acc <= 0x8000_0000,
            i > from ==> parse_digits(s.take(i - from), radix as int) == Some(acc as int),
            i == from ==> acc == 0,
        decreases chars.len() - i,
    {
        let ghost k = i - from + 1;
        proof {
            assert(s.take(k).last() == chars@[i as int]);
            assert(s.take(k).drop_last() == s.take(k - 1));
        }
        let next = match digit_of(chars[i]) {
            Some(d) if d < radix => {
                assert(acc * radix <= 0x8000_0000 * 36) by (nonlinear_arith)
                    requires
                        acc <= 0x8000_0000,
                        radix <= 36,
                ;
                assert(acc == 0 ==> acc * radix == 0) by (nonlinear_arith);
                let shifted: u64 = acc * (radix as u64);
                assert(digit_value(chars@[i as int]) == Some(d as int));
                shifted + (d as u64)
            },
            _ => {
                proof {
                    if parse_digits(s, radix as int) is Some {
                        lemma_parse_digits_prefix(s, radix as int, k);
                    }
                }
                return None;
            },
        };
        proof {
            let d = digit_value(chars@[i as int]).unwrap();
            assert(s.take(k).len() == k);
            assert(next == acc * radix + d);
            if i == from {
                assert(acc * radix == 0) by (nonlinear_arith)
                    requires
                        acc == 0,
                ;
                assert(next == d);
            } else {
                assert(parse_digits(s.take(k - 1), radix as int) == Some(acc as int));
                assert(next == acc * radix + d);
            }
            assert(parse_digits(s.take(k), radix as int) == Some(next as int));
        }
        if next > 0x8000_0000 {
            proof {
                if parse_digits(s, radix as int) is Some {
                    lemma_parse_digits_prefix(s, radix as int, k);
                }
            }
            return None;
        }
        acc = next;
        i += 1;
    }
    assert(s.take(s.len() as int) == s);
    Some(acc)
}

/// Reads an integer in base `radix`: an optional sign, then at least one digit, the value
/// within 32 bits. `None` for anything else.
pub fn parse_int_radix(chars: &Vec<char>, radix: u32) -> (r: Option<i32>)
    requires
        2 <= radix <= 36,
    ensures
        r == parse_i32(chars@, radix as int),
{
    if chars.len() > 0 && chars[0] == '-' {
        match parse_magnitude(chars, 1, radix) {
            Some(m) => {
                let v: i64 = -(m as i64);
                Some(v as i32)
            },
            None => None,
        }
    } else {
        let from: usize = if chars.len() > 0 && chars[0] == '+' {
            1
        } else {
            0
        };
        assert(chars@.skip(0) == chars@);
        match parse_magnitude(chars, from, radix) {
            Some(m) => {
                if m <= 0x7fff_ffff {
                    Some(m as i32)
                } else {
                    None
                }
            },
            None => None,
        }
    }
}

/// One character as it stands inside a quoted text: the double quote, the backslash,
/// newline, carriage return and tab are written with a backslash, and so is the apostrophe
/// if `apostrophe` is set.
pub open spec fn escaped(c: char, apostrophe: bool) -> Seq<char> {
    if c == '"' {
        seq!['\\', '"']
    } else if c == '\'' && apostrophe {
        seq!['\\', '\'']
    } else if c == '\\' {
        seq!['\\', '\\']
    } else if c == '\n' {
        seq!['\\', 'n']
    } else if c == '\r' {
        seq!['\\', 'r']
    } else if c == '\t' {
        seq!['\\', 't']
    } else {
        seq![c]
    }
}

/// The characters of `s`, each escaped.
pub open spec fn escaped_all(s: Seq<char>, apostrophe: bool) -> Seq<char>
    decreases s.len(),
{
    if s.len() == 0 {
        seq![]
    } else {
        escaped_all(s.drop_last(), apostrophe) + escaped(s.last(), apostrophe)
    }
}

/// A text in double quotes, its characters escaped.
pub open spec fn quoted_with(s: Seq<char>, apostrophe: bool) -> Seq<char> {
    seq!['"'] + escaped_all(s, apostrophe) + seq!['"']
}

/// A text in double quotes, its characters escaped, the apostrophe too.
pub open spec fn quoted(s: Seq<char>) -> Seq<char> {
    quoted_with(s, true)
}

/// Appends `s` in double quotes, escaped, to `out`.
pub fn push_quoted_with(s: &str, apostrophe: bool, out: &mut String)
    ensures
        final(out)@ == old(out)@ + quoted_with(s@, apostrophe),
{
    let chars = to_chars(s);
    out.push('"');
    let mut i: usize = 0;
    while i < chars.len()
        invariant
            i <= chars.len(),
            out@ == old(out)@ + seq!['"'] + escaped_all(chars@.take(i as int), apostrophe),
        decreases chars.len() - i,
    {
        let c = chars[i];
        let ghost before = out@;
        proof {
            assert(chars@.take(i + 1).drop_last() == chars@.take(i as int));
            assert(chars@.take(i + 1).last() == c);
        }
        if c == '"' || (c == '\'' && apostrophe) || c == '\\' {
            out.push('\\');
            out.push(c);
            assert(out@ == before + escaped(c, apostrophe));
        } else if c == '\n' {
            out.push('\\');
            out.push('n');
            assert(out@ == before + escaped(c, apostrophe));
        } else if c == '\r' {
            out.push('\\');
            out.push('r');
            assert(out@ == before + escaped(c, apostrophe));
        } else if c == '\t' {
            out.push('\\');
            out.push('t');
            assert(out@ == before + escaped(c, apostrophe));
        } else {
            out.push(c);
            assert(out@ == before + escaped(c, apostrophe));
        }
        i += 1;
        assert(out@ == old(out)@ + seq!['"'] + escaped_all(chars@.take(i as int), apostrophe));
    }
    assert(chars@.take(chars.len() as int) == chars@);
    out.push('"');
    assert(final(out)@ == old(out)@ + quoted_with(s@, apostrophe));
}

} // verus!
