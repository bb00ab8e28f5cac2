//! The text the user types for a value, and the text shown for a value.
//!
//! Accepted input: surrounding whitespace, then one optional `+`, then either
//! `0x` and hexadecimal digits, `0b` and binary digits, or decimal digits.
//! Values are shown as decimal for one-bit fields and as zero-padded
//! upper-case hexadecimal otherwise.
use vstd::prelude::*;

verus! {

/// Why a text is not a 16-bit value.
#[derive(Clone, Copy, Debug, PartialEq, Eq, Structural)]
pub enum ParseError {
    /// No digits after the prefix.
    Empty,
    /// A character that is not a digit of the radix.
    InvalidDigit,
    /// A number above `0xFFFF`.
    Overflow,
}

/// Unicode White_Space, the characters that are trimmed off an input.
pub open spec fn is_whitespace(c: char) -> bool {
    let u = c as u32;
    u == 0x20 || (0x09 <= u && u <= 0x0d) || u == 0x85 || u == 0xa0 || u == 0x1680 || (0x2000
        <= u && u <= 0x200a) || u == 0x2028 || u == 0x2029 || u == 0x202f || u == 0x205f || u
        == 0x3000
}

pub open spec fn trim_start(s: Seq<char>) -> Seq<char>
    decreases s.len(),
{
    if s.len() > 0 && is_whitespace(s[0]) {
        trim_start(s.drop_first())
    } else {
        s
    }
}

pub open spec fn trim_end(s: Seq<char>) -> Seq<char>
    decreases s.len(),
{
    if s.len() > 0 && is_whitespace(s.last()) {
        trim_end(s.drop_last())
    } else {
        s
    }
}

/// `s` without leading and trailing whitespace.
pub open spec fn trim(s: Seq<char>) -> Seq<char> {
    trim_end(trim_start(s))
}

/// `t` without one leading `+`, if it has one.
pub open spec fn strip_plus(t: Seq<char>) -> Seq<char> {
    if t.len() > 0 && t[0] == '+' {
        t.drop_first()
    } else {
        t
    }
}

/// `t` starts with `0` followed by `c`.
pub open spec fn has_prefix(t: Seq<char>, c: char) -> bool {
    t.len() >= 2 && t[0] == '0' && t[1] == c
}

/// The radix that the prefix of `t` selects.
pub open spec fn radix_of(t: Seq<char>) -> nat {
    if has_prefix(t, 'x') {
        16
    } else if has_prefix(t, 'b') {
        2
    } else {
        10
    }
}

/// The digits of `t`, after its prefix.
pub open spec fn digits_of(t: Seq<char>) -> Seq<char> {
    if has_prefix(t, 'x') || has_prefix(t, 'b') {
        t.skip(2)
    } else {
        t
    }
}

/// The value of a digit character in any radix up to 36, or 36 for a
/// character that is no digit.
pub open spec fn digit_value(c: char) -> nat {
    let u = c as u32;
    if 0x30 <= u && u <= 0x39 {
        (u - 0x30) as nat
    } else if 0x61 <= u && u <= 0x7a {
        (u - 0x61 + 10) as nat
    } else if 0x41 <= u && u <= 0x5a {
        (u - 0x41 + 10) as nat
    } else {
        36
    }
}

pub open spec fn all_digits(d: Seq<char>, radix: nat) -> bool {
    forall|i: int| 0 <= i < d.len() ==> #[trigger] digit_value(d[i]) < radix
}

/// The number that the digits `d` spell in `radix`, most significant first.
pub open spec fn digits_value(d: Seq<char>, radix: nat) -> nat
    decreases d.len(),
{
    if d.len() == 0 {
        0
    } else {
        digits_value(d.drop_last(), radix) * radix + digit_value(d.last())
    }
}

/// What parsing the text `s` gives.
pub open spec fn parse_text(s: Seq<char>) -> Result<u16, ParseError> {
    let t = strip_plus(trim(s));
    let d = digits_of(t);
    let radix = radix_of(t);
    if d.len() == 0 {
        Err(ParseError::Empty)
    } else if !all_digits(d, radix) {
        Err(ParseError::InvalidDigit)
    } else if digits_value(d, radix) > 0xffff {
        Err(ParseError::Overflow)
    } else {
        Ok(digits_value(d, radix) as u16)
    }
}

/// The character of digit `d` (`0`-`9`, then upper-case `A`-`F`).
pub open spec fn digit_char(d: nat) -> char {
    if d < 10 {
        ((48 + d) as u8) as char
    } else {
        ((55 + d) as u8) as char
    }
}

/// `v` in `radix`, padded with zeros to at least `n` digits.
pub open spec fn digits_pad(v: nat, n: nat, radix: nat) -> Seq<char>
    decreases v, n,
    via digits_pad_decreases
{
    if radix < 2 || (v == 0 && n == 0) {
        Seq::empty()
    } else {
        let rest = if n > 0 {
            (n - 1) as nat
        } else {
            0
        };
        digits_pad(v / radix, rest, radix).push(digit_char(v % radix))
    }
}

#[via_fn]
proof fn digits_pad_decreases(v: nat, n: nat, radix: nat) {
    if radix >= 2 {
        assert(v / radix <= v && (v > 0 ==> v / radix < v)) by (nonlinear_arith)
            requires
                radix >= 2,
        ;
    }
}

/// The number of hexadecimal digits that show a field of `width` bits.
pub open spec fn hex_len(width: nat) -> nat {
    (width + 3) / 4
}

/// The text shown for the value `v` of a field of `width` bits.
pub open spec fn render_text(v: u16, width: u8) -> Seq<char> {
    if width == 1 {
        digits_pad(v as nat, 1, 10)
    } else {
        seq!['0', 'x'] + digits_pad(v as nat, hex_len(width as nat), 16)
    }
}

fn is_whitespace_exec(c: char) -> (r: bool)
    ensures
        r == is_whitespace(c),
{
    let u = c as u32;
    u == 0x20 || (0x09 <= u && u <= 0x0d) || u == 0x85 || u == 0xa0 || u == 0x1680 || (0x2000
        <= u && u <= 0x200a) || u == 0x2028 || u == 0x2029 || u == 0x202f || u == 0x205f || u
        == 0x3000
}

fn digit_value_exec(c: char) -> (r: u32)
    ensures
        r == digit_value(c),
{
    let u = c as u32;
    if 0x30 <= u && u <= 0x39 {
        u - 0x30
    } else if 0x61 <= u && u <= 0x7a {
        u - 0x61 + 10
    } else if 0x41 <= u && u <= 0x5a {
        u - 0x41 + 10
    } else {
        36
    }
}

/// The characters of `s`, in order.
fn chars_of(s: &str) -> (r: Vec<char>)
    ensures
        r@ == s@,
{
    let n = s.unicode_len();
    let mut r: Vec<char> = Vec::new();
    let mut i: usize = 0;
    while i < n
        invariant
            n == s@.len(),
            i <= n,
            r@ == s@.subrange(0, i as int),
        decreases n - i,
    {
        r.push(s.get_char(i));
        i += 1;
    }
    assert(r@ == s@);
    r
}

/// The value that the digits `v[start..end]` spell in `radix`.
fn digits_to_u16(v: &Vec<char>, start: usize, end: usize, radix: u32) -> (r: Result<u16, ParseError>)
    requires
        start < end <= v@.len(),
        radix == 2 || radix == 10 || radix == 16,
    ensures
        ({
            let d = v@.subrange(start as int, end as int);
            &&& !all_digits(d, radix as nat) ==> r == Err::<u16, ParseError>(ParseError::InvalidDigit)
            &&& all_digits(d, radix as nat) && digits_value(d, radix as nat) > 0xffff ==> r == Err::<u16, ParseError>(ParseError::Overflow)
            &&& all_digits(d, radix as nat) && digits_value(d, radix as nat) <= 0xffff ==> r == Ok::<u16, ParseError>(digits_value(d, radix as nat) as u16)
        }),
{
    let ghost d = v@.subrange(start as int, end as int);
    let mut acc: u32 = 0;
    let mut i: usize = start;
    while i < end
        invariant
            start <= i <= end <= v@.len(),
            radix == 2 || radix == 10 || radix == 16,
            d == v@.subrange(start as int, end as int),
            all_digits(v@.subrange(start as int, i as int), radix as nat),
            digits_value(v@.subrange(start as int, i as int), radix as nat) <= 0xffff ==> acc
                == digits_value(v@.subrange(start as int, i as int), radix as nat),
            digits_value(v@.subrange(start as int, i as int), radix as nat) > 0xffff ==> acc
                > 0xffff,
            acc <= 0xffff * 16 + 15,
        decreases end - i,
    {
        let dv = digit_value_exec(v[i]);
        if dv >= radix {
            assert(d[i - start] == v@[i as int]);
            assert(!all_digits(d, radix as nat));
            return Err(ParseError::InvalidDigit);
        }
        let ghost prev = v@.subrange(start as int, i as int);
        let ghost next = v@.subrange(start as int, i + 1);
        assert(next.drop_last() == prev);
        assert(next.last() == v@[i as int]);
        let ghost pv = digits_value(prev, radix as nat);
        assert(digits_value(next, radix as nat) == pv * radix + dv);
        if acc <= 0xffff {
            assert(acc * radix + dv <= 0xffff * 16 + 15) by (nonlinear_arith)
                requires
                    acc <= 0xffff,
                    radix <= 16,
                    dv < radix,
            ;
            acc = acc * radix + dv;
        } else {
            assert(pv * radix + dv > 0xffff) by (nonlinear_arith)
                requires
                    pv > 0xffff,
                    radix >= 2,
            ;
        }
        assert forall|j: int| 0 <= j < next.len() implies #[trigger] digit_value(next[j])
            < radix as nat by {
            if j < prev.len() {
                assert(next[j] == prev[j]);
            }
        }
        i += 1;
    }
    assert(v@.subrange(start as int, end as int) == d);
    if acc > 0xffff {
        Err(ParseError::Overflow)
    } else {
        Ok(acc as u16)
    }
}

/// Parses a 16-bit value: surrounding whitespace and one leading `+` are
/// skipped, then `0x` selects hexadecimal, `0b` binary, and anything else
/// decimal.
pub fn from_str_to_u16(src: &str) -> (r: Result<u16, ParseError>)
    ensures
        r == parse_text(src@),
{
    let v = chars_of(src);
    let n = v.len();
    let ghost s = v@;
    let mut lo: usize = 0;
    assert(s.subrange(0, n as int) == s);
    while lo < n && is_whitespace_exec(v[lo])
        invariant
            n == s.len(),
            s == v@,
            lo <= n,
            trim_start(s) == trim_start(s.subrange(lo as int, n as int)),
        decreases n - lo,
    {
        let ghost rest = s.subrange(lo as int, n as int);
        assert(rest.drop_first() == s.subrange(lo + 1, n as int));
        lo += 1;
    }
    assert(trim_start(s) == s.subrange(lo as int, n as int));
    let ghost front = s.subrange(lo as int, n as int);
    let mut hi: usize = n;
    while hi > lo && is_whitespace_exec(v[hi - 1])
        invariant
            n == s.len(),
            s == v@,
            lo <= hi <= n,
            front == s.subrange(lo as int, n as int),
            trim_end(front) == trim_end(s.subrange(lo as int, hi as int)),
        decreases hi,
    {
        let ghost rest = s.subrange(lo as int, hi as int);
        assert(rest.drop_last() == s.subrange(lo as int, hi - 1));
        hi -= 1;
    }
    let ghost t0 = s.subrange(lo as int, hi as int);
    assert(trim(s) == t0);
    let mut p = lo;
    if p < hi && v[p] == '+' {
        p += 1;
    }
    let ghost t = s.subrange(p as int, hi as int);
    assert(strip_plus(t0) == t);
    let mut start = p;
    let mut radix: u32 = 10;
    if hi - p >= 2 && v[p] == '0' && v[p + 1] == 'x' {
        start = p + 2;
        radix = 16;
    } else if hi - p >= 2 && v[p] == '0' && v[p + 1] == 'b' {
        start = p + 2;
        radix = 2;
    }
    if hi - p >= 2 {
        assert(t[0] == s[p as int] && t[1] == s[p + 1]);
    }
    assert(digits_of(t) == s.subrange(start as int, hi as int));
    assert(radix_of(t) == radix as nat);
    if start >= hi {
        Err(ParseError::Empty)
    } else {
        digits_to_u16(&v, start, hi, radix)
    }
}

/// Relies on `String::push`: appends one character at the end.
#[verifier::external_body]
pub(crate) fn push_char(s: &mut String, c: char)
    ensures
        final(s)@ == old(s)@.push(c),
{
    s.push(c)
}

fn digit_char_exec(d: u32) -> (r: char)
    requires
        d < 16,
    ensures
        r == digit_char(d as nat),
{
    if d < 10 {
        (48u8 + d as u8) as char
    } else {
        (55u8 + d as u8) as char
    }
}

/// Appends `v` in `radix`, padded with zeros to at least `n` digits.
pub(crate) fn push_digits(out: &mut String, v: u32, n: u32, radix: u32)
    requires
        2 <= radix <= 16,
    ensures
        final(out)@ == old(out)@ + digits_pad(v as nat, n as nat, radix as nat),
    decreases v, n,
{
    if v == 0 && n == 0 {
        assert(old(out)@ + Seq::<char>::empty() == old(out)@);
        return ;
    }
    assert(v / radix <= v && (v > 0 ==> v / radix < v)) by (nonlinear_arith)
        requires
            radix >= 2,
    ;
    let rest = if n > 0 {
        n - 1
    } else {
        0
    };
    push_digits(out, v / radix, rest, radix);
    push_char(out, digit_char_exec(v % radix));
    assert(out@ == old(out)@ + digits_pad((v / radix) as nat, rest as nat, radix as nat).push(
        digit_char((v % radix) as nat),
    ));
}

/// The text shown for the value `value` of a field of `width` bits: decimal
/// for one bit, else `0x` and upper-case hexadecimal digits, at least one for
/// each four bits.
pub fn render_value(value: u16, width: u8) -> (r: String)
    requires
        1 <= width <= 16,
    ensures
        r@ == render_text(value, width),
{
    if width == 1 {
        let mut out = String::new();
        push_digits(&mut out, value as u32, 1, 10);
        assert(out@ == Seq::<char>::empty() + digits_pad(value as nat, 1, 10));
        out
    } else {
        let mut out = String::new();
        push_char(&mut out, '0');
        push_char(&mut out, 'x');
        assert(out@ == seq!['0', 'x']);
        push_digits(&mut out, value as u32, ((width as u32) + 3) / 4, 16);
        out
    }
}

/// The text shown for a whole register: `0x` and four upper-case hexadecimal
/// digits.
pub fn from_u16_to_hex(src: u16) -> (r: String)
    ensures
        r@ == render_text(src, 16),
{
    render_value(src, 16)
}

/// A digit character as `digit_char` makes it: `0`-`9` or `A`-`F`.
pub open spec fn is_digit_char(c: char) -> bool {
    let u = c as u32;
    (0x30 <= u && u <= 0x39) || (0x41 <= u && u <= 0x46)
}

proof fn lemma_digit_char(k: nat)
    requires
        k < 16,
    ensures
        digit_value(digit_char(k)) == k,
        is_digit_char(digit_char(k)),
{
    let b: u8 = if k < 10 {
        (48 + k) as u8
    } else {
        (55 + k) as u8
    };
    assert(digit_char(k) == b as char);
    assert((b as char) as u32 == b as u32);
}

/// The padded digits of `v` are digits of the radix, at least one unless `v`
/// and `n` are zero, and spell `v`.
proof fn lemma_digits_pad(v: nat, n: nat, radix: nat)
    requires
        2 <= radix <= 16,
    ensures
        all_digits(digits_pad(v, n, radix), radix),
        forall|i: int|
            0 <= i < digits_pad(v, n, radix).len() ==> is_digit_char(
                #[trigger] digits_pad(v, n, radix)[i],
            ),
        digits_value(digits_pad(v, n, radix), radix) == v,
        (n >= 1 || v > 0) ==> digits_pad(v, n, radix).len() >= 1,
    decreases v, n,
{
    if v == 0 && n == 0 {
    } else {
        let rest = if n > 0 {
            (n - 1) as nat
        } else {
            0
        };
        assert(v / radix <= v && (v > 0 ==> v / radix < v)) by (nonlinear_arith)
            requires
                radix >= 2,
        ;
        lemma_digits_pad(v / radix, rest, radix);
        let front = digits_pad(v / radix, rest, radix);
        let d = digits_pad(v, n, radix);
        assert(v % radix < radix) by (nonlinear_arith)
            requires
                radix >= 2,
        ;
        lemma_digit_char(v % radix);
        assert(d == front.push(digit_char(v % radix)));
        assert(d.drop_last() == front);
        assert((v / radix) * radix + v % radix == v) by (nonlinear_arith)
            requires
                radix >= 2,
        ;
        assert forall|i: int| 0 <= i < d.len() implies #[trigger] digit_value(d[i]) < radix
            && is_digit_char(d[i]) by {
            if i < front.len() {
                assert(d[i] == front[i]);
            }
        }
    }
}

proof fn lemma_trim_unchanged(t: Seq<char>)
    requires
        t.len() >= 1,
        !is_whitespace(t[0]),
        !is_whitespace(t.last()),
    ensures
        trim(t) == t,
{
}

/// Parsing the text shown for a value gives the value back.
pub proof fn lemma_parse_render(v: u16, width: u8)
    requires
        1 <= width <= 16,
    ensures
        parse_text(render_text(v, width)) == Ok::<u16, ParseError>(v),
{
    if width == 1 {
        let d = digits_pad(v as nat, 1, 10);
        lemma_digits_pad(v as nat, 1, 10);
        assert(is_digit_char(d[0]) && is_digit_char(d[d.len() - 1]));
        lemma_trim_unchanged(d);
        if d.len() >= 2 {
            assert(is_digit_char(d[1]));
        }
        assert(digits_of(strip_plus(trim(d))) == d);
    } else {
        let d = digits_pad(v as nat, hex_len(width as nat), 16);
        lemma_digits_pad(v as nat, hex_len(width as nat), 16);
        let t = seq!['0', 'x'] + d;
        assert(is_digit_char(d[d.len() - 1]));
        assert(t.last() == d[d.len() - 1]);
        lemma_trim_unchanged(t);
        assert(t.skip(2) == d);
        assert(digits_of(strip_plus(trim(t))) == d);
    }
}

} // verus!
