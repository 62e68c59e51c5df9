//! Text decoder: detects and decodes the hex-encoded 16-bit-per-character
//! message encoding used by the modem (big-endian code units interpreted as
//! UTF-16), falling back to the raw text when the input is not eligible.

use vstd::prelude::*;
use vstd::utf8::is_scalar;
use crate::strutil::{chars_of, string_from_chars};

verus! {

/// Whitespace stripped from around a message body before detection.
pub open spec fn is_sms_ws(c: char) -> bool {
    c == ' ' || c == '\t' || c == '\r' || c == '\n'
}

/// `s` without its leading whitespace.
pub open spec fn trim_front(s: Seq<char>) -> Seq<char>
    decreases s.len(),
{
    if s.len() > 0 && is_sms_ws(s[0]) {
        trim_front(s.drop_first())
    } else {
        s
    }
}

/// `s` without its trailing whitespace.
pub open spec fn trim_back(s: Seq<char>) -> Seq<char>
    decreases s.len(),
{
    if s.len() > 0 && is_sms_ws(s[s.len() - 1]) {
        trim_back(s.drop_last())
    } else {
        s
    }
}

/// `s` without leading and trailing whitespace.
pub open spec fn trimmed(s: Seq<char>) -> Seq<char> {
    trim_back(trim_front(s))
}

/// ASCII hexadecimal digit.
pub open spec fn is_hex_digit(c: char) -> bool {
    ('0' <= c && c <= '9') || ('A' <= c && c <= 'F') || ('a' <= c && c <= 'f')
}

/// Numeric value of a hexadecimal digit.
pub open spec fn hex_val(c: char) -> int
    recommends
        is_hex_digit(c),
{
    if '0' <= c && c <= '9' {
        c as int - '0' as int
    } else if 'A' <= c && c <= 'F' {
        c as int - 'A' as int + 10
    } else {
        c as int - 'a' as int + 10
    }
}

/// A string is eligible for UCS2-hex decoding when it is non-empty, its
/// length is divisible by four, and every character is a hex digit.
pub open spec fn ucs2_hex_eligible(t: Seq<char>) -> bool {
    &&& t.len() > 0
    &&& t.len() % 4 == 0
    &&& forall|i: int| 0 <= i < t.len() ==> is_hex_digit(#[trigger] t[i])
}

/// The big-endian 16-bit code units spelled by groups of four hex digits.
pub open spec fn units_of_hex(t: Seq<char>) -> Seq<u16>
    recommends
        ucs2_hex_eligible(t),
{
    Seq::new((t.len() / 4) as nat, |i: int|
        (hex_val(t[4 * i]) * 0x1000 + hex_val(t[4 * i + 1]) * 0x100
            + hex_val(t[4 * i + 2]) * 0x10 + hex_val(t[4 * i + 3])) as u16)
}

/// High (leading) surrogate code unit.
pub open spec fn is_high_surrogate(u: u16) -> bool {
    0xD800 <= u && u < 0xDC00
}

/// Low (trailing) surrogate code unit.
pub open spec fn is_low_surrogate(u: u16) -> bool {
    0xDC00 <= u && u < 0xE000
}

/// Scalar value of a surrogate pair.
pub open spec fn combined_scalar(hi: u16, lo: u16) -> u32
    recommends
        is_high_surrogate(hi),
        is_low_surrogate(lo),
{
    (0x10000 + (hi - 0xD800) * 0x400 + (lo - 0xDC00)) as u32
}

/// The code-unit sequence is well-formed UTF-16: every high surrogate is
/// followed by a low surrogate, and no low surrogate stands alone.
pub open spec fn utf16_valid(u: Seq<u16>) -> bool
    decreases u.len(),
{
    if u.len() == 0 {
        true
    } else if is_high_surrogate(u[0]) {
        if u.len() < 2 {
            false
        } else {
            is_low_surrogate(u[1]) && utf16_valid(u.subrange(2, u.len() as int))
        }
    } else if is_low_surrogate(u[0]) {
        false
    } else {
        utf16_valid(u.drop_first())
    }
}

/// The characters denoted by a well-formed UTF-16 code-unit sequence.
pub open spec fn utf16_decode(u: Seq<u16>) -> Seq<char>
    recommends
        utf16_valid(u),
    decreases u.len(),
{
    if u.len() == 0 {
        Seq::empty()
    } else if is_high_surrogate(u[0]) {
        if u.len() < 2 {
            Seq::empty()
        } else {
            seq![combined_scalar(u[0], u[1]) as char] + utf16_decode(u.subrange(2, u.len() as int))
        }
    } else if is_low_surrogate(u[0]) {
        Seq::empty()
    } else {
        seq![(u[0] as u32) as char] + utf16_decode(u.drop_first())
    }
}

/// Relies on `char::from_u32`: `Some` exactly for Unicode scalar values,
/// and the returned character has the given scalar value.
pub assume_specification[ char::from_u32 ](v: u32) -> (r: Option<char>)
    ensures
        r is Some <==> is_scalar(v),
        r matches Some(c) ==> c as u32 == v,
;

proof fn lemma_trim_front_at(s: Seq<char>, lo: int)
    requires
        0 <= lo <= s.len(),
        forall|k: int| 0 <= k < lo ==> is_sms_ws(#[trigger] s[k]),
        lo == s.len() || !is_sms_ws(s[lo]),
    ensures
        trim_front(s) == s.subrange(lo, s.len() as int),
    decreases lo,
{
    if lo == 0 {
        assert(s.subrange(0, s.len() as int) =~= s);
    } else {
        let s2 = s.drop_first();
        lemma_trim_front_at(s2, lo - 1);
        assert(s2.subrange(lo - 1, s2.len() as int) =~= s.subrange(lo, s.len() as int));
    }
}

proof fn lemma_trim_back_at(s: Seq<char>, hi: int)
    requires
        0 <= hi <= s.len(),
        forall|k: int| hi <= k < s.len() ==> is_sms_ws(#[trigger] s[k]),
        hi == 0 || !is_sms_ws(s[hi - 1]),
    ensures
        trim_back(s) == s.subrange(0, hi),
    decreases s.len() - hi,
{
    if hi == s.len() {
        assert(s.subrange(0, s.len() as int) =~= s);
    } else {
        let s2 = s.drop_last();
        lemma_trim_back_at(s2, hi);
        assert(s2.subrange(0, hi) =~= s.subrange(0, hi));
    }
}

fn is_ws_exec(c: char) -> (r: bool)
    ensures
        r == is_sms_ws(c),
{
    c == ' ' || c == '\t' || c == '\r' || c == '\n'
}

fn is_hex_digit_exec(c: char) -> (r: bool)
    ensures
        r == is_hex_digit(c),
{
    let v = c as u32;
    (48 <= v && v <= 57) || (65 <= v && v <= 70) || (97 <= v && v <= 102)
}

fn hex_val_exec(c: char) -> (r: u32)
    requires
        is_hex_digit(c),
    ensures
        r == hex_val(c),
        r < 16,
{
    let v = c as u32;
    if v <= 57 {
        v - 48
    } else if v <= 70 {
        v - 65 + 10
    } else {
        v - 97 + 10
    }
}

/// The trimmed input, as a character vector.
pub fn trim_chars(cs: &Vec<char>) -> (r: Vec<char>)
    ensures
        r@ == trimmed(cs@),
{
    let n = cs.len();
    let mut lo: usize = 0;
    loop
        invariant
            lo <= n,
            n == cs@.len(),
            forall|k: int| 0 <= k < lo ==> is_sms_ws(#[trigger] cs@[k]),
        ensures
            lo <= n,
            lo == n || !is_sms_ws(cs@[lo as int]),
            forall|k: int| 0 <= k < lo ==> is_sms_ws(#[trigger] cs@[k]),
        decreases n - lo,
    {
        if lo >= n {
            break;
        }
        if !is_ws_exec(cs[lo]) {
            break;
        }
        lo = lo + 1;
    }
    let mut hi: usize = n;
    loop
        invariant
            lo <= hi <= n,
            n == cs@.len(),
            forall|k: int| hi <= k < n ==> is_sms_ws(#[trigger] cs@[k]),
        ensures
            lo <= hi <= n,
            hi == lo || !is_sms_ws(cs@[hi - 1]),
            forall|k: int| hi <= k < n ==> is_sms_ws(#[trigger] cs@[k]),
        decreases hi,
    {
        if hi <= lo {
            break;
        }
        if !is_ws_exec(cs[hi - 1]) {
            break;
        }
        hi = hi - 1;
    }
    proof {
        lemma_trim_front_at(cs@, lo as int);
        let front = cs@.subrange(lo as int, n as int);
        lemma_trim_back_at(front, hi - lo);
        assert(front.subrange(0, hi - lo) =~= cs@.subrange(lo as int, hi as int));
    }
    let mut t: Vec<char> = Vec::new();
    let mut i: usize = lo;
    while i < hi
        invariant
            lo <= i <= hi <= n,
            n == cs@.len(),
            t@ == cs@.subrange(lo as int, i as int),
        decreases hi - i,
    {
        t.push(cs[i]);
        i = i + 1;
        assert(t@ =~= cs@.subrange(lo as int, i as int));
    }
    assert(t@ == trimmed(cs@));
    t
}

/// Decode a UCS2-hex message body.
///
/// The trimmed input is eligible when it is non-empty, of length divisible
/// by four, and entirely hexadecimal.  Groups of four hex digits spell
/// big-endian 16-bit code units, which are decoded as UTF-16.  The result
/// is `Some` exactly when the input is eligible and the code units are
/// well-formed UTF-16; callers fall back to the raw text on `None`.
pub fn decode_ucs2_hex(text: &str) -> (r: Option<String>)
    ensures
        ({
            let t = trimmed(text@);
            ucs2_hex_eligible(t) && utf16_valid(units_of_hex(t)) <==> r is Some
        }),
        r matches Some(d) ==> d@ == utf16_decode(units_of_hex(trimmed(text@))),
{
    let cs = chars_of(text);
    let t = trim_chars(&cs);
    let n = t.len();
    if n == 0 || n % 4 != 0 {
        return None;
    }
    let mut i: usize = 0;
    while i < n
        invariant
            i <= n,
            n == t@.len(),
            t@ == trimmed(text@),
            forall|k: int| 0 <= k < i ==> is_hex_digit(#[trigger] t@[k]),
        decreases n - i,
    {
        if !is_hex_digit_exec(t[i]) {
            return None;
        }
        i = i + 1;
    }
    assert(ucs2_hex_eligible(t@));
    let ghost units = units_of_hex(t@);
    let mut us: Vec<u16> = Vec::new();
    let mut g: usize = 0;
    while g < n / 4
        invariant
            g <= n / 4,
            n == t@.len(),
            n % 4 == 0,
            ucs2_hex_eligible(t@),
            units == units_of_hex(t@),
            us@ == units.take(g as int),
        decreases n / 4 - g,
    {
        let a = hex_val_exec(t[4 * g]);
        let b = hex_val_exec(t[4 * g + 1]);
        let c = hex_val_exec(t[4 * g + 2]);
        let d = hex_val_exec(t[4 * g + 3]);
        let u = (a * 0x1000 + b * 0x100 + c * 0x10 + d) as u16;
        assert(u == units[g as int]);
        us.push(u);
        g = g + 1;
        assert(us@ =~= units.take(g as int));
    }
    assert(us@ =~= units);
    let m = us.len();
    let mut out: Vec<char> = Vec::new();
    let mut j: usize = 0;
    while j < m
        invariant
            j <= m,
            m == us@.len(),
            us@ == units,
            t@ == trimmed(text@),
            ucs2_hex_eligible(t@),
            units == units_of_hex(t@),
            utf16_valid(units) <==> utf16_valid(units.skip(j as int)),
            utf16_valid(units) ==> utf16_decode(units) == out@ + utf16_decode(units.skip(j as int)),
        decreases m - j,
    {
        let ghost rest = units.skip(j as int);
        assert(rest.len() > 0 && rest[0] == units[j as int]);
        let u = us[j];
        if 0xD800 <= u && u < 0xDC00 {
            if j + 1 >= m {
                assert(!utf16_valid(rest));
                return None;
            }
            let u2 = us[j + 1];
            assert(rest[1] == units[j + 1]);
            if !(0xDC00 <= u2 && u2 < 0xE000) {
                assert(!utf16_valid(rest));
                return None;
            }
            let v: u32 = 0x10000 + (u as u32 - 0xD800) * 0x400 + (u2 as u32 - 0xDC00);
            assert(v == combined_scalar(u, u2));
            assert(is_scalar(v)) by {
                assert(0x10000 <= v < 0x110000);
            }
            let c = char::from_u32(v).unwrap();
            proof {
                vstd::utf8::char_u32_cast(c, v);
            }
            out.push(c);
            proof {
                assert(rest.subrange(2, rest.len() as int) =~= units.skip(j + 2));
                assert(utf16_valid(rest) <==> utf16_valid(units.skip(j + 2)));
                if utf16_valid(units) {
                    assert(utf16_decode(rest) == seq![(v as char)] + utf16_decode(units.skip(j + 2)));
                    assert(out@ + utf16_decode(units.skip(j + 2)) =~= utf16_decode(units));
                }
            }
            j = j + 2;
        } else if 0xDC00 <= u && u < 0xE000 {
            assert(!utf16_valid(rest));
            return None;
        } else {
            let v: u32 = u as u32;
            assert(is_scalar(v));
            let c = char::from_u32(v).unwrap();
            proof {
                vstd::utf8::char_u32_cast(c, v);
            }
            out.push(c);
            proof {
                assert(rest.drop_first() =~= units.skip(j + 1));
                assert(utf16_valid(rest) <==> utf16_valid(units.skip(j + 1)));
                if utf16_valid(units) {
                    assert(utf16_decode(rest) == seq![(v as char)] + utf16_decode(units.skip(j + 1)));
                    assert(out@ + utf16_decode(units.skip(j + 1)) =~= utf16_decode(units));
                }
            }
            j = j + 1;
        }
    }
    assert(units.skip(m as int) =~= Seq::<u16>::empty());
    assert(utf16_valid(units));
    assert(out@ =~= utf16_decode(units));
    Some(string_from_chars(out.as_slice()))
}

} // verus!
