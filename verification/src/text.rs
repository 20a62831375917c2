//! Character-level text helpers shared by the command line, the report
//! and the terminal UI.

use vstd::prelude::*;

verus! {

/// Appends one character to a string (`String::push`).
#[verifier::external_body]
pub(crate) fn push_char(s: &mut String, c: char)
    ensures
        final(s)@ == old(s)@.push(c),
{
    s.push(c);
}

/// The characters of `s`, in order.
pub fn chars_of(s: &str) -> (out: Vec<char>)
    ensures
        out@ == s@,
{
    let mut out: Vec<char> = Vec::new();
    for c in it: s.chars()
        invariant
            out@ == it.seq().take(it.index() as int),
    {
        out.push(c);
    }
    out
}

/// Builds a string holding exactly the characters of `cs`.
pub fn string_from_chars(cs: &Vec<char>) -> (out: String)
    ensures
        out@ == cs@,
{
    let mut out = String::new();
    let mut i: usize = 0;
    while i < cs.len()
        invariant
            i <= cs.len(),
            out@ == cs@.take(i as int),
        decreases cs.len() - i,
    {
        push_char(&mut out, cs[i]);
        assert(cs@.take(i as int).push(cs@[i as int]) =~= cs@.take(i + 1));
        i = i + 1;
    }
    assert(cs@.take(cs.len() as int) =~= cs@);
    out
}


/// Whether two strings hold the same characters.
pub fn str_eq(a: &str, b: &str) -> (same: bool)
    ensures
        same == (a@ == b@),
{
    let n = a.unicode_len();
    if n != b.unicode_len() {
        return false;
    }
    let mut i: usize = 0;
    while i < n
        invariant
            n == a@.len(),
            n == b@.len(),
            i <= n,
            forall|k: int| 0 <= k < i ==> a@[k] == b@[k],
        decreases n - i,
    {
        if a.get_char(i) != b.get_char(i) {
            return false;
        }
        i = i + 1;
    }
    assert(a@ =~= b@);
    true
}

/// Unicode `White_Space` characters, as `char::is_whitespace` tests them.
pub open spec fn is_space(c: char) -> bool {
    ('\u{9}' <= c && c <= '\u{d}') || c == ' ' || c == '\u{85}' || c == '\u{a0}' || c == '\u{1680}'
        || ('\u{2000}' <= c && c <= '\u{200a}') || c == '\u{2028}' || c == '\u{2029}' || c
        == '\u{202f}' || c == '\u{205f}' || c == '\u{3000}'
}

/// Whether `c` is a Unicode white-space character.
pub fn is_space_char(c: char) -> (ws: bool)
    ensures
        ws == is_space(c),
{
    ('\u{9}' <= c && c <= '\u{d}') || c == ' ' || c == '\u{85}' || c == '\u{a0}' || c == '\u{1680}'
        || ('\u{2000}' <= c && c <= '\u{200a}') || c == '\u{2028}' || c == '\u{2029}' || c
        == '\u{202f}' || c == '\u{205f}' || c == '\u{3000}'
}

/// `t` is `s` with leading and trailing white space removed.
pub open spec fn is_trim_of(s: Seq<char>, t: Seq<char>) -> bool {
    exists|a: int, b: int|
        0 <= a <= b <= s.len() && t == s.subrange(a, b) && (forall|k: int| 0 <= k < a ==> is_space(
            #[trigger] s[k],
        )) && (forall|k: int| b <= k < s.len() ==> is_space(#[trigger] s[k])) && (a < b ==> !is_space(
            s[a],
        ) && !is_space(s[b - 1]))
}

/// `s` without leading and trailing white space (`str::trim`).
pub fn trim(s: &str) -> (t: String)
    ensures
        is_trim_of(s@, t@),
{
    let cs = chars_of(s);
    let n = cs.len();
    let mut a: usize = 0;
    while a < n && is_space_char(cs[a])
        invariant
            n == cs@.len(),
            a <= n,
            forall|k: int| 0 <= k < a ==> is_space(#[trigger] cs@[k]),
        decreases n - a,
    {
        a = a + 1;
    }
    let mut b: usize = n;
    while b > a && is_space_char(cs[b - 1])
        invariant
            n == cs@.len(),
            a <= b <= n,
            forall|k: int| b <= k < n ==> is_space(#[trigger] cs@[k]),
        decreases b - a,
    {
        b = b - 1;
    }
    let mut out: Vec<char> = Vec::new();
    let mut i: usize = a;
    while i < b
        invariant
            a <= i <= b <= n,
            n == cs@.len(),
            out@ == cs@.subrange(a as int, i as int),
        decreases b - i,
    {
        out.push(cs[i]);
        assert(cs@.subrange(a as int, i + 1) =~= cs@.subrange(a as int, i as int).push(cs@[i as int]));
        i = i + 1;
    }
    let t = string_from_chars(&out);
    assert(is_trim_of(s@, t@)) by {
        if a < b {
            assert(!is_space(cs@[a as int]));
        }
    }
    t
}

/// `needle` occurs as a contiguous run of characters in `hay`.
pub open spec fn contains_chars(hay: Seq<char>, needle: Seq<char>) -> bool {
    exists|i: int|
        0 <= i && i + needle.len() <= hay.len() && #[trigger] hay.subrange(i, i + needle.len())
            == needle
}

/// Whether `needle` occurs in `hay` (`str::contains` on text).
pub fn contains_str(hay: &str, needle: &str) -> (found: bool)
    ensures
        found == contains_chars(hay@, needle@),
{
    let h = chars_of(hay);
    let w = chars_of(needle);
    let n = h.len();
    let m = w.len();
    if m > n {
        return false;
    }
    let mut i: usize = 0;
    while i <= n - m
        invariant
            n == h@.len(),
            m == w@.len(),
            h@ == hay@,
            w@ == needle@,
            m <= n,
            i <= n - m + 1,
            forall|j: int| 0 <= j < i ==> #[trigger] h@.subrange(j, j + m) != w@,
        decreases n - m + 1 - i,
    {
        let mut k: usize = 0;
        while k < m && h[i + k] == w[k]
            invariant
                n == h@.len(),
                m == w@.len(),
                i + m <= n,
                k <= m,
                forall|t: int| 0 <= t < k ==> h@[i + t] == w@[t],
            decreases m - k,
        {
            k = k + 1;
        }
        if k == m {
            assert(h@.subrange(i as int, i + m) =~= w@);
            return true;
        }
        assert(h@.subrange(i as int, i + m)[k as int] != w@[k as int]);
        i = i + 1;
    }
    proof {
        assert forall|j: int| 0 <= j && j + needle@.len() <= hay@.len() implies #[trigger] hay@.subrange(j, j + needle@.len())
            != needle@ by {
            assert(j < i);
        }
    }
    false
}


/// Removes the last character of a string, if any (`String::pop`).
#[verifier::external_body]
pub(crate) fn pop_char(s: &mut String) -> (c: Option<char>)
    ensures
        old(s)@.len() == 0 ==> c is None && final(s)@ == old(s)@,
        old(s)@.len() > 0 ==> c == Some(old(s)@.last()) && final(s)@ == old(s)@.drop_last(),
{
    s.pop()
}

// ───────────────────────────── decimal numbers ─────────────────────────────

/// An ASCII decimal digit.
pub open spec fn is_digit(c: char) -> bool {
    '0' <= c && c <= '9'
}

/// The value of a decimal digit character.
pub open spec fn digit_value(c: char) -> nat {
    (c as int - '0' as int) as nat
}

/// The character of a decimal digit `d < 10`.
pub open spec fn digit_char(d: nat) -> char {
    if d == 0 {
        '0'
    } else if d == 1 {
        '1'
    } else if d == 2 {
        '2'
    } else if d == 3 {
        '3'
    } else if d == 4 {
        '4'
    } else if d == 5 {
        '5'
    } else if d == 6 {
        '6'
    } else if d == 7 {
        '7'
    } else if d == 8 {
        '8'
    } else {
        '9'
    }
}

/// The decimal notation of `n`, without sign or leading zeros.
pub open spec fn decimal_digits(n: nat) -> Seq<char>
    decreases n,
{
    if n < 10 {
        seq![digit_char(n)]
    } else {
        decimal_digits(n / 10).push(digit_char(n % 10))
    }
}

/// The value of a run of decimal digits (0 for the empty run).
pub open spec fn digits_value(s: Seq<char>) -> nat
    decreases s.len(),
{
    if s.len() == 0 {
        0
    } else {
        digits_value(s.drop_last()) * 10 + digit_value(s.last())
    }
}

/// Every character of `s` is a decimal digit.
pub open spec fn all_digits(s: Seq<char>) -> bool {
    forall|i: int| 0 <= i < s.len() ==> is_digit(#[trigger] s[i])
}

/// A number's text without its leading `+`, if it has one.
pub open spec fn unsigned_digits(s: Seq<char>) -> Seq<char> {
    if s.len() > 0 && s[0] == '+' {
        s.drop_first()
    } else {
        s
    }
}

/// The value of an unsigned decimal number written as text, as Rust's
/// integer parsing reads it (before any range check): an optional `+`
/// followed by one or more ASCII digits; `None` for any other text.
pub open spec fn decimal_value(s: Seq<char>) -> Option<nat> {
    let d = unsigned_digits(s);
    if d.len() > 0 && all_digits(d) {
        Some(digits_value(d))
    } else {
        None
    }
}

fn digit_to_char(d: u64) -> (c: char)
    requires
        d < 10,
    ensures
        c == digit_char(d as nat),
        is_digit(c),
        digit_value(c) == d,
{
    if d == 0 {
        '0'
    } else if d == 1 {
        '1'
    } else if d == 2 {
        '2'
    } else if d == 3 {
        '3'
    } else if d == 4 {
        '4'
    } else if d == 5 {
        '5'
    } else if d == 6 {
        '6'
    } else if d == 7 {
        '7'
    } else if d == 8 {
        '8'
    } else {
        '9'
    }
}

/// Appends the decimal notation of `n` to `out`.
fn push_decimal(out: &mut String, n: u64)
    ensures
        final(out)@ == old(out)@ + decimal_digits(n as nat),
    decreases n,
{
    if n >= 10 {
        push_decimal(out, n / 10);
    }
    let c = digit_to_char(n % 10);
    let ghost mid = out@;
    push_char(out, c);
    proof {
        if n < 10 {
            assert(decimal_digits(n as nat) =~= seq![c]);
        } else {
            assert(decimal_digits(n as nat) == decimal_digits((n / 10) as nat).push(c));
        }
        assert(out@ =~= old(out)@ + decimal_digits(n as nat));
    }
}

/// The decimal notation of `n` (`n.to_string()`).
pub fn decimal_string(n: u64) -> (s: String)
    ensures
        s@ == decimal_digits(n as nat),
{
    let mut s = String::new();
    push_decimal(&mut s, n);
    proof {
        assert(s@ =~= decimal_digits(n as nat));
    }
    s
}

proof fn lemma_digit_char(d: nat)
    requires
        d < 10,
    ensures
        is_digit(digit_char(d)),
        digit_value(digit_char(d)) == d,
        digit_char(d) != '+',
{
    assert('0' as int == 48 && '9' as int == 57);
    assert('1' as int == 49 && '2' as int == 50 && '3' as int == 51 && '4' as int == 52);
    assert('5' as int == 53 && '6' as int == 54 && '7' as int == 55 && '8' as int == 56);
}

proof fn lemma_decimal_digits_shape(n: nat)
    ensures
        decimal_digits(n).len() > 0,
        all_digits(decimal_digits(n)),
        digits_value(decimal_digits(n)) == n,
    decreases n,
{
    lemma_digit_char(n % 10);
    if n >= 10 {
        lemma_decimal_digits_shape(n / 10);
        let d = decimal_digits(n);
        assert(d.drop_last() =~= decimal_digits(n / 10));
        assert(d.last() == digit_char(n % 10));
        assert(digits_value(d) == digits_value(d.drop_last()) * 10 + digit_value(d.last()));
        assert((n / 10) * 10 + n % 10 == n);
        assert forall|i: int| 0 <= i < d.len() implies is_digit(#[trigger] d[i]) by {
            if i < d.len() - 1 {
                assert(d[i] == decimal_digits(n / 10)[i]);
            }
        }
    } else {
        let d = decimal_digits(n);
        assert(d.drop_last() =~= Seq::<char>::empty());
        assert(d[0] == digit_char(n));
        assert(n % 10 == n);
        assert(digits_value(d) == digits_value(d.drop_last()) * 10 + digit_value(d.last()));
    }
}

/// Reading back the decimal notation of a number gives the number.
pub proof fn lemma_decimal_round_trip(n: nat)
    ensures
        decimal_value(decimal_digits(n)) == Some(n),
{
    lemma_decimal_digits_shape(n);
    assert(is_digit(decimal_digits(n)[0]));
    assert(decimal_digits(n)[0] != '+');
}

pub(crate) proof fn lemma_digits_value_prefix(s: Seq<char>, k: int)
    requires
        all_digits(s),
        0 <= k <= s.len(),
    ensures
        digits_value(s.take(k)) <= digits_value(s),
    decreases s.len(),
{
    if k < s.len() {
        assert(all_digits(s.drop_last()));
        assert(s.drop_last().take(k) =~= s.take(k));
        lemma_digits_value_prefix(s.drop_last(), k);
    } else {
        assert(s.take(k) =~= s);
    }
}

/// Reads an unsigned decimal number no larger than `limit`: `Some(value)`
/// when `s` is such a number, `None` when it is not a number or is larger.
pub fn parse_decimal(s: &str, limit: u64) -> (r: Option<u64>)
    ensures
        r matches Some(v) ==> decimal_value(s@) == Some(v as nat) && v <= limit,
        r is None ==> !(decimal_value(s@) matches Some(w) && w <= limit),
{
    let cs = chars_of(s);
    let n = cs.len();
    let start: usize = if n > 0 && cs[0] == '+' { 1 } else { 0 };
    let ghost d = unsigned_digits(s@);
    proof {
        assert(d =~= cs@.subrange(start as int, n as int));
    }
    if start == n {
        return None;
    }
    let mut val: u64 = 0;
    let mut i: usize = start;
    while i < n
        invariant
            start <= i <= n,
            n == cs@.len(),
            cs@ == s@,
            d == cs@.subrange(start as int, n as int),
            d == unsigned_digits(s@),
            all_digits(d.take(i - start)),
            val == digits_value(d.take(i - start)),
            val <= limit,
        decreases n - i,
    {
        let c = cs[i];
        assert(d[i - start] == c);
        if !('0' <= c && c <= '9') {
            assert(!is_digit(d[i - start]));
            assert(!all_digits(d));
            return None;
        }
        let dv: u64 = (c as u32 - '0' as u32) as u64;
        proof {
            let t1 = d.take(i - start + 1);
            assert(t1.drop_last() =~= d.take(i - start));
            assert(t1.last() == c);
            assert(digit_value(c) == dv);
            assert(digits_value(t1) == val * 10 + dv);
            assert forall|k: int| 0 <= k < t1.len() implies is_digit(#[trigger] t1[k]) by {
                if k < i - start {
                    assert(t1[k] == d.take(i - start)[k]);
                }
            }
        }
        if dv > limit || val > (limit - dv) / 10 {
            proof {
                assert(val * 10 + dv > limit) by (nonlinear_arith)
                    requires
                        dv > limit || val > (limit - dv) / 10,
                        dv <= 9,
                ;
                if all_digits(d) {
                    lemma_digits_value_prefix(d, i - start + 1);
                }
            }
            return None;
        }
        proof {
            assert(val * 10 + dv <= limit) by (nonlinear_arith)
                requires
                    dv <= limit,
                    val <= (limit - dv) / 10,
            ;
        }
        val = val * 10 + dv;
        i = i + 1;
    }
    proof {
        assert(d.take(n - start) =~= d);
    }
    Some(val)
}

// ───────────────────────────── display helpers ─────────────────────────────

/// `s` cut to at most `max` characters for display: longer text keeps its
/// first `max - 3` characters (none when `max < 3`) followed by `...`.
pub open spec fn truncated(s: Seq<char>, max: nat) -> Seq<char> {
    if s.len() <= max {
        s
    } else {
        s.take(if max >= 3 { max - 3 } else { 0 }) + "..."@
    }
}

/// Truncates text for table display (see [`truncated`]).
pub fn truncate(s: &str, max_len: usize) -> (out: String)
    ensures
        out@ == truncated(s@, max_len as nat),
{
    let n = s.unicode_len();
    if n <= max_len {
        return s.to_owned();
    }
    let keep: usize = if max_len >= 3 { max_len - 3 } else { 0 };
    let mut out = String::new();
    let mut i: usize = 0;
    while i < keep
        invariant
            keep < n,
            n == s@.len(),
            i <= keep,
            out@ == s@.take(i as int),
        decreases keep - i,
    {
        push_char(&mut out, s.get_char(i));
        assert(s@.take(i + 1) =~= s@.take(i as int).push(s@[i as int]));
        i = i + 1;
    }
    out.append("...");
    out
}

/// Truncating what is already truncated changes nothing; the result never
/// holds more than `max` characters, or three when `max < 3`.
pub proof fn lemma_truncate_idempotent(s: Seq<char>, max: nat)
    ensures
        truncated(truncated(s, max), max) == truncated(s, max),
        truncated(s, max).len() <= if max >= 3 { max } else { 3 },
{
    reveal_strlit("...");
    let t = truncated(s, max);
    if s.len() > max {
        if max < 3 {
            assert(truncated(t, max) =~= t);
        }
    }
}


// ───────────────────────────── hexadecimal ─────────────────────────────

/// `s` without its space characters (U+0020 only).
pub open spec fn drop_spaces(s: Seq<char>) -> Seq<char>
    decreases s.len(),
{
    if s.len() == 0 {
        s
    } else if s.last() == ' ' {
        drop_spaces(s.drop_last())
    } else {
        drop_spaces(s.drop_last()).push(s.last())
    }
}

/// The value of an ASCII hexadecimal digit byte.
pub open spec fn hex_digit(b: u8) -> Option<u8> {
    if 0x30 <= b && b <= 0x39 {
        Some((b - 0x30) as u8)
    } else if 0x61 <= b && b <= 0x66 {
        Some((b - 0x61 + 10) as u8)
    } else if 0x41 <= b && b <= 0x46 {
        Some((b - 0x41 + 10) as u8)
    } else {
        None
    }
}

/// The byte written by two text bytes in base 16: both must be ASCII
/// hexadecimal digits, the first giving the high half.
pub open spec fn hex_pair(x: u8, y: u8) -> Option<u8> {
    match (hex_digit(x), hex_digit(y)) {
        (Some(h), Some(l)) => Some((h * 16 + l) as u8),
        _ => None,
    }
}

/// The bytes written by a text of even length read two bytes at a time;
/// `None` when some pair is not a byte in base 16.
pub open spec fn hex_bytes(b: Seq<u8>) -> Option<Seq<u8>>
    decreases b.len(),
{
    if b.len() < 2 {
        Some(Seq::empty())
    } else {
        match hex_pair(b[0], b[1]) {
            None => None,
            Some(v) => match hex_bytes(b.subrange(2, b.len() as int)) {
                None => None,
                Some(rest) => Some(seq![v] + rest),
            },
        }
    }
}

/// Why a hexadecimal text was refused.
#[derive(Clone, Copy, Debug, PartialEq, Eq, Structural)]
pub enum HexError {
    /// The text (without spaces) has an odd number of bytes.
    OddLength,
    /// Some pair is not a byte in base 16.
    InvalidDigit,
}

fn hex_digit_of(b: u8) -> (v: Option<u8>)
    ensures
        v == hex_digit(b),
{
    if 0x30 <= b && b <= 0x39 {
        Some(b - 0x30)
    } else if 0x61 <= b && b <= 0x66 {
        Some(b - 0x61 + 10)
    } else if 0x41 <= b && b <= 0x46 {
        Some(b - 0x41 + 10)
    } else {
        None
    }
}

fn hex_pair_of(x: u8, y: u8) -> (v: Option<u8>)
    ensures
        v == hex_pair(x, y),
{
    match (hex_digit_of(x), hex_digit_of(y)) {
        (Some(h), Some(l)) => Some(h * 16 + l),
        _ => None,
    }
}

proof fn lemma_hex_bytes_step(b: Seq<u8>, i: int, acc: Seq<u8>)
    requires
        0 <= i,
        i + 2 <= b.len(),
        i % 2 == 0,
        b.len() % 2 == 0,
        hex_bytes(b) == (match hex_bytes(b.subrange(i, b.len() as int)) {
            None => None,
            Some(rest) => Some(acc + rest),
        }),
    ensures
        hex_pair(b[i], b[i + 1]) is None ==> hex_bytes(b) is None,
        hex_pair(b[i], b[i + 1]) matches Some(v) ==> hex_bytes(b) == (match hex_bytes(b.subrange(i + 2, b.len() as int)) {
            None => None,
            Some(rest) => Some(acc.push(v) + rest),
        }),
{
    let t = b.subrange(i, b.len() as int);
    assert(t[0] == b[i] && t[1] == b[i + 1]);
    assert(t.subrange(2, t.len() as int) =~= b.subrange(i + 2, b.len() as int));
    if let Some(v) = hex_pair(b[i], b[i + 1]) {
        if let Some(rest) = hex_bytes(b.subrange(i + 2, b.len() as int)) {
            assert(acc + (seq![v] + rest) =~= acc.push(v) + rest);
        }
    }
}

/// Reads bytes written in hexadecimal, such as `"FF 01 02"`: surrounding
/// white space and every space are ignored, the rest must have an even
/// number of bytes, and each pair must be two ASCII hexadecimal digits,
/// giving one byte. Any other byte, such as a sign or a part of a
/// multi-byte character, makes the text invalid.
pub fn hex_to_bytes(hex: &str) -> (r: Result<Vec<u8>, HexError>)
    ensures
        forall|t: Seq<char>| #[trigger] is_trim_of(hex@, t) ==> {
            let b = vstd::utf8::encode_utf8(drop_spaces(t));
            &&& b.len() % 2 != 0 ==> r == Err::<Vec<u8>, HexError>(HexError::OddLength)
            &&& b.len() % 2 == 0 ==> match hex_bytes(b) {
                None => r == Err::<Vec<u8>, HexError>(HexError::InvalidDigit),
                Some(v) => r matches Ok(out) && out@ == v,
            }
        },
{
    let t = trim(hex);
    proof {
        assert forall|t2: Seq<char>| is_trim_of(hex@, t2) implies t2 == t@ by {
            crate::scanner::targets::lemma_trim_unique(hex@, t2, t@);
        }
    }
    let cs = chars_of(t.as_str());
    let mut kept: Vec<char> = Vec::new();
    let mut i: usize = 0;
    while i < cs.len()
        invariant
            i <= cs@.len(),
            cs@ == t@,
            kept@ == drop_spaces(t@.take(i as int)),
        decreases cs.len() - i,
    {
        assert(t@.take(i + 1).drop_last() =~= t@.take(i as int));
        if cs[i] != ' ' {
            kept.push(cs[i]);
        }
        i = i + 1;
    }
    assert(t@.take(cs@.len() as int) =~= t@);
    let cleaned = string_from_chars(&kept);
    let b = cleaned.as_str().as_bytes();
    let n = b.len();
    if n % 2 != 0 {
        return Err(HexError::OddLength);
    }
    let ghost all = b@;
    let mut out: Vec<u8> = Vec::new();
    let mut j: usize = 0;
    proof {
        assert(all.subrange(0, all.len() as int) =~= all);
        assert(Seq::<u8>::empty() + all =~= all);
    }
    while j < n
        invariant
            n == all.len(),
            b@ == all,
            all == vstd::utf8::encode_utf8(drop_spaces(t@)),
            forall|t2: Seq<char>| is_trim_of(hex@, t2) ==> t2 == t@,
            n % 2 == 0,
            j % 2 == 0,
            j <= n,
            hex_bytes(all) == (match hex_bytes(all.subrange(j as int, n as int)) {
                None => None,
                Some(rest) => Some(out@ + rest),
            }),
        decreases n - j,
    {
        proof {
            lemma_hex_bytes_step(all, j as int, out@);
        }
        match hex_pair_of(b[j], b[j + 1]) {
            None => {
                return Err(HexError::InvalidDigit);
            },
            Some(v) => {
                out.push(v);
            },
        }
        j = j + 2;
    }
    proof {
        assert(all.subrange(n as int, n as int) =~= Seq::<u8>::empty());
        assert(out@ + Seq::<u8>::empty() =~= out@);
    }
    Ok(out)
}

} // verus!
