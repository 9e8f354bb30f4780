//! Character-level text model shared by the other modules.
//!
//! Strings are modelled by their `Seq<char>` views. Every helper here states
//! its result over those views.

use vstd::prelude::*;
use vstd::std_specs::iter::IteratorSpec;

verus! {

/* ── Character classes ─────────────────────────────────────────────────── */

/// Unicode `White_Space` (what `char::is_whitespace` tests).
pub open spec fn is_ws(c: char) -> bool {
    ||| ('\u{9}' <= c && c <= '\u{d}')
    ||| c == ' '
    ||| c == '\u{85}'
    ||| c == '\u{a0}'
    ||| c == '\u{1680}'
    ||| ('\u{2000}' <= c && c <= '\u{200a}')
    ||| c == '\u{2028}'
    ||| c == '\u{2029}'
    ||| c == '\u{202f}'
    ||| c == '\u{205f}'
    ||| c == '\u{3000}'
}

/// `char::is_whitespace`.
pub fn char_is_whitespace(c: char) -> (b: bool)
    ensures
        b == is_ws(c),
{
    ('\u{9}' <= c && c <= '\u{d}') || c == ' ' || c == '\u{85}' || c == '\u{a0}' || c
        == '\u{1680}' || ('\u{2000}' <= c && c <= '\u{200a}') || c == '\u{2028}' || c
        == '\u{2029}' || c == '\u{202f}' || c == '\u{205f}' || c == '\u{3000}'
}

/// ASCII decimal digit.
pub open spec fn is_digit(c: char) -> bool {
    '0' <= c && c <= '9'
}

/// Value of an ASCII digit.
pub open spec fn digit_value(c: char) -> nat {
    ((c as u32) - ('0' as u32)) as nat
}

/// ASCII upper-case letter mapped to lower case; every other char unchanged.
pub open spec fn lower_char(c: char) -> char {
    if 'A' <= c && c <= 'Z' {
        ((c as u32) + 32) as char
    } else {
        c
    }
}

/// `to_ascii_lowercase` over a whole sequence.
pub open spec fn ascii_lower(s: Seq<char>) -> Seq<char> {
    s.map_values(|c: char| lower_char(c))
}

/// `char::to_ascii_lowercase`.
pub fn char_to_ascii_lower(c: char) -> (r: char)
    ensures
        r == lower_char(c),
{
    if 'A' <= c && c <= 'Z' {
        ((c as u8) + 32) as char
    } else {
        c
    }
}

/* ── Sequence predicates ───────────────────────────────────────────────── */

/// `s` begins with `p`.
pub open spec fn starts_with(s: Seq<char>, p: Seq<char>) -> bool {
    p.len() <= s.len() && s.take(p.len() as int) == p
}

/// `s` ends with `p`.
pub open spec fn ends_with(s: Seq<char>, p: Seq<char>) -> bool {
    p.len() <= s.len() && s.skip(s.len() - p.len()) == p
}

/// `p` occurs in `s` starting at index `i`.
pub open spec fn occurs_at(s: Seq<char>, p: Seq<char>, i: int) -> bool {
    0 <= i && i + p.len() <= s.len() && s.subrange(i, i + p.len()) == p
}

/// `p` is a substring of `s` (the empty pattern always is).
pub open spec fn has_substr(s: Seq<char>, p: Seq<char>) -> bool {
    exists|i: int| occurs_at(s, p, i)
}

/// Leading white space removed.
pub open spec fn trim_start(s: Seq<char>) -> Seq<char>
    decreases s.len(),
{
    if s.len() > 0 && is_ws(s[0]) {
        trim_start(s.drop_first())
    } else {
        s
    }
}

/// Trailing white space removed.
pub open spec fn trim_end(s: Seq<char>) -> Seq<char>
    decreases s.len(),
{
    if s.len() > 0 && is_ws(s.last()) {
        trim_end(s.drop_last())
    } else {
        s
    }
}

/// `str::trim`.
pub open spec fn trim(s: Seq<char>) -> Seq<char> {
    trim_end(trim_start(s))
}

/// Every char is ASCII.
pub open spec fn ascii_chars(s: Seq<char>) -> bool {
    forall|i: int| 0 <= i < s.len() ==> (#[trigger] s[i] as u32) < 128
}

/// A trimmed ASCII string is ASCII.
pub proof fn lemma_trim_ascii(s: Seq<char>)
    requires
        ascii_chars(s),
    ensures
        ascii_chars(trim_start(s)),
        ascii_chars(trim_end(s)),
        ascii_chars(trim(s)),
    decreases s.len(),
{
    if s.len() > 0 {
        assert(ascii_chars(s.drop_first())) by {
            assert forall|i: int| 0 <= i < s.drop_first().len() implies (#[trigger] s.drop_first()[i] as u32) < 128 by {
                assert(s.drop_first()[i] == s[i + 1]);
            }
        }
        assert(ascii_chars(s.drop_last())) by {
            assert forall|i: int| 0 <= i < s.drop_last().len() implies (#[trigger] s.drop_last()[i] as u32) < 128 by {
                assert(s.drop_last()[i] == s[i]);
            }
        }
        lemma_trim_ascii(s.drop_first());
        lemma_trim_ascii(s.drop_last());
    }
    if ascii_chars(trim_start(s)) {
        lemma_trim_end_ascii(trim_start(s));
    }
}

proof fn lemma_trim_end_ascii(s: Seq<char>)
    requires
        ascii_chars(s),
    ensures
        ascii_chars(trim_end(s)),
    decreases s.len(),
{
    if s.len() > 0 {
        assert(ascii_chars(s.drop_last())) by {
            assert forall|i: int| 0 <= i < s.drop_last().len() implies (#[trigger] s.drop_last()[i] as u32) < 128 by {
                assert(s.drop_last()[i] == s[i]);
            }
        }
        lemma_trim_end_ascii(s.drop_last());
    }
}

/// True when `s` is empty or white space only.
pub open spec fn is_blank(s: Seq<char>) -> bool {
    trim(s).len() == 0
}

/// Decimal rendering of `n` (no sign, no leading zeros).
pub open spec fn decimal(n: nat) -> Seq<char>
    decreases n,
{
    if n < 10 {
        seq![digit_char(n)]
    } else {
        decimal(n / 10).push(digit_char(n % 10))
    }
}

/// The ASCII digit for `d < 10`.
pub open spec fn digit_char(d: nat) -> char {
    (('0' as u32) + d) as char
}

/// Value of a digit string (most significant first).
pub open spec fn digits_value(s: Seq<char>) -> nat
    decreases s.len(),
{
    if s.len() == 0 {
        0
    } else {
        digits_value(s.drop_last()) * 10 + digit_value(s.last())
    }
}

/// Every char of `s` is an ASCII digit.
pub open spec fn all_digits(s: Seq<char>) -> bool {
    forall|i: int| 0 <= i < s.len() ==> is_digit(#[trigger] s[i])
}

/// What `str::parse::<u32>` accepts: an optional `+`, then one or more
/// digits whose value fits.
pub open spec fn parse_u32_spec(s: Seq<char>) -> Option<u32> {
    let body = if s.len() > 0 && s[0] == '+' {
        s.drop_first()
    } else {
        s
    };
    if body.len() > 0 && all_digits(body) && digits_value(body) <= u32::MAX {
        Some(digits_value(body) as u32)
    } else {
        None
    }
}

/// Digits after an optional leading `+` or `-`.
pub open spec fn signed_body(s: Seq<char>) -> Seq<char> {
    if s.len() > 0 && (s[0] == '+' || s[0] == '-') {
        s.drop_first()
    } else {
        s
    }
}

/// Signed value of `signed_body(s)`.
pub open spec fn signed_value(s: Seq<char>) -> int {
    if s.len() > 0 && s[0] == '-' {
        -(digits_value(signed_body(s)) as int)
    } else {
        digits_value(signed_body(s)) as int
    }
}

/// What `str::parse::<i64>` accepts: an optional `+` or `-`, then one or
/// more digits whose signed value fits.
pub open spec fn parse_i64_spec(s: Seq<char>) -> Option<i64> {
    if signed_body(s).len() > 0 && all_digits(signed_body(s)) && i64::MIN <= signed_value(s)
        <= i64::MAX {
        Some(signed_value(s) as i64)
    } else {
        None
    }
}

/* ── Strings in and out ────────────────────────────────────────────────── */

/// Characters of a string slice, in order.
pub fn str_chars(s: &str) -> (out: Vec<char>)
    ensures
        out@ == s@,
{
    let mut out: Vec<char> = Vec::new();
    for c in iter: s.chars()
        invariant
            out@ == iter.seq().take(iter.index() as int),
    {
        out.push(c);
    }
    proof {
        broadcast use vstd::string::axiom_spec_iter;

    }
    assert(out@ == s@);
    out
}

/// `String::push`: appends `c` to the end of `s`.
#[verifier::external_body]
pub(crate) fn push_char(s: &mut String, c: char)
    ensures
        final(s)@ == old(s)@.push(c),
{
    s.push(c);
}

/// `String::pop`: removes and returns the last char, if any.
#[verifier::external_body]
pub(crate) fn pop_char(s: &mut String) -> (r: Option<char>)
    ensures
        old(s)@.len() == 0 ==> r is None && final(s)@ == old(s)@,
        old(s)@.len() > 0 ==> r == Some(old(s)@.last()) && final(s)@ == old(s)@.drop_last(),
{
    s.pop()
}

/// Lower-cased chars of a string slice.
pub fn lower_str_chars(s: &str) -> (r: Vec<char>)
    ensures
        r@ == ascii_lower(s@),
{
    let v = str_chars(s);
    lower_chars(v.as_slice())
}

/// Appends a string slice.
pub fn push_str(s: &mut String, t: &str)
    ensures
        final(s)@ == old(s)@ + t@,
{
    s.append(t);
}

/// Appends a run of chars.
pub fn push_chars(s: &mut String, v: &[char])
    ensures
        final(s)@ == old(s)@ + v@,
{
    let ghost start = s@;
    let mut i: usize = 0;
    while i < v.len()
        invariant
            i <= v.len(),
            s@ == start + v@.take(i as int),
        decreases v.len() - i,
    {
        push_char(s, v[i]);
        i += 1;
        assert(v@.take(i as int) == v@.take(i - 1).push(v@[i - 1]));
    }
    assert(v@.take(v.len() as int) == v@);
}

/// A fresh `String` holding `v`.
pub fn string_from_chars(v: &[char]) -> (s: String)
    ensures
        s@ == v@,
{
    let mut s = String::new();
    push_chars(&mut s, v);
    s
}

/// Owned copy of `t`.
pub fn owned(t: &str) -> (s: String)
    ensures
        s@ == t@,
{
    String::from_str(t)
}

/// Structural equality of two strings.
pub fn str_eq(a: &str, b: &str) -> (r: bool)
    ensures
        r == (a@ == b@),
{
    let x = str_chars(a);
    let y = str_chars(b);
    chars_eq(x.as_slice(), y.as_slice())
}

/// Equality of two char runs.
pub fn chars_eq(a: &[char], b: &[char]) -> (r: bool)
    ensures
        r == (a@ == b@),
{
    if a.len() != b.len() {
        return false;
    }
    let mut i: usize = 0;
    while i < a.len()
        invariant
            a.len() == b.len(),
            i <= a.len(),
            a@.take(i as int) == b@.take(i as int),
        decreases a.len() - i,
    {
        if a[i] != b[i] {
            assert(a@[i as int] != b@[i as int]);
            return false;
        }
        i += 1;
        assert(a@.take(i as int) == a@.take(i - 1).push(a@[i - 1]));
        assert(b@.take(i as int) == b@.take(i - 1).push(b@[i - 1]));
    }
    assert(a@ == a@.take(a.len() as int));
    assert(b@ == b@.take(b.len() as int));
    true
}

/* ── Trim ──────────────────────────────────────────────────────────────── */

proof fn lemma_trim_start_skip(s: Seq<char>, i: int)
    requires
        0 <= i <= s.len(),
        forall|j: int| 0 <= j < i ==> is_ws(#[trigger] s[j]),
    ensures
        trim_start(s) == trim_start(s.skip(i)),
    decreases i,
{
    if i > 0 {
        assert(is_ws(s[0]));
        lemma_trim_start_skip(s.drop_first(), i - 1);
        assert(s.drop_first().skip(i - 1) == s.skip(i));
    } else {
        assert(s.skip(0) == s);
    }
}

proof fn lemma_trim_end_take(s: Seq<char>, i: int)
    requires
        0 <= i <= s.len(),
        forall|j: int| i <= j < s.len() ==> is_ws(#[trigger] s[j]),
    ensures
        trim_end(s) == trim_end(s.take(i)),
    decreases s.len() - i,
{
    if i < s.len() {
        assert(is_ws(s.last()));
        lemma_trim_end_take(s.drop_last(), i);
        assert(s.drop_last().take(i) == s.take(i));
    } else {
        assert(s.take(i) == s);
    }
}

/// Bounds `(lo, hi)` of `trim(v)` inside `v`.
pub fn trim_bounds(v: &[char]) -> (r: (usize, usize))
    ensures
        r.0 <= r.1 <= v.len(),
        v@.subrange(r.0 as int, r.1 as int) == trim(v@),
        trim_start(v@) == v@.skip(r.0 as int),
{
    let mut lo: usize = 0;
    while lo < v.len() && char_is_whitespace(v[lo])
        invariant
            lo <= v.len(),
            forall|j: int| 0 <= j < lo ==> is_ws(#[trigger] v@[j]),
        decreases v.len() - lo,
    {
        lo += 1;
    }
    proof {
        lemma_trim_start_skip(v@, lo as int);
    }
    let ghost rest = v@.skip(lo as int);
    assert(trim_start(rest) == rest);
    let mut hi: usize = v.len();
    while hi > lo && char_is_whitespace(v[hi - 1])
        invariant
            lo <= hi <= v.len(),
            rest == v@.skip(lo as int),
            forall|j: int| hi <= j < v.len() ==> is_ws(#[trigger] v@[j]),
        decreases hi,
    {
        hi -= 1;
    }
    proof {
        assert forall|j: int| (hi - lo) as int <= j < rest.len() implies is_ws(#[trigger] rest[j]) by {
            assert(rest[j] == v@[j + lo]);
        }
        lemma_trim_end_take(rest, (hi - lo) as int);
        let t = rest.take((hi - lo) as int);
        assert(t == v@.subrange(lo as int, hi as int));
        if t.len() > 0 {
            assert(t.last() == v@[hi - 1]);
        }
        assert(trim_end(t) == t);
    }
    (lo, hi)
}

/// `str::trim` as an owned string.
pub fn trim_str(s: &str) -> (r: String)
    ensures
        r@ == trim(s@),
{
    let v = str_chars(s);
    let (lo, hi) = trim_bounds(v.as_slice());
    let mut out = String::new();
    let mut i = lo;
    while i < hi
        invariant
            lo <= i <= hi <= v.len(),
            out@ == v@.subrange(lo as int, i as int),
        decreases hi - i,
    {
        push_char(&mut out, v[i]);
        i += 1;
        assert(v@.subrange(lo as int, i as int) == v@.subrange(lo as int, i - 1).push(v@[i - 1]));
    }
    out
}

/// `str::trim_end` on a char run.
pub fn trim_end_chars(v: &[char]) -> (r: Vec<char>)
    ensures
        r@ == trim_end(v@),
{
    let mut hi: usize = v.len();
    assert(v@.take(hi as int) =~= v@);
    while hi > 0 && char_is_whitespace(v[hi - 1])
        invariant
            hi <= v.len(),
            trim_end(v@) == trim_end(v@.take(hi as int)),
        decreases hi,
    {
        assert(v@.take(hi as int).drop_last() =~= v@.take(hi - 1));
        hi -= 1;
    }
    let r = slice_chars(v, 0, hi);
    assert(r@ =~= v@.take(hi as int));
    r
}

/// `str::trim` on a char run.
pub fn trim_chars(v: &[char]) -> (r: Vec<char>)
    ensures
        r@ == trim(v@),
{
    let (lo, hi) = trim_bounds(v);
    slice_chars(v, lo, hi)
}

/// True when `s` is empty or white space only.
pub fn str_is_blank(s: &str) -> (r: bool)
    ensures
        r == is_blank(s@),
{
    let v = str_chars(s);
    let (lo, hi) = trim_bounds(v.as_slice());
    lo == hi
}

/// Copy of `v[lo..hi]`.
pub fn slice_chars(v: &[char], lo: usize, hi: usize) -> (r: Vec<char>)
    requires
        lo <= hi <= v.len(),
    ensures
        r@ == v@.subrange(lo as int, hi as int),
{
    let mut out: Vec<char> = Vec::new();
    let mut i = lo;
    while i < hi
        invariant
            lo <= i <= hi <= v.len(),
            out@ == v@.subrange(lo as int, i as int),
        decreases hi - i,
    {
        out.push(v[i]);
        i += 1;
        assert(v@.subrange(lo as int, i as int) == v@.subrange(lo as int, i - 1).push(v@[i - 1]));
    }
    out
}

/* ── Case and search ───────────────────────────────────────────────────── */

/// `to_ascii_lowercase` on a char run.
pub fn lower_chars(v: &[char]) -> (r: Vec<char>)
    ensures
        r@ == ascii_lower(v@),
{
    let mut out: Vec<char> = Vec::new();
    let mut i: usize = 0;
    while i < v.len()
        invariant
            i <= v.len(),
            out@ == ascii_lower(v@.take(i as int)),
        decreases v.len() - i,
    {
        out.push(char_to_ascii_lower(v[i]));
        i += 1;
        assert(ascii_lower(v@.take(i as int)) == ascii_lower(v@.take(i - 1)).push(lower_char(v@[i - 1])));
    }
    assert(v@.take(v.len() as int) == v@);
    out
}

/// True when `p` occurs in `s` at `i`.
pub fn occurs_at_exec(s: &[char], p: &[char], i: usize) -> (r: bool)
    ensures
        r == occurs_at(s@, p@, i as int),
{
    if i > s.len() || p.len() > s.len() - i {
        return false;
    }
    let mut k: usize = 0;
    while k < p.len()
        invariant
            i + p.len() <= s.len(),
            k <= p.len(),
            forall|j: int| 0 <= j < k ==> s@[i + j] == p@[j],
        decreases p.len() - k,
    {
        if s[i + k] != p[k] {
            assert(s@.subrange(i as int, i + p.len())[k as int] != p@[k as int]);
            return false;
        }
        k += 1;
    }
    assert(s@.subrange(i as int, i + p.len()) == p@);
    true
}

/// First index at which `p` occurs in `s`.
pub fn find_chars(s: &[char], p: &[char]) -> (r: Option<usize>)
    ensures
        match r {
            Some(i) => occurs_at(s@, p@, i as int) && forall|j: int|
                0 <= j < i ==> !occurs_at(s@, p@, j),
            None => !has_substr(s@, p@),
        },
{
    let mut i: usize = 0;
    loop
        invariant
            i <= s.len(),
            forall|j: int| 0 <= j < i ==> !occurs_at(s@, p@, j),
        decreases s.len() - i,
    {
        if occurs_at_exec(s, p, i) {
            return Some(i);
        }
        if i == s.len() {
            assert forall|j: int| !occurs_at(s@, p@, j) by {
                if 0 <= j <= i {
                } else if j > i {
                    assert(j + p@.len() > s@.len());
                }
            }
            return None;
        }
        i += 1;
    }
}

/// `str::contains` over char runs.
pub fn contains_chars(s: &[char], p: &[char]) -> (r: bool)
    ensures
        r == has_substr(s@, p@),
{
    match find_chars(s, p) {
        Some(_) => true,
        None => false,
    }
}

/// `str::contains`.
pub fn str_contains(s: &str, p: &str) -> (r: bool)
    ensures
        r == has_substr(s@, p@),
{
    let a = str_chars(s);
    let b = str_chars(p);
    contains_chars(a.as_slice(), b.as_slice())
}

/// `str::starts_with`.
pub fn starts_with_chars(s: &[char], p: &[char]) -> (r: bool)
    ensures
        r == starts_with(s@, p@),
{
    let r = occurs_at_exec(s, p, 0);
    assert(r ==> s@.take(p@.len() as int) == s@.subrange(0, p@.len() as int));
    r
}

/// `str::starts_with` on string slices.
pub fn str_starts_with(s: &str, p: &str) -> (r: bool)
    ensures
        r == starts_with(s@, p@),
{
    let a = str_chars(s);
    let b = str_chars(p);
    starts_with_chars(a.as_slice(), b.as_slice())
}

/// `str::ends_with`.
pub fn ends_with_chars(s: &[char], p: &[char]) -> (r: bool)
    ensures
        r == ends_with(s@, p@),
{
    if p.len() > s.len() {
        return false;
    }
    let r = occurs_at_exec(s, p, s.len() - p.len());
    assert(s@.skip(s@.len() - p@.len()) == s@.subrange(s@.len() - p@.len(), s@.len() as int));
    r
}

/* ── Numbers ───────────────────────────────────────────────────────────── */

proof fn lemma_decimal_len(n: nat)
    ensures
        decimal(n).len() >= 1,
    decreases n,
{
    if n >= 10 {
        lemma_decimal_len(n / 10);
    }
}

/// Decimal digits of `n`.
pub fn decimal_chars(n: u64) -> (r: Vec<char>)
    ensures
        r@ == decimal(n as nat),
    decreases n,
{
    if n < 10 {
        let c = ((n as u8) + 48) as char;
        assert(c == digit_char(n as nat));
        let mut v = Vec::new();
        v.push(c);
        assert(v@ == seq![digit_char(n as nat)]);
        v
    } else {
        let mut v = decimal_chars(n / 10);
        let d = n % 10;
        let c = ((d as u8) + 48) as char;
        assert(c == digit_char((n as nat) % 10));
        v.push(c);
        v
    }
}

/// `n.to_string()`.
pub fn u64_to_string(n: u64) -> (s: String)
    ensures
        s@ == decimal(n as nat),
{
    let v = decimal_chars(n);
    string_from_chars(v.as_slice())
}

/// Appends `n` in decimal.
pub fn push_decimal(s: &mut String, n: u64)
    ensures
        final(s)@ == old(s)@ + decimal(n as nat),
{
    let v = decimal_chars(n);
    push_chars(s, v.as_slice());
}

/// Value of an all-digit run, or `None` once it passes `limit`.
pub fn digits_value_bounded(v: &[char], limit: u64) -> (r: Option<u64>)
    requires
        all_digits(v@),
    ensures
        match r {
            Some(x) => x == digits_value(v@) && x <= limit,
            None => digits_value(v@) > limit,
        },
{
    let mut acc: u128 = 0;
    let mut i: usize = 0;
    while i < v.len()
        invariant
            i <= v.len(),
            all_digits(v@),
            acc == digits_value(v@.take(i as int)),
            acc <= limit,
        decreases v.len() - i,
    {
        let c = v[i];
        assert(is_digit(v@[i as int]));
        let d = (c as u32 - '0' as u32) as u128;
        assert(v@.take(i + 1).drop_last() == v@.take(i as int));
        acc = acc * 10 + d;
        i += 1;
        if acc > limit as u128 {
            proof {
                lemma_digits_value_prefix_mono(v@, i as int);
            }
            return None;
        }
    }
    assert(v@.take(v.len() as int) == v@);
    Some(acc as u64)
}

/// A prefix never has a larger value than the whole digit run.
pub proof fn lemma_digits_value_prefix_mono(s: Seq<char>, i: int)
    requires
        0 <= i <= s.len(),
        all_digits(s),
    ensures
        digits_value(s.take(i)) <= digits_value(s),
    decreases s.len() - i,
{
    if i < s.len() {
        lemma_digits_value_prefix_mono(s, i + 1);
        assert(s.take(i + 1).drop_last() == s.take(i));
    } else {
        assert(s.take(i) == s);
    }
}

/// `str::parse::<u32>`.
pub fn parse_u32(v: &[char]) -> (r: Option<u32>)
    ensures
        r == parse_u32_spec(v@),
{
    let start: usize = if v.len() > 0 && v[0] == '+' {
        1
    } else {
        0
    };
    let body = slice_chars(v, start, v.len());
    assert(body@ == (if v@.len() > 0 && v@[0] == '+' {
        v@.drop_first()
    } else {
        v@
    }));
    if body.len() == 0 {
        return None;
    }
    let mut i: usize = 0;
    while i < body.len()
        invariant
            i <= body.len(),
            forall|j: int| 0 <= j < i ==> is_digit(#[trigger] body@[j]),
            body@ == (if v@.len() > 0 && v@[0] == '+' {
                v@.drop_first()
            } else {
                v@
            }),
        decreases body.len() - i,
    {
        if !('0' <= body[i] && body[i] <= '9') {
            assert(!is_digit(body@[i as int]));
            assert(!all_digits(body@));
            return None;
        }
        i += 1;
    }
    match digits_value_bounded(body.as_slice(), 0xffff_ffff) {
        Some(x) => Some(x as u32),
        None => None,
    }
}

/// `str::parse::<i64>`.
pub fn parse_i64(v: &[char]) -> (r: Option<i64>)
    ensures
        r == parse_i64_spec(v@),
{
    let neg = v.len() > 0 && v[0] == '-';
    let start: usize = if v.len() > 0 && (v[0] == '+' || v[0] == '-') {
        1
    } else {
        0
    };
    let body = slice_chars(v, start, v.len());
    assert(body@ == signed_body(v@));
    if body.len() == 0 {
        return None;
    }
    let mut i: usize = 0;
    while i < body.len()
        invariant
            i <= body.len(),
            forall|j: int| 0 <= j < i ==> is_digit(#[trigger] body@[j]),
            body@ == signed_body(v@),
        decreases body.len() - i,
    {
        if !('0' <= body[i] && body[i] <= '9') {
            assert(!is_digit(body@[i as int]));
            assert(!all_digits(body@));
            return None;
        }
        i += 1;
    }
    match digits_value_bounded(body.as_slice(), 0x8000_0000_0000_0000) {
        Some(x) => {
            if neg {
                if x == 0x8000_0000_0000_0000 {
                    Some(i64::MIN)
                } else {
                    Some(-(x as i64))
                }
            } else if x <= 0x7fff_ffff_ffff_ffff {
                Some(x as i64)
            } else {
                None
            }
        },
        None => None,
    }
}

/// Views of a sequence of char vectors.
pub open spec fn views(v: Seq<Vec<char>>) -> Seq<Seq<char>> {
    v.map_values(|x: Vec<char>| x@)
}

/// Views of a sequence of strings.
pub open spec fn string_views(v: Seq<String>) -> Seq<Seq<char>> {
    v.map_values(|x: String| x@)
}

/// Owned strings holding each char run.
pub fn strings_from_runs(v: &Vec<Vec<char>>) -> (r: Vec<String>)
    ensures
        string_views(r@) == views(v@),
{
    let mut out: Vec<String> = Vec::new();
    let mut i: usize = 0;
    while i < v.len()
        invariant
            i <= v.len(),
            string_views(out@) == views(v@.take(i as int)),
        decreases v.len() - i,
    {
        let ghost before = out@;
        let s = string_from_chars(v[i].as_slice());
        out.push(s);
        proof {
            assert(string_views(out@) =~= string_views(before).push(s@));
            assert(views(v@.take(i + 1)) =~= views(v@.take(i as int)).push(v@[i as int]@));
        }
        i += 1;
    }
    assert(v@.take(v.len() as int) =~= v@);
    out
}

/* ── Splitting ─────────────────────────────────────────────────────────── */

/// Prepend `c` to the first piece of `r` (the piece still being built).
pub open spec fn prefix_first(c: Seq<char>, r: Seq<Seq<char>>) -> Seq<Seq<char>> {
    r.update(0, c + r[0])
}

/// `str::split(d)`: pieces between occurrences of `d` (always at least one).
pub open spec fn split_on(s: Seq<char>, d: char) -> Seq<Seq<char>>
    decreases s.len(),
{
    if s.len() == 0 {
        seq![Seq::<char>::empty()]
    } else if s[0] == d {
        seq![Seq::<char>::empty()] + split_on(s.drop_first(), d)
    } else {
        prefix_first(seq![s[0]], split_on(s.drop_first(), d))
    }
}

pub proof fn lemma_split_on_nonempty(s: Seq<char>, d: char)
    ensures
        split_on(s, d).len() >= 1,
    decreases s.len(),
{
    if s.len() > 0 {
        lemma_split_on_nonempty(s.drop_first(), d);
    }
}

/// `str::split(d)` over a char run.
pub fn split_chars(v: &[char], d: char) -> (r: Vec<Vec<char>>)
    ensures
        views(r@) == split_on(v@, d),
{
    let mut done: Vec<Vec<char>> = Vec::new();
    let mut cur: Vec<char> = Vec::new();
    let mut i: usize = 0;
    proof {
        assert(v@.skip(0) == v@);
        lemma_split_on_nonempty(v@, d);
        assert(prefix_first(Seq::<char>::empty(), split_on(v@, d)) == split_on(v@, d));
    }
    while i < v.len()
        invariant
            i <= v.len(),
            split_on(v@, d) == views(done@) + prefix_first(cur@, split_on(v@.skip(i as int), d)),
        decreases v.len() - i,
    {
        let ghost rest = v@.skip(i as int);
        proof {
            lemma_split_on_nonempty(rest.drop_first(), d);
            assert(rest.drop_first() == v@.skip(i + 1));
        }
        let ghost x = split_on(v@.skip(i + 1), d);
        let ghost old_done = views(done@);
        let ghost old_cur = cur@;
        assert(rest[0] == v@[i as int]);
        if v[i] == d {
            let piece = cur;
            done.push(piece);
            cur = Vec::new();
            proof {
                assert(split_on(rest, d) == seq![Seq::<char>::empty()] + x);
                assert(prefix_first(old_cur, seq![Seq::<char>::empty()] + x) =~= seq![old_cur] + x);
                assert(views(done@) =~= old_done.push(old_cur));
                assert(prefix_first(Seq::<char>::empty(), x) =~= x);
                assert(split_on(v@, d) =~= views(done@) + prefix_first(cur@, x));
            }
        } else {
            cur.push(v[i]);
            proof {
                assert(split_on(rest, d) == prefix_first(seq![v@[i as int]], x));
                let c = v@[i as int];
                assert(x.len() >= 1);
                assert(cur@ == old_cur.push(c));
                assert(old_cur + (seq![c] + x[0]) =~= old_cur.push(c) + x[0]);
                assert(prefix_first(seq![c], x)[0] == seq![c] + x[0]);
                assert(prefix_first(old_cur, prefix_first(seq![c], x)) =~= prefix_first(cur@, x));
            }
        }
        i += 1;
    }
    let ghost old_done = views(done@);
    let last = cur;
    let ghost last_v = last@;
    done.push(last);
    proof {
        assert(v@.skip(i as int) =~= Seq::<char>::empty());
        assert(prefix_first(last_v, seq![Seq::<char>::empty()]) =~= seq![last_v]);
        assert(views(done@) =~= old_done.push(last_v));
    }
    done
}

/// Length of the leading run of non-white-space chars.
pub open spec fn word_len(s: Seq<char>) -> nat
    decreases s.len(),
{
    if s.len() == 0 || is_ws(s[0]) {
        0
    } else {
        1 + word_len(s.drop_first())
    }
}

pub proof fn lemma_word_len_bound(s: Seq<char>)
    ensures
        word_len(s) <= s.len(),
        s.len() > 0 && !is_ws(s[0]) ==> word_len(s) >= 1,
        word_len(s) < s.len() ==> is_ws(s[word_len(s) as int]),
        forall|j: int| 0 <= j < word_len(s) ==> !is_ws(#[trigger] s[j]),
    decreases s.len(),
{
    if s.len() > 0 && !is_ws(s[0]) {
        lemma_word_len_bound(s.drop_first());
        assert forall|j: int| 0 <= j < word_len(s) implies !is_ws(#[trigger] s[j]) by {
            if j > 0 {
                assert(s[j] == s.drop_first()[j - 1]);
            }
        }
    }
}

/// `str::split_whitespace`: maximal runs of non-white-space chars.
pub open spec fn words(s: Seq<char>) -> Seq<Seq<char>>
    decreases s.len(),
{
    if s.len() == 0 {
        Seq::empty()
    } else if is_ws(s[0]) {
        words(s.drop_first())
    } else {
        let k = word_len(s);
        if 1 <= k <= s.len() {
            seq![s.take(k as int)] + words(s.skip(k as int))
        } else {
            Seq::empty()
        }
    }
}

/// `str::split_whitespace` over a char run.
pub fn split_words(v: &[char]) -> (r: Vec<Vec<char>>)
    ensures
        views(r@) == words(v@),
{
    let mut out: Vec<Vec<char>> = Vec::new();
    let mut i: usize = 0;
    assert(v@.skip(0) == v@);
    while i < v.len()
        invariant
            i <= v.len(),
            words(v@) == views(out@) + words(v@.skip(i as int)),
        decreases v.len() - i,
    {
        let ghost rest = v@.skip(i as int);
        assert(rest[0] == v@[i as int]);
        if char_is_whitespace(v[i]) {
            assert(rest.drop_first() == v@.skip(i + 1));
            i += 1;
        } else {
            let mut j = i;
            while j < v.len() && !char_is_whitespace(v[j])
                invariant
                    i <= j <= v.len(),
                    forall|t: int| i <= t < j ==> !is_ws(#[trigger] v@[t]),
                decreases v.len() - j,
            {
                j += 1;
            }
            proof {
                lemma_word_len_bound(rest);
                let k = word_len(rest);
                if k < j - i {
                    assert(is_ws(rest[k as int]));
                    assert(rest[k as int] == v@[i + k]);
                }
                if k > j - i {
                    assert(!is_ws(rest[(j - i) as int]));
                    assert(rest[(j - i) as int] == v@[j as int]);
                }
                assert(k == j - i);
                assert(rest.take(k as int) == v@.subrange(i as int, j as int));
                assert(rest.skip(k as int) == v@.skip(j as int));
            }
            let ghost old_out = views(out@);
            let w = slice_chars(v, i, j);
            let ghost wv = w@;
            out.push(w);
            proof {
                assert(views(out@) =~= old_out.push(wv));
                assert(words(rest) == seq![wv] + words(v@.skip(j as int)));
                assert(words(v@) =~= views(out@) + words(v@.skip(j as int)));
            }
            i = j;
        }
    }
    out
}

/// Newline normalisation: `\r\n` and a lone `\r` both become `\n`.
pub open spec fn normalize_newlines(s: Seq<char>) -> Seq<char>
    decreases s.len(),
{
    if s.len() == 0 {
        s
    } else if s[0] == '\r' && s.len() >= 2 && s[1] == '\n' {
        seq!['\n'] + normalize_newlines(s.skip(2))
    } else if s[0] == '\r' {
        seq!['\n'] + normalize_newlines(s.drop_first())
    } else {
        seq![s[0]] + normalize_newlines(s.drop_first())
    }
}

/// `text.replace("\r\n", "\n").replace('\r', "\n")`.
pub fn normalize_newlines_exec(v: &[char]) -> (r: Vec<char>)
    ensures
        r@ == normalize_newlines(v@),
{
    let mut out: Vec<char> = Vec::new();
    let mut i: usize = 0;
    assert(v@.skip(0) == v@);
    while i < v.len()
        invariant
            i <= v.len(),
            normalize_newlines(v@) == out@ + normalize_newlines(v@.skip(i as int)),
        decreases v.len() - i,
    {
        let ghost rest = v@.skip(i as int);
        if v[i] == '\r' && i + 1 < v.len() && v[i + 1] == '\n' {
            out.push('\n');
            assert(rest.skip(2) == v@.skip(i + 2));
            i += 2;
        } else if v[i] == '\r' {
            out.push('\n');
            assert(rest.drop_first() == v@.skip(i + 1));
            i += 1;
        } else {
            out.push(v[i]);
            assert(rest.drop_first() == v@.skip(i + 1));
            i += 1;
        }
    }
    assert(v@.skip(i as int) == Seq::<char>::empty());
    out
}

/* ── Replace ───────────────────────────────────────────────────────────── */

/// `str::replace(pat, rep)`: left-to-right, non-overlapping.
pub open spec fn replace_all(s: Seq<char>, pat: Seq<char>, rep: Seq<char>) -> Seq<char>
    recommends
        pat.len() > 0,
    decreases s.len(),
{
    if s.len() == 0 || pat.len() == 0 {
        s
    } else if starts_with(s, pat) {
        rep + replace_all(s.skip(pat.len() as int), pat, rep)
    } else {
        seq![s[0]] + replace_all(s.drop_first(), pat, rep)
    }
}

/// `str::replace(pat, rep)` over char runs (non-empty pattern).
pub fn replace_chars(v: &[char], pat: &[char], rep: &[char]) -> (r: Vec<char>)
    requires
        pat@.len() > 0,
    ensures
        r@ == replace_all(v@, pat@, rep@),
{
    let mut out: Vec<char> = Vec::new();
    let mut i: usize = 0;
    assert(v@.skip(0) =~= v@);
    while i < v.len()
        invariant
            i <= v.len(),
            pat@.len() > 0,
            replace_all(v@, pat@, rep@) == out@ + replace_all(v@.skip(i as int), pat@, rep@),
        decreases v.len() - i,
    {
        let ghost rest = v@.skip(i as int);
        if occurs_at_exec(v, pat, i) {
            proof {
                assert(rest.take(pat@.len() as int) =~= v@.subrange(i as int, i + pat@.len()));
                assert(rest.skip(pat@.len() as int) =~= v@.skip(i + pat@.len()));
            }
            let ghost before = out@;
            let mut k: usize = 0;
            while k < rep.len()
                invariant
                    k <= rep.len(),
                    out@ == before + rep@.take(k as int),
                decreases rep.len() - k,
            {
                out.push(rep[k]);
                k += 1;
                assert(rep@.take(k as int) =~= rep@.take(k - 1).push(rep@[k - 1]));
            }
            assert(rep@.take(rep.len() as int) =~= rep@);
            i = i + pat.len();
        } else {
            proof {
                if starts_with(rest, pat@) {
                    assert(v@.subrange(i as int, i + pat@.len()) =~= rest.take(pat@.len() as int));
                }
                assert(rest.drop_first() =~= v@.skip(i + 1));
            }
            out.push(v[i]);
            i += 1;
        }
    }
    assert(v@.skip(i as int) =~= Seq::<char>::empty());
    out
}

/// UTF-8 length of one char.
pub open spec fn char_utf8_len(c: char) -> int {
    if (c as u32) < 0x80 {
        1
    } else if (c as u32) < 0x800 {
        2
    } else if (c as u32) < 0x10000 {
        3
    } else {
        4
    }
}

/// UTF-8 length of a string (what `str::len` reports).
pub open spec fn utf8_len(s: Seq<char>) -> int
    decreases s.len(),
{
    if s.len() == 0 {
        0
    } else {
        utf8_len(s.drop_last()) + char_utf8_len(s.last())
    }
}

pub proof fn lemma_utf8_len_nonneg(s: Seq<char>)
    ensures
        utf8_len(s) >= 0,
    decreases s.len(),
{
    if s.len() > 0 {
        lemma_utf8_len_nonneg(s.drop_last());
    }
}


proof fn lemma_char_utf8_len_pos(c: char)
    ensures
        1 <= char_utf8_len(c) <= 4,
{
}

/// Dropping chars from the end never adds bytes.
pub proof fn lemma_utf8_len_take(s: Seq<char>, k: int)
    requires
        0 <= k <= s.len(),
    ensures
        utf8_len(s.take(k)) <= utf8_len(s),
    decreases s.len(),
{
    if k < s.len() {
        assert(s.drop_last().take(k) =~= s.take(k));
        lemma_utf8_len_take(s.drop_last(), k);
        lemma_char_utf8_len_pos(s.last());
    } else {
        assert(s.take(k) =~= s);
    }
}

/// The chars whose UTF-8 bytes fit in the first `n` bytes.
pub open spec fn byte_prefix(s: Seq<char>, n: int) -> Seq<char>
    decreases s.len(),
{
    if s.len() == 0 || char_utf8_len(s[0]) > n {
        Seq::empty()
    } else {
        seq![s[0]] + byte_prefix(s.drop_first(), n - char_utf8_len(s[0]))
    }
}

/// Byte `n` of `s` is a char boundary (or lies past its end), so `&s[..n]`
/// does not panic.
pub open spec fn cut_on_boundary(s: Seq<char>, n: int) -> bool {
    n >= utf8_len(s) || utf8_len(byte_prefix(s, n)) == n
}

/// `if s.len() > n { &s[..n] } else { s }`, `len` counting UTF-8 bytes.
pub open spec fn byte_cut(s: Seq<char>, n: int) -> Seq<char> {
    if utf8_len(s) > n { byte_prefix(s, n) } else { s }
}

/// `if s.len() > n { s[..n].to_string() } else { s.to_string() }`.
pub fn byte_cut_str(s: &str, n: usize) -> (r: String)
    requires
        cut_on_boundary(s@, n as int),
    ensures
        r@ == byte_cut(s@, n as int),
{
    let cs = str_chars(s);
    let ghost v = cs@;
    let mut out = String::new();
    let mut acc: usize = 0;
    let mut i: usize = 0;
    let mut stopped = false;
    assert(v.skip(0) =~= v);
    assert(v.take(0) =~= Seq::<char>::empty());
    while i < cs.len() && !stopped
        invariant
            v == cs@,
            i <= v.len(),
            acc <= n,
            out@ == v.take(i as int),
            acc == utf8_len(v.take(i as int)),
            byte_prefix(v, n as int) == v.take(i as int) + byte_prefix(v.skip(i as int), n - acc),
            stopped ==> i < v.len() && char_utf8_len(v[i as int]) > n - acc,
        decreases v.len() - i + (if stopped { 0int } else { 1int }),
    {
        let c = cs[i] as u32;
        let w: usize = if c < 0x80 { 1 } else if c < 0x800 { 2 } else if c < 0x10000 { 3 } else { 4 };
        assert(w == char_utf8_len(v[i as int]));
        assert(v.skip(i as int)[0] == v[i as int]);
        if w > n - acc {
            stopped = true;
        } else {
            assert(v.skip(i as int).drop_first() =~= v.skip(i + 1));
            assert(v.take(i + 1) =~= v.take(i as int).push(v[i as int]));
            assert(v.take(i + 1).drop_last() =~= v.take(i as int));
            push_char(&mut out, cs[i]);
            acc = acc + w;
            i += 1;
            assert(v.take(i as int) + byte_prefix(v.skip(i as int), n - acc) =~= v.take(i - 1) + (seq![v[i - 1]]
                + byte_prefix(v.skip(i as int), n - acc)));
        }
    }
    if stopped {
        assert(byte_prefix(v.skip(i as int), n - acc) =~= Seq::<char>::empty());
        assert(v.take(i as int) + Seq::<char>::empty() =~= v.take(i as int));
        proof {
            lemma_utf8_len_take(v, i + 1);
            assert(v.take(i + 1).drop_last() =~= v.take(i as int));
        }
        assert(utf8_len(v) > n);
    } else {
        assert(i == v.len());
        assert(v.take(i as int) =~= v);
        assert(v.skip(i as int) =~= Seq::<char>::empty());
    }
    out
}

/// `s.get(..n).unwrap_or(s)`: the first `n` bytes when byte `n` is a char
/// boundary inside `s` (or its end), else all of `s`.
pub open spec fn get_prefix(s: Seq<char>, n: int) -> Seq<char> {
    if utf8_len(byte_prefix(s, n)) == n { byte_prefix(s, n) } else { s }
}

/// `s.get(..n).unwrap_or(s).to_string()`.
pub fn str_get_prefix(s: &str, n: usize) -> (r: String)
    ensures
        r@ == get_prefix(s@, n as int),
{
    let cs = str_chars(s);
    let ghost v = cs@;
    let mut out = String::new();
    let mut acc: usize = 0;
    let mut i: usize = 0;
    let mut stopped = false;
    assert(v.skip(0) =~= v);
    assert(v.take(0) =~= Seq::<char>::empty());
    while i < cs.len() && !stopped
        invariant
            v == cs@,
            i <= v.len(),
            acc <= n,
            out@ == v.take(i as int),
            acc == utf8_len(v.take(i as int)),
            byte_prefix(v, n as int) == v.take(i as int) + byte_prefix(v.skip(i as int), n - acc),
            stopped ==> i < v.len() && char_utf8_len(v[i as int]) > n - acc,
        decreases v.len() - i + (if stopped { 0int } else { 1int }),
    {
        let c = cs[i] as u32;
        let w: usize = if c < 0x80 { 1 } else if c < 0x800 { 2 } else if c < 0x10000 { 3 } else { 4 };
        assert(w == char_utf8_len(v[i as int]));
        assert(v.skip(i as int)[0] == v[i as int]);
        if w > n - acc {
            stopped = true;
        } else {
            assert(v.skip(i as int).drop_first() =~= v.skip(i + 1));
            assert(v.take(i + 1) =~= v.take(i as int).push(v[i as int]));
            assert(v.take(i + 1).drop_last() =~= v.take(i as int));
            push_char(&mut out, cs[i]);
            acc = acc + w;
            i += 1;
            assert(v.take(i as int) + byte_prefix(v.skip(i as int), n - acc) =~= v.take(i - 1) + (seq![v[i - 1]]
                + byte_prefix(v.skip(i as int), n - acc)));
        }
    }
    if stopped {
        assert(byte_prefix(v.skip(i as int), n - acc) =~= Seq::<char>::empty());
    } else {
        assert(v.skip(i as int) =~= Seq::<char>::empty());
    }
    assert(v.take(i as int) + Seq::<char>::empty() =~= v.take(i as int));
    if acc == n {
        out
    } else {
        owned(s)
    }
}

} // verus!
