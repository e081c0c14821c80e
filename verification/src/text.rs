//! Character-level string helpers shared by the rest of the library:
//! conversions between `str`/`String` and `Vec<char>`, decimal rendering
//! and parsing, trimming, prefix/suffix/substring tests.
use vstd::prelude::*;

verus! {

broadcast use vstd::string::group_string_axioms;

/// `String::push`: trusted to append the character at the end, as std
/// documents it.
pub assume_specification[ String::push ](s: &mut String, ch: char)
    ensures
        final(s)@ == old(s)@.push(ch),
;

// ---------------------------------------------------------------------------
// Conversions

/// The characters of `s`, in order.
pub fn chars_of(s: &str) -> (v: Vec<char>)
    ensures
        v@ == s@,
{
    let mut v: Vec<char> = Vec::new();
    for c in it: s.chars()
        invariant
            it.seq() == s@,
            v@ == it.seq().take(it.index() as int),
    {
        v.push(c);
    }
    v
}

/// A `String` holding exactly the characters of `v`.
pub fn string_of(v: &Vec<char>) -> (r: String)
    ensures
        r@ == v@,
{
    let mut r = String::new();
    for i in 0..v.len()
        invariant
            r@ == v@.take(i as int),
    {
        r.push(v[i]);
        assert(v@.take(i + 1) == v@.take(i as int).push(v@[i as int]));
    }
    assert(v@.take(v.len() as int) == v@);
    r
}

/// An owned copy of `s`.
pub fn owned(s: &str) -> (r: String)
    ensures
        r@ == s@,
{
    s.to_string()
}

/// Appends all characters of `v` to `s`.
pub fn push_chars(s: &mut String, v: &Vec<char>)
    ensures
        final(s)@ == old(s)@ + v@,
{
    for i in 0..v.len()
        invariant
            s@ == old(s)@ + v@.take(i as int),
    {
        s.push(v[i]);
        assert(v@.take(i + 1) == v@.take(i as int).push(v@[i as int]));
    }
    assert(v@.take(v.len() as int) == v@);
}

/// Appends all characters of `t` to `s`.
pub fn push_str(s: &mut String, t: &str)
    ensures
        final(s)@ == old(s)@ + t@,
{
    let v = chars_of(t);
    push_chars(s, &v);
}

/// `a` followed by `b`.
pub fn concat2(a: &str, b: &str) -> (r: String)
    ensures
        r@ == a@ + b@,
{
    let mut r = owned(a);
    push_str(&mut r, b);
    r
}

/// `v[lo..hi]` as a new vector.
pub fn slice_chars(v: &Vec<char>, lo: usize, hi: usize) -> (r: Vec<char>)
    requires
        lo <= hi <= v.len(),
    ensures
        r@ == v@.subrange(lo as int, hi as int),
{
    let mut r: Vec<char> = Vec::new();
    let mut i = lo;
    while i < hi
        invariant
            lo <= i <= hi <= v.len(),
            r@ == v@.subrange(lo as int, i as int),
        decreases hi - i,
    {
        r.push(v[i]);
        i = i + 1;
    }
    r
}

/// Whether the two character sequences are equal.
pub fn chars_eq(a: &Vec<char>, b: &Vec<char>) -> (r: bool)
    ensures
        r == (a@ == b@),
{
    if a.len() != b.len() {
        return false;
    }
    for i in 0..a.len()
        invariant
            a.len() == b.len(),
            forall|j: int| 0 <= j < i ==> a@[j] == b@[j],
    {
        if a[i] != b[i] {
            return false;
        }
    }
    assert(a@ =~= b@);
    true
}

/// Whether `s` spells exactly `lit`.
pub fn str_is(s: &str, lit: &str) -> (r: bool)
    ensures
        r == (s@ == lit@),
{
    let a = chars_of(s);
    let b = chars_of(lit);
    chars_eq(&a, &b)
}

// ---------------------------------------------------------------------------
// Prefix, suffix, substring

pub open spec fn starts_with(s: Seq<char>, p: Seq<char>) -> bool {
    p.len() <= s.len() && s.take(p.len() as int) == p
}

pub open spec fn ends_with(s: Seq<char>, p: Seq<char>) -> bool {
    p.len() <= s.len() && s.skip(s.len() - p.len()) == p
}

pub open spec fn occurs_at(s: Seq<char>, p: Seq<char>, i: int) -> bool {
    0 <= i && i + p.len() <= s.len() && s.subrange(i, i + p.len()) == p
}

pub open spec fn contains(s: Seq<char>, p: Seq<char>) -> bool {
    exists|i: int| occurs_at(s, p, i)
}

/// Whether `p` occurs in `s` at position `i`.
pub fn occurs_at_exec(s: &Vec<char>, p: &Vec<char>, i: usize) -> (r: bool)
    ensures
        r == occurs_at(s@, p@, i as int),
{
    if i > s.len() || p.len() > s.len() - i {
        return false;
    }
    for j in 0..p.len()
        invariant
            i + p.len() <= s.len(),
            forall|k: int| 0 <= k < j ==> s@[i + k] == p@[k],
    {
        if s[i + j] != p[j] {
            assert(s@.subrange(i as int, i + p.len())[j as int] == s@[i + j]);
            return false;
        }
    }
    assert(s@.subrange(i as int, i + p.len()) =~= p@);
    true
}

pub fn starts_with_exec(s: &Vec<char>, p: &Vec<char>) -> (r: bool)
    ensures
        r == starts_with(s@, p@),
{
    let r = occurs_at_exec(s, p, 0);
    assert(s@.subrange(0, p@.len() as int) == s@.take(p@.len() as int));
    r
}

pub fn ends_with_exec(s: &Vec<char>, p: &Vec<char>) -> (r: bool)
    ensures
        r == ends_with(s@, p@),
{
    if p.len() > s.len() {
        return false;
    }
    let r = occurs_at_exec(s, p, s.len() - p.len());
    assert(s@.subrange(s@.len() - p@.len(), s@.len() as int) == s@.skip(s@.len() - p@.len()));
    r
}

pub fn contains_exec(s: &Vec<char>, p: &Vec<char>) -> (r: bool)
    ensures
        r == contains(s@, p@),
{
    if p.len() > s.len() {
        assert(forall|i: int| !occurs_at(s@, p@, i));
        return false;
    }
    let last = s.len() - p.len();
    for i in 0..last
        invariant
            last == s.len() - p.len(),
            forall|k: int| 0 <= k < i ==> !occurs_at(s@, p@, k),
    {
        if occurs_at_exec(s, p, i) {
            return true;
        }
    }
    if occurs_at_exec(s, p, last) {
        return true;
    }
    assert forall|k: int| !occurs_at(s@, p@, k) by {
        if 0 <= k && k + p@.len() <= s@.len() {
            assert(k <= last);
        }
    }
    false
}

/// Whether the text `s` contains the literal `lit`.
pub fn str_contains(s: &Vec<char>, lit: &str) -> (r: bool)
    ensures
        r == contains(s@, lit@),
{
    let p = chars_of(lit);
    contains_exec(s, &p)
}

// ---------------------------------------------------------------------------
// Whitespace and trimming

/// Unicode `White_Space`, the property that `char::is_whitespace` reports.
pub open spec fn is_ws(c: char) -> bool {
    ||| ('\u{9}' <= c && c <= '\u{d}')
    ||| c == ' '
    ||| c == '\u{85}'
    ||| c == '\u{a0}'
    ||| c == '\u{1680}'
    ||| ('\u{2000}' <= c && c <= '\u{200a}')
    ||| c == '\u{2028}'
    ||| c == '\u{2029}'
    ||| c == '\u{202f}'
    ||| c == '\u{205f}'
    ||| c == '\u{3000}'
}

pub fn is_ws_exec(c: char) -> (r: bool)
    ensures
        r == is_ws(c),
{
    ('\u{9}' <= c && c <= '\u{d}') || c == ' ' || c == '\u{85}' || c == '\u{a0}' || c
        == '\u{1680}' || ('\u{2000}' <= c && c <= '\u{200a}') || c == '\u{2028}' || c
        == '\u{2029}' || c == '\u{202f}' || c == '\u{205f}' || c == '\u{3000}'
}

/// `s` without leading characters satisfying `f`.
pub open spec fn strip_start(s: Seq<char>, f: spec_fn(char) -> bool) -> Seq<char>
    decreases s.len(),
{
    if s.len() > 0 && f(s[0]) {
        strip_start(s.drop_first(), f)
    } else {
        s
    }
}

/// `s` without trailing characters satisfying `f`.
pub open spec fn strip_end(s: Seq<char>, f: spec_fn(char) -> bool) -> Seq<char>
    decreases s.len(),
{
    if s.len() > 0 && f(s.last()) {
        strip_end(s.drop_last(), f)
    } else {
        s
    }
}

pub open spec fn ws() -> spec_fn(char) -> bool {
    |c: char| is_ws(c)
}

pub open spec fn is_char(x: char) -> spec_fn(char) -> bool {
    |c: char| c == x
}

/// What `str::trim` returns.
pub open spec fn trim(s: Seq<char>) -> Seq<char> {
    strip_end(strip_start(s, ws()), ws())
}

/// Index of the first character of `s` not satisfying `f` (or `s.len()`),
/// given that the first `from` characters all satisfy it.
pub proof fn lemma_strip_start_skip(s: Seq<char>, f: spec_fn(char) -> bool, i: int)
    requires
        0 <= i <= s.len(),
        forall|k: int| 0 <= k < i ==> f(#[trigger] s[k]),
    ensures
        strip_start(s, f) == strip_start(s.skip(i), f),
    decreases i,
{
    if i > 0 {
        assert(s.drop_first().skip(i - 1) == s.skip(i));
        assert forall|k: int| 0 <= k < i - 1 implies f(#[trigger] s.drop_first()[k]) by {
            assert(s.drop_first()[k] == s[k + 1]);
        }
        lemma_strip_start_skip(s.drop_first(), f, i - 1);
    } else {
        assert(s.skip(0) == s);
    }
}

pub proof fn lemma_strip_end_take(s: Seq<char>, f: spec_fn(char) -> bool, i: int)
    requires
        0 <= i <= s.len(),
        forall|k: int| i <= k < s.len() ==> f(#[trigger] s[k]),
    ensures
        strip_end(s, f) == strip_end(s.take(i), f),
    decreases s.len() - i,
{
    if i < s.len() {
        assert(s.drop_last().take(i) == s.take(i));
        assert forall|k: int| i <= k < s.len() - 1 implies f(#[trigger] s.drop_last()[k]) by {
            assert(s.drop_last()[k] == s[k]);
        }
        lemma_strip_end_take(s.drop_last(), f, i);
    } else {
        assert(s.take(i) == s);
    }
}

/// `v` without leading and trailing whitespace.
pub fn trim_chars(v: &Vec<char>) -> (r: Vec<char>)
    ensures
        r@ == trim(v@),
{
    let mut lo: usize = 0;
    while lo < v.len() && is_ws_exec(v[lo])
        invariant
            lo <= v.len(),
            forall|k: int| 0 <= k < lo ==> is_ws(#[trigger] v@[k]),
        decreases v.len() - lo,
    {
        lo = lo + 1;
    }
    proof {
        lemma_strip_start_skip(v@, ws(), lo as int);
    }
    let mid = slice_chars(v, lo, v.len());
    assert(mid@ == v@.skip(lo as int));
    let mut hi: usize = mid.len();
    while hi > 0 && is_ws_exec(mid[hi - 1])
        invariant
            hi <= mid.len(),
            forall|k: int| hi <= k < mid.len() ==> is_ws(#[trigger] mid@[k]),
        decreases hi,
    {
        hi = hi - 1;
    }
    proof {
        lemma_strip_end_take(mid@, ws(), hi as int);
    }
    let r = slice_chars(&mid, 0, hi);
    assert(r@ == mid@.take(hi as int));
    r
}

/// `v` without leading and trailing copies of `x`.
pub fn trim_matches_char(v: &Vec<char>, x: char) -> (r: Vec<char>)
    ensures
        r@ == strip_end(strip_start(v@, is_char(x)), is_char(x)),
{
    let mut lo: usize = 0;
    while lo < v.len() && v[lo] == x
        invariant
            lo <= v.len(),
            forall|k: int| 0 <= k < lo ==> is_char(x)(#[trigger] v@[k]),
        decreases v.len() - lo,
    {
        lo = lo + 1;
    }
    proof {
        lemma_strip_start_skip(v@, is_char(x), lo as int);
    }
    let mid = slice_chars(v, lo, v.len());
    assert(mid@ == v@.skip(lo as int));
    let mut hi: usize = mid.len();
    while hi > 0 && mid[hi - 1] == x
        invariant
            hi <= mid.len(),
            forall|k: int| hi <= k < mid.len() ==> is_char(x)(#[trigger] mid@[k]),
        decreases hi,
    {
        hi = hi - 1;
    }
    proof {
        lemma_strip_end_take(mid@, is_char(x), hi as int);
    }
    let r = slice_chars(&mid, 0, hi);
    assert(r@ == mid@.take(hi as int));
    r
}

/// `v` without leading copies of `x`.
pub fn trim_start_matches_char(v: &Vec<char>, x: char) -> (r: Vec<char>)
    ensures
        r@ == strip_start(v@, is_char(x)),
{
    let mut lo: usize = 0;
    while lo < v.len() && v[lo] == x
        invariant
            lo <= v.len(),
            forall|k: int| 0 <= k < lo ==> is_char(x)(#[trigger] v@[k]),
        decreases v.len() - lo,
    {
        lo = lo + 1;
    }
    proof {
        lemma_strip_start_skip(v@, is_char(x), lo as int);
    }
    let r = slice_chars(v, lo, v.len());
    assert(r@ == v@.skip(lo as int));
    r
}

/// `v` without trailing copies of `x`.
pub fn trim_end_matches_char(v: &Vec<char>, x: char) -> (r: Vec<char>)
    ensures
        r@ == strip_end(v@, is_char(x)),
{
    let mut hi: usize = v.len();
    while hi > 0 && v[hi - 1] == x
        invariant
            hi <= v.len(),
            forall|k: int| hi <= k < v.len() ==> is_char(x)(#[trigger] v@[k]),
        decreases hi,
    {
        hi = hi - 1;
    }
    proof {
        lemma_strip_end_take(v@, is_char(x), hi as int);
    }
    let r = slice_chars(v, 0, hi);
    assert(r@ == v@.take(hi as int));
    r
}

// ---------------------------------------------------------------------------
// Decimal numbers

/// The ASCII digit for `d` (0..=9).
pub open spec fn digit(d: int) -> char {
    (48 + d) as char
}

/// Decimal rendering of `n` without leading zeros, as `Display` writes it.
pub open spec fn dec(n: nat) -> Seq<char>
    decreases n,
{
    if n < 10 {
        seq![digit(n as int)]
    } else {
        dec(n / 10).push(digit((n % 10) as int))
    }
}

/// `n` in decimal, left-padded with zeros to at least `w` characters (`{:0w}`).
pub open spec fn dec_pad(n: nat, w: nat) -> Seq<char> {
    Seq::new((if dec(n).len() < w { w - dec(n).len() } else { 0 }) as nat, |i: int| '0')
        + dec(n)
}

pub fn digit_exec(d: u64) -> (c: char)
    requires
        d < 10,
    ensures
        c == digit(d as int),
{
    let b: u8 = 48u8 + (d as u8);
    b as char
}

/// Appends the decimal rendering of `n` to `s`.
pub fn push_dec(s: &mut String, n: u64)
    ensures
        final(s)@ == old(s)@ + dec(n as nat),
    decreases n,
{
    if n >= 10 {
        push_dec(s, n / 10);
    }
    let c = digit_exec(n % 10);
    s.push(c);
}

/// `n.to_string()`.
pub fn dec_string(n: u64) -> (r: String)
    ensures
        r@ == dec(n as nat),
{
    let mut s = String::new();
    push_dec(&mut s, n);
    s
}

pub proof fn lemma_dec_len(n: nat)
    ensures
        dec(n).len() >= 1,
        n < 10 ==> dec(n).len() == 1,
        n < 100 ==> dec(n).len() <= 2,
        n < 1000 ==> dec(n).len() <= 3,
        n < 10000 ==> dec(n).len() <= 4,
    decreases n,
{
    if n >= 10 {
        lemma_dec_len(n / 10);
    }
}

/// Appends `n` left-padded with zeros to width `w` (as `{:0w}` does).
pub fn push_dec_pad(s: &mut String, n: u64, w: usize)
    ensures
        final(s)@ == old(s)@ + dec_pad(n as nat, w as nat),
{
    let d = dec_string(n);
    let len = d.as_str().unicode_len();
    let pad: usize = if len < w { w - len } else { 0 };
    let ghost base = s@;
    let mut i: usize = 0;
    while i < pad
        invariant
            i <= pad,
            s@ == base + Seq::new(i as nat, |k: int| '0'),
        decreases pad - i,
    {
        s.push('0');
        i = i + 1;
        assert(s@ =~= base + Seq::new(i as nat, |k: int| '0'));
    }
    push_str(s, d.as_str());
    assert(s@ =~= base + dec_pad(n as nat, w as nat));
}

/// Whether `c` is an ASCII digit.
pub open spec fn is_digit(c: char) -> bool {
    '0' <= c && c <= '9'
}

/// The value of a run of ASCII digits.
pub open spec fn digits_value(s: Seq<char>) -> nat
    decreases s.len(),
{
    if s.len() == 0 {
        0
    } else {
        digits_value(s.drop_last()) * 10 + ((s.last() as int) - 48) as nat
    }
}

pub open spec fn all_digits(s: Seq<char>) -> bool {
    forall|i: int| 0 <= i < s.len() ==> is_digit(#[trigger] s[i])
}

/// What `u64::from_str` returns on `s`: an optional `+`, then one or more
/// ASCII digits whose value fits in 64 bits.
pub open spec fn parse_u64(s: Seq<char>) -> Option<u64> {
    let body = if s.len() > 0 && s[0] == '+' { s.drop_first() } else { s };
    if body.len() > 0 && all_digits(body) && digits_value(body) <= u64::MAX {
        Some(digits_value(body) as u64)
    } else {
        None
    }
}

proof fn lemma_digits_value_push(s: Seq<char>, c: char)
    ensures
        digits_value(s.push(c)) == digits_value(s) * 10 + ((c as int) - 48) as nat,
{
    assert(s.push(c).drop_last() == s);
}

proof fn lemma_digits_value_mono(s: Seq<char>, i: int)
    requires
        0 <= i <= s.len(),
        all_digits(s),
    ensures
        digits_value(s.take(i)) <= digits_value(s),
    decreases s.len() - i,
{
    if i < s.len() {
        lemma_digits_value_mono(s, i + 1);
        assert(s.take(i + 1) == s.take(i).push(s[i]));
        lemma_digits_value_push(s.take(i), s[i]);
    } else {
        assert(s.take(i) == s);
    }
}

/// `s.parse::<u64>().ok()`.
pub fn parse_u64_exec(s: &Vec<char>) -> (r: Option<u64>)
    ensures
        r == parse_u64(s@),
{
    let start: usize = if s.len() > 0 && s[0] == '+' { 1 } else { 0 };
    let body = slice_chars(s, start, s.len());
    proof {
        if s@.len() > 0 && s@[0] == '+' {
            assert(body@ == s@.drop_first());
        } else {
            assert(body@ == s@);
        }
    }
    if body.len() == 0 {
        return None;
    }
    let mut acc: u64 = 0;
    let mut i: usize = 0;
    while i < body.len()
        invariant
            i <= body.len(),
            body@ == (if s@.len() > 0 && s@[0] == '+' { s@.drop_first() } else { s@ }),
            all_digits(body@.take(i as int)),
            acc as nat == digits_value(body@.take(i as int)),
        decreases body.len() - i,
    {
        let c = body[i];
        if !('0' <= c && c <= '9') {
            assert(!is_digit(body@[i as int]));
            assert(!all_digits(body@));
            proof {
                if s@.len() > 0 && s@[0] == '+' {
                    assert(body@ == s@.drop_first());
                } else {
                    assert(body@ == s@);
                }
            }
            return None;
        }
        let d = (c as u32 - 48) as u64;
        proof {
            assert(body@.take(i + 1) == body@.take(i as int).push(c));
            lemma_digits_value_push(body@.take(i as int), c);
        }
        if acc > (u64::MAX - d) / 10 {
            proof {
                assert(acc * 10 + d > u64::MAX) by (nonlinear_arith)
                    requires
                        acc > (u64::MAX - d) / 10,
                        d <= 9,
                ;
                assert(digits_value(body@.take(i + 1)) > u64::MAX);
                assert forall|k: int| 0 <= k < i + 1 implies is_digit(#[trigger] body@.take(i + 1)[k]) by {
                    if k < i {
                        assert(body@.take(i + 1)[k] == body@.take(i as int)[k]);
                    }
                }
                if all_digits(body@) {
                    lemma_digits_value_mono(body@, i + 1);
                    assert(digits_value(body@) > u64::MAX);
                }
                if s@.len() > 0 && s@[0] == '+' {
                    assert(body@ == s@.drop_first());
                } else {
                    assert(body@ == s@);
                }
            }
            return None;
        }
        acc = acc * 10 + d;
        i = i + 1;
        assert forall|k: int| 0 <= k < i implies is_digit(#[trigger] body@.take(i as int)[k]) by {
            if k < i - 1 {
                assert(body@.take(i as int)[k] == body@.take(i - 1)[k]);
            }
        }
    }
    assert(body@.take(i as int) == body@);
    Some(acc)
}


// ---------------------------------------------------------------------------
// Case mapping

/// What `str::to_lowercase` returns: the full Unicode lowercase mapping.
pub uninterp spec fn unicode_lowercase(s: Seq<char>) -> Seq<char>;

/// `str::to_lowercase`. Trusted: the result is named by `unicode_lowercase`
/// of the input's characters; nothing more is claimed of it.
#[verifier::external_body]
pub(crate) fn to_lowercase(s: &str) -> (r: String)
    ensures
        r@ == unicode_lowercase(s@),
{
    s.to_lowercase()
}

/// What `str::to_uppercase` returns: the full Unicode uppercase mapping.
pub uninterp spec fn unicode_uppercase(s: Seq<char>) -> Seq<char>;

/// `str::to_uppercase`. Trusted: the result is named by `unicode_uppercase`
/// of the input's characters; nothing more is claimed of it.
#[verifier::external_body]
pub(crate) fn to_uppercase(s: &str) -> (r: String)
    ensures
        r@ == unicode_uppercase(s@),
{
    s.to_uppercase()
}

// ---------------------------------------------------------------------------
// Splitting

/// The part of `s` before the first character satisfying `f` (all of `s` if none does).
pub open spec fn take_until(s: Seq<char>, f: spec_fn(char) -> bool) -> Seq<char>
    decreases s.len(),
{
    if s.len() == 0 {
        s
    } else if f(s[0]) {
        Seq::empty()
    } else {
        seq![s[0]] + take_until(s.drop_first(), f)
    }
}

/// `i` is the first position at which `p` occurs in `s`.
pub open spec fn first_occurrence(s: Seq<char>, p: Seq<char>, i: int) -> bool {
    occurs_at(s, p, i) && forall|j: int| 0 <= j < i ==> !occurs_at(s, p, j)
}

/// What `split_once(p)` returns: the parts before and after the first occurrence of `p`.
pub open spec fn split_once(s: Seq<char>, p: Seq<char>) -> Option<(Seq<char>, Seq<char>)> {
    if contains(s, p) {
        let i = choose|i: int| first_occurrence(s, p, i);
        Some((s.take(i), s.skip(i + p.len())))
    } else {
        None
    }
}

proof fn lemma_first_occurrence_unique(s: Seq<char>, p: Seq<char>, i: int, j: int)
    requires
        first_occurrence(s, p, i),
        first_occurrence(s, p, j),
    ensures
        i == j,
{
    if i < j {
        assert(!occurs_at(s, p, i));
    } else if j < i {
        assert(!occurs_at(s, p, j));
    }
}

/// Position of the first occurrence of `p` in `s`.
pub fn find_exec(s: &Vec<char>, p: &Vec<char>) -> (r: Option<usize>)
    ensures
        r matches Some(i) ==> first_occurrence(s@, p@, i as int),
        r is None ==> !contains(s@, p@),
{
    if p.len() > s.len() {
        assert(forall|i: int| !occurs_at(s@, p@, i));
        return None;
    }
    let last = s.len() - p.len();
    for i in 0..last
        invariant
            last == s.len() - p.len(),
            forall|k: int| 0 <= k < i ==> !occurs_at(s@, p@, k),
    {
        if occurs_at_exec(s, p, i) {
            return Some(i);
        }
    }
    if occurs_at_exec(s, p, last) {
        return Some(last);
    }
    assert forall|k: int| !occurs_at(s@, p@, k) by {
        if 0 <= k && k + p@.len() <= s@.len() {
            assert(k <= last);
        }
    }
    None
}

/// `s.split_once(p)`.
pub fn split_once_exec(s: &Vec<char>, p: &Vec<char>) -> (r: Option<(Vec<char>, Vec<char>)>)
    ensures
        match r {
            Some((a, b)) => split_once(s@, p@) == Some((a@, b@)),
            None => split_once(s@, p@) is None,
        },
{
    let found = find_exec(s, p);
    match found {
        Some(i) => {
            assert(first_occurrence(s@, p@, i as int));
            assert(occurs_at(s@, p@, i as int));
            assert(i + p@.len() <= s@.len());
            assert(i + p.len() <= s.len());
            let a = slice_chars(s, 0, i);
            let b = slice_chars(s, i + p.len(), s.len());
            proof {
                let j = choose|j: int| first_occurrence(s@, p@, j);
                lemma_first_occurrence_unique(s@, p@, i as int, j);
                assert(a@ == s@.take(i as int));
                assert(b@ == s@.skip(i + p@.len()));
            }
            Some((a, b))
        },
        None => None,
    }
}

/// Index of the first character of `v` that satisfies `f`, or `v.len()`.
pub open spec fn first_index(s: Seq<char>, f: spec_fn(char) -> bool, i: int) -> bool {
    0 <= i <= s.len() && (i < s.len() ==> f(s[i])) && forall|k: int|
        0 <= k < i ==> !f(#[trigger] s[k])
}

pub proof fn lemma_take_until(s: Seq<char>, f: spec_fn(char) -> bool, i: int)
    requires
        first_index(s, f, i),
    ensures
        take_until(s, f) == s.take(i),
    decreases s.len(),
{
    if s.len() == 0 {
        assert(s.take(i) =~= s);
    } else if f(s[0]) {
        assert(i == 0);
        assert(s.take(0) =~= Seq::<char>::empty());
    } else {
        assert(i > 0);
        assert forall|k: int| 0 <= k < i - 1 implies !f(#[trigger] s.drop_first()[k]) by {
            assert(s.drop_first()[k] == s[k + 1]);
        }
        lemma_take_until(s.drop_first(), f, i - 1);
        assert(s.take(i) =~= seq![s[0]] + s.drop_first().take(i - 1));
    }
}


// ---------------------------------------------------------------------------
// Lines

/// Pieces of the first `n` characters of `s` split at `sep`: the finished
/// pieces and the piece being read.
pub open spec fn split_scan(s: Seq<char>, sep: char, n: nat) -> (Seq<Seq<char>>, Seq<char>)
    decreases n,
{
    if n == 0 {
        (Seq::empty(), Seq::empty())
    } else {
        let (done, cur) = split_scan(s, sep, (n - 1) as nat);
        if s[n - 1] == sep {
            (done.push(cur), Seq::empty())
        } else {
            (done, cur.push(s[n - 1]))
        }
    }
}

/// What `s.split(sep)` yields.
pub open spec fn split_char(s: Seq<char>, sep: char) -> Seq<Seq<char>> {
    let (done, cur) = split_scan(s, sep, s.len());
    done.push(cur)
}

/// `s.split(sep)` collected.
pub fn split_char_exec(s: &Vec<char>, sep: char) -> (r: Vec<Vec<char>>)
    ensures
        r@.map_values(|v: Vec<char>| v@) == split_char(s@, sep),
{
    let mut done: Vec<Vec<char>> = Vec::new();
    let mut cur: Vec<char> = Vec::new();
    for i in 0..s.len()
        invariant
            split_scan(s@, sep, i as nat) == (done@.map_values(|v: Vec<char>| v@), cur@),
    {
        if s[i] == sep {
            let ghost d0 = done@.map_values(|v: Vec<char>| v@);
            let ghost c0 = cur@;
            done.push(cur);
            cur = Vec::new();
            assert(done@.map_values(|v: Vec<char>| v@) =~= d0.push(c0));
        } else {
            cur.push(s[i]);
        }
    }
    let ghost d0 = done@.map_values(|v: Vec<char>| v@);
    let ghost c0 = cur@;
    done.push(cur);
    assert(done@.map_values(|v: Vec<char>| v@) =~= d0.push(c0));
    done
}

// ---------------------------------------------------------------------------
// Hexadecimal

pub open spec fn hex_digit(d: int) -> char {
    if d < 10 {
        (48 + d) as char
    } else {
        (87 + d) as char
    }
}

pub open spec fn pow16(k: nat) -> nat
    decreases k,
{
    if k == 0 {
        1
    } else {
        16 * pow16((k - 1) as nat)
    }
}

/// The low 32 bits of `n` as eight lowercase hex digits (`{:08x}` of `n & 0xFFFF_FFFF`).
pub open spec fn hex8(n: u64) -> Seq<char> {
    Seq::new(8, |i: int| hex_digit((((n as nat) % 0x1_0000_0000) / pow16((7 - i) as nat) % 16) as int))
}

pub fn hex8_exec(n: u64) -> (r: String)
    ensures
        r@ == hex8(n),
{
    let low = n % 0x1_0000_0000;
    let mut s = String::new();
    let mut div: u64 = 0x1000_0000;
    let mut i: usize = 0;
    proof {
        reveal_with_fuel(pow16, 8);
    }
    while i < 8
        invariant
            i <= 8,
            low == n % 0x1_0000_0000,
            div as nat == pow16((7 - i) as nat) || (i == 8 && div == 0),
            s@ == hex8(n).take(i as int),
        decreases 8 - i,
    {
        proof {
            reveal_with_fuel(pow16, 8);
        }
        let d = (low / div) % 16;
        let c: char = if d < 10 {
            ((48 + d) as u8) as char
        } else {
            ((87 + d) as u8) as char
        };
        assert(c == hex8(n)[i as int]);
        s.push(c);
        assert(s@ =~= hex8(n).take(i + 1));
        div = div / 16;
        i = i + 1;
    }
    assert(s@ =~= hex8(n));
    s
}

// ---------------------------------------------------------------------------
// Argument lists

/// The texts of a list of strings.
pub open spec fn views(v: Seq<String>) -> Seq<Seq<char>> {
    v.map_values(|s: String| s@)
}

/// Appends one argument.
pub fn push_arg(args: &mut Vec<String>, a: String)
    ensures
        views(final(args)@) == views(old(args)@).push(a@),
{
    let ghost before = views(args@);
    args.push(a);
    assert(views(args@) =~= before.push(a@));
}

/// Appends a copy of a literal argument.
pub fn push_lit(args: &mut Vec<String>, a: &str)
    ensures
        views(final(args)@) == views(old(args)@).push(a@),
{
    push_arg(args, owned(a));
}

/// Owned copies of string literals, in order.
pub fn lits(a: &[&str]) -> (r: Vec<String>)
    ensures
        views(r@) == a@.map_values(|s: &str| s@),
{
    let mut r: Vec<String> = Vec::new();
    for i in 0..a.len()
        invariant
            views(r@) == a@.take(i as int).map_values(|s: &str| s@),
    {
        let ghost before = r@;
        let s = owned(a[i]);
        r.push(s);
        proof {
            assert(r@ == before.push(s));
            assert(a@.take(i + 1) =~= a@.take(i as int).push(a@[i as int]));
            assert(views(r@) =~= views(before).push(s@));
            assert(views(r@) =~= a@.take(i + 1).map_values(|s: &str| s@));
        }
    }
    assert(a@.take(a.len() as int) == a@);
    r
}

/// Whether `p` is one of the strings of `v`.
pub open spec fn listed(v: Seq<String>, p: Seq<char>) -> bool {
    exists|i: int| 0 <= i < v.len() && v[i]@ == p
}

/// Whether `p` is one of the strings of `v`.
pub fn listed_exec(v: &Vec<String>, p: &str) -> (r: bool)
    ensures
        r == listed(v@, p@),
{
    let key = chars_of(p);
    for i in 0..v.len()
        invariant
            key@ == p@,
            forall|k: int| 0 <= k < i ==> v@[k]@ != p@,
    {
        let f = chars_of(v[i].as_str());
        if chars_eq(&f, &key) {
            return true;
        }
    }
    false
}


/// Pieces joined with a separator (`[..].join(sep)`).
pub open spec fn join_with(parts: Seq<Seq<char>>, sep: Seq<char>) -> Seq<char>
    decreases parts.len(),
{
    if parts.len() == 0 {
        Seq::empty()
    } else if parts.len() == 1 {
        parts[0]
    } else {
        join_with(parts.drop_last(), sep) + sep + parts.last()
    }
}

/// Joins strings with a separator.
pub fn join_strings(v: &Vec<String>, sep: &str) -> (r: String)
    ensures
        r@ == join_with(views(v@), sep@),
{
    let mut out = String::new();
    let ghost all = views(v@);
    for i in 0..v.len()
        invariant
            all == views(v@),
            out@ == join_with(all.take(i as int), sep@),
    {
        proof {
            assert(all.take(i + 1).drop_last() =~= all.take(i as int));
            assert(all.take(i + 1).last() == v@[i as int]@);
        }
        if i > 0 {
            push_str(&mut out, sep);
        } else {
            assert(all.take(1) =~= seq![v@[0]@]);
            assert(out@ =~= Seq::<char>::empty());
        }
        push_str(&mut out, v[i].as_str());
    }
    assert(all.take(v.len() as int) =~= all);
    out
}

} // verus!
