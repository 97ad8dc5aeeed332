//! Character-level text utilities: substring search, prefix/suffix tests
//! (exact and ASCII-case-insensitive), trimming, and lowercasing.
//!
//! All searching and trimming logic is verified over `Seq<char>` views; only
//! Unicode questions that a table of code points cannot settle here (the
//! whitespace property of a character, full lowercase mapping) are delegated
//! to the standard library.

use vstd::prelude::*;

verus! {

/// Whether a character has the Unicode white-space property.
pub uninterp spec fn is_space(c: char) -> bool;

/// Relies on char::is_whitespace: true exactly for characters with the
/// Unicode White_Space property, a function of the character alone.
pub assume_specification[ char::is_whitespace ](c: char) -> (r: bool)
    ensures
        r == is_space(c),
;

/// The Unicode lowercase mapping of a character sequence.
pub uninterp spec fn lower_of(s: Seq<char>) -> Seq<char>;

/// Relies on str::to_lowercase: the Unicode lowercase mapping, a function of
/// the characters alone; an empty string stays empty.
#[verifier::external_body]
pub fn to_lowercase(s: &str) -> (r: String)
    ensures
        r@ == lower_of(s@),
        s@.len() == 0 ==> r@.len() == 0,
{
    s.to_lowercase()
}

/// Relies on String::push: appends exactly the given character.
#[verifier::external_body]
pub fn string_push(s: &mut String, c: char)
    ensures
        final(s)@ == old(s)@.push(c),
{
    s.push(c);
}

/// Removing the first element commutes with mapping: what is left maps to
/// the tail of the mapped sequence.
pub proof fn lemma_map_values_remove0<T, U>(s: Seq<T>, f: spec_fn(T) -> U)
    requires
        s.len() > 0,
    ensures
        s.remove(0).map_values(f) =~= s.map_values(f).skip(1),
{
    assert forall|m: int| 0 <= m < s.remove(0).map_values(f).len() implies s.remove(0).map_values(
        f,
    )[m] == s.map_values(f).skip(1)[m] by {
        assert(s.remove(0)[m] == s[m + 1]);
        assert(s.remove(0).map_values(f)[m] == f(s.remove(0)[m]));
        assert(s.map_values(f).skip(1)[m] == s.map_values(f)[m + 1]);
    }
}

/// `p` occurs in `t` starting at position `i`.
pub open spec fn matches_at(t: Seq<char>, p: Seq<char>, i: int) -> bool {
    &&& 0 <= i
    &&& i + p.len() <= t.len()
    &&& forall|k: int| 0 <= k < p.len() ==> t[i + k] == p[k]
}

/// `p` occurs somewhere in `t`.
pub open spec fn contains_seq(t: Seq<char>, p: Seq<char>) -> bool {
    exists|i: int| matches_at(t, p, i)
}

/// `t` begins with `p`.
pub open spec fn starts_with_seq(t: Seq<char>, p: Seq<char>) -> bool {
    matches_at(t, p, 0)
}

/// `t` ends with `p`.
pub open spec fn ends_with_seq(t: Seq<char>, p: Seq<char>) -> bool {
    matches_at(t, p, t.len() - p.len())
}

/// Whether `p` occurs in `t` at exactly position `i`.
fn match_at(t: &str, p: &str, i: usize) -> (r: bool)
    requires
        i + p@.len() <= t@.len(),
        t@.len() <= usize::MAX,
    ensures
        r == matches_at(t@, p@, i as int),
{
    let pn = p.unicode_len();
    for j in 0..pn
        invariant
            pn == p@.len(),
            i + pn <= t@.len(),
            t@.len() <= usize::MAX,
            forall|k: int| 0 <= k < j ==> t@[i + k] == p@[k],
    {
        if t.get_char(i + j) != p.get_char(j) {
            return false;
        }
    }
    true
}

/// Substring search; never panics, any pattern and text are allowed.
pub fn contains_sub(t: &str, p: &str) -> (r: bool)
    ensures
        r == contains_seq(t@, p@),
{
    let tn = t.unicode_len();
    let pn = p.unicode_len();
    if pn > tn {
        assert(forall|i: int| !matches_at(t@, p@, i));
        return false;
    }
    if pn == 0 {
        assert(matches_at(t@, p@, 0));
        return true;
    }
    let last = tn - pn;
    for i in 0..last + 1
        invariant
            tn == t@.len(),
            pn == p@.len(),
            pn <= tn,
            last == tn - pn,
            forall|k: int| 0 <= k < i ==> !matches_at(t@, p@, k),
    {
        if match_at(t, p, i) {
            return true;
        }
    }
    assert(forall|i: int| matches_at(t@, p@, i) ==> 0 <= i <= last);
    false
}

/// Prefix test.
pub fn starts_with_str(t: &str, p: &str) -> (r: bool)
    ensures
        r == starts_with_seq(t@, p@),
{
    let tn = t.unicode_len();
    let pn = p.unicode_len();
    if pn > tn {
        return false;
    }
    match_at(t, p, 0)
}

/// Suffix test.
pub fn ends_with_str(t: &str, p: &str) -> (r: bool)
    ensures
        r == ends_with_seq(t@, p@),
{
    let tn = t.unicode_len();
    let pn = p.unicode_len();
    if pn > tn {
        return false;
    }
    match_at(t, p, tn - pn)
}

/// The two characters are equal up to ASCII case.
pub open spec fn eq_ascii_ci(a: char, b: char) -> bool {
    ||| a == b
    ||| ('A' <= a && a <= 'Z' && b as u32 == a as u32 + 32)
    ||| ('A' <= b && b <= 'Z' && a as u32 == b as u32 + 32)
}

/// `t` ends with `p` up to ASCII case.
pub open spec fn ends_with_ci_seq(t: Seq<char>, p: Seq<char>) -> bool {
    &&& p.len() <= t.len()
    &&& forall|k: int| 0 <= k < p.len() ==> eq_ascii_ci(t[t.len() - p.len() + k], p[k])
}

fn chars_eq_ci(a: char, b: char) -> (r: bool)
    ensures
        r == eq_ascii_ci(a, b),
{
    if a == b {
        return true;
    }
    if 'A' <= a && a <= 'Z' && (b as u32) == (a as u32) + 32 {
        return true;
    }
    'A' <= b && b <= 'Z' && (a as u32) == (b as u32) + 32
}

/// ASCII-case-insensitive suffix test, for file-extension matching.
pub fn ends_with_ci(t: &str, p: &str) -> (r: bool)
    ensures
        r == ends_with_ci_seq(t@, p@),
{
    let tn = t.unicode_len();
    let pn = p.unicode_len();
    if pn > tn {
        return false;
    }
    let base = tn - pn;
    for j in 0..pn
        invariant
            tn == t@.len(),
            pn == p@.len(),
            pn <= tn,
            base == tn - pn,
            forall|k: int| 0 <= k < j ==> eq_ascii_ci(t@[base + k], p@[k]),
    {
        if !chars_eq_ci(t.get_char(base + j), p.get_char(j)) {
            return false;
        }
    }
    true
}

/// `s` with leading white space removed.
pub open spec fn spec_trim_start(s: Seq<char>) -> Seq<char>
    decreases s.len(),
{
    if s.len() > 0 && is_space(s[0]) {
        spec_trim_start(s.drop_first())
    } else {
        s
    }
}

/// `s` with trailing white space removed.
pub open spec fn spec_trim_end(s: Seq<char>) -> Seq<char>
    decreases s.len(),
{
    if s.len() > 0 && is_space(s.last()) {
        spec_trim_end(s.drop_last())
    } else {
        s
    }
}

/// `s` with leading and trailing white space removed.
pub open spec fn spec_trim(s: Seq<char>) -> Seq<char> {
    spec_trim_end(spec_trim_start(s))
}

proof fn lemma_trim_start_skip(s: Seq<char>, i: int)
    requires
        0 <= i <= s.len(),
        forall|k: int| 0 <= k < i ==> is_space(s[k]),
    ensures
        spec_trim_start(s) == spec_trim_start(s.skip(i)),
    decreases i,
{
    if i > 0 {
        assert(s.drop_first() =~= s.skip(1));
        lemma_trim_start_skip(s.drop_first(), i - 1);
        assert(s.drop_first().skip(i - 1) =~= s.skip(i));
    } else {
        assert(s.skip(0) =~= s);
    }
}

proof fn lemma_trim_end_take(s: Seq<char>, i: int)
    requires
        0 <= i <= s.len(),
        forall|k: int| i <= k < s.len() ==> is_space(s[k]),
    ensures
        spec_trim_end(s) == spec_trim_end(s.take(i)),
    decreases s.len() - i,
{
    if i < s.len() {
        assert(s.drop_last() =~= s.take(s.len() - 1));
        lemma_trim_end_take(s.drop_last(), i);
        assert(s.drop_last().take(i) =~= s.take(i));
    } else {
        assert(s.take(i) =~= s);
    }
}

/// Remove leading and trailing white space; the Unicode white-space set is
/// the standard library's.
pub fn trim_str(s: &str) -> (r: String)
    ensures
        r@ == spec_trim(s@),
{
    let n = s.unicode_len();
    let mut lo: usize = 0;
    while lo < n && s.get_char(lo).is_whitespace()
        invariant
            n == s@.len(),
            0 <= lo <= n,
            forall|k: int| 0 <= k < lo ==> is_space(s@[k]),
        decreases n - lo,
    {
        lo = lo + 1;
    }
    proof {
        lemma_trim_start_skip(s@, lo as int);
    }
    if lo == n {
        proof {
            assert(s@.skip(lo as int) =~= Seq::<char>::empty());
        }
        return String::new();
    }
    // s@[lo] is not white space, so trim_start(s@) == s@.skip(lo).
    assert(spec_trim_start(s@) == s@.skip(lo as int));
    let mut hi: usize = n;
    while hi > lo && s.get_char(hi - 1).is_whitespace()
        invariant
            n == s@.len(),
            lo <= hi <= n,
            forall|k: int| hi <= k < n ==> is_space(s@[k]),
        decreases hi,
    {
        hi = hi - 1;
    }
    // s@[hi - 1] is not white space (hi > lo since s@[lo] is not).
    assert(hi > lo);
    let piece = s.substring_char(lo, hi);
    let r = piece.to_owned();
    proof {
        let t = s@.skip(lo as int);
        lemma_trim_end_take(t, hi - lo);
        assert(t.take(hi - lo) =~= s@.subrange(lo as int, hi as int));
        assert(t.take(hi - lo).len() > 0);
        assert(t.take(hi - lo).last() == s@[hi - 1]);
        assert(spec_trim_end(t.take(hi - lo)) == t.take(hi - lo));
    }
    r
}

/// `s` with leading white space removed, as an owned string.
pub fn trim_start_str(s: &str) -> (r: String)
    ensures
        r@ == spec_trim_start(s@),
{
    let n = s.unicode_len();
    let mut lo: usize = 0;
    while lo < n && s.get_char(lo).is_whitespace()
        invariant
            n == s@.len(),
            0 <= lo <= n,
            forall|k: int| 0 <= k < lo ==> is_space(s@[k]),
        decreases n - lo,
    {
        lo = lo + 1;
    }
    proof {
        lemma_trim_start_skip(s@, lo as int);
    }
    let piece = s.substring_char(lo, n);
    proof {
        assert(s@.subrange(lo as int, n as int) =~= s@.skip(lo as int));
    }
    piece.to_owned()
}

} // verus!
