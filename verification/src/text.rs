//! Character-sequence utilities shared by the id extractors, the pattern
//! scanner, and the transcript parsers: substring search, whitespace
//! trimming, and joining, each with an exact sequence-level specification.

use vstd::prelude::*;
use vstd::string::*;

verus! {

/// The whitespace characters recognized by this crate's trimming and
/// format sniffing.
pub open spec fn is_ws(c: char) -> bool {
    c == ' ' || c == '\t' || c == '\n' || c == '\r'
}

/// `needle` occurs in `hay` starting at position `i`.
pub open spec fn occurs_at(hay: Seq<char>, needle: Seq<char>, i: int) -> bool {
    0 <= i && i + needle.len() <= hay.len() && hay.subrange(i, i + needle.len()) == needle
}

/// The first position at or after `from` where `needle` occurs in `hay`.
pub open spec fn find_at(hay: Seq<char>, needle: Seq<char>, from: int) -> Option<int>
    decreases hay.len() - from,
{
    if from < 0 || from + needle.len() > hay.len() {
        None
    } else if needle.len() == 0 || occurs_at(hay, needle, from) {
        Some(from)
    } else {
        find_at(hay, needle, from + 1)
    }
}

pub open spec fn contains_seq(hay: Seq<char>, needle: Seq<char>) -> bool {
    find_at(hay, needle, 0) is Some
}

/// A found position lies at or after `from` and the match fits in `hay`.
pub proof fn lemma_find_at_props(hay: Seq<char>, needle: Seq<char>, from: int)
    ensures
        (match find_at(hay, needle, from) {
            Some(i) => from <= i && 0 <= i && i + needle.len() <= hay.len() && (needle.len() == 0
                || occurs_at(hay, needle, i)),
            None => true,
        }),
    decreases hay.len() - from,
{
    if !(from < 0 || from + needle.len() > hay.len()) && !(needle.len() == 0 || occurs_at(
        hay,
        needle,
        from,
    )) {
        lemma_find_at_props(hay, needle, from + 1);
    }
}

/// Number of leading whitespace characters.
pub open spec fn leading_ws(s: Seq<char>) -> int
    decreases s.len(),
{
    if s.len() == 0 || !is_ws(s[0]) {
        0
    } else {
        1 + leading_ws(s.subrange(1, s.len() as int))
    }
}

/// Number of trailing whitespace characters.
pub open spec fn trailing_ws(s: Seq<char>) -> int
    decreases s.len(),
{
    if s.len() == 0 || !is_ws(s.last()) {
        0
    } else {
        1 + trailing_ws(s.drop_last())
    }
}

/// `s` with leading and trailing whitespace removed.
pub open spec fn trim_seq(s: Seq<char>) -> Seq<char> {
    let t = s.subrange(leading_ws(s), s.len() as int);
    t.subrange(0, t.len() - trailing_ws(t))
}

/// The parts concatenated, with `sep` between consecutive parts.
pub open spec fn join_with(parts: Seq<Seq<char>>, sep: Seq<char>) -> Seq<char>
    decreases parts.len(),
{
    if parts.len() == 0 {
        Seq::empty()
    } else if parts.len() == 1 {
        parts[0]
    } else {
        join_with(parts.drop_last(), sep) + sep + parts.last()
    }
}

/// If the first `i` characters are whitespace and the `i`-th (when it
/// exists) is not, then `i` is exactly the leading-whitespace count.
pub proof fn lemma_leading_ws_at(s: Seq<char>, i: int)
    requires
        0 <= i <= s.len(),
        forall|k: int| 0 <= k < i ==> is_ws(s[k]),
        i < s.len() ==> !is_ws(s[i]),
    ensures
        leading_ws(s) == i,
    decreases i,
{
    if i == 0 {
    } else {
        let t = s.subrange(1, s.len() as int);
        assert(forall|k: int| 0 <= k < i - 1 ==> s[k + 1] == t[k]);
        lemma_leading_ws_at(t, i - 1);
    }
}

/// If every character from `i` on is whitespace and the one before `i`
/// (when it exists) is not, the trailing-whitespace count is `len - i`.
pub proof fn lemma_trailing_ws_at(s: Seq<char>, i: int)
    requires
        0 <= i <= s.len(),
        forall|k: int| i <= k < s.len() ==> is_ws(s[k]),
        0 < i ==> !is_ws(s[i - 1]),
    ensures
        trailing_ws(s) == s.len() - i,
    decreases s.len() - i,
{
    if i == s.len() {
    } else {
        let t = s.drop_last();
        assert(forall|k: int| i <= k < t.len() ==> t[k] == s[k]);
        lemma_trailing_ws_at(t, i);
    }
}

pub fn is_ws_char(c: char) -> (r: bool)
    ensures
        r == is_ws(c),
{
    c == ' ' || c == '\t' || c == '\n' || c == '\r'
}

/// Character-for-character string equality, reflected to the views.
pub fn str_eq(a: &str, b: &str) -> (r: bool)
    ensures
        r == (a@ == b@),
{
    let n = a.unicode_len();
    let m = b.unicode_len();
    if n != m {
        return false;
    }
    let mut i: usize = 0;
    while i < n
        invariant
            n == a@.len(),
            n == b@.len(),
            i <= n,
            forall|k: int| 0 <= k < i ==> a@[k] == b@[k],
        decreases n - i,
    {
        if a.get_char(i) != b.get_char(i) {
            return false;
        }
        i += 1;
    }
    proof {
        assert(a@ =~= b@);
    }
    true
}

/// Whether `pat` occurs in `s` exactly at position `i`.
pub fn match_at(s: &str, pat: &str, i: usize) -> (r: bool)
    ensures
        r == occurs_at(s@, pat@, i as int),
{
    let n = s.unicode_len();
    let m = pat.unicode_len();
    if i > n || m > n - i {
        return false;
    }
    let mut j: usize = 0;
    while j < m
        invariant
            n == s@.len(),
            m == pat@.len(),
            i + m <= n,
            j <= m,
            forall|k: int| 0 <= k < j ==> s@[i + k] == pat@[k],
        decreases m - j,
    {
        if s.get_char(i + j) != pat.get_char(j) {
            proof {
                assert(s@.subrange(i as int, i + m)[j as int] == s@[i + j]);
            }
            return false;
        }
        j += 1;
    }
    proof {
        assert(s@.subrange(i as int, i + m) =~= pat@);
    }
    true
}

pub fn starts_with_str(s: &str, pat: &str) -> (r: bool)
    ensures
        r == occurs_at(s@, pat@, 0),
{
    match_at(s, pat, 0)
}

/// The first occurrence of `pat` in `s` at or after `from`.
pub fn find_from(s: &str, pat: &str, from: usize) -> (r: Option<usize>)
    ensures
        (match r {
            Some(i) => find_at(s@, pat@, from as int) == Some(i as int),
            None => find_at(s@, pat@, from as int) is None,
        }),
{
    let n = s.unicode_len();
    let m = pat.unicode_len();
    if m == 0 {
        if from <= n {
            return Some(from);
        } else {
            return None;
        }
    }
    let mut i: usize = from;
    while i <= n && m <= n - i
        invariant
            n == s@.len(),
            m == pat@.len(),
            m >= 1,
            from <= i,
            find_at(s@, pat@, from as int) == find_at(s@, pat@, i as int),
        decreases n + 1 - i,
    {
        if match_at(s, pat, i) {
            return Some(i);
        }
        i += 1;
    }
    None
}

pub fn contains_str(s: &str, pat: &str) -> (r: bool)
    ensures
        r == contains_seq(s@, pat@),
{
    match find_from(s, pat, 0) {
        Some(_) => true,
        None => false,
    }
}

/// The trimmed slice of `s`.
pub fn trim_str<'a>(s: &'a str) -> (r: &'a str)
    ensures
        r@ == trim_seq(s@),
{
    let n = s.unicode_len();
    let mut lo: usize = 0;
    while lo < n && is_ws_char(s.get_char(lo))
        invariant
            n == s@.len(),
            lo <= n,
            forall|k: int| 0 <= k < lo ==> is_ws(s@[k]),
        decreases n - lo,
    {
        lo += 1;
    }
    proof {
        lemma_leading_ws_at(s@, lo as int);
    }
    let mut hi: usize = n;
    while hi > lo && is_ws_char(s.get_char(hi - 1))
        invariant
            n == s@.len(),
            lo <= hi <= n,
            forall|k: int| hi <= k < n ==> is_ws(s@[k]),
        decreases hi,
    {
        hi -= 1;
    }
    let r = s.substring_char(lo, hi);
    proof {
        let t = s@.subrange(lo as int, n as int);
        assert(forall|k: int| 0 <= k < t.len() ==> t[k] == s@[lo + k]);
        if hi == lo {
            lemma_trailing_ws_at(t, 0);
        } else {
            lemma_trailing_ws_at(t, hi - lo);
        }
        assert(t.subrange(0, hi - lo) =~= s@.subrange(lo as int, hi as int));
    }
    r
}

/// Joins the strings with `sep` between consecutive elements.
pub fn join_all(parts: &Vec<String>, sep: &str) -> (r: String)
    ensures
        r@ == join_with(parts@.map_values(|p: String| p@), sep@),
{
    let ghost views = parts@.map_values(|p: String| p@);
    let mut r = String::new();
    let mut i: usize = 0;
    while i < parts.len()
        invariant
            views == parts@.map_values(|p: String| p@),
            views.len() == parts@.len(),
            i <= parts@.len(),
            r@ == join_with(views.take(i as int), sep@),
        decreases parts@.len() - i,
    {
        if i > 0 {
            r.append(sep);
        }
        r.append(parts[i].as_str());
        proof {
            assert(views.take(i + 1).drop_last() =~= views.take(i as int));
            assert(views.take(i + 1).last() == views[i as int]);
            if i == 0 {
                assert(r@ =~= join_with(views.take(1), sep@));
            }
        }
        i += 1;
    }
    proof {
        assert(views.take(parts@.len() as int) =~= views);
    }
    r
}

/// Relies on `String::push`: appends exactly the given character.
#[verifier::external_body]
pub fn push_char(s: &mut String, c: char)
    ensures
        final(s)@ == old(s)@ + seq![c],
{
    s.push(c);
}

/// Non-breaking spaces replaced by regular spaces.
pub open spec fn nbsp_normalize(s: Seq<char>) -> Seq<char> {
    s.map_values(|c: char| if c == '\u{00A0}' { ' ' } else { c })
}

/// Appends `s` with its non-breaking spaces normalized.
pub fn append_normalized(acc: &mut String, s: &str)
    ensures
        final(acc)@ == old(acc)@ + nbsp_normalize(s@),
{
    let n = s.unicode_len();
    let mut i: usize = 0;
    while i < n
        invariant
            n == s@.len(),
            i <= n,
            acc@ == old(acc)@ + nbsp_normalize(s@.take(i as int)),
        decreases n - i,
    {
        let c = s.get_char(i);
        if c == '\u{00A0}' {
            push_char(acc, ' ');
        } else {
            push_char(acc, c);
        }
        proof {
            let mapped = (if s@[i as int] == '\u{00A0}' {
                ' '
            } else {
                s@[i as int]
            });
            assert(nbsp_normalize(s@.take(i + 1)) =~= nbsp_normalize(s@.take(i as int))
                + seq![mapped]);
        }
        i += 1;
    }
    proof {
        assert(s@.take(n as int) =~= s@);
    }
}

pub open spec fn is_digit(c: char) -> bool {
    48 <= c as u32 <= 57
}

pub open spec fn all_digits(s: Seq<char>) -> bool {
    forall|i: int| 0 <= i < s.len() ==> is_digit(s[i])
}

pub open spec fn digit_val(c: char) -> int {
    c as u32 - 48
}

/// The number denoted by a digit string, most significant first.
pub open spec fn digits_val(s: Seq<char>) -> int
    decreases s.len(),
{
    if s.len() == 0 {
        0
    } else {
        digits_val(s.drop_last()) * 10 + digit_val(s.last())
    }
}

pub proof fn lemma_digits_val_nonneg(s: Seq<char>)
    requires
        all_digits(s),
    ensures
        digits_val(s) >= 0,
    decreases s.len(),
{
    if s.len() > 0 {
        lemma_digits_val_nonneg(s.drop_last());
    }
}

/// A digit string denotes at least as much as any of its prefixes.
pub proof fn lemma_digits_prefix_le(s: Seq<char>, i: int)
    requires
        all_digits(s),
        0 <= i <= s.len(),
    ensures
        digits_val(s.take(i)) <= digits_val(s),
    decreases s.len() - i,
{
    if i == s.len() {
        assert(s.take(i) =~= s);
    } else {
        assert(s.take(i + 1).drop_last() =~= s.take(i));
        assert(s.take(i + 1).last() == s[i]);
        lemma_digits_val_nonneg(s.take(i));
        lemma_digits_prefix_le(s, i + 1);
    }
}

/// The position of the first non-digit character at or after `k`, or the
/// length when all remaining characters are digits.
pub open spec fn first_non_digit_from(s: Seq<char>, k: int) -> int
    decreases s.len() - k,
{
    if k < 0 || k >= s.len() {
        s.len() as int
    } else if !is_digit(s[k]) {
        k
    } else {
        first_non_digit_from(s, k + 1)
    }
}

pub proof fn lemma_first_non_digit_bounds(s: Seq<char>, k: int)
    requires
        0 <= k <= s.len(),
    ensures
        k <= first_non_digit_from(s, k) <= s.len(),
    decreases s.len() - k,
{
    if k < s.len() && is_digit(s[k]) {
        lemma_first_non_digit_bounds(s, k + 1);
    }
}

/// Everything before the first non-digit is a digit.
pub proof fn lemma_first_non_digit_run(s: Seq<char>, k: int)
    requires
        0 <= k <= s.len(),
    ensures
        forall|t: int| k <= t < first_non_digit_from(s, k) ==> is_digit(s[t]),
    decreases s.len() - k,
{
    if k < s.len() && is_digit(s[k]) {
        lemma_first_non_digit_run(s, k + 1);
    }
}

pub fn is_digit_char(c: char) -> (r: bool)
    ensures
        r == is_digit(c),
{
    let u = c as u32;
    48 <= u && u <= 57
}

/// Parses a non-empty all-digit string as a number; `None` exactly when
/// the string is empty, holds a non-digit, or denotes more than `u64::MAX`.
pub fn parse_u64_digits(s: &str) -> (r: Option<u64>)
    ensures
        (match r {
            Some(v) => s@.len() > 0 && all_digits(s@) && digits_val(s@) == v as int,
            None => s@.len() == 0 || !all_digits(s@) || digits_val(s@) > u64::MAX,
        }),
{
    let n = s.unicode_len();
    if n == 0 {
        return None;
    }
    let mut v: u64 = 0;
    let mut i: usize = 0;
    while i < n
        invariant
            n == s@.len(),
            i <= n,
            all_digits(s@.take(i as int)),
            digits_val(s@.take(i as int)) == v as int,
        decreases n - i,
    {
        let c = s.get_char(i);
        let u = c as u32;
        if u < 48 || u > 57 {
            proof {
                assert(!is_digit(s@[i as int]));
            }
            return None;
        }
        let d = (u - 48) as u64;
        proof {
            assert(s@.take(i + 1).drop_last() =~= s@.take(i as int));
            assert(s@.take(i + 1).last() == s@[i as int]);
        }
        if v > (u64::MAX - d) / 10 {
            proof {
                assert(v * 10 + d > u64::MAX) by (nonlinear_arith)
                    requires
                        v > (u64::MAX - d) / 10,
                        d <= u64::MAX,
                ;
                if all_digits(s@) {
                    lemma_digits_prefix_le(s@, i + 1);
                }
            }
            return None;
        }
        proof {
            assert(v * 10 + d <= u64::MAX) by (nonlinear_arith)
                requires
                    v <= (u64::MAX - d) / 10,
                    d <= u64::MAX,
            ;
        }
        v = v * 10 + d;
        i += 1;
    }
    proof {
        assert(s@.take(n as int) =~= s@);
    }
    Some(v)
}

} // verus!
