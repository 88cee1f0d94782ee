//! Character-sequence utilities shared by the workflow steps: whitespace
//! trimming, string equality, substring search, and first-occurrence search,
//! each an executable function proved against a spec-level definition.

use vstd::prelude::*;

verus! {

/// A character with the Unicode `White_Space` property, the set that both
/// sides of a title comparison are stripped of.
pub open spec fn is_ws(c: char) -> bool {
    let u = c as u32;
    (0x9 <= u && u <= 0xd) || u == 0x20 || u == 0x85 || u == 0xa0 || u == 0x1680 || (0x2000
        <= u && u <= 0x200a) || u == 0x2028 || u == 0x2029 || u == 0x202f || u == 0x205f || u
        == 0x3000
}

pub fn is_ws_char(c: char) -> (r: bool)
    ensures
        r == is_ws(c),
{
    let u = c as u32;
    (0x9 <= u && u <= 0xd) || u == 0x20 || u == 0x85 || u == 0xa0 || u == 0x1680 || (0x2000 <= u
        && u <= 0x200a) || u == 0x2028 || u == 0x2029 || u == 0x202f || u == 0x205f || u == 0x3000
}

/// `s` with every leading and trailing whitespace character removed.
pub open spec fn trimmed(s: Seq<char>) -> Seq<char>
    decreases s.len(),
{
    if s.len() > 0 && is_ws(s[0]) {
        trimmed(s.subrange(1, s.len() as int))
    } else if s.len() > 0 && is_ws(s[s.len() - 1]) {
        trimmed(s.subrange(0, s.len() - 1))
    } else {
        s
    }
}

/// The trimmed sequence is exactly the core between the leading and trailing
/// whitespace runs.
proof fn lemma_trimmed_core(s: Seq<char>, lo: int, hi: int)
    requires
        0 <= lo <= hi <= s.len(),
        forall|j: int| 0 <= j < lo ==> is_ws(s[j]),
        forall|j: int| hi <= j < s.len() ==> is_ws(s[j]),
        lo < hi ==> !is_ws(s[lo]) && !is_ws(s[hi - 1]),
    ensures
        trimmed(s) == s.subrange(lo, hi),
    decreases s.len(),
{
    if lo > 0 {
        assert(is_ws(s[0]));
        let t = s.subrange(1, s.len() as int);
        lemma_trimmed_core(t, lo - 1, hi - 1);
        assert(t.subrange(lo - 1, hi - 1) =~= s.subrange(lo, hi));
    } else if hi < s.len() {
        if hi == 0 {
            assert(is_ws(s[0]));
            let t = s.subrange(1, s.len() as int);
            lemma_trimmed_core(t, 0, 0);
            assert(t.subrange(0, 0) =~= s.subrange(0, 0));
        } else {
            assert(!is_ws(s[0]));
            assert(is_ws(s[s.len() - 1]));
            let t = s.subrange(0, s.len() - 1);
            lemma_trimmed_core(t, 0, hi);
            assert(t.subrange(0, hi) =~= s.subrange(lo, hi));
        }
    } else {
        assert(s.subrange(0, s.len() as int) =~= s);
    }
}

/// Executable whitespace trim, the counterpart of `str::trim`.
pub fn trim(s: &str) -> (r: String)
    ensures
        r@ == trimmed(s@),
{
    let n = s.unicode_len();
    let mut lo: usize = 0;
    while lo < n && is_ws_char(s.get_char(lo))
        invariant
            lo <= n,
            n == s@.len(),
            forall|j: int| 0 <= j < lo ==> is_ws(s@[j]),
        decreases n - lo,
    {
        lo += 1;
    }
    let mut hi: usize = n;
    while hi > lo && is_ws_char(s.get_char(hi - 1))
        invariant
            lo <= hi <= n,
            n == s@.len(),
            forall|j: int| hi <= j < n ==> is_ws(s@[j]),
        decreases hi,
    {
        hi -= 1;
    }
    proof {
        lemma_trimmed_core(s@, lo as int, hi as int);
    }
    let mid = s.substring_char(lo, hi);
    mid.to_owned()
}

/// Character-by-character string equality.
pub fn str_eq(a: &str, b: &str) -> (r: bool)
    ensures
        r == (a@ == b@),
{
    let n = a.unicode_len();
    let m = b.unicode_len();
    if n != m {
        return false;
    }
    let mut i: usize = 0;
    while i < n
        invariant
            i <= n,
            n == a@.len(),
            n == b@.len(),
            forall|j: int| 0 <= j < i ==> a@[j] == b@[j],
        decreases n - i,
    {
        if a.get_char(i) != b.get_char(i) {
            return false;
        }
        i += 1;
    }
    proof {
        assert(a@ =~= b@);
    }
    true
}

/// `p` occurs at the front of `s`.
pub open spec fn starts_with(s: Seq<char>, p: Seq<char>) -> bool {
    s.len() >= p.len() && s.take(p.len() as int) == p
}

pub fn str_starts_with(s: &str, p: &str) -> (r: bool)
    ensures
        r == starts_with(s@, p@),
{
    let n = s.unicode_len();
    let m = p.unicode_len();
    if m > n {
        return false;
    }
    let mut i: usize = 0;
    while i < m
        invariant
            i <= m <= n,
            n == s@.len(),
            m == p@.len(),
            forall|j: int| 0 <= j < i ==> s@[j] == p@[j],
        decreases m - i,
    {
        if s.get_char(i) != p.get_char(i) {
            proof {
                assert(s@.take(m as int)[i as int] != p@[i as int]);
            }
            return false;
        }
        i += 1;
    }
    proof {
        assert(s@.take(m as int) =~= p@);
    }
    true
}

/// `p` occurs at the end of `s`.
pub open spec fn ends_with(s: Seq<char>, p: Seq<char>) -> bool {
    s.len() >= p.len() && s.subrange(s.len() - p.len(), s.len() as int) == p
}

pub fn str_ends_with(s: &str, p: &str) -> (r: bool)
    ensures
        r == ends_with(s@, p@),
{
    let n = s.unicode_len();
    let m = p.unicode_len();
    if m > n {
        return false;
    }
    let off = n - m;
    let mut i: usize = 0;
    while i < m
        invariant
            i <= m <= n,
            off == n - m,
            n == s@.len(),
            m == p@.len(),
            forall|j: int| 0 <= j < i ==> s@[off + j] == p@[j],
        decreases m - i,
    {
        if s.get_char(off + i) != p.get_char(i) {
            proof {
                assert(s@.subrange(n - m, n as int)[i as int] != p@[i as int]);
            }
            return false;
        }
        i += 1;
    }
    proof {
        assert(s@.subrange(n - m, n as int) =~= p@);
    }
    true
}

/// The first index at or after `i` where `c` occurs in `s`, or `s.len()` when
/// it does not occur there.
pub open spec fn first_at_or_after(s: Seq<char>, c: char, i: int) -> int
    decreases s.len() - i,
{
    if i >= s.len() {
        s.len() as int
    } else if s[i] == c {
        i
    } else {
        first_at_or_after(s, c, i + 1)
    }
}

pub proof fn lemma_first_at_or_after(s: Seq<char>, c: char, i: int)
    requires
        0 <= i <= s.len(),
    ensures
        i <= first_at_or_after(s, c, i) <= s.len(),
        first_at_or_after(s, c, i) < s.len() ==> s[first_at_or_after(s, c, i)] == c,
        forall|j: int| i <= j < first_at_or_after(s, c, i) ==> s[j] != c,
    decreases s.len() - i,
{
    if i < s.len() && s[i] != c {
        lemma_first_at_or_after(s, c, i + 1);
    }
}

/// `c` occurs somewhere in `s`.
pub open spec fn has_char(s: Seq<char>, c: char) -> bool {
    exists|i: int| 0 <= i < s.len() && s[i] == c
}

pub proof fn lemma_first_at_or_after_has_char(s: Seq<char>, c: char)
    ensures
        has_char(s, c) <==> first_at_or_after(s, c, 0) < s.len(),
{
    lemma_first_at_or_after(s, c, 0);
    if first_at_or_after(s, c, 0) < s.len() {
        assert(s[first_at_or_after(s, c, 0)] == c);
    }
}

/// Executable first-occurrence search from a starting index.
pub fn find_char_from(s: &str, c: char, start: usize) -> (r: usize)
    requires
        start <= s@.len(),
    ensures
        r == first_at_or_after(s@, c, start as int),
{
    let n = s.unicode_len();
    let mut i: usize = start;
    while i < n
        invariant
            start <= i <= n,
            n == s@.len(),
            first_at_or_after(s@, c, start as int) == first_at_or_after(s@, c, i as int),
        decreases n - i,
    {
        if s.get_char(i) == c {
            return i;
        }
        i += 1;
    }
    n
}

/// `needle` occurs contiguously somewhere in `hay`.
pub open spec fn contains_seq(hay: Seq<char>, needle: Seq<char>) -> bool {
    exists|i: int|
        0 <= i && i + needle.len() <= hay.len() && #[trigger] hay.subrange(i, i + needle.len())
            == needle
}

fn match_at(hay: &str, needle: &str, at: usize) -> (r: bool)
    requires
        at + needle@.len() <= hay@.len(),
    ensures
        r == (hay@.subrange(at as int, at + needle@.len()) == needle@),
{
    let n = hay.unicode_len();
    let m = needle.unicode_len();
    let mut k: usize = 0;
    while k < m
        invariant
            k <= m,
            m == needle@.len(),
            n == hay@.len(),
            at + m <= n,
            forall|j: int| 0 <= j < k ==> hay@[at + j] == needle@[j],
        decreases m - k,
    {
        if hay.get_char(at + k) != needle.get_char(k) {
            proof {
                assert(hay@.subrange(at as int, at + m)[k as int] != needle@[k as int]);
            }
            return false;
        }
        k += 1;
    }
    proof {
        assert(hay@.subrange(at as int, at + m) =~= needle@);
    }
    true
}

/// Executable substring search.
pub fn str_contains(hay: &str, needle: &str) -> (r: bool)
    ensures
        r == contains_seq(hay@, needle@),
{
    let n = hay.unicode_len();
    let m = needle.unicode_len();
    if m > n {
        return false;
    }
    let limit = n - m;
    let mut i: usize = 0;
    while i < limit
        invariant
            m <= n,
            limit == n - m,
            i <= limit,
            n == hay@.len(),
            m == needle@.len(),
            forall|j: int| 0 <= j < i ==> #[trigger] hay@.subrange(j, j + m) != needle@,
        decreases limit - i,
    {
        if match_at(hay, needle, i) {
            return true;
        }
        i += 1;
    }
    if match_at(hay, needle, limit) {
        return true;
    }
    proof {
        assert(forall|w: int|
            0 <= w && w + needle@.len() <= hay@.len() ==> #[trigger] hay@.subrange(
                w,
                w + needle@.len(),
            ) != needle@);
    }
    false
}

} // verus!
