//! Character-level string utilities: searching, splitting and comparing,
//! each specified over the `Seq<char>` view of `str`.

use vstd::prelude::*;
use vstd::string::StrSliceExecFns;

verus! {

/// Index of the first occurrence of `c` in `s`, or -1 if `c` does not occur.
pub open spec fn find_char(s: Seq<char>, c: char) -> int
    decreases s.len(),
{
    if s.len() == 0 {
        -1
    } else if s[0] == c {
        0
    } else {
        let r = find_char(s.drop_first(), c);
        if r < 0 {
            -1
        } else {
            1 + r
        }
    }
}

/// Index of the last occurrence of `c` in `s`, or -1 if `c` does not occur.
pub open spec fn rfind_char(s: Seq<char>, c: char) -> int
    decreases s.len(),
{
    if s.len() == 0 {
        -1
    } else if s.last() == c {
        s.len() - 1
    } else {
        rfind_char(s.drop_last(), c)
    }
}

/// The parts of `s` between occurrences of the separator `c`, in order.
/// Like Rust's `str::split`, a string without the separator yields itself
/// as its only part, so the result is never empty.
pub open spec fn split_char(s: Seq<char>, c: char) -> Seq<Seq<char>>
    decreases s.len(),
{
    let i = find_char(s, c);
    if i < 0 {
        seq![s]
    } else if i + 1 <= s.len() {
        seq![s.take(i)] + split_char(s.skip(i + 1), c)
    } else {
        seq![s]
    }
}

pub proof fn lemma_find_char_bounds(s: Seq<char>, c: char)
    ensures
        -1 <= find_char(s, c) < s.len(),
        find_char(s, c) >= 0 ==> s[find_char(s, c)] == c,
        forall|j: int| 0 <= j < find_char(s, c) ==> s[j] != c,
        find_char(s, c) == -1 ==> forall|j: int| 0 <= j < s.len() ==> s[j] != c,
    decreases s.len(),
{
    if s.len() == 0 {
    } else if s[0] == c {
    } else {
        lemma_find_char_bounds(s.drop_first(), c);
        assert(forall|j: int| 1 <= j < s.len() ==> s[j] == s.drop_first()[j - 1]);
    }
}

pub proof fn lemma_rfind_char_bounds(s: Seq<char>, c: char)
    ensures
        -1 <= rfind_char(s, c) < s.len(),
        rfind_char(s, c) >= 0 ==> s[rfind_char(s, c)] == c,
        forall|j: int| rfind_char(s, c) < j < s.len() ==> s[j] != c,
    decreases s.len(),
{
    if s.len() == 0 {
    } else if s.last() == c {
    } else {
        lemma_rfind_char_bounds(s.drop_last(), c);
        assert(forall|j: int| 0 <= j < s.len() - 1 ==> s[j] == s.drop_last()[j]);
    }
}

/// The last occurrence is the position whose later positions all differ
/// from `c`.
pub proof fn lemma_rfind_char_is(s: Seq<char>, c: char, j: int)
    requires
        0 <= j < s.len(),
        s[j] == c,
        forall|k: int| j < k < s.len() ==> s[k] != c,
    ensures
        rfind_char(s, c) == j,
    decreases s.len(),
{
    if j == s.len() - 1 {
    } else {
        assert(forall|k: int| 0 <= k < s.drop_last().len() ==> s.drop_last()[k] == s[k]);
        lemma_rfind_char_is(s.drop_last(), c, j);
    }
}

/// The first occurrence is the position whose earlier positions all differ
/// from `c`.
pub proof fn lemma_find_char_is(s: Seq<char>, c: char, j: int)
    requires
        0 <= j < s.len(),
        s[j] == c,
        forall|k: int| 0 <= k < j ==> s[k] != c,
    ensures
        find_char(s, c) == j,
    decreases s.len(),
{
    if j == 0 {
    } else {
        assert(forall|k: int| 0 <= k < s.drop_first().len() ==> s.drop_first()[k] == s[k + 1]);
        lemma_find_char_is(s.drop_first(), c, j - 1);
    }
}

/// A string none of whose characters is `c` has no occurrence of `c`.
pub proof fn lemma_find_char_none(s: Seq<char>, c: char)
    requires
        forall|k: int| 0 <= k < s.len() ==> s[k] != c,
    ensures
        find_char(s, c) == -1,
    decreases s.len(),
{
    if s.len() > 0 {
        assert(forall|k: int| 0 <= k < s.drop_first().len() ==> s.drop_first()[k] == s[k + 1]);
        lemma_find_char_none(s.drop_first(), c);
    }
}

/// When `c` does not occur in `s1`, its first occurrence in `s1 + s2`
/// is its first occurrence in `s2`, shifted past `s1`.
pub proof fn lemma_find_char_append_missing(s1: Seq<char>, s2: Seq<char>, c: char)
    requires
        find_char(s1, c) == -1,
    ensures
        find_char(s1 + s2, c) == if find_char(s2, c) < 0 {
            -1int
        } else {
            s1.len() + find_char(s2, c)
        },
    decreases s1.len(),
{
    lemma_find_char_bounds(s1, c);
    if s1.len() == 0 {
        assert(s1 + s2 =~= s2);
    } else {
        assert((s1 + s2)[0] == s1[0]);
        assert(find_char(s1.drop_first(), c) == -1) by {
            lemma_find_char_bounds(s1.drop_first(), c);
            if find_char(s1.drop_first(), c) >= 0 {
                assert(s1[find_char(s1.drop_first(), c) + 1] == c);
            }
        }
        lemma_find_char_append_missing(s1.drop_first(), s2, c);
        assert((s1 + s2).drop_first() =~= s1.drop_first() + s2);
    }
}

/// Splitting a separator-free part off the front: `s1 & s2` splits into
/// `s1` followed by the parts of `s2`.
pub proof fn lemma_split_char_append(s1: Seq<char>, s2: Seq<char>, c: char)
    requires
        find_char(s1, c) == -1,
    ensures
        split_char(s1 + seq![c] + s2, c) == seq![s1] + split_char(s2, c),
{
    let s = s1 + seq![c] + s2;
    assert(find_char(seq![c] + s2, c) == 0);
    lemma_find_char_append_missing(s1, seq![c] + s2, c);
    assert(s =~= s1 + (seq![c] + s2));
    assert(find_char(s, c) == s1.len());
    assert(s.take(s1.len() as int) =~= s1);
    assert(s.skip(s1.len() as int + 1) =~= s2);
}

/// A separator-free string is its own single part.
pub proof fn lemma_split_char_whole(s: Seq<char>, c: char)
    requires
        find_char(s, c) == -1,
    ensures
        split_char(s, c) == seq![s],
{
}

/// Exact equality of two strings, decided character by character.
pub fn str_eq(a: &str, b: &str) -> (r: bool)
    ensures
        r == (a@ == b@),
{
    let na = a.unicode_len();
    let nb = b.unicode_len();
    if na != nb {
        assert(a@ != b@);
        return false;
    }
    let mut i: usize = 0;
    while i < na
        invariant
            na == a@.len(),
            na == b@.len(),
            0 <= i <= na,
            forall|j: int| 0 <= j < i ==> a@[j] == b@[j],
        decreases na - i,
    {
        if a.get_char(i) != b.get_char(i) {
            return false;
        }
        i += 1;
    }
    proof {
        assert(a@ =~= b@);
    }
    true
}

/// Does `pat` occur in `s` starting exactly at position `i`?
pub open spec fn matches_at(s: Seq<char>, i: int, pat: Seq<char>) -> bool {
    0 <= i && i + pat.len() <= s.len() && forall|j: int| 0 <= j < pat.len() ==> s[i + j] == pat[j]
}

/// Index of the first position where `pat` occurs in `s`, or -1 if none.
/// The empty pattern occurs at position 0.
pub open spec fn find_sub(s: Seq<char>, pat: Seq<char>) -> int {
    if exists|i: int| matches_at(s, i, pat) {
        choose|i: int|
            matches_at(s, i, pat) && forall|j: int| 0 <= j < i ==> !matches_at(s, j, pat)
    } else {
        -1
    }
}

pub proof fn lemma_find_sub_bounds(s: Seq<char>, pat: Seq<char>)
    ensures
        find_sub(s, pat) >= 0 ==> matches_at(s, find_sub(s, pat), pat),
        find_sub(s, pat) >= 0 ==> forall|j: int|
            0 <= j < find_sub(s, pat) ==> !matches_at(s, j, pat),
        find_sub(s, pat) == -1 ==> forall|i: int| !matches_at(s, i, pat),
{
    if exists|i: int| matches_at(s, i, pat) {
        let w = choose|i: int| matches_at(s, i, pat);
        lemma_least_witness(s, pat, w);
    }
}

proof fn lemma_least_witness(s: Seq<char>, pat: Seq<char>, w: int)
    requires
        matches_at(s, w, pat),
    ensures
        exists|i: int|
            matches_at(s, i, pat) && forall|j: int| 0 <= j < i ==> !matches_at(s, j, pat),
    decreases w,
{
    if exists|j: int| 0 <= j < w && matches_at(s, j, pat) {
        let w2 = choose|j: int| 0 <= j < w && matches_at(s, j, pat);
        lemma_least_witness(s, pat, w2);
    } else {
        assert(matches_at(s, w, pat) && forall|j: int| 0 <= j < w ==> !matches_at(s, j, pat));
    }
}

/// Does `pat` occur anywhere in `s`?
pub open spec fn contains_sub(s: Seq<char>, pat: Seq<char>) -> bool {
    exists|i: int| matches_at(s, i, pat)
}

/// The parts of `s` between non-overlapping, leftmost-first occurrences
/// of the separator string `sep`, as Rust's `str::split` yields them.
pub open spec fn split_seq(s: Seq<char>, sep: Seq<char>) -> Seq<Seq<char>>
    decreases s.len(),
{
    let i = find_sub(s, sep);
    if sep.len() == 0 || i < 0 {
        seq![s]
    } else if i + sep.len() <= s.len() {
        seq![s.take(i)] + split_seq(s.skip(i + sep.len()), sep)
    } else {
        seq![s]
    }
}

/// Does `pat` occur in `s` starting at position `i`? Decided by comparison.
pub fn matches_at_exec(s: &str, i: usize, pat: &str) -> (r: bool)
    requires
        i <= s@.len(),
    ensures
        r == matches_at(s@, i as int, pat@),
{
    let n = s.unicode_len();
    let m = pat.unicode_len();
    if m > n - i {
        return false;
    }
    let mut k: usize = 0;
    while k < m
        invariant
            n == s@.len(),
            m == pat@.len(),
            i + m <= n,
            0 <= k <= m,
            forall|j: int| 0 <= j < k ==> s@[i + j] == pat@[j],
        decreases m - k,
    {
        if s.get_char(i + k) != pat.get_char(k) {
            assert(!matches_at(s@, i as int, pat@));
            return false;
        }
        k += 1;
    }
    true
}

/// First position at which `pat` occurs in `s`, searching left to right.
pub fn find_sub_exec(s: &str, pat: &str) -> (r: Option<usize>)
    ensures
        match r {
            Some(i) => find_sub(s@, pat@) == i as int,
            None => find_sub(s@, pat@) == -1,
        },
{
    let n = s.unicode_len();
    let m = pat.unicode_len();
    if m > n {
        proof {
            lemma_find_sub_bounds(s@, pat@);
            if find_sub(s@, pat@) >= 0 {
                assert(matches_at(s@, find_sub(s@, pat@), pat@));
            }
        }
        return None;
    }
    let mut i: usize = 0;
    while i <= n - m
        invariant
            n == s@.len(),
            m == pat@.len(),
            m <= n,
            0 <= i <= n + 1 - m,
            forall|j: int| 0 <= j < i ==> !matches_at(s@, j, pat@),
        decreases n - i,
    {
        if matches_at_exec(s, i, pat) {
            proof {
                lemma_find_sub_bounds(s@, pat@);
            }
            return Some(i);
        }
        i += 1;
    }
    proof {
        assert(forall|j: int| matches_at(s@, j, pat@) ==> 0 <= j && j + m <= n);
        lemma_find_sub_bounds(s@, pat@);
    }
    None
}

/// Does `pat` occur anywhere in `s`?
pub fn contains_sub_exec(s: &str, pat: &str) -> (r: bool)
    ensures
        r == contains_sub(s@, pat@),
{
    let r = find_sub_exec(s, pat);
    proof {
        lemma_find_sub_bounds(s@, pat@);
    }
    r.is_some()
}

/// Does `s` start with `pat`?
pub fn starts_with(s: &str, pat: &str) -> (r: bool)
    ensures
        r == pat@.is_prefix_of(s@),
{
    let r = matches_at_exec(s, 0, pat);
    proof {
        if matches_at(s@, 0, pat@) {
            assert(pat@ =~= s@.subrange(0, pat@.len() as int));
        }
        if pat@.is_prefix_of(s@) {
            assert(forall|j: int|
                0 <= j < pat@.len() ==> pat@[j] == s@.subrange(0, pat@.len() as int)[j]);
        }
    }
    r
}

/// First occurrence of `c` in `s` at or after position `from`, reported
/// against the first occurrence of `c` in the suffix `s[from..]`.
pub fn find_char_from(s: &str, from: usize, c: char) -> (r: Option<usize>)
    requires
        from <= s@.len(),
    ensures
        match r {
            Some(i) => from <= i < s@.len() && find_char(s@.skip(from as int), c) == i - from,
            None => find_char(s@.skip(from as int), c) == -1,
        },
    decreases s@.len() - from,
{
    let n = s.unicode_len();
    if from == n {
        proof {
            assert(s@.skip(from as int).len() == 0);
        }
        return None;
    }
    let ch = s.get_char(from);
    if ch == c {
        proof {
            assert(s@.skip(from as int)[0] == c);
        }
        Some(from)
    } else {
        let r = find_char_from(s, from + 1, c);
        proof {
            assert(s@.skip(from as int).drop_first() =~= s@.skip(from as int + 1));
            assert(s@.skip(from as int)[0] == ch);
        }
        match r {
            Some(i) => Some(i),
            None => None,
        }
    }
}

/// Last occurrence of `c` in `s`, reported against `rfind_char`.
pub fn rfind_char_exec(s: &str, c: char) -> (r: Option<usize>)
    ensures
        match r {
            Some(i) => i < s@.len() && rfind_char(s@, c) == i as int,
            None => rfind_char(s@, c) == -1,
        },
{
    let n = s.unicode_len();
    proof {
        assert(s@.take(n as int) =~= s@);
    }
    let mut i: usize = n;
    while i > 0
        invariant
            n == s@.len(),
            0 <= i <= n,
            rfind_char(s@, c) == rfind_char(s@.take(i as int), c),
        decreases i,
    {
        let ch = s.get_char(i - 1);
        proof {
            assert(s@.take(i as int).last() == s@[i - 1]);
            if ch != c {
                assert(s@.take(i as int).drop_last() =~= s@.take(i as int - 1));
            }
        }
        if ch == c {
            proof {
                lemma_rfind_char_bounds(s@, c);
            }
            return Some(i - 1);
        }
        i -= 1;
    }
    proof {
        assert(s@.take(0).len() == 0);
    }
    None
}

} // verus!
