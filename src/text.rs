//! Character-level helpers shared by the pipeline stages.

use vstd::prelude::*;

verus! {

/// The characters of `s`, in order.
pub fn chars_of(s: &str) -> (r: Vec<char>)
    ensures
        r@ == s@,
{
    let mut v: Vec<char> = Vec::new();
    for c in it: s.chars()
        invariant
            it.seq() == s@,
            v@ == it.seq().take(it.index() as int),
    {
        v.push(c);
    }
    v
}

/// Relies on `String::push`: appends one character at the end.
#[verifier::external_body]
fn push_char(s: &mut String, c: char)
    ensures
        final(s)@ == old(s)@.push(c),
{
    s.push(c);
}

/// A string holding exactly the characters of `v`.
pub fn string_of(v: &[char]) -> (r: String)
    ensures
        r@ == v@,
{
    let mut s = String::new();
    let mut i: usize = 0;
    while i < v.len()
        invariant
            i <= v.len(),
            s@ == v@.take(i as int),
        decreases v.len() - i,
    {
        push_char(&mut s, v[i]);
        i = i + 1;
        assert(v@.take(i as int) == v@.take(i - 1).push(v@[i - 1]));
    }
    assert(v@.take(v.len() as int) == v@);
    s
}

/// Whether `c` ends a line.
pub open spec fn is_eol(c: char) -> bool {
    c == '\n' || c == '\r'
}

/// The first position at or after `i` where `pat` occurs in `s`, or -1.
pub open spec fn first_at(s: Seq<char>, pat: Seq<char>, i: int) -> int
    decreases s.len() + 1 - i,
{
    if i < 0 || i + pat.len() > s.len() {
        -1
    } else if s.subrange(i, i + pat.len()) == pat {
        i
    } else {
        first_at(s, pat, i + 1)
    }
}

/// The last position below `hi` that holds `c`, or -1.
pub open spec fn last_before(s: Seq<char>, c: char, hi: int) -> int
    decreases hi,
{
    if hi <= 0 || hi > s.len() {
        -1
    } else if s[hi - 1] == c {
        hi - 1
    } else {
        last_before(s, c, hi - 1)
    }
}

pub proof fn lemma_first_at(s: Seq<char>, pat: Seq<char>, i: int)
    requires
        0 <= i,
    ensures
        first_at(s, pat, i) == -1 || (i <= first_at(s, pat, i) && first_at(s, pat, i)
            + pat.len() <= s.len() && s.subrange(
            first_at(s, pat, i),
            first_at(s, pat, i) + pat.len(),
        ) == pat),
        first_at(s, pat, i) == -1 ==> forall|j: int|
            i <= j && j + pat.len() <= s.len() ==> #[trigger] s.subrange(j, j + pat.len()) != pat,
        first_at(s, pat, i) != -1 ==> forall|j: int|
            i <= j < first_at(s, pat, i) ==> #[trigger] s.subrange(j, j + pat.len()) != pat,
    decreases s.len() + 1 - i,
{
    if i + pat.len() > s.len() {
    } else if s.subrange(i, i + pat.len()) != pat {
        lemma_first_at(s, pat, i + 1);
    }
}

pub proof fn lemma_last_before(s: Seq<char>, c: char, hi: int)
    ensures
        last_before(s, c, hi) == -1 || (0 <= last_before(s, c, hi) < hi && hi <= s.len()
            && s[last_before(s, c, hi)] == c),
    decreases hi,
{
    if 0 < hi <= s.len() && s[hi - 1] != c {
        lemma_last_before(s, c, hi - 1);
    }
}

/// Whether `pat` occurs in `s` starting at `j`.
pub fn occurs_at(s: &[char], pat: &[char], j: usize) -> (r: bool)
    ensures
        r == (j + pat@.len() <= s@.len() && s@.subrange(j as int, j + pat@.len()) == pat@),
{
    if j > s.len() || pat.len() > s.len() - j {
        return false;
    }
    let mut k: usize = 0;
    while k < pat.len()
        invariant
            j + pat.len() <= s.len(),
            k <= pat.len(),
            forall|m: int| 0 <= m < k ==> s@[j + m] == pat@[m],
        decreases pat.len() - k,
    {
        if s[j + k] != pat[k] {
            assert(s@.subrange(j as int, j + pat@.len())[k as int] != pat@[k as int]);
            return false;
        }
        k = k + 1;
    }
    assert(s@.subrange(j as int, j + pat@.len()) == pat@);
    true
}

/// The first position at or after `i` where `pat` occurs in `s`.
pub fn find_from(s: &[char], pat: &[char], i: usize) -> (r: Option<usize>)
    ensures
        match r {
            Some(j) => j as int == first_at(s@, pat@, i as int),
            None => first_at(s@, pat@, i as int) == -1,
        },
{
    let mut j: usize = i;
    while j <= s.len() && pat.len() <= s.len() - j
        invariant
            i <= j,
            first_at(s@, pat@, i as int) == first_at(s@, pat@, j as int),
        decreases s.len() + 1 - j,
    {
        if occurs_at(s, pat, j) {
            return Some(j);
        }
        if j == s.len() {
            assert(first_at(s@, pat@, j + 1) == -1);
            return None;
        }
        j = j + 1;
    }
    None
}

/// The last position below `hi` that holds `c`.
pub fn find_last_before(s: &[char], c: char, hi: usize) -> (r: Option<usize>)
    requires
        hi <= s.len(),
    ensures
        match r {
            Some(j) => j as int == last_before(s@, c, hi as int),
            None => last_before(s@, c, hi as int) == -1,
        },
{
    let mut k: usize = hi;
    while k > 0
        invariant
            k <= hi <= s.len(),
            last_before(s@, c, hi as int) == last_before(s@, c, k as int),
        decreases k,
    {
        if s[k - 1] == c {
            return Some(k - 1);
        }
        k = k - 1;
    }
    None
}

/// A copy of `v[lo..hi]`.
pub fn copy_range(v: &[char], lo: usize, hi: usize) -> (r: Vec<char>)
    requires
        lo <= hi <= v.len(),
    ensures
        r@ == v@.subrange(lo as int, hi as int),
{
    let mut r: Vec<char> = Vec::new();
    let mut k: usize = lo;
    while k < hi
        invariant
            lo <= k <= hi <= v.len(),
            r@ == v@.subrange(lo as int, k as int),
        decreases hi - k,
    {
        r.push(v[k]);
        k = k + 1;
        assert(r@ == v@.subrange(lo as int, k as int));
    }
    r
}

} // verus!
