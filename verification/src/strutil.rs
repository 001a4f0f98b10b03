use vstd::prelude::*;
use vstd::string::*;

verus! {

/// `p` is a leading run of `s`.
pub open spec fn is_prefix(p: Seq<char>, s: Seq<char>) -> bool {
    p.len() <= s.len() && s.subrange(0, p.len() as int) == p
}

/// `pat` occurs in `s` starting at index `i`.
pub open spec fn occurs_at(s: Seq<char>, i: int, pat: Seq<char>) -> bool {
    0 <= i && i + pat.len() <= s.len() && s.subrange(i, i + pat.len()) == pat
}

/// `pat` occurs somewhere in `s`.
pub open spec fn contains_sub(s: Seq<char>, pat: Seq<char>) -> bool {
    exists|i: int| occurs_at(s, i, pat)
}

/// The final path segment: everything after the last `/`, or all of `s`
/// when it holds no `/`. A `s` that ends in `/` has an empty final segment.
pub open spec fn after_last_slash(s: Seq<char>) -> Seq<char>
    decreases s.len(),
{
    if s.len() == 0 {
        s
    } else if s.last() == '/' {
        Seq::empty()
    } else {
        after_last_slash(s.drop_last()).push(s.last())
    }
}

/// Everything before the last `/`, or empty when `s` holds no `/`.
pub open spec fn parent_part(s: Seq<char>) -> Seq<char>
    decreases s.len(),
{
    if s.len() == 0 {
        s
    } else if s.last() == '/' {
        s.drop_last()
    } else {
        parent_part(s.drop_last())
    }
}

pub fn str_eq(a: &str, b: &str) -> (r: bool)
    ensures
        r == (a@ == b@),
{
    let n: usize = a.unicode_len();
    if n != b.unicode_len() {
        return false;
    }
    for i in 0..n
        invariant
            n == a@.len(),
            n == b@.len(),
            forall|j: int| 0 <= j < i ==> a@[j] == b@[j],
    {
        if a.get_char(i) != b.get_char(i) {
            return false;
        }
    }
    proof {
        assert(a@ =~= b@);
    }
    true
}

pub fn str_starts_with(s: &str, p: &str) -> (r: bool)
    ensures
        r == is_prefix(p@, s@),
{
    let np: usize = p.unicode_len();
    let ns: usize = s.unicode_len();
    if np > ns {
        return false;
    }
    for i in 0..np
        invariant
            np == p@.len(),
            ns == s@.len(),
            np <= ns,
            forall|j: int| 0 <= j < i ==> s@[j] == p@[j],
    {
        if s.get_char(i) != p.get_char(i) {
            proof {
                if is_prefix(p@, s@) {
                    assert(s@.subrange(0, p@.len() as int)[i as int] == p@[i as int]);
                }
            }
            return false;
        }
    }
    proof {
        assert(s@.subrange(0, p@.len() as int) =~= p@);
    }
    true
}

/// Whether `pat` occurs in `s` starting exactly at `i`.
fn matches_at(s: &str, pat: &str, i: usize) -> (r: bool)
    requires
        i + pat@.len() <= s@.len() <= usize::MAX,
    ensures
        r == occurs_at(s@, i as int, pat@),
{
    let np: usize = pat.unicode_len();
    for k in 0..np
        invariant
            np == pat@.len(),
            i + np <= s@.len() <= usize::MAX,
            forall|j: int| 0 <= j < k ==> s@[i + j] == pat@[j],
    {
        if s.get_char(i + k) != pat.get_char(k) {
            proof {
                if occurs_at(s@, i as int, pat@) {
                    assert(s@.subrange(i as int, i + pat@.len())[k as int] == pat@[k as int]);
                }
            }
            return false;
        }
    }
    proof {
        assert(s@.subrange(i as int, i + pat@.len()) =~= pat@);
    }
    true
}

pub fn str_contains(s: &str, pat: &str) -> (r: bool)
    ensures
        r == contains_sub(s@, pat@),
{
    let np: usize = pat.unicode_len();
    let ns: usize = s.unicode_len();
    if np > ns {
        proof {
            assert(forall|i: int| !occurs_at(s@, i, pat@));
        }
        return false;
    }
    if np == 0 {
        proof {
            assert(s@.subrange(0, 0) =~= pat@);
            assert(occurs_at(s@, 0, pat@));
        }
        return true;
    }
    let bound: usize = ns - np;
    let mut i: usize = 0;
    while i <= bound
        invariant
            np == pat@.len(),
            ns == s@.len(),
            np <= ns,
            bound == ns - np,
            np >= 1,
            i <= bound + 1,
            forall|j: int| 0 <= j < i ==> !occurs_at(s@, j, pat@),
        decreases bound + 1 - i,
    {
        if matches_at(s, pat, i) {
            return true;
        }
        i = i + 1;
    }
    proof {
        assert(forall|j: int| occurs_at(s@, j, pat@) ==> 0 <= j <= bound);
    }
    false
}

proof fn lemma_after_last_slash_at(s: Seq<char>, j: int)
    requires
        0 <= j <= s.len(),
        forall|k: int| j <= k < s.len() ==> s[k] != '/',
        j > 0 ==> s[j - 1] == '/',
    ensures
        after_last_slash(s) == s.subrange(j, s.len() as int),
        parent_part(s) == (if j > 0 { s.subrange(0, j - 1) } else { Seq::<char>::empty() }),
    decreases s.len(),
{
    if j == s.len() {
        if s.len() == 0 {
        } else {
            assert(s.last() == '/');
            assert(after_last_slash(s) =~= s.subrange(j, s.len() as int));
            assert(parent_part(s) =~= s.subrange(0, j - 1));
        }
    } else {
        assert(s[s.len() - 1] != '/');
        lemma_after_last_slash_at(s.drop_last(), j);
        assert(s.drop_last().subrange(j, s.len() - 1) =~= s.subrange(j, s.len() - 1));
        assert(after_last_slash(s) =~= s.subrange(j, s.len() as int));
        if j > 0 {
            assert(s.drop_last().subrange(0, j - 1) =~= s.subrange(0, j - 1));
        }
    }
}

/// Index just after the last `/` of `s`, or 0 when there is none.
fn last_seg_start(s: &str) -> (j: usize)
    ensures
        0 <= j <= s@.len(),
        forall|k: int| j <= k < s@.len() ==> s@[k] != '/',
        j > 0 ==> s@[j - 1] == '/',
{
    let n: usize = s.unicode_len();
    let mut j: usize = n;
    while j > 0
        invariant
            j <= n == s@.len(),
            forall|k: int| j <= k < s@.len() ==> s@[k] != '/',
        decreases j,
    {
        if s.get_char(j - 1) == '/' {
            return j;
        }
        j = j - 1;
    }
    j
}

/// The final path segment of `s` as a fresh string.
pub fn file_name_part(s: &str) -> (r: String)
    ensures
        r@ == after_last_slash(s@),
{
    let n: usize = s.unicode_len();
    let j: usize = last_seg_start(s);
    proof {
        lemma_after_last_slash_at(s@, j as int);
    }
    String::from_str(s.substring_char(j, n))
}

/// Everything before the last `/` of `s`, the directory part.
pub fn parent_name_part(s: &str) -> (r: String)
    ensures
        r@ == parent_part(s@),
{
    let j: usize = last_seg_start(s);
    proof {
        lemma_after_last_slash_at(s@, j as int);
    }
    if j > 0 {
        String::from_str(s.substring_char(0, j - 1))
    } else {
        String::new()
    }
}


/// `s` with any run of trailing `/` removed.
pub open spec fn strip_trailing_slashes(s: Seq<char>) -> Seq<char>
    decreases s.len(),
{
    if s.len() > 0 && s.last() == '/' {
        strip_trailing_slashes(s.drop_last())
    } else {
        s
    }
}

/// The final path segment with trailing separators ignored, as
/// `std::path::Path::file_name` reads a directory path.
pub open spec fn final_segment(s: Seq<char>) -> Seq<char> {
    after_last_slash(strip_trailing_slashes(s))
}

proof fn lemma_strip_trailing_at(s: Seq<char>, e: int)
    requires
        0 <= e <= s.len(),
        forall|k: int| e <= k < s.len() ==> s[k] == '/',
        e > 0 ==> s[e - 1] != '/',
    ensures
        strip_trailing_slashes(s) == s.subrange(0, e),
    decreases s.len(),
{
    if e == s.len() {
        assert(strip_trailing_slashes(s) =~= s.subrange(0, e));
    } else {
        assert(s.last() == '/');
        lemma_strip_trailing_at(s.drop_last(), e);
        assert(s.drop_last().subrange(0, e) =~= s.subrange(0, e));
    }
}

/// Index of the first trailing `/` of `s`, or its length when it does not
/// end in `/`.
fn trailing_slash_start(s: &str) -> (e: usize)
    ensures
        e <= s@.len(),
        forall|k: int| e <= k < s@.len() ==> s@[k] == '/',
        e > 0 ==> s@[e - 1] != '/',
{
    let n: usize = s.unicode_len();
    let mut e: usize = n;
    while e > 0
        invariant
            e <= n == s@.len(),
            forall|k: int| e <= k < s@.len() ==> s@[k] == '/',
        decreases e,
    {
        if s.get_char(e - 1) != '/' {
            return e;
        }
        e = e - 1;
    }
    e
}

/// The final path segment of `s`, ignoring trailing separators.
pub fn trimmed_name_part(s: &str) -> (r: String)
    ensures
        r@ == final_segment(s@),
{
    let e: usize = trailing_slash_start(s);
    let trimmed = s.substring_char(0, e);
    proof {
        lemma_strip_trailing_at(s@, e as int);
        assert(trimmed@ == strip_trailing_slashes(s@));
    }
    file_name_part(trimmed)
}

} // verus!
