use vstd::prelude::*;
use vstd::string::*;

verus! {

broadcast use vstd::seq_lib::group_to_multiset_ensures;

/// Outcome of a three-way natural comparison.
pub enum NatOrd {
    Lt,
    Eq,
    Gt,
}

pub open spec fn is_ascii_digit(c: char) -> bool {
    48 <= c as u32 && c as u32 <= 57
}

/// Length of the leading run of ascii digits of `s`.
pub open spec fn digit_run(s: Seq<char>) -> int
    decreases s.len(),
{
    if s.len() == 0 || !is_ascii_digit(s[0]) {
        0
    } else {
        1 + digit_run(s.skip(1))
    }
}

proof fn lemma_digit_run_bounds(s: Seq<char>)
    ensures
        0 <= digit_run(s) <= s.len(),
    decreases s.len(),
{
    if s.len() == 0 || !is_ascii_digit(s[0]) {
    } else {
        lemma_digit_run_bounds(s.skip(1));
    }
}

/// Code-point comparison of two char runs of equal length.
pub open spec fn lex_cmp_run(a: Seq<char>, b: Seq<char>) -> NatOrd
    decreases a.len(),
{
    if a.len() == 0 || b.len() == 0 {
        NatOrd::Eq
    } else if (a[0] as u32) < (b[0] as u32) {
        NatOrd::Lt
    } else if (b[0] as u32) < (a[0] as u32) {
        NatOrd::Gt
    } else {
        lex_cmp_run(a.skip(1), b.skip(1))
    }
}

/// The natural ordering: maximal runs of ascii digits compare as numbers
/// (a longer digit run always counts as the larger number, so with leading
/// zeros `07` comes after `7`), all other characters by code point.
pub open spec fn natural_cmp_spec(a: Seq<char>, b: Seq<char>) -> NatOrd
    decreases a.len() + b.len(),
    via natural_cmp_spec_dec
{
    if a.len() == 0 && b.len() == 0 {
        NatOrd::Eq
    } else if a.len() == 0 {
        NatOrd::Lt
    } else if b.len() == 0 {
        NatOrd::Gt
    } else if is_ascii_digit(a[0]) && is_ascii_digit(b[0]) {
        let ra = digit_run(a);
        let rb = digit_run(b);
        if ra < rb {
            NatOrd::Lt
        } else if rb < ra {
            NatOrd::Gt
        } else if lex_cmp_run(a.subrange(0, ra), b.subrange(0, rb)) == NatOrd::Lt {
            NatOrd::Lt
        } else if lex_cmp_run(a.subrange(0, ra), b.subrange(0, rb)) == NatOrd::Gt {
            NatOrd::Gt
        } else {
            natural_cmp_spec(a.skip(ra), b.skip(rb))
        }
    } else if (a[0] as u32) < (b[0] as u32) {
        NatOrd::Lt
    } else if (b[0] as u32) < (a[0] as u32) {
        NatOrd::Gt
    } else {
        natural_cmp_spec(a.skip(1), b.skip(1))
    }
}

#[via_fn]
proof fn natural_cmp_spec_dec(a: Seq<char>, b: Seq<char>) {
    lemma_digit_run_bounds(a);
    lemma_digit_run_bounds(b);
    if a.len() > 0 && b.len() > 0 && is_ascii_digit(a[0]) && is_ascii_digit(b[0]) {
        lemma_digit_run_bounds(a.skip(1));
        lemma_digit_run_bounds(b.skip(1));
        assert(digit_run(a) >= 1);
        assert(digit_run(b) >= 1);
    }
}

/// `a` comes no later than `b` in the natural order.
pub open spec fn nat_le_spec(a: Seq<char>, b: Seq<char>) -> bool {
    natural_cmp_spec(a, b) != NatOrd::Gt
}

/// No window of 20 consecutive ascii digits: the bound under which the
/// comparator's number accumulation stays exact.
pub open spec fn twenty_digits_at(s: Seq<char>, i: int) -> bool {
    forall|j: int| i <= j < i + 20 ==> is_ascii_digit(#[trigger] s[j])
}

pub open spec fn no_long_digit_run(s: Seq<char>) -> bool {
    forall|i: int| 0 <= i && i + 20 <= s.len() ==> !#[trigger] twenty_digits_at(s, i)
}

/// Relies on `lexical_sort::natural_cmp` (lexical-sort crate): character
/// code-point comparison, with maximal runs of ascii digits compared as
/// numbers; when one run is a strict pairwise extension of the other the
/// longer run is the greater. Digit runs of 20 or more are excluded: there
/// the crate's u64 accumulation could overflow.
#[verifier::external_body]
fn natural_le(a: &str, b: &str) -> (r: bool)
    requires
        no_long_digit_run(a@),
        no_long_digit_run(b@),
    ensures
        r == nat_le_spec(a@, b@),
{
    match lexical_sort::natural_cmp(a, b) {
        core::cmp::Ordering::Greater => false,
        _ => true,
    }
}

proof fn lemma_lex_flip(a: Seq<char>, b: Seq<char>)
    ensures
        (lex_cmp_run(a, b) == NatOrd::Lt) <==> (lex_cmp_run(b, a) == NatOrd::Gt),
        (lex_cmp_run(a, b) == NatOrd::Gt) <==> (lex_cmp_run(b, a) == NatOrd::Lt),
    decreases a.len(),
{
    if a.len() == 0 || b.len() == 0 {
    } else if (a[0] as u32) < (b[0] as u32) || (b[0] as u32) < (a[0] as u32) {
    } else {
        lemma_lex_flip(a.skip(1), b.skip(1));
    }
}

/// The natural order is antisymmetric between `Lt` and `Gt`; with the
/// three-valued outcome this makes it total.
pub proof fn lemma_natural_flip(a: Seq<char>, b: Seq<char>)
    ensures
        (natural_cmp_spec(a, b) == NatOrd::Lt) <==> (natural_cmp_spec(b, a) == NatOrd::Gt),
        (natural_cmp_spec(a, b) == NatOrd::Gt) <==> (natural_cmp_spec(b, a) == NatOrd::Lt),
    decreases a.len() + b.len(),
{
    if a.len() == 0 && b.len() == 0 {
    } else if a.len() == 0 || b.len() == 0 {
    } else if is_ascii_digit(a[0]) && is_ascii_digit(b[0]) {
        lemma_digit_run_bounds(a);
        lemma_digit_run_bounds(b);
        lemma_digit_run_bounds(a.skip(1));
        lemma_digit_run_bounds(b.skip(1));
        let ra = digit_run(a);
        let rb = digit_run(b);
        assert(ra >= 1 && rb >= 1);
        if ra == rb {
            lemma_lex_flip(a.subrange(0, ra), b.subrange(0, rb));
            if lex_cmp_run(a.subrange(0, ra), b.subrange(0, rb)) == NatOrd::Lt {
            } else if lex_cmp_run(a.subrange(0, ra), b.subrange(0, rb)) == NatOrd::Gt {
            } else {
                lemma_natural_flip(a.skip(ra), b.skip(rb));
            }
        }
    } else if (a[0] as u32) < (b[0] as u32) || (b[0] as u32) < (a[0] as u32) {
    } else {
        lemma_natural_flip(a.skip(1), b.skip(1));
    }
}

/// Adjacent pairs are in natural order.
pub open spec fn sorted_natural(vs: Seq<String>) -> bool {
    forall|i: int| 0 <= i && i + 1 < vs.len() ==> nat_le_spec(vs[i]@, #[trigger] vs[i + 1]@)
}

/// Every element is free of 20-digit windows.
pub open spec fn runs_ok(vs: Seq<String>) -> bool {
    forall|i: int| 0 <= i < vs.len() ==> no_long_digit_run(#[trigger] vs[i]@)
}

/// Sorts the strings into natural order (digit-aware, locale-naive),
/// keeping exactly the same elements.
pub fn natural_sort(v: &mut Vec<String>)
    requires
        runs_ok(old(v)@),
    ensures
        sorted_natural(final(v)@),
        final(v)@.to_multiset() == old(v)@.to_multiset(),
        final(v)@.len() == old(v)@.len(),
{
    let n: usize = v.len();
    let mut i: usize = 1;
    while i < n
        invariant
            1 <= i,
            i <= n || n == 0,
            n == v@.len(),
            runs_ok(v@),
            forall|a: int| 0 <= a && a + 1 < i ==> nat_le_spec(v@[a]@, #[trigger] v@[a + 1]@),
            v@.to_multiset() == old(v)@.to_multiset(),
        decreases n - i,
    {
        let ghost w0 = v@;
        let mut j: usize = i;
        loop
            invariant
                0 <= j <= i < n == v@.len(),
                v@ == w0,
                runs_ok(v@),
                forall|k: int| j <= k < i ==> !nat_le_spec(#[trigger] v@[k]@, v@[i as int]@),
            ensures
                0 <= j <= i,
                v@ == w0,
                j > 0 ==> nat_le_spec(v@[j - 1]@, v@[i as int]@),
                forall|k: int| j <= k < i ==> !nat_le_spec(#[trigger] v@[k]@, v@[i as int]@),
            decreases j,
        {
            if j == 0 {
                break;
            }
            if natural_le(v[j - 1].as_str(), v[i].as_str()) {
                break;
            }
            j = j - 1;
        }
        let x = v.remove(i);
        v.insert(j, x);
        proof {
            let w1 = v@;
            assert(w1 == w0.remove(i as int).insert(j as int, w0[i as int]));
            let xx = w0[i as int];
            // pointwise description of the rotation
            assert forall|m: int| 0 <= m < w1.len() implies w1[m] == (if m < j {
                w0[m]
            } else if m == j {
                xx
            } else if m <= i {
                w0[m - 1]
            } else {
                w0[m]
            }) by {
                assert(w0.remove(i as int) =~= w0.subrange(0, i as int) + w0.subrange(
                    i + 1,
                    w0.len() as int,
                ));
            }
            // the moved element precedes what it displaced
            if (j as int) < i {
                assert(!nat_le_spec(w0[j as int]@, xx@));
                lemma_natural_flip(w0[j as int]@, xx@);
                assert(nat_le_spec(xx@, w0[j as int]@));
            }
            assert forall|a: int| 0 <= a && a + 1 < i + 1 implies nat_le_spec(
                w1[a]@,
                #[trigger] w1[a + 1]@,
            ) by {
                if a + 1 < j {
                    assert(w1[a] == w0[a]);
                    assert(w1[a + 1] == w0[a + 1]);
                    assert(nat_le_spec(w0[a]@, w0[a + 1]@));
                } else if a + 1 == j {
                    assert(w1[a] == w0[a]);
                    assert(w1[a + 1] == xx);
                    assert(nat_le_spec(w0[j - 1]@, xx@));
                } else if a == j {
                    assert(w1[a] == xx);
                    assert(w1[a + 1] == w0[a]);
                    assert(nat_le_spec(xx@, w0[j as int]@));
                } else {
                    assert(w1[a] == w0[a - 1]);
                    assert(w1[a + 1] == w0[a]);
                    let b = a - 1;
                    assert(0 <= b && b + 1 < i);
                    assert(nat_le_spec(w0[b]@, w0[b + 1]@));
                }
            }
            // same elements, so the digit-run bound is kept
            assert(runs_ok(w1));
            // multiset preserved: remove then reinsert the same element
            assert(w0.to_multiset().count(xx) > 0) by {
                assert(w0.contains(xx));
            }
            assert(w1.to_multiset() =~= w0.to_multiset());
        }
        i = i + 1;
    }
}

} // verus!
