use vstd::prelude::*;
use vstd::string::*;

use crate::strutil::{contains_sub, occurs_at};

verus! {

/// The `..` path segment.
pub open spec fn updir_seg() -> Seq<char> {
    seq!['.', '.']
}

/// The `../` traversal pattern.
pub open spec fn updir_pat() -> Seq<char> {
    seq!['.', '.', '/']
}

/// All pieces of `s` between `/` separators, empty pieces included.
/// Splitting the empty string gives one empty piece.
pub open spec fn split_slash(s: Seq<char>) -> Seq<Seq<char>>
    decreases s.len(),
{
    if s.len() == 0 {
        seq![Seq::<char>::empty()]
    } else if s[0] == '/' {
        seq![Seq::<char>::empty()] + split_slash(s.skip(1))
    } else {
        let rest = split_slash(s.skip(1));
        seq![seq![s[0]] + rest[0]] + rest.skip(1)
    }
}

/// The pieces joined back with `/` between them.
pub open spec fn join_slash(cs: Seq<Seq<char>>) -> Seq<char>
    decreases cs.len(),
{
    if cs.len() == 0 {
        Seq::empty()
    } else if cs.len() == 1 {
        cs[0]
    } else {
        cs[0] + seq!['/'] + join_slash(cs.skip(1))
    }
}

/// The pieces that count as path components: empty pieces and `.` are dropped.
pub open spec fn real_comps(cs: Seq<Seq<char>>) -> Seq<Seq<char>>
    decreases cs.len(),
{
    if cs.len() == 0 {
        Seq::empty()
    } else {
        let rest = real_comps(cs.drop_last());
        let c = cs.last();
        if c.len() == 0 || c == seq!['.'] {
            rest
        } else {
            rest.push(c)
        }
    }
}

/// Left-to-right resolution of `..` components against a stack: a `..`
/// removes the preceding normal component, and is kept when nothing
/// precedes it or only other `..` components do.
pub open spec fn updir_stack(cs: Seq<Seq<char>>) -> Seq<Seq<char>>
    decreases cs.len(),
{
    if cs.len() == 0 {
        Seq::empty()
    } else {
        let prev = updir_stack(cs.drop_last());
        let c = cs.last();
        if c == updir_seg() {
            if prev.len() > 0 && prev.last() != updir_seg() {
                prev.drop_last()
            } else {
                prev.push(c)
            }
        } else {
            prev.push(c)
        }
    }
}

/// Logical normalization of a `/`-separated path string: empty and `.`
/// components are dropped, `..` resolved against the preceding component,
/// leading `..` components kept, the rest joined with single `/`.
pub open spec fn normalize_spec(s: Seq<char>) -> Seq<char> {
    join_slash(updir_stack(real_comps(split_slash(s))))
}

/// Every `../` occurrence removed, scanning left to right.
pub open spec fn strip_updirs(s: Seq<char>) -> Seq<char>
    decreases s.len(),
{
    if s.len() >= 3 && s.subrange(0, 3) == updir_pat() {
        strip_updirs(s.skip(3))
    } else if s.len() == 0 {
        s
    } else {
        seq![s[0]] + strip_updirs(s.skip(1))
    }
}

/// A piece that stands as a plain path segment: non-empty, not `.`, not `..`.
pub open spec fn normal_seg(p: Seq<char>) -> bool {
    p.len() > 0 && p != seq!['.'] && p != updir_seg()
}

/// A path made only of plain segments separated by single `/`: no leading,
/// trailing or doubled `/`, no `.` or `..` segment. The empty path counts.
pub open spec fn normal_path(s: Seq<char>) -> bool {
    s.len() == 0 || forall|i: int|
        0 <= i < split_slash(s).len() ==> normal_seg(#[trigger] split_slash(s)[i])
}

/// Already in the form the sandbox produces as a relative remainder:
/// a normal path in which no `../` occurs textually.
pub open spec fn canonical_rel(s: Seq<char>) -> bool {
    normal_path(s) && !contains_sub(s, updir_pat())
}

/// Relies on `relative_path::RelativePath::normalize` (relative-path
/// crate): it splits on `/`, drops empty and `.` components, resolves
/// each `..` against the component stack while keeping leading `..`s,
/// and joins the stack with single `/` separators.
#[verifier::external_body]
pub(crate) fn normalize_rel(s: &str) -> (r: String)
    ensures
        r@ == normalize_spec(s@),
{
    relative_path::RelativePath::new(s).normalize().to_string()
}

/// Removes every `../` occurrence from `s`, scanning left to right.
pub fn strip_traversals(s: &str) -> (r: String)
    ensures
        r@ == strip_updirs(s@),
{
    let n: usize = s.unicode_len();
    let mut out: String = String::new();
    let mut i: usize = 0;
    proof {
        assert(s@.skip(0) =~= s@);
    }
    while i < n
        invariant
            i <= n == s@.len(),
            strip_updirs(s@) == out@ + strip_updirs(s@.skip(i as int)),
        decreases n - i,
    {
        if n - i >= 3 && s.get_char(i) == '.' && s.get_char(i + 1) == '.' && s.get_char(i + 2)
            == '/' {
            proof {
                assert(s@.skip(i as int).subrange(0, 3) =~= updir_pat());
                assert(s@.skip(i as int).skip(3) =~= s@.skip(i + 3));
            }
            i = i + 3;
        } else {
            proof {
                let t = s@.skip(i as int);
                assert(t[0] == s@[i as int]);
                if t.len() >= 3 && t.subrange(0, 3) == updir_pat() {
                    assert(t.subrange(0, 3)[0] == '.' && t.subrange(0, 3)[1] == '.' && t.subrange(
                        0,
                        3,
                    )[2] == '/');
                    assert(s@[i as int] == '.' && s@[i + 1] == '.' && s@[i + 2] == '/');
                }
                assert(t.skip(1) =~= s@.skip(i + 1));
            }
            let piece = s.substring_char(i, i + 1);
            proof {
                assert(piece@ =~= seq![s@[i as int]]);
            }
            out.append(piece);
            i = i + 1;
        }
    }
    proof {
        assert(s@.skip(n as int) =~= Seq::<char>::empty());
        assert(out@ =~= out@ + strip_updirs(s@.skip(n as int)));
    }
    out
}


proof fn lemma_split_len(s: Seq<char>)
    ensures
        split_slash(s).len() >= 1,
    decreases s.len(),
{
    if s.len() == 0 {
    } else if s[0] == '/' {
    } else {
        lemma_split_len(s.skip(1));
    }
}

/// Joining the split pieces of any string restores it.
proof fn lemma_join_split(s: Seq<char>)
    ensures
        join_slash(split_slash(s)) == s,
    decreases s.len(),
{
    if s.len() == 0 {
        assert(join_slash(split_slash(s)) =~= s);
    } else if s[0] == '/' {
        lemma_join_split(s.skip(1));
        lemma_split_len(s.skip(1));
        let cs = split_slash(s);
        assert(cs.skip(1) =~= split_slash(s.skip(1)));
        assert(join_slash(cs) =~= s);
    } else {
        lemma_join_split(s.skip(1));
        lemma_split_len(s.skip(1));
        let rest = split_slash(s.skip(1));
        let cs = split_slash(s);
        if rest.len() == 1 {
            assert(cs.len() == 1);
            assert(join_slash(rest) == rest[0]);
            assert(join_slash(cs) == seq![s[0]] + rest[0]);
            assert(join_slash(cs) =~= s);
        } else {
            assert(cs.skip(1) =~= rest.skip(1));
            assert(join_slash(rest) == rest[0] + seq!['/'] + join_slash(rest.skip(1)));
            assert(join_slash(cs) == (seq![s[0]] + rest[0]) + seq!['/'] + join_slash(rest.skip(1)));
            assert(join_slash(cs) =~= seq![s[0]] + join_slash(rest));
            assert(join_slash(cs) =~= s);
        }
    }
}

proof fn lemma_real_comps_id(cs: Seq<Seq<char>>)
    requires
        forall|i: int| 0 <= i < cs.len() ==> normal_seg(#[trigger] cs[i]),
    ensures
        real_comps(cs) == cs,
    decreases cs.len(),
{
    if cs.len() == 0 {
        assert(real_comps(cs) =~= cs);
    } else {
        lemma_real_comps_id(cs.drop_last());
        assert(normal_seg(cs.last()));
        assert(real_comps(cs) =~= cs);
    }
}

proof fn lemma_updir_stack_id(cs: Seq<Seq<char>>)
    requires
        forall|i: int| 0 <= i < cs.len() ==> #[trigger] cs[i] != updir_seg(),
    ensures
        updir_stack(cs) == cs,
    decreases cs.len(),
{
    if cs.len() == 0 {
        assert(updir_stack(cs) =~= cs);
    } else {
        lemma_updir_stack_id(cs.drop_last());
        assert(updir_stack(cs) =~= cs);
    }
}

/// Normalization leaves a normal path unchanged.
pub proof fn lemma_normalize_fixpoint(s: Seq<char>)
    requires
        normal_path(s),
    ensures
        normalize_spec(s) == s,
{
    if s.len() == 0 {
        let cs = split_slash(s);
        assert(cs =~= seq![Seq::<char>::empty()]);
        assert(cs.drop_last() =~= Seq::<Seq<char>>::empty());
        assert(real_comps(Seq::<Seq<char>>::empty()) =~= Seq::<Seq<char>>::empty());
        assert(cs.last().len() == 0);
        assert(real_comps(cs) =~= Seq::<Seq<char>>::empty());
        assert(normalize_spec(s) =~= s);
    } else {
        let cs = split_slash(s);
        lemma_real_comps_id(cs);
        assert(forall|i: int| 0 <= i < cs.len() ==> #[trigger] cs[i] != updir_seg()) by {
            assert(forall|i: int| 0 <= i < cs.len() ==> normal_seg(#[trigger] cs[i]));
        }
        lemma_updir_stack_id(cs);
        lemma_join_split(s);
    }
}

/// Stripping `../` leaves a string without that pattern unchanged.
pub proof fn lemma_strip_fixpoint(s: Seq<char>)
    requires
        !contains_sub(s, updir_pat()),
    ensures
        strip_updirs(s) == s,
    decreases s.len(),
{
    if s.len() == 0 {
    } else {
        assert(!(s.len() >= 3 && s.subrange(0, 3) == updir_pat())) by {
            if s.len() >= 3 && s.subrange(0, 3) == updir_pat() {
                assert(occurs_at(s, 0, updir_pat()));
            }
        }
        assert(!contains_sub(s.skip(1), updir_pat())) by {
            if contains_sub(s.skip(1), updir_pat()) {
                let i = choose|i: int| occurs_at(s.skip(1), i, updir_pat());
                assert(s.subrange(i + 1, i + 4) =~= s.skip(1).subrange(i, i + 3));
                assert(occurs_at(s, i + 1, updir_pat()));
            }
        }
        lemma_strip_fixpoint(s.skip(1));
        assert(strip_updirs(s) =~= s);
    }
}

} // verus!
