use vstd::prelude::*;
use vstd::string::*;

use crate::error::ServiceError;
use crate::normpath::{
    canonical_rel, lemma_normalize_fixpoint, lemma_strip_fixpoint, normalize_rel, normalize_spec,
    strip_traversals, strip_updirs,
};
use crate::strutil::{final_segment, is_prefix, str_starts_with, trimmed_name_part};

verus! {

/// The fixed set of filesystem prefixes a sandboxed path may resolve under,
/// plus the operator's home directory. Prefixes are given without a
/// trailing separator. Built once at startup and treated as immutable.
pub struct AllowList {
    pub prefixes: Vec<String>,
    pub home: String,
}

/// The result of sandboxing one user-supplied path string.
#[derive(Debug, Clone)]
pub struct PathDescriptor {
    /// The root joined with the relative remainder.
    pub absolute_path: String,
    /// The final segment of the root, its directory name.
    pub root_suffix: String,
    /// The normalized path relative to the root.
    pub relative_remainder: String,
}

/// `p` is a whole-component prefix of `s`: a string prefix whose end falls
/// on a `/` boundary or on the end of `s`.
pub open spec fn path_starts_with(s: Seq<char>, p: Seq<char>) -> bool {
    is_prefix(p, s) && (s.len() == p.len() || s[p.len() as int] == '/')
}

/// The root-prefix strip: remove `p` and one following `/` from `s`;
/// anything else collapses to the empty remainder.
pub open spec fn strip_rooted(s: Seq<char>, p: Seq<char>) -> Seq<char> {
    if is_prefix(p, s) && s.len() > p.len() && s[p.len() as int] == '/' {
        s.skip(p.len() as int + 1)
    } else {
        Seq::empty()
    }
}

/// The suffix-segment strip: remove a leading `p` segment and its `/` from
/// `s`; when `s` does not start that way it is kept unchanged.
pub open spec fn strip_seg(s: Seq<char>, p: Seq<char>) -> Seq<char> {
    if is_prefix(p, s) && s.len() > p.len() && s[p.len() as int] == '/' {
        s.skip(p.len() as int + 1)
    } else {
        s
    }
}

/// `root` joined with a relative remainder by a single `/`; an empty
/// remainder leaves the root itself.
pub open spec fn join_rel(root: Seq<char>, rel: Seq<char>) -> Seq<char> {
    if rel.len() == 0 {
        root
    } else {
        root + seq!['/'] + rel
    }
}

/// The relative remainder the sandbox derives from `root` and `input`:
/// both are normalized and cleared of `../`; when the input already looks
/// rooted the normalized root prefix is stripped, otherwise a leading
/// root-suffix segment is stripped when present.
pub open spec fn remainder_of(root: Seq<char>, input: Seq<char>) -> Seq<char> {
    let root_norm = strip_updirs(normalize_spec(root));
    let input_norm = strip_updirs(normalize_spec(input));
    if is_prefix(root, input) || is_prefix(root_norm, input_norm) {
        strip_rooted(input_norm, root_norm)
    } else {
        strip_seg(input_norm, final_segment(root))
    }
}

/// The absolute candidate path the sandbox checks against the allow-list.
pub open spec fn abs_of(root: Seq<char>, input: Seq<char>) -> Seq<char> {
    join_rel(root, remainder_of(root, input))
}

pub open spec fn forbidden_msg() -> Seq<char> {
    "Access forbidden: Folder cannot be opened."@
}

impl AllowList {
    /// `abs` starts with one of the allowed prefixes or the home directory.
    pub open spec fn allows(&self, abs: Seq<char>) -> bool {
        (exists|i: int|
            0 <= i < self.prefixes@.len() && path_starts_with(abs, self.prefixes@[i]@))
            || path_starts_with(abs, self.home@)
    }

    fn allowed(&self, abs: &str) -> (r: bool)
        ensures
            r == self.allows(abs@),
    {
        let n: usize = self.prefixes.len();
        for i in 0..n
            invariant
                n == self.prefixes@.len(),
                forall|j: int| 0 <= j < i ==> !path_starts_with(abs@, self.prefixes@[j]@),
        {
            if path_prefix_check(abs, self.prefixes[i].as_str()) {
                return true;
            }
        }
        path_prefix_check(abs, self.home.as_str())
    }
}

fn path_prefix_check(s: &str, p: &str) -> (r: bool)
    ensures
        r == path_starts_with(s@, p@),
{
    if !str_starts_with(s, p) {
        return false;
    }
    let np: usize = p.unicode_len();
    let ns: usize = s.unicode_len();
    if ns == np {
        true
    } else {
        s.get_char(np) == '/'
    }
}

/// Remove prefix `p` and one following `/` from `s`, or give the empty
/// string when `s` is not of that shape.
fn strip_rooted_exec(s: &str, p: &str) -> (r: String)
    ensures
        r@ == strip_rooted(s@, p@),
{
    let np: usize = p.unicode_len();
    let ns: usize = s.unicode_len();
    if str_starts_with(s, p) && ns > np && s.get_char(np) == '/' {
        String::from_str(s.substring_char(np + 1, ns))
    } else {
        String::new()
    }
}

/// Remove a leading `p` segment and its `/` from `s`, or keep `s`.
fn strip_seg_exec(s: &str, p: &str) -> (r: String)
    ensures
        r@ == strip_seg(s@, p@),
{
    let np: usize = p.unicode_len();
    let ns: usize = s.unicode_len();
    if str_starts_with(s, p) && ns > np && s.get_char(np) == '/' {
        String::from_str(s.substring_char(np + 1, ns))
    } else {
        String::from_str(s)
    }
}

fn join_rel_exec(root: &str, rel: &str) -> (r: String)
    ensures
        r@ == join_rel(root@, rel@),
{
    if rel.unicode_len() == 0 {
        String::from_str(root)
    } else {
        let mut out = String::from_str(root);
        out.append("/");
        out.append(rel);
        proof {
            reveal_strlit("/");
            assert("/"@ =~= seq!['/']);
            assert(out@ =~= root@ + seq!['/'] + rel@);
        }
        out
    }
}

/// Normalize a user-supplied path string against a configured root.
///
/// Traversal sequences are stripped textually before any further use, and
/// the joined candidate must start with an allow-listed prefix or the home
/// directory; everything else fails with `Forbidden`. This is the single
/// choke point every other operation's paths flow through.
pub fn norm_abs_path(root_path: &str, input_path: &str, allow: &AllowList) -> (r: Result<
    PathDescriptor,
    ServiceError,
>)
    ensures
        r is Ok <==> allow.allows(abs_of(root_path@, input_path@)),
        r is Ok ==> r->Ok_0.absolute_path@ == abs_of(root_path@, input_path@),
        r is Ok ==> r->Ok_0.root_suffix@ == final_segment(root_path@),
        r is Ok ==> r->Ok_0.relative_remainder@ == remainder_of(root_path@, input_path@),
        r is Ok ==> allow.allows(r->Ok_0.absolute_path@),
        r is Err ==> r->Err_0 is Forbidden && r->Err_0->Forbidden_0@ == forbidden_msg(),
{
    let root_norm = strip_traversals(normalize_rel(root_path).as_str());
    let input_norm = strip_traversals(normalize_rel(input_path).as_str());
    let path_suffix = trimmed_name_part(root_path);
    let source_relative: String = if str_starts_with(input_path, root_path) || str_starts_with(
        input_norm.as_str(),
        root_norm.as_str(),
    ) {
        strip_rooted_exec(input_norm.as_str(), root_norm.as_str())
    } else {
        strip_seg_exec(input_norm.as_str(), path_suffix.as_str())
    };
    let path = join_rel_exec(root_path, source_relative.as_str());
    if allow.allowed(path.as_str()) {
        Ok(
            PathDescriptor {
                absolute_path: path,
                root_suffix: path_suffix,
                relative_remainder: source_relative,
            },
        )
    } else {
        Err(ServiceError::Forbidden(String::from_str("Access forbidden: Folder cannot be opened.")))
    }
}

/// Sandboxing is idempotent on its own output: a relative remainder in
/// canonical form, fed back through the sandbox, yields the same remainder
/// and the same absolute path — provided the remainder does not itself
/// spuriously look rooted (the normalized root or the raw root as a string
/// prefix) and does not start with a root-suffix segment.
pub proof fn lemma_sandbox_idempotent(root: Seq<char>, input: Seq<char>)
    requires
        canonical_rel(remainder_of(root, input)),
        !is_prefix(root, remainder_of(root, input)),
        !is_prefix(strip_updirs(normalize_spec(root)), remainder_of(root, input)),
        !is_prefix(final_segment(root).push('/'), remainder_of(root, input)),
    ensures
        remainder_of(root, remainder_of(root, input)) == remainder_of(root, input),
        abs_of(root, remainder_of(root, input)) == abs_of(root, input),
{
    let rem = remainder_of(root, input);
    lemma_normalize_fixpoint(rem);
    lemma_strip_fixpoint(rem);
    assert(strip_updirs(normalize_spec(rem)) == rem);
    let root_norm = strip_updirs(normalize_spec(root));
    let suffix = final_segment(root);
    assert(!(is_prefix(root, rem) || is_prefix(root_norm, rem)));
    assert(strip_seg(rem, suffix) == rem) by {
        if is_prefix(suffix, rem) && rem.len() > suffix.len() && rem[suffix.len() as int] == '/' {
            assert(rem.subrange(0, suffix.len() as int + 1) =~= suffix.push('/'));
            assert(is_prefix(suffix.push('/'), rem));
        }
    }
}

} // verus!
