use vstd::prelude::*;
use vstd::string::*;

use crate::mutate::FsNode;
use crate::strutil::{after_last_slash, contains_sub, file_name_part, parent_part, str_contains, str_eq};

verus! {

/// One listed media file: its display name and its probed duration in
/// whole milliseconds (the probe's textual duration, parsed by the caller).
#[derive(Debug, Clone)]
pub struct VideoFile {
    pub name: String,
    pub duration_ms: u64,
}

/// A browse request and its response: the echoed relative source, the
/// root-suffix parent name, and the listed folders and files.
#[derive(Debug, Clone)]
pub struct PathObject {
    pub source: String,
    pub parent: Option<String>,
    pub parent_folders: Option<Vec<String>>,
    pub folders: Option<Vec<String>>,
    pub files: Option<Vec<VideoFile>>,
    pub folders_only: bool,
}

impl PathObject {
    /// A fresh listing for `source` under `parent`, with empty contents.
    pub fn new(source: String, parent: Option<String>) -> (r: Self)
        ensures
            r.source == source,
            r.parent == parent,
            r.folders_only == false,
            r.parent_folders is Some && r.parent_folders->0@.len() == 0,
            r.folders is Some && r.folders->0@.len() == 0,
            r.files is Some && r.files->0@.len() == 0,
    {
        Self {
            source,
            parent,
            parent_folders: Some(Vec::new()),
            folders: Some(Vec::new()),
            files: Some(Vec::new()),
            folders_only: false,
        }
    }
}

/// One directory child handed in by the caller: its full path and what
/// kind of node it is.
#[derive(Debug, Clone)]
pub struct FsEntry {
    pub path: String,
    pub kind: FsNode,
}

/// The extension of the final path segment: the text after its last `.`,
/// absent when the segment has no `.` or starts with its only `.`.
pub open spec fn ext_opt(base: Seq<char>) -> Option<Seq<char>>
    decreases base.len(),
{
    if base.len() == 0 {
        None
    } else if base.last() == '.' {
        if base.len() >= 2 {
            Some(Seq::empty())
        } else {
            None
        }
    } else {
        match ext_opt(base.drop_last()) {
            None => None,
            Some(e) => Some(e.push(base.last())),
        }
    }
}

proof fn lemma_ext_at(base: Seq<char>, k: int)
    requires
        0 <= k < base.len(),
        base[k] == '.',
        forall|m: int| k < m < base.len() ==> base[m] != '.',
    ensures
        k >= 1 ==> ext_opt(base) == Some(base.skip(k + 1)),
        k == 0 ==> ext_opt(base) is None,
    decreases base.len(),
{
    if k == base.len() - 1 {
        if k >= 1 {
            assert(base.skip(k + 1) =~= Seq::<char>::empty());
        }
    } else {
        assert(base.last() != '.');
        lemma_ext_at(base.drop_last(), k);
        if k >= 1 {
            assert(base.drop_last().skip(k + 1).push(base.last()) =~= base.skip(k + 1));
        }
    }
}

proof fn lemma_ext_none(base: Seq<char>)
    requires
        forall|m: int| 0 <= m < base.len() ==> base[m] != '.',
    ensures
        ext_opt(base) is None,
    decreases base.len(),
{
    if base.len() == 0 {
    } else {
        lemma_ext_none(base.drop_last());
    }
}

/// Index of the last `.` of `s`, or `s.len()` when there is none.
fn last_dot(s: &str) -> (k: usize)
    ensures
        k <= s@.len(),
        forall|m: int| k < m < s@.len() ==> s@[m] != '.',
        k < s@.len() ==> s@[k as int] == '.',
        k == s@.len() ==> forall|m: int| 0 <= m < s@.len() ==> s@[m] != '.',
{
    let n: usize = s.unicode_len();
    let mut j: usize = n;
    while j > 0
        invariant
            j <= n == s@.len(),
            forall|m: int| j <= m < s@.len() ==> s@[m] != '.',
        decreases j,
    {
        if s.get_char(j - 1) == '.' {
            return j - 1;
        }
        j = j - 1;
    }
    n
}

/// The extension of the final segment of `path`, as `std::path::Path`
/// reads it: text after the last `.`, none for a leading-dot-only name.
pub fn file_extension(path: &str) -> (r: Option<String>)
    ensures
        r is Some <==> ext_opt(after_last_slash(path@)) is Some,
        r is Some ==> r->0@ == ext_opt(after_last_slash(path@))->0,
{
    let base = file_name_part(path);
    let n: usize = base.unicode_len();
    let k: usize = last_dot(base.as_str());
    if k == n {
        proof {
            lemma_ext_none(base@);
        }
        None
    } else if k == 0 {
        proof {
            lemma_ext_at(base@, 0);
        }
        None
    } else {
        proof {
            lemma_ext_at(base@, k as int);
        }
        Some(String::from_str(base.as_str().substring_char(k + 1, n)))
    }
}

/// Name for what `str::to_lowercase` returns of a string.
pub uninterp spec fn lower_of(s: Seq<char>) -> Seq<char>;

/// Relies on `str::to_lowercase`: the result is a function of the
/// characters alone.
#[verifier::external_body]
fn lowercase(s: &str) -> (r: String)
    ensures
        r@ == lower_of(s@),
{
    s.to_lowercase()
}

fn contains_string(v: &Vec<String>, s: &str) -> (r: bool)
    ensures
        r == v.deep_view().contains(s@),
{
    let n: usize = v.len();
    for i in 0..n
        invariant
            n == v@.len(),
            forall|j: int| 0 <= j < i ==> v.deep_view()[j] != s@,
    {
        if str_eq(v[i].as_str(), s) {
            proof {
                assert(v.deep_view()[i as int] == s@);
            }
            return true;
        }
        proof {
            assert(v.deep_view()[i as int] == v@[i as int]@);
        }
    }
    false
}

/// The file may be listed: its lowercased extension is one of `exts`.
pub open spec fn ext_allowed(path: Seq<char>, exts: Seq<Seq<char>>) -> bool {
    match ext_opt(after_last_slash(path)) {
        None => false,
        Some(e) => exts.contains(lower_of(e)),
    }
}

/// Whether the lowercased extension of `path`'s final segment is in `exts`.
pub fn has_allowed_extension(path: &str, exts: &Vec<String>) -> (r: bool)
    ensures
        r == ext_allowed(path@, exts.deep_view()),
{
    match file_extension(path) {
        None => false,
        Some(e) => {
            let low = lowercase(e.as_str());
            contains_string(exts, low.as_str())
        },
    }
}

/// All pieces of `s` between `,` separators; splitting the empty string
/// gives one empty piece.
pub open spec fn split_comma(s: Seq<char>) -> Seq<Seq<char>>
    decreases s.len(),
{
    if s.len() == 0 {
        seq![Seq::<char>::empty()]
    } else if s[0] == ',' {
        seq![Seq::<char>::empty()] + split_comma(s.skip(1))
    } else {
        let rest = split_comma(s.skip(1));
        seq![seq![s[0]] + rest[0]] + rest.skip(1)
    }
}

proof fn lemma_split_comma_len(s: Seq<char>)
    ensures
        split_comma(s).len() >= 1,
    decreases s.len(),
{
    if s.len() == 0 {
    } else if s[0] == ',' {
    } else {
        lemma_split_comma_len(s.skip(1));
    }
}

/// Splits on `,`, as the channel's extra-extension list is written.
pub fn split_commas(s: &str) -> (r: Vec<String>)
    ensures
        r.deep_view() == split_comma(s@),
{
    let n: usize = s.unicode_len();
    let mut out: Vec<String> = Vec::new();
    let mut cur: String = String::new();
    let mut i: usize = 0;
    proof {
        assert(s@.skip(0) =~= s@);
        lemma_split_comma_len(s@);
        assert(split_comma(s@) =~= out.deep_view() + (seq![cur@ + split_comma(s@.skip(0))[0]]
            + split_comma(s@.skip(0)).skip(1)));
    }
    while i < n
        invariant
            i <= n == s@.len(),
            split_comma(s@) == out.deep_view() + (seq![cur@ + split_comma(s@.skip(i as int))[0]]
                + split_comma(s@.skip(i as int)).skip(1)),
        decreases n - i,
    {
        proof {
            lemma_split_comma_len(s@.skip(i as int));
            lemma_split_comma_len(s@.skip(i + 1));
            assert(s@.skip(i as int)[0] == s@[i as int]);
            assert(s@.skip(i as int).skip(1) =~= s@.skip(i + 1));
        }
        if s.get_char(i) == ',' {
            let ghost old_out = out.deep_view();
            let ghost old_cur = cur@;
            out.push(cur);
            cur = String::new();
            proof {
                assert(out.deep_view() =~= old_out.push(old_cur));
                let x = split_comma(s@.skip(i + 1));
                assert(split_comma(s@.skip(i as int)) =~= seq![Seq::<char>::empty()] + x);
                assert(split_comma(s@.skip(i as int))[0] =~= Seq::<char>::empty());
                assert(split_comma(s@.skip(i as int)).skip(1) =~= x);
                assert(old_cur + Seq::<char>::empty() =~= old_cur);
                assert(x =~= seq![x[0]] + x.skip(1));
                assert(split_comma(s@) =~= out.deep_view() + (seq![cur@ + x[0]] + x.skip(1)));
            }
        } else {
            let ghost old_cur = cur@;
            let piece = s.substring_char(i, i + 1);
            proof {
                assert(piece@ =~= seq![s@[i as int]]);
            }
            cur.append(piece);
            proof {
                let x = split_comma(s@.skip(i + 1));
                assert(split_comma(s@.skip(i as int)) =~= seq![seq![s@[i as int]] + x[0]]
                    + x.skip(1));
                assert(split_comma(s@.skip(i as int))[0] =~= seq![s@[i as int]] + x[0]);
                assert(cur@ + x[0] =~= old_cur + (seq![s@[i as int]] + x[0]));
                assert(split_comma(s@) =~= out.deep_view() + (seq![cur@ + x[0]] + x.skip(1)));
            }
        }
        i = i + 1;
    }
    proof {
        assert(s@.skip(n as int) =~= Seq::<char>::empty());
        assert(split_comma(s@.skip(n as int)) =~= seq![Seq::<char>::empty()]);
    }
    out.push(cur);
    proof {
        assert(out.deep_view() =~= split_comma(s@));
    }
    out
}

/// The channel's configured extensions with the extra comma-separated
/// list appended, as browsing merges them.
pub fn merge_extensions(extensions: Vec<String>, extra: &str) -> (r: Vec<String>)
    ensures
        r.deep_view() == extensions.deep_view() + split_comma(extra@),
{
    let ghost base = extensions.deep_view();
    let mut r = extensions;
    let mut more = split_commas(extra);
    let ghost added = more.deep_view();
    r.append(&mut more);
    proof {
        assert(r.deep_view() =~= base + added);
    }
    r
}

/// The hidden-file marker: a `/` followed by a dot.
pub open spec fn hidden_marker() -> Seq<char> {
    seq!['/', '.']
}

/// Not skipped as hidden: the path holds no `/.` anywhere.
pub open spec fn visible(path: Seq<char>) -> bool {
    !contains_sub(path, hidden_marker())
}

/// The names of the visible directories among `es`, in input order.
pub open spec fn folders_of(es: Seq<FsEntry>) -> Seq<Seq<char>>
    decreases es.len(),
{
    if es.len() == 0 {
        Seq::empty()
    } else {
        let rest = folders_of(es.drop_last());
        let e = es.last();
        if e.kind is Directory && visible(e.path@) {
            rest.push(after_last_slash(e.path@))
        } else {
            rest
        }
    }
}

/// The full paths of the visible files among `es` whose extension is
/// allowed, in input order; empty when only folders are wanted.
pub open spec fn files_of(es: Seq<FsEntry>, exts: Seq<Seq<char>>, folders_only: bool) -> Seq<
    Seq<char>,
>
    decreases es.len(),
{
    if es.len() == 0 {
        Seq::empty()
    } else {
        let rest = files_of(es.drop_last(), exts, folders_only);
        let e = es.last();
        if e.kind is File && visible(e.path@) && !folders_only && ext_allowed(e.path@, exts) {
            rest.push(e.path@)
        } else {
            rest
        }
    }
}

fn is_hidden(path: &str) -> (r: bool)
    ensures
        r == !visible(path@),
{
    proof {
        reveal_strlit("/.");
        assert("/."@ =~= hidden_marker());
    }
    str_contains(path, "/.")
}

/// Splits directory children into folder names and listable file paths:
/// hidden entries are skipped, files are kept only when wanted and when
/// their lowercased extension is allowed.
pub fn partition_entries(entries: &Vec<FsEntry>, exts: &Vec<String>, folders_only: bool) -> (r: (
    Vec<String>,
    Vec<String>,
))
    ensures
        r.0.deep_view() == folders_of(entries@),
        r.1.deep_view() == files_of(entries@, exts.deep_view(), folders_only),
{
    let n: usize = entries.len();
    let mut folders: Vec<String> = Vec::new();
    let mut files: Vec<String> = Vec::new();
    proof {
        assert(entries@.take(0) =~= Seq::<FsEntry>::empty());
        assert(folders.deep_view() =~= folders_of(entries@.take(0)));
        assert(files.deep_view() =~= files_of(entries@.take(0), exts.deep_view(), folders_only));
    }
    for i in 0..n
        invariant
            n == entries@.len(),
            folders.deep_view() == folders_of(entries@.take(i as int)),
            files.deep_view() == files_of(entries@.take(i as int), exts.deep_view(), folders_only),
    {
        let e = &entries[i];
        proof {
            assert(entries@.take(i + 1).drop_last() =~= entries@.take(i as int));
            assert(entries@.take(i + 1).last() == entries@[i as int]);
        }
        let ghost old_folders = folders.deep_view();
        let ghost old_files = files.deep_view();
        if !is_hidden(e.path.as_str()) {
            if matches!(e.kind, FsNode::Directory) {
                folders.push(file_name_part(e.path.as_str()));
                proof {
                    assert(folders.deep_view() =~= old_folders.push(after_last_slash(
                        entries@[i as int].path@,
                    )));
                }
            } else if matches!(e.kind, FsNode::File) && !folders_only {
                if has_allowed_extension(e.path.as_str(), exts) {
                    files.push(e.path.clone());
                    proof {
                        assert(files.deep_view() =~= old_files.push(entries@[i as int].path@));
                    }
                }
            }
        }
        proof {
            assert(folders.deep_view() =~= folders_of(entries@.take(i + 1)));
            assert(files.deep_view() =~= files_of(entries@.take(i + 1), exts.deep_view(),
                folders_only));
        }
    }
    proof {
        assert(entries@.take(n as int) =~= entries@);
    }
    (folders, files)
}

/// Pairs of listed name and duration: files whose probe failed are absent.
pub open spec fn media_view(files: Seq<Seq<char>>, ds: Seq<Option<u64>>) -> Seq<(Seq<char>, u64)>
    decreases files.len(),
{
    if files.len() == 0 || ds.len() == 0 {
        Seq::empty()
    } else {
        let rest = media_view(files.drop_last(), ds.drop_last());
        match ds.last() {
            Some(d) => rest.push((after_last_slash(files.last()), d)),
            None => rest,
        }
    }
}

/// Joins sorted file paths with their probed durations: a file whose
/// probe errored (`None`) is dropped from the listing, the rest carry
/// their display name and duration.
pub fn media_entries(files: &Vec<String>, durations: &Vec<Option<u64>>) -> (r: Vec<VideoFile>)
    requires
        files@.len() == durations@.len(),
    ensures
        r@.map_values(|v: VideoFile| (v.name@, v.duration_ms)) == media_view(
            files.deep_view(),
            durations@,
        ),
{
    let n: usize = files.len();
    let mut r: Vec<VideoFile> = Vec::new();
    proof {
        assert(files.deep_view().take(0) =~= Seq::<Seq<char>>::empty());
        assert(r@.map_values(|v: VideoFile| (v.name@, v.duration_ms)) =~= media_view(
            files.deep_view().take(0),
            durations@.take(0),
        ));
    }
    for i in 0..n
        invariant
            n == files@.len() == durations@.len(),
            r@.map_values(|v: VideoFile| (v.name@, v.duration_ms)) == media_view(
                files.deep_view().take(i as int),
                durations@.take(i as int),
            ),
    {
        proof {
            assert(files.deep_view().take(i + 1).drop_last() =~= files.deep_view().take(i as int));
            assert(durations@.take(i + 1).drop_last() =~= durations@.take(i as int));
            assert(files.deep_view().take(i + 1).last() == files.deep_view()[i as int]);
            assert(files.deep_view()[i as int] == files@[i as int]@);
            assert(durations@.take(i + 1).last() == durations@[i as int]);
        }
        let ghost old_view = r@.map_values(|v: VideoFile| (v.name@, v.duration_ms));
        match durations[i] {
            Some(d) => {
                let name = file_name_part(files[i].as_str());
                r.push(VideoFile { name, duration_ms: d });
                proof {
                    assert(r@.map_values(|v: VideoFile| (v.name@, v.duration_ms)) =~= old_view.push(
                        (after_last_slash(files@[i as int]@), d),
                    ));
                }
            },
            None => {},
        }
        proof {
            assert(r@.map_values(|v: VideoFile| (v.name@, v.duration_ms)) =~= media_view(
                files.deep_view().take(i + 1),
                durations@.take(i + 1),
            ));
        }
    }
    proof {
        assert(files.deep_view().take(n as int) =~= files.deep_view());
        assert(durations@.take(n as int) =~= durations@);
    }
    r
}

/// The directory whose children fill `parent_folders`: the listed path's
/// own parent while a remainder is present, else the configured root.
pub fn parent_path_of(absolute: &str, remainder: &str, root: &str) -> (r: String)
    ensures
        r@ == if remainder@.len() > 0 {
            parent_part(absolute@)
        } else {
            root@
        },
{
    if remainder.unicode_len() > 0 {
        crate::strutil::parent_name_part(absolute)
    } else {
        String::from_str(root)
    }
}

/// Parent folders are listed only for a target that differs from its
/// parent path, and never on a folders-only request.
pub fn wants_parent_folders(path: &str, parent_path: &str, folders_only: bool) -> (r: bool)
    ensures
        r == (path@ != parent_path@ && !folders_only),
{
    !str_eq(path, parent_path) && !folders_only
}

} // verus!
