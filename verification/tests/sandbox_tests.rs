use media_store::browse::{
    file_extension, has_allowed_extension, media_entries, merge_extensions, parent_path_of,
    partition_entries, split_commas, wants_parent_folders, FsEntry, PathObject,
};
use media_store::error::ServiceError;
use media_store::mutate::FsNode;
use media_store::natsort::natural_sort;
use media_store::sandbox::{norm_abs_path, AllowList, PathDescriptor};

fn allow() -> AllowList {
    AllowList {
        prefixes: vec![
            "/media".to_string(),
            "/mnt".to_string(),
            "/playlists".to_string(),
            "/tv-media".to_string(),
            "/usr/share/ffplayout".to_string(),
            "/var/lib/ffplayout".to_string(),
        ],
        home: "/home/operator".to_string(),
    }
}

fn sandbox(root: &str, input: &str) -> Result<PathDescriptor, ServiceError> {
    norm_abs_path(root, input, &allow())
}

#[test]
fn traversal_is_stripped_and_contained() {
    // leading `../` runs are removed before the join, so the candidate
    // stays inside the root and passes the allow-list check
    let d = sandbox("/media/chan1", "../../etc/passwd").unwrap();
    assert_eq!(d.relative_remainder, "etc/passwd");
    assert_eq!(d.absolute_path, "/media/chan1/etc/passwd");
    assert_eq!(d.root_suffix, "chan1");
    assert!(d.absolute_path.starts_with("/media"));
}

#[test]
fn embedded_traversal_is_resolved() {
    let d = sandbox("/media/chan1", "clips/../movies/./a.mp4").unwrap();
    assert_eq!(d.relative_remainder, "movies/a.mp4");
    assert_eq!(d.absolute_path, "/media/chan1/movies/a.mp4");
}

#[test]
fn root_outside_allow_list_is_forbidden() {
    let e = sandbox("/srv/other", "clips").unwrap_err();
    match e {
        ServiceError::Forbidden(msg) => {
            assert_eq!(msg, "Access forbidden: Folder cannot be opened.");
        }
        other => panic!("expected Forbidden, got {other:?}"),
    }
}

#[test]
fn home_directory_is_allowed() {
    let d = sandbox("/home/operator/videos", "clips").unwrap();
    assert_eq!(d.absolute_path, "/home/operator/videos/clips");
}

#[test]
fn absolute_input_under_root_is_relativized() {
    let d = sandbox("/media/chan1", "/media/chan1/movies").unwrap();
    assert_eq!(d.relative_remainder, "movies");
    assert_eq!(d.absolute_path, "/media/chan1/movies");
}

#[test]
fn input_echoing_root_suffix_is_relativized() {
    let d = sandbox("/media/chan1", "chan1/movies").unwrap();
    assert_eq!(d.relative_remainder, "movies");
    assert_eq!(d.absolute_path, "/media/chan1/movies");
}

#[test]
fn bare_relative_input_is_kept() {
    let d = sandbox("/media/chan1", "movies/a.mp4").unwrap();
    assert_eq!(d.relative_remainder, "movies/a.mp4");
}

#[test]
fn empty_input_lands_on_root() {
    let d = sandbox("/media/chan1", "").unwrap();
    assert_eq!(d.relative_remainder, "");
    assert_eq!(d.absolute_path, "/media/chan1");
}

#[test]
fn sandbox_is_idempotent_on_remainder() {
    let d = sandbox("/media/chan1", "../../movies/clip.mp4").unwrap();
    let d2 = sandbox("/media/chan1", &d.relative_remainder).unwrap();
    assert_eq!(d2.relative_remainder, d.relative_remainder);
    assert_eq!(d2.absolute_path, d.absolute_path);
    assert_eq!(d2.root_suffix, d.root_suffix);
}

#[test]
fn remainder_echoing_root_name_is_the_known_ambiguity() {
    // a remainder that begins with the root's own directory name is
    // re-relativized on a second pass: the documented ambiguous edge
    let d = sandbox("/media", "media/mediax").unwrap();
    assert_eq!(d.relative_remainder, "mediax");
    let d2 = sandbox("/media", &d.relative_remainder).unwrap();
    assert_eq!(d2.relative_remainder, "");
}

#[test]
fn trailing_slash_on_root_keeps_its_name_as_suffix() {
    let d = sandbox("/media/chan1/", "chan1/movies").unwrap();
    assert_eq!(d.root_suffix, "chan1");
    assert_eq!(d.relative_remainder, "movies");
}

#[test]
fn natural_sort_orders_digit_runs_by_value() {
    let mut v = vec!["file10".to_string(), "file2".to_string(), "file1".to_string()];
    natural_sort(&mut v);
    assert_eq!(v, vec!["file1".to_string(), "file2".to_string(), "file10".to_string()]);
}

#[test]
fn natural_sort_is_stable_on_plain_names() {
    let mut v = vec!["b".to_string(), "a10c".to_string(), "a2b".to_string(), "a".to_string()];
    natural_sort(&mut v);
    assert_eq!(
        v,
        vec!["a".to_string(), "a2b".to_string(), "a10c".to_string(), "b".to_string()]
    );
}

#[test]
fn extension_filter_keeps_only_allowed() {
    let exts = vec!["mp4".to_string()];
    let entries = vec![
        FsEntry { path: "/media/chan1/a.mp4".to_string(), kind: FsNode::File },
        FsEntry { path: "/media/chan1/a.txt".to_string(), kind: FsNode::File },
    ];
    let (folders, files) = partition_entries(&entries, &exts, false);
    assert!(folders.is_empty());
    assert_eq!(files, vec!["/media/chan1/a.mp4".to_string()]);
}

#[test]
fn extension_check_is_case_insensitive() {
    let exts = vec!["mp4".to_string()];
    assert!(has_allowed_extension("/media/chan1/A.MP4", &exts));
    assert!(!has_allowed_extension("/media/chan1/a.txt", &exts));
}

#[test]
fn hidden_entries_are_skipped() {
    let exts = vec!["mp4".to_string()];
    let entries = vec![
        FsEntry { path: "/media/chan1/.cache".to_string(), kind: FsNode::Directory },
        FsEntry { path: "/media/chan1/.part.mp4".to_string(), kind: FsNode::File },
        FsEntry { path: "/media/chan1/clips".to_string(), kind: FsNode::Directory },
    ];
    let (folders, files) = partition_entries(&entries, &exts, false);
    assert_eq!(folders, vec!["clips".to_string()]);
    assert!(files.is_empty());
}

#[test]
fn folders_only_drops_files() {
    let exts = vec!["mp4".to_string()];
    let entries = vec![
        FsEntry { path: "/media/chan1/a.mp4".to_string(), kind: FsNode::File },
        FsEntry { path: "/media/chan1/clips".to_string(), kind: FsNode::Directory },
    ];
    let (folders, files) = partition_entries(&entries, &exts, true);
    assert_eq!(folders, vec!["clips".to_string()]);
    assert!(files.is_empty());
}

#[test]
fn browse_scenario_lists_folder_and_file() {
    // root /media/chan1, source "clips" holding one subfolder and one file
    let d = sandbox("/media/chan1", "clips").unwrap();
    assert_eq!(d.absolute_path, "/media/chan1/clips");
    let exts = merge_extensions(vec!["mp4".to_string()], "");
    let entries = vec![
        FsEntry { path: "/media/chan1/clips/b".to_string(), kind: FsNode::Directory },
        FsEntry { path: "/media/chan1/clips/clip.mp4".to_string(), kind: FsNode::File },
    ];
    let (mut folders, mut files) = partition_entries(&entries, &exts, false);
    natural_sort(&mut folders);
    natural_sort(&mut files);
    assert_eq!(folders, vec!["b".to_string()]);
    let media = media_entries(&files, &vec![Some(7500u64)]);
    assert_eq!(media.len(), 1);
    assert_eq!(media[0].name, "clip.mp4");
    assert_eq!(media[0].duration_ms, 7500);
}

#[test]
fn probe_failures_drop_the_entry() {
    let files = vec!["/m/a.mp4".to_string(), "/m/b.mp4".to_string()];
    let media = media_entries(&files, &vec![None, Some(12000u64)]);
    assert_eq!(media.len(), 1);
    assert_eq!(media[0].name, "b.mp4");
}

#[test]
fn merge_extensions_appends_comma_list() {
    let merged = merge_extensions(vec!["mp4".to_string()], "mkv,webm");
    assert_eq!(
        merged,
        vec!["mp4".to_string(), "mkv".to_string(), "webm".to_string()]
    );
}

#[test]
fn split_commas_keeps_empty_pieces() {
    assert_eq!(split_commas(""), vec!["".to_string()]);
    assert_eq!(split_commas("a,"), vec!["a".to_string(), "".to_string()]);
}

#[test]
fn file_extension_reads_the_last_dot() {
    assert_eq!(file_extension("/m/a.tar.gz"), Some("gz".to_string()));
    assert_eq!(file_extension("/m/.bashrc"), None);
    assert_eq!(file_extension("/m/noext"), None);
}

#[test]
fn parent_path_follows_the_remainder() {
    let p = parent_path_of("/media/chan1/clips", "clips", "/media/chan1");
    assert_eq!(p, "/media/chan1");
    let q = parent_path_of("/media/chan1", "", "/media/chan1");
    assert_eq!(q, "/media/chan1");
    assert!(wants_parent_folders("/media/chan1/clips", "/media/chan1", false));
    assert!(!wants_parent_folders("/media/chan1", "/media/chan1", false));
    assert!(!wants_parent_folders("/media/chan1/clips", "/media/chan1", true));
}

#[test]
fn path_object_new_starts_empty() {
    let o = PathObject::new("clips".to_string(), Some("chan1".to_string()));
    assert_eq!(o.source, "clips");
    assert_eq!(o.parent, Some("chan1".to_string()));
    assert_eq!(o.parent_folders, Some(vec![]));
    assert_eq!(o.folders, Some(vec![]));
    assert!(o.files.as_ref().unwrap().is_empty());
    assert!(!o.folders_only);
}
