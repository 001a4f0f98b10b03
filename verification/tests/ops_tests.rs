use media_store::encoder::encoder_prefix;
use media_store::error::ServiceError;
use media_store::mutate::{
    after_copy_attempt, after_remove_source, after_rename_attempt, delete_dir_outcome,
    delete_file_outcome, mkdir_outcome, move_object_of, plan_delete, plan_move, CopyFollowup,
    DeleteAction, FsNode, MoveAction, RenameFollowup,
};
use media_store::upload::{
    check_target_dir, choose_filename, upload_precheck, upload_stream_step, upload_target,
    StreamAction, StreamEvent,
};

#[test]
fn same_parent_move_is_a_direct_rename() {
    // moving a/x.mp4 to a/y.mp4 plans one rename, never a copy
    let action = plan_move("a/x.mp4", "a/y.mp4", FsNode::File, FsNode::Missing, FsNode::Missing);
    match action {
        MoveAction::Rename { from, to } => {
            assert_eq!(from, "a/x.mp4");
            assert_eq!(to, "a/y.mp4");
        }
        other => panic!("expected a rename, got {other:?}"),
    }
    // the fallback copy is reached only when the rename itself failed
    match after_rename_attempt("a/x.mp4", "a/y.mp4", true) {
        RenameFollowup::Done(mv) => {
            assert_eq!(mv.source, "x.mp4");
            assert_eq!(mv.target, "y.mp4");
        }
        RenameFollowup::TryCopy => panic!("a successful rename must not copy"),
    }
    assert!(matches!(
        after_rename_attempt("a/x.mp4", "a/y.mp4", false),
        RenameFollowup::TryCopy
    ));
}

#[test]
fn move_into_directory_appends_base_name() {
    let action = plan_move(
        "/m/a/x.mp4",
        "/m/b",
        FsNode::File,
        FsNode::Directory,
        FsNode::Missing,
    );
    match action {
        MoveAction::Rename { from, to } => {
            assert_eq!(from, "/m/a/x.mp4");
            assert_eq!(to, "/m/b/x.mp4");
        }
        other => panic!("expected a rename, got {other:?}"),
    }
}

#[test]
fn occupied_move_target_is_refused() {
    let action = plan_move("/m/a/x.mp4", "/m/b/x.mp4", FsNode::File, FsNode::File, FsNode::Missing);
    match action {
        MoveAction::Reject(ServiceError::BadRequest(msg)) => {
            assert_eq!(msg, "Target file already exists!");
        }
        other => panic!("expected a conflict, got {other:?}"),
    }
    // the same when the target directory already holds the base name
    let action = plan_move(
        "/m/a/x.mp4",
        "/m/b",
        FsNode::File,
        FsNode::Directory,
        FsNode::File,
    );
    assert!(matches!(action, MoveAction::Reject(ServiceError::BadRequest(_))));
}

#[test]
fn missing_move_source_is_refused() {
    let action = plan_move("/m/a/x.mp4", "/m/b", FsNode::Missing, FsNode::Missing, FsNode::Missing);
    match action {
        MoveAction::Reject(ServiceError::BadRequest(msg)) => {
            assert_eq!(msg, "Source file not exist!");
        }
        other => panic!("expected a bad request, got {other:?}"),
    }
}

#[test]
fn unclassifiable_move_is_an_internal_error() {
    // a directory source with a fresh target name fits no branch
    let action = plan_move(
        "/m/a/dir",
        "/m/b/fresh",
        FsNode::Directory,
        FsNode::Missing,
        FsNode::Missing,
    );
    assert!(matches!(action, MoveAction::Reject(ServiceError::InternalServerError)));
}

#[test]
fn moving_onto_own_parent_plans_a_rename() {
    let action = plan_move("/m/a/x.mp4", "/m/a", FsNode::File, FsNode::Directory, FsNode::Missing);
    match action {
        MoveAction::Rename { from, to } => {
            assert_eq!(from, "/m/a/x.mp4");
            assert_eq!(to, "/m/a");
        }
        other => panic!("expected a rename, got {other:?}"),
    }
}

#[test]
fn copy_fallback_surfaces_each_failure() {
    assert!(matches!(after_copy_attempt(true), CopyFollowup::RemoveSource));
    match after_copy_attempt(false) {
        CopyFollowup::Fail(ServiceError::BadRequest(msg)) => {
            assert_eq!(msg, "Error in file copy!");
        }
        other => panic!("expected a bad request, got {other:?}"),
    }
    let done = after_remove_source("/m/a/x.mp4", "/m/b/x.mp4", true).unwrap();
    assert_eq!(done.source, "x.mp4");
    assert_eq!(done.target, "x.mp4");
    match after_remove_source("/m/a/x.mp4", "/m/b/x.mp4", false) {
        Err(ServiceError::BadRequest(msg)) => {
            assert_eq!(msg, "Removing File not possible!");
        }
        other => panic!("expected a loud failure, got {other:?}"),
    }
}

#[test]
fn move_object_reports_base_names() {
    let mv = move_object_of("/m/a/x.mp4", "/m/b/y.mp4");
    assert_eq!(mv.source, "x.mp4");
    assert_eq!(mv.target, "y.mp4");
}

#[test]
fn delete_of_missing_path_is_refused() {
    match plan_delete(FsNode::Missing) {
        DeleteAction::Reject(ServiceError::BadRequest(msg)) => {
            assert_eq!(msg, "Source does not exists!");
        }
        other => panic!("expected a bad request, got {other:?}"),
    }
}

#[test]
fn non_empty_directory_delete_fails_loudly() {
    // a directory with contents: the removal fails and is surfaced as
    // "must be empty"; nothing is deleted recursively
    assert!(matches!(plan_delete(FsNode::Directory), DeleteAction::RemoveDir));
    match delete_dir_outcome(false) {
        Err(ServiceError::BadRequest(msg)) => {
            assert_eq!(msg, "Delete folder failed! (Folder must be empty)");
        }
        other => panic!("expected a bad request, got {other:?}"),
    }
    assert!(delete_dir_outcome(true).is_ok());
}

#[test]
fn file_delete_outcomes() {
    assert!(matches!(plan_delete(FsNode::File), DeleteAction::RemoveFile));
    assert!(delete_file_outcome(true).is_ok());
    match delete_file_outcome(false) {
        Err(ServiceError::BadRequest(msg)) => assert_eq!(msg, "Delete file failed!"),
        other => panic!("expected a bad request, got {other:?}"),
    }
}

#[test]
fn mkdir_failure_carries_the_message() {
    assert!(mkdir_outcome(true, String::new()).is_ok());
    match mkdir_outcome(false, "permission denied".to_string()) {
        Err(ServiceError::BadRequest(msg)) => assert_eq!(msg, "permission denied"),
        other => panic!("expected a bad request, got {other:?}"),
    }
}

#[test]
fn upload_conflict_on_existing_file() {
    match upload_precheck(FsNode::File) {
        Err(ServiceError::Conflict(msg)) => assert_eq!(msg, "Target already exists!"),
        other => panic!("expected a conflict, got {other:?}"),
    }
    assert!(upload_precheck(FsNode::Missing).is_ok());
    assert!(upload_precheck(FsNode::Directory).is_ok());
}

#[test]
fn any_failed_read_cleans_up_the_partial_file() {
    let truncated = upload_stream_step(StreamEvent::Failed(
        "error: stream is incomplete, client went away".to_string(),
    ));
    assert!(matches!(truncated, StreamAction::CleanupAndFail));
    let reset = upload_stream_step(StreamEvent::Failed("connection reset".to_string()));
    assert!(matches!(reset, StreamAction::CleanupAndFail));
}

#[test]
fn stream_chunks_are_written_and_the_end_finishes() {
    match upload_stream_step(StreamEvent::Chunk(vec![1, 2, 3])) {
        StreamAction::Write(data) => assert_eq!(data, vec![1, 2, 3]),
        other => panic!("expected a write, got {other:?}"),
    }
    assert!(matches!(upload_stream_step(StreamEvent::End), StreamAction::Finish));
}

#[test]
fn chosen_filenames_hold_no_separator() {
    let named = choose_filename(Some("../evil.mp4"));
    assert_eq!(named, "..evil.mp4");
    assert!(!named.contains('/'));
    let random = choose_filename(None);
    assert_eq!(random.chars().count(), 20);
    assert!(random.chars().all(|c| c.is_ascii_alphanumeric()));
}

#[test]
fn upload_target_resolution() {
    assert_eq!(upload_target(true, "/abs/dest.mp4", "/media/chan1", "x.mp4"), "/abs/dest.mp4");
    assert_eq!(
        upload_target(false, "ignored", "/media/chan1/incoming", "x.mp4"),
        "/media/chan1/incoming/x.mp4"
    );
}

#[test]
fn relative_upload_needs_an_existing_directory() {
    match check_target_dir(FsNode::Missing) {
        Err(ServiceError::BadRequest(msg)) => assert_eq!(msg, "Target folder not exists!"),
        other => panic!("expected a bad request, got {other:?}"),
    }
    assert!(check_target_dir(FsNode::Directory).is_ok());
    assert!(check_target_dir(FsNode::File).is_err());
}

#[test]
fn encoder_prefix_orders_its_arguments() {
    let plain = encoder_prefix("info", None, false);
    assert_eq!(plain, vec!["-hide_banner", "-nostats", "-v", "info", "-i", "pipe:0"]);
    let rt = encoder_prefix("error", Some(vec!["-thread_queue_size".to_string(), "512".to_string()]), true);
    assert_eq!(
        rt,
        vec!["-hide_banner", "-nostats", "-v", "error", "-thread_queue_size", "512", "-re", "-i", "pipe:0"]
    );
}
