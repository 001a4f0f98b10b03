use vstd::prelude::*;
use vstd::string::*;

use crate::error::ServiceError;
use crate::strutil::{after_last_slash, file_name_part, parent_part, str_eq};

verus! {

/// What a path resolves to on disk. The tagged `Missing` variant makes the
/// "neither file nor directory" state explicit instead of a runtime check.
#[derive(Debug, Clone, Copy, PartialEq, Eq, Structural)]
pub enum FsNode {
    Directory,
    File,
    Missing,
}

/// The final base names of a finished move, echoed to the caller.
#[derive(Debug, Clone)]
pub struct MoveObject {
    pub source: String,
    pub target: String,
}

/// What a move request resolves to before any filesystem mutation.
#[derive(Debug, Clone)]
pub enum MoveAction {
    /// Rename `from` to `to`, with the copy-then-delete fallback behind it.
    Rename { from: String, to: String },
    /// The request is refused with this error.
    Reject(ServiceError),
}

/// The base names of `from` and `to`, as a finished move reports them.
pub fn move_object_of(from: &str, to: &str) -> (r: MoveObject)
    ensures
        r.source@ == after_last_slash(from@),
        r.target@ == after_last_slash(to@),
{
    MoveObject { source: file_name_part(from), target: file_name_part(to) }
}

pub open spec fn source_missing_msg() -> Seq<char> {
    "Source file not exist!"@
}

pub open spec fn target_exists_msg() -> Seq<char> {
    "Target file already exists!"@
}

/// The path has a parent directory to move into: it is neither empty nor
/// the filesystem root.
pub open spec fn has_parent(s: Seq<char>) -> bool {
    s.len() > 0 && s != seq!['/']
}

/// The move decision, over the sandboxed source and target paths and what
/// each resolves to (`joined_kind` is what target-joined-with-source-name
/// resolves to, read only when the target is a directory):
/// a missing source is refused; a source whose parent is the target is
/// renamed onto it directly; a directory target receives the source's base
/// name; an occupied (file) target is refused; a source file with a valid
/// target parent is renamed; anything else signals a logic error.
pub open spec fn plan_move_spec(
    source: Seq<char>,
    target: Seq<char>,
    source_kind: FsNode,
    target_kind: FsNode,
    joined_kind: FsNode,
) -> MovePlan {
    if source_kind is Missing {
        MovePlan::RejectBadRequest(source_missing_msg())
    } else if parent_part(source) == target {
        MovePlan::Rename(source, target)
    } else {
        let adjusted = if target_kind is Directory {
            target + seq!['/'] + after_last_slash(source)
        } else {
            target
        };
        let adjusted_kind = if target_kind is Directory {
            joined_kind
        } else {
            target_kind
        };
        if adjusted_kind is File {
            MovePlan::RejectBadRequest(target_exists_msg())
        } else if source_kind is File && has_parent(adjusted) {
            MovePlan::Rename(source, adjusted)
        } else {
            MovePlan::RejectInternal
        }
    }
}

/// Ghost-level shape of a move decision, what `plan_move` promises.
pub enum MovePlan {
    Rename(Seq<char>, Seq<char>),
    RejectBadRequest(Seq<char>),
    RejectInternal,
}

pub open spec fn action_matches_plan(r: MoveAction, p: MovePlan) -> bool {
    match p {
        MovePlan::Rename(f, t) => r is Rename && r->Rename_from@ == f && r->Rename_to@ == t,
        MovePlan::RejectBadRequest(m) => r is Reject && r->Reject_0 is BadRequest
            && r->Reject_0->BadRequest_0@ == m,
        MovePlan::RejectInternal => r is Reject && r->Reject_0 is InternalServerError,
    }
}

/// Decides a move request from the two sandboxed paths and the observed
/// kinds, performing no I/O itself.
pub fn plan_move(
    source: &str,
    target: &str,
    source_kind: FsNode,
    target_kind: FsNode,
    joined_kind: FsNode,
) -> (r: MoveAction)
    ensures
        action_matches_plan(
            r,
            plan_move_spec(source@, target@, source_kind, target_kind, joined_kind),
        ),
{
    if matches!(source_kind, FsNode::Missing) {
        return MoveAction::Reject(
            ServiceError::BadRequest(String::from_str("Source file not exist!")),
        );
    }
    let source_parent = crate::strutil::parent_name_part(source);
    if str_eq(source_parent.as_str(), target) {
        return MoveAction::Rename { from: String::from_str(source), to: String::from_str(target) };
    }
    let adjusted: String;
    let adjusted_kind: FsNode;
    if matches!(target_kind, FsNode::Directory) {
        let mut t = String::from_str(target);
        t.append("/");
        let base = file_name_part(source);
        t.append(base.as_str());
        proof {
            reveal_strlit("/");
            assert("/"@ =~= seq!['/']);
            assert(t@ =~= target@ + seq!['/'] + after_last_slash(source@));
        }
        adjusted = t;
        adjusted_kind = joined_kind;
    } else {
        adjusted = String::from_str(target);
        adjusted_kind = target_kind;
    }
    if matches!(adjusted_kind, FsNode::File) {
        return MoveAction::Reject(
            ServiceError::BadRequest(String::from_str("Target file already exists!")),
        );
    }
    if matches!(source_kind, FsNode::File) && target_has_parent(adjusted.as_str()) {
        return MoveAction::Rename { from: String::from_str(source), to: adjusted };
    }
    MoveAction::Reject(ServiceError::InternalServerError)
}

fn target_has_parent(s: &str) -> (r: bool)
    ensures
        r == has_parent(s@),
{
    let n: usize = s.unicode_len();
    if n == 0 {
        return false;
    }
    if n == 1 && s.get_char(0) == '/' {
        proof {
            assert(s@ =~= seq!['/']);
        }
        return false;
    }
    proof {
        if n == 1 {
            assert(s@[0] != '/');
            assert(s@ != seq!['/']);
        } else {
            assert(s@.len() != seq!['/'].len());
        }
    }
    true
}

/// What follows a rename attempt: done on success, otherwise the
/// copy-then-delete fallback — a failed rename never fails the move by
/// itself, and a successful rename never copies.
#[derive(Debug)]
pub enum RenameFollowup {
    Done(MoveObject),
    TryCopy,
}

pub fn after_rename_attempt(from: &str, to: &str, renamed_ok: bool) -> (r: RenameFollowup)
    ensures
        renamed_ok ==> r is Done && r->Done_0.source@ == after_last_slash(from@)
            && r->Done_0.target@ == after_last_slash(to@),
        !renamed_ok ==> r is TryCopy,
{
    if renamed_ok {
        RenameFollowup::Done(move_object_of(from, to))
    } else {
        RenameFollowup::TryCopy
    }
}

/// What follows the fallback copy: on success the source must be removed,
/// on failure the move fails as a bad request.
#[derive(Debug)]
pub enum CopyFollowup {
    RemoveSource,
    Fail(ServiceError),
}

pub open spec fn copy_failed_msg() -> Seq<char> {
    "Error in file copy!"@
}

pub fn after_copy_attempt(copied_ok: bool) -> (r: CopyFollowup)
    ensures
        copied_ok ==> r is RemoveSource,
        !copied_ok ==> r is Fail && r->Fail_0 is BadRequest && r->Fail_0->BadRequest_0@
            == copy_failed_msg(),
{
    if copied_ok {
        CopyFollowup::RemoveSource
    } else {
        CopyFollowup::Fail(ServiceError::BadRequest(String::from_str("Error in file copy!")))
    }
}

pub open spec fn remove_failed_msg() -> Seq<char> {
    "Removing File not possible!"@
}

/// What follows the delete of the copied-from source: done on success;
/// a failure is surfaced loudly, since the data now exists twice.
pub fn after_remove_source(from: &str, to: &str, removed_ok: bool) -> (r: Result<
    MoveObject,
    ServiceError,
>)
    ensures
        removed_ok ==> r is Ok && r->Ok_0.source@ == after_last_slash(from@)
            && r->Ok_0.target@ == after_last_slash(to@),
        !removed_ok ==> r is Err && r->Err_0 is BadRequest && r->Err_0->BadRequest_0@
            == remove_failed_msg(),
{
    if removed_ok {
        Ok(move_object_of(from, to))
    } else {
        Err(ServiceError::BadRequest(String::from_str("Removing File not possible!")))
    }
}

/// What a delete request performs.
#[derive(Debug, Clone)]
pub enum DeleteAction {
    RemoveDir,
    RemoveFile,
    Reject(ServiceError),
}

pub open spec fn delete_missing_msg() -> Seq<char> {
    "Source does not exists!"@
}

/// Decides a delete: a missing path is refused, a directory is removed as
/// a directory (only when empty, enforced by the removal itself), a file
/// as a file.
pub fn plan_delete(kind: FsNode) -> (r: DeleteAction)
    ensures
        kind is Missing ==> r is Reject && r->Reject_0 is BadRequest
            && r->Reject_0->BadRequest_0@ == delete_missing_msg(),
        kind is Directory ==> r is RemoveDir,
        kind is File ==> r is RemoveFile,
{
    match kind {
        FsNode::Missing => DeleteAction::Reject(
            ServiceError::BadRequest(String::from_str("Source does not exists!")),
        ),
        FsNode::Directory => DeleteAction::RemoveDir,
        FsNode::File => DeleteAction::RemoveFile,
    }
}

pub open spec fn delete_dir_failed_msg() -> Seq<char> {
    "Delete folder failed! (Folder must be empty)"@
}

/// Maps the outcome of removing a directory: a failure means the folder
/// was not empty (or not removable) and is surfaced as such — there is no
/// recursive delete.
pub fn delete_dir_outcome(removed_ok: bool) -> (r: Result<(), ServiceError>)
    ensures
        removed_ok <==> r is Ok,
        !removed_ok ==> r->Err_0 is BadRequest && r->Err_0->BadRequest_0@
            == delete_dir_failed_msg(),
{
    if removed_ok {
        Ok(())
    } else {
        Err(
            ServiceError::BadRequest(
                String::from_str("Delete folder failed! (Folder must be empty)"),
            ),
        )
    }
}

pub open spec fn delete_file_failed_msg() -> Seq<char> {
    "Delete file failed!"@
}

pub fn delete_file_outcome(removed_ok: bool) -> (r: Result<(), ServiceError>)
    ensures
        removed_ok <==> r is Ok,
        !removed_ok ==> r->Err_0 is BadRequest && r->Err_0->BadRequest_0@
            == delete_file_failed_msg(),
{
    if removed_ok {
        Ok(())
    } else {
        Err(ServiceError::BadRequest(String::from_str("Delete file failed!")))
    }
}

/// Maps the outcome of a recursive directory creation: a failure carries
/// the underlying message as a bad request.
pub fn mkdir_outcome(created_ok: bool, err_msg: String) -> (r: Result<(), ServiceError>)
    ensures
        created_ok <==> r is Ok,
        !created_ok ==> r->Err_0 is BadRequest && r->Err_0->BadRequest_0@ == err_msg@,
{
    if created_ok {
        Ok(())
    } else {
        Err(ServiceError::BadRequest(err_msg))
    }
}

} // verus!
