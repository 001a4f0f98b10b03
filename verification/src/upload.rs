use vstd::prelude::*;
use vstd::string::*;

use crate::error::ServiceError;
use crate::mutate::FsNode;
use crate::sandbox::join_rel;

verus! {

/// The string holds no `/`, so it names a single directory entry.
pub open spec fn no_separator(s: Seq<char>) -> bool {
    forall|i: int| 0 <= i < s.len() ==> s[i] != '/'
}

pub open spec fn is_alnum_char(c: char) -> bool {
    (48 <= c as u32 && c as u32 <= 57) || (65 <= c as u32 && c as u32 <= 90) || (97 <= c as u32
        && c as u32 <= 122)
}

/// Name for what the sanitizer returns of a filename.
pub uninterp spec fn sanitize_of(s: Seq<char>) -> Seq<char>;

/// Relies on `sanitize_filename::sanitize_with_options`, called with fixed
/// options (no platform-conditional rules, empty replacement, truncation
/// on), so the result is a function of the characters alone; path
/// separators are among the illegal characters it removes.
#[verifier::external_body]
fn sanitize_name(s: &str) -> (r: String)
    ensures
        r@ == sanitize_of(s@),
        no_separator(r@),
{
    sanitize_filename::sanitize_with_options(
        s,
        sanitize_filename::Options { windows: false, truncate: true, replacement: "" },
    )
}

/// Relies on rand's `Alphanumeric` distribution sampled from `thread_rng`:
/// 20 characters drawn from ascii letters and digits; nothing is promised
/// of which ones.
#[verifier::external_body]
fn random_alphanumeric_20() -> (r: String)
    ensures
        r@.len() == 20,
        forall|i: int| 0 <= i < r@.len() ==> is_alnum_char(#[trigger] r@[i]),
{
    rand::Rng::sample_iter(rand::thread_rng(), &rand::distributions::Alphanumeric).take(
        20,
    ).map(char::from).collect()
}

/// The name an uploaded part is stored under: the client's declared name
/// sanitized, or a random 20-character alphanumeric name when none was
/// declared. Either way it holds no path separator, so it cannot step out
/// of the target directory.
pub fn choose_filename(client_name: Option<&str>) -> (r: String)
    ensures
        no_separator(r@),
        client_name is Some ==> r@ == sanitize_of(client_name->0@),
        client_name is None ==> r@.len() == 20,
        client_name is None ==> forall|i: int| 0 <= i < r@.len() ==> is_alnum_char(#[trigger] r@[i]),
{
    match client_name {
        Some(name) => sanitize_name(name),
        None => {
            let r = random_alphanumeric_20();
            proof {
                assert forall|i: int| 0 <= i < r@.len() implies r@[i] != '/' by {
                    assert(is_alnum_char(r@[i]));
                }
            }
            r
        },
    }
}

/// Where an upload part is written: the destination itself when the caller
/// passed an absolute path, else the sandboxed directory joined with the
/// chosen filename.
pub fn upload_target(use_absolute: bool, destination: &str, sandboxed_dir: &str, filename: &str) -> (r:
    String)
    ensures
        use_absolute ==> r@ == destination@,
        !use_absolute ==> r@ == join_rel(sandboxed_dir@, filename@),
{
    if use_absolute {
        String::from_str(destination)
    } else {
        if filename.unicode_len() == 0 {
            String::from_str(sandboxed_dir)
        } else {
            let mut out = String::from_str(sandboxed_dir);
            out.append("/");
            out.append(filename);
            proof {
                reveal_strlit("/");
                assert("/"@ =~= seq!['/']);
                assert(out@ =~= sandboxed_dir@ + seq!['/'] + filename@);
            }
            out
        }
    }
}

pub open spec fn target_dir_missing_msg() -> Seq<char> {
    "Target folder not exists!"@
}

/// A relative upload may only land in an existing directory.
pub fn check_target_dir(kind: FsNode) -> (r: Result<(), ServiceError>)
    ensures
        kind is Directory <==> r is Ok,
        !(kind is Directory) ==> r->Err_0 is BadRequest && r->Err_0->BadRequest_0@
            == target_dir_missing_msg(),
{
    match kind {
        FsNode::Directory => Ok(()),
        _ => Err(ServiceError::BadRequest(String::from_str("Target folder not exists!"))),
    }
}

pub open spec fn conflict_msg() -> Seq<char> {
    "Target already exists!"@
}

/// Uploads never overwrite: a target that already holds a file is refused
/// with a conflict before anything is created.
pub fn upload_precheck(target_kind: FsNode) -> (r: Result<(), ServiceError>)
    ensures
        r is Ok <==> !(target_kind is File),
        target_kind is File ==> r->Err_0 is Conflict && r->Err_0->Conflict_0@ == conflict_msg(),
{
    match target_kind {
        FsNode::File => Err(ServiceError::Conflict(String::from_str("Target already exists!"))),
        _ => Ok(()),
    }
}

/// What the upload loop observes on one read of the part stream.
pub enum StreamEvent {
    /// Bytes arrived.
    Chunk(Vec<u8>),
    /// The part ended cleanly.
    End,
    /// The read failed with this error text.
    Failed(String),
}

/// What the upload loop does next.
#[derive(Debug)]
pub enum StreamAction {
    /// Append these bytes to the target file.
    Write(Vec<u8>),
    /// Close the file; the part is complete.
    Finish,
    /// Delete the partly written target, then propagate the error.
    CleanupAndFail,
}

/// One step of the upload loop: chunks are written, a clean end finishes,
/// and every failed read fails the upload after deleting the partial
/// file, so an interrupted transfer leaves no file at the target.
pub fn upload_stream_step(event: StreamEvent) -> (r: StreamAction)
    ensures
        event is Chunk ==> r is Write && r->Write_0@ == event->Chunk_0@,
        event is End ==> r is Finish,
        event is Failed ==> r is CleanupAndFail,
{
    match event {
        StreamEvent::Chunk(data) => StreamAction::Write(data),
        StreamEvent::End => StreamAction::Finish,
        StreamEvent::Failed(_msg) => StreamAction::CleanupAndFail,
    }
}

} // verus!
