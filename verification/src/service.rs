//! The decisions of the file service: what each request is answered with, and
//! in what order a deletion or a renaming probes, backs up and acts.
//!
//! Like the backup engine, nothing here touches a file or a socket. The
//! service hands in what it observed and is told how to go on.

use vstd::prelude::*;
use crate::listing::{
    build_listing, entry_models, found_models, listing_of, DirectoryListing, FoundEntry,
};
use crate::media::{content_type, content_type_of, lowercase_extension};

verus! {

/// The answer to a request, by kind.
#[derive(Clone, Copy, Debug, PartialEq, Eq, Structural)]
pub enum Status {
    /// The request was carried out.
    Success,
    /// The request does not make sense as it stands.
    BadRequest,
    /// What the request names does not exist, or is not of the kind asked for.
    NotFound,
    /// What the request would create exists already.
    Conflict,
    /// The file system refused.
    ServerError,
}

/// The HTTP status code of `status`.
pub open spec fn code_of(status: Status) -> u16 {
    match status {
        Status::Success => 200,
        Status::BadRequest => 400,
        Status::NotFound => 404,
        Status::Conflict => 409,
        Status::ServerError => 500,
    }
}

/// The HTTP status code of `status`.
pub fn status_code(status: Status) -> (code: u16)
    ensures
        code == code_of(status),
{
    match status {
        Status::Success => 200,
        Status::BadRequest => 400,
        Status::NotFound => 404,
        Status::Conflict => 409,
        Status::ServerError => 500,
    }
}

/// Whether a path can be listed: it must exist, else the answer is
/// `NotFound`, and be a directory, else `BadRequest`.
pub fn check_directory(present: bool, is_dir: bool) -> (verdict: Result<(), Status>)
    ensures
        verdict == (if !present {
            Err::<(), Status>(Status::NotFound)
        } else if !is_dir {
            Err::<(), Status>(Status::BadRequest)
        } else {
            Ok::<(), Status>(())
        }),
{
    if !present {
        Err(Status::NotFound)
    } else if !is_dir {
        Err(Status::BadRequest)
    } else {
        Ok(())
    }
}

/// Whether a path can be served, deleted or renamed: it must exist and be a
/// regular file, else the answer is `NotFound`.
pub fn check_file(present: bool, is_file: bool) -> (verdict: Result<(), Status>)
    ensures
        verdict == (if present && is_file {
            Ok::<(), Status>(())
        } else {
            Err::<(), Status>(Status::NotFound)
        }),
{
    if !present || !is_file {
        Err(Status::NotFound)
    } else {
        Ok(())
    }
}

/// The answer to a listing request for the directory at `current_path`, once
/// it is known to be one: the listing of what was found in it, or
/// `ServerError` where `found` is `None` because the directory could not be
/// read.
pub fn list_response(
    current_path: String,
    parent_path: Option<String>,
    found: Option<Vec<FoundEntry>>,
) -> (response: Result<DirectoryListing, Status>)
    ensures
        match found {
            Some(entries) => {
                &&& response matches Ok(listing)
                &&& listing.current_path == current_path
                &&& listing.parent_path == parent_path
                &&& entry_models(listing.entries@) == listing_of(found_models(entries@))
            },
            None => response == Err::<DirectoryListing, Status>(Status::ServerError),
        },
{
    match found {
        Some(entries) => Ok(build_listing(current_path, parent_path, &entries)),
        None => Err(Status::ServerError),
    }
}

/// A file as it is sent: its bytes, and the content type they are sent under.
#[derive(Debug, PartialEq, Eq)]
pub struct Served {
    /// The content type.
    pub content_type: &'static str,
    /// The bytes of the file.
    pub body: Vec<u8>,
}

/// The content type of a file at a path whose last component is `file_name`;
/// a path without a file name has no extension.
pub open spec fn served_type(file_name: Option<Seq<char>>) -> Seq<char> {
    content_type_of(
        match file_name {
            Some(name) => lowercase_extension(name),
            None => None,
        },
    )
}

/// The answer to a request for a file, once it is known to be one: its bytes
/// under the content type of its extension, or `ServerError` where `body` is
/// `None` because the file could not be read.
pub fn serve_response(file_name: Option<&str>, body: Option<Vec<u8>>) -> (response: Result<
    Served,
    Status,
>)
    ensures
        match body {
            Some(bytes) => {
                &&& response matches Ok(served)
                &&& served.body == bytes
                &&& served.content_type@ == served_type(
                    match file_name {
                        Some(name) => Some(name@),
                        None => None,
                    },
                )
            },
            None => response == Err::<Served, Status>(Status::ServerError),
        },
{
    match body {
        Some(bytes) => {
            let kind = match file_name {
                Some(name) => content_type(name),
                None => "application/octet-stream",
            };
            Ok(Served { content_type: kind, body: bytes })
        },
        None => Err(Status::ServerError),
    }
}

/// `std::string::FromUtf8Error`: why bytes are no UTF-8 text. It is carried
/// through and never looked into.
#[verifier::external_type_specification]
#[verifier::external_body]
pub struct ExFromUtf8Error(std::string::FromUtf8Error);

/// Whether `text` holds a `%`, the sign that starts an encoded byte.
pub open spec fn has_escape(text: Seq<char>) -> bool {
    text.contains('%')
}

/// What a percent-encoded text decodes to, as `urlencoding::decode` gives it,
/// or `None` where the decoded bytes are not valid UTF-8.
pub uninterp spec fn percent_decoded(encoded: Seq<char>) -> Option<Seq<char>>;

/// `urlencoding::decode`: replaces each `%` followed by two hexadecimal
/// digits by the byte they name and reads the result as UTF-8. A text without
/// any `%` is given back as it is.
#[verifier::external_body]
fn percent_decode(encoded: &str) -> (outcome: Result<String, std::string::FromUtf8Error>)
    ensures
        outcome matches Ok(text) ==> percent_decoded(encoded@) == Some(text@),
        outcome is Err ==> percent_decoded(encoded@) is None,
        !has_escape(encoded@) ==> outcome is Ok && outcome->Ok_0@ == encoded@,
{
    urlencoding::decode(encoded).map(|text| text.into_owned())
}

/// The path that a decoding stands for: the decoded text, or `BadRequest`
/// where the decoding failed.
pub fn path_from_decoding(decoded: Result<String, std::string::FromUtf8Error>) -> (path: Result<
    String,
    Status,
>)
    ensures
        match decoded {
            Ok(text) => path == Ok::<String, Status>(text),
            Err(_) => path == Err::<String, Status>(Status::BadRequest),
        },
{
    match decoded {
        Ok(text) => Ok(text),
        Err(_) => Err(Status::BadRequest),
    }
}

/// The path named by the percent-encoded text `encoded`, or `BadRequest`
/// where it does not decode. A text without any `%` names itself.
pub fn decode_path(encoded: &str) -> (path: Result<String, Status>)
    ensures
        match percent_decoded(encoded@) {
            Some(text) => path matches Ok(p) && p@ == text,
            None => path == Err::<String, Status>(Status::BadRequest),
        },
        !has_escape(encoded@) ==> (path matches Ok(p) && p@ == encoded@),
{
    path_from_decoding(percent_decode(encoded))
}

/// The two requests that destroy a file's content or name.
#[derive(Clone, Copy, Debug, PartialEq, Eq, Structural)]
pub enum MutationKind {
    /// Remove the file.
    Delete,
    /// Give the file another name in the same directory.
    Rename,
}

/// Where the handling of a mutation stands.
#[derive(Clone, Copy, Debug, PartialEq, Eq, Structural)]
pub enum MutationStage {
    /// Waiting to learn what is at the path.
    Probing,
    /// Waiting to learn of the new name's place; renaming only.
    CheckingTarget,
    /// Waiting for the backup to end.
    BackingUp,
    /// Waiting for the deletion or renaming itself.
    Applying,
    /// Answered.
    Done,
}

/// A mutation in progress.
#[derive(Clone, Copy, Debug, PartialEq, Eq, Structural)]
pub struct Mutation {
    /// What was asked for.
    pub kind: MutationKind,
    /// How far it has come.
    pub stage: MutationStage,
}

/// What the service is to do next for a mutation.
#[derive(Clone, Copy, Debug, PartialEq, Eq, Structural)]
pub enum MutationAction {
    /// Find out whether the path exists and is a regular file.
    ProbeSource,
    /// Find out whether the path has a parent directory and, if so, whether
    /// the new name is taken there.
    ProbeTarget,
    /// Run the backup engine on the file.
    BackUp,
    /// Delete or rename the file. Where `backup_failed`, warn first that no
    /// backup could be made.
    Apply { backup_failed: bool },
    /// Answer the request.
    Respond(Status),
}

/// What the service observed.
#[derive(Clone, Copy, Debug, PartialEq, Eq, Structural)]
pub enum MutationEvent {
    /// What is at the path.
    Probed { present: bool, is_file: bool },
    /// Whether the path has a parent, and whether the new name is taken in
    /// it; `taken` counts only where there is a parent.
    Target { has_parent: bool, taken: bool },
    /// The backup ended, well or not.
    BackedUp { ok: bool },
    /// The deletion or renaming ended, well or not.
    Applied { ok: bool },
}

/// The first state and action of a mutation: probe the path.
pub open spec fn start_of(kind: MutationKind) -> (Mutation, MutationAction) {
    (Mutation { kind, stage: MutationStage::Probing }, MutationAction::ProbeSource)
}

/// A mutation that has been answered with `status`.
pub open spec fn answered(kind: MutationKind, status: Status) -> (Mutation, MutationAction) {
    (Mutation { kind, stage: MutationStage::Done }, MutationAction::Respond(status))
}

/// The state and action that follow when `event` is observed in `state`.
///
/// What is not an existing regular file is `NotFound`. A renaming then needs
/// a parent directory, else `BadRequest`, in which the new name is free, else
/// `Conflict`. Then the file is backed up, and whether or not that worked, it
/// is deleted or renamed: `Success` where that worked, `ServerError` where
/// not. An event that the state does not wait for is answered `ServerError`.
pub open spec fn mutation_step(state: Mutation, event: MutationEvent) -> (
    Mutation,
    MutationAction,
) {
    let kind = state.kind;
    match (state.stage, event) {
        (MutationStage::Probing, MutationEvent::Probed { present, is_file }) => {
            if !present || !is_file {
                answered(kind, Status::NotFound)
            } else if kind == MutationKind::Rename {
                (
                    Mutation { kind, stage: MutationStage::CheckingTarget },
                    MutationAction::ProbeTarget,
                )
            } else {
                (Mutation { kind, stage: MutationStage::BackingUp }, MutationAction::BackUp)
            }
        },
        (MutationStage::CheckingTarget, MutationEvent::Target { has_parent, taken }) => {
            if !has_parent {
                answered(kind, Status::BadRequest)
            } else if taken {
                answered(kind, Status::Conflict)
            } else {
                (Mutation { kind, stage: MutationStage::BackingUp }, MutationAction::BackUp)
            }
        },
        (MutationStage::BackingUp, MutationEvent::BackedUp { ok }) => (
            Mutation { kind, stage: MutationStage::Applying },
            MutationAction::Apply { backup_failed: !ok },
        ),
        (MutationStage::Applying, MutationEvent::Applied { ok }) => {
            if ok {
                answered(kind, Status::Success)
            } else {
                answered(kind, Status::ServerError)
            }
        },
        _ => answered(kind, Status::ServerError),
    }
}

/// Starts the handling of a mutation.
pub fn start_mutation(kind: MutationKind) -> (first: (Mutation, MutationAction))
    ensures
        first == start_of(kind),
{
    (Mutation { kind, stage: MutationStage::Probing }, MutationAction::ProbeSource)
}

fn answer(kind: MutationKind, status: Status) -> (next: (Mutation, MutationAction))
    ensures
        next == answered(kind, status),
{
    (Mutation { kind, stage: MutationStage::Done }, MutationAction::Respond(status))
}

/// Takes the handling of a mutation one step on.
pub fn advance_mutation(state: Mutation, event: MutationEvent) -> (next: (
    Mutation,
    MutationAction,
))
    ensures
        next == mutation_step(state, event),
{
    let kind = state.kind;
    match state.stage {
        MutationStage::Probing => match event {
            MutationEvent::Probed { present, is_file } => {
                if !present || !is_file {
                    answer(kind, Status::NotFound)
                } else {
                    match kind {
                        MutationKind::Rename => (
                            Mutation { kind, stage: MutationStage::CheckingTarget },
                            MutationAction::ProbeTarget,
                        ),
                        MutationKind::Delete => (
                            Mutation { kind, stage: MutationStage::BackingUp },
                            MutationAction::BackUp,
                        ),
                    }
                }
            },
            _ => answer(kind, Status::ServerError),
        },
        MutationStage::CheckingTarget => match event {
            MutationEvent::Target { has_parent, taken } => {
                if !has_parent {
                    answer(kind, Status::BadRequest)
                } else if taken {
                    answer(kind, Status::Conflict)
                } else {
                    (Mutation { kind, stage: MutationStage::BackingUp }, MutationAction::BackUp)
                }
            },
            _ => answer(kind, Status::ServerError),
        },
        MutationStage::BackingUp => match event {
            MutationEvent::BackedUp { ok } => (
                Mutation { kind, stage: MutationStage::Applying },
                MutationAction::Apply { backup_failed: !ok },
            ),
            _ => answer(kind, Status::ServerError),
        },
        MutationStage::Applying => match event {
            MutationEvent::Applied { ok } => {
                if ok {
                    answer(kind, Status::Success)
                } else {
                    answer(kind, Status::ServerError)
                }
            },
            _ => answer(kind, Status::ServerError),
        },
        MutationStage::Done => answer(kind, Status::ServerError),
    }
}

/// A backup that fails holds nothing up: however the backup ended, the next
/// thing to do is the deletion or renaming itself, and how the request is
/// answered then depends on that alone.
pub proof fn lemma_backup_never_blocks(kind: MutationKind, backup_ok: bool, applied_ok: bool)
    ensures
        ({
            let waiting = Mutation { kind, stage: MutationStage::BackingUp };
            let after_backup = mutation_step(waiting, MutationEvent::BackedUp { ok: backup_ok });
            let end = mutation_step(after_backup.0, MutationEvent::Applied { ok: applied_ok });
            &&& after_backup.1 == MutationAction::Apply { backup_failed: !backup_ok }
            &&& end.1 == MutationAction::Respond(
                if applied_ok {
                    Status::Success
                } else {
                    Status::ServerError
                },
            )
        }),
{
}

} // verus!
