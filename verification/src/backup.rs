//! The backup engine: before a file is deleted or renamed, a copy of it is put
//! in a hidden directory beside it, unless a copy of the same content is
//! already recorded there.
//!
//! The engine touches no file itself. It says what is to be done next, is told
//! how that went, and decides from there; whoever drives it does the work on
//! the file system.

use vstd::prelude::*;
use crate::digest::ContentHash;
use crate::index::{entry_text, index_contains, index_entry, index_lines};
use crate::naming::{backup_file_name, backup_name};

verus! {

/// Name of the hidden directory, beside the files it protects, that holds
/// their backups and the index.
pub const SIDECAR_DIR: &'static str = ".safety_net";

/// Name of the index file inside the sidecar directory.
pub const INDEX_FILE: &'static str = "index.txt";

/// The steps of a backup that work on the file system.
#[derive(Clone, Copy, Debug, PartialEq, Eq, Structural)]
pub enum BackupStep {
    /// Creating the sidecar directory and its missing ancestors.
    CreateSidecar,
    /// Reading and hashing the file.
    HashSource,
    /// Reading the index.
    ReadIndex,
    /// Copying the file into the sidecar directory.
    CopySource,
    /// Appending the hash to the index.
    AppendIndex,
}

/// Why a backup was not made.
#[derive(Clone, Debug, PartialEq, Eq)]
pub enum BackupError {
    /// The path has no parent directory. Nothing was touched.
    NoParentDirectory,
    /// A step on the file system failed; `cause` is what it reported.
    Io { step: BackupStep, cause: String },
    /// The engine was told of something other than the step it had asked for.
    OutOfTurn,
}

/// How a backup succeeded.
#[derive(Clone, Debug, PartialEq, Eq)]
pub enum BackupOutcome {
    /// A copy was made under `backup_name` and its hash recorded.
    Copied { backup_name: String },
    /// The index already held the hash of the content; nothing was written.
    AlreadyBackedUp,
}

/// What is known of the path to back up.
#[derive(Clone, Debug, PartialEq, Eq)]
pub struct BackupRequest {
    /// Whether the path has a parent directory.
    pub has_parent: bool,
    /// The last component of the path, if it is a file name.
    pub file_name: Option<String>,
}

/// What the driver is to do next.
#[derive(Debug, PartialEq, Eq)]
pub enum BackupAction {
    /// Create the directory `SIDECAR_DIR` in the parent directory, with any
    /// missing ancestors; nothing to do where it exists.
    CreateSidecar,
    /// Hash the content of the file.
    HashSource,
    /// Read `INDEX_FILE` in the sidecar directory, if it exists.
    ReadIndex,
    /// Copy the file, byte for byte, to `backup_name` in the sidecar directory.
    CopySource { backup_name: String },
    /// Append `entry` to `INDEX_FILE` in the sidecar directory, creating the
    /// file where it is missing.
    AppendIndex { entry: String },
    /// Stop: the backup has ended as given.
    Finish(Result<BackupOutcome, BackupError>),
}

/// How the step that the engine asked for went.
#[derive(Clone, Debug, PartialEq, Eq)]
pub enum BackupEvent {
    /// The sidecar directory exists now.
    SidecarReady,
    /// The content of the file has this hash.
    Hashed(ContentHash),
    /// The content of the index, or `None` where there is no index yet.
    IndexRead(Option<String>),
    /// The copy was written.
    Copied,
    /// The entry was appended.
    Appended,
    /// The step failed, for the reason given.
    Failed(String),
}

/// Where a backup stands.
#[derive(Clone, Debug, PartialEq, Eq)]
pub enum BackupState {
    /// Waiting for the sidecar directory.
    CreatingSidecar { file_name: Option<String> },
    /// Waiting for the hash of the file.
    Hashing { file_name: Option<String> },
    /// Waiting for the content of the index.
    ReadingIndex { file_name: Option<String>, hash: ContentHash },
    /// Waiting for the copy.
    Copying { hash: ContentHash, backup_name: String },
    /// Waiting for the index entry.
    Appending { backup_name: String },
    /// Ended.
    Done,
}

/// The characters of an optional string.
pub open spec fn text_of(s: Option<String>) -> Option<Seq<char>> {
    match s {
        Some(t) => Some(t@),
        None => None,
    }
}

/// Mathematical form of `BackupError`.
pub enum ErrorModel {
    NoParentDirectory,
    Io { step: BackupStep, cause: Seq<char> },
    OutOfTurn,
}

/// Mathematical form of `BackupOutcome`.
pub enum OutcomeModel {
    Copied { backup_name: Seq<char> },
    AlreadyBackedUp,
}

/// Mathematical form of `BackupAction`.
pub enum ActionModel {
    CreateSidecar,
    HashSource,
    ReadIndex,
    CopySource { backup_name: Seq<char> },
    AppendIndex { entry: Seq<char> },
    Finish(Result<OutcomeModel, ErrorModel>),
}

/// Mathematical form of `BackupEvent`.
pub enum EventModel {
    SidecarReady,
    Hashed(Seq<char>),
    IndexRead(Option<Seq<char>>),
    Copied,
    Appended,
    Failed(Seq<char>),
}

/// Mathematical form of `BackupState`.
pub enum StateModel {
    CreatingSidecar { file_name: Option<Seq<char>> },
    Hashing { file_name: Option<Seq<char>> },
    ReadingIndex { file_name: Option<Seq<char>>, hash: Seq<char> },
    Copying { hash: Seq<char>, backup_name: Seq<char> },
    Appending { backup_name: Seq<char> },
    Done,
}

impl View for BackupError {
    type V = ErrorModel;

    open spec fn view(&self) -> ErrorModel {
        match *self {
            BackupError::NoParentDirectory => ErrorModel::NoParentDirectory,
            BackupError::Io { step, cause } => ErrorModel::Io { step, cause: cause@ },
            BackupError::OutOfTurn => ErrorModel::OutOfTurn,
        }
    }
}

impl View for BackupOutcome {
    type V = OutcomeModel;

    open spec fn view(&self) -> OutcomeModel {
        match *self {
            BackupOutcome::Copied { backup_name } => OutcomeModel::Copied {
                backup_name: backup_name@,
            },
            BackupOutcome::AlreadyBackedUp => OutcomeModel::AlreadyBackedUp,
        }
    }
}

/// Mathematical form of the result of a backup.
pub open spec fn result_model(result: Result<BackupOutcome, BackupError>) -> Result<
    OutcomeModel,
    ErrorModel,
> {
    match result {
        Ok(outcome) => Ok(outcome@),
        Err(error) => Err(error@),
    }
}

impl View for BackupAction {
    type V = ActionModel;

    open spec fn view(&self) -> ActionModel {
        match *self {
            BackupAction::CreateSidecar => ActionModel::CreateSidecar,
            BackupAction::HashSource => ActionModel::HashSource,
            BackupAction::ReadIndex => ActionModel::ReadIndex,
            BackupAction::CopySource { backup_name } => ActionModel::CopySource {
                backup_name: backup_name@,
            },
            BackupAction::AppendIndex { entry } => ActionModel::AppendIndex { entry: entry@ },
            BackupAction::Finish(result) => ActionModel::Finish(result_model(result)),
        }
    }
}

impl View for BackupEvent {
    type V = EventModel;

    open spec fn view(&self) -> EventModel {
        match *self {
            BackupEvent::SidecarReady => EventModel::SidecarReady,
            BackupEvent::Hashed(hash) => EventModel::Hashed(hash@),
            BackupEvent::IndexRead(content) => EventModel::IndexRead(text_of(content)),
            BackupEvent::Copied => EventModel::Copied,
            BackupEvent::Appended => EventModel::Appended,
            BackupEvent::Failed(cause) => EventModel::Failed(cause@),
        }
    }
}

impl View for BackupState {
    type V = StateModel;

    open spec fn view(&self) -> StateModel {
        match *self {
            BackupState::CreatingSidecar { file_name } => StateModel::CreatingSidecar {
                file_name: text_of(file_name),
            },
            BackupState::Hashing { file_name } => StateModel::Hashing {
                file_name: text_of(file_name),
            },
            BackupState::ReadingIndex { file_name, hash } => StateModel::ReadingIndex {
                file_name: text_of(file_name),
                hash: hash@,
            },
            BackupState::Copying { hash, backup_name } => StateModel::Copying {
                hash: hash@,
                backup_name: backup_name@,
            },
            BackupState::Appending { backup_name } => StateModel::Appending {
                backup_name: backup_name@,
            },
            BackupState::Done => StateModel::Done,
        }
    }
}

/// The step that a state waits for, if it waits for one.
pub open spec fn awaited_step(state: StateModel) -> Option<BackupStep> {
    match state {
        StateModel::CreatingSidecar { .. } => Some(BackupStep::CreateSidecar),
        StateModel::Hashing { .. } => Some(BackupStep::HashSource),
        StateModel::ReadingIndex { .. } => Some(BackupStep::ReadIndex),
        StateModel::Copying { .. } => Some(BackupStep::CopySource),
        StateModel::Appending { .. } => Some(BackupStep::AppendIndex),
        StateModel::Done => None,
    }
}

/// Whether the index with content `index` records `hash`.
pub open spec fn records(index: Option<Seq<char>>, hash: Seq<char>) -> bool {
    match index {
        Some(content) => index_lines(content).contains(hash),
        None => false,
    }
}

/// The first state and action of a backup. A path without a parent ends the
/// backup at once; any other starts with the sidecar directory.
pub open spec fn begin_model(has_parent: bool, file_name: Option<Seq<char>>) -> (
    StateModel,
    ActionModel,
) {
    if has_parent {
        (StateModel::CreatingSidecar { file_name }, ActionModel::CreateSidecar)
    } else {
        (StateModel::Done, ActionModel::Finish(Err(ErrorModel::NoParentDirectory)))
    }
}

/// The state and action that follow when `event` is reported in `state`.
///
/// Each state waits for the event of its own step. That event moves the
/// backup on: sidecar, hash, index, and then either the end, where the index
/// records the hash, or copy, index entry, end. A failure ends the backup with
/// the step and the cause; any other event ends it as out of turn.
pub open spec fn step(state: StateModel, event: EventModel) -> (StateModel, ActionModel) {
    match (state, event) {
        (StateModel::CreatingSidecar { file_name }, EventModel::SidecarReady) => (
            StateModel::Hashing { file_name },
            ActionModel::HashSource,
        ),
        (StateModel::Hashing { file_name }, EventModel::Hashed(hash)) => (
            StateModel::ReadingIndex { file_name, hash },
            ActionModel::ReadIndex,
        ),
        (StateModel::ReadingIndex { file_name, hash }, EventModel::IndexRead(index)) => {
            if records(index, hash) {
                (StateModel::Done, ActionModel::Finish(Ok(OutcomeModel::AlreadyBackedUp)))
            } else {
                let backup_name = backup_name(file_name, hash);
                (
                    StateModel::Copying { hash, backup_name },
                    ActionModel::CopySource { backup_name },
                )
            }
        },
        (StateModel::Copying { hash, backup_name }, EventModel::Copied) => (
            StateModel::Appending { backup_name },
            ActionModel::AppendIndex { entry: entry_text(hash) },
        ),
        (StateModel::Appending { backup_name }, EventModel::Appended) => (
            StateModel::Done,
            ActionModel::Finish(Ok(OutcomeModel::Copied { backup_name })),
        ),
        (_, EventModel::Failed(cause)) => match awaited_step(state) {
            Some(step) => (
                StateModel::Done,
                ActionModel::Finish(Err(ErrorModel::Io { step, cause })),
            ),
            None => (StateModel::Done, ActionModel::Finish(Err(ErrorModel::OutOfTurn))),
        },
        _ => (StateModel::Done, ActionModel::Finish(Err(ErrorModel::OutOfTurn))),
    }
}

/// Starts a backup: the first state, and what the driver is to do first.
pub fn begin(request: BackupRequest) -> (first: (BackupState, BackupAction))
    ensures
        (first.0@, first.1@) == begin_model(request.has_parent, text_of(request.file_name)),
{
    if request.has_parent {
        (BackupState::CreatingSidecar { file_name: request.file_name }, BackupAction::CreateSidecar)
    } else {
        (BackupState::Done, BackupAction::Finish(Err(BackupError::NoParentDirectory)))
    }
}

fn out_of_turn() -> (next: (BackupState, BackupAction))
    ensures
        next.0@ == StateModel::Done,
        next.1@ == ActionModel::Finish(Err(ErrorModel::OutOfTurn)),
{
    (BackupState::Done, BackupAction::Finish(Err(BackupError::OutOfTurn)))
}

fn failed(step: BackupStep, cause: String) -> (next: (BackupState, BackupAction))
    ensures
        next.0@ == StateModel::Done,
        next.1@ == ActionModel::Finish(Err(ErrorModel::Io { step, cause: cause@ })),
{
    (BackupState::Done, BackupAction::Finish(Err(BackupError::Io { step, cause })))
}

/// Takes the backup one step on: from the state it is in and the event that
/// the driver reports, to the next state and the next thing to do.
pub fn advance(state: BackupState, event: BackupEvent) -> (next: (BackupState, BackupAction))
    ensures
        (next.0@, next.1@) == step(state@, event@),
{
    match state {
        BackupState::CreatingSidecar { file_name } => match event {
            BackupEvent::SidecarReady => (
                BackupState::Hashing { file_name },
                BackupAction::HashSource,
            ),
            BackupEvent::Failed(cause) => failed(BackupStep::CreateSidecar, cause),
            _ => out_of_turn(),
        },
        BackupState::Hashing { file_name } => match event {
            BackupEvent::Hashed(hash) => (
                BackupState::ReadingIndex { file_name, hash },
                BackupAction::ReadIndex,
            ),
            BackupEvent::Failed(cause) => failed(BackupStep::HashSource, cause),
            _ => out_of_turn(),
        },
        BackupState::ReadingIndex { file_name, hash } => match event {
            BackupEvent::IndexRead(index) => {
                let recorded = match &index {
                    Some(content) => index_contains(content.as_str(), hash.as_str()),
                    None => false,
                };
                if recorded {
                    (BackupState::Done, BackupAction::Finish(Ok(BackupOutcome::AlreadyBackedUp)))
                } else {
                    let name = match &file_name {
                        Some(n) => backup_file_name(Some(n.as_str()), &hash),
                        None => backup_file_name(None, &hash),
                    };
                    let copy = name.clone();
                    (
                        BackupState::Copying { hash, backup_name: name },
                        BackupAction::CopySource { backup_name: copy },
                    )
                }
            },
            BackupEvent::Failed(cause) => failed(BackupStep::ReadIndex, cause),
            _ => out_of_turn(),
        },
        BackupState::Copying { hash, backup_name } => match event {
            BackupEvent::Copied => {
                let entry = index_entry(&hash);
                (BackupState::Appending { backup_name }, BackupAction::AppendIndex { entry })
            },
            BackupEvent::Failed(cause) => failed(BackupStep::CopySource, cause),
            _ => out_of_turn(),
        },
        BackupState::Appending { backup_name } => match event {
            BackupEvent::Appended => (
                BackupState::Done,
                BackupAction::Finish(Ok(BackupOutcome::Copied { backup_name })),
            ),
            BackupEvent::Failed(cause) => failed(BackupStep::AppendIndex, cause),
            _ => out_of_turn(),
        },
        BackupState::Done => out_of_turn(),
    }
}

} // verus!
