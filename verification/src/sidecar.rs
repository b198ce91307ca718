//! What a backup leaves in the sidecar directory: a model of the directory, of
//! a file system that carries out the engine's actions, and the laws that the
//! engine obeys on it.

use vstd::prelude::*;
use crate::backup::{
    begin_model, records, step, ActionModel, BackupStep, ErrorModel, EventModel, OutcomeModel,
    StateModel, INDEX_FILE,
};
use crate::digest::{content_hash, is_hash_text};
use crate::index::{
    entry_text, index_lines, is_complete, lemma_hash_text_is_plain, lemma_lines_after_append,
};
use crate::naming::backup_name;

verus! {

/// The sidecar directory of one parent directory.
pub struct Sidecar {
    /// Whether the directory exists.
    pub present: bool,
    /// The content of the index file, or `None` where there is none.
    pub index: Option<Seq<char>>,
    /// The backup files, which are all the files but the index, by name, with
    /// their content.
    pub files: Map<Seq<char>, Seq<u8>>,
}

/// A parent directory that has no sidecar directory yet.
pub open spec fn absent() -> Sidecar {
    Sidecar { present: false, index: None, files: Map::empty() }
}

/// The content of an index, taking a missing index as empty.
pub open spec fn index_text(index: Option<Seq<char>>) -> Seq<char> {
    match index {
        Some(content) => content,
        None => Seq::empty(),
    }
}

/// What a file system that does not fail makes of `action` on a file with
/// content `source`, beside the sidecar `dir`: the event it reports, and the
/// sidecar afterwards. The end of a backup is nothing to carry out.
pub open spec fn perform(action: ActionModel, source: Seq<u8>, dir: Sidecar) -> (
    EventModel,
    Sidecar,
) {
    match action {
        ActionModel::CreateSidecar => (EventModel::SidecarReady, Sidecar { present: true, ..dir }),
        ActionModel::HashSource => (EventModel::Hashed(content_hash(source)), dir),
        ActionModel::ReadIndex => (EventModel::IndexRead(dir.index), dir),
        ActionModel::CopySource { backup_name } => (
            EventModel::Copied,
            Sidecar { files: dir.files.insert(backup_name, source), ..dir },
        ),
        ActionModel::AppendIndex { entry } => (
            EventModel::Appended,
            Sidecar { index: Some(index_text(dir.index) + entry), ..dir },
        ),
        ActionModel::Finish(_) => (EventModel::Appended, dir),
    }
}

/// A step at which the file system fails, and what it reports then.
pub struct Fault {
    pub step: BackupStep,
    pub cause: Seq<char>,
}

/// The step that carries out `action`, if it is one for the file system.
pub open spec fn step_of(action: ActionModel) -> Option<BackupStep> {
    match action {
        ActionModel::CreateSidecar => Some(BackupStep::CreateSidecar),
        ActionModel::HashSource => Some(BackupStep::HashSource),
        ActionModel::ReadIndex => Some(BackupStep::ReadIndex),
        ActionModel::CopySource { .. } => Some(BackupStep::CopySource),
        ActionModel::AppendIndex { .. } => Some(BackupStep::AppendIndex),
        ActionModel::Finish(_) => None,
    }
}

/// What a file system makes of `action` that fails at the step of `fault`, if
/// there is one, and at no other: a step that fails changes nothing.
pub open spec fn attempt(
    action: ActionModel,
    source: Seq<u8>,
    dir: Sidecar,
    fault: Option<Fault>,
) -> (EventModel, Sidecar) {
    match fault {
        Some(f) if step_of(action) == Some(f.step) => (EventModel::Failed(f.cause), dir),
        _ => perform(action, source, dir),
    }
}

/// Drives the engine from `state` and `action` on a file system that fails at
/// the step of `fault`, if there is one, for at most `fuel` actions: how the
/// backup ends, and the sidecar afterwards.
pub open spec fn drive(
    state: StateModel,
    action: ActionModel,
    source: Seq<u8>,
    dir: Sidecar,
    fault: Option<Fault>,
    fuel: nat,
) -> (Result<OutcomeModel, ErrorModel>, Sidecar)
    decreases fuel,
{
    match action {
        ActionModel::Finish(result) => (result, dir),
        _ => {
            if fuel == 0 {
                (Err(ErrorModel::OutOfTurn), dir)
            } else {
                let (event, after) = attempt(action, source, dir, fault);
                let (next_state, next_action) = step(state, event);
                drive(next_state, next_action, source, after, fault, (fuel - 1) as nat)
            }
        },
    }
}

/// The most actions a backup asks for before it ends.
pub open spec fn max_actions() -> nat {
    5
}

/// A whole backup of a file with content `source`, on a file system that does
/// not fail: how it ends, and the sidecar afterwards.
pub open spec fn ensure_backup(
    has_parent: bool,
    file_name: Option<Seq<char>>,
    source: Seq<u8>,
    dir: Sidecar,
) -> (Result<OutcomeModel, ErrorModel>, Sidecar) {
    let (state, action) = begin_model(has_parent, file_name);
    drive(state, action, source, dir, None, max_actions())
}

/// A whole backup of a file with content `source`, on a file system that
/// fails at the step of `fault`: how it ends, and the sidecar afterwards.
pub open spec fn failing_backup(
    has_parent: bool,
    file_name: Option<Seq<char>>,
    source: Seq<u8>,
    dir: Sidecar,
    fault: Fault,
) -> (Result<OutcomeModel, ErrorModel>, Sidecar) {
    let (state, action) = begin_model(has_parent, file_name);
    drive(state, action, source, dir, Some(fault), max_actions())
}

/// How often `line` occurs among `lines`.
pub open spec fn occurrences(lines: Seq<Seq<char>>, line: Seq<char>) -> nat
    decreases lines.len(),
{
    if lines.len() == 0 {
        0
    } else {
        occurrences(lines.drop_last(), line) + if lines.last() == line {
            1nat
        } else {
            0nat
        }
    }
}

/// A line that is not among `lines` occurs there zero times.
pub proof fn lemma_occurrences_of_missing(lines: Seq<Seq<char>>, line: Seq<char>)
    requires
        !lines.contains(line),
    ensures
        occurrences(lines, line) == 0,
    decreases lines.len(),
{
    if lines.len() > 0 {
        let front = lines.drop_last();
        assert forall|i: int| 0 <= i < front.len() implies front[i] != line by {}
        lemma_occurrences_of_missing(front, line);
    }
}

/// No backup has the name of the index file, so no copy is ever written over
/// the index.
pub proof fn lemma_backup_is_not_named_like_index(file_name: Option<Seq<char>>, hash: Seq<char>)
    requires
        is_hash_text(hash),
    ensures
        backup_name(file_name, hash) != INDEX_FILE@,
{
    reveal_strlit("index.txt");
    assert(backup_name(file_name, hash).len() >= 11);
}

/// A backup of a path without a parent directory ends with
/// `NoParentDirectory` and asks for nothing to be done: the sidecar is as it
/// was.
pub proof fn lemma_no_parent_touches_nothing(
    file_name: Option<Seq<char>>,
    source: Seq<u8>,
    dir: Sidecar,
)
    ensures
        begin_model(false, file_name).1 == ActionModel::Finish(
            Err(ErrorModel::NoParentDirectory),
        ),
        ensure_backup(false, file_name, source, dir) == (
            Err::<OutcomeModel, ErrorModel>(ErrorModel::NoParentDirectory),
            dir,
        ),
{
}

/// What a backup comes to. Where the index records the hash of the content,
/// the backup ends as `AlreadyBackedUp` and only makes sure of the sidecar
/// directory. Otherwise it ends as `Copied`: the sidecar directory exists, it
/// holds the content under the backup's name, and the index has gained the
/// hash as its last entry. No other file is touched either way.
pub proof fn lemma_backup_effect(file_name: Option<Seq<char>>, source: Seq<u8>, dir: Sidecar)
    ensures
        ({
            let hash = content_hash(source);
            let name = backup_name(file_name, hash);
            let end = ensure_backup(true, file_name, source, dir);
            if records(dir.index, hash) {
                &&& end.0 == Ok::<OutcomeModel, ErrorModel>(OutcomeModel::AlreadyBackedUp)
                &&& end.1 == Sidecar { present: true, ..dir }
            } else {
                &&& end.0 == Ok::<OutcomeModel, ErrorModel>(
                    OutcomeModel::Copied { backup_name: name },
                )
                &&& end.1 == Sidecar {
                    present: true,
                    index: Some(index_text(dir.index) + entry_text(hash)),
                    files: dir.files.insert(name, source),
                }
            }
        }),
{
    reveal_with_fuel(drive, 6);
}

/// What a backup comes to when a step fails. A backup that ends before the
/// step, because the index records the hash, ends as if nothing failed. Any
/// other ends with the step and the cause, and with what the steps before
/// have done: the sidecar directory once it is created, and the copy once it
/// is written. The index is as it was.
pub proof fn lemma_failed_backup_effect(
    file_name: Option<Seq<char>>,
    source: Seq<u8>,
    dir: Sidecar,
    fault: Fault,
)
    ensures
        ({
            let hash = content_hash(source);
            let name = backup_name(file_name, hash);
            let end = failing_backup(true, file_name, source, dir, fault);
            let failed = Err::<OutcomeModel, ErrorModel>(
                ErrorModel::Io { step: fault.step, cause: fault.cause },
            );
            match fault.step {
                BackupStep::CreateSidecar => end == (failed, dir),
                BackupStep::HashSource | BackupStep::ReadIndex => end == (
                    failed,
                    Sidecar { present: true, ..dir },
                ),
                BackupStep::CopySource => if records(dir.index, hash) {
                    end == ensure_backup(true, file_name, source, dir)
                } else {
                    end == (failed, Sidecar { present: true, ..dir })
                },
                BackupStep::AppendIndex => if records(dir.index, hash) {
                    end == ensure_backup(true, file_name, source, dir)
                } else {
                    end == (
                        failed,
                        Sidecar { present: true, files: dir.files.insert(name, source), ..dir },
                    )
                },
            }
        }),
{
    reveal_with_fuel(drive, 6);
}

/// The index never runs ahead of the copies: whether a backup succeeds or
/// fails at some step, if the index records the hash of the content
/// afterwards and did not before, then the sidecar holds the content under
/// the backup's name.
pub proof fn lemma_recorded_means_copied(
    file_name: Option<Seq<char>>,
    source: Seq<u8>,
    dir: Sidecar,
    fault: Option<Fault>,
)
    ensures
        ({
            let hash = content_hash(source);
            let name = backup_name(file_name, hash);
            let (state, action) = begin_model(true, file_name);
            let end = drive(state, action, source, dir, fault, max_actions());
            records(end.1.index, hash) && !records(dir.index, hash) ==> end.1.files.contains_pair(
                name,
                source,
            )
        }),
{
    match fault {
        Some(f) => {
            lemma_failed_backup_effect(file_name, source, dir, f);
        },
        None => {
            lemma_backup_effect(file_name, source, dir);
        },
    }
}

/// The first backup beside files that have no sidecar yet creates the sidecar
/// directory and the index, which then holds the hash of the content as its
/// one line, and the copy as the one backup file.
pub proof fn lemma_first_backup_creates_sidecar(file_name: Option<Seq<char>>, source: Seq<u8>)
    requires
        is_hash_text(content_hash(source)),
    ensures
        ({
            let hash = content_hash(source);
            let end = ensure_backup(true, file_name, source, absent());
            &&& end.0 is Ok
            &&& end.1.present
            &&& end.1.index == Some(entry_text(hash))
            &&& index_lines(end.1.index->0) == seq![hash]
            &&& end.1.files == Map::<Seq<char>, Seq<u8>>::empty().insert(
                backup_name(file_name, hash),
                source,
            )
        }),
{
    let hash = content_hash(source);
    lemma_backup_effect(file_name, source, absent());
    lemma_hash_text_is_plain(hash);
    lemma_lines_after_append(Seq::empty(), hash);
}

/// Backing up the same unchanged file twice is backing it up once: the second
/// backup finds the hash recorded and leaves the sidecar as the first left it.
/// Where the hash was not recorded before, the index then holds it on exactly
/// one line, after the lines it had, and the sidecar has gained exactly the
/// one copy.
///
/// This holds of an index in which every line is closed by a line feed, as
/// every index is that only backups have written.
pub proof fn lemma_backup_is_idempotent(
    file_name: Option<Seq<char>>,
    source: Seq<u8>,
    dir: Sidecar,
)
    requires
        is_hash_text(content_hash(source)),
        is_complete(index_text(dir.index)),
    ensures
        ({
            let hash = content_hash(source);
            let once = ensure_backup(true, file_name, source, dir);
            let twice = ensure_backup(true, file_name, source, once.1);
            &&& once.0 is Ok
            &&& twice.0 == Ok::<OutcomeModel, ErrorModel>(OutcomeModel::AlreadyBackedUp)
            &&& twice.1 == once.1
            &&& is_complete(index_text(once.1.index))
            &&& records(once.1.index, hash)
            &&& !records(dir.index, hash) ==> {
                &&& index_lines(index_text(once.1.index)) == index_lines(
                    index_text(dir.index),
                ).push(hash)
                &&& occurrences(index_lines(index_text(once.1.index)), hash) == 1
                &&& once.1.files == dir.files.insert(backup_name(file_name, hash), source)
            }
        }),
{
    let hash = content_hash(source);
    let once = ensure_backup(true, file_name, source, dir);
    lemma_backup_effect(file_name, source, dir);
    lemma_backup_effect(file_name, source, once.1);
    if !records(dir.index, hash) {
        let before = index_text(dir.index);
        lemma_hash_text_is_plain(hash);
        lemma_lines_after_append(before, hash);
        let lines = index_lines(before);
        let after = lines.push(hash);
        assert(after[after.len() - 1] == hash);
        assert(after.drop_last() =~= lines);
        assert(!lines.contains(hash));
        lemma_occurrences_of_missing(lines, hash);
    }
}

} // verus!
