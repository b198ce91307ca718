use pin_manager::backup::{
    advance, begin, BackupAction, BackupError, BackupEvent, BackupOutcome, BackupRequest,
    BackupState, BackupStep, INDEX_FILE, SIDECAR_DIR,
};
use pin_manager::digest::{hash_bytes, ContentHash, ContentHasher};
use std::collections::BTreeMap;

/// A parent directory held in memory: whether the sidecar exists, and the
/// files in it by name.
struct Parent {
    sidecar: bool,
    files: BTreeMap<String, Vec<u8>>,
    writes: usize,
    fail_at: Option<BackupStep>,
}

impl Parent {
    fn new() -> Parent {
        Parent { sidecar: false, files: BTreeMap::new(), writes: 0, fail_at: None }
    }

    fn failing_at(step: BackupStep) -> Parent {
        Parent { fail_at: Some(step), ..Parent::new() }
    }

    fn index(&self) -> Option<String> {
        self.files.get(INDEX_FILE).map(|bytes| String::from_utf8(bytes.clone()).unwrap())
    }

    fn backups(&self) -> Vec<String> {
        self.files.keys().filter(|name| name.as_str() != INDEX_FILE).cloned().collect()
    }

    fn fails(&self, step: BackupStep) -> Option<BackupEvent> {
        if self.fail_at == Some(step) {
            Some(BackupEvent::Failed(String::from("permission denied")))
        } else {
            None
        }
    }

    fn perform(&mut self, action: &BackupAction, source: &[u8]) -> BackupEvent {
        match action {
            BackupAction::CreateSidecar => {
                if let Some(failure) = self.fails(BackupStep::CreateSidecar) {
                    return failure;
                }
                if !self.sidecar {
                    self.sidecar = true;
                    self.writes += 1;
                }
                BackupEvent::SidecarReady
            }
            BackupAction::HashSource => {
                if let Some(failure) = self.fails(BackupStep::HashSource) {
                    return failure;
                }
                let mut hasher = ContentHasher::new();
                for chunk in source.chunks(8192) {
                    assert!(hasher.update(chunk));
                }
                BackupEvent::Hashed(hasher.finish())
            }
            BackupAction::ReadIndex => {
                if let Some(failure) = self.fails(BackupStep::ReadIndex) {
                    return failure;
                }
                BackupEvent::IndexRead(self.index())
            }
            BackupAction::CopySource { backup_name } => {
                if let Some(failure) = self.fails(BackupStep::CopySource) {
                    return failure;
                }
                self.files.insert(backup_name.clone(), source.to_vec());
                self.writes += 1;
                BackupEvent::Copied
            }
            BackupAction::AppendIndex { entry } => {
                if let Some(failure) = self.fails(BackupStep::AppendIndex) {
                    return failure;
                }
                self.files
                    .entry(String::from(INDEX_FILE))
                    .or_insert_with(Vec::new)
                    .extend_from_slice(entry.as_bytes());
                self.writes += 1;
                BackupEvent::Appended
            }
            BackupAction::Finish(_) => panic!("nothing to perform"),
        }
    }
}

fn request(file_name: &str) -> BackupRequest {
    BackupRequest { has_parent: true, file_name: Some(String::from(file_name)) }
}

fn ensure_backup(
    parent: &mut Parent,
    request: BackupRequest,
    source: &[u8],
) -> Result<BackupOutcome, BackupError> {
    let (mut state, mut action) = begin(request);
    for _ in 0..6 {
        if let BackupAction::Finish(result) = action {
            assert_eq!(state, BackupState::Done);
            return result;
        }
        let event = parent.perform(&action, source);
        let next = advance(state, event);
        state = next.0;
        action = next.1;
    }
    panic!("the backup did not end");
}

const ABC: &str = "ba7816bf8f01cfea414140de5dae2223b00361a396177a9cb410ff61f20015ad";

#[test]
fn layout_names() {
    assert_eq!(SIDECAR_DIR, ".safety_net");
    assert_eq!(INDEX_FILE, "index.txt");
}

#[test]
fn first_backup_creates_sidecar_index_and_copy() {
    let mut parent = Parent::new();
    let outcome = ensure_backup(&mut parent, request("photo.jpg"), b"abc");
    assert_eq!(
        outcome,
        Ok(BackupOutcome::Copied { backup_name: String::from("photo_ba7816bf.jpg") })
    );
    assert!(parent.sidecar);
    assert_eq!(parent.index(), Some(format!("{}\n", ABC)));
    assert_eq!(parent.backups(), vec![String::from("photo_ba7816bf.jpg")]);
    assert_eq!(parent.files["photo_ba7816bf.jpg"], b"abc".to_vec());
}

#[test]
fn second_backup_of_unchanged_file_writes_nothing() {
    let mut parent = Parent::new();
    ensure_backup(&mut parent, request("photo.jpg"), b"abc").unwrap();
    let writes = parent.writes;
    let outcome = ensure_backup(&mut parent, request("photo.jpg"), b"abc");
    assert_eq!(outcome, Ok(BackupOutcome::AlreadyBackedUp));
    assert_eq!(parent.writes, writes);
    assert_eq!(parent.backups().len(), 1);
    assert_eq!(parent.index().unwrap().lines().filter(|line| *line == ABC).count(), 1);
    assert_eq!(parent.index().unwrap().lines().count(), 1);
}

#[test]
fn changed_content_is_backed_up_again() {
    let mut parent = Parent::new();
    ensure_backup(&mut parent, request("photo.jpg"), b"abc").unwrap();
    let outcome = ensure_backup(&mut parent, request("photo.jpg"), b"hello world");
    assert_eq!(
        outcome,
        Ok(BackupOutcome::Copied { backup_name: String::from("photo_b94d27b9.jpg") })
    );
    assert_eq!(parent.backups().len(), 2);
    assert_eq!(
        parent.index().unwrap(),
        format!(
            "{}\n{}\n",
            ABC, "b94d27b9934d3e08a52e52d7da7dabfac484efe37a5380ee9088f7ace2efcde9"
        )
    );
}

#[test]
fn same_content_under_another_name_is_not_copied_again() {
    let mut parent = Parent::new();
    ensure_backup(&mut parent, request("photo.jpg"), b"abc").unwrap();
    let outcome = ensure_backup(&mut parent, request("copy of photo.png"), b"abc");
    assert_eq!(outcome, Ok(BackupOutcome::AlreadyBackedUp));
    assert_eq!(parent.backups(), vec![String::from("photo_ba7816bf.jpg")]);
}

#[test]
fn file_without_extension_is_backed_up_as_bak() {
    let mut parent = Parent::new();
    let outcome = ensure_backup(&mut parent, request("README"), b"abc");
    assert_eq!(
        outcome,
        Ok(BackupOutcome::Copied { backup_name: String::from("README_ba7816bf.bak") })
    );
    assert_eq!(parent.files["README_ba7816bf.bak"], b"abc".to_vec());
}

#[test]
fn path_without_file_name_is_backed_up_as_file() {
    let mut parent = Parent::new();
    let outcome =
        ensure_backup(&mut parent, BackupRequest { has_parent: true, file_name: None }, b"abc");
    assert_eq!(
        outcome,
        Ok(BackupOutcome::Copied { backup_name: String::from("file_ba7816bf.bak") })
    );
}

#[test]
fn no_parent_directory_touches_nothing() {
    let mut parent = Parent::new();
    let (state, action) = begin(BackupRequest { has_parent: false, file_name: None });
    assert_eq!(state, BackupState::Done);
    assert_eq!(action, BackupAction::Finish(Err(BackupError::NoParentDirectory)));
    let outcome = ensure_backup(
        &mut parent,
        BackupRequest { has_parent: false, file_name: Some(String::from("a.txt")) },
        b"abc",
    );
    assert_eq!(outcome, Err(BackupError::NoParentDirectory));
    assert_eq!(parent.writes, 0);
    assert!(!parent.sidecar);
}

#[test]
fn the_steps_come_in_order() {
    let (state, action) = begin(request("photo.jpg"));
    assert_eq!(action, BackupAction::CreateSidecar);
    let (state, action) = advance(state, BackupEvent::SidecarReady);
    assert_eq!(action, BackupAction::HashSource);
    let (state, action) = advance(state, BackupEvent::Hashed(hash_bytes(b"abc").unwrap()));
    assert_eq!(action, BackupAction::ReadIndex);
    let (state, action) = advance(state, BackupEvent::IndexRead(None));
    assert_eq!(action, BackupAction::CopySource { backup_name: String::from("photo_ba7816bf.jpg") });
    let (state, action) = advance(state, BackupEvent::Copied);
    assert_eq!(action, BackupAction::AppendIndex { entry: format!("{}\n", ABC) });
    let (state, action) = advance(state, BackupEvent::Appended);
    assert_eq!(
        action,
        BackupAction::Finish(Ok(BackupOutcome::Copied {
            backup_name: String::from("photo_ba7816bf.jpg")
        }))
    );
    assert_eq!(state, BackupState::Done);
}

#[test]
fn an_index_of_other_hashes_does_not_stop_the_copy() {
    let (state, _) = begin(request("photo.jpg"));
    let (state, _) = advance(state, BackupEvent::SidecarReady);
    let (state, _) = advance(state, BackupEvent::Hashed(hash_bytes(b"abc").unwrap()));
    let other = "b94d27b9934d3e08a52e52d7da7dabfac484efe37a5380ee9088f7ace2efcde9\n";
    let (_, action) = advance(state, BackupEvent::IndexRead(Some(String::from(other))));
    assert_eq!(action, BackupAction::CopySource { backup_name: String::from("photo_ba7816bf.jpg") });
}

#[test]
fn an_index_with_the_hash_ends_the_backup() {
    let (state, _) = begin(request("photo.jpg"));
    let (state, _) = advance(state, BackupEvent::SidecarReady);
    let (state, _) = advance(state, BackupEvent::Hashed(ContentHash::parse(ABC).unwrap()));
    let index = format!("{}\n{}\n", "0".repeat(64), ABC);
    let (state, action) = advance(state, BackupEvent::IndexRead(Some(index)));
    assert_eq!(action, BackupAction::Finish(Ok(BackupOutcome::AlreadyBackedUp)));
    assert_eq!(state, BackupState::Done);
}

#[test]
fn a_failure_ends_the_backup_with_its_step_and_cause() {
    for step in [
        BackupStep::CreateSidecar,
        BackupStep::HashSource,
        BackupStep::ReadIndex,
        BackupStep::CopySource,
        BackupStep::AppendIndex,
    ] {
        let mut parent = Parent::failing_at(step);
        let outcome = ensure_backup(&mut parent, request("photo.jpg"), b"abc");
        assert_eq!(
            outcome,
            Err(BackupError::Io { step, cause: String::from("permission denied") })
        );
    }
}

#[test]
fn a_failed_sidecar_leaves_nothing_behind() {
    let mut parent = Parent::failing_at(BackupStep::CreateSidecar);
    assert!(ensure_backup(&mut parent, request("photo.jpg"), b"abc").is_err());
    assert_eq!(parent.writes, 0);
    assert!(parent.files.is_empty());
}

#[test]
fn a_failed_copy_records_nothing() {
    let mut parent = Parent::failing_at(BackupStep::CopySource);
    assert!(ensure_backup(&mut parent, request("photo.jpg"), b"abc").is_err());
    assert_eq!(parent.index(), None);
    assert!(parent.backups().is_empty());
}

#[test]
fn events_out_of_turn_end_the_backup() {
    let (state, _) = begin(request("photo.jpg"));
    let (state, action) = advance(state, BackupEvent::Copied);
    assert_eq!(action, BackupAction::Finish(Err(BackupError::OutOfTurn)));
    assert_eq!(state, BackupState::Done);

    let (state, action) = advance(BackupState::Done, BackupEvent::SidecarReady);
    assert_eq!(action, BackupAction::Finish(Err(BackupError::OutOfTurn)));
    assert_eq!(state, BackupState::Done);

    let (_, action) = advance(BackupState::Done, BackupEvent::Failed(String::from("late")));
    assert_eq!(action, BackupAction::Finish(Err(BackupError::OutOfTurn)));

    let (state, _) = begin(request("photo.jpg"));
    let (state, _) = advance(state, BackupEvent::SidecarReady);
    let (_, action) = advance(state, BackupEvent::IndexRead(None));
    assert_eq!(action, BackupAction::Finish(Err(BackupError::OutOfTurn)));
}

#[test]
fn a_failed_index_entry_leaves_the_copy_unrecorded() {
    let mut parent = Parent::failing_at(BackupStep::AppendIndex);
    assert!(ensure_backup(&mut parent, request("photo.jpg"), b"abc").is_err());
    assert_eq!(parent.index(), None);
    assert_eq!(parent.backups(), vec![String::from("photo_ba7816bf.jpg")]);
    parent.fail_at = None;
    let outcome = ensure_backup(&mut parent, request("photo.jpg"), b"abc");
    assert_eq!(
        outcome,
        Ok(BackupOutcome::Copied { backup_name: String::from("photo_ba7816bf.jpg") })
    );
    assert_eq!(parent.index(), Some(format!("{}\n", ABC)));
    assert_eq!(parent.backups().len(), 1);
}

#[test]
fn a_failure_after_a_recorded_hash_is_never_met() {
    let mut parent = Parent::new();
    ensure_backup(&mut parent, request("photo.jpg"), b"abc").unwrap();
    parent.fail_at = Some(BackupStep::CopySource);
    assert_eq!(
        ensure_backup(&mut parent, request("photo.jpg"), b"abc"),
        Ok(BackupOutcome::AlreadyBackedUp)
    );
}
