//! The settings file: what a save writes (or why it refuses), and which copy
//! a load uses when the primary file and its backup disagree.
use vstd::prelude::*;
use crate::digits::{decimal, push_decimal};
use crate::model::{Settings, Timestamp};
use crate::validation::{
    lemma_validation_reads_content, validate, validation_message, validation_result,
    ValidationError,
};

verus! {

#[derive(Debug)]
pub enum RepositoryError {
    /// The file could not be read or written (the operating system's message).
    Io(String),
    /// The file is not a settings document (the parser's message).
    Json(String),
    Validation(ValidationError),
    /// Another writer saved first.
    StaleRevision { expected: u64, current: u64 },
    /// What was written did not read back as what was saved.
    VerificationFailed,
    NoBackup,
}

pub enum RepositoryErrorView {
    Io(Seq<char>),
    Json(Seq<char>),
    Validation(ValidationError),
    StaleRevision { expected: u64, current: u64 },
    VerificationFailed,
    NoBackup,
}

impl View for RepositoryError {
    type V = RepositoryErrorView;

    open spec fn view(&self) -> RepositoryErrorView {
        match self {
            RepositoryError::Io(m) => RepositoryErrorView::Io(m@),
            RepositoryError::Json(m) => RepositoryErrorView::Json(m@),
            RepositoryError::Validation(e) => RepositoryErrorView::Validation(*e),
            RepositoryError::StaleRevision { expected, current } =>
                RepositoryErrorView::StaleRevision { expected: *expected, current: *current },
            RepositoryError::VerificationFailed => RepositoryErrorView::VerificationFailed,
            RepositoryError::NoBackup => RepositoryErrorView::NoBackup,
        }
    }
}

/// The message shown for a repository error.
pub open spec fn repository_message(e: RepositoryErrorView) -> Seq<char> {
    match e {
        RepositoryErrorView::Io(m) => m,
        RepositoryErrorView::Json(m) => m,
        RepositoryErrorView::Validation(v) => validation_message(v),
        RepositoryErrorView::StaleRevision { expected, current } => "stale revision: expected "@
            + decimal(expected as nat) + ", current "@ + decimal(current as nat),
        RepositoryErrorView::VerificationFailed => "saved settings verification failed"@,
        RepositoryErrorView::NoBackup => "no settings backup exists"@,
    }
}

impl RepositoryError {
    pub fn message(&self) -> (r: String)
        ensures
            r@ == repository_message(self@),
    {
        match self {
            RepositoryError::Io(m) => m.clone(),
            RepositoryError::Json(m) => m.clone(),
            RepositoryError::Validation(v) => v.message(),
            RepositoryError::StaleRevision { expected, current } => {
                let mut s = "stale revision: expected ".to_owned();
                push_decimal(&mut s, *expected);
                s.append(", current ");
                push_decimal(&mut s, *current);
                s
            },
            RepositoryError::VerificationFailed => "saved settings verification failed".to_owned(),
            RepositoryError::NoBackup => "no settings backup exists".to_owned(),
        }
    }

    pub fn duplicate(&self) -> (r: RepositoryError)
        ensures
            r@ == self@,
    {
        match self {
            RepositoryError::Io(m) => RepositoryError::Io(m.clone()),
            RepositoryError::Json(m) => RepositoryError::Json(m.clone()),
            RepositoryError::Validation(v) => RepositoryError::Validation(*v),
            RepositoryError::StaleRevision { expected, current } => RepositoryError::StaleRevision {
                expected: *expected,
                current: *current,
            },
            RepositoryError::VerificationFailed => RepositoryError::VerificationFailed,
            RepositoryError::NoBackup => RepositoryError::NoBackup,
        }
    }
}

/// The document a save writes: the draft with the next revision and the
/// time of the save.
pub open spec fn saved_document(draft: Settings, current: u64, now: Timestamp) -> Settings {
    Settings { revision: (current + 1) as u64, updated_at: now, ..draft }
}

/// Prepares a save of `draft` over a file at revision `current` (zero when
/// there is no file yet), made by a writer that last saw
/// `expected_revision`: an invalid draft is refused, then a writer that did
/// not see the latest revision; otherwise the document to write is the
/// draft at the next revision, stamped with `now`.
pub fn prepare_save(draft: Settings, current: u64, expected_revision: u64, now: Timestamp) -> (r: Result<
    Settings,
    RepositoryError,
>)
    requires
        validation_result(draft) is Ok && current == expected_revision ==> current < u64::MAX,
    ensures
        validation_result(draft) matches Err(e) ==> (r matches Err(f) && f@
            == RepositoryErrorView::Validation(e)),
        validation_result(draft) is Ok && current != expected_revision ==> (r matches Err(f) && f@
            == RepositoryErrorView::StaleRevision { expected: expected_revision, current }),
        validation_result(draft) is Ok && current == expected_revision ==> r == Ok::<
            Settings,
            RepositoryError,
        >(saved_document(draft, current, now)),
{
    match validate(&draft) {
        Err(e) => return Err(RepositoryError::Validation(e)),
        Ok(()) => {},
    }
    if current != expected_revision {
        return Err(RepositoryError::StaleRevision { expected: expected_revision, current });
    }
    let ghost before = draft;
    let mut draft = draft;
    draft.revision = current + 1;
    draft.updated_at = now;
    proof {
        lemma_validation_reads_content(before, draft);
    }
    match validate(&draft) {
        Err(e) => return Err(RepositoryError::Validation(e)),
        Ok(()) => {},
    }
    Ok(draft)
}

/// How reading one copy of the settings file went.
pub enum ReadOutcome {
    /// The file is not there.
    Missing,
    /// The file was read, parsed and validated.
    Loaded(Settings),
    /// The file is there but could not be used.
    Failed(RepositoryError),
}

/// Which copy a load uses.
pub enum LoadDecision {
    /// No settings file yet: start from the defaults.
    UseDefaults,
    /// The primary file is good.
    UsePrimary(Settings),
    /// The primary file is unusable and the backup is good: use the backup
    /// and copy it over the primary file.
    RecoverFromBackup(Settings),
    /// Nothing usable: report the primary file's error.
    Fail(RepositoryError),
}

/// Chooses between the primary file and its backup when loading. The backup
/// is only consulted when the primary file exists and is unusable; if the
/// backup is unusable too, the primary file's error is reported.
pub fn decide_load(primary: ReadOutcome, backup: ReadOutcome) -> (r: LoadDecision)
    ensures
        primary is Missing ==> r is UseDefaults,
        primary matches ReadOutcome::Loaded(s) ==> r == LoadDecision::UsePrimary(s),
        primary matches ReadOutcome::Failed(e) ==> match backup {
            ReadOutcome::Loaded(b) => r == LoadDecision::RecoverFromBackup(b),
            _ => (r matches LoadDecision::Fail(f) && f@ == e@),
        },
{
    match primary {
        ReadOutcome::Missing => LoadDecision::UseDefaults,
        ReadOutcome::Loaded(s) => LoadDecision::UsePrimary(s),
        ReadOutcome::Failed(e) => match backup {
            ReadOutcome::Loaded(b) => LoadDecision::RecoverFromBackup(b),
            _ => LoadDecision::Fail(e),
        },
    }
}

/// A backup to restore is saved at the revision the writer expects, so that
/// the save that follows checks the writer against the current file.
pub fn prepare_restore(backup: Settings, expected_revision: u64) -> (r: Settings)
    ensures
        r == (Settings { revision: expected_revision, ..backup }),
{
    let mut backup = backup;
    backup.revision = expected_revision;
    backup
}

} // verus!
