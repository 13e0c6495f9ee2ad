//! The outcome of a user action as the activity feed shows it, and the
//! bounded feed itself, newest first.
use vstd::prelude::*;
use crate::model::{new_id, now_utc, Timestamp};

verus! {

/// The number of results the activity feed keeps.
pub const MAX_ACTIVITY: usize = 200;

#[derive(PartialEq, Eq, Structural, Clone, Copy, Debug)]
pub enum ActionStatus {
    Success,
    Warning,
    Error,
}

#[derive(PartialEq, Eq, Structural, Clone, Copy, Debug)]
pub enum RecoveryAction {
    Retry,
    RestoreBackup,
    OpenLogs,
}

/// How the user can recover from a failed action.
#[derive(Debug, Clone, PartialEq, Eq)]
pub struct Recovery {
    pub attempted: bool,
    pub succeeded: Option<bool>,
    pub message: Option<String>,
    pub actions: Vec<RecoveryAction>,
}

/// Structured details of a result; each field that is set becomes one key
/// of the details object (`stage`, `settingsPath`, `launchAtLogin`,
/// `startupRegistrationChanged`, `path`).
#[derive(Debug, Clone, PartialEq, Eq)]
pub struct ResultDetails {
    pub stage: Option<String>,
    pub settings_path: Option<String>,
    pub launch_at_login: Option<bool>,
    pub startup_registration_changed: Option<bool>,
    pub path: Option<String>,
}

/// The outcome of one user action.
#[derive(Debug, Clone, PartialEq, Eq)]
pub struct ActionResult {
    pub action_id: u128,
    pub action_type: String,
    pub status: ActionStatus,
    pub message: String,
    pub revision: Option<u64>,
    pub timestamp: Timestamp,
    pub recovery: Option<Recovery>,
    pub details: Option<ResultDetails>,
}

impl ActionResult {
    /// A successful action, with a fresh identifier and the current time.
    pub fn success(action_type: &str, message: &str, revision: Option<u64>) -> (r: ActionResult)
        ensures
            r.action_id != 0,
            r.action_type@ == action_type@,
            r.status == ActionStatus::Success,
            r.message@ == message@,
            r.revision == revision,
            r.recovery is None,
            r.details is None,
    {
        ActionResult {
            action_id: new_id(),
            action_type: action_type.to_owned(),
            status: ActionStatus::Success,
            message: message.to_owned(),
            revision,
            timestamp: now_utc(),
            recovery: None,
            details: None,
        }
    }

    /// A failed action with the ways to recover, a fresh identifier and the
    /// current time.
    pub fn error(action_type: &str, message: &str, recovery: Recovery) -> (r: ActionResult)
        ensures
            r.action_id != 0,
            r.action_type@ == action_type@,
            r.status == ActionStatus::Error,
            r.message@ == message@,
            r.revision is None,
            r.recovery == Some(recovery),
            r.details is None,
    {
        ActionResult {
            action_id: new_id(),
            action_type: action_type.to_owned(),
            status: ActionStatus::Error,
            message: message.to_owned(),
            revision: None,
            timestamp: now_utc(),
            recovery: Some(recovery),
            details: None,
        }
    }
}

/// The feed after a new result: the result first, then the older ones, at
/// most `MAX_ACTIVITY` in all.
pub open spec fn pushed(feed: Seq<ActionResult>, result: ActionResult) -> Seq<ActionResult> {
    let all = seq![result] + feed;
    if all.len() > MAX_ACTIVITY {
        all.subrange(0, MAX_ACTIVITY as int)
    } else {
        all
    }
}

/// The first entry at or after `i` with the given identifier.
pub open spec fn index_of_id(feed: Seq<ActionResult>, id: u128, i: int) -> Option<int>
    decreases feed.len() - i,
{
    if i < 0 || i >= feed.len() {
        None
    } else if feed[i].action_id == id {
        Some(i)
    } else {
        index_of_id(feed, id, i + 1)
    }
}

proof fn lemma_index_of_id_bounds(feed: Seq<ActionResult>, id: u128, i: int)
    requires
        0 <= i,
    ensures
        index_of_id(feed, id, i) matches Some(j) ==> i <= j < feed.len() && feed[j].action_id == id,
    decreases feed.len() - i,
{
    if i < feed.len() && feed[i].action_id != id {
        lemma_index_of_id_bounds(feed, id, i + 1);
    }
}

/// The feed after an updated result: it takes the place of the entry with
/// its identifier, or is pushed if there is none.
pub open spec fn replaced(feed: Seq<ActionResult>, result: ActionResult) -> Seq<ActionResult> {
    match index_of_id(feed, result.action_id, 0) {
        Some(i) => feed.update(i, result),
        None => pushed(feed, result),
    }
}

/// The recent results, newest first.
pub struct ActivityLog {
    entries: Vec<ActionResult>,
}

impl View for ActivityLog {
    type V = Seq<ActionResult>;

    closed spec fn view(&self) -> Seq<ActionResult> {
        self.entries@
    }
}

impl ActivityLog {
    #[verifier::type_invariant]
    closed spec fn bounded(self) -> bool {
        self.entries@.len() <= MAX_ACTIVITY
    }

    pub fn new() -> (r: ActivityLog)
        ensures
            r@.len() == 0,
    {
        ActivityLog { entries: Vec::new() }
    }

    pub fn len(&self) -> (r: usize)
        ensures
            r == self@.len(),
            r <= MAX_ACTIVITY,
    {
        proof {
            use_type_invariant(self);
        }
        self.entries.len()
    }

    /// The results, newest first.
    pub fn entries(&self) -> (r: &Vec<ActionResult>)
        ensures
            r@ == self@,
    {
        &self.entries
    }

    /// Adds a result in front, dropping the oldest past `MAX_ACTIVITY`.
    pub fn push(&mut self, result: ActionResult)
        ensures
            final(self)@ == pushed(old(self)@, result),
    {
        proof {
            use_type_invariant(&*self);
        }
        let mut entries: Vec<ActionResult> = Vec::new();
        std::mem::swap(&mut entries, &mut self.entries);
        let ghost before = entries@;
        entries.insert(0, result);
        if entries.len() > MAX_ACTIVITY {
            entries.truncate(MAX_ACTIVITY);
        }
        assert(entries@ =~= pushed(before, result));
        self.entries = entries;
    }

    /// Puts an updated result in the place of the one with its identifier,
    /// or adds it in front if there is none.
    pub fn replace(&mut self, result: ActionResult)
        ensures
            final(self)@ == replaced(old(self)@, result),
    {
        proof {
            use_type_invariant(&*self);
            lemma_index_of_id_bounds(self@, result.action_id, 0);
        }
        match find_result(&self.entries, result.action_id) {
            Some(i) => {
                let mut entries: Vec<ActionResult> = Vec::new();
                std::mem::swap(&mut entries, &mut self.entries);
                let ghost before = entries@;
                entries.set(i, result);
                assert(entries@ =~= before.update(i as int, result));
                self.entries = entries;
            },
            None => self.push(result),
        }
    }
}

fn find_result(entries: &Vec<ActionResult>, id: u128) -> (r: Option<usize>)
    ensures
        match r {
            Some(i) => index_of_id(entries@, id, 0) == Some(i as int),
            None => index_of_id(entries@, id, 0) is None,
        },
{
    let n = entries.len();
    let mut i: usize = 0;
    while i < n
        invariant
            n == entries@.len(),
            i <= n,
            index_of_id(entries@, id, 0) == index_of_id(entries@, id, i as int),
        decreases n - i,
    {
        if entries[i].action_id == id {
            return Some(i);
        }
        i = i + 1;
    }
    None
}

} // verus!
