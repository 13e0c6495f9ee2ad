//! The desktop shell's decisions: what closing a window does, what the tray
//! menu items do, and how a failed command is reported to the user
//! interface.
use vstd::prelude::*;
use crate::repository::{RepositoryError, RepositoryErrorView};
use crate::results::{ActionResult, ActionStatus, Recovery, RecoveryAction};
use crate::service::{service_message, ServiceError, ServiceErrorView};
use crate::text::str_eq;

verus! {

pub const MAIN_WINDOW_LABEL: &'static str = "main";

pub const TRAY_ID: &'static str = "keyforge-tray";

pub const TRAY_OPEN_ID: &'static str = "keyforge-open";

pub const TRAY_QUIT_ID: &'static str = "keyforge-quit";

#[derive(PartialEq, Eq, Structural, Clone, Copy, Debug)]
pub enum WindowCloseAction {
    HideToTray,
    AllowClose,
}

#[derive(PartialEq, Eq, Structural, Clone, Copy, Debug)]
pub enum TrayAction {
    Open,
    Quit,
}

/// Closing the main window hides it to the tray when the preference says
/// so; every other close goes ahead.
pub fn window_close_action(window_label: &str, close_to_tray: bool) -> (r: WindowCloseAction)
    ensures
        r == if window_label@ == MAIN_WINDOW_LABEL@ && close_to_tray {
            WindowCloseAction::HideToTray
        } else {
            WindowCloseAction::AllowClose
        },
{
    if str_eq(window_label, MAIN_WINDOW_LABEL) && close_to_tray {
        WindowCloseAction::HideToTray
    } else {
        WindowCloseAction::AllowClose
    }
}

/// Without a saved preference (the service is not up yet), closing hides to
/// the tray.
pub fn effective_close_to_tray(saved_preference: Option<bool>) -> (r: bool)
    ensures
        r == match saved_preference {
            Some(v) => v,
            None => true,
        },
{
    match saved_preference {
        Some(v) => v,
        None => true,
    }
}

/// The action of a tray menu item.
pub fn tray_action(menu_id: &str) -> (r: Option<TrayAction>)
    ensures
        r == if menu_id@ == TRAY_OPEN_ID@ {
            Some(TrayAction::Open)
        } else if menu_id@ == TRAY_QUIT_ID@ {
            Some(TrayAction::Quit)
        } else {
            None
        },
{
    if str_eq(menu_id, TRAY_OPEN_ID) {
        Some(TrayAction::Open)
    } else if str_eq(menu_id, TRAY_QUIT_ID) {
        Some(TrayAction::Quit)
    } else {
        None
    }
}

/// A failed command as the user interface receives it.
#[derive(Debug, Clone)]
pub struct CommandError {
    pub code: String,
    pub message: String,
    pub result: ActionResult,
}

/// The machine-readable code of a service error.
pub open spec fn error_code(e: ServiceErrorView) -> Seq<char> {
    match e {
        ServiceErrorView::Repository(r) => match r {
            RepositoryErrorView::StaleRevision { .. } => "stale_revision"@,
            RepositoryErrorView::Validation(_) => "validation_failed"@,
            RepositoryErrorView::VerificationFailed => "verification_failed"@,
            RepositoryErrorView::NoBackup => "no_backup"@,
            RepositoryErrorView::Io(_) => "io_error"@,
            RepositoryErrorView::Json(_) => "invalid_json"@,
        },
        _ => "startup_registration_failed"@,
    }
}

fn error_code_exec(e: &ServiceError) -> (r: &'static str)
    ensures
        r@ == error_code(e@),
{
    match e {
        ServiceError::Repository(r) => match r {
            RepositoryError::StaleRevision { .. } => "stale_revision",
            RepositoryError::Validation(_) => "validation_failed",
            RepositoryError::VerificationFailed => "verification_failed",
            RepositoryError::NoBackup => "no_backup",
            RepositoryError::Io(_) => "io_error",
            RepositoryError::Json(_) => "invalid_json",
        },
        _ => "startup_registration_failed",
    }
}

/// A failed command: its code, the error's message, and an error result
/// with the user's message that offers retry, restoring the backup and the
/// logs, with the error's message as the recovery message.
pub fn command_error(action_type: &str, user_message: &str, error: ServiceError) -> (r: CommandError)
    ensures
        r.code@ == error_code(error@),
        r.message@ == service_message(error@),
        r.result.action_id != 0,
        r.result.action_type@ == action_type@,
        r.result.status == ActionStatus::Error,
        r.result.message@ == user_message@,
        r.result.revision is None,
        r.result.details is None,
        r.result.recovery matches Some(rec) && !rec.attempted && rec.succeeded is None && (
        rec.message matches Some(m) && m@ == service_message(error@)) && rec.actions@ == seq![
            RecoveryAction::Retry,
            RecoveryAction::RestoreBackup,
            RecoveryAction::OpenLogs,
        ],
{
    let code = error_code_exec(&error);
    let message = error.message();
    let actions = vec![RecoveryAction::Retry, RecoveryAction::RestoreBackup, RecoveryAction::OpenLogs];
    assert(actions@ =~= seq![
        RecoveryAction::Retry,
        RecoveryAction::RestoreBackup,
        RecoveryAction::OpenLogs,
    ]);
    let result = ActionResult::error(
        action_type,
        user_message,
        Recovery { attempted: false, succeeded: None, message: Some(message.clone()), actions },
    );
    CommandError { code: code.to_owned(), message, result }
}

} // verus!
