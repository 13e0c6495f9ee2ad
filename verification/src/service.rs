//! The application service's decisions: the rules it applies, the state it
//! reports, how a failed save is reported, and the results that each user
//! action records in the activity feed.
use vstd::prelude::*;
use crate::engine::{
    first_profile_error, runtime_result, CompileError, CompiledRules, CompiledRulesView,
    CompileErrorView, compile_error_message,
};
use crate::model::Settings;
use crate::pnp::opt_text;
use crate::devices::KeyboardDeviceInfo;
use crate::repository::{repository_message, RepositoryError, RepositoryErrorView};
use crate::results::{ActionResult, ActionStatus, Recovery, RecoveryAction, ResultDetails};
use crate::startup::{
    launch_error_message, LaunchAtLoginError, LaunchAtLoginErrorView, LaunchAtLoginRegistration,
};

verus! {

#[derive(PartialEq, Eq, Structural, Clone, Copy, Debug)]
pub enum EngineState {
    Running,
    Paused,
    Error,
}

/// What the user interface shows of the input engine.
#[derive(Debug, Clone)]
pub struct RuntimeState {
    pub engine_state: EngineState,
    pub active_profile_count: usize,
    pub hook_installed: bool,
    pub capabilities: Vec<String>,
}

/// The engine is in error without an installed hook, else paused or running.
pub open spec fn engine_state_of(installed: bool, paused: bool) -> EngineState {
    if !installed {
        EngineState::Error
    } else if paused {
        EngineState::Paused
    } else {
        EngineState::Running
    }
}

/// The features this build offers.
pub open spec fn capability_names() -> Seq<Seq<char>> {
    seq![
        "keyboard_remap"@,
        "mouse_remap"@,
        "atomic_settings"@,
        "backup_restore"@,
        "activity_feed"@,
        "device_inventory"@,
        "connected_profile_activation"@,
    ]
}

/// The state to report, from whether the hook is installed and paused and
/// how many profiles are active.
pub fn runtime_state(installed: bool, paused: bool, active_profile_count: usize) -> (r: RuntimeState)
    ensures
        r.engine_state == engine_state_of(installed, paused),
        r.active_profile_count == active_profile_count,
        r.hook_installed == installed,
        crate::keys::texts(r.capabilities@) == capability_names(),
{
    let engine_state = if !installed {
        EngineState::Error
    } else if paused {
        EngineState::Paused
    } else {
        EngineState::Running
    };
    let capabilities = vec![
        "keyboard_remap".to_owned(),
        "mouse_remap".to_owned(),
        "atomic_settings".to_owned(),
        "backup_restore".to_owned(),
        "activity_feed".to_owned(),
        "device_inventory".to_owned(),
        "connected_profile_activation".to_owned(),
    ];
    assert(crate::keys::texts(capabilities@) =~= capability_names());
    RuntimeState { engine_state, active_profile_count, hook_installed: installed, capabilities }
}

/// The rules the hook runs while the given keyboards are connected, and
/// the number of profiles that are on.
pub fn compile_runtime_rules(settings: &Settings, connected_keyboards: &[KeyboardDeviceInfo]) -> (r:
    Result<(CompiledRules, usize), CompileError>)
    ensures
        match r {
            Ok((c, n)) => runtime_result(*settings, connected_keyboards@) == Ok::<
                (CompiledRulesView, nat),
                CompileErrorView,
            >((c@, n as nat)),
            Err(e) => runtime_result(*settings, connected_keyboards@) == Err::<
                (CompiledRulesView, nat),
                CompileErrorView,
            >(e@),
        },
{
    CompiledRules::compile_runtime(settings, connected_keyboards)
}

/// Every active profile compiles on its own; otherwise the first error.
pub fn validate_runtime_profiles(settings: &Settings) -> (r: Result<(), CompileError>)
    ensures
        match r {
            Ok(()) => first_profile_error(settings.profiles@, 0) is None,
            Err(e) => first_profile_error(settings.profiles@, 0) == Some(e@),
        },
{
    CompiledRules::check_runtime_profiles(settings)
}

/// A compile error, reported by the repository as an input error with the
/// compile error's message.
pub fn compile_error_to_repository(error: CompileError) -> (r: RepositoryError)
    ensures
        r@ == RepositoryErrorView::Io(compile_error_message(error@)),
{
    RepositoryError::Io(error.message())
}

/// Why saving through the service failed.
#[derive(Debug)]
pub enum ServiceError {
    Repository(RepositoryError),
    /// The startup registration could not be changed; nothing was saved.
    Startup(LaunchAtLoginError),
    /// The save failed after the registration was changed, and putting the
    /// registration back failed too.
    StartupRollback { original: RepositoryError, rollback: LaunchAtLoginError },
}

pub enum ServiceErrorView {
    Repository(RepositoryErrorView),
    Startup(LaunchAtLoginErrorView),
    StartupRollback { original: RepositoryErrorView, rollback: LaunchAtLoginErrorView },
}

impl View for ServiceError {
    type V = ServiceErrorView;

    open spec fn view(&self) -> ServiceErrorView {
        match self {
            ServiceError::Repository(e) => ServiceErrorView::Repository(e@),
            ServiceError::Startup(e) => ServiceErrorView::Startup(e@),
            ServiceError::StartupRollback { original, rollback } =>
                ServiceErrorView::StartupRollback { original: original@, rollback: rollback@ },
        }
    }
}

/// The message shown for a service error.
pub open spec fn service_message(e: ServiceErrorView) -> Seq<char> {
    match e {
        ServiceErrorView::Repository(r) => repository_message(r),
        ServiceErrorView::Startup(s) => "Windows startup registration could not be updated: "@
            + launch_error_message(s),
        ServiceErrorView::StartupRollback { original, rollback } =>
            "settings were not saved and the previous Windows startup registration could not be restored: "@
            + repository_message(original) + "; rollback: "@ + launch_error_message(rollback),
    }
}

impl ServiceError {
    pub fn message(&self) -> (r: String)
        ensures
            r@ == service_message(self@),
    {
        match self {
            ServiceError::Repository(e) => e.message(),
            ServiceError::Startup(e) => {
                let mut s = "Windows startup registration could not be updated: ".to_owned();
                s.append(e.message().as_str());
                s
            },
            ServiceError::StartupRollback { original, rollback } => {
                let mut s =
                    "settings were not saved and the previous Windows startup registration could not be restored: ".to_owned();
                s.append(original.message().as_str());
                s.append("; rollback: ");
                s.append(rollback.message().as_str());
                s
            },
        }
    }
}

/// Where a save through the service stands when it changes the startup
/// registration with the settings: the registration is read first, then
/// changed, then the settings are saved; a save that fails after the
/// registration was changed puts the snapshot back.
pub enum SaveStage {
    /// Nothing done yet.
    Start,
    /// The registration is being read; `enable` is the value to set.
    Snapshotting { enable: bool },
    /// The registration is being changed; the snapshot undoes it.
    Registering { snapshot: LaunchAtLoginRegistration },
    /// The settings are being saved, with the snapshot to put back if the
    /// registration was changed.
    Saving { snapshot: Option<LaunchAtLoginRegistration> },
    /// The save failed and the snapshot is being put back.
    RollingBack { original: RepositoryError },
    /// The operation is over.
    Finished,
}

/// What the service learned from the last thing it did.
pub enum SaveEvent {
    /// The save starts; `startup_changed` says whether it turns launch at
    /// sign-in on or off, and `enable` is the new value.
    Begin { startup_changed: bool, enable: bool },
    Snapshot(Result<LaunchAtLoginRegistration, LaunchAtLoginError>),
    Registered(Result<(), LaunchAtLoginError>),
    Saved(Result<(), RepositoryError>),
    Restored(Result<(), LaunchAtLoginError>),
}

/// What the service does next.
pub enum SaveAction {
    TakeSnapshot,
    SetLaunchAtLogin(bool),
    Save,
    Restore(LaunchAtLoginRegistration),
    Succeed,
    Fail(ServiceError),
    /// The event does not belong to this stage: nothing to do.
    Ignore,
}

/// One step of the save: the next stage and action for an event.
pub open spec fn save_step(stage: SaveStage, event: SaveEvent) -> (SaveStage, SaveAction) {
    match (stage, event) {
        (SaveStage::Start, SaveEvent::Begin { startup_changed, enable }) => if startup_changed {
            (SaveStage::Snapshotting { enable }, SaveAction::TakeSnapshot)
        } else {
            (SaveStage::Saving { snapshot: None }, SaveAction::Save)
        },
        (SaveStage::Snapshotting { enable }, SaveEvent::Snapshot(r)) => match r {
            Ok(snapshot) => (SaveStage::Registering { snapshot }, SaveAction::SetLaunchAtLogin(enable)),
            Err(e) => (SaveStage::Finished, SaveAction::Fail(ServiceError::Startup(e))),
        },
        (SaveStage::Registering { snapshot }, SaveEvent::Registered(r)) => match r {
            Ok(()) => (SaveStage::Saving { snapshot: Some(snapshot) }, SaveAction::Save),
            Err(e) => (SaveStage::Finished, SaveAction::Fail(ServiceError::Startup(e))),
        },
        (SaveStage::Saving { snapshot }, SaveEvent::Saved(r)) => match r {
            Ok(()) => (SaveStage::Finished, SaveAction::Succeed),
            Err(e) => match snapshot {
                Some(s) => (SaveStage::RollingBack { original: e }, SaveAction::Restore(s)),
                None => (SaveStage::Finished, SaveAction::Fail(ServiceError::Repository(e))),
            },
        },
        (SaveStage::RollingBack { original }, SaveEvent::Restored(r)) => match r {
            Ok(()) => (SaveStage::Finished, SaveAction::Fail(ServiceError::Repository(original))),
            Err(e) => (
                SaveStage::Finished,
                SaveAction::Fail(ServiceError::StartupRollback { original, rollback: e }),
            ),
        },
        (stage, _) => (stage, SaveAction::Ignore),
    }
}

/// Decides the next step of a save; see `save_step`.
pub fn next_save_step(stage: SaveStage, event: SaveEvent) -> (r: (SaveStage, SaveAction))
    ensures
        r == save_step(stage, event),
{
    match (stage, event) {
        (SaveStage::Start, SaveEvent::Begin { startup_changed, enable }) => if startup_changed {
            (SaveStage::Snapshotting { enable }, SaveAction::TakeSnapshot)
        } else {
            (SaveStage::Saving { snapshot: None }, SaveAction::Save)
        },
        (SaveStage::Snapshotting { enable }, SaveEvent::Snapshot(r)) => match r {
            Ok(snapshot) => (SaveStage::Registering { snapshot }, SaveAction::SetLaunchAtLogin(enable)),
            Err(e) => (SaveStage::Finished, SaveAction::Fail(ServiceError::Startup(e))),
        },
        (SaveStage::Registering { snapshot }, SaveEvent::Registered(r)) => match r {
            Ok(()) => (SaveStage::Saving { snapshot: Some(snapshot) }, SaveAction::Save),
            Err(e) => (SaveStage::Finished, SaveAction::Fail(ServiceError::Startup(e))),
        },
        (SaveStage::Saving { snapshot }, SaveEvent::Saved(r)) => match r {
            Ok(()) => (SaveStage::Finished, SaveAction::Succeed),
            Err(e) => match snapshot {
                Some(s) => (SaveStage::RollingBack { original: e }, SaveAction::Restore(s)),
                None => (SaveStage::Finished, SaveAction::Fail(ServiceError::Repository(e))),
            },
        },
        (SaveStage::RollingBack { original }, SaveEvent::Restored(r)) => match r {
            Ok(()) => (SaveStage::Finished, SaveAction::Fail(ServiceError::Repository(original))),
            Err(e) => (
                SaveStage::Finished,
                SaveAction::Fail(ServiceError::StartupRollback { original, rollback: e }),
            ),
        },
        (stage, _) => (stage, SaveAction::Ignore),
    }
}

/// A save changes the startup registration when it turns launch at sign-in
/// on or off.
pub fn startup_changed(draft: &Settings, current: &Settings) -> (r: bool)
    ensures
        r == (draft.preferences.launch_at_login != current.preferences.launch_at_login),
{
    draft.preferences.launch_at_login != current.preferences.launch_at_login
}

/// The details of a verified save: `stage` is `verified`, with the path of
/// the settings file.
pub open spec fn verified_details(d: ResultDetails, settings_path: Seq<char>) -> bool {
    &&& opt_text(d.stage) == Some("verified"@)
    &&& opt_text(d.settings_path) == Some(settings_path)
    &&& d.launch_at_login is None
    &&& d.startup_registration_changed is None
    &&& d.path is None
}

fn verified(settings_path: &str) -> (r: ResultDetails)
    ensures
        verified_details(r, settings_path@),
{
    ResultDetails {
        stage: Some("verified".to_owned()),
        settings_path: Some(settings_path.to_owned()),
        launch_at_login: None,
        startup_registration_changed: None,
        path: None,
    }
}

/// The result a save records: success when the hook took the new rules, a
/// warning with the hook's error otherwise; either way with the saved
/// revision and the details of a verified save.
pub fn save_result(hook_applied: bool, revision: u64, hook_error: Option<String>, settings_path: &str) -> (r:
    ActionResult)
    ensures
        r.action_id != 0,
        r.action_type@ == "save_settings"@,
        r.revision == Some(revision),
        r.details matches Some(d) && verified_details(d, settings_path@),
        hook_applied ==> r.status == ActionStatus::Success && r.message@ == "프로필을 저장하고 적용했습니다"@
            && r.recovery is None,
        !hook_applied ==> r.status == ActionStatus::Warning && r.message@
            == "설정은 저장했지만 입력 엔진에 적용하지 못했습니다"@ && (r.recovery matches Some(rec)
            && !rec.attempted && rec.succeeded is None && rec.message == hook_error && rec.actions@
            == seq![RecoveryAction::Retry, RecoveryAction::OpenLogs]),
{
    let mut result = if hook_applied {
        ActionResult::success("save_settings", "프로필을 저장하고 적용했습니다", Some(revision))
    } else {
        let actions = vec![RecoveryAction::Retry, RecoveryAction::OpenLogs];
        assert(actions@ =~= seq![RecoveryAction::Retry, RecoveryAction::OpenLogs]);
        let mut r = ActionResult::error(
            "save_settings",
            "설정은 저장했지만 입력 엔진에 적용하지 못했습니다",
            Recovery { attempted: false, succeeded: None, message: hook_error, actions },
        );
        r.status = ActionStatus::Warning;
        r.revision = Some(revision);
        r
    };
    result.details = Some(verified(settings_path));
    result
}

/// The result of a save that turned launch at sign-in on or off: it names
/// that action and says which way the registration went.
pub fn startup_save_result(result: ActionResult, launch_at_login: bool, settings_path: &str) -> (r:
    ActionResult)
    ensures
        r.action_id == result.action_id,
        r.status == result.status,
        r.revision == result.revision,
        r.timestamp == result.timestamp,
        r.recovery == result.recovery,
        r.action_type@ == "set_launch_at_login"@,
        r.message@ == if launch_at_login {
            "Windows 시작 프로그램에 KeyForge를 등록하고 설정을 적용했습니다."@
        } else {
            "Windows 시작 프로그램에서 KeyForge 등록을 해제하고 설정을 적용했습니다."@
        },
        r.details matches Some(d) && opt_text(d.stage) == Some("verified"@) && opt_text(
            d.settings_path,
        ) == Some(settings_path@) && d.launch_at_login == Some(launch_at_login)
            && d.startup_registration_changed == Some(true) && d.path is None,
{
    let mut result = result;
    result.action_type = "set_launch_at_login".to_owned();
    result.message = if launch_at_login {
        "Windows 시작 프로그램에 KeyForge를 등록하고 설정을 적용했습니다.".to_owned()
    } else {
        "Windows 시작 프로그램에서 KeyForge 등록을 해제하고 설정을 적용했습니다.".to_owned()
    };
    result.details = Some(
        ResultDetails {
            stage: Some("verified".to_owned()),
            settings_path: Some(settings_path.to_owned()),
            launch_at_login: Some(launch_at_login),
            startup_registration_changed: Some(true),
            path: None,
        },
    );
    result
}

/// The result of restoring the backup: it names that action and says
/// whether the startup registration changed with it.
pub fn restore_result(
    result: ActionResult,
    previous_launch_at_login: bool,
    launch_at_login: bool,
    settings_path: &str,
) -> (r: ActionResult)
    ensures
        r.action_id == result.action_id,
        r.status == result.status,
        r.revision == result.revision,
        r.timestamp == result.timestamp,
        r.recovery == result.recovery,
        r.action_type@ == "restore_backup"@,
        r.message@ == if previous_launch_at_login != launch_at_login {
            "백업을 복원하고 Windows 시작 프로그램 설정을 적용했습니다."@
        } else {
            "백업을 복원하고 적용했습니다."@
        },
        r.details matches Some(d) && opt_text(d.stage) == Some("verified"@) && opt_text(
            d.settings_path,
        ) == Some(settings_path@) && d.launch_at_login == Some(launch_at_login)
            && d.startup_registration_changed == Some(previous_launch_at_login != launch_at_login)
            && d.path is None,
{
    let changed = previous_launch_at_login != launch_at_login;
    let mut result = result;
    result.action_type = "restore_backup".to_owned();
    result.message = if changed {
        "백업을 복원하고 Windows 시작 프로그램 설정을 적용했습니다.".to_owned()
    } else {
        "백업을 복원하고 적용했습니다.".to_owned()
    };
    result.details = Some(
        ResultDetails {
            stage: Some("verified".to_owned()),
            settings_path: Some(settings_path.to_owned()),
            launch_at_login: Some(launch_at_login),
            startup_registration_changed: Some(changed),
            path: None,
        },
    );
    result
}

/// The result of pausing or resuming the engine: success with the current
/// revision when the hook exists, else an error that points to the logs.
pub fn pause_result(hook_available: bool, paused: bool, revision: u64, hook_error: Option<String>) -> (r:
    ActionResult)
    ensures
        r.action_id != 0,
        r.details is None,
        hook_available ==> r.status == ActionStatus::Success && r.action_type@ == (if paused {
            "pause_engine"@
        } else {
            "resume_engine"@
        }) && r.message@ == (if paused {
            "모든 입력 규칙을 일시정지했습니다"@
        } else {
            "입력 엔진을 다시 시작했습니다"@
        }) && r.revision == Some(revision) && r.recovery is None,
        !hook_available ==> r.status == ActionStatus::Error && r.action_type@ == "pause_engine"@
            && r.message@ == "입력 엔진을 사용할 수 없습니다"@ && r.revision is None && (
        r.recovery matches Some(rec) && !rec.attempted && rec.succeeded is None && rec.message
            == hook_error && rec.actions@ == seq![RecoveryAction::OpenLogs]),
{
    if hook_available {
        ActionResult::success(
            if paused {
                "pause_engine"
            } else {
                "resume_engine"
            },
            if paused {
                "모든 입력 규칙을 일시정지했습니다"
            } else {
                "입력 엔진을 다시 시작했습니다"
            },
            Some(revision),
        )
    } else {
        let actions = vec![RecoveryAction::OpenLogs];
        assert(actions@ =~= seq![RecoveryAction::OpenLogs]);
        ActionResult::error(
            "pause_engine",
            "입력 엔진을 사용할 수 없습니다",
            Recovery { attempted: false, succeeded: None, message: hook_error, actions },
        )
    }
}

/// The result of making a backup: success with the current revision and
/// the backup's path, or an error with the repository's message.
pub fn backup_result(outcome: Result<String, RepositoryError>, revision: u64) -> (r: ActionResult)
    ensures
        r.action_id != 0,
        r.action_type@ == "create_backup"@,
        match outcome {
            Ok(path) => r.status == ActionStatus::Success && r.message@ == "설정 백업을 만들었습니다"@
                && r.revision == Some(revision) && r.recovery is None && (r.details matches Some(d)
                && d.stage is None && d.settings_path is None && d.launch_at_login is None
                && d.startup_registration_changed is None && opt_text(d.path) == Some(path@)),
            Err(e) => r.status == ActionStatus::Error && r.message@ == "설정 백업을 만들지 못했습니다"@
                && r.revision is None && r.details is None && (r.recovery matches Some(rec)
                && !rec.attempted && rec.succeeded is None && opt_text(rec.message) == Some(
                repository_message(e@),
            ) && rec.actions@ == seq![RecoveryAction::Retry, RecoveryAction::OpenLogs]),
        },
{
    match outcome {
        Ok(path) => {
            let mut result = ActionResult::success(
                "create_backup",
                "설정 백업을 만들었습니다",
                Some(revision),
            );
            result.details = Some(
                ResultDetails {
                    stage: None,
                    settings_path: None,
                    launch_at_login: None,
                    startup_registration_changed: None,
                    path: Some(path),
                },
            );
            result
        },
        Err(e) => {
            let actions = vec![RecoveryAction::Retry, RecoveryAction::OpenLogs];
            assert(actions@ =~= seq![RecoveryAction::Retry, RecoveryAction::OpenLogs]);
            ActionResult::error(
                "create_backup",
                "설정 백업을 만들지 못했습니다",
                Recovery { attempted: false, succeeded: None, message: Some(e.message()), actions },
            )
        },
    }
}

} // verus!
