use cua_driver_workspace::args::ToolArgs;
use cua_driver_workspace::selection::{
    SelectedWindows, WindowIdentity, WindowSelectionBackend, WindowTarget,
};
use cua_driver_workspace::workspace::Unsupported;
use std::sync::atomic::{AtomicBool, Ordering};
use std::sync::Arc;

struct Identity(Arc<AtomicBool>);
impl WindowIdentity for Identity {
    fn validate(&self) -> Result<(), String> {
        self.0
            .load(Ordering::SeqCst)
            .then_some(())
            .ok_or("closed".into())
    }
}
struct Backend(Arc<AtomicBool>);
impl WindowSelectionBackend<Identity> for Backend {
    fn bind(&self, _: WindowTarget) -> Result<Identity, String> {
        Ok(Identity(self.0.clone()))
    }
}

type Selection = SelectedWindows<Identity, Unsupported>;

fn target_args(pid: i64, window_id: u64) -> ToolArgs {
    let mut args = ToolArgs::empty();
    args.pid = Some(pid);
    args.window_id = Some(window_id);
    args
}

#[test]
fn two_windows_do_not_authorize_a_same_process_sibling() {
    let live = Arc::new(AtomicBool::new(true));
    let targets = [
        WindowTarget {
            pid: 10,
            window_id: 1,
        },
        WindowTarget {
            pid: 10,
            window_id: 2,
        },
    ];
    let mut selection: Selection = SelectedWindows::bind(&targets, &Backend(live)).unwrap();
    for target in targets {
        selection
            .authorize("click", &target_args(target.pid, target.window_id))
            .unwrap();
    }
    assert!(selection.authorize("click", &target_args(10, 3)).is_err());
    assert!(selection
        .authorize("get_desktop_state", &ToolArgs::empty())
        .is_err());
    assert!(selection
        .authorize("browser_prepare", &target_args(10, 1))
        .is_err());
}

#[test]
fn closed_identity_never_revives_and_other_sessions_do_not_inherit_it() {
    let live = Arc::new(AtomicBool::new(true));
    let target = WindowTarget {
        pid: 10,
        window_id: 1,
    };
    let mut selection: Selection = SelectedWindows::bind(&[target], &Backend(live.clone())).unwrap();
    live.store(false, Ordering::SeqCst);
    assert!(selection.validate(target).is_err());
    live.store(true, Ordering::SeqCst);
    assert!(selection.validate(target).is_err());
    let mut replacement: Selection = SelectedWindows::bind(&[target], &Backend(live)).unwrap();
    replacement.validate(target).unwrap();
    let mut empty: Selection =
        SelectedWindows::bind(&[], &Backend(Arc::new(AtomicBool::new(true)))).unwrap();
    assert!(empty.validate(target).is_err());
}

#[test]
fn bind_refuses_invalid_and_duplicate_targets() {
    let live = Arc::new(AtomicBool::new(true));
    let a = WindowTarget { pid: 10, window_id: 1 };
    let duplicate: Result<Selection, String> = SelectedWindows::bind(&[a, a], &Backend(live.clone()));
    assert_eq!(
        duplicate.err().unwrap(),
        "selected_window_invalid: targets must be unique exact windows"
    );
    let zero_pid: Result<Selection, String> =
        SelectedWindows::bind(&[WindowTarget { pid: 0, window_id: 1 }], &Backend(live.clone()));
    assert!(zero_pid.is_err());
    let zero_window: Result<Selection, String> =
        SelectedWindows::bind(&[WindowTarget { pid: 3, window_id: 0 }], &Backend(live));
    assert!(zero_window.is_err());
}

#[test]
fn revoked_lease_reports_stale_and_outside_target_reports_denied() {
    let live = Arc::new(AtomicBool::new(true));
    let a = WindowTarget { pid: 10, window_id: 1 };
    let mut selection: Selection = SelectedWindows::bind(&[a], &Backend(live.clone())).unwrap();
    assert_eq!(
        selection.native_identity(WindowTarget { pid: 10, window_id: 9 }).err().unwrap(),
        "selected_window_denied: target is outside this session's selection"
    );
    live.store(false, Ordering::SeqCst);
    assert_eq!(
        selection.native_identity(a).err().unwrap(),
        "selected_window_stale: native lifetime could not be re-proven"
    );
    live.store(true, Ordering::SeqCst);
    assert_eq!(
        selection.native_identity(a).err().unwrap(),
        "selected_window_stale: native lifetime is no longer valid"
    );
    assert!(selection.live_targets().is_empty());
}

#[test]
fn live_targets_lists_each_valid_window_once_in_order() {
    let live = Arc::new(AtomicBool::new(true));
    let a = WindowTarget { pid: 10, window_id: 1 };
    let b = WindowTarget { pid: 11, window_id: 7 };
    let mut selection: Selection = SelectedWindows::bind(&[a, b], &Backend(live)).unwrap();
    assert_eq!(selection.live_targets(), vec![a, b]);
}

#[test]
fn authorize_admission_list() {
    let live = Arc::new(AtomicBool::new(true));
    let a = WindowTarget { pid: 10, window_id: 1 };
    let mut selection: Selection = SelectedWindows::bind(&[a], &Backend(live)).unwrap();

    let mut desktop = target_args(10, 1);
    desktop.scope = Some("desktop".to_string());
    assert_eq!(
        selection.authorize("click", &desktop).err().unwrap(),
        "selected_window_background_required: desktop input is unavailable"
    );

    let mut foreground = target_args(10, 1);
    foreground.delivery_mode = Some("ForeGround".to_string());
    assert_eq!(
        selection.authorize("click", &foreground).err().unwrap(),
        "selected_window_background_required: foreground delivery is not admitted"
    );
    assert_eq!(
        selection.authorize("browser_click", &foreground).err().unwrap(),
        "selected_window_background_required: browser foreground delivery is not admitted"
    );
    assert!(selection.authorize("browser_click", &ToolArgs::empty()).is_ok());

    let mut no_video = ToolArgs::empty();
    no_video.record_video = Some(false);
    assert!(selection.authorize("start_recording", &no_video).is_ok());
    let mut video = ToolArgs::empty();
    video.record_video = Some(true);
    assert_eq!(
        selection.authorize("start_recording", &video).err().unwrap(),
        "selected_window_operation_unsupported: this tool has no proven exact-window selection boundary"
    );
    assert!(selection.authorize("stop_recording", &ToolArgs::empty()).is_ok());
    assert!(selection.authorize("list_windows", &ToolArgs::empty()).is_ok());

    let mut pid_only = ToolArgs::empty();
    pid_only.pid = Some(10);
    assert_eq!(
        selection.authorize("click", &pid_only).err().unwrap(),
        "selected_window_required: exact window_id is required"
    );
    assert_eq!(
        selection.authorize("click", &ToolArgs::empty()).err().unwrap(),
        "selected_window_required: exact pid is required"
    );
    assert!(selection.authorize("get_browser_state", &target_args(10, 1)).is_ok());
    let mut bound = ToolArgs::empty();
    bound.has_target_id = true;
    assert!(selection.authorize("get_browser_state", &bound).is_ok());
    assert!(selection
        .authorize("move_window_to_workspace", &target_args(10, 1))
        .is_ok());
    assert!(selection
        .authorize("move_window_to_workspace", &target_args(10, 2))
        .is_err());
}

#[test]
fn target_requires_both_ids() {
    assert_eq!(
        Selection::target(&target_args(4, 5)).unwrap(),
        WindowTarget { pid: 4, window_id: 5 }
    );
}
