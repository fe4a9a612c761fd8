use cua_driver_workspace::args::ToolArgs;
use cua_driver_workspace::registry::{register, DispatchContext, ToolRegistry};
use cua_driver_workspace::selection::{
    SelectedWindows, WindowIdentity, WindowSelectionBackend, WindowTarget,
};
use cua_driver_workspace::workspace::{
    classify_window, restore_step, LaunchedWorkspaceWindow, RestoreStep, SessionAuthority,
    WorkspaceApplication, WorkspaceBackend, WorkspaceCreationOptions, WorkspaceManifest,
    Workspaces,
};
use std::collections::HashMap;
use std::sync::atomic::{AtomicBool, AtomicUsize, Ordering};
use std::sync::{Arc, Mutex};

struct Live;
impl WindowIdentity for Live {
    fn validate(&self) -> Result<(), String> {
        Ok(())
    }
}

#[derive(Default)]
struct Native {
    membership: Mutex<HashMap<WindowTarget, Vec<u64>>>,
    state_fails: AtomicBool,
    deleted: AtomicBool,
    launch_count: AtomicUsize,
    launch_fails: AtomicBool,
    move_noop: AtomicBool,
}
impl WindowSelectionBackend<Live> for Native {
    fn bind(&self, _: WindowTarget) -> Result<Live, String> {
        Ok(Live)
    }
}
impl WorkspaceBackend<Live> for Native {
    fn launch(&self, _: &WorkspaceApplication) -> Result<LaunchedWorkspaceWindow<Live>, String> {
        self.launch_count.fetch_add(1, Ordering::SeqCst);
        if self.launch_fails.load(Ordering::SeqCst) {
            return Err(
                "workspace_launch_ambiguous: native process created without a unique window".into(),
            );
        }
        Ok(LaunchedWorkspaceWindow {
            target: WindowTarget {
                pid: 50,
                window_id: 51,
            },
            identity: Live,
        })
    }
    fn create(&self) -> Result<u64, String> {
        Ok(100)
    }
    fn state(&self, space: u64) -> Result<(bool, bool), String> {
        if self.state_fails.load(Ordering::SeqCst) {
            return Err("workspace_state_unavailable: display query failed".into());
        }
        Ok((space == 100 && !self.deleted.load(Ordering::SeqCst), false))
    }
    fn membership(&self, target: WindowTarget) -> Result<Vec<u64>, String> {
        Ok(self
            .membership
            .lock()
            .unwrap()
            .get(&target)
            .cloned()
            .unwrap_or(vec![1]))
    }
    fn move_window(&self, target: WindowTarget, space: u64) -> Result<(), String> {
        if self.move_noop.load(Ordering::SeqCst) {
            return Ok(());
        }
        self.membership.lock().unwrap().insert(target, vec![space]);
        Ok(())
    }
    fn reveal_space(&self, _: u64) -> Result<(), String> {
        Err("workspace_operation_unsupported: native reveal refused".into())
    }
}

struct Authorized;
impl SessionAuthority for Authorized {
    fn is_revoked(&self) -> bool {
        false
    }
    fn is_expired(&self) -> bool {
        false
    }
}

type Selection = SelectedWindows<Live, Native>;

fn manifest() -> WorkspaceManifest {
    WorkspaceManifest {
        space_id: Some(100),
        creation_options: WorkspaceCreationOptions::default_options(),
        applications: vec![(
            "notes".to_string(),
            WorkspaceApplication {
                bundle_id: "com.test.app".to_string(),
                arguments: vec![],
                urls: vec![],
            },
        )],
    }
}

fn session(name: &str) -> ToolArgs {
    let mut args = ToolArgs::empty();
    args.session = Some(Some(name.to_string()));
    args
}

fn with_app(name: &str, app: &str) -> ToolArgs {
    let mut args = session(name);
    args.app = Some(app.to_string());
    args
}

fn with_target(name: &str, target: WindowTarget) -> ToolArgs {
    let mut args = session(name);
    args.pid = Some(target.pid);
    args.window_id = Some(target.window_id);
    args
}

fn selection(native: &Arc<Native>, windows: &[WindowTarget]) -> Selection {
    let mut selection: Selection = SelectedWindows::bind(windows, native.as_ref()).unwrap();
    selection.restrict_to_workspace(native.clone());
    selection
}

#[test]
fn profiles_are_scoped_to_the_owned_workspace() {
    let recipe = WorkspaceApplication {
        bundle_id: "browser".into(),
        arguments: vec!["--user-data-dir=/profiles/helium-{workspace}".into()],
        urls: vec![],
    };
    assert_eq!(
        recipe.for_workspace("a").arguments,
        recipe.for_workspace("a").arguments
    );
    assert_ne!(
        recipe.for_workspace("a").arguments,
        recipe.for_workspace("b").arguments
    );
    assert_eq!(
        recipe.for_workspace("a").arguments[0],
        "--user-data-dir=/profiles/helium-a"
    );
}

#[test]
fn for_workspace_replaces_every_placeholder_and_keeps_the_rest() {
    let recipe = WorkspaceApplication {
        bundle_id: "b".into(),
        arguments: vec!["{workspace}/{workspace}".into(), "plain".into()],
        urls: vec!["https://example.com/{workspace}".into()],
    };
    let scoped = recipe.for_workspace("s1");
    assert_eq!(scoped.bundle_id, "b");
    assert_eq!(scoped.arguments, vec!["s1/s1".to_string(), "plain".to_string()]);
    assert_eq!(scoped.urls, vec!["https://example.com/{workspace}".to_string()]);
}

#[test]
fn workspace_launch_uses_trusted_alias_and_admits_only_attested_window() {
    let native = Arc::new(Native::default());
    let manifest = manifest();
    let mut workspaces = Workspaces::new(Some(native.clone()), true);
    let mut selected = selection(&native, &[]);
    let mut other = selection(&native, &[]);
    let mut call = |name: &str, args: ToolArgs, sel: &mut Selection| {
        workspaces.execute(name, &args, sel, Some(&manifest), &Authorized)
    };
    assert!(call("launch_workspace_app", with_app("launch", "notes"), &mut selected).is_err());
    assert!(call("create_workspace", session("launch"), &mut selected).is_ok());
    assert!(call("launch_workspace_app", with_app("launch", "unapproved"), &mut selected).is_err());
    assert_eq!(native.launch_count.load(Ordering::SeqCst), 0);
    for _ in 0..2 {
        let result = call("launch_workspace_app", with_app("launch", "notes"), &mut selected);
        assert!(result.is_ok(), "{:?}", result.err());
    }
    assert_eq!(
        workspaces.launched_window("launch", "notes"),
        Some(WindowTarget { pid: 50, window_id: 51 })
    );
    assert_eq!(native.launch_count.load(Ordering::SeqCst), 1);
    let target = WindowTarget {
        pid: 50,
        window_id: 51,
    };
    assert!(selected.validate(target).is_ok());
    assert!(selected.is_live_launched_window(target));
    assert!(!other.is_live_launched_window(target));
    assert!(selected
        .validate(WindowTarget {
            pid: 50,
            window_id: 52
        })
        .is_err());
    assert!(other.validate(target).is_err());
    native.membership.lock().unwrap().insert(target, vec![1]);
    assert!(workspaces
        .execute("launch_workspace_app", &with_app("launch", "notes"), &mut selected, Some(&manifest), &Authorized)
        .is_err());
    assert_eq!(native.membership(target).unwrap(), vec![1]);
    assert!(!selected.is_live_launched_window(target));
    assert_eq!(native.launch_count.load(Ordering::SeqCst), 1);
}

#[test]
fn incomplete_launch_exposes_exact_recovery_without_spawning_again() {
    let native = Arc::new(Native::default());
    native.move_noop.store(true, Ordering::SeqCst);
    let manifest = manifest();
    let mut workspaces = Workspaces::new(Some(native.clone()), true);
    let mut selected = selection(&native, &[]);
    assert!(workspaces
        .execute("create_workspace", &session("recover"), &mut selected, Some(&manifest), &Authorized)
        .is_ok());
    let failure = workspaces.execute(
        "launch_workspace_app",
        &with_app("recover", "notes"),
        &mut selected,
        Some(&manifest),
        &Authorized,
    );
    let message = failure.err().unwrap();
    assert_eq!(message.split(':').next().unwrap(), "workspace_move_incomplete");
    assert_eq!(
        workspaces.launched_window("recover", "notes"),
        Some(WindowTarget { pid: 50, window_id: 51 })
    );
    let state = workspaces
        .execute("get_workspace_state", &session("recover"), &mut selected, Some(&manifest), &Authorized)
        .unwrap();
    assert_eq!(state.windows[0].original_space_ids, vec![1]);
    native.move_noop.store(false, Ordering::SeqCst);
    let target = WindowTarget { pid: 50, window_id: 51 };
    assert!(workspaces
        .execute("move_window_to_workspace", &with_target("recover", target), &mut selected, Some(&manifest), &Authorized)
        .is_ok());
    assert!(workspaces
        .execute("launch_workspace_app", &with_app("recover", "notes"), &mut selected, Some(&manifest), &Authorized)
        .is_ok());
    assert_eq!(native.launch_count.load(Ordering::SeqCst), 1);
    native.move_noop.store(true, Ordering::SeqCst);
    assert!(workspaces
        .execute("restore_workspace_windows", &session("recover"), &mut selected, Some(&manifest), &Authorized)
        .is_err());
}

#[test]
fn partial_launch_failure_does_not_spawn_again_on_retry() {
    let native = Arc::new(Native::default());
    native.launch_fails.store(true, Ordering::SeqCst);
    let manifest = manifest();
    let mut workspaces = Workspaces::new(Some(native.clone()), true);
    let mut selected = selection(&native, &[]);
    assert!(workspaces
        .execute("create_workspace", &session("failed-launch"), &mut selected, Some(&manifest), &Authorized)
        .is_ok());
    for _ in 0..2 {
        assert!(workspaces
            .execute("launch_workspace_app", &with_app("failed-launch", "notes"), &mut selected, Some(&manifest), &Authorized)
            .is_err());
    }
    assert_eq!(native.launch_count.load(Ordering::SeqCst), 1);
    assert!(selected.live_targets().is_empty());
}

#[test]
fn registry_enforces_selection_and_preserves_user_placement_on_release() {
    let a = WindowTarget { pid: 10, window_id: 1 };
    let b = WindowTarget { pid: 10, window_id: 2 };
    let third = WindowTarget { pid: 10, window_id: 3 };
    let native = Arc::new(Native::default());
    let manifest = manifest();
    let mut workspaces = Workspaces::new(Some(native.clone()), true);
    let mut selected = selection(&native, &[a, b]);
    let mut other = selection(&native, &[third]);
    assert!(selected.validate(a).is_err());
    let mut call = |name: &str, args: ToolArgs, sel: &mut Selection| {
        workspaces.execute(name, &args, sel, Some(&manifest), &Authorized)
    };
    assert!(call("create_workspace", session("selected"), &mut selected).is_ok());
    for target in [a, b] {
        assert!(call("move_window_to_workspace", with_target("selected", target), &mut selected).is_ok());
    }
    assert!(call("move_window_to_workspace", with_target("selected", third), &mut selected).is_err());
    assert!(call("create_workspace", session("other"), &mut other).is_err());
    let state = call("get_workspace_state", session("other"), &mut other).unwrap();
    assert!(!state.owned);
    assert!(call("delete_workspace", session("selected"), &mut selected).is_err());
    assert!(call("reveal_workspace", session("selected"), &mut selected).is_err());
    native.membership.lock().unwrap().insert(a, vec![9]); // Simulated user move.
    assert!(selected.validate(a).is_err());
    selected.native_identity(a).unwrap();
    selected.validate(b).unwrap();
    assert!(call("restore_workspace_windows", session("selected"), &mut selected).is_err());
    assert_eq!(native.membership(a).unwrap(), vec![9]);
    assert_eq!(native.membership(b).unwrap(), vec![1]); // Independent restoration completed.
    native.deleted.store(true, Ordering::SeqCst);
    let deleted = call("get_workspace_state", session("selected"), &mut selected).unwrap();
    assert!(!deleted.space_exists);
    native.deleted.store(false, Ordering::SeqCst);
    let released = call("release_workspace", session("selected"), &mut selected).unwrap();
    assert!(!released.owned);
    assert!(selected.validate(b).is_err());
    assert_eq!(native.membership(a).unwrap(), vec![9]);
    assert!(call("create_workspace", session("selected"), &mut selected).is_ok());
    native.state_fails.store(true, Ordering::SeqCst);
    assert!(call("release_workspace", session("selected"), &mut selected).is_err());
    native.state_fails.store(false, Ordering::SeqCst);
    assert!(!call("get_workspace_state", session("selected"), &mut selected).unwrap().owned);
}

#[test]
fn workspace_state_reports_windows_in_order_with_labels() {
    let native = Arc::new(Native::default());
    let manifest = manifest();
    let mut workspaces = Workspaces::new(Some(native.clone()), false);
    let b = WindowTarget { pid: 20, window_id: 1 };
    let a = WindowTarget { pid: 10, window_id: 5 };
    let mut selected = selection(&native, &[b, a]);
    assert!(workspaces
        .execute("create_workspace", &session("s"), &mut selected, Some(&manifest), &Authorized)
        .is_ok());
    for target in [b, a] {
        assert!(workspaces
            .execute("move_window_to_workspace", &with_target("s", target), &mut selected, Some(&manifest), &Authorized)
            .is_ok());
    }
    native.membership.lock().unwrap().insert(b, vec![1]);
    let state = workspaces
        .execute("get_workspace_state", &session("s"), &mut selected, Some(&manifest), &Authorized)
        .unwrap();
    assert!(state.owned);
    assert_eq!(state.space_id, Some(100));
    assert!(!state.space_created);
    assert!(!state.private_api);
    assert_eq!(state.available_apps, vec!["notes".to_string()]);
    assert_eq!((state.windows[0].pid, state.windows[0].window_id), (10, 5));
    assert_eq!(state.windows[0].state, "in_workspace");
    assert_eq!((state.windows[1].pid, state.windows[1].window_id), (20, 1));
    assert_eq!(state.windows[1].state, "at_origin");
}

#[test]
fn workspace_errors_name_their_cause() {
    let native = Arc::new(Native::default());
    let manifest = manifest();
    let mut workspaces = Workspaces::new(Some(native.clone()), true);
    let mut selected = selection(&native, &[]);
    assert_eq!(
        workspaces
            .execute("get_workspace_state", &ToolArgs::empty(), &mut selected, Some(&manifest), &Authorized)
            .err()
            .unwrap(),
        "workspace_session_required"
    );
    assert_eq!(
        workspaces
            .execute("reveal_workspace", &session("x"), &mut selected, Some(&manifest), &Authorized)
            .err()
            .unwrap(),
        "workspace_not_found: this session owns no workspace"
    );
    assert!(workspaces
        .execute("create_workspace", &session("x"), &mut selected, Some(&manifest), &Authorized)
        .is_ok());
    assert_eq!(
        workspaces
            .execute("frobnicate", &session("x"), &mut selected, Some(&manifest), &Authorized)
            .err()
            .unwrap(),
        "workspace_operation_unsupported: native session workspaces are unavailable on this platform"
    );
    assert_eq!(
        workspaces
            .execute("delete_workspace", &session("x"), &mut selected, Some(&manifest), &Authorized)
            .err()
            .unwrap(),
        "workspace_not_created: cannot delete a pre-existing Space"
    );
    assert_eq!(
        workspaces
            .execute("launch_workspace_app", &session("x"), &mut selected, Some(&manifest), &Authorized)
            .err()
            .unwrap(),
        "workspace_app_required"
    );
    assert_eq!(
        workspaces
            .execute("launch_workspace_app", &with_app("x", "notes"), &mut selected, None, &Authorized)
            .err()
            .unwrap(),
        "workspace_requires_manifest"
    );
    assert_eq!(workspaces.owned_space("x"), Some(100));
    workspaces.end_session("x");
    assert_eq!(workspaces.owned_space("x"), None);
}

#[test]
fn created_workspace_can_be_deleted_and_unsupported_platform_refuses() {
    let native = Arc::new(Native::default());
    let mut created_manifest = manifest();
    created_manifest.space_id = None;
    let mut workspaces = Workspaces::new(Some(native.clone()), true);
    let mut selected = selection(&native, &[]);
    let state = workspaces
        .execute("create_workspace", &session("c"), &mut selected, Some(&created_manifest), &Authorized)
        .unwrap();
    assert!(state.space_created);
    native.deleted.store(true, Ordering::SeqCst);
    let deleted = workspaces
        .execute("delete_workspace", &session("c"), &mut selected, Some(&created_manifest), &Authorized);
    // The test backend has no native deletion: the default refuses.
    assert_eq!(
        deleted.err().unwrap(),
        "workspace_operation_unsupported: safe native Space deletion is unavailable"
    );

    let mut unsupported: Workspaces<Native> = Workspaces::new(None, false);
    assert_eq!(
        unsupported
            .execute("create_workspace", &session("u"), &mut selected, Some(&created_manifest), &Authorized)
            .err()
            .unwrap(),
        "workspace_operation_unsupported: native session workspaces are unavailable on this platform"
    );
}

#[test]
fn classify_and_restore_decisions() {
    let original = vec![1];
    let (ids, label) = classify_window(Err("gone".into()), true, 100, &original);
    assert!(ids.is_empty());
    assert_eq!(label, "stale_or_unavailable");
    assert_eq!(classify_window(Ok(vec![100]), false, 100, &original).1, "space_deleted");
    assert_eq!(classify_window(Ok(vec![100]), true, 100, &original).1, "in_workspace");
    assert_eq!(classify_window(Ok(vec![1]), true, 100, &original).1, "at_origin");
    assert_eq!(
        classify_window(Ok(vec![7]), true, 100, &original).1,
        "moved_or_transitioning"
    );
    assert!(matches!(restore_step(&original, &vec![1], 100), RestoreStep::AtOrigin));
    assert!(matches!(restore_step(&original, &vec![9], 100), RestoreStep::UserMoved));
    assert!(matches!(restore_step(&original, &vec![100], 100), RestoreStep::MoveBack(1)));
}

#[test]
fn registered_tools_share_one_workspace_registry() {
    let native = Arc::new(Native::default());
    let mut registry: ToolRegistry<Native> = ToolRegistry::new();
    let mut context = Some(DispatchContext {
        selection: Some(selection(&native, &[])),
        manifest: Some(manifest()),
        authority: Authorized,
    });
    assert_eq!(
        registry.execute("create_workspace", &session("r"), &mut context).err().unwrap(),
        "workspace_operation_unsupported: native session workspaces are unavailable on this platform"
    );
    register(&mut registry, Some(native.clone()), true);
    assert_eq!(registry.tools().len(), 8);
    assert_eq!(registry.tools()[0].name, "create_workspace");
    assert!(!registry.tools()[0].idempotent);
    assert_eq!(registry.tools()[1].name, "launch_workspace_app");
    assert!(registry.tools()[2].read_only);
    assert_eq!(registry.owned_space("r"), None);

    let mut untrusted: Option<DispatchContext<Live, Native, Authorized>> = None;
    assert_eq!(
        registry.execute("create_workspace", &session("r"), &mut untrusted).err().unwrap(),
        "workspace_requires_trusted_session"
    );
    let mut unselected = Some(DispatchContext::<Live, Native, Authorized> {
        selection: None,
        manifest: Some(manifest()),
        authority: Authorized,
    });
    assert_eq!(
        registry.execute("create_workspace", &session("r"), &mut unselected).err().unwrap(),
        "workspace_requires_selected_windows: configure approved windows separately at trusted startup"
    );
    assert_eq!(registry.owned_space("r"), None);

    let state = registry.execute("create_workspace", &session("r"), &mut context).unwrap();
    assert!(state.owned);
    assert_eq!(registry.owned_space("r"), state.space_id);
    assert!(registry
        .execute("launch_workspace_app", &with_app("r", "notes"), &mut context)
        .is_ok());
    assert_eq!(
        registry.launched_window("r", "notes"),
        Some(WindowTarget { pid: 50, window_id: 51 })
    );
    assert_eq!(registry.launched_window("r", "other"), None);
    registry.end_session("r");
    assert_eq!(registry.owned_space("r"), None);
    assert_eq!(registry.launched_window("r", "notes"), None);
}
