use cua_driver_workspace::pip::{PipHookFrame, PipHooks, PipRoute, PipSink};
use std::sync::atomic::{AtomicUsize, Ordering};
use std::sync::Arc;

struct Counter(Arc<AtomicUsize>);
impl PipSink for Counter {
    fn push(&self, _: PipHookFrame) {
        self.0.fetch_add(1, Ordering::SeqCst);
    }
}

fn frame() -> PipHookFrame {
    PipHookFrame {
        png_bytes: vec![1],
        action_label: "fixture".into(),
        timestamp_ms: 0,
    }
}

#[test]
fn selected_preview_routes_only_to_its_session_and_clears_on_release() {
    let a = format!("preview-a-{}", uuid::Uuid::new_v4());
    let b = format!("preview-b-{}", uuid::Uuid::new_v4());
    let calls = Arc::new(AtomicUsize::new(0));
    let seen = calls.clone();
    let mut hooks = PipHooks::new();
    hooks
        .set_session_pip_push_fn(a.clone(), Counter(seen), false)
        .unwrap();
    hooks.push_pip_frame_for(Some(&b), true, frame());
    assert_eq!(calls.load(Ordering::SeqCst), 0);
    hooks.push_pip_frame_for(Some(&a), true, frame());
    assert_eq!(calls.load(Ordering::SeqCst), 1);
    hooks.clear_session(&a);
    assert!(!hooks.pip_enabled_for(Some(&a), true));
    hooks.push_pip_frame_for(Some(&a), true, frame());
    assert_eq!(calls.load(Ordering::SeqCst), 1);
}

#[test]
fn ended_session_cannot_register_a_preview() {
    let mut hooks: PipHooks<Counter> = PipHooks::new();
    let calls = Arc::new(AtomicUsize::new(0));
    assert_eq!(
        hooks.set_session_pip_push_fn("gone".into(), Counter(calls.clone()), true),
        Err("session ended before preview registration")
    );
    assert!(!hooks.pip_enabled_for(Some("gone"), true));
}

#[test]
fn global_preview_is_registered_once_and_serves_unselected_calls() {
    let first = Arc::new(AtomicUsize::new(0));
    let second = Arc::new(AtomicUsize::new(0));
    let mut hooks = PipHooks::new();
    assert!(!hooks.pip_enabled());
    hooks.push_pip_frame(frame());
    hooks.set_pip_push_fn(Counter(first.clone()));
    hooks.set_pip_push_fn(Counter(second.clone()));
    assert!(hooks.pip_enabled());
    assert!(hooks.pip_enabled_for(None, false));
    assert!(!hooks.pip_enabled_for(None, true));
    hooks.push_pip_frame_for(Some("anything"), false, frame());
    hooks.push_pip_frame(frame());
    assert_eq!(first.load(Ordering::SeqCst), 2);
    assert_eq!(second.load(Ordering::SeqCst), 0);
    assert!(matches!(hooks.route(None, true), PipRoute::Dropped));
    assert!(matches!(hooks.route(None, false), PipRoute::Global));
}

#[test]
fn re_registration_replaces_the_session_renderer() {
    let first = Arc::new(AtomicUsize::new(0));
    let second = Arc::new(AtomicUsize::new(0));
    let mut hooks = PipHooks::new();
    hooks.set_session_pip_push_fn("s".to_string(), Counter(first.clone()), false).unwrap();
    hooks.set_session_pip_push_fn("s".to_string(), Counter(second.clone()), false).unwrap();
    hooks.push_pip_frame_for(Some("s"), true, frame());
    assert_eq!(first.load(Ordering::SeqCst), 0);
    assert_eq!(second.load(Ordering::SeqCst), 1);
    let global = Arc::new(AtomicUsize::new(0));
    hooks.set_pip_push_fn(Counter(global.clone()));
    hooks.set_pip_push_fn(Counter(first.clone()));
    hooks.push_pip_frame(frame());
    assert_eq!(global.load(Ordering::SeqCst), 1);
    assert_eq!(first.load(Ordering::SeqCst), 0);
    assert!(hooks.pip_enabled());
    hooks.clear_session("s");
    assert!(hooks.pip_enabled());
}
