//! Trusted exact-window selection. Native identity leases are acquired before
//! admitting agent calls, never from IDs supplied by an agent.
use vstd::prelude::*;
use std::sync::Arc;
use crate::args::ToolArgs;
use crate::assoc::{assoc_map, has_key, lemma_absent, lemma_empty, lemma_lookup, lemma_push, lemma_update, unique_keys};
use crate::text::{eq_ignoring_ascii_case, str_eq, str_eq_ignore_ascii_case};
use crate::workspace::{membership_answer, state_answer, WorkspaceBackend};

verus! {

/// One exact window: its owning process and its window-server ID.
#[derive(Debug, Clone, Copy, PartialEq, Eq, Hash, Structural)]
pub struct WindowTarget {
    pub pid: i64,
    pub window_id: u64,
}

/// A selection may only name real processes and real windows.
pub open spec fn valid_target(t: WindowTarget) -> bool {
    t.pid > 0 && t.window_id != 0
}

/// An owned native lifetime witness, not a repeated numeric ID lookup.
/// `validate` re-proves that the witnessed window is still the same live window.
pub trait WindowIdentity {
    fn validate(&self) -> Result<(), String>;
}

/// Binds a lifetime witness for an exact window at trusted startup.
pub trait WindowSelectionBackend<I> {
    fn bind(&self, target: WindowTarget) -> Result<I, String>;
}

struct WorkspaceRestriction<W> {
    backend: Arc<W>,
    space: Option<u64>,
}

/// The windows a trusted host approved for one session, each with the lease
/// that proves it is still the window that was approved.
pub struct SelectedWindows<I, W> {
    workspace: Option<WorkspaceRestriction<W>>,
    windows: Vec<(WindowTarget, Option<Arc<I>>)>,
    launched: Vec<WindowTarget>,
}

pub open spec fn err_view<T>(r: Result<T, String>) -> Seq<char> {
    match r {
        Ok(_) => Seq::empty(),
        Err(e) => e@,
    }
}

/// The targets are all valid and no target occurs twice.
pub open spec fn admissible_targets(targets: Seq<WindowTarget>) -> bool {
    &&& forall|i: int| 0 <= i < targets.len() ==> valid_target(#[trigger] targets[i])
    &&& forall|i: int, j: int|
        0 <= i < targets.len() && 0 <= j < targets.len() && i != j ==> targets[i] != targets[j]
}

pub open spec fn denied_msg() -> Seq<char> {
    "selected_window_denied: target is outside this session's selection"@
}

pub open spec fn stale_msg() -> Seq<char> {
    "selected_window_stale: native lifetime is no longer valid"@
}

pub open spec fn no_workspace_msg() -> Seq<char> {
    "workspace_access_denied: no owned workspace"@
}

pub open spec fn invalid_selection_msg() -> Seq<char> {
    "selected_window_invalid: targets must be unique exact windows"@
}

/// Whether `ids` is exactly the one-element list `[space]`.
pub fn is_only(ids: &Vec<u64>, space: u64) -> (r: bool)
    ensures
        r == (ids@ == seq![space]),
{
    if ids.len() == 1 && ids[0] == space {
        assert(ids@ =~= seq![space]);
        true
    } else {
        false
    }
}

/// The exact window a call's arguments name: both `pid` and `window_id`
/// are required.
pub open spec fn spec_target(args: ToolArgs) -> Option<WindowTarget> {
    match (args.pid, args.window_id) {
        (Some(pid), Some(window_id)) => Some(WindowTarget { pid, window_id }),
        _ => None,
    }
}

pub open spec fn target_error(args: ToolArgs) -> Seq<char> {
    if args.pid is None {
        "selected_window_required: exact pid is required"@
    } else {
        "selected_window_required: exact window_id is required"@
    }
}

/// The call asks for desktop-wide input.
pub open spec fn desktop_scope(args: ToolArgs) -> bool {
    args.scope matches Some(s) && s@ == "desktop"@
}

/// The call asks for foreground delivery, in any ASCII case.
pub open spec fn foreground_delivery(args: ToolArgs) -> bool {
    args.delivery_mode matches Some(m) && eq_ignoring_ascii_case(m@, "foreground"@)
}

pub open spec fn is_recording_control(t: Seq<char>) -> bool {
    t == "get_recording_state"@ || t == "stop_recording"@
}

pub open spec fn is_browser_tool(t: Seq<char>) -> bool {
    ||| t == "get_browser_state"@
    ||| t == "browser_navigate"@
    ||| t == "browser_click"@
    ||| t == "browser_type"@
    ||| t == "browser_dialog"@
}

/// Tools that act on the session itself, never on a window.
pub open spec fn is_session_tool(t: Seq<char>) -> bool {
    ||| t == "list_windows"@
    ||| t == "list_apps"@
    ||| t == "start_session"@
    ||| t == "get_session"@
    ||| t == "end_session"@
    ||| t == "get_session_state"@
    ||| t == "list_sessions"@
    ||| t == "wait"@
    ||| t == "create_workspace"@
    ||| t == "get_workspace_state"@
    ||| t == "reveal_workspace"@
    ||| t == "release_workspace"@
    ||| t == "restore_workspace_windows"@
    ||| t == "delete_workspace"@
}

/// Tools that observe or drive one exact window.
pub open spec fn is_window_tool(t: Seq<char>) -> bool {
    ||| t == "get_window_state"@
    ||| t == "click"@
    ||| t == "double_click"@
    ||| t == "right_click"@
    ||| t == "scroll"@
    ||| t == "drag"@
    ||| t == "type_text"@
    ||| t == "press_key"@
    ||| t == "hotkey"@
    ||| t == "set_value"@
}

fn recording_control(t: &str) -> (r: bool)
    ensures
        r == is_recording_control(t@),
{
    str_eq(t, "get_recording_state") || str_eq(t, "stop_recording")
}

fn browser_tool(t: &str) -> (r: bool)
    ensures
        r == is_browser_tool(t@),
{
    str_eq(t, "get_browser_state") || str_eq(t, "browser_navigate") || str_eq(t, "browser_click")
        || str_eq(t, "browser_type") || str_eq(t, "browser_dialog")
}

fn session_tool(t: &str) -> (r: bool)
    ensures
        r == is_session_tool(t@),
{
    str_eq(t, "list_windows") || str_eq(t, "list_apps") || str_eq(t, "start_session") || str_eq(
        t,
        "get_session",
    ) || str_eq(t, "end_session") || str_eq(t, "get_session_state") || str_eq(t, "list_sessions")
        || str_eq(t, "wait") || str_eq(t, "create_workspace") || str_eq(t, "get_workspace_state")
        || str_eq(t, "reveal_workspace") || str_eq(t, "release_workspace") || str_eq(
        t,
        "restore_workspace_windows",
    ) || str_eq(t, "delete_workspace")
}

fn window_tool(t: &str) -> (r: bool)
    ensures
        r == is_window_tool(t@),
{
    str_eq(t, "get_window_state") || str_eq(t, "click") || str_eq(t, "double_click") || str_eq(
        t,
        "right_click",
    ) || str_eq(t, "scroll") || str_eq(t, "drag") || str_eq(t, "type_text") || str_eq(
        t,
        "press_key",
    ) || str_eq(t, "hotkey") || str_eq(t, "set_value")
}

fn foreground(args: &ToolArgs) -> (r: bool)
    ensures
        r == foreground_delivery(*args),
{
    match &args.delivery_mode {
        Some(mode) => str_eq_ignore_ascii_case(mode.as_str(), "foreground"),
        None => false,
    }
}

fn desktop(args: &ToolArgs) -> (r: bool)
    ensures
        r == desktop_scope(*args),
{
    match &args.scope {
        Some(scope) => str_eq(scope.as_str(), "desktop"),
        None => false,
    }
}

pub open spec fn outside_msg() -> Seq<char> {
    "workspace_access_denied: approved window is outside the owned desktop"@
}

/// A result as nothing (success) or its error text.
pub open spec fn outcome_of(r: Result<(), String>) -> Option<Seq<char>> {
    match r {
        Ok(_) => None,
        Err(e) => Some(e@),
    }
}

/// The desktop check of narrowed access, from the window server's answer
/// about the owned desktop: a failed query passes its error on, a missing
/// desktop refuses.
pub open spec fn desktop_outcome(space: u64, state: Result<(bool, bool), String>) -> Option<Seq<char>> {
    match state {
        Err(e) => Some(e@),
        Ok((exists, _)) => if exists {
            None
        } else {
            Some(outside_msg())
        },
    }
}

/// The membership check of narrowed access: the window must be on the owned
/// desktop and on no other.
pub open spec fn membership_outcome(space: u64, membership: Result<Vec<u64>, String>) -> Option<Seq<char>> {
    match membership {
        Err(e) => Some(e@),
        Ok(ids) => if ids@ == seq![space] {
            None
        } else {
            Some(outside_msg())
        },
    }
}

/// Whether the owned desktop still exists, as narrowed access requires.
pub fn desktop_access(space: u64, state: Result<(bool, bool), String>) -> (r: Result<(), String>)
    ensures
        outcome_of(r) == desktop_outcome(space, state),
{
    match state {
        Err(e) => Err(e),
        Ok((exists, _)) => if exists {
            Ok(())
        } else {
            Err("workspace_access_denied: approved window is outside the owned desktop".to_owned())
        },
    }
}

/// Whether the window is on the owned desktop and on no other.
pub fn membership_access(space: u64, membership: Result<Vec<u64>, String>) -> (r: Result<(), String>)
    ensures
        outcome_of(r) == membership_outcome(space, membership),
{
    match membership {
        Err(e) => Err(e),
        Ok(ids) => if is_only(&ids, space) {
            Ok(())
        } else {
            Err("workspace_access_denied: approved window is outside the owned desktop".to_owned())
        },
    }
}

/// Some answer of the backend would refuse narrowed access of `target` to
/// desktop `space`: an answer about the desktop that refuses, or an answer
/// about the window's desktops that refuses.
pub open spec fn refusable<I, W: WorkspaceBackend<I>>(backend: &W, space: u64, target: WindowTarget) -> bool {
    ||| exists|state: Result<(bool, bool), String>|
        #[trigger] state_answer::<I, W>(backend, space, state) && desktop_outcome(space, state) is Some
    ||| exists|membership: Result<Vec<u64>, String>|
        #[trigger] membership_answer::<I, W>(backend, target, membership) && membership_outcome(space, membership) is Some
}

/// Some answers of the backend accept narrowed access of `target` to `space`:
/// the desktop exists and the window is on it alone.
pub open spec fn acceptable<I, W: WorkspaceBackend<I>>(backend: &W, space: u64, target: WindowTarget) -> bool {
    &&& exists|state: Result<(bool, bool), String>|
        #[trigger] state_answer::<I, W>(backend, space, state) && desktop_outcome(space, state) is None
    &&& exists|membership: Result<Vec<u64>, String>|
        #[trigger] membership_answer::<I, W>(backend, target, membership) && membership_outcome(space, membership) is None
}

impl<I: WindowIdentity, W: WorkspaceBackend<I>> SelectedWindows<I, W> {
    /// Each selected window with its lease: `Some` while the lifetime witness
    /// holds, `None` once it failed.
    pub closed spec fn identities(&self) -> Map<WindowTarget, Option<Arc<I>>> {
        assoc_map(self.windows@)
    }

    /// The order in which the selected windows are kept.
    pub closed spec fn key_order(&self) -> Seq<WindowTarget> {
        self.windows@.map_values(|e: (WindowTarget, Option<Arc<I>>)| e.0)
    }

    /// Whether access is narrowed to the session's owned desktop.
    pub closed spec fn restricted(&self) -> bool {
        self.workspace is Some
    }

    /// The backend that narrowed access asks about the owned desktop.
    pub closed spec fn narrowing_backend(&self) -> Option<Arc<W>> {
        match self.workspace {
            Some(w) => Some(w.backend),
            None => None,
        }
    }

    /// The owned desktop, when access is narrowed and a desktop is owned.
    pub closed spec fn workspace_space(&self) -> Option<u64> {
        match self.workspace {
            Some(w) => w.space,
            None => None,
        }
    }

    /// Windows admitted by a trusted workspace launch.
    pub closed spec fn launched(&self) -> Set<WindowTarget> {
        self.launched@.to_set()
    }

    pub closed spec fn wf(&self) -> bool {
        &&& unique_keys(self.windows@)
        &&& forall|i: int|
            0 <= i < self.windows@.len() ==> valid_target(#[trigger] self.windows@[i].0)
        &&& forall|i: int|
            0 <= i < self.launched@.len() ==> has_key(self.windows@, #[trigger] self.launched@[i])
    }

    pub open spec fn is_selected(&self, t: WindowTarget) -> bool {
        self.identities().contains_key(t)
    }

    pub open spec fn is_live(&self, t: WindowTarget) -> bool {
        self.identities().contains_key(t) && self.identities()[t] is Some
    }

    pub open spec fn is_revoked(&self, t: WindowTarget) -> bool {
        self.identities().contains_key(t) && self.identities()[t] is None
    }

    /// The same windows are selected, in the same order, under the same
    /// workspace narrowing and launch record; a revoked lease stays revoked.
    pub open spec fn same_policy(&self, old: &Self) -> bool {
        &&& self.identities().dom() == old.identities().dom()
        &&& self.key_order() == old.key_order()
        &&& self.restricted() == old.restricted()
        &&& self.workspace_space() == old.workspace_space()
        &&& self.narrowing_backend() == old.narrowing_backend()
        &&& self.launched() == old.launched()
        &&& forall|t: WindowTarget| old.is_revoked(t) ==> #[trigger] self.is_revoked(t)
    }

    /// What re-proving the lease of `t` does: a window outside the selection
    /// and a revoked lease are refused; a live lease either stays live (and
    /// may succeed) or is revoked (and fails).
    pub open spec fn lease_check(&self, old: &Self, t: WindowTarget, ok: bool, err: Seq<char>) -> bool {
        &&& self.wf()
        &&& self.same_policy(old)
        &&& !old.is_selected(t) ==> !ok && err == denied_msg() && self.identities()
            == old.identities()
        &&& old.is_revoked(t) ==> !ok && err == stale_msg() && self.identities()
            == old.identities()
        &&& old.is_live(t) ==> (self.identities() == old.identities() || (!ok
            && self.identities() == old.identities().insert(t, None)))
        &&& ok ==> old.is_live(t) && self.identities() == old.identities()
        &&& (ok || !old.is_live(t)) ==> *self == *old
    }

    /// Leases change only by revocation, and the only windows added are
    /// windows admitted by a workspace launch.
    pub open spec fn evolves_from(&self, old: &Self) -> bool {
        &&& self.wf()
        &&& self.restricted() == old.restricted()
        &&& forall|t: WindowTarget| #[trigger] old.is_selected(t) ==> self.is_selected(t) && (
        self.identities()[t] == old.identities()[t] || (old.is_live(t) && self.is_revoked(t)))
        &&& forall|t: WindowTarget|
            #[trigger] self.is_selected(t) && !old.is_selected(t) ==> self.launched().contains(t)
        &&& old.launched().subset_of(self.launched())
    }

    pub proof fn lemma_evolves_refl(&self)
        requires
            self.wf(),
        ensures
            self.evolves_from(self),
    {
    }

    pub proof fn lemma_evolves_trans(a: &Self, b: &Self, c: &Self)
        requires
            b.evolves_from(a),
            c.evolves_from(b),
        ensures
            c.evolves_from(a),
    {
        assert forall|t: WindowTarget| #[trigger] c.is_selected(t) && !a.is_selected(t) implies c.launched().contains(t) by {
            if b.is_selected(t) {
                assert(b.launched().contains(t));
            }
        }
    }

    pub proof fn lemma_same_policy_trans(a: &Self, b: &Self, c: &Self)
        requires
            b.same_policy(a),
            c.same_policy(b),
        ensures
            c.same_policy(a),
    {
    }

    /// Under the same policy a window live now was live before.
    pub proof fn lemma_same_policy_live(new: &Self, old: &Self, t: WindowTarget)
        requires
            new.same_policy(old),
            new.is_live(t),
        ensures
            old.is_live(t),
    {
        assert(new.identities().dom().contains(t));
        if old.is_revoked(t) {
            assert(new.is_revoked(t));
        }
    }

    pub proof fn lemma_lease_check_evolves(new: &Self, old: &Self, t: WindowTarget, ok: bool, err: Seq<char>)
        requires
            new.lease_check(old, t, ok, err),
        ensures
            new.evolves_from(old),
    {
        assert forall|x: WindowTarget| #[trigger] old.is_selected(x) implies new.is_selected(x) && (
        new.identities()[x] == old.identities()[x] || (old.is_live(x) && new.is_revoked(x))) by {
            assert(new.identities().dom() == old.identities().dom());
        }
    }

    fn find(&self, target: WindowTarget) -> (r: Option<usize>)
        requires
            self.wf(),
        ensures
            match r {
                Some(i) => i < self.windows@.len() && self.windows@[i as int].0 == target,
                None => !has_key(self.windows@, target),
            },
    {
        let n = self.windows.len();
        for i in 0..n
            invariant
                n == self.windows@.len(),
                forall|j: int| 0 <= j < i ==> self.windows@[j].0 != target,
        {
            if self.windows[i].0 == target {
                return Some(i);
            }
        }
        None
    }

    /// Binds a lifetime witness for each target. Targets must be valid exact
    /// windows, each named once.
    pub fn bind<B: WindowSelectionBackend<I>>(targets: &[WindowTarget], backend: &B) -> (r: Result<
        Self,
        String,
    >)
        ensures
            !admissible_targets(targets@) ==> r is Err,
            targets@.len() == 0 ==> r is Ok,
            r matches Err(e) ==> exists|i: int|
                0 <= i < targets@.len() && #[trigger] admissible_targets(targets@.subrange(0, i)) && (
                !admissible_targets(targets@.subrange(0, i + 1)) ==> e@ == invalid_selection_msg()),
            r matches Ok(s) ==> {
                &&& s.wf()
                &&& admissible_targets(targets@)
                &&& s.identities().dom() == targets@.to_set()
                &&& forall|t: WindowTarget| #[trigger] s.is_selected(t) ==> s.is_live(t)
                &&& !s.restricted()
                &&& s.launched() == Set::<WindowTarget>::empty()
            },
    {
        let mut windows: Vec<(WindowTarget, Option<Arc<I>>)> = Vec::new();
        proof {
            lemma_empty(windows@);
        }
        let n = targets.len();
        for i in 0..n
            invariant
                n == targets@.len(),
                windows@.len() == i,
                unique_keys(windows@),
                forall|j: int| 0 <= j < i ==> #[trigger] windows@[j].0 == targets@[j],
                forall|j: int| 0 <= j < i ==> (#[trigger] windows@[j]).1 is Some,
                forall|j: int| 0 <= j < i ==> valid_target(#[trigger] targets@[j]),
                forall|a: int, b: int| 0 <= a < i && 0 <= b < i && a != b ==> targets@[a]
                    != targets@[b],
        {
            let target = targets[i];
            let mut duplicate = false;
            for j in 0..i
                invariant
                    i < n,
                    n == targets@.len(),
                    windows@.len() == i,
                    forall|k: int| 0 <= k < i ==> #[trigger] windows@[k].0 == targets@[k],
                    target == targets@[i as int],
                    duplicate <==> exists|k: int| 0 <= k < j && windows@[k].0 == target,
            {
                if windows[j].0 == target {
                    duplicate = true;
                }
            }
            if target.pid <= 0 || target.window_id == 0 || duplicate {
                proof {
                    if duplicate {
                        let k = choose|k: int| 0 <= k < i && windows@[k].0 == target;
                        assert(targets@[k] == targets@[i as int]);
                    }
                }
                proof {
                    assert(admissible_targets(targets@.subrange(0, i as int)));
                }
                return Err("selected_window_invalid: targets must be unique exact windows".to_owned());
            }
            proof {
                assert forall|k: int| 0 <= k < i implies targets@[k] != targets@[i as int] by {
                    assert(windows@[k].0 == targets@[k]);
                }
            }
            let identity = match backend.bind(target) {
                Ok(identity) => identity,
                Err(e) => {
                    proof {
                        assert(admissible_targets(targets@.subrange(0, i as int)));
                        assert(admissible_targets(targets@.subrange(0, i + 1)));
                    }
                    return Err(e);
                },
            };
            proof {
                assert(!has_key(windows@, target));
                lemma_push(windows@, target, Some(Arc::new(identity)));
            }
            windows.push((target, Some(Arc::new(identity))));
        }
        let r = SelectedWindows { workspace: None, windows, launched: Vec::new() };
        proof {
            assert(admissible_targets(targets@));
            assert forall|t: WindowTarget| r.identities().dom().contains(t) == targets@.to_set().contains(t) by {
                if has_key(r.windows@, t) {
                    let j = choose|j: int| 0 <= j < r.windows@.len() && r.windows@[j].0 == t;
                    assert(targets@[j] == t);
                }
                if targets@.to_set().contains(t) {
                    let j = choose|j: int| 0 <= j < targets@.len() && targets@[j] == t;
                    assert(r.windows@[j].0 == t);
                }
            }
            assert(r.identities().dom() =~= targets@.to_set());
            assert forall|t: WindowTarget| #[trigger] r.is_selected(t) implies r.is_live(t) by {
                let j = choose|j: int| 0 <= j < r.windows@.len() && r.windows@[j].0 == t;
                lemma_lookup(r.windows@, j);
            }
            assert(r.launched() =~= Set::<WindowTarget>::empty());
        }
        Ok(r)
    }

    /// Return the already approved lifetime witness, never bind a caller's ID.
    /// Once a lifetime proof fails the lease is revoked for good.
    pub fn native_identity(&mut self, target: WindowTarget) -> (r: Result<Arc<I>, String>)
        requires
            old(self).wf(),
        ensures
            final(self).lease_check(&*old(self), target, r is Ok, err_view(r)),
            r matches Ok(id) ==> old(self).identities()[target] == Some(id),
            old(self).is_live(target) && r is Err ==> err_view(r)
                == "selected_window_stale: native lifetime could not be re-proven"@
                && final(self).is_revoked(target),
    {
        let idx = match self.find(target) {
            Some(i) => i,
            None => {
                proof {
                    lemma_absent(self.windows@, target);
                }
                return Err(
                    "selected_window_denied: target is outside this session's selection".to_owned(),
                );
            },
        };
        proof {
            lemma_lookup(self.windows@, idx as int);
        }
        let identity = match &self.windows[idx].1 {
            Some(identity) => identity.clone(),
            None => {
                return Err("selected_window_stale: native lifetime is no longer valid".to_owned());
            },
        };
        if identity.validate().is_err() {
            let ghost before = *self;
            proof {
                lemma_update(self.windows@, idx as int, None);
            }
            self.windows.set(idx, (target, None));
            proof {
                assert(self.windows@ == before.windows@.update(idx as int, (target, None)));
                assert(self.key_order() =~= before.key_order());
                assert(self.identities() == before.identities().insert(target, None));
                assert(self.identities().dom() =~= before.identities().dom());
                assert forall|t: WindowTarget| before.is_revoked(t) implies #[trigger] self.is_revoked(t) by {
                    if t != target {
                        assert(self.identities()[t] == before.identities()[t]);
                    }
                }
                assert forall|j: int| 0 <= j < self.launched@.len() implies has_key(
                    self.windows@,
                    #[trigger] self.launched@[j],
                ) by {
                    let k = choose|k: int| 0 <= k < before.windows@.len() && before.windows@[k].0 == self.launched@[j];
                    assert(self.windows@[k].0 == self.launched@[j]);
                }
            }
            return Err("selected_window_stale: native lifetime could not be re-proven".to_owned());
        }
        Ok(identity)
    }

    /// What re-proving access to `target` did: the lease check, and, when
    /// access is narrowed to the owned desktop, the desktop check after a
    /// successful lease check. Without a desktop the call is refused; with
    /// one, `desktop_access` and then `membership_access` decide on the window
    /// server's answers.
    pub open spec fn validated(&self, old: &Self, target: WindowTarget, r: Result<(), String>) -> bool {
        let lease_ok = old.is_live(target) && self.is_live(target);
        &&& self.lease_check(old, target, r is Ok, err_view(r))
        &&& old.is_live(target) && r is Err && !self.is_live(target) ==> self.is_revoked(target)
        &&& !old.restricted() ==> (r is Ok <==> lease_ok)
        &&& old.restricted() && old.workspace_space() is None ==> r is Err && (lease_ok ==> err_view(r)
            == no_workspace_msg())
        &&& r is Ok ==> lease_ok
        &&& lease_ok ==> (old.workspace_space() matches Some(space) ==> (old.narrowing_backend() matches Some(b) ==> {
            &&& r is Ok ==> acceptable::<I, W>(&*b, space, target)
            &&& r is Err ==> refusable::<I, W>(&*b, space, target)
        }))
    }

    /// Every window live now that validation had to accept is listed.
    pub open spec fn lists_listable(&self, old: &Self, listed: Seq<WindowTarget>) -> bool {
        forall|t: WindowTarget| #[trigger] self.is_live(t) && old.listable(t) ==> listed.contains(t)
    }

    /// A live window that validation must accept: access is not narrowed, or
    /// it is narrowed to an owned desktop and no answer of the backend would
    /// refuse the window there.
    pub open spec fn listable(&self, target: WindowTarget) -> bool {
        ||| !self.restricted()
        ||| (self.workspace_space() matches Some(space) && self.narrowing_backend() matches Some(b)
            && !refusable::<I, W>(&*b, space, target))
    }

    /// Re-proves the lease of `target` and, when access is narrowed to the
    /// owned desktop, requires that desktop to exist and to be the window's
    /// only desktop.
    pub fn validate(&mut self, target: WindowTarget) -> (r: Result<(), String>)
        requires
            old(self).wf(),
        ensures
            final(self).validated(&*old(self), target, r),
    {
        match self.native_identity(target) {
            Ok(_) => {},
            Err(e) => return Err(e),
        }
        match &self.workspace {
            Some(workspace) => {
                let space = match workspace.space {
                    Some(space) => space,
                    None => return Err("workspace_access_denied: no owned workspace".to_owned()),
                };
                let state = workspace.backend.state(space);
                let ghost seen_state = state;
                let desktop = desktop_access(space, state);
                if desktop.is_err() {
                    assert(state_answer::<I, W>(&*workspace.backend, space, seen_state));
                    return desktop;
                }
                let membership = workspace.backend.membership(target);
                let ghost seen_membership = membership;
                let r = membership_access(space, membership);
                assert(state_answer::<I, W>(&*workspace.backend, space, seen_state));
                assert(membership_answer::<I, W>(&*workspace.backend, target, seen_membership));
                return r;
            },
            None => {},
        }
        Ok(())
    }

    /// Narrows access to the session's owned desktop. The first narrowing is
    /// kept; later calls change nothing.
    pub fn restrict_to_workspace(&mut self, backend: Arc<W>)
        requires
            old(self).wf(),
        ensures
            final(self).wf(),
            final(self).restricted(),
            final(self).identities() == old(self).identities(),
            final(self).key_order() == old(self).key_order(),
            final(self).launched() == old(self).launched(),
            final(self).workspace_space() == old(self).workspace_space(),
            old(self).restricted() ==> *final(self) == *old(self),
    {
        if self.workspace.is_none() {
            self.workspace = Some(WorkspaceRestriction { backend, space: None });
        }
    }

    /// Records the desktop the session now owns (or `None`). Without
    /// workspace narrowing this changes nothing.
    pub fn set_workspace(&mut self, space: Option<u64>)
        requires
            old(self).wf(),
        ensures
            final(self).wf(),
            final(self).restricted() == old(self).restricted(),
            final(self).workspace_space() == (if old(self).restricted() {
                space
            } else {
                None
            }),
            final(self).identities() == old(self).identities(),
            final(self).key_order() == old(self).key_order(),
            final(self).launched() == old(self).launched(),
    {
        match self.workspace.take() {
            Some(workspace) => {
                self.workspace = Some(WorkspaceRestriction { backend: workspace.backend, space });
            },
            None => {},
        }
    }

    /// Admits the exact window that a trusted workspace launch created. Only a
    /// valid window that is not yet part of the selection, and whose witness
    /// proves its lifetime now, is admitted.
    pub fn admit_launched_window(&mut self, target: WindowTarget, identity: Arc<I>) -> (r: Result<(), String>)
        requires
            old(self).wf(),
        ensures
            final(self).wf(),
            final(self).restricted() == old(self).restricted(),
            final(self).workspace_space() == old(self).workspace_space(),
            !valid_target(target) || old(self).is_selected(target) ==> r is Err && err_view(r)
                == "selected_window_invalid: launched window is not a new exact window"@,
            r is Err ==> *final(self) == *old(self),
            final(self).evolves_from(&*old(self)),
            r is Ok ==> {
                &&& valid_target(target)
                &&& !old(self).is_selected(target)
                &&& final(self).identities() == old(self).identities().insert(target, Some(identity))
                &&& final(self).launched() == old(self).launched().insert(target)
                &&& final(self).key_order() == old(self).key_order().push(target)
            },
    {
        if target.pid <= 0 || target.window_id == 0 || self.find(target).is_some() {
            return Err("selected_window_invalid: launched window is not a new exact window".to_owned());
        }
        if identity.validate().is_err() {
            return Err("selected_window_stale: launched window lifetime could not be proven".to_owned());
        }
        let ghost before = *self;
        proof {
            lemma_absent(self.windows@, target);
            lemma_push(self.windows@, target, Some(identity));
        }
        self.windows.push((target, Some(identity)));
        self.launched.push(target);
        proof {
            assert(self.key_order() =~= before.key_order().push(target));
            assert forall|x: WindowTarget| #[trigger] self.launched@.contains(x) == before.launched@.to_set().insert(target).contains(x) by {
                if self.launched@.contains(x) {
                    let j = choose|j: int| 0 <= j < self.launched@.len() && self.launched@[j] == x;
                    if j < before.launched@.len() {
                        assert(before.launched@[j] == x);
                    }
                }
                if before.launched@.contains(x) {
                    let j = choose|j: int| 0 <= j < before.launched@.len() && before.launched@[j] == x;
                    assert(self.launched@[j] == x);
                }
                if x == target {
                    assert(self.launched@[before.launched@.len() as int] == x);
                }
            }
            assert(self.launched() =~= before.launched().insert(target));
            assert forall|t: WindowTarget| #[trigger] before.is_selected(t) implies self.is_selected(t) && self.identities()[t] == before.identities()[t] by {
            }
            assert forall|j: int| 0 <= j < self.launched@.len() implies has_key(
                self.windows@,
                #[trigger] self.launched@[j],
            ) by {
                if j < before.launched@.len() {
                    let k = choose|k: int| 0 <= k < before.windows@.len() && before.windows@[k].0 == self.launched@[j];
                    assert(self.windows@[k].0 == self.launched@[j]);
                } else {
                    assert(self.windows@[before.windows@.len() as int].0 == target);
                }
            }
        }
        Ok(())
    }

    /// Whether `target` was admitted by a workspace launch and its access
    /// still validates.
    pub fn is_live_launched_window(&mut self, target: WindowTarget) -> (r: bool)
        requires
            old(self).wf(),
        ensures
            final(self).wf(),
            final(self).same_policy(&*old(self)),
            !old(self).launched().contains(target) ==> !r && *final(self) == *old(self),
            r ==> old(self).launched().contains(target) && old(self).is_live(target)
                && final(self).identities() == old(self).identities(),
            final(self).identities() == old(self).identities() || (!r && old(self).is_live(target)
                && final(self).identities() == old(self).identities().insert(target, None)),
            old(self).launched().contains(target) && !old(self).restricted() ==> (r
                <==> final(self).is_live(target)),
            old(self).restricted() && old(self).workspace_space() is None ==> !r,
    {
        let mut launched = false;
        let n = self.launched.len();
        for i in 0..n
            invariant
                n == self.launched@.len(),
                launched <==> exists|j: int| 0 <= j < i && self.launched@[j] == target,
        {
            if self.launched[i] == target {
                launched = true;
            }
        }
        if !launched {
            return false;
        }
        self.validate(target).is_ok()
    }

    /// The selected windows whose access currently validates, in selection order.
    pub fn live_targets(&mut self) -> (r: Vec<WindowTarget>)
        requires
            old(self).wf(),
        ensures
            final(self).wf(),
            final(self).same_policy(&*old(self)),
            forall|t: WindowTarget| old(self).is_live(t) ==> final(self).is_selected(t) && (
            final(self).is_live(t) || final(self).is_revoked(t)),
            forall|i: int|
                0 <= i < r@.len() ==> old(self).is_live(#[trigger] r@[i]) && final(self).is_live(r@[i]),
            forall|i: int, j: int| 0 <= i < r@.len() && 0 <= j < r@.len() && i != j ==> r@[i]
                != r@[j],
            !old(self).restricted() ==> forall|t: WindowTarget| #[trigger] final(self).is_live(t) ==> r@.contains(t),
            old(self).restricted() && old(self).workspace_space() is None ==> r@.len() == 0,
            final(self).lists_listable(&*old(self), r@),
    {
        let ghost start = *self;
        let n = self.windows.len();
        let mut out: Vec<WindowTarget> = Vec::new();
        let mut i: usize = 0;
        while i < n
            invariant
                i <= n,
                self.wf(),
                self.same_policy(&start),
                n == self.windows@.len(),
                start.wf(),
                forall|t: WindowTarget| start.is_live(t) ==> self.is_live(t) || self.is_revoked(t),
                forall|t: WindowTarget| start.is_revoked(t) ==> self.is_revoked(t),
                forall|k: int| i <= k < n ==> self.identities()[#[trigger] self.windows@[k].0]
                    == start.identities()[self.windows@[k].0],
                forall|a: int| 0 <= a < out@.len() ==> start.is_live(#[trigger] out@[a]) && self.is_live(out@[a]),
                forall|a: int| 0 <= a < out@.len() ==> exists|k: int| 0 <= k < i && self.windows@[k].0 == #[trigger] out@[a],
                forall|a: int, b: int| 0 <= a < out@.len() && 0 <= b < out@.len() && a != b ==> out@[a] != out@[b],
                forall|k: int| 0 <= k < i && #[trigger] self.is_live(self.windows@[k].0) && start.listable(self.windows@[k].0) ==> out@.contains(self.windows@[k].0),
                start.restricted() && start.workspace_space() is None ==> out@.len() == 0,
            decreases n - i,
        {
            let target = self.windows[i].0;
            proof {
                assert(self.key_order()[i as int] == target);
                lemma_lookup(self.windows@, i as int);
            }
            let ghost before = *self;
            let ok = self.validate(target).is_ok();
            proof {
                assert(self.key_order() == before.key_order());
                assert forall|k: int| i + 1 <= k < n implies self.identities()[#[trigger] self.windows@[k].0]
                    == start.identities()[self.windows@[k].0] by {
                    assert(self.key_order()[k] == before.key_order()[k]);
                    assert(self.windows@[k].0 == before.windows@[k].0);
                    assert(before.windows@[k].0 != target);
                }
                assert forall|a: int| 0 <= a < out@.len() implies self.is_live(#[trigger] out@[a]) by {
                    let k = choose|k: int| 0 <= k < i && before.windows@[k].0 == out@[a];
                    assert(before.windows@[k].0 != before.windows@[i as int].0);
                }
            }
            let ghost out_before = out@;
            if ok {
                proof {
                    assert forall|a: int| 0 <= a < out@.len() implies out@[a] != target by {
                        let k = choose|k: int| 0 <= k < i && before.windows@[k].0 == out@[a];
                        assert(before.windows@[k].0 != before.windows@[i as int].0);
                    }
                }
                out.push(target);
                proof {
                    assert forall|a: int| 0 <= a < out@.len() implies exists|k: int| 0 <= k < i + 1 && self.windows@[k].0 == #[trigger] out@[a] by {
                        if a == out@.len() - 1 {
                            assert(self.windows@[i as int].0 == before.windows@[i as int].0);
                        } else {
                            let k = choose|k: int| 0 <= k < i && before.windows@[k].0 == out@[a];
                            assert(self.key_order()[k] == before.key_order()[k]);
                            assert(self.windows@[k].0 == before.windows@[k].0);
                        }
                    }
                }
            } else {
                proof {
                    assert forall|a: int| 0 <= a < out@.len() implies exists|k: int| 0 <= k < i + 1 && self.windows@[k].0 == #[trigger] out@[a] by {
                        let k = choose|k: int| 0 <= k < i && before.windows@[k].0 == out@[a];
                        assert(self.key_order()[k] == before.key_order()[k]);
                        assert(self.windows@[k].0 == before.windows@[k].0);
                    }
                }
            }
            proof {
                {
                    assert forall|k: int| 0 <= k < i + 1 && #[trigger] self.is_live(self.windows@[k].0) && start.listable(
                        self.windows@[k].0,
                    ) implies out@.contains(self.windows@[k].0) by {
                        assert(self.key_order()[k] == before.key_order()[k]);
                        assert(self.windows@[k].0 == before.windows@[k].0);
                        if k == i {
                            assert(ok);
                            assert(out@[out@.len() - 1] == target);
                        } else {
                            assert(before.windows@[k].0 != before.windows@[i as int].0);
                            assert(before.is_live(before.windows@[k].0));
                            assert(out_before.contains(before.windows@[k].0));
                            let a = choose|a: int| 0 <= a < out_before.len() && out_before[a] == before.windows@[k].0;
                            assert(out@[a] == out_before[a]);
                        }
                    }
                }
            }
            i = i + 1;
        }
        proof {
            assert forall|t: WindowTarget| start.is_live(t) implies self.is_selected(t) && (self.is_live(t) || self.is_revoked(t)) by {}
        }
        out
    }

    /// The exact window named by the arguments; both IDs are required.
    pub fn target(args: &ToolArgs) -> (r: Result<WindowTarget, String>)
        ensures
            match spec_target(*args) {
                Some(t) => r == Ok::<WindowTarget, String>(t),
                None => r is Err && err_view(r) == target_error(*args),
            },
    {
        let pid = match args.pid {
            Some(pid) => pid,
            None => return Err("selected_window_required: exact pid is required".to_owned()),
        };
        let window_id = match args.window_id {
            Some(window_id) => window_id,
            None => return Err("selected_window_required: exact window_id is required".to_owned()),
        };
        Ok(WindowTarget { pid, window_id })
    }

    /// Closed admission list. New tools must explicitly prove their scope
    /// before selected-window sessions may call them.
    pub fn authorize(&mut self, tool: &str, args: &ToolArgs) -> (r: Result<(), String>)
        requires
            old(self).wf(),
        ensures
            final(self).wf(),
            desktop_scope(*args) ==> *final(self) == *old(self) && r is Err && err_view(r)
                == "selected_window_background_required: desktop input is unavailable"@,
            !desktop_scope(*args) ==> {
                if tool@ == "start_recording"@ && args.record_video != Some(true) {
                    r is Ok && *final(self) == *old(self)
                } else if is_recording_control(tool@) {
                    r is Ok && *final(self) == *old(self)
                } else if tool@ == "get_browser_state"@ && !args.has_target_id {
                    match spec_target(*args) {
                        None => *final(self) == *old(self) && r is Err && err_view(r) == target_error(*args),
                        Some(t) => final(self).validated(&*old(self), t, r),
                    }
                } else if is_browser_tool(tool@) {
                    *final(self) == *old(self) && (r is Ok <==> !foreground_delivery(*args)) && (r is Err
                        ==> err_view(r)
                        == "selected_window_background_required: browser foreground delivery is not admitted"@)
                } else if is_session_tool(tool@) {
                    r is Ok && *final(self) == *old(self)
                } else if tool@ == "move_window_to_workspace"@ {
                    match spec_target(*args) {
                        None => *final(self) == *old(self) && r is Err && err_view(r) == target_error(*args),
                        Some(t) => final(self).lease_check(&*old(self), t, r is Ok, err_view(r)),
                    }
                } else if is_window_tool(tool@) {
                    if foreground_delivery(*args) {
                        *final(self) == *old(self) && r is Err && err_view(r)
                            == "selected_window_background_required: foreground delivery is not admitted"@
                    } else {
                        match spec_target(*args) {
                            None => *final(self) == *old(self) && r is Err && err_view(r) == target_error(*args),
                            Some(t) => final(self).validated(&*old(self), t, r),
                        }
                    }
                } else {
                    *final(self) == *old(self) && r is Err && err_view(r)
                        == "selected_window_operation_unsupported: this tool has no proven exact-window selection boundary"@
                }
            },
    {
        if desktop(args) {
            return Err("selected_window_background_required: desktop input is unavailable".to_owned());
        }
        let video = match args.record_video {
            Some(true) => true,
            _ => false,
        };
        if str_eq(tool, "start_recording") && !video {
            return Ok(());
        }
        if recording_control(tool) {
            return Ok(());
        }
        if str_eq(tool, "get_browser_state") && !args.has_target_id {
            let target = Self::target(args)?;
            return self.validate(target);
        }
        if browser_tool(tool) {
            if foreground(args) {
                return Err(
                    "selected_window_background_required: browser foreground delivery is not admitted".to_owned(),
                );
            }
            // Registry must validate implementation-attested native ownership.
            return Ok(());
        }
        if session_tool(tool) {
            return Ok(());
        }
        if str_eq(tool, "move_window_to_workspace") {
            let target = Self::target(args)?;
            return match self.native_identity(target) {
                Ok(_) => Ok(()),
                Err(e) => Err(e),
            };
        }
        if window_tool(tool) {
            if foreground(args) {
                return Err(
                    "selected_window_background_required: foreground delivery is not admitted".to_owned(),
                );
            }
            let target = Self::target(args)?;
            return self.validate(target);
        }
        Err(
            "selected_window_operation_unsupported: this tool has no proven exact-window selection boundary".to_owned(),
        )
    }
}

} // verus!
