//! Session-owned placement, independent from selected-window authorization.
//! Space metadata is not a security boundary and is never a capture source.
use vstd::prelude::*;
use std::sync::Arc;
use crate::assoc::{assoc_map, has_key, lemma_absent, lemma_empty, lemma_insert, lemma_lookup, unique_keys};
use crate::contract::{string_views, WorkspaceStateOutput, WorkspaceWindowState};
use crate::args::ToolArgs;
use crate::selection::{err_view, is_only, SelectedWindows, WindowIdentity, WindowTarget};
use crate::text::{replace_all, str_eq, str_replace};

verus! {

/// Trusted creation options for a new workspace desktop.
#[derive(Debug, Clone, Copy)]
pub struct WorkspaceCreationOptions {
    /// Trusted host opt-in to briefly showing Mission Control during setup.
    pub allow_mission_control: bool,
    pub display_id: Option<u32>,
}

impl WorkspaceCreationOptions {
    pub fn default_options() -> (r: WorkspaceCreationOptions)
        ensures
            !r.allow_mission_control,
            r.display_id is None,
    {
        WorkspaceCreationOptions { allow_mission_control: false, display_id: None }
    }
}

/// Launch recipes are loaded by the trusted host, never accepted as tool arguments.
pub struct WorkspaceApplication {
    pub bundle_id: String,
    pub arguments: Vec<String>,
    pub urls: Vec<String>,
}

/// A copy of a list of strings.
pub fn copy_strings(v: &Vec<String>) -> (r: Vec<String>)
    ensures
        string_views(r@) == string_views(v@),
{
    let mut out: Vec<String> = Vec::new();
    for i in 0..v.len()
        invariant
            out@.len() == i,
            forall|j: int| 0 <= j < i ==> (#[trigger] out@[j])@ == v@[j]@,
    {
        out.push(v[i].clone());
    }
    assert(string_views(out@) =~= string_views(v@));
    out
}

/// A copy of a list of desktop IDs.
pub fn copy_ids(v: &Vec<u64>) -> (r: Vec<u64>)
    ensures
        r@ == v@,
{
    let mut out: Vec<u64> = Vec::new();
    for i in 0..v.len()
        invariant
            out@ == v@.subrange(0, i as int),
    {
        out.push(v[i]);
        assert(out@ =~= v@.subrange(0, i + 1));
    }
    assert(v@.subrange(0, v@.len() as int) =~= v@);
    out
}

/// The placeholder in launch arguments that names the owned workspace.
pub open spec fn workspace_placeholder() -> Seq<char> {
    "{workspace}"@
}

impl WorkspaceApplication {
    /// Bundle, arguments and URLs, as text.
    pub open spec fn spec_recipe(&self) -> (Seq<char>, Seq<Seq<char>>, Seq<Seq<char>>) {
        (self.bundle_id@, string_views(self.arguments@), string_views(self.urls@))
    }

    pub fn duplicate(&self) -> (r: WorkspaceApplication)
        ensures
            r.spec_recipe() == self.spec_recipe(),
    {
        WorkspaceApplication {
            bundle_id: self.bundle_id.clone(),
            arguments: copy_strings(&self.arguments),
            urls: copy_strings(&self.urls),
        }
    }

    /// Only the trusted recipe can request substitution; the scope is driver-minted.
    /// Each argument has every `{workspace}` replaced by `scope`.
    pub fn for_workspace(&self, scope: &str) -> (r: WorkspaceApplication)
        ensures
            r.bundle_id@ == self.bundle_id@,
            string_views(r.urls@) == string_views(self.urls@),
            r.arguments@.len() == self.arguments@.len(),
            forall|i: int|
                0 <= i < r.arguments@.len() ==> (#[trigger] r.arguments@[i])@ == replace_all(
                    self.arguments@[i]@,
                    workspace_placeholder(),
                    scope@,
                ),
    {
        let mut arguments: Vec<String> = Vec::new();
        for i in 0..self.arguments.len()
            invariant
                arguments@.len() == i,
                forall|j: int|
                    0 <= j < i ==> (#[trigger] arguments@[j])@ == replace_all(
                        self.arguments@[j]@,
                        workspace_placeholder(),
                        scope@,
                    ),
        {
            proof {
                reveal_strlit("{workspace}");
            }
            arguments.push(str_replace(self.arguments[i].as_str(), "{workspace}", scope));
        }
        WorkspaceApplication {
            bundle_id: self.bundle_id.clone(),
            arguments,
            urls: copy_strings(&self.urls),
        }
    }
}

/// A window that a workspace launch created, with its lifetime witness.
pub struct LaunchedWorkspaceWindow<I> {
    pub target: WindowTarget,
    pub identity: I,
}

/// Native desktop operations of one platform.
pub trait WorkspaceBackend<I> {
    /// Launches a trusted recipe and attests its one new window. A platform
    /// without isolated launch refuses.
    fn launch(&self, recipe: &WorkspaceApplication) -> (r: Result<LaunchedWorkspaceWindow<I>, String>)
        default_ensures
            r is Err && err_view(r) == launch_unsupported_msg(),
    {
        Err("workspace_operation_unsupported: isolated workspace app launch is unavailable".to_owned())
    }

    fn create(&self) -> Result<u64, String>;

    fn create_with_options(&self, options: WorkspaceCreationOptions) -> Result<u64, String> {
        self.create()
    }

    /// Whether the desktop exists and whether it is the active one.
    fn state(&self, space: u64) -> Result<(bool, bool), String>;

    /// The desktops the window currently belongs to.
    fn membership(&self, target: WindowTarget) -> Result<Vec<u64>, String>;

    fn move_window(&self, target: WindowTarget, space: u64) -> Result<(), String>;

    fn reveal_space(&self, space: u64) -> Result<(), String>;

    /// Deletes a desktop. A platform without safe deletion refuses.
    fn delete(&self, space: u64) -> (r: Result<(), String>)
        default_ensures
            r is Err && err_view(r) == delete_unsupported_msg(),
    {
        Err("workspace_operation_unsupported: safe native Space deletion is unavailable".to_owned())
    }
}

pub open spec fn launch_unsupported_msg() -> Seq<char> {
    "workspace_operation_unsupported: isolated workspace app launch is unavailable"@
}

pub open spec fn delete_unsupported_msg() -> Seq<char> {
    "workspace_operation_unsupported: safe native Space deletion is unavailable"@
}

pub open spec fn unsupported_msg() -> Seq<char> {
    "workspace_operation_unsupported: native session workspaces are unavailable on this platform"@
}

pub fn unsupported() -> (r: String)
    ensures
        r@ == unsupported_msg(),
{
    "workspace_operation_unsupported: native session workspaces are unavailable on this platform".to_owned()
}

/// The backend of a platform without native session workspaces.
pub struct Unsupported;

impl<I> WorkspaceBackend<I> for Unsupported {
    fn create(&self) -> (r: Result<u64, String>) {
        Err(unsupported())
    }

    fn state(&self, space: u64) -> (r: Result<(bool, bool), String>) {
        Err(unsupported())
    }

    fn membership(&self, target: WindowTarget) -> (r: Result<Vec<u64>, String>) {
        Err(unsupported())
    }

    fn move_window(&self, target: WindowTarget, space: u64) -> (r: Result<(), String>) {
        Err(unsupported())
    }

    fn reveal_space(&self, space: u64) -> (r: Result<(), String>) {
        Err(unsupported())
    }
}

/// `answer` is an answer the host's backend can give when asked for the
/// state of `space`.
pub open spec fn state_answer<I, W: WorkspaceBackend<I>>(backend: &W, space: u64, answer: Result<(bool, bool), String>) -> bool {
    call_ensures(W::state, (backend, space), answer)
}

/// `answer` is an answer the host's backend can give when asked for the
/// desktops of `target`.
pub open spec fn membership_answer<I, W: WorkspaceBackend<I>>(
    backend: &W,
    target: WindowTarget,
    answer: Result<Vec<u64>, String>,
) -> bool {
    call_ensures(W::membership, (backend, target), answer)
}

/// `answer` is an answer the host's backend can give when asked to launch
/// `recipe`.
pub open spec fn launch_answer<I, W: WorkspaceBackend<I>>(
    backend: &W,
    recipe: &WorkspaceApplication,
    answer: Result<LaunchedWorkspaceWindow<I>, String>,
) -> bool {
    call_ensures(W::launch, (backend, recipe), answer)
}

/// `answer` is an answer that `backend` gives for the state of `space`: the
/// host's answer, or the refusal of a platform without workspaces.
pub open spec fn backend_state_answer<I, W: WorkspaceBackend<I>>(
    backend: Backend<W>,
    space: u64,
    answer: Result<(bool, bool), String>,
) -> bool {
    match backend {
        Backend::Native(w) => state_answer::<I, W>(&*w, space, answer),
        Backend::Unavailable(_) => answer matches Err(e) && e@ == unsupported_msg(),
    }
}

/// `answer` is an answer that `backend` gives for the desktops of `target`.
pub open spec fn backend_membership_answer<I, W: WorkspaceBackend<I>>(
    backend: Backend<W>,
    target: WindowTarget,
    answer: Result<Vec<u64>, String>,
) -> bool {
    match backend {
        Backend::Native(w) => membership_answer::<I, W>(&*w, target, answer),
        Backend::Unavailable(_) => answer matches Err(e) && e@ == unsupported_msg(),
    }
}

/// A reported workspace state carries, for its desktop, the existence and
/// active flags of one answer of the backend about that desktop.
pub open spec fn reports_backend_state<I, W: WorkspaceBackend<I>>(
    backend: Backend<W>,
    r: Result<WorkspaceStateOutput, String>,
) -> bool {
    r matches Ok(out) ==> (out.space_id matches Some(space) ==> backend_state_answer::<I, W>(
        backend,
        space,
        Ok::<(bool, bool), String>((out.space_exists, out.active)),
    ))
}

pub open spec fn space_deleted_msg() -> Seq<char> {
    "workspace_space_deleted: configured Space does not exist"@
}

/// What attaching a configured desktop makes of the backend's answer about
/// it: a failed query is returned, a missing desktop is refused.
/// When `settles`, an existing desktop is attached (nothing can fail after
/// the query).
pub open spec fn attach_outcome(answer: Result<(bool, bool), String>, ok: bool, err: Seq<char>, settles: bool) -> bool {
    match answer {
        Err(e) => !ok && err == e@,
        Ok((exists, _)) => if exists {
            settles ==> ok
        } else {
            !ok && err == space_deleted_msg()
        },
    }
}

/// Attaching the configured desktop, when no other session owns it, went by
/// one answer of the backend about that desktop.
pub open spec fn attach_checked<I, W: WorkspaceBackend<I>>(
    backend: Backend<W>,
    configured: Option<u64>,
    owned: Map<Seq<char>, WorkspaceModel>,
    ok: bool,
    err: Seq<char>,
    settles: bool,
) -> bool {
    match configured {
        Some(a) => !space_taken(owned, configured) ==> exists|answer: Result<(bool, bool), String>|
            #[trigger] backend_state_answer::<I, W>(backend, a, answer) && attach_outcome(answer, ok, err, settles),
        None => true,
    }
}

/// The backend can report `target` on `space` and on no other desktop.
pub open spec fn settled_in<I, W: WorkspaceBackend<I>>(backend: Backend<W>, target: WindowTarget, space: u64) -> bool {
    exists|ids: Vec<u64>|
        ids@ == seq![space] && #[trigger] backend_membership_answer::<I, W>(
            backend,
            target,
            Ok::<Vec<u64>, String>(ids),
        )
}

/// `answer` is an answer that `backend` gives when asked to launch `recipe`.
pub open spec fn backend_launch_answer<I, W: WorkspaceBackend<I>>(
    backend: Backend<W>,
    recipe: WorkspaceApplication,
    answer: Result<LaunchedWorkspaceWindow<I>, String>,
) -> bool {
    match backend {
        Backend::Native(w) => launch_answer::<I, W>(&*w, &recipe, answer),
        Backend::Unavailable(_) => answer matches Err(e) && e@ == launch_unsupported_msg(),
    }
}

/// `app` is the trusted recipe `recipe` scoped to a workspace: every
/// `{workspace}` in its arguments replaced by `scope`, the bundle and the
/// URLs as they are.
pub open spec fn scoped_recipe(
    app: WorkspaceApplication,
    recipe: (Seq<char>, Seq<Seq<char>>, Seq<Seq<char>>),
    scope: Seq<char>,
) -> bool {
    app.spec_recipe() == (
        recipe.0,
        recipe.1.map_values(|a: Seq<char>| replace_all(a, workspace_placeholder(), scope)),
        recipe.2,
    )
}

/// The backend launched `recipe`, scoped to `scope`, and attested `target`
/// as the new window.
pub open spec fn launched_scoped<I, W: WorkspaceBackend<I>>(
    backend: Backend<W>,
    recipe: (Seq<char>, Seq<Seq<char>>, Seq<Seq<char>>),
    scope: Seq<char>,
    target: WindowTarget,
) -> bool {
    exists|app: WorkspaceApplication, window: LaunchedWorkspaceWindow<I>|
        scoped_recipe(app, recipe, scope) && #[trigger] backend_launch_answer::<I, W>(
            backend,
            app,
            Ok::<LaunchedWorkspaceWindow<I>, String>(window),
        ) && window.target == target
}

/// What the backend's answers owe an operation on a session's workspace: a
/// successful move ends with the window reported on the workspace's desktop
/// alone, and a window newly recorded by a launch is one the backend
/// attested when asked to launch the alias's trusted recipe scoped to the
/// workspace's profile.
pub open spec fn native_effect<I, W: WorkspaceBackend<I>>(
    backend: Backend<W>,
    op: WorkspaceOperation,
    args: ToolArgs,
    manifest: Option<&WorkspaceManifest>,
    before: WorkspaceModel,
    after: WorkspaceModel,
    ok: bool,
) -> bool {
    match op {
        WorkspaceOperation::Move => match crate::selection::spec_target(args) {
            Some(t) => ok ==> settled_in::<I, W>(backend, t, before.space),
            None => true,
        },
        WorkspaceOperation::Launch => match args.app {
            Some(a) => after.launched != before.launched ==> match manifest {
                Some(m) => exists|j: int|
                    #[trigger] m.first_recipe(a@, j) && launched_scoped::<I, W>(
                        backend,
                        m.applications@[j].1.spec_recipe(),
                        before.profile_scope,
                        after.launched[a@],
                    ),
                None => false,
            },
            None => true,
        },
        _ => true,
    }
}

/// The native backend a host supplied, or none.
pub enum Backend<W> {
    Native(Arc<W>),
    Unavailable(Unsupported),
}

impl<I, W: WorkspaceBackend<I>> WorkspaceBackend<I> for Backend<W> {
    fn launch(&self, recipe: &WorkspaceApplication) -> (r: Result<LaunchedWorkspaceWindow<I>, String>)
        ensures
            self is Unavailable ==> r is Err && err_view(r) == launch_unsupported_msg(),
            self matches Backend::Native(b) ==> launch_answer::<I, W>(&*b, recipe, r),
            backend_launch_answer::<I, W>(*self, *recipe, r),
    {
        match self {
            Backend::Native(b) => b.launch(recipe),
            Backend::Unavailable(u) => WorkspaceBackend::<I>::launch(u, recipe),
        }
    }

    fn create(&self) -> (r: Result<u64, String>)
        ensures
            self is Unavailable ==> r is Err && err_view(r) == unsupported_msg(),
    {
        match self {
            Backend::Native(b) => b.create(),
            Backend::Unavailable(_) => Err(unsupported()),
        }
    }

    fn create_with_options(&self, options: WorkspaceCreationOptions) -> (r: Result<u64, String>)
        ensures
            self is Unavailable ==> r is Err && err_view(r) == unsupported_msg(),
    {
        match self {
            Backend::Native(b) => b.create_with_options(options),
            Backend::Unavailable(_) => Err(unsupported()),
        }
    }

    fn state(&self, space: u64) -> (r: Result<(bool, bool), String>)
        ensures
            self is Unavailable ==> r is Err && err_view(r) == unsupported_msg(),
            self matches Backend::Native(b) ==> state_answer::<I, W>(&*b, space, r),
            backend_state_answer::<I, W>(*self, space, r),
    {
        match self {
            Backend::Native(b) => b.state(space),
            Backend::Unavailable(_) => Err(unsupported()),
        }
    }

    fn membership(&self, target: WindowTarget) -> (r: Result<Vec<u64>, String>)
        ensures
            self is Unavailable ==> r is Err && err_view(r) == unsupported_msg(),
            self matches Backend::Native(b) ==> membership_answer::<I, W>(&*b, target, r),
            backend_membership_answer::<I, W>(*self, target, r),
    {
        match self {
            Backend::Native(b) => b.membership(target),
            Backend::Unavailable(_) => Err(unsupported()),
        }
    }

    fn move_window(&self, target: WindowTarget, space: u64) -> (r: Result<(), String>)
        ensures
            self is Unavailable ==> r is Err && err_view(r) == unsupported_msg(),
    {
        match self {
            Backend::Native(b) => b.move_window(target, space),
            Backend::Unavailable(_) => Err(unsupported()),
        }
    }

    fn reveal_space(&self, space: u64) -> (r: Result<(), String>)
        ensures
            self is Unavailable ==> r is Err && err_view(r) == unsupported_msg(),
    {
        match self {
            Backend::Native(b) => b.reveal_space(space),
            Backend::Unavailable(_) => Err(unsupported()),
        }
    }

    fn delete(&self, space: u64) -> (r: Result<(), String>)
        ensures
            self is Unavailable ==> r is Err && err_view(r) == delete_unsupported_msg(),
    {
        match self {
            Backend::Native(b) => b.delete(space),
            Backend::Unavailable(u) => WorkspaceBackend::<I>::delete(u, space),
        }
    }
}

/// Whether the session is still authorized; a launch rechecks this after
/// the native work completes.
pub trait SessionAuthority {
    fn is_revoked(&self) -> bool;

    fn is_expired(&self) -> bool;
}

/// The trusted workspace configuration of a session.
pub struct WorkspaceManifest {
    /// An existing desktop to attach instead of creating one.
    pub space_id: Option<u64>,
    pub creation_options: WorkspaceCreationOptions,
    /// Launch recipes by alias.
    pub applications: Vec<(String, WorkspaceApplication)>,
}

impl WorkspaceManifest {
    pub open spec fn spec_aliases(&self) -> Seq<Seq<char>> {
        self.applications@.map_values(|e: (String, WorkspaceApplication)| e.0@)
    }

    /// The position of the first recipe configured under `alias`, if any.
    pub open spec fn first_recipe(&self, alias: Seq<char>, i: int) -> bool {
        &&& 0 <= i < self.applications@.len()
        &&& self.applications@[i].0@ == alias
        &&& forall|j: int| 0 <= j < i ==> (#[trigger] self.applications@[j]).0@ != alias
    }

    pub open spec fn has_recipe(&self, alias: Seq<char>) -> bool {
        exists|i: int| 0 <= i < self.applications@.len() && (#[trigger] self.applications@[i]).0@ == alias
    }

    /// The recipe configured under a trusted alias.
    pub fn workspace_application(&self, alias: &str) -> (r: Result<WorkspaceApplication, String>)
        ensures
            r is Ok <==> self.has_recipe(alias@),
            r matches Ok(recipe) ==> exists|i: int| self.first_recipe(alias@, i)
                && recipe.spec_recipe() == self.applications@[i].1.spec_recipe(),
            r is Err ==> err_view(r) == "workspace_app_denied: alias is not a trusted workspace application"@,
    {
        for i in 0..self.applications.len()
            invariant
                forall|j: int| 0 <= j < i ==> (#[trigger] self.applications@[j]).0@ != alias@,
        {
            if str_eq(self.applications[i].0.as_str(), alias) {
                let recipe = self.applications[i].1.duplicate();
                assert(self.first_recipe(alias@, i as int));
                return Ok(recipe);
            }
        }
        Err("workspace_app_denied: alias is not a trusted workspace application".to_owned())
    }

    /// The configured launch aliases, in configuration order.
    pub fn workspace_application_aliases(&self) -> (r: Vec<String>)
        ensures
            string_views(r@) == self.spec_aliases(),
    {
        let mut out: Vec<String> = Vec::new();
        for i in 0..self.applications.len()
            invariant
                out@.len() == i,
                forall|j: int| 0 <= j < i ==> (#[trigger] out@[j])@ == self.applications@[j].0@,
        {
            out.push(self.applications[i].0.clone());
        }
        assert(string_views(out@) =~= self.spec_aliases());
        out
    }
}

/// `uuid::Uuid::new_v4().to_string()`: a fresh random UUID in its
/// hyphenated text form. Nothing is stated of its value: it is random.
#[verifier::external_body]
fn new_profile_scope() -> (r: String) {
    uuid::Uuid::new_v4().to_string()
}

/// Ordering of windows by process, then by window ID.
pub open spec fn target_lt(a: WindowTarget, b: WindowTarget) -> bool {
    a.pid < b.pid || (a.pid == b.pid && a.window_id < b.window_id)
}

pub open spec fn strictly_sorted(s: Seq<(WindowTarget, Seq<u64>)>) -> bool {
    forall|i: int, j: int| 0 <= i < j < s.len() ==> target_lt(s[i].0, s[j].0)
}

/// What the registry keeps of one owned workspace.
pub struct WorkspaceModel {
    pub space: u64,
    /// Created by this session rather than attached.
    pub created: bool,
    /// The driver-minted scope that launch recipes substitute.
    pub profile_scope: Seq<char>,
    /// Each moved or launched window with its recorded original desktops,
    /// ordered by (pid, window ID).
    pub moved: Seq<(WindowTarget, Seq<u64>)>,
    /// The window each launch alias created.
    pub launched: Map<Seq<char>, WindowTarget>,
    /// The retained failure of each alias whose launch failed.
    pub launch_failures: Map<Seq<char>, Seq<char>>,
}

/// A freshly created or attached workspace.
pub open spec fn fresh_workspace(space: u64, created: bool, scope: Seq<char>) -> WorkspaceModel {
    WorkspaceModel {
        space,
        created,
        profile_scope: scope,
        moved: Seq::empty(),
        launched: Map::empty(),
        launch_failures: Map::empty(),
    }
}

/// No two sessions own the same desktop.
pub open spec fn exclusive_spaces(owned: Map<Seq<char>, WorkspaceModel>) -> bool {
    forall|a: Seq<char>, b: Seq<char>|
        owned.contains_key(a) && owned.contains_key(b) && a != b ==> #[trigger] owned[a].space
            != #[trigger] owned[b].space
}

struct Workspace {
    space: u64,
    created: bool,
    profile_scope: String,
    // Preserve the first origin even after retries and partial native failures.
    moved: Vec<(WindowTarget, Vec<u64>)>,
    launched: Vec<(String, WindowTarget)>,
    launch_failures: Vec<(String, String)>,
}

impl Workspace {
    spec fn moved_seq(&self) -> Seq<(WindowTarget, Seq<u64>)> {
        self.moved@.map_values(|e: (WindowTarget, Vec<u64>)| (e.0, e.1@))
    }

    spec fn launched_seq(&self) -> Seq<(Seq<char>, WindowTarget)> {
        self.launched@.map_values(|e: (String, WindowTarget)| (e.0@, e.1))
    }

    spec fn failures_seq(&self) -> Seq<(Seq<char>, Seq<char>)> {
        self.launch_failures@.map_values(|e: (String, String)| (e.0@, e.1@))
    }

    spec fn model(&self) -> WorkspaceModel {
        WorkspaceModel {
            space: self.space,
            created: self.created,
            profile_scope: self.profile_scope@,
            moved: self.moved_seq(),
            launched: assoc_map(self.launched_seq()),
            launch_failures: assoc_map(self.failures_seq()),
        }
    }

    spec fn wf(&self) -> bool {
        &&& strictly_sorted(self.moved_seq())
        &&& unique_keys(self.launched_seq())
        &&& unique_keys(self.failures_seq())
    }
}

proof fn lemma_sorted_unique(s: Seq<(WindowTarget, Seq<u64>)>)
    requires
        strictly_sorted(s),
    ensures
        unique_keys(s),
{
    assert forall|i: int, j: int| 0 <= i < s.len() && 0 <= j < s.len() && i != j implies s[i].0
        != s[j].0 by {
        if i < j {
            assert(target_lt(s[i].0, s[j].0));
        } else {
            assert(target_lt(s[j].0, s[i].0));
        }
    }
}

proof fn lemma_sorted_insert(s: Seq<(WindowTarget, Seq<u64>)>, p: int, x: (WindowTarget, Seq<u64>))
    requires
        strictly_sorted(s),
        0 <= p <= s.len(),
        forall|i: int| 0 <= i < p ==> target_lt(s[i].0, x.0),
        forall|i: int| p <= i < s.len() ==> target_lt(x.0, s[i].0),
    ensures
        strictly_sorted(s.insert(p, x)),
{
    let t = s.insert(p, x);
    assert forall|i: int, j: int| 0 <= i < j < t.len() implies target_lt(t[i].0, t[j].0) by {
        if j < p {
            assert(t[i] == s[i] && t[j] == s[j]);
        } else if j == p {
            assert(t[i] == s[i]);
        } else if i < p {
            assert(t[i] == s[i] && t[j] == s[j - 1]);
        } else if i == p {
            assert(t[j] == s[j - 1]);
        } else {
            assert(t[i] == s[i - 1] && t[j] == s[j - 1]);
        }
    }
}

/// Records `ids` as the original desktops of `target`. With `keep_first`,
/// an origin recorded earlier is kept; otherwise it is replaced.
fn set_origin(moved: &mut Vec<(WindowTarget, Vec<u64>)>, target: WindowTarget, ids: Vec<u64>, keep_first: bool)
    requires
        strictly_sorted(old(moved)@.map_values(|e: (WindowTarget, Vec<u64>)| (e.0, e.1@))),
    ensures
        strictly_sorted(final(moved)@.map_values(|e: (WindowTarget, Vec<u64>)| (e.0, e.1@))),
        ({
            let before = assoc_map(old(moved)@.map_values(|e: (WindowTarget, Vec<u64>)| (e.0, e.1@)));
            let after = assoc_map(final(moved)@.map_values(|e: (WindowTarget, Vec<u64>)| (e.0, e.1@)));
            if keep_first && before.contains_key(target) {
                after == before
            } else {
                after == before.insert(target, ids@)
            }
        }),
{
    let ghost s = moved@.map_values(|e: (WindowTarget, Vec<u64>)| (e.0, e.1@));
    proof {
        lemma_sorted_unique(s);
    }
    let n = moved.len();
    let mut p: usize = 0;
    while p < n && (moved[p].0.pid < target.pid || (moved[p].0.pid == target.pid
        && moved[p].0.window_id < target.window_id))
        invariant
            p <= n,
            n == moved@.len(),
            s == moved@.map_values(|e: (WindowTarget, Vec<u64>)| (e.0, e.1@)),
            forall|i: int| 0 <= i < p ==> target_lt(s[i].0, target),
        decreases n - p,
    {
        p = p + 1;
    }
    if p < n && moved[p].0 == target {
        proof {
            lemma_lookup(s, p as int);
        }
        if keep_first {
            return;
        }
        let ghost before = moved@;
        moved.set(p, (target, ids));
        proof {
            let t = moved@.map_values(|e: (WindowTarget, Vec<u64>)| (e.0, e.1@));
            assert(t =~= s.update(p as int, (s[p as int].0, ids@)));
            crate::assoc::lemma_update(s, p as int, ids@);
            assert forall|i: int, j: int| 0 <= i < j < t.len() implies target_lt(t[i].0, t[j].0) by {
                assert(t[i].0 == s[i].0 && t[j].0 == s[j].0);
            }
        }
    } else {
        proof {
            assert forall|i: int| p <= i < s.len() implies target_lt(target, s[i].0) by {
                assert(!target_lt(s[p as int].0, target));
                assert(s[p as int].0 != target);
                if i > p {
                    assert(target_lt(s[p as int].0, s[i].0));
                }
            }
            lemma_sorted_insert(s, p as int, (target, ids@));
            assert forall|i: int| 0 <= i < s.len() implies s[i].0 != target by {
                if i < p {
                    assert(target_lt(s[i].0, target));
                } else {
                    assert(target_lt(target, s[i].0));
                }
            }
            lemma_absent(s, target);
            assert(!has_key(s, target));
            lemma_insert(s, p as int, target, ids@);
        }
        moved.insert(p, (target, ids));
        proof {
            assert(moved@.map_values(|e: (WindowTarget, Vec<u64>)| (e.0, e.1@)) =~= s.insert(p as int, (target, ids@)));
        }
    }
}

fn find_target_alias(v: &Vec<(String, WindowTarget)>, alias: &String) -> (r: Option<usize>)
    ensures
        match r {
            Some(i) => i < v@.len() && v@[i as int].0@ == alias@,
            None => forall|i: int| 0 <= i < v@.len() ==> (#[trigger] v@[i]).0@ != alias@,
        },
{
    for i in 0..v.len()
        invariant
            forall|j: int| 0 <= j < i ==> (#[trigger] v@[j]).0@ != alias@,
    {
        if v[i].0 == *alias {
            return Some(i);
        }
    }
    None
}

fn find_text_alias(v: &Vec<(String, String)>, alias: &String) -> (r: Option<usize>)
    ensures
        match r {
            Some(i) => i < v@.len() && v@[i as int].0@ == alias@,
            None => forall|i: int| 0 <= i < v@.len() ==> (#[trigger] v@[i]).0@ != alias@,
        },
{
    for i in 0..v.len()
        invariant
            forall|j: int| 0 <= j < i ==> (#[trigger] v@[j]).0@ != alias@,
    {
        if v[i].0 == *alias {
            return Some(i);
        }
    }
    None
}

/// Whether two desktop lists are equal.
pub fn same_ids(a: &Vec<u64>, b: &Vec<u64>) -> (r: bool)
    ensures
        r == (a@ == b@),
{
    if a.len() != b.len() {
        return false;
    }
    for i in 0..a.len()
        invariant
            a@.len() == b@.len(),
            forall|j: int| 0 <= j < i ==> a@[j] == b@[j],
    {
        if a[i] != b[i] {
            return false;
        }
    }
    assert(a@ =~= b@);
    true
}

/// Where a recorded window stands relative to its workspace, given a
/// membership that could be read.
pub open spec fn window_label(exists: bool, current: Seq<u64>, space: u64, original: Seq<u64>) -> Seq<char> {
    if !exists {
        "space_deleted"@
    } else if current == seq![space] {
        "in_workspace"@
    } else if current == original {
        "at_origin"@
    } else {
        "moved_or_transitioning"@
    }
}

pub open spec fn stale_label() -> Seq<char> {
    "stale_or_unavailable"@
}

/// Classifies one recorded window from its current membership (or the
/// failure to read it): the membership reported and the state label.
pub fn classify_window(current: Result<Vec<u64>, String>, exists: bool, space: u64, original: &Vec<u64>) -> (r: (
    Vec<u64>,
    String,
))
    ensures
        match current {
            Err(_) => r.0@ == Seq::<u64>::empty() && r.1@ == stale_label(),
            Ok(ids) => r.0@ == ids@ && r.1@ == window_label(exists, ids@, space, original@),
        },
{
    match current {
        Err(_) => (Vec::new(), "stale_or_unavailable".to_owned()),
        Ok(ids) => {
            if !exists {
                (ids, "space_deleted".to_owned())
            } else if is_only(&ids, space) {
                (ids, "in_workspace".to_owned())
            } else if same_ids(&ids, original) {
                (ids, "at_origin".to_owned())
            } else {
                (ids, "moved_or_transitioning".to_owned())
            }
        },
    }
}

/// Reported windows are ordered by process, then window ID, each once.
pub open spec fn windows_in_order(w: Seq<WorkspaceWindowState>) -> bool {
    forall|i: int, j: int|
        0 <= i < j < w.len() ==> target_lt(
            WindowTarget { pid: w[i].pid, window_id: w[i].window_id },
            WindowTarget { pid: w[j].pid, window_id: w[j].window_id },
        )
}

/// A reported window describes a recorded entry: same window, same origin,
/// and a state consistent with its reported membership.
pub open spec fn describes_window(w: WorkspaceWindowState, entry: (WindowTarget, Seq<u64>), exists: bool, space: u64) -> bool {
    &&& w.pid == entry.0.pid
    &&& w.window_id == entry.0.window_id
    &&& w.original_space_ids@ == entry.1
    &&& ((w.state@ == stale_label() && w.current_space_ids@.len() == 0) || w.state@ == window_label(
        exists,
        w.current_space_ids@,
        space,
        entry.1,
    ))
}

pub open spec fn manifest_aliases(manifest: Option<&WorkspaceManifest>) -> Seq<Seq<char>> {
    match manifest {
        Some(m) => m.spec_aliases(),
        None => Seq::empty(),
    }
}

/// Every reported window whose lease no longer holds is reported as stale,
/// with no membership: its membership is not read.
pub open spec fn stale_rows_marked<I: WindowIdentity, V: WorkspaceBackend<I>>(
    rows: Seq<WorkspaceWindowState>,
    selection: SelectedWindows<I, V>,
) -> bool {
    forall|i: int|
        0 <= i < rows.len() && !selection.is_live(
            WindowTarget { pid: #[trigger] rows[i].pid, window_id: rows[i].window_id },
        ) ==> rows[i].state@ == stale_label() && rows[i].current_space_ids@.len() == 0
}

/// The reported state describes the workspace (or its absence).
pub open spec fn describes(r: WorkspaceStateOutput, ws: Option<WorkspaceModel>, apps: Seq<Seq<char>>, private_api: bool) -> bool {
    &&& string_views(r.available_apps@) == apps
    &&& r.private_api == private_api
    &&& match ws {
        None => {
            &&& !r.owned
            &&& r.space_id is None
            &&& !r.space_created
            &&& !r.space_exists
            &&& !r.active
            &&& r.windows@.len() == 0
        },
        Some(ws) => {
            &&& r.owned
            &&& r.space_id == Some(ws.space)
            &&& r.space_created == ws.created
            &&& r.windows@.len() == ws.moved.len()
            &&& forall|i: int|
                0 <= i < ws.moved.len() ==> describes_window(
                    #[trigger] r.windows@[i],
                    ws.moved[i],
                    r.space_exists,
                    ws.space,
                )
        },
    }
}

fn available_apps(manifest: Option<&WorkspaceManifest>) -> (r: Vec<String>)
    ensures
        string_views(r@) == manifest_aliases(manifest),
{
    match manifest {
        Some(m) => m.workspace_application_aliases(),
        None => {
            let r: Vec<String> = Vec::new();
            assert(string_views(r@) =~= Seq::<Seq<char>>::empty());
            r
        },
    }
}

fn snapshot<I: WindowIdentity, V: WorkspaceBackend<I>, W: WorkspaceBackend<I>>(
    backend: &Backend<W>,
    workspace: Option<&Workspace>,
    selection: &mut SelectedWindows<I, V>,
    manifest: Option<&WorkspaceManifest>,
    private_api: bool,
) -> (r: Result<WorkspaceStateOutput, String>)
    requires
        old(selection).wf(),
        workspace matches Some(w) ==> w.wf(),
    ensures
        final(selection).evolves_from(&*old(selection)),
        final(selection).workspace_space() == old(selection).workspace_space(),
        final(selection).launched() == old(selection).launched(),
        r matches Ok(out) ==> describes(
            out,
            match workspace {
                Some(w) => Some(w.model()),
                None => None,
            },
            manifest_aliases(manifest),
            private_api,
        ),
        workspace is None ==> r is Ok && *final(selection) == *old(selection),
        r matches Ok(out) ==> windows_in_order(out.windows@),
        r matches Ok(out) ==> stale_rows_marked(out.windows@, *final(selection)),
        final(selection).same_policy(&*old(selection)),
        workspace matches Some(w) ==> (r matches Ok(out) ==> backend_state_answer::<I, W>(
            *backend,
            w.space,
            Ok::<(bool, bool), String>((out.space_exists, out.active)),
        )),
{
    let available_apps = available_apps(manifest);
    let workspace = match workspace {
        Some(workspace) => workspace,
        None => {
            return Ok(
                WorkspaceStateOutput {
                    available_apps,
                    owned: false,
                    space_id: None,
                    space_created: false,
                    space_exists: false,
                    active: false,
                    private_api,
                    windows: Vec::new(),
                },
            );
        },
    };
    let (exists, active) = match WorkspaceBackend::<I>::state(backend, workspace.space) {
        Ok(state) => state,
        Err(e) => {
            proof {
                selection.lemma_evolves_refl();
            }
            return Err(e);
        },
    };
    let ghost start = *selection;
    let ghost entries = workspace.moved_seq();
    proof {
        selection.lemma_evolves_refl();
    }
    let mut windows: Vec<WorkspaceWindowState> = Vec::new();
    for i in 0..workspace.moved.len()
        invariant
            entries == workspace.moved_seq(),
            windows@.len() == i,
            selection.evolves_from(&start),
            selection.workspace_space() == start.workspace_space(),
            selection.launched() == start.launched(),
            selection.same_policy(&start),
            forall|j: int| 0 <= j < i ==> describes_window(#[trigger] windows@[j], entries[j], exists, workspace.space),
            workspace.wf(),
            forall|j: int| 0 <= j < i && !selection.is_live(entries[j].0) ==> (#[trigger] windows@[j]).state@ == stale_label()
                && windows@[j].current_space_ids@.len() == 0,
    {
        let target = workspace.moved[i].0;
        let ghost before = *selection;
        let lease = selection.native_identity(target);
        proof {
            SelectedWindows::lemma_lease_check_evolves(&*selection, &before, target, lease is Ok, err_view(lease));
        }
        let current = match lease {
            Ok(_) => WorkspaceBackend::<I>::membership(backend, target),
            Err(e) => Err(e),
        };
        let (current_space_ids, state) = classify_window(current, exists, workspace.space, &workspace.moved[i].1);
        windows.push(
            WorkspaceWindowState {
                pid: target.pid,
                window_id: target.window_id,
                original_space_ids: copy_ids(&workspace.moved[i].1),
                current_space_ids,
                state,
            },
        );
        proof {
            SelectedWindows::lemma_evolves_trans(&start, &before, &*selection);
            SelectedWindows::lemma_same_policy_trans(&start, &before, &*selection);
            assert forall|j: int| 0 <= j < i + 1 && !selection.is_live(entries[j].0) implies (#[trigger] windows@[j]).state@
                == stale_label() && windows@[j].current_space_ids@.len() == 0 by {
                if j < i {
                    lemma_sorted_unique(entries);
                    assert(entries[j].0 != entries[i as int].0);
                    assert(!before.is_live(entries[j].0));
                }
            }
        }
    }
    proof {
        assert forall|a: int| 0 <= a < windows@.len() && !selection.is_live(
            WindowTarget { pid: #[trigger] windows@[a].pid, window_id: windows@[a].window_id },
        ) implies windows@[a].state@ == stale_label() && windows@[a].current_space_ids@.len() == 0 by {
            assert(describes_window(windows@[a], entries[a], exists, workspace.space));
            assert(WindowTarget { pid: windows@[a].pid, window_id: windows@[a].window_id } == entries[a].0);
        }
        assert forall|a: int, b: int| 0 <= a < b < windows@.len() implies target_lt(
            WindowTarget { pid: windows@[a].pid, window_id: windows@[a].window_id },
            WindowTarget { pid: windows@[b].pid, window_id: windows@[b].window_id },
        ) by {
            assert(describes_window(windows@[a], entries[a], exists, workspace.space));
            assert(describes_window(windows@[b], entries[b], exists, workspace.space));
            assert(target_lt(entries[a].0, entries[b].0));
        }
    }
    Ok(
        WorkspaceStateOutput {
            available_apps,
            owned: true,
            space_id: Some(workspace.space),
            space_created: workspace.created,
            space_exists: exists,
            active,
            private_api,
            windows,
        },
    )
}

/// Several messages joined by a separator.
pub open spec fn joined(parts: Seq<Seq<char>>, sep: Seq<char>) -> Seq<char>
    decreases parts.len(),
{
    if parts.len() == 0 {
        Seq::empty()
    } else if parts.len() == 1 {
        parts[0]
    } else {
        joined(parts.drop_last(), sep) + sep + parts.last()
    }
}

fn join_messages(parts: &Vec<String>, sep: &str) -> (r: String)
    ensures
        r@ == joined(string_views(parts@), sep@),
{
    let mut out = String::new();
    for i in 0..parts.len()
        invariant
            out@ == joined(string_views(parts@.subrange(0, i as int)), sep@),
    {
        proof {
            let pre = string_views(parts@.subrange(0, i as int));
            let post = string_views(parts@.subrange(0, i + 1));
            assert(post.drop_last() =~= pre);
            assert(post.last() == parts@[i as int]@);
        }
        if i != 0 {
            out.append(sep);
        }
        out.append(parts[i].as_str());
        proof {
            let post = string_views(parts@.subrange(0, i + 1));
            if i == 0 {
                assert(post.len() == 1);
                assert(joined(string_views(parts@.subrange(0, 0)), sep@) =~= Seq::<char>::empty());
                assert(out@ =~= post[0]);
            }
        }
    }
    assert(parts@.subrange(0, parts@.len() as int) =~= parts@);
    out
}

/// What restoring one window does next, given its recorded origin and its
/// current membership.
pub enum RestoreStep {
    /// The window is already back where it came from.
    AtOrigin,
    /// The window is neither at its origin nor in the workspace: the user
    /// moved it since, and that placement is not overridden.
    UserMoved,
    /// The window is in the workspace: move it back to this desktop.
    MoveBack(u64),
}

pub fn restore_step(origin: &Vec<u64>, current: &Vec<u64>, space: u64) -> (r: RestoreStep)
    requires
        origin@.len() == 1,
    ensures
        current@ == origin@ ==> r == RestoreStep::AtOrigin,
        current@ != origin@ && current@ != seq![space] ==> r == RestoreStep::UserMoved,
        current@ != origin@ && current@ == seq![space] ==> r == RestoreStep::MoveBack(origin@[0]),
{
    if same_ids(current, origin) {
        RestoreStep::AtOrigin
    } else if !is_only(current, space) {
        RestoreStep::UserMoved
    } else {
        RestoreStep::MoveBack(origin[0])
    }
}

pub open spec fn destination_msg(launched: bool) -> Seq<char> {
    if launched {
        "workspace_move_incomplete: launched window destination did not verify; query get_workspace_state and recover with move_window_to_workspace"@
    } else {
        "workspace_move_incomplete: destination membership did not verify"@
    }
}

/// The membership read after a move settles it only when the window is on
/// the workspace's desktop alone; the refusal names a launch or a move.
pub fn destination_check(membership: &Vec<u64>, space: u64, launched: bool) -> (r: Result<(), String>)
    ensures
        r is Ok <==> membership@ == seq![space],
        r is Err ==> err_view(r) == destination_msg(launched),
{
    if is_only(membership, space) {
        Ok(())
    } else if launched {
        Err(
            "workspace_move_incomplete: launched window destination did not verify; query get_workspace_state and recover with move_window_to_workspace".to_owned(),
        )
    } else {
        Err("workspace_move_incomplete: destination membership did not verify".to_owned())
    }
}

/// A window moved back is restored only when it is exactly where it came from.
pub fn restore_check(after: &Vec<u64>, origin: &Vec<u64>) -> (r: Result<(), String>)
    ensures
        r is Ok <==> after@ == origin@,
        r is Err ==> err_view(r) == "workspace_restore_incomplete: original membership did not verify"@,
{
    if same_ids(after, origin) {
        Ok(())
    } else {
        Err("workspace_restore_incomplete: original membership did not verify".to_owned())
    }
}

/// A deletion is complete only when the desktop no longer exists.
pub fn delete_check(exists: bool) -> (r: Result<(), String>)
    ensures
        r is Ok <==> !exists,
        r is Err ==> err_view(r) == "workspace_delete_incomplete: Space still exists"@,
{
    if exists {
        Err("workspace_delete_incomplete: Space still exists".to_owned())
    } else {
        Ok(())
    }
}

/// Restores one recorded window to its single original desktop.
fn restore_one<I: WindowIdentity, V: WorkspaceBackend<I>, W: WorkspaceBackend<I>>(
    backend: &Backend<W>,
    space: u64,
    target: WindowTarget,
    origin: &Vec<u64>,
    selection: &mut SelectedWindows<I, V>,
) -> (r: Result<(), String>)
    requires
        old(selection).wf(),
    ensures
        final(selection).evolves_from(&*old(selection)),
        final(selection).same_policy(&*old(selection)),
        !old(selection).is_selected(target) ==> r is Err && err_view(r) == crate::selection::denied_msg()
            && *final(selection) == *old(selection),
        old(selection).is_revoked(target) ==> r is Err && err_view(r) == crate::selection::stale_msg()
            && *final(selection) == *old(selection),
        old(selection).is_live(target) && origin@.len() != 1 ==> r is Err && (final(selection).is_revoked(target)
            || err_view(r) == "workspace_restore_incomplete: original membership is unavailable"@),
        r is Ok ==> origin@.len() == 1 && old(selection).is_live(target) && final(selection).is_live(target),
        final(selection).identities() == old(selection).identities() || final(selection).identities()
            == old(selection).identities().insert(target, None),
{
    let ghost start = *selection;
    let lease = selection.native_identity(target);
    proof {
        SelectedWindows::lemma_lease_check_evolves(&*selection, &start, target, lease is Ok, err_view(lease));
    }
    match lease {
        Ok(_) => {},
        Err(e) => return Err(e),
    }
    if origin.len() != 1 {
        return Err("workspace_restore_incomplete: original membership is unavailable".to_owned());
    }
    let current = WorkspaceBackend::<I>::membership(backend, target)?;
    match restore_step(origin, &current, space) {
        RestoreStep::AtOrigin => Ok(()),
        RestoreStep::UserMoved => Err(
            "workspace_user_moved: refusing to override a later placement".to_owned(),
        ),
        RestoreStep::MoveBack(home) => {
            WorkspaceBackend::<I>::move_window(backend, target, home)?;
            let ghost mid = *selection;
            let lease = selection.native_identity(target);
            proof {
                SelectedWindows::lemma_lease_check_evolves(&*selection, &mid, target, lease is Ok, err_view(lease));
                SelectedWindows::lemma_evolves_trans(&start, &mid, &*selection);
            }
            match lease {
                Ok(_) => {},
                Err(e) => return Err(e),
            }
            let after = WorkspaceBackend::<I>::membership(backend, target)?;
            restore_check(&after, origin)
        },
    }
}

/// Every recorded window had exactly one original desktop and its lease
/// held when the restore began.
pub open spec fn restore_succeeded<I: WindowIdentity, V: WorkspaceBackend<I>>(
    ws: WorkspaceModel,
    selection: SelectedWindows<I, V>,
) -> bool {
    forall|i: int|
        0 <= i < ws.moved.len() ==> (#[trigger] ws.moved[i]).1.len() == 1 && selection.is_live(ws.moved[i].0)
}

/// The text starts with the restore failure prefix.
pub open spec fn restore_failure(err: Seq<char>) -> bool {
    err.len() >= restore_error_prefix().len() && err.subrange(0, restore_error_prefix().len() as int)
        == restore_error_prefix()
}

pub open spec fn restore_error_prefix() -> Seq<char> {
    "workspace_restore_incomplete: "@
}

/// Restores every recorded window independently; the failures are reported
/// together, after every window was attempted.
fn restore_from<I: WindowIdentity, V: WorkspaceBackend<I>, W: WorkspaceBackend<I>>(
    backend: &Backend<W>,
    workspace: &Workspace,
    selection: &mut SelectedWindows<I, V>,
) -> (r: Result<(), String>)
    requires
        old(selection).wf(),
        workspace.wf(),
    ensures
        final(selection).evolves_from(&*old(selection)),
        final(selection).same_policy(&*old(selection)),
        r matches Err(e) ==> e@.len() >= restore_error_prefix().len() && e@.subrange(
            0,
            restore_error_prefix().len() as int,
        ) == restore_error_prefix(),
        r is Ok ==> forall|i: int|
            0 <= i < workspace.moved@.len() ==> (#[trigger] workspace.moved@[i]).1@.len() == 1
                && final(selection).is_live(workspace.moved@[i].0),
        r is Ok ==> restore_succeeded(workspace.model(), *old(selection)),
{
    let ghost start = *selection;
    proof {
        selection.lemma_evolves_refl();
    }
    let mut failures: Vec<String> = Vec::new();
    for i in 0..workspace.moved.len()
        invariant
            workspace.wf(),
            selection.evolves_from(&start),
            selection.same_policy(&start),
            failures@.len() == 0 ==> forall|j: int|
                0 <= j < i ==> (#[trigger] workspace.moved@[j]).1@.len() == 1
                    && selection.is_live(workspace.moved@[j].0),
    {
        let ghost before = *selection;
        let target = workspace.moved[i].0;
        let outcome = restore_one(backend, workspace.space, target, &workspace.moved[i].1, selection);
        proof {
            SelectedWindows::lemma_evolves_trans(&start, &before, &*selection);
            assert forall|j: int| 0 <= j < i && before.is_live(workspace.moved@[j].0) implies selection.is_live(
                #[trigger] workspace.moved@[j].0,
            ) by {
                assert(workspace.moved_seq()[j].0 == workspace.moved@[j].0);
                assert(workspace.moved_seq()[i as int].0 == workspace.moved@[i as int].0);
                assert(target_lt(workspace.moved_seq()[j].0, workspace.moved_seq()[i as int].0));
            }
        }
        match outcome {
            Ok(()) => {},
            Err(e) => failures.push(e),
        }
    }
    if failures.len() != 0 {
        let mut message = "workspace_restore_incomplete: ".to_owned();
        let details = join_messages(&failures, "; ");
        message.append(details.as_str());
        assert(message@.subrange(0, restore_error_prefix().len() as int) =~= restore_error_prefix());
        return Err(message);
    }
    proof {
        assert forall|i: int| 0 <= i < workspace.model().moved.len() implies (#[trigger] workspace.model().moved[i]).1.len()
            == 1 && start.is_live(workspace.model().moved[i].0) by {
            assert(workspace.model().moved[i] == (workspace.moved@[i].0, workspace.moved@[i].1@));
            SelectedWindows::lemma_same_policy_live(&*selection, &start, workspace.moved@[i].0);
        }
    }
    Ok(())
}

/// Moves an already selected window into the workspace and verifies its
/// membership. The first recorded origin of a window is kept.
fn move_into<I: WindowIdentity, V: WorkspaceBackend<I>, W: WorkspaceBackend<I>>(
    backend: &Backend<W>,
    workspace: &mut Workspace,
    target: WindowTarget,
    selection: &mut SelectedWindows<I, V>,
) -> (r: Result<(), String>)
    requires
        old(workspace).wf(),
        old(selection).wf(),
    ensures
        final(workspace).wf(),
        final(workspace).space == old(workspace).space,
        final(workspace).created == old(workspace).created,
        final(workspace).profile_scope@ == old(workspace).profile_scope@,
        final(workspace).launched_seq() == old(workspace).launched_seq(),
        final(workspace).failures_seq() == old(workspace).failures_seq(),
        ({
            let before = assoc_map(old(workspace).moved_seq());
            let after = assoc_map(final(workspace).moved_seq());
            after == before || (!before.contains_key(target) && after.contains_key(target)
                && after[target].len() == 1 && after == before.insert(target, after[target]))
        }),
        final(selection).evolves_from(&*old(selection)),
        final(selection).same_policy(&*old(selection)),
        !old(selection).is_selected(target) ==> r is Err && err_view(r) == crate::selection::denied_msg()
            && final(workspace).model() == old(workspace).model() && *final(selection) == *old(selection),
        old(selection).is_revoked(target) ==> r is Err && err_view(r) == crate::selection::stale_msg()
            && final(workspace).model() == old(workspace).model() && *final(selection) == *old(selection),
        r is Ok ==> assoc_map(final(workspace).moved_seq()).contains_key(target) && old(selection).is_live(target)
            && final(selection).is_live(target),
        r is Ok ==> settled_in::<I, W>(*backend, target, old(workspace).space),
{
    let ghost start = *selection;
    let lease = selection.native_identity(target);
    proof {
        SelectedWindows::lemma_lease_check_evolves(&*selection, &start, target, lease is Ok, err_view(lease));
    }
    match lease {
        Ok(_) => {},
        Err(e) => return Err(e),
    }
    let origin = WorkspaceBackend::<I>::membership(backend, target)?;
    if origin.len() != 1 {
        return Err("workspace_operation_unsupported: window membership is ambiguous".to_owned());
    }
    set_origin(&mut workspace.moved, target, origin, true);
    let lease = selection.native_identity(target);
    match lease {
        Ok(_) => {},
        Err(e) => return Err(e),
    }
    WorkspaceBackend::<I>::move_window(backend, target, workspace.space)?;
    let lease = selection.native_identity(target);
    match lease {
        Ok(_) => {},
        Err(e) => return Err(e),
    }
    let answer = WorkspaceBackend::<I>::membership(backend, target);
    let ghost seen = answer;
    let membership = answer?;
    let r = destination_check(&membership, workspace.space, false);
    proof {
        if r is Ok {
            assert(backend_membership_answer::<I, W>(*backend, target, seen));
            assert(seen == Ok::<Vec<u64>, String>(membership));
        }
    }
    r
}

/// What a launch makes of the window server's answer about the owned
/// desktop: a failed query passes its error on, a missing desktop refuses.
pub open spec fn launch_space_outcome(state: Result<(bool, bool), String>) -> Option<Seq<char>> {
    match state {
        Err(e) => Some(e@),
        Ok((exists, _)) => if exists {
            None
        } else {
            Some("workspace_space_deleted: cannot launch into a missing workspace"@)
        },
    }
}

/// A launch needs the owned desktop to exist.
pub fn launch_space_check(state: Result<(bool, bool), String>) -> (r: Result<(), String>)
    ensures
        crate::selection::outcome_of(r) == launch_space_outcome(state),
{
    match state {
        Err(e) => Err(e),
        Ok((exists, _)) => if exists {
            Ok(())
        } else {
            Err("workspace_space_deleted: cannot launch into a missing workspace".to_owned())
        },
    }
}

/// The errors of a launch: a newly recorded failure is the error returned.
pub open spec fn launch_errors(before: WorkspaceModel, after: WorkspaceModel, alias: Seq<char>, err: Seq<char>) -> bool {
    after.launch_failures != before.launch_failures ==> after.launch_failures[alias] == err
}

pub open spec fn revoked_launch_msg() -> Seq<char> {
    "authorization_revoked: launch completed after session ended; no window access granted"@
}

/// What a workspace operation on a session's workspace does to the session's
/// selection, and the refusals and outcomes it owes there:
/// - a launch admits at most the one window it newly records for the alias;
/// - a move never grants access, and refuses a window outside the selection
///   or with a revoked lease before anything else happens;
/// - a restore succeeds only when every recorded window had exactly one
///   original desktop and a live lease, and otherwise reports the restore
///   failure.
pub open spec fn selection_effect<I: WindowIdentity, V: WorkspaceBackend<I>>(
    op: WorkspaceOperation,
    args: ToolArgs,
    before: WorkspaceModel,
    after: WorkspaceModel,
    old_sel: SelectedWindows<I, V>,
    new_sel: SelectedWindows<I, V>,
    ok: bool,
    err: Seq<char>,
) -> bool {
    match op {
        WorkspaceOperation::Launch => match args.app {
            Some(a) => launch_selection_effect(before, after, a@, old_sel, new_sel),
            None => new_sel == old_sel,
        },
        WorkspaceOperation::Move => match crate::selection::spec_target(args) {
            Some(t) => {
                &&& new_sel.same_policy(&old_sel)
                &&& !old_sel.is_selected(t) ==> !ok && err == crate::selection::denied_msg() && new_sel == old_sel
                    && after == before
                &&& old_sel.is_revoked(t) ==> !ok && err == crate::selection::stale_msg() && new_sel == old_sel
                    && after == before
            },
            None => new_sel == old_sel,
        },
        WorkspaceOperation::Restore => {
            &&& new_sel.same_policy(&old_sel)
            &&& ok ==> restore_succeeded(before, old_sel)
            &&& !restore_succeeded(before, old_sel) ==> !ok && restore_failure(err)
        },
        _ => true,
    }
}

/// A successful operation's selection effect survives the lease checks of
/// the state report that follows it.
proof fn lemma_selection_effect_snapshot<I: WindowIdentity, V: WorkspaceBackend<I>>(
    op: WorkspaceOperation,
    args: ToolArgs,
    before: WorkspaceModel,
    after: WorkspaceModel,
    s0: SelectedWindows<I, V>,
    s1: SelectedWindows<I, V>,
    s2: SelectedWindows<I, V>,
    ok: bool,
    err: Seq<char>,
)
    requires
        selection_effect(op, args, before, after, s0, s1, true, Seq::empty()),
        s2.same_policy(&s1),
        op is Launch ==> (args.app matches Some(x) && !before.launch_failures.contains_key(x@)),
        op is Move ==> crate::selection::spec_target(args) is Some,
    ensures
        selection_effect(op, args, before, after, s0, s2, ok, err),
{
    match op {
        WorkspaceOperation::Launch => {
            let x = args.app->0;
            if after.launched == before.launched {
                SelectedWindows::lemma_same_policy_trans(&s0, &s1, &s2);
            }
            assert forall|t: WindowTarget|
                #[trigger] s2.is_selected(t) && !s0.is_selected(t) implies after.launched.contains_key(x@)
                    && t == after.launched[x@] by {
                assert(s2.identities().dom() == s1.identities().dom());
                assert(s1.is_selected(t));
            }
        },
        WorkspaceOperation::Move => {
            SelectedWindows::lemma_same_policy_trans(&s0, &s1, &s2);
        },
        WorkspaceOperation::Restore => {
            SelectedWindows::lemma_same_policy_trans(&s0, &s1, &s2);
        },
        _ => {},
    }
}

/// What a launch of `alias` may do to the selection: nothing once a failure
/// is recorded for the alias, nothing but re-proving leases when no window is
/// newly recorded, and at most admit the one window it newly records.
pub open spec fn launch_selection_effect<I: WindowIdentity, V: WorkspaceBackend<I>>(
    before: WorkspaceModel,
    after: WorkspaceModel,
    alias: Seq<char>,
    old_sel: SelectedWindows<I, V>,
    new_sel: SelectedWindows<I, V>,
) -> bool {
    &&& before.launch_failures.contains_key(alias) ==> new_sel == old_sel
    &&& after.launched == before.launched ==> new_sel.same_policy(&old_sel)
    &&& forall|t: WindowTarget|
        #[trigger] new_sel.is_selected(t) && !old_sel.is_selected(t) ==> after.launched.contains_key(alias)
            && t == after.launched[alias]
}

/// A window newly recorded for `alias` gets an origin entry of at most one
/// desktop (none until its initial membership was read unambiguously), and
/// no other origin changes.
pub open spec fn launched_origin(before: WorkspaceModel, after: WorkspaceModel, alias: Seq<char>) -> bool {
    after.launched != before.launched ==> {
        let t = after.launched[alias];
        &&& assoc_map(after.moved) == assoc_map(before.moved).insert(t, assoc_map(after.moved)[t])
        &&& assoc_map(after.moved)[t].len() <= 1
    }
}

/// Launches the trusted recipe of `alias` into the workspace, admits only
/// the exact window the launch attested, moves it in and verifies it. An
/// alias launches at most once per workspace: a recorded window is only
/// revalidated and a recorded failure is returned again.
fn launch_into<I: WindowIdentity, V: WorkspaceBackend<I>, W: WorkspaceBackend<I>, A: SessionAuthority>(
    backend: &Backend<W>,
    workspace: &mut Workspace,
    alias: &String,
    recipe: &WorkspaceApplication,
    selection: &mut SelectedWindows<I, V>,
    authority: &A,
) -> (r: Result<(), String>)
    requires
        old(workspace).wf(),
        old(selection).wf(),
    ensures
        final(workspace).wf(),
        final(workspace).space == old(workspace).space,
        final(workspace).created == old(workspace).created,
        final(workspace).profile_scope@ == old(workspace).profile_scope@,
        final(selection).evolves_from(&*old(selection)),
        final(selection).workspace_space() == old(selection).workspace_space(),
        backend is Unavailable ==> r is Err && err_view(r) == unsupported_msg() && *final(workspace)
            == *old(workspace) && *final(selection) == *old(selection),
        ({
            let before = old(workspace).model();
            let after = final(workspace).model();
            &&& before.launch_failures.contains_key(alias@) ==> r is Err && after == before
            &&& before.launched.contains_key(alias@) ==> after == before
            &&& after.launched == before.launched || (!before.launched.contains_key(alias@)
                && !before.launch_failures.contains_key(alias@) && after.launched
                == before.launched.insert(alias@, after.launched[alias@])
                && final(selection).launched().contains(after.launched[alias@])
                && !old(selection).is_selected(after.launched[alias@]))
            &&& after.launch_failures == before.launch_failures || (
                !before.launch_failures.contains_key(alias@) && !before.launched.contains_key(alias@)
                && r is Err && after.launch_failures == before.launch_failures.insert(
                alias@,
                after.launch_failures[alias@],
            ))
            &&& after.launched == before.launched ==> after.moved == before.moved
            &&& r is Ok ==> after.launched.contains_key(alias@) && final(selection).is_live(
                after.launched[alias@],
            )
            &&& launch_errors(before, after, alias@, err_view(r))
            &&& launch_selection_effect(before, after, alias@, *old(selection), *final(selection))
            &&& launched_origin(before, after, alias@)
            &&& after.launched != before.launched ==> launched_scoped::<I, W>(
                *backend,
                recipe.spec_recipe(),
                before.profile_scope,
                after.launched[alias@],
            )
        }),
{
    let ghost start = *selection;
    proof {
        selection.lemma_evolves_refl();
    }
    let state = WorkspaceBackend::<I>::state(backend, workspace.space);
    launch_space_check(state)?;
    match find_text_alias(&workspace.launch_failures, alias) {
        Some(i) => {
            proof {
                assert(workspace.failures_seq()[i as int].0 == alias@);
                lemma_lookup(workspace.failures_seq(), i as int);
            }
            return Err(workspace.launch_failures[i].1.clone());
        },
        None => {
            proof {
                assert forall|j: int| 0 <= j < workspace.failures_seq().len() implies workspace.failures_seq()[j].0 != alias@ by {
                    assert(workspace.failures_seq()[j].0 == workspace.launch_failures@[j].0@);
                }
                lemma_absent(workspace.failures_seq(), alias@);
            }
        },
    }
    match find_target_alias(&workspace.launched, alias) {
        Some(i) => {
            proof {
                assert(workspace.launched_seq()[i as int].0 == alias@);
                lemma_lookup(workspace.launched_seq(), i as int);
            }
            let target = workspace.launched[i].1;
            let checked = selection.validate(target);
            proof {
                SelectedWindows::lemma_lease_check_evolves(&*selection, &start, target, checked is Ok, err_view(checked));
            }
            // Do not override a later user placement on an idempotent call.
            return checked;
        },
        None => {
            proof {
                assert forall|j: int| 0 <= j < workspace.launched_seq().len() implies workspace.launched_seq()[j].0 != alias@ by {
                    assert(workspace.launched_seq()[j].0 == workspace.launched@[j].0@);
                }
                lemma_absent(workspace.launched_seq(), alias@);
            }
        },
    }
    let ghost w0 = *workspace;
    let scoped = recipe.for_workspace(workspace.profile_scope.as_str());
    proof {
        assert(string_views(scoped.arguments@) =~= string_views(recipe.arguments@).map_values(
            |a: Seq<char>| replace_all(a, workspace_placeholder(), workspace.profile_scope@),
        ));
        assert(scoped_recipe(scoped, recipe.spec_recipe(), workspace.profile_scope@));
    }
    let answer = WorkspaceBackend::<I>::launch(backend, &scoped);
    let ghost seen = answer;
    let launched = match answer {
        Ok(launched) => launched,
        Err(error) => {
            // A native error may still have created a process. Retain the
            // outcome rather than repeatedly spawning on retries.
            proof {
                crate::assoc::lemma_push(workspace.failures_seq(), alias@, error@);
            }
            workspace.launch_failures.push((alias.clone(), error.clone()));
            proof {
                assert(workspace.failures_seq() =~= w0.failures_seq().push((alias@, error@)));
                lemma_lookup(workspace.failures_seq(), w0.failures_seq().len() as int);
            }
            return Err(error);
        },
    };
    if authority.is_revoked() || authority.is_expired() {
        return Err(
            "authorization_revoked: launch completed after session ended; no window access granted".to_owned(),
        );
    }
    let target = launched.target;
    proof {
        assert(seen == Ok::<LaunchedWorkspaceWindow<I>, String>(launched));
        assert(backend_launch_answer::<I, W>(*backend, scoped, seen));
        assert(launched_scoped::<I, W>(*backend, recipe.spec_recipe(), workspace.profile_scope@, target));
    }
    let admitted = selection.admit_launched_window(target, Arc::new(launched.identity));
    match admitted {
        Ok(()) => {},
        Err(error) => {
            proof {
                crate::assoc::lemma_push(workspace.failures_seq(), alias@, error@);
            }
            workspace.launch_failures.push((alias.clone(), error.clone()));
            proof {
                assert(workspace.failures_seq() =~= w0.failures_seq().push((alias@, error@)));
                lemma_lookup(workspace.failures_seq(), w0.failures_seq().len() as int);
            }
            return Err(error);
        },
    }
    let ghost admitted_sel = *selection;
    proof {
        crate::assoc::lemma_push(workspace.launched_seq(), alias@, target);
    }
    workspace.launched.push((alias.clone(), target));
    proof {
        assert(workspace.launched_seq() =~= w0.launched_seq().push((alias@, target)));
        lemma_lookup(workspace.launched_seq(), w0.launched_seq().len() as int);
        assert(workspace.failures_seq() == w0.failures_seq());
    }
    set_origin(&mut workspace.moved, target, Vec::new(), false);
    let origin = WorkspaceBackend::<I>::membership(backend, target)?;
    if origin.len() != 1 {
        return Err(
            "workspace_launch_incomplete: ambiguous initial membership; window retained for explicit recovery".to_owned(),
        );
    }
    let ghost origin_ids = origin@;
    let ghost pending = assoc_map(workspace.moved_seq());
    set_origin(&mut workspace.moved, target, origin, false);
    proof {
        let m0 = assoc_map(w0.moved_seq());
        assert(pending == m0.insert(target, Seq::<u64>::empty()));
        assert(assoc_map(workspace.moved_seq()) == pending.insert(target, origin_ids));
        assert(assoc_map(workspace.moved_seq()) =~= m0.insert(target, origin_ids));
    }
    WorkspaceBackend::<I>::move_window(backend, target, workspace.space)?;
    let membership = WorkspaceBackend::<I>::membership(backend, target)?;
    destination_check(&membership, workspace.space, true)?;
    let checked = selection.validate(target);
    proof {
        SelectedWindows::lemma_lease_check_evolves(&*selection, &admitted_sel, target, checked is Ok, err_view(checked));
        SelectedWindows::lemma_evolves_trans(&start, &admitted_sel, &*selection);
    }
    checked
}

/// The workspace tools.
pub enum WorkspaceOperation {
    Create,
    Launch,
    GetState,
    Move,
    Reveal,
    Release,
    Restore,
    Delete,
    Unknown,
}

pub open spec fn spec_operation(name: Seq<char>) -> WorkspaceOperation {
    if name == "create_workspace"@ {
        WorkspaceOperation::Create
    } else if name == "launch_workspace_app"@ {
        WorkspaceOperation::Launch
    } else if name == "get_workspace_state"@ {
        WorkspaceOperation::GetState
    } else if name == "move_window_to_workspace"@ {
        WorkspaceOperation::Move
    } else if name == "reveal_workspace"@ {
        WorkspaceOperation::Reveal
    } else if name == "release_workspace"@ {
        WorkspaceOperation::Release
    } else if name == "restore_workspace_windows"@ {
        WorkspaceOperation::Restore
    } else if name == "delete_workspace"@ {
        WorkspaceOperation::Delete
    } else {
        WorkspaceOperation::Unknown
    }
}

pub fn parse_operation(name: &str) -> (r: WorkspaceOperation)
    ensures
        r == spec_operation(name@),
{
    if str_eq(name, "create_workspace") {
        WorkspaceOperation::Create
    } else if str_eq(name, "launch_workspace_app") {
        WorkspaceOperation::Launch
    } else if str_eq(name, "get_workspace_state") {
        WorkspaceOperation::GetState
    } else if str_eq(name, "move_window_to_workspace") {
        WorkspaceOperation::Move
    } else if str_eq(name, "reveal_workspace") {
        WorkspaceOperation::Reveal
    } else if str_eq(name, "release_workspace") {
        WorkspaceOperation::Release
    } else if str_eq(name, "restore_workspace_windows") {
        WorkspaceOperation::Restore
    } else if str_eq(name, "delete_workspace") {
        WorkspaceOperation::Delete
    } else {
        WorkspaceOperation::Unknown
    }
}

pub open spec fn manifest_space(manifest: Option<&WorkspaceManifest>) -> Option<u64> {
    match manifest {
        Some(m) => m.space_id,
        None => None,
    }
}

spec fn owned_view(s: Seq<(String, Workspace)>) -> Seq<(Seq<char>, WorkspaceModel)> {
    s.map_values(|e: (String, Workspace)| (e.0@, e.1.model()))
}

spec fn registry_wf(s: Seq<(String, Workspace)>) -> bool {
    &&& unique_keys(owned_view(s))
    &&& forall|i: int| 0 <= i < s.len() ==> (#[trigger] s[i]).1.wf()
    &&& forall|i: int, j: int|
        0 <= i < s.len() && 0 <= j < s.len() && i != j ==> (#[trigger] s[i]).1.space != (
        #[trigger] s[j]).1.space
}

proof fn lemma_replace(before: Seq<(String, Workspace)>, i: int, ws: Workspace)
    requires
        registry_wf(before),
        0 <= i < before.len(),
        ws.wf(),
        ws.space == before[i].1.space,
    ensures
        registry_wf(before.update(i, (before[i].0, ws))),
        assoc_map(owned_view(before.update(i, (before[i].0, ws)))) == assoc_map(
            owned_view(before),
        ).insert(before[i].0@, ws.model()),
{
    let after = before.update(i, (before[i].0, ws));
    assert(owned_view(after) =~= owned_view(before).update(i, (owned_view(before)[i].0, ws.model())));
    crate::assoc::lemma_update(owned_view(before), i, ws.model());
    assert forall|a: int, b: int| 0 <= a < after.len() && 0 <= b < after.len() && a != b implies (
    #[trigger] after[a]).1.space != (#[trigger] after[b]).1.space by {
        assert(after[a].1.space == before[a].1.space);
        assert(after[b].1.space == before[b].1.space);
    }
}

proof fn lemma_drop(before: Seq<(String, Workspace)>, i: int)
    requires
        registry_wf(before),
        0 <= i < before.len(),
    ensures
        registry_wf(before.remove(i)),
        assoc_map(owned_view(before.remove(i))) == assoc_map(owned_view(before)).remove(before[i].0@),
{
    let after = before.remove(i);
    crate::assoc::lemma_remove(owned_view(before), i);
    assert(owned_view(after) =~= owned_view(before).remove(i));
    assert forall|a: int, b: int| 0 <= a < after.len() && 0 <= b < after.len() && a != b implies (
    #[trigger] after[a]).1.space != (#[trigger] after[b]).1.space by {
        let sa = if a < i { a } else { a + 1 };
        let sb = if b < i { b } else { b + 1 };
        assert(after[a] == before[sa] && after[b] == before[sb]);
    }
    assert forall|a: int| 0 <= a < after.len() implies (#[trigger] after[a]).1.wf() by {
        let sa = if a < i { a } else { a + 1 };
        assert(after[a] == before[sa]);
    }
}


pub open spec fn not_found_msg() -> Seq<char> {
    "workspace_not_found: this session owns no workspace"@
}

/// What a launch did to the session's workspace record.
pub open spec fn launch_effect(before: WorkspaceModel, after: WorkspaceModel, alias: Seq<char>, ok: bool) -> bool {
    &&& after.space == before.space
    &&& after.created == before.created
    &&& after.profile_scope == before.profile_scope
    &&& before.launch_failures.contains_key(alias) ==> !ok && after == before
    &&& before.launched.contains_key(alias) ==> after == before
    &&& after.launched == before.launched || (!before.launched.contains_key(alias)
        && !before.launch_failures.contains_key(alias) && after.launched == before.launched.insert(
        alias,
        after.launched[alias],
    ))
    &&& after.launch_failures == before.launch_failures || (!ok && !before.launch_failures.contains_key(
        alias,
    ) && !before.launched.contains_key(alias) && after.launch_failures
        == before.launch_failures.insert(alias, after.launch_failures[alias]))
    &&& after.launched == before.launched ==> after.moved == before.moved
    &&& ok ==> after.launched.contains_key(alias)
}

/// What moving `target` into the workspace did to the workspace record:
/// only a first origin, of exactly one desktop, is ever recorded.
pub open spec fn move_effect(before: WorkspaceModel, after: WorkspaceModel, target: WindowTarget, ok: bool) -> bool {
    let b = assoc_map(before.moved);
    let a = assoc_map(after.moved);
    &&& after.space == before.space
    &&& after.created == before.created
    &&& after.profile_scope == before.profile_scope
    &&& after.launched == before.launched
    &&& after.launch_failures == before.launch_failures
    &&& a == b || (!b.contains_key(target) && a.contains_key(target) && a[target].len() == 1 && a
        == b.insert(target, a[target]))
    &&& ok ==> a.contains_key(target)
}

/// What one workspace tool call did to the registry, for session `k`.
pub open spec fn execute_effect(
    before: Map<Seq<char>, WorkspaceModel>,
    after: Map<Seq<char>, WorkspaceModel>,
    k: Seq<char>,
    op: WorkspaceOperation,
    args: ToolArgs,
    manifest: Option<&WorkspaceManifest>,
    ok: bool,
    err: Seq<char>,
) -> bool {
    match op {
        WorkspaceOperation::Create => if before.contains_key(k) {
            after == before
        } else {
            (after == before && !ok) || (after == before.insert(
                k,
                fresh_workspace(after[k].space, manifest_space(manifest) is None, after[k].profile_scope),
            ) && (manifest_space(manifest) matches Some(a) ==> after[k].space == a) && (forall|
                j: Seq<char>,
            | #[trigger] before.contains_key(j) ==> before[j].space != after[k].space))
        },
        WorkspaceOperation::GetState => after == before,
        WorkspaceOperation::Release => after == before.remove(k),
        _ => if !before.contains_key(k) {
            !ok && err == not_found_msg() && after == before
        } else {
            match op {
                WorkspaceOperation::Launch => match args.app {
                    None => !ok && err == "workspace_app_required"@ && after == before,
                    Some(alias) => match manifest {
                        None => !ok && err == "workspace_requires_manifest"@ && after == before,
                        Some(m) => if !m.has_recipe(alias@) {
                            !ok && err == "workspace_app_denied: alias is not a trusted workspace application"@
                                && after == before
                        } else {
                            after == before.insert(k, after[k]) && launch_effect(
                                before[k],
                                after[k],
                                alias@,
                                ok,
                            ) && launch_errors(before[k], after[k], alias@, err) && launched_origin(
                                before[k],
                                after[k],
                                alias@,
                            )
                        },
                    },
                },
                WorkspaceOperation::Move => match crate::selection::spec_target(args) {
                    None => !ok && err == crate::selection::target_error(args) && after == before,
                    Some(t) => after == before.insert(k, after[k]) && move_effect(
                        before[k],
                        after[k],
                        t,
                        ok,
                    ),
                },
                WorkspaceOperation::Reveal => after == before,
                WorkspaceOperation::Restore => after == before,
                WorkspaceOperation::Delete => if !before[k].created {
                    !ok && err == "workspace_not_created: cannot delete a pre-existing Space"@ && after
                        == before
                } else {
                    (ok && after == before.remove(k)) || (!ok && after == before)
                },
                _ => !ok && err == unsupported_msg() && after == before,
            }
        },
    }
}

/// What one workspace tool call did, given the registry's ownership map and
/// the session's selection before and after it: without a session the call
/// is refused and changes nothing; with one, ownership changes as the
/// operation's effect says, the selection's owned desktop follows, and a
/// successful result describes the session's workspace.
/// The configured desktop is already owned by some session.
pub open spec fn space_taken(owned: Map<Seq<char>, WorkspaceModel>, space: Option<u64>) -> bool {
    match space {
        Some(a) => exists|j: Seq<char>| #[trigger] owned.contains_key(j) && owned[j].space == a,
        None => false,
    }
}

pub open spec fn already_owned_msg() -> Seq<char> {
    "workspace_already_owned: another session owns this Space"@
}

pub open spec fn released_prefix() -> Seq<char> {
    "workspace_released_state_unavailable: ownership released; "@
}

pub open spec fn tool_outcome<I: WindowIdentity, V: WorkspaceBackend<I>>(
    before_owned: Map<Seq<char>, WorkspaceModel>,
    after_owned: Map<Seq<char>, WorkspaceModel>,
    private_api: bool,
    native: bool,
    name: Seq<char>,
    args: ToolArgs,
    old_sel: SelectedWindows<I, V>,
    new_sel: SelectedWindows<I, V>,
    manifest: Option<&WorkspaceManifest>,
    r: Result<WorkspaceStateOutput, String>,
) -> bool {
    &&& (args.spec_session() is None ==> r is Err && err_view(r) == "workspace_session_required"@
        && after_owned == before_owned && new_sel == old_sel)
    &&& (args.spec_session() matches Some(k) ==> {
        let op = spec_operation(name);
        let before = before_owned;
        let after = after_owned;
        &&& execute_effect(before, after, k, op, args, manifest, r is Ok, err_view(r))
        &&& (op is GetState || op is Release) && !before.contains_key(k) ==> r is Ok
        &&& before.contains_key(k) && (op is Launch || op is Move || op is Restore) ==> selection_effect(
            op,
            args,
            before[k],
            after[k],
            old_sel,
            new_sel,
            r is Ok,
            err_view(r),
        )
        &&& op is Create && !before.contains_key(k) && space_taken(before, manifest_space(manifest)) ==> r is Err
            && err_view(r) == already_owned_msg() && after == before
        &&& op is Create && !before.contains_key(k) && !native && !space_taken(before, manifest_space(manifest))
            ==> r is Err && err_view(r) == unsupported_msg() && after == before
        &&& op is Release && r is Err ==> err_view(r).len() >= released_prefix().len() && err_view(r).subrange(
            0,
            released_prefix().len() as int,
        ) == released_prefix()
        &&& new_sel.workspace_space() == (if op is Create && !before.contains_key(k)
            && after.contains_key(k) {
            if old_sel.restricted() {
                Some(after[k].space)
            } else {
                None
            }
        } else if op is Release || (op is Delete && r is Ok) {
            None
        } else {
            old_sel.workspace_space()
        })
        &&& r matches Ok(out) ==> {
            &&& windows_in_order(out.windows@)
            &&& stale_rows_marked(out.windows@, new_sel)
            &&& string_views(out.available_apps@) == manifest_aliases(manifest)
            &&& out.private_api == private_api
            &&& if op is Release || op is Delete {
                !out.owned && (op is Delete ==> !out.space_exists)
            } else {
                describes(
                    out,
                    if after.contains_key(k) {
                        Some(after[k])
                    } else {
                        None
                    },
                    manifest_aliases(manifest),
                    private_api,
                )
            }
        }
    })
}

/// The workspaces that sessions own, by session.
pub struct Workspaces<W> {
    backend: Backend<W>,
    owned: Vec<(String, Workspace)>,
    private_api: bool,
}

impl<W> Workspaces<W> {
    /// Each session's owned workspace.
    pub closed spec fn owned(&self) -> Map<Seq<char>, WorkspaceModel> {
        assoc_map(owned_view(self.owned@))
    }

    /// Whether the platform's workspace operations use private native APIs.
    pub closed spec fn spec_private_api(&self) -> bool {
        self.private_api
    }

    /// Whether a host supplied a native backend.
    pub closed spec fn native(&self) -> bool {
        self.backend is Native
    }

    /// The backend native calls go to.
    pub closed spec fn spec_backend(&self) -> Backend<W> {
        self.backend
    }

    pub closed spec fn wf(&self) -> bool {
        registry_wf(self.owned@)
    }

    /// No two sessions own the same desktop.
    pub proof fn lemma_exclusive(&self)
        requires
            self.wf(),
        ensures
            exclusive_spaces(self.owned()),
    {
        let v = owned_view(self.owned@);
        assert forall|a: Seq<char>, b: Seq<char>|
            self.owned().contains_key(a) && self.owned().contains_key(b) && a != b implies #[trigger] self.owned()[a].space
            != #[trigger] self.owned()[b].space by {
            let i = choose|i: int| 0 <= i < v.len() && v[i].0 == a;
            let j = choose|j: int| 0 <= j < v.len() && v[j].0 == b;
            lemma_lookup(v, i);
            lemma_lookup(v, j);
            assert(self.owned@[i].1.space != self.owned@[j].1.space);
        }
    }

    /// A registry without workspaces. Without a native backend every
    /// native operation is refused as unsupported.
    pub fn new(backend: Option<Arc<W>>, private_api: bool) -> (r: Workspaces<W>)
        ensures
            r.wf(),
            r.owned() == Map::<Seq<char>, WorkspaceModel>::empty(),
            r.spec_private_api() == private_api,
            r.native() == backend is Some,
            r.spec_backend() == match backend {
                Some(b) => Backend::Native(b),
                None => Backend::Unavailable(Unsupported),
            },
    {
        let backend = match backend {
            Some(b) => Backend::Native(b),
            None => Backend::Unavailable(Unsupported),
        };
        let r = Workspaces { backend, owned: Vec::new(), private_api };
        proof {
            lemma_empty(owned_view(r.owned@));
        }
        r
    }

    fn find_session(&self, session: &String) -> (r: Option<usize>)
        requires
            self.wf(),
        ensures
            match r {
                Some(i) => i < self.owned@.len() && self.owned@[i as int].0@ == session@
                    && self.owned().contains_key(session@) && self.owned()[session@]
                    == self.owned@[i as int].1.model(),
                None => !self.owned().contains_key(session@),
            },
    {
        for i in 0..self.owned.len()
            invariant
                self.wf(),
                forall|j: int| 0 <= j < i ==> (#[trigger] self.owned@[j]).0@ != session@,
        {
            if self.owned[i].0 == *session {
                proof {
                    assert(owned_view(self.owned@)[i as int].0 == session@);
                    lemma_lookup(owned_view(self.owned@), i as int);
                }
                return Some(i);
            }
        }
        proof {
            assert forall|j: int| 0 <= j < owned_view(self.owned@).len() implies owned_view(self.owned@)[j].0 != session@ by {
                assert(owned_view(self.owned@)[j].0 == self.owned@[j].0@);
            }
            lemma_absent(owned_view(self.owned@), session@);
        }
        None
    }

    /// The desktop the session owns, if any.
    pub fn owned_space(&self, session: &str) -> (r: Option<u64>)
        requires
            self.wf(),
        ensures
            r == (if self.owned().contains_key(session@) {
                Some(self.owned()[session@].space)
            } else {
                None
            }),
    {
        match self.find_session(&session.to_owned()) {
            Some(i) => Some(self.owned[i].1.space),
            None => None,
        }
    }

    /// The window that the session's launch of `alias` created, if any.
    pub fn launched_window(&self, session: &str, alias: &str) -> (r: Option<WindowTarget>)
        requires
            self.wf(),
        ensures
            r == (if self.owned().contains_key(session@) && self.owned()[session@].launched.contains_key(
                alias@,
            ) {
                Some(self.owned()[session@].launched[alias@])
            } else {
                None
            }),
    {
        match self.find_session(&session.to_owned()) {
            Some(i) => {
                let ws = &self.owned[i].1;
                match find_target_alias(&ws.launched, &alias.to_owned()) {
                    Some(j) => {
                        proof {
                            assert(ws.launched_seq()[j as int].0 == alias@);
                            lemma_lookup(ws.launched_seq(), j as int);
                        }
                        Some(ws.launched[j].1)
                    },
                    None => {
                        proof {
                            assert forall|k: int| 0 <= k < ws.launched_seq().len() implies ws.launched_seq()[k].0 != alias@ by {
                                assert(ws.launched_seq()[k].0 == ws.launched@[k].0@);
                            }
                            lemma_absent(ws.launched_seq(), alias@);
                        }
                        None
                    },
                }
            },
            None => None,
        }
    }

    /// Creates or attaches the desktop a new owner of `session` gets.
    #[verifier::loop_isolation(false)]
    fn create_for<I: WindowIdentity, V: WorkspaceBackend<I>>(
        &mut self,
        session: String,
        selection: &mut SelectedWindows<I, V>,
        manifest: Option<&WorkspaceManifest>,
    ) -> (r: Result<(), String>) where W: WorkspaceBackend<I>
        requires
            old(self).wf(),
            old(selection).wf(),
            !old(self).owned().contains_key(session@),
        ensures
            final(self).wf(),
            final(self).spec_private_api() == old(self).spec_private_api(),
            execute_effect(
                old(self).owned(),
                final(self).owned(),
                session@,
                WorkspaceOperation::Create,
                ToolArgs::empty_spec(),
                manifest,
                r is Ok,
                err_view(r),
            ),
            r is Ok <==> final(self).owned().contains_key(session@),
            (manifest_space(manifest) matches Some(a) && exists|j: Seq<char>|
                #[trigger] old(self).owned().contains_key(j) && old(self).owned()[j].space == a) ==> r is Err
                && err_view(r) == "workspace_already_owned: another session owns this Space"@
                && final(self).owned() == old(self).owned(),
            !old(self).native() && !space_taken(old(self).owned(), manifest_space(manifest)) ==> r is Err
                && err_view(r) == unsupported_msg() && final(self).owned() == old(self).owned(),
            final(self).native() == old(self).native(),
            final(self).spec_backend() == old(self).spec_backend(),
            attach_checked::<I, W>(
                old(self).spec_backend(),
                manifest_space(manifest),
                old(self).owned(),
                r is Ok,
                err_view(r),
                true,
            ),
            final(selection).identities() == old(selection).identities(),
            final(selection).key_order() == old(selection).key_order(),
            final(selection).launched() == old(selection).launched(),
            final(selection).restricted() == old(selection).restricted(),
            final(selection).wf(),
            final(selection).workspace_space() == (if r is Ok {
                if old(selection).restricted() {
                    Some(final(self).owned()[session@].space)
                } else {
                    None
                }
            } else {
                old(selection).workspace_space()
            }),
    {
        let attached = match manifest {
            Some(m) => m.space_id,
            None => None,
        };
        let space = match attached {
            Some(space) => space,
            None => {
                let options = match manifest {
                    Some(m) => m.creation_options,
                    None => WorkspaceCreationOptions::default_options(),
                };
                WorkspaceBackend::<I>::create_with_options(&self.backend, options)?
            },
        };
        for i in 0..self.owned.len()
            invariant
                self.wf(),
                !self.owned().contains_key(session@),
                forall|j: int| 0 <= j < i ==> (#[trigger] self.owned@[j]).1.space != space,
        {
            if self.owned[i].1.space == space {
                proof {
                    let v = owned_view(self.owned@);
                    assert(registry_wf(self.owned@));
                    assert(v[i as int].0 == self.owned@[i as int].0@);
                    lemma_lookup(v, i as int);
                    assert(self.owned().contains_key(v[i as int].0) && self.owned()[v[i as int].0].space == space);
                }
                return Err("workspace_already_owned: another session owns this Space".to_owned());
            }
        }
        if attached.is_some() {
            let answer = WorkspaceBackend::<I>::state(&self.backend, space);
            let ghost seen = answer;
            let exists = match answer {
                Ok((exists, _active)) => exists,
                Err(e) => {
                    assert(backend_state_answer::<I, W>(self.backend, space, seen));
                    return Err(e);
                },
            };
            if !exists {
                assert(backend_state_answer::<I, W>(self.backend, space, seen));
                return Err("workspace_space_deleted: configured Space does not exist".to_owned());
            }
            assert(backend_state_answer::<I, W>(self.backend, space, seen));
        }
        // Retain a successful native allocation even if the following state
        // query fails, so explicit release remains possible.
        selection.set_workspace(Some(space));
        let workspace = Workspace {
            space,
            created: attached.is_none(),
            profile_scope: new_profile_scope(),
            moved: Vec::new(),
            launched: Vec::new(),
            launch_failures: Vec::new(),
        };
        let ghost before = self.owned@;
        proof {
            lemma_empty(workspace.launched_seq());
            lemma_empty(workspace.failures_seq());
            assert(workspace.model().moved =~= Seq::<(WindowTarget, Seq<u64>)>::empty());
            assert(workspace.model() == fresh_workspace(space, attached is None, workspace.profile_scope@));
            lemma_absent(owned_view(before), session@);
            assert(!has_key(owned_view(before), session@));
            crate::assoc::lemma_push(owned_view(before), session@, workspace.model());
        }
        self.owned.push((session, workspace));
        proof {
            assert(owned_view(self.owned@) =~= owned_view(before).push((session@, workspace.model())));
            assert forall|a: int, b: int|
                0 <= a < self.owned@.len() && 0 <= b < self.owned@.len() && a != b implies (
                #[trigger] self.owned@[a]).1.space != (#[trigger] self.owned@[b]).1.space by {
                if a < before.len() && b < before.len() {
                    assert(self.owned@[a] == before[a] && self.owned@[b] == before[b]);
                } else if a < before.len() {
                    assert(self.owned@[a] == before[a]);
                } else {
                    assert(self.owned@[b] == before[b]);
                }
            }
            assert forall|a: int| 0 <= a < self.owned@.len() implies (#[trigger] self.owned@[a]).1.wf() by {
                if a < before.len() {
                    assert(self.owned@[a] == before[a]);
                }
            }
            let o = assoc_map(owned_view(before));
            assert forall|j: Seq<char>| #[trigger] o.contains_key(j) implies o[j].space != space by {
                let x = choose|x: int| 0 <= x < owned_view(before).len() && owned_view(before)[x].0 == j;
                lemma_lookup(owned_view(before), x);
                assert(before[x].1.space != space);
            }
        }
        Ok(())
    }

    /// Launch, move, reveal and restore on the workspace at position `i`.
    fn update_owned<I: WindowIdentity, V: WorkspaceBackend<I>, A: SessionAuthority>(
        &mut self,
        i: usize,
        op: WorkspaceOperation,
        args: &ToolArgs,
        selection: &mut SelectedWindows<I, V>,
        manifest: Option<&WorkspaceManifest>,
        authority: &A,
    ) -> (r: Result<(), String>) where W: WorkspaceBackend<I>
        requires
            old(self).wf(),
            old(selection).wf(),
            i < old(self).owned@.len(),
            !(op is Create || op is GetState || op is Release || op is Delete),
        ensures
            final(self).wf(),
            final(self).spec_private_api() == old(self).spec_private_api(),
            execute_effect(
                old(self).owned(),
                final(self).owned(),
                old(self).owned@[i as int].0@,
                op,
                *args,
                manifest,
                r is Ok,
                err_view(r),
            ),
            final(selection).evolves_from(&*old(selection)),
            final(selection).workspace_space() == old(selection).workspace_space(),
            final(self).native() == old(self).native(),
            final(self).spec_backend() == old(self).spec_backend(),
            final(self).owned().contains_key(old(self).owned@[i as int].0@),
            selection_effect(
                op,
                *args,
                old(self).owned()[old(self).owned@[i as int].0@],
                final(self).owned()[old(self).owned@[i as int].0@],
                *old(selection),
                *final(selection),
                r is Ok,
                err_view(r),
            ),
            native_effect::<I, W>(
                old(self).spec_backend(),
                op,
                *args,
                manifest,
                old(self).owned()[old(self).owned@[i as int].0@],
                final(self).owned()[old(self).owned@[i as int].0@],
                r is Ok,
            ),
    {
        let ghost before = self.owned@;
        let ghost k = before[i as int].0@;
        proof {
            assert(owned_view(before)[i as int].0 == k);
            lemma_lookup(owned_view(before), i as int);
            selection.lemma_evolves_refl();
        }
        match op {
            WorkspaceOperation::Launch => {
                let alias = match &args.app {
                    Some(alias) => alias.clone(),
                    None => return Err("workspace_app_required".to_owned()),
                };
                let m = match manifest {
                    Some(m) => m,
                    None => return Err("workspace_requires_manifest".to_owned()),
                };
                let recipe = m.workspace_application(alias.as_str())?;
                let (key, mut ws) = self.owned.remove(i);
                let result = launch_into(&self.backend, &mut ws, &alias, &recipe, selection, authority);
                let ghost updated = ws;
                self.owned.insert(i, (key, ws));
                proof {
                    assert(self.owned@ =~= before.update(i as int, (before[i as int].0, updated)));
                    lemma_replace(before, i as int, updated);
                }
                result
            },
            WorkspaceOperation::Move => {
                let target = SelectedWindows::<I, V>::target(args)?;
                let (key, mut ws) = self.owned.remove(i);
                let result = move_into(&self.backend, &mut ws, target, selection);
                let ghost updated = ws;
                self.owned.insert(i, (key, ws));
                proof {
                    assert(self.owned@ =~= before.update(i as int, (before[i as int].0, updated)));
                    lemma_replace(before, i as int, updated);
                    assert(updated.model().launched == before[i as int].1.model().launched);
                    assert(updated.model().launch_failures == before[i as int].1.model().launch_failures);
                }
                result
            },
            WorkspaceOperation::Reveal => {
                WorkspaceBackend::<I>::reveal_space(&self.backend, self.owned[i].1.space)
            },
            WorkspaceOperation::Restore => {
                restore_from(&self.backend, &self.owned[i].1, selection)
            },
            _ => Err(unsupported()),
        }
    }

    /// Deletes the empty desktop that the session created and ends its ownership.
    fn delete_owned<I: WindowIdentity, V: WorkspaceBackend<I>>(
        &mut self,
        i: usize,
        selection: &mut SelectedWindows<I, V>,
        manifest: Option<&WorkspaceManifest>,
    ) -> (r: Result<WorkspaceStateOutput, String>) where W: WorkspaceBackend<I>
        requires
            old(self).wf(),
            old(selection).wf(),
            i < old(self).owned@.len(),
        ensures
            final(self).wf(),
            final(self).spec_private_api() == old(self).spec_private_api(),
            execute_effect(
                old(self).owned(),
                final(self).owned(),
                old(self).owned@[i as int].0@,
                WorkspaceOperation::Delete,
                ToolArgs::empty_spec(),
                manifest,
                r is Ok,
                err_view(r),
            ),
            final(selection).evolves_from(&*old(selection)),
            final(selection).workspace_space() == (if r is Ok {
                None
            } else {
                old(selection).workspace_space()
            }),
            final(self).native() == old(self).native(),
            final(self).spec_backend() == old(self).spec_backend(),
            reports_backend_state::<I, W>(old(self).spec_backend(), r),
            r matches Ok(out) ==> !out.owned && !out.space_exists && string_views(out.available_apps@)
                == manifest_aliases(manifest) && out.private_api == old(self).spec_private_api()
                && windows_in_order(out.windows@) && stale_rows_marked(out.windows@, *final(selection)),
    {
        let ghost before = self.owned@;
        let ghost k = before[i as int].0@;
        proof {
            assert(owned_view(before)[i as int].0 == k);
            lemma_lookup(owned_view(before), i as int);
            selection.lemma_evolves_refl();
        }
        if !self.owned[i].1.created {
            return Err("workspace_not_created: cannot delete a pre-existing Space".to_owned());
        }
        WorkspaceBackend::<I>::delete(&self.backend, self.owned[i].1.space)?;
        let mut snapshot = snapshot(&self.backend, Some(&self.owned[i].1), selection, manifest, self.private_api)?;
        delete_check(snapshot.space_exists)?;
        snapshot.owned = false;
        let ghost mid = *selection;
        selection.set_workspace(None);
        proof {
            assert forall|t: WindowTarget| #[trigger] selection.is_live(t) == mid.is_live(t) by {}
            assert(selection.evolves_from(&mid));
            SelectedWindows::lemma_evolves_trans(&*old(selection), &mid, &*selection);
            lemma_drop(before, i as int);
        }
        self.owned.remove(i);
        Ok(snapshot)
    }

    /// Runs one workspace tool call for the session the arguments name.
    /// Ownership is local to this registry: no two sessions own one desktop.
    pub fn execute<I: WindowIdentity, V: WorkspaceBackend<I>, A: SessionAuthority>(
        &mut self,
        name: &str,
        args: &ToolArgs,
        selection: &mut SelectedWindows<I, V>,
        manifest: Option<&WorkspaceManifest>,
        authority: &A,
    ) -> (r: Result<WorkspaceStateOutput, String>) where W: WorkspaceBackend<I>
        requires
            old(self).wf(),
            old(selection).wf(),
        ensures
            final(self).wf(),
            exclusive_spaces(final(self).owned()),
            final(self).spec_private_api() == old(self).spec_private_api(),
            final(selection).evolves_from(&*old(selection)),
            final(self).native() == old(self).native(),
            final(self).spec_backend() == old(self).spec_backend(),
            reports_backend_state::<I, W>(old(self).spec_backend(), r),
            args.spec_session() matches Some(k) ==> (old(self).owned().contains_key(k) && (spec_operation(name@) is Launch
                || spec_operation(name@) is Move) ==> final(self).owned().contains_key(k) && native_effect::<I, W>(
                old(self).spec_backend(),
                spec_operation(name@),
                *args,
                manifest,
                old(self).owned()[k],
                final(self).owned()[k],
                r is Ok,
            )),
            args.spec_session() matches Some(k) ==> (spec_operation(name@) is Create && !old(self).owned().contains_key(k)
                ==> attach_checked::<I, W>(
                old(self).spec_backend(),
                manifest_space(manifest),
                old(self).owned(),
                r is Ok,
                err_view(r),
                false,
            )),
            !old(self).native() && old(self).owned() == Map::<Seq<char>, WorkspaceModel>::empty()
                ==> final(self).owned() == Map::<Seq<char>, WorkspaceModel>::empty(),
            tool_outcome(
                old(self).owned(),
                final(self).owned(),
                old(self).spec_private_api(),
                old(self).native(),
                name@,
                *args,
                *old(selection),
                *final(selection),
                manifest,
                r,
            ),
    {
        proof {
            selection.lemma_evolves_refl();
        }
        let session = match args.session_name() {
            Some(session) => session,
            None => return Err("workspace_session_required".to_owned()),
        };
        let op = parse_operation(name);
        let idx = self.find_session(&session);
        let ghost before = *self;
        let ghost sel0 = *selection;
        match op {
            WorkspaceOperation::Create => {
                if idx.is_none() {
                    let created = self.create_for(session.clone(), selection, manifest);
                    match created {
                        Ok(()) => {},
                        Err(e) => {
                            proof {
                                self.lemma_exclusive();
                            }
                            return Err(e);
                        },
                    }
                }
            },
            WorkspaceOperation::GetState => {},
            WorkspaceOperation::Release => {
                selection.set_workspace(None);
                let released = match idx {
                    Some(i) => {
                        proof {
                            lemma_drop(self.owned@, i as int);
                        }
                        let (_key, workspace) = self.owned.remove(i);
                        Some(workspace)
                    },
                    None => {
                        proof {
                            assert(self.owned().remove(session@) =~= self.owned());
                        }
                        None
                    },
                };
                let ghost mid = *selection;
                let snapshot = snapshot(&self.backend, released.as_ref(), selection, manifest, self.private_api);
                proof {
                    SelectedWindows::lemma_evolves_trans(&sel0, &mid, &*selection);
                    self.lemma_exclusive();
                }
                return match snapshot {
                    Ok(mut snapshot) => {
                        snapshot.owned = false;
                        Ok(snapshot)
                    },
                    Err(error) => {
                        let mut message = "workspace_released_state_unavailable: ownership released; ".to_owned();
                        proof {
                            reveal_strlit("workspace_released_state_unavailable: ownership released; ");
                        }
                        message.append(error.as_str());
                        assert(message@.subrange(0, released_prefix().len() as int) =~= released_prefix());
                        Err(message)
                    },
                };
            },
            _ => {
                let i = match idx {
                    Some(i) => i,
                    None => return Err("workspace_not_found: this session owns no workspace".to_owned()),
                };
                match op {
                    WorkspaceOperation::Delete => {
                        let deleted = self.delete_owned(i, selection, manifest);
                        proof {
                            self.lemma_exclusive();
                        }
                        return deleted;
                    },
                    _ => {
                        let updated = self.update_owned(i, op, args, selection, manifest, authority);
                        match updated {
                            Ok(()) => {
                                proof {
                                    assert(before.owned@[i as int].0@ == session@);
                                    assert(selection_effect(
                                        op,
                                        *args,
                                        before.owned()[session@],
                                        self.owned()[session@],
                                        sel0,
                                        *selection,
                                        true,
                                        Seq::empty(),
                                    ));
                                }
                            },
                            Err(e) => {
                                proof {
                                    self.lemma_exclusive();
                                    assert(before.owned@[i as int].0@ == session@);
                                }
                                return Err(e);
                            },
                        }
                    },
                }
            },
        }
        let ghost mid = *selection;
        let ghost mid_owned = self.owned();
        proof {
            assert((op is Launch || op is Move || op is Restore) ==> {
                &&& before.owned().contains_key(session@)
                &&& selection_effect(op, *args, before.owned()[session@], mid_owned[session@], sel0, mid, true, Seq::empty())
                &&& op is Launch ==> (args.app matches Some(x) && !before.owned()[session@].launch_failures.contains_key(x@))
                &&& op is Move ==> crate::selection::spec_target(*args) is Some
                &&& mid_owned.contains_key(session@)
                &&& native_effect::<I, W>(self.spec_backend(), op, *args, manifest, before.owned()[session@], mid_owned[session@], true)
            });
        }
        let idx = self.find_session(&session);
        let workspace = match idx {
            Some(i) => Some(&self.owned[i].1),
            None => None,
        };
        let snapshot = snapshot(&self.backend, workspace, selection, manifest, self.private_api);
        proof {
            SelectedWindows::lemma_evolves_trans(&sel0, &mid, &*selection);
            self.lemma_exclusive();
            if op is Launch || op is Move || op is Restore {
                lemma_selection_effect_snapshot(
                    op,
                    *args,
                    before.owned()[session@],
                    mid_owned[session@],
                    sel0,
                    mid,
                    *selection,
                    snapshot is Ok,
                    err_view(snapshot),
                );
            }
        }
        snapshot
    }

    /// Session teardown releases the session's ownership; nothing native changes.
    pub fn end_session(&mut self, session: &str)
        requires
            old(self).wf(),
        ensures
            final(self).wf(),
            final(self).owned() == old(self).owned().remove(session@),
            final(self).spec_private_api() == old(self).spec_private_api(),
    {
        match self.find_session(&session.to_owned()) {
            Some(i) => {
                let ghost before = self.owned@;
                proof {
                    lemma_drop(before, i as int);
                }
                self.owned.remove(i);
            },
            None => {
                proof {
                    assert(self.owned().remove(session@) =~= self.owned());
                }
            },
        }
    }
}

/// The code a failed workspace call reports: its message up to the first `:`.
pub fn error_code(message: &str) -> (r: String)
    ensures
        r@.len() <= message@.len(),
        r@ == message@.subrange(0, r@.len() as int),
        r@.len() < message@.len() ==> message@[r@.len() as int] == ':',
        forall|j: int| 0 <= j < r@.len() ==> r@[j] != ':',
{
    let n = message.unicode_len();
    let mut i: usize = 0;
    while i < n
        invariant
            n == message@.len(),
            i <= n,
            forall|j: int| 0 <= j < i ==> message@[j] != ':',
        ensures
            i <= n,
            forall|j: int| 0 <= j < i ==> message@[j] != ':',
            i < n ==> message@[i as int] == ':',
        decreases n - i,
    {
        if message.get_char(i) == ':' {
            break;
        }
        i = i + 1;
    }
    message.substring_char(0, i).to_owned()
}

} // verus!
