//! Properties that hold across calls: what no sequence of operations can
//! undo or widen.
use vstd::prelude::*;
use crate::selection::{SelectedWindows, WindowIdentity, WindowTarget};
use crate::text::replace_all;
use crate::args::ToolArgs;
use crate::contract::WorkspaceStateOutput;
use crate::workspace::{
    attach_checked, backend_launch_answer, backend_membership_answer, backend_state_answer, native_effect,
    reports_backend_state, space_deleted_msg, space_taken, Backend, LaunchedWorkspaceWindow, WorkspaceApplication,
    workspace_placeholder as placeholder, manifest_space, spec_operation, tool_outcome, WorkspaceManifest, WorkspaceOperation,
    launch_effect, move_effect, workspace_placeholder, WorkspaceBackend, WorkspaceModel,
};

verus! {

/// A revoked lease stays revoked: no later state of the selection that
/// evolved from it (by any mix of validation, launch admission and
/// workspace narrowing) holds that window live again.
pub proof fn revoked_lease_never_revives<I: WindowIdentity, W: WorkspaceBackend<I>>(
    before: &SelectedWindows<I, W>,
    after: &SelectedWindows<I, W>,
    target: WindowTarget,
)
    requires
        after.evolves_from(before),
        before.is_revoked(target),
    ensures
        after.is_revoked(target),
        !after.is_live(target),
{
    assert(before.is_selected(target));
}

/// A selection only grows by windows that a trusted workspace launch
/// admitted; no other window ever becomes selected.
pub proof fn selection_grows_only_by_launch<I: WindowIdentity, W: WorkspaceBackend<I>>(
    before: &SelectedWindows<I, W>,
    after: &SelectedWindows<I, W>,
    target: WindowTarget,
)
    requires
        after.evolves_from(before),
        after.is_selected(target),
        !before.is_selected(target),
    ensures
        after.launched().contains(target),
{
}

/// Once an alias launched or failed to launch in a workspace, launching it
/// again leaves the workspace record as it was.
pub proof fn recorded_launch_is_final(before: WorkspaceModel, after: WorkspaceModel, alias: Seq<char>, ok: bool)
    requires
        launch_effect(before, after, alias, ok),
        before.launched.contains_key(alias) || before.launch_failures.contains_key(alias),
    ensures
        after == before,
        before.launch_failures.contains_key(alias) ==> !ok,
{
}

/// The first recorded origin of a window is never replaced by a later move.
pub proof fn first_origin_is_kept(before: WorkspaceModel, after: WorkspaceModel, target: WindowTarget, moved: WindowTarget, ok: bool)
    requires
        move_effect(before, after, moved, ok),
        crate::assoc::assoc_map(before.moved).contains_key(target),
    ensures
        crate::assoc::assoc_map(after.moved).contains_key(target),
        crate::assoc::assoc_map(after.moved)[target] == crate::assoc::assoc_map(before.moved)[target],
{
}

/// Creating is idempotent: a session that owns a workspace keeps it when it
/// asks again, and a successful answer reports that same desktop. A first
/// successful creation owns the configured desktop when one is configured
/// (and reports it as not created), and otherwise a desktop it created.
pub proof fn repeated_create_keeps_workspace<I: WindowIdentity, V: WorkspaceBackend<I>>(
    before: Map<Seq<char>, WorkspaceModel>,
    after: Map<Seq<char>, WorkspaceModel>,
    private_api: bool,
    native: bool,
    args: ToolArgs,
    old_sel: SelectedWindows<I, V>,
    new_sel: SelectedWindows<I, V>,
    manifest: Option<&WorkspaceManifest>,
    r: Result<WorkspaceStateOutput, String>,
    k: Seq<char>,
)
    requires
        tool_outcome(before, after, private_api, native, "create_workspace"@, args, old_sel, new_sel, manifest, r),
        args.spec_session() == Some(k),
    ensures
        before.contains_key(k) ==> after == before && (r matches Ok(out) ==> out.owned && out.space_id == Some(
            before[k].space,
        )),
        !before.contains_key(k) && after.contains_key(k) && manifest_space(manifest) is Some ==> after[k].space
            == manifest_space(manifest)->0,
        !before.contains_key(k) ==> (r matches Ok(out) ==> {
            &&& after.contains_key(k)
            &&& out.owned
            &&& out.space_id == Some(after[k].space)
            &&& out.space_created == (manifest_space(manifest) is None)
            &&& manifest_space(manifest) matches Some(a) ==> out.space_id == Some(a)
        }),
{
    reveal_strlit("create_workspace");
    assert(spec_operation("create_workspace"@) == WorkspaceOperation::Create);
}

/// A launch never spawns its way around a recorded failure: asking again
/// for an alias whose launch failed changes neither the workspace nor the
/// selection, and is refused. Any launch admits to the selection at most the
/// one window it newly records for the alias.
pub proof fn launch_admits_at_most_its_window<I: WindowIdentity, V: WorkspaceBackend<I>>(
    before: Map<Seq<char>, WorkspaceModel>,
    after: Map<Seq<char>, WorkspaceModel>,
    private_api: bool,
    native: bool,
    args: ToolArgs,
    old_sel: SelectedWindows<I, V>,
    new_sel: SelectedWindows<I, V>,
    manifest: Option<&WorkspaceManifest>,
    r: Result<WorkspaceStateOutput, String>,
    k: Seq<char>,
    alias: Seq<char>,
    t: WindowTarget,
)
    requires
        tool_outcome(before, after, private_api, native, "launch_workspace_app"@, args, old_sel, new_sel, manifest, r),
        args.spec_session() == Some(k),
        args.app matches Some(a) && a@ == alias,
        before.contains_key(k),
    ensures
        before[k].launch_failures.contains_key(alias) ==> r is Err && after == before && new_sel == old_sel,
        new_sel.is_selected(t) && !old_sel.is_selected(t) ==> after.contains_key(k) && after[k].launched.contains_key(
            alias,
        ) && !before[k].launched.contains_key(alias) && t == after[k].launched[alias],
{
    reveal_strlit("launch_workspace_app");
    reveal_strlit("create_workspace");
    assert("launch_workspace_app"@[0] != "create_workspace"@[0]);
    assert(spec_operation("launch_workspace_app"@) == WorkspaceOperation::Launch);
}

/// A reported workspace state shows the desktop as the backend sees it: when
/// every answer of the backend about the reported desktop is `(exists,
/// active)`, the report says exactly that the desktop exists (or not) and is
/// shown (or not).
pub proof fn reported_state_is_the_backends<I, W: WorkspaceBackend<I>>(
    backend: Backend<W>,
    r: Result<WorkspaceStateOutput, String>,
    space: u64,
    exists: bool,
    active: bool,
)
    requires
        reports_backend_state::<I, W>(backend, r),
        r matches Ok(out) && out.space_id == Some(space),
        forall|answer: Result<(bool, bool), String>|
            #[trigger] backend_state_answer::<I, W>(backend, space, answer) ==> answer == Ok::<(bool, bool), String>(
                (exists, active),
            ),
    ensures
        r->Ok_0.space_exists == exists,
        r->Ok_0.active == active,
{
}

/// Attaching a configured desktop that the backend reports missing fails
/// with the space-deleted refusal, whatever else holds.
pub proof fn missing_configured_desktop_is_refused<I, W: WorkspaceBackend<I>>(
    backend: Backend<W>,
    configured: u64,
    owned: Map<Seq<char>, WorkspaceModel>,
    ok: bool,
    err: Seq<char>,
    settles: bool,
)
    requires
        attach_checked::<I, W>(backend, Some(configured), owned, ok, err, settles),
        !space_taken(owned, Some(configured)),
        forall|answer: Result<(bool, bool), String>|
            #[trigger] backend_state_answer::<I, W>(backend, configured, answer) ==> (answer matches Ok((exists, _))
                && !exists),
    ensures
        !ok,
        err == space_deleted_msg(),
{
}

/// A move succeeds only if the backend can report the window on the
/// workspace's desktop and nowhere else: when no answer of the backend about
/// the window is exactly that desktop, the move fails.
pub proof fn move_succeeds_only_when_settled<I, W: WorkspaceBackend<I>>(
    backend: Backend<W>,
    args: ToolArgs,
    manifest: Option<&WorkspaceManifest>,
    before: WorkspaceModel,
    after: WorkspaceModel,
    ok: bool,
    target: WindowTarget,
)
    requires
        native_effect::<I, W>(backend, WorkspaceOperation::Move, args, manifest, before, after, ok),
        crate::selection::spec_target(args) == Some(target),
        forall|answer: Result<Vec<u64>, String>|
            #[trigger] backend_membership_answer::<I, W>(backend, target, answer) ==> (answer matches Ok(ids) ==> ids@
                != seq![before.space]),
    ensures
        !ok,
{
    if ok {
        let ids = choose|ids: Vec<u64>|
            ids@ == seq![before.space] && #[trigger] backend_membership_answer::<I, W>(
                backend,
                target,
                Ok::<Vec<u64>, String>(ids),
            );
        assert(backend_membership_answer::<I, W>(backend, target, Ok::<Vec<u64>, String>(ids)));
    }
}

/// A launch hands the backend the alias's trusted recipe scoped to the
/// workspace: when the backend attests windows only for launches with the
/// arguments `arguments`, a newly recorded window means `arguments` are the
/// recipe's arguments with every `{workspace}` replaced by the workspace's
/// profile scope.
pub proof fn launch_uses_the_workspace_scope<I, W: WorkspaceBackend<I>>(
    backend: Backend<W>,
    args: ToolArgs,
    m: &WorkspaceManifest,
    before: WorkspaceModel,
    after: WorkspaceModel,
    ok: bool,
    alias: Seq<char>,
    j: int,
    arguments: Seq<Seq<char>>,
)
    requires
        native_effect::<I, W>(backend, WorkspaceOperation::Launch, args, Some(m), before, after, ok),
        args.app matches Some(a) && a@ == alias,
        m.first_recipe(alias, j),
        after.launched != before.launched,
        forall|app: WorkspaceApplication, window: LaunchedWorkspaceWindow<I>|
            #[trigger] backend_launch_answer::<I, W>(backend, app, Ok::<LaunchedWorkspaceWindow<I>, String>(window))
                ==> app.spec_recipe().1 == arguments,
    ensures
        arguments == m.applications@[j].1.spec_recipe().1.map_values(
            |x: Seq<char>| replace_all(x, placeholder(), before.profile_scope),
        ),
{
    let k = choose|k: int| #[trigger] m.first_recipe(alias, k) && crate::workspace::launched_scoped::<I, W>(
        backend,
        m.applications@[k].1.spec_recipe(),
        before.profile_scope,
        after.launched[alias],
    );
    assert(k == j) by {
        if k < j {
            assert(m.applications@[k].0@ != alias);
        } else if j < k {
            assert(m.applications@[j].0@ != alias);
        }
    }
    let (app, window) = choose|app: WorkspaceApplication, window: LaunchedWorkspaceWindow<I>|
        crate::workspace::scoped_recipe(app, m.applications@[j].1.spec_recipe(), before.profile_scope)
            && #[trigger] backend_launch_answer::<I, W>(backend, app, Ok::<LaunchedWorkspaceWindow<I>, String>(window))
            && window.target == after.launched[alias];
    assert(backend_launch_answer::<I, W>(backend, app, Ok::<LaunchedWorkspaceWindow<I>, String>(window)));
}

/// Narrowed to an owned desktop, listing live targets keeps every live window
/// the backend cannot refuse: when every answer about the desktop says it
/// exists and every answer about the window puts it on that desktop alone, a
/// window still live is listed.
pub proof fn accepted_windows_are_listed<I: WindowIdentity, W: WorkspaceBackend<I>>(
    before: &SelectedWindows<I, W>,
    after: &SelectedWindows<I, W>,
    listed: Seq<WindowTarget>,
    space: u64,
    backend: std::sync::Arc<W>,
    target: WindowTarget,
)
    requires
        after.lists_listable(before, listed),
        before.restricted(),
        before.workspace_space() == Some(space),
        before.narrowing_backend() == Some(backend),
        forall|answer: Result<(bool, bool), String>|
            #[trigger] crate::workspace::state_answer::<I, W>(&*backend, space, answer) ==> (answer matches Ok((
                exists,
                _,
            )) && exists),
        forall|answer: Result<Vec<u64>, String>|
            #[trigger] crate::workspace::membership_answer::<I, W>(&*backend, target, answer) ==> (answer matches Ok(
                ids,
            ) && ids@ == seq![space]),
        after.is_live(target),
    ensures
        listed.contains(target),
{
    assert(before.listable(target));
}

/// `from` occurs in `s` at position `i`.
pub open spec fn occurs_at(s: Seq<char>, from: Seq<char>, i: int) -> bool {
    0 <= i && i + from.len() <= s.len() && s.subrange(i, i + from.len()) == from
}

pub open spec fn replacement_count(s: Seq<char>, from: Seq<char>) -> nat
    decreases s.len(),
{
    if from.len() == 0 || s.len() < from.len() {
        0
    } else if s.subrange(0, from.len() as int) == from {
        1 + replacement_count(s.subrange(from.len() as int, s.len() as int), from)
    } else {
        replacement_count(s.subrange(1, s.len() as int), from)
    }
}

proof fn lemma_replace_len(s: Seq<char>, from: Seq<char>, to: Seq<char>)
    ensures
        replace_all(s, from, to).len() == s.len() + replacement_count(s, from) * (to.len() - from.len()),
    decreases s.len(),
{
    let d = to.len() - from.len();
    if from.len() == 0 || s.len() < from.len() {
        assert(replacement_count(s, from) == 0);
        assert(0 * d == 0) by (nonlinear_arith);
    } else if s.subrange(0, from.len() as int) == from {
        let rest = s.subrange(from.len() as int, s.len() as int);
        lemma_replace_len(rest, from, to);
        let c = replacement_count(rest, from) as int;
        assert(replacement_count(s, from) == 1 + c);
        assert(rest.len() == s.len() - from.len());
        assert(replace_all(s, from, to) == to + replace_all(rest, from, to));
        assert((1 + c) * d == d + c * d) by (nonlinear_arith);
    } else {
        let rest = s.subrange(1, s.len() as int);
        lemma_replace_len(rest, from, to);
        assert(replacement_count(s, from) == replacement_count(rest, from));
        assert(replace_all(s, from, to) == seq![s[0]] + replace_all(rest, from, to));
    }
}

proof fn lemma_occurrence_counted(s: Seq<char>, from: Seq<char>, i: int)
    requires
        from.len() > 0,
        occurs_at(s, from, i),
    ensures
        replacement_count(s, from) >= 1,
    decreases s.len(),
{
    if s.subrange(0, from.len() as int) == from {
    } else {
        assert(i != 0);
        let rest = s.subrange(1, s.len() as int);
        assert(rest.subrange(i - 1, i - 1 + from.len()) =~= s.subrange(i, i + from.len()));
        lemma_occurrence_counted(rest, from, i - 1);
    }
}

proof fn lemma_same_length_scopes_differ(s: Seq<char>, from: Seq<char>, a: Seq<char>, b: Seq<char>, i: int)
    requires
        from.len() > 0,
        a != b,
        a.len() == b.len(),
        occurs_at(s, from, i),
    ensures
        replace_all(s, from, a) != replace_all(s, from, b),
    decreases s.len(),
{
    if s.subrange(0, from.len() as int) == from {
        let rest = s.subrange(from.len() as int, s.len() as int);
        let ra = a + replace_all(rest, from, a);
        let rb = b + replace_all(rest, from, b);
        assert(exists|k: int| 0 <= k < a.len() && a[k] != b[k]) by {
            if forall|k: int| 0 <= k < a.len() ==> a[k] == b[k] {
                assert(a =~= b);
            }
        }
        let k = choose|k: int| 0 <= k < a.len() && a[k] != b[k];
        assert(ra[k] == a[k] && rb[k] == b[k]);
    } else {
        assert(i != 0);
        let rest = s.subrange(1, s.len() as int);
        assert(rest.subrange(i - 1, i - 1 + from.len()) =~= s.subrange(i, i + from.len()));
        lemma_same_length_scopes_differ(rest, from, a, b, i - 1);
        let ra = replace_all(rest, from, a);
        let rb = replace_all(rest, from, b);
        if seq![s[0]] + ra == seq![s[0]] + rb {
            assert((seq![s[0]] + ra).drop_first() =~= ra);
            assert((seq![s[0]] + rb).drop_first() =~= rb);
        }
    }
}

/// Launch recipes scope profiles to the owned workspace: an argument that
/// names the workspace placeholder becomes different text for two different
/// workspace scopes, so two workspaces never share such a profile.
pub proof fn distinct_scopes_separate_profiles(argument: Seq<char>, a: Seq<char>, b: Seq<char>, i: int)
    requires
        a != b,
        occurs_at(argument, workspace_placeholder(), i),
    ensures
        replace_all(argument, workspace_placeholder(), a) != replace_all(
            argument,
            workspace_placeholder(),
            b,
        ),
{
    let from = workspace_placeholder();
    reveal_strlit("{workspace}");
    if a.len() == b.len() {
        lemma_same_length_scopes_differ(argument, from, a, b, i);
    } else {
        lemma_occurrence_counted(argument, from, i);
        lemma_replace_len(argument, from, a);
        lemma_replace_len(argument, from, b);
        let c = replacement_count(argument, from) as int;
        assert(c * (a.len() - from.len()) != c * (b.len() - from.len())) by (nonlinear_arith)
            requires
                c >= 1,
                a.len() != b.len(),
        ;
    }
}

} // verus!
