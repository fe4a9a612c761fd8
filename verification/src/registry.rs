//! Registration of the workspace tools with a host's tool registry.
use vstd::prelude::*;
use std::sync::Arc;
use crate::args::ToolArgs;
use crate::contract::{contracts, is_workspace_contract, launch_contract, workspace_tool, ToolContract, WorkspaceStateOutput};
use crate::selection::{SelectedWindows, WindowIdentity, WindowTarget};
use crate::text::str_eq;
use crate::selection::err_view;
use crate::workspace::{exclusive_spaces, tool_outcome, unsupported_msg, SessionAuthority, WorkspaceBackend, WorkspaceManifest, WorkspaceModel, Workspaces};

verus! {

/// A registered tool: name, description and behaviour annotations.
pub struct ToolDef {
    pub name: String,
    pub description: String,
    pub read_only: bool,
    pub destructive: bool,
    pub idempotent: bool,
    pub open_world: bool,
}

/// The tool definition registered for a contract.
pub open spec fn defines(d: ToolDef, c: ToolContract) -> bool {
    &&& d.name@ == c.name@
    &&& d.description@ == c.description@
    &&& d.read_only == c.annotations.read_only
    &&& d.destructive == c.annotations.destructive
    &&& d.idempotent == c.annotations.idempotent
    &&& d.open_world == c.annotations.open_world
}

/// The trusted context a host dispatches a call under: the session's
/// approved windows (when it is a selected-window session), its trusted
/// configuration and its lease.
pub struct DispatchContext<I, V, A> {
    pub selection: Option<SelectedWindows<I, V>>,
    pub manifest: Option<WorkspaceManifest>,
    pub authority: A,
}

pub open spec fn manifest_ref(m: &Option<WorkspaceManifest>) -> Option<&WorkspaceManifest> {
    match m {
        Some(x) => Some(x),
        None => None,
    }
}

pub open spec fn trusted_session_required_msg() -> Seq<char> {
    "workspace_requires_trusted_session"@
}

pub open spec fn selected_windows_required_msg() -> Seq<char> {
    "workspace_requires_selected_windows: configure approved windows separately at trusted startup"@
}

/// The tools a host exposes, with the workspace registry they share.
pub struct ToolRegistry<W> {
    tools: Vec<ToolDef>,
    workspaces: Option<Workspaces<W>>,
}

fn has_capability(c: &ToolContract, capability: &str) -> (r: bool)
    ensures
        r == exists|i: int| 0 <= i < c.capabilities@.len() && (#[trigger] c.capabilities@[i])@ == capability@,
{
    for i in 0..c.capabilities.len()
        invariant
            forall|j: int| 0 <= j < i ==> (#[trigger] c.capabilities@[j])@ != capability@,
    {
        if str_eq(c.capabilities[i].as_str(), capability) {
            return true;
        }
    }
    false
}

impl<W> ToolRegistry<W> {
    pub closed spec fn tool_defs(&self) -> Seq<ToolDef> {
        self.tools@
    }

    pub closed spec fn workspace_registry(&self) -> Option<Workspaces<W>> {
        self.workspaces
    }

    pub closed spec fn wf(&self) -> bool {
        self.workspaces matches Some(w) ==> w.wf()
    }

    pub fn new() -> (r: ToolRegistry<W>)
        ensures
            r.wf(),
            r.tool_defs().len() == 0,
            r.workspace_registry() is None,
    {
        ToolRegistry { tools: Vec::new(), workspaces: None }
    }

    pub fn tools(&self) -> (r: &Vec<ToolDef>)
        ensures
            r@ == self.tool_defs(),
    {
        &self.tools
    }

    /// Runs a workspace tool call under the trusted context the host
    /// dispatches it with. Without registered workspace tools every call is
    /// refused as unsupported; without a trusted context, or a context without
    /// approved windows, the call is refused and nothing changes.
    pub fn execute<I: WindowIdentity, V: WorkspaceBackend<I>, A: SessionAuthority>(
        &mut self,
        name: &str,
        args: &ToolArgs,
        context: &mut Option<DispatchContext<I, V, A>>,
    ) -> (r: Result<WorkspaceStateOutput, String>) where W: WorkspaceBackend<I>
        requires
            old(self).wf(),
            *old(context) matches Some(c) ==> (c.selection matches Some(s) ==> s.wf()),
        ensures
            final(self).wf(),
            final(self).tool_defs() == old(self).tool_defs(),
            *final(context) matches Some(c) ==> (c.selection matches Some(s) ==> s.wf()),
            old(self).workspace_registry() is None ==> r is Err && err_view(r) == unsupported_msg()
                && *final(context) == *old(context) && final(self).workspace_registry() is None,
            old(self).workspace_registry() is Some && *old(context) is None ==> r is Err && err_view(r)
                == trusted_session_required_msg() && *final(context) == *old(context)
                && final(self).workspace_registry() == old(self).workspace_registry(),
            old(self).workspace_registry() is Some && (*old(context) matches Some(c) && c.selection is None)
                ==> r is Err && err_view(r) == selected_windows_required_msg() && *final(context)
                == *old(context) && final(self).workspace_registry() == old(self).workspace_registry(),
            old(self).workspace_registry() matches Some(w) ==> (*old(context) matches Some(c) ==> (
            c.selection matches Some(sel) ==> {
                &&& final(self).workspace_registry() matches Some(after) && {
                    &&& exclusive_spaces(after.owned())
                    &&& after.spec_private_api() == w.spec_private_api()
                    &&& after.native() == w.native()
                    &&& !w.native() && w.owned() == Map::<Seq<char>, WorkspaceModel>::empty() ==> after.owned()
                        == Map::<Seq<char>, WorkspaceModel>::empty()
                    &&& *final(context) matches Some(c2) && c2.manifest == c.manifest && c2.authority
                        == c.authority && (c2.selection matches Some(sel2) && {
                        &&& sel2.evolves_from(&sel)
                        &&& tool_outcome(
                            w.owned(),
                            after.owned(),
                            w.spec_private_api(),
                            w.native(),
                            name@,
                            *args,
                            sel,
                            sel2,
                            manifest_ref(&c.manifest),
                            r,
                        )
                    })
                }
            })),
    {
        let mut workspaces = match self.workspaces.take() {
            Some(workspaces) => workspaces,
            None => return Err(crate::workspace::unsupported()),
        };
        let mut ctx = match context.take() {
            Some(ctx) => ctx,
            None => {
                self.workspaces = Some(workspaces);
                return Err("workspace_requires_trusted_session".to_owned());
            },
        };
        let mut selection = match ctx.selection.take() {
            Some(selection) => selection,
            None => {
                self.workspaces = Some(workspaces);
                *context = Some(ctx);
                return Err(
                    "workspace_requires_selected_windows: configure approved windows separately at trusted startup".to_owned(),
                );
            },
        };
        let manifest = match &ctx.manifest {
            Some(m) => Some(m),
            None => None,
        };
        let r = workspaces.execute(name, args, &mut selection, manifest, &ctx.authority);
        ctx.selection = Some(selection);
        *context = Some(ctx);
        self.workspaces = Some(workspaces);
        r
    }

    /// The desktop the session owns, if workspace tools are registered.
    pub fn owned_space(&self, session: &str) -> (r: Option<u64>)
        requires
            self.wf(),
        ensures
            r == match self.workspace_registry() {
                Some(w) => if w.owned().contains_key(session@) {
                    Some(w.owned()[session@].space)
                } else {
                    None
                },
                None => None,
            },
    {
        match &self.workspaces {
            Some(workspaces) => workspaces.owned_space(session),
            None => None,
        }
    }

    /// The window that the session's launch of `alias` created, if any.
    pub fn launched_window(&self, session: &str, alias: &str) -> (r: Option<WindowTarget>)
        requires
            self.wf(),
        ensures
            r == match self.workspace_registry() {
                Some(w) => if w.owned().contains_key(session@) && w.owned()[session@].launched.contains_key(
                    alias@,
                ) {
                    Some(w.owned()[session@].launched[alias@])
                } else {
                    None
                },
                None => None,
            },
    {
        match &self.workspaces {
            Some(workspaces) => workspaces.launched_window(session, alias),
            None => None,
        }
    }

    /// Session teardown: the ended session owns no workspace any more.
    pub fn end_session(&mut self, session: &str)
        requires
            old(self).wf(),
        ensures
            final(self).wf(),
            final(self).tool_defs() == old(self).tool_defs(),
            match (old(self).workspace_registry(), final(self).workspace_registry()) {
                (Some(a), Some(b)) => b.owned() == a.owned().remove(session@),
                (None, None) => true,
                _ => false,
            },
    {
        match self.workspaces.take() {
            Some(mut workspaces) => {
                workspaces.end_session(session);
                self.workspaces = Some(workspaces);
            },
            None => {},
        }
    }
}

/// Registers the workspace tools: one tool for each contract that declares
/// the workspace capability, all sharing one workspace registry over the
/// given native backend (or an unsupported one).
#[verifier::loop_isolation(false)]
pub fn register<W>(registry: &mut ToolRegistry<W>, backend: Option<Arc<W>>, private_api: bool)
    requires
        old(registry).wf(),
    ensures
        final(registry).wf(),
        final(registry).workspace_registry() matches Some(w) && w.owned() == Map::<
            Seq<char>,
            WorkspaceModel,
        >::empty() && w.spec_private_api() == private_api && w.native() == backend is Some,
        final(registry).tool_defs().len() == old(registry).tool_defs().len() + 8,
        forall|j: int|
            0 <= j < old(registry).tool_defs().len() ==> #[trigger] final(registry).tool_defs()[j]
                == old(registry).tool_defs()[j],
        forall|j: int|
            0 <= j < 8 ==> {
                let d = #[trigger] final(registry).tool_defs()[old(registry).tool_defs().len() + j];
                &&& d.name@ == workspace_tool(j).0
                &&& d.description@ == workspace_tool(j).1
                &&& d.read_only == workspace_tool(j).2
                &&& d.destructive == workspace_tool(j).3
                &&& d.idempotent == (workspace_tool(j).0 != "create_workspace"@)
                &&& !d.open_world
            },
{
    let mut all = contracts();
    all.insert(1, launch_contract());
    let start = registry.tools.len();
    let ghost base = registry.tools@;
    for i in 0..all.len()
        invariant
            all@.len() == 8,
            forall|j: int|
                0 <= j < 8 ==> is_workspace_contract(
                    #[trigger] all@[j],
                    workspace_tool(j).0,
                    workspace_tool(j).1,
                    workspace_tool(j).2,
                    workspace_tool(j).3,
                ),
            start == base.len(),
            registry.tools@.len() == start + i,
            forall|j: int| 0 <= j < start ==> #[trigger] registry.tools@[j] == base[j],
            forall|j: int| 0 <= j < i ==> defines(#[trigger] registry.tools@[start + j], all@[j]),
    {
        let c = &all[i];
        proof {
            assert(is_workspace_contract(all@[i as int], workspace_tool(i as int).0, workspace_tool(i as int).1, workspace_tool(i as int).2, workspace_tool(i as int).3));
            assert(crate::contract::string_views(c.capabilities@) == seq![crate::contract::workspace_capability()]);
            assert(crate::contract::string_views(c.capabilities@).len() == 1);
            assert(crate::contract::string_views(c.capabilities@)[0] == c.capabilities@[0]@);
            assert(c.capabilities@[0]@ == "session.workspace"@);
        }
        if has_capability(c, "session.workspace") {
            registry.tools.push(
                ToolDef {
                    name: c.name.clone(),
                    description: c.description.clone(),
                    read_only: c.annotations.read_only,
                    destructive: c.annotations.destructive,
                    idempotent: c.annotations.idempotent,
                    open_world: c.annotations.open_world,
                },
            );
        }
    }
    registry.workspaces = Some(Workspaces::new(backend, private_api));
    proof {
        assert forall|j: int| 0 <= j < 8 implies defines(#[trigger] registry.tools@[start + j], all@[j]) by {}
    }
}

} // verus!
