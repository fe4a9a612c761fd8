//! Session workspace contracts. Access approval is trusted configuration and
//! is deliberately absent from these agent-callable inputs.
use vstd::prelude::*;

verus! {

/// Input of `move_window_to_workspace`.
pub struct MoveWindowToWorkspaceInput {
    pub session: Option<String>,
    pub pid: i64,
    pub window_id: u64,
}

/// Input of `launch_workspace_app`: a trusted alias, never a recipe.
pub struct LaunchWorkspaceAppInput {
    pub session: Option<String>,
    pub app: String,
}

/// Input of the workspace tools that take only a session.
pub struct SessionInput {
    pub session: Option<String>,
}

/// One window that the workspace moved, with where it came from and where it is.
pub struct WorkspaceWindowState {
    pub pid: i64,
    pub window_id: u64,
    pub original_space_ids: Vec<u64>,
    pub current_space_ids: Vec<u64>,
    pub state: String,
}

/// The session's workspace as the tools report it.
pub struct WorkspaceStateOutput {
    pub available_apps: Vec<String>,
    pub owned: bool,
    pub space_id: Option<u64>,
    pub space_created: bool,
    pub space_exists: bool,
    pub active: bool,
    pub private_api: bool,
    pub windows: Vec<WorkspaceWindowState>,
}

/// The views of a list of strings.
pub open spec fn string_views(v: Seq<String>) -> Seq<Seq<char>> {
    v.map_values(|s: String| s@)
}

/// Platforms a tool is declared for.
pub enum Platform {
    Macos,
    Windows,
    Linux,
}

pub struct ToolAnnotations {
    pub read_only: bool,
    pub destructive: bool,
    pub idempotent: bool,
    pub open_world: bool,
}

/// A tool's declared contract: name, description, platforms, capability
/// and behaviour annotations.
pub struct ToolContract {
    pub name: String,
    pub description: String,
    pub platforms: Vec<Platform>,
    pub aliases: Vec<String>,
    pub capabilities: Vec<String>,
    pub annotations: ToolAnnotations,
}

pub open spec fn workspace_capability() -> Seq<char> {
    "session.workspace"@
}

/// A workspace tool contract: every platform, the workspace capability,
/// never open-world, and idempotent except for creation.
pub open spec fn is_workspace_contract(c: ToolContract, name: Seq<char>, description: Seq<char>, read_only: bool, destructive: bool) -> bool {
    &&& c.name@ == name
    &&& c.description@ == description
    &&& c.platforms@ == seq![Platform::Macos, Platform::Windows, Platform::Linux]
    &&& c.aliases@.len() == 0
    &&& string_views(c.capabilities@) == seq![workspace_capability()]
    &&& c.annotations.read_only == read_only
    &&& c.annotations.destructive == destructive
    &&& c.annotations.idempotent == (name != "create_workspace"@)
    &&& !c.annotations.open_world
}

fn contract(name: &str, description: &str, read_only: bool, destructive: bool) -> (r: ToolContract)
    ensures
        is_workspace_contract(r, name@, description@, read_only, destructive),
{
    let mut platforms = Vec::new();
    platforms.push(Platform::Macos);
    platforms.push(Platform::Windows);
    platforms.push(Platform::Linux);
    let mut capabilities: Vec<String> = Vec::new();
    capabilities.push("session.workspace".to_owned());
    let idempotent = !crate::text::str_eq(name, "create_workspace");
    let r = ToolContract {
        name: name.to_owned(),
        description: description.to_owned(),
        platforms,
        aliases: Vec::new(),
        capabilities,
        annotations: ToolAnnotations { read_only, destructive, idempotent, open_world: false },
    };
    assert(r.platforms@ =~= seq![Platform::Macos, Platform::Windows, Platform::Linux]);
    assert(string_views(r.capabilities@) =~= seq![workspace_capability()]);
    r
}

pub open spec fn create_description() -> Seq<char> {
    "Create a session-owned agent Space without selecting it. Trusted configuration may explicitly permit visible Mission Control setup on macOS. Requires a trusted selected-window session. When trusted configuration supplies an existing Space, attach to it and report space_created=false. Private native operations must verify their postconditions; unsupported platforms refuse."@
}

pub open spec fn launch_description() -> Seq<char> {
    "Launch the application that trusted configuration names by this alias into this session's workspace. Only the exact new window the launch attests is admitted, moved into the workspace and verified. Each alias launches at most once per workspace; a failed launch is retained and reported again instead of spawning another process. Never switches Spaces."@
}

pub open spec fn state_description() -> Seq<char> {
    "Read the current session's workspace ownership and approved window membership. Reports user movement, stale windows and deleted Spaces without capturing a display."@
}

pub open spec fn move_description() -> Seq<char> {
    "Move an already-approved exact window into this session's workspace and verify membership. Moving never grants access and never switches Spaces."@
}

pub open spec fn reveal_description() -> Seq<char> {
    "Explicitly switch to this session's workspace. This is the only workspace operation that may switch the user's active Space."@
}

pub open spec fn release_description() -> Seq<char> {
    "Release this session's workspace ownership. Preserve applications, windows and Spaces. Releasing ownership preserves window approval; workspace-only sessions lose access until a workspace is owned again."@
}

pub open spec fn restore_description() -> Seq<char> {
    "Explicitly restore windows moved by this workspace to their recorded original Spaces. Refuse to override subsequent user movement; report partial failures. Never switch Spaces."@
}

pub open spec fn delete_description() -> Seq<char> {
    "Explicitly delete an empty inactive Space created by this session. macOS deletion briefly shows Mission Control. Never delete a pre-existing Space or close applications. Unsupported native deletion refuses."@
}

/// The workspace tools in declaration order: name, description, read-only,
/// destructive.
pub open spec fn workspace_tool(j: int) -> (Seq<char>, Seq<char>, bool, bool) {
    if j == 0 {
        ("create_workspace"@, create_description(), false, false)
    } else if j == 1 {
        ("launch_workspace_app"@, launch_description(), false, false)
    } else if j == 2 {
        ("get_workspace_state"@, state_description(), true, false)
    } else if j == 3 {
        ("move_window_to_workspace"@, move_description(), false, false)
    } else if j == 4 {
        ("reveal_workspace"@, reveal_description(), false, false)
    } else if j == 5 {
        ("release_workspace"@, release_description(), false, false)
    } else if j == 6 {
        ("restore_workspace_windows"@, restore_description(), false, false)
    } else {
        ("delete_workspace"@, delete_description(), false, true)
    }
}

/// The lifecycle tools among the workspace tools, in declaration order:
/// every workspace tool but the launch tool.
pub open spec fn lifecycle_tool(j: int) -> (Seq<char>, Seq<char>, bool, bool) {
    if j == 0 {
        workspace_tool(0)
    } else {
        workspace_tool(j + 1)
    }
}

/// The workspace lifecycle contracts, in declaration order: create, state,
/// move, reveal, release, restore, delete.
pub fn contracts() -> (r: Vec<ToolContract>)
    ensures
        r@.len() == 7,
        forall|j: int|
            0 <= j < 7 ==> is_workspace_contract(
                #[trigger] r@[j],
                lifecycle_tool(j).0,
                lifecycle_tool(j).1,
                lifecycle_tool(j).2,
                lifecycle_tool(j).3,
            ),
        is_workspace_contract(r@[0], "create_workspace"@, create_description(), false, false),
        is_workspace_contract(r@[1], "get_workspace_state"@, state_description(), true, false),
        is_workspace_contract(r@[2], "move_window_to_workspace"@, move_description(), false, false),
        is_workspace_contract(r@[3], "reveal_workspace"@, reveal_description(), false, false),
        is_workspace_contract(r@[4], "release_workspace"@, release_description(), false, false),
        is_workspace_contract(r@[5], "restore_workspace_windows"@, restore_description(), false, false),
        is_workspace_contract(r@[6], "delete_workspace"@, delete_description(), false, true),
{
    let mut r = Vec::new();
    r.push(contract("create_workspace", "Create a session-owned agent Space without selecting it. Trusted configuration may explicitly permit visible Mission Control setup on macOS. Requires a trusted selected-window session. When trusted configuration supplies an existing Space, attach to it and report space_created=false. Private native operations must verify their postconditions; unsupported platforms refuse.", false, false));
    r.push(contract("get_workspace_state", "Read the current session's workspace ownership and approved window membership. Reports user movement, stale windows and deleted Spaces without capturing a display.", true, false));
    r.push(contract("move_window_to_workspace", "Move an already-approved exact window into this session's workspace and verify membership. Moving never grants access and never switches Spaces.", false, false));
    r.push(contract("reveal_workspace", "Explicitly switch to this session's workspace. This is the only workspace operation that may switch the user's active Space.", false, false));
    r.push(contract("release_workspace", "Release this session's workspace ownership. Preserve applications, windows and Spaces. Releasing ownership preserves window approval; workspace-only sessions lose access until a workspace is owned again.", false, false));
    r.push(contract("restore_workspace_windows", "Explicitly restore windows moved by this workspace to their recorded original Spaces. Refuse to override subsequent user movement; report partial failures. Never switch Spaces.", false, false));
    r.push(contract("delete_workspace", "Explicitly delete an empty inactive Space created by this session. macOS deletion briefly shows Mission Control. Never delete a pre-existing Space or close applications. Unsupported native deletion refuses.", false, true));
    r
}

/// The contract of the tool that launches a trusted application into the
/// session's workspace.
pub fn launch_contract() -> (r: ToolContract)
    ensures
        is_workspace_contract(r, "launch_workspace_app"@, launch_description(), false, false),
{
    contract("launch_workspace_app", "Launch the application that trusted configuration names by this alias into this session's workspace. Only the exact new window the launch attests is admitted, moved into the workspace and verified. Each alias launches at most once per workspace; a failed launch is retained and reported again instead of spawning another process. Never switches Spaces.", false, false)
}

} // verus!
