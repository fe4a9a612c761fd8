use cua_driver_workspace::contract::{contracts, launch_contract, Platform};
use cua_driver_workspace::registry::{register, ToolRegistry};

struct NoNative;

#[test]
fn workspace_contracts_declare_names_and_annotations() {
    let all = contracts();
    let names: Vec<&str> = all.iter().map(|c| c.name.as_str()).collect();
    assert_eq!(
        names,
        vec![
            "create_workspace",
            "get_workspace_state",
            "move_window_to_workspace",
            "reveal_workspace",
            "release_workspace",
            "restore_workspace_windows",
            "delete_workspace"
        ]
    );
    for c in &all {
        assert_eq!(c.capabilities, vec!["session.workspace".to_string()]);
        assert!(matches!(
            c.platforms.as_slice(),
            [Platform::Macos, Platform::Windows, Platform::Linux]
        ));
        assert!(c.aliases.is_empty());
        assert!(!c.annotations.open_world);
        assert_eq!(c.annotations.idempotent, c.name != "create_workspace");
        assert_eq!(c.annotations.read_only, c.name == "get_workspace_state");
        assert_eq!(c.annotations.destructive, c.name == "delete_workspace");
    }
    assert!(all[0].description.starts_with("Create a session-owned agent Space"));
    let launch = launch_contract();
    assert_eq!(launch.name, "launch_workspace_app");
    assert!(!launch.annotations.read_only && launch.annotations.idempotent);
}

#[test]
fn register_adds_every_workspace_tool() {
    let mut registry: ToolRegistry<NoNative> = ToolRegistry::new();
    register(&mut registry, None, false);
    let defs = registry.tools();
    assert_eq!(defs.len(), 8);
    assert_eq!(defs[2].name, "get_workspace_state");
    assert!(defs[2].read_only);
    assert!(defs[7].destructive);
    assert!(!defs[0].idempotent);
}
