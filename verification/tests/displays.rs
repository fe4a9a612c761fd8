use cua_driver_workspace::selection::WindowTarget;
use cua_driver_workspace::displays::{
    launch_isolated, launch_stayed_in_background, single_document_window, single_launch_window,
    active_spaces, added_desktops, connection, contains_space, create_step, created_space_outcome,
    display_row, same_current_spaces, ensure_empty, is_ordinary, locate_space, membership,
    move_incomplete_error, move_precheck, movement_allowed, operation_verified,
    plan_space_operation, same_desktop_list, space_create_error, space_state, CreateStep,
    CreatedSpace, ManagedDisplay, ManagedSpace, MovePlan, SpacePlan,
};

fn space(id: u64, kind: u64) -> ManagedSpace {
    ManagedSpace {
        id: Some(id),
        kind: Some(kind),
    }
}

fn display(id: &str, current: u64, spaces: Vec<ManagedSpace>) -> ManagedDisplay {
    ManagedDisplay {
        identifier: Some(id.to_string()),
        current_space: Some(current),
        spaces,
    }
}

fn inventory() -> Vec<ManagedDisplay> {
    vec![
        display("B", 1, vec![space(1, 0), space(2, 0), space(3, 4)]),
        display("A", 10, vec![space(10, 0)]),
    ]
}

#[test]
fn space_queries() {
    let displays = inventory();
    assert!(contains_space(&displays, 2));
    assert!(!contains_space(&displays, 99));
    assert_eq!(space_state(&displays, 10), (true, true));
    assert_eq!(space_state(&displays, 2), (true, false));
    assert_eq!(space_state(&displays, 42), (false, false));
    assert!(is_ordinary(&displays, 2));
    assert!(!is_ordinary(&displays, 3));
    assert!(movement_allowed(&displays, 2, &vec![1]));
    assert!(!movement_allowed(&displays, 3, &vec![1]));
    assert!(!movement_allowed(&displays, 2, &vec![3]));
    assert!(same_current_spaces(&displays, &inventory()));
    assert_eq!(display_row(&displays, "A"), Some(1));
    assert_eq!(display_row(&displays, "C"), None);
}

#[test]
fn active_spaces_are_sorted_by_display_then_space() {
    let displays = inventory();
    assert_eq!(
        active_spaces(&displays).unwrap(),
        vec![("A".to_string(), 10), ("B".to_string(), 1)]
    );
    let mut missing = inventory();
    missing[1].current_space = None;
    assert_eq!(
        active_spaces(&missing).err().unwrap(),
        "workspace_launch_failed: active Space unavailable"
    );
    missing[0].identifier = None;
    assert_eq!(
        active_spaces(&missing).err().unwrap(),
        "workspace_launch_failed: display identity unavailable"
    );
}

#[test]
fn connection_and_membership_results() {
    assert_eq!(connection(Some(7)).unwrap(), 7);
    assert!(connection(Some(0)).is_err());
    assert_eq!(
        connection(None).err().unwrap(),
        "workspace_operation_unsupported: no WindowServer connection"
    );
    assert_eq!(membership(Some(vec![4])).unwrap(), vec![4]);
    assert_eq!(
        membership(None).err().unwrap(),
        "workspace_state_unavailable: window membership is unknown"
    );
}

#[test]
fn move_precheck_decisions() {
    let displays = inventory();
    assert_eq!(
        move_precheck(&displays, &vec![1], 99).err().unwrap(),
        "workspace_space_deleted: destination no longer exists"
    );
    assert!(matches!(move_precheck(&displays, &vec![2], 2), Ok(MovePlan::AlreadyThere)));
    assert!(move_precheck(&displays, &vec![1, 2], 2).is_err());
    assert!(matches!(move_precheck(&displays, &vec![1], 2), Ok(MovePlan::Move(1))));
    assert_eq!(
        move_incomplete_error(&vec![1, 2]),
        "workspace_move_incomplete: observed membership [1, 2]"
    );
}

#[test]
fn creation_outcomes() {
    let before = inventory();
    let mut after = inventory();
    after[0].spaces.push(space(7, 0));
    after[1].spaces.push(space(8, 4));
    assert_eq!(added_desktops(&before, &after), vec![7]);
    let added = added_desktops(&before, &after);
    assert!(matches!(create_step(&after, Some(0), &added), CreateStep::Created(7)));
    match create_step(&after, Some(1), &added) {
        CreateStep::Refused(e) => assert_eq!(
            e,
            "workspace_create_ambiguous: desktop appeared on another display; no ownership assumed; space_id=7"
        ),
        _ => panic!("expected a refusal"),
    }
    match create_step(&after, Some(0), &vec![7, 12]) {
        CreateStep::Refused(e) => assert_eq!(
            e,
            "workspace_create_ambiguous: multiple desktops appeared; no ownership assumed; space_ids=[7, 12]"
        ),
        _ => panic!("expected a refusal"),
    }
    assert!(matches!(create_step(&after, Some(0), &vec![]), CreateStep::Pending));
    assert!(matches!(created_space_outcome(&before, Some(&after), 7), CreatedSpace::Verified));
    assert!(matches!(created_space_outcome(&before, None, 7), CreatedSpace::RollBack));
    assert!(matches!(created_space_outcome(&before, Some(&after), 2), CreatedSpace::Unverified));
    assert_eq!(
        space_create_error(12),
        "workspace_operation_unsupported: SLSSpaceCreate did not create a managed Mission Control Space; raw_server_space_id=12; rollback requested; cleanup is unverified"
    );
}

#[test]
fn explicit_switch_and_deletion_plans() {
    let displays = inventory();
    let row = &displays[0];
    assert!(matches!(plan_space_operation(row, 1, false), Ok(SpacePlan::AlreadyActive)));
    assert_eq!(
        plan_space_operation(row, 1, true).err().unwrap(),
        "workspace_active: explicit deletion requires an inactive desktop"
    );
    assert!(matches!(plan_space_operation(row, 2, false), Ok(SpacePlan::Act(1))));
    assert!(matches!(plan_space_operation(row, 2, true), Ok(SpacePlan::Act(1))));
    assert_eq!(
        plan_space_operation(row, 3, true).err().unwrap(),
        "workspace_operation_unsupported: cannot delete fullscreen or the last desktop"
    );
    assert_eq!(plan_space_operation(row, 77, false).err().unwrap(), "workspace_space_deleted");
    let single = display("S", 5, vec![space(5, 0), space(6, 0)]);
    assert!(matches!(plan_space_operation(&single, 6, true), Ok(SpacePlan::Act(1))));
    let last = display("L", 5, vec![space(5, 4), space(6, 0)]);
    assert!(plan_space_operation(&last, 6, true).is_err());

    let screens = vec![(3u32, Some("C".to_string())), (4u32, Some("A".to_string())), (5u32, Some("B".to_string()))];
    assert_eq!(locate_space(&displays, &screens, 2), Some((5, 0)));
    assert_eq!(locate_space(&displays, &screens, 99), None);
    assert!(same_desktop_list(&displays[0], &inventory()[0]));
    assert!(!same_desktop_list(&displays[0], &displays[1]));
    assert!(operation_verified(&displays, Some(1), 10, false));
    assert!(!operation_verified(&displays, Some(0), 2, false));
    assert!(operation_verified(&displays, None, 99, true));
    assert!(!operation_verified(&displays, None, 2, true));
}

#[test]
fn only_an_empty_desktop_may_be_deleted() {
    let backgrounds = vec![1u64, 2];
    let background = |w: u64| -> Result<bool, String> { Ok(backgrounds.contains(&w)) };
    assert!(ensure_empty(&vec![1, 2], background).is_ok());
    assert_eq!(
        ensure_empty(&vec![1, 3, 2], background).err().unwrap(),
        "workspace_not_empty: restore or move windows before explicit deletion"
    );
    let failing = |_: u64| -> Result<bool, String> { Err("workspace_state_unavailable".to_owned()) };
    assert_eq!(ensure_empty(&vec![4], failing).err().unwrap(), "workspace_state_unavailable");
    assert!(ensure_empty(&vec![], failing).is_ok());
}

#[test]
fn launch_admission_decisions() {
    assert!(launch_isolated(&[1, 2, 3], 4).is_ok());
    assert_eq!(
        launch_isolated(&[1, 2, 3], 2).err().unwrap(),
        "workspace_launch_not_isolated: app reused an existing process; no access granted"
    );
    assert!(launch_stayed_in_background(true, true, 77).is_ok());
    assert_eq!(
        launch_stayed_in_background(false, true, 77).err().unwrap(),
        "workspace_launch_background_failed: foreground changed during launch; created pid 77 left untouched and unauthorized"
    );
    assert_eq!(
        launch_stayed_in_background(true, false, -5).err().unwrap(),
        "workspace_launch_background_failed: foreground changed during launch; created pid -5 left untouched and unauthorized"
    );
    assert_eq!(
        single_launch_window(42, &vec![900]).unwrap(),
        WindowTarget { pid: 42, window_id: 900 }
    );
    assert_eq!(
        single_launch_window(42, &vec![900, 901]).err().unwrap(),
        "workspace_launch_ambiguous: created pid 42 has 2 top-level windows; no windows approved"
    );
    assert_eq!(
        single_launch_window(42, &vec![]).err().unwrap(),
        "workspace_launch_ambiguous: created pid 42 has 0 top-level windows; no windows approved"
    );
    assert!(single_document_window(42, 1).is_ok());
    assert_eq!(
        single_document_window(42, 3).err().unwrap(),
        "workspace_launch_ambiguous: created pid 42 has no unique exact document window; no windows approved"
    );
}
