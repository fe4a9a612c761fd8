use cua_driver_workspace::displays::{
    holds_space, launched_bundle_matches, move_settled, same_active, same_current_spaces,
    ManagedDisplay, ManagedSpace,
};
use cua_driver_workspace::selection::{desktop_access, membership_access};
use cua_driver_workspace::workspace::{
    delete_check, destination_check, launch_space_check, restore_check,
};

fn row(current: u64) -> ManagedDisplay {
    ManagedDisplay {
        identifier: Some("D".to_string()),
        current_space: Some(current),
        spaces: vec![ManagedSpace { id: Some(current), kind: Some(0) }],
    }
}

#[test]
fn narrowed_access_needs_the_desktop_and_exact_membership() {
    assert!(desktop_access(7, Ok((true, false))).is_ok());
    assert_eq!(
        desktop_access(7, Ok((false, false))).err().unwrap(),
        "workspace_access_denied: approved window is outside the owned desktop"
    );
    assert_eq!(desktop_access(7, Err("gone".to_string())).err().unwrap(), "gone");
    assert!(membership_access(7, Ok(vec![7])).is_ok());
    assert_eq!(
        membership_access(7, Ok(vec![1])).err().unwrap(),
        "workspace_access_denied: approved window is outside the owned desktop"
    );
    assert!(membership_access(7, Ok(vec![7, 8])).is_err());
    assert_eq!(membership_access(7, Err("unknown".to_string())).err().unwrap(), "unknown");
}

#[test]
fn move_launch_restore_and_delete_verification() {
    assert!(destination_check(&vec![100], 100, false).is_ok());
    assert_eq!(
        destination_check(&vec![1], 100, false).err().unwrap(),
        "workspace_move_incomplete: destination membership did not verify"
    );
    assert_eq!(
        destination_check(&vec![1, 100], 100, true).err().unwrap(),
        "workspace_move_incomplete: launched window destination did not verify; query get_workspace_state and recover with move_window_to_workspace"
    );
    assert!(restore_check(&vec![1], &vec![1]).is_ok());
    assert_eq!(
        restore_check(&vec![100], &vec![1]).err().unwrap(),
        "workspace_restore_incomplete: original membership did not verify"
    );
    assert!(delete_check(false).is_ok());
    assert_eq!(delete_check(true).err().unwrap(), "workspace_delete_incomplete: Space still exists");
    assert!(launch_space_check(Ok((true, true))).is_ok());
    assert_eq!(
        launch_space_check(Ok((false, false))).err().unwrap(),
        "workspace_space_deleted: cannot launch into a missing workspace"
    );
    assert_eq!(launch_space_check(Err("busy".to_string())).err().unwrap(), "busy");
}

#[test]
fn native_adapter_checks() {
    assert!(same_current_spaces(&[row(1), row(2)], &[row(1), row(2)]));
    assert!(!same_current_spaces(&[row(1), row(2)], &[row(1), row(3)]));
    assert!(!same_current_spaces(&[row(1)], &[row(1), row(2)]));
    assert!(holds_space(&vec![3, 4], 4));
    assert!(!holds_space(&vec![3], 4));
    assert!(move_settled(&vec![4], 4).is_ok());
    assert_eq!(
        move_settled(&vec![3, 4], 4).err().unwrap(),
        "workspace_move_incomplete: observed membership [3, 4]"
    );
    let a = vec![("A".to_string(), 1u64), ("B".to_string(), 2)];
    assert!(same_active(&a, &a.clone()));
    assert!(!same_active(&a, &vec![("A".to_string(), 1u64), ("B".to_string(), 3)]));
    assert!(!same_active(&a, &vec![("A".to_string(), 1u64)]));
    assert!(launched_bundle_matches(Some("com.x".to_string()), "com.x").is_ok());
    assert_eq!(
        launched_bundle_matches(Some("com.y".to_string()), "com.x").err().unwrap(),
        "workspace_launch_failed: launched bundle identity does not match trusted recipe"
    );
    assert!(launched_bundle_matches(None, "com.x").is_err());
}
