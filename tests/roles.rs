use orangethewell_auth::entities::{AuthError, RolePermission};
use orangethewell_auth::roles::{reconcile, vec_contains};
use orangethewell_auth::store::Store;

fn catalog() -> (Store, i32, i32) {
    let mut store = Store::new();
    let write = store.add_permission("Write".to_string(), Some("publish articles".to_string())).unwrap().id;
    let moderate = store.add_permission("Moderate".to_string(), None).unwrap().id;
    (store, write, moderate)
}

fn granted(store: &Store, role: i32) -> Vec<i32> {
    let mut v: Vec<i32> = store
        .role_permissions
        .iter()
        .filter(|a| a.role_id == role)
        .map(|a| a.permission_id)
        .collect();
    v.sort();
    v
}

#[test]
fn reconcile_splits_removed_and_added() {
    let (mut removed, mut added) = reconcile(&vec![1, 2, 3], &vec![3, 4, 4, 5]);
    removed.sort();
    added.sort();
    assert_eq!(removed, vec![1, 2]);
    assert_eq!(added, vec![4, 5]);
}

#[test]
fn reconcile_of_same_set_plans_nothing() {
    let (removed, added) = reconcile(&vec![2, 1], &vec![1, 2, 1]);
    assert!(removed.is_empty());
    assert!(added.is_empty());
}

#[test]
fn create_role_grants_each_requested_permission_once() {
    let (mut store, write, moderate) = catalog();
    let role = store.create_role("Editor".to_string(), Some("edits".to_string()), &vec![write, moderate, write]).unwrap();
    assert_eq!(role.name, "Editor");
    assert_eq!(role.description, Some("edits".to_string()));
    assert_eq!(granted(&store, role.id), vec![write, moderate]);
    assert_eq!(store.roles.len(), 1);
}

#[test]
fn create_role_with_no_permissions() {
    let (mut store, _, _) = catalog();
    let role = store.create_role("Reader".to_string(), None, &vec![]).unwrap();
    assert!(granted(&store, role.id).is_empty());
}

#[test]
fn create_role_errors_leave_store_unchanged() {
    let (mut store, write, _) = catalog();
    store.create_role("Editor".to_string(), None, &vec![write]).unwrap();
    let roles = store.roles.len();
    let rows = store.role_permissions.clone();
    let next = store.next_id;
    assert_eq!(store.create_role(String::new(), None, &vec![write]).err(), Some(AuthError::ValidationFailed));
    assert_eq!(store.create_role("Editor".to_string(), None, &vec![write]).err(), Some(AuthError::Conflict));
    assert_eq!(store.create_role("Other".to_string(), None, &vec![write, 999]).err(), Some(AuthError::StorageFailure));
    assert_eq!(store.roles.len(), roles);
    assert_eq!(store.role_permissions, rows);
    assert_eq!(store.next_id, next);
}

#[test]
fn update_role_moves_to_requested_set() {
    let (mut store, write, moderate) = catalog();
    let role = store.create_role("Editor".to_string(), None, &vec![write]).unwrap();
    let updated = store.update_role(role.id, "Moderator".to_string(), Some("moderates".to_string()), &vec![moderate]).unwrap();
    assert_eq!(updated.id, role.id);
    assert_eq!(updated.name, "Moderator");
    assert_eq!(granted(&store, role.id), vec![moderate]);
    let fetched = store.get_role(role.id).unwrap();
    assert_eq!(fetched.role.name, "Moderator");
    assert_eq!(fetched.permissions.len(), 1);
    assert_eq!(fetched.permissions[0].name, "Moderate");
}

#[test]
fn update_role_keeps_rows_of_unchanged_permissions() {
    let (mut store, write, moderate) = catalog();
    let role = store.create_role("Editor".to_string(), None, &vec![write]).unwrap();
    let kept: RolePermission = store.role_permissions[0];
    store.update_role(role.id, "Editor".to_string(), None, &vec![write, moderate]).unwrap();
    assert!(store.role_permissions.contains(&kept));
    assert_eq!(granted(&store, role.id), vec![write, moderate]);
}

#[test]
fn update_role_twice_with_same_set_is_idempotent() {
    let (mut store, write, moderate) = catalog();
    let role = store.create_role("Editor".to_string(), None, &vec![write]).unwrap();
    store.update_role(role.id, "Editor".to_string(), None, &vec![moderate, write]).unwrap();
    let once = store.role_permissions.clone();
    store.update_role(role.id, "Editor".to_string(), None, &vec![write, moderate]).unwrap();
    assert_eq!(store.role_permissions, once);
}

#[test]
fn update_role_failure_mid_reconciliation_rolls_back() {
    let (mut store, write, moderate) = catalog();
    let role = store.create_role("Editor".to_string(), None, &vec![write]).unwrap();
    let rows = store.role_permissions.clone();
    let roles_before = store.roles.len();
    // Deleting "Write" is planned first; inserting the unknown id 999 then fails.
    let r = store.update_role(role.id, "Renamed".to_string(), None, &vec![moderate, 999]);
    assert_eq!(r.err(), Some(AuthError::StorageFailure));
    assert_eq!(store.role_permissions, rows);
    assert_eq!(granted(&store, role.id), vec![write]);
    assert_eq!(store.roles.len(), roles_before);
    assert_eq!(store.get_role(role.id).unwrap().role.name, "Editor");
}

#[test]
fn update_role_reports_missing_invalid_and_conflicting() {
    let (mut store, write, _) = catalog();
    let a = store.create_role("A".to_string(), None, &vec![write]).unwrap();
    store.create_role("B".to_string(), None, &vec![]).unwrap();
    assert_eq!(store.update_role(999, "X".to_string(), None, &vec![]).err(), Some(AuthError::NotFound));
    assert_eq!(store.update_role(a.id, String::new(), None, &vec![]).err(), Some(AuthError::ValidationFailed));
    assert_eq!(store.update_role(a.id, "B".to_string(), None, &vec![]).err(), Some(AuthError::Conflict));
    assert!(store.update_role(a.id, "A".to_string(), None, &vec![]).is_ok());
}

#[test]
fn delete_role_cascades_associations_but_not_users() {
    let (mut store, write, _) = catalog();
    let role = store.create_role("Editor".to_string(), None, &vec![write]).unwrap();
    store.users.push(orangethewell_auth::entities::User {
        id: store.next_id,
        username: "ana".to_string(),
        email: "ana@site".to_string(),
        password: "stored-digest".to_string(),
        created_at: 0,
        updated_at: 0,
    });
    let user = store.next_id;
    store.next_id += 1;
    store.assign_role(user, role.id).unwrap();
    let deleted = store.delete_role(role.id).unwrap();
    assert_eq!(deleted.name, "Editor");
    assert!(store.roles.is_empty());
    assert!(store.role_permissions.is_empty());
    assert!(store.user_roles.is_empty());
    assert_eq!(store.users.len(), 1);
    assert!(store.delete_role(role.id).is_none());
}

#[test]
fn reads_compose_roles_with_permissions() {
    let (mut store, write, moderate) = catalog();
    store.create_role("A".to_string(), None, &vec![write, moderate]).unwrap();
    store.create_role("B".to_string(), None, &vec![]).unwrap();
    let all = store.get_all_roles();
    assert_eq!(all.len(), 2);
    assert_eq!(all[0].permissions.len(), 2);
    assert!(all[1].permissions.is_empty());
    assert!(store.get_role(12345).is_none());
    assert_eq!(store.get_all_permissions().len(), 2);
    assert_eq!(store.get_permission(write).unwrap().name, "Write");
    assert!(store.get_permission(777).is_none());
}

#[test]
fn catalog_rejects_duplicate_and_empty_names() {
    let (mut store, _, _) = catalog();
    assert_eq!(store.add_permission("Write".to_string(), None).map(|p| p.id), Err(AuthError::Conflict));
    assert_eq!(store.add_permission(String::new(), None).map(|p| p.id), Err(AuthError::ValidationFailed));
    assert_eq!(store.permissions.len(), 2);
}

#[test]
fn vec_contains_finds_members() {
    assert!(vec_contains(&vec![4, 5], 5));
    assert!(!vec_contains(&vec![], 5));
}

#[test]
fn update_adding_nothing_needs_no_fresh_ids() {
    let (mut store, write, moderate) = catalog();
    let role = store.create_role("Editor".to_string(), None, &vec![write, moderate]).unwrap();
    store.next_id = i32::MAX;
    assert!(store.update_role(role.id, "Editor".to_string(), None, &vec![moderate, write]).is_ok());
    assert!(store.update_role(role.id, "Editor".to_string(), None, &vec![write]).is_ok());
    assert_eq!(
        store.update_role(role.id, "Editor".to_string(), None, &vec![write, moderate]).err(),
        Some(AuthError::StorageFailure)
    );
    assert_eq!(granted(&store, role.id), vec![write]);
}

#[test]
fn create_role_uses_one_id_per_row() {
    let (mut store, write, moderate) = catalog();
    let next = store.next_id;
    store.create_role("Editor".to_string(), None, &vec![write, moderate]).unwrap();
    assert_eq!(store.next_id, next + 3);
}
