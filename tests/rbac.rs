use orangethewell_auth::entities::{AuthError, User};
use orangethewell_auth::rbac::contains_id;
use orangethewell_auth::store::Store;

fn seed_user(store: &mut Store, name: &str, email: &str) -> i32 {
    let id = store.next_id;
    store.users.push(User {
        id,
        username: name.to_string(),
        email: email.to_string(),
        password: "stored-digest".to_string(),
        created_at: 0,
        updated_at: 0,
    });
    store.next_id += 1;
    id
}

fn catalog() -> (Store, i32, i32) {
    let mut store = Store::new();
    let write = store.add_permission("Write".to_string(), None).unwrap().id;
    let moderate = store.add_permission("Moderate".to_string(), None).unwrap().id;
    (store, write, moderate)
}

fn ids(store: &Store, user: i32) -> Vec<i32> {
    let mut v: Vec<i32> = store.get_user_permissions(user).iter().map(|p| p.id).collect();
    v.sort();
    v
}

#[test]
fn grant_then_revoke_restores_effective_permissions() {
    let (mut store, write, moderate) = catalog();
    let u = seed_user(&mut store, "ana", "ana@site");
    let base = store.create_role("Base".to_string(), None, &vec![write]).unwrap();
    let extra = store.create_role("Extra".to_string(), None, &vec![moderate, write]).unwrap();
    store.assign_role(u, base.id).unwrap();
    let before = ids(&store, u);
    let rows_before = store.user_roles.clone();
    store.assign_role(u, extra.id).unwrap();
    assert_eq!(ids(&store, u), vec![write, moderate]);
    assert!(store.revoke_role(u, extra.id));
    assert_eq!(ids(&store, u), before);
    assert_eq!(store.user_roles, rows_before);
}

#[test]
fn effective_permissions_are_deduplicated_by_identity() {
    let (mut store, write, moderate) = catalog();
    let u = seed_user(&mut store, "bo", "bo@site");
    let a = store.create_role("A".to_string(), None, &vec![write]).unwrap();
    let b = store.create_role("B".to_string(), None, &vec![write, moderate]).unwrap();
    store.assign_role(u, a.id).unwrap();
    store.assign_role(u, b.id).unwrap();
    let perms = store.get_user_permissions(u);
    assert_eq!(perms.len(), 2);
    assert!(contains_id(&perms, write));
    assert!(contains_id(&perms, moderate));
}

#[test]
fn user_without_roles_has_no_permissions() {
    let (mut store, _, _) = catalog();
    let u = seed_user(&mut store, "cy", "cy@site");
    assert!(store.get_user_permissions(u).is_empty());
    assert!(!store.user_have_permission(u, &"Write".to_string()));
}

#[test]
fn assign_role_reports_missing_and_duplicate() {
    let (mut store, write, _) = catalog();
    let u = seed_user(&mut store, "di", "di@site");
    let role = store.create_role("R".to_string(), None, &vec![write]).unwrap();
    assert_eq!(store.assign_role(999, role.id), Err(AuthError::NotFound));
    assert_eq!(store.assign_role(u, 999), Err(AuthError::NotFound));
    assert_eq!(store.assign_role(u, role.id), Ok(()));
    let rows = store.user_roles.clone();
    assert_eq!(store.assign_role(u, role.id), Err(AuthError::Conflict));
    assert_eq!(store.user_roles, rows);
}

#[test]
fn revoke_of_unheld_role_changes_nothing() {
    let (mut store, write, _) = catalog();
    let u = seed_user(&mut store, "ed", "ed@site");
    let role = store.create_role("R".to_string(), None, &vec![write]).unwrap();
    assert!(!store.revoke_role(u, role.id));
    assert!(store.user_roles.is_empty());
}

#[test]
fn editor_scenario_grant_check_revoke() {
    let (mut store, write, _) = catalog();
    let mut next = store.next_id;
    while next <= 7 {
        seed_user(&mut store, &format!("filler{}", next), &format!("f{}@site", next));
        next = store.next_id;
    }
    let user = 7;
    assert!(store.users.iter().any(|u| u.id == user));
    let editor = store.create_role("Editor".to_string(), None, &vec![write]).unwrap();
    store.assign_role(user, editor.id).unwrap();
    assert!(store.user_have_permission(user, &"Write".to_string()));
    assert!(!store.user_have_permission(user, &"Moderate".to_string()));
    assert!(store.revoke_role(user, editor.id));
    assert!(!store.user_have_permission(user, &"Write".to_string()));
    assert!(!store.user_have_permission(user, &"Moderate".to_string()));
}

#[test]
fn permission_check_follows_latest_role_update() {
    let (mut store, write, moderate) = catalog();
    let u = seed_user(&mut store, "fa", "fa@site");
    let role = store.create_role("R".to_string(), None, &vec![write]).unwrap();
    store.assign_role(u, role.id).unwrap();
    assert!(!store.user_have_permission(u, &"Moderate".to_string()));
    store.update_role(role.id, "R".to_string(), None, &vec![moderate]).unwrap();
    assert!(store.user_have_permission(u, &"Moderate".to_string()));
    assert!(!store.user_have_permission(u, &"Write".to_string()));
}
