use orangethewell_auth::credentials::{hash_password, verify_password};
use orangethewell_auth::entities::{AuthError, User};
use orangethewell_auth::session::SessionState;
use orangethewell_auth::store::Store;
use orangethewell_auth::users::{describe_change, moderate_permission};

const SECRET: &str = "server-secret";

fn seed_user(store: &mut Store, name: &str, email: &str) -> i32 {
    let id = store.next_id;
    store.users.push(User {
        id,
        username: name.to_string(),
        email: email.to_string(),
        password: "stored-digest".to_string(),
        created_at: 10,
        updated_at: 10,
    });
    store.next_id += 1;
    id
}

fn profile(id: i32, name: &str, email: &str, password: &str) -> User {
    User {
        id,
        username: name.to_string(),
        email: email.to_string(),
        password: password.to_string(),
        created_at: 0,
        updated_at: 0,
    }
}

fn with_moderator() -> (Store, i32, i32) {
    let mut store = Store::new();
    let moderate = store.add_permission("Moderate".to_string(), None).unwrap().id;
    let plain = seed_user(&mut store, "plain", "plain@site");
    let moderator = seed_user(&mut store, "boss", "boss@site");
    let role = store.create_role("Moderators".to_string(), None, &vec![moderate]).unwrap();
    store.assign_role(moderator, role.id).unwrap();
    (store, plain, moderator)
}

#[test]
fn change_notice_text() {
    assert_eq!(
        describe_change("username", "ana", "anna"),
        "Someone has changed your username from \"<b>ana</b>\" to \"<b>anna</b>\""
    );
    assert_eq!(moderate_permission(), "Moderate");
}

#[test]
fn create_user_guard_stores_a_digest() {
    let mut store = Store::new();
    let u = store.create_user_guard(SECRET, "ana".to_string(), "ana@site".to_string(), "pw", 42).unwrap();
    assert_eq!(u.username, "ana");
    assert_eq!(u.created_at, 42);
    assert_eq!(u.updated_at, 42);
    assert_ne!(u.password, "pw");
    assert_eq!(verify_password(SECRET, "pw", &u.password), Ok(true));
    assert_eq!(store.users.len(), 1);
}

#[test]
fn create_user_guard_rejects_invalid_and_duplicate() {
    let mut store = Store::new();
    seed_user(&mut store, "ana", "ana@site");
    assert_eq!(store.create_user_guard(SECRET, String::new(), "x@site".to_string(), "pw", 0).err(), Some(AuthError::ValidationFailed));
    assert_eq!(store.create_user_guard(SECRET, "x".to_string(), "x@site".to_string(), "", 0).err(), Some(AuthError::ValidationFailed));
    assert_eq!(store.create_user_guard(SECRET, "bo".to_string(), "ana@site".to_string(), "pw", 0).err(), Some(AuthError::Conflict));
    assert_eq!(store.users.len(), 1);
}

#[test]
fn create_user_needs_moderate() {
    let (mut store, plain, moderator) = with_moderator();
    assert_eq!(
        store.create_user(SessionState::Anonymous, SECRET, "x".to_string(), "x@site".to_string(), "pw").err(),
        Some(AuthError::Unauthenticated)
    );
    assert_eq!(
        store.create_user(SessionState::Authenticated(plain), SECRET, "x".to_string(), "x@site".to_string(), "pw").err(),
        Some(AuthError::Unauthorized)
    );
    let created = store
        .create_user(SessionState::Authenticated(moderator), SECRET, "x".to_string(), "x@site".to_string(), "pw")
        .unwrap();
    assert!(created.password.is_empty());
    assert_eq!(store.get_user_by_email(&"x@site".to_string()).unwrap().id, created.id);
}

#[test]
fn reads_withhold_the_digest() {
    let (store, plain, _) = with_moderator();
    assert!(store.get_all_users().iter().all(|u| u.password.is_empty()));
    assert_eq!(store.get_all_users().len(), 2);
    let u = store.get_user(plain).unwrap();
    assert!(u.password.is_empty());
    assert_eq!(u.email, "plain@site");
    assert_eq!(store.get_user_guard(plain).unwrap().password, "stored-digest");
    assert!(store.get_user(999).is_none());
    assert!(store.get_user_by_email(&"nobody@site".to_string()).is_none());
}

#[test]
fn user_updates_own_profile_and_is_notified() {
    let (mut store, plain, _) = with_moderator();
    let me = SessionState::Authenticated(plain);
    let updated = store.update_user(me, SECRET, profile(plain, "plainer", "plain@site", "")).unwrap();
    assert_eq!(updated.username, "plainer");
    assert!(updated.password.is_empty());
    let stored = store.get_user_guard(plain).unwrap();
    assert_eq!(stored.password, "stored-digest");
    assert_eq!(stored.created_at, 10);
    let notes = store.get_user_notifications_at(plain, 0);
    assert_eq!(notes.len(), 1);
    assert_eq!(notes[0].title, "Changes on username has been made");
    assert_eq!(
        notes[0].description,
        Some("Someone has changed your username from \"<b>plain</b>\" to \"<b>plainer</b>\"".to_string())
    );
}

#[test]
fn user_cannot_update_another_profile_without_moderate() {
    let (mut store, plain, moderator) = with_moderator();
    let me = SessionState::Authenticated(plain);
    assert_eq!(
        store.update_user(me, SECRET, profile(moderator, "x", "boss@site", "")).err(),
        Some(AuthError::Unauthorized)
    );
    assert_eq!(store.get_user_guard(moderator).unwrap().username, "boss");
    let boss = SessionState::Authenticated(moderator);
    assert!(store.update_user(boss, SECRET, profile(plain, "plain", "new@site", "")).is_ok());
    assert_eq!(store.get_user_guard(plain).unwrap().email, "new@site");
    assert_eq!(store.notifications.len(), 1);
    assert_eq!(store.notifications[0].title, "Changes on your email has been made");
}

#[test]
fn update_user_guard_errors() {
    let (mut store, plain, _) = with_moderator();
    assert_eq!(store.update_user_guard(SECRET, profile(999, "a", "a@site", ""), 0).err(), Some(AuthError::NotFound));
    assert_eq!(store.update_user_guard(SECRET, profile(plain, "", "a@site", ""), 0).err(), Some(AuthError::ValidationFailed));
    assert_eq!(store.update_user_guard(SECRET, profile(plain, "p", "boss@site", ""), 0).err(), Some(AuthError::Conflict));
    assert_eq!(
        store.update_user_guard(SECRET, profile(plain, "p", "plain@site", "new"), 0).err(),
        Some(AuthError::HashingFailure)
    );
    assert_eq!(store.get_user_guard(plain).unwrap().username, "plain");
    assert!(store.notifications.is_empty());
}

#[test]
fn update_user_guard_rehashes_a_new_password() {
    let mut store = Store::new();
    let id = store.next_id;
    store.users.push(User {
        id,
        username: "ana".to_string(),
        email: "ana@site".to_string(),
        password: hash_password(SECRET, "old").unwrap(),
        created_at: 5,
        updated_at: 5,
    });
    store.next_id += 1;
    let u = store.update_user_guard(SECRET, profile(id, "ana", "ana@site", "new"), 99).unwrap();
    assert_eq!(u.updated_at, 99);
    assert_eq!(u.created_at, 5);
    assert_eq!(verify_password(SECRET, "new", &u.password), Ok(true));
    assert!(store.notifications.is_empty());
}

#[test]
fn delete_user_cascades_and_checks_rule() {
    let (mut store, plain, moderator) = with_moderator();
    store.push_notification_at(moderator, "hi".to_string(), None, 0).unwrap();
    assert_eq!(
        store.delete_user(SessionState::Authenticated(plain), moderator).err(),
        Some(AuthError::Unauthorized)
    );
    let deleted = store.delete_user(SessionState::Authenticated(moderator), moderator).unwrap().unwrap();
    assert_eq!(deleted.id, moderator);
    assert!(deleted.password.is_empty());
    assert!(store.user_roles.is_empty());
    assert!(store.notifications.is_empty());
    assert_eq!(store.users.len(), 1);
    assert_eq!(store.delete_user_guard(moderator).map(|u| u.id), None);
}

#[test]
fn roles_of_a_user() {
    let (store, plain, moderator) = with_moderator();
    assert!(store.get_user_roles(plain).is_empty());
    let roles = store.get_user_roles(moderator);
    assert_eq!(roles.len(), 1);
    assert_eq!(roles[0].role.name, "Moderators");
    assert_eq!(roles[0].permissions[0].name, "Moderate");
}

#[test]
fn update_with_identical_row_changes_nothing() {
    let (mut store, plain, _) = with_moderator();
    let stored = store.get_user_guard(plain).unwrap();
    let next = store.next_id;
    let u = store.update_user_guard(SECRET, stored.clone(), 999).unwrap();
    assert_eq!(u.updated_at, stored.updated_at);
    assert_eq!(u.password, stored.password);
    assert_eq!(store.next_id, next);
    assert!(store.notifications.is_empty());
}

#[test]
fn one_notice_per_changed_field_in_order() {
    let (mut store, plain, _) = with_moderator();
    store.update_user_guard(SECRET, profile(plain, "p2", "p2@site", ""), 7).unwrap();
    let titles: Vec<String> = store.notifications.iter().map(|n| n.title.clone()).collect();
    assert_eq!(titles, vec!["Changes on username has been made".to_string(), "Changes on your email has been made".to_string()]);
    assert!(store.notifications.iter().all(|n| n.recipient_id == plain && n.created_at == 7 && !n.read));
    assert_eq!(
        store.notifications[1].description,
        Some("Someone has changed your email from \"<b>plain@site</b>\" to \"<b>p2@site</b>\"".to_string())
    );
    let stored = store.get_user_guard(plain).unwrap();
    assert_eq!(stored.updated_at, 7);
}

#[test]
fn self_update_is_allowed_with_valid_input() {
    let (mut store, plain, moderator) = with_moderator();
    let me = SessionState::Authenticated(plain);
    assert!(store.update_user(me, SECRET, profile(plain, "plain", "mine@site", "")).is_ok());
    let boss = SessionState::Authenticated(moderator);
    assert!(store.update_user(boss, SECRET, profile(plain, "renamed", "mine@site", "")).is_ok());
    assert_eq!(store.get_user_guard(plain).unwrap().username, "renamed");
}
