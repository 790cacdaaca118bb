use orangethewell_auth::credentials::{hash_password, interpret_check, verify_password};
use orangethewell_auth::entities::{AuthError, User};
use orangethewell_auth::session::{login_outcome, Session, SessionState};
use orangethewell_auth::store::Store;

const SECRET: &str = "server-secret";

fn seed_user(store: &mut Store, email: &str, digest: String) -> i32 {
    let id = store.next_id;
    store.users.push(User {
        id,
        username: format!("user{}", id),
        email: email.to_string(),
        password: digest,
        created_at: 0,
        updated_at: 0,
    });
    store.next_id += 1;
    id
}

fn with_moderator() -> (Store, i32, i32) {
    let mut store = Store::new();
    store.add_permission("Write".to_string(), None).unwrap();
    let moderate = store.add_permission("Moderate".to_string(), None).unwrap().id;
    let plain = seed_user(&mut store, "plain@site", "stored-digest".to_string());
    let moderator = seed_user(&mut store, "mod@site", "stored-digest".to_string());
    let role = store.create_role("Moderators".to_string(), None, &vec![moderate]).unwrap();
    store.assign_role(moderator, role.id).unwrap();
    (store, plain, moderator)
}

#[test]
fn password_round_trip_and_secret_is_a_key() {
    let digest = hash_password(SECRET, "hunter2").unwrap();
    assert!(!digest.is_empty());
    assert_ne!(digest, "hunter2");
    assert_eq!(verify_password(SECRET, "hunter2", &digest), Ok(true));
    assert_eq!(verify_password(SECRET, "hunter3", &digest), Ok(false));
    assert_eq!(verify_password("another-secret", "hunter2", &digest), Ok(false));
}

#[test]
fn salts_differ_between_digests() {
    let a = hash_password(SECRET, "same").unwrap();
    let b = hash_password(SECRET, "same").unwrap();
    assert_ne!(a, b);
}

#[test]
fn malformed_digest_is_a_hashing_failure() {
    assert_eq!(verify_password(SECRET, "pw", "not a digest"), Err(AuthError::HashingFailure));
    assert_eq!(verify_password(SECRET, "pw", ""), Err(AuthError::HashingFailure));
}

#[test]
fn interpret_check_keeps_failure_distinct() {
    assert_eq!(interpret_check(Some(true)), Ok(true));
    assert_eq!(interpret_check(Some(false)), Ok(false));
    assert_eq!(interpret_check(None), Err(AuthError::HashingFailure));
}

#[test]
fn login_outcome_is_generic_on_bad_credentials() {
    assert_eq!(login_outcome(None, Ok(true)), Err(AuthError::Unauthenticated));
    assert_eq!(login_outcome(Some(4), Ok(false)), Err(AuthError::Unauthenticated));
    assert_eq!(login_outcome(Some(4), Ok(true)), Ok(4));
    assert_eq!(login_outcome(Some(4), Err(AuthError::HashingFailure)), Err(AuthError::HashingFailure));
}

#[test]
fn login_writes_claim_only_on_success() {
    let mut store = Store::new();
    let digest = hash_password(SECRET, "open sesame").unwrap();
    let id = seed_user(&mut store, "ana@site", digest);
    let mut session = Session::new();
    assert_eq!(session.resolve(), SessionState::Anonymous);
    assert_eq!(
        store.login_user(&mut session, SECRET, &"nobody@site".to_string(), "open sesame"),
        Err(AuthError::Unauthenticated)
    );
    assert_eq!(
        store.login_user(&mut session, SECRET, &"ana@site".to_string(), "wrong"),
        Err(AuthError::Unauthenticated)
    );
    assert_eq!(session.user_logged_in(), None);
    assert_eq!(store.login_user(&mut session, SECRET, &"ana@site".to_string(), "open sesame"), Ok(id));
    assert_eq!(session.user_logged_in(), Some(id));
    assert_eq!(session.resolve(), SessionState::Authenticated(id));
    session.logout();
    assert_eq!(session.resolve(), SessionState::Anonymous);
}

#[test]
fn login_with_unreadable_digest_reports_hashing_failure() {
    let mut store = Store::new();
    seed_user(&mut store, "ana@site", "garbage".to_string());
    let mut session = Session::new();
    assert_eq!(
        store.login_user(&mut session, SECRET, &"ana@site".to_string(), "pw"),
        Err(AuthError::HashingFailure)
    );
    assert_eq!(session.user_logged_in(), None);
}

#[test]
fn require_fails_closed() {
    let (store, plain, moderator) = with_moderator();
    let moderate = "Moderate".to_string();
    assert_eq!(store.require(SessionState::Anonymous, &moderate), Err(AuthError::Unauthenticated));
    assert_eq!(store.require(SessionState::Authenticated(plain), &moderate), Err(AuthError::Unauthorized));
    assert_eq!(store.require(SessionState::Authenticated(moderator), &moderate), Ok(moderator));
}

#[test]
fn self_or_permission_rule() {
    let (store, plain, moderator) = with_moderator();
    let moderate = "Moderate".to_string();
    let me = SessionState::Authenticated(plain);
    assert_eq!(store.authorize_self_or(me, plain, &moderate), Ok(plain));
    assert_eq!(store.authorize_self_or(me, moderator, &moderate), Err(AuthError::Unauthorized));
    let boss = SessionState::Authenticated(moderator);
    assert_eq!(store.authorize_self_or(boss, plain, &moderate), Ok(moderator));
    assert_eq!(store.authorize_self_or(boss, moderator, &moderate), Ok(moderator));
    assert_eq!(store.authorize_self_or(SessionState::Anonymous, plain, &moderate), Err(AuthError::Unauthenticated));
}

#[test]
fn error_messages_do_not_leak_details() {
    assert_eq!(AuthError::Unauthenticated.message(), "invalid credentials");
    assert_eq!(AuthError::Unauthorized.message(), "not permitted");
    assert_eq!(AuthError::HashingFailure.message(), "credential check failed");
}
