use orangethewell_auth::entities::{AuthError, Notification, User};
use orangethewell_auth::notifications::expired;
use orangethewell_auth::store::Store;

const DAY: i64 = 86400;
const NOW: i64 = 1_700_000_000;

fn with_user() -> (Store, i32) {
    let mut store = Store::new();
    let id = store.next_id;
    store.users.push(User {
        id,
        username: "ana".to_string(),
        email: "ana@site".to_string(),
        password: "stored-digest".to_string(),
        created_at: 0,
        updated_at: 0,
    });
    store.next_id += 1;
    (store, id)
}

fn note(id: i32, recipient: i32, read: bool, created_at: i64) -> Notification {
    Notification { id, title: "t".to_string(), description: None, recipient_id: recipient, read, created_at }
}

#[test]
fn sweep_deletes_only_read_and_older_than_thirty_days() {
    let (mut store, u) = with_user();
    let base = store.next_id;
    store.notifications.push(note(base, u, true, NOW - 31 * DAY));
    store.notifications.push(note(base + 1, u, true, NOW - 29 * DAY));
    store.notifications.push(note(base + 2, u, false, NOW - 31 * DAY));
    store.notifications.push(note(base + 3, u, true, NOW - 30 * DAY));
    store.notifications.push(note(base + 4, u, true, NOW - 30 * DAY - 3600));
    store.next_id = base + 5;
    store.remove_old_readed_notifications_at(NOW);
    let left: Vec<i32> = store.notifications.iter().map(|n| n.id).collect();
    assert_eq!(left, vec![base + 1, base + 2, base + 3]);
}

#[test]
fn expired_matches_the_rule() {
    assert!(expired(&note(1, 1, true, NOW - 31 * DAY), NOW));
    assert!(!expired(&note(1, 1, true, NOW - 29 * DAY), NOW));
    assert!(!expired(&note(1, 1, false, NOW - 31 * DAY), NOW));
    assert!(expired(&note(1, 1, true, NOW - 30 * DAY - 1), NOW));
    assert!(!expired(&note(1, 1, true, NOW - 30 * DAY), NOW));
    assert!(!expired(&note(1, 1, true, NOW + DAY), NOW));
}

#[test]
fn push_creates_unread_notification_and_sweeps() {
    let (mut store, u) = with_user();
    let old = store.next_id;
    store.notifications.push(note(old, u, true, NOW - 40 * DAY));
    store.next_id += 1;
    let n = store.push_notification_at(u, "Hello".to_string(), Some("body".to_string()), NOW).unwrap();
    assert_eq!(n.recipient_id, u);
    assert!(!n.read);
    assert_eq!(n.created_at, NOW);
    assert_eq!(n.title, "Hello");
    assert_eq!(store.notifications.len(), 1);
    assert_eq!(store.notifications[0].id, n.id);
}

#[test]
fn push_reports_missing_recipient_and_empty_title() {
    let (mut store, u) = with_user();
    assert_eq!(store.push_notification_at(999, "Hi".to_string(), None, NOW).err(), Some(AuthError::NotFound));
    assert_eq!(store.push_notification_at(u, String::new(), None, NOW).err(), Some(AuthError::ValidationFailed));
    assert!(store.notifications.is_empty());
}

#[test]
fn listing_returns_rows_as_they_were_and_marks_them_read() {
    let (mut store, u) = with_user();
    let other = store.next_id;
    store.users.push(User {
        id: other,
        username: "bo".to_string(),
        email: "bo@site".to_string(),
        password: "stored-digest".to_string(),
        created_at: 0,
        updated_at: 0,
    });
    store.next_id += 1;
    store.push_notification_at(u, "One".to_string(), None, NOW).unwrap();
    store.push_notification_at(other, "Two".to_string(), None, NOW).unwrap();
    let listed = store.get_user_notifications_at(u, NOW);
    assert_eq!(listed.len(), 1);
    assert_eq!(listed[0].title, "One");
    assert!(!listed[0].read);
    assert!(store.notifications.iter().filter(|n| n.recipient_id == u).all(|n| n.read));
    assert!(store.notifications.iter().filter(|n| n.recipient_id == other).all(|n| !n.read));
    let again = store.get_user_notifications_at(u, NOW);
    assert!(again[0].read);
}

#[test]
fn read_notifications_expire_after_listing() {
    let (mut store, u) = with_user();
    store.push_notification_at(u, "Old".to_string(), None, NOW - 40 * DAY).unwrap();
    store.get_user_notifications_at(u, NOW - 40 * DAY);
    assert_eq!(store.notifications.len(), 1);
    store.remove_old_readed_notifications_at(NOW);
    assert!(store.notifications.is_empty());
}

#[test]
fn push_with_server_clock_stamps_now() {
    let (mut store, u) = with_user();
    let n = store.push_notification(u, "Now".to_string(), None).unwrap();
    assert!(n.created_at > NOW);
    let listed = store.get_user_notifications(u);
    assert_eq!(listed.len(), 1);
    store.remove_old_readed_notifications();
    assert_eq!(store.notifications.len(), 1);
}
