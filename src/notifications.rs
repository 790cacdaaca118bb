//! The notification channel: messages addressed to users, marked read when
//! listed, and swept once read and older than thirty days.
use vstd::prelude::*;
use crate::clock::{now_timestamp, SECONDS_PER_DAY};
use crate::entities::{AuthError, Notification, User};
use crate::rows::{lemma_filter_unique, lemma_push_unique, retain_where, unique_keys};
use crate::store::{notification_key, Store};

verus! {

broadcast use {vstd::seq_lib::group_seq_properties, vstd::seq_lib::group_filter_ensures};

/// Days after which a read notification may be deleted.
pub const RETENTION_DAYS: i64 = 30;

/// A notification the sweep deletes at time `now`: read, and older than
/// thirty days.
pub open spec fn is_expired(n: Notification, now: i64) -> bool {
    n.read && now as int - n.created_at as int > RETENTION_DAYS * SECONDS_PER_DAY
}

pub open spec fn not_expired(now: i64) -> spec_fn(Notification) -> bool {
    |n: Notification| !is_expired(n, now)
}

/// The notifications the sweep leaves at time `now`.
pub open spec fn swept(ns: Seq<Notification>, now: i64) -> Seq<Notification> {
    ns.filter(not_expired(now))
}

pub open spec fn addressed_to(u: i32) -> spec_fn(Notification) -> bool {
    |n: Notification| n.recipient_id == u
}

/// `ns` with every notification of user `u` marked read.
pub open spec fn marked_read(ns: Seq<Notification>, u: i32) -> Seq<Notification> {
    ns.map_values(
        |n: Notification|
            if n.recipient_id == u {
                Notification { read: true, ..n }
            } else {
                n
            },
    )
}

/// Whether the sweep deletes `n` at time `now`.
pub fn expired(n: &Notification, now: i64) -> (r: bool)
    ensures
        r == is_expired(*n, now),
{
    n.read && (now as i128 - n.created_at as i128) > (RETENTION_DAYS * SECONDS_PER_DAY) as i128
}

impl Store {
    /// Deletes every notification that is read and more than thirty days old
    /// at time `now`.
    pub fn remove_old_readed_notifications_at(&mut self, now: i64)
        requires
            old(self).wf(),
        ensures
            final(self).wf(),
            final(self).notifications@ == swept(old(self).notifications@, now),
            final(self).users == old(self).users,
            final(self).permissions == old(self).permissions,
            final(self).roles == old(self).roles,
            final(self).role_permissions == old(self).role_permissions,
            final(self).user_roles == old(self).user_roles,
            final(self).next_id == old(self).next_id,
    {
        let ghost pre = *self;
        let ghost keep = not_expired(now);
        let f = |n: &Notification| -> (b: bool)
            ensures
                b == !is_expired(*n, now),
            { !expired(n, now) };
        retain_where(&mut self.notifications, f, Ghost(keep));
        proof {
            lemma_filter_unique(pre.notifications@, keep, notification_key());
            assert forall|x: Notification| #[trigger]
                self.notifications@.contains(x) implies 0 < notification_key()(x) < self.next_id
                && self.has_user(x.recipient_id) by {
                pre.notifications@.lemma_filter_contains_rev(keep, x);
                let u = choose|u: User| #[trigger] pre.users@.contains(u) && u.id == x.recipient_id;
                assert(self.users@.contains(u));
            }
            assert(self.ids_wf());
            assert(self.unique_wf());
            assert(self.refs_wf());
        }
    }

    /// The expiry sweep at the current server time.
    pub fn remove_old_readed_notifications(&mut self)
        requires
            old(self).wf(),
        ensures
            final(self).wf(),
            exists|now: i64| final(self).notifications@ == swept(old(self).notifications@, now),
            final(self).users == old(self).users,
            final(self).permissions == old(self).permissions,
            final(self).roles == old(self).roles,
            final(self).role_permissions == old(self).role_permissions,
            final(self).user_roles == old(self).user_roles,
            final(self).next_id == old(self).next_id,
    {
        let now = now_timestamp();
        self.remove_old_readed_notifications_at(now);
    }

    /// Addresses an unread notification to user `recipient_id`, stamped
    /// `now`, then runs the expiry sweep.
    pub fn push_notification_at(
        &mut self,
        recipient_id: i32,
        title: String,
        description: Option<String>,
        now: i64,
    ) -> (r: Result<Notification, AuthError>)
        requires
            old(self).wf(),
        ensures
            final(self).wf(),
            r == Err::<Notification, AuthError>(AuthError::NotFound) <==> !old(self).has_user(
                recipient_id,
            ),
            r == Err::<Notification, AuthError>(AuthError::ValidationFailed) <==> old(self).has_user(
                recipient_id,
            ) && title@.len() == 0,
            r == Err::<Notification, AuthError>(AuthError::StorageFailure) <==> old(self).has_user(
                recipient_id,
            ) && title@.len() > 0 && old(self).next_id == i32::MAX,
            r is Ok <==> old(self).has_user(recipient_id) && title@.len() > 0 && old(self).next_id
                < i32::MAX,
            r is Err ==> *final(self) == *old(self),
            r matches Ok(n) ==> {
                &&& n.id == old(self).next_id
                &&& n.title@ == title@
                &&& n.description == description
                &&& n.recipient_id == recipient_id
                &&& !n.read
                &&& n.created_at == now
                &&& final(self).notifications@ == swept(old(self).notifications@.push(n), now)
                &&& final(self).next_id == old(self).next_id + 1
            },
            final(self).users == old(self).users,
            final(self).permissions == old(self).permissions,
            final(self).roles == old(self).roles,
            final(self).role_permissions == old(self).role_permissions,
            final(self).user_roles == old(self).user_roles,
    {
        if self.find_user(recipient_id).is_none() {
            return Err(AuthError::NotFound);
        }
        assert(self.has_user(recipient_id));
        if title.as_str().unicode_len() == 0 {
            return Err(AuthError::ValidationFailed);
        }
        if self.next_id == i32::MAX {
            return Err(AuthError::StorageFailure);
        }
        let ghost pre = *self;
        let id = self.next_id;
        let n = Notification { id, title, description, recipient_id, read: false, created_at: now };
        let out = n.copied();
        proof {
            lemma_push_unique(pre.notifications@, n, notification_key(), pre.next_id as int);
            crate::roles::lemma_keys_grow(pre);
        }
        self.next_id = id + 1;
        self.notifications.push(n);
        proof {
            assert forall|x: Notification| #[trigger]
                self.notifications@.contains(x) implies self.has_user(x.recipient_id) by {
                if x != n {
                    assert(pre.notifications@.contains(x));
                }
                assert(pre.has_user(x.recipient_id));
                let u = choose|u: User| #[trigger] pre.users@.contains(u) && u.id == x.recipient_id;
                assert(self.users@.contains(u));
            }
            assert(self.ids_wf());
            assert(self.unique_wf());
            assert(self.refs_wf());
        }
        self.remove_old_readed_notifications_at(now);
        Ok(out)
    }

    /// Pushes a notification stamped with the current server time.
    pub fn push_notification(&mut self, recipient_id: i32, title: String, description: Option<
        String,
    >) -> (r: Result<Notification, AuthError>)
        requires
            old(self).wf(),
        ensures
            final(self).wf(),
            r == Err::<Notification, AuthError>(AuthError::NotFound) <==> !old(self).has_user(
                recipient_id,
            ),
            r == Err::<Notification, AuthError>(AuthError::ValidationFailed) <==> old(self).has_user(
                recipient_id,
            ) && title@.len() == 0,
            r == Err::<Notification, AuthError>(AuthError::StorageFailure) <==> old(self).has_user(
                recipient_id,
            ) && title@.len() > 0 && old(self).next_id == i32::MAX,
            r is Ok <==> old(self).has_user(recipient_id) && title@.len() > 0 && old(self).next_id
                < i32::MAX,
            r is Err ==> *final(self) == *old(self),
            r matches Ok(n) ==> {
                &&& n.id == old(self).next_id
                &&& n.title@ == title@
                &&& n.description == description
                &&& n.recipient_id == recipient_id
                &&& !n.read
                &&& final(self).notifications@ == swept(
                    old(self).notifications@.push(n),
                    n.created_at,
                )
                &&& final(self).next_id == old(self).next_id + 1
            },
            final(self).users == old(self).users,
            final(self).permissions == old(self).permissions,
            final(self).roles == old(self).roles,
            final(self).role_permissions == old(self).role_permissions,
            final(self).user_roles == old(self).user_roles,
    {
        let now = now_timestamp();
        self.push_notification_at(recipient_id, title, description, now)
    }

    /// The notifications addressed to `user_id`, as they stood; all of them
    /// are then marked read and the expiry sweep runs at time `now`.
    pub fn get_user_notifications_at(&mut self, user_id: i32, now: i64) -> (r: Vec<Notification>)
        requires
            old(self).wf(),
        ensures
            final(self).wf(),
            r@ == old(self).notifications@.filter(addressed_to(user_id)),
            final(self).notifications@ == swept(marked_read(old(self).notifications@, user_id), now),
            final(self).users == old(self).users,
            final(self).permissions == old(self).permissions,
            final(self).roles == old(self).roles,
            final(self).role_permissions == old(self).role_permissions,
            final(self).user_roles == old(self).user_roles,
            final(self).next_id == old(self).next_id,
    {
        let ghost pre = *self;
        let mut out: Vec<Notification> = Vec::new();
        let mut i: usize = 0;
        while i < self.notifications.len()
            invariant
                self.wf(),
                self.users == pre.users,
                self.permissions == pre.permissions,
                self.roles == pre.roles,
                self.role_permissions == pre.role_permissions,
                self.user_roles == pre.user_roles,
                self.next_id == pre.next_id,
                i <= self.notifications@.len(),
                self.notifications@.len() == pre.notifications@.len(),
                out@ == pre.notifications@.subrange(0, i as int).filter(addressed_to(user_id)),
                forall|k: int|
                    0 <= k < i ==> #[trigger] self.notifications@[k] == marked_read(
                        pre.notifications@,
                        user_id,
                    )[k],
                forall|k: int|
                    i <= k < self.notifications@.len() ==> #[trigger] self.notifications@[k]
                        == pre.notifications@[k],
            decreases self.notifications.len() - i,
        {
            let ghost before = *self;
            proof {
                assert(pre.notifications@.subrange(0, i + 1) == pre.notifications@.subrange(
                    0,
                    i as int,
                ).push(pre.notifications@[i as int]));
                pre.notifications@.subrange(0, i as int).lemma_filter_push(
                    pre.notifications@[i as int],
                    addressed_to(user_id),
                );
            }
            if self.notifications[i].recipient_id == user_id {
                let n = self.notifications[i].copied();
                let mut m = n.copied();
                out.push(n);
                m.read = true;
                self.notifications.set(i, m);
                proof {
                    assert(unique_keys(self.notifications@, notification_key())) by {
                        assert forall|a: int, b: int|
                            0 <= a < self.notifications@.len() && 0 <= b < self.notifications@.len()
                                && a != b implies notification_key()(
                                #[trigger] self.notifications@[a],
                            ) != notification_key()(#[trigger] self.notifications@[b]) by {
                            assert(notification_key()(self.notifications@[a]) == notification_key()(
                                before.notifications@[a],
                            ));
                            assert(notification_key()(self.notifications@[b]) == notification_key()(
                                before.notifications@[b],
                            ));
                        }
                    }
                    assert forall|x: Notification| #[trigger]
                        self.notifications@.contains(x) implies 0 < notification_key()(x)
                        < self.next_id && self.has_user(x.recipient_id) by {
                        let k = choose|k: int|
                            0 <= k < self.notifications@.len() && self.notifications@[k] == x;
                        assert(before.notifications@.contains(before.notifications@[k]));
                        assert(before.has_user(x.recipient_id));
                        let u = choose|u: User| #[trigger]
                            before.users@.contains(u) && u.id == x.recipient_id;
                        assert(self.users@.contains(u));
                    }
                    assert(self.ids_wf());
                    assert(self.unique_wf());
                    assert(self.refs_wf());
                }
            }
            i = i + 1;
        }
        proof {
            assert(pre.notifications@.subrange(0, i as int) == pre.notifications@);
            assert(self.notifications@ =~= marked_read(pre.notifications@, user_id));
        }
        self.remove_old_readed_notifications_at(now);
        out
    }

    /// Lists, marks read and sweeps at the current server time.
    pub fn get_user_notifications(&mut self, user_id: i32) -> (r: Vec<Notification>)
        requires
            old(self).wf(),
        ensures
            final(self).wf(),
            r@ == old(self).notifications@.filter(addressed_to(user_id)),
            exists|now: i64|
                final(self).notifications@ == swept(
                    marked_read(old(self).notifications@, user_id),
                    now,
                ),
            final(self).users == old(self).users,
            final(self).permissions == old(self).permissions,
            final(self).roles == old(self).roles,
            final(self).role_permissions == old(self).role_permissions,
            final(self).user_roles == old(self).user_roles,
            final(self).next_id == old(self).next_id,
    {
        let now = now_timestamp();
        self.get_user_notifications_at(user_id, now)
    }
}

} // verus!
