//! Accounts: creation, reads that withhold the credential digest, profile
//! updates that notify the owner, deletion, and the roles a user holds.
use vstd::prelude::*;
use crate::clock::now_timestamp;
use crate::credentials::{hash_password, verification_result, verify_password, MAX_CREDENTIAL_CHARS};
use crate::entities::{AuthError, Notification, RoleWithPermissions, User, UserRole};
use crate::notifications::swept;
use crate::rbac::holds_role;
use crate::rows::{lemma_filter_unique, lemma_push_unique, retain_where, unique_keys};
use crate::session::{require_result, self_or_result, SessionState};
use crate::store::{notification_key, user_key, user_role_key, Store};

verus! {

broadcast use {vstd::seq_lib::group_seq_properties, vstd::seq_lib::group_filter_ensures};

/// Name of the permission that lets a user manage other accounts.
pub open spec fn moderate_name() -> Seq<char> {
    "Moderate"@
}

/// The permission name that lets a user manage other accounts.
pub fn moderate_permission() -> (r: String)
    ensures
        r@ == moderate_name(),
{
    String::from_str("Moderate")
}

/// `v` is `u` with the credential digest withheld.
pub open spec fn redacted(u: User, v: User) -> bool {
    &&& v.id == u.id
    &&& v.username == u.username
    &&& v.email == u.email
    &&& v.password@.len() == 0
    &&& v.created_at == u.created_at
    &&& v.updated_at == u.updated_at
}

/// A copy of `u` without its credential digest.
pub fn redact(u: &User) -> (r: User)
    ensures
        redacted(*u, r),
{
    User {
        id: u.id,
        username: u.username.clone(),
        email: u.email.clone(),
        password: String::new(),
        created_at: u.created_at,
        updated_at: u.updated_at,
    }
}

/// Title of the notice sent when a username changes.
pub open spec fn username_notice_title() -> Seq<char> {
    "Changes on username has been made"@
}

/// Title of the notice sent when an email changes.
pub open spec fn email_notice_title() -> Seq<char> {
    "Changes on your email has been made"@
}

/// The text of a notice that field `what` went from `before` to `after`.
pub open spec fn change_notice(what: Seq<char>, before: Seq<char>, after: Seq<char>) -> Seq<char> {
    "Someone has changed your "@ + what + " from \"<b>"@ + before + "</b>\" to \"<b>"@ + after
        + "</b>\""@
}

/// Builds the text of a notice that field `what` went from `before` to `after`.
pub fn describe_change(what: &str, before: &str, after: &str) -> (r: String)
    ensures
        r@ == change_notice(what@, before@, after@),
{
    let mut s = String::from_str("Someone has changed your ");
    s.append(what);
    s.append(" from \"<b>");
    s.append(before);
    s.append("</b>\" to \"<b>");
    s.append(after);
    s.append("</b>\"");
    s
}

/// Some account other than `id` uses email `email`.
pub open spec fn email_taken(s: Store, email: Seq<char>, id: i32) -> bool {
    exists|k: int| 0 <= k < s.users@.len() && #[trigger] s.users@[k].email@ == email && s.users@[k].id != id
}

/// What `create_user_guard` guarantees of the store before and after, the
/// result and its inputs.
pub open spec fn user_created(
    pre: Store,
    post: Store,
    r: Result<User, AuthError>,
    secret: Seq<char>,
    username: Seq<char>,
    email: Seq<char>,
    password: Seq<char>,
    now: i64,
) -> bool {
    let valid = username.len() > 0 && email.len() > 0 && password.len() > 0;
    &&& post.wf()
    &&& (r == Err::<User, AuthError>(AuthError::ValidationFailed) <==> !valid)
    &&& (r == Err::<User, AuthError>(AuthError::Conflict) <==> valid && email_taken(pre, email, 0))
    &&& (r == Err::<User, AuthError>(AuthError::StorageFailure) <==> valid && !email_taken(
        pre,
        email,
        0,
    ) && pre.next_id == i32::MAX)
    &&& (valid && !email_taken(pre, email, 0) && pre.next_id < i32::MAX ==> r is Ok || r == Err::<
        User,
        AuthError,
    >(AuthError::HashingFailure))
    &&& (valid && !email_taken(pre, email, 0) && pre.next_id < i32::MAX && secret.len()
        <= MAX_CREDENTIAL_CHARS && password.len() <= MAX_CREDENTIAL_CHARS ==> r is Ok)
    &&& (r is Err ==> post == pre)
    &&& (r matches Ok(u) ==> {
        &&& u.id == pre.next_id
        &&& u.username@ == username
        &&& u.email@ == email
        &&& verification_result(secret, password, u.password@) == Ok::<bool, AuthError>(true)
        &&& u.created_at == now
        &&& u.updated_at == now
        &&& post.users@ == pre.users@.push(u)
        &&& post.next_id == pre.next_id + 1
        &&& post.permissions == pre.permissions
        &&& post.roles == pre.roles
        &&& post.role_permissions == pre.role_permissions
        &&& post.user_roles == pre.user_roles
        &&& post.notifications == pre.notifications
    })
}

pub open spec fn assignment_of(id: i32) -> spec_fn(UserRole) -> bool {
    |a: UserRole| a.user_id == id
}

pub open spec fn user_other_than(id: i32) -> spec_fn(User) -> bool {
    |u: User| u.id != id
}

pub open spec fn assignment_of_other_user(id: i32) -> spec_fn(UserRole) -> bool {
    |a: UserRole| a.user_id != id
}

pub open spec fn notification_of_other_user(id: i32) -> spec_fn(Notification) -> bool {
    |n: Notification| n.recipient_id != id
}

impl Store {
    /// Registers an account; its password is stored as a digest keyed with
    /// `secret`, and both timestamps are `now`.
    pub fn create_user_guard(
        &mut self,
        secret: &str,
        username: String,
        email: String,
        password: &str,
        now: i64,
    ) -> (r: Result<User, AuthError>)
        requires
            old(self).wf(),
        ensures
            user_created(*old(self), *final(self), r, secret@, username@, email@, password@, now),
    {
        if username.as_str().unicode_len() == 0 || email.as_str().unicode_len() == 0
            || password.unicode_len() == 0 {
            return Err(AuthError::ValidationFailed);
        }
        match self.find_user_by_email(&email) {
            Some(k) => {
                assert(self.users@.contains(self.users@[k as int]));
                return Err(AuthError::Conflict);
            },
            None => {},
        }
        if self.next_id == i32::MAX {
            return Err(AuthError::StorageFailure);
        }
        let digest = match hash_password(secret, password) {
            Ok(d) => d,
            Err(e) => {
                return Err(e);
            },
        };
        let ghost pre = *self;
        let id = self.next_id;
        let u = User { id, username, email, password: digest, created_at: now, updated_at: now };
        let out = u.copied();
        proof {
            lemma_push_unique(pre.users@, u, user_key(), pre.next_id as int);
            crate::roles::lemma_keys_grow(pre);
        }
        self.next_id = id + 1;
        self.users.push(u);
        proof {
            assert forall|a: User, b: User|
                #![trigger self.users@.contains(a), self.users@.contains(b)]
                self.users@.contains(a) && self.users@.contains(b) && a.email@ == b.email@ implies a.id
                == b.id by {
                if a != u {
                    assert(pre.users@.contains(a));
                }
                if b != u {
                    assert(pre.users@.contains(b));
                }
                if a != u && b == u || a == u && b != u {
                    let c = if a == u { b } else { a };
                    let k = choose|k: int| 0 <= k < pre.users@.len() && pre.users@[k] == c;
                    assert(pre.users@[k].email@ != u.email@);
                }
            }
            assert forall|a: UserRole| #[trigger]
                self.user_roles@.contains(a) implies self.has_user(a.user_id) by {
                let w = choose|w: User| #[trigger] pre.users@.contains(w) && w.id == a.user_id;
                assert(self.users@.contains(w));
            }
            assert forall|n: Notification| #[trigger]
                self.notifications@.contains(n) implies self.has_user(n.recipient_id) by {
                let w = choose|w: User| #[trigger] pre.users@.contains(w) && w.id == n.recipient_id;
                assert(self.users@.contains(w));
            }
            assert forall|w: User| #[trigger] self.users@.contains(w) implies w.password@.len() > 0 by {
                if w != u {
                    assert(pre.users@.contains(w));
                }
            }
            assert(self.ids_wf());
            assert(self.unique_wf());
            assert(self.refs_wf());
        }
        Ok(out)
    }

    /// Registers an account on behalf of `actor`, who must hold "Moderate".
    /// The account comes back without its digest.
    pub fn create_user(
        &mut self,
        actor: SessionState,
        secret: &str,
        username: String,
        email: String,
        password: &str,
    ) -> (r: Result<User, AuthError>)
        requires
            old(self).wf(),
        ensures
            final(self).wf(),
            require_result(*old(self), actor, moderate_name()) matches Err(e) ==> r == Err::<
                User,
                AuthError,
            >(e) && *final(self) == *old(self),
            require_result(*old(self), actor, moderate_name()) is Ok ==> exists|
                now: i64,
                stored: Result<User, AuthError>,
            |
                user_created(
                    *old(self),
                    *final(self),
                    stored,
                    secret@,
                    username@,
                    email@,
                    password@,
                    now,
                ) && match stored {
                    Ok(u) => r matches Ok(v) && redacted(u, v),
                    Err(e) => r == Err::<User, AuthError>(e),
                },
    {
        let moderate = moderate_permission();
        match self.require(actor, &moderate) {
            Err(e) => {
                return Err(e);
            },
            Ok(_) => {},
        }
        let now = now_timestamp();
        match self.create_user_guard(secret, username, email, password, now) {
            Ok(u) => Ok(redact(&u)),
            Err(e) => Err(e),
        }
    }
}

impl Store {
    /// The account with id `user_id`, digest included (internal use).
    pub fn get_user_guard(&self, user_id: i32) -> (r: Option<User>)
        requires
            self.wf(),
        ensures
            r is None <==> !self.has_user(user_id),
            r matches Some(u) ==> u.id == user_id && self.users@.contains(u),
    {
        match self.find_user(user_id) {
            Some(i) => {
                let u = self.users[i].copied();
                assert(self.users@.contains(u));
                Some(u)
            },
            None => None,
        }
    }

    /// The account with id `user_id`, without its digest.
    pub fn get_user(&self, user_id: i32) -> (r: Option<User>)
        requires
            self.wf(),
        ensures
            r is None <==> !self.has_user(user_id),
            r matches Some(v) ==> v.id == user_id && exists|u: User|
                #[trigger] self.users@.contains(u) && redacted(u, v),
    {
        match self.find_user(user_id) {
            Some(i) => {
                let v = redact(&self.users[i]);
                assert(self.users@.contains(self.users@[i as int]));
                Some(v)
            },
            None => None,
        }
    }

    /// The account with email `email`, digest included (internal use).
    pub fn get_user_by_email(&self, email: &String) -> (r: Option<User>)
        requires
            self.wf(),
        ensures
            r is None <==> forall|k: int|
                0 <= k < self.users@.len() ==> #[trigger] self.users@[k].email@ != email@,
            r matches Some(u) ==> u.email@ == email@ && self.users@.contains(u),
    {
        match self.find_user_by_email(email) {
            Some(i) => {
                let u = self.users[i].copied();
                assert(self.users@.contains(u));
                Some(u)
            },
            None => None,
        }
    }

    /// Every account, in table order, without digests.
    pub fn get_all_users(&self) -> (r: Vec<User>)
        ensures
            r@.len() == self.users@.len(),
            forall|i: int| 0 <= i < r@.len() ==> redacted(self.users@[i], #[trigger] r@[i]),
    {
        let mut out: Vec<User> = Vec::new();
        let mut i: usize = 0;
        while i < self.users.len()
            invariant
                i <= self.users@.len(),
                out@.len() == i,
                forall|k: int| 0 <= k < i ==> redacted(self.users@[k], #[trigger] out@[k]),
            decreases self.users.len() - i,
        {
            out.push(redact(&self.users[i]));
            i = i + 1;
        }
        out
    }

    /// The roles of user `user_id`: one element per assignment row of the
    /// user, in row order, each with the catalog entries its role grants.
    pub fn get_user_roles(&self, user_id: i32) -> (r: Vec<RoleWithPermissions>)
        requires
            self.wf(),
        ensures
            r@.len() == self.user_roles@.filter(assignment_of(user_id)).len(),
            forall|i: int|
                0 <= i < r@.len() ==> #[trigger] r@[i].role.id == self.user_roles@.filter(
                    assignment_of(user_id),
                )[i].role_id && self.describes_role(r@[i]),
    {
        let ghost pred = assignment_of(user_id);
        let mut out: Vec<RoleWithPermissions> = Vec::new();
        let mut i: usize = 0;
        while i < self.user_roles.len()
            invariant
                self.wf(),
                pred == assignment_of(user_id),
                i <= self.user_roles@.len(),
                out@.len() == self.user_roles@.subrange(0, i as int).filter(pred).len(),
                forall|j: int|
                    0 <= j < out@.len() ==> #[trigger] out@[j].role.id == self.user_roles@.subrange(
                        0,
                        i as int,
                    ).filter(pred)[j].role_id && self.describes_role(out@[j]),
            decreases self.user_roles.len() - i,
        {
            let a = self.user_roles[i];
            let ghost before = out@;
            let ghost sub = self.user_roles@.subrange(0, i as int);
            proof {
                assert(self.user_roles@.subrange(0, i + 1) == sub.push(a));
                sub.lemma_filter_push(a, pred);
            }
            if a.user_id == user_id {
                assert(self.user_roles@.contains(a));
                match self.get_role(a.role_id) {
                    Some(d) => {
                        out.push(d);
                        assert forall|j: int| 0 <= j < out@.len() implies #[trigger] out@[j].role.id
                            == sub.push(a).filter(pred)[j].role_id && self.describes_role(out@[j]) by {
                            if j < before.len() {
                                assert(out@[j] == before[j]);
                            }
                        }
                    },
                    None => {
                        proof {
                            assert(self.has_role(a.role_id));
                        }
                    },
                }
            }
            i = i + 1;
        }
        assert(self.user_roles@.subrange(0, i as int) == self.user_roles@);
        out
    }

    /// Deletes account `user_id` with its role assignments and notifications;
    /// `None` when there is no such account.
    #[verifier::rlimit(60)]
    pub fn delete_user_guard(&mut self, user_id: i32) -> (r: Option<User>)
        requires
            old(self).wf(),
        ensures
            final(self).wf(),
            r is None <==> !old(self).has_user(user_id),
            r is None ==> *final(self) == *old(self),
            r matches Some(u) ==> {
                &&& u.id == user_id
                &&& old(self).users@.contains(u)
                &&& final(self).users@ == old(self).users@.filter(user_other_than(user_id))
                &&& final(self).user_roles@ == old(self).user_roles@.filter(
                    assignment_of_other_user(user_id),
                )
                &&& final(self).notifications@ == old(self).notifications@.filter(
                    notification_of_other_user(user_id),
                )
            },
            final(self).permissions == old(self).permissions,
            final(self).roles == old(self).roles,
            final(self).role_permissions == old(self).role_permissions,
            final(self).next_id == old(self).next_id,
    {
        let idx = match self.find_user(user_id) {
            Some(i) => i,
            None => {
                return None;
            },
        };
        let deleted = self.users[idx].copied();
        assert(self.users@.contains(deleted));
        let ghost pre = *self;
        let ghost k1 = user_other_than(user_id);
        let ghost k2 = assignment_of_other_user(user_id);
        let ghost k3 = notification_of_other_user(user_id);
        let f1 = |x: &User| -> (b: bool)
            ensures
                b == (x.id != user_id),
            { x.id != user_id };
        retain_where(&mut self.users, f1, Ghost(k1));
        let f2 = |a: &UserRole| -> (b: bool)
            ensures
                b == (a.user_id != user_id),
            { a.user_id != user_id };
        retain_where(&mut self.user_roles, f2, Ghost(k2));
        let f3 = |n: &Notification| -> (b: bool)
            ensures
                b == (n.recipient_id != user_id),
            { n.recipient_id != user_id };
        retain_where(&mut self.notifications, f3, Ghost(k3));
        proof {
            lemma_filter_unique(pre.users@, k1, user_key());
            lemma_filter_unique(pre.user_roles@, k2, user_role_key());
            lemma_filter_unique(pre.notifications@, k3, notification_key());
            assert forall|x: i32| pre.has_user(x) && x != user_id implies self.has_user(x) by {
                let q = choose|q: User| #[trigger] pre.users@.contains(q) && q.id == x;
                let k = choose|k: int| 0 <= k < pre.users@.len() && pre.users@[k] == q;
                assert(pre.users@.filter(k1).contains(pre.users@[k]));
                assert(self.users@.contains(q));
            }
            assert forall|x: User| #[trigger]
                self.users@.contains(x) implies 0 < user_key()(x) < self.next_id
                && x.password@.len() > 0 by {
                pre.users@.lemma_filter_contains_rev(k1, x);
            }
            assert forall|x: UserRole| #[trigger]
                self.user_roles@.contains(x) implies 0 < user_role_key()(x) < self.next_id
                && self.has_user(x.user_id) && self.has_role(x.role_id) by {
                pre.user_roles@.lemma_filter_contains_rev(k2, x);
                assert(pre.has_user(x.user_id));
                let q = choose|q: crate::entities::Role| #[trigger]
                    pre.roles@.contains(q) && q.id == x.role_id;
                assert(self.roles@.contains(q));
            }
            assert forall|x: Notification| #[trigger]
                self.notifications@.contains(x) implies 0 < notification_key()(x) < self.next_id
                && self.has_user(x.recipient_id) by {
                pre.notifications@.lemma_filter_contains_rev(k3, x);
                assert(pre.has_user(x.recipient_id));
            }
            assert forall|a: User, b: User|
                #![trigger self.users@.contains(a), self.users@.contains(b)]
                self.users@.contains(a) && self.users@.contains(b) && a.email@ == b.email@ implies a.id
                == b.id by {
                pre.users@.lemma_filter_contains_rev(k1, a);
                pre.users@.lemma_filter_contains_rev(k1, b);
            }
            assert forall|a: UserRole, b: UserRole|
                #![trigger self.user_roles@.contains(a), self.user_roles@.contains(b)]
                self.user_roles@.contains(a) && self.user_roles@.contains(b) && a.user_id
                    == b.user_id && a.role_id == b.role_id implies a.id == b.id by {
                pre.user_roles@.lemma_filter_contains_rev(k2, a);
                pre.user_roles@.lemma_filter_contains_rev(k2, b);
            }
            assert(self.ids_wf());
            assert(self.unique_wf());
            assert(self.refs_wf());
        }
        Some(deleted)
    }

    /// Deletes account `user_id` on behalf of `actor`: its owner, or a holder
    /// of "Moderate". The deleted account comes back without its digest.
    pub fn delete_user(&mut self, actor: SessionState, user_id: i32) -> (r: Result<Option<User>, AuthError>)
        requires
            old(self).wf(),
        ensures
            final(self).wf(),
            self_or_result(*old(self), actor, user_id, moderate_name()) matches Err(e) ==> r == Err::<
                Option<User>,
                AuthError,
            >(e) && *final(self) == *old(self),
            self_or_result(*old(self), actor, user_id, moderate_name()) is Ok ==> {
                &&& r is Ok
                &&& (r matches Ok(None) <==> !old(self).has_user(user_id))
                &&& !old(self).has_user(user_id) ==> *final(self) == *old(self)
                &&& old(self).has_user(user_id) ==> {
                    &&& final(self).users@ == old(self).users@.filter(user_other_than(user_id))
                    &&& final(self).user_roles@ == old(self).user_roles@.filter(
                        assignment_of_other_user(user_id),
                    )
                    &&& final(self).notifications@ == old(self).notifications@.filter(
                        notification_of_other_user(user_id),
                    )
                }
                &&& r matches Ok(Some(v)) ==> v.id == user_id && exists|u: User|
                    #[trigger] old(self).users@.contains(u) && redacted(u, v)
            },
    {
        let moderate = moderate_permission();
        match self.authorize_self_or(actor, user_id, &moderate) {
            Err(e) => {
                return Err(e);
            },
            Ok(_) => {},
        }
        match self.delete_user_guard(user_id) {
            Some(u) => Ok(Some(redact(&u))),
            None => Ok(None),
        }
    }
}

/// The notifications and next id after the notice step for field `what`:
/// nothing happens unless it went from `before` to a different `after`; then
/// one unread notice with `title` describing the change, stamped `now`, is
/// pushed and the expiry sweep runs, unless ids are exhausted, in which case
/// the notice is dropped.
pub open spec fn after_notice(
    ns: Seq<Notification>,
    next: i32,
    recipient: i32,
    title: Seq<char>,
    what: Seq<char>,
    before: Seq<char>,
    after: Seq<char>,
    now: i64,
    ns2: Seq<Notification>,
    next2: i32,
) -> bool {
    let text = change_notice(what, before, after);
    if before != after && next < i32::MAX {
        &&& next2 == next + 1
        &&& exists|n: Notification|
            n.id == next && n.recipient_id == recipient && n.title@ == title
                && crate::entities::opt_string_view(n.description) == Some(text) && !n.read
                && n.created_at == now && #[trigger] swept(ns.push(n), now) == ns2
    } else {
        ns2 == ns && next2 == next
    }
}

/// The two rows hold the same values.
pub open spec fn same_row(a: User, b: User) -> bool {
    &&& a.id == b.id
    &&& a.username@ == b.username@
    &&& a.email@ == b.email@
    &&& a.password@ == b.password@
    &&& a.created_at == b.created_at
    &&& a.updated_at == b.updated_at
}

/// What `update_user_guard` guarantees of the store before and after, the
/// result and its inputs.
pub open spec fn user_updated(
    pre: Store,
    post: Store,
    r: Result<User, AuthError>,
    secret: Seq<char>,
    updated: User,
    now: i64,
) -> bool {
    let valid = updated.username@.len() > 0 && updated.email@.len() > 0;
    &&& post.wf()
    &&& (r == Err::<User, AuthError>(AuthError::NotFound) <==> !pre.has_user(updated.id))
    &&& (r == Err::<User, AuthError>(AuthError::ValidationFailed) <==> pre.has_user(updated.id)
        && !valid)
    &&& (r == Err::<User, AuthError>(AuthError::Conflict) <==> pre.has_user(updated.id) && valid
        && email_taken(pre, updated.email@, updated.id))
    &&& (r is Err ==> post == pre)
    &&& post.permissions == pre.permissions
    &&& post.roles == pre.roles
    &&& post.role_permissions == pre.role_permissions
    &&& post.user_roles == pre.user_roles
    &&& forall|i: int|
        0 <= i < pre.users@.len() && #[trigger] pre.users@[i].id == updated.id && valid
            && !email_taken(pre, updated.email@, updated.id) ==> {
            let stored = pre.users@[i];
            let check = verification_result(secret, updated.password@, stored.password@);
            &&& same_row(stored, updated) ==> r == Ok::<User, AuthError>(stored) && post == pre
            &&& !same_row(stored, updated) ==> {
                &&& updated.password@.len() == 0 ==> r is Ok
                &&& updated.password@.len() > 0 && check == Ok::<bool, AuthError>(true) ==> r is Ok
                &&& updated.password@.len() > 0 && check is Err ==> r == Err::<User, AuthError>(
                    check->Err_0,
                )
                &&& updated.password@.len() > 0 && check == Ok::<bool, AuthError>(false)
                    && secret.len() <= MAX_CREDENTIAL_CHARS && updated.password@.len()
                    <= MAX_CREDENTIAL_CHARS ==> r is Ok
                &&& r is Ok || r == Err::<User, AuthError>(AuthError::HashingFailure)
                &&& r matches Ok(u) ==> {
                    &&& u.id == updated.id
                    &&& u.username@ == updated.username@
                    &&& u.email@ == updated.email@
                    &&& u.created_at == stored.created_at
                    &&& u.updated_at == now
                    &&& updated.password@.len() == 0 ==> u.password == stored.password
                    &&& updated.password@.len() > 0 ==> verification_result(
                        secret,
                        updated.password@,
                        u.password@,
                    ) == Ok::<bool, AuthError>(true)
                    &&& post.users@ == pre.users@.update(i, u)
                    &&& exists|ns: Seq<Notification>, nx: i32|
                        #[trigger] after_notice(
                            pre.notifications@,
                            pre.next_id,
                            updated.id,
                            username_notice_title(),
                            "username"@,
                            stored.username@,
                            updated.username@,
                            now,
                            ns,
                            nx,
                        ) && after_notice(
                            ns,
                            nx,
                            updated.id,
                            email_notice_title(),
                            "email"@,
                            stored.email@,
                            updated.email@,
                            now,
                            post.notifications@,
                            post.next_id,
                        )
                }
            }
        }
}

impl Store {
    /// Replaces the account row at `idx` by `u`, which keeps its id.
    #[verifier::rlimit(60)]
    fn replace_user(&mut self, idx: usize, u: User)
        requires
            old(self).wf(),
            idx < old(self).users@.len(),
            old(self).users@[idx as int].id == u.id,
            !email_taken(*old(self), u.email@, u.id),
            u.password@.len() > 0,
        ensures
            final(self).wf(),
            final(self).users@ == old(self).users@.update(idx as int, u),
            final(self).next_id == old(self).next_id,
            final(self).permissions == old(self).permissions,
            final(self).roles == old(self).roles,
            final(self).role_permissions == old(self).role_permissions,
            final(self).user_roles == old(self).user_roles,
            final(self).notifications == old(self).notifications,
    {
        let ghost before = *self;
        let ghost id = u.id;
        self.users.set(idx, u);
        proof {
            assert forall|x: i32| before.has_user(x) implies self.has_user(x) by {
                let q = choose|q: User| #[trigger] before.users@.contains(q) && q.id == x;
                let k = choose|k: int| 0 <= k < before.users@.len() && before.users@[k] == q;
                assert(self.users@.contains(self.users@[k]));
            }
            assert(unique_keys(self.users@, user_key())) by {
                assert forall|i: int, j: int|
                    0 <= i < self.users@.len() && 0 <= j < self.users@.len() && i != j implies user_key()(
                        #[trigger] self.users@[i],
                    ) != user_key()(#[trigger] self.users@[j]) by {
                    assert(user_key()(self.users@[i]) == user_key()(before.users@[i]));
                    assert(user_key()(self.users@[j]) == user_key()(before.users@[j]));
                }
            }
            assert forall|x: User| #[trigger]
                self.users@.contains(x) implies 0 < user_key()(x) < self.next_id
                && x.password@.len() > 0 by {
                let k = choose|k: int| 0 <= k < self.users@.len() && self.users@[k] == x;
                assert(before.users@.contains(before.users@[k]));
            }
            assert forall|a: User, b: User|
                #![trigger self.users@.contains(a), self.users@.contains(b)]
                self.users@.contains(a) && self.users@.contains(b) && a.email@ == b.email@ implies a.id
                == b.id by {
                let ka = choose|ka: int| 0 <= ka < self.users@.len() && self.users@[ka] == a;
                let kb = choose|kb: int| 0 <= kb < self.users@.len() && self.users@[kb] == b;
                if ka != idx {
                    assert(before.users@.contains(before.users@[ka]));
                }
                if kb != idx {
                    assert(before.users@.contains(before.users@[kb]));
                }
                if ka != idx && kb == idx {
                    assert(before.users@[ka].id != id);
                }
                if kb != idx && ka == idx {
                    assert(before.users@[kb].id != id);
                }
            }
            assert forall|a: UserRole| #[trigger]
                self.user_roles@.contains(a) implies self.has_user(a.user_id) by {
                assert(before.has_user(a.user_id));
            }
            assert forall|n: Notification| #[trigger]
                self.notifications@.contains(n) implies self.has_user(n.recipient_id) by {
                assert(before.has_user(n.recipient_id));
            }
            assert(self.ids_wf());
            assert(self.unique_wf());
            assert(self.refs_wf());
        }
    }

    /// Sends user `recipient` a notice that a field changed, when it did;
    /// a notice that cannot be stored is dropped.
    fn notify_change(
        &mut self,
        recipient: i32,
        changed: bool,
        title: &str,
        what: &str,
        before: &str,
        after: &str,
        now: i64,
    )
        requires
            old(self).wf(),
            old(self).has_user(recipient),
            title@.len() > 0,
            changed == (before@ != after@),
        ensures
            final(self).wf(),
            after_notice(
                old(self).notifications@,
                old(self).next_id,
                recipient,
                title@,
                what@,
                before@,
                after@,
                now,
                final(self).notifications@,
                final(self).next_id,
            ),
            final(self).users == old(self).users,
            final(self).permissions == old(self).permissions,
            final(self).roles == old(self).roles,
            final(self).role_permissions == old(self).role_permissions,
            final(self).user_roles == old(self).user_roles,
    {
        if changed {
            let text = describe_change(what, before, after);
            let pushed = self.push_notification_at(recipient, String::from_str(title), Some(text), now);
            proof {
                if pushed is Ok {
                    let n = pushed->Ok_0;
                    assert(swept(old(self).notifications@.push(n), now) == self.notifications@);
                }
            }
        }
    }

    /// Applies `updated` to the account with the same id: username and email
    /// as given, and, when `updated.password` is not empty, a credential for
    /// that plaintext (the stored digest is kept when it already matches).
    /// Each changed field, username then email, sends its owner one notice
    /// describing the change; a notice that cannot be stored does not stop
    /// the update. A row equal to the stored one is returned unchanged.
    #[verifier::rlimit(80)]
    pub fn update_user_guard(&mut self, secret: &str, updated: User, now: i64) -> (r: Result<User, AuthError>)
        requires
            old(self).wf(),
        ensures
            user_updated(*old(self), *final(self), r, secret@, updated, now),
    {
        let idx = match self.find_user(updated.id) {
            Some(i) => i,
            None => {
                proof {
                    assert forall|i: int| 0 <= i < self.users@.len() implies self.users@[i].id
                        != updated.id by {
                        assert(self.users@.contains(self.users@[i]));
                    }
                }
                return Err(AuthError::NotFound);
            },
        };
        if updated.username.as_str().unicode_len() == 0 || updated.email.as_str().unicode_len() == 0 {
            return Err(AuthError::ValidationFailed);
        }
        match self.find_user_by_email(&updated.email) {
            Some(k) => {
                if self.users[k].id != updated.id {
                    return Err(AuthError::Conflict);
                }
                proof {
                    assert forall|j: int|
                        0 <= j < self.users@.len() && #[trigger] self.users@[j].email@
                            == updated.email@ implies self.users@[j].id == updated.id by {
                        assert(self.users@.contains(self.users@[j]));
                        assert(self.users@.contains(self.users@[k as int]));
                    }
                }
            },
            None => {},
        }
        let ghost pre = *self;
        proof {
            assert forall|i: int|
                0 <= i < pre.users@.len() && #[trigger] pre.users@[i].id == updated.id implies i
                == idx by {
                assert(user_key()(pre.users@[i]) == user_key()(pre.users@[idx as int]));
            }
            assert(pre.users@.contains(pre.users@[idx as int]));
        }
        let current = self.users[idx].copied();
        if current.username == updated.username && current.email == updated.email
            && current.password == updated.password && current.created_at == updated.created_at
            && current.updated_at == updated.updated_at {
            return Ok(current);
        }
        let digest: String = if updated.password.as_str().unicode_len() == 0 {
            current.password.clone()
        } else {
            match verify_password(secret, updated.password.as_str(), current.password.as_str()) {
                Ok(true) => current.password.clone(),
                Ok(false) => match hash_password(secret, updated.password.as_str()) {
                    Ok(d) => d,
                    Err(e) => {
                        return Err(e);
                    },
                },
                Err(e) => {
                    return Err(e);
                },
            }
        };
        proof {
            reveal_strlit("Changes on username has been made");
            reveal_strlit("Changes on your email has been made");
        }
        let username_changed = updated.username != current.username;
        self.notify_change(
            updated.id,
            username_changed,
            "Changes on username has been made",
            "username",
            current.username.as_str(),
            updated.username.as_str(),
            now,
        );
        let ghost mid = *self;
        let email_changed = updated.email != current.email;
        proof {
            assert(self.has_user(updated.id)) by {
                assert(self.users@.contains(self.users@[idx as int]));
            }
        }
        self.notify_change(
            updated.id,
            email_changed,
            "Changes on your email has been made",
            "email",
            current.email.as_str(),
            updated.email.as_str(),
            now,
        );
        let u = User {
            id: updated.id,
            username: updated.username,
            email: updated.email,
            password: digest,
            created_at: current.created_at,
            updated_at: now,
        };
        let out = u.copied();
        self.replace_user(idx, u);
        proof {
            assert(after_notice(
                pre.notifications@,
                pre.next_id,
                out.id,
                username_notice_title(),
                "username"@,
                current.username@,
                out.username@,
                now,
                mid.notifications@,
                mid.next_id,
            ));
        }
        Ok(out)
    }

    /// Updates an account on behalf of `actor`: its owner, or a holder of
    /// "Moderate". Once allowed, the outcome is that of `update_user_guard`
    /// at the current server time, with the digest withheld.
    pub fn update_user(&mut self, actor: SessionState, secret: &str, updated: User) -> (r: Result<User, AuthError>)
        requires
            old(self).wf(),
        ensures
            final(self).wf(),
            self_or_result(*old(self), actor, updated.id, moderate_name()) matches Err(e) ==> r
                == Err::<User, AuthError>(e) && *final(self) == *old(self),
            self_or_result(*old(self), actor, updated.id, moderate_name()) is Ok ==> exists|
                now: i64,
                stored: Result<User, AuthError>,
            |
                #[trigger] user_updated(*old(self), *final(self), stored, secret@, updated, now)
                    && match stored {
                    Ok(u) => r matches Ok(v) && redacted(u, v),
                    Err(e) => r == Err::<User, AuthError>(e),
                },
    {
        let moderate = moderate_permission();
        match self.authorize_self_or(actor, updated.id, &moderate) {
            Err(e) => {
                return Err(e);
            },
            Ok(_) => {},
        }
        let now = now_timestamp();
        match self.update_user_guard(secret, updated, now) {
            Ok(u) => Ok(redact(&u)),
            Err(e) => Err(e),
        }
    }
}
} // verus!
