//! The session guard: who the caller is, logging in, and the guards that
//! mutating operations pass.
use vstd::prelude::*;
use crate::credentials::{verification_result, verify_password};
use crate::entities::{AuthError, User};
use crate::store::{user_key, Store};

verus! {

/// Who a request acts for.
#[derive(Clone, Copy, Debug, PartialEq, Eq, Structural)]
pub enum SessionState {
    Anonymous,
    Authenticated(i32),
}

/// The claims a session token carries: the id of the logged-in user, if any.
/// Expiry belongs to the session store that keeps these claims.
#[derive(Clone, Copy, Debug, PartialEq, Eq, Structural)]
pub struct Session {
    pub user_id: Option<i32>,
}

pub open spec fn state_of(claim: Option<i32>) -> SessionState {
    match claim {
        Some(id) => SessionState::Authenticated(id),
        None => SessionState::Anonymous,
    }
}

impl Session {
    /// A session with no claims.
    pub fn new() -> (r: Session)
        ensures
            r.user_id is None,
    {
        Session { user_id: None }
    }

    /// The id of the logged-in user, if any.
    pub fn user_logged_in(&self) -> (r: Option<i32>)
        ensures
            r == self.user_id,
    {
        self.user_id
    }

    /// The state a request on this session acts in; a present claim is
    /// trusted as it stands.
    pub fn resolve(&self) -> (r: SessionState)
        ensures
            r == state_of(self.user_id),
    {
        match self.user_id {
            Some(id) => SessionState::Authenticated(id),
            None => SessionState::Anonymous,
        }
    }

    /// Drops the claims: the session is anonymous again.
    pub fn logout(&mut self)
        ensures
            final(self).user_id is None,
    {
        self.user_id = None;
    }
}

/// The outcome of a login, given the account found by email (if any) and
/// the answer of the password check. Unknown email and wrong password give
/// the same error.
pub open spec fn login_result(user: Option<i32>, check: Result<bool, AuthError>) -> Result<
    i32,
    AuthError,
> {
    match user {
        None => Err(AuthError::Unauthenticated),
        Some(id) => match check {
            Ok(true) => Ok(id),
            Ok(false) => Err(AuthError::Unauthenticated),
            Err(e) => Err(e),
        },
    }
}

/// Decides a login from the account found by email and the password check.
pub fn login_outcome(user: Option<i32>, check: Result<bool, AuthError>) -> (r: Result<i32, AuthError>)
    ensures
        r == login_result(user, check),
{
    match user {
        None => Err(AuthError::Unauthenticated),
        Some(id) => match check {
            Ok(true) => Ok(id),
            Ok(false) => Err(AuthError::Unauthenticated),
            Err(e) => Err(e),
        },
    }
}

/// The outcome of the guard that asks for `permission`.
pub open spec fn require_result(s: Store, state: SessionState, permission: Seq<char>) -> Result<
    i32,
    AuthError,
> {
    match state {
        SessionState::Anonymous => Err(AuthError::Unauthenticated),
        SessionState::Authenticated(a) => if s.has_named_permission(a, permission) {
            Ok(a)
        } else {
            Err(AuthError::Unauthorized)
        },
    }
}

/// The outcome of the guard that lets a user act on itself, or anyone with
/// `permission` act on `target`.
pub open spec fn self_or_result(
    s: Store,
    state: SessionState,
    target: i32,
    permission: Seq<char>,
) -> Result<i32, AuthError> {
    match state {
        SessionState::Anonymous => Err(AuthError::Unauthenticated),
        SessionState::Authenticated(a) => if a == target || s.has_named_permission(a, permission) {
            Ok(a)
        } else {
            Err(AuthError::Unauthorized)
        },
    }
}

/// The self-or-permission rule: a user may always act on its own account;
/// on another account only while holding the permission, which is enough
/// for any account.
pub proof fn lemma_self_or_permission(s: Store, actor: i32, target: i32, permission: Seq<char>)
    ensures
        actor == target ==> self_or_result(s, SessionState::Authenticated(actor), target, permission)
            == Ok::<i32, AuthError>(actor),
        actor != target && !s.has_named_permission(actor, permission) ==> self_or_result(
            s,
            SessionState::Authenticated(actor),
            target,
            permission,
        ) == Err::<i32, AuthError>(AuthError::Unauthorized),
        s.has_named_permission(actor, permission) ==> self_or_result(
            s,
            SessionState::Authenticated(actor),
            target,
            permission,
        ) == Ok::<i32, AuthError>(actor),
        self_or_result(s, SessionState::Anonymous, target, permission) == Err::<i32, AuthError>(
            AuthError::Unauthenticated,
        ),
{
}

impl Store {
    /// Logs in the account with email `email` when `password` matches its
    /// digest under `secret`, writing its id into the session.
    pub fn login_user(&self, session: &mut Session, secret: &str, email: &String, password: &str) -> (r:
        Result<i32, AuthError>)
        requires
            self.wf(),
        ensures
            (forall|k: int| 0 <= k < self.users@.len() ==> self.users@[k].email@ != email@) ==> r
                == Err::<i32, AuthError>(AuthError::Unauthenticated),
            forall|k: int|
                0 <= k < self.users@.len() && #[trigger] self.users@[k].email@ == email@ ==> r
                    == login_result(
                    Some(self.users@[k].id),
                    verification_result(secret@, password@, self.users@[k].password@),
                ),
            r matches Ok(id) ==> final(session).user_id == Some(id),
            r is Err ==> *final(session) == *old(session),
    {
        match self.find_user_by_email(email) {
            None => Err(AuthError::Unauthenticated),
            Some(i) => {
                let user: &User = &self.users[i];
                let check = verify_password(secret, password, user.password.as_str());
                let r = login_outcome(Some(user.id), check);
                proof {
                    assert forall|k: int|
                        0 <= k < self.users@.len() && #[trigger] self.users@[k].email@
                            == email@ implies self.users@[k] == self.users@[i as int] by {
                        assert(self.users@.contains(self.users@[k]));
                        assert(self.users@.contains(self.users@[i as int]));
                        assert(user_key()(self.users@[k]) == user_key()(self.users@[i as int]));
                    }
                }
                if let Ok(id) = r {
                    session.user_id = Some(id);
                }
                r
            },
        }
    }

    /// The guard of operations that need `permission`: the caller must be
    /// logged in and hold it. Which of the two failed is all an error says.
    pub fn require(&self, state: SessionState, permission: &String) -> (r: Result<i32, AuthError>)
        requires
            self.wf(),
        ensures
            r == require_result(*self, state, permission@),
    {
        match state {
            SessionState::Anonymous => Err(AuthError::Unauthenticated),
            SessionState::Authenticated(a) => {
                if self.user_have_permission(a, permission) {
                    Ok(a)
                } else {
                    Err(AuthError::Unauthorized)
                }
            },
        }
    }

    /// The guard of operations on one account: its owner may act, and so may
    /// anyone holding `permission`.
    pub fn authorize_self_or(&self, state: SessionState, target: i32, permission: &String) -> (r:
        Result<i32, AuthError>)
        requires
            self.wf(),
        ensures
            r == self_or_result(*self, state, target, permission@),
    {
        match state {
            SessionState::Anonymous => Err(AuthError::Unauthenticated),
            SessionState::Authenticated(a) => {
                if a == target || self.user_have_permission(a, permission) {
                    Ok(a)
                } else {
                    Err(AuthError::Unauthorized)
                }
            },
        }
    }
}

} // verus!
