//! The relational state the authorization core works on, with its
//! integrity rules.
use vstd::prelude::*;
use crate::entities::{AuthError, Notification, Permission, Role, RolePermission, User, UserRole};
use crate::rows::{keys_below, unique_keys};

verus! {

broadcast use vstd::seq_lib::group_seq_properties;

pub open spec fn user_key() -> spec_fn(User) -> int {
    |u: User| u.id as int
}

pub open spec fn permission_key() -> spec_fn(Permission) -> int {
    |p: Permission| p.id as int
}

pub open spec fn role_key() -> spec_fn(Role) -> int {
    |r: Role| r.id as int
}

pub open spec fn role_permission_key() -> spec_fn(RolePermission) -> int {
    |a: RolePermission| a.id as int
}

pub open spec fn user_role_key() -> spec_fn(UserRole) -> int {
    |a: UserRole| a.id as int
}

pub open spec fn notification_key() -> spec_fn(Notification) -> int {
    |n: Notification| n.id as int
}

/// All tables of the site's authorization data. Every row id is drawn from
/// `next_id`, which only grows.
pub struct Store {
    pub users: Vec<User>,
    pub permissions: Vec<Permission>,
    pub roles: Vec<Role>,
    pub role_permissions: Vec<RolePermission>,
    pub user_roles: Vec<UserRole>,
    pub notifications: Vec<Notification>,
    pub next_id: i32,
}

impl Store {
    pub open spec fn has_user(self, id: i32) -> bool {
        exists|u: User| #[trigger] self.users@.contains(u) && u.id == id
    }

    pub open spec fn has_role(self, id: i32) -> bool {
        exists|r: Role| #[trigger] self.roles@.contains(r) && r.id == id
    }

    pub open spec fn has_permission(self, id: i32) -> bool {
        exists|p: Permission| #[trigger] self.permissions@.contains(p) && p.id == id
    }

    /// Row ids are unique per table and below `next_id`.
    pub open spec fn ids_wf(self) -> bool {
        &&& 0 < self.next_id
        &&& unique_keys(self.users@, user_key())
        &&& unique_keys(self.permissions@, permission_key())
        &&& unique_keys(self.roles@, role_key())
        &&& unique_keys(self.role_permissions@, role_permission_key())
        &&& unique_keys(self.user_roles@, user_role_key())
        &&& unique_keys(self.notifications@, notification_key())
        &&& keys_below(self.users@, user_key(), self.next_id as int)
        &&& keys_below(self.permissions@, permission_key(), self.next_id as int)
        &&& keys_below(self.roles@, role_key(), self.next_id as int)
        &&& keys_below(self.role_permissions@, role_permission_key(), self.next_id as int)
        &&& keys_below(self.user_roles@, user_role_key(), self.next_id as int)
        &&& keys_below(self.notifications@, notification_key(), self.next_id as int)
    }

    /// Emails, role names, permission names and association pairs are unique.
    pub open spec fn unique_wf(self) -> bool {
        &&& forall|a: User, b: User|
            #![trigger self.users@.contains(a), self.users@.contains(b)]
            self.users@.contains(a) && self.users@.contains(b) && a.email@ == b.email@ ==> a.id
                == b.id
        &&& forall|a: Role, b: Role|
            #![trigger self.roles@.contains(a), self.roles@.contains(b)]
            self.roles@.contains(a) && self.roles@.contains(b) && a.name@ == b.name@ ==> a.id
                == b.id
        &&& forall|a: Permission, b: Permission|
            #![trigger self.permissions@.contains(a), self.permissions@.contains(b)]
            self.permissions@.contains(a) && self.permissions@.contains(b) && a.name@ == b.name@
                ==> a.id == b.id
        &&& forall|a: RolePermission, b: RolePermission|
            #![trigger self.role_permissions@.contains(a), self.role_permissions@.contains(b)]
            self.role_permissions@.contains(a) && self.role_permissions@.contains(b) && a.role_id
                == b.role_id && a.permission_id == b.permission_id ==> a.id == b.id
        &&& forall|a: UserRole, b: UserRole|
            #![trigger self.user_roles@.contains(a), self.user_roles@.contains(b)]
            self.user_roles@.contains(a) && self.user_roles@.contains(b) && a.user_id == b.user_id
                && a.role_id == b.role_id ==> a.id == b.id
    }

    /// Association rows and notifications reference existing rows, and every
    /// account has a credential digest.
    pub open spec fn refs_wf(self) -> bool {
        &&& forall|a: RolePermission| #[trigger]
            self.role_permissions@.contains(a) ==> self.has_role(a.role_id) && self.has_permission(
                a.permission_id,
            )
        &&& forall|a: UserRole| #[trigger]
            self.user_roles@.contains(a) ==> self.has_user(a.user_id) && self.has_role(a.role_id)
        &&& forall|n: Notification| #[trigger]
            self.notifications@.contains(n) ==> self.has_user(n.recipient_id)
        &&& forall|u: User| #[trigger] self.users@.contains(u) ==> u.password@.len() > 0
    }

    pub open spec fn wf(self) -> bool {
        &&& self.ids_wf()
        &&& self.unique_wf()
        &&& self.refs_wf()
    }

    /// An empty store.
    pub fn new() -> (r: Store)
        ensures
            r.wf(),
            r.users@.len() == 0,
            r.permissions@.len() == 0,
            r.roles@.len() == 0,
            r.role_permissions@.len() == 0,
            r.user_roles@.len() == 0,
            r.notifications@.len() == 0,
    {
        Store {
            users: Vec::new(),
            permissions: Vec::new(),
            roles: Vec::new(),
            role_permissions: Vec::new(),
            user_roles: Vec::new(),
            notifications: Vec::new(),
            next_id: 1,
        }
    }

    /// Position of the user with id `id`, if any.
    pub fn find_user(&self, id: i32) -> (r: Option<usize>)
        requires
            self.wf(),
        ensures
            r matches Some(i) ==> i < self.users@.len() && self.users@[i as int].id == id,
            r is None <==> !self.has_user(id),
    {
        let mut i: usize = 0;
        while i < self.users.len()
            invariant
                i <= self.users@.len(),
                forall|k: int| 0 <= k < i ==> self.users@[k].id != id,
            decreases self.users.len() - i,
        {
            if self.users[i].id == id {
                assert(self.users@.contains(self.users@[i as int]));
                return Some(i);
            }
            i = i + 1;
        }
        assert(!self.has_user(id)) by {
            if self.has_user(id) {
                let u = choose|u: User| #[trigger] self.users@.contains(u) && u.id == id;
                let k = choose|k: int| 0 <= k < self.users@.len() && self.users@[k] == u;
            }
        }
        None
    }

    /// Position of the user with email `email`, if any.
    pub fn find_user_by_email(&self, email: &String) -> (r: Option<usize>)
        requires
            self.wf(),
        ensures
            r matches Some(i) ==> i < self.users@.len() && self.users@[i as int].email@ == email@,
            r is None <==> forall|k: int|
                0 <= k < self.users@.len() ==> self.users@[k].email@ != email@,
    {
        let mut i: usize = 0;
        while i < self.users.len()
            invariant
                i <= self.users@.len(),
                forall|k: int| 0 <= k < i ==> self.users@[k].email@ != email@,
            decreases self.users.len() - i,
        {
            if self.users[i].email == *email {
                return Some(i);
            }
            i = i + 1;
        }
        None
    }

    /// Position of the role with id `id`, if any.
    pub fn find_role(&self, id: i32) -> (r: Option<usize>)
        requires
            self.wf(),
        ensures
            r matches Some(i) ==> i < self.roles@.len() && self.roles@[i as int].id == id,
            r is None <==> !self.has_role(id),
    {
        let mut i: usize = 0;
        while i < self.roles.len()
            invariant
                i <= self.roles@.len(),
                forall|k: int| 0 <= k < i ==> self.roles@[k].id != id,
            decreases self.roles.len() - i,
        {
            if self.roles[i].id == id {
                assert(self.roles@.contains(self.roles@[i as int]));
                return Some(i);
            }
            i = i + 1;
        }
        assert(!self.has_role(id)) by {
            if self.has_role(id) {
                let u = choose|u: Role| #[trigger] self.roles@.contains(u) && u.id == id;
                let k = choose|k: int| 0 <= k < self.roles@.len() && self.roles@[k] == u;
            }
        }
        None
    }

    /// Position of the catalog entry with id `id`, if any.
    pub fn find_permission(&self, id: i32) -> (r: Option<usize>)
        requires
            self.wf(),
        ensures
            r matches Some(i) ==> i < self.permissions@.len() && self.permissions@[i as int].id
                == id,
            r is None <==> !self.has_permission(id),
    {
        let mut i: usize = 0;
        while i < self.permissions.len()
            invariant
                i <= self.permissions@.len(),
                forall|k: int| 0 <= k < i ==> self.permissions@[k].id != id,
            decreases self.permissions.len() - i,
        {
            if self.permissions[i].id == id {
                assert(self.permissions@.contains(self.permissions@[i as int]));
                return Some(i);
            }
            i = i + 1;
        }
        assert(!self.has_permission(id)) by {
            if self.has_permission(id) {
                let u = choose|u: Permission| #[trigger] self.permissions@.contains(u) && u.id == id;
                let k = choose|k: int|
                    0 <= k < self.permissions@.len() && self.permissions@[k] == u;
            }
        }
        None
    }

    /// Position of a role named `name` other than role `except`, if any.
    pub fn find_role_named(&self, name: &String, except: i32) -> (r: Option<usize>)
        requires
            self.wf(),
        ensures
            r matches Some(i) ==> i < self.roles@.len() && self.roles@[i as int].name@ == name@
                && self.roles@[i as int].id != except,
            r is None <==> forall|k: int|
                0 <= k < self.roles@.len() && self.roles@[k].id != except ==> self.roles@[k].name@
                    != name@,
    {
        let mut i: usize = 0;
        while i < self.roles.len()
            invariant
                i <= self.roles@.len(),
                forall|k: int|
                    0 <= k < i && self.roles@[k].id != except ==> self.roles@[k].name@ != name@,
            decreases self.roles.len() - i,
        {
            if self.roles[i].id != except && self.roles[i].name == *name {
                return Some(i);
            }
            i = i + 1;
        }
        None
    }

    /// Hands out the next row id, or fails when ids are exhausted.
    pub fn allocate_id(&mut self) -> (r: Result<i32, AuthError>)
        requires
            old(self).wf(),
        ensures
            r matches Ok(id) ==> id == old(self).next_id && final(self).next_id == id + 1,
            r is Err ==> r == Err::<i32, AuthError>(AuthError::StorageFailure) && *final(self)
                == *old(self),
            r is Ok <==> old(self).next_id < i32::MAX,
            final(self).users == old(self).users,
            final(self).permissions == old(self).permissions,
            final(self).roles == old(self).roles,
            final(self).role_permissions == old(self).role_permissions,
            final(self).user_roles == old(self).user_roles,
            final(self).notifications == old(self).notifications,
    {
        if self.next_id == i32::MAX {
            return Err(AuthError::StorageFailure);
        }
        let id = self.next_id;
        self.next_id = id + 1;
        Ok(id)
    }
}

} // verus!
