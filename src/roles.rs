//! The role engine: roles, their permission sets, and the reconciliation
//! that moves a role from its current permission set to a requested one.
use vstd::prelude::*;
use crate::entities::{AuthError, Permission, Role, RolePermission, RoleWithPermissions, UserRole};
use crate::rbac::{grants, has_id, lemma_filter_all};
use crate::rows::{keys_below, lemma_filter_unique, lemma_push_unique, retain_where, unique_keys};
use crate::store::{
    notification_key, permission_key, role_key, role_permission_key, user_key, user_role_key,
    Store,
};

verus! {

broadcast use {vstd::seq_lib::group_seq_properties, vstd::seq_lib::group_filter_ensures};

/// The permission ids that `rp` grants to role `r`.
pub open spec fn role_permission_set(rp: Seq<RolePermission>, r: i32) -> Set<i32> {
    Set::new(|p: i32| grants(rp, r, p))
}

/// Whether `v` holds `x`.
pub fn vec_contains(v: &Vec<i32>, x: i32) -> (r: bool)
    ensures
        r == v@.contains(x),
{
    let mut i: usize = 0;
    while i < v.len()
        invariant
            i <= v@.len(),
            forall|k: int| 0 <= k < i ==> v@[k] != x,
        decreases v.len() - i,
    {
        if v[i] == x {
            return true;
        }
        i = i + 1;
    }
    false
}

/// The reconciliation plan between a current and a requested id list:
/// `removed` holds each id of `current` not requested, `added` each requested
/// id not current, each once; ids in both lists appear in neither.
pub fn reconcile(current: &Vec<i32>, requested: &Vec<i32>) -> (r: (Vec<i32>, Vec<i32>))
    ensures
        r.0@.to_set() == current@.to_set().difference(requested@.to_set()),
        r.1@.to_set() == requested@.to_set().difference(current@.to_set()),
        r.0@.no_duplicates(),
        r.1@.no_duplicates(),
{
    let mut removed: Vec<i32> = Vec::new();
    let mut i: usize = 0;
    while i < current.len()
        invariant
            i <= current@.len(),
            removed@.no_duplicates(),
            removed@.to_set() == current@.subrange(0, i as int).to_set().difference(
                requested@.to_set(),
            ),
        decreases current.len() - i,
    {
        let x = current[i];
        assert(current@.subrange(0, i + 1) == current@.subrange(0, i as int).push(x));
        proof {
            current@.subrange(0, i as int).lemma_push_to_set_commute(x);
        }
        if !vec_contains(requested, x) && !vec_contains(&removed, x) {
            proof {
                removed@.lemma_push_to_set_commute(x);
            }
            removed.push(x);
        }
        i = i + 1;
        assert(removed@.to_set() =~= current@.subrange(0, i as int).to_set().difference(
            requested@.to_set(),
        ));
    }
    assert(current@.subrange(0, i as int) == current@);
    let mut added: Vec<i32> = Vec::new();
    let mut j: usize = 0;
    while j < requested.len()
        invariant
            j <= requested@.len(),
            added@.no_duplicates(),
            added@.to_set() == requested@.subrange(0, j as int).to_set().difference(
                current@.to_set(),
            ),
        decreases requested.len() - j,
    {
        let x = requested[j];
        assert(requested@.subrange(0, j + 1) == requested@.subrange(0, j as int).push(x));
        proof {
            requested@.subrange(0, j as int).lemma_push_to_set_commute(x);
        }
        if !vec_contains(current, x) && !vec_contains(&added, x) {
            proof {
                added@.lemma_push_to_set_commute(x);
            }
            added.push(x);
        }
        j = j + 1;
        assert(added@.to_set() =~= requested@.subrange(0, j as int).to_set().difference(
            current@.to_set(),
        ));
    }
    assert(requested@.subrange(0, j as int) == requested@);
    (removed, added)
}

/// Reconciling a permission list against one with the same ids plans no
/// deletion and no insertion.
pub proof fn lemma_reconcile_same_set(
    current: Seq<i32>,
    requested: Seq<i32>,
    removed: Seq<i32>,
    added: Seq<i32>,
)
    requires
        current.to_set() == requested.to_set(),
        removed.to_set() == current.to_set().difference(requested.to_set()),
        added.to_set() == requested.to_set().difference(current.to_set()),
    ensures
        removed.len() == 0,
        added.len() == 0,
{
    if removed.len() > 0 {
        assert(removed.to_set().contains(removed[0]));
    }
    if added.len() > 0 {
        assert(added.to_set().contains(added[0]));
    }
}

impl Store {
    /// `d` is a role of the store together with exactly the catalog entries
    /// that role grants, each once.
    pub open spec fn describes_role(self, d: RoleWithPermissions) -> bool {
        &&& self.roles@.contains(d.role)
        &&& unique_keys(d.permissions@, permission_key())
        &&& forall|p: Permission| #[trigger]
            d.permissions@.contains(p) ==> self.permissions@.contains(p) && grants(
                self.role_permissions@,
                d.role.id,
                p.id,
            )
        &&& forall|id: i32| #[trigger]
            grants(self.role_permissions@, d.role.id, id) ==> has_id(d.permissions@, id)
    }

    /// Every id of `ids` names a catalog entry.
    pub open spec fn all_in_catalog(self, ids: Seq<i32>) -> bool {
        forall|k: int| 0 <= k < ids.len() ==> self.has_permission(#[trigger] ids[k])
    }

    /// Some role other than `except` is named `name`.
    pub open spec fn role_name_taken(self, name: Seq<char>, except: i32) -> bool {
        exists|k: int|
            0 <= k < self.roles@.len() && self.roles@[k].id != except && #[trigger] self.roles@[k].name@
                == name
    }

    /// The ids of the catalog entries granted to role `role_id`.
    pub fn role_permission_ids(&self, role_id: i32) -> (r: Vec<i32>)
        requires
            self.wf(),
        ensures
            r@.to_set() == role_permission_set(self.role_permissions@, role_id),
    {
        let mut out: Vec<i32> = Vec::new();
        let mut i: usize = 0;
        while i < self.role_permissions.len()
            invariant
                i <= self.role_permissions@.len(),
                forall|p: i32|
                    out@.contains(p) <==> exists|k: int|
                        0 <= k < i && #[trigger] self.role_permissions@[k].role_id == role_id
                            && self.role_permissions@[k].permission_id == p,
            decreases self.role_permissions.len() - i,
        {
            let a = self.role_permissions[i];
            let ghost before = out@;
            if a.role_id == role_id {
                out.push(a.permission_id);
            }
            i = i + 1;
            assert forall|p: i32|
                (exists|k: int|
                    0 <= k < i && #[trigger] self.role_permissions@[k].role_id == role_id
                        && self.role_permissions@[k].permission_id == p) implies out@.contains(p) by {
                let k = choose|k: int|
                    0 <= k < i && #[trigger] self.role_permissions@[k].role_id == role_id
                        && self.role_permissions@[k].permission_id == p;
                if k < i - 1 {
                    assert(before.contains(p));
                    let q = choose|q: int| 0 <= q < before.len() && before[q] == p;
                    assert(out@[q] == p);
                } else {
                    assert(out@[out@.len() - 1] == p);
                }
            }
            assert forall|p: i32|
                out@.contains(p) implies exists|k: int|
                    0 <= k < i && #[trigger] self.role_permissions@[k].role_id == role_id
                        && self.role_permissions@[k].permission_id == p by {
                let q = choose|q: int| 0 <= q < out@.len() && out@[q] == p;
                if q < before.len() {
                    assert(before.contains(before[q]));
                } else {
                    assert(self.role_permissions@[i - 1].permission_id == p);
                }
            }
        }
        assert(out@.to_set() =~= role_permission_set(self.role_permissions@, role_id)) by {
            assert forall|p: i32|
                role_permission_set(self.role_permissions@, role_id).contains(p) implies out@.contains(
                p,
            ) by {
                let a = choose|a: RolePermission| #[trigger]
                    self.role_permissions@.contains(a) && a.role_id == role_id && a.permission_id
                        == p;
                let k = choose|k: int|
                    0 <= k < self.role_permissions@.len() && self.role_permissions@[k] == a;
                assert(self.role_permissions@[k].role_id == role_id);
            }
            assert forall|p: i32|
                out@.contains(p) implies role_permission_set(self.role_permissions@, role_id).contains(
                p,
            ) by {
                let k = choose|k: int|
                    0 <= k < i && #[trigger] self.role_permissions@[k].role_id == role_id
                        && self.role_permissions@[k].permission_id == p;
                assert(self.role_permissions@.contains(self.role_permissions@[k]));
            }
        }
        out
    }

    /// Whether every id of `ids` names a catalog entry.
    pub fn check_in_catalog(&self, ids: &Vec<i32>) -> (r: bool)
        requires
            self.wf(),
        ensures
            r == self.all_in_catalog(ids@),
    {
        let mut i: usize = 0;
        while i < ids.len()
            invariant
                self.wf(),
                i <= ids@.len(),
                forall|k: int| 0 <= k < i ==> self.has_permission(#[trigger] ids@[k]),
            decreases ids.len() - i,
        {
            if self.find_permission(ids[i]).is_none() {
                return false;
            }
            i = i + 1;
        }
        true
    }

    /// Appends an association row granting `permission_id` to `role_id`.
    #[verifier::rlimit(60)]
    fn insert_role_permission(&mut self, role_id: i32, permission_id: i32)
        requires
            old(self).wf(),
            old(self).has_role(role_id),
            old(self).has_permission(permission_id),
            !grants(old(self).role_permissions@, role_id, permission_id),
            old(self).next_id < i32::MAX,
        ensures
            final(self).wf(),
            final(self).role_permissions@ == old(self).role_permissions@.push(
                RolePermission { id: old(self).next_id, role_id, permission_id },
            ),
            final(self).next_id == old(self).next_id + 1,
            final(self).users == old(self).users,
            final(self).permissions == old(self).permissions,
            final(self).roles == old(self).roles,
            final(self).user_roles == old(self).user_roles,
            final(self).notifications == old(self).notifications,
    {
        let ghost pre = *self;
        let id = self.next_id;
        let row = RolePermission { id, role_id, permission_id };
        proof {
            lemma_push_unique(pre.role_permissions@, row, role_permission_key(), pre.next_id as int);
            lemma_keys_grow(pre);
        }
        self.next_id = id + 1;
        self.role_permissions.push(row);
        proof {
            assert forall|a: RolePermission, b: RolePermission|
                #![trigger self.role_permissions@.contains(a), self.role_permissions@.contains(b)]
                self.role_permissions@.contains(a) && self.role_permissions@.contains(b)
                    && a.role_id == b.role_id && a.permission_id == b.permission_id implies a.id
                == b.id by {
                if a != row {
                    assert(pre.role_permissions@.contains(a));
                }
                if b != row {
                    assert(pre.role_permissions@.contains(b));
                }
            }
            assert forall|a: RolePermission| #[trigger]
                self.role_permissions@.contains(a) implies self.has_role(a.role_id)
                && self.has_permission(a.permission_id) by {
                if a != row {
                    assert(pre.role_permissions@.contains(a));
                }
                let q = choose|q: Role| #[trigger] pre.roles@.contains(q) && q.id == a.role_id;
                assert(self.roles@.contains(q));
                let p = choose|p: Permission| #[trigger]
                    pre.permissions@.contains(p) && p.id == a.permission_id;
                assert(self.permissions@.contains(p));
            }
        }
    }
}

impl Store {
    /// How many of the ids in `ids` role `role_id` does not hold yet.
    pub open spec fn added_count(self, role_id: i32, ids: Seq<i32>) -> int {
        ids.to_set().difference(role_permission_set(self.role_permissions@, role_id)).len() as int
    }

    /// Some role is named `name`.
    pub open spec fn role_name_used(self, name: Seq<char>) -> bool {
        exists|k: int| 0 <= k < self.roles@.len() && #[trigger] self.roles@[k].name@ == name
    }

    /// Whether `rp` grants `permission_id` to `role_id`.
    pub fn grants_row(&self, role_id: i32, permission_id: i32) -> (r: bool)
        ensures
            r == grants(self.role_permissions@, role_id, permission_id),
    {
        let mut i: usize = 0;
        while i < self.role_permissions.len()
            invariant
                i <= self.role_permissions@.len(),
                forall|k: int|
                    0 <= k < i ==> !(self.role_permissions@[k].role_id == role_id
                        && self.role_permissions@[k].permission_id == permission_id),
            decreases self.role_permissions.len() - i,
        {
            let a = self.role_permissions[i];
            if a.role_id == role_id && a.permission_id == permission_id {
                assert(self.role_permissions@.contains(a));
                return true;
            }
            i = i + 1;
        }
        assert(!grants(self.role_permissions@, role_id, permission_id)) by {
            if grants(self.role_permissions@, role_id, permission_id) {
                let a = choose|a: RolePermission| #[trigger]
                    self.role_permissions@.contains(a) && a.role_id == role_id && a.permission_id
                        == permission_id;
                let k = choose|k: int|
                    0 <= k < self.role_permissions@.len() && self.role_permissions@[k] == a;
            }
        }
        false
    }

    /// Grants each id of `ids` to the fresh role `role_id`, once.
    #[verifier::rlimit(60)]
    fn grant_all(&mut self, role_id: i32, ids: &Vec<i32>)
        requires
            old(self).wf(),
            old(self).has_role(role_id),
            old(self).all_in_catalog(ids@),
            old(self).next_id as int + ids@.len() <= i32::MAX,
        ensures
            final(self).wf(),
            role_permission_set(final(self).role_permissions@, role_id) == role_permission_set(
                old(self).role_permissions@,
                role_id,
            ).union(ids@.to_set()),
            old(self).role_permissions@.len() <= final(self).role_permissions@.len()
                <= old(self).role_permissions@.len() + ids@.len(),
            final(self).role_permissions@.subrange(0, old(self).role_permissions@.len() as int)
                == old(self).role_permissions@,
            forall|m: int|
                old(self).role_permissions@.len() <= m < final(self).role_permissions@.len()
                    ==> #[trigger] final(self).role_permissions@[m].role_id == role_id,
            final(self).next_id == old(self).next_id + (final(self).role_permissions@.len()
                - old(self).role_permissions@.len()),
            ids@.no_duplicates() && (forall|k: int|
                0 <= k < ids@.len() ==> !grants(old(self).role_permissions@, role_id, #[trigger] ids@[k]))
                ==> final(self).role_permissions@.len() == old(self).role_permissions@.len()
                + ids@.len(),
            final(self).users == old(self).users,
            final(self).permissions == old(self).permissions,
            final(self).roles == old(self).roles,
            final(self).user_roles == old(self).user_roles,
            final(self).notifications == old(self).notifications,
    {
        let ghost pre = *self;
        let ghost fresh = ids@.no_duplicates() && (forall|k: int|
            0 <= k < ids@.len() ==> !grants(pre.role_permissions@, role_id, #[trigger] ids@[k]));
        let mut k: usize = 0;
        while k < ids.len()
            invariant
                self.wf(),
                k <= ids@.len(),
                self.has_role(role_id),
                pre.all_in_catalog(ids@),
                pre.next_id as int + ids@.len() <= i32::MAX,
                pre.next_id <= self.next_id <= pre.next_id + k,
                self.next_id == pre.next_id + (self.role_permissions@.len()
                    - pre.role_permissions@.len()),
                fresh == (ids@.no_duplicates() && (forall|k: int|
                    0 <= k < ids@.len() ==> !grants(pre.role_permissions@, role_id, #[trigger] ids@[k]))),
                fresh ==> self.role_permissions@.len() == pre.role_permissions@.len() + k,
                role_permission_set(self.role_permissions@, role_id) == role_permission_set(
                    pre.role_permissions@,
                    role_id,
                ).union(ids@.subrange(0, k as int).to_set()),
                self.role_permissions@.subrange(0, pre.role_permissions@.len() as int)
                    == pre.role_permissions@,
                pre.role_permissions@.len() <= self.role_permissions@.len()
                    <= pre.role_permissions@.len() + k,
                forall|m: int|
                    pre.role_permissions@.len() <= m < self.role_permissions@.len()
                        ==> #[trigger] self.role_permissions@[m].role_id == role_id,
                self.users == pre.users,
                self.permissions == pre.permissions,
                self.roles == pre.roles,
                self.user_roles == pre.user_roles,
                self.notifications == pre.notifications,
            decreases ids.len() - k,
        {
            let p = ids[k];
            assert(self.has_permission(p));
            let ghost before = self.role_permissions@;
            let ghost before_set = role_permission_set(before, role_id);
            proof {
                ids@.subrange(0, k as int).lemma_push_to_set_commute(p);
                assert(ids@.subrange(0, k + 1) == ids@.subrange(0, k as int).push(p));
            }
            if !self.grants_row(role_id, p) {
                self.insert_role_permission(role_id, p);
                let row = RolePermission { id: (self.next_id - 1) as i32, role_id, permission_id: p };
                assert(self.role_permissions@ == before.push(row));
                assert forall|q: i32|
                    role_permission_set(self.role_permissions@, role_id).contains(q)
                        == role_permission_set(before, role_id).insert(p).contains(q) by {
                    if q == p {
                        assert(self.role_permissions@.contains(row));
                    }
                    if grants(self.role_permissions@, role_id, q) && q != p {
                        let a = choose|a: RolePermission| #[trigger]
                            self.role_permissions@.contains(a) && a.role_id == role_id
                                && a.permission_id == q;
                        assert(before.contains(a));
                    }
                    if grants(before, role_id, q) {
                        let a = choose|a: RolePermission| #[trigger]
                            before.contains(a) && a.role_id == role_id && a.permission_id == q;
                        assert(self.role_permissions@.contains(a));
                    }
                }
                assert(self.role_permissions@.subrange(0, pre.role_permissions@.len() as int)
                    =~= before.subrange(0, pre.role_permissions@.len() as int));
                assert(role_permission_set(self.role_permissions@, role_id) =~= before_set.insert(p));
            } else {
                assert(role_permission_set(self.role_permissions@, role_id).contains(p));
                assert(role_permission_set(self.role_permissions@, role_id) =~= before_set.insert(p));
                proof {
                    if fresh {
                        assert(!grants(pre.role_permissions@, role_id, ids@[k as int]));
                        assert(ids@.subrange(0, k as int).to_set().contains(p));
                        let j = choose|j: int| 0 <= j < k && ids@.subrange(0, k as int)[j] == p;
                        assert(ids@[j] == ids@[k as int]);
                    }
                }
            }
            k = k + 1;
            assert(role_permission_set(self.role_permissions@, role_id) =~= role_permission_set(
                pre.role_permissions@,
                role_id,
            ).union(ids@.subrange(0, k as int).to_set()));
        }
        assert(ids@.subrange(0, k as int) == ids@);
    }

    /// Creates role `name` granting each catalog entry of `permission_ids`.
    /// Nothing is written unless every step can succeed.
    #[verifier::rlimit(60)]
    pub fn create_role(
        &mut self,
        name: String,
        description: Option<String>,
        permission_ids: &Vec<i32>,
    ) -> (r: Result<Role, AuthError>)
        requires
            old(self).wf(),
        ensures
            final(self).wf(),
            r == Err::<Role, AuthError>(AuthError::ValidationFailed) <==> name@.len() == 0,
            r == Err::<Role, AuthError>(AuthError::Conflict) <==> name@.len() > 0 && old(
                self,
            ).role_name_used(name@),
            r == Err::<Role, AuthError>(AuthError::StorageFailure) <==> name@.len() > 0 && !old(
                self,
            ).role_name_used(name@) && (!old(self).all_in_catalog(permission_ids@) || old(
                self,
            ).next_id as int + permission_ids@.len() >= i32::MAX),
            r is Ok <==> name@.len() > 0 && !old(self).role_name_used(name@) && old(
                self,
            ).all_in_catalog(permission_ids@) && old(self).next_id as int + permission_ids@.len()
                < i32::MAX,
            r is Err ==> *final(self) == *old(self),
            r matches Ok(role) ==> {
                &&& role.id == old(self).next_id
                &&& role.name@ == name@
                &&& role.description == description
                &&& final(self).roles@ == old(self).roles@.push(role)
                &&& final(self).next_id == old(self).next_id + 1 + (
                final(self).role_permissions@.len() - old(self).role_permissions@.len())
                &&& final(self).next_id <= old(self).next_id + 1 + permission_ids@.len()
                &&& permission_ids@.no_duplicates() ==> final(self).next_id == old(self).next_id + 1
                    + permission_ids@.len()
                &&& role_permission_set(final(self).role_permissions@, role.id)
                    == permission_ids@.to_set()
                &&& old(self).role_permissions@.len() <= final(self).role_permissions@.len()
                &&& final(self).role_permissions@.subrange(
                    0,
                    old(self).role_permissions@.len() as int,
                ) == old(self).role_permissions@
                &&& forall|m: int|
                    old(self).role_permissions@.len() <= m < final(self).role_permissions@.len()
                        ==> #[trigger] final(self).role_permissions@[m].role_id == role.id
            },
            final(self).users == old(self).users,
            final(self).permissions == old(self).permissions,
            final(self).user_roles == old(self).user_roles,
            final(self).notifications == old(self).notifications,
    {
        if name.as_str().unicode_len() == 0 {
            return Err(AuthError::ValidationFailed);
        }
        match self.find_role_named(&name, 0) {
            Some(_) => {
                return Err(AuthError::Conflict);
            },
            None => {},
        }
        assert(!self.role_name_used(name@)) by {
            if self.role_name_used(name@) {
                let k = choose|k: int|
                    0 <= k < self.roles@.len() && #[trigger] self.roles@[k].name@ == name@;
                assert(self.roles@.contains(self.roles@[k]));
            }
        }
        if !self.check_in_catalog(permission_ids)
            || permission_ids.len() >= (i32::MAX - self.next_id) as usize {
            return Err(AuthError::StorageFailure);
        }
        let ghost pre = *self;
        let id = self.next_id;
        let role = Role { id, name, description };
        let out = role.copied();
        proof {
            lemma_push_unique(pre.roles@, role, role_key(), pre.next_id as int);
            lemma_keys_grow(pre);
        }
        self.next_id = id + 1;
        self.roles.push(role);
        proof {
            assert(self.has_role(id)) by {
                assert(self.roles@.contains(role));
            }
            assert forall|a: Role, b: Role|
                #![trigger self.roles@.contains(a), self.roles@.contains(b)]
                self.roles@.contains(a) && self.roles@.contains(b) && a.name@ == b.name@ implies a.id
                == b.id by {
                if a != role {
                    assert(pre.roles@.contains(a));
                }
                if b != role {
                    assert(pre.roles@.contains(b));
                }
                if a != role && b == role || a == role && b != role {
                    let c = if a == role { b } else { a };
                    let k = choose|k: int| 0 <= k < pre.roles@.len() && pre.roles@[k] == c;
                    assert(pre.roles@[k].name@ == name@);
                }
            }
            assert forall|a: RolePermission| #[trigger]
                self.role_permissions@.contains(a) implies self.has_role(a.role_id) by {
                let q = choose|q: Role| #[trigger] pre.roles@.contains(q) && q.id == a.role_id;
                assert(self.roles@.contains(q));
            }
            assert forall|a: UserRole| #[trigger]
                self.user_roles@.contains(a) implies self.has_role(a.role_id) by {
                let q = choose|q: Role| #[trigger] pre.roles@.contains(q) && q.id == a.role_id;
                assert(self.roles@.contains(q));
            }
            assert(role_permission_set(self.role_permissions@, id) =~= Set::empty()) by {
                assert forall|p: i32| !grants(self.role_permissions@, id, p) by {
                    if grants(self.role_permissions@, id, p) {
                        let a = choose|a: RolePermission| #[trigger]
                            self.role_permissions@.contains(a) && a.role_id == id
                                && a.permission_id == p;
                        let q = choose|q: Role| #[trigger] pre.roles@.contains(q) && q.id == id;
                    }
                }
            }
            assert(self.ids_wf());
            assert(self.unique_wf());
            assert(self.refs_wf());
        }
        let ghost mid = *self;
        assert forall|k: int| 0 <= k < permission_ids@.len() implies !grants(
            mid.role_permissions@,
            id,
            #[trigger] permission_ids@[k],
        ) by {
            assert(!role_permission_set(mid.role_permissions@, id).contains(permission_ids@[k]));
        }
        self.grant_all(id, permission_ids);
        assert(role_permission_set(self.role_permissions@, id) =~= permission_ids@.to_set());
        Ok(out)
    }
}

/// The association rows kept when the ids of `removed` are taken from role `r`.
pub open spec fn removal_kept(r: i32, removed: Seq<i32>) -> spec_fn(RolePermission) -> bool {
    |a: RolePermission| !(a.role_id == r && removed.contains(a.permission_id))
}

impl Store {
    /// Drops the association rows that grant role `role_id` an id of `removed`.
    #[verifier::rlimit(60)]
    fn remove_role_permissions(&mut self, role_id: i32, removed: &Vec<i32>)
        requires
            old(self).wf(),
        ensures
            final(self).wf(),
            final(self).role_permissions@ == old(self).role_permissions@.filter(
                removal_kept(role_id, removed@),
            ),
            final(self).next_id == old(self).next_id,
            final(self).users == old(self).users,
            final(self).permissions == old(self).permissions,
            final(self).roles == old(self).roles,
            final(self).user_roles == old(self).user_roles,
            final(self).notifications == old(self).notifications,
    {
        let ghost pre = *self;
        let ghost keep = removal_kept(role_id, removed@);
        let keeps = |a: &RolePermission| -> (b: bool)
            ensures
                b == !(a.role_id == role_id && removed@.contains(a.permission_id)),
            { !(a.role_id == role_id && vec_contains(removed, a.permission_id)) };
        retain_where(&mut self.role_permissions, keeps, Ghost(keep));
        proof {
            lemma_filter_unique(pre.role_permissions@, keep, role_permission_key());
            assert forall|x: RolePermission| #[trigger]
                self.role_permissions@.contains(x) implies 0 < role_permission_key()(x)
                < self.next_id by {
                pre.role_permissions@.lemma_filter_contains_rev(keep, x);
            }
            assert forall|a: RolePermission, b: RolePermission|
                #![trigger self.role_permissions@.contains(a), self.role_permissions@.contains(b)]
                self.role_permissions@.contains(a) && self.role_permissions@.contains(b)
                    && a.role_id == b.role_id && a.permission_id == b.permission_id implies a.id
                == b.id by {
                pre.role_permissions@.lemma_filter_contains_rev(keep, a);
                pre.role_permissions@.lemma_filter_contains_rev(keep, b);
            }
            assert forall|a: RolePermission| #[trigger]
                self.role_permissions@.contains(a) implies self.has_role(a.role_id)
                && self.has_permission(a.permission_id) by {
                pre.role_permissions@.lemma_filter_contains_rev(keep, a);
                let q = choose|q: Role| #[trigger] pre.roles@.contains(q) && q.id == a.role_id;
                assert(self.roles@.contains(q));
                let p = choose|p: Permission| #[trigger]
                    pre.permissions@.contains(p) && p.id == a.permission_id;
                assert(self.permissions@.contains(p));
            }
            assert(self.ids_wf());
            assert(self.unique_wf());
            assert(self.refs_wf());
        }
    }

    /// Replaces the role row at `idx` by `role`, which keeps its id.
    #[verifier::rlimit(60)]
    fn replace_role(&mut self, idx: usize, role: Role)
        requires
            old(self).wf(),
            idx < old(self).roles@.len(),
            old(self).roles@[idx as int].id == role.id,
            !old(self).role_name_taken(role.name@, role.id),
        ensures
            final(self).wf(),
            final(self).roles@ == old(self).roles@.update(idx as int, role),
            final(self).next_id == old(self).next_id,
            final(self).users == old(self).users,
            final(self).permissions == old(self).permissions,
            final(self).role_permissions == old(self).role_permissions,
            final(self).user_roles == old(self).user_roles,
            final(self).notifications == old(self).notifications,
    {
        let role_id = role.id;
        let ghost before = *self;
        self.roles.set(idx, role);
        proof {
            assert forall|x: i32| before.has_role(x) implies self.has_role(x) by {
                let q = choose|q: Role| #[trigger] before.roles@.contains(q) && q.id == x;
                let k = choose|k: int| 0 <= k < before.roles@.len() && before.roles@[k] == q;
                if k == idx {
                    assert(self.roles@.contains(self.roles@[k]));
                } else {
                    assert(self.roles@.contains(self.roles@[k]));
                }
            }
            assert(unique_keys(self.roles@, role_key())) by {
                assert forall|i: int, j: int|
                    0 <= i < self.roles@.len() && 0 <= j < self.roles@.len() && i != j implies role_key()(
                        #[trigger] self.roles@[i],
                    ) != role_key()(#[trigger] self.roles@[j]) by {
                    assert(role_key()(self.roles@[i]) == role_key()(before.roles@[i]));
                    assert(role_key()(self.roles@[j]) == role_key()(before.roles@[j]));
                }
            }
            assert forall|x: Role| #[trigger]
                self.roles@.contains(x) implies 0 < role_key()(x) < self.next_id by {
                let k = choose|k: int| 0 <= k < self.roles@.len() && self.roles@[k] == x;
                assert(before.roles@.contains(before.roles@[k]));
            }
            assert forall|a: Role, b: Role|
                #![trigger self.roles@.contains(a), self.roles@.contains(b)]
                self.roles@.contains(a) && self.roles@.contains(b) && a.name@ == b.name@ implies a.id
                == b.id by {
                let ka = choose|ka: int| 0 <= ka < self.roles@.len() && self.roles@[ka] == a;
                let kb = choose|kb: int| 0 <= kb < self.roles@.len() && self.roles@[kb] == b;
                if ka != idx {
                    assert(before.roles@.contains(before.roles@[ka]));
                }
                if kb != idx {
                    assert(before.roles@.contains(before.roles@[kb]));
                }
                if ka != idx && kb == idx {
                    assert(before.roles@[ka].id != role_id);
                }
                if kb != idx && ka == idx {
                    assert(before.roles@[kb].id != role_id);
                }
            }
            assert forall|a: RolePermission| #[trigger]
                self.role_permissions@.contains(a) implies self.has_role(a.role_id) by {
                assert(before.has_role(a.role_id));
            }
            assert forall|a: UserRole| #[trigger]
                self.user_roles@.contains(a) implies self.has_role(a.role_id) by {
                assert(before.has_role(a.role_id));
            }
            assert(self.ids_wf());
            assert(self.unique_wf());
            assert(self.refs_wf());
        }
    }

    /// Moves role `role_id` to name `name`, `description` and exactly the
    /// catalog entries of `permission_ids`: rows of ids no longer requested are
    /// deleted, rows of newly requested ids inserted, the others left as they
    /// are. Nothing is written unless every step can succeed.
    #[verifier::rlimit(60)]
    pub fn update_role(
        &mut self,
        role_id: i32,
        name: String,
        description: Option<String>,
        permission_ids: &Vec<i32>,
    ) -> (r: Result<Role, AuthError>)
        requires
            old(self).wf(),
        ensures
            final(self).wf(),
            r == Err::<Role, AuthError>(AuthError::NotFound) <==> !old(self).has_role(role_id),
            r == Err::<Role, AuthError>(AuthError::ValidationFailed) <==> old(self).has_role(role_id)
                && name@.len() == 0,
            r == Err::<Role, AuthError>(AuthError::Conflict) <==> old(self).has_role(role_id)
                && name@.len() > 0 && old(self).role_name_taken(name@, role_id),
            r == Err::<Role, AuthError>(AuthError::StorageFailure) <==> old(self).has_role(role_id)
                && name@.len() > 0 && !old(self).role_name_taken(name@, role_id) && (!old(
                self,
            ).all_in_catalog(permission_ids@) || old(self).next_id as int + old(self).added_count(
                role_id,
                permission_ids@,
            ) > i32::MAX),
            r is Ok <==> old(self).has_role(role_id) && name@.len() > 0 && !old(self).role_name_taken(
                name@,
                role_id,
            ) && old(self).all_in_catalog(permission_ids@) && old(self).next_id as int + old(
                self,
            ).added_count(role_id, permission_ids@) <= i32::MAX,
            r is Ok ==> final(self).next_id == old(self).next_id + old(self).added_count(
                role_id,
                permission_ids@,
            ),
            r is Err ==> *final(self) == *old(self),
            r matches Ok(role) ==> {
                &&& role.id == role_id
                &&& role.name@ == name@
                &&& role.description == description
                &&& exists|i: int|
                    0 <= i < old(self).roles@.len() && old(self).roles@[i].id == role_id
                        && final(self).roles@ == old(self).roles@.update(i, role)
                &&& role_permission_set(final(self).role_permissions@, role_id)
                    == permission_ids@.to_set()
                &&& forall|r2: i32|
                    r2 != role_id ==> #[trigger] role_permission_set(
                        final(self).role_permissions@,
                        r2,
                    ) == role_permission_set(old(self).role_permissions@, r2)
                &&& forall|a: RolePermission| #[trigger]
                    old(self).role_permissions@.contains(a) && (a.role_id != role_id
                        || permission_ids@.contains(a.permission_id))
                        ==> final(self).role_permissions@.contains(a)
                &&& role_permission_set(old(self).role_permissions@, role_id)
                    == permission_ids@.to_set() ==> final(self).role_permissions@
                    == old(self).role_permissions@
            },
            final(self).users == old(self).users,
            final(self).permissions == old(self).permissions,
            final(self).user_roles == old(self).user_roles,
            final(self).notifications == old(self).notifications,
    {
        let idx = match self.find_role(role_id) {
            Some(i) => i,
            None => {
                return Err(AuthError::NotFound);
            },
        };
        if name.as_str().unicode_len() == 0 {
            return Err(AuthError::ValidationFailed);
        }
        match self.find_role_named(&name, role_id) {
            Some(k) => {
                assert(self.roles@[k as int].name@ == name@);
                return Err(AuthError::Conflict);
            },
            None => {},
        }
        if !self.check_in_catalog(permission_ids) {
            return Err(AuthError::StorageFailure);
        }
        let ghost pre = *self;
        let ghost old_set = role_permission_set(pre.role_permissions@, role_id);
        let current = self.role_permission_ids(role_id);
        let (removed, added) = reconcile(&current, permission_ids);
        proof {
            added@.unique_seq_to_set();
        }
        if added.len() > (i32::MAX - self.next_id) as usize {
            return Err(AuthError::StorageFailure);
        }
        // Rows of ids no longer requested go first.
        self.remove_role_permissions(role_id, &removed);
        let ghost mid = *self;
        proof {
            let keep = removal_kept(role_id, removed@);
            assert forall|r2: i32|
                #[trigger] role_permission_set(mid.role_permissions@, r2) == if r2 == role_id {
                    old_set.intersect(permission_ids@.to_set())
                } else {
                    role_permission_set(pre.role_permissions@, r2)
                } by {
                assert forall|p: i32|
                    role_permission_set(mid.role_permissions@, r2).contains(p) == (if r2
                        == role_id {
                        old_set.intersect(permission_ids@.to_set())
                    } else {
                        role_permission_set(pre.role_permissions@, r2)
                    }).contains(p) by {
                    if grants(mid.role_permissions@, r2, p) {
                        let a = choose|a: RolePermission| #[trigger]
                            mid.role_permissions@.contains(a) && a.role_id == r2
                                && a.permission_id == p;
                        pre.role_permissions@.lemma_filter_contains_rev(keep, a);
                        assert(keep(a));
                        assert(grants(pre.role_permissions@, r2, p));
                        if r2 == role_id {
                            assert(!removed@.contains(p));
                            assert(current@.to_set().contains(p));
                            assert(!removed@.to_set().contains(p));
                            assert(permission_ids@.to_set().contains(p));
                        }
                    }
                    if grants(pre.role_permissions@, r2, p) && (r2 != role_id
                        || permission_ids@.to_set().contains(p)) {
                        let a = choose|a: RolePermission| #[trigger]
                            pre.role_permissions@.contains(a) && a.role_id == r2
                                && a.permission_id == p;
                        let k = choose|k: int|
                            0 <= k < pre.role_permissions@.len() && pre.role_permissions@[k] == a;
                        if r2 == role_id {
                            assert(!removed@.to_set().contains(p));
                            assert(!removed@.contains(p));
                        }
                        assert(keep(pre.role_permissions@[k]));
                        assert(pre.role_permissions@.filter(keep).contains(pre.role_permissions@[k]));
                        assert(mid.role_permissions@.contains(a));
                        assert(grants(mid.role_permissions@, r2, p));
                    }
                }
                assert(role_permission_set(mid.role_permissions@, r2) =~= if r2 == role_id {
                    old_set.intersect(permission_ids@.to_set())
                } else {
                    role_permission_set(pre.role_permissions@, r2)
                });
            }
            assert forall|a: RolePermission| #[trigger]
                pre.role_permissions@.contains(a) && (a.role_id != role_id
                    || permission_ids@.contains(a.permission_id)) implies mid.role_permissions@.contains(
                a,
            ) by {
                let k = choose|k: int|
                    0 <= k < pre.role_permissions@.len() && pre.role_permissions@[k] == a;
                if a.role_id == role_id {
                    assert(permission_ids@.to_set().contains(a.permission_id));
                    assert(!removed@.to_set().contains(a.permission_id));
                }
                assert(keep(pre.role_permissions@[k]));
            }
            assert(self.has_role(role_id)) by {
                assert(self.roles@.contains(self.roles@[idx as int]));
            }
            assert forall|k: int| 0 <= k < added@.len() implies self.has_permission(
                #[trigger] added@[k],
            ) by {
                assert(added@.to_set().contains(added@[k]));
                let j = choose|j: int| 0 <= j < permission_ids@.len() && permission_ids@[j] == added@[k];
            }
            assert forall|k: int| 0 <= k < added@.len() implies !grants(
                mid.role_permissions@,
                role_id,
                #[trigger] added@[k],
            ) by {
                assert(added@.to_set().contains(added@[k]));
                assert(!role_permission_set(mid.role_permissions@, role_id).contains(added@[k]));
            }
        }
        // Then rows of newly requested ids.
        self.grant_all(role_id, &added);
        proof {
            assert(role_permission_set(self.role_permissions@, role_id) =~= permission_ids@.to_set());
            assert forall|r2: i32|
                r2 != role_id implies #[trigger] role_permission_set(self.role_permissions@, r2)
                == role_permission_set(pre.role_permissions@, r2) by {
                assert forall|p: i32|
                    grants(self.role_permissions@, r2, p) implies grants(mid.role_permissions@, r2, p) by {
                    let a = choose|a: RolePermission| #[trigger]
                        self.role_permissions@.contains(a) && a.role_id == r2
                            && a.permission_id == p;
                    let k = choose|k: int|
                        0 <= k < self.role_permissions@.len() && self.role_permissions@[k] == a;
                    if k < mid.role_permissions@.len() {
                        assert(self.role_permissions@.subrange(
                            0,
                            mid.role_permissions@.len() as int,
                        )[k] == a);
                        assert(mid.role_permissions@.contains(a));
                    }
                }
                assert forall|p: i32|
                    grants(mid.role_permissions@, r2, p) implies grants(self.role_permissions@, r2, p) by {
                    let a = choose|a: RolePermission| #[trigger]
                        mid.role_permissions@.contains(a) && a.role_id == r2
                            && a.permission_id == p;
                    let k = choose|k: int|
                        0 <= k < mid.role_permissions@.len() && mid.role_permissions@[k] == a;
                    assert(self.role_permissions@.subrange(
                        0,
                        mid.role_permissions@.len() as int,
                    )[k] == a);
                    assert(self.role_permissions@.contains(self.role_permissions@[k]));
                }
                assert(role_permission_set(self.role_permissions@, r2) =~= role_permission_set(
                    mid.role_permissions@,
                    r2,
                ));
            }
            assert forall|a: RolePermission| #[trigger]
                mid.role_permissions@.contains(a) implies self.role_permissions@.contains(a) by {
                let k = choose|k: int|
                    0 <= k < mid.role_permissions@.len() && mid.role_permissions@[k] == a;
                assert(self.role_permissions@.subrange(0, mid.role_permissions@.len() as int)[k]
                    == a);
                assert(self.role_permissions@.contains(self.role_permissions@[k]));
            }
            if old_set == permission_ids@.to_set() {
                assert(current@.to_set() == permission_ids@.to_set());
                lemma_reconcile_same_set(current@, permission_ids@, removed@, added@);
                let keep = removal_kept(role_id, removed@);
                assert forall|k: int|
                    0 <= k < pre.role_permissions@.len() implies keep(
                    #[trigger] pre.role_permissions@[k],
                ) by {}
                lemma_filter_all(pre.role_permissions@, keep);
                assert(self.role_permissions@ =~= pre.role_permissions@);
            }
        }
        // Finally the role row itself.
        let role = Role { id: role_id, name, description };
        let out = role.copied();
        self.replace_role(idx, role);
        proof {
            assert(self.roles@ == pre.roles@.update(idx as int, role));
        }
        Ok(out)
    }
}

pub open spec fn role_other_than(r: i32) -> spec_fn(Role) -> bool {
    |x: Role| x.id != r
}

pub open spec fn grant_of_other_role(r: i32) -> spec_fn(RolePermission) -> bool {
    |a: RolePermission| a.role_id != r
}

pub open spec fn assignment_of_other_role(r: i32) -> spec_fn(UserRole) -> bool {
    |a: UserRole| a.role_id != r
}

impl Store {
    /// Deletes role `role_id` with its association rows; users keep their
    /// other roles. `None` when there is no such role.
    #[verifier::rlimit(60)]
    pub fn delete_role(&mut self, role_id: i32) -> (r: Option<Role>)
        requires
            old(self).wf(),
        ensures
            final(self).wf(),
            r is None <==> !old(self).has_role(role_id),
            r is None ==> *final(self) == *old(self),
            r matches Some(role) ==> {
                &&& role.id == role_id
                &&& old(self).roles@.contains(role)
                &&& final(self).roles@ == old(self).roles@.filter(role_other_than(role_id))
                &&& final(self).role_permissions@ == old(self).role_permissions@.filter(
                    grant_of_other_role(role_id),
                )
                &&& final(self).user_roles@ == old(self).user_roles@.filter(
                    assignment_of_other_role(role_id),
                )
            },
            final(self).users == old(self).users,
            final(self).permissions == old(self).permissions,
            final(self).notifications == old(self).notifications,
            final(self).next_id == old(self).next_id,
    {
        let idx = match self.find_role(role_id) {
            Some(i) => i,
            None => {
                return None;
            },
        };
        let deleted = self.roles[idx].copied();
        assert(self.roles@.contains(deleted));
        let ghost pre = *self;
        let ghost k1 = role_other_than(role_id);
        let ghost k2 = grant_of_other_role(role_id);
        let ghost k3 = assignment_of_other_role(role_id);
        let f1 = |x: &Role| -> (b: bool)
            ensures
                b == (x.id != role_id),
            { x.id != role_id };
        retain_where(&mut self.roles, f1, Ghost(k1));
        let f2 = |a: &RolePermission| -> (b: bool)
            ensures
                b == (a.role_id != role_id),
            { a.role_id != role_id };
        retain_where(&mut self.role_permissions, f2, Ghost(k2));
        let f3 = |a: &UserRole| -> (b: bool)
            ensures
                b == (a.role_id != role_id),
            { a.role_id != role_id };
        retain_where(&mut self.user_roles, f3, Ghost(k3));
        proof {
            lemma_filter_unique(pre.roles@, k1, role_key());
            lemma_filter_unique(pre.role_permissions@, k2, role_permission_key());
            lemma_filter_unique(pre.user_roles@, k3, user_role_key());
            assert forall|x: i32| pre.has_role(x) && x != role_id implies self.has_role(x) by {
                let q = choose|q: Role| #[trigger] pre.roles@.contains(q) && q.id == x;
                let k = choose|k: int| 0 <= k < pre.roles@.len() && pre.roles@[k] == q;
                assert(pre.roles@.filter(k1).contains(pre.roles@[k]));
                assert(self.roles@.contains(q));
            }
            assert forall|x: Role| #[trigger]
                self.roles@.contains(x) implies 0 < role_key()(x) < self.next_id by {
                pre.roles@.lemma_filter_contains_rev(k1, x);
            }
            assert forall|x: RolePermission| #[trigger]
                self.role_permissions@.contains(x) implies 0 < role_permission_key()(x)
                < self.next_id by {
                pre.role_permissions@.lemma_filter_contains_rev(k2, x);
            }
            assert forall|x: UserRole| #[trigger]
                self.user_roles@.contains(x) implies 0 < user_role_key()(x) < self.next_id by {
                pre.user_roles@.lemma_filter_contains_rev(k3, x);
            }
            assert forall|a: Role, b: Role|
                #![trigger self.roles@.contains(a), self.roles@.contains(b)]
                self.roles@.contains(a) && self.roles@.contains(b) && a.name@ == b.name@ implies a.id
                == b.id by {
                pre.roles@.lemma_filter_contains_rev(k1, a);
                pre.roles@.lemma_filter_contains_rev(k1, b);
            }
            assert forall|a: RolePermission, b: RolePermission|
                #![trigger self.role_permissions@.contains(a), self.role_permissions@.contains(b)]
                self.role_permissions@.contains(a) && self.role_permissions@.contains(b)
                    && a.role_id == b.role_id && a.permission_id == b.permission_id implies a.id
                == b.id by {
                pre.role_permissions@.lemma_filter_contains_rev(k2, a);
                pre.role_permissions@.lemma_filter_contains_rev(k2, b);
            }
            assert forall|a: UserRole, b: UserRole|
                #![trigger self.user_roles@.contains(a), self.user_roles@.contains(b)]
                self.user_roles@.contains(a) && self.user_roles@.contains(b) && a.user_id
                    == b.user_id && a.role_id == b.role_id implies a.id == b.id by {
                pre.user_roles@.lemma_filter_contains_rev(k3, a);
                pre.user_roles@.lemma_filter_contains_rev(k3, b);
            }
            assert forall|a: RolePermission| #[trigger]
                self.role_permissions@.contains(a) implies self.has_role(a.role_id)
                && self.has_permission(a.permission_id) by {
                pre.role_permissions@.lemma_filter_contains_rev(k2, a);
                assert(pre.has_role(a.role_id));
                let p = choose|p: Permission| #[trigger]
                    pre.permissions@.contains(p) && p.id == a.permission_id;
                assert(self.permissions@.contains(p));
            }
            assert forall|a: UserRole| #[trigger]
                self.user_roles@.contains(a) implies self.has_user(a.user_id) && self.has_role(
                a.role_id,
            ) by {
                pre.user_roles@.lemma_filter_contains_rev(k3, a);
                assert(pre.has_role(a.role_id));
                let u = choose|u: crate::entities::User| #[trigger]
                    pre.users@.contains(u) && u.id == a.user_id;
                assert(self.users@.contains(u));
            }
            assert(self.ids_wf());
            assert(self.unique_wf());
            assert(self.refs_wf());
        }
        Some(deleted)
    }

    /// Role `role_id` with the catalog entries it grants; `None` when there is
    /// no such role.
    pub fn get_role(&self, role_id: i32) -> (r: Option<RoleWithPermissions>)
        requires
            self.wf(),
        ensures
            r is None <==> !self.has_role(role_id),
            r matches Some(d) ==> d.role.id == role_id && self.describes_role(d),
    {
        let idx = match self.find_role(role_id) {
            Some(i) => i,
            None => {
                return None;
            },
        };
        let role = self.roles[idx].copied();
        assert(self.roles@.contains(role));
        let ids = self.role_permission_ids(role_id);
        let mut perms: Vec<Permission> = Vec::new();
        let mut i: usize = 0;
        while i < ids.len()
            invariant
                self.wf(),
                i <= ids@.len(),
                ids@.to_set() == role_permission_set(self.role_permissions@, role_id),
                unique_keys(perms@, permission_key()),
                forall|p: Permission| #[trigger]
                    perms@.contains(p) ==> self.permissions@.contains(p) && grants(
                        self.role_permissions@,
                        role_id,
                        p.id,
                    ),
                forall|k: int| 0 <= k < i ==> has_id(perms@, #[trigger] ids@[k]),
            decreases ids.len() - i,
        {
            let id = ids[i];
            assert(ids@.to_set().contains(id));
            if !crate::rbac::contains_id(&perms, id) {
                match self.find_permission(id) {
                    Some(q) => {
                        let p = self.permissions[q].copied();
                        assert(self.permissions@.contains(p));
                        let ghost before = perms@;
                        proof {
                            let t = before.push(p);
                            assert forall|a: int, b: int|
                                0 <= a < t.len() && 0 <= b < t.len() && a != b implies permission_key()(
                                    #[trigger] t[a],
                                ) != permission_key()(#[trigger] t[b]) by {
                                if a < before.len() {
                                    assert(before.contains(before[a]));
                                }
                                if b < before.len() {
                                    assert(before.contains(before[b]));
                                }
                            }
                        }
                        perms.push(p);
                        assert forall|x: Permission| #[trigger]
                            perms@.contains(x) implies self.permissions@.contains(x) && grants(
                            self.role_permissions@,
                            role_id,
                            x.id,
                        ) by {
                            if x != p {
                                assert(before.contains(x));
                            }
                        }
                        assert forall|k: int| 0 <= k < i + 1 implies has_id(
                            perms@,
                            #[trigger] ids@[k],
                        ) by {
                            if k < i {
                                let q2 = choose|q2: int|
                                    0 <= q2 < before.len() && #[trigger] before[q2].id == ids@[k];
                                assert(perms@[q2].id == ids@[k]);
                            } else {
                                assert(perms@[perms@.len() - 1].id == ids@[k]);
                            }
                        }
                    },
                    None => {
                        proof {
                            let a = choose|a: RolePermission| #[trigger]
                                self.role_permissions@.contains(a) && a.role_id == role_id
                                    && a.permission_id == id;
                            assert(self.has_permission(id));
                        }
                    },
                }
            }
            i = i + 1;
        }
        let d = RoleWithPermissions { role, permissions: perms };
        assert forall|id: i32| #[trigger]
            grants(self.role_permissions@, role_id, id) implies has_id(d.permissions@, id) by {
            assert(ids@.to_set().contains(id));
            let k = choose|k: int| 0 <= k < ids@.len() && ids@[k] == id;
        }
        Some(d)
    }

    /// Every role with the catalog entries it grants, in table order.
    pub fn get_all_roles(&self) -> (r: Vec<RoleWithPermissions>)
        requires
            self.wf(),
        ensures
            r@.len() == self.roles@.len(),
            forall|i: int|
                0 <= i < r@.len() ==> #[trigger] r@[i].role == self.roles@[i]
                    && self.describes_role(r@[i]),
    {
        let mut out: Vec<RoleWithPermissions> = Vec::new();
        let mut i: usize = 0;
        while i < self.roles.len()
            invariant
                self.wf(),
                i <= self.roles@.len(),
                out@.len() == i,
                forall|k: int|
                    0 <= k < i ==> #[trigger] out@[k].role == self.roles@[k] && self.describes_role(
                        out@[k],
                    ),
            decreases self.roles.len() - i,
        {
            let id = self.roles[i].id;
            assert(self.roles@.contains(self.roles@[i as int]));
            match self.get_role(id) {
                Some(d) => {
                    proof {
                        let j = choose|j: int| 0 <= j < self.roles@.len() && self.roles@[j] == d.role;
                        assert(role_key()(self.roles@[j]) == role_key()(self.roles@[i as int]));
                    }
                    out.push(d);
                },
                None => {},
            }
            i = i + 1;
        }
        out
    }

    /// The whole permission catalog, in table order.
    pub fn get_all_permissions(&self) -> (r: Vec<Permission>)
        ensures
            r@ == self.permissions@,
    {
        let mut out: Vec<Permission> = Vec::new();
        let mut i: usize = 0;
        while i < self.permissions.len()
            invariant
                i <= self.permissions@.len(),
                out@ == self.permissions@.subrange(0, i as int),
            decreases self.permissions.len() - i,
        {
            out.push(self.permissions[i].copied());
            i = i + 1;
            assert(out@ =~= self.permissions@.subrange(0, i as int));
        }
        assert(out@ =~= self.permissions@);
        out
    }

    /// The catalog entry with id `permission_id`, if any.
    pub fn get_permission(&self, permission_id: i32) -> (r: Option<Permission>)
        requires
            self.wf(),
        ensures
            r is None <==> !self.has_permission(permission_id),
            r matches Some(p) ==> p.id == permission_id && self.permissions@.contains(p),
    {
        match self.find_permission(permission_id) {
            Some(i) => {
                let p = self.permissions[i].copied();
                assert(self.permissions@.contains(p));
                Some(p)
            },
            None => None,
        }
    }

    /// Adds entry `name` to the permission catalog (done once, at bootstrap).
    #[verifier::rlimit(60)]
    pub fn add_permission(&mut self, name: String, description: Option<String>) -> (r: Result<
        Permission,
        AuthError,
    >)
        requires
            old(self).wf(),
        ensures
            final(self).wf(),
            r == Err::<Permission, AuthError>(AuthError::ValidationFailed) <==> name@.len() == 0,
            r == Err::<Permission, AuthError>(AuthError::Conflict) <==> name@.len() > 0 && exists|
                k: int,
            |
                0 <= k < old(self).permissions@.len() && #[trigger] old(self).permissions@[k].name@
                    == name@,
            r == Err::<Permission, AuthError>(AuthError::StorageFailure) <==> name@.len() > 0
                && (forall|k: int|
                0 <= k < old(self).permissions@.len() ==> #[trigger] old(
                    self,
                ).permissions@[k].name@ != name@) && old(self).next_id == i32::MAX,
            r is Ok <==> name@.len() > 0 && (forall|k: int|
                0 <= k < old(self).permissions@.len() ==> #[trigger] old(
                    self,
                ).permissions@[k].name@ != name@) && old(self).next_id < i32::MAX,
            r is Err ==> *final(self) == *old(self),
            r matches Ok(p) ==> p.id == old(self).next_id && p.name@ == name@ && p.description
                == description && final(self).permissions@ == old(self).permissions@.push(p),
            r is Ok ==> final(self).next_id == old(self).next_id + 1,
            final(self).users == old(self).users,
            final(self).roles == old(self).roles,
            final(self).role_permissions == old(self).role_permissions,
            final(self).user_roles == old(self).user_roles,
            final(self).notifications == old(self).notifications,
    {
        if name.as_str().unicode_len() == 0 {
            return Err(AuthError::ValidationFailed);
        }
        let mut i: usize = 0;
        while i < self.permissions.len()
            invariant
                *self == *old(self),
                self.wf(),
                name@.len() > 0,
                i <= self.permissions@.len(),
                forall|k: int| 0 <= k < i ==> #[trigger] self.permissions@[k].name@ != name@,
            decreases self.permissions.len() - i,
        {
            if self.permissions[i].name == name {
                return Err(AuthError::Conflict);
            }
            i = i + 1;
        }
        if self.next_id == i32::MAX {
            return Err(AuthError::StorageFailure);
        }
        let ghost pre = *self;
        let id = self.next_id;
        let p = Permission { id, name, description };
        let out = p.copied();
        proof {
            lemma_push_unique(pre.permissions@, p, permission_key(), pre.next_id as int);
            lemma_keys_grow(pre);
        }
        self.next_id = id + 1;
        self.permissions.push(p);
        proof {
            assert forall|a: Permission, b: Permission|
                #![trigger self.permissions@.contains(a), self.permissions@.contains(b)]
                self.permissions@.contains(a) && self.permissions@.contains(b) && a.name@ == b.name@
                    implies a.id == b.id by {
                if a != p {
                    assert(pre.permissions@.contains(a));
                }
                if b != p {
                    assert(pre.permissions@.contains(b));
                }
                if a != p && b == p || a == p && b != p {
                    let c = if a == p { b } else { a };
                    let k = choose|k: int| 0 <= k < pre.permissions@.len() && pre.permissions@[k] == c;
                    assert(pre.permissions@[k].name@ != p.name@);
                }
            }
            assert forall|a: RolePermission| #[trigger]
                self.role_permissions@.contains(a) implies self.has_permission(a.permission_id) by {
                let q = choose|q: Permission| #[trigger]
                    pre.permissions@.contains(q) && q.id == a.permission_id;
                assert(self.permissions@.contains(q));
            }
            assert(self.ids_wf());
            assert(self.unique_wf());
            assert(self.refs_wf());
        }
        Ok(out)
    }
}

/// Raising `next_id` by one keeps every table's keys below it.
pub proof fn lemma_keys_grow(s: Store)
    requires
        s.wf(),
    ensures
        keys_below(s.users@, user_key(), s.next_id + 1),
        keys_below(s.permissions@, permission_key(), s.next_id + 1),
        keys_below(s.roles@, role_key(), s.next_id + 1),
        keys_below(s.role_permissions@, role_permission_key(), s.next_id + 1),
        keys_below(s.user_roles@, user_role_key(), s.next_id + 1),
        keys_below(s.notifications@, notification_key(), s.next_id + 1),
{
}

} // verus!
