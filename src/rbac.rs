//! Resolution of a user's effective permissions through role assignments,
//! and granting or revoking roles.
use vstd::prelude::*;
use crate::entities::{AuthError, Permission, RolePermission, UserRole};
use crate::rows::{lemma_filter_unique, lemma_push_unique, unique_keys};
use crate::store::{permission_key, user_role_key, Store};

verus! {

broadcast use {vstd::seq_lib::group_seq_properties, vstd::seq_lib::group_filter_ensures};

/// `ur` assigns role `r` to user `u`.
pub open spec fn holds_role(ur: Seq<UserRole>, u: i32, r: i32) -> bool {
    exists|a: UserRole| #[trigger] ur.contains(a) && a.user_id == u && a.role_id == r
}

/// `rp` grants permission `p` to role `r`.
pub open spec fn grants(rp: Seq<RolePermission>, r: i32, p: i32) -> bool {
    exists|a: RolePermission| #[trigger] rp.contains(a) && a.role_id == r && a.permission_id == p
}

/// The ids of the permissions user `u` has through any of its roles.
pub open spec fn effective_ids(ur: Seq<UserRole>, rp: Seq<RolePermission>, u: i32) -> Set<i32> {
    Set::new(|p: i32| exists|r: i32| holds_role(ur, u, r) && #[trigger] grants(rp, r, p))
}

/// The assignment rows left after taking role `r` away from user `u`.
pub open spec fn without_pair(ur: Seq<UserRole>, u: i32, r: i32) -> Seq<UserRole> {
    ur.filter(pair_kept(u, r))
}

/// The rows that do not assign role `r` to user `u`.
pub open spec fn pair_kept(u: i32, r: i32) -> spec_fn(UserRole) -> bool {
    |a: UserRole| !(a.user_id == u && a.role_id == r)
}

/// `s` holds a row whose id is `id`.
pub open spec fn has_id(s: Seq<Permission>, id: i32) -> bool {
    exists|q: int| 0 <= q < s.len() && #[trigger] s[q].id == id
}

impl Store {
    pub open spec fn effective_permission_ids(self, u: i32) -> Set<i32> {
        effective_ids(self.user_roles@, self.role_permissions@, u)
    }

    /// User `u` has, through some role, a permission named `name`.
    pub open spec fn has_named_permission(self, u: i32, name: Seq<char>) -> bool {
        exists|p: Permission|
            #[trigger] self.permissions@.contains(p) && self.effective_permission_ids(u).contains(
                p.id,
            ) && p.name@ == name
    }

    /// The catalog entries user `user_id` has through its roles, each once.
    pub fn get_user_permissions(&self, user_id: i32) -> (r: Vec<Permission>)
        requires
            self.wf(),
        ensures
            forall|p: Permission| #[trigger]
                r@.contains(p) ==> self.permissions@.contains(p)
                    && self.effective_permission_ids(user_id).contains(p.id),
            forall|id: i32| #[trigger]
                self.effective_permission_ids(user_id).contains(id) ==> has_id(r@, id),
            unique_keys(r@, permission_key()),
    {
        let mut result: Vec<Permission> = Vec::new();
        let mut i: usize = 0;
        while i < self.user_roles.len()
            invariant
                self.wf(),
                i <= self.user_roles@.len(),
                unique_keys(result@, permission_key()),
                forall|p: Permission| #[trigger]
                    result@.contains(p) ==> self.permissions@.contains(p)
                        && self.effective_permission_ids(user_id).contains(p.id),
                forall|k: int, id: i32|
                    0 <= k < i && self.user_roles@[k].user_id == user_id && #[trigger] grants(
                        self.role_permissions@,
                        self.user_roles@[k].role_id,
                        id,
                    ) ==> has_id(result@, id),
            decreases self.user_roles.len() - i,
        {
            let a = self.user_roles[i];
            if a.user_id == user_id {
                assert(self.user_roles@.contains(a));
                let mut j: usize = 0;
                while j < self.role_permissions.len()
                    invariant
                        self.wf(),
                        i < self.user_roles@.len(),
                        a == self.user_roles@[i as int],
                        a.user_id == user_id,
                        self.user_roles@.contains(a),
                        j <= self.role_permissions@.len(),
                        unique_keys(result@, permission_key()),
                        forall|p: Permission| #[trigger]
                            result@.contains(p) ==> self.permissions@.contains(p)
                                && self.effective_permission_ids(user_id).contains(p.id),
                        forall|k: int, id: i32|
                            0 <= k < i && self.user_roles@[k].user_id == user_id && #[trigger] grants(
                                self.role_permissions@,
                                self.user_roles@[k].role_id,
                                id,
                            ) ==> has_id(result@, id),
                        forall|m: int|
                            0 <= m < j && #[trigger] self.role_permissions@[m].role_id == a.role_id
                                ==> has_id(result@, self.role_permissions@[m].permission_id),
                    decreases self.role_permissions.len() - j,
                {
                    let b = self.role_permissions[j];
                    if b.role_id == a.role_id {
                        assert(self.role_permissions@.contains(b));
                        assert(grants(self.role_permissions@, a.role_id, b.permission_id));
                        assert(holds_role(self.user_roles@, user_id, a.role_id));
                        assert(self.effective_permission_ids(user_id).contains(b.permission_id));
                        if !contains_id(&result, b.permission_id) {
                            match self.find_permission(b.permission_id) {
                                Some(q) => {
                                    let p = self.permissions[q].copied();
                                    assert(self.permissions@.contains(p));
                                    let ghost before = result@;
                                    proof {
                                        assert forall|x: Permission| #[trigger]
                                            before.contains(x) implies permission_key()(x)
                                            != permission_key()(p) by {}
                                        lemma_push_distinct(before, p);
                                    }
                                    result.push(p);
                                    assert forall|x: Permission| #[trigger]
                                        result@.contains(x) implies self.permissions@.contains(x)
                                        && self.effective_permission_ids(user_id).contains(x.id) by {
                                        if x != p {
                                            assert(before.contains(x));
                                        }
                                    }
                                    assert forall|id: i32| has_id(before, id) implies has_id(
                                        result@,
                                        id,
                                    ) by {
                                        let q2 = choose|q2: int|
                                            0 <= q2 < before.len() && #[trigger] before[q2].id == id;
                                        assert(result@[q2].id == id);
                                    }
                                    assert(result@[result@.len() - 1].id == b.permission_id);
                                },
                                None => {
                                    assert(self.has_permission(b.permission_id));
                                },
                            }
                        }
                    }
                    j = j + 1;
                }
                assert forall|k: int, id: i32|
                    0 <= k < i + 1 && self.user_roles@[k].user_id == user_id && #[trigger] grants(
                        self.role_permissions@,
                        self.user_roles@[k].role_id,
                        id,
                    ) implies has_id(result@, id) by {
                    if k == i {
                        let b = choose|b: RolePermission| #[trigger]
                            self.role_permissions@.contains(b) && b.role_id == a.role_id
                                && b.permission_id == id;
                        let m = choose|m: int|
                            0 <= m < self.role_permissions@.len() && self.role_permissions@[m] == b;
                        assert(self.role_permissions@[m].role_id == a.role_id);
                    }
                }
            }
            i = i + 1;
        }
        assert forall|id: i32| #[trigger]
            self.effective_permission_ids(user_id).contains(id) implies has_id(result@, id) by {
            let r = choose|r: i32|
                holds_role(self.user_roles@, user_id, r) && #[trigger] grants(
                    self.role_permissions@,
                    r,
                    id,
                );
            let a = choose|a: UserRole| #[trigger]
                self.user_roles@.contains(a) && a.user_id == user_id && a.role_id == r;
            let k = choose|k: int| 0 <= k < self.user_roles@.len() && self.user_roles@[k] == a;
            assert(grants(self.role_permissions@, self.user_roles@[k].role_id, id));
        }
        result
    }

    /// Whether user `user_id` has, through its roles, a permission named
    /// `permission_name`.
    pub fn user_have_permission(&self, user_id: i32, permission_name: &String) -> (r: bool)
        requires
            self.wf(),
        ensures
            r == self.has_named_permission(user_id, permission_name@),
    {
        let perms = self.get_user_permissions(user_id);
        let mut i: usize = 0;
        while i < perms.len()
            invariant
                i <= perms@.len(),
                forall|k: int| 0 <= k < i ==> perms@[k].name@ != permission_name@,
                forall|p: Permission| #[trigger]
                    perms@.contains(p) ==> self.permissions@.contains(p)
                        && self.effective_permission_ids(user_id).contains(p.id),
            decreases perms.len() - i,
        {
            if perms[i].name == *permission_name {
                assert(perms@.contains(perms@[i as int]));
                return true;
            }
            i = i + 1;
        }
        assert(!self.has_named_permission(user_id, permission_name@)) by {
            if self.has_named_permission(user_id, permission_name@) {
                let p = choose|p: Permission|
                    #[trigger] self.permissions@.contains(p)
                        && self.effective_permission_ids(user_id).contains(p.id) && p.name@
                        == permission_name@;
                assert(has_id(perms@, p.id));
                let q = choose|q: int| 0 <= q < perms@.len() && #[trigger] perms@[q].id == p.id;
                assert(perms@.contains(perms@[q]));
                let x = perms@[q];
                assert(self.permissions@.contains(x));
                let i1 = choose|i1: int|
                    0 <= i1 < self.permissions@.len() && self.permissions@[i1] == x;
                let i2 = choose|i2: int|
                    0 <= i2 < self.permissions@.len() && self.permissions@[i2] == p;
                assert(permission_key()(self.permissions@[i1]) == permission_key()(
                    self.permissions@[i2],
                ));
            }
        }
        false
    }

    /// Gives role `role_id` to user `user_id`.
    pub fn assign_role(&mut self, user_id: i32, role_id: i32) -> (r: Result<(), AuthError>)
        requires
            old(self).wf(),
        ensures
            final(self).wf(),
            r == Err::<(), AuthError>(AuthError::NotFound) <==> !old(self).has_user(user_id)
                || !old(self).has_role(role_id),
            r == Err::<(), AuthError>(AuthError::Conflict) <==> old(self).has_user(user_id)
                && old(self).has_role(role_id) && holds_role(
                old(self).user_roles@,
                user_id,
                role_id,
            ),
            r == Err::<(), AuthError>(AuthError::StorageFailure) <==> old(self).has_user(user_id)
                && old(self).has_role(role_id) && !holds_role(
                old(self).user_roles@,
                user_id,
                role_id,
            ) && old(self).next_id == i32::MAX,
            r is Ok <==> old(self).has_user(user_id) && old(self).has_role(role_id) && !holds_role(
                old(self).user_roles@,
                user_id,
                role_id,
            ) && old(self).next_id < i32::MAX,
            r is Err ==> *final(self) == *old(self),
            r is Ok ==> final(self).user_roles@ == old(self).user_roles@.push(
                UserRole { id: old(self).next_id, user_id, role_id },
            ) && final(self).next_id == old(self).next_id + 1,
            final(self).users == old(self).users,
            final(self).permissions == old(self).permissions,
            final(self).roles == old(self).roles,
            final(self).role_permissions == old(self).role_permissions,
            final(self).notifications == old(self).notifications,
    {
        if self.find_user(user_id).is_none() || self.find_role(role_id).is_none() {
            return Err(AuthError::NotFound);
        }
        let mut i: usize = 0;
        while i < self.user_roles.len()
            invariant
                *self == *old(self),
                self.wf(),
                self.has_user(user_id),
                self.has_role(role_id),
                i <= self.user_roles@.len(),
                forall|k: int|
                    0 <= k < i ==> !(self.user_roles@[k].user_id == user_id
                        && self.user_roles@[k].role_id == role_id),
            decreases self.user_roles.len() - i,
        {
            if self.user_roles[i].user_id == user_id && self.user_roles[i].role_id == role_id {
                assert(self.user_roles@.contains(self.user_roles@[i as int]));
                return Err(AuthError::Conflict);
            }
            i = i + 1;
        }
        assert(!holds_role(self.user_roles@, user_id, role_id)) by {
            if holds_role(self.user_roles@, user_id, role_id) {
                let a = choose|a: UserRole| #[trigger]
                    self.user_roles@.contains(a) && a.user_id == user_id && a.role_id == role_id;
                let k = choose|k: int| 0 <= k < self.user_roles@.len() && self.user_roles@[k] == a;
            }
        }
        let ghost pre = *self;
        let id = match self.allocate_id() {
            Ok(id) => id,
            Err(e) => {
                return Err(e);
            },
        };
        let row = UserRole { id, user_id, role_id };
        proof {
            lemma_push_unique(pre.user_roles@, row, user_role_key(), pre.next_id as int);
            crate::roles::lemma_keys_grow(pre);
        }
        self.user_roles.push(row);
        proof {
            assert forall|a: UserRole, b: UserRole|
                #![trigger self.user_roles@.contains(a), self.user_roles@.contains(b)]
                self.user_roles@.contains(a) && self.user_roles@.contains(b) && a.user_id
                    == b.user_id && a.role_id == b.role_id implies a.id == b.id by {
                if a != row {
                    assert(pre.user_roles@.contains(a));
                }
                if b != row {
                    assert(pre.user_roles@.contains(b));
                }
            }
            assert forall|a: UserRole| #[trigger]
                self.user_roles@.contains(a) implies self.has_user(a.user_id) && self.has_role(
                a.role_id,
            ) by {
                if a != row {
                    assert(pre.user_roles@.contains(a));
                }
                let u = choose|u: crate::entities::User| #[trigger]
                    pre.users@.contains(u) && u.id == a.user_id;
                assert(self.users@.contains(u));
                let q = choose|q: crate::entities::Role| #[trigger]
                    pre.roles@.contains(q) && q.id == a.role_id;
                assert(self.roles@.contains(q));
            }
        }
        Ok(())
    }

    /// Takes role `role_id` away from user `user_id`; true when the user held it.
    pub fn revoke_role(&mut self, user_id: i32, role_id: i32) -> (r: bool)
        requires
            old(self).wf(),
        ensures
            final(self).wf(),
            r == holds_role(old(self).user_roles@, user_id, role_id),
            final(self).user_roles@ == without_pair(old(self).user_roles@, user_id, role_id),
            final(self).users == old(self).users,
            final(self).permissions == old(self).permissions,
            final(self).roles == old(self).roles,
            final(self).role_permissions == old(self).role_permissions,
            final(self).notifications == old(self).notifications,
            final(self).next_id == old(self).next_id,
    {
        let ghost pre = *self;
        let ghost keep = pair_kept(user_id, role_id);
        let held = holds_pair(&self.user_roles, user_id, role_id);
        let keeps = |a: &UserRole| -> (b: bool)
            ensures
                b == !(a.user_id == user_id && a.role_id == role_id),
            { !(a.user_id == user_id && a.role_id == role_id) };
        crate::rows::retain_where(&mut self.user_roles, keeps, Ghost(keep));
        proof {
            assert(self.user_roles@ == without_pair(pre.user_roles@, user_id, role_id));
            lemma_filter_unique(pre.user_roles@, keep, user_role_key());
            assert forall|x: UserRole| #[trigger]
                self.user_roles@.contains(x) implies 0 < user_role_key()(x) < self.next_id by {
                pre.user_roles@.lemma_filter_contains_rev(keep, x);
            }
            assert forall|a: UserRole, b: UserRole|
                #![trigger self.user_roles@.contains(a), self.user_roles@.contains(b)]
                self.user_roles@.contains(a) && self.user_roles@.contains(b) && a.user_id
                    == b.user_id && a.role_id == b.role_id implies a.id == b.id by {
                pre.user_roles@.lemma_filter_contains_rev(keep, a);
                pre.user_roles@.lemma_filter_contains_rev(keep, b);
            }
            assert forall|a: UserRole| #[trigger]
                self.user_roles@.contains(a) implies self.has_user(a.user_id) && self.has_role(
                a.role_id,
            ) by {
                pre.user_roles@.lemma_filter_contains_rev(keep, a);
                let u = choose|u: crate::entities::User| #[trigger]
                    pre.users@.contains(u) && u.id == a.user_id;
                assert(self.users@.contains(u));
                let q = choose|q: crate::entities::Role| #[trigger]
                    pre.roles@.contains(q) && q.id == a.role_id;
                assert(self.roles@.contains(q));
            }
        }
        held
    }
}

/// Whether `ur` holds a row assigning `role_id` to `user_id`.
fn holds_pair(ur: &Vec<UserRole>, user_id: i32, role_id: i32) -> (r: bool)
    ensures
        r == holds_role(ur@, user_id, role_id),
{
    let mut i: usize = 0;
    while i < ur.len()
        invariant
            i <= ur@.len(),
            forall|k: int| 0 <= k < i ==> !(ur@[k].user_id == user_id && ur@[k].role_id == role_id),
        decreases ur.len() - i,
    {
        if ur[i].user_id == user_id && ur[i].role_id == role_id {
            assert(ur@.contains(ur@[i as int]));
            return true;
        }
        i = i + 1;
    }
    assert(!holds_role(ur@, user_id, role_id)) by {
        if holds_role(ur@, user_id, role_id) {
            let a = choose|a: UserRole| #[trigger]
                ur@.contains(a) && a.user_id == user_id && a.role_id == role_id;
            let k = choose|k: int| 0 <= k < ur@.len() && ur@[k] == a;
        }
    }
    false
}

/// Whether some element of `v` has id `id`.
pub fn contains_id(v: &Vec<Permission>, id: i32) -> (r: bool)
    ensures
        r == has_id(v@, id),
{
    let mut i: usize = 0;
    while i < v.len()
        invariant
            i <= v@.len(),
            forall|k: int| 0 <= k < i ==> v@[k].id != id,
        decreases v.len() - i,
    {
        if v[i].id == id {
            return true;
        }
        i = i + 1;
    }
    false
}

proof fn lemma_push_distinct(s: Seq<Permission>, p: Permission)
    requires
        unique_keys(s, permission_key()),
        forall|x: Permission| #[trigger] s.contains(x) ==> permission_key()(x) != permission_key()(p),
    ensures
        unique_keys(s.push(p), permission_key()),
{
    let t = s.push(p);
    assert forall|i: int, j: int|
        0 <= i < t.len() && 0 <= j < t.len() && i != j implies permission_key()(#[trigger] t[i])
        != permission_key()(#[trigger] t[j]) by {
        if i < s.len() {
            assert(s.contains(s[i]));
        }
        if j < s.len() {
            assert(s.contains(s[j]));
        }
    }
}

/// Granting a role the user did not hold and then revoking it leaves the
/// assignment rows, and so the user's effective permissions, as they were.
pub proof fn lemma_grant_then_revoke(
    ur: Seq<UserRole>,
    rp: Seq<RolePermission>,
    row_id: i32,
    u: i32,
    r: i32,
)
    requires
        !holds_role(ur, u, r),
    ensures
        without_pair(ur.push(UserRole { id: row_id, user_id: u, role_id: r }), u, r) == ur,
        effective_ids(
            without_pair(ur.push(UserRole { id: row_id, user_id: u, role_id: r }), u, r),
            rp,
            u,
        ) == effective_ids(ur, rp, u),
{
    let keep = pair_kept(u, r);
    ur.lemma_filter_push(UserRole { id: row_id, user_id: u, role_id: r }, keep);
    assert forall|k: int| 0 <= k < ur.len() implies keep(#[trigger] ur[k]) by {
        assert(ur.contains(ur[k]));
    }
    lemma_filter_all(ur, keep);
}

/// Filtering by a predicate every element meets changes nothing.
pub proof fn lemma_filter_all<A>(s: Seq<A>, pred: spec_fn(A) -> bool)
    requires
        forall|k: int| 0 <= k < s.len() ==> pred(#[trigger] s[k]),
    ensures
        s.filter(pred) == s,
    decreases s.len(),
{
    reveal(Seq::filter);
    if s.len() > 0 {
        let rest = s.drop_last();
        assert forall|k: int| 0 <= k < rest.len() implies pred(#[trigger] rest[k]) by {
            assert(rest[k] == s[k]);
        }
        lemma_filter_all(rest, pred);
        assert(pred(s[s.len() - 1]));
        assert(rest.push(s.last()) =~= s);
    }
}

} // verus!
