use vstd::prelude::*;

verus! {

/// The kinds of failure an operation of this library can report.
#[derive(Clone, Copy, Debug, PartialEq, Eq, Structural)]
pub enum AuthError {
    /// The entity addressed does not exist.
    NotFound,
    /// A uniqueness rule would be broken (duplicate email, role name, ...).
    Conflict,
    /// No session identifies the caller.
    Unauthenticated,
    /// The caller is known but lacks the required permission.
    Unauthorized,
    /// The input is malformed (an empty required field, ...).
    ValidationFailed,
    /// The store refused a step; nothing of the operation was kept.
    StorageFailure,
    /// The credential hasher could not evaluate the request.
    HashingFailure,
}

/// The message shown to a caller for each kind of failure.
pub open spec fn error_message(e: AuthError) -> Seq<char> {
    match e {
        AuthError::NotFound => "not found"@,
        AuthError::Conflict => "already exists"@,
        AuthError::Unauthenticated => "invalid credentials"@,
        AuthError::Unauthorized => "not permitted"@,
        AuthError::ValidationFailed => "invalid input"@,
        AuthError::StorageFailure => "storage failure, try again later"@,
        AuthError::HashingFailure => "credential check failed"@,
    }
}

impl AuthError {
    /// The message shown to a caller: authentication and authorization
    /// failures stay generic so that they reveal nothing about accounts.
    pub fn message(&self) -> (r: String)
        ensures
            r@ == error_message(*self),
    {
        match self {
            AuthError::NotFound => String::from_str("not found"),
            AuthError::Conflict => String::from_str("already exists"),
            AuthError::Unauthenticated => String::from_str("invalid credentials"),
            AuthError::Unauthorized => String::from_str("not permitted"),
            AuthError::ValidationFailed => String::from_str("invalid input"),
            AuthError::StorageFailure => String::from_str("storage failure, try again later"),
            AuthError::HashingFailure => String::from_str("credential check failed"),
        }
    }
}

/// A user account. `password` holds the credential digest, never plaintext.
#[derive(Clone, Debug)]
pub struct User {
    pub id: i32,
    pub username: String,
    pub email: String,
    pub password: String,
    /// Seconds since the Unix epoch.
    pub created_at: i64,
    /// Seconds since the Unix epoch.
    pub updated_at: i64,
}

/// An entry of the permission catalog.
#[derive(Clone, Debug)]
pub struct Permission {
    pub id: i32,
    pub name: String,
    pub description: Option<String>,
}

/// A named group of permissions that can be granted to users.
#[derive(Clone, Debug)]
pub struct Role {
    pub id: i32,
    pub name: String,
    pub description: Option<String>,
}

/// Association row: `role_id` grants `permission_id`.
#[derive(Clone, Copy, Debug, PartialEq, Eq, Structural)]
pub struct RolePermission {
    pub id: i32,
    pub role_id: i32,
    pub permission_id: i32,
}

/// Association row: `user_id` holds `role_id`.
#[derive(Clone, Copy, Debug, PartialEq, Eq, Structural)]
pub struct UserRole {
    pub id: i32,
    pub user_id: i32,
    pub role_id: i32,
}

/// A message addressed to one user.
#[derive(Clone, Debug)]
pub struct Notification {
    pub id: i32,
    pub title: String,
    pub description: Option<String>,
    pub recipient_id: i32,
    pub read: bool,
    /// Seconds since the Unix epoch.
    pub created_at: i64,
}

/// A role together with the catalog entries it grants.
#[derive(Clone, Debug)]
pub struct RoleWithPermissions {
    pub role: Role,
    pub permissions: Vec<Permission>,
}

pub open spec fn opt_string_view(s: Option<String>) -> Option<Seq<char>> {
    match s {
        Some(t) => Some(t@),
        None => None,
    }
}

/// A copy of an optional string, equal to the original.
pub fn copy_opt_string(s: &Option<String>) -> (r: Option<String>)
    ensures
        r == *s,
{
    match s {
        Some(t) => Some(t.clone()),
        None => None,
    }
}

impl User {
    pub fn copied(&self) -> (r: User)
        ensures
            r == *self,
    {
        User {
            id: self.id,
            username: self.username.clone(),
            email: self.email.clone(),
            password: self.password.clone(),
            created_at: self.created_at,
            updated_at: self.updated_at,
        }
    }
}

impl Permission {
    pub fn copied(&self) -> (r: Permission)
        ensures
            r == *self,
    {
        Permission { id: self.id, name: self.name.clone(), description: copy_opt_string(&self.description) }
    }
}

impl Role {
    pub fn copied(&self) -> (r: Role)
        ensures
            r == *self,
    {
        Role { id: self.id, name: self.name.clone(), description: copy_opt_string(&self.description) }
    }
}

impl Notification {
    pub fn copied(&self) -> (r: Notification)
        ensures
            r == *self,
    {
        Notification {
            id: self.id,
            title: self.title.clone(),
            description: copy_opt_string(&self.description),
            recipient_id: self.recipient_id,
            read: self.read,
            created_at: self.created_at,
        }
    }
}

} // verus!
