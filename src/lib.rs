//! Authorization core of a small content site: users, roles, permissions,
//! sessions, credential hashing and account notifications, over an
//! in-memory relational store whose invariants are proved.

pub mod entities;
pub mod rows;
pub mod store;
pub mod rbac;
pub mod roles;
pub mod credentials;
pub mod clock;
pub mod session;
pub mod notifications;
pub mod users;
