//! The credential hasher: argon2 keyed with the server secret, a fresh salt
//! per digest, the salt embedded in the digest string.
use argon2::{PasswordHasher, PasswordVerifier};
use vstd::prelude::*;
use crate::entities::AuthError;

verus! {

/// Longest secret or password, in characters, that argon2 is sure to accept:
/// it refuses inputs over 0xFFFFFFFF bytes, and a character takes at most
/// four bytes.
pub const MAX_CREDENTIAL_CHARS: usize = 0x3FFFFFFF;

/// What argon2, keyed with `secret`, reports when checking `password`
/// against the digest string `digest`: `Some(true)` on a match, `Some(false)`
/// on a mismatch (also for a digest that parses but carries no salt or no
/// hash part), `None` when the check cannot be evaluated (malformed digest,
/// unusable parameters or secret).
pub uninterp spec fn argon2_outcome(secret: Seq<char>, password: Seq<char>, digest: Seq<char>) -> Option<
    bool,
>;

/// Relies on argon2's `Argon2::new_with_secret` (default algorithm, version
/// and parameters), `SaltString::generate` over the OS random source (which
/// panics only if the operating system cannot supply randomness) and
/// `PasswordHasher::hash_password`: a non-empty PHC digest string which,
/// checked with the same secret and password, matches. With the generated
/// salt and default parameters, only an over-long secret or password fails.
#[verifier::external_body]
fn argon2_hash(secret: &str, password: &str) -> (r: Option<String>)
    ensures
        secret@.len() <= MAX_CREDENTIAL_CHARS && password@.len() <= MAX_CREDENTIAL_CHARS ==> r is Some,
        r matches Some(d) ==> d@.len() > 0 && argon2_outcome(secret@, password@, d@) == Some(
            true,
        ),
{
    let salt = argon2::password_hash::SaltString::generate(&mut argon2::password_hash::rand_core::OsRng);
    let hasher = argon2::Argon2::new_with_secret(secret.as_bytes(), Default::default(), Default::default(), Default::default()).ok()?;
    match hasher.hash_password(password.as_bytes(), &salt) {
        Ok(h) => Some(h.to_string()),
        Err(_) => None,
    }
}

/// Relies on argon2's `Argon2::new_with_secret`, `PasswordHash::new` and
/// `PasswordVerifier::verify_password`, whose result depends on its
/// arguments alone: `Error::Password` is a mismatch, any other error an
/// evaluation failure.
#[verifier::external_body]
fn argon2_verify(secret: &str, password: &str, digest: &str) -> (r: Option<bool>)
    ensures
        r == argon2_outcome(secret@, password@, digest@),
{
    let hasher = argon2::Argon2::new_with_secret(secret.as_bytes(), Default::default(), Default::default(), Default::default()).ok()?;
    let parsed = argon2::PasswordHash::new(digest).ok()?;
    match hasher.verify_password(password.as_bytes(), &parsed) {
        Ok(()) => Some(true),
        Err(argon2::password_hash::Error::Password) => Some(false),
        Err(_) => None,
    }
}

/// The answer to a password check, given what the hasher reported.
pub open spec fn check_result(outcome: Option<bool>) -> Result<bool, AuthError> {
    match outcome {
        Some(b) => Ok(b),
        None => Err(AuthError::HashingFailure),
    }
}

/// The answer `verify_password` gives.
pub open spec fn verification_result(secret: Seq<char>, password: Seq<char>, digest: Seq<char>) -> Result<
    bool,
    AuthError,
> {
    check_result(argon2_outcome(secret, password, digest))
}

/// Turns what the hasher reported into the answer of a password check: a
/// match or mismatch, or a hashing failure, never confused with a mismatch.
pub fn interpret_check(outcome: Option<bool>) -> (r: Result<bool, AuthError>)
    ensures
        r == check_result(outcome),
{
    match outcome {
        Some(b) => Ok(b),
        None => Err(AuthError::HashingFailure),
    }
}

/// A fresh digest of `plaintext` keyed with `secret`. Whatever digest comes
/// back, checking `plaintext` against it with the same secret succeeds.
pub fn hash_password(secret: &str, plaintext: &str) -> (r: Result<String, AuthError>)
    ensures
        r matches Ok(d) ==> d@.len() > 0 && verification_result(secret@, plaintext@, d@) == Ok::<
            bool,
            AuthError,
        >(true),
        r is Err ==> r == Err::<String, AuthError>(AuthError::HashingFailure),
        secret@.len() <= MAX_CREDENTIAL_CHARS && plaintext@.len() <= MAX_CREDENTIAL_CHARS ==> r is Ok,
{
    match argon2_hash(secret, plaintext) {
        Some(d) => Ok(d),
        None => Err(AuthError::HashingFailure),
    }
}

/// Whether `plaintext` matches `digest` under `secret`.
pub fn verify_password(secret: &str, plaintext: &str, digest: &str) -> (r: Result<bool, AuthError>)
    ensures
        r == verification_result(secret@, plaintext@, digest@),
{
    interpret_check(argon2_verify(secret, plaintext, digest))
}

} // verus!
