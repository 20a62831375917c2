//! Password hashing (Argon2id) and the rules for new passwords.
//!
//! Reading passwords from the terminal is left to the caller.

use argon2::password_hash::rand_core::OsRng;
use argon2::password_hash::{PasswordHash, PasswordHasher, PasswordVerifier, SaltString};
use vstd::prelude::*;

verus! {

/// Whether `argon2::password_hash::PasswordHash::new` accepts a text as a
/// PHC-formatted password hash.
pub uninterp spec fn phc_parses(hash: Seq<char>) -> bool;

/// Whether Argon2 (default parameters), run on the password with the salt
/// and parameters a PHC hash carries, gives back that hash's output
/// (`PasswordVerifier::verify_password` succeeding).
pub uninterp spec fn argon2_verifies(password: Seq<char>, hash: Seq<char>) -> bool;

/// Hashes a password with `Argon2::default()` (Argon2id) under a salt
/// drawn from the operating system's random source, and writes the PHC
/// string (`PasswordHasher::hash_password`). The hash depends on the random
/// salt, so only what holds of every outcome is stated: a hash that comes
/// back parses as PHC and verifies against the same password (verification
/// recomputes the hash with the salt and parameters the string carries).
/// With the default parameters and the generated 16-byte salt, hashing
/// fails only for a password longer than `argon2::MAX_PWD_LEN`
/// (0xFFFF_FFFF bytes). Failures carry the crate's error message.
#[verifier::external_body]
fn argon2_hash(password: &str) -> (r: Result<String, String>)
    ensures
        r matches Ok(h) ==> phc_parses(h@) && argon2_verifies(password@, h@),
        vstd::utf8::encode_utf8(password@).len() <= 0xFFFF_FFFF ==> r is Ok,
{
    let salt = SaltString::generate(&mut OsRng);
    match argon2::Argon2::default().hash_password(password.as_bytes(), &salt) {
        Ok(h) => Ok(h.to_string()),
        Err(e) => Err(e.to_string()),
    }
}

/// Reads a PHC hash (`PasswordHash::new`) and checks the password against
/// it with `Argon2::default()` (`PasswordVerifier::verify_password`). An
/// unreadable hash fails with the crate's error message; otherwise the
/// answer is whether the password verifies.
#[verifier::external_body]
fn argon2_verify(password: &str, hash: &str) -> (r: Result<bool, String>)
    ensures
        r is Ok <==> phc_parses(hash@),
        r matches Ok(ok) ==> ok == argon2_verifies(password@, hash@),
{
    match PasswordHash::new(hash) {
        Ok(parsed) => Ok(argon2::Argon2::default().verify_password(password.as_bytes(), &parsed).is_ok()),
        Err(e) => Err(e.to_string()),
    }
}

/// Why a password operation failed.
#[derive(Debug)]
pub enum AuthError {
    /// Hashing failed; the hashing library's message is kept.
    HashFailed(String),
    /// The stored hash is not a PHC string; the parser's message is kept.
    InvalidHashFormat(String),
    /// The password does not match the user's stored hash.
    InvalidPassword { username: String },
}

/// Hashes a password with Argon2id under a random salt and returns the
/// PHC-formatted hash (algorithm, parameters, salt and output). A hash that
/// comes back always verifies against the same password; hashing succeeds
/// for every password of at most 0xFFFF_FFFF bytes.
pub fn hash_password(password: &str) -> (r: Result<String, AuthError>)
    ensures
        r matches Ok(h) ==> phc_parses(h@) && argon2_verifies(password@, h@),
        vstd::utf8::encode_utf8(password@).len() <= 0xFFFF_FFFF ==> r is Ok,
        r is Err ==> r matches Err(AuthError::HashFailed(_)),
{
    match argon2_hash(password) {
        Ok(h) => Ok(h),
        Err(e) => Err(AuthError::HashFailed(e)),
    }
}

/// Checks a password against a stored Argon2 hash: fails when the hash is
/// not a PHC string, otherwise answers whether the password matches.
pub fn verify_password(password: &str, hash: &str) -> (r: Result<bool, AuthError>)
    ensures
        r is Ok <==> phc_parses(hash@),
        r matches Ok(ok) ==> ok == argon2_verifies(password@, hash@),
        r is Err ==> r matches Err(AuthError::InvalidHashFormat(_)),
{
    match argon2_verify(password, hash) {
        Ok(ok) => Ok(ok),
        Err(e) => Err(AuthError::InvalidHashFormat(e)),
    }
}

/// The shortest password accepted, in bytes of UTF-8.
pub const MIN_PASSWORD_BYTES: usize = 8;

/// A new password must be at least 8 bytes long (in UTF-8).
pub fn password_long_enough(password: &str) -> (ok: bool)
    ensures
        ok == (password.len() >= 8),
{
    password.len() >= MIN_PASSWORD_BYTES
}

/// The confirmation of a new password must repeat it exactly.
pub fn confirmation_matches(password: &str, confirm: &str) -> (ok: bool)
    ensures
        ok == (password@ == confirm@),
{
    crate::text::str_eq(password, confirm)
}

} // verus!
