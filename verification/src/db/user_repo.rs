//! The rules the user repository applies: logging in and keeping at least
//! one administrator.

use crate::auth::{argon2_verifies, phc_parses, verify_password, AuthError};
use crate::db::models::User;
use crate::db::RepoError;
use vstd::prelude::*;

verus! {

/// Logs a user in: the password is checked against the user's stored
/// Argon2 hash. Gives the user back when it matches; fails when the stored
/// hash is unreadable or the password is wrong.
pub fn authenticate(user: User, password: &str) -> (r: Result<User, AuthError>)
    ensures
        !phc_parses(user.password_hash@) ==> (r matches Err(AuthError::InvalidHashFormat(_))),
        phc_parses(user.password_hash@) && argon2_verifies(password@, user.password_hash@) ==> r
            == Ok::<User, AuthError>(user),
        phc_parses(user.password_hash@) && !argon2_verifies(password@, user.password_hash@) ==> (r matches Err(
            AuthError::InvalidPassword { username },
        ) && username@ == user.username@),
{
    match verify_password(password, user.password_hash.as_str()) {
        Err(e) => Err(e),
        Ok(true) => Ok(user),
        Ok(false) => Err(AuthError::InvalidPassword { username: user.username.clone() }),
    }
}

/// A user may be deleted only while more than one user exists.
pub fn check_user_deletable(user_count: i64) -> (r: Result<(), RepoError>)
    ensures
        user_count > 1 <==> r is Ok,
        user_count <= 1 ==> (r matches Err(RepoError::LastAdminUser)),
{
    if user_count <= 1 {
        Err(RepoError::LastAdminUser)
    } else {
        Ok(())
    }
}

/// A password change that touched no row names an unknown user.
pub fn require_user_updated(rows: usize, username: &str) -> (r: Result<(), RepoError>)
    ensures
        rows > 0 <==> r is Ok,
        rows == 0 ==> (r matches Err(RepoError::UserNotFound(u)) && u@ == username@),
{
    if rows == 0 {
        Err(RepoError::UserNotFound(username.to_owned()))
    } else {
        Ok(())
    }
}

/// Whether the database holds any user yet (it has been initialised).
pub fn has_users(user_count: i64) -> (any: bool)
    ensures
        any == (user_count > 0),
{
    user_count > 0
}

} // verus!
