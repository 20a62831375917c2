//! Database records and the rules the repositories apply to them.
//!
//! Opening the encrypted database and running queries is left to the
//! caller; this module holds what is decided about the records.

pub mod models;
pub mod port_repo;
pub mod prefix_repo;
pub mod user_repo;

use vstd::prelude::*;

verus! {

/// Overwrites a string's bytes with zeros and empties it
/// (`zeroize::Zeroize::zeroize` on a `String`, which zeroes the buffer and
/// its spare capacity, then clears it).
#[verifier::external_body]
fn zeroize_string(s: &mut String)
    ensures
        final(s)@.len() == 0,
{
    zeroize::Zeroize::zeroize(s);
}

/// Wipes a key from memory once it is no longer needed: its bytes are
/// overwritten with zeros and the string is left empty.
pub fn zeroize_key(key: &mut String)
    ensures
        final(key)@.len() == 0,
{
    zeroize_string(key);
}

/// The kinds of records the repositories manage.
#[derive(Clone, Copy, Debug, PartialEq, Eq, Structural)]
pub enum Record {
    Port,
    Prefix,
    User,
}

/// Why a repository operation was refused.
#[derive(Debug)]
pub enum RepoError {
    /// No record of that kind has that id.
    NotFound { record: Record, id: i64 },
    /// No user has that name.
    UserNotFound(String),
    /// The last administrator cannot be deleted.
    LastAdminUser,
}

/// An update or delete that touched no row names a record that does not
/// exist.
pub fn require_found(rows: usize, record: Record, id: i64) -> (r: Result<(), RepoError>)
    ensures
        rows > 0 <==> r is Ok,
        rows == 0 ==> (r matches Err(RepoError::NotFound { record: k, id: i }) && k == record && i == id),
{
    if rows == 0 {
        Err(RepoError::NotFound { record, id })
    } else {
        Ok(())
    }
}

} // verus!
