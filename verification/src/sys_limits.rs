//! The file-descriptor limit a scan needs, and what to do about the
//! process's current limit.
//!
//! Reading and setting the limit (`getrlimit` / `setrlimit`) is left to the
//! caller, which hands over what it read and carries out the action.

use vstd::prelude::*;

verus! {

/// Descriptors kept free beyond one per concurrent probe, for the standard
/// streams, the database and libraries.
pub const FD_HEADROOM: u64 = 64;

/// The process's open-file limits.
#[derive(Clone, Copy, Debug, PartialEq, Eq, Structural)]
pub struct FdLimits {
    pub soft: u64,
    pub hard: u64,
}

/// What reading the process's open-file limits gave.
#[derive(Clone, Copy, Debug, PartialEq, Eq, Structural)]
pub enum FdLimitQuery {
    /// The platform has no such limits to adjust.
    Unsupported,
    /// Reading the limits failed.
    Failed,
    /// The current limits.
    Current(FdLimits),
}

/// What to do about the limits.
#[derive(Clone, Copy, Debug, PartialEq, Eq, Structural)]
pub enum FdLimitAction {
    /// Nothing needs doing.
    Keep,
    /// Raise the soft limit to `target` (the hard limit stays); `needed`
    /// descriptors are wanted.
    Raise { needed: u64, target: u64 },
    /// The soft limit is enough but the hard limit is below what is
    /// wanted: warn.
    WarnHardLimit { needed: u64 },
}

/// Why the limits could not be examined.
#[derive(Clone, Copy, Debug, PartialEq, Eq, Structural)]
pub enum FdLimitError {
    /// Reading the limits (`getrlimit`) failed.
    QueryFailed,
}

/// Descriptors wanted for `concurrency` probes in flight.
pub open spec fn needed_fds(concurrency: nat) -> nat {
    concurrency + 64
}

/// The plan for bringing the open-file limit up to `concurrency` probes
/// plus headroom: raise a soft limit that is too low (up to the hard limit
/// at most), warn when only the hard limit is too low, and do nothing where
/// there are no limits to adjust.
pub open spec fn fd_limit_plan(concurrency: nat, query: FdLimitQuery) -> Result<FdLimitAction, FdLimitError> {
    match query {
        FdLimitQuery::Unsupported => Ok(FdLimitAction::Keep),
        FdLimitQuery::Failed => Err(FdLimitError::QueryFailed),
        FdLimitQuery::Current(l) => {
            let needed = needed_fds(concurrency);
            if l.soft < needed {
                Ok(FdLimitAction::Raise {
                    needed: needed as u64,
                    target: if needed <= l.hard { needed as u64 } else { l.hard },
                })
            } else if needed > l.hard {
                Ok(FdLimitAction::WarnHardLimit { needed: needed as u64 })
            } else {
                Ok(FdLimitAction::Keep)
            }
        },
    }
}

/// Decides what to do about the open-file limit for the requested
/// concurrency (see [`fd_limit_plan`]).
pub fn try_raise_fd_limit(required_concurrency: usize, query: FdLimitQuery) -> (r: Result<FdLimitAction, FdLimitError>)
    requires
        required_concurrency + 64 <= u64::MAX,
    ensures
        r == fd_limit_plan(required_concurrency as nat, query),
{
    match query {
        FdLimitQuery::Unsupported => Ok(FdLimitAction::Keep),
        FdLimitQuery::Failed => Err(FdLimitError::QueryFailed),
        FdLimitQuery::Current(l) => {
            let needed: u64 = required_concurrency as u64 + FD_HEADROOM;
            if l.soft < needed {
                let target = if needed <= l.hard { needed } else { l.hard };
                Ok(FdLimitAction::Raise { needed, target })
            } else if needed > l.hard {
                Ok(FdLimitAction::WarnHardLimit { needed })
            } else {
                Ok(FdLimitAction::Keep)
            }
        },
    }
}

/// A planned raise never goes above the hard limit nor above what is
/// needed, and (the soft limit being at most the hard limit) never lowers
/// the soft limit; after the plan is carried out, the soft limit covers
/// the need whenever the hard limit allows it.
pub proof fn lemma_raise_within_limits(concurrency: nat, l: FdLimits)
    requires
        concurrency + 64 <= u64::MAX,
        l.soft <= l.hard,
    ensures
        fd_limit_plan(concurrency, FdLimitQuery::Current(l)) matches Ok(FdLimitAction::Raise { needed, target }) ==> {
            &&& needed == needed_fds(concurrency)
            &&& l.soft <= target <= l.hard
            &&& target <= needed
            &&& (needed <= l.hard ==> target == needed)
        },
        fd_limit_plan(concurrency, FdLimitQuery::Current(l)) is Ok,
{
}

impl FdLimitError {
    /// The message that reports this failure.
    pub fn message(&self) -> (m: String)
        ensures
            m@ == "Failed to retrieve file descriptor limits (getrlimit)"@,
    {
        String::from_str("Failed to retrieve file descriptor limits (getrlimit)")
    }
}

} // verus!
