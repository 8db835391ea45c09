//! The access gate: who may read the statistics of a record.
//!
//! A record without a password digest is open to everyone. A record with
//! one is open to a caller whose credential the digest matches, and closed
//! to a caller without a credential. Each decision stands alone: nothing is
//! counted or remembered.

use crate::digest::{digest_matches, verify_hash};
use crate::error::Error;
use crate::record::{Target, TargetView};
use vstd::prelude::*;

verus! {

/// A supplied credential as contracts see it.
pub open spec fn credential_view(pw: Option<&String>) -> Option<Seq<char>> {
    match pw {
        Some(text) => Some(text@),
        None => None,
    }
}

/// Whether a credential opens a record.
pub open spec fn authorized(record: TargetView, credential: Option<Seq<char>>) -> bool {
    match record.pw_hash {
        None => true,
        Some(stored) => match credential {
            Some(secret) => digest_matches(stored, secret),
            None => false,
        },
    }
}

/// Decides whether the caller may read the statistics of `target`.
pub fn ensure_authed(pw: Option<&String>, target: &Target) -> (ok: bool)
    ensures
        ok == authorized(target@, credential_view(pw)),
{
    match &target.pw_hash {
        None => true,
        Some(stored) => match pw {
            Some(secret) => verify_hash(stored.as_str(), secret.as_str()),
            None => false,
        },
    }
}

/// The access decision as an outcome: an authorization failure where the
/// caller may not read the statistics.
pub open spec fn access_outcome(
    record: TargetView,
    credential: Option<Seq<char>>,
) -> Result<(), Error> {
    if authorized(record, credential) {
        Ok(())
    } else {
        Err(Error::Auth)
    }
}

/// Lets the caller through to the statistics of `target`, or fails with an
/// authorization failure.
pub fn check_access(pw: Option<&String>, target: &Target) -> (outcome: Result<(), Error>)
    ensures
        outcome == access_outcome(target@, credential_view(pw)),
{
    if ensure_authed(pw, target) {
        Ok(())
    } else {
        Err(Error::Auth)
    }
}

} // verus!
