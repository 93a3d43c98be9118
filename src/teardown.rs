//! Reclaiming what a scope owns: elastic addresses first, then instances in
//! one batch, then security groups, placement groups and key pairs.
use vstd::prelude::*;

verus! {

/// The error code of a request that the credentials are not allowed to make.
pub const UNAUTHORIZED_OPERATION: &'static str = "UnauthorizedOperation";

/// What a failed key pair deletion means for the rest of the sweep.
#[derive(Clone, Copy, PartialEq, Eq, Debug)]
pub enum KeypairFailure {
    /// The permission is missing: every other deletion would fail too, so
    /// the remaining key pairs are skipped.
    SkipRemaining,
    /// Any other failure ends the whole teardown.
    Fatal,
}

/// Classifies a failed key pair deletion by its error code.
pub fn keypair_failure(code: &Option<String>) -> (r: KeypairFailure)
    ensures
        r == if code.is_some() && code.unwrap()@ == UNAUTHORIZED_OPERATION@ {
            KeypairFailure::SkipRemaining
        } else {
            KeypairFailure::Fatal
        },
{
    let unauthorized = String::from_str(UNAUTHORIZED_OPERATION);
    match code {
        Some(c) => {
            if *c == unauthorized {
                KeypairFailure::SkipRemaining
            } else {
                KeypairFailure::Fatal
            }
        },
        None => KeypairFailure::Fatal,
    }
}

/// The batch of instances to terminate: all owned ones in one call, and no
/// call when there are none.
pub fn termination_batch(owned: Vec<String>) -> (r: Option<Vec<String>>)
    ensures
        owned@.len() == 0 ==> r.is_none(),
        owned@.len() > 0 ==> r == Some(owned),
{
    if owned.len() == 0 {
        None
    } else {
        Some(owned)
    }
}

} // verus!
