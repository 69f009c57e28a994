//! The ways a fetch from the upstream provider can fail.

use vstd::prelude::*;

verus! {

/// A failed fetch.
#[derive(Debug)]
pub enum DataError {
    /// A transient transport failure, with its detail.
    Network(String),
    /// The provider asks the caller to slow down.
    RateLimited,
    /// Any other failure, with its detail.
    Unknown(String),
}

/// Whether a failure of this kind uses up one of the attempts a retry
/// sequence is allowed: rate limiting does not, every other failure does.
pub open spec fn spec_counts_against_budget(e: DataError) -> bool {
    !(e is RateLimited)
}

impl DataError {
    /// Whether this failure uses up one of the attempts of a retry sequence.
    pub fn counts_against_budget(&self) -> (r: bool)
        ensures
            r == spec_counts_against_budget(*self),
    {
        match self {
            DataError::RateLimited => false,
            _ => true,
        }
    }
}

impl Clone for DataError {
    fn clone(&self) -> (r: Self)
        ensures
            r == *self,
    {
        match self {
            DataError::Network(d) => DataError::Network(d.clone()),
            DataError::RateLimited => DataError::RateLimited,
            DataError::Unknown(d) => DataError::Unknown(d.clone()),
        }
    }
}

} // verus!
