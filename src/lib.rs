//! A background market-data pipeline: a retry policy around an upstream
//! fetch, a fixed-interval heartbeat that publishes each fresh snapshot,
//! and a single-slot store that readers query for the latest value.
//!
//! Every decision is a verified function from state and event to the next
//! state and an action; the host runs the actions (fetching, sleeping,
//! broadcasting) and feeds the outcomes back.

use vstd::prelude::*;

pub mod error;
pub mod retry;
pub mod scheduler;
pub mod sequence;
pub mod snapshot;
pub mod store;

verus! {

} // verus!
