//! The wall clock port of the classifier.
use vstd::prelude::*;

use crate::error::RouteReject;

verus! {

/// The classifier's wall clock port.
///
/// The host should use the same reliable time source as the ingress verifier; any failed
/// read must fail closed.
pub trait ClassifierClock {
    /// Returns Unix milliseconds.
    fn now_millis(&self) -> Result<u64, RouteReject>;
}

} // verus!
