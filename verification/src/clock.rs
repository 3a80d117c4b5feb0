//! The clock by which chunks are stamped.

use vstd::prelude::*;

verus! {

/// `time::precise_time_ns`: the current value of a high-resolution counter,
/// in nanoseconds since an epoch that is not specified. Nothing is claimed of
/// the value.
#[verifier::external_body]
pub(crate) fn precise_time_ns() -> u64 {
    time::precise_time_ns()
}

} // verus!
