//! Failures reported by the reconstruction stages.
use vstd::prelude::*;

verus! {

/// Why a stage refused its input.  Every stage checks its input before it
/// writes anything, so a failed call leaves its destination untouched.
#[derive(Clone, Copy, Debug, PartialEq, Eq, Structural)]
pub enum Error {
    /// A combination of options that the format does not define, such as
    /// adaptive smoothing of subsampled low-frequency planes.
    UnsupportedConfiguration,
    /// A plane or a region does not have the dimensions that the operation
    /// expects.
    ShapeMismatch,
    /// A decoded value lies outside the range the format defines.
    InvalidCoefficient,
}

} // verus!
