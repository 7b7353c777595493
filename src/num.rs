//! Numbers edited within a range.

use vstd::prelude::*;

verus! {

/// Marks a range whose drag step is not set.
#[derive(Clone, Copy, Debug, PartialEq, Eq, Structural)]
pub struct StepUnset;

/// A value bundled with the range it is edited in and the drag step.
pub struct EguiProbeRange<'a, T, R, S = StepUnset> {
    pub value: &'a mut T,
    pub range: R,
    pub step: S,
}

} // verus!
