//! Markers that choose how a color is edited.

use vstd::prelude::*;

verus! {

/// Edits a color as opaque RGB.
pub struct EguiProbeRgb<'a, T> {
    pub value: &'a mut T,
}

/// Edits a color as RGBA.
pub struct EguiProbeRgba<'a, T> {
    pub value: &'a mut T,
}

/// Edits a color as RGBA with premultiplied alpha.
pub struct EguiProbeRgbaPremultiplied<'a, T> {
    pub value: &'a mut T,
}

/// Edits a color as RGBA with unmultiplied alpha.
pub struct EguiProbeRgbaUnmultiplied<'a, T> {
    pub value: &'a mut T,
}

} // verus!
