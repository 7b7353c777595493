//! Probing widgets: an editable tree view of a value, with per-node state that
//! survives from frame to frame, a label column aligned over the whole tree, and
//! the rules by which collection, option and enum editors change the value.
//!
//! Lengths are carried as integers in thousandths of a point, and animated
//! openness as a per-mille value in `0..=1000`.

use vstd::prelude::*;

pub mod collections;
pub mod color;
pub mod codegen;
pub mod map;
pub mod num;
pub mod option;
pub mod text;
pub mod widget;

pub use collections::{element_label, remove_deleted, DeleteMe, EguiProbeFrozen};
pub use color::{EguiProbeRgb, EguiProbeRgba, EguiProbeRgbaPremultiplied, EguiProbeRgbaUnmultiplied};
pub use map::{HashMapProbe, HashMapProbeState};
pub use num::{EguiProbeRange, StepUnset};
pub use option::{option_probe_with, select_variant, EguiProbeDefault};
pub use text::{CharBuffer, EguiProbeMultiline};
pub use widget::{HeaderState, LayoutState, NodeId, ProbeHeader, ProbeLayout, ProbeStore};

verus! {

/// How a boolean is edited.
#[derive(Clone, Copy, Debug, PartialEq, Eq, Structural)]
pub enum BooleanStyle {
    Checkbox,
    ToggleSwitch,
}

impl Default for BooleanStyle {
    fn default() -> (r: Self)
        ensures
            r == BooleanStyle::Checkbox,
    {
        BooleanStyle::Checkbox
    }
}

/// How the variant of an enum is chosen.
#[derive(Clone, Copy, Debug, PartialEq, Eq, Structural)]
pub enum VariantsStyle {
    /// Every variant has a selector button, always visible.
    Inlined,
    /// A drop-down that shows the active variant's name.
    ComboBox,
}

impl Default for VariantsStyle {
    fn default() -> (r: Self)
        ensures
            r == VariantsStyle::ComboBox,
    {
        VariantsStyle::ComboBox
    }
}

/// Controls the style of the probing UI.
#[derive(Clone, Copy, Debug, PartialEq, Eq, Structural)]
pub struct Style {
    pub boolean: BooleanStyle,
    pub variants: VariantsStyle,
    /// Width of one indentation step, in thousandths of a point.
    pub field_indent_size: Option<u32>,
    pub add_button_char: Option<char>,
    pub remove_button_char: Option<char>,
}

impl Default for Style {
    fn default() -> (r: Self)
        ensures
            r.boolean == BooleanStyle::Checkbox,
            r.variants == VariantsStyle::ComboBox,
            r.field_indent_size is None,
            r.add_button_char is None,
            r.remove_button_char is None,
    {
        Style {
            boolean: BooleanStyle::default(),
            variants: VariantsStyle::default(),
            field_indent_size: None,
            add_button_char: None,
            remove_button_char: None,
        }
    }
}

/// The character shown on a button: the configured one, else the fallback.
pub open spec fn button_char(configured: Option<char>, fallback: char) -> char {
    match configured {
        Some(c) => c,
        None => fallback,
    }
}

/// Relies on `ToString` for `char`: the string holds that one character.
#[verifier::external_body]
fn char_string(c: char) -> (r: String)
    ensures
        r@ == seq![c],
{
    c.to_string()
}

impl Style {
    /// Text of the button that adds an element to a collection.
    pub fn add_button_text(&self) -> (r: String)
        ensures
            r@ == seq![button_char(self.add_button_char, '+')],
    {
        let c = match self.add_button_char {
            Some(c) => c,
            None => '+',
        };
        char_string(c)
    }

    /// Text of the button that removes an element from a collection.
    pub fn remove_button_text(&self) -> (r: String)
        ensures
            r@ == seq![button_char(self.remove_button_char, '-')],
    {
        let c = match self.remove_button_char {
            Some(c) => c,
            None => '-',
        };
        char_string(c)
    }
}

/// A value whose editor is drawn by a function.
pub struct EguiProbeFn<F>(pub F);

/// Wraps a function into a probe-able value.
pub fn probe_fn<F>(f: F) -> (r: EguiProbeFn<F>)
    ensures
        r.0 == f,
{
    EguiProbeFn(f)
}

} // verus!
