//! Optional values, edited with a two-state selector, and enum variants, which
//! are switched by their selector buttons.

use vstd::prelude::*;

verus! {

/// Whether the value is present after the selector was drawn: a click on
/// "Some" makes it present, one on "None" absent, and "Some" wins when both
/// were clicked in one frame.
pub open spec fn selected_present(was_present: bool, none_clicked: bool, some_clicked: bool) -> bool {
    if some_clicked {
        true
    } else if none_clicked {
        false
    } else {
        was_present
    }
}

/// Applies the "None" / "Some" selector of an optional value. Switching to
/// "Some" puts in the value that `default` makes; switching to "None" drops
/// the value. Reports whether the value changed.
pub fn option_probe_with<T, F: FnOnce() -> T>(
    value: &mut Option<T>,
    none_clicked: bool,
    some_clicked: bool,
    default: F,
) -> (changed: bool)
    requires
        default.requires(()),
    ensures
        changed == (selected_present((*old(value)) is Some, none_clicked, some_clicked)
            != (*old(value)) is Some),
        !changed ==> *final(value) == *old(value),
        changed && (*old(value)) is Some ==> (*final(value)) is None,
        changed && (*old(value)) is None ==> (*final(value)) is Some && default.ensures(
            (),
            (*final(value))->Some_0,
        ),
{
    let mut checked = value.is_some();
    if none_clicked {
        checked = false;
    }
    if some_clicked {
        checked = true;
    }
    if checked && value.is_none() {
        *value = Some(default());
        true
    } else if !checked && value.is_some() {
        *value = None;
        true
    } else {
        false
    }
}

/// An optional value whose "Some" state starts from a given value.
pub struct EguiProbeDefault<'a, T> {
    pub value: &'a mut Option<T>,
    pub default: T,
}

/// The value after the selector button of a variant was drawn: a click on a
/// variant that is not the active one replaces the value by that variant's
/// default payload; a click on the active one changes nothing.
pub open spec fn value_after_select<T>(current: T, active: bool, clicked: bool, fresh: T) -> T {
    if clicked && !active {
        fresh
    } else {
        current
    }
}

/// Applies the selector button of one variant. `active` says whether the
/// value is on that variant, `fresh` is the variant with its default payload.
/// Reports whether the value changed.
pub fn select_variant<T>(value: &mut T, active: bool, clicked: bool, fresh: T) -> (changed: bool)
    ensures
        changed == (clicked && !active),
        *final(value) == value_after_select(*old(value), active, clicked, fresh),
{
    if clicked && !active {
        *value = fresh;
        true
    } else {
        false
    }
}

/// Choosing another variant discards the payload edited on the current one:
/// whatever two values of the current variant held, the switch yields the
/// same value, the chosen variant's default payload.
pub proof fn lemma_variant_switch_resets_payload<T>(edited: T, untouched: T, fresh: T)
    ensures
        value_after_select(edited, false, true, fresh) == fresh,
        value_after_select(edited, false, true, fresh) == value_after_select(
            untouched,
            false,
            true,
            fresh,
        ),
{
}

} // verus!
