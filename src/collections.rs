//! Growable and frozen sequences: element labels, and removal of the elements
//! whose remove button was pressed while they were drawn.

use vstd::prelude::*;

verus! {

/// An element drawn with a remove button beside its editor.
pub struct DeleteMe<'a, T> {
    pub value: &'a mut T,
    pub delete: bool,
}

impl<'a, T> DeleteMe<'a, T> {
    /// Reacts to the remove button: a click marks the element for removal.
    pub fn remove_clicked(&mut self, clicked: bool)
        ensures
            final(self).delete == (old(self).delete || clicked),
    {
        if clicked {
            self.delete = true;
        }
    }
}

/// A collection whose elements can be edited but not added or removed.
pub struct EguiProbeFrozen<'a, T> {
    pub value: &'a mut T,
}

/// The elements of `items` whose flag in `delete` is not set, in order.
pub open spec fn kept<T>(items: Seq<T>, delete: Seq<bool>) -> Seq<T>
    decreases items.len(),
{
    if items.len() == 0 {
        Seq::empty()
    } else if delete[items.len() - 1] {
        kept(items.drop_last(), delete.subrange(0, items.len() - 1))
    } else {
        kept(items.drop_last(), delete.subrange(0, items.len() - 1)).push(items.last())
    }
}

/// Removes the elements whose remove button was pressed: `delete[i]` says
/// whether the `i`-th element goes. The others keep their order.
pub fn remove_deleted<T>(items: &mut Vec<T>, delete: &Vec<bool>)
    requires
        delete@.len() == old(items)@.len(),
    ensures
        final(items)@ == kept(old(items)@, delete@),
{
    let ghost all = items@;
    let n = items.len();
    let mut out: Vec<T> = Vec::new();
    let mut i: usize = 0;
    while i < n
        invariant
            n == all.len(),
            n == delete@.len(),
            i <= n,
            items@ == all.subrange(i as int, n as int),
            out@ == kept(all.subrange(0, i as int), delete@.subrange(0, i as int)),
        decreases n - i,
    {
        let item = items.remove(0);
        assert(item == all[i as int]);
        let ghost prefix = all.subrange(0, i + 1);
        assert(prefix.drop_last() =~= all.subrange(0, i as int));
        assert(delete@.subrange(0, i + 1).subrange(0, i as int) =~= delete@.subrange(0, i as int));
        if !delete[i] {
            out.push(item);
        }
        assert(items@ =~= all.subrange(i + 1, n as int));
        i = i + 1;
    }
    assert(all.subrange(0, n as int) =~= all);
    assert(delete@.subrange(0, n as int) =~= delete@);
    *items = out;
}

/// The characters of the decimal digits.
pub open spec fn digit(d: nat) -> char {
    seq!['0', '1', '2', '3', '4', '5', '6', '7', '8', '9'][d as int]
}

/// Decimal notation of `n`, without leading zeros.
pub open spec fn decimal(n: nat) -> Seq<char>
    decreases n,
{
    if n < 10 {
        seq![digit(n)]
    } else {
        decimal(n / 10).push(digit(n % 10))
    }
}

/// Label of the element at `index` of a sequence: the index in brackets.
pub open spec fn index_label_text(index: nat) -> Seq<char> {
    seq!['['] + decimal(index) + seq![']']
}

/// Relies on `format!` with `Display` for `usize`: decimal digits between the
/// two literal brackets.
#[verifier::external_body]
fn bracketed_index(index: usize) -> (r: String)
    ensures
        r@ == index_label_text(index as nat),
{
    format!("[{index}]")
}

/// The label under which the element at `index` of a sequence is listed.
pub fn element_label(index: usize) -> (r: String)
    ensures
        r@ == index_label_text(index as nat),
{
    bracketed_index(index)
}

} // verus!
