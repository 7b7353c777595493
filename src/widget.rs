//! Per-node persistent state, the label column negotiation and node identity.
//!
//! The store is explicit: the host keeps one `ProbeStore` per UI session and
//! hands it to every pass. Writes made while a frame is drawn become visible to
//! lookups of the next frame only, once `store` has been called.

use vstd::prelude::*;

verus! {

/// Stable identity of a tree node: the sibling indices from the root down.
pub struct NodeId {
    path: Vec<u64>,
}

impl View for NodeId {
    type V = Seq<u64>;

    closed spec fn view(&self) -> Seq<u64> {
        self.path@
    }
}

impl NodeId {
    /// Identity of the root of a pass.
    pub fn root() -> (r: NodeId)
        ensures
            r@ == Seq::<u64>::empty(),
    {
        NodeId { path: Vec::new() }
    }

    /// Identity of the `index`-th child of this node.
    pub fn child(&self, index: u64) -> (r: NodeId)
        ensures
            r@ == self@.push(index),
    {
        let mut r = self.duplicate();
        r.path.push(index);
        r
    }

    /// A second handle on the same identity.
    pub fn duplicate(&self) -> (r: NodeId)
        ensures
            r@ == self@,
    {
        let mut path: Vec<u64> = Vec::new();
        let mut i: usize = 0;
        while i < self.path.len()
            invariant
                i <= self.path.len(),
                path@ == self.path@.subrange(0, i as int),
            decreases self.path.len() - i,
        {
            path.push(self.path[i]);
            i = i + 1;
        }
        assert(path@ =~= self.path@);
        NodeId { path }
    }

    /// Whether both handles name the same node.
    pub fn same(&self, other: &NodeId) -> (r: bool)
        ensures
            r == (self@ == other@),
    {
        if self.path.len() != other.path.len() {
            return false;
        }
        let mut i: usize = 0;
        while i < self.path.len()
            invariant
                i <= self.path.len(),
                self.path.len() == other.path.len(),
                self.path@.subrange(0, i as int) =~= other.path@.subrange(0, i as int),
            decreases self.path.len() - i,
        {
            if self.path[i] != other.path[i] {
                assert(self.path@[i as int] != other.path@[i as int]);
                return false;
            }
            assert(self.path@.subrange(0, i + 1) =~= self.path@.subrange(0, i as int).push(
                self.path@[i as int],
            ));
            assert(other.path@.subrange(0, i + 1) =~= other.path@.subrange(0, i as int).push(
                other.path@[i as int],
            ));
            i = i + 1;
        }
        assert(self.path@ =~= self.path@.subrange(0, i as int));
        assert(other.path@ =~= other.path@.subrange(0, i as int));
        true
    }
}

/// The child identity is the same in two passes exactly when the parent's
/// identity and the child's index are: a tree whose shape did not change keeps
/// every identity, and two siblings of one parent never share one.
pub proof fn lemma_identity_stable(parent_a: Seq<u64>, index_a: u64, parent_b: Seq<u64>, index_b: u64)
    ensures
        (parent_a.push(index_a) == parent_b.push(index_b)) <==> (parent_a == parent_b && index_a
            == index_b),
{
    if parent_a.push(index_a) == parent_b.push(index_b) {
        assert(parent_a.push(index_a).len() == parent_b.push(index_b).len());
        assert(parent_a.push(index_a)[parent_a.len() as int] == index_a);
        assert(parent_b.push(index_b)[parent_b.len() as int] == index_b);
        assert(parent_a =~= parent_a.push(index_a).drop_last());
        assert(parent_b =~= parent_b.push(index_b).drop_last());
    }
}

/// Keyed slots: at most one value per node identity.
pub struct Slots<S> {
    items: Vec<(NodeId, S)>,
}

pub open spec fn keys_unique<S>(items: Seq<(NodeId, S)>) -> bool {
    forall|i: int, j: int|
        0 <= i < items.len() && 0 <= j < items.len() && (#[trigger] items[i]).0@ == (
        #[trigger] items[j]).0@ ==> i == j
}

pub open spec fn holds_key<S>(items: Seq<(NodeId, S)>, k: Seq<u64>) -> bool {
    exists|j: int| 0 <= j < items.len() && (#[trigger] items[j]).0@ == k
}

pub open spec fn slot_of<S>(items: Seq<(NodeId, S)>, k: Seq<u64>) -> S {
    items[choose|j: int| 0 <= j < items.len() && (#[trigger] items[j]).0@ == k].1
}

impl<S: Copy> Slots<S> {
    pub closed spec fn wf(&self) -> bool {
        keys_unique(self.items@)
    }

    /// What the slots hold, by identity.
    pub closed spec fn contents(&self) -> Map<Seq<u64>, S> {
        Map::new(|k: Seq<u64>| holds_key(self.items@, k), |k: Seq<u64>| slot_of(self.items@, k))
    }

    pub fn new() -> (r: Slots<S>)
        ensures
            r.wf(),
            r.contents() == Map::<Seq<u64>, S>::empty(),
    {
        let r = Slots { items: Vec::new() };
        assert(r.contents() =~= Map::<Seq<u64>, S>::empty());
        r
    }

    fn position(&self, id: &NodeId) -> (r: Option<usize>)
        requires
            self.wf(),
        ensures
            match r {
                Some(i) => i < self.items@.len() && self.items@[i as int].0@ == id@,
                None => !holds_key(self.items@, id@),
            },
    {
        let mut i: usize = 0;
        while i < self.items.len()
            invariant
                i <= self.items.len(),
                forall|j: int| 0 <= j < i ==> (#[trigger] self.items@[j]).0@ != id@,
            decreases self.items.len() - i,
        {
            if self.items[i].0.same(id) {
                return Some(i);
            }
            i = i + 1;
        }
        None
    }

    /// The value held for `id`, if any.
    pub fn get(&self, id: &NodeId) -> (r: Option<S>)
        requires
            self.wf(),
        ensures
            r == (if self.contents().contains_key(id@) {
                Some(self.contents()[id@])
            } else {
                None
            }),
    {
        match self.position(id) {
            Some(i) => {
                assert(self.contents().contains_key(id@));
                Some(self.items[i].1)
            },
            None => None,
        }
    }

    /// Holds `value` for `id`, replacing what was held.
    pub fn put(&mut self, id: &NodeId, value: S)
        requires
            old(self).wf(),
        ensures
            final(self).wf(),
            final(self).contents() == old(self).contents().insert(id@, value),
    {
        let key = id.duplicate();
        match self.position(id) {
            Some(i) => {
                let ghost before = self.items@;
                self.items.set(i, (key, value));
                assert forall|k: Seq<u64>| #[trigger] holds_key(self.items@, k) == holds_key(before, k) by {
                    if holds_key(before, k) {
                        let j = choose|j: int| 0 <= j < before.len() && (#[trigger] before[j]).0@ == k;
                        assert(self.items@[j].0@ == k);
                    }
                    if holds_key(self.items@, k) {
                        let j = choose|j: int| 0 <= j < self.items@.len() && (#[trigger] self.items@[j]).0@ == k;
                        assert(before[j].0@ == k);
                    }
                }
                assert forall|k: Seq<u64>| k != id@ && holds_key(self.items@, k) implies #[trigger] slot_of(self.items@, k) == slot_of(before, k) by {
                    let j = choose|j: int| 0 <= j < self.items@.len() && (#[trigger] self.items@[j]).0@ == k;
                    let j2 = choose|j: int| 0 <= j < before.len() && (#[trigger] before[j]).0@ == k;
                    assert(before[j].0@ == k);
                    assert(j == j2);
                }
                assert(self.items@[i as int].0@ == id@);
                assert(self.contents() =~= old(self).contents().insert(id@, value));
            },
            None => {
                let ghost before = self.items@;
                self.items.push((key, value));
                assert(self.items@[before.len() as int].0@ == id@);
                assert forall|k: Seq<u64>| k != id@ implies #[trigger] holds_key(self.items@, k) == holds_key(before, k) by {
                    if holds_key(before, k) {
                        let j = choose|j: int| 0 <= j < before.len() && (#[trigger] before[j]).0@ == k;
                        assert(self.items@[j].0@ == k);
                    }
                }
                assert forall|k: Seq<u64>| k != id@ && holds_key(self.items@, k) implies #[trigger] slot_of(self.items@, k) == slot_of(before, k) by {
                    let j = choose|j: int| 0 <= j < self.items@.len() && (#[trigger] self.items@[j]).0@ == k;
                    let j2 = choose|j: int| 0 <= j < before.len() && (#[trigger] before[j]).0@ == k;
                    assert(j != before.len());
                    assert(before[j].0@ == k);
                    assert(j == j2);
                }
                assert(slot_of(self.items@, id@) == value);
                assert(self.contents() =~= old(self).contents().insert(id@, value));
            },
        }
    }
}

/// Persisted state of one node's header row.
#[derive(Clone, Copy, Debug, PartialEq, Eq, Structural)]
pub struct HeaderState {
    /// Whether the node had children when last drawn, so it shows a collapse arrow.
    pub has_inner: bool,
    /// Whether the node is expanded.
    pub open: bool,
    /// Height of the children region when last drawn, in thousandths of a point.
    pub body_height: u32,
}

/// The state of a node that was never stored.
pub open spec fn default_header() -> HeaderState {
    HeaderState { has_inner: false, open: false, body_height: 0 }
}

/// Persisted state of one pass's label column.
#[derive(Clone, Copy, Debug, PartialEq, Eq, Structural)]
pub struct LayoutState {
    /// Width of the label column, in thousandths of a point.
    pub labels_width: u32,
}

/// The header state that a lookup in `headers` yields for `id`.
pub open spec fn stored_header(headers: Map<Seq<u64>, HeaderState>, id: Seq<u64>) -> HeaderState {
    if headers.contains_key(id) {
        headers[id]
    } else {
        default_header()
    }
}

/// The layout state that a lookup in `layouts` yields for `id`.
pub open spec fn stored_layout(layouts: Map<Seq<u64>, LayoutState>, id: Seq<u64>) -> LayoutState {
    if layouts.contains_key(id) {
        layouts[id]
    } else {
        LayoutState { labels_width: 0 }
    }
}

/// State that survives from frame to frame, keyed by node identity.
pub struct ProbeStore {
    headers: Slots<HeaderState>,
    layouts: Slots<LayoutState>,
    repaint: bool,
}

impl ProbeStore {
    pub closed spec fn wf(&self) -> bool {
        self.headers.wf() && self.layouts.wf()
    }

    /// Header states that were stored, by identity.
    pub closed spec fn headers(&self) -> Map<Seq<u64>, HeaderState> {
        self.headers.contents()
    }

    /// Layout states that were stored, by identity.
    pub closed spec fn layouts(&self) -> Map<Seq<u64>, LayoutState> {
        self.layouts.contents()
    }

    /// Whether a write asked for another frame to be drawn.
    pub closed spec fn repaint_requested(&self) -> bool {
        self.repaint
    }

    pub fn new() -> (r: ProbeStore)
        ensures
            r.wf(),
            r.headers() == Map::<Seq<u64>, HeaderState>::empty(),
            r.layouts() == Map::<Seq<u64>, LayoutState>::empty(),
            !r.repaint_requested(),
    {
        ProbeStore { headers: Slots::new(), layouts: Slots::new(), repaint: false }
    }

    /// The header state of `id`: the stored one, else the default.
    pub fn header(&self, id: &NodeId) -> (r: HeaderState)
        requires
            self.wf(),
        ensures
            r == stored_header(self.headers(), id@),
    {
        match self.headers.get(id) {
            Some(s) => s,
            None => HeaderState { has_inner: false, open: false, body_height: 0 },
        }
    }

    /// The layout state of `id`: the stored one, else a zero-width column.
    pub fn layout(&self, id: &NodeId) -> (r: LayoutState)
        requires
            self.wf(),
        ensures
            r == stored_layout(self.layouts(), id@),
    {
        match self.layouts.get(id) {
            Some(s) => s,
            None => LayoutState { labels_width: 0 },
        }
    }

    /// Reports whether a repaint was requested since the last call, and clears it.
    pub fn take_repaint(&mut self) -> (r: bool)
        ensures
            r == old(self).repaint_requested(),
            !final(self).repaint_requested(),
            final(self).wf() == old(self).wf(),
            final(self).headers() == old(self).headers(),
            final(self).layouts() == old(self).layouts(),
    {
        let r = self.repaint;
        self.repaint = false;
        r
    }
}

/// Largest change of body height that is not worth storing.
pub const HEIGHT_EPSILON: u32 = 1;

/// `state` with its open flag flipped.
pub open spec fn toggled(state: HeaderState) -> HeaderState {
    HeaderState { open: !state.open, ..state }
}

/// Whether a measured height differs materially from the stored one.
pub open spec fn height_changed(stored: u32, measured: u32) -> bool {
    stored > measured + HEIGHT_EPSILON || measured > stored + HEIGHT_EPSILON
}

/// The header of one node while a frame is drawn: the state loaded at the
/// start of the frame, changes made during it, and the animated openness.
pub struct ProbeHeader {
    id: NodeId,
    state: HeaderState,
    dirty: bool,
    openness: u32,
}

impl ProbeHeader {
    pub closed spec fn id(&self) -> Seq<u64> {
        self.id@
    }

    pub closed spec fn state(&self) -> HeaderState {
        self.state
    }

    /// Whether the state differs from what was loaded.
    pub closed spec fn dirty(&self) -> bool {
        self.dirty
    }

    /// Animated openness, per mille: 0 closed, 1000 fully open.
    pub closed spec fn openness(&self) -> u32 {
        self.openness
    }

    /// Loads the header of `id`, with the openness that the host's animation
    /// gives for the stored open flag.
    pub fn load(store: &ProbeStore, id: NodeId, openness: u32) -> (r: ProbeHeader)
        requires
            store.wf(),
            openness <= 1000,
        ensures
            r.id() == id@,
            r.state() == stored_header(store.headers(), id@),
            !r.dirty(),
            r.openness() == openness,
    {
        let state = store.header(&id);
        ProbeHeader { id, state, dirty: false, openness }
    }

    /// Writes the state back if it changed, and then asks for a repaint.
    pub fn store(self, store: &mut ProbeStore)
        requires
            old(store).wf(),
        ensures
            final(store).wf(),
            final(store).layouts() == old(store).layouts(),
            self.dirty() ==> final(store).headers() == old(store).headers().insert(
                self.id(),
                self.state(),
            ) && final(store).repaint_requested(),
            !self.dirty() ==> final(store).headers() == old(store).headers()
                && final(store).repaint_requested() == old(store).repaint_requested(),
    {
        if self.dirty {
            store.headers.put(&self.id, self.state);
            store.repaint = true;
        }
    }

    pub fn has_inner(&self) -> (r: bool)
        ensures
            r == self.state().has_inner,
    {
        self.state.has_inner
    }

    pub fn is_open(&self) -> (r: bool)
        ensures
            r == self.state().open,
    {
        self.state.open
    }

    pub fn body_height(&self) -> (r: u32)
        ensures
            r == self.state().body_height,
    {
        self.state.body_height
    }

    /// Whether the children region is drawn this frame: while any part of it
    /// is revealed.
    pub fn shows_body(&self) -> (r: bool)
        ensures
            r == (self.openness() > 0),
    {
        self.openness > 0
    }

    pub fn set_has_inner(&mut self, has_inner: bool)
        ensures
            final(self).id() == old(self).id(),
            final(self).openness() == old(self).openness(),
            final(self).state() == (HeaderState { has_inner, ..old(self).state() }),
            final(self).dirty() == (old(self).dirty() || old(self).state().has_inner != has_inner),
    {
        if self.state.has_inner != has_inner {
            self.state.has_inner = has_inner;
            self.dirty = true;
        }
    }

    pub fn toggle(&mut self)
        ensures
            final(self).id() == old(self).id(),
            final(self).openness() == old(self).openness(),
            final(self).state() == toggled(old(self).state()),
            final(self).dirty(),
    {
        self.state.open = !self.state.open;
        self.dirty = true;
    }

    /// Reacts to the collapse arrow: a click flips the open flag.
    pub fn collapse_clicked(&mut self, clicked: bool)
        ensures
            final(self).id() == old(self).id(),
            final(self).openness() == old(self).openness(),
            clicked ==> final(self).state() == toggled(old(self).state()) && final(self).dirty(),
            !clicked ==> *final(self) == *old(self),
    {
        if clicked {
            self.toggle();
        }
    }

    /// Records the height the children took this frame, if it changed materially.
    pub fn set_body_height(&mut self, height: u32)
        ensures
            final(self).id() == old(self).id(),
            final(self).openness() == old(self).openness(),
            height_changed(old(self).state().body_height, height) ==> final(self).state() == (
            HeaderState { body_height: height, ..old(self).state() }) && final(self).dirty(),
            !height_changed(old(self).state().body_height, height) ==> final(self).state()
                == old(self).state() && final(self).dirty() == old(self).dirty(),
    {
        let stored = self.state.body_height as u64;
        let measured = height as u64;
        let epsilon = HEIGHT_EPSILON as u64;
        if stored > measured + epsilon || measured > stored + epsilon {
            self.state.body_height = height;
            self.dirty = true;
        }
    }

    /// How far the children region is pushed up while it is not fully open:
    /// the last measured height scaled by the part still hidden.
    pub fn body_shift(&self) -> (r: u32)
        requires
            self.openness() <= 1000,
        ensures
            r as int == (1000 - self.openness()) * self.state().body_height / 1000,
    {
        let hidden = (1000 - self.openness) as u64;
        let h = self.state.body_height as u64;
        assert(hidden * h <= 1000 * 0xffff_ffff) by (nonlinear_arith)
            requires hidden <= 1000, h <= 0xffff_ffff;
        let r = hidden * h / 1000;
        assert(r <= 0xffff_ffff) by (nonlinear_arith)
            requires r == hidden * h / 1000, hidden <= 1000, h <= 0xffff_ffff;
        r as u32
    }
}

/// A click on the collapse arrow in frame N is not seen by lookups of frame N:
/// the node still reads closed. Once the header is stored at the end of that
/// frame, the lookup of frame N+1 reads it open.
pub proof fn lemma_toggle_seen_next_frame(headers: Map<Seq<u64>, HeaderState>, id: Seq<u64>)
    requires
        !stored_header(headers, id).open,
    ensures
        !stored_header(headers, id).open,
        stored_header(headers.insert(id, toggled(stored_header(headers, id))), id).open,
{
}

/// The label column of one pass: the width allocated this pass (from the
/// previous one) and the width its labels needed.
pub struct ProbeLayout {
    id: NodeId,
    state: LayoutState,
    min_labels_width: u32,
}

/// Column width after a label of width `width` was measured.
pub open spec fn bumped(min_width: u32, width: u32) -> u32 {
    if min_width < width {
        width
    } else {
        min_width
    }
}

/// The width a pass measures for labels of widths `widths`.
pub open spec fn widest(widths: Seq<u32>) -> u32
    decreases widths.len(),
{
    if widths.len() == 0 {
        0
    } else {
        bumped(widest(widths.drop_last()), widths.last())
    }
}

/// The stored layouts after a pass of the column `id` measured `widths`.
pub open spec fn layouts_after_pass(
    layouts: Map<Seq<u64>, LayoutState>,
    id: Seq<u64>,
    widths: Seq<u32>,
) -> Map<Seq<u64>, LayoutState> {
    if stored_layout(layouts, id).labels_width != widest(widths) {
        layouts.insert(id, LayoutState { labels_width: widest(widths) })
    } else {
        layouts
    }
}

impl ProbeLayout {
    pub closed spec fn id(&self) -> Seq<u64> {
        self.id@
    }

    pub closed spec fn state(&self) -> LayoutState {
        self.state
    }

    /// Width that the labels drawn so far in this pass need.
    pub closed spec fn min_labels_width(&self) -> u32 {
        self.min_labels_width
    }

    /// Starts a pass of the column `id`.
    pub fn load(store: &ProbeStore, id: NodeId) -> (r: ProbeLayout)
        requires
            store.wf(),
        ensures
            r.id() == id@,
            r.state() == stored_layout(store.layouts(), id@),
            r.min_labels_width() == 0,
    {
        let state = store.layout(&id);
        ProbeLayout { id, state, min_labels_width: 0 }
    }

    /// Width of the label column in this pass.
    pub fn labels_width(&self) -> (r: u32)
        ensures
            r == self.state().labels_width,
    {
        self.state.labels_width
    }

    /// Records a label's measured width; it widens the column of the next pass.
    pub fn bump_labels_width(&mut self, width: u32)
        ensures
            final(self).id() == old(self).id(),
            final(self).state() == old(self).state(),
            final(self).min_labels_width() == bumped(old(self).min_labels_width(), width),
    {
        if self.min_labels_width < width {
            self.min_labels_width = width;
        }
    }

    /// Ends the pass: the measured width becomes the next pass's column width,
    /// written (with a repaint) only where it differs.
    pub fn store(self, store: &mut ProbeStore)
        requires
            old(store).wf(),
        ensures
            final(store).wf(),
            final(store).headers() == old(store).headers(),
            self.state().labels_width != self.min_labels_width() ==> final(store).layouts()
                == old(store).layouts().insert(
                self.id(),
                LayoutState { labels_width: self.min_labels_width() },
            ) && final(store).repaint_requested(),
            self.state().labels_width == self.min_labels_width() ==> final(store).layouts()
                == old(store).layouts() && final(store).repaint_requested()
                == old(store).repaint_requested(),
    {
        if self.state.labels_width != self.min_labels_width {
            let state = LayoutState { labels_width: self.min_labels_width };
            store.layouts.put(&self.id, state);
            store.repaint = true;
        }
    }
}

proof fn lemma_widest_bounds(widths: Seq<u32>)
    ensures
        forall|i: int| 0 <= i < widths.len() ==> widths[i] <= widest(widths),
        widths.len() > 0 ==> exists|i: int| 0 <= i < widths.len() && widths[i] == widest(widths),
    decreases widths.len(),
{
    if widths.len() > 0 {
        let rest = widths.drop_last();
        lemma_widest_bounds(rest);
        assert forall|i: int| 0 <= i < widths.len() implies widths[i] <= widest(widths) by {
            if i < rest.len() {
                assert(rest[i] == widths[i]);
            }
        }
        if widest(widths) == widths.last() {
            assert(widths[widths.len() - 1] == widest(widths));
        } else {
            let i = choose|i: int| 0 <= i < rest.len() && rest[i] == widest(rest);
            assert(widths[i] == widest(widths));
        }
    }
}

/// One pass over labels of widths `widths` sets the column to the widest of
/// them, whatever width was stored before; a second pass over the same labels
/// stores nothing, so the column is stable.
pub proof fn lemma_label_column_converges(
    layouts: Map<Seq<u64>, LayoutState>,
    id: Seq<u64>,
    widths: Seq<u32>,
)
    ensures
        stored_layout(layouts_after_pass(layouts, id, widths), id).labels_width == widest(widths),
        forall|i: int| 0 <= i < widths.len() ==> widths[i] <= widest(widths),
        widths.len() > 0 ==> exists|i: int| 0 <= i < widths.len() && widths[i] == widest(widths),
        layouts_after_pass(layouts_after_pass(layouts, id, widths), id, widths)
            == layouts_after_pass(layouts, id, widths),
{
    lemma_widest_bounds(widths);
}

} // verus!
