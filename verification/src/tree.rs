//! The node arena: generational-handle storage for per-node data, the
//! parent/child bookkeeping, and the dirty flag and cache slot of every
//! node.
//!
//! A handle is an index plus a generation counter. Removing a node bumps
//! its slot's generation, so every handle issued for the old occupant stops
//! naming anything: generations only ever grow, and a slot is reused only
//! under its grown generation. Every operation checks the handle before
//! touching data and fails with `InvalidNodeId` instead of touching a
//! stale slot.
//!
//! The tree keeps a ghost depth for every live node, one more than its
//! parent's. Edges are added only to childless, parentless nodes, so the
//! depth bookkeeping is local and the structure provably stays a forest.

use crate::layout::{in_round_range, layout_request, round_box_spec, round_units, sat_add,
    sat_sub, CacheEntry, Layout, LayoutAlgorithm, LayoutInput, LayoutOutput, LayoutSimple,
    RunMode, SizingMode, MAX_DEPTH};
use crate::style::{AvailableSpace, Style};
use vstd::prelude::*;

verus! {

/// Why an arena operation failed.
#[derive(Clone, Copy, Debug, PartialEq, Eq, Structural)]
pub enum Craft3dError {
    /// The handle is stale or unknown; the node is gone. Recoverable.
    InvalidNodeId,
    /// A structural mutation referenced an edge that does not exist.
    ChildNotFound,
    /// The arena, or a slot's generation counter, is exhausted.
    CapacityExceeded,
    /// A mutation was attempted while another mutation of the same tree
    /// was in progress. The verified core never raises this itself: the
    /// shared-handle adapter maps a re-entrant borrow to it.
    BorrowConflict,
}

/// The outcome of an arena operation.
pub type Craft3dResult<T> = Result<T, Craft3dError>;

/// A generational node handle: an index and the generation the slot had
/// when the node was created. Hosts copy handles freely and must never
/// fabricate them.
#[derive(Clone, Copy, Debug, PartialEq, Eq, Structural)]
pub struct NodeId {
    /// The slot index.
    pub index: usize,
    /// The slot generation at creation.
    pub generation: u64,
}

/// One arena slot: the generation counter plus, when live, the node's data.
pub(crate) struct Slot<C> {
    pub(crate) generation: u64,
    pub(crate) live: bool,
    pub(crate) style: Style,
    pub(crate) dirty: bool,
    pub(crate) cache: Option<CacheEntry>,
    pub(crate) layout: LayoutSimple,
    pub(crate) parent: Option<usize>,
    pub(crate) children: Vec<usize>,
    pub(crate) context: Option<C>,
}

/// The layout tree: a generational node arena, per-node style, dirty flag,
/// cache slot and committed geometry, an optional opaque host context per
/// node, and the rounding configuration.
pub struct Craft3dTree<C> {
    pub(crate) slots: Vec<Slot<C>>,
    pub(crate) free: Vec<usize>,
    pub(crate) capacity: usize,
    pub(crate) use_rounding: bool,
    pub(crate) depth: Ghost<Map<int, nat>>,
}

impl<C> Craft3dTree<C> {
    /// How many slots the arena holds, live or not.
    pub closed spec fn slot_len(&self) -> int {
        self.slots@.len() as int
    }

    /// Whether slot `i` holds a live node.
    pub closed spec fn live_ix(&self, i: int) -> bool {
        0 <= i < self.slots@.len() && self.slots@[i].live
    }

    /// The generation counter of slot `i`.
    pub closed spec fn gen_of(&self, i: int) -> u64 {
        self.slots@[i].generation
    }

    /// Whether `id` names a live node: its index is a slot of the arena,
    /// the slot is live, and its generation matches the handle's.
    pub open spec fn live(&self, id: NodeId) -> bool {
        &&& 0 <= id.index < self.slot_len()
        &&& self.live_ix(id.index as int)
        &&& self.gen_of(id.index as int) == id.generation
    }

    /// The style of the node in slot `i`.
    pub closed spec fn style_of(&self, i: int) -> Style {
        self.slots@[i].style
    }

    /// Whether the node in slot `i` is dirty.
    pub closed spec fn dirty_of(&self, i: int) -> bool {
        self.slots@[i].dirty
    }

    /// The cache entry of the node in slot `i`, if one is stored.
    pub closed spec fn cache_of(&self, i: int) -> Option<CacheEntry> {
        self.slots@[i].cache
    }

    /// The committed geometry of the node in slot `i`.
    pub closed spec fn layout_of(&self, i: int) -> LayoutSimple {
        self.slots@[i].layout
    }

    /// The child slot indices of the node in slot `i`, in order.
    pub closed spec fn children_of(&self, i: int) -> Seq<usize> {
        self.slots@[i].children@
    }

    /// The parent slot index of the node in slot `i`, if it has one.
    pub closed spec fn parent_of(&self, i: int) -> Option<usize> {
        self.slots@[i].parent
    }

    /// The host context of the node in slot `i`, if one is attached.
    pub closed spec fn context_of(&self, i: int) -> Option<C> {
        self.slots@[i].context
    }

    /// The ghost depth of the node in slot `i`: zero for a root, one more
    /// than the parent otherwise.
    pub closed spec fn depth_of(&self, i: int) -> nat {
        self.depth@[i]
    }

    /// The fixed slot capacity of the arena.
    pub closed spec fn spec_capacity(&self) -> usize {
        self.capacity
    }

    /// Whether rounding is applied after layout computation.
    pub closed spec fn rounding_enabled(&self) -> bool {
        self.use_rounding
    }

    /// Whether a new node can be inserted: a freed slot is waiting, or
    /// there is room to grow.
    pub open spec fn can_insert(&self) -> bool {
        self.free_len() > 0 || self.slot_len() < self.spec_capacity()
    }

    /// How many freed slots await reuse.
    pub closed spec fn free_len(&self) -> int {
        self.free@.len() as int
    }

    /// The structural invariant of the arena.
    ///
    /// Freed slots are valid, dead and listed once. Dead slots carry no
    /// edges and no context. Every live node's parent edge and child list
    /// agree with each other, a child appears once, and every live node
    /// sits one ghost-depth level below its parent, which rules out cycles.
    pub closed spec fn wf(&self) -> bool {
        &&& forall|j: int|
            0 <= j < self.free@.len() ==> (#[trigger] self.free@[j] < self.slots@.len()
                && !self.slots@[self.free@[j] as int].live)
        &&& forall|j1: int, j2: int|
            0 <= j1 < j2 < self.free@.len() ==> self.free@[j1] != self.free@[j2]
        &&& forall|i: int|
            0 <= i < self.slots@.len() && !(#[trigger] self.slots@[i].live) ==> (
            self.slots@[i].children@.len() == 0 && self.slots@[i].parent is None
                && self.slots@[i].context is None)
        &&& forall|i: int|
            #![trigger self.slots@[i].parent]
            0 <= i < self.slots@.len() && self.slots@[i].live ==> match self.slots@[i].parent {
                Some(p) => self.live_ix(p as int) && self.children_of(p as int).contains(i as usize)
                    && self.depth@[i] == self.depth@[p as int] + 1,
                None => true,
            }
        &&& forall|i: int, j: int|
            #![trigger self.slots@[i].children@[j]]
            0 <= i < self.slots@.len() && self.slots@[i].live && 0 <= j
                < self.slots@[i].children@.len() ==> {
                let c = self.slots@[i].children@[j];
                &&& self.live_ix(c as int)
                &&& self.slots@[c as int].parent == Some(i as usize)
            }
        &&& forall|i: int, j1: int, j2: int|
            #![trigger self.slots@[i].children@[j1], self.slots@[i].children@[j2]]
            0 <= i < self.slots@.len() && self.slots@[i].live && 0 <= j1 < j2
                < self.slots@[i].children@.len() ==> self.slots@[i].children@[j1]
                != self.slots@[i].children@[j2]
    }

    /// Whether `other` has the same slots, liveness and generations as
    /// `self`: no handle changed meaning.
    pub open spec fn same_handles(&self, other: &Self) -> bool {
        &&& self.slot_len() == other.slot_len()
        &&& forall|i: int|
            0 <= i < self.slot_len() ==> (#[trigger] self.live_ix(i)) == other.live_ix(i)
                && self.gen_of(i) == other.gen_of(i)
    }

    /// Whether the arena only grew and generations never shrank from
    /// `self` to `other`. Every arena operation preserves this; together
    /// with the generation bump on removal it is what keeps stale handles
    /// stale forever.
    pub open spec fn handles_monotone(&self, other: &Self) -> bool {
        &&& self.slot_len() <= other.slot_len()
        &&& forall|i: int|
            0 <= i < self.slot_len() ==> self.gen_of(i) <= #[trigger] other.gen_of(i)
    }

    /// Whether every node of `self` is still live in `other` with the
    /// same style, dirty flag, cache, geometry, context and edges.
    pub open spec fn nodes_unchanged(&self, other: &Self) -> bool {
        forall|i: int| 0 <= i < self.slot_len() && #[trigger] self.live_ix(i) ==>
            self.node_unchanged(other, i)
    }

    /// Whether the node in slot `i` carries the same data in `other`.
    pub open spec fn node_unchanged(&self, other: &Self, i: int) -> bool {
        &&& other.live_ix(i)
        &&& self.style_of(i) == other.style_of(i)
        &&& self.dirty_of(i) == other.dirty_of(i)
        &&& self.cache_of(i) == other.cache_of(i)
        &&& self.layout_of(i) == other.layout_of(i)
        &&& self.parent_of(i) == other.parent_of(i)
        &&& self.children_of(i) == other.children_of(i)
        &&& self.context_of(i) == other.context_of(i)
    }

    /// Whether the tree's configuration is unchanged in `other`.
    pub open spec fn config_unchanged(&self, other: &Self) -> bool {
        &&& self.spec_capacity() == other.spec_capacity()
        &&& self.rounding_enabled() == other.rounding_enabled()
    }

    /// A tree with the default slot capacity.
    pub fn new() -> (r: Craft3dTree<C>)
        ensures
            r.wf(),
            r.slot_len() == 0,
            r.spec_capacity() == usize::MAX,
            !r.rounding_enabled(),
            r.can_insert(),
    {
        Craft3dTree {
            slots: Vec::new(),
            free: Vec::new(),
            capacity: usize::MAX,
            use_rounding: false,
            depth: Ghost(Map::empty()),
        }
    }

    /// A tree that will never hold more than `capacity` node slots;
    /// insertions beyond that fail with `CapacityExceeded`.
    pub fn with_capacity(capacity: usize) -> (r: Craft3dTree<C>)
        ensures
            r.wf(),
            r.slot_len() == 0,
            r.spec_capacity() == capacity,
            !r.rounding_enabled(),
    {
        Craft3dTree {
            slots: Vec::new(),
            free: Vec::new(),
            capacity,
            use_rounding: false,
            depth: Ghost(Map::empty()),
        }
    }

    /// Switches post-layout rounding on or off.
    pub fn set_rounding(&mut self, enabled: bool)
        ensures
            final(self).rounding_enabled() == enabled,
            old(self).same_handles(final(self)),
            old(self).handles_monotone(final(self)),
            old(self).nodes_unchanged(final(self)),
            final(self).spec_capacity() == old(self).spec_capacity(),
            final(self).wf() == old(self).wf(),
            final(self).can_insert() == old(self).can_insert(),
    {
        self.use_rounding = enabled;
    }

    /// Bringing one slot to life as a childless, parentless, context-free
    /// node — whether by reusing the freed slot or appending a new one —
    /// preserves the structural invariant.
    proof fn lemma_wf_fresh_leaf(a: &Self, b: &Self, i: int)
        requires
            a.wf(),
            0 <= i < b.slots@.len(),
            a.slots@.len() <= b.slots@.len() <= a.slots@.len() + 1,
            b.slots@.len() == a.slots@.len() ==> 0 <= i < a.slots@.len() && !a.slots@[i].live,
            b.slots@.len() == a.slots@.len() + 1 ==> i == a.slots@.len(),
            forall|x: int| 0 <= x < a.slots@.len() && x != i ==> b.slots@[x] == a.slots@[x],
            b.slots@[i].live,
            b.slots@[i].children@.len() == 0,
            b.slots@[i].parent is None,
            b.slots@[i].context is None,
            b.depth@ == a.depth@.insert(i, 0nat),
            (b.slots@.len() == a.slots@.len() + 1 && b.free@ == a.free@) || (b.slots@.len()
                == a.slots@.len() && a.free@.len() > 0 && a.free@.last() == i && b.free@
                == a.free@.drop_last()),
        ensures
            b.wf(),
    {
        assert forall|j: int| 0 <= j < b.free@.len() implies (#[trigger] b.free@[j]
            < b.slots@.len() && !b.slots@[b.free@[j] as int].live) by {
            let e = b.free@[j];
            assert(a.free@[j] == e);
            assert(!a.slots@[e as int].live);
            if b.slots@.len() == a.slots@.len() {
                assert(b.free@ == a.free@.drop_last());
                assert(a.free@[j] != a.free@[a.free@.len() - 1]);
                assert(e != i);
            } else {
                assert(e < a.slots@.len() && i == a.slots@.len());
            }
            assert(b.slots@[e as int] == a.slots@[e as int]);
        }
        assert forall|j1: int, j2: int|
            0 <= j1 < j2 < b.free@.len() implies b.free@[j1] != b.free@[j2] by {
            assert(a.free@[j1] == b.free@[j1] && a.free@[j2] == b.free@[j2]);
        }
        assert forall|x: int|
            0 <= x < b.slots@.len() && !(#[trigger] b.slots@[x].live) implies (
        b.slots@[x].children@.len() == 0 && b.slots@[x].parent is None && b.slots@[x].context
            is None) by {
            assert(x != i);
            assert(x < a.slots@.len());
            assert(!a.slots@[x].live);
        }
        assert forall|x: int|
            #![trigger b.slots@[x].parent]
            0 <= x < b.slots@.len() && b.slots@[x].live implies match b.slots@[x].parent {
            Some(q) => b.live_ix(q as int) && b.children_of(q as int).contains(x as usize)
                && b.depth@[x] == b.depth@[q as int] + 1,
            None => true,
        } by {
            if x != i {
                assert(x < a.slots@.len());
                assert(a.slots@[x].live);
                match a.slots@[x].parent {
                    Some(q) => {
                        assert(a.live_ix(q as int));
                        assert(q as int != i) by {
                            if q as int == i {
                                assert(b.slots@.len() == a.slots@.len() + 1 ==> i
                                    == a.slots@.len());
                                assert(!a.slots@[i].live);
                            }
                        }
                        assert(b.slots@[q as int] == a.slots@[q as int]);
                        assert(a.children_of(q as int).contains(x as usize));
                        assert(b.children_of(q as int) == a.children_of(q as int));
                        assert(b.depth@[x] == a.depth@[x] && b.depth@[q as int] == a.depth@[
                        q as int]);
                    },
                    None => {},
                }
            }
        }
        assert forall|x: int, j: int|
            #![trigger b.slots@[x].children@[j]]
            0 <= x < b.slots@.len() && b.slots@[x].live && 0 <= j
                < b.slots@[x].children@.len() implies {
            let cc = b.slots@[x].children@[j];
            &&& b.live_ix(cc as int)
            &&& b.slots@[cc as int].parent == Some(x as usize)
        } by {
            assert(x != i);
            assert(x < a.slots@.len());
            let cc = a.slots@[x].children@[j];
            assert(a.live_ix(cc as int));
            assert(cc as int != i) by {
                if cc as int == i {
                    assert(b.slots@.len() == a.slots@.len() + 1 ==> i == a.slots@.len());
                    assert(!a.slots@[i].live);
                }
            }
            assert(b.slots@[cc as int] == a.slots@[cc as int]);
            assert(a.slots@[cc as int].parent == Some(x as usize));
        }
        assert forall|x: int, j1: int, j2: int|
            #![trigger b.slots@[x].children@[j1], b.slots@[x].children@[j2]]
            0 <= x < b.slots@.len() && b.slots@[x].live && 0 <= j1 < j2
                < b.slots@[x].children@.len() implies b.slots@[x].children@[j1]
            != b.slots@[x].children@[j2] by {
            assert(x != i);
            assert(a.slots@[x].children@[j1] != a.slots@[x].children@[j2]);
        }
    }

    /// Inserts a childless node with the given style. The fresh node is
    /// not dirty, has an empty cache, zero geometry, no parent and no
    /// context, and its handle names it. Fails only with
    /// `CapacityExceeded`, exactly when the arena is exhausted.
    pub fn new_leaf(&mut self, style: Style) -> (r: Craft3dResult<NodeId>)
        requires
            old(self).wf(),
        ensures
            final(self).wf(),
            old(self).handles_monotone(final(self)),
            old(self).nodes_unchanged(final(self)),
            old(self).config_unchanged(final(self)),
            r is Err <==> !old(self).can_insert(),
            r matches Err(e) ==> e == Craft3dError::CapacityExceeded && old(self).same_handles(
                final(self)) && final(self).free_len() == old(self).free_len(),
            r matches Ok(id) ==> {
                &&& final(self).live(id)
                &&& !old(self).live(id)
                &&& final(self).slot_len() <= old(self).slot_len() + 1
                &&& forall|other: NodeId|
                    #[trigger] old(self).live(other) ==> final(self).live(other) && other.index
                        != id.index
                &&& final(self).style_of(id.index as int) == style
                &&& !final(self).dirty_of(id.index as int)
                &&& final(self).cache_of(id.index as int) is None
                &&& final(self).children_of(id.index as int).len() == 0
                &&& final(self).parent_of(id.index as int) is None
                &&& final(self).context_of(id.index as int) is None
                &&& final(self).depth_of(id.index as int) == 0
                &&& forall|i: int|
                    0 <= i < old(self).slot_len() && i != id.index as int
                        ==> old(self).live_ix(i) == #[trigger] final(self).live_ix(i)
            },
    {
        let slot = Slot {
            generation: 0,
            live: true,
            style,
            dirty: false,
            cache: None,
            layout: crate::layout::LayoutSimple::zero(),
            parent: None,
            children: Vec::new(),
            context: None,
        };
        match self.free.pop() {
            Some(i) => {
                let generation = self.slots[i].generation;
                let mut slot = slot;
                slot.generation = generation;
                self.slots[i] = slot;
                self.depth = Ghost(self.depth@.insert(i as int, 0nat));
                let id = NodeId { index: i, generation };
                proof {
                    assert(forall|x: int|
                        0 <= x < self.slots@.len() && x != i as int ==> self.slots@[x]
                            == old(self).slots@[x]);
                    Self::lemma_wf_fresh_leaf(old(self), self, i as int);
                }
                Ok(id)
            },
            None => {
                if self.slots.len() < self.capacity {
                    let i = self.slots.len();
                    self.slots.push(slot);
                    self.depth = Ghost(self.depth@.insert(i as int, 0nat));
                    let id = NodeId { index: i, generation: 0 };
                    proof {
                        assert(forall|x: int|
                            0 <= x < old(self).slots@.len() ==> self.slots@[x]
                                == old(self).slots@[x]);
                        Self::lemma_wf_fresh_leaf(old(self), self, i as int);
                    }
                    Ok(id)
                } else {
                    Err(Craft3dError::CapacityExceeded)
                }
            },
        }
    }
}

} // verus!

verus! {

impl<C> Craft3dTree<C> {
    /// Whether `node` currently names a live node: its slot is live and
    /// the generations match.
    pub fn node_exists(&self, node: NodeId) -> (r: bool)
        ensures
            r == self.live(node),
    {
        if node.index >= self.slots.len() {
            return false;
        }
        let slot = &self.slots[node.index];
        slot.live && slot.generation == node.generation
    }

    /// The style of a node, or `InvalidNodeId` for a stale handle.
    pub fn get_style(&self, node: NodeId) -> (r: Craft3dResult<Style>)
        ensures
            r matches Ok(s) ==> self.live(node) && s == self.style_of(node.index as int),
            r matches Err(e) ==> !self.live(node) && e == Craft3dError::InvalidNodeId,
    {
        if !self.node_exists(node) {
            return Err(Craft3dError::InvalidNodeId);
        }
        Ok(self.slots[node.index].style)
    }

    /// Whether a node is dirty: its cached layout may be stale and must be
    /// recomputed before being trusted.
    pub fn dirty(&self, node: NodeId) -> (r: Craft3dResult<bool>)
        ensures
            r matches Ok(d) ==> self.live(node) && d == self.dirty_of(node.index as int),
            r matches Err(e) ==> !self.live(node) && e == Craft3dError::InvalidNodeId,
    {
        if !self.node_exists(node) {
            return Err(Craft3dError::InvalidNodeId);
        }
        Ok(self.slots[node.index].dirty)
    }

    /// How many children a node has.
    pub fn child_count(&self, node: NodeId) -> (r: Craft3dResult<usize>)
        ensures
            r matches Ok(n) ==> self.live(node) && n == self.children_of(
                node.index as int,
            ).len(),
            r matches Err(e) ==> !self.live(node) && e == Craft3dError::InvalidNodeId,
    {
        if !self.node_exists(node) {
            return Err(Craft3dError::InvalidNodeId);
        }
        Ok(self.slots[node.index].children.len())
    }

    /// Whether a node has no children.
    pub fn is_childless(&self, node: NodeId) -> (r: Craft3dResult<bool>)
        ensures
            r matches Ok(b) ==> self.live(node) && b == (self.children_of(
                node.index as int,
            ).len() == 0),
            r matches Err(e) ==> !self.live(node) && e == Craft3dError::InvalidNodeId,
    {
        if !self.node_exists(node) {
            return Err(Craft3dError::InvalidNodeId);
        }
        Ok(self.slots[node.index].children.len() == 0)
    }

    /// The handle of the child at `index` under `parent`, in child order.
    /// Fails with `ChildNotFound` when the index is out of bounds.
    pub fn child_at(&self, parent: NodeId, index: usize) -> (r: Craft3dResult<NodeId>)
        requires
            self.wf(),
        ensures
            r matches Ok(c) ==> self.live(parent) && index < self.children_of(
                parent.index as int,
            ).len() && c.index == self.children_of(parent.index as int)[index as int]
                && self.live(c),
            r matches Err(e) ==> if !self.live(parent) {
                e == Craft3dError::InvalidNodeId
            } else {
                e == Craft3dError::ChildNotFound && index >= self.children_of(
                    parent.index as int,
                ).len()
            },
    {
        if !self.node_exists(parent) {
            return Err(Craft3dError::InvalidNodeId);
        }
        let slot = &self.slots[parent.index];
        if index >= slot.children.len() {
            return Err(Craft3dError::ChildNotFound);
        }
        let ci = slot.children[index];
        let generation = self.slots[ci].generation;
        Ok(NodeId { index: ci, generation })
    }

    /// The handles of a node's children, in order.
    pub fn children(&self, parent: NodeId) -> (r: Craft3dResult<Vec<NodeId>>)
        requires
            self.wf(),
        ensures
            r matches Ok(v) ==> {
                &&& self.live(parent)
                &&& v@.len() == self.children_of(parent.index as int).len()
                &&& forall|j: int|
                    0 <= j < v@.len() ==> (#[trigger] v@[j]).index == self.children_of(
                        parent.index as int,
                    )[j] && self.live(v@[j])
            },
            r matches Err(e) ==> !self.live(parent) && e == Craft3dError::InvalidNodeId,
    {
        if !self.node_exists(parent) {
            return Err(Craft3dError::InvalidNodeId);
        }
        let n = self.slots[parent.index].children.len();
        let mut v: Vec<NodeId> = Vec::new();
        let mut j: usize = 0;
        while j < n
            invariant
                self.wf(),
                self.live(parent),
                j <= n,
                n == self.children_of(parent.index as int).len(),
                v@.len() == j as int,
                forall|x: int|
                    0 <= x < j as int ==> (#[trigger] v@[x]).index == self.children_of(
                        parent.index as int,
                    )[x] && self.live(v@[x]),
            decreases n - j,
        {
            let ci = self.slots[parent.index].children[j];
            let generation = self.slots[ci].generation;
            v.push(NodeId { index: ci, generation });
            j = j + 1;
        }
        Ok(v)
    }

    /// The handle of a node's parent, if it has one.
    pub fn parent(&self, node: NodeId) -> (r: Craft3dResult<Option<NodeId>>)
        requires
            self.wf(),
        ensures
            r matches Ok(p) ==> self.live(node) && match p {
                Some(pid) => self.parent_of(node.index as int) == Some(pid.index) && self.live(
                    pid,
                ),
                None => self.parent_of(node.index as int) is None,
            },
            r matches Err(e) ==> !self.live(node) && e == Craft3dError::InvalidNodeId,
    {
        if !self.node_exists(node) {
            return Err(Craft3dError::InvalidNodeId);
        }
        match self.slots[node.index].parent {
            Some(pi) => {
                let generation = self.slots[pi].generation;
                Ok(Some(NodeId { index: pi, generation }))
            },
            None => Ok(None),
        }
    }

    /// The committed geometry of a node, from the last layout pass.
    pub fn get_layout(&self, node: NodeId) -> (r: Craft3dResult<LayoutSimple>)
        ensures
            r matches Ok(l) ==> self.live(node) && l == self.layout_of(node.index as int),
            r matches Err(e) ==> !self.live(node) && e == Craft3dError::InvalidNodeId,
    {
        if !self.node_exists(node) {
            return Err(Craft3dError::InvalidNodeId);
        }
        Ok(self.slots[node.index].layout)
    }

    /// Whether a node has a host context attached.
    pub fn has_context(&self, node: NodeId) -> (r: Craft3dResult<bool>)
        ensures
            r matches Ok(b) ==> self.live(node) && b == (self.context_of(
                node.index as int,
            ) is Some),
            r matches Err(e) ==> !self.live(node) && e == Craft3dError::InvalidNodeId,
    {
        if !self.node_exists(node) {
            return Err(Craft3dError::InvalidNodeId);
        }
        Ok(self.slots[node.index].context.is_some())
    }

    /// Whether a node requests content measurement: it does exactly when a
    /// host context is attached, which is where a measurement callback
    /// would live.
    pub fn needs_measure(&self, node: NodeId) -> (r: Craft3dResult<bool>)
        ensures
            r matches Ok(b) ==> self.live(node) && b == (self.context_of(
                node.index as int,
            ) is Some),
            r matches Err(e) ==> !self.live(node) && e == Craft3dError::InvalidNodeId,
    {
        self.has_context(node)
    }

    /// A borrow of a node's host context, if one is attached.
    pub fn get_context(&self, node: NodeId) -> (r: Craft3dResult<Option<&C>>)
        ensures
            r matches Ok(c) ==> self.live(node) && match c {
                Some(x) => self.context_of(node.index as int) == Some(*x),
                None => self.context_of(node.index as int) is None,
            },
            r matches Err(e) ==> !self.live(node) && e == Craft3dError::InvalidNodeId,
    {
        if !self.node_exists(node) {
            return Err(Craft3dError::InvalidNodeId);
        }
        match &self.slots[node.index].context {
            Some(x) => Ok(Some(x)),
            None => Ok(None),
        }
    }
}

} // verus!

verus! {

impl<C> Craft3dTree<C> {
    /// A change confined to one slot's style, dirty flag, cache or
    /// geometry preserves the structural invariant: the invariant never
    /// reads those fields.
    proof fn lemma_wf_data_change(a: &Self, b: &Self, i: int)
        requires
            a.wf(),
            0 <= i < a.slots@.len(),
            b.slots@.len() == a.slots@.len(),
            b.free@ == a.free@,
            b.depth@ == a.depth@,
            forall|x: int| 0 <= x < a.slots@.len() && x != i ==> b.slots@[x] == a.slots@[x],
            b.slots@[i].live == a.slots@[i].live,
            b.slots@[i].generation == a.slots@[i].generation,
            b.slots@[i].children == a.slots@[i].children,
            b.slots@[i].parent == a.slots@[i].parent,
            b.slots@[i].context == a.slots@[i].context,
        ensures
            b.wf(),
    {
        assert(forall|x: int|
            0 <= x < b.slots@.len() ==> b.slots@[x].live == a.slots@[x].live
                && b.slots@[x].generation == a.slots@[x].generation && b.slots@[x].children
                == a.slots@[x].children && b.slots@[x].parent == a.slots@[x].parent
                && b.slots@[x].context == a.slots@[x].context);
        assert forall|j: int| 0 <= j < b.free@.len() implies (#[trigger] b.free@[j]
            < b.slots@.len() && !b.slots@[b.free@[j] as int].live) by {
            assert(a.free@[j] == b.free@[j]);
        }
        assert forall|x: int|
            0 <= x < b.slots@.len() && !(#[trigger] b.slots@[x].live) implies (
        b.slots@[x].children@.len() == 0 && b.slots@[x].parent is None && b.slots@[x].context
            is None) by {
            assert(!a.slots@[x].live);
        }
        assert forall|x: int|
            #![trigger b.slots@[x].parent]
            0 <= x < b.slots@.len() && b.slots@[x].live implies match b.slots@[x].parent {
            Some(q) => b.live_ix(q as int) && b.children_of(q as int).contains(x as usize)
                && b.depth@[x] == b.depth@[q as int] + 1,
            None => true,
        } by {
            assert(a.slots@[x].live);
            match a.slots@[x].parent {
                Some(q) => {
                    assert(a.children_of(q as int).contains(x as usize));
                    assert(b.children_of(q as int) == a.children_of(q as int));
                },
                None => {},
            }
        }
        assert forall|x: int, j: int|
            #![trigger b.slots@[x].children@[j]]
            0 <= x < b.slots@.len() && b.slots@[x].live && 0 <= j
                < b.slots@[x].children@.len() implies {
            let cc = b.slots@[x].children@[j];
            &&& b.live_ix(cc as int)
            &&& b.slots@[cc as int].parent == Some(x as usize)
        } by {
            let cc = a.slots@[x].children@[j];
            assert(a.live_ix(cc as int));
            assert(a.slots@[cc as int].parent == Some(x as usize));
        }
        assert forall|x: int, j1: int, j2: int|
            #![trigger b.slots@[x].children@[j1], b.slots@[x].children@[j2]]
            0 <= x < b.slots@.len() && b.slots@[x].live && 0 <= j1 < j2
                < b.slots@[x].children@.len() implies b.slots@[x].children@[j1]
            != b.slots@[x].children@[j2] by {
            assert(a.slots@[x].children@[j1] != a.slots@[x].children@[j2]);
        }
    }

    /// A context change at a live slot preserves the structural invariant:
    /// the invariant constrains contexts only on dead slots.
    proof fn lemma_wf_context_change(a: &Self, b: &Self, i: int)
        requires
            a.wf(),
            0 <= i < a.slots@.len(),
            a.slots@[i].live,
            b.slots@.len() == a.slots@.len(),
            b.free@ == a.free@,
            b.depth@ == a.depth@,
            forall|x: int| 0 <= x < a.slots@.len() && x != i ==> b.slots@[x] == a.slots@[x],
            b.slots@[i].live == a.slots@[i].live,
            b.slots@[i].generation == a.slots@[i].generation,
            b.slots@[i].children == a.slots@[i].children,
            b.slots@[i].parent == a.slots@[i].parent,
        ensures
            b.wf(),
    {
        assert(forall|x: int|
            0 <= x < b.slots@.len() ==> b.slots@[x].live == a.slots@[x].live
                && b.slots@[x].generation == a.slots@[x].generation && b.slots@[x].children
                == a.slots@[x].children && b.slots@[x].parent == a.slots@[x].parent);
        assert forall|j: int| 0 <= j < b.free@.len() implies (#[trigger] b.free@[j]
            < b.slots@.len() && !b.slots@[b.free@[j] as int].live) by {
            assert(a.free@[j] == b.free@[j]);
        }
        assert forall|x: int|
            0 <= x < b.slots@.len() && !(#[trigger] b.slots@[x].live) implies (
        b.slots@[x].children@.len() == 0 && b.slots@[x].parent is None && b.slots@[x].context
            is None) by {
            assert(!a.slots@[x].live);
            assert(x != i);
            assert(b.slots@[x].context == a.slots@[x].context);
        }
        assert forall|x: int|
            #![trigger b.slots@[x].parent]
            0 <= x < b.slots@.len() && b.slots@[x].live implies match b.slots@[x].parent {
            Some(q) => b.live_ix(q as int) && b.children_of(q as int).contains(x as usize)
                && b.depth@[x] == b.depth@[q as int] + 1,
            None => true,
        } by {
            assert(a.slots@[x].live);
            match a.slots@[x].parent {
                Some(q) => {
                    assert(a.children_of(q as int).contains(x as usize));
                    assert(b.children_of(q as int) == a.children_of(q as int));
                },
                None => {},
            }
        }
        assert forall|x: int, j: int|
            #![trigger b.slots@[x].children@[j]]
            0 <= x < b.slots@.len() && b.slots@[x].live && 0 <= j
                < b.slots@[x].children@.len() implies {
            let cc = b.slots@[x].children@[j];
            &&& b.live_ix(cc as int)
            &&& b.slots@[cc as int].parent == Some(x as usize)
        } by {
            let cc = a.slots@[x].children@[j];
            assert(a.live_ix(cc as int));
            assert(a.slots@[cc as int].parent == Some(x as usize));
        }
        assert forall|x: int, j1: int, j2: int|
            #![trigger b.slots@[x].children@[j1], b.slots@[x].children@[j2]]
            0 <= x < b.slots@.len() && b.slots@[x].live && 0 <= j1 < j2
                < b.slots@[x].children@.len() implies b.slots@[x].children@[j1]
            != b.slots@[x].children@[j2] by {
            assert(a.slots@[x].children@[j1] != a.slots@[x].children@[j2]);
        }
    }

    /// Whether nothing observable changed between `self` and `other`.
    pub open spec fn unchanged_view(&self, other: &Self) -> bool {
        &&& self.same_handles(other)
        &&& self.nodes_unchanged(other)
        &&& self.config_unchanged(other)
        &&& other.free_len() == self.free_len()
    }

    /// Whether every node but the one in slot `i` is unchanged between
    /// `self` and `other`, with the arena shape and configuration kept.
    pub open spec fn others_unchanged(&self, other: &Self, i: int) -> bool {
        &&& self.same_handles(other)
        &&& self.config_unchanged(other)
        &&& other.free_len() == self.free_len()
        &&& forall|x: int|
            0 <= x < self.slot_len() && x != i && #[trigger] self.live_ix(x)
                ==> self.node_unchanged(other, x)
    }

    /// Replaces a node's style wholesale. The node becomes dirty and its
    /// cache entry is dropped; its edges, geometry and context stay.
    pub fn set_style(&mut self, node: NodeId, style: Style) -> (r: Craft3dResult<()>)
        requires
            old(self).wf(),
        ensures
            final(self).wf(),
            old(self).handles_monotone(final(self)),
            r is Ok <==> old(self).live(node),
            r matches Err(e) ==> e == Craft3dError::InvalidNodeId && old(self).unchanged_view(
                final(self),
            ),
            r is Ok ==> {
                let i = node.index as int;
                &&& final(self).live(node)
                &&& old(self).others_unchanged(final(self), i)
                &&& final(self).style_of(i) == style
                &&& final(self).dirty_of(i)
                &&& final(self).cache_of(i) is None
                &&& final(self).layout_of(i) == old(self).layout_of(i)
                &&& final(self).parent_of(i) == old(self).parent_of(i)
                &&& final(self).children_of(i) == old(self).children_of(i)
                &&& final(self).context_of(i) == old(self).context_of(i)
            },
    {
        if !self.node_exists(node) {
            return Err(Craft3dError::InvalidNodeId);
        }
        let slot = &mut self.slots[node.index];
        slot.style = style;
        slot.dirty = true;
        slot.cache = None;
        proof {
            let i = node.index as int;
            assert(forall|x: int|
                0 <= x < self.slots@.len() && x != i ==> self.slots@[x] == old(self).slots@[x]);
            Self::lemma_wf_data_change(old(self), self, i);
        }
        Ok(())
    }

    /// Marks a node dirty by hand, for hosts whose content changed out of
    /// band. Nothing else about the node changes.
    pub fn mark_dirty(&mut self, node: NodeId) -> (r: Craft3dResult<()>)
        requires
            old(self).wf(),
        ensures
            final(self).wf(),
            old(self).handles_monotone(final(self)),
            r is Ok <==> old(self).live(node),
            r matches Err(e) ==> e == Craft3dError::InvalidNodeId && old(self).unchanged_view(
                final(self),
            ),
            r is Ok ==> {
                let i = node.index as int;
                &&& final(self).live(node)
                &&& old(self).others_unchanged(final(self), i)
                &&& final(self).dirty_of(i)
                &&& final(self).style_of(i) == old(self).style_of(i)
                &&& final(self).cache_of(i) == old(self).cache_of(i)
                &&& final(self).layout_of(i) == old(self).layout_of(i)
                &&& final(self).parent_of(i) == old(self).parent_of(i)
                &&& final(self).children_of(i) == old(self).children_of(i)
                &&& final(self).context_of(i) == old(self).context_of(i)
            },
    {
        if !self.node_exists(node) {
            return Err(Craft3dError::InvalidNodeId);
        }
        let slot = &mut self.slots[node.index];
        slot.dirty = true;
        proof {
            let i = node.index as int;
            assert(forall|x: int|
                0 <= x < self.slots@.len() && x != i ==> self.slots@[x] == old(self).slots@[x]);
            Self::lemma_wf_data_change(old(self), self, i);
        }
        Ok(())
    }

    /// Attaches, replaces or removes a node's opaque host context. The
    /// context belongs to the host and layout never reads it, but a node
    /// with a context reports that it requests measurement, so changing
    /// the context marks the node dirty: its cached layout may no longer
    /// reflect what measurement would say.
    pub fn set_context(&mut self, node: NodeId, context: Option<C>) -> (r: Craft3dResult<()>)
        requires
            old(self).wf(),
        ensures
            final(self).wf(),
            old(self).handles_monotone(final(self)),
            r is Ok <==> old(self).live(node),
            r matches Err(e) ==> e == Craft3dError::InvalidNodeId && old(self).unchanged_view(
                final(self),
            ),
            r is Ok ==> {
                let i = node.index as int;
                &&& final(self).live(node)
                &&& old(self).others_unchanged(final(self), i)
                &&& final(self).context_of(i) == context
                &&& final(self).dirty_of(i)
                &&& final(self).style_of(i) == old(self).style_of(i)
                &&& final(self).cache_of(i) == old(self).cache_of(i)
                &&& final(self).layout_of(i) == old(self).layout_of(i)
                &&& final(self).parent_of(i) == old(self).parent_of(i)
                &&& final(self).children_of(i) == old(self).children_of(i)
            },
    {
        if !self.node_exists(node) {
            return Err(Craft3dError::InvalidNodeId);
        }
        let slot = &mut self.slots[node.index];
        slot.context = context;
        slot.dirty = true;
        proof {
            let i = node.index as int;
            assert(forall|x: int|
                0 <= x < self.slots@.len() && x != i ==> self.slots@[x] == old(self).slots@[x]);
            // The context is the one invariant-relevant field that moved:
            // dead slots keep no context, and this slot is live.
            assert(self.slots@[i].live);
            assert(self.wf()) by {
                Self::lemma_wf_context_change(old(self), self, i);
            }
        }
        Ok(())
    }

    /// Commits one node's geometry, as a layout algorithm resolves it.
    /// This is the write half of the partial-layout capability; it leaves
    /// the dirty flag and the cache alone.
    pub fn set_layout(&mut self, node: NodeId, layout: LayoutSimple) -> (r: Craft3dResult<()>)
        requires
            old(self).wf(),
        ensures
            final(self).wf(),
            old(self).handles_monotone(final(self)),
            r is Ok <==> old(self).live(node),
            r matches Err(e) ==> e == Craft3dError::InvalidNodeId && old(self).unchanged_view(
                final(self),
            ),
            r is Ok ==> {
                let i = node.index as int;
                &&& final(self).live(node)
                &&& old(self).others_unchanged(final(self), i)
                &&& final(self).layout_of(i) == layout
                &&& final(self).style_of(i) == old(self).style_of(i)
                &&& final(self).dirty_of(i) == old(self).dirty_of(i)
                &&& final(self).cache_of(i) == old(self).cache_of(i)
                &&& final(self).parent_of(i) == old(self).parent_of(i)
                &&& final(self).children_of(i) == old(self).children_of(i)
                &&& final(self).context_of(i) == old(self).context_of(i)
            },
    {
        if !self.node_exists(node) {
            return Err(Craft3dError::InvalidNodeId);
        }
        let slot = &mut self.slots[node.index];
        slot.layout = layout;
        proof {
            let i = node.index as int;
            assert(forall|x: int|
                0 <= x < self.slots@.len() && x != i ==> self.slots@[x] == old(self).slots@[x]);
            Self::lemma_wf_data_change(old(self), self, i);
        }
        Ok(())
    }
}

} // verus!

verus! {

impl<C> Craft3dTree<C> {
    /// Whether every node but those in slots `i` and `j` is unchanged
    /// between `self` and `other`, with the arena shape and configuration
    /// kept.
    pub open spec fn others2_unchanged(&self, other: &Self, i: int, j: int) -> bool {
        &&& self.same_handles(other)
        &&& self.config_unchanged(other)
        &&& other.free_len() == self.free_len()
        &&& forall|x: int|
            0 <= x < self.slot_len() && x != i && x != j && #[trigger] self.live_ix(x)
                ==> self.node_unchanged(other, x)
    }

    /// Appends `child` to `parent`'s ordered child list and marks the
    /// parent dirty. Only a childless, parentless node other than the
    /// parent itself may be attached: children are only ever newly created
    /// or re-parented leaves, which is what keeps the structure a forest.
    /// Fails with `InvalidNodeId` when either handle is stale.
    pub fn add_child(&mut self, parent: NodeId, child: NodeId) -> (r: Craft3dResult<()>)
        requires
            old(self).wf(),
            old(self).live(parent) && old(self).live(child) ==> {
                &&& old(self).children_of(child.index as int).len() == 0
                &&& old(self).parent_of(child.index as int) is None
                &&& child.index != parent.index
            },
        ensures
            final(self).wf(),
            old(self).handles_monotone(final(self)),
            r is Ok <==> old(self).live(parent) && old(self).live(child),
            r matches Err(e) ==> e == Craft3dError::InvalidNodeId && old(self).unchanged_view(
                final(self),
            ),
            r is Ok ==> {
                let p = parent.index as int;
                let c = child.index as int;
                &&& final(self).live(parent)
                &&& final(self).live(child)
                &&& old(self).others2_unchanged(final(self), p, c)
                &&& !old(self).children_of(p).contains(child.index)
                &&& final(self).children_of(p) == old(self).children_of(p).push(child.index)
                &&& final(self).children_of(p).contains(child.index)
                &&& final(self).children_of(p).len() == old(self).children_of(p).len() + 1
                &&& final(self).parent_of(c) == Some(parent.index)
                &&& final(self).dirty_of(p)
                &&& final(self).style_of(p) == old(self).style_of(p)
                &&& final(self).cache_of(p) == old(self).cache_of(p)
                &&& final(self).layout_of(p) == old(self).layout_of(p)
                &&& final(self).parent_of(p) == old(self).parent_of(p)
                &&& final(self).context_of(p) == old(self).context_of(p)
                &&& final(self).style_of(c) == old(self).style_of(c)
                &&& final(self).dirty_of(c) == old(self).dirty_of(c)
                &&& final(self).cache_of(c) == old(self).cache_of(c)
                &&& final(self).layout_of(c) == old(self).layout_of(c)
                &&& final(self).children_of(c) == old(self).children_of(c)
                &&& final(self).context_of(c) == old(self).context_of(c)
            },
    {
        if !self.node_exists(parent) || !self.node_exists(child) {
            return Err(Craft3dError::InvalidNodeId);
        }
        let p = parent.index;
        let c = child.index;
        proof {
            // The child cannot already sit in any child list: it has no parent.
            assert forall|x: int, j: int|
                #![trigger self.slots@[x].children@[j]]
                0 <= x < self.slots@.len() && self.slots@[x].live && 0 <= j
                    < self.slots@[x].children@.len() implies self.slots@[x].children@[j]
                != child.index by {
                if self.slots@[x].children@[j] == child.index {
                    assert(self.slots@[c as int].parent == Some(x as usize));
                }
            }
        }
        self.slots[c].parent = Some(p);
        let pslot = &mut self.slots[p];
        pslot.children.push(c);
        pslot.dirty = true;
        self.depth = Ghost(self.depth@.insert(c as int, (self.depth@[p as int] + 1) as nat));
        proof {
            let s0 = old(self);
            assert(forall|x: int|
                0 <= x < self.slots@.len() && x != p as int && x != c as int ==> self.slots@[x]
                    == s0.slots@[x]);
            assert(self.slots@[p as int].children@ == s0.slots@[p as int].children@.push(c));
            assert(self.slots@[p as int].live == s0.slots@[p as int].live);
            assert(self.slots@[p as int].generation == s0.slots@[p as int].generation);
            assert(self.slots@[p as int].parent == s0.slots@[p as int].parent);
            assert(self.slots@[p as int].context == s0.slots@[p as int].context);
            assert(self.slots@[c as int].live == s0.slots@[c as int].live);
            assert(self.slots@[c as int].generation == s0.slots@[c as int].generation);
            assert(self.slots@[c as int].children == s0.slots@[c as int].children);
            assert(self.slots@[c as int].parent == Some(p));
            assert(self.slots@[c as int].context == s0.slots@[c as int].context);
            assert(self.wf()) by {
                assert(forall|x: int|
                    0 <= x < self.slots@.len() ==> self.slots@[x].live == s0.slots@[x].live
                        && self.slots@[x].generation == s0.slots@[x].generation);
                // Parent edges agree with child lists.
                assert forall|i: int|
                    0 <= i < self.slots@.len() && self.slots@[i].live implies match self.slots@[
                    i].parent {
                    Some(q) => self.live_ix(q as int) && self.children_of(q as int).contains(
                        i as usize,
                    ) && self.depth@[i] == self.depth@[q as int] + 1,
                    None => true,
                } by {
                    if i == c as int {
                        assert(self.children_of(p as int).last() == c);
                        assert(self.children_of(p as int).contains(c));
                    } else {
                        match s0.slots@[i].parent {
                            Some(q) => {
                                assert(s0.children_of(q as int).contains(i as usize));
                                let j = choose|j: int|
                                    0 <= j < s0.children_of(q as int).len() && s0.children_of(
                                        q as int,
                                    )[j] == i as usize;
                                assert(self.children_of(q as int)[j] == i as usize);
                                assert(self.children_of(q as int).contains(i as usize));
                                assert(q != child.index) by {
                                    if q == child.index {
                                        assert(s0.children_of(c as int).len() > 0);
                                    }
                                }
                                assert(self.depth@[i] == self.depth@[q as int] + 1);
                            },
                            None => {},
                        }
                    }
                }
                // Child lists point at live nodes that point back.
                assert forall|i: int, j: int|
                    #![trigger self.slots@[i].children@[j]]
                    0 <= i < self.slots@.len() && self.slots@[i].live && 0 <= j
                        < self.slots@[i].children@.len() implies {
                    let cc = self.slots@[i].children@[j];
                    &&& self.live_ix(cc as int)
                    &&& self.slots@[cc as int].parent == Some(i as usize)
                } by {
                    if i == p as int && j == self.slots@[i].children@.len() - 1 {
                    } else {
                        let cc = s0.slots@[i].children@[j];
                        assert(cc != child.index);
                        assert(self.slots@[cc as int].parent == s0.slots@[cc as int].parent);
                    }
                }
                // No duplicates in any child list.
                assert forall|i: int, j1: int, j2: int|
                    #![trigger self.slots@[i].children@[j1], self.slots@[i].children@[j2]]
                    0 <= i < self.slots@.len() && self.slots@[i].live && 0 <= j1 < j2
                        < self.slots@[i].children@.len() implies self.slots@[i].children@[j1]
                    != self.slots@[i].children@[j2] by {
                    if i == p as int && j2 == self.slots@[i].children@.len() - 1 {
                        assert(s0.slots@[i].children@[j1] != child.index);
                    }
                }
            }
        }
        Ok(())
    }
}

} // verus!

verus! {

impl<C> Craft3dTree<C> {
    /// Removes the edge from `parent` to `child` and marks the parent
    /// dirty. The child is detached, not destroyed: it stays live, keeps
    /// its data and subtree, and becomes a root. Fails with
    /// `InvalidNodeId` for a stale handle and with `ChildNotFound` when
    /// `child` is not presently a child of `parent`; in both cases the
    /// tree is unchanged.
    pub fn remove_child(&mut self, parent: NodeId, child: NodeId) -> (r: Craft3dResult<()>)
        requires
            old(self).wf(),
        ensures
            final(self).wf(),
            old(self).handles_monotone(final(self)),
            r is Ok <==> old(self).live(parent) && old(self).live(child) && old(self).children_of(
                parent.index as int,
            ).contains(child.index),
            r matches Err(e) ==> old(self).unchanged_view(final(self)) && if !old(self).live(parent)
                || !old(self).live(child) {
                e == Craft3dError::InvalidNodeId
            } else {
                e == Craft3dError::ChildNotFound
            },
            r is Ok ==> {
                let p = parent.index as int;
                let c = child.index as int;
                &&& final(self).live(parent)
                &&& final(self).live(child)
                &&& old(self).others2_unchanged(final(self), p, c)
                &&& exists|pos: int|
                    0 <= pos < old(self).children_of(p).len() && old(self).children_of(p)[pos]
                        == child.index && final(self).children_of(p) == old(self).children_of(
                        p,
                    ).remove(pos)
                &&& final(self).children_of(p).len() == old(self).children_of(p).len() - 1
                &&& !final(self).children_of(p).contains(child.index)
                &&& final(self).parent_of(c) is None
                &&& final(self).dirty_of(p)
                &&& final(self).style_of(p) == old(self).style_of(p)
                &&& final(self).cache_of(p) == old(self).cache_of(p)
                &&& final(self).layout_of(p) == old(self).layout_of(p)
                &&& final(self).parent_of(p) == old(self).parent_of(p)
                &&& final(self).context_of(p) == old(self).context_of(p)
                &&& final(self).style_of(c) == old(self).style_of(c)
                &&& final(self).dirty_of(c) == old(self).dirty_of(c)
                &&& final(self).cache_of(c) == old(self).cache_of(c)
                &&& final(self).layout_of(c) == old(self).layout_of(c)
                &&& final(self).children_of(c) == old(self).children_of(c)
                &&& final(self).context_of(c) == old(self).context_of(c)
            },
    {
        if !self.node_exists(parent) || !self.node_exists(child) {
            return Err(Craft3dError::InvalidNodeId);
        }
        let p = parent.index;
        let c = child.index;
        let total = self.slots.len();
        let n = self.slots[p].children.len();
        let mut pos: usize = 0;
        let mut found: bool = false;
        while pos < n && !found
            invariant
                self.wf(),
                self.live(parent),
                self.live(child),
                p == parent.index,
                c == child.index,
                pos <= n,
                n == self.children_of(p as int).len(),
                !found ==> forall|x: int|
                    0 <= x < pos as int ==> self.children_of(p as int)[x] != c,
                found ==> pos < n && self.children_of(p as int)[pos as int] == c,
            decreases n - pos, 1int + if found { 0int } else { 1int },
        {
            if self.slots[p].children[pos] == c {
                found = true;
            } else {
                pos = pos + 1;
            }
        }
        if !found {
            proof {
                assert(!self.children_of(p as int).contains(c)) by {
                    assert(forall|x: int|
                        0 <= x < self.children_of(p as int).len() ==> self.children_of(
                            p as int,
                        )[x] != c);
                }
            }
            return Err(Craft3dError::ChildNotFound);
        }
        let pslot = &mut self.slots[p];
        pslot.children.remove(pos);
        pslot.dirty = true;
        proof {
            // The child sat in the list exactly once, so it is gone now.
            assert(c != p) by {
                if c == p {
                    assert(old(self).slots@[p as int].parent == Some(p));
                    assert(old(self).depth@[p as int] == old(self).depth@[p as int] + 1);
                }
            }
        }
        self.slots[c].parent = None;
        proof {
            let s0 = old(self);
            assert(total == self.slots@.len());
            let kids0 = s0.slots@[p as int].children@;
            let kids1 = self.slots@[p as int].children@;
            assert(forall|x: int|
                0 <= x < self.slots@.len() && x != p as int && x != c as int ==> self.slots@[x]
                    == s0.slots@[x]);
            assert(kids1 == kids0.remove(pos as int));
            assert(forall|x: int| 0 <= x < pos as int ==> kids1[x] == kids0[x]);
            assert(forall|x: int|
                pos as int <= x < kids1.len() ==> kids1[x] == kids0[x + 1]);
            assert(!kids1.contains(c)) by {
                assert forall|x: int| 0 <= x < kids1.len() implies kids1[x] != c by {
                    if x < pos as int {
                        assert(kids0[x] != kids0[pos as int]);
                    } else {
                        assert(kids1[x] == kids0[x + 1]);
                        assert(kids0[x + 1] != kids0[pos as int]);
                    }
                }
            }
            assert(self.wf()) by {
                assert(forall|x: int|
                    0 <= x < self.slots@.len() ==> self.slots@[x].live == s0.slots@[x].live
                        && self.slots@[x].generation == s0.slots@[x].generation);
                assert forall|i: int|
                    #![trigger self.slots@[i].parent]
                    0 <= i < self.slots@.len() && self.slots@[i].live implies match self.slots@[
                    i].parent {
                    Some(q) => self.live_ix(q as int) && self.children_of(q as int).contains(
                        i as usize,
                    ) && self.depth@[i] == self.depth@[q as int] + 1,
                    None => true,
                } by {
                    if i != c as int {
                        match s0.slots@[i].parent {
                            Some(q) => {
                                assert(s0.children_of(q as int).contains(i as usize));
                                let j = choose|j: int|
                                    0 <= j < s0.children_of(q as int).len() && s0.children_of(
                                        q as int,
                                    )[j] == i as usize;
                                if q == p {
                                    assert(kids0[j] == i as usize);
                                    assert(i as usize != c);
                                    assert(j != pos as int);
                                    if j < pos as int {
                                        assert(kids1[j] == i as usize);
                                    } else {
                                        assert(kids1[j - 1] == kids0[j]);
                                    }
                                    assert(kids1.contains(i as usize));
                                } else {
                                    assert(self.children_of(q as int) == s0.children_of(q as int));
                                    assert(self.children_of(q as int).contains(i as usize));
                                }
                            },
                            None => {},
                        }
                    }
                }
                assert forall|i: int, j: int|
                    #![trigger self.slots@[i].children@[j]]
                    0 <= i < self.slots@.len() && self.slots@[i].live && 0 <= j
                        < self.slots@[i].children@.len() implies {
                    let cc = self.slots@[i].children@[j];
                    &&& self.live_ix(cc as int)
                    &&& self.slots@[cc as int].parent == Some(i as usize)
                } by {
                    if i == p as int {
                        let cc = kids1[j];
                        assert(kids1[j] != c);
                        if j < pos as int {
                            assert(kids0[j] == cc);
                        } else {
                            assert(kids0[j + 1] == cc);
                        }
                        assert(s0.slots@[cc as int].parent == Some(p));
                        assert(self.slots@[cc as int].parent == Some(p));
                    } else {
                        let cc = self.slots@[i].children@[j];
                        assert(s0.slots@[i].children@[j] == cc);
                        assert(s0.slots@[cc as int].parent == Some(i as usize));
                        assert(cc != c) by {
                            if cc == c {
                                assert(s0.slots@[c as int].parent == Some(p));
                            }
                        }
                    }
                }
                assert forall|i: int, j1: int, j2: int|
                    #![trigger self.slots@[i].children@[j1], self.slots@[i].children@[j2]]
                    0 <= i < self.slots@.len() && self.slots@[i].live && 0 <= j1 < j2
                        < self.slots@[i].children@.len() implies self.slots@[i].children@[j1]
                    != self.slots@[i].children@[j2] by {
                    if i == p as int {
                        let a1: int = if j1 < pos as int { j1 } else { j1 + 1 };
                        let a2: int = if j2 < pos as int { j2 } else { j2 + 1 };
                        assert(kids1[j1] == kids0[a1]);
                        assert(kids1[j2] == kids0[a2]);
                        assert(kids0[a1] != kids0[a2]);
                    }
                }
            }
        }
        Ok(())
    }
}

} // verus!

verus! {

impl<C> Craft3dTree<C> {
    /// Destroys a node: detaches it from its parent (marking the parent
    /// dirty), turns each of its children into a root, clears the slot and
    /// bumps the slot's generation, so the removed handle — and every
    /// other handle issued for the old occupant — never names a node
    /// again. The slot is then free for reuse under the new generation.
    /// Fails with `InvalidNodeId` for a stale handle, and with
    /// `CapacityExceeded` in the unreachable case that the slot's
    /// generation counter is exhausted; the tree is unchanged on failure.
    #[verifier::rlimit(100)]
    pub fn remove(&mut self, node: NodeId) -> (r: Craft3dResult<()>)
        requires
            old(self).wf(),
        ensures
            final(self).wf(),
            old(self).handles_monotone(final(self)),
            r is Ok <==> old(self).live(node) && old(self).gen_of(node.index as int) < u64::MAX,
            r matches Err(e) ==> old(self).unchanged_view(final(self)) && if !old(self).live(node) {
                e == Craft3dError::InvalidNodeId
            } else {
                e == Craft3dError::CapacityExceeded
            },
            r is Ok ==> {
                let i = node.index as int;
                &&& !final(self).live_ix(i)
                &&& final(self).gen_of(i) > node.generation
                &&& final(self).slot_len() == old(self).slot_len()
                &&& old(self).config_unchanged(final(self))
                &&& forall|x: int|
                    0 <= x < old(self).slot_len() && x != i ==> old(self).live_ix(x) == #[trigger]
                        final(self).live_ix(x) && old(self).gen_of(x) == final(self).gen_of(x)
                &&& forall|j: int|
                    0 <= j < old(self).children_of(i).len() ==> {
                        let ci = #[trigger] old(self).children_of(i)[j] as int;
                        &&& final(self).parent_of(ci) is None
                        &&& final(self).style_of(ci) == old(self).style_of(ci)
                        &&& final(self).dirty_of(ci) == old(self).dirty_of(ci)
                        &&& final(self).cache_of(ci) == old(self).cache_of(ci)
                        &&& final(self).layout_of(ci) == old(self).layout_of(ci)
                        &&& final(self).children_of(ci) == old(self).children_of(ci)
                        &&& final(self).context_of(ci) == old(self).context_of(ci)
                    }
                &&& match old(self).parent_of(i) {
                    Some(p) => {
                        &&& final(self).dirty_of(p as int)
                        &&& !final(self).children_of(p as int).contains(node.index)
                        &&& final(self).children_of(p as int).len() == old(self).children_of(
                            p as int,
                        ).len() - 1
                        &&& exists|pos: int|
                            0 <= pos < old(self).children_of(p as int).len() && old(
                                self,
                            ).children_of(p as int)[pos] == node.index && final(self).children_of(
                                p as int,
                            ) == old(self).children_of(p as int).remove(pos)
                        &&& final(self).style_of(p as int) == old(self).style_of(p as int)
                        &&& final(self).cache_of(p as int) == old(self).cache_of(p as int)
                        &&& final(self).layout_of(p as int) == old(self).layout_of(p as int)
                        &&& final(self).parent_of(p as int) == old(self).parent_of(p as int)
                        &&& final(self).context_of(p as int) == old(self).context_of(p as int)
                    },
                    None => true,
                }
                &&& forall|x: int|
                    0 <= x < old(self).slot_len() && #[trigger] old(self).live_ix(x) && x != i
                        && Some(x as usize) != old(self).parent_of(i) && !old(self).children_of(
                        i,
                    ).contains(x as usize) ==> old(self).node_unchanged(final(self), x)
            },
    {
        if !self.node_exists(node) {
            return Err(Craft3dError::InvalidNodeId);
        }
        let i = node.index;
        let total = self.slots.len();
        if self.slots[i].generation == u64::MAX {
            return Err(Craft3dError::CapacityExceeded);
        }
        let ghost s0 = *self;
        let ghost kids0 = self.slots@[i as int].children@;

        // Every child of the node becomes a root.
        let kid_count = self.slots[i].children.len();
        let mut j: usize = 0;
        while j < kid_count
            invariant
                s0.wf(),
                s0 == *old(self),
                s0.live(node),
                i == node.index,
                total == s0.slots@.len(),
                self.slots@.len() == total,
                j <= kid_count,
                kids0 == s0.slots@[i as int].children@,
                kid_count == kids0.len(),
                self.slots@[i as int] == s0.slots@[i as int],
                self.free@ == s0.free@,
                self.depth@ == s0.depth@,
                self.capacity == s0.capacity,
                self.use_rounding == s0.use_rounding,
                forall|x: int|
                    0 <= x < total && x != i as int && (forall|y: int|
                        0 <= y < j as int ==> kids0[y] != x as usize) ==> self.slots@[x]
                        == s0.slots@[x],
                forall|y: int|
                    0 <= y < j as int ==> {
                        let ci = #[trigger] kids0[y] as int;
                        &&& self.slots@[ci].parent is None
                        &&& self.slots@[ci].live == s0.slots@[ci].live
                        &&& self.slots@[ci].generation == s0.slots@[ci].generation
                        &&& self.slots@[ci].style == s0.slots@[ci].style
                        &&& self.slots@[ci].dirty == s0.slots@[ci].dirty
                        &&& self.slots@[ci].cache == s0.slots@[ci].cache
                        &&& self.slots@[ci].layout == s0.slots@[ci].layout
                        &&& self.slots@[ci].children == s0.slots@[ci].children
                        &&& self.slots@[ci].context == s0.slots@[ci].context
                    },
            decreases kid_count - j,
        {
            let ci = self.slots[i].children[j];
            proof {
                assert(s0.slots@[ci as int].parent == Some(i));
                assert(ci != i) by {
                    if ci == i {
                        assert(s0.depth@[i as int] == s0.depth@[i as int] + 1);
                    }
                }
                assert(ci < total) by {
                    assert(s0.live_ix(ci as int));
                }
                // This child was not orphaned yet: children are distinct.
                assert(forall|y: int| 0 <= y < j as int ==> kids0[y] != ci);
                assert(self.slots@[ci as int] == s0.slots@[ci as int]);
            }
            self.slots[ci].parent = None;
            j = j + 1;
        }

        // Detach the node from its parent, if it has one.
        let parent_opt = self.slots[i].parent;
        let ghost mut ppos: int = 0;
        proof {
            match parent_opt {
                Some(p) => {
                    // The parent is not the node, nor one of its children.
                    assert(s0.slots@[i as int].parent == Some(p));
                    assert(s0.live_ix(p as int));
                    assert(s0.children_of(p as int).contains(i));
                    assert(p != i) by {
                        if p == i {
                            assert(s0.depth@[i as int] == s0.depth@[i as int] + 1);
                        }
                    }
                    assert(!kids0.contains(p)) by {
                        if kids0.contains(p) {
                            let y = choose|y: int| 0 <= y < kids0.len() && kids0[y] == p;
                            assert(s0.slots@[p as int].parent == Some(i));
                            assert(s0.depth@[p as int] == s0.depth@[i as int] + 1);
                            assert(s0.depth@[i as int] == s0.depth@[p as int] + 1);
                        }
                    }
                    assert(forall|y: int| 0 <= y < kids0.len() ==> kids0[y] != p);
                    assert(self.slots@[p as int] == s0.slots@[p as int]);
                },
                None => {},
            }
        }
        match parent_opt {
            Some(p) => {
                let plen = self.slots[p].children.len();
                let mut pos: usize = 0;
                while pos < plen && self.slots[p].children[pos] != i
                    invariant
                        pos <= plen,
                        p < total,
                        i < total,
                        self.slots@.len() == total,
                        plen == self.slots@[p as int].children@.len(),
                        forall|x: int|
                            0 <= x < pos as int ==> self.slots@[p as int].children@[x] != i,
                    decreases plen - pos,
                {
                    pos = pos + 1;
                }
                proof {
                    assert(self.slots@[p as int].children@ == s0.children_of(p as int));
                    assert(pos < plen) by {
                        if pos == plen {
                            let y = choose|y: int|
                                0 <= y < s0.children_of(p as int).len() && s0.children_of(
                                    p as int,
                                )[y] == i;
                            assert(self.slots@[p as int].children@[y] != i);
                        }
                    }
                }
                proof {
                    ppos = pos as int;
                }
                let pslot = &mut self.slots[p];
                pslot.children.remove(pos);
                pslot.dirty = true;
            },
            None => {},
        }

        // Clear the slot under a bumped generation and queue it for reuse.
        let generation = self.slots[i].generation + 1;
        let style = self.slots[i].style;
        let layout = self.slots[i].layout;
        self.slots[i] = Slot {
            generation,
            live: false,
            style,
            dirty: false,
            cache: None,
            layout,
            parent: None,
            children: Vec::new(),
            context: None,
        };
        self.free.push(i);
        proof {
            assert(!s0.free@.contains(i)) by {
                if s0.free@.contains(i) {
                    let y = choose|y: int| 0 <= y < s0.free@.len() && s0.free@[y] == i;
                    assert(!s0.slots@[i as int].live);
                }
            }
            // No child of the removed node was the node itself, nor its parent.
            assert forall|y: int| 0 <= y < kids0.len() implies kids0[y] != i && Some(
                kids0[y],
            ) != parent_opt by {
                assert(s0.slots@[kids0[y] as int].parent == Some(i));
                if kids0[y] == i {
                    assert(s0.depth@[i as int] == s0.depth@[i as int] + 1);
                }
                if Some(kids0[y]) == parent_opt {
                    let q = kids0[y] as int;
                    assert(s0.depth@[q] == s0.depth@[i as int] + 1);
                    assert(s0.depth@[i as int] == s0.depth@[q] + 1);
                }
            }
            // Frame: untouched slots kept their whole record.
            assert forall|x: int|
                0 <= x < total && x != i as int && Some(x as usize) != parent_opt
                    && !kids0.contains(x as usize) implies self.slots@[x] == s0.slots@[x] by {
                assert(forall|y: int| 0 <= y < kids0.len() ==> kids0[y] != x as usize);
            }
            // Each orphan kept everything but its parent edge.
            assert(forall|y: int|
                0 <= y < kids0.len() ==> {
                    let ci = #[trigger] kids0[y] as int;
                    &&& self.slots@[ci].parent is None
                    &&& self.slots@[ci].live == s0.slots@[ci].live
                    &&& self.slots@[ci].generation == s0.slots@[ci].generation
                    &&& self.slots@[ci].children == s0.slots@[ci].children
                    &&& self.slots@[ci].context == s0.slots@[ci].context
                });
            // What happened to the parent's record, where there is one.
            match parent_opt {
                Some(p) => {
                    assert(self.slots@[p as int].children@ == s0.children_of(p as int).remove(
                        ppos,
                    ));
                    assert(0 <= ppos < s0.children_of(p as int).len());
                    assert(s0.children_of(p as int)[ppos] == i);
                    assert(self.slots@[p as int].live == s0.slots@[p as int].live);
                    assert(self.slots@[p as int].generation == s0.slots@[p as int].generation);
                    assert(self.slots@[p as int].parent == s0.slots@[p as int].parent);
                    assert(self.slots@[p as int].context == s0.slots@[p as int].context);
                },
                None => {},
            }
            assert(self.wf()) by {
                let fin = self;
                // Liveness and generations moved only at the cleared slot.
                assert(forall|x: int|
                    0 <= x < total && x != i as int ==> fin.slots@[x].live == s0.slots@[x].live
                        && fin.slots@[x].generation == s0.slots@[x].generation
                        && fin.slots@[x].context == s0.slots@[x].context);
                // Freed entries are valid, dead and distinct.
                assert forall|j2: int| 0 <= j2 < fin.free@.len() implies (#[trigger] fin.free@[j2]
                    < fin.slots@.len() && !fin.slots@[fin.free@[j2] as int].live) by {
                    if j2 < s0.free@.len() {
                        assert(s0.free@[j2] == fin.free@[j2]);
                        assert(!s0.slots@[fin.free@[j2] as int].live);
                        assert(fin.free@[j2] != i);
                    }
                }
                // Dead slots carry nothing.
                assert forall|x: int|
                    0 <= x < fin.slots@.len() && !(#[trigger] fin.slots@[x].live) implies (
                fin.slots@[x].children@.len() == 0 && fin.slots@[x].parent is None
                    && fin.slots@[x].context is None) by {
                    if x != i as int {
                        assert(!s0.slots@[x].live);
                        assert(!kids0.contains(x as usize)) by {
                            if kids0.contains(x as usize) {
                                let y = choose|y: int|
                                    0 <= y < kids0.len() && kids0[y] == x as usize;
                                assert(s0.live_ix(x));
                            }
                        }
                        assert(Some(x as usize) != parent_opt) by {
                            if Some(x as usize) == parent_opt {
                                assert(s0.live_ix(x));
                            }
                        }
                        assert(fin.slots@[x] == s0.slots@[x]);
                    }
                }
                // Parent edges agree with child lists and depths.
                assert forall|x: int|
                    #![trigger fin.slots@[x].parent]
                    0 <= x < fin.slots@.len() && fin.slots@[x].live implies match fin.slots@[
                x].parent {
                    Some(q) => fin.live_ix(q as int) && fin.children_of(q as int).contains(
                        x as usize,
                    ) && fin.depth@[x] == fin.depth@[q as int] + 1,
                    None => true,
                } by {
                    assert(x != i as int);
                    if !kids0.contains(x as usize) {
                        match s0.slots@[x].parent {
                            Some(q) => {
                                assert(fin.slots@[x].parent == Some(q));
                                assert(q != i) by {
                                    if q == i {
                                        assert(s0.children_of(i as int).contains(x as usize));
                                    }
                                }
                                assert(s0.children_of(q as int).contains(x as usize));
                                let y = choose|y: int|
                                    0 <= y < s0.children_of(q as int).len() && s0.children_of(
                                        q as int,
                                    )[y] == x as usize;
                                if Some(q) == parent_opt {
                                    // x stays in the shortened list.
                                    assert(y != ppos);
                                    if y < ppos {
                                        assert(fin.children_of(q as int)[y] == x as usize);
                                    } else {
                                        assert(fin.children_of(q as int)[y - 1] == s0.children_of(
                                            q as int,
                                        )[y]);
                                    }
                                    assert(fin.children_of(q as int).contains(x as usize));
                                } else {
                                    assert(fin.slots@[q as int].children == s0.slots@[
                                    q as int].children);
                                    assert(fin.children_of(q as int).contains(x as usize));
                                }
                                assert(fin.depth@ == s0.depth@);
                            },
                            None => {},
                        }
                    }
                }
                // Child lists point at live nodes that point back.
                assert forall|x: int, y: int|
                    #![trigger fin.slots@[x].children@[y]]
                    0 <= x < fin.slots@.len() && fin.slots@[x].live && 0 <= y
                        < fin.slots@[x].children@.len() implies {
                    let cc = fin.slots@[x].children@[y];
                    &&& fin.live_ix(cc as int)
                    &&& fin.slots@[cc as int].parent == Some(x as usize)
                } by {
                    assert(x != i as int);
                    if Some(x as usize) == parent_opt {
                        let cc = fin.slots@[x].children@[y];
                        let a: int = if y < ppos { y } else { y + 1 };
                        assert(cc == s0.children_of(x)[a]);
                        assert(cc != i);
                        assert(s0.slots@[cc as int].parent == Some(x as usize));
                        assert(!kids0.contains(cc)) by {
                            if kids0.contains(cc) {
                                let z = choose|z: int| 0 <= z < kids0.len() && kids0[z] == cc;
                                assert(s0.slots@[cc as int].parent == Some(i));
                            }
                        }
                        assert(fin.slots@[cc as int].parent == Some(x as usize));
                        assert(fin.live_ix(cc as int));
                    } else {
                        let cc = s0.slots@[x].children@[y];
                        assert(fin.slots@[x].children@[y] == cc);
                        assert(s0.slots@[cc as int].parent == Some(x as usize));
                        assert(cc != i) by {
                            if cc == i {
                                assert(s0.slots@[i as int].parent == Some(x as usize));
                            }
                        }
                        assert(!kids0.contains(cc)) by {
                            if kids0.contains(cc) {
                                let z = choose|z: int| 0 <= z < kids0.len() && kids0[z] == cc;
                                assert(s0.slots@[cc as int].parent == Some(i));
                            }
                        }
                        assert(fin.slots@[cc as int].parent == Some(x as usize));
                        assert(fin.live_ix(cc as int));
                    }
                }
                // No duplicates in any child list.
                assert forall|x: int, y1: int, y2: int|
                    #![trigger fin.slots@[x].children@[y1], fin.slots@[x].children@[y2]]
                    0 <= x < fin.slots@.len() && fin.slots@[x].live && 0 <= y1 < y2
                        < fin.slots@[x].children@.len() implies fin.slots@[x].children@[y1]
                    != fin.slots@[x].children@[y2] by {
                    if Some(x as usize) == parent_opt {
                        let a1: int = if y1 < ppos { y1 } else { y1 + 1 };
                        let a2: int = if y2 < ppos { y2 } else { y2 + 1 };
                        assert(fin.slots@[x].children@[y1] == s0.children_of(x)[a1]);
                        assert(fin.slots@[x].children@[y2] == s0.children_of(x)[a2]);
                    } else {
                        assert(fin.slots@[x].children@ == s0.slots@[x].children@);
                    }
                }
            }
        }
        Ok(())
    }
}

} // verus!

verus! {

impl<C> Craft3dTree<C> {
    /// Whether the cache of slot `i` answers `input` with no work: the
    /// node is clean and the stored request matches exactly. A partial
    /// match is a miss.
    pub open spec fn cache_hit(&self, i: int, input: LayoutInput) -> bool {
        &&& !self.dirty_of(i)
        &&& match self.cache_of(i) {
            Some(e) => e.input == input,
            None => false,
        }
    }

    /// Whether a layout pass may have run between `self` and `other`:
    /// handles, configuration, styles, edges and contexts are untouched;
    /// only dirty flags, caches and geometry may differ.
    pub open spec fn layout_pass_frame(&self, other: &Self) -> bool {
        &&& self.same_handles(other)
        &&& self.config_unchanged(other)
        &&& other.free_len() == self.free_len()
        &&& forall|x: int|
            0 <= x < self.slot_len() && #[trigger] self.live_ix(x) ==> other.style_of(x)
                == self.style_of(x) && other.parent_of(x) == self.parent_of(x)
                && other.children_of(x) == self.children_of(x) && other.context_of(x)
                == self.context_of(x)
    }

    /// Layout-pass frames compose: two passes in a row still form one.
    pub proof fn lemma_frame_trans(a: &Self, b: &Self, c: &Self)
        requires
            a.layout_pass_frame(b),
            b.layout_pass_frame(c),
        ensures
            a.layout_pass_frame(c),
            a.handles_monotone(c),
    {
        assert forall|x: int| 0 <= x < a.slot_len() implies (#[trigger] a.live_ix(x))
            == c.live_ix(x) && a.gen_of(x) == c.gen_of(x) by {
            assert(a.live_ix(x) == b.live_ix(x));
            assert(a.gen_of(x) == b.gen_of(x));
        }
        assert forall|x: int|
            0 <= x < a.slot_len() && #[trigger] a.live_ix(x) implies c.style_of(x) == a.style_of(
            x,
        ) && c.parent_of(x) == a.parent_of(x) && c.children_of(x) == a.children_of(x)
            && c.context_of(x) == a.context_of(x) by {
            assert(b.live_ix(x));
        }
        assert forall|x: int| 0 <= x < a.slot_len() implies a.gen_of(x) <= #[trigger] c.gen_of(
            x,
        ) by {
            assert(a.live_ix(x) == b.live_ix(x));
            assert(a.gen_of(x) == b.gen_of(x));
            assert(b.live_ix(x) == c.live_ix(x));
            assert(b.gen_of(x) == c.gen_of(x));
        }
    }

    /// A layout pass followed by a rounding sweep still forms one layout
    /// pass.
    pub proof fn lemma_frame_then_rounding(a: &Self, b: &Self, c: &Self)
        requires
            a.layout_pass_frame(b),
            b.rounding_frame(c),
        ensures
            a.layout_pass_frame(c),
            a.handles_monotone(c),
    {
        assert forall|x: int| 0 <= x < a.slot_len() implies (#[trigger] a.live_ix(x))
            == c.live_ix(x) && a.gen_of(x) == c.gen_of(x) by {
            assert(a.live_ix(x) == b.live_ix(x));
            assert(a.gen_of(x) == b.gen_of(x));
        }
        assert forall|x: int|
            0 <= x < a.slot_len() && #[trigger] a.live_ix(x) implies c.style_of(x) == a.style_of(
            x,
        ) && c.parent_of(x) == a.parent_of(x) && c.children_of(x) == a.children_of(x)
            && c.context_of(x) == a.context_of(x) by {
            assert(b.live_ix(x));
        }
        assert forall|x: int| 0 <= x < a.slot_len() implies a.gen_of(x) <= #[trigger] c.gen_of(
            x,
        ) by {
            assert(a.live_ix(x) == b.live_ix(x));
            assert(a.gen_of(x) == b.gen_of(x));
            assert(b.live_ix(x) == c.live_ix(x));
            assert(b.gen_of(x) == c.gen_of(x));
        }
    }

    /// Rounding frames compose the same way.
    pub proof fn lemma_rounding_frame_trans(a: &Self, b: &Self, c: &Self)
        requires
            a.rounding_frame(b),
            b.rounding_frame(c),
        ensures
            a.rounding_frame(c),
            a.handles_monotone(c),
    {
        assert forall|x: int| 0 <= x < a.slot_len() implies (#[trigger] a.live_ix(x))
            == c.live_ix(x) && a.gen_of(x) == c.gen_of(x) by {
            assert(a.live_ix(x) == b.live_ix(x));
            assert(a.gen_of(x) == b.gen_of(x));
        }
        assert forall|x: int|
            0 <= x < a.slot_len() && #[trigger] a.live_ix(x) implies c.style_of(x) == a.style_of(
            x,
        ) && c.parent_of(x) == a.parent_of(x) && c.children_of(x) == a.children_of(x)
            && c.context_of(x) == a.context_of(x) && c.dirty_of(x) == a.dirty_of(x)
            && c.cache_of(x) == a.cache_of(x) by {
            assert(b.live_ix(x));
        }
        assert forall|x: int| 0 <= x < a.slot_len() implies a.gen_of(x) <= #[trigger] c.gen_of(
            x,
        ) by {
            assert(a.live_ix(x) == b.live_ix(x));
            assert(a.gen_of(x) == b.gen_of(x));
            assert(b.live_ix(x) == c.live_ix(x));
            assert(b.gen_of(x) == c.gen_of(x));
        }
    }

    /// Whether the subtree under slot `i` is shallower than `fuel`: every
    /// downward path ends within `fuel` parent-to-child steps. A recursive
    /// pass given a budget of `fuel` succeeds on such a subtree.
    pub open spec fn subtree_within(&self, i: int, fuel: nat) -> bool
        decreases fuel,
    {
        fuel > 0 && forall|j: int|
            0 <= j < self.children_of(i).len() ==> self.subtree_within(
                #[trigger] self.children_of(i)[j] as int,
                (fuel - 1) as nat,
            )
    }

    /// A pass that leaves handles and edges alone leaves every subtree
    /// bound alone.
    pub proof fn lemma_same_edges_same_subtree(a: &Self, b: &Self, i: int, fuel: nat)
        requires
            a.wf(),
            a.live_ix(i),
            a.same_handles(b),
            forall|x: int|
                0 <= x < a.slot_len() && #[trigger] a.live_ix(x) ==> a.children_of(x)
                    == b.children_of(x),
            a.subtree_within(i, fuel),
        ensures
            b.subtree_within(i, fuel),
        decreases fuel,
    {
        assert(a.children_of(i) == b.children_of(i));
        assert forall|j: int| 0 <= j < b.children_of(i).len() implies b.subtree_within(
            #[trigger] b.children_of(i)[j] as int,
            (fuel - 1) as nat,
        ) by {
            let c = a.children_of(i)[j] as int;
            assert(a.subtree_within(c, (fuel - 1) as nat));
            assert(a.live_ix(c)) by {
                assert(a.slots@[i].children@[j] == a.children_of(i)[j]);
            }
            Self::lemma_same_edges_same_subtree(a, b, c, (fuel - 1) as nat);
        }
    }

    /// The child slot indices of slot `ix`, copied out.
    fn copy_children(&self, ix: usize) -> (r: Vec<usize>)
        requires
            self.wf(),
            self.live_ix(ix as int),
        ensures
            r@ == self.children_of(ix as int),
    {
        let n = self.slots[ix].children.len();
        let mut r: Vec<usize> = Vec::new();
        let mut j: usize = 0;
        while j < n
            invariant
                j <= n,
                ix < self.slots@.len(),
                n == self.children_of(ix as int).len(),
                r@.len() == j as int,
                forall|x: int| 0 <= x < j as int ==> r@[x] == self.children_of(ix as int)[x],
            decreases n - j,
        {
            let c = self.slots[ix].children[j];
            r.push(c);
            j = j + 1;
        }
        proof {
            assert(r@ =~= self.children_of(ix as int));
        }
        r
    }

    /// Resolves the subtree under slot `ix` for `input`, bottom-up. A
    /// clean node whose cache matches is served from the cache, its
    /// subtree untouched and the algorithm not consulted. Otherwise every
    /// child is resolved first, the algorithm maps the node's style, the
    /// request and the children's results to the node's result, and the
    /// result is cached; the node comes out clean. A subtree deeper than
    /// the budget fails with `CapacityExceeded`.
    fn solve<A: LayoutAlgorithm>(
        &mut self,
        algo: &mut A,
        ix: usize,
        input: LayoutInput,
        budget: usize,
    ) -> (r: Result<LayoutOutput, Craft3dError>)
        requires
            old(self).wf(),
            old(self).live_ix(ix as int),
        ensures
            final(self).wf(),
            old(self).handles_monotone(final(self)),
            old(self).layout_pass_frame(final(self)),
            old(self).cache_hit(ix as int, input) ==> old(self).nodes_unchanged(final(self))
                && *final(algo) == *old(algo) && match old(self).cache_of(ix as int) {
                Some(e) => r == Ok::<LayoutOutput, Craft3dError>(e.output),
                None => false,
            },
            old(self).subtree_within(ix as int, budget as nat) ==> r is Ok,
            r matches Ok(out) ==> {
                &&& !final(self).dirty_of(ix as int)
                &&& final(self).cache_of(ix as int) == Some(CacheEntry { input, output: out })
            },
            !old(self).cache_hit(ix as int, input) && input.run_mode == RunMode::PerformLayout
                ==> (r matches Ok(out) ==> final(self).layout_of(ix as int).width == out.width
                && final(self).layout_of(ix as int).height == out.height),
            r matches Err(e) ==> e == Craft3dError::CapacityExceeded,
        decreases budget,
    {
        let ghost s0 = *old(self);
        // A clean node with a matching cache entry is a hit; nothing runs.
        let cache_answer = {
            match &self.slots[ix].cache {
                Some(e) => {
                    if !self.slots[ix].dirty && e.input == input {
                        Some(e.output)
                    } else {
                        None
                    }
                },
                None => None,
            }
        };
        match cache_answer {
            Some(out) => {
                return Ok(out);
            },
            None => {},
        }
        if budget == 0 {
            return Err(Craft3dError::CapacityExceeded);
        }

        let kids = self.copy_children(ix);
        let mut outs: Vec<LayoutOutput> = Vec::new();
        let mut j: usize = 0;
        while j < kids.len()
            invariant
                budget >= 1,
                self.wf(),
                s0 == *old(self),
                !s0.cache_hit(ix as int, input),
                s0.wf(),
                s0.live_ix(ix as int),
                ix < s0.slot_len(),
                kids@ == s0.children_of(ix as int),
                s0.handles_monotone(self),
                s0.layout_pass_frame(self),
                j <= kids@.len(),
                outs@.len() == j as int,
                forall|x: int|
                    0 <= x < kids@.len() ==> s0.live_ix(#[trigger] kids@[x] as int),
            decreases kids@.len() - j,
        {
            let ci = kids[j];
            proof {
                assert(s0.live_ix(ci as int));
                assert(self.live_ix(ci as int));
            }
            let ghost mid = *self;
            let sub = self.solve(algo, ci, input, budget - 1);
            proof {
                Self::lemma_frame_trans(&s0, &mid, self);
                if s0.subtree_within(ix as int, budget as nat) {
                    assert(s0.subtree_within(ci as int, (budget - 1) as nat));
                    Self::lemma_same_edges_same_subtree(
                        &s0,
                        &mid,
                        ci as int,
                        (budget - 1) as nat,
                    );
                    assert(sub is Ok);
                }
            }
            match sub {
                Ok(out) => {
                    outs.push(out);
                },
                Err(e) => {
                    return Err(e);
                },
            }
            j = j + 1;
        }

        let style = self.slots[ix].style;
        let out = algo.run(&style, input, &outs);
        let ghost before = *self;
        let slot = &mut self.slots[ix];
        slot.cache = Some(CacheEntry { input, output: out });
        slot.dirty = false;
        if matches!(input.run_mode, RunMode::PerformLayout) {
            let x = slot.layout.x;
            let y = slot.layout.y;
            slot.layout = LayoutSimple { width: out.width, height: out.height, x, y };
        }
        proof {
            let i = ix as int;
            assert(forall|x: int|
                0 <= x < self.slots@.len() && x != i ==> self.slots@[x] == before.slots@[x]);
            Self::lemma_wf_data_change(&before, self, i);
            assert(before.layout_pass_frame(self)) by {
                assert(forall|x: int|
                    0 <= x < self.slots@.len() ==> self.slots@[x].live == before.slots@[x].live
                        && self.slots@[x].generation == before.slots@[x].generation);
            }
            Self::lemma_frame_trans(&s0, &before, self);
        }
        Ok(out)
    }

    /// Resolves geometry for the subtree under `node`, given the
    /// available space per axis. The pass runs with the inherent sizing
    /// mode and commits geometry. A clean node whose cache matches the
    /// request is served from the cache without consulting the algorithm
    /// at all; otherwise the algorithm runs per node, bottom-up, the
    /// results are cached, and the node comes out clean. When rounding is
    /// enabled, a freshly computed pass is followed by the rounding sweep.
    /// Returns the node's committed geometry.
    pub fn compute_layout<A: LayoutAlgorithm>(
        &mut self,
        algo: &mut A,
        node: NodeId,
        available_width: AvailableSpace,
        available_height: AvailableSpace,
    ) -> (r: Craft3dResult<LayoutSimple>)
        requires
            old(self).wf(),
        ensures
            final(self).wf(),
            old(self).handles_monotone(final(self)),
            !old(self).live(node) ==> r == Err::<LayoutSimple, Craft3dError>(
                Craft3dError::InvalidNodeId,
            ) && old(self).unchanged_view(final(self)) && *final(algo) == *old(algo),
            old(self).live(node) ==> old(self).layout_pass_frame(final(self)),
            old(self).live(node) && old(self).cache_hit(
                node.index as int,
                layout_request(available_width, available_height),
            ) ==> old(self).nodes_unchanged(final(self)) && *final(algo) == *old(algo) && r
                == Ok::<LayoutSimple, Craft3dError>(old(self).layout_of(node.index as int)),
            old(self).live(node) && old(self).subtree_within(
                node.index as int,
                MAX_DEPTH as nat,
            ) ==> r is Ok,
            r matches Ok(l) ==> {
                &&& old(self).live(node)
                &&& final(self).live(node)
                &&& !final(self).dirty_of(node.index as int)
                &&& match final(self).cache_of(node.index as int) {
                    Some(e) => e.input == layout_request(available_width, available_height),
                    None => false,
                }
                &&& l == final(self).layout_of(node.index as int)
            },
            r matches Err(e) ==> e == Craft3dError::InvalidNodeId || e
                == Craft3dError::CapacityExceeded,
    {
        if !self.node_exists(node) {
            return Err(Craft3dError::InvalidNodeId);
        }
        let input = LayoutInput {
            available_width,
            available_height,
            sizing_mode: SizingMode::InherentSize,
            run_mode: RunMode::PerformLayout,
        };
        let hit = {
            match &self.slots[node.index].cache {
                Some(e) => !self.slots[node.index].dirty && e.input == input,
                None => false,
            }
        };
        let ghost s0 = *old(self);
        let solved = self.solve(algo, node.index, input, MAX_DEPTH);
        proof {
            if s0.subtree_within(node.index as int, MAX_DEPTH as nat) {
                assert(solved is Ok);
            }
        }
        match solved {
            Ok(_) => {},
            Err(e) => {
                return Err(e);
            },
        }
        if !hit && self.use_rounding {
            let ghost mid = *self;
            proof {
                if s0.subtree_within(node.index as int, MAX_DEPTH as nat) {
                    Self::lemma_same_edges_same_subtree(
                        &s0,
                        &mid,
                        node.index as int,
                        MAX_DEPTH as nat,
                    );
                }
            }
            let rounded = self.round_subtree_inner(node.index, MAX_DEPTH);
            proof {
                if s0.subtree_within(node.index as int, MAX_DEPTH as nat) {
                    assert(rounded is Ok);
                }
            }
            match rounded {
                Ok(_) => {},
                Err(e) => {
                    return Err(e);
                },
            }
        }
        Ok(self.slots[node.index].layout)
    }
}


impl<C> Craft3dTree<C> {
    /// Whether a rounding sweep may have run between `self` and `other`:
    /// everything is untouched but geometry.
    pub open spec fn rounding_frame(&self, other: &Self) -> bool {
        &&& self.same_handles(other)
        &&& self.config_unchanged(other)
        &&& other.free_len() == self.free_len()
        &&& forall|x: int|
            0 <= x < self.slot_len() && #[trigger] self.live_ix(x) ==> other.style_of(x)
                == self.style_of(x) && other.parent_of(x) == self.parent_of(x)
                && other.children_of(x) == self.children_of(x) && other.context_of(x)
                == self.context_of(x) && other.dirty_of(x) == self.dirty_of(x)
                && other.cache_of(x) == self.cache_of(x)
    }

    /// Rounds the committed geometry of the subtree under slot `ix`,
    /// post-order.
    pub(crate) fn round_subtree_inner(&mut self, ix: usize, budget: usize) -> (r: Craft3dResult<
        (),
    >)
        requires
            old(self).wf(),
            old(self).live_ix(ix as int),
        ensures
            final(self).wf(),
            old(self).handles_monotone(final(self)),
            old(self).rounding_frame(final(self)),
            forall|x: int|
                0 <= x < old(self).slot_len() ==> final(self).depth_of(x) == old(self).depth_of(
                    x,
                ),
            forall|x: int|
                0 <= x < old(self).slot_len() && #[trigger] old(self).live_ix(x) && old(
                    self,
                ).depth_of(x) < old(self).depth_of(ix as int) ==> final(self).layout_of(x) == old(
                    self,
                ).layout_of(x),
            r is Ok ==> final(self).layout_of(ix as int) == round_box_spec(
                old(self).layout_of(ix as int),
            ),
            old(self).subtree_within(ix as int, budget as nat) ==> r is Ok,
            r matches Err(e) ==> e == Craft3dError::CapacityExceeded,
        decreases budget,
    {
        let ghost s0 = *old(self);
        if budget == 0 {
            return Err(Craft3dError::CapacityExceeded);
        }
        let kids = self.copy_children(ix);
        let mut j: usize = 0;
        while j < kids.len()
            invariant
                self.wf(),
                s0 == *old(self),
                s0.wf(),
                s0.live_ix(ix as int),
                ix < s0.slot_len(),
                budget >= 1,
                kids@ == s0.children_of(ix as int),
                s0.handles_monotone(self),
                s0.rounding_frame(self),
                forall|x: int|
                    0 <= x < s0.slot_len() ==> self.depth_of(x) == s0.depth_of(x),
                forall|x: int|
                    0 <= x < s0.slot_len() && #[trigger] s0.live_ix(x) && s0.depth_of(x)
                        <= s0.depth_of(ix as int) ==> self.layout_of(x) == s0.layout_of(x),
                j <= kids@.len(),
                forall|x: int|
                    0 <= x < kids@.len() ==> s0.live_ix(#[trigger] kids@[x] as int),
            decreases kids@.len() - j,
        {
            let ci = kids[j];
            proof {
                assert(s0.live_ix(ci as int));
                assert(self.live_ix(ci as int));
                // A child sits one level below this node.
                assert(s0.slots@[ci as int].parent == Some(ix)) by {
                    assert(s0.slots@[ix as int].children@[j as int] == ci);
                }
                assert(s0.depth_of(ci as int) == s0.depth_of(ix as int) + 1);
            }
            let ghost mid = *self;
            let sub = self.round_subtree_inner(ci, budget - 1);
            proof {
                Self::lemma_rounding_frame_trans(&s0, &mid, self);
                // Nodes at this node's level or above kept their geometry:
                // the child's sweep reaches only below the child.
                assert(mid.depth_of(ci as int) == s0.depth_of(ci as int));
                assert forall|x: int|
                    0 <= x < s0.slot_len() && #[trigger] s0.live_ix(x) && s0.depth_of(x)
                        <= s0.depth_of(ix as int) implies self.layout_of(x) == s0.layout_of(
                    x,
                ) by {
                    assert(mid.live_ix(x));
                    assert(mid.depth_of(x) == s0.depth_of(x));
                    assert(mid.depth_of(x) < mid.depth_of(ci as int));
                    assert(self.layout_of(x) == mid.layout_of(x));
                    assert(mid.layout_of(x) == s0.layout_of(x));
                }
                if s0.subtree_within(ix as int, budget as nat) {
                    assert(s0.subtree_within(ci as int, (budget - 1) as nat));
                    Self::lemma_same_edges_same_subtree(
                        &s0,
                        &mid,
                        ci as int,
                        (budget - 1) as nat,
                    );
                    assert(sub is Ok);
                }
            }
            match sub {
                Ok(_) => {},
                Err(e) => {
                    return Err(e);
                },
            }
            j = j + 1;
        }
        proof {
            assert(self.layout_of(ix as int) == s0.layout_of(ix as int));
        }
        let l = self.slots[ix].layout;
        let rx = round_units(l.x);
        let ry = round_units(l.y);
        let w = sat_sub(round_units(sat_add(l.x, l.width)), rx);
        let h = sat_sub(round_units(sat_add(l.y, l.height)), ry);
        let ghost before = *self;
        let slot = &mut self.slots[ix];
        slot.layout = LayoutSimple { width: w, height: h, x: rx, y: ry };
        proof {
            let i = ix as int;
            assert(forall|x: int|
                0 <= x < self.slots@.len() && x != i ==> self.slots@[x] == before.slots@[x]);
            Self::lemma_wf_data_change(&before, self, i);
            assert(self.layout_of(i) == round_box_spec(before.layout_of(i)));
            assert(before.rounding_frame(self)) by {
                assert(forall|x: int|
                    0 <= x < self.slots@.len() ==> self.slots@[x].live == before.slots@[x].live
                        && self.slots@[x].generation == before.slots@[x].generation);
            }
            Self::lemma_rounding_frame_trans(&s0, &before, self);
        }
        Ok(())
    }

    /// Rounds the committed geometry of the subtree under `node` to whole
    /// units: the rounding capability. Each node's position snaps to the
    /// nearest unit and each extent becomes the distance between its
    /// rounded edges. Applied once, after an unrounded solve; it touches
    /// nothing but geometry.
    pub fn round_subtree(&mut self, node: NodeId) -> (r: Craft3dResult<()>)
        requires
            old(self).wf(),
        ensures
            final(self).wf(),
            old(self).handles_monotone(final(self)),
            !old(self).live(node) ==> r == Err::<(), Craft3dError>(Craft3dError::InvalidNodeId)
                && old(self).unchanged_view(final(self)),
            old(self).live(node) ==> old(self).rounding_frame(final(self)),
            r is Ok ==> old(self).live(node) && final(self).live(node) && final(self).layout_of(
                node.index as int,
            ) == round_box_spec(old(self).layout_of(node.index as int)),
            r is Ok ==> {
                let l = final(self).layout_of(node.index as int);
                &&& l.x % 1000 == 0 || !in_round_range(l.x as int)
                &&& l.y % 1000 == 0 || !in_round_range(l.y as int)
            },
            old(self).live(node) && old(self).subtree_within(node.index as int, MAX_DEPTH as nat)
                ==> r is Ok,
            r matches Err(e) ==> e == Craft3dError::InvalidNodeId || e
                == Craft3dError::CapacityExceeded,
    {
        if !self.node_exists(node) {
            return Err(Craft3dError::InvalidNodeId);
        }
        let r = self.round_subtree_inner(node.index, MAX_DEPTH);
        proof {
            if r is Ok {
                let prev = old(self).layout_of(node.index as int);
                if in_round_range(prev.x as int) {
                    crate::layout::lemma_round_close(prev.x as int);
                }
                if in_round_range(prev.y as int) {
                    crate::layout::lemma_round_close(prev.y as int);
                }
            }
        }
        r
    }
}


} // verus!

verus! {

impl<C> Craft3dTree<C> {
    /// Whether `a` is an ancestor of `b` reachable over at most `k`
    /// parent edges.
    pub open spec fn is_ancestor_within(&self, a: int, b: int, k: nat) -> bool
        decreases k,
    {
        if k == 0 {
            false
        } else {
            match self.parent_of(b) {
                Some(p) => p as int == a || self.is_ancestor_within(a, p as int, (k - 1) as nat),
                None => false,
            }
        }
    }

    /// Every ancestor sits strictly above its descendants: following
    /// parent edges strictly decreases the ghost depth.
    pub proof fn lemma_ancestor_depth(&self, a: int, b: int, k: nat)
        requires
            self.wf(),
            self.live_ix(b),
            self.is_ancestor_within(a, b, k),
        ensures
            self.live_ix(a),
            self.depth_of(a) < self.depth_of(b),
        decreases k,
    {
        let p = self.parent_of(b)->0 as int;
        if p == a {
        } else {
            self.lemma_ancestor_depth(a, p, (k - 1) as nat);
        }
    }

    /// The topology is a forest: no node is its own ancestor, over any
    /// number of parent edges. Children are only ever newly created or
    /// re-parented leaves, so this holds by construction, and the ghost
    /// depth makes it a theorem.
    pub proof fn lemma_no_cycles(&self, i: int, k: nat)
        requires
            self.wf(),
            self.live_ix(i),
        ensures
            !self.is_ancestor_within(i, i, k),
    {
        if self.is_ancestor_within(i, i, k) {
            self.lemma_ancestor_depth(i, i, k);
        }
    }

    /// Handle safety: a handle whose slot generation has been left behind
    /// never names a node again, whatever operations run afterwards —
    /// every operation only grows generations, and `remove` leaves the
    /// slot's generation strictly above the removed handle's.
    pub proof fn lemma_stale_handle_stays_dead(after_remove: &Self, later: &Self, id: NodeId)
        requires
            0 <= id.index < after_remove.slot_len(),
            after_remove.gen_of(id.index as int) > id.generation,
            after_remove.handles_monotone(later),
        ensures
            !later.live(id),
    {
        assert(later.gen_of(id.index as int) >= after_remove.gen_of(id.index as int));
    }

    /// Dirty lifecycle: a clean node whose cache holds exactly the request
    /// being made is a cache hit, so an identical second layout request on
    /// a node a successful pass just cleaned is served from the cache, and
    /// the algorithm is not consulted.
    pub proof fn lemma_clean_matching_cache_is_hit(&self, i: int, input: LayoutInput)
        requires
            !self.dirty_of(i),
            match self.cache_of(i) {
                Some(e) => e.input == input,
                None => false,
            },
        ensures
            self.cache_hit(i, input),
    {
    }
}

/// Topology round trip: attaching a node that was in no child list and
/// then removing the edge again restores the child list — and with it the
/// child count — exactly.
pub proof fn lemma_topology_round_trip(
    before: Seq<usize>,
    after_add: Seq<usize>,
    after_remove: Seq<usize>,
    c: usize,
    pos: int,
)
    requires
        !before.contains(c),
        after_add == before.push(c),
        0 <= pos < after_add.len(),
        after_add[pos] == c,
        after_remove == after_add.remove(pos),
    ensures
        after_remove == before,
{
    assert(pos == before.len()) by {
        if pos < before.len() {
            assert(after_add[pos] == before[pos]);
        }
    }
    assert(after_remove =~= before);
}

} // verus!

verus! {

/// The text of a fixed-point value scaled down to whole units, with its
/// sign, for diagnostic output.
fn whole_units_text(v: i64) -> (r: String)
{
    if v >= 0 {
        crate::parse::render_whole(v / 1000)
    } else if v == i64::MIN {
        let mut t = String::new();
        t.append("-9223372036854775");
        t
    } else {
        let mut t = String::new();
        t.append("-");
        let m = -v;
        let w = crate::parse::render_whole(m / 1000);
        t.append(w.as_str());
        t
    }
}

impl<C> Craft3dTree<C> {
    /// One line per node of the subtree under slot `ix`, indented by
    /// depth, with the committed geometry in whole units.
    fn dump_inner(&self, ix: usize, budget: usize, indent: usize) -> (r: Craft3dResult<String>)
        requires
            self.wf(),
            self.live_ix(ix as int),
        ensures
            self.subtree_within(ix as int, budget as nat) ==> r is Ok,
            r matches Err(e) ==> e == Craft3dError::CapacityExceeded,
        decreases budget,
    {
        if budget == 0 {
            return Err(Craft3dError::CapacityExceeded);
        }
        let mut out = String::new();
        let mut pad: usize = 0;
        while pad < indent
            invariant
                pad <= indent,
            decreases indent - pad,
        {
            out.append("  ");
            pad = pad + 1;
        }
        let l = self.slots[ix].layout;
        out.append("node [");
        out.append(whole_units_text(l.width).as_str());
        out.append(" x ");
        out.append(whole_units_text(l.height).as_str());
        out.append(" @ ");
        out.append(whole_units_text(l.x).as_str());
        out.append(", ");
        out.append(whole_units_text(l.y).as_str());
        out.append("]\n");
        let n = self.slots[ix].children.len();
        let mut j: usize = 0;
        while j < n
            invariant
                self.wf(),
                self.live_ix(ix as int),
                j <= n,
                budget >= 1,
                n == self.children_of(ix as int).len(),
            decreases n - j,
        {
            let ci = self.slots[ix].children[j];
            proof {
                assert(self.live_ix(ci as int));
            }
            let deeper: usize = if indent < usize::MAX {
                indent + 1
            } else {
                indent
            };
            let sub = self.dump_inner(ci, budget - 1, deeper);
            proof {
                if self.subtree_within(ix as int, budget as nat) {
                    assert(self.subtree_within(ci as int, (budget - 1) as nat));
                    assert(sub is Ok);
                }
            }
            match sub {
                Ok(s) => {
                    out.append(s.as_str());
                },
                Err(e) => {
                    return Err(e);
                },
            }
            j = j + 1;
        }
        Ok(out)
    }

    /// The debug-printing capability: the subtree under `node`, one line
    /// per node with its committed geometry in whole units, indented by
    /// depth. Reads the tree and changes nothing.
    pub fn debug_dump(&self, node: NodeId) -> (r: Craft3dResult<String>)
        requires
            self.wf(),
        ensures
            !self.live(node) ==> r == Err::<String, Craft3dError>(Craft3dError::InvalidNodeId),
            self.live(node) && self.subtree_within(node.index as int, MAX_DEPTH as nat) ==> r
                is Ok,
            r matches Err(e) ==> e == Craft3dError::InvalidNodeId || e
                == Craft3dError::CapacityExceeded,
    {
        if !self.node_exists(node) {
            return Err(Craft3dError::InvalidNodeId);
        }
        self.dump_inner(node.index, MAX_DEPTH, 0)
    }
}

} // verus!

verus! {

impl<C> Craft3dTree<C> {
    /// Whether `l` is the faithful snapshot of the subtree under slot `i`,
    /// to a depth of `fuel`: the geometry and child count match at every
    /// level, and the `j`th child snapshot describes the `j`th child.
    pub open spec fn snapshot_matches(&self, l: Layout, i: int, fuel: nat) -> bool
        decreases fuel,
    {
        &&& l.width == self.layout_of(i).width
        &&& l.height == self.layout_of(i).height
        &&& l.x == self.layout_of(i).x
        &&& l.y == self.layout_of(i).y
        &&& l.child_count == self.children_of(i).len()
        &&& l.children@.len() == self.children_of(i).len()
        &&& fuel > 0 ==> forall|j: int|
            0 <= j < l.children@.len() ==> self.snapshot_matches(
                #[trigger] l.children@[j],
                self.children_of(i)[j] as int,
                (fuel - 1) as nat,
            )
    }

    /// The snapshot of the subtree under slot `ix`: committed geometry
    /// plus each child's snapshot, in child order.
    fn snapshot_inner(&self, ix: usize, budget: usize) -> (r: Craft3dResult<Layout>)
        requires
            self.wf(),
            self.live_ix(ix as int),
        ensures
            r matches Ok(l) ==> self.snapshot_matches(l, ix as int, budget as nat),
            self.subtree_within(ix as int, budget as nat) ==> r is Ok,
            r matches Err(e) ==> e == Craft3dError::CapacityExceeded,
        decreases budget,
    {
        if budget == 0 {
            return Err(Craft3dError::CapacityExceeded);
        }
        let l = self.slots[ix].layout;
        let n = self.slots[ix].children.len();
        let mut children: Vec<Layout> = Vec::new();
        let mut j: usize = 0;
        while j < n
            invariant
                self.wf(),
                self.live_ix(ix as int),
                j <= n,
                budget >= 1,
                n == self.children_of(ix as int).len(),
                children@.len() == j as int,
                forall|x: int|
                    0 <= x < j as int ==> self.snapshot_matches(
                        #[trigger] children@[x],
                        self.children_of(ix as int)[x] as int,
                        (budget - 1) as nat,
                    ),
            decreases n - j,
        {
            let ci = self.slots[ix].children[j];
            proof {
                assert(self.live_ix(ci as int));
            }
            let sub = self.snapshot_inner(ci, budget - 1);
            proof {
                if self.subtree_within(ix as int, budget as nat) {
                    assert(self.subtree_within(ci as int, (budget - 1) as nat));
                    assert(sub is Ok);
                }
            }
            match sub {
                Ok(snap) => {
                    children.push(snap);
                },
                Err(e) => {
                    return Err(e);
                },
            }
            j = j + 1;
        }
        let snapshot = Layout {
            width: l.width,
            height: l.height,
            x: l.x,
            y: l.y,
            child_count: n,
            children,
        };
        proof {
            assert(self.snapshot_matches(snapshot, ix as int, budget as nat));
        }
        Ok(snapshot)
    }

    /// A full-subtree snapshot of the committed geometry under `node`,
    /// with a child count and indexed access to each child's result.
    pub fn layout_snapshot(&self, node: NodeId) -> (r: Craft3dResult<Layout>)
        requires
            self.wf(),
        ensures
            !self.live(node) ==> r == Err::<Layout, Craft3dError>(Craft3dError::InvalidNodeId),
            r matches Ok(l) ==> self.live(node) && self.snapshot_matches(
                l,
                node.index as int,
                MAX_DEPTH as nat,
            ),
            self.live(node) && self.subtree_within(node.index as int, MAX_DEPTH as nat) ==> r
                is Ok,
            r matches Err(e) ==> e == Craft3dError::InvalidNodeId || e
                == Craft3dError::CapacityExceeded,
    {
        if !self.node_exists(node) {
            return Err(Craft3dError::InvalidNodeId);
        }
        self.snapshot_inner(node.index, MAX_DEPTH)
    }
}

} // verus!

verus! {

impl<C> Craft3dTree<C> {
    /// Removes the edge to the child at `index` under `parent` and marks
    /// the parent dirty; the child is detached, not destroyed. Fails with
    /// `InvalidNodeId` for a stale parent handle and with `ChildNotFound`
    /// when the index is out of bounds; the tree is unchanged on failure.
    pub fn remove_child_at_index(&mut self, parent: NodeId, index: usize) -> (r: Craft3dResult<
        NodeId,
    >)
        requires
            old(self).wf(),
        ensures
            final(self).wf(),
            old(self).handles_monotone(final(self)),
            r is Ok <==> old(self).live(parent) && index < old(self).children_of(
                parent.index as int,
            ).len(),
            r matches Err(e) ==> old(self).unchanged_view(final(self)) && if !old(self).live(
                parent,
            ) {
                e == Craft3dError::InvalidNodeId
            } else {
                e == Craft3dError::ChildNotFound
            },
            r matches Ok(removed) ==> {
                let p = parent.index as int;
                let c = old(self).children_of(p)[index as int] as int;
                &&& removed.index as int == c
                &&& final(self).live(parent)
                &&& final(self).live(removed)
                &&& old(self).others2_unchanged(final(self), p, c)
                &&& final(self).children_of(p) == old(self).children_of(p).remove(index as int)
                &&& final(self).parent_of(c) is None
                &&& final(self).dirty_of(p)
                &&& final(self).style_of(c) == old(self).style_of(c)
                &&& final(self).dirty_of(c) == old(self).dirty_of(c)
                &&& final(self).children_of(c) == old(self).children_of(c)
                &&& final(self).context_of(c) == old(self).context_of(c)
            },
    {
        if !self.node_exists(parent) {
            return Err(Craft3dError::InvalidNodeId);
        }
        let p = parent.index;
        if index >= self.slots[p].children.len() {
            return Err(Craft3dError::ChildNotFound);
        }
        let c = self.slots[p].children[index];
        let generation = self.slots[c].generation;
        let child = NodeId { index: c, generation };
        proof {
            assert(self.live_ix(c as int));
            assert(self.live(child));
            assert(self.children_of(p as int).contains(c)) by {
                assert(self.children_of(p as int)[index as int] == c);
            }
        }
        match self.remove_child(parent, child) {
            Ok(_) => {},
            Err(_) => {
                proof {
                    assert(false);
                }
            },
        }
        proof {
            // The removed position is the only one that held this child.
            let kids0 = old(self).children_of(p as int);
            let pos = choose|pos: int|
                0 <= pos < kids0.len() && kids0[pos] == c && self.children_of(p as int)
                    == kids0.remove(pos);
            assert(pos == index as int) by {
                if pos != index as int {
                    assert(kids0[pos] == kids0[index as int]);
                }
            }
        }
        Ok(child)
    }

    /// Replaces the child at `index` under `parent` with `new_child`,
    /// detaching the old occupant, and marks the parent dirty. The new
    /// child must be a parentless leaf other than the parent, like any
    /// node being attached. Returns the handle of the replaced child.
    #[verifier::rlimit(100)]
    pub fn replace_child_at_index(
        &mut self,
        parent: NodeId,
        index: usize,
        new_child: NodeId,
    ) -> (r: Craft3dResult<NodeId>)
        requires
            old(self).wf(),
            old(self).live(parent) && old(self).live(new_child) ==> {
                &&& old(self).children_of(new_child.index as int).len() == 0
                &&& old(self).parent_of(new_child.index as int) is None
                &&& new_child.index != parent.index
            },
        ensures
            final(self).wf(),
            old(self).handles_monotone(final(self)),
            r is Ok <==> old(self).live(parent) && old(self).live(new_child) && index < old(
                self,
            ).children_of(parent.index as int).len(),
            r matches Err(e) ==> old(self).unchanged_view(final(self)) && if !old(self).live(
                parent,
            ) || !old(self).live(new_child) {
                e == Craft3dError::InvalidNodeId
            } else {
                e == Craft3dError::ChildNotFound
            },
            r matches Ok(removed) ==> {
                let p = parent.index as int;
                &&& removed.index as int == old(self).children_of(p)[index as int] as int
                &&& final(self).live(parent)
                &&& final(self).live(new_child)
                &&& final(self).live(removed)
                &&& final(self).parent_of(removed.index as int) is None
                &&& final(self).children_of(p).len() == old(self).children_of(p).len()
                &&& final(self).children_of(p)[index as int] == new_child.index
                &&& final(self).parent_of(new_child.index as int) == Some(parent.index)
                &&& final(self).dirty_of(p)
            },
    {
        if !self.node_exists(parent) || !self.node_exists(new_child) {
            return Err(Craft3dError::InvalidNodeId);
        }
        let p = parent.index;
        let count = self.slots[p].children.len();
        if index >= count {
            return Err(Craft3dError::ChildNotFound);
        }
        proof {
            // The incoming leaf sits in no child list, so it is not the
            // one being replaced and the indices around it keep their
            // meaning through the detach.
            assert(self.children_of(p as int)[index as int] != new_child.index) by {
                if self.children_of(p as int)[index as int] == new_child.index {
                    assert(self.slots@[new_child.index as int].parent == Some(p));
                }
            }
        }
        let ghost s0 = *self;
        let removed = match self.remove_child_at_index(parent, index) {
            Ok(removed) => removed,
            Err(_) => {
                proof {
                    assert(false);
                }
                return Err(Craft3dError::ChildNotFound);
            },
        };
        let ghost detached = *self;
        // The new child still qualifies for attachment: detaching the old
        // one touched only the parent and the old child.
        proof {
            assert(new_child.index as int != removed.index as int);
            assert(s0.node_unchanged(self, new_child.index as int));
            assert(self.live(new_child));
        }
        match self.add_child(parent, new_child) {
            Ok(_) => {},
            Err(_) => {
                proof {
                    assert(false);
                }
            },
        }
        // Move the appended child into the replaced slot position.
        let ghost mid = *self;
        let last = self.slots[p].children.len() - 1;
        proof {
            assert(self.children_of(p as int).len() == s0.children_of(p as int).len());
            assert(self.children_of(p as int)[last as int] == new_child.index);
        }
        let moved = self.slots[p].children.remove(last);
        let pslot = &mut self.slots[p];
        pslot.children.insert(index, moved);
        proof {
            let kids_mid = mid.children_of(p as int);
            let kids_now = self.children_of(p as int);
            assert(kids_now == kids_mid.remove(last as int).insert(index as int, new_child.index));
            assert(forall|x: int|
                0 <= x < self.slots@.len() && x != p as int ==> self.slots@[x] == mid.slots@[x]);
            assert(self.slots@[p as int].live == mid.slots@[p as int].live);
            assert(self.slots@[p as int].generation == mid.slots@[p as int].generation);
            assert(self.slots@[p as int].parent == mid.slots@[p as int].parent);
            assert(self.slots@[p as int].context == mid.slots@[p as int].context);
            // The reordered list holds the same indices: the appended
            // child now sits where the replaced one sat.
            assert(kids_now.len() == kids_mid.len());
            assert(kids_now[index as int] == new_child.index);
            assert forall|j: int| 0 <= j < kids_now.len() implies kids_mid.contains(
                #[trigger] kids_now[j],
            ) by {
                if j < index as int {
                    assert(kids_now[j] == kids_mid[j]);
                } else if j == index as int {
                    assert(kids_mid[last as int] == new_child.index);
                } else {
                    assert(kids_now[j] == kids_mid.remove(last as int)[j - 1]);
                    if j - 1 < last as int {
                        assert(kids_mid.remove(last as int)[j - 1] == kids_mid[j - 1]);
                    } else {
                        assert(kids_mid.remove(last as int)[j - 1] == kids_mid[j]);
                    }
                }
            }
            assert(self.wf()) by {
                assert(forall|x: int|
                    0 <= x < self.slots@.len() ==> self.slots@[x].live == mid.slots@[x].live
                        && self.slots@[x].generation == mid.slots@[x].generation);
                assert forall|i: int|
                    #![trigger self.slots@[i].parent]
                    0 <= i < self.slots@.len() && self.slots@[i].live implies match self.slots@[
                i].parent {
                    Some(q) => self.live_ix(q as int) && self.children_of(q as int).contains(
                        i as usize,
                    ) && self.depth@[i] == self.depth@[q as int] + 1,
                    None => true,
                } by {
                    match mid.slots@[i].parent {
                        Some(q) => {
                            assert(mid.children_of(q as int).contains(i as usize));
                            if q == p {
                                let y = choose|y: int|
                                    0 <= y < kids_mid.len() && kids_mid[y] == i as usize;
                                if y == last as int {
                                    assert(kids_now[index as int] == i as usize);
                                } else {
                                    let y2: int = if y < last as int { y } else { y - 1 };
                                    assert(kids_mid.remove(last as int)[y2] == i as usize);
                                    let y3: int = if y2 < index as int { y2 } else { y2 + 1 };
                                    assert(kids_now[y3] == i as usize);
                                }
                                assert(kids_now.contains(i as usize));
                            } else {
                                assert(self.children_of(q as int) == mid.children_of(q as int));
                            }
                        },
                        None => {},
                    }
                }
                assert forall|i: int, j: int|
                    #![trigger self.slots@[i].children@[j]]
                    0 <= i < self.slots@.len() && self.slots@[i].live && 0 <= j
                        < self.slots@[i].children@.len() implies {
                    let cc = self.slots@[i].children@[j];
                    &&& self.live_ix(cc as int)
                    &&& self.slots@[cc as int].parent == Some(i as usize)
                } by {
                    if i == p as int {
                        assert(kids_mid.contains(kids_now[j]));
                        let y = choose|y: int|
                            0 <= y < kids_mid.len() && kids_mid[y] == kids_now[j];
                        assert(mid.slots@[i].children@[y] == kids_now[j]);
                    }
                }
                assert forall|i: int, j1: int, j2: int|
                    #![trigger self.slots@[i].children@[j1], self.slots@[i].children@[j2]]
                    0 <= i < self.slots@.len() && self.slots@[i].live && 0 <= j1 < j2
                        < self.slots@[i].children@.len() implies self.slots@[i].children@[j1]
                    != self.slots@[i].children@[j2] by {
                    if i == p as int {
                        let a1: int = if j1 < index as int {
                            j1
                        } else if j1 == index as int {
                            last as int
                        } else {
                            if j1 - 1 < last as int { j1 - 1 } else { j1 }
                        };
                        let a2: int = if j2 < index as int {
                            j2
                        } else if j2 == index as int {
                            last as int
                        } else {
                            if j2 - 1 < last as int { j2 - 1 } else { j2 }
                        };
                        assert(kids_now[j1] == kids_mid[a1]);
                        assert(kids_now[j2] == kids_mid[a2]);
                        assert(a1 != a2);
                    }
                }
            }
            assert forall|x: int| 0 <= x < s0.slot_len() implies s0.gen_of(x) <= #[trigger]
                self.gen_of(x) by {
                assert(s0.gen_of(x) <= detached.gen_of(x));
                assert(detached.gen_of(x) <= mid.gen_of(x));
                assert(self.slots@[x].generation == mid.slots@[x].generation);
            }
        }
        Ok(removed)
    }
}

} // verus!
