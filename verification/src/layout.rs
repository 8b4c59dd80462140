//! Layout requests, layout results, the per-node cache entry, and the
//! contract a pluggable layout algorithm implements.
//!
//! The tree drives a concrete algorithm bottom-up: children are resolved
//! first, and the algorithm then maps one node's style, the layout request,
//! and the children's results to the node's own result. A cache entry pairs
//! the exact request with the result it produced; a later request is served
//! from the cache only when the node is clean and the request matches the
//! stored one exactly.

use crate::style::{AvailableSpace, Style};
use vstd::prelude::*;

verus! {

/// Whether a pass computes a size estimate or performs the full layout.
#[derive(Clone, Copy, Debug, PartialEq, Eq, Structural)]
pub enum RunMode {
    /// Resolve final geometry and store it on each visited node.
    PerformLayout,
    /// Compute the size this node would take, without committing geometry.
    ComputeSize,
}

/// Which kind of size a pass asks for.
#[derive(Clone, Copy, Debug, PartialEq, Eq, Structural)]
pub enum SizingMode {
    /// The size the content wants, ignoring the node's own size styles.
    ContentSize,
    /// The size the node's styles ask for.
    InherentSize,
}

/// One layout request: the available space per axis, the sizing mode and
/// the run mode. The cache is keyed by this whole record; a request that
/// differs in any field is a miss.
#[derive(Clone, Copy, Debug, PartialEq, Eq, Structural)]
pub struct LayoutInput {
    /// The budget on the horizontal axis.
    pub available_width: AvailableSpace,
    /// The budget on the vertical axis.
    pub available_height: AvailableSpace,
    /// Which kind of size the pass asks for.
    pub sizing_mode: SizingMode,
    /// Whether geometry is committed.
    pub run_mode: RunMode,
}

/// Margins of a node that may collapse with its neighbours', kept as the
/// largest positive and most negative candidate.
#[derive(Clone, Copy, Debug, PartialEq, Eq, Structural)]
pub struct CollapsibleMarginSet {
    /// The largest positive collapsible margin, in units.
    pub positive: i64,
    /// The most negative collapsible margin, in units (zero or below).
    pub negative: i64,
}

/// What the algorithm resolved for one node: its size and the auxiliary
/// data a parent algorithm may consume.
#[derive(Clone, Copy, Debug, PartialEq, Eq, Structural)]
pub struct LayoutOutput {
    /// The resolved width, in units.
    pub width: i64,
    /// The resolved height, in units.
    pub height: i64,
    /// The offset of the first baseline from the top edge, if the node
    /// has one.
    pub first_baseline: Option<i64>,
    /// The node's collapsible top-margin set, if margin collapsing applies.
    pub top_margin: Option<CollapsibleMarginSet>,
}

/// One node's committed geometry: position relative to the parent and size.
#[derive(Clone, Copy, Debug, PartialEq, Eq, Structural)]
pub struct LayoutSimple {
    /// The resolved width, in units.
    pub width: i64,
    /// The resolved height, in units.
    pub height: i64,
    /// The horizontal offset from the parent's origin, in units.
    pub x: i64,
    /// The vertical offset from the parent's origin, in units.
    pub y: i64,
}

impl LayoutSimple {
    /// Geometry of a node nothing has been computed for.
    pub fn zero() -> (r: LayoutSimple)
        ensures
            r == (LayoutSimple { width: 0, height: 0, x: 0, y: 0 }),
    {
        LayoutSimple { width: 0, height: 0, x: 0, y: 0 }
    }
}

/// A cache entry: the exact request last answered for a node, and the
/// result the algorithm produced for it.
#[derive(Clone, Copy, Debug, PartialEq, Eq, Structural)]
pub struct CacheEntry {
    /// The request the entry answers.
    pub input: LayoutInput,
    /// The result it holds.
    pub output: LayoutOutput,
}

/// The contract a concrete layout algorithm implements: given one node's
/// style, the layout request, and the already-resolved results of the
/// node's children in order, produce the node's own result. The tree
/// supplies the traversal, the cache and the dirty bookkeeping; the
/// algorithm supplies only this mapping.
pub trait LayoutAlgorithm {
    /// Resolves one node, bottom-up: the children's results arrive in
    /// child order, already resolved for the same request.
    fn run(&mut self, style: &Style, input: LayoutInput, child_results: &Vec<LayoutOutput>)
        -> LayoutOutput;
}

/// A full-subtree snapshot of committed geometry, with indexed access to
/// each child's snapshot.
pub struct Layout {
    /// The resolved width, in units.
    pub width: i64,
    /// The resolved height, in units.
    pub height: i64,
    /// The horizontal offset from the parent's origin, in units.
    pub x: i64,
    /// The vertical offset from the parent's origin, in units.
    pub y: i64,
    /// How many children the node had when the snapshot was taken.
    pub child_count: usize,
    /// The children's snapshots, in child order.
    pub children: Vec<Layout>,
}

impl Layout {
    /// The snapshot of the child at `at`, in child order.
    pub fn child(&self, at: usize) -> (r: &Layout)
        requires
            at < self.children@.len(),
        ensures
            *r == self.children@[at as int],
    {
        &self.children[at]
    }
}

} // verus!

verus! {

/// The deepest subtree a layout or rounding pass will walk. A pass over a
/// deeper tree fails with `CapacityExceeded` instead of exhausting the
/// call stack.
pub const MAX_DEPTH: usize = 256;

/// The layout request `compute_layout` makes of a subtree for a given
/// available-space budget.
pub open spec fn layout_request(
    available_width: AvailableSpace,
    available_height: AvailableSpace,
) -> LayoutInput {
    LayoutInput {
        available_width,
        available_height,
        sizing_mode: SizingMode::InherentSize,
        run_mode: RunMode::PerformLayout,
    }
}


/// The values whose rounding stays inside the machine range.
pub open spec fn in_round_range(v: int) -> bool {
    -(i64::MAX - 500) <= v <= i64::MAX - 500
}

/// `v` snapped to the nearest whole unit (a multiple of a thousand),
/// halves rounding away from zero.
pub open spec fn round_units_spec(v: int) -> int {
    if v >= 0 {
        ((v + 500) / 1000) * 1000
    } else {
        -((((-v) + 500) / 1000) * 1000)
    }
}

/// Total rounding: values at the very edge of the machine range are left
/// as they are rather than pushed over it.
pub open spec fn round_clamped(v: int) -> int {
    if in_round_range(v) {
        round_units_spec(v)
    } else {
        v
    }
}

/// `a + b` held inside the `i64` range.
pub open spec fn sat_add_spec(a: int, b: int) -> int {
    if a + b > i64::MAX {
        i64::MAX as int
    } else if a + b < i64::MIN {
        i64::MIN as int
    } else {
        a + b
    }
}

/// `a - b` held inside the `i64` range.
pub open spec fn sat_sub_spec(a: int, b: int) -> int {
    if a - b > i64::MAX {
        i64::MAX as int
    } else if a - b < i64::MIN {
        i64::MIN as int
    } else {
        a - b
    }
}

/// A box after the rounding sweep: both positions snap to whole units,
/// and each extent is the distance between its rounded edges, so that
/// adjacent rounded boxes neither overlap nor open gaps.
pub open spec fn round_box_spec(l: LayoutSimple) -> LayoutSimple {
    LayoutSimple {
        width: sat_sub_spec(
            round_clamped(sat_add_spec(l.x as int, l.width as int)),
            round_clamped(l.x as int),
        ) as i64,
        height: sat_sub_spec(
            round_clamped(sat_add_spec(l.y as int, l.height as int)),
            round_clamped(l.y as int),
        ) as i64,
        x: round_clamped(l.x as int) as i64,
        y: round_clamped(l.y as int) as i64,
    }
}

/// `a + b` held inside the `i64` range.
pub(crate) fn sat_add(a: i64, b: i64) -> (r: i64)
    ensures
        r as int == sat_add_spec(a as int, b as int),
{
    if b >= 0 {
        if a > i64::MAX - b {
            i64::MAX
        } else {
            a + b
        }
    } else {
        if a < i64::MIN - b {
            i64::MIN
        } else {
            a + b
        }
    }
}

/// `a - b` held inside the `i64` range.
pub(crate) fn sat_sub(a: i64, b: i64) -> (r: i64)
    ensures
        r as int == sat_sub_spec(a as int, b as int),
{
    if b <= 0 {
        if a > i64::MAX + b {
            i64::MAX
        } else {
            a - b
        }
    } else {
        if a < i64::MIN + b {
            i64::MIN
        } else {
            a - b
        }
    }
}

/// `v` snapped to the nearest whole unit, halves away from zero; values
/// at the edge of the machine range come back unchanged.
pub fn round_units(v: i64) -> (r: i64)
    ensures
        r as int == round_clamped(v as int),
{
    if v >= 0 {
        if v <= i64::MAX - 500 {
            ((v + 500) / 1000) * 1000
        } else {
            v
        }
    } else {
        if v >= -(i64::MAX - 500) {
            let m = -v;
            -(((m + 500) / 1000) * 1000)
        } else {
            v
        }
    }
}

/// Rounding moves a value by at most half a unit.
pub proof fn lemma_round_close(v: int)
    requires
        in_round_range(v),
    ensures
        -500 <= round_units_spec(v) - v <= 500,
        round_units_spec(v) % 1000 == 0,
{
    if v >= 0 {
        let q = (v + 500) / 1000;
        assert(v + 500 == 1000 * q + (v + 500) % 1000);
        assert(0 <= (v + 500) % 1000 < 1000);
    } else {
        let m = -v;
        let q = (m + 500) / 1000;
        assert(m + 500 == 1000 * q + (m + 500) % 1000);
        assert(0 <= (m + 500) % 1000 < 1000);
    }
}

/// Rounding is monotone: it never reorders positions.
pub proof fn lemma_round_monotone(a: int, b: int)
    requires
        a <= b,
        in_round_range(a),
        in_round_range(b),
    ensures
        round_units_spec(a) <= round_units_spec(b),
{
    if a >= 0 {
        vstd::arithmetic::div_mod::lemma_div_is_ordered(a + 500, b + 500, 1000);
    } else if b < 0 {
        vstd::arithmetic::div_mod::lemma_div_is_ordered((-b) + 500, (-a) + 500, 1000);
    } else {
        assert(((b + 500) / 1000) * 1000 >= 0) by {
            vstd::arithmetic::div_mod::lemma_div_is_ordered(500, b + 500, 1000);
            assert(500int / 1000 == 0);
        }
        assert((((-a) + 500) / 1000) * 1000 >= 0) by {
            vstd::arithmetic::div_mod::lemma_div_is_ordered(500, (-a) + 500, 1000);
            assert(500int / 1000 == 0);
        }
    }
}

/// The rounding sweep keeps a child's edges inside its parent's: for any
/// interval nesting of one axis, the rounded edges nest the same way, so
/// rounding opens no gap and no overlap that was not there before.
pub proof fn lemma_round_preserves_containment(pl: int, cl: int, cr: int, pr: int)
    requires
        pl <= cl <= cr <= pr,
        in_round_range(pl),
        in_round_range(cl),
        in_round_range(cr),
        in_round_range(pr),
    ensures
        round_units_spec(pl) <= round_units_spec(cl),
        round_units_spec(cl) <= round_units_spec(cr),
        round_units_spec(cr) <= round_units_spec(pr),
{
    lemma_round_monotone(pl, cl);
    lemma_round_monotone(cl, cr);
    lemma_round_monotone(cr, pr);
}

} // verus!
