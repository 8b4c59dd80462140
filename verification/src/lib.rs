//! A substrate for constraint-based spatial layout.
//!
//! A host builds a tree of layout nodes in a generational arena, attaches
//! per-node style intent, and asks the tree to resolve concrete geometry for
//! an available-space budget. The flex/grid arithmetic itself is pluggable:
//! a concrete solver implements the layout algorithm contract and the tree
//! drives it bottom-up, consulting a per-node cache keyed by the layout
//! request.
//!
//! All lengths are fixed-point device units: an `i64` counts thousandths of
//! a unit, so `1000` is one unit and `500` is half a unit. Percentages are
//! fractions on the same scale (`500` is one half).
//!
//! An algorithm works against four capability groups of the tree, never
//! against its storage: traversal (`child_count`, `child_at`, `children`,
//! `get_style`, `needs_measure`), partial layout (`compute_layout`,
//! `set_layout`, `get_layout`, `layout_snapshot`), rounding
//! (`round_subtree`) and debug printing (`debug_dump`). One tree substrate
//! therefore serves planar and volumetric solvers alike.

use vstd::prelude::*;

pub mod geometry;
pub mod layout;
pub mod normalize;
pub mod parse;
pub mod laws;
pub mod prelude;
pub mod style;
pub mod tree;

verus! {

/// One fixed-point unit: style and geometry scalars count in thousandths.
pub const UNIT: i64 = 1000;

} // verus!
