use craft3d::layout::{round_units, LayoutAlgorithm, LayoutInput, LayoutOutput, LayoutSimple};
use craft3d::normalize::{parse_style, HostValue, RawStyle};
use craft3d::style::{AvailableSpace, Style};
use craft3d::tree::{Craft3dError, Craft3dTree, NodeId};

/// A layout algorithm double that reports a fixed size and counts its
/// invocations.
struct CountingAlgo {
    calls: usize,
    width: i64,
    height: i64,
}

impl LayoutAlgorithm for CountingAlgo {
    fn run(
        &mut self,
        _style: &Style,
        _input: LayoutInput,
        _child_results: &Vec<LayoutOutput>,
    ) -> LayoutOutput {
        self.calls += 1;
        LayoutOutput {
            width: self.width,
            height: self.height,
            first_baseline: None,
            top_margin: None,
        }
    }
}

fn algo(width: i64, height: i64) -> CountingAlgo {
    CountingAlgo {
        calls: 0,
        width,
        height,
    }
}

fn tree() -> Craft3dTree<u32> {
    Craft3dTree::new()
}

fn leaf(t: &mut Craft3dTree<u32>) -> NodeId {
    t.new_leaf(Style::base()).unwrap()
}

#[test]
fn fresh_parent_and_attach() {
    // An empty tree, one leaf with {width: 100, height: "auto"}, and a
    // fresh parent: the parent starts childless and gains one child.
    let mut t = tree();
    let mut raw = RawStyle::empty();
    raw.width = Some(HostValue::Number(100_000));
    raw.height = Some(HostValue::Text("auto".to_string()));
    let a = t.new_leaf(parse_style(&raw)).unwrap();
    let parent = leaf(&mut t);
    assert_eq!(t.child_count(parent).unwrap(), 0);
    t.add_child(parent, a).unwrap();
    assert_eq!(t.child_count(parent).unwrap(), 1);
}

#[test]
fn topology_round_trip() {
    let mut t = tree();
    let parent = leaf(&mut t);
    let before = leaf(&mut t);
    t.add_child(parent, before).unwrap();
    let c = leaf(&mut t);
    let count_before = t.child_count(parent).unwrap();
    t.add_child(parent, c).unwrap();
    assert_eq!(t.child_count(parent).unwrap(), count_before + 1);
    t.remove_child(parent, c).unwrap();
    assert_eq!(t.child_count(parent).unwrap(), count_before);
    // The detached child is still a valid, childless node.
    assert!(t.node_exists(c));
    assert!(t.is_childless(c).unwrap());
}

#[test]
fn remove_child_of_stranger_fails() {
    let mut t = tree();
    let parent = leaf(&mut t);
    let child = leaf(&mut t);
    t.add_child(parent, child).unwrap();
    let stranger = leaf(&mut t);
    let count = t.child_count(parent).unwrap();
    assert_eq!(
        t.remove_child(parent, stranger),
        Err(Craft3dError::ChildNotFound)
    );
    assert_eq!(t.child_count(parent).unwrap(), count);
}

#[test]
fn stale_handles_stay_stale() {
    let mut t = tree();
    let parent = leaf(&mut t);
    let child = leaf(&mut t);
    t.add_child(parent, child).unwrap();
    t.remove(child).unwrap();
    // Every operation refuses the dead handle.
    assert_eq!(t.get_style(child), Err(Craft3dError::InvalidNodeId));
    assert_eq!(t.dirty(child), Err(Craft3dError::InvalidNodeId));
    assert_eq!(t.child_count(child), Err(Craft3dError::InvalidNodeId));
    assert_eq!(
        t.set_style(child, Style::base()),
        Err(Craft3dError::InvalidNodeId)
    );
    assert_eq!(t.mark_dirty(child), Err(Craft3dError::InvalidNodeId));
    assert_eq!(t.remove(child), Err(Craft3dError::InvalidNodeId));
    // The parent lost the edge.
    assert_eq!(t.child_count(parent).unwrap(), 0);
    // Reusing the slot never revives the old handle.
    let reborn = leaf(&mut t);
    assert!(t.node_exists(reborn));
    assert!(!t.node_exists(child));
    assert_eq!(t.get_style(child), Err(Craft3dError::InvalidNodeId));
}

#[test]
fn dirty_lifecycle() {
    let mut t = tree();
    let n = leaf(&mut t);
    // A fresh node is not dirty.
    assert!(!t.dirty(n).unwrap());
    t.set_style(n, Style::base()).unwrap();
    assert!(t.dirty(n).unwrap());
    let mut a = algo(10_000, 20_000);
    let w = AvailableSpace::Definite(100_000);
    let h = AvailableSpace::Definite(50_000);
    // A successful layout computation clears the dirty flag.
    t.compute_layout(&mut a, n, w, h).unwrap();
    assert!(!t.dirty(n).unwrap());
    assert_eq!(a.calls, 1);
    // Out-of-band dirtying forces a recomputation.
    t.mark_dirty(n).unwrap();
    assert!(t.dirty(n).unwrap());
    t.compute_layout(&mut a, n, w, h).unwrap();
    assert!(!t.dirty(n).unwrap());
    assert_eq!(a.calls, 2);
}

#[test]
fn identical_compute_served_from_cache() {
    let mut t = tree();
    let n = leaf(&mut t);
    let mut a = algo(10_000, 20_000);
    let w = AvailableSpace::Definite(100_000);
    let h = AvailableSpace::Definite(50_000);
    let first = t.compute_layout(&mut a, n, w, h).unwrap();
    assert_eq!(a.calls, 1);
    let second = t.compute_layout(&mut a, n, w, h).unwrap();
    // The identical request is answered from the cache: the algorithm ran
    // once, not twice, and the geometry is unchanged.
    assert_eq!(a.calls, 1);
    assert_eq!(first, second);
}

#[test]
fn changed_constraints_miss_the_cache() {
    let mut t = tree();
    let n = leaf(&mut t);
    let mut a = algo(10_000, 20_000);
    t.compute_layout(
        &mut a,
        n,
        AvailableSpace::Definite(100_000),
        AvailableSpace::Definite(50_000),
    )
    .unwrap();
    assert_eq!(a.calls, 1);
    // Same width budget, different height budget: a miss, not a partial hit.
    t.compute_layout(
        &mut a,
        n,
        AvailableSpace::Definite(100_000),
        AvailableSpace::MaxContent,
    )
    .unwrap();
    assert_eq!(a.calls, 2);
}

#[test]
fn computed_geometry_and_snapshot() {
    let mut t = tree();
    let parent = leaf(&mut t);
    let child = leaf(&mut t);
    t.add_child(parent, child).unwrap();
    let mut a = algo(30_000, 40_000);
    let l = t
        .compute_layout(
            &mut a,
            parent,
            AvailableSpace::MaxContent,
            AvailableSpace::MaxContent,
        )
        .unwrap();
    // Parent and child each went through the algorithm once.
    assert_eq!(a.calls, 2);
    assert_eq!(l.width, 30_000);
    assert_eq!(l.height, 40_000);
    let got = t.get_layout(parent).unwrap();
    assert_eq!(got, l);
    let snap = t.layout_snapshot(parent).unwrap();
    assert_eq!(snap.width, 30_000);
    assert_eq!(snap.child_count, 1);
    assert_eq!(snap.child(0).width, 30_000);
    let dump = t.debug_dump(parent).unwrap();
    assert!(dump.contains("node [30 x 40 @ 0, 0]"));
}

#[test]
fn capacity_exhaustion() {
    let mut t: Craft3dTree<u32> = Craft3dTree::with_capacity(1);
    let first = t.new_leaf(Style::base()).unwrap();
    assert_eq!(
        t.new_leaf(Style::base()),
        Err(Craft3dError::CapacityExceeded)
    );
    // Removing the only node frees its slot for reuse.
    t.remove(first).unwrap();
    let again = t.new_leaf(Style::base()).unwrap();
    assert!(t.node_exists(again));
    assert!(!t.node_exists(first));
}

#[test]
fn rounding_sweep() {
    assert_eq!(round_units(1_499), 1_000);
    assert_eq!(round_units(1_500), 2_000);
    assert_eq!(round_units(-1_499), -1_000);
    assert_eq!(round_units(-1_500), -2_000);
    assert_eq!(round_units(0), 0);

    let mut t = tree();
    t.set_rounding(true);
    let n = leaf(&mut t);
    let mut a = algo(10_400, 20_600);
    let l = t
        .compute_layout(
            &mut a,
            n,
            AvailableSpace::MaxContent,
            AvailableSpace::MaxContent,
        )
        .unwrap();
    // The fractional sizes snapped to whole units.
    assert_eq!(l.width, 10_000);
    assert_eq!(l.height, 21_000);

    // Rounding keeps edges ordered: positions snap, extents follow edges.
    t.set_layout(
        n,
        LayoutSimple {
            width: 10_400,
            height: 10_400,
            x: 700,
            y: 700,
        },
    )
    .unwrap();
    t.round_subtree(n).unwrap();
    let r = t.get_layout(n).unwrap();
    assert_eq!(r.x, 1_000);
    assert_eq!(r.y, 1_000);
    // The right edge was 11_100, which rounds to 11_000.
    assert_eq!(r.width, 10_000);
}

#[test]
fn contexts_and_measurement() {
    let mut t = tree();
    let n = leaf(&mut t);
    assert!(!t.has_context(n).unwrap());
    assert!(!t.needs_measure(n).unwrap());
    t.set_context(n, Some(7)).unwrap();
    assert!(t.has_context(n).unwrap());
    assert!(t.needs_measure(n).unwrap());
    assert_eq!(t.get_context(n).unwrap(), Some(&7));
    // A context change alters what measurement would report: it dirties.
    assert!(t.dirty(n).unwrap());
    let mut a = algo(5_000, 5_000);
    let w = AvailableSpace::MaxContent;
    t.compute_layout(&mut a, n, w, w).unwrap();
    assert!(!t.dirty(n).unwrap());
    assert_eq!(a.calls, 1);
    t.set_context(n, None).unwrap();
    assert_eq!(t.get_context(n).unwrap(), None);
    assert!(t.dirty(n).unwrap());
    // The stale cache is not served after the context changed.
    t.compute_layout(&mut a, n, w, w).unwrap();
    assert_eq!(a.calls, 2);
}

#[test]
fn traversal_queries() {
    let mut t = tree();
    let parent = leaf(&mut t);
    let a = leaf(&mut t);
    let b = leaf(&mut t);
    t.add_child(parent, a).unwrap();
    t.add_child(parent, b).unwrap();
    assert_eq!(t.child_at(parent, 0).unwrap(), a);
    assert_eq!(t.child_at(parent, 1).unwrap(), b);
    assert_eq!(t.child_at(parent, 2), Err(Craft3dError::ChildNotFound));
    let kids = t.children(parent).unwrap();
    assert_eq!(kids, vec![a, b]);
    assert_eq!(t.parent(a).unwrap(), Some(parent));
    assert_eq!(t.parent(parent).unwrap(), None);
}

#[test]
fn borrow_conflict_is_distinct() {
    // The verified core never raises this itself; the shared-handle
    // adapter maps a re-entrant borrow to it. It must stay a kind of its
    // own so hosts can tell it apart.
    let e = Craft3dError::BorrowConflict;
    assert_eq!(e, Craft3dError::BorrowConflict);
    assert_ne!(e, Craft3dError::InvalidNodeId);
    assert_ne!(e, Craft3dError::ChildNotFound);
    assert_ne!(e, Craft3dError::CapacityExceeded);
}

#[test]
fn style_round_trip_through_tree() {
    let mut t = tree();
    let n = leaf(&mut t);
    let mut raw = RawStyle::empty();
    raw.width = Some(HostValue::Text("50%".to_string()));
    raw.margin_left = Some(HostValue::Text("auto".to_string()));
    t.set_style(n, parse_style(&raw)).unwrap();
    let back = t.get_style(n).unwrap();
    // The stored style reads back as set: half width, automatic margin.
    assert_eq!(back.size.width, craft3d::style::Dimension::Percent(500));
    assert_eq!(
        back.margin.left,
        craft3d::style::LengthPercentageAuto::Auto
    );
    // Normalizing the read-back value again changes nothing.
    assert_eq!(
        craft3d::normalize::get_dimension(&Some(craft3d::normalize::dimension_to_host(
            back.size.width
        ))),
        back.size.width
    );
}

#[test]
fn indexed_child_edits() {
    let mut t = tree();
    let parent = leaf(&mut t);
    let a = leaf(&mut t);
    let b = leaf(&mut t);
    t.add_child(parent, a).unwrap();
    t.add_child(parent, b).unwrap();

    let fresh = leaf(&mut t);
    let swapped_out = t.replace_child_at_index(parent, 0, fresh).unwrap();
    assert_eq!(swapped_out, a);
    assert_eq!(t.child_at(parent, 0).unwrap(), fresh);
    assert_eq!(t.child_at(parent, 1).unwrap(), b);
    assert_eq!(t.parent(a).unwrap(), None);

    let removed = t.remove_child_at_index(parent, 1).unwrap();
    assert_eq!(removed, b);
    assert_eq!(t.child_count(parent).unwrap(), 1);
    assert_eq!(
        t.remove_child_at_index(parent, 5),
        Err(Craft3dError::ChildNotFound)
    );
}
