//! Cross-operation properties of the tree, stated as verified clients:
//! Verus proves each function here from the public contracts alone, so the
//! properties hold for every well-formed tree and every conforming caller.

use crate::style::Style;
use crate::tree::{lemma_topology_round_trip, Craft3dTree, NodeId};
use vstd::prelude::*;

verus! {

/// Topology round trip: attaching a parentless leaf under a node and then
/// removing the edge again restores the node's child list — and with it
/// its child count — exactly, and leaves the child live and childless.
pub fn attach_detach_round_trip<C>(t: &mut Craft3dTree<C>, parent: NodeId, child: NodeId)
    requires
        old(t).wf(),
        old(t).live(parent),
        old(t).live(child),
        old(t).children_of(child.index as int).len() == 0,
        old(t).parent_of(child.index as int) is None,
        child.index != parent.index,
    ensures
        final(t).wf(),
        final(t).live(parent),
        final(t).live(child),
        final(t).children_of(parent.index as int) == old(t).children_of(parent.index as int),
        final(t).children_of(child.index as int).len() == 0,
        final(t).parent_of(child.index as int) is None,
{
    let ghost before: Seq<usize> = t.children_of(parent.index as int);
    let r1 = t.add_child(parent, child);
    assert(r1 is Ok);
    let ghost after_add: Seq<usize> = t.children_of(parent.index as int);
    let r2 = t.remove_child(parent, child);
    assert(r2 is Ok);
    proof {
        let pos = choose|pos: int|
            0 <= pos < after_add.len() && after_add[pos] == child.index && t.children_of(
                parent.index as int,
            ) == after_add.remove(pos);
        lemma_topology_round_trip(
            before,
            after_add,
            t.children_of(parent.index as int),
            child.index,
            pos,
        );
    }
}

/// Style round trip through the tree: replacing a node's style and reading
/// it back yields exactly the stored value, on any tree.
pub fn set_then_get_style<C>(t: &mut Craft3dTree<C>, node: NodeId, style: Style)
    requires
        old(t).wf(),
        old(t).live(node),
    ensures
        final(t).wf(),
        final(t).live(node),
        final(t).style_of(node.index as int) == style,
{
    let r1 = t.set_style(node, style);
    assert(r1 is Ok);
    let r2 = t.get_style(node);
    assert(r2 == Ok::<Style, crate::tree::Craft3dError>(style));
}

} // verus!
