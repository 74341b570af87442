//! The guarantees the scene graph core keeps, stated and proved once.
//!
//! Each law here is a fact about the specification functions that the
//! executable functions are proved against: what a traversal computes per
//! node, what an invisible root hides, in what order queued mutations are
//! applied, and when reclamation removes an entry.

use vstd::prelude::*;

use crate::arena::{
    lemma_sweep_frame, node_at, refs_at, resolves, sweep, Pointer, Slot,
};
use crate::hub::{apply_all, apply_from, apply_message, Message, Operation};
use crate::walker::{frame_ok, path_visible, path_world, WalkedNode};

verus! {

/// In one traversal, a visited node's world values extend its parent's:
/// its world transform is the parent's world transform concatenated with
/// its own local transform, and its world visibility is the parent's world
/// visibility conjoined with its own local flag.  A frame the walker
/// yields carries exactly the fold of its path, so this law gives the
/// per-node relation for every parent-and-child pair of one pass.
pub proof fn lemma_world_of_child(slots: Seq<Slot>, path: Seq<Pointer>, n: Pointer)
    requires
        path.len() > 0,
    ensures
        path_world(slots, path.push(n)) == path_world(slots, path).concat_spec(
            node_at(slots, n).transform,
        ),
        path_visible(slots, path.push(n)) == (path_visible(slots, path) && node_at(
            slots,
            n,
        ).visible),
{
    let e = path.push(n);
    assert(e.drop_last() =~= path);
    assert(e.last() == n);
}

/// A locally invisible node makes every path through it world-invisible,
/// whatever its descendants' own flags say.
pub proof fn lemma_invisible_root_hides_subtree(slots: Seq<Slot>, path: Seq<Pointer>)
    requires
        path.len() > 0,
        !node_at(slots, path[0]).visible,
    ensures
        !path_visible(slots, path),
    decreases path.len(),
{
    if path.len() > 1 {
        assert(path.drop_last()[0] == path[0]);
        lemma_invisible_root_hides_subtree(slots, path.drop_last());
    }
}

/// No frame rooted at a locally invisible node is ever world-visible, so a
/// visibility-gated pass yields nothing of that root's entire subtree:
/// every yielded frame of such a pass is world-visible by the walker's
/// contract, and this law rules that out for the whole subtree.
pub proof fn lemma_invisible_root_yields_none(
    slots: Seq<Slot>,
    base: Option<Pointer>,
    w: WalkedNode,
)
    requires
        frame_ok(slots, base, w),
        !node_at(slots, w.path@[0]).visible,
    ensures
        !w.world_visible,
{
    lemma_invisible_root_hides_subtree(slots, w.path@);
}

/// Two visibility updates addressed to the same live node are applied in
/// send order, so after one processing pass the last write wins: the flag
/// holds the second value, and still does after reclamation whenever the
/// node survives it.
pub proof fn lemma_set_visible_last_write_wins(slots: Seq<Slot>, t: Pointer, a: bool, b: bool)
    requires
        resolves(slots, t),
    ensures
        ({
            let q = seq![
                Message { target: t, operation: Operation::SetVisible(a) },
                Message { target: t, operation: Operation::SetVisible(b) },
            ];
            let s2 = apply_all(slots, q);
            &&& resolves(s2, t)
            &&& node_at(s2, t).visible == b
            &&& resolves(sweep(s2), t) ==> node_at(sweep(s2), t).visible == b
        }),
{
    let m1 = Message { target: t, operation: Operation::SetVisible(a) };
    let m2 = Message { target: t, operation: Operation::SetVisible(b) };
    let q = seq![m1, m2];
    let s1 = apply_message(slots, m1);
    let s2 = apply_message(s1, m2);
    assert(q[0] == m1);
    assert(q[1] == m2);
    assert(apply_from(slots, q, 0) == apply_from(s1, q, 1));
    assert(apply_from(s1, q, 1) == apply_from(s2, q, 2));
    assert(resolves(s1, t));
    assert(node_at(s2, t).visible == b);
    lemma_sweep_frame(s2);
}

/// Adding a child to a group and removing it again, in that order, then
/// processing once, restores the group's child list head to its previous
/// value — and the restored head survives reclamation whenever the group
/// does.
pub proof fn lemma_add_then_remove_restores_head(slots: Seq<Slot>, g: Pointer, c: Pointer)
    requires
        resolves(slots, g),
        node_at(slots, g).sub_node is Group,
        resolves(slots, c),
    ensures
        ({
            let q = seq![
                Message { target: g, operation: Operation::AddChild(c) },
                Message { target: g, operation: Operation::RemoveChild(c) },
            ];
            let s2 = apply_all(slots, q);
            &&& resolves(s2, g)
            &&& node_at(s2, g).first_child_spec() == node_at(slots, g).first_child_spec()
            &&& resolves(sweep(s2), g) ==> node_at(sweep(s2), g).first_child_spec() == node_at(
                slots,
                g,
            ).first_child_spec()
        }),
{
    let m1 = Message { target: g, operation: Operation::AddChild(c) };
    let m2 = Message { target: g, operation: Operation::RemoveChild(c) };
    let q = seq![m1, m2];
    let s1 = apply_message(slots, m1);
    let s2 = apply_message(s1, m2);
    assert(q[0] == m1);
    assert(q[1] == m2);
    assert(apply_from(slots, q, 0) == apply_from(s1, q, 1));
    assert(apply_from(s1, q, 1) == apply_from(s2, q, 2));
    let old_first = node_at(slots, g).first_child_spec();
    assert(resolves(s1, g));
    assert(resolves(s1, c));
    assert(node_at(s1, g).first_child_spec() == Some(c));
    assert(node_at(s1, c).next_sibling == old_first);
    assert(node_at(s2, g).first_child_spec() == old_first);
    lemma_sweep_frame(s2);
}

/// Once nothing holds a strong reference to an entry — every handle given
/// back, no link in the graph, no queued operation — the reclamation pass
/// at the end of one round of message processing removes it: its pointer
/// no longer resolves.
pub proof fn lemma_unreferenced_entry_is_reclaimed(slots: Seq<Slot>, p: Pointer)
    requires
        p.index < slots.len(),
        refs_at(slots, p) == 0,
    ensures
        !resolves(sweep(slots), p),
{
    lemma_sweep_frame(slots);
    if resolves(sweep(slots), p) {
        assert(sweep(slots)[p.index as int].refs <= slots[p.index as int].refs);
        assert(!(sweep(slots)[p.index as int].node is Some && sweep(slots)[
            p.index as int
        ].refs == 0));
        assert(false);
    }
}

} // verus!
