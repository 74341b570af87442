//! The tree walker: an iterative, visibility-gated, depth-first pass.
//!
//! Starting from a root pointer the walker yields each visited node with
//! its world transform and world visibility, computed incrementally as the
//! concatenation of the ancestor values with the node's local values.  An
//! explicit stack of frames replaces recursion, so memory is bounded by
//! tree depth; a push budget the size of the arena — never reached on a
//! proper tree, where no node is visited twice — keeps the pass finite
//! even over a corrupted, cyclic graph.
//!
//! Each frame carries the ghost path of pointers from its root down to the
//! frame's node; the contracts state that the yielded world values are
//! exactly the fold of the local values along that path, and that each
//! step of the path goes from a parent to a member of its child chain.

use vstd::prelude::*;

use crate::arena::{node_at, resolves, Pointer, Slot};
use crate::hub::Hub;
use crate::node::SubNode;
use crate::transform::Transform;

verus! {

/// The world values folded along a path of nodes: the first node's world
/// values are its local values, and every further node concatenates its
/// local transform onto, and conjoins its local visibility with, the
/// values accumulated so far.
pub open spec fn path_world(slots: Seq<Slot>, path: Seq<Pointer>) -> Transform
    decreases path.len(),
{
    if path.len() == 0 {
        Transform::identity_spec()
    } else if path.len() == 1 {
        node_at(slots, path[0]).transform
    } else {
        path_world(slots, path.drop_last()).concat_spec(node_at(slots, path.last()).transform)
    }
}

/// The world visibility folded along a path of nodes: the conjunction of
/// every local visibility flag on the path.
pub open spec fn path_visible(slots: Seq<Slot>, path: Seq<Pointer>) -> bool
    decreases path.len(),
{
    if path.len() == 0 {
        true
    } else {
        path_visible(slots, path.drop_last()) && node_at(slots, path.last()).visible
    }
}

/// The `k`-th member of the sibling chain starting at `cur`, when the
/// chain is live that far.
pub open spec fn chain_from(slots: Seq<Slot>, cur: Option<Pointer>, k: nat) -> Option<Pointer>
    decreases k,
{
    match cur {
        None => None,
        Some(p) => if !resolves(slots, p) {
            None
        } else if k == 0 {
            Some(p)
        } else {
            chain_from(slots, node_at(slots, p).next_sibling, (k - 1) as nat)
        },
    }
}

/// Whether `p` is a member of the child chain of the group node `parent`.
pub open spec fn in_child_chain(slots: Seq<Slot>, parent: Pointer, p: Pointer) -> bool {
    exists|k: nat| chain_from(slots, node_at(slots, parent).first_child_spec(), k) == Some(p)
}

/// One visited node, annotated with its world state for this pass.
pub struct WalkedNode {
    /// The visited node.
    pub node_ptr: Pointer,
    /// World visibility: every node from the root down to this one is
    /// locally visible.
    pub world_visible: bool,
    /// World transform: the concatenation of the local transforms from the
    /// root down to this one.
    pub world_transform: Transform,
    /// The path of nodes from the root of the pass down to this node.
    pub path: Ghost<Seq<Pointer>>,
}

/// A lazy depth-first traversal over the arena.  Obtained from
/// [`Hub::walk`] or [`Hub::walk_all`]; not restartable — a fresh walker
/// must be started for each pass.
#[allow(dead_code)]
pub struct TreeWalker<'a> {
    hub: &'a Hub,
    only_visible: bool,
    stack: Vec<WalkedNode>,
    fuel: usize,
    base: Ghost<Option<Pointer>>,
}

/// Every invariant one stack frame carries: the path is live, starts in
/// the root sibling chain of the pass, steps from parent to child-chain
/// member, ends at the frame's node, and the frame's world values are the
/// fold of the local values along it.
pub open spec fn frame_ok(slots: Seq<Slot>, base: Option<Pointer>, w: WalkedNode) -> bool {
    &&& w.path@.len() > 0
    &&& forall|i: int| 0 <= i < w.path@.len() ==> resolves(slots, #[trigger] w.path@[i])
    &&& w.path@.last() == w.node_ptr
    &&& exists|k: nat| chain_from(slots, base, k) == Some(w.path@[0])
    &&& forall|i: int|
        1 <= i < w.path@.len() ==> in_child_chain(slots, w.path@[i - 1], #[trigger] w.path@[i])
    &&& w.world_transform == path_world(slots, w.path@)
    &&& w.world_visible == path_visible(slots, w.path@)
}

impl<'a> TreeWalker<'a> {
    /// The hub this walker reads.
    pub closed spec fn hub_spec(&self) -> &'a Hub {
        self.hub
    }

    /// Whether the pass is visibility-gated.
    pub closed spec fn only_visible_spec(&self) -> bool {
        self.only_visible
    }

    /// The root pointer of the pass.
    pub closed spec fn base_spec(&self) -> Option<Pointer> {
        self.base@
    }

    /// The frames still to be yielded, deepest last.
    pub closed spec fn frames(&self) -> Seq<WalkedNode> {
        self.stack@
    }

    /// Well-formedness: every stack frame satisfies [`frame_ok`], the
    /// first frame's path is the single root it visits, and each deeper
    /// frame extends the path of the frame below it by its own node.
    pub closed spec fn wf(&self) -> bool {
        let slots = self.hub.slots();
        &&& forall|i: int|
            0 <= i < self.stack@.len() ==> frame_ok(slots, self.base@, #[trigger] self.stack@[i])
        &&& forall|i: int|
            0 <= i < self.stack@.len() ==> #[trigger] self.stack@[i].path@.len() == i + 1
        &&& self.stack@.len() > 0 ==> self.stack@[0].path@ == seq![self.stack@[0].node_ptr]
        &&& forall|i: int|
            0 <= i < self.stack@.len() - 1 ==> #[trigger] self.stack@[i + 1].path@ == self.stack@[
                i
            ].path@.push(self.stack@[i + 1].node_ptr)
    }

    /// Descend from `ptr_opt`: push a frame for it, computing world values
    /// from the frame currently on top of the stack, and keep descending
    /// into first children of visible groups, within the push budget.
    fn descend(&mut self, ptr_opt: Option<Pointer>)
        requires
            old(self).wf(),
            match ptr_opt {
                Some(s) => resolves(old(self).hub_spec().slots(), s) ==> (if old(
                    self,
                ).stack@.len() == 0 {
                    exists|k: nat|
                        chain_from(old(self).hub_spec().slots(), old(self).base_spec(), k)
                            == Some(s)
                } else {
                    in_child_chain(
                        old(self).hub_spec().slots(),
                        old(self).stack@.last().node_ptr,
                        s,
                    )
                }),
                None => true,
            },
        ensures
            final(self).wf(),
            final(self).hub_spec() == old(self).hub_spec(),
            final(self).only_visible_spec() == old(self).only_visible_spec(),
            final(self).base_spec() == old(self).base_spec(),
            final(self).stack@.len() + final(self).fuel_spec() == old(self).stack@.len() + old(
                self,
            ).fuel_spec(),
            final(self).stack@.len() >= old(self).stack@.len(),
            forall|i: int|
                0 <= i < old(self).stack@.len() ==> final(self).stack@[i] == old(self).stack@[i],
            match ptr_opt {
                Some(p) => resolves(old(self).hub_spec().slots(), p) && old(self).fuel_spec() > 0
                    ==> final(self).stack@.len() > old(self).stack@.len() && final(self).stack@[
                    old(self).stack@.len() as int
                ].node_ptr == p,
                None => final(self).stack@ == old(self).stack@,
            },
    {
        let ghost slots = self.hub.slots();
        let mut cur = ptr_opt;
        while cur.is_some() && self.fuel > 0
            invariant_except_break
                match cur {
                    Some(s) => resolves(slots, s) ==> (if self.stack@.len() == 0 {
                        exists|k: nat| chain_from(slots, self.base@, k) == Some(s)
                    } else {
                        in_child_chain(slots, self.stack@.last().node_ptr, s)
                    }),
                    None => true,
                },
            invariant
                slots == self.hub.slots(),
                self.wf(),
                self.hub == old(self).hub,
                self.only_visible == old(self).only_visible,
                self.base == old(self).base,
                self.stack@.len() + self.fuel == old(self).stack@.len() + old(self).fuel_spec(),
                self.stack@.len() >= old(self).stack@.len(),
                forall|i: int|
                    0 <= i < old(self).stack@.len() ==> self.stack@[i] == old(self).stack@[i],
                ptr_opt is None ==> self.stack@ == old(self).stack@ && cur is None,
                (ptr_opt is Some && resolves(slots, ptr_opt->Some_0) && old(self).fuel_spec()
                    > 0) ==> (self.stack@.len() > old(self).stack@.len() && self.stack@[
                    old(self).stack@.len() as int
                ].node_ptr == ptr_opt->Some_0) || (self.stack@ == old(self).stack@ && cur
                    == ptr_opt && self.fuel == old(self).fuel_spec()),
            ensures
                (ptr_opt is Some && resolves(slots, ptr_opt->Some_0) && old(self).fuel_spec()
                    > 0) ==> self.stack@.len() > old(self).stack@.len() && self.stack@[
                    old(self).stack@.len() as int
                ].node_ptr == ptr_opt->Some_0,
                ptr_opt is None ==> self.stack@ == old(self).stack@,
            decreases self.fuel,
        {
            let p = cur.unwrap();
            if !self.hub.can_resolve(p) {
                break ;
            }
            let visible: bool;
            let transform: Transform;
            let first_child: Option<Pointer>;
            {
                let n = self.hub.index_ptr(p);
                visible = n.visible;
                transform = n.transform;
                first_child = match &n.sub_node {
                    SubNode::Group { first_child } => *first_child,
                    _ => None,
                };
            }
            let len = self.stack.len();
            let frame: WalkedNode;
            if len > 0 {
                let parent_visible = self.stack[len - 1].world_visible;
                let parent_transform = self.stack[len - 1].world_transform;
                let ghost parent_path = self.stack@[len - 1].path@;
                frame = WalkedNode {
                    node_ptr: p,
                    world_visible: parent_visible && visible,
                    world_transform: parent_transform.concat(&transform),
                    path: Ghost(parent_path.push(p)),
                };
                proof {
                    let fp = parent_path.push(p);
                    assert(frame_ok(slots, self.base@, self.stack@[len - 1]));
                    assert(fp.drop_last() =~= parent_path);
                    assert(fp.last() == p);
                    assert forall|i: int| 0 <= i < fp.len() implies resolves(
                        slots,
                        #[trigger] fp[i],
                    ) by {
                        if i < fp.len() - 1 {
                            assert(fp[i] == parent_path[i]);
                        }
                    }
                    assert forall|i: int| 1 <= i < fp.len() implies in_child_chain(
                        slots,
                        fp[i - 1],
                        #[trigger] fp[i],
                    ) by {
                        if i < fp.len() - 1 {
                            assert(fp[i] == parent_path[i]);
                            assert(fp[i - 1] == parent_path[i - 1]);
                        } else {
                            assert(fp[i - 1] == parent_path[parent_path.len() - 1]);
                            assert(parent_path.last() == self.stack@[len - 1].node_ptr);
                        }
                    }
                    assert(path_world(slots, fp) == path_world(slots, parent_path).concat_spec(
                        node_at(slots, p).transform,
                    ));
                    assert(path_visible(slots, fp) == (path_visible(slots, parent_path)
                        && node_at(slots, p).visible));
                    assert(frame_ok(slots, self.base@, frame));
                }
            } else {
                let ghost single: Seq<Pointer> = seq![p];
                frame = WalkedNode {
                    node_ptr: p,
                    world_visible: visible,
                    world_transform: transform,
                    path: Ghost(single),
                };
                proof {
                    assert(single.drop_last() =~= Seq::<Pointer>::empty());
                    assert(path_visible(slots, Seq::<Pointer>::empty()));
                    assert(single.last() == p);
                    assert(path_world(slots, single) == node_at(slots, p).transform);
                    assert(path_visible(slots, single) == node_at(slots, p).visible);
                    assert(frame_ok(slots, self.base@, frame));
                }
            }
            let ghost stack_before = self.stack@;
            self.stack.push(frame);
            self.fuel = self.fuel - 1;
            proof {
                assert(self.stack@ == stack_before.push(frame));
                assert forall|i: int| 0 <= i < self.stack@.len() implies frame_ok(
                    slots,
                    self.base@,
                    #[trigger] self.stack@[i],
                ) by {
                    if i < stack_before.len() {
                        assert(self.stack@[i] == stack_before[i]);
                    } else {
                        assert(self.stack@[i] == frame);
                    }
                }
                assert forall|i: int| 0 <= i < self.stack@.len() - 1 implies #[trigger] self
                    .stack@[i + 1].path@ == self.stack@[i].path@.push(
                    self.stack@[i + 1].node_ptr,
                ) by {
                    if i < stack_before.len() - 1 {
                        assert(self.stack@[i] == stack_before[i]);
                        assert(self.stack@[i + 1] == stack_before[i + 1]);
                    } else {
                        assert(self.stack@[i + 1] == frame);
                    }
                }
                assert forall|i: int| 0 <= i < self.stack@.len() implies #[trigger] self.stack@[
                    i
                ].path@.len() == i + 1 by {
                    if i < stack_before.len() {
                        assert(self.stack@[i] == stack_before[i]);
                    } else {
                        assert(self.stack@[i] == frame);
                    }
                }
            }
            if self.only_visible && !visible {
                break ;
            }
            cur = first_child;
            proof {
                if first_child is Some && resolves(slots, first_child->Some_0) {
                    let c = first_child->Some_0;
                    assert(node_at(slots, p).first_child_spec() == Some(c));
                    assert(chain_from(slots, node_at(slots, p).first_child_spec(), 0nat)
                        == Some(c));
                    assert(self.stack@.last() == frame);
                    assert(in_child_chain(slots, p, c));
                }
            }
        }
    }

    /// The remaining push budget.
    pub closed spec fn fuel_spec(&self) -> usize {
        self.fuel
    }

    /// Pop the next frame in depth-first pre-order, descending into its
    /// next sibling first so siblings follow their elder's subtree.  A
    /// yielded frame carries world values that are exactly the fold of the
    /// local values along its path from the root, and under a
    /// visibility-gated pass it is world-visible.
    pub fn next(&mut self) -> (r: Option<WalkedNode>)
        requires
            old(self).wf(),
        ensures
            final(self).wf(),
            final(self).hub_spec() == old(self).hub_spec(),
            final(self).only_visible_spec() == old(self).only_visible_spec(),
            final(self).base_spec() == old(self).base_spec(),
            r matches Some(w) ==> frame_ok(
                old(self).hub_spec().slots(),
                old(self).base_spec(),
                w,
            ),
            r matches Some(w) ==> (final(self).only_visible_spec() ==> w.world_visible),
            r is None ==> final(self).frames().len() == 0,
            !old(self).only_visible_spec() && old(self).frames().len() > 0 ==> r == Some(
                old(self).frames().last(),
            ),
            !old(self).only_visible_spec() && old(self).frames().len() == 0 ==> r is None,
    {
        let ghost slots = self.hub.slots();
        loop
            invariant
                slots == self.hub.slots(),
                self.wf(),
                self.hub == old(self).hub,
                self.only_visible == old(self).only_visible,
                self.base == old(self).base,
                !self.only_visible ==> self.stack@ == old(self).stack@,
            ensures
                self.wf(),
                self.hub == old(self).hub,
                self.only_visible == old(self).only_visible,
                self.base == old(self).base,
            decreases self.stack@.len() + self.fuel,
        {
            let len = self.stack.len();
            if len == 0 {
                return None;
            }
            let ghost pre_stack = self.stack@;
            proof {
                assert(frame_ok(slots, self.base@, pre_stack[len - 1]));
                assert(pre_stack[len - 1].path@.len() == len);
            }
            let top = self.stack.pop().unwrap();
            let ghost top0 = top;
            let sibling: Option<Pointer> = if self.hub.can_resolve(top.node_ptr) {
                self.hub.index_ptr(top.node_ptr).next_sibling
            } else {
                None
            };
            proof {
                assert(top0 == pre_stack[len - 1]);
                assert(self.stack@ =~= pre_stack.drop_last());
                if sibling is Some && resolves(slots, sibling->Some_0) {
                    let s = sibling->Some_0;
                    assert(node_at(slots, top0.node_ptr).next_sibling == Some(s));
                    if len == 1 {
                        assert(top0.path@.len() == 1);
                        assert(top0.path@[0] == top0.path@.last());
                        let k = choose|k: nat| chain_from(slots, self.base@, k) == Some(
                            top0.path@[0],
                        );
                        lemma_chain_step(slots, self.base@, k, top0.node_ptr, s);
                        assert(chain_from(slots, self.base@, (k + 1) as nat) == Some(s));
                        assert(self.stack@.len() == 0);
                    } else {
                        assert(top0.path@.len() == len);
                        let below = pre_stack[len - 2];
                        assert(frame_ok(slots, self.base@, below));
                        assert(top0.path@ == below.path@.push(top0.node_ptr));
                        assert(top0.path@[top0.path@.len() - 2] == below.path@[
                            below.path@.len() - 1
                        ]);
                        assert(below.path@.last() == below.node_ptr);
                        let parent = below.node_ptr;
                        assert(in_child_chain(slots, top0.path@[top0.path@.len() - 2], top0.path@[
                            top0.path@.len() - 1
                        ]));
                        assert(top0.path@[top0.path@.len() - 1] == top0.node_ptr);
                        let start = node_at(slots, parent).first_child_spec();
                        let k = choose|k: nat| chain_from(slots, start, k) == Some(top0.node_ptr);
                        lemma_chain_step(slots, start, k, top0.node_ptr, s);
                        assert(chain_from(slots, start, (k + 1) as nat) == Some(s));
                        assert(in_child_chain(slots, parent, s));
                        assert(self.stack@.len() == len - 1 > 0);
                        assert(self.stack@.last() == below);
                    }
                }
            }
            self.descend(sibling);
            if !self.only_visible || top.world_visible {
                return Some(top);
            }
        }
    }
}

/// Stepping to a chain member's next sibling stays within the same chain,
/// one position further along.
proof fn lemma_chain_step(slots: Seq<Slot>, cur: Option<Pointer>, k: nat, x: Pointer, s: Pointer)
    requires
        chain_from(slots, cur, k) == Some(x),
        node_at(slots, x).next_sibling == Some(s),
        resolves(slots, s),
    ensures
        chain_from(slots, cur, k + 1) == Some(s),
    decreases k,
{
    match cur {
        None => {
            assert(chain_from(slots, cur, k) is None);
        },
        Some(p) => {
            if !resolves(slots, p) {
                assert(chain_from(slots, cur, k) is None);
            } else if k == 0 {
                assert(x == p);
                assert(chain_from(slots, cur, 1nat) == chain_from(
                    slots,
                    node_at(slots, p).next_sibling,
                    0nat,
                ));
                assert(chain_from(slots, node_at(slots, p).next_sibling, 0nat) == Some(s));
            } else {
                lemma_chain_step(slots, node_at(slots, p).next_sibling, (k - 1) as nat, x, s);
                assert(chain_from(slots, cur, k + 1) == chain_from(
                    slots,
                    node_at(slots, p).next_sibling,
                    k,
                ));
            }
        },
    }
}

/// What starting a pass establishes: from a live root in a non-empty
/// arena the first pending frame is the root itself, carrying its local
/// values as world values; from no root, or a stale one, the pass is
/// empty.
pub open spec fn walk_started(hub: &Hub, base: Option<Pointer>, w: TreeWalker<'_>) -> bool {
    &&& match base {
        Some(b) => resolves(hub.slots(), b) && hub.slots().len() > 0 ==> w.frames().len() > 0
            && w.frames()[0].node_ptr == b && w.frames()[0].world_transform == node_at(
            hub.slots(),
            b,
        ).transform && w.frames()[0].world_visible == node_at(hub.slots(), b).visible,
        None => w.frames().len() == 0,
    }
    &&& match base {
        Some(b) => !resolves(hub.slots(), b) ==> w.frames().len() == 0,
        None => true,
    }
}

impl Hub {
    /// A visibility-gated depth-first pass from `base`: only world-visible
    /// nodes are yielded and invisible subtrees are not entered.
    pub fn walk(&self, base: Option<Pointer>) -> (w: TreeWalker<'_>)
        ensures
            w.wf(),
            w.hub_spec() == self,
            w.only_visible_spec() == true,
            w.base_spec() == base,
            walk_started(self, base, w),
    {
        self.walk_impl(base, true)
    }

    /// A full depth-first pass from `base`: every reachable node is
    /// yielded, visible or not.
    pub fn walk_all(&self, base: Option<Pointer>) -> (w: TreeWalker<'_>)
        ensures
            w.wf(),
            w.hub_spec() == self,
            w.only_visible_spec() == false,
            w.base_spec() == base,
            walk_started(self, base, w),
    {
        self.walk_impl(base, false)
    }

    /// Start a pass: an empty stack with a full push budget, descended
    /// once from `base`.
    fn walk_impl(&self, base: Option<Pointer>, only_visible: bool) -> (w: TreeWalker<'_>)
        ensures
            w.wf(),
            w.hub_spec() == self,
            w.only_visible_spec() == only_visible,
            w.base_spec() == base,
            walk_started(self, base, w),
    {
        let mut walker = TreeWalker {
            hub: self,
            only_visible,
            stack: Vec::new(),
            fuel: self.capacity(),
            base: Ghost(base),
        };
        proof {
            if base is Some && resolves(self.slots(), base->Some_0) {
                assert(chain_from(self.slots(), base, 0nat) == Some(base->Some_0));
            }
        }
        walker.descend(base);
        proof {
            match base {
                Some(b) => {
                    if resolves(self.slots(), b) && self.slots().len() > 0 {
                        assert(walker.stack@[0].path@ == seq![walker.stack@[0].node_ptr]);
                        assert(frame_ok(self.slots(), base, walker.stack@[0]));
                        assert(seq![b].drop_last() =~= Seq::<Pointer>::empty());
                        assert(path_visible(self.slots(), Seq::<Pointer>::empty()));
                        assert(path_world(self.slots(), seq![b]) == node_at(
                            self.slots(),
                            b,
                        ).transform);
                        assert(path_visible(self.slots(), seq![b]) == node_at(
                            self.slots(),
                            b,
                        ).visible);
                    }
                },
                None => {},
            }
        }
        walker
    }
}

} // verus!
