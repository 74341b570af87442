//! The hub: the single authority that creates nodes and applies mutation.
//!
//! Handles enqueue [`Operation`]s addressed to a node by pointer; the hub
//! drains the queue once per frame, applies each operation in receipt order,
//! and then reclaims entries with no remaining strong reference.  A stale
//! target makes a message a silent no-op; an operation sent to a node of the
//! wrong kind is ignored without touching unrelated state.

use vstd::prelude::*;

use crate::arena::{
    node_at, refs_at, resolves, seq_release, seq_retain, sweep, Arena, Pointer, Slot,
};
use crate::node::{
    Color, GpuData, LightData, Material, Node, Projection, ShadowMap, SubNode, TextData,
    TextLayout,
};
use crate::mesh::DynamicMesh;
use crate::texture::texel_range_applied;
use crate::transform::{Rotation, Transform};

verus! {

/// A property update for a light node.
#[derive(Clone, Copy, Debug, PartialEq, Eq, Structural)]
pub enum LightOperation {
    /// Change the light color.
    Color(Color),
    /// Change the intensity.
    Intensity(i64),
}

/// A property update for a UI text node.
#[derive(Clone, Debug)]
pub enum TextOperation {
    /// Change the text color.
    Color(Color),
    /// Change the font.
    Font(u64),
    /// Change the horizontal alignment.
    Layout(TextLayout),
    /// Change the opacity.
    Opacity(i64),
    /// Move the text on screen.
    Pos(i64, i64),
    /// Change the bounding size.
    Size(i64, i64),
    /// Replace the rendered string.
    Text(String),
}

/// A tagged request to mutate one node.
#[derive(Clone, Debug)]
pub enum Operation {
    /// Insert a child at the head of a group's child list.
    AddChild(Pointer),
    /// Remove a child from a group's child list.
    RemoveChild(Pointer),
    /// Set the local visibility flag.
    SetVisible(bool),
    /// Update a light node's parameters.
    SetLight(LightOperation),
    /// Update a UI text node's layout state.
    SetText(TextOperation),
    /// Update the local transform; absent parts are left unchanged.
    SetTransform(Option<(i64, i64, i64)>, Option<Rotation>, Option<i64>),
    /// Replace a renderable node's material.
    SetMaterial(Material),
    /// Bind a renderable node to a skeleton node.
    SetSkeleton(Pointer),
    /// Give a light node a shadow map and its projection.
    SetShadow(ShadowMap, Projection),
    /// Select a sprite's texel sub-rectangle: base corner, then extent.
    SetTexelRange(i16, i16, u16, u16),
    /// Set blend-shape weights; on a group, applies to the immediate
    /// children.
    SetWeights(Vec<i64>),
    /// Set the user label.
    SetName(String),
    /// Replace a camera node's projection.
    SetProjection(Projection),
}

/// One queued mutation request, addressed by weak pointer.
#[derive(Clone, Debug)]
pub struct Message {
    /// The node the operation is addressed to.
    pub target: Pointer,
    /// The requested mutation.
    pub operation: Operation,
}

/// A user-facing reference to one node: the means to address mutations to
/// it.  A handle holds one counted strong reference, taken when the handle
/// is made and given back by [`Hub::drop_handle`].
#[derive(Debug)]
pub struct Handle {
    ptr: Pointer,
}

impl PartialEq for Handle {
    /// Handle equality is identity of the addressed entry, not equality of
    /// the entry's contents.
    fn eq(&self, other: &Handle) -> (r: bool) {
        self.ptr == other.ptr
    }
}

impl Eq for Handle {

}

impl vstd::std_specs::cmp::PartialEqSpecImpl for Handle {
    open spec fn obeys_eq_spec() -> bool {
        true
    }

    open spec fn eq_spec(&self, other: &Handle) -> bool {
        self.ptr_spec() == other.ptr_spec()
    }
}

impl Handle {
    /// The pointer this handle carries.
    pub closed spec fn ptr_spec(&self) -> Pointer {
        self.ptr
    }

    /// The pointer this handle carries, usable as a weak reference.
    pub fn pointer(&self) -> (p: Pointer)
        ensures
            p == self.ptr_spec(),
    {
        self.ptr
    }
}

/// The strong pointer an operation carries along, if any.
pub open spec fn carried_pointer(op: Operation) -> Option<Pointer> {
    match op {
        Operation::AddChild(c) => Some(c),
        Operation::RemoveChild(c) => Some(c),
        Operation::SetSkeleton(c) => Some(c),
        _ => None,
    }
}

/// Record the reference an operation carries when it is queued.
pub open spec fn retain_carried(slots: Seq<Slot>, op: Operation) -> Seq<Slot> {
    match carried_pointer(op) {
        Some(c) => seq_retain(slots, c),
        None => slots,
    }
}

/// Give the reference an operation carries back when the message is dropped
/// unapplied.
pub open spec fn release_carried(slots: Seq<Slot>, op: Operation) -> Seq<Slot> {
    match carried_pointer(op) {
        Some(c) => seq_release(slots, c),
        None => slots,
    }
}

/// The strong pointer a fresh payload carries into its node, if any.
pub open spec fn payload_pointer(sub: SubNode) -> Option<Pointer> {
    match sub {
        SubNode::Group { first_child } => first_child,
        SubNode::Visual(_, _, skeleton) => skeleton,
        _ => None,
    }
}

/// Record the reference a fresh payload carries when its node is spawned.
pub open spec fn payload_retained(slots: Seq<Slot>, sub: SubNode) -> Seq<Slot> {
    match payload_pointer(sub) {
        Some(c) => seq_retain(slots, c),
        None => slots,
    }
}

/// Replace the entry `p` addresses, keeping generation and count.
pub open spec fn set_node(slots: Seq<Slot>, p: Pointer, n: Node) -> Seq<Slot>
    recommends
        resolves(slots, p),
{
    slots.update(p.index as int, Slot { node: Some(n), ..slots[p.index as int] })
}

/// The transform after an update whose position, rotation and scale parts
/// are each optional; absent parts stay as they were.
pub open spec fn transform_updated(
    t: Transform,
    pos: Option<(i64, i64, i64)>,
    rot: Option<Rotation>,
    scale: Option<i64>,
) -> Transform {
    let t1 = match pos {
        Some(p) => Transform { dx: p.0, dy: p.1, dz: p.2, ..t },
        None => t,
    };
    let t2 = match rot {
        Some(r) => Transform { rot: r, ..t1 },
        None => t1,
    };
    match scale {
        Some(s) => Transform { scale: s, ..t2 },
        None => t2,
    }
}

/// Light parameters after one light operation.
pub open spec fn light_applied(op: LightOperation, d: LightData) -> LightData {
    match op {
        LightOperation::Color(c) => LightData { color: c, ..d },
        LightOperation::Intensity(i) => LightData { intensity: i, ..d },
    }
}

/// Text layout state after one text operation.
pub open spec fn text_applied(op: TextOperation, d: TextData) -> TextData {
    match op {
        TextOperation::Color(c) => TextData { color: c, ..d },
        TextOperation::Font(f) => TextData { font_id: f, ..d },
        TextOperation::Layout(l) => TextData { layout: l, ..d },
        TextOperation::Opacity(o) => TextData { opacity: o, ..d },
        TextOperation::Pos(x, y) => TextData { pos_x: x, pos_y: y, ..d },
        TextOperation::Size(x, y) => TextData { size_x: x, size_y: y, ..d },
        TextOperation::Text(s) => TextData { text: s, ..d },
    }
}

/// The chain predecessor of `c`: the first node along the sibling chain
/// starting at `cur` whose `next_sibling` is `c`.  The walk gives up on a
/// missing or stale link, or once `fuel` steps were taken; any acyclic chain
/// inside an arena of `fuel` slots is shorter than that.
pub open spec fn find_pred(
    slots: Seq<Slot>,
    cur: Option<Pointer>,
    c: Pointer,
    fuel: nat,
) -> Option<Pointer>
    decreases fuel,
{
    if fuel == 0 {
        None
    } else {
        match cur {
            None => None,
            Some(p) => if !resolves(slots, p) {
                None
            } else if node_at(slots, p).next_sibling == Some(c) {
                Some(p)
            } else {
                find_pred(slots, node_at(slots, p).next_sibling, c, (fuel - 1) as nat)
            },
        }
    }
}

/// A chain predecessor found by [`find_pred`] is a live node whose sibling
/// link is the sought child.
proof fn lemma_find_pred_resolves(
    slots: Seq<Slot>,
    cur: Option<Pointer>,
    c: Pointer,
    fuel: nat,
)
    ensures
        find_pred(slots, cur, c, fuel) matches Some(d) ==> resolves(slots, d) && node_at(
            slots,
            d,
        ).next_sibling == Some(c),
    decreases fuel,
{
    if fuel > 0 {
        match cur {
            None => {},
            Some(p) => {
                if resolves(slots, p) && node_at(slots, p).next_sibling != Some(c) {
                    lemma_find_pred_resolves(
                        slots,
                        node_at(slots, p).next_sibling,
                        c,
                        (fuel - 1) as nat,
                    );
                }
            },
        }
    }
}

/// GPU data after setting the blend-shape weight channels from the sent
/// list; channels past its end are cleared.
pub open spec fn weights_applied(g: GpuData, w: Seq<i64>) -> GpuData {
    GpuData {
        w0: if w.len() > 0 { w[0] } else { 0 },
        w1: if w.len() > 1 { w[1] } else { 0 },
        w2: if w.len() > 2 { w[2] } else { 0 },
        w3: if w.len() > 3 { w[3] } else { 0 },
        ..g
    }
}

/// Walk the sibling chain starting at `cur`, applying the weights to every
/// renderable node met, for at most `fuel` steps.
pub open spec fn weights_chain(
    slots: Seq<Slot>,
    cur: Option<Pointer>,
    w: Seq<i64>,
    fuel: nat,
) -> Seq<Slot>
    decreases fuel,
{
    if fuel == 0 {
        slots
    } else {
        match cur {
            None => slots,
            Some(p) => if !resolves(slots, p) {
                slots
            } else {
                let n = node_at(slots, p);
                let s1 = match n.sub_node {
                    SubNode::Visual(m, g, sk) => set_node(
                        slots,
                        p,
                        Node { sub_node: SubNode::Visual(m, weights_applied(g, w), sk), ..n },
                    ),
                    _ => slots,
                };
                weights_chain(s1, n.next_sibling, w, (fuel - 1) as nat)
            },
        }
    }
}

/// Applying `AddChild(c)` to group `t`: the child becomes the head of the
/// child list and its sibling link takes over the previous head, replacing
/// (and releasing) whatever sibling link the child carried before.  The
/// message's reference to `c` moves into the group's child link.  On a
/// non-group target or a stale child the operation only drops that
/// reference.
///
/// Caution: a child that is still linked into another group's chain is
/// relocated without being unlinked there first — the old chain keeps its
/// now-misleading head link.  Remove a child from its previous group
/// before adding it to a new one.
pub open spec fn apply_add_child(slots: Seq<Slot>, t: Pointer, c: Pointer) -> Seq<Slot>
    recommends
        resolves(slots, t),
{
    if !(node_at(slots, t).sub_node is Group) || !resolves(slots, c) {
        seq_release(slots, c)
    } else {
        let old_first = node_at(slots, t).first_child_spec();
        let s1 = set_node(
            slots,
            t,
            Node { sub_node: SubNode::Group { first_child: Some(c) }, ..node_at(slots, t) },
        );
        let cn = node_at(s1, c);
        let s2 = match cn.next_sibling {
            Some(s) => seq_release(s1, s),
            None => s1,
        };
        set_node(s2, c, Node { next_sibling: old_first, ..node_at(s2, c) })
    }
}

/// Applying `RemoveChild(c)` to group `t`: the child is spliced out of the
/// child list — off the head, or out from behind its chain predecessor —
/// and the chain's reference to it is given back; the removed child keeps
/// its own sibling link.  A child not found in the chain is a no-op.  The
/// message's reference to `c` is given back in every case.
pub open spec fn apply_remove_child(slots: Seq<Slot>, t: Pointer, c: Pointer) -> Seq<Slot>
    recommends
        resolves(slots, t),
{
    if !(node_at(slots, t).sub_node is Group) || !resolves(slots, c) {
        seq_release(slots, c)
    } else {
        let next = node_at(slots, c).next_sibling;
        let after = if node_at(slots, t).first_child_spec() == Some(c) {
            let s1 = match next {
                Some(nx) => seq_retain(slots, nx),
                None => slots,
            };
            let s2 = set_node(
                s1,
                t,
                Node { sub_node: SubNode::Group { first_child: next }, ..node_at(s1, t) },
            );
            seq_release(s2, c)
        } else {
            match find_pred(slots, node_at(slots, t).first_child_spec(), c, slots.len()) {
                None => slots,
                Some(d) => {
                    let s1 = match next {
                        Some(nx) => seq_retain(slots, nx),
                        None => slots,
                    };
                    let s2 = set_node(s1, d, Node { next_sibling: next, ..node_at(s1, d) });
                    seq_release(s2, c)
                },
            }
        };
        seq_release(after, c)
    }
}

/// The arena after applying one message: a stale target only drops the
/// reference the operation carried; a kind-mismatched operation is ignored
/// (dropping a carried reference), and never touches unrelated state.
pub open spec fn apply_message(slots: Seq<Slot>, m: Message) -> Seq<Slot> {
    let t = m.target;
    if !resolves(slots, t) {
        release_carried(slots, m.operation)
    } else {
        let n = node_at(slots, t);
        match m.operation {
            Operation::AddChild(c) => apply_add_child(slots, t, c),
            Operation::RemoveChild(c) => apply_remove_child(slots, t, c),
            Operation::SetVisible(v) => set_node(slots, t, Node { visible: v, ..n }),
            Operation::SetLight(lop) => match n.sub_node {
                SubNode::Light(d) => set_node(
                    slots,
                    t,
                    Node { sub_node: SubNode::Light(light_applied(lop, d)), ..n },
                ),
                _ => slots,
            },
            Operation::SetText(top) => match n.sub_node {
                SubNode::UiText(d) => set_node(
                    slots,
                    t,
                    Node { sub_node: SubNode::UiText(text_applied(top, d)), ..n },
                ),
                _ => slots,
            },
            Operation::SetTransform(pos, rot, scale) => set_node(
                slots,
                t,
                Node { transform: transform_updated(n.transform, pos, rot, scale), ..n },
            ),
            Operation::SetMaterial(mat) => match n.sub_node {
                SubNode::Visual(_, g, sk) => set_node(
                    slots,
                    t,
                    Node { sub_node: SubNode::Visual(mat, g, sk), ..n },
                ),
                _ => slots,
            },
            Operation::SetSkeleton(sk) => match n.sub_node {
                SubNode::Visual(mat, g, old_sk) => {
                    let s1 = match old_sk {
                        Some(o) => seq_release(slots, o),
                        None => slots,
                    };
                    set_node(s1, t, Node { sub_node: SubNode::Visual(mat, g, Some(sk)), ..n })
                },
                _ => seq_release(slots, sk),
            },
            Operation::SetShadow(map, proj) => match n.sub_node {
                SubNode::Light(d) => set_node(
                    slots,
                    t,
                    Node {
                        sub_node: SubNode::Light(LightData { shadow: Some((map, proj)), ..d }),
                        ..n
                    },
                ),
                _ => slots,
            },
            Operation::SetTexelRange(bx, by, sx, sy) => match n.sub_node {
                SubNode::Visual(Material::Sprite { map }, g, sk) => set_node(
                    slots,
                    t,
                    Node {
                        sub_node: SubNode::Visual(
                            Material::Sprite { map: texel_range_applied(map, bx, by, sx, sy) },
                            g,
                            sk,
                        ),
                        ..n
                    },
                ),
                _ => slots,
            },
            Operation::SetWeights(w) => match n.sub_node {
                SubNode::Visual(m, g, sk) => set_node(
                    slots,
                    t,
                    Node { sub_node: SubNode::Visual(m, weights_applied(g, w@), sk), ..n },
                ),
                SubNode::Group { first_child } => weights_chain(
                    slots,
                    first_child,
                    w@,
                    slots.len(),
                ),
                _ => slots,
            },
            Operation::SetName(s) => set_node(slots, t, Node { name: Some(s), ..n }),
            Operation::SetProjection(p) => match n.sub_node {
                SubNode::Camera(_) => set_node(
                    slots,
                    t,
                    Node { sub_node: SubNode::Camera(p), ..n },
                ),
                _ => slots,
            },
        }
    }
}

/// The arena after applying the messages from position `i` on, in order.
pub open spec fn apply_from(slots: Seq<Slot>, msgs: Seq<Message>, i: int) -> Seq<Slot>
    decreases msgs.len() - i,
{
    if i < 0 || i >= msgs.len() {
        slots
    } else {
        apply_from(apply_message(slots, msgs[i]), msgs, i + 1)
    }
}

/// The arena after applying a whole queue of messages, in receipt order.
pub open spec fn apply_all(slots: Seq<Slot>, msgs: Seq<Message>) -> Seq<Slot> {
    apply_from(slots, msgs, 0)
}

/// What [`Hub::spawn`] does to the arena: the payload's reference is
/// recorded, then a fresh entry holding a default node with that payload
/// appears under `p` with one strong reference, all other slots unchanged.
pub open spec fn spawned(pre: Seq<Slot>, post: Seq<Slot>, p: Pointer, sub: SubNode) -> bool {
    let mid = payload_retained(pre, sub);
    &&& resolves(post, p)
    &&& node_at(post, p) == (Node {
        transform: Transform::identity_spec(),
        visible: true,
        name: None,
        next_sibling: None,
        sub_node: sub,
    })
    &&& refs_at(post, p) == 1
    &&& forall|j: int| 0 <= j < pre.len() && j != p.index ==> post[j] == mid[j]
    &&& p.index < pre.len() ==> post.len() == pre.len() && mid[p.index as int].node is None
        && post[p.index as int].generation > mid[p.index as int].generation
    &&& p.index >= pre.len() ==> p.index == pre.len() && post.len() == pre.len() + 1
}

/// The hub: owner of the node arena and the consuming end of the mutation
/// queue.
pub struct Hub {
    nodes: Arena,
    queue: Vec<Message>,
}

impl Hub {
    /// The arena's slots.
    pub closed spec fn slots(&self) -> Seq<Slot> {
        self.nodes@
    }

    /// The queued messages, in receipt order.
    pub closed spec fn pending(&self) -> Seq<Message> {
        self.queue@
    }

    /// Number of arena slots, live or free.
    pub fn capacity(&self) -> (r: usize)
        ensures
            r == self.slots().len(),
    {
        self.nodes.capacity()
    }

    /// An empty hub: no nodes, no queued messages.
    pub fn new() -> (r: Hub)
        ensures
            r.slots().len() == 0,
            r.pending().len() == 0,
    {
        Hub { nodes: Arena::new(), queue: Vec::new() }
    }

    /// Allocate a node with the given payload — local transform identity,
    /// visible, unnamed, unlinked — and return one handle to it.
    pub fn spawn(&mut self, sub_node: SubNode) -> (h: Handle)
        ensures
            spawned(old(self).slots(), final(self).slots(), h.ptr_spec(), sub_node),
            final(self).pending() == old(self).pending(),
    {
        let carried: Option<Pointer> = match &sub_node {
            SubNode::Group { first_child } => *first_child,
            SubNode::Visual(_, _, skeleton) => *skeleton,
            _ => None,
        };
        if let Some(c) = carried {
            self.nodes.retain(c);
        }
        let p = self.nodes.create(Node::new(sub_node));
        Handle { ptr: p }
    }

    /// Allocate a renderable node.
    pub fn spawn_visual(
        &mut self,
        material: Material,
        gpu_data: GpuData,
        skeleton: Option<Pointer>,
    ) -> (h: Handle)
        ensures
            spawned(
                old(self).slots(),
                final(self).slots(),
                h.ptr_spec(),
                SubNode::Visual(material, gpu_data, skeleton),
            ),
            final(self).pending() == old(self).pending(),
    {
        self.spawn(SubNode::Visual(material, gpu_data, skeleton))
    }

    /// Allocate a light node.
    pub fn spawn_light(&mut self, data: LightData) -> (h: Handle)
        ensures
            spawned(old(self).slots(), final(self).slots(), h.ptr_spec(), SubNode::Light(data)),
            final(self).pending() == old(self).pending(),
    {
        self.spawn(SubNode::Light(data))
    }

    /// Allocate a skeleton root node.
    pub fn spawn_skeleton(&mut self) -> (h: Handle)
        ensures
            spawned(old(self).slots(), final(self).slots(), h.ptr_spec(), SubNode::Skeleton),
            final(self).pending() == old(self).pending(),
    {
        self.spawn(SubNode::Skeleton)
    }

    /// Upgrade a pointer back to a handle: succeeds exactly when the entry
    /// is live and a further reference can be recorded.
    pub fn upgrade_ptr(&mut self, ptr: Pointer) -> (r: Option<Handle>)
        ensures
            r is Some <==> resolves(old(self).slots(), ptr) && refs_at(old(self).slots(), ptr)
                < u64::MAX,
            r matches Some(h) ==> h.ptr_spec() == ptr && final(self).slots() == seq_retain(
                old(self).slots(),
                ptr,
            ),
            r is None ==> final(self).slots() == old(self).slots(),
            final(self).pending() == old(self).pending(),
    {
        if self.nodes.can_resolve(ptr) && self.nodes.refs_of(ptr) < u64::MAX {
            self.nodes.retain(ptr);
            Some(Handle { ptr })
        } else {
            None
        }
    }

    /// A further handle to the same node, as cloning a handle would give.
    pub fn clone_handle(&mut self, h: &Handle) -> (r: Option<Handle>)
        ensures
            r is Some <==> resolves(old(self).slots(), h.ptr_spec()) && refs_at(
                old(self).slots(),
                h.ptr_spec(),
            ) < u64::MAX,
            r matches Some(h2) ==> h2.ptr_spec() == h.ptr_spec() && final(self).slots()
                == seq_retain(old(self).slots(), h.ptr_spec()),
            r is None ==> final(self).slots() == old(self).slots(),
            final(self).pending() == old(self).pending(),
    {
        self.upgrade_ptr(h.ptr)
    }

    /// Give a handle's strong reference back.  Once every handle and link
    /// to a node is gone, the next [`Hub::process_messages`] reclaims it.
    pub fn drop_handle(&mut self, h: Handle)
        ensures
            final(self).slots() == seq_release(old(self).slots(), h.ptr_spec()),
            final(self).pending() == old(self).pending(),
    {
        self.nodes.release(h.ptr);
    }

    /// Dereference a handle.
    pub fn index(&self, h: &Handle) -> (r: &Node)
        requires
            resolves(self.slots(), h.ptr_spec()),
        ensures
            *r == node_at(self.slots(), h.ptr_spec()),
    {
        self.nodes.get(h.ptr)
    }

    /// Dereference a pointer.
    pub fn index_ptr(&self, p: Pointer) -> (r: &Node)
        requires
            resolves(self.slots(), p),
        ensures
            *r == node_at(self.slots(), p),
    {
        self.nodes.get(p)
    }

    /// Whether a pointer still addresses a live node.
    pub fn can_resolve(&self, p: Pointer) -> (b: bool)
        ensures
            b == resolves(self.slots(), p),
    {
        self.nodes.can_resolve(p)
    }

    /// Enqueue one operation addressed to the handle's node.  The send only
    /// records the message (and the strong reference the operation carries);
    /// nothing is applied before [`Hub::process_messages`].
    pub fn send(&mut self, target: &Handle, operation: Operation)
        ensures
            final(self).slots() == retain_carried(old(self).slots(), operation),
            final(self).pending() == old(self).pending().push(
                Message { target: target.ptr_spec(), operation },
            ),
    {
        let carried: Option<Pointer> = match &operation {
            Operation::AddChild(c) => Some(*c),
            Operation::RemoveChild(c) => Some(*c),
            Operation::SetSkeleton(c) => Some(*c),
            _ => None,
        };
        if let Some(c) = carried {
            self.nodes.retain(c);
        }
        self.queue.push(Message { target: target.pointer(), operation });
    }

    /// Mark a dynamic mesh's renderable node as carrying a pending
    /// CPU-side geometry update.  The node must be renderable; this is the
    /// one mutation applied directly rather than through the queue.
    pub fn update_mesh(&mut self, mesh: &DynamicMesh)
        requires
            resolves(old(self).slots(), mesh.object.ptr_spec()),
            node_at(old(self).slots(), mesh.object.ptr_spec()).sub_node is Visual,
        ensures
            ({
                let t = mesh.object.ptr_spec();
                let n = node_at(old(self).slots(), t);
                final(self).slots() == set_node(
                    old(self).slots(),
                    t,
                    Node {
                        sub_node: SubNode::Visual(
                            n.sub_node->Visual_0,
                            GpuData { pending: Some(mesh.dynamic_id), ..n.sub_node->Visual_1 },
                            n.sub_node->Visual_2,
                        ),
                        ..n
                    },
                )
            }),
            final(self).pending() == old(self).pending(),
    {
        let ghost pre = self.slots();
        let t = mesh.object.pointer();
        let mut n = self.nodes.take_node(t);
        n.sub_node = match n.sub_node {
            SubNode::Visual(m, g, sk) => SubNode::Visual(
                m,
                GpuData { pending: Some(mesh.dynamic_id), ..g },
                sk,
            ),
            other => other,
        };
        self.nodes.put_node(t, n);
        proof {
            assert(self.slots() =~= set_node(
                pre,
                t,
                Node {
                    sub_node: SubNode::Visual(
                        node_at(pre, t).sub_node->Visual_0,
                        GpuData {
                            pending: Some(mesh.dynamic_id),
                            ..node_at(pre, t).sub_node->Visual_1
                        },
                        node_at(pre, t).sub_node->Visual_2,
                    ),
                    ..node_at(pre, t)
                },
            ));
        }
    }

    /// Drain the mutation queue to exhaustion, applying every message in
    /// receipt order, then reclaim entries with no remaining strong
    /// reference.  No message remains queued when this returns.
    pub fn process_messages(&mut self)
        ensures
            final(self).slots() == sweep(apply_all(old(self).slots(), old(self).pending())),
            final(self).pending().len() == 0,
    {
        let mut msgs: Vec<Message> = Vec::new();
        core::mem::swap(&mut msgs, &mut self.queue);
        let ghost msgs0 = msgs@;
        let ghost slots0 = self.slots();
        let n = msgs.len();
        let mut i: usize = 0;
        while i < n
            invariant
                i <= n,
                n == msgs@.len(),
                n == msgs0.len(),
                forall|j: int| i <= j < n ==> msgs@[j] == msgs0[j],
                apply_from(self.slots(), msgs0, i as int) == apply_from(slots0, msgs0, 0),
                self.pending() == Seq::<Message>::empty(),
            decreases n - i,
        {
            let mut m = Message {
                target: Pointer { index: 0, generation: 0 },
                operation: Operation::SetVisible(false),
            };
            core::mem::swap(&mut m, &mut msgs[i]);
            proof {
                assert(m == msgs0[i as int]);
            }
            let ghost mid = self.slots();
            self.apply(m);
            proof {
                assert(apply_from(mid, msgs0, i as int) == apply_from(
                    apply_message(mid, msgs0[i as int]),
                    msgs0,
                    i as int + 1,
                ));
                assert(self.slots() == apply_message(mid, msgs0[i as int]));
            }
            i = i + 1;
        }
        self.nodes.sync_pending();
    }

    /// Apply one drained message, exactly as [`apply_message`] states.
    fn apply(&mut self, m: Message)
        ensures
            final(self).slots() == apply_message(old(self).slots(), m),
            final(self).pending() == old(self).pending(),
    {
        let ghost pre = self.slots();
        let ghost m0 = m;
        let Message { target: t, operation } = m;
        if !self.nodes.can_resolve(t) {
            match operation {
                Operation::AddChild(c) => self.nodes.release(c),
                Operation::RemoveChild(c) => self.nodes.release(c),
                Operation::SetSkeleton(c) => self.nodes.release(c),
                _ => {},
            }
            return ;
        }
        match operation {
            Operation::AddChild(c) => {
                self.apply_add_child_at(t, c);
            },
            Operation::RemoveChild(c) => {
                self.apply_remove_child_at(t, c);
            },
            Operation::SetVisible(v) => {
                let mut n = self.nodes.take_node(t);
                n.visible = v;
                self.nodes.put_node(t, n);
                proof {
                    assert(self.slots() =~= apply_message(pre, m0));
                }
            },
            Operation::SetLight(lop) => {
                let mut n = self.nodes.take_node(t);
                n.sub_node = match n.sub_node {
                    SubNode::Light(mut d) => {
                        Hub::process_light(lop, &mut d);
                        SubNode::Light(d)
                    },
                    other => other,
                };
                self.nodes.put_node(t, n);
                proof {
                    assert(self.slots() =~= apply_message(pre, m0));
                }
            },
            Operation::SetText(top) => {
                let mut n = self.nodes.take_node(t);
                n.sub_node = match n.sub_node {
                    SubNode::UiText(mut d) => {
                        Hub::process_text(top, &mut d);
                        SubNode::UiText(d)
                    },
                    other => other,
                };
                self.nodes.put_node(t, n);
                proof {
                    assert(self.slots() =~= apply_message(pre, m0));
                }
            },
            Operation::SetTransform(pos, rot, scale) => {
                let mut n = self.nodes.take_node(t);
                if let Some(p) = pos {
                    n.transform.dx = p.0;
                    n.transform.dy = p.1;
                    n.transform.dz = p.2;
                }
                if let Some(r) = rot {
                    n.transform.rot = r;
                }
                if let Some(s) = scale {
                    n.transform.scale = s;
                }
                self.nodes.put_node(t, n);
                proof {
                    assert(self.slots() =~= apply_message(pre, m0));
                }
            },
            Operation::SetMaterial(mat) => {
                let mut n = self.nodes.take_node(t);
                n.sub_node = match n.sub_node {
                    SubNode::Visual(_, g, sk) => SubNode::Visual(mat, g, sk),
                    other => other,
                };
                self.nodes.put_node(t, n);
                proof {
                    assert(self.slots() =~= apply_message(pre, m0));
                }
            },
            Operation::SetSkeleton(sk) => {
                let is_visual = match &self.nodes.get(t).sub_node {
                    SubNode::Visual(_, _, _) => true,
                    _ => false,
                };
                if is_visual {
                    let old_sk = match &self.nodes.get(t).sub_node {
                        SubNode::Visual(_, _, skeleton) => *skeleton,
                        _ => None,
                    };
                    if let Some(o) = old_sk {
                        self.nodes.release(o);
                    }
                    let mut n = self.nodes.take_node(t);
                    n.sub_node = match n.sub_node {
                        SubNode::Visual(mat, g, _) => SubNode::Visual(mat, g, Some(sk)),
                        other => other,
                    };
                    self.nodes.put_node(t, n);
                    proof {
                        assert(self.slots() =~= apply_message(pre, m0));
                    }
                } else {
                    self.nodes.release(sk);
                }
            },
            Operation::SetShadow(map, proj) => {
                let mut n = self.nodes.take_node(t);
                n.sub_node = match n.sub_node {
                    SubNode::Light(d) => SubNode::Light(
                        LightData { shadow: Some((map, proj)), ..d },
                    ),
                    other => other,
                };
                self.nodes.put_node(t, n);
                proof {
                    assert(self.slots() =~= apply_message(pre, m0));
                }
            },
            Operation::SetTexelRange(bx, by, sx, sy) => {
                let mut n = self.nodes.take_node(t);
                n.sub_node = match n.sub_node {
                    SubNode::Visual(Material::Sprite { mut map }, g, sk) => {
                        map.set_texel_range(bx, by, sx, sy);
                        SubNode::Visual(Material::Sprite { map }, g, sk)
                    },
                    other => other,
                };
                self.nodes.put_node(t, n);
                proof {
                    assert(self.slots() =~= apply_message(pre, m0));
                }
            },
            Operation::SetWeights(w) => {
                self.apply_weights_at(t, w);
            },
            Operation::SetName(s) => {
                let mut n = self.nodes.take_node(t);
                n.name = Some(s);
                self.nodes.put_node(t, n);
                proof {
                    assert(self.slots() =~= apply_message(pre, m0));
                }
            },
            Operation::SetProjection(p) => {
                let mut n = self.nodes.take_node(t);
                n.sub_node = match n.sub_node {
                    SubNode::Camera(_) => SubNode::Camera(p),
                    other => other,
                };
                self.nodes.put_node(t, n);
                proof {
                    assert(self.slots() =~= apply_message(pre, m0));
                }
            },
        }
    }

    /// Insert `c` at the head of group `t`'s child list, exactly as
    /// [`apply_add_child`] states.
    fn apply_add_child_at(&mut self, t: Pointer, c: Pointer)
        requires
            resolves(old(self).slots(), t),
        ensures
            final(self).slots() == apply_add_child(old(self).slots(), t, c),
            final(self).pending() == old(self).pending(),
    {
        let ghost pre = self.slots();
        let fc: Option<Option<Pointer>> = match &self.nodes.get(t).sub_node {
            SubNode::Group { first_child } => Some(*first_child),
            _ => None,
        };
        match fc {
            None => {
                self.nodes.release(c);
            },
            Some(old_first) => {
                if !self.nodes.can_resolve(c) {
                    self.nodes.release(c);
                } else {
                    let mut tn = self.nodes.take_node(t);
                    tn.sub_node = SubNode::Group { first_child: Some(c) };
                    self.nodes.put_node(t, tn);
                    proof {
                        assert(self.slots() =~= set_node(
                            pre,
                            t,
                            Node {
                                sub_node: SubNode::Group { first_child: Some(c) },
                                ..node_at(pre, t)
                            },
                        ));
                    }
                    let old_sib = self.nodes.get(c).next_sibling;
                    if let Some(s) = old_sib {
                        self.nodes.release(s);
                    }
                    let mut cn = self.nodes.take_node(c);
                    cn.next_sibling = old_first;
                    self.nodes.put_node(c, cn);
                    proof {
                        assert(self.slots() =~= apply_add_child(pre, t, c));
                    }
                }
            },
        }
    }

    /// Splice `c` out of group `t`'s child list, exactly as
    /// [`apply_remove_child`] states.
    fn apply_remove_child_at(&mut self, t: Pointer, c: Pointer)
        requires
            resolves(old(self).slots(), t),
        ensures
            final(self).slots() == apply_remove_child(old(self).slots(), t, c),
            final(self).pending() == old(self).pending(),
    {
        let ghost pre = self.slots();
        let fc: Option<Option<Pointer>> = match &self.nodes.get(t).sub_node {
            SubNode::Group { first_child } => Some(*first_child),
            _ => None,
        };
        match fc {
            None => {
                self.nodes.release(c);
            },
            Some(first) => {
                if !self.nodes.can_resolve(c) {
                    self.nodes.release(c);
                } else {
                    let next = self.nodes.get(c).next_sibling;
                    if ptr_opt_is(first, c) {
                        if let Some(nx) = next {
                            self.nodes.retain(nx);
                        }
                        let mut tn = self.nodes.take_node(t);
                        tn.sub_node = SubNode::Group { first_child: next };
                        self.nodes.put_node(t, tn);
                        self.nodes.release(c);
                    } else {
                        let pred = self.find_predecessor(first, c);
                        proof {
                            lemma_find_pred_resolves(
                                self.slots(),
                                first,
                                c,
                                self.slots().len() as nat,
                            );
                        }
                        match pred {
                            None => {},
                            Some(d) => {
                                if let Some(nx) = next {
                                    self.nodes.retain(nx);
                                }
                                proof {
                                    assert(resolves(self.slots(), d));
                                }
                                let mut dn = self.nodes.take_node(d);
                                dn.next_sibling = next;
                                self.nodes.put_node(d, dn);
                                self.nodes.release(c);
                            },
                        }
                    }
                    self.nodes.release(c);
                    proof {
                        assert(self.slots() =~= apply_remove_child(pre, t, c));
                    }
                }
            },
        }
    }

    /// The chain predecessor of `c` along the chain starting at `first`,
    /// exactly as [`find_pred`] states with the arena size as fuel.
    fn find_predecessor(&self, first: Option<Pointer>, c: Pointer) -> (r: Option<Pointer>)
        ensures
            r == find_pred(self.slots(), first, c, self.slots().len()),
    {
        let mut cur = first;
        let mut fuel: usize = self.nodes.capacity();
        while fuel > 0
            invariant
                find_pred(self.slots(), cur, c, fuel as nat) == find_pred(
                    self.slots(),
                    first,
                    c,
                    self.slots().len(),
                ),
            decreases fuel,
        {
            match cur {
                None => {
                    return None;
                },
                Some(p) => {
                    if !self.nodes.can_resolve(p) {
                        return None;
                    }
                    let ns = self.nodes.get(p).next_sibling;
                    if ptr_opt_is(ns, c) {
                        return Some(p);
                    }
                    cur = ns;
                    fuel = fuel - 1;
                },
            }
        }
        None
    }

    /// Apply blend-shape weights to target `t`: directly on a renderable,
    /// or to each renderable among a group's immediate children.
    fn apply_weights_at(&mut self, t: Pointer, w: Vec<i64>)
        requires
            resolves(old(self).slots(), t),
        ensures
            final(self).slots() == apply_message(
                old(self).slots(),
                Message { target: t, operation: Operation::SetWeights(w) },
            ),
            final(self).pending() == old(self).pending(),
    {
        let ghost pre = self.slots();
        let kind: u8 = match &self.nodes.get(t).sub_node {
            SubNode::Visual(_, _, _) => 0,
            SubNode::Group { .. } => 1,
            _ => 2,
        };
        if kind == 0 {
            let mut n = self.nodes.take_node(t);
            n.sub_node = match n.sub_node {
                SubNode::Visual(m, g, sk) => SubNode::Visual(m, set_weights(g, &w), sk),
                other => other,
            };
            self.nodes.put_node(t, n);
            proof {
                assert(self.slots() =~= apply_message(
                    pre,
                    Message { target: t, operation: Operation::SetWeights(w) },
                ));
            }
        } else if kind == 1 {
            let fc = match &self.nodes.get(t).sub_node {
                SubNode::Group { first_child } => *first_child,
                _ => None,
            };
            let ghost len0 = self.slots().len();
            let ghost q0 = self.pending();
            let mut cur = fc;
            let mut fuel: usize = self.nodes.capacity();
            while fuel > 0
                invariant
                    self.slots().len() == len0,
                    self.pending() == q0,
                    weights_chain(self.slots(), cur, w@, fuel as nat) == weights_chain(
                        pre,
                        fc,
                        w@,
                        len0,
                    ),
                ensures
                    self.slots().len() == len0,
                    self.pending() == q0,
                    self.slots() == weights_chain(pre, fc, w@, len0),
                decreases fuel,
            {
                match cur {
                    None => {
                        break ;
                    },
                    Some(p) => {
                        if !self.nodes.can_resolve(p) {
                            break ;
                        }
                        let ghost step_pre = self.slots();
                        let nsib = self.nodes.get(p).next_sibling;
                        let is_visual = match &self.nodes.get(p).sub_node {
                            SubNode::Visual(_, _, _) => true,
                            _ => false,
                        };
                        if is_visual {
                            let mut n = self.nodes.take_node(p);
                            n.sub_node = match n.sub_node {
                                SubNode::Visual(m, g, sk) => SubNode::Visual(
                                    m,
                                    set_weights(g, &w),
                                    sk,
                                ),
                                other => other,
                            };
                            self.nodes.put_node(p, n);
                            proof {
                                assert(self.slots() =~= set_node(
                                    step_pre,
                                    p,
                                    Node {
                                        sub_node: SubNode::Visual(
                                            node_at(step_pre, p).sub_node->Visual_0,
                                            weights_applied(
                                                node_at(step_pre, p).sub_node->Visual_1,
                                                w@,
                                            ),
                                            node_at(step_pre, p).sub_node->Visual_2,
                                        ),
                                        ..node_at(step_pre, p)
                                    },
                                ));
                            }
                        }
                        cur = nsib;
                        fuel = fuel - 1;
                    },
                }
            }
            proof {
                assert(self.slots() == weights_chain(pre, fc, w@, len0));
                assert(self.slots() =~= apply_message(
                    pre,
                    Message { target: t, operation: Operation::SetWeights(w) },
                ));
            }
        } else {
            proof {
                assert(self.slots() =~= apply_message(
                    pre,
                    Message { target: t, operation: Operation::SetWeights(w) },
                ));
            }
        }
    }

    /// Update a light node's parameters in place.
    fn process_light(operation: LightOperation, data: &mut LightData)
        ensures
            *final(data) == light_applied(operation, *old(data)),
    {
        match operation {
            LightOperation::Color(color) => data.color = color,
            LightOperation::Intensity(intensity) => data.intensity = intensity,
        }
    }

    /// Update a UI text node's layout state in place.
    fn process_text(operation: TextOperation, data: &mut TextData)
        ensures
            *final(data) == text_applied(operation, *old(data)),
    {
        match operation {
            TextOperation::Color(color) => data.color = color,
            TextOperation::Font(font) => data.font_id = font,
            TextOperation::Layout(layout) => data.layout = layout,
            TextOperation::Opacity(opacity) => data.opacity = opacity,
            TextOperation::Pos(x, y) => {
                data.pos_x = x;
                data.pos_y = y;
            },
            TextOperation::Size(x, y) => {
                data.size_x = x;
                data.size_y = y;
            },
            TextOperation::Text(text) => data.text = text,
        }
    }
}

/// Whether `a` holds exactly the pointer `b`.
fn ptr_opt_is(a: Option<Pointer>, b: Pointer) -> (r: bool)
    ensures
        r == (a == Some(b)),
{
    match a {
        Some(p) => p.index == b.index && p.generation == b.generation,
        None => false,
    }
}

/// The GPU data with its weight channels set from the sent list, channels
/// past its end cleared, exactly as [`weights_applied`] states.
fn set_weights(g: GpuData, w: &Vec<i64>) -> (r: GpuData)
    ensures
        r == weights_applied(g, w@),
{
    GpuData {
        w0: if w.len() > 0 { w[0] } else { 0 },
        w1: if w.len() > 1 { w[1] } else { 0 },
        w2: if w.len() > 2 { w[2] } else { 0 },
        w3: if w.len() > 3 { w[3] } else { 0 },
        ..g
    }
}

} // verus!
