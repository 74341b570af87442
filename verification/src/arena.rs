//! The node arena: generational storage of node records.
//!
//! Every entry lives in a slot addressed by index.  A [`Pointer`] embeds the
//! slot index and the generation the slot carried when the entry was
//! created; resolution fails cleanly once the entry is reclaimed, and stays
//! failing after the slot is reused under a higher generation.  Each slot
//! counts the strong references held to its entry — by user handles, by
//! parent and sibling links inside the graph, and by queued operations —
//! and [`Arena::sync_pending`] reclaims entries whose count reached zero.

use vstd::prelude::*;

use crate::node::{Node, SubNode};

verus! {

/// A stable address of one arena entry: slot index plus the generation under
/// which the entry was created.  Equality of pointers is identity of the
/// addressed entry.
#[derive(Clone, Copy, Debug, PartialEq, Eq, Structural)]
pub struct Pointer {
    /// Index of the slot.
    pub index: usize,
    /// Generation the slot carried when this entry was created.
    pub generation: u64,
}

/// One storage slot.
#[derive(Clone, Debug)]
pub struct Slot {
    /// Generation of the current (or last) occupant; grows when the slot is
    /// reused.
    pub generation: u64,
    /// Number of strong references to the occupant.
    pub refs: u64,
    /// The occupant, `None` once reclaimed.
    pub node: Option<Node>,
}

/// Whether `p` addresses a live entry of `slots`.
pub open spec fn resolves(slots: Seq<Slot>, p: Pointer) -> bool {
    &&& p.index < slots.len()
    &&& slots[p.index as int].generation == p.generation
    &&& slots[p.index as int].node is Some
}

/// The node `p` addresses.
pub open spec fn node_at(slots: Seq<Slot>, p: Pointer) -> Node
    recommends
        resolves(slots, p),
{
    slots[p.index as int].node->Some_0
}

/// The reference count of the slot `p` addresses.
pub open spec fn refs_at(slots: Seq<Slot>, p: Pointer) -> u64
    recommends
        p.index < slots.len(),
{
    slots[p.index as int].refs
}

/// Taking one more strong reference to `p`: a no-op when `p` is stale or the
/// count is pinned at its maximum.
pub open spec fn seq_retain(slots: Seq<Slot>, p: Pointer) -> Seq<Slot> {
    if resolves(slots, p) && slots[p.index as int].refs < u64::MAX {
        slots.update(
            p.index as int,
            Slot { refs: (slots[p.index as int].refs + 1) as u64, ..slots[p.index as int] },
        )
    } else {
        slots
    }
}

/// Giving one strong reference to `p` back: a no-op when `p` is stale or no
/// reference is recorded.
pub open spec fn seq_release(slots: Seq<Slot>, p: Pointer) -> Seq<Slot> {
    if resolves(slots, p) && slots[p.index as int].refs > 0 {
        slots.update(
            p.index as int,
            Slot { refs: (slots[p.index as int].refs - 1) as u64, ..slots[p.index as int] },
        )
    } else {
        slots
    }
}

/// How many slots hold a live entry.
pub open spec fn live_count(slots: Seq<Slot>) -> nat
    decreases slots.len(),
{
    if slots.len() == 0 {
        0
    } else {
        live_count(slots.drop_last()) + if slots.last().node is Some {
            1nat
        } else {
            0nat
        }
    }
}

/// Freeing the entry of slot `i`: the strong references the entry holds —
/// to its next sibling, and to the child list head or bound skeleton in its
/// payload — are given back, then the slot is emptied.
pub open spec fn free_slot(slots: Seq<Slot>, i: int) -> Seq<Slot>
    recommends
        0 <= i < slots.len(),
        slots[i].node is Some,
{
    let n = slots[i].node->Some_0;
    let s1 = match n.next_sibling {
        Some(p) => seq_release(slots, p),
        None => slots,
    };
    let s2 = match n.sub_node {
        SubNode::Group { first_child: Some(c) } => seq_release(s1, c),
        SubNode::Visual(_, _, Some(sk)) => seq_release(s1, sk),
        _ => s1,
    };
    s2.update(i, Slot { node: None, ..s2[i] })
}

/// The lowest slot at or after `i` holding an entry with no remaining
/// strong reference.
pub open spec fn first_dead_from(slots: Seq<Slot>, i: int) -> Option<int>
    decreases slots.len() - i,
{
    if i < 0 || i >= slots.len() {
        None
    } else if slots[i].node is Some && slots[i].refs == 0 {
        Some(i)
    } else {
        first_dead_from(slots, i + 1)
    }
}

/// Reclamation to a fixpoint: free the lowest unreferenced entry, release
/// what it held, and repeat until every remaining entry is referenced.
pub open spec fn sweep(slots: Seq<Slot>) -> Seq<Slot>
    decreases live_count(slots),
    via sweep_decreases
{
    match first_dead_from(slots, 0) {
        None => slots,
        Some(i) => sweep(free_slot(slots, i)),
    }
}

#[via_fn]
proof fn sweep_decreases(slots: Seq<Slot>) {
    match first_dead_from(slots, 0) {
        None => {},
        Some(i) => {
            lemma_first_dead_is_dead(slots, 0);
            lemma_free_slot_live_count(slots, i);
        },
    }
}

/// What `first_dead_from` returns is a dead entry at or after `i`.
pub proof fn lemma_first_dead_is_dead(slots: Seq<Slot>, i: int)
    ensures
        first_dead_from(slots, i) matches Some(j) ==> i <= j < slots.len() && slots[j].node
            is Some && slots[j].refs == 0,
    decreases slots.len() - i,
{
    if !(i < 0 || i >= slots.len()) && !(slots[i].node is Some && slots[i].refs == 0) {
        lemma_first_dead_is_dead(slots, i + 1);
    }
}

/// Giving a reference back never touches which slots hold an entry, nor
/// any generation, and never raises a count.
pub proof fn lemma_release_same_nodes(slots: Seq<Slot>, p: Pointer)
    ensures
        seq_release(slots, p).len() == slots.len(),
        forall|j: int|
            0 <= j < slots.len() ==> #[trigger] seq_release(slots, p)[j].node == slots[j].node,
        forall|j: int|
            0 <= j < slots.len() ==> #[trigger] seq_release(slots, p)[j].generation == slots[
                j
            ].generation,
        forall|j: int|
            0 <= j < slots.len() ==> #[trigger] seq_release(slots, p)[j].refs <= slots[j].refs,
{
}

/// Freeing a slot empties it and otherwise only lowers counts: no entry
/// appears, no generation moves, no count grows.
pub proof fn lemma_free_slot_frame(slots: Seq<Slot>, i: int)
    requires
        0 <= i < slots.len(),
        slots[i].node is Some,
    ensures
        free_slot(slots, i).len() == slots.len(),
        free_slot(slots, i)[i].node is None,
        forall|j: int|
            0 <= j < slots.len() && j != i ==> #[trigger] free_slot(slots, i)[j].node == slots[
                j
            ].node,
        forall|j: int|
            0 <= j < slots.len() ==> #[trigger] free_slot(slots, i)[j].generation == slots[
                j
            ].generation,
        forall|j: int|
            0 <= j < slots.len() ==> #[trigger] free_slot(slots, i)[j].refs <= slots[j].refs,
{
    let n = slots[i].node->Some_0;
    let s1 = match n.next_sibling {
        Some(p) => seq_release(slots, p),
        None => slots,
    };
    match n.next_sibling {
        Some(p) => lemma_release_same_nodes(slots, p),
        None => {},
    }
    match n.sub_node {
        SubNode::Group { first_child: Some(c) } => lemma_release_same_nodes(s1, c),
        SubNode::Visual(_, _, Some(sk)) => lemma_release_same_nodes(s1, sk),
        _ => {},
    }
}

/// When the search finds no unreferenced entry at or after `i`, there is
/// none.
pub proof fn lemma_first_dead_none(slots: Seq<Slot>, i: int)
    requires
        0 <= i,
        first_dead_from(slots, i) is None,
    ensures
        forall|j: int|
            i <= j < slots.len() ==> !(#[trigger] slots[j].node is Some && slots[j].refs == 0),
    decreases slots.len() - i,
{
    if !(i < 0 || i >= slots.len()) {
        assert(!(slots[i].node is Some && slots[i].refs == 0));
        lemma_first_dead_none(slots, i + 1);
        assert forall|j: int|
            i <= j < slots.len() implies !(#[trigger] slots[j].node is Some && slots[j].refs
            == 0) by {
            if j > i {
                assert(!(slots[j].node is Some && slots[j].refs == 0));
            }
        }
    }
}

/// Reclamation keeps the slot count, moves no generation, raises no
/// reference count, resurrects no entry, and leaves no unreferenced entry
/// behind.
pub proof fn lemma_sweep_frame(slots: Seq<Slot>)
    ensures
        sweep(slots).len() == slots.len(),
        forall|j: int|
            0 <= j < slots.len() ==> #[trigger] sweep(slots)[j].generation == slots[j].generation,
        forall|j: int|
            0 <= j < slots.len() ==> #[trigger] sweep(slots)[j].refs <= slots[j].refs,
        forall|j: int|
            0 <= j < slots.len() && slots[j].node is None ==> #[trigger] sweep(slots)[j].node
                is None,
        forall|j: int|
            0 <= j < slots.len() && sweep(slots)[j].node is Some ==> #[trigger] sweep(slots)[
                j
            ].node == slots[j].node,
        forall|j: int|
            0 <= j < slots.len() ==> !(#[trigger] sweep(slots)[j].node is Some && sweep(slots)[
                j
            ].refs == 0),
    decreases live_count(slots),
{
    match first_dead_from(slots, 0) {
        None => {
            lemma_first_dead_none(slots, 0);
        },
        Some(i) => {
            lemma_first_dead_is_dead(slots, 0);
            lemma_free_slot_live_count(slots, i);
            lemma_free_slot_frame(slots, i);
            lemma_sweep_frame(free_slot(slots, i));
        },
    }
}

/// Two slot sequences agreeing on which slots are occupied have the same
/// number of live entries.
proof fn lemma_live_count_congruent(a: Seq<Slot>, b: Seq<Slot>)
    requires
        a.len() == b.len(),
        forall|j: int| 0 <= j < a.len() ==> (a[j].node is Some <==> b[j].node is Some),
    ensures
        live_count(a) == live_count(b),
    decreases a.len(),
{
    if a.len() > 0 {
        lemma_live_count_congruent(a.drop_last(), b.drop_last());
    }
}

/// Emptying an occupied slot lowers the number of live entries by one.
proof fn lemma_live_count_set_none(s: Seq<Slot>, i: int, slot: Slot)
    requires
        0 <= i < s.len(),
        s[i].node is Some,
        slot.node is None,
    ensures
        live_count(s.update(i, slot)) + 1 == live_count(s),
    decreases s.len(),
{
    let u = s.update(i, slot);
    if i == s.len() - 1 {
        assert(u.drop_last() =~= s.drop_last());
        lemma_live_count_congruent(u.drop_last(), s.drop_last());
    } else {
        assert(u.drop_last() =~= s.drop_last().update(i, slot));
        lemma_live_count_set_none(s.drop_last(), i, slot);
    }
}

/// Freeing a slot lowers the number of live entries by exactly one.
proof fn lemma_free_slot_live_count(slots: Seq<Slot>, i: int)
    requires
        0 <= i < slots.len(),
        slots[i].node is Some,
    ensures
        free_slot(slots, i).len() == slots.len(),
        live_count(free_slot(slots, i)) + 1 == live_count(slots),
{
    let n = slots[i].node->Some_0;
    let s1 = match n.next_sibling {
        Some(p) => seq_release(slots, p),
        None => slots,
    };
    let s2 = match n.sub_node {
        SubNode::Group { first_child: Some(c) } => seq_release(s1, c),
        SubNode::Visual(_, _, Some(sk)) => seq_release(s1, sk),
        _ => s1,
    };
    match n.next_sibling {
        Some(p) => lemma_release_same_nodes(slots, p),
        None => {},
    }
    match n.sub_node {
        SubNode::Group { first_child: Some(c) } => lemma_release_same_nodes(s1, c),
        SubNode::Visual(_, _, Some(sk)) => lemma_release_same_nodes(s1, sk),
        _ => {},
    }
    lemma_live_count_congruent(slots, s2);
    lemma_live_count_set_none(s2, i, Slot { node: None, ..s2[i] });
}

/// Central storage owning all node records.
pub struct Arena {
    slots: Vec<Slot>,
}

impl View for Arena {
    type V = Seq<Slot>;

    closed spec fn view(&self) -> Seq<Slot> {
        self.slots@
    }
}

impl Arena {
    /// An empty arena.
    pub fn new() -> (r: Arena)
        ensures
            r@.len() == 0,
    {
        Arena { slots: Vec::new() }
    }

    /// Number of slots, live or free.
    pub fn capacity(&self) -> (r: usize)
        ensures
            r == self@.len(),
    {
        self.slots.len()
    }

    /// The lowest reusable slot: free, and its generation not yet exhausted.
    fn find_reusable(&self) -> (r: Option<usize>)
        ensures
            match r {
                Some(i) => i < self@.len() && self@[i as int].node is None && self@[
                    i as int
                ].generation < u64::MAX,
                None => forall|j: int|
                    0 <= j < self@.len() ==> !(self@[j].node is None && self@[j].generation
                        < u64::MAX),
            },
    {
        let n = self.slots.len();
        let mut i: usize = 0;
        while i < n
            invariant
                i <= n,
                n == self@.len(),
                forall|j: int|
                    0 <= j < i ==> !(self@[j].node is None && self@[j].generation < u64::MAX),
            decreases n - i,
        {
            if self.slots[i].node.is_none() && self.slots[i].generation < u64::MAX {
                return Some(i);
            }
            i = i + 1;
        }
        None
    }

    /// Allocate a new entry holding `node` and return a pointer to it, with
    /// one strong reference recorded.  A free slot is reused under a fresh
    /// generation when one exists; otherwise storage grows by one slot.
    /// Every other slot, and so every other pointer's fate, is unchanged.
    pub fn create(&mut self, node: Node) -> (p: Pointer)
        ensures
            resolves(final(self)@, p),
            node_at(final(self)@, p) == node,
            final(self)@[p.index as int].refs == 1,
            forall|j: int|
                0 <= j < old(self)@.len() && j != p.index ==> final(self)@[j] == old(self)@[j],
            p.index < old(self)@.len() ==> final(self)@.len() == old(self)@.len() && old(self)@[
                p.index as int
            ].node is None && final(self)@[p.index as int].generation > old(self)@[
                p.index as int
            ].generation,
            p.index >= old(self)@.len() ==> p.index == old(self)@.len() && final(self)@.len()
                == old(self)@.len() + 1,
    {
        match self.find_reusable() {
            Some(i) => {
                let generation = self.slots[i].generation + 1;
                self.slots[i] = Slot { generation, refs: 1, node: Some(node) };
                Pointer { index: i, generation }
            },
            None => {
                let index = self.slots.len();
                self.slots.push(Slot { generation: 0, refs: 1, node: Some(node) });
                Pointer { index, generation: 0 }
            },
        }
    }

    /// Whether `p` still addresses a live entry.
    pub fn can_resolve(&self, p: Pointer) -> (b: bool)
        ensures
            b == resolves(self@, p),
    {
        p.index < self.slots.len() && self.slots[p.index].generation == p.generation
            && self.slots[p.index].node.is_some()
    }

    /// The reference count of the slot `p` points into.
    pub fn refs_of(&self, p: Pointer) -> (r: u64)
        requires
            p.index < self@.len(),
        ensures
            r == refs_at(self@, p),
    {
        self.slots[p.index].refs
    }

    /// Dereference `p`.  Stale pointers are a programmer error, ruled out by
    /// the precondition.
    pub fn get(&self, p: Pointer) -> (r: &Node)
        requires
            resolves(self@, p),
        ensures
            *r == node_at(self@, p),
    {
        self.slots[p.index].node.as_ref().unwrap()
    }

    /// Record one more strong reference to `p`; a no-op on a stale pointer
    /// or a pinned count, exactly as [`seq_retain`] states.
    pub fn retain(&mut self, p: Pointer)
        ensures
            final(self)@ == seq_retain(old(self)@, p),
    {
        if p.index < self.slots.len() {
            let live = self.slots[p.index].generation == p.generation
                && self.slots[p.index].node.is_some();
            if live && self.slots[p.index].refs < u64::MAX {
                let r = self.slots[p.index].refs;
                self.slots[p.index].refs = r + 1;
                proof {
                    assert(self@ =~= seq_retain(old(self)@, p));
                }
            }
        }
    }

    /// Give one strong reference to `p` back; a no-op on a stale pointer or
    /// a zero count, exactly as [`seq_release`] states.
    pub fn release(&mut self, p: Pointer)
        ensures
            final(self)@ == seq_release(old(self)@, p),
    {
        if p.index < self.slots.len() {
            let live = self.slots[p.index].generation == p.generation
                && self.slots[p.index].node.is_some();
            if live && self.slots[p.index].refs > 0 {
                let r = self.slots[p.index].refs;
                self.slots[p.index].refs = r - 1;
                proof {
                    assert(self@ =~= seq_release(old(self)@, p));
                }
            }
        }
    }

    /// Move the entry out of its slot, leaving the slot's generation and
    /// count in place so the entry can be put back after mutation.
    pub fn take_node(&mut self, p: Pointer) -> (n: Node)
        requires
            resolves(old(self)@, p),
        ensures
            n == node_at(old(self)@, p),
            final(self)@ == old(self)@.update(
                p.index as int,
                Slot { node: None, ..old(self)@[p.index as int] },
            ),
    {
        let n = self.slots[p.index].node.take().unwrap();
        proof {
            assert(self@ =~= old(self)@.update(
                p.index as int,
                Slot { node: None, ..old(self)@[p.index as int] },
            ));
        }
        n
    }

    /// Put an entry taken with [`Arena::take_node`] back into its slot.
    pub fn put_node(&mut self, p: Pointer, node: Node)
        requires
            p.index < old(self)@.len(),
            old(self)@[p.index as int].generation == p.generation,
            old(self)@[p.index as int].node is None,
        ensures
            final(self)@ == old(self)@.update(
                p.index as int,
                Slot { node: Some(node), ..old(self)@[p.index as int] },
            ),
    {
        self.slots[p.index].node = Some(node);
        proof {
            assert(self@ =~= old(self)@.update(
                p.index as int,
                Slot { node: Some(node), ..old(self)@[p.index as int] },
            ));
        }
    }

    /// The lowest slot holding an entry with no remaining strong reference.
    fn find_dead(&self) -> (r: Option<usize>)
        ensures
            match r {
                Some(i) => first_dead_from(self@, 0) == Some(i as int),
                None => first_dead_from(self@, 0) is None,
            },
    {
        let n = self.slots.len();
        let mut i: usize = 0;
        while i < n
            invariant
                i <= n,
                n == self@.len(),
                first_dead_from(self@, 0) == first_dead_from(self@, i as int),
            decreases n - i,
        {
            if self.slots[i].node.is_some() && self.slots[i].refs == 0 {
                return Some(i);
            }
            i = i + 1;
        }
        None
    }

    /// Free the entry of slot `i`, giving back the strong references it
    /// held, exactly as [`free_slot`] states.
    fn free_slot_at(&mut self, i: usize)
        requires
            i < old(self)@.len(),
            old(self)@[i as int].node is Some,
        ensures
            final(self)@ == free_slot(old(self)@, i as int),
    {
        let sibling: Option<Pointer>;
        let held: Option<Pointer>;
        {
            let n = self.slots[i].node.as_ref().unwrap();
            sibling = n.next_sibling;
            held = match &n.sub_node {
                SubNode::Group { first_child } => *first_child,
                SubNode::Visual(_, _, skeleton) => *skeleton,
                _ => None,
            };
        }
        if let Some(p) = sibling {
            self.release(p);
        }
        if let Some(c) = held {
            self.release(c);
        }
        let ghost s2 = self@;
        self.slots[i].node = None;
        proof {
            assert(self@ =~= s2.update(i as int, Slot { node: None, ..s2[i as int] }));
        }
    }

    /// Reclaim every entry with no remaining strong reference, releasing
    /// the references reclaimed entries held and repeating until every
    /// remaining entry is referenced, exactly as [`sweep`] states.
    pub fn sync_pending(&mut self)
        ensures
            final(self)@ == sweep(old(self)@),
    {
        let ghost orig = self@;
        loop
            invariant
                sweep(self@) == sweep(orig),
            ensures
                sweep(self@) == sweep(orig),
                first_dead_from(self@, 0) is None,
            decreases live_count(self@),
        {
            let dead = self.find_dead();
            match dead {
                None => {
                    break ;
                },
                Some(i) => {
                    proof {
                        lemma_first_dead_is_dead(self@, 0);
                        lemma_free_slot_live_count(self@, i as int);
                    }
                    self.free_slot_at(i);
                },
            }
        }
        proof {
            assert(sweep(self@) == self@);
        }
    }
}

} // verus!
