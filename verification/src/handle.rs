//! A stable-handle object store: values are registered into slots and named
//! by generation-tagged handles, so that a removed handle is never confused
//! with a later occupant of the same slot.

use vstd::prelude::*;

verus! {

/// An opaque, copyable identifier naming a slot in a [`HandleArena`].
///
/// A handle pairs a slot index with the generation the slot carried when the
/// handle was issued. It resolves only while the slot still carries that
/// generation and an occupant, so a handle stays valid from its issuing
/// `insert` until the matching `remove`, and never resolves again afterward,
/// even if the arena reuses the slot for a later insertion.
#[derive(Clone, Copy, Debug, PartialEq, Eq, Structural)]
pub struct Handle {
    pub index: usize,
    pub generation: u64,
}

/// One storage slot: the generation it currently carries, and its occupant,
/// if any. The generation grows by one each time the slot is (re)occupied,
/// so handles issued for earlier occupancies no longer match.
pub struct Slot<T> {
    pub generation: u64,
    pub value: Option<T>,
}

/// An insertion-ordered store of values of type `T`, addressed by stable
/// generation-tagged handles. Removing a value frees its slot for reuse;
/// the generation tag keeps old handles from aliasing the new occupant.
pub struct HandleArena<T> {
    /// The slots, in issue order; iteration walks them in index order.
    pub slots: Vec<Slot<T>>,
    /// Indices of unoccupied slots available for reuse.
    pub free: Vec<usize>,
}

impl<T> HandleArena<T> {
    /// The number of slots ever allocated (occupied or not).
    pub open spec fn num_slots(self) -> nat {
        self.slots@.len()
    }

    /// The generation currently carried by slot `i`.
    pub open spec fn slot_gen(self, i: int) -> u64 {
        self.slots@[i].generation
    }

    /// The occupant of slot `i`, if any.
    pub open spec fn slot_val(self, i: int) -> Option<T> {
        self.slots@[i].value
    }

    /// `h` currently resolves: its slot exists, still carries the issuing
    /// generation, and is occupied.
    pub open spec fn live(self, h: Handle) -> bool {
        &&& h.index < self.slots@.len()
        &&& self.slots@[h.index as int].generation == h.generation
        &&& self.slots@[h.index as int].value is Some
    }

    /// The value a live handle resolves to.
    pub open spec fn spec_get(self, h: Handle) -> T
        recommends self.live(h)
    {
        self.slots@[h.index as int].value->Some_0
    }

    /// `h` was issued in the past and will never resolve again: its slot
    /// exists and has moved to (or past) the handle's generation without
    /// matching it as an occupant. Since slot generations only grow, a dead
    /// handle stays dead across every later operation.
    pub open spec fn dead(self, h: Handle) -> bool {
        &&& h.index < self.slots@.len()
        &&& h.generation <= self.slots@[h.index as int].generation
        &&& !self.live(h)
    }

    /// Structural invariant: the free list names distinct, unoccupied slots
    /// whose generation can still grow.
    pub open spec fn wf(self) -> bool {
        &&& forall|k: int| 0 <= k < self.free@.len() ==> {
            &&& (#[trigger] self.free@[k]) < self.slots@.len()
            &&& self.slots@[self.free@[k] as int].value is None
            &&& self.slots@[self.free@[k] as int].generation < u64::MAX
        }
        &&& forall|k1: int, k2: int|
            0 <= k1 < k2 < self.free@.len()
                ==> #[trigger] self.free@[k1] != #[trigger] self.free@[k2]
    }

    /// An empty arena.
    pub fn new() -> (arena: Self)
        ensures
            arena.wf(),
            arena.num_slots() == 0,
            forall|h: Handle| !arena.live(h) && !arena.dead(h),
    {
        HandleArena { slots: Vec::new(), free: Vec::new() }
    }

    /// Registers `value` and returns a handle unique among all handles the
    /// arena has ever issued: the result was neither live nor dead before
    /// the call, every previously live handle stays live with its value,
    /// and every dead handle stays dead.
    pub fn insert(&mut self, value: T) -> (h: Handle)
        requires
            old(self).wf(),
        ensures
            final(self).wf(),
            final(self).live(h),
            final(self).spec_get(h) == value,
            !old(self).live(h),
            !old(self).dead(h),
            old(self).num_slots() <= final(self).num_slots() <= old(self).num_slots() + 1,
            h.index < final(self).num_slots(),
            forall|i: int|
                0 <= i < old(self).num_slots() && i != h.index ==> {
                    &&& final(self).slot_gen(i) == old(self).slot_gen(i)
                    &&& final(self).slot_val(i) == old(self).slot_val(i)
                },
            final(self).slot_val(h.index as int) == Some(value),
            forall|g: Handle|
                old(self).live(g) ==> #[trigger] final(self).live(g)
                    && final(self).spec_get(g) == old(self).spec_get(g) && g != h,
            forall|g: Handle| old(self).dead(g) ==> #[trigger] final(self).dead(g),
            forall|g: Handle| !old(self).live(g) && g != h ==> !(#[trigger] final(self).live(g)),
    {
        match self.free.pop() {
            Some(i) => {
                let gen: u64 = self.slots[i].generation + 1;
                self.slots[i] = Slot { generation: gen, value: Some(value) };
                Handle { index: i, generation: gen }
            }
            None => {
                let i = self.slots.len();
                self.slots.push(Slot { generation: 1, value: Some(value) });
                Handle { index: i, generation: 1 }
            }
        }
    }

    /// Unregisters `h`. If `h` is live its value is returned and `h` is dead
    /// from here on; otherwise the arena is unchanged and `None` signals the
    /// absence. Other live handles keep their values; dead handles stay dead.
    pub fn remove(&mut self, h: Handle) -> (r: Option<T>)
        requires
            old(self).wf(),
        ensures
            final(self).wf(),
            old(self).live(h) ==> r == Some(old(self).spec_get(h)) && final(self).dead(h),
            !old(self).live(h) ==> r is None && *final(self) == *old(self),
            final(self).num_slots() == old(self).num_slots(),
            forall|i: int|
                0 <= i < old(self).num_slots() && i != h.index ==> {
                    &&& final(self).slot_gen(i) == old(self).slot_gen(i)
                    &&& final(self).slot_val(i) == old(self).slot_val(i)
                },
            old(self).live(h) ==> final(self).slot_val(h.index as int) is None,
            forall|g: Handle|
                old(self).live(g) && g != h ==> #[trigger] final(self).live(g)
                    && final(self).spec_get(g) == old(self).spec_get(g),
            forall|g: Handle| old(self).dead(g) ==> #[trigger] final(self).dead(g),
            forall|g: Handle| !old(self).live(g) ==> !(#[trigger] final(self).live(g)),
    {
        if h.index < self.slots.len()
            && self.slots[h.index].generation == h.generation
            && self.slots[h.index].value.is_some()
        {
            let slot = &mut self.slots[h.index];
            let taken = slot.value.take();
            let gen = slot.generation;
            if gen < u64::MAX {
                self.free.push(h.index);
            }
            taken
        } else {
            None
        }
    }

    /// Looks `h` up: `Some` with the stored value exactly while `h` is live,
    /// `None` for a removed or never-issued handle.
    pub fn get(&self, h: Handle) -> (r: Option<&T>)
        ensures
            r is Some <==> self.live(h),
            self.live(h) ==> r == Some(&self.spec_get(h)),
    {
        if h.index < self.slots.len() && self.slots[h.index].generation == h.generation {
            self.slots[h.index].value.as_ref()
        } else {
            None
        }
    }

    /// Mutable access to a live handle's value, for host-side edits
    /// between frames. The slot stays occupied, so every handle's
    /// liveness is exactly as before; `h` afterwards resolves to whatever
    /// the caller leaves behind the reference.
    pub fn get_mut(&mut self, h: Handle) -> (r: &mut T)
        requires
            old(self).wf(),
            old(self).live(h),
        ensures
            *r == old(self).spec_get(h),
            final(self).wf(),
            final(self).num_slots() == old(self).num_slots(),
            final(self).free == old(self).free,
            forall|i: int|
                0 <= i < old(self).num_slots()
                    ==> #[trigger] final(self).slot_gen(i) == old(self).slot_gen(i),
            forall|i: int|
                0 <= i < old(self).num_slots() && i != h.index
                    ==> #[trigger] final(self).slot_val(i) == old(self).slot_val(i),
            final(self).slot_val(h.index as int) == Some(*final(r)),
            forall|g: Handle| #[trigger] final(self).live(g) == old(self).live(g),
            forall|g: Handle| old(self).dead(g) ==> #[trigger] final(self).dead(g),
            forall|g: Handle|
                old(self).live(g) && g != h
                    ==> #[trigger] final(self).spec_get(g) == old(self).spec_get(g),
    {
        let slot = &mut self.slots[h.index];
        slot.value.as_mut().unwrap()
    }

    /// The handles of the occupied slots among the first `n`, in slot order.
    pub open spec fn live_handles_prefix(self, n: int) -> Seq<Handle>
        decreases n,
    {
        if n <= 0 {
            Seq::empty()
        } else if self.slots@[n - 1].value is Some {
            self.live_handles_prefix(n - 1).push(
                Handle { index: (n - 1) as usize, generation: self.slots@[n - 1].generation },
            )
        } else {
            self.live_handles_prefix(n - 1)
        }
    }

    /// All currently live handles, in slot order. This is the order iteration
    /// and the render phase walk the arena in.
    pub open spec fn live_handles(self) -> Seq<Handle> {
        self.live_handles_prefix(self.num_slots() as int)
    }

    /// The currently live handles, in slot order.
    pub fn handles(&self) -> (hs: Vec<Handle>)
        ensures
            hs@ == self.live_handles(),
    {
        let mut hs: Vec<Handle> = Vec::new();
        let n = self.slots.len();
        for i in 0..n
            invariant
                n == self.slots@.len(),
                hs@ == self.live_handles_prefix(i as int),
        {
            if self.slots[i].value.is_some() {
                hs.push(Handle { index: i, generation: self.slots[i].generation });
            }
        }
        hs
    }

    /// Bulk insert: registers every value of `values`, in order, and returns
    /// the issued handles in the same order, pairwise distinct and none of
    /// them ever issued before. Each handle resolves to its value;
    /// previously live handles keep theirs, dead handles stay dead.
    pub fn append(&mut self, values: Vec<T>) -> (hs: Vec<Handle>)
        requires
            old(self).wf(),
        ensures
            final(self).wf(),
            hs@.len() == values@.len(),
            forall|j: int|
                0 <= j < hs@.len() ==> final(self).live(#[trigger] hs@[j])
                    && final(self).spec_get(hs@[j]) == values@[j],
            forall|j: int|
                0 <= j < hs@.len()
                    ==> !old(self).live(#[trigger] hs@[j]) && !old(self).dead(hs@[j]),
            forall|j1: int, j2: int|
                0 <= j1 < j2 < hs@.len() ==> #[trigger] hs@[j1] != #[trigger] hs@[j2],
            forall|g: Handle|
                old(self).live(g) ==> #[trigger] final(self).live(g)
                    && final(self).spec_get(g) == old(self).spec_get(g),
            forall|g: Handle| old(self).dead(g) ==> #[trigger] final(self).dead(g),
            forall|g: Handle|
                #[trigger] final(self).live(g) ==> old(self).live(g) || hs@.contains(g),
    {
        let ghost orig = *old(self);
        let ghost all = values@;
        let mut rest = values;
        let mut hs: Vec<Handle> = Vec::new();
        while rest.len() > 0
            invariant
                self.wf(),
                hs@.len() + rest@.len() == all.len(),
                rest@ == all.subrange(hs@.len() as int, all.len() as int),
                forall|j: int|
                    0 <= j < hs@.len() ==> self.live(#[trigger] hs@[j])
                        && self.spec_get(hs@[j]) == all[j],
                forall|j: int|
                    0 <= j < hs@.len()
                        ==> !orig.live(#[trigger] hs@[j]) && !orig.dead(hs@[j]),
                forall|j1: int, j2: int|
                    0 <= j1 < j2 < hs@.len() ==> #[trigger] hs@[j1] != #[trigger] hs@[j2],
                forall|g: Handle|
                    orig.live(g) ==> #[trigger] self.live(g)
                        && self.spec_get(g) == orig.spec_get(g),
                forall|g: Handle| orig.dead(g) ==> #[trigger] self.dead(g),
                forall|g: Handle|
                    #[trigger] self.live(g) ==> orig.live(g) || hs@.contains(g),
            decreases rest@.len(),
        {
            let v = rest.remove(0);
            let ghost pre_arena = *self;
            let ghost pre_hs = hs@;
            let h = self.insert(v);
            hs.push(h);
            proof {
                assert forall|g: Handle| #[trigger] self.live(g)
                    implies orig.live(g) || hs@.contains(g) by {
                    if g == h {
                        assert(hs@[hs@.len() - 1] == g);
                    } else if !orig.live(g) {
                        assert(pre_arena.live(g));
                        assert(pre_hs.contains(g));
                        let j = choose|j: int| 0 <= j < pre_hs.len() && pre_hs[j] == g;
                        assert(hs@[j] == g);
                    }
                }
            }
        }
        hs
    }

    proof fn lemma_live_handles_prefix_contains(self, h: Handle, n: int)
        requires
            self.num_slots() <= usize::MAX,
            0 <= n <= self.num_slots(),
        ensures
            self.live_handles_prefix(n).contains(h) <==> (h.index < n && self.live(h)),
        decreases n,
    {
        if n > 0 {
            self.lemma_live_handles_prefix_contains(h, n - 1);
            let rest = self.live_handles_prefix(n - 1);
            if self.slots@[n - 1].value is Some {
                let hn = Handle {
                    index: (n - 1) as usize,
                    generation: self.slots@[n - 1].generation,
                };
                let cur = rest.push(hn);
                assert(cur.contains(h) <==> (rest.contains(h) || h == hn)) by {
                    if cur.contains(h) {
                        let k = choose|k: int| 0 <= k < cur.len() && cur[k] == h;
                        if k < rest.len() {
                            assert(rest[k] == h);
                        }
                    }
                    if rest.contains(h) {
                        let k = choose|k: int| 0 <= k < rest.len() && rest[k] == h;
                        assert(cur[k] == h);
                    }
                    assert(cur[cur.len() - 1] == hn);
                }
            }
        }
    }

    /// The handles of the occupied slots are exactly the live handles:
    /// iteration reaches every live handle, and nothing else.
    pub proof fn lemma_live_handles_complete(self, h: Handle)
        requires
            self.num_slots() <= usize::MAX,
        ensures
            self.live_handles().contains(h) <==> self.live(h),
    {
        self.lemma_live_handles_prefix_contains(h, self.num_slots() as int);
    }

    /// Two distinct handles never resolve to the same slot: a slot carries
    /// one generation at a time, so a stale handle can never alias the slot's
    /// current occupant.
    pub proof fn lemma_no_handle_aliasing(self, g1: Handle, g2: Handle)
        requires
            self.live(g1),
            self.live(g2),
            g1.index == g2.index,
        ensures
            g1 == g2,
    {
    }

    /// Whether `h` currently resolves.
    pub fn contains(&self, h: Handle) -> (b: bool)
        ensures
            b == self.live(h),
    {
        h.index < self.slots.len() && self.slots[h.index].generation == h.generation
            && self.slots[h.index].value.is_some()
    }
}

/// One step of arena evolution that preserves deadness. Every operation —
/// `insert`, `remove`, `get_mut`, `append` — ensures this of every handle.
pub open spec fn preserves_dead<T>(pre: HandleArena<T>, post: HandleArena<T>) -> bool {
    forall|g: Handle| pre.dead(g) ==> #[trigger] post.dead(g)
}

/// One step of arena evolution that keeps `h` resolvable with its value.
/// Every operation ensures this for each handle it does not remove or
/// hand out mutably.
pub open spec fn preserves_live<T>(
    pre: HandleArena<T>,
    post: HandleArena<T>,
    h: Handle,
) -> bool {
    pre.live(h) ==> post.live(h) && post.spec_get(h) == pre.spec_get(h)
}

/// A removed handle is never retrievable again, whatever operation
/// sequence follows: along any chain of arena states in which each step
/// preserves deadness — as every arena operation ensures — a handle dead
/// at the first state is dead at the last.
pub proof fn lemma_dead_stays_dead<T>(states: Seq<HandleArena<T>>, h: Handle)
    requires
        states.len() > 0,
        states[0].dead(h),
        forall|k: int|
            0 <= k < states.len() - 1
                ==> preserves_dead(#[trigger] states[k], states[k + 1]),
    ensures
        states.last().dead(h),
    decreases states.len(),
{
    if states.len() > 1 {
        assert(preserves_dead(states[0], states[1]));
        let rest = states.drop_first();
        assert forall|k: int|
            0 <= k < rest.len() - 1 implies preserves_dead(#[trigger] rest[k], rest[k + 1]) by {
            assert(rest[k] == states[k + 1]);
            assert(rest[k + 1] == states[k + 2]);
            assert(preserves_dead(states[k + 1], states[k + 2]));
        }
        assert(rest[0] == states[1]);
        assert(rest[0].dead(h));
        lemma_dead_stays_dead(rest, h);
        assert(rest.last() == states.last());
    }
}

/// A handle returned by `insert` stays retrievable, resolving to the same
/// value, until its matching `remove`: along any chain of arena states in
/// which each step keeps `h` — as every operation but a removal or a
/// mutable borrow of `h` itself ensures — a handle live at the first
/// state is live at the last, with the same value.
pub proof fn lemma_live_until_removed<T>(states: Seq<HandleArena<T>>, h: Handle)
    requires
        states.len() > 0,
        states[0].live(h),
        forall|k: int|
            0 <= k < states.len() - 1
                ==> preserves_live(#[trigger] states[k], states[k + 1], h),
    ensures
        states.last().live(h),
        states.last().spec_get(h) == states[0].spec_get(h),
    decreases states.len(),
{
    if states.len() > 1 {
        assert(preserves_live(states[0], states[1], h));
        let rest = states.drop_first();
        assert forall|k: int|
            0 <= k < rest.len() - 1
                implies preserves_live(#[trigger] rest[k], rest[k + 1], h) by {
            assert(rest[k] == states[k + 1]);
            assert(rest[k + 1] == states[k + 2]);
            assert(preserves_live(states[k + 1], states[k + 2], h));
        }
        assert(rest[0] == states[1]);
        assert(rest[0].live(h));
        lemma_live_until_removed(rest, h);
        assert(rest.last() == states.last());
    }
}

} // verus!
