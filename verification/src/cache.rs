//! The material cache: a resident registry whose entries the cache owns
//! until they are explicitly removed, a demand registry whose entries are
//! kept only while strong owners remain registered for them, and a
//! fallback material substituted whenever a lookup misses. Resolution
//! never fails: a missing material degrades to the fallback.

use vstd::prelude::*;

use crate::handle::{Handle, HandleArena};
use crate::material::{error_pixels, Material, SamplerKind};

verus! {

/// Which of the cache's two registries a handle points into.
#[derive(Clone, Copy, Debug, PartialEq, Eq, Structural)]
pub enum CacheKind {
    Resident,
    Demand,
}

/// A handle into one of the cache's two registries.
#[derive(Clone, Copy, Debug, PartialEq, Eq, Structural)]
pub struct CacheHandle {
    pub kind: CacheKind,
    pub handle: Handle,
}

/// A demand-registry entry: the material and the number of strong owners
/// currently registered for it. The entry exists only while that count is
/// positive; releasing the last owner evicts it.
pub struct DemandEntry {
    pub material: Material,
    pub owners: u64,
}

/// The two-registry material cache with its fallback.
pub struct ResourceCache {
    pub resident: HandleArena<Material>,
    pub demand: HandleArena<DemandEntry>,
    pub fallback: Material,
}

impl ResourceCache {
    /// Structural invariant: both registries are well formed and every
    /// demand entry has at least one registered owner.
    pub open spec fn wf(self) -> bool {
        &&& self.resident.wf()
        &&& self.demand.wf()
        &&& forall|h: Handle|
            self.demand.live(h) ==> #[trigger] self.demand.spec_get(h).owners >= 1
    }

    /// What `ch` resolves to: the registered material while its entry is
    /// present, the fallback otherwise.
    pub open spec fn spec_resolve(self, ch: CacheHandle) -> Material {
        if ch.kind is Resident && self.resident.live(ch.handle) {
            self.resident.spec_get(ch.handle)
        } else if ch.kind is Demand && self.demand.live(ch.handle) {
            self.demand.spec_get(ch.handle).material
        } else {
            self.fallback
        }
    }

    /// An empty cache. The fallback is the error material, built once here
    /// from the embedded default image; every handle resolves to it until
    /// something is registered.
    pub fn new() -> (c: Self)
        ensures
            c.wf(),
            c.fallback.color.width == 2,
            c.fallback.color.height == 2,
            c.fallback.color.pixels@ == error_pixels(),
            c.fallback.sampler == SamplerKind::Nearest,
            forall|ch: CacheHandle| c.spec_resolve(ch) == c.fallback,
            c.resident.num_slots() == 0,
            c.demand.num_slots() == 0,
    {
        ResourceCache {
            resident: HandleArena::new(),
            demand: HandleArena::new(),
            fallback: Material::error(),
        }
    }

    /// Registers a material under strong cache ownership: it stays
    /// resolvable until explicitly removed, whatever happens in the demand
    /// registry. Existing entries in both registries are untouched.
    pub fn register_resident(&mut self, m: Material) -> (ch: CacheHandle)
        requires
            old(self).wf(),
        ensures
            final(self).wf(),
            ch.kind is Resident,
            final(self).resident.live(ch.handle),
            final(self).spec_resolve(ch) == m,
            !old(self).resident.live(ch.handle),
            final(self).demand == old(self).demand,
            final(self).fallback == old(self).fallback,
            forall|g: Handle|
                old(self).resident.live(g) ==> #[trigger] final(self).resident.live(g)
                    && final(self).resident.spec_get(g) == old(self).resident.spec_get(g),
            forall|g: Handle|
                old(self).resident.dead(g) ==> #[trigger] final(self).resident.dead(g),
    {
        let h = self.resident.insert(m);
        CacheHandle { kind: CacheKind::Resident, handle: h }
    }

    /// Removes a resident entry. Returns the material if the handle was
    /// still registered; afterwards the handle resolves to the fallback.
    pub fn remove_resident(&mut self, ch: CacheHandle) -> (r: Option<Material>)
        requires
            old(self).wf(),
        ensures
            final(self).wf(),
            ch.kind is Resident && old(self).resident.live(ch.handle) ==> {
                &&& r == Some(old(self).resident.spec_get(ch.handle))
                &&& final(self).resident.dead(ch.handle)
                &&& final(self).spec_resolve(ch) == final(self).fallback
            },
            !(ch.kind is Resident && old(self).resident.live(ch.handle)) ==> r is None
                && *final(self) == *old(self),
            final(self).demand == old(self).demand,
            final(self).fallback == old(self).fallback,
            forall|g: Handle|
                old(self).resident.live(g) && g != ch.handle
                    ==> #[trigger] final(self).resident.live(g)
                        && final(self).resident.spec_get(g) == old(self).resident.spec_get(g),
    {
        match ch.kind {
            CacheKind::Resident => self.resident.remove(ch.handle),
            CacheKind::Demand => None,
        }
    }

    /// Registers a demand-loaded material with one strong owner: the
    /// registering caller. The entry stays resolvable while owners remain;
    /// the resident registry is untouched.
    pub fn register_demand(&mut self, m: Material) -> (ch: CacheHandle)
        requires
            old(self).wf(),
        ensures
            final(self).wf(),
            ch.kind is Demand,
            final(self).demand.live(ch.handle),
            final(self).demand.spec_get(ch.handle)
                == (DemandEntry { material: m, owners: 1u64 }),
            final(self).spec_resolve(ch) == m,
            !old(self).demand.live(ch.handle),
            final(self).resident == old(self).resident,
            final(self).fallback == old(self).fallback,
            forall|g: Handle|
                old(self).demand.live(g) ==> #[trigger] final(self).demand.live(g)
                    && final(self).demand.spec_get(g) == old(self).demand.spec_get(g),
            forall|g: Handle|
                old(self).demand.dead(g) ==> #[trigger] final(self).demand.dead(g),
    {
        let h = self.demand.insert(DemandEntry { material: m, owners: 1 });
        CacheHandle { kind: CacheKind::Demand, handle: h }
    }

    /// The number of strong owners a demand entry currently has, while it
    /// is present.
    pub fn demand_owners(&self, ch: CacheHandle) -> (r: Option<u64>)
        ensures
            ch.kind is Demand && self.demand.live(ch.handle)
                ==> r == Some(self.demand.spec_get(ch.handle).owners),
            !(ch.kind is Demand && self.demand.live(ch.handle)) ==> r is None,
    {
        match ch.kind {
            CacheKind::Demand => match self.demand.get(ch.handle) {
                Some(e) => Some(e.owners),
                None => None,
            },
            CacheKind::Resident => None,
        }
    }

    /// Registers one more strong owner for a demand entry. Returns whether
    /// the entry was present; an absent entry, or a handle into the wrong
    /// registry, changes nothing.
    pub fn retain_demand(&mut self, ch: CacheHandle) -> (ok: bool)
        requires
            old(self).wf(),
            ch.kind is Demand && old(self).demand.live(ch.handle)
                ==> old(self).demand.spec_get(ch.handle).owners < u64::MAX,
        ensures
            final(self).wf(),
            ok == (ch.kind is Demand && old(self).demand.live(ch.handle)),
            ok ==> final(self).demand.live(ch.handle)
                && final(self).demand.spec_get(ch.handle).material
                    == old(self).demand.spec_get(ch.handle).material
                && final(self).demand.spec_get(ch.handle).owners
                    == old(self).demand.spec_get(ch.handle).owners + 1,
            !ok ==> *final(self) == *old(self),
            final(self).resident == old(self).resident,
            final(self).fallback == old(self).fallback,
            forall|g: Handle|
                old(self).demand.live(g) && g != ch.handle
                    ==> #[trigger] final(self).demand.live(g)
                        && final(self).demand.spec_get(g) == old(self).demand.spec_get(g),
    {
        let is_demand = match ch.kind {
            CacheKind::Demand => true,
            CacheKind::Resident => false,
        };
        if is_demand && self.demand.contains(ch.handle) {
            let arena = &mut self.demand;
            let slot = &mut arena.slots[ch.handle.index];
            match &mut slot.value {
                Some(e) => {
                    e.owners = e.owners + 1;
                }
                None => {}
            }
            proof {
                assert forall|h: Handle| self.demand.live(h)
                    implies self.demand.spec_get(h).owners >= 1 by {
                    if h.index == ch.handle.index {
                        assert(h == ch.handle);
                    } else {
                        assert(old(self).demand.live(h));
                        assert(old(self).demand.spec_get(h).owners >= 1);
                    }
                }
            }
            true
        } else {
            false
        }
    }

    /// Releases one strong owner of a demand entry. When the last owner is
    /// released the entry is evicted at once: the handle is dead and
    /// resolves to the fallback from here on. Returns whether the entry was
    /// present. Other entries, the resident registry and the fallback are
    /// untouched either way.
    pub fn release_demand(&mut self, ch: CacheHandle) -> (ok: bool)
        requires
            old(self).wf(),
        ensures
            final(self).wf(),
            ok == (ch.kind is Demand && old(self).demand.live(ch.handle)),
            ok && old(self).demand.spec_get(ch.handle).owners > 1 ==> {
                &&& final(self).demand.live(ch.handle)
                &&& final(self).demand.spec_get(ch.handle).material
                    == old(self).demand.spec_get(ch.handle).material
                &&& final(self).demand.spec_get(ch.handle).owners
                    == old(self).demand.spec_get(ch.handle).owners - 1
            },
            ok && old(self).demand.spec_get(ch.handle).owners == 1 ==> {
                &&& final(self).demand.dead(ch.handle)
                &&& final(self).spec_resolve(ch) == final(self).fallback
            },
            !ok ==> *final(self) == *old(self),
            final(self).resident == old(self).resident,
            final(self).fallback == old(self).fallback,
            forall|g: Handle|
                old(self).demand.live(g) && g != ch.handle
                    ==> #[trigger] final(self).demand.live(g)
                        && final(self).demand.spec_get(g) == old(self).demand.spec_get(g),
            forall|g: Handle|
                old(self).demand.dead(g) ==> #[trigger] final(self).demand.dead(g),
    {
        let is_demand = match ch.kind {
            CacheKind::Demand => true,
            CacheKind::Resident => false,
        };
        if is_demand && self.demand.contains(ch.handle) {
            let owners = match self.demand.get(ch.handle) {
                Some(e) => e.owners,
                None => 1,
            };
            if owners > 1 {
                let arena = &mut self.demand;
                let slot = &mut arena.slots[ch.handle.index];
                match &mut slot.value {
                    Some(e) => {
                        e.owners = e.owners - 1;
                    }
                    None => {}
                }
                proof {
                    assert forall|h: Handle| self.demand.live(h)
                        implies self.demand.spec_get(h).owners >= 1 by {
                        if h.index == ch.handle.index {
                            assert(h == ch.handle);
                        } else {
                            assert(old(self).demand.live(h));
                            assert(old(self).demand.spec_get(h).owners >= 1);
                        }
                    }
                }
            } else {
                self.demand.remove(ch.handle);
                proof {
                    assert forall|h: Handle| self.demand.live(h)
                        implies self.demand.spec_get(h).owners >= 1 by {
                        assert(old(self).demand.live(h));
                        assert(h != ch.handle);
                        assert(old(self).demand.spec_get(h).owners >= 1);
                    }
                }
            }
            true
        } else {
            false
        }
    }

    /// Resident entries survive arbitrary demand churn: along any chain of
    /// cache states in which each step only churns the demand registry — as
    /// registering, retaining and releasing demand entries all ensure —
    /// every resident handle resolves at the last state exactly as it did
    /// at the first.
    pub proof fn lemma_resident_survives_demand_churn(
        states: Seq<ResourceCache>,
        ch: CacheHandle,
    )
        requires
            states.len() > 0,
            ch.kind is Resident,
            forall|k: int|
                0 <= k < states.len() - 1
                    ==> demand_churn_step(#[trigger] states[k], states[k + 1]),
        ensures
            states.last().spec_resolve(ch) == states[0].spec_resolve(ch),
        decreases states.len(),
    {
        if states.len() > 1 {
            assert(demand_churn_step(states[0], states[1]));
            Self::lemma_resident_resolution_stable(states[0], states[1], ch);
            let rest = states.drop_first();
            assert forall|k: int|
                0 <= k < rest.len() - 1
                    implies demand_churn_step(#[trigger] rest[k], rest[k + 1]) by {
                assert(rest[k] == states[k + 1]);
                assert(rest[k + 1] == states[k + 2]);
                assert(demand_churn_step(states[k + 1], states[k + 2]));
            }
            assert(rest[0] == states[1]);
            Self::lemma_resident_survives_demand_churn(rest, ch);
            assert(rest.last() == states.last());
        }
    }

    /// Resolution of a resident handle reads only the resident registry
    /// and the fallback, so any amount of demand-registry churn — entries
    /// registered, retained, released or evicted — leaves every resident
    /// handle resolving exactly as before.
    pub proof fn lemma_resident_resolution_stable(
        pre: ResourceCache,
        post: ResourceCache,
        ch: CacheHandle,
    )
        requires
            ch.kind is Resident,
            post.resident == pre.resident,
            post.fallback == pre.fallback,
        ensures
            post.spec_resolve(ch) == pre.spec_resolve(ch),
    {
    }

    /// Resolves a handle: the registered material while its entry is
    /// present, the fallback for everything else, a handle never registered
    /// included. Resolution never fails.
    pub fn resolve(&self, ch: CacheHandle) -> (m: &Material)
        ensures
            *m == self.spec_resolve(ch),
    {
        match ch.kind {
            CacheKind::Resident => match self.resident.get(ch.handle) {
                Some(m) => m,
                None => &self.fallback,
            },
            CacheKind::Demand => match self.demand.get(ch.handle) {
                Some(e) => &e.material,
                None => &self.fallback,
            },
        }
    }
}

/// One step of demand-registry churn: the resident registry and the
/// fallback are untouched. `register_demand`, `retain_demand` and
/// `release_demand` all ensure their step is one.
pub open spec fn demand_churn_step(pre: ResourceCache, post: ResourceCache) -> bool {
    post.resident == pre.resident && post.fallback == pre.fallback
}

} // verus!
