//! A plain arena of game entities with generational indices: a stable id is
//! an index plus the generation its slot had when the entity was spawned.
//! A despawn bumps the slot's generation, so an id held elsewhere (say, by
//! a homing projectile) detectably goes stale instead of pointing at
//! whatever reuses the slot.

use vstd::prelude::*;

verus! {

/// A stable reference to one spawned entity.
#[derive(Clone, Copy, Debug, PartialEq, Eq, Structural)]
pub struct EntityId {
    pub index: usize,
    pub gen: u64,
}

#[derive(Clone, Copy, Debug)]
pub struct Slot<T> {
    pub gen: u64,
    pub val: Option<T>,
}

/// The entity store: a vector of slots, each remembering how many entities
/// have lived in it.
#[derive(Debug)]
pub struct Arena<T> {
    pub slots: Vec<Slot<T>>,
}

impl<T: Copy> Arena<T> {
    /// The id refers to a live entity: its slot exists, has the id's
    /// generation, and is occupied.
    pub open spec fn valid(self, id: EntityId) -> bool {
        &&& id.index < self.slots@.len()
        &&& self.slots@[id.index as int].gen == id.gen
        &&& self.slots@[id.index as int].val is Some
    }

    /// The live entity an id refers to.
    pub open spec fn get(self, id: EntityId) -> T
        recommends
            self.valid(id),
    {
        self.slots@[id.index as int].val->Some_0
    }

    pub fn new() -> (r: Arena<T>)
        ensures
            r.slots@.len() == 0,
            forall|o: EntityId| !r.valid(o),
    {
        Arena { slots: Vec::new() }
    }

    /// How many slots the arena holds (live or free).
    pub fn slot_count(&self) -> (n: usize)
        ensures
            n == self.slots@.len(),
    {
        self.slots.len()
    }

    /// The live entity in the given slot, with its id; nothing if the slot
    /// is free or out of range.
    pub fn get_at(&self, index: usize) -> (r: Option<(EntityId, T)>)
        ensures
            match r {
                Some((id, v)) => id.index == index && self.valid(id) && v == self.get(id),
                None => index >= self.slots@.len() || !(self.slots@[index as int].val is Some),
            },
    {
        if index >= self.slots.len() {
            return None;
        }
        let slot = &self.slots[index];
        match slot.val {
            Some(v) => Some((EntityId { index, gen: slot.gen }, v)),
            None => None,
        }
    }

    /// Look an id up; a stale or never-issued id yields nothing.
    pub fn lookup(&self, id: EntityId) -> (r: Option<T>)
        ensures
            match r {
                Some(v) => self.valid(id) && v == self.get(id),
                None => !self.valid(id),
            },
    {
        if id.index >= self.slots.len() {
            return None;
        }
        let slot = &self.slots[id.index];
        if slot.gen != id.gen {
            return None;
        }
        match slot.val {
            Some(v) => Some(v),
            None => None,
        }
    }

    /// Spawn an entity into the first free slot (or a new one): the fresh
    /// id was not valid before, and every entity alive before is untouched.
    pub fn spawn(&mut self, v: T) -> (id: EntityId)
        ensures
            final(self).valid(id),
            final(self).get(id) == v,
            !old(self).valid(id),
            forall|o: EntityId|
                old(self).valid(o) ==> #[trigger] final(self).valid(o) && final(self).get(o)
                    == old(self).get(o),
            forall|o: EntityId| #[trigger] final(self).valid(o) ==> old(self).valid(o) || o == id,
    {
        let n = self.slots.len();
        let mut i: usize = 0;
        while i < n
            invariant
                n == self.slots@.len(),
                i <= n,
                *self == *old(self),
                forall|j: int| 0 <= j < i ==> (#[trigger] self.slots@[j].val) is Some,
            decreases n - i,
        {
            if self.slots[i].val.is_none() {
                let g = self.slots[i].gen;
                self.slots[i] = Slot { gen: g, val: Some(v) };
                let id = EntityId { index: i, gen: g };
                proof {
                    assert forall|o: EntityId| old(self).valid(o) implies #[trigger] final(self).valid(o) && final(self).get(o) == old(self).get(o) by {
                        assert(o.index != i || !(old(self).slots@[o.index as int].val is Some));
                    }
                }
                return id;
            }
            i += 1;
        }
        let g: u64 = 0;
        self.slots.push(Slot { gen: g, val: Some(v) });
        let id = EntityId { index: n, gen: g };
        proof {
            assert forall|o: EntityId| old(self).valid(o) implies #[trigger] final(self).valid(o)
                && final(self).get(o) == old(self).get(o) by {
                assert(o.index < n);
            }
        }
        id
    }

    /// Remove a live entity: its id (and its whole generation) goes stale,
    /// and every other live entity is untouched.
    pub fn despawn(&mut self, id: EntityId) -> (ok: bool)
        ensures
            ok == old(self).valid(id),
            !ok ==> *final(self) == *old(self),
            final(self).slots@.len() == old(self).slots@.len(),
            !final(self).valid(id),
            forall|o: EntityId|
                old(self).valid(o) && o != id ==> #[trigger] final(self).valid(o) && final(self).get(o) == old(self).get(o),
            forall|o: EntityId| #[trigger] final(self).valid(o) ==> old(self).valid(o) && o != id,
    {
        if id.index >= self.slots.len() {
            return false;
        }
        let slot = &self.slots[id.index];
        if slot.gen != id.gen || slot.val.is_none() {
            return false;
        }
        let new_gen: u64 = if slot.gen < u64::MAX {
            slot.gen + 1
        } else {
            0
        };
        self.slots[id.index] = Slot { gen: new_gen, val: None };
        proof {
            assert forall|o: EntityId|
                old(self).valid(o) && o != id implies #[trigger] final(self).valid(o) && final(self).get(o) == old(self).get(o) by {
                if o.index == id.index {
                    assert(o.gen == old(self).slots@[id.index as int].gen);
                    assert(o == id);
                }
            }
        }
        true
    }

    /// Replace a live entity's value in place; the id stays valid and
    /// nothing else changes.
    pub fn set(&mut self, id: EntityId, v: T) -> (ok: bool)
        ensures
            ok == old(self).valid(id),
            !ok ==> *final(self) == *old(self),
            final(self).slots@.len() == old(self).slots@.len(),
            ok ==> final(self).valid(id) && final(self).get(id) == v,
            forall|o: EntityId|
                o != id ==> (#[trigger] final(self).valid(o) == old(self).valid(o)) && (old(self).valid(o) ==> final(self).get(o) == old(self).get(o)),
    {
        if id.index >= self.slots.len() {
            return false;
        }
        let slot = &self.slots[id.index];
        if slot.gen != id.gen || slot.val.is_none() {
            return false;
        }
        self.slots[id.index] = Slot { gen: id.gen, val: Some(v) };
        proof {
            assert forall|o: EntityId|
                o != id implies (#[trigger] final(self).valid(o) == old(self).valid(o)) && (old(self).valid(o) ==> final(self).get(o) == old(self).get(o)) by {
                if o.index == id.index && old(self).valid(o) {
                    assert(o == id);
                }
            }
        }
        true
    }
}

} // verus!
