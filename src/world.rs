//! The world: sole creator, owner and destroyer of entities.
use vstd::prelude::*;

use crate::component::ComponentBaseTrait;
use crate::entity::{Entity, WorldRef};
use crate::flags::ACTIVE_BIT;
use crate::registry::WorldRegistry;

verus! {

/// Names one entity of a world by its identity, never by its contents.
#[derive(Clone, Copy, Debug, PartialEq, Eq, Structural)]
pub struct EntityHandle {
    pub id: u64,
}

/// Owns its entities, in order of creation. Every entity carries the
/// world's own reference and an identity that no other entity of the world
/// has had.
pub struct World<C> {
    self_ref: WorldRef,
    next_id: u64,
    entities: Vec<Entity<C>>,
}

impl<C: ComponentBaseTrait> World<C> {
    pub closed spec fn spec_self_ref(&self) -> WorldRef {
        self.self_ref
    }

    /// The identity the next entity will get.
    pub closed spec fn spec_next_id(&self) -> u64 {
        self.next_id
    }

    /// The entities, in order of creation.
    pub closed spec fn entity_seq(&self) -> Seq<Entity<C>> {
        self.entities@
    }

    /// Identities are distinct and below `spec_next_id`, and every entity
    /// refers back to this world.
    pub open spec fn wf(&self) -> bool {
        let es = self.entity_seq();
        &&& forall|i: int| 0 <= i < es.len() ==> es[i].spec_id() < self.spec_next_id()
        &&& forall|i: int| 0 <= i < es.len() ==> es[i].spec_world() == self.spec_self_ref()
        &&& forall|i: int, j: int|
            0 <= i < es.len() && 0 <= j < es.len() && i != j ==> es[i].spec_id()
                != es[j].spec_id()
    }

    /// Whether an entity of the world has the identity that `h` names.
    pub open spec fn holds(&self, h: EntityHandle) -> bool {
        exists|i: int| 0 <= i < self.entity_seq().len() && self.entity_seq()[i].spec_id() == h.id
    }

    /// Position of the entity that `h` names (meaningful when `holds(h)`).
    pub open spec fn position(&self, h: EntityHandle) -> int {
        choose|i: int| 0 <= i < self.entity_seq().len() && self.entity_seq()[i].spec_id() == h.id
    }

    /// An empty world whose self reference carries `world_id`. Only a
    /// registry picks identifiers, so that no two of its worlds share one.
    pub(crate) fn with_id(world_id: u64) -> (r: World<C>)
        ensures
            r.wf(),
            r.spec_self_ref() == (WorldRef { world_id }),
            r.spec_next_id() == 0,
            r.entity_seq().len() == 0,
    {
        World { self_ref: WorldRef { world_id }, next_id: 0, entities: Vec::new() }
    }

    /// Makes an empty world inside `registry`, under an identifier that the
    /// registry has never issued, and returns the world's reference to
    /// itself. Through the registry that reference resolves to the new world
    /// for as long as it exists; no other reference changes whether it
    /// resolves.
    pub fn new(registry: &mut WorldRegistry<C>) -> (r: WorldRef)
        requires
            old(registry).wf(),
            old(registry).spec_next_world_id() < u64::MAX,
        ensures
            final(registry).wf(),
            r.world_id == old(registry).spec_next_world_id(),
            !old(registry).holds(r),
            final(registry).holds(r),
            final(registry).spec_next_world_id() == old(registry).spec_next_world_id() + 1,
            final(registry).world_seq().drop_last() == old(registry).world_seq(),
            final(registry).position(r) == old(registry).world_seq().len(),
            ({
                let w = final(registry).world_seq().last();
                &&& w.spec_self_ref() == r
                &&& w.entity_seq().len() == 0
                &&& w.spec_next_id() == 0
            }),
            forall|r2: WorldRef|
                r2 != r ==> (final(registry).holds(r2) <==> old(registry).holds(r2)),
            forall|r2: WorldRef|
                r2.world_id < old(registry).spec_next_world_id() && !old(registry).holds(r2)
                    ==> !final(registry).holds(r2),
    {
        registry.create_world()
    }

    /// The world's reference to itself, as its entities hold it.
    pub fn self_ref(&self) -> (r: WorldRef)
        ensures
            r == self.spec_self_ref(),
    {
        self.self_ref
    }

    /// The entities, in order of creation, for reading.
    pub fn entities(&self) -> (r: &Vec<Entity<C>>)
        ensures
            r@ == self.entity_seq(),
    {
        &self.entities
    }

    /// Number of entities.
    pub fn entity_count(&self) -> (r: usize)
        ensures
            r == self.entity_seq().len(),
    {
        self.entities.len()
    }

    /// Whether another entity can be made: identities are not yet used up.
    pub fn can_create_entity(&self) -> (r: bool)
        ensures
            r == (self.spec_next_id() < u64::MAX),
    {
        self.next_id < u64::MAX
    }

    /// Position of the entity that `h` names, if the world holds it.
    pub fn find_entity(&self, h: EntityHandle) -> (r: Option<usize>)
        requires
            self.wf(),
        ensures
            r is None <==> !self.holds(h),
            r matches Some(i) ==> i == self.position(h) && i < self.entity_seq().len()
                && self.entity_seq()[i as int].spec_id() == h.id,
    {
        let mut i: usize = 0;
        while i < self.entities.len()
            invariant
                self.wf(),
                0 <= i <= self.entities@.len(),
                forall|j: int| 0 <= j < i ==> self.entity_seq()[j].spec_id() != h.id,
            decreases self.entities@.len() - i,
        {
            if self.entities[i].id() == h.id {
                proof {
                    assert(self.holds(h));
                    let j = self.position(h);
                    assert(self.entity_seq()[j].spec_id() == h.id);
                }
                return Some(i);
            }
            i = i + 1;
        }
        None
    }

    /// Shared access to the entity that `h` names; none when the world does
    /// not hold it.
    pub fn entity(&self, h: EntityHandle) -> (r: Option<&Entity<C>>)
        requires
            self.wf(),
        ensures
            r is None <==> !self.holds(h),
            r matches Some(e) ==> *e == self.entity_seq()[self.position(h)],
    {
        match self.find_entity(h) {
            Some(i) => Some(&self.entities[i]),
            None => None,
        }
    }

    /// Exclusive access to the entity that `h` names; none when the world does
    /// not hold it. Only that entity can change through the result.
    pub fn entity_mut(&mut self, h: EntityHandle) -> (r: Option<&mut Entity<C>>)
        requires
            old(self).wf(),
        ensures
            r is None <==> !old(self).holds(h),
            r is None ==> *final(self) == *old(self),
            r matches Some(e) ==> {
                &&& *e == old(self).entity_seq()[old(self).position(h)]
                &&& final(self).entity_seq() == old(self).entity_seq().update(
                    old(self).position(h),
                    *final(e),
                )
                &&& final(self).spec_self_ref() == old(self).spec_self_ref()
                &&& final(self).spec_next_id() == old(self).spec_next_id()
                &&& (*final(e)).spec_id() == e.spec_id() && (*final(e)).spec_world()
                    == e.spec_world() ==> final(self).wf()
            },
    {
        match self.find_entity(h) {
            Some(i) => Some(&mut self.entities[i]),
            None => None,
        }
    }

    /// Makes an active entity with no components, appends it to the world's
    /// entities and returns its handle.
    pub fn new_entity(&mut self) -> (r: EntityHandle)
        requires
            old(self).wf(),
            old(self).spec_next_id() < u64::MAX,
        ensures
            final(self).wf(),
            r.id == old(self).spec_next_id(),
            !old(self).holds(r),
            final(self).spec_next_id() == old(self).spec_next_id() + 1,
            final(self).spec_self_ref() == old(self).spec_self_ref(),
            final(self).entity_seq().len() == old(self).entity_seq().len() + 1,
            final(self).entity_seq().drop_last() == old(self).entity_seq(),
            ({
                let e = final(self).entity_seq().last();
                &&& e.spec_id() == r.id
                &&& e.spec_name() is None
                &&& e.spec_flags() == ACTIVE_BIT
                &&& e.spec_world() == old(self).spec_self_ref()
                &&& e.cells().len() == 0
            }),
            final(self).holds(r),
            final(self).position(r) == old(self).entity_seq().len(),
    {
        let id = self.next_id;
        let e = Entity::new_in(id, self.self_ref);
        self.entities.push(e);
        self.next_id = id + 1;
        let r = EntityHandle { id };
        proof {
            assert(self.entity_seq().drop_last() =~= old(self).entity_seq());
            let n = old(self).entity_seq().len() as int;
            assert(self.entity_seq()[n].spec_id() == id);
            assert(self.holds(r));
        }
        r
    }

    /// Removes the entity that `h` names: first its active flag is cleared,
    /// then it is taken out of the world by identity and dropped. Returns
    /// whether the world held it; when it did not, nothing changes.
    pub fn destroy_entity(&mut self, h: EntityHandle) -> (found: bool)
        requires
            old(self).wf(),
        ensures
            final(self).wf(),
            found == old(self).holds(h),
            found ==> final(self).entity_seq() == old(self).entity_seq().remove(
                old(self).position(h),
            ),
            !found ==> *final(self) == *old(self),
            final(self).entity_seq().len() == old(self).entity_seq().len() - if found {
                1int
            } else {
                0int
            },
            !final(self).holds(h),
            final(self).spec_self_ref() == old(self).spec_self_ref(),
            final(self).spec_next_id() == old(self).spec_next_id(),
            forall|h2: EntityHandle|
                h2.id != h.id && #[trigger] old(self).holds(h2) ==> final(self).holds(h2)
                    && final(self).entity_seq()[final(self).position(h2)]
                    == old(self).entity_seq()[old(self).position(h2)],
    {
        match self.find_entity(h) {
            Some(i) => {
                let target = &mut self.entities[i];
                target.deactivate();
                self.entities.remove(i);
                proof {
                    let before = old(self).entity_seq();
                    assert(self.entity_seq() =~= before.remove(i as int));
                    assert forall|h2: EntityHandle|
                        h2.id != h.id && #[trigger] old(self).holds(h2) implies self.holds(h2)
                            && self.entity_seq()[self.position(h2)] == before[old(self).position(
                            h2,
                        )] by {
                        let j = old(self).position(h2);
                        let k = if j < i { j } else { j - 1 };
                        assert(self.entity_seq()[k] == before[j]);
                        assert(self.holds(h2));
                    }
                }
                true
            },
            None => false,
        }
    }
}

} // verus!
