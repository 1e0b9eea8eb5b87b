//! A registry of worlds. It gives each world it makes an identifier of its
//! own, so that the reference an entity holds to its world resolves, through
//! the registry, to that world while it exists and to nothing once it has
//! been removed.
use vstd::prelude::*;

use crate::component::ComponentBaseTrait;
use crate::entity::WorldRef;
use crate::world::World;

verus! {

/// Owns worlds, each under an identifier that the registry never issues
/// twice. Identifiers start at 1.
pub struct WorldRegistry<C> {
    next_world_id: u64,
    worlds: Vec<World<C>>,
}

impl<C: ComponentBaseTrait> WorldRegistry<C> {
    /// The identifier the next world will get; every identifier issued so far
    /// is below it.
    pub closed spec fn spec_next_world_id(&self) -> u64 {
        self.next_world_id
    }

    /// The live worlds, in order of creation.
    pub closed spec fn world_seq(&self) -> Seq<World<C>> {
        self.worlds@
    }

    /// Every world is well formed, carries an identifier that was issued, and
    /// no two worlds share one.
    pub open spec fn wf(&self) -> bool {
        let ws = self.world_seq();
        &&& 1 <= self.spec_next_world_id()
        &&& forall|i: int| 0 <= i < ws.len() ==> #[trigger] ws[i].wf()
        &&& forall|i: int|
            0 <= i < ws.len() ==> 1 <= #[trigger] ws[i].spec_self_ref().world_id
                < self.spec_next_world_id()
        &&& forall|i: int, j: int|
            0 <= i < ws.len() && 0 <= j < ws.len() && i != j ==> ws[i].spec_self_ref()
                != ws[j].spec_self_ref()
    }

    /// Whether a live world of the registry is the one `r` refers to.
    pub open spec fn holds(&self, r: WorldRef) -> bool {
        exists|i: int| 0 <= i < self.world_seq().len() && self.world_seq()[i].spec_self_ref() == r
    }

    /// Position of the world `r` refers to (meaningful when `holds(r)`).
    pub open spec fn position(&self, r: WorldRef) -> int {
        choose|i: int| 0 <= i < self.world_seq().len() && self.world_seq()[i].spec_self_ref() == r
    }

    /// A registry with no worlds.
    pub fn new() -> (r: WorldRegistry<C>)
        ensures
            r.wf(),
            r.spec_next_world_id() == 1,
            r.world_seq().len() == 0,
    {
        WorldRegistry { next_world_id: 1, worlds: Vec::new() }
    }

    /// Number of live worlds.
    pub fn world_count(&self) -> (r: usize)
        ensures
            r == self.world_seq().len(),
    {
        self.worlds.len()
    }

    /// Whether another world can be made: identifiers are not yet used up.
    pub fn can_create_world(&self) -> (r: bool)
        ensures
            r == (self.spec_next_world_id() < u64::MAX),
    {
        self.next_world_id < u64::MAX
    }

    /// Makes an empty world under a fresh identifier and returns the
    /// reference to it (see `World::new`). No other reference changes whether
    /// it resolves; one whose world was removed stays unresolved.
    pub(crate) fn create_world(&mut self) -> (r: WorldRef)
        requires
            old(self).wf(),
            old(self).spec_next_world_id() < u64::MAX,
        ensures
            final(self).wf(),
            r.world_id == old(self).spec_next_world_id(),
            !old(self).holds(r),
            final(self).holds(r),
            final(self).spec_next_world_id() == old(self).spec_next_world_id() + 1,
            final(self).world_seq().drop_last() == old(self).world_seq(),
            final(self).position(r) == old(self).world_seq().len(),
            ({
                let w = final(self).world_seq().last();
                &&& w.spec_self_ref() == r
                &&& w.entity_seq().len() == 0
                &&& w.spec_next_id() == 0
            }),
            forall|r2: WorldRef| r2 != r ==> (final(self).holds(r2) <==> old(self).holds(r2)),
            forall|r2: WorldRef|
                r2.world_id < old(self).spec_next_world_id() && !old(self).holds(r2)
                    ==> !final(self).holds(r2),
    {
        let id = self.next_world_id;
        let w: World<C> = World::with_id(id);
        self.worlds.push(w);
        self.next_world_id = id + 1;
        let r = WorldRef { world_id: id };
        proof {
            let n = old(self).world_seq().len() as int;
            assert(self.world_seq().drop_last() =~= old(self).world_seq());
            assert(self.world_seq()[n].spec_self_ref() == r);
            assert(self.holds(r));
            let ws = self.world_seq();
            assert(ws.len() == n + 1);
            assert forall|i: int| 0 <= i < ws.len() implies #[trigger] ws[i].wf() by {
                if i < n {
                    assert(old(self).world_seq()[i].wf());
                }
            }
            assert forall|i: int| 0 <= i < ws.len() implies 1 <= #[trigger] ws[i].spec_self_ref().world_id
                < self.spec_next_world_id() by {
                if i < n {
                    assert(old(self).world_seq()[i].spec_self_ref().world_id < id);
                }
            }
            assert forall|i: int, j: int| 0 <= i < ws.len() && 0 <= j < ws.len() && i != j
                implies ws[i].spec_self_ref() != ws[j].spec_self_ref() by {
                if i < n {
                    assert(old(self).world_seq()[i].spec_self_ref().world_id < id);
                }
                if j < n {
                    assert(old(self).world_seq()[j].spec_self_ref().world_id < id);
                }
            }
            assert(self.wf());
            assert forall|r2: WorldRef| r2 != r implies (self.holds(r2) <==> old(self).holds(
                r2,
            )) by {
                if old(self).holds(r2) {
                    let k = old(self).position(r2);
                    assert(self.world_seq()[k] == old(self).world_seq()[k]);
                }
                if self.holds(r2) {
                    let k = self.position(r2);
                    assert(k != n);
                    assert(self.world_seq()[k] == old(self).world_seq()[k]);
                }
            }
        }
        r
    }

    /// Position of the world `r` refers to, if the registry holds it.
    fn find_world(&self, r: WorldRef) -> (i: Option<usize>)
        requires
            self.wf(),
        ensures
            i is None <==> !self.holds(r),
            i matches Some(i) ==> i == self.position(r) && i < self.world_seq().len()
                && self.world_seq()[i as int].spec_self_ref() == r,
    {
        let mut i: usize = 0;
        while i < self.worlds.len()
            invariant
                self.wf(),
                0 <= i <= self.worlds@.len(),
                forall|j: int| 0 <= j < i ==> self.world_seq()[j].spec_self_ref() != r,
            decreases self.worlds@.len() - i,
        {
            if self.worlds[i].self_ref() == r {
                proof {
                    assert(self.holds(r));
                    let j = self.position(r);
                    assert(self.world_seq()[j].spec_self_ref() == r);
                }
                return Some(i);
            }
            i = i + 1;
        }
        None
    }

    /// The world `r` refers to, while it exists; none once it was removed, or
    /// for a reference the registry did not issue.
    pub fn resolve(&self, r: WorldRef) -> (w: Option<&World<C>>)
        requires
            self.wf(),
        ensures
            w is None <==> !self.holds(r),
            w matches Some(w) ==> w.spec_self_ref() == r && *w == self.world_seq()[self.position(
                r,
            )],
    {
        match self.find_world(r) {
            Some(i) => Some(&self.worlds[i]),
            None => None,
        }
    }

    /// Exclusive access to the world `r` refers to; none when the registry
    /// does not hold it. Only that world can change through the result.
    pub fn resolve_mut(&mut self, r: WorldRef) -> (w: Option<&mut World<C>>)
        requires
            old(self).wf(),
        ensures
            w is None <==> !old(self).holds(r),
            w is None ==> *final(self) == *old(self),
            w matches Some(w) ==> {
                &&& w.spec_self_ref() == r
                &&& *w == old(self).world_seq()[old(self).position(r)]
                &&& final(self).world_seq() == old(self).world_seq().update(
                    old(self).position(r),
                    *final(w),
                )
                &&& final(self).spec_next_world_id() == old(self).spec_next_world_id()
                &&& (*final(w)).spec_self_ref() == r && (*final(w)).wf() ==> final(self).wf()
            },
    {
        match self.find_world(r) {
            Some(i) => Some(&mut self.worlds[i]),
            None => None,
        }
    }

    /// Removes the world `r` refers to, with all its entities. Returns whether
    /// the registry held it; when it did not, nothing changes. From then on
    /// `r` resolves to nothing.
    pub fn remove_world(&mut self, r: WorldRef) -> (found: bool)
        requires
            old(self).wf(),
        ensures
            final(self).wf(),
            found == old(self).holds(r),
            found ==> final(self).world_seq() == old(self).world_seq().remove(
                old(self).position(r),
            ),
            !found ==> *final(self) == *old(self),
            !final(self).holds(r),
            final(self).spec_next_world_id() == old(self).spec_next_world_id(),
            forall|r2: WorldRef| r2 != r ==> (final(self).holds(r2) <==> old(self).holds(r2)),
    {
        match self.find_world(r) {
            Some(i) => {
                self.worlds.remove(i);
                proof {
                    let before = old(self).world_seq();
                    assert(self.world_seq() =~= before.remove(i as int));
                    assert forall|r2: WorldRef| r2 != r implies (self.holds(r2) <==> old(
                        self,
                    ).holds(r2)) by {
                        if old(self).holds(r2) {
                            let j = old(self).position(r2);
                            let k = if j < i { j } else { j - 1 };
                            assert(self.world_seq()[k] == before[j]);
                        }
                        if self.holds(r2) {
                            let k = self.position(r2);
                            let j = if k < i { k } else { k + 1 };
                            assert(self.world_seq()[k] == before[j]);
                        }
                    }
                }
                true
            },
            None => false,
        }
    }
}

} // verus!
