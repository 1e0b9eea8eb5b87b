//! Entities: named, flagged aggregates that own an ordered sequence of
//! component cells and look components up by the name of their type.
use vstd::prelude::*;

use crate::component::{ComponentBaseTrait, ComponentWrapper};
use crate::flags::{EntityFlags, ACTIVE_BIT};

verus! {

/// A non-owning reference to a world: the world's identifier, resolved only
/// through the registry that issued it (see `WorldRegistry::resolve`).
#[derive(Clone, Copy, Debug, PartialEq, Eq, Structural)]
pub struct WorldRef {
    pub world_id: u64,
}

/// The components of an entity's cells, in insertion order.
pub type Cells<C> = Seq<C>;

/// Index of the first cell whose type name is `key`, or -1 when there is none.
pub open spec fn first_index<C: ComponentBaseTrait>(cells: Cells<C>, key: Seq<char>) -> int
    decreases cells.len(),
{
    if cells.len() == 0 {
        -1
    } else {
        let k = first_index(cells.drop_last(), key);
        if k >= 0 {
            k
        } else if cells.last().component_type_name() == key {
            cells.len() - 1
        } else {
            -1
        }
    }
}

/// The component of the first cell whose type name is `key`, if any.
pub open spec fn lookup<C: ComponentBaseTrait>(cells: Cells<C>, key: Seq<char>) -> Option<C> {
    let k = first_index(cells, key);
    if k >= 0 {
        Some(cells[k])
    } else {
        None
    }
}

/// `first_index` is the smallest index whose type name is `key`.
pub proof fn lemma_first_index_at<C: ComponentBaseTrait>(cells: Cells<C>, key: Seq<char>, i: int)
    requires
        0 <= i <= cells.len(),
        forall|j: int| 0 <= j < i ==> cells[j].component_type_name() != key,
    ensures
        i == cells.len() ==> first_index(cells, key) == -1,
        i < cells.len() && cells[i].component_type_name() == key ==> first_index(cells, key) == i,
    decreases cells.len(),
{
    if cells.len() > 0 {
        let prefix = cells.drop_last();
        if i == cells.len() {
            lemma_first_index_at(prefix, key, i - 1);
        } else if cells[i].component_type_name() == key {
            lemma_first_index_at(prefix, key, i);
        }
    }
}

/// Adding a cell at the end changes a lookup only where no earlier cell
/// had the type: there it finds the new cell, if its type matches.
pub proof fn lemma_lookup_push<C: ComponentBaseTrait>(cells: Cells<C>, x: C, key: Seq<char>)
    ensures
        first_index(cells.push(x), key) == if first_index(cells, key) >= 0 {
            first_index(cells, key)
        } else if x.component_type_name() == key {
            cells.len() as int
        } else {
            -1
        },
        lookup(cells.push(x), key) == if lookup(cells, key) is Some {
            lookup(cells, key)
        } else if x.component_type_name() == key {
            Some(x)
        } else {
            None
        },
{
    assert(cells.push(x).drop_last() =~= cells);
    lemma_first_index_range(cells, key);
}

/// `first_index` is -1 or the index of a cell with that type name.
pub proof fn lemma_first_index_range<C: ComponentBaseTrait>(cells: Cells<C>, key: Seq<char>)
    ensures
        -1 <= first_index(cells, key) < cells.len(),
        first_index(cells, key) >= 0 ==> cells[first_index(cells, key)].component_type_name() == key,
    decreases cells.len(),
{
    if cells.len() > 0 {
        lemma_first_index_range(cells.drop_last(), key);
    }
}

/// Attaching a component whose type the entity does not have yet makes a
/// lookup of that type return exactly that component.
pub proof fn lemma_add_then_get<C: ComponentBaseTrait>(cells: Cells<C>, v: C)
    requires
        lookup(cells, v.component_type_name()) is None,
    ensures
        lookup(cells.push(v), v.component_type_name()) == Some(v),
{
    lemma_lookup_push(cells, v, v.component_type_name());
}

/// With two components of one type attached in turn, a lookup of the type
/// returns the first of them, never the second.
pub proof fn lemma_first_of_duplicates_wins<C: ComponentBaseTrait>(cells: Cells<C>, a: C, a2: C)
    requires
        lookup(cells, a.component_type_name()) is None,
        a2.component_type_name() == a.component_type_name(),
    ensures
        lookup(
            cells.push(a).push(a2),
            a.component_type_name(),
        ) == Some(a),
{
    let key = a.component_type_name();
    lemma_lookup_push(cells, a, key);
    lemma_lookup_push(cells.push(a), a2, key);
}

/// A lookup of a type that no cell has finds nothing.
pub proof fn lemma_absent_type_not_found<C: ComponentBaseTrait>(cells: Cells<C>, key: Seq<char>)
    requires
        forall|i: int| 0 <= i < cells.len() ==> cells[i].component_type_name() != key,
    ensures
        lookup(cells, key) is None,
{
    lemma_first_index_at(cells, key, cells.len() as int);
}

/// The cells after attaching each of `vs` in turn, as `add_component` does.
pub open spec fn add_all<C: ComponentBaseTrait>(cells: Cells<C>, vs: Seq<C>) -> Cells<C>
    decreases vs.len(),
{
    if vs.len() == 0 {
        cells
    } else {
        add_all(cells, vs.drop_last()).push(vs.last())
    }
}

/// Attaching N components, of whatever types, raises the count of cells by
/// exactly N.
pub proof fn lemma_count_after_adds<C: ComponentBaseTrait>(cells: Cells<C>, vs: Seq<C>)
    ensures
        add_all(cells, vs).len() == cells.len() + vs.len(),
    decreases vs.len(),
{
    if vs.len() > 0 {
        lemma_count_after_adds(cells, vs.drop_last());
    }
}

/// Why two components could not both be handed out for writing.
#[derive(Clone, Copy, Debug, PartialEq, Eq, Structural)]
pub enum AccessError {
    /// No cell has one of the requested types.
    Missing,
    /// Both requests resolve to the same cell, which can have one writer only.
    BorrowConflict,
}

/// Exclusive access to the elements at `i` and `j` of `s` at once.
fn pair_mut<T>(s: &mut [T], i: usize, j: usize) -> (r: (&mut T, &mut T))
    requires
        i < j < old(s)@.len(),
    ensures
        *r.0 == old(s)@[i as int],
        *r.1 == old(s)@[j as int],
        final(s)@ == old(s)@.update(i as int, *final(r.0)).update(j as int, *final(r.1)),
{
    let (front, back) = s.split_at_mut(j);
    let (_before, from_i) = front.split_at_mut(i);
    let a = from_i.first_mut().unwrap();
    let b = back.first_mut().unwrap();
    (a, b)
}

/// An entity. It is made only by a world, born active with no components.
pub struct Entity<C> {
    name: Option<String>,
    id: u64,
    flags: EntityFlags,
    components: Vec<ComponentWrapper<C>>,
    world: WorldRef,
}

impl<C: ComponentBaseTrait> Entity<C> {
    /// The entity's identity within its world.
    pub closed spec fn spec_id(&self) -> u64 {
        self.id
    }

    pub closed spec fn spec_name(&self) -> Option<String> {
        self.name
    }

    pub closed spec fn spec_flags(&self) -> u32 {
        self.flags.bits
    }

    pub closed spec fn spec_world(&self) -> WorldRef {
        self.world
    }

    /// The entity's cells, in insertion order.
    pub closed spec fn cells(&self) -> Cells<C> {
        self.components@.map_values(|w: ComponentWrapper<C>| w@)
    }

    /// Everything but the cells is equal in `a` and `b`.
    pub open spec fn same_header(a: &Entity<C>, b: &Entity<C>) -> bool {
        &&& a.spec_name() == b.spec_name()
        &&& a.spec_id() == b.spec_id()
        &&& a.spec_flags() == b.spec_flags()
        &&& a.spec_world() == b.spec_world()
    }

    pub(crate) fn new_in(id: u64, world: WorldRef) -> (r: Entity<C>)
        ensures
            r.spec_name() is None,
            r.spec_id() == id,
            r.spec_flags() == ACTIVE_BIT,
            r.spec_world() == world,
            r.cells() == Seq::<C>::empty(),
    {
        let r = Entity {
            name: None,
            id,
            flags: EntityFlags::active(),
            components: Vec::new(),
            world,
        };
        assert(r.cells() =~= Seq::<C>::empty());
        r
    }

    pub fn id(&self) -> (r: u64)
        ensures
            r == self.spec_id(),
    {
        self.id
    }

    /// The entity's name, if it has one.
    pub fn name(&self) -> (r: &Option<String>)
        ensures
            *r == self.spec_name(),
    {
        &self.name
    }

    /// Names the entity; nothing else changes.
    pub fn set_name(&mut self, name: Option<String>)
        ensures
            final(self).spec_name() == name,
            final(self).spec_id() == old(self).spec_id(),
            final(self).spec_flags() == old(self).spec_flags(),
            final(self).spec_world() == old(self).spec_world(),
            final(self).cells() == old(self).cells(),
    {
        self.name = name;
    }

    pub fn flags(&self) -> (r: EntityFlags)
        ensures
            r.bits == self.spec_flags(),
    {
        self.flags
    }

    /// Whether the entity is still active.
    pub fn is_active(&self) -> (r: bool)
        ensures
            r == (self.spec_flags() & ACTIVE_BIT == ACTIVE_BIT),
    {
        self.flags.is_active()
    }

    /// The reference to the world that made the entity.
    pub fn world_ref(&self) -> (r: WorldRef)
        ensures
            r == self.spec_world(),
    {
        self.world
    }

    /// Clears the active flag; nothing else changes.
    pub(crate) fn deactivate(&mut self)
        ensures
            final(self).spec_flags() == old(self).spec_flags() & !ACTIVE_BIT,
            final(self).spec_name() == old(self).spec_name(),
            final(self).spec_id() == old(self).spec_id(),
            final(self).spec_world() == old(self).spec_world(),
            final(self).cells() == old(self).cells(),
    {
        self.flags.remove(EntityFlags::active());
    }

    /// Number of attached cells, duplicates of a type included.
    pub fn component_count(&self) -> (r: usize)
        ensures
            r == self.cells().len(),
    {
        self.components.len()
    }

    /// Index of the first cell whose type name is `component_type`, if any.
    pub fn find_component(&self, component_type: &str) -> (r: Option<usize>)
        ensures
            r is None <==> first_index(self.cells(), component_type@) == -1,
            r matches Some(i) ==> i == first_index(self.cells(), component_type@),
            r matches Some(i) ==> i < self.cells().len() && self.cells()[i as int].component_type_name()
                == component_type@,
    {
        let key = component_type.to_owned();
        let mut i: usize = 0;
        while i < self.components.len()
            invariant
                key@ == component_type@,
                0 <= i <= self.components@.len(),
                self.cells().len() == self.components@.len(),
                forall|j: int| 0 <= j < i ==> self.cells()[j].component_type_name() != key@,
            decreases self.components@.len() - i,
        {
            let name = self.components[i].get_component_type_name();
            if name.eq(&key) {
                proof {
                    lemma_first_index_at(self.cells(), key@, i as int);
                }
                return Some(i);
            }
            i = i + 1;
        }
        proof {
            lemma_first_index_at(self.cells(), key@, i as int);
        }
        None
    }

    /// Shared access to the first component whose type name is
    /// `component_type`; none when no cell has that type.
    pub fn get_component(&self, component_type: &str) -> (r: Option<&C>)
        ensures
            r is None <==> lookup(self.cells(), component_type@) is None,
            r matches Some(c) ==> lookup(self.cells(), component_type@) == Some(*c),
    {
        match self.find_component(component_type) {
            Some(i) => {
                assert(self.cells()[i as int] == self.components@[i as int]@);
                Some(self.components[i].borrow())
            },
            None => None,
        }
    }

    /// Exclusive access to the first component whose type name is
    /// `component_type`; none when no cell has that type. Writing through the
    /// result changes that cell alone. A cell's type is the one its component
    /// reports, so storing a component of another type moves the cell to
    /// that type.
    pub fn get_component_mut(&mut self, component_type: &str) -> (r: Option<&mut C>)
        ensures
            r is None <==> lookup(old(self).cells(), component_type@) is None,
            r is None ==> *final(self) == *old(self),
            r matches Some(c) ==> {
                let k = first_index(old(self).cells(), component_type@);
                &&& lookup(old(self).cells(), component_type@) == Some(*c)
                &&& final(self).cells() == old(self).cells().update(k, *final(c))
                &&& Entity::same_header(final(self), old(self))
            },
    {
        match self.find_component(component_type) {
            Some(i) => {
                assert(self.cells()[i as int] == self.components@[i as int]@);
                let cell = &mut self.components[i];
                Some(cell.borrow_mut())
            },
            None => None,
        }
    }

    /// Exclusive access to two components at once: the first whose type name
    /// is `first` and the first whose type name is `second`. Fails with
    /// `Missing` when either type is absent, and with `BorrowConflict` when
    /// both resolve to the same cell; then nothing changes.
    pub fn get_components_mut(&mut self, first: &str, second: &str) -> (r: Result<
        (&mut C, &mut C),
        AccessError,
    >)
        ensures
            ({
                let i = first_index(old(self).cells(), first@);
                let j = first_index(old(self).cells(), second@);
                &&& (i < 0 || j < 0) <==> (r matches Err(AccessError::Missing))
                &&& (i >= 0 && j >= 0 && i == j) <==> (r matches Err(AccessError::BorrowConflict))
                &&& r is Err ==> *final(self) == *old(self)
                &&& r matches Ok((a, b)) ==> {
                    &&& *a == old(self).cells()[i]
                    &&& *b == old(self).cells()[j]
                    &&& final(self).cells() == old(self).cells().update(i, *final(a)).update(j, *final(b))
                    &&& Entity::same_header(final(self), old(self))
                }
            }),
    {
        let i = match self.find_component(first) {
            Some(i) => i,
            None => return Err(AccessError::Missing),
        };
        let j = match self.find_component(second) {
            Some(j) => j,
            None => return Err(AccessError::Missing),
        };
        if i == j {
            return Err(AccessError::BorrowConflict);
        }
        assert(self.cells()[i as int] == self.components@[i as int]@);
        assert(self.cells()[j as int] == self.components@[j as int]@);
        let cells = self.components.as_mut_slice();
        if i < j {
            let (a, b) = pair_mut(cells, i, j);
            Ok((a.borrow_mut(), b.borrow_mut()))
        } else {
            let (b, a) = pair_mut(cells, j, i);
            Ok((a.borrow_mut(), b.borrow_mut()))
        }
    }

    /// Appends a cell holding `component`. Nothing is deduplicated.
    pub fn add_component(&mut self, component: C)
        ensures
            final(self).cells() == old(self).cells().push(component),
            Entity::same_header(final(self), old(self)),
    {
        self.components.push(ComponentWrapper::new(component));
        assert(self.cells() =~= old(self).cells().push(component));
    }
}

} // verus!
