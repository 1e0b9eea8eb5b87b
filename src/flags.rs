//! Activity flags of an entity, held as a set of bits.
use vstd::prelude::*;

verus! {

/// Bit that marks an entity as active.
pub const ACTIVE_BIT: u32 = 1;

/// The name a set of flags is shown by: `ACTIVE` when the active flag is set,
/// else `NONE`; no other bit has a name.
pub open spec fn flag_names(bits: u32) -> Seq<char> {
    if bits & ACTIVE_BIT == ACTIVE_BIT {
        seq!['A', 'C', 'T', 'I', 'V', 'E']
    } else {
        seq!['N', 'O', 'N', 'E']
    }
}

/// A set of entity flags. `ACTIVE_BIT` is the only flag with a meaning.
#[derive(Clone, Copy, Debug, PartialEq, Eq, Structural)]
pub struct EntityFlags {
    pub bits: u32,
}

impl EntityFlags {
    /// The empty set of flags.
    pub fn none() -> (r: EntityFlags)
        ensures
            r.bits == 0,
    {
        EntityFlags { bits: 0 }
    }

    /// The set that holds the active flag alone.
    pub fn active() -> (r: EntityFlags)
        ensures
            r.bits == ACTIVE_BIT,
    {
        EntityFlags { bits: ACTIVE_BIT }
    }

    pub fn bits(&self) -> (r: u32)
        ensures
            r == self.bits,
    {
        self.bits
    }

    /// Whether every flag of `other` is set in `self`.
    pub fn contains(&self, other: EntityFlags) -> (r: bool)
        ensures
            r == (self.bits & other.bits == other.bits),
    {
        self.bits & other.bits == other.bits
    }

    /// Sets the flags of `other`.
    pub fn insert(&mut self, other: EntityFlags)
        ensures
            final(self).bits == old(self).bits | other.bits,
    {
        self.bits = self.bits | other.bits;
    }

    /// Clears the flags of `other`, leaving the others as they were.
    pub fn remove(&mut self, other: EntityFlags)
        ensures
            final(self).bits == old(self).bits & !other.bits,
    {
        self.bits = self.bits & !other.bits;
    }

    /// Whether the active flag is set.
    pub fn is_active(&self) -> (r: bool)
        ensures
            r == (self.bits & ACTIVE_BIT == ACTIVE_BIT),
    {
        self.bits & ACTIVE_BIT == ACTIVE_BIT
    }

    /// The name the flags are shown by.
    pub fn names(&self) -> (r: String)
        ensures
            r@ == flag_names(self.bits),
    {
        if self.is_active() {
            let r = String::from_str("ACTIVE");
            proof {
                reveal_strlit("ACTIVE");
                assert(r@ =~= seq!['A', 'C', 'T', 'I', 'V', 'E']);
            }
            r
        } else {
            let r = String::from_str("NONE");
            proof {
                reveal_strlit("NONE");
                assert(r@ =~= seq!['N', 'O', 'N', 'E']);
            }
            r
        }
    }
}

} // verus!
