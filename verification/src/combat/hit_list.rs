//! Piercing bullets, and the short memory of asteroids such a bullet has
//! already hit so that it never hits one twice.
use vstd::prelude::*;

use super::EntityId;

verus! {

/// Capacity of a hit list.
pub const HIT_LIST_CAPACITY: usize = 3;

/// The hits remembered after hitting `entity`: appended while there is
/// room, otherwise unchanged.
pub open spec fn push_hit(hits: Seq<EntityId>, entity: EntityId) -> Seq<EntityId> {
    if hits.len() < HIT_LIST_CAPACITY {
        hits.push(entity)
    } else {
        hits
    }
}

/// Asteroids a piercing bullet may still pass through.
#[derive(Clone, Copy, Debug, PartialEq, Eq, Structural)]
pub struct Pierce(pub u32);

/// The first asteroids a bullet hit, in order, at most three.
#[derive(Clone, Copy, Debug)]
pub struct HitList {
    hit: [Option<EntityId>; 3],
    len: u8,
}

impl HitList {
    #[verifier::type_invariant]
    spec fn well_formed(self) -> bool {
        &&& self.len <= HIT_LIST_CAPACITY
        &&& forall|i: int| 0 <= i < self.len ==> (#[trigger] self.hit@[i]) is Some
    }
}

impl View for HitList {
    type V = Seq<EntityId>;

    closed spec fn view(&self) -> Seq<EntityId> {
        Seq::new(self.len as nat, |i: int| self.hit@[i].unwrap())
    }
}

impl HitList {
    /// Nothing hit yet.
    pub fn new() -> (h: HitList)
        ensures
            h@ == Seq::<EntityId>::empty(),
    {
        HitList { hit: [None, None, None], len: 0 }
    }

    /// How many asteroids are remembered; never more than the capacity.
    pub fn len(&self) -> (n: usize)
        ensures
            n == self@.len(),
            n <= HIT_LIST_CAPACITY,
    {
        proof {
            use_type_invariant(self);
        }
        self.len as usize
    }

    /// Whether `entity` was already hit.
    pub fn contains(&self, entity: EntityId) -> (found: bool)
        ensures
            found == self@.contains(entity),
    {
        proof {
            use_type_invariant(self);
        }
        let len = self.len as usize;
        let mut i: usize = 0;
        while i < len
            invariant
                len == self.len,
                len <= HIT_LIST_CAPACITY,
                0 <= i <= len,
                forall|j: int| 0 <= j < len ==> (#[trigger] self.hit@[j]) is Some,
                forall|j: int| 0 <= j < i ==> self@[j] != entity,
            decreases len - i,
        {
            if self.hit[i] == Some(entity) {
                assert(self@[i as int] == entity);
                return true;
            }
            i = i + 1;
        }
        proof {
            if self@.contains(entity) {
                let k = choose|k: int| 0 <= k < self@.len() && self@[k] == entity;
                assert(self@[k] != entity);
            }
        }
        false
    }

    /// Remembers `entity`; once the list is full, further hits are not
    /// recorded.
    pub fn push(&mut self, entity: EntityId)
        ensures
            final(self)@ == push_hit(old(self)@, entity),
    {
        proof {
            use_type_invariant(&*self);
        }
        if (self.len as usize) < HIT_LIST_CAPACITY {
            let ghost before = self@;
            let idx = self.len as usize;
            let mut hit = self.hit;
            hit[idx] = Some(entity);
            *self = HitList { hit, len: self.len + 1 };
            assert(self@ =~= before.push(entity));
        }
    }
}

impl Default for HitList {
    fn default() -> (h: HitList)
        ensures
            h@ == Seq::<EntityId>::empty(),
    {
        HitList::new()
    }
}

/// A bullet never hits the same asteroid twice: what a hit list remembers
/// stays remembered, and a pushed asteroid is remembered while there is room.
pub proof fn lemma_push_remembers(before: Seq<EntityId>, entity: EntityId, other: EntityId)
    ensures
        before.contains(other) ==> push_hit(before, entity).contains(other),
        before.len() < HIT_LIST_CAPACITY ==> push_hit(before, entity).contains(entity),
{
    let after = push_hit(before, entity);
    if before.contains(other) {
        let k = choose|k: int| 0 <= k < before.len() && before[k] == other;
        assert(after[k] == other);
    }
    if before.len() < HIT_LIST_CAPACITY {
        assert(after[before.len() as int] == entity);
    }
}

} // verus!
