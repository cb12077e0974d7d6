//! Hit points and the running score.
use vstd::prelude::*;

verus! {

/// Hit points of a ship or an asteroid.
#[derive(Clone, Copy, Debug, PartialEq, Eq, Structural)]
pub struct Health {
    pub current: u32,
    pub max: u32,
}

/// `h` after losing `amount` hit points; hit points never drop below zero.
pub open spec fn damaged(h: Health, amount: u32) -> Health {
    Health { current: if h.current >= amount { (h.current - amount) as u32 } else { 0 }, ..h }
}

/// `h` after regaining `amount` hit points, never above its maximum.
pub open spec fn healed(h: Health, amount: u32) -> Health {
    Health {
        current: if h.current + amount <= h.max { (h.current + amount) as u32 } else { h.max },
        ..h
    }
}

/// Hit points within the maximum.
pub open spec fn health_within_max(h: Health) -> bool {
    h.current <= h.max
}

impl Health {
    /// Full health.
    pub fn new(max: u32) -> (h: Health)
        ensures
            h.current == max,
            h.max == max,
    {
        Health { current: max, max }
    }

    /// Takes `amount` damage and tells whether no hit points are left.
    pub fn damage(&mut self, amount: u32) -> (defeated: bool)
        ensures
            *final(self) == damaged(*old(self), amount),
            defeated == (final(self).current == 0),
    {
        self.current = self.current.saturating_sub(amount);
        self.current == 0
    }

    /// Regains `amount` hit points, up to the maximum.
    pub fn heal(&mut self, amount: u32)
        requires
            old(self).current + amount <= u32::MAX,
        ensures
            *final(self) == healed(*old(self), amount),
    {
        let sum = self.current + amount;
        self.current = if sum <= self.max { sum } else { self.max };
    }
}

/// Taking damage and healing both keep hit points within the maximum.
pub proof fn lemma_health_stays_within_max(h: Health, amount: u32)
    requires
        health_within_max(h),
    ensures
        health_within_max(damaged(h, amount)),
        health_within_max(healed(h, amount)),
{
}

/// Damage taken in two steps is the same as the total taken at once.
pub proof fn lemma_damage_accumulates(h: Health, a: u32, b: u32)
    requires
        a + b <= u32::MAX,
    ensures
        damaged(damaged(h, a), b) == damaged(h, (a + b) as u32),
{
}

/// Healing what was just lost restores the hit points, as long as the damage
/// did not hit zero and the health was within its maximum.
pub proof fn lemma_heal_undoes_damage(h: Health, amount: u32)
    requires
        health_within_max(h),
        h.current >= amount,
    ensures
        healed(damaged(h, amount), amount) == h,
{
}

/// The player's score.
#[derive(Clone, Copy, Debug, PartialEq, Eq, Structural)]
pub struct Score(pub u32);

impl Score {
    /// Adds `points` to the score.
    pub fn award(&mut self, points: u32)
        requires
            old(self).0 + points <= u32::MAX,
        ensures
            final(self).0 == old(self).0 + points,
    {
        self.0 = self.0 + points;
    }
}

} // verus!
