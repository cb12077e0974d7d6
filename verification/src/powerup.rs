//! Power-ups left behind by destroyed asteroids, and what collecting one
//! does.
use vstd::prelude::*;

use crate::health::{healed, Health};
use crate::player::{fresh_once, EffectKind, TimedEffect};
use crate::random::random_u32_below;

verus! {

/// How long triple shot lasts.
pub const POWERUP_TRIPLE_DURATION: u64 = 10_000_000_000;

/// How long rapid fire lasts.
pub const POWERUP_RAPID_DURATION: u64 = 8_000_000_000;

/// How long pierce shot lasts.
pub const POWERUP_PIERCE_DURATION: u64 = 12_000_000_000;

/// Number of kinds of power-up a drop picks from.
pub const POWERUP_KINDS: u32 = 4;

/// The kinds of power-up.
#[derive(Clone, Copy, Debug, PartialEq, Eq, Structural)]
pub enum PowerUpKind {
    TripleShot,
    RapidFire,
    Shield,
    PierceShot,
}

/// The kind a draw in `0..4` picks: triple shot, rapid fire, pierce shot,
/// then shield.
pub open spec fn kind_for_drop_roll(roll: u32) -> PowerUpKind {
    if roll == 0 {
        PowerUpKind::TripleShot
    } else if roll == 1 {
        PowerUpKind::RapidFire
    } else if roll == 2 {
        PowerUpKind::PierceShot
    } else {
        PowerUpKind::Shield
    }
}

pub fn powerup_kind_for_roll(roll: u32) -> (kind: PowerUpKind)
    ensures
        kind == kind_for_drop_roll(roll),
{
    match roll {
        0 => PowerUpKind::TripleShot,
        1 => PowerUpKind::RapidFire,
        2 => PowerUpKind::PierceShot,
        _ => PowerUpKind::Shield,
    }
}

/// Decides what a destroyed asteroid leaves behind. `chance_hit` is the
/// outcome of the drop chance; when it came up, a kind is drawn, each of the
/// four equally likely.
pub fn roll_drop(chance_hit: bool) -> (drop: Option<PowerUpKind>)
    ensures
        !chance_hit ==> drop is None,
        chance_hit ==> exists|roll: u32| roll < POWERUP_KINDS && drop == Some(kind_for_drop_roll(roll)),
{
    if !chance_hit {
        return None;
    }
    let roll = random_u32_below(POWERUP_KINDS);
    Some(powerup_kind_for_roll(roll))
}

/// Each kind is picked by exactly one draw.
pub proof fn lemma_each_kind_has_one_roll(kind: PowerUpKind)
    ensures
        exists|roll: u32| roll < POWERUP_KINDS && kind_for_drop_roll(roll) == kind,
        forall|a: u32, b: u32|
            a < POWERUP_KINDS && b < POWERUP_KINDS && kind_for_drop_roll(a) == kind_for_drop_roll(b)
                ==> a == b,
{
    match kind {
        PowerUpKind::TripleShot => assert(kind_for_drop_roll(0) == kind),
        PowerUpKind::RapidFire => assert(kind_for_drop_roll(1) == kind),
        PowerUpKind::PierceShot => assert(kind_for_drop_roll(2) == kind),
        PowerUpKind::Shield => assert(kind_for_drop_roll(3) == kind),
    }
}

/// A power-up on the field.
#[derive(Clone, Copy, Debug, PartialEq, Eq, Structural)]
pub struct PowerUpPickup(pub PowerUpKind);

/// The player collected a power-up.
#[derive(Clone, Copy, Debug, PartialEq, Eq, Structural)]
pub struct PowerUpCollectedEvent {
    pub pickup: u64,
    pub player: u64,
    pub kind: PowerUpKind,
}

/// What collecting a power-up grants.
#[derive(Clone, Copy, Debug)]
pub enum PowerUpEffect {
    /// A timed effect to put on the player, replacing one of the same kind.
    Grant { effect: EffectKind, timer: TimedEffect },
    /// The shield restored a hit point (up to the maximum).
    Healed,
}

/// The timed effect and its length that a power-up grants, or none for the
/// shield.
pub open spec fn granted_by(kind: PowerUpKind) -> Option<(EffectKind, nat)> {
    match kind {
        PowerUpKind::TripleShot => Some((EffectKind::TripleShot, POWERUP_TRIPLE_DURATION as nat)),
        PowerUpKind::RapidFire => Some((EffectKind::RapidFire, POWERUP_RAPID_DURATION as nat)),
        PowerUpKind::PierceShot => Some((EffectKind::PierceShot, POWERUP_PIERCE_DURATION as nat)),
        PowerUpKind::Shield => None,
    }
}

/// Collecting a power-up: the shield heals one hit point, every other kind
/// grants its timed effect from the start.
pub fn apply_powerup(kind: PowerUpKind, health: &mut Health) -> (effect: PowerUpEffect)
    requires
        kind == PowerUpKind::Shield ==> old(health).current < u32::MAX,
    ensures
        match granted_by(kind) {
            Some((k, d)) => *final(health) == *old(health) && (effect matches PowerUpEffect::Grant {
                effect: e,
                timer,
            } && e == k && timer.0@ == fresh_once(d)),
            None => *final(health) == healed(*old(health), 1) && effect is Healed,
        },
{
    match kind {
        PowerUpKind::TripleShot => PowerUpEffect::Grant {
            effect: EffectKind::TripleShot,
            timer: TimedEffect::new(POWERUP_TRIPLE_DURATION),
        },
        PowerUpKind::RapidFire => PowerUpEffect::Grant {
            effect: EffectKind::RapidFire,
            timer: TimedEffect::new(POWERUP_RAPID_DURATION),
        },
        PowerUpKind::PierceShot => PowerUpEffect::Grant {
            effect: EffectKind::PierceShot,
            timer: TimedEffect::new(POWERUP_PIERCE_DURATION),
        },
        PowerUpKind::Shield => {
            health.heal(1);
            PowerUpEffect::Healed
        },
    }
}

/// Each timed power-up grants the effect of its own name for its own
/// length: triple shot for 10 s, rapid fire for 8 s, pierce shot for 12 s;
/// the shield grants no timed effect (it heals instead).
pub proof fn lemma_each_powerup_grants_its_own_effect()
    ensures
        granted_by(PowerUpKind::TripleShot) == Some((EffectKind::TripleShot, 10_000_000_000nat)),
        granted_by(PowerUpKind::RapidFire) == Some((EffectKind::RapidFire, 8_000_000_000nat)),
        granted_by(PowerUpKind::PierceShot) == Some((EffectKind::PierceShot, 12_000_000_000nat)),
        granted_by(PowerUpKind::Shield) is None,
{
}

} // verus!
