//! The player's gun, the timed power-up effects carried as separate
//! components, and the decisions made when the player shoots or is hit.
use vstd::prelude::*;

use crate::timer::{ticked, Timer, TimerMode, TimerModel};

verus! {

/// Time between shots.
pub const FIRE_COOLDOWN: u64 = 200_000_000;

/// Time between shots while rapid fire is active (forty percent shorter).
pub const RAPID_FIRE_COOLDOWN: u64 = 120_000_000;

/// Hit points the player starts with.
pub const PLAYER_MAX_HP: u32 = 3;

/// How long the player cannot be hurt after surviving a hit.
pub const INVINCIBILITY_DURATION: u64 = 1_500_000_000;

/// Asteroids a piercing bullet passes through before it is spent.
pub const PIERCE_SHOT_CHARGES: u32 = 2;

/// How long a bullet lives.
pub const BULLET_LIFETIME: u64 = 3_000_000_000;

/// Invisible and visible phases of the invincibility blink alternate this
/// often.
pub const BLINK_PERIOD: u64 = 100_000_000;

/// The cooldown between shots, shorter under rapid fire.
pub open spec fn spec_cooldown(rapid_fire_active: bool) -> nat {
    if rapid_fire_active { RAPID_FIRE_COOLDOWN as nat } else { FIRE_COOLDOWN as nat }
}

/// A fresh `Once` timer model of the given duration.
pub open spec fn fresh_once(duration: nat) -> TimerModel {
    TimerModel {
        elapsed: 0,
        duration,
        repeating: false,
        finished: false,
        times_finished_this_tick: 0,
    }
}

/// The player's gun: it can fire when its cooldown has run out.
#[derive(Clone, Copy, Debug)]
pub struct PlayerWeapons {
    pub fire_cooldown: Timer,
}

impl PlayerWeapons {
    /// A gun that can fire at once.
    pub fn new() -> (w: PlayerWeapons)
        ensures
            w.fire_cooldown@.duration == FIRE_COOLDOWN,
            w.fire_cooldown@.elapsed == FIRE_COOLDOWN,
            !w.fire_cooldown@.repeating,
            w.fire_cooldown@.finished,
    {
        PlayerWeapons { fire_cooldown: Timer::ready_once(FIRE_COOLDOWN) }
    }

    /// Lets `delta` nanoseconds of cooldown pass.
    pub fn tick_cooldown(&mut self, delta: u64)
        ensures
            final(self).fire_cooldown@ == ticked(old(self).fire_cooldown@, delta as nat),
    {
        self.fire_cooldown.tick(delta);
    }

    pub fn ready_to_fire(&self) -> (ready: bool)
        ensures
            ready == self.fire_cooldown@.finished,
    {
        self.fire_cooldown.is_finished()
    }

    /// Starts the cooldown after a shot; rapid fire shortens it.
    pub fn reset_fire_cooldown(&mut self, rapid_fire_active: bool)
        ensures
            final(self).fire_cooldown@ == (TimerModel {
                elapsed: 0,
                duration: spec_cooldown(rapid_fire_active),
                finished: false,
                times_finished_this_tick: 0,
                ..old(self).fire_cooldown@
            }),
    {
        let cooldown = if rapid_fire_active { RAPID_FIRE_COOLDOWN } else { FIRE_COOLDOWN };
        self.fire_cooldown.set_duration(cooldown);
        self.fire_cooldown.reset();
    }
}

/// Rapid fire shortens the wait between shots.
pub proof fn lemma_rapid_fire_shortens_cooldown()
    ensures
        spec_cooldown(true) < spec_cooldown(false),
{
}

/// After a shot the gun is not ready; once the cooldown's full duration has
/// passed, it is ready again.
pub proof fn lemma_cooldown_elapses(t: TimerModel, delta: nat)
    requires
        !t.repeating,
        !t.finished,
        t.elapsed == 0,
        t.duration <= u64::MAX,
        delta >= t.duration,
    ensures
        ticked(t, delta).finished,
{
}

/// The power-ups that run for a while and then wear off.
#[derive(Clone, Copy, Debug, PartialEq, Eq, Structural)]
pub enum EffectKind {
    TripleShot,
    RapidFire,
    PierceShot,
    Invincible,
}

/// A power-up effect that runs for a fixed time.
#[derive(Clone, Copy, Debug)]
pub struct TimedEffect(pub Timer);

impl TimedEffect {
    /// An effect lasting `duration` nanoseconds from now.
    pub fn new(duration: u64) -> (e: TimedEffect)
        ensures
            e.0@ == fresh_once(duration as nat),
    {
        TimedEffect(Timer::new(duration, TimerMode::Once))
    }

    /// Time until the effect wears off, in nanoseconds.
    pub fn remaining_secs(&self) -> (r: u64)
        ensures
            r == if self.0@.elapsed >= self.0@.duration { 0 } else { self.0@.duration
                - self.0@.elapsed },
    {
        self.0.remaining()
    }

    /// Time the effect has run, in nanoseconds.
    pub fn elapsed_secs(&self) -> (e: u64)
        ensures
            e == self.0@.elapsed,
    {
        self.0.elapsed()
    }

    pub fn tick(&mut self, delta: u64)
        ensures
            final(self).0@ == ticked(old(self).0@, delta as nat),
    {
        self.0.tick(delta);
    }

    pub fn is_finished(&self) -> (b: bool)
        ensures
            b == self.0@.finished,
    {
        self.0.is_finished()
    }
}

/// Lets `delta` pass for an effect the player may carry; an effect that
/// runs out is dropped, and the result tells whether that happened.
pub fn tick_effect(effect: &mut Option<TimedEffect>, delta: u64) -> (expired: bool)
    ensures
        *old(effect) is None ==> *final(effect) is None && !expired,
        *old(effect) is Some ==> {
            let t = ticked(old(effect).unwrap().0@, delta as nat);
            &&& expired == t.finished
            &&& t.finished ==> *final(effect) is None
            &&& !t.finished ==> *final(effect) is Some && final(effect).unwrap().0@ == t
        },
{
    match effect {
        Some(e) => {
            e.tick(delta);
            if e.is_finished() {
                *effect = None;
                true
            } else {
                false
            }
        },
        None => false,
    }
}

/// Which carried effects ran out during a tick.
#[derive(Clone, Copy, Debug, PartialEq, Eq, Structural)]
pub struct EffectExpiry {
    pub triple_shot: bool,
    pub rapid_fire: bool,
    pub pierce_shot: bool,
    pub invincible: bool,
}

/// What `tick_effect` leaves of an effect the player may carry, and whether
/// it ran out.
pub open spec fn effect_after_tick(effect: Option<TimedEffect>, delta: nat) -> (Option<TimerModel>, bool) {
    match effect {
        None => (None, false),
        Some(e) => {
            let t = ticked(e.0@, delta);
            if t.finished {
                (None, true)
            } else {
                (Some(t), false)
            }
        },
    }
}

pub open spec fn effect_model(effect: Option<TimedEffect>) -> Option<TimerModel> {
    match effect {
        Some(e) => Some(e.0@),
        None => None,
    }
}

/// Lets `delta` pass for every effect the player carries; each one that
/// runs out is dropped and reported.
pub fn tick_temporary_effects(
    triple_shot: &mut Option<TimedEffect>,
    rapid_fire: &mut Option<TimedEffect>,
    pierce_shot: &mut Option<TimedEffect>,
    invincible: &mut Option<TimedEffect>,
    delta: u64,
) -> (expired: EffectExpiry)
    ensures
        (effect_model(*final(triple_shot)), expired.triple_shot) == effect_after_tick(
            *old(triple_shot),
            delta as nat,
        ),
        (effect_model(*final(rapid_fire)), expired.rapid_fire) == effect_after_tick(
            *old(rapid_fire),
            delta as nat,
        ),
        (effect_model(*final(pierce_shot)), expired.pierce_shot) == effect_after_tick(
            *old(pierce_shot),
            delta as nat,
        ),
        (effect_model(*final(invincible)), expired.invincible) == effect_after_tick(
            *old(invincible),
            delta as nat,
        ),
{
    let triple = tick_effect(triple_shot, delta);
    let rapid = tick_effect(rapid_fire, delta);
    let pierce = tick_effect(pierce_shot, delta);
    let inv = tick_effect(invincible, delta);
    EffectExpiry { triple_shot: triple, rapid_fire: rapid, pierce_shot: pierce, invincible: inv }
}

/// An effect granted for `duration` has worn off once that much time has
/// passed, in one tick or in two.
pub proof fn lemma_effect_expires_after_duration(duration: nat, a: nat, b: nat)
    requires
        duration <= u64::MAX,
        a + b >= duration,
        a + b <= u64::MAX,
    ensures
        ticked(fresh_once(duration), a).finished || ticked(ticked(fresh_once(duration), a), b).finished,
{
}

/// Time left and time run of an invincibility effect, in nanoseconds.
#[derive(Clone, Copy, Debug, PartialEq, Eq, Structural)]
pub struct InvincibilitySnapshot {
    pub remaining_secs: u64,
    pub elapsed_secs: u64,
}

/// What the player carries this frame: the time left of each effect and the
/// state of invincibility.
#[derive(Clone, Copy, Debug, PartialEq, Eq, Structural)]
pub struct PlayerEffectSnapshot {
    pub triple_shot: Option<u64>,
    pub rapid_fire: Option<u64>,
    pub pierce_shot: Option<u64>,
    pub invincible: Option<InvincibilitySnapshot>,
}

/// Time left of an effect the player may carry.
pub open spec fn remaining_of(effect: Option<TimedEffect>) -> Option<u64> {
    match effect {
        Some(e) => Some(
            (if e.0@.elapsed >= e.0@.duration { 0 } else { e.0@.duration - e.0@.elapsed }) as u64,
        ),
        None => None,
    }
}

/// The player blinks while invincible: visible in even tenths of a second,
/// translucent in odd ones.
pub open spec fn blink_visible(elapsed: nat) -> bool {
    (elapsed / (BLINK_PERIOD as nat)) % 2 == 0
}

fn remaining_of_effect(effect: Option<&TimedEffect>) -> (r: Option<u64>)
    ensures
        r == remaining_of(match effect {
            Some(e) => Some(*e),
            None => None,
        }),
{
    match effect {
        Some(e) => Some(e.remaining_secs()),
        None => None,
    }
}

impl PlayerEffectSnapshot {
    /// Reads the effects the player carries.
    pub fn from_components(
        triple_shot: Option<&TimedEffect>,
        rapid_fire: Option<&TimedEffect>,
        pierce_shot: Option<&TimedEffect>,
        invincible: Option<&TimedEffect>,
    ) -> (s: PlayerEffectSnapshot)
        ensures
            s.triple_shot == remaining_of(match triple_shot {
                Some(e) => Some(*e),
                None => None,
            }),
            s.rapid_fire == remaining_of(match rapid_fire {
                Some(e) => Some(*e),
                None => None,
            }),
            s.pierce_shot == remaining_of(match pierce_shot {
                Some(e) => Some(*e),
                None => None,
            }),
            invincible is None ==> s.invincible is None,
            invincible is Some ==> s.invincible == Some(
                InvincibilitySnapshot {
                    remaining_secs: remaining_of(Some(*invincible.unwrap())).unwrap(),
                    elapsed_secs: invincible.unwrap().0@.elapsed as u64,
                },
            ),
    {
        let inv = match invincible {
            Some(e) => Some(
                InvincibilitySnapshot { remaining_secs: e.remaining_secs(), elapsed_secs: e.elapsed_secs() },
            ),
            None => None,
        };
        PlayerEffectSnapshot {
            triple_shot: remaining_of_effect(triple_shot),
            rapid_fire: remaining_of_effect(rapid_fire),
            pierce_shot: remaining_of_effect(pierce_shot),
            invincible: inv,
        }
    }

    pub fn has_triple_shot(&self) -> (b: bool)
        ensures
            b == self.triple_shot is Some,
    {
        self.triple_shot.is_some()
    }

    pub fn has_rapid_fire(&self) -> (b: bool)
        ensures
            b == self.rapid_fire is Some,
    {
        self.rapid_fire.is_some()
    }

    pub fn has_pierce_shot(&self) -> (b: bool)
        ensures
            b == self.pierce_shot is Some,
    {
        self.pierce_shot.is_some()
    }

    pub fn is_invincible(&self) -> (b: bool)
        ensures
            b == self.invincible is Some,
    {
        self.invincible.is_some()
    }

    /// Whether the player is drawn solid this frame: always when not
    /// invincible, otherwise in the visible phase of the blink.
    pub fn invincible_visible(&self) -> (b: bool)
        ensures
            b == match self.invincible {
                Some(i) => blink_visible(i.elapsed_secs as nat),
                None => true,
            },
    {
        match self.invincible {
            Some(i) => (i.elapsed_secs / BLINK_PERIOD) % 2 == 0,
            None => true,
        }
    }
}

/// What one trigger pull fires.
#[derive(Clone, Copy, Debug, PartialEq, Eq, Structural)]
pub struct ShotPlan {
    /// Three bullets fanned out instead of one straight ahead.
    pub spread: bool,
    /// Asteroids each bullet passes through, when piercing.
    pub pierce_charges: Option<u32>,
}

/// Decides a shot: nothing unless the trigger is held and the gun is ready;
/// otherwise fire (three bullets under triple shot, piercing bullets under
/// pierce shot) and start the cooldown, shortened under rapid fire.
pub fn plan_shot(
    firing: bool,
    weapons: &mut PlayerWeapons,
    triple_shot_active: bool,
    rapid_fire_active: bool,
    pierce_shot_active: bool,
) -> (plan: Option<ShotPlan>)
    ensures
        !(firing && old(weapons).fire_cooldown@.finished) ==> plan is None && *final(weapons)
            == *old(weapons),
        firing && old(weapons).fire_cooldown@.finished ==> {
            &&& plan == Some(
                ShotPlan {
                    spread: triple_shot_active,
                    pierce_charges: if pierce_shot_active { Some(PIERCE_SHOT_CHARGES) } else { None },
                },
            )
            &&& final(weapons).fire_cooldown@ == (TimerModel {
                elapsed: 0,
                duration: spec_cooldown(rapid_fire_active),
                finished: false,
                times_finished_this_tick: 0,
                ..old(weapons).fire_cooldown@
            })
        },
{
    if !firing || !weapons.ready_to_fire() {
        return None;
    }
    let pierce_charges = if pierce_shot_active { Some(PIERCE_SHOT_CHARGES) } else { None };
    weapons.reset_fire_cooldown(rapid_fire_active);
    Some(ShotPlan { spread: triple_shot_active, pierce_charges })
}

/// A player who survives a hit becomes invincible for a while; a defeated
/// player gets nothing.
pub fn invincibility_after_damage(defeated: bool) -> (granted: Option<TimedEffect>)
    ensures
        defeated ==> granted is None,
        !defeated ==> granted is Some && granted.unwrap().0@ == fresh_once(
            INVINCIBILITY_DURATION as nat,
        ),
{
    if defeated {
        None
    } else {
        Some(TimedEffect::new(INVINCIBILITY_DURATION))
    }
}

} // verus!
