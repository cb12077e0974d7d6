//! The player's gun with its power-up slots held on the gun itself, and the
//! player's invincibility status.
use vstd::prelude::*;

use crate::player::{
    spec_cooldown, ShotPlan, BLINK_PERIOD, FIRE_COOLDOWN, PIERCE_SHOT_CHARGES, RAPID_FIRE_COOLDOWN,
};
use crate::timer::{ticked, Timer, TimerMode, TimerModel};

verus! {

/// What an effect slot holds, as a timer model.
pub open spec fn slot_model(slot: Option<Timer>) -> Option<TimerModel> {
    match slot {
        Some(t) => Some(t@),
        None => None,
    }
}

/// An effect slot after `delta` passes, and whether its effect ran out: a
/// timer that finishes is dropped from the slot.
pub open spec fn slot_ticked(slot: Option<TimerModel>, delta: nat) -> (Option<TimerModel>, bool) {
    match slot {
        None => (None, false),
        Some(t) => {
            let u = ticked(t, delta);
            if u.finished {
                (None, true)
            } else {
                (Some(u), false)
            }
        },
    }
}

/// Time left in an effect slot, when the slot holds an effect with time
/// left.
pub open spec fn slot_remaining(slot: Option<TimerModel>) -> Option<u64> {
    match slot {
        Some(t) => if t.elapsed < t.duration {
            Some((t.duration - t.elapsed) as u64)
        } else {
            None
        },
        None => None,
    }
}

/// Lets `delta` pass for an effect slot; an effect that finishes is
/// removed, and the result tells whether that happened.
pub fn tick_effect(timer: &mut Option<Timer>, delta: u64) -> (expired: bool)
    ensures
        (slot_model(*final(timer)), expired) == slot_ticked(slot_model(*old(timer)), delta as nat),
{
    match timer {
        Some(effect) => {
            effect.tick(delta);
            if effect.is_finished() {
                *timer = None;
                true
            } else {
                false
            }
        },
        None => false,
    }
}

fn remaining_in(slot: &Option<Timer>) -> (r: Option<u64>)
    ensures
        r == slot_remaining(slot_model(*slot)),
{
    match slot {
        Some(t) => {
            let left = t.remaining();
            if left > 0 {
                Some(left)
            } else {
                None
            }
        },
        None => None,
    }
}

/// Which power-ups ran out during a tick.
#[derive(Clone, Copy, Debug, PartialEq, Eq, Structural, Default)]
pub struct WeaponExpiry {
    pub triple_shot: bool,
    pub rapid_fire: bool,
    pub pierce_shot: bool,
}

/// How a shot fans out: one bullet straight ahead, or three spread apart.
#[derive(Clone, Copy, Debug, PartialEq, Eq, Structural)]
pub enum FireAngles {
    Single,
    Spread,
}

/// The player's gun: its cooldown and the power-ups it carries.
#[derive(Clone, Copy, Debug)]
pub struct PlayerWeapons {
    pub fire_cooldown: Timer,
    pub triple_shot: Option<Timer>,
    pub rapid_fire: Option<Timer>,
    pub pierce_shot: Option<Timer>,
}

impl PlayerWeapons {
    /// A gun that can fire at once and carries no power-up.
    pub fn new() -> (w: PlayerWeapons)
        ensures
            w.fire_cooldown@.duration == FIRE_COOLDOWN,
            w.fire_cooldown@.elapsed == FIRE_COOLDOWN,
            !w.fire_cooldown@.repeating,
            w.fire_cooldown@.finished,
            w.triple_shot is None,
            w.rapid_fire is None,
            w.pierce_shot is None,
    {
        PlayerWeapons { fire_cooldown: Timer::ready_once(FIRE_COOLDOWN), triple_shot: None, rapid_fire: None, pierce_shot: None }
    }

    /// Lets `delta` pass for the cooldown and for every power-up; those that
    /// run out are removed and reported.
    pub fn tick(&mut self, delta: u64) -> (expired: WeaponExpiry)
        ensures
            final(self).fire_cooldown@ == ticked(old(self).fire_cooldown@, delta as nat),
            (slot_model(final(self).triple_shot), expired.triple_shot) == slot_ticked(
                slot_model(old(self).triple_shot),
                delta as nat,
            ),
            (slot_model(final(self).rapid_fire), expired.rapid_fire) == slot_ticked(
                slot_model(old(self).rapid_fire),
                delta as nat,
            ),
            (slot_model(final(self).pierce_shot), expired.pierce_shot) == slot_ticked(
                slot_model(old(self).pierce_shot),
                delta as nat,
            ),
    {
        self.fire_cooldown.tick(delta);
        let triple_shot = tick_effect(&mut self.triple_shot, delta);
        let rapid_fire = tick_effect(&mut self.rapid_fire, delta);
        let pierce_shot = tick_effect(&mut self.pierce_shot, delta);
        WeaponExpiry { triple_shot, rapid_fire, pierce_shot }
    }

    pub fn ready_to_fire(&self) -> (ready: bool)
        ensures
            ready == self.fire_cooldown@.finished,
    {
        self.fire_cooldown.is_finished()
    }

    /// Three bullets while triple shot is carried, one otherwise.
    pub fn fire_angles(&self) -> (angles: FireAngles)
        ensures
            angles == if self.triple_shot is Some { FireAngles::Spread } else { FireAngles::Single },
    {
        if self.triple_shot.is_some() {
            FireAngles::Spread
        } else {
            FireAngles::Single
        }
    }

    pub fn has_pierce_shot(&self) -> (b: bool)
        ensures
            b == self.pierce_shot is Some,
    {
        self.pierce_shot.is_some()
    }

    /// Starts the cooldown after a shot, shorter while rapid fire is
    /// carried.
    pub fn reset_fire_cooldown(&mut self)
        ensures
            final(self).fire_cooldown@ == (TimerModel {
                elapsed: 0,
                duration: spec_cooldown(old(self).rapid_fire is Some),
                finished: false,
                times_finished_this_tick: 0,
                ..old(self).fire_cooldown@
            }),
            final(self).triple_shot == old(self).triple_shot,
            final(self).rapid_fire == old(self).rapid_fire,
            final(self).pierce_shot == old(self).pierce_shot,
    {
        let cooldown = if self.rapid_fire.is_some() { RAPID_FIRE_COOLDOWN } else { FIRE_COOLDOWN };
        self.fire_cooldown.set_duration(cooldown);
        self.fire_cooldown.reset();
    }

    /// Carries triple shot for `duration`, replacing any it carried.
    pub fn activate_triple_shot(&mut self, duration: u64)
        ensures
            final(self).triple_shot matches Some(t) && t@ == fresh_effect(duration as nat),
            final(self).fire_cooldown == old(self).fire_cooldown,
            final(self).rapid_fire == old(self).rapid_fire,
            final(self).pierce_shot == old(self).pierce_shot,
    {
        self.triple_shot = Some(Timer::new(duration, TimerMode::Once));
    }

    /// Carries rapid fire for `duration`, replacing any it carried.
    pub fn activate_rapid_fire(&mut self, duration: u64)
        ensures
            final(self).rapid_fire matches Some(t) && t@ == fresh_effect(duration as nat),
            final(self).fire_cooldown == old(self).fire_cooldown,
            final(self).triple_shot == old(self).triple_shot,
            final(self).pierce_shot == old(self).pierce_shot,
    {
        self.rapid_fire = Some(Timer::new(duration, TimerMode::Once));
    }

    /// Carries pierce shot for `duration`, replacing any it carried.
    pub fn activate_pierce_shot(&mut self, duration: u64)
        ensures
            final(self).pierce_shot matches Some(t) && t@ == fresh_effect(duration as nat),
            final(self).fire_cooldown == old(self).fire_cooldown,
            final(self).triple_shot == old(self).triple_shot,
            final(self).rapid_fire == old(self).rapid_fire,
    {
        self.pierce_shot = Some(Timer::new(duration, TimerMode::Once));
    }

    /// Time left of triple shot, when carried with time left.
    pub fn remaining_triple_shot(&self) -> (r: Option<u64>)
        ensures
            r == slot_remaining(slot_model(self.triple_shot)),
    {
        remaining_in(&self.triple_shot)
    }

    /// Time left of rapid fire, when carried with time left.
    pub fn remaining_rapid_fire(&self) -> (r: Option<u64>)
        ensures
            r == slot_remaining(slot_model(self.rapid_fire)),
    {
        remaining_in(&self.rapid_fire)
    }

    /// Time left of pierce shot, when carried with time left.
    pub fn remaining_pierce_shot(&self) -> (r: Option<u64>)
        ensures
            r == slot_remaining(slot_model(self.pierce_shot)),
    {
        remaining_in(&self.pierce_shot)
    }
}

impl Default for PlayerWeapons {
    fn default() -> (w: PlayerWeapons)
        ensures
            w.fire_cooldown@.duration == FIRE_COOLDOWN,
            w.fire_cooldown@.finished,
            w.triple_shot is None,
            w.rapid_fire is None,
            w.pierce_shot is None,
    {
        PlayerWeapons::new()
    }
}

/// A fresh `Once` effect timer of the given duration.
pub open spec fn fresh_effect(duration: nat) -> TimerModel {
    TimerModel { elapsed: 0, duration, repeating: false, finished: false, times_finished_this_tick: 0 }
}

/// Decides a shot: nothing unless the trigger is held and the gun is ready;
/// otherwise fire as the carried power-ups say and start the cooldown.
pub fn player_shoot(firing: bool, weapons: &mut PlayerWeapons) -> (plan: Option<ShotPlan>)
    ensures
        !(firing && old(weapons).fire_cooldown@.finished) ==> plan is None && *final(weapons)
            == *old(weapons),
        firing && old(weapons).fire_cooldown@.finished ==> {
            &&& plan == Some(
                ShotPlan {
                    spread: old(weapons).triple_shot is Some,
                    pierce_charges: if old(weapons).pierce_shot is Some {
                        Some(PIERCE_SHOT_CHARGES)
                    } else {
                        None
                    },
                },
            )
            &&& final(weapons).fire_cooldown@ == (TimerModel {
                elapsed: 0,
                duration: spec_cooldown(old(weapons).rapid_fire is Some),
                finished: false,
                times_finished_this_tick: 0,
                ..old(weapons).fire_cooldown@
            })
            &&& final(weapons).triple_shot == old(weapons).triple_shot
            &&& final(weapons).rapid_fire == old(weapons).rapid_fire
            &&& final(weapons).pierce_shot == old(weapons).pierce_shot
        },
{
    if !firing || !weapons.ready_to_fire() {
        return None;
    }
    let spread = weapons.fire_angles() == FireAngles::Spread;
    let pierce_charges = if weapons.has_pierce_shot() { Some(PIERCE_SHOT_CHARGES) } else { None };
    weapons.reset_fire_cooldown();
    Some(ShotPlan { spread, pierce_charges })
}

/// The player's protection after a hit.
#[derive(Clone, Copy, Debug, Default)]
pub struct PlayerStatus {
    pub invincible: Option<Timer>,
}

impl PlayerStatus {
    pub fn is_invincible(&self) -> (b: bool)
        ensures
            b == self.invincible is Some,
    {
        self.invincible.is_some()
    }

    /// Makes the player invincible for `duration`, replacing any running
    /// invincibility.
    pub fn grant_invincibility(&mut self, duration: u64)
        ensures
            final(self).invincible matches Some(t) && t@ == fresh_effect(duration as nat),
    {
        self.invincible = Some(Timer::new(duration, TimerMode::Once));
    }

    /// Time left of invincibility, when there is some.
    pub fn remaining_invincibility(&self) -> (r: Option<u64>)
        ensures
            r == slot_remaining(slot_model(self.invincible)),
    {
        remaining_in(&self.invincible)
    }

    /// Lets `delta` pass for the invincibility and tells whether the player
    /// is drawn solid: always when not invincible or when the invincibility
    /// just ran out (it is then removed), otherwise in the visible phase of
    /// the blink.
    pub fn tick_invincibility(&mut self, delta: u64) -> (visible: bool)
        ensures
            ({
                let removed = old(self).invincible is Some && final(self).invincible is None;
                (slot_model(final(self).invincible), removed)
            }) == slot_ticked(slot_model(old(self).invincible), delta as nat),
            visible == match slot_model(final(self).invincible) {
                Some(t) => (t.elapsed / (BLINK_PERIOD as nat)) % 2 == 0,
                None => true,
            },
    {
        tick_effect(&mut self.invincible, delta);
        match &self.invincible {
            Some(t) => (t.elapsed() / BLINK_PERIOD) % 2 == 0,
            None => true,
        }
    }
}

/// Right after a tick, every power-up slot that still holds an effect has
/// time left, so its remaining time is reported exactly when it is carried.
pub proof fn lemma_ticked_slot_has_time_left(slot: Option<TimerModel>, delta: nat)
    ensures
        slot_remaining(slot_ticked(slot, delta).0) is Some <==> slot_ticked(slot, delta).0 is Some,
{
}

/// A power-up activated for `duration` is gone once that much time has
/// passed, whether in one tick or in two.
pub proof fn lemma_activated_effect_expires(duration: nat, a: nat, b: nat)
    requires
        duration <= u64::MAX,
        a + b >= duration,
        a + b <= u64::MAX,
    ensures
        slot_ticked(Some(fresh_effect(duration)), a).0 is None || slot_ticked(
            slot_ticked(Some(fresh_effect(duration)), a).0,
            b,
        ).0 is None,
{
}

} // verus!
