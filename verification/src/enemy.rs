//! Asteroid kinds, how waves grow harder with time, and the timers that pace
//! spawning, enemy fire and hit flashes.
use vstd::prelude::*;

use crate::random::random_u32_below;
use crate::timer::{ticked, Timer, TimerMode, TimerModel, NANOS_PER_MILLI, NANOS_PER_SECOND};

verus! {

/// Time between spawns at level zero.
pub const SPAWN_INTERVAL: u64 = 1_000_000_000;

/// How much faster spawns come per level.
pub const SPAWN_INTERVAL_STEP: u64 = 150_000_000;

/// Spawns never come faster than this.
pub const MIN_SPAWN_INTERVAL: u64 = 300_000_000;

/// Time between an enemy's shots at level zero.
pub const ENEMY_FIRE_INTERVAL: u64 = 2_000_000_000;

/// How much faster enemies shoot per level.
pub const ENEMY_FIRE_INTERVAL_STEP: u64 = 200_000_000;

/// Enemies never shoot faster than this.
pub const MIN_ENEMY_FIRE_INTERVAL: u64 = 500_000_000;

/// Time spent at each difficulty level.
pub const DIFFICULTY_INTERVAL: u64 = 15_000_000_000;

/// How long an asteroid flashes white after a hit.
pub const HIT_FLASH_DURATION: u64 = 60_000_000;

/// Most asteroids spawned in one frame.
pub const MAX_SPAWNS_PER_TICK: u32 = 3;

/// Most shots one asteroid fires in one frame.
pub const MAX_SHOTS_PER_TICK: u32 = 2;

/// The kinds of asteroid.
#[derive(Clone, Copy, Debug, PartialEq, Eq, Structural)]
pub enum EnemyType {
    Normal,
    Zigzag,
    Chaser,
}

pub open spec fn spec_initial_hp(t: EnemyType) -> u32 {
    match t {
        EnemyType::Normal => 1,
        EnemyType::Zigzag => 2,
        EnemyType::Chaser => 3,
    }
}

pub open spec fn spec_score(t: EnemyType) -> u32 {
    match t {
        EnemyType::Normal => 10,
        EnemyType::Zigzag => 20,
        EnemyType::Chaser => 30,
    }
}

/// Below level two only plain asteroids come; from then on the kinds come
/// in the proportion five to three to two.
pub open spec fn spec_spawn_weight(t: EnemyType, level: u32) -> u32 {
    if level < 2 {
        if t == EnemyType::Normal { 1 } else { 0 }
    } else {
        match t {
            EnemyType::Normal => 5,
            EnemyType::Zigzag => 3,
            EnemyType::Chaser => 2,
        }
    }
}

pub open spec fn total_spawn_weight(level: u32) -> nat {
    (spec_spawn_weight(EnemyType::Normal, level) + spec_spawn_weight(EnemyType::Zigzag, level)
        + spec_spawn_weight(EnemyType::Chaser, level)) as nat
}

/// The kind that a draw `roll` in `0..total_spawn_weight(level)` picks: the
/// weights are laid out one after the other, plain, zigzag, chaser. A draw
/// past them all picks a plain asteroid.
pub open spec fn kind_for_roll(level: u32, roll: u32) -> EnemyType {
    let n = spec_spawn_weight(EnemyType::Normal, level);
    let z = spec_spawn_weight(EnemyType::Zigzag, level);
    let c = spec_spawn_weight(EnemyType::Chaser, level);
    if roll < n {
        EnemyType::Normal
    } else if roll < n + z {
        EnemyType::Zigzag
    } else if roll < n + z + c {
        EnemyType::Chaser
    } else {
        EnemyType::Normal
    }
}

impl EnemyType {
    /// Hit points an asteroid of this kind spawns with.
    pub fn initial_hp(self) -> (hp: u32)
        ensures
            hp == spec_initial_hp(self),
    {
        match self {
            EnemyType::Normal => 1,
            EnemyType::Zigzag => 2,
            EnemyType::Chaser => 3,
        }
    }

    /// Points for destroying an asteroid of this kind.
    pub fn score(self) -> (points: u32)
        ensures
            points == spec_score(self),
    {
        match self {
            EnemyType::Normal => 10,
            EnemyType::Zigzag => 20,
            EnemyType::Chaser => 30,
        }
    }

    /// Relative chance that a spawn at `level` is of this kind.
    pub fn spawn_weight(self, level: u32) -> (w: u32)
        ensures
            w == spec_spawn_weight(self, level),
    {
        if level < 2 {
            return if self == EnemyType::Normal { 1 } else { 0 };
        }
        match self {
            EnemyType::Normal => 5,
            EnemyType::Zigzag => 3,
            EnemyType::Chaser => 2,
        }
    }
}

/// Picks the kind that the draw `roll` lands on, walking the weights in
/// order.
pub fn enemy_type_for_roll(level: u32, roll: u32) -> (t: EnemyType)
    ensures
        t == kind_for_roll(level, roll),
{
    let kinds = [EnemyType::Normal, EnemyType::Zigzag, EnemyType::Chaser];
    let mut rest = roll;
    let mut i: usize = 0;
    while i < 3
        invariant
            0 <= i <= 3,
            kinds@ == seq![EnemyType::Normal, EnemyType::Zigzag, EnemyType::Chaser],
            i == 0 ==> rest == roll,
            i == 1 ==> rest + spec_spawn_weight(EnemyType::Normal, level) == roll
                && roll >= spec_spawn_weight(EnemyType::Normal, level),
            i == 2 ==> rest + spec_spawn_weight(EnemyType::Normal, level) + spec_spawn_weight(
                EnemyType::Zigzag,
                level,
            ) == roll && roll >= spec_spawn_weight(EnemyType::Normal, level) + spec_spawn_weight(
                EnemyType::Zigzag,
                level,
            ),
            i == 3 ==> roll >= total_spawn_weight(level),
        decreases 3 - i,
    {
        let kind = kinds[i];
        let weight = kind.spawn_weight(level);
        if rest < weight {
            return kind;
        }
        rest = rest - weight;
        i = i + 1;
    }
    EnemyType::Normal
}

/// Draws the kind of the next asteroid for `level`.
pub fn random_enemy_type(level: u32) -> (t: EnemyType)
    ensures
        level < 2 ==> t == EnemyType::Normal,
        exists|roll: u32| roll < total_spawn_weight(level) && t == kind_for_roll(level, roll),
{
    let total = EnemyType::Normal.spawn_weight(level) + EnemyType::Zigzag.spawn_weight(level)
        + EnemyType::Chaser.spawn_weight(level);
    let roll = random_u32_below(total);
    enemy_type_for_roll(level, roll)
}

/// Every kind comes with the chance its weight gives: a draw below the total
/// picks a kind whose weight is positive, and each kind owns exactly as many
/// draws as its weight.
pub proof fn lemma_roll_picks_weighted_kind(level: u32, roll: u32)
    requires
        roll < total_spawn_weight(level),
    ensures
        spec_spawn_weight(kind_for_roll(level, roll), level) > 0,
        level < 2 ==> kind_for_roll(level, roll) == EnemyType::Normal,
        level >= 2 ==> (kind_for_roll(level, roll) == EnemyType::Normal <==> roll < 5),
        level >= 2 ==> (kind_for_roll(level, roll) == EnemyType::Zigzag <==> 5 <= roll < 8),
        level >= 2 ==> (kind_for_roll(level, roll) == EnemyType::Chaser <==> 8 <= roll < 10),
{
}

/// Time between spawns at `level`: one second, 150 ms less per level, never
/// under 300 ms.
pub open spec fn spec_spawn_interval(level: u32) -> nat {
    if SPAWN_INTERVAL >= SPAWN_INTERVAL_STEP * level + MIN_SPAWN_INTERVAL {
        (SPAWN_INTERVAL - SPAWN_INTERVAL_STEP * level) as nat
    } else {
        MIN_SPAWN_INTERVAL as nat
    }
}

/// Time between an asteroid's shots at `level`: two seconds, 200 ms less per
/// level, never under 500 ms.
pub open spec fn spec_fire_interval(level: u32) -> nat {
    if ENEMY_FIRE_INTERVAL >= ENEMY_FIRE_INTERVAL_STEP * level + MIN_ENEMY_FIRE_INTERVAL {
        (ENEMY_FIRE_INTERVAL - ENEMY_FIRE_INTERVAL_STEP * level) as nat
    } else {
        MIN_ENEMY_FIRE_INTERVAL as nat
    }
}

/// Asteroid speed at `level`, in thousandths of the base speed: ten percent
/// more per level, at most double.
pub open spec fn spec_speed_permille(level: u32) -> nat {
    if 1000 + 100 * level <= 2000 {
        (1000 + 100 * level) as nat
    } else {
        2000
    }
}

pub fn spawn_interval_for_level(level: u32) -> (interval: u64)
    ensures
        interval == spec_spawn_interval(level),
{
    if level >= 5 {
        MIN_SPAWN_INTERVAL
    } else {
        SPAWN_INTERVAL - SPAWN_INTERVAL_STEP * (level as u64)
    }
}

pub fn enemy_fire_interval_for_level(level: u32) -> (interval: u64)
    ensures
        interval == spec_fire_interval(level),
{
    if level >= 8 {
        MIN_ENEMY_FIRE_INTERVAL
    } else {
        ENEMY_FIRE_INTERVAL - ENEMY_FIRE_INTERVAL_STEP * (level as u64)
    }
}

pub fn speed_multiplier_permille_for_level(level: u32) -> (permille: u32)
    ensures
        permille == spec_speed_permille(level),
{
    if level >= 10 {
        2000
    } else {
        1000 + 100 * level
    }
}

/// Waves only grow harder: a higher level never spawns or shoots more slowly
/// nor moves more slowly, and every value stays between its floor and its
/// starting value.
pub proof fn lemma_difficulty_curves_are_monotone(a: u32, b: u32)
    requires
        a <= b,
    ensures
        spec_spawn_interval(b) <= spec_spawn_interval(a),
        spec_fire_interval(b) <= spec_fire_interval(a),
        spec_speed_permille(a) <= spec_speed_permille(b),
        MIN_SPAWN_INTERVAL <= spec_spawn_interval(b) <= SPAWN_INTERVAL,
        MIN_ENEMY_FIRE_INTERVAL <= spec_fire_interval(b) <= ENEMY_FIRE_INTERVAL,
        1000 <= spec_speed_permille(b) <= 2000,
{
}

/// How long the current game has run and the level reached.
#[derive(Clone, Copy, Debug, PartialEq, Eq, Structural)]
pub struct Difficulty {
    pub level: u32,
    pub elapsed_time: u64,
}

/// The level that `elapsed` nanoseconds of play reach.
pub open spec fn level_for_elapsed(elapsed: nat) -> nat {
    elapsed / (DIFFICULTY_INTERVAL as nat)
}

impl Difficulty {
    /// A fresh game: level zero, no time played.
    pub fn new() -> (d: Difficulty)
        ensures
            d.level == 0,
            d.elapsed_time == 0,
    {
        Difficulty { level: 0, elapsed_time: 0 }
    }

    /// Adds `delta` nanoseconds of play and raises the level when a new
    /// fifteen-second band is reached. The level never goes down.
    pub fn update(&mut self, delta: u64)
        ensures
            final(self).elapsed_time == (if old(self).elapsed_time + delta > u64::MAX {
                u64::MAX as nat
            } else {
                (old(self).elapsed_time + delta) as nat
            }),
            final(self).level == (if level_for_elapsed(final(self).elapsed_time as nat)
                > old(self).level {
                level_for_elapsed(final(self).elapsed_time as nat)
            } else {
                old(self).level as nat
            }),
    {
        self.elapsed_time = self.elapsed_time.saturating_add(delta);
        let next = self.elapsed_time / DIFFICULTY_INTERVAL;
        assert(next <= u32::MAX);
        let next_level = next as u32;
        if next_level > self.level {
            self.level = next_level;
        }
    }
}

/// The level never decreases, and a game whose level only ever came from
/// play time sits exactly at the band its play time reached.
pub proof fn lemma_difficulty_level_tracks_time(d: Difficulty, delta: u64)
    requires
        d.level == level_for_elapsed(d.elapsed_time as nat),
        d.elapsed_time + delta <= u64::MAX,
    ensures
        level_for_elapsed(d.elapsed_time as nat) <= level_for_elapsed((d.elapsed_time + delta) as nat),
{
    vstd::arithmetic::div_mod::lemma_div_is_ordered(
        d.elapsed_time as int,
        (d.elapsed_time + delta) as int,
        DIFFICULTY_INTERVAL as int,
    );
}

/// Paces asteroid spawns.
#[derive(Clone, Copy, Debug)]
pub struct SpawnState {
    pub timer: Timer,
    pub current_interval: u64,
}

/// Spawn timers are rescaled against a duration of at least this, so that a
/// zero duration never divides.
pub const MIN_RETIME_DURATION: u64 = 100_000;

/// The elapsed time that keeps the same fraction of a new interval as
/// `elapsed` was of the old `duration` (the fraction capped at one and
/// rounded down).
pub open spec fn rescaled_elapsed(elapsed: nat, duration: nat, new_interval: nat) -> nat {
    let old = if duration > MIN_RETIME_DURATION { duration } else { MIN_RETIME_DURATION as nat };
    let e = if elapsed <= old { elapsed } else { old };
    (e * new_interval) / old
}

impl SpawnState {
    /// A spawn every second, the timer just started.
    pub fn new() -> (s: SpawnState)
        ensures
            s.current_interval == SPAWN_INTERVAL,
            s.timer@.duration == SPAWN_INTERVAL,
            s.timer@.elapsed == 0,
            s.timer@.repeating,
            !s.timer@.finished,
            s.timer@.times_finished_this_tick == 0,
    {
        SpawnState { timer: Timer::new(SPAWN_INTERVAL, TimerMode::Repeating), current_interval: SPAWN_INTERVAL }
    }

    /// Advances the spawn timer by `delta` and returns how many asteroids to
    /// spawn now: one per completed interval, at most three.
    pub fn spawn_count_for_tick(&mut self, delta: u64) -> (count: u32)
        ensures
            final(self).timer@ == ticked(old(self).timer@, delta as nat),
            final(self).current_interval == old(self).current_interval,
            count == (if final(self).timer@.times_finished_this_tick < MAX_SPAWNS_PER_TICK {
                final(self).timer@.times_finished_this_tick
            } else {
                MAX_SPAWNS_PER_TICK as nat
            }),
    {
        self.timer.tick(delta);
        let times = self.timer.times_finished_this_tick();
        if times < MAX_SPAWNS_PER_TICK {
            times
        } else {
            MAX_SPAWNS_PER_TICK
        }
    }
}

/// Switches the spawn timer to `new_interval` while keeping how far through
/// the current interval it was.
pub fn retime_spawn_state(spawn: &mut SpawnState, new_interval: u64)
    ensures
        final(spawn).current_interval == new_interval,
        final(spawn).timer@.duration == new_interval,
        final(spawn).timer@.elapsed == rescaled_elapsed(
            old(spawn).timer@.elapsed,
            old(spawn).timer@.duration,
            new_interval as nat,
        ),
        final(spawn).timer@.repeating == old(spawn).timer@.repeating,
        final(spawn).timer@.finished == old(spawn).timer@.finished,
        final(spawn).timer@.times_finished_this_tick == old(spawn).timer@.times_finished_this_tick,
{
    let duration = spawn.timer.duration();
    let old_duration = if duration > MIN_RETIME_DURATION { duration } else { MIN_RETIME_DURATION };
    let elapsed = spawn.timer.elapsed();
    let e = if elapsed <= old_duration { elapsed } else { old_duration };
    proof {
        vstd::arithmetic::mul::lemma_mul_upper_bound(
            e as int,
            u64::MAX as int,
            new_interval as int,
            u64::MAX as int,
        );
    }
    let product: u128 = (e as u128) * (new_interval as u128);
    let scaled = product / (old_duration as u128);
    proof {
        vstd::arithmetic::mul::lemma_mul_inequality(e as int, old_duration as int, new_interval as int);
        vstd::arithmetic::div_mod::lemma_div_is_ordered(
            product as int,
            (old_duration as int) * (new_interval as int),
            old_duration as int,
        );
        vstd::arithmetic::div_mod::lemma_div_by_multiple(new_interval as int, old_duration as int);
        vstd::arithmetic::mul::lemma_mul_is_commutative(old_duration as int, new_interval as int);
    }
    spawn.current_interval = new_interval;
    spawn.timer.set_duration(new_interval);
    spawn.timer.set_elapsed(scaled as u64);
}

/// Rescaling keeps the fraction of the interval already waited: the new
/// elapsed time, over the new interval, is the old fraction rounded down to
/// the new resolution, and never passes the new interval.
pub proof fn lemma_rescale_keeps_progress(elapsed: nat, duration: nat, new_interval: nat)
    requires
        duration >= MIN_RETIME_DURATION,
        elapsed <= duration,
    ensures
        rescaled_elapsed(elapsed, duration, new_interval) <= new_interval,
        rescaled_elapsed(elapsed, duration, new_interval) * duration <= elapsed * new_interval,
        elapsed * new_interval < (rescaled_elapsed(elapsed, duration, new_interval) + 1) * duration,
{
    let p = elapsed * new_interval;
    vstd::arithmetic::div_mod::lemma_fundamental_div_mod(p as int, duration as int);
    vstd::arithmetic::mul::lemma_mul_inequality(elapsed as int, duration as int, new_interval as int);
    vstd::arithmetic::div_mod::lemma_div_is_ordered(p as int, (duration * new_interval) as int, duration as int);
    vstd::arithmetic::mul::lemma_mul_is_commutative(duration as int, new_interval as int);
    vstd::arithmetic::div_mod::lemma_div_by_multiple(new_interval as int, duration as int);
    vstd::arithmetic::mul::lemma_mul_is_commutative((p / duration) as int, duration as int);
    vstd::arithmetic::mul::lemma_mul_is_distributive_add_other_way(duration as int, (p / duration) as int, 1);
}

/// Brings the spawn timer in line with the level's interval when the level
/// changed it.
pub fn sync_spawn_interval(spawn: &mut SpawnState, difficulty: &Difficulty)
    ensures
        final(spawn).current_interval == spec_spawn_interval(difficulty.level),
        old(spawn).current_interval == spec_spawn_interval(difficulty.level) ==> *final(spawn)
            == *old(spawn),
        final(spawn).timer@ == synced_timer(old(spawn).current_interval, old(spawn).timer@, difficulty.level),
{
    let new_interval = spawn_interval_for_level(difficulty.level);
    if new_interval == spawn.current_interval {
        return;
    }
    retime_spawn_state(spawn, new_interval);
}

impl Default for SpawnState {
    fn default() -> (s: SpawnState)
        ensures
            s.current_interval == SPAWN_INTERVAL,
            s.timer@.duration == SPAWN_INTERVAL,
            s.timer@.elapsed == 0,
            s.timer@.repeating,
            !s.timer@.finished,
            s.timer@.times_finished_this_tick == 0,
    {
        SpawnState::new()
    }
}

impl Default for Difficulty {
    fn default() -> (d: Difficulty)
        ensures
            d.level == 0,
            d.elapsed_time == 0,
    {
        Difficulty::new()
    }
}

/// Starts the pacing of a new game: spawns once a second from scratch and
/// the difficulty back at level zero.
pub fn reset_enemy_progress(spawn: &mut SpawnState, difficulty: &mut Difficulty)
    ensures
        final(spawn).current_interval == SPAWN_INTERVAL,
        final(spawn).timer@ == (TimerModel {
            elapsed: 0,
            duration: SPAWN_INTERVAL as nat,
            repeating: true,
            finished: false,
            times_finished_this_tick: 0,
        }),
        final(difficulty).level == 0,
        final(difficulty).elapsed_time == 0,
{
    *spawn = SpawnState::default();
    *difficulty = Difficulty::default();
}

/// The spawn timer's model once the interval matches `level`: unchanged
/// when it already did, otherwise switched to the level's interval with the
/// same progress.
pub open spec fn synced_timer(spawn_interval: u64, timer: TimerModel, level: u32) -> TimerModel {
    if spawn_interval == spec_spawn_interval(level) {
        timer
    } else {
        TimerModel {
            duration: spec_spawn_interval(level),
            elapsed: rescaled_elapsed(timer.elapsed, timer.duration, spec_spawn_interval(level)),
            ..timer
        }
    }
}

/// A kind that a draw for `level` can give.
pub open spec fn drawable(level: u32, t: EnemyType) -> bool {
    &&& level < 2 ==> t == EnemyType::Normal
    &&& exists|roll: u32| roll < total_spawn_weight(level) && t == kind_for_roll(level, roll)
}

/// One frame of spawning: the interval is brought in line with the level,
/// `delta` passes, and a kind is drawn for every asteroid due, at most
/// three.
pub fn enemy_spawner(spawn: &mut SpawnState, difficulty: &Difficulty, delta: u64) -> (kinds: Vec<EnemyType>)
    ensures
        final(spawn).current_interval == spec_spawn_interval(difficulty.level),
        final(spawn).timer@ == ticked(
            synced_timer(old(spawn).current_interval, old(spawn).timer@, difficulty.level),
            delta as nat,
        ),
        kinds@.len() == (if final(spawn).timer@.times_finished_this_tick < MAX_SPAWNS_PER_TICK {
            final(spawn).timer@.times_finished_this_tick
        } else {
            MAX_SPAWNS_PER_TICK as nat
        }),
        forall|i: int| 0 <= i < kinds@.len() ==> drawable(difficulty.level, #[trigger] kinds@[i]),
{
    sync_spawn_interval(spawn, difficulty);
    let count = spawn.spawn_count_for_tick(delta);
    let mut kinds: Vec<EnemyType> = Vec::new();
    let mut i: u32 = 0;
    while i < count
        invariant
            0 <= i <= count,
            kinds@.len() == i,
            forall|j: int| 0 <= j < kinds@.len() ==> drawable(difficulty.level, #[trigger] kinds@[j]),
        decreases count - i,
    {
        let t = random_enemy_type(difficulty.level);
        kinds.push(t);
        i = i + 1;
    }
    kinds
}

/// When an asteroid next shoots.
#[derive(Clone, Copy, Debug)]
pub struct EnemyFireTimer(pub Timer);

impl EnemyFireTimer {
    /// A repeating timer firing every `interval` nanoseconds.
    pub fn new(interval: u64) -> (t: EnemyFireTimer)
        ensures
            t.0@.duration == interval,
            t.0@.elapsed == 0,
            t.0@.repeating,
            !t.0@.finished,
            t.0@.times_finished_this_tick == 0,
    {
        EnemyFireTimer(Timer::new(interval, TimerMode::Repeating))
    }

    /// Advances the timer by `delta` and returns how many shots to fire now:
    /// one per completed interval, at most two.
    pub fn shots_for_tick(&mut self, delta: u64) -> (shots: u32)
        ensures
            final(self).0@ == ticked(old(self).0@, delta as nat),
            shots == (if final(self).0@.times_finished_this_tick < MAX_SHOTS_PER_TICK {
                final(self).0@.times_finished_this_tick
            } else {
                MAX_SHOTS_PER_TICK as nat
            }),
    {
        self.0.tick(delta);
        let times = self.0.times_finished_this_tick();
        if times < MAX_SHOTS_PER_TICK {
            times
        } else {
            MAX_SHOTS_PER_TICK
        }
    }
}

/// The brief white flash of an asteroid that was hit.
#[derive(Clone, Copy, Debug)]
pub struct EnemyHitFlash(pub Timer);

impl EnemyHitFlash {
    pub fn new() -> (f: EnemyHitFlash)
        ensures
            f.0@.duration == HIT_FLASH_DURATION,
            f.0@.elapsed == 0,
            !f.0@.repeating,
            !f.0@.finished,
            f.0@.times_finished_this_tick == 0,
    {
        EnemyHitFlash(Timer::new(HIT_FLASH_DURATION, TimerMode::Once))
    }
}

/// What an asteroid's sprite shows this frame.
#[derive(Clone, Copy, Debug, PartialEq, Eq, Structural)]
pub enum EnemyTint {
    /// Still flashing: draw it white.
    Flash,
    /// Draw it in the colour of its remaining health; `flash_ended` tells
    /// whether a finished flash is to be removed.
    HealthColor { flash_ended: bool },
    /// Leave the colour as it is.
    Unchanged,
}

/// Decides an asteroid's colour: a running flash shows white; a flash that
/// just ran out, or a change of health, brings back the health colour.
pub fn enemy_tint(health_changed: bool, flash: &mut Option<EnemyHitFlash>, delta: u64) -> (tint:
    EnemyTint)
    ensures
        *old(flash) is None ==> *final(flash) is None && tint == (if health_changed {
            EnemyTint::HealthColor { flash_ended: false }
        } else {
            EnemyTint::Unchanged
        }),
        *old(flash) is Some ==> {
            let t = ticked(old(flash).unwrap().0@, delta as nat);
            &&& *final(flash) is Some
            &&& final(flash).unwrap().0@ == t
            &&& tint == (if t.finished {
                EnemyTint::HealthColor { flash_ended: true }
            } else {
                EnemyTint::Flash
            })
        },
{
    match flash {
        Some(f) => {
            f.0.tick(delta);
            if !f.0.is_finished() {
                EnemyTint::Flash
            } else {
                EnemyTint::HealthColor { flash_ended: true }
            }
        },
        None => {
            if health_changed {
                EnemyTint::HealthColor { flash_ended: false }
            } else {
                EnemyTint::Unchanged
            }
        },
    }
}

} // verus!
