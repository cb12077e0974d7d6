//! Collision handling in one sweep per frame: bullets damage asteroids as
//! soon as they are found to touch, then the player is checked against what
//! is left, and finally the collected messages are turned into what the
//! world must do.
use vstd::prelude::*;

use std::collections::{HashMap, HashSet};

use super::cache::CollisionCache;
use super::detect::{first_target, overlapping, Candidate};
use super::hit_list::{lemma_push_remembers, push_hit, HitList, Pierce, HIT_LIST_CAPACITY};
use super::resolve::{BulletState, BulletView, EnemyState, RAM_SCORE};
use super::EntityId;
use crate::enemy::spec_score;
use crate::health::{damaged, Health, Score};
use crate::player::INVINCIBILITY_DURATION;
use crate::powerup::PowerUpKind;

verus! {

broadcast use vstd::std_specs::hash::group_hash_axioms;

/// What a collision sweep reports.
#[derive(Clone, Copy, Debug, PartialEq, Eq, Structural)]
pub enum CombatMessage {
    /// A bullet is used up.
    Despawn(EntityId),
    /// An asteroid was hit and survived.
    EnemyHit(EntityId),
    /// An asteroid was destroyed, worth `score`, leaving `drop` behind.
    EnemyDestroyed { entity: EntityId, score: u32, drop: Option<PowerUpKind> },
    /// The player was hurt by the `consumed` asteroid or bullet.
    PlayerDamaged { player: EntityId, defeated: bool, consumed: EntityId },
}

/// A bullet as the sweep sees it: the asteroids near it in scan order with
/// their overlap, its pierce charges and hit list, and what an asteroid it
/// destroys leaves behind (drawn beforehand).
#[derive(Debug)]
pub struct BulletProbe {
    pub entity: EntityId,
    pub candidates: Vec<Candidate>,
    pub state: BulletState,
    pub drop: Option<PowerUpKind>,
}

pub struct ProbeView {
    pub entity: EntityId,
    pub candidates: Seq<Candidate>,
    pub state: BulletView,
    pub drop: Option<PowerUpKind>,
}

impl View for BulletProbe {
    type V = ProbeView;

    open spec fn view(&self) -> ProbeView {
        ProbeView { entity: self.entity, candidates: self.candidates@, state: self.state@, drop: self.drop }
    }
}

pub open spec fn probes_view(probes: Seq<BulletProbe>) -> Seq<ProbeView> {
    probes.map_values(|p: BulletProbe| p@)
}

pub open spec fn states_view(states: Seq<BulletState>) -> Seq<BulletView> {
    states.map_values(|s: BulletState| s@)
}

/// The first candidate, in scan order, that overlaps, is not in `hit`, not
/// among `skipped`, and is in `present`.
pub open spec fn first_hittable(
    candidates: Seq<Candidate>,
    hit: Set<EntityId>,
    skipped: Seq<EntityId>,
    present: Set<EntityId>,
) -> Option<EntityId>
    decreases candidates.len(),
{
    if candidates.len() == 0 {
        None
    } else if candidates[0].overlaps && !hit.contains(candidates[0].entity) && !skipped.contains(
        candidates[0].entity,
    ) && present.contains(candidates[0].entity) {
        Some(candidates[0].entity)
    } else {
        first_hittable(candidates.drop_first(), hit, skipped, present)
    }
}

/// Where a sweep stands.
pub struct SweepFrame {
    pub enemies: Map<EntityId, EnemyState>,
    pub hit_enemies: Set<EntityId>,
    pub hit_bullets: Set<EntityId>,
    pub messages: Seq<CombatMessage>,
}

pub open spec fn hits_of(state: BulletView) -> Seq<EntityId> {
    match state.hits {
        Some(h) => h,
        None => Seq::empty(),
    }
}

/// One bullet's turn. A bullet already used up does nothing. Otherwise it
/// takes the first nearby asteroid that overlaps it, is not used up, is not
/// on its hit list and still exists; that asteroid loses a hit point and is
/// destroyed (and used up) or flashes, the hit list remembers it, and the
/// bullet spends a pierce charge or is used up and despawned.
pub open spec fn probe_step(f: SweepFrame, p: ProbeView) -> (SweepFrame, BulletView) {
    if f.hit_bullets.contains(p.entity) {
        (f, p.state)
    } else {
        match first_hittable(p.candidates, f.hit_enemies, hits_of(p.state), f.enemies.dom()) {
            None => (f, p.state),
            Some(e) => {
                let en = f.enemies[e];
                let health = damaged(en.health, 1);
                let killed = health.current == 0;
                let hit_message = if killed {
                    CombatMessage::EnemyDestroyed { entity: e, score: spec_score(en.enemy_type), drop: p.drop }
                } else {
                    CombatMessage::EnemyHit(e)
                };
                let pierces = p.state.pierce matches Some(n) && n > 0;
                let state = BulletView {
                    pierce: if pierces { Some((p.state.pierce.unwrap() - 1) as u32) } else { p.state.pierce },
                    hits: match p.state.hits {
                        Some(h) => Some(push_hit(h, e)),
                        None => None,
                    },
                };
                (
                    SweepFrame {
                        enemies: f.enemies.insert(e, EnemyState { health, ..en }),
                        hit_enemies: if killed { f.hit_enemies.insert(e) } else { f.hit_enemies },
                        hit_bullets: if pierces { f.hit_bullets } else { f.hit_bullets.insert(p.entity) },
                        messages: if pierces {
                            f.messages.push(hit_message)
                        } else {
                            f.messages.push(hit_message).push(CombatMessage::Despawn(p.entity))
                        },
                    },
                    state,
                )
            },
        }
    }
}

/// The frame after every bullet in `probes` took its turn, in order, and
/// each bullet's state afterwards.
pub open spec fn sweep(f: SweepFrame, probes: Seq<ProbeView>) -> (SweepFrame, Seq<BulletView>)
    decreases probes.len(),
{
    if probes.len() == 0 {
        (f, Seq::empty())
    } else {
        let (g, states) = sweep(f, probes.drop_last());
        let (h, state) = probe_step(g, probes.last());
        (h, states.push(state))
    }
}

fn pick_target(
    candidates: &Vec<Candidate>,
    hit: &HashSet<EntityId>,
    hit_list: Option<&HitList>,
    enemies: &HashMap<EntityId, EnemyState>,
    need_present: bool,
) -> (target: Option<EntityId>)
    ensures
        target == first_hittable(
            candidates@,
            hit@,
            match hit_list {
                Some(h) => h@,
                None => Seq::empty(),
            },
            if need_present { enemies@.dom() } else { Set::full() },
        ),
{
    let ghost skipped = match hit_list {
        Some(h) => h@,
        None => Seq::<EntityId>::empty(),
    };
    let ghost present = if need_present { enemies@.dom() } else { Set::<EntityId>::full() };
    let mut i: usize = 0;
    assert(candidates@.skip(0) =~= candidates@);
    while i < candidates.len()
        invariant
            0 <= i <= candidates@.len(),
            skipped == match hit_list {
                Some(h) => h@,
                None => Seq::<EntityId>::empty(),
            },
            present == if need_present { enemies@.dom() } else { Set::<EntityId>::full() },
            first_hittable(candidates@, hit@, skipped, present) == first_hittable(
                candidates@.skip(i as int),
                hit@,
                skipped,
                present,
            ),
        decreases candidates@.len() - i,
    {
        let c = candidates[i];
        assert(candidates@.skip(i as int)[0] == c);
        let fresh = !hit.contains(&c.entity);
        let unlisted = match hit_list {
            Some(h) => !h.contains(c.entity),
            None => true,
        };
        let present_now = !need_present || enemies.contains_key(&c.entity);
        if c.overlaps && fresh && unlisted && present_now {
            return Some(c.entity);
        }
        assert(candidates@.skip(i as int).drop_first() =~= candidates@.skip(i + 1));
        i = i + 1;
    }
    assert(candidates@.skip(i as int) =~= Seq::<Candidate>::empty());
    None
}

fn sweep_one(
    probe: &BulletProbe,
    enemies: &mut HashMap<EntityId, EnemyState>,
    hit_enemies: &mut HashSet<EntityId>,
    hit_bullets: &mut HashSet<EntityId>,
    messages: &mut Vec<CombatMessage>,
) -> (state: BulletState)
    ensures
        ({
            let (g, s) = probe_step(
                SweepFrame {
                    enemies: old(enemies)@,
                    hit_enemies: old(hit_enemies)@,
                    hit_bullets: old(hit_bullets)@,
                    messages: old(messages)@,
                },
                probe@,
            );
            &&& final(enemies)@ == g.enemies
            &&& final(hit_enemies)@ == g.hit_enemies
            &&& final(hit_bullets)@ == g.hit_bullets
            &&& final(messages)@ == g.messages
            &&& state@ == s
        }),
{
    if hit_bullets.contains(&probe.entity) {
        return probe.state;
    }
    let target = match &probe.state.hit_list {
        Some(h) => pick_target(&probe.candidates, hit_enemies, Some(h), enemies, true),
        None => pick_target(&probe.candidates, hit_enemies, None, enemies, true),
    };
    assert(hits_of(probe@.state) == match probe.state.hit_list {
        Some(h) => h@,
        None => Seq::<EntityId>::empty(),
    });
    proof {
        lemma_first_hittable_found(
            probe@.candidates,
            old(hit_enemies)@,
            hits_of(probe@.state),
            old(enemies)@.dom(),
        );
    }
    let enemy = match target {
        Some(e) => e,
        None => {
            return probe.state;
        },
    };
    let en = match enemies.get(&enemy) {
        Some(en) => *en,
        None => {
            return probe.state;
        },
    };
    let mut health = en.health;
    let killed = health.damage(1);
    enemies.insert(enemy, EnemyState { health, enemy_type: en.enemy_type });
    if killed {
        hit_enemies.insert(enemy);
        messages.push(
            CombatMessage::EnemyDestroyed { entity: enemy, score: en.enemy_type.score(), drop: probe.drop },
        );
    } else {
        messages.push(CombatMessage::EnemyHit(enemy));
    }
    let hit_list = match probe.state.hit_list {
        Some(h) => {
            let mut h2 = h;
            h2.push(enemy);
            Some(h2)
        },
        None => None,
    };
    let pierce = match probe.state.pierce {
        Some(p) => {
            if p.0 > 0 {
                return BulletState { pierce: Some(Pierce(p.0 - 1)), hit_list };
            }
            Some(p)
        },
        None => None,
    };
    hit_bullets.insert(probe.entity);
    messages.push(CombatMessage::Despawn(probe.entity));
    BulletState { pierce, hit_list }
}

/// The outcome of the bullets' sweep: the messages in order, and each
/// bullet's pierce charges and hit list afterwards, in the order of the
/// probes.
pub struct BulletSweep {
    pub messages: Vec<CombatMessage>,
    pub states: Vec<BulletState>,
}

/// Each bullet in turn damages the first asteroid it can hit, as
/// `probe_step` describes. Asteroids and the cache's used-up sets are
/// updated in place; the grids are untouched.
pub fn detect_bullet_enemy_collisions(
    cache: &mut CollisionCache,
    probes: &Vec<BulletProbe>,
    enemies: &mut HashMap<EntityId, EnemyState>,
) -> (out: BulletSweep)
    ensures
        ({
            let (g, states) = sweep(
                SweepFrame {
                    enemies: old(enemies)@,
                    hit_enemies: old(cache).hit_enemies@,
                    hit_bullets: old(cache).hit_bullets@,
                    messages: Seq::empty(),
                },
                probes_view(probes@),
            );
            &&& final(enemies)@ == g.enemies
            &&& final(cache).hit_enemies@ == g.hit_enemies
            &&& final(cache).hit_bullets@ == g.hit_bullets
            &&& out.messages@ == g.messages
            &&& states_view(out.states@) == states
        }),
        final(cache).enemy_grid == old(cache).enemy_grid,
        final(cache).enemy_bullet_grid == old(cache).enemy_bullet_grid,
        final(cache).reserved == old(cache).reserved,
{
    let ghost f0 = SweepFrame {
        enemies: enemies@,
        hit_enemies: cache.hit_enemies@,
        hit_bullets: cache.hit_bullets@,
        messages: Seq::empty(),
    };
    let ghost pv = probes_view(probes@);
    let mut messages: Vec<CombatMessage> = Vec::new();
    let mut states: Vec<BulletState> = Vec::new();
    let mut i: usize = 0;
    while i < probes.len()
        invariant
            0 <= i <= probes@.len(),
            pv == probes_view(probes@),
            cache.enemy_grid == old(cache).enemy_grid,
            cache.enemy_bullet_grid == old(cache).enemy_bullet_grid,
            cache.reserved == old(cache).reserved,
            ({
                let (g, ss) = sweep(f0, pv.take(i as int));
                &&& enemies@ == g.enemies
                &&& cache.hit_enemies@ == g.hit_enemies
                &&& cache.hit_bullets@ == g.hit_bullets
                &&& messages@ == g.messages
                &&& states_view(states@) == ss
            }),
        decreases probes@.len() - i,
    {
        assert(pv.take(i + 1).drop_last() =~= pv.take(i as int));
        assert(pv.take(i + 1).last() == probes@[i as int]@);
        let s = sweep_one(&probes[i], enemies, &mut cache.hit_enemies, &mut cache.hit_bullets, &mut messages);
        let ghost before = states@;
        states.push(s);
        assert(states_view(states@) =~= states_view(before).push(s@));
        i = i + 1;
    }
    assert(pv.take(probes@.len() as int) =~= pv);
    BulletSweep { messages, states }
}

/// An invincible player's pass over the nearby asteroids, in scan order:
/// every overlapping asteroid not yet used up is destroyed (and used up)
/// for the ramming score, with nothing left behind.
pub open spec fn rams(candidates: Seq<Candidate>, hit: Set<EntityId>) -> (Set<EntityId>, Seq<CombatMessage>)
    decreases candidates.len(),
{
    if candidates.len() == 0 {
        (hit, Seq::empty())
    } else {
        let (h, ms) = rams(candidates.drop_last(), hit);
        let c = candidates.last();
        if h.contains(c.entity) || !c.overlaps {
            (h, ms)
        } else {
            (h.insert(c.entity), ms.push(CombatMessage::EnemyDestroyed { entity: c.entity, score: RAM_SCORE, drop: None }))
        }
    }
}

/// Despawn messages for `bullets`, in order.
pub open spec fn despawns(bullets: Seq<EntityId>) -> Seq<CombatMessage> {
    bullets.map_values(|b: EntityId| CombatMessage::Despawn(b))
}

/// The player's pass: what is used up, the player's health and the messages
/// afterwards.
pub struct PlayerPass {
    pub hit_enemies: Set<EntityId>,
    pub health: Health,
    pub messages: Seq<CombatMessage>,
}

/// The player against what is near it. An invincible player rams every
/// overlapping asteroid not yet used up and despawns every overlapping
/// enemy bullet, taking no damage. Otherwise the first overlapping asteroid
/// not yet used up hurts the player and is used up; failing that, the first
/// overlapping enemy bullet hurts the player.
pub open spec fn player_pass(
    hit: Set<EntityId>,
    health: Health,
    player: EntityId,
    invincible: bool,
    enemy_candidates: Seq<Candidate>,
    bullet_candidates: Seq<Candidate>,
) -> PlayerPass {
    if invincible {
        let (h, ms) = rams(enemy_candidates, hit);
        PlayerPass { hit_enemies: h, health, messages: ms + despawns(overlapping(bullet_candidates)) }
    } else {
        let hurt = damaged(health, 1);
        match first_hittable(enemy_candidates, hit, Seq::empty(), Set::full()) {
            Some(e) => PlayerPass {
                hit_enemies: hit.insert(e),
                health: hurt,
                messages: seq![CombatMessage::PlayerDamaged { player, defeated: hurt.current == 0, consumed: e }],
            },
            None => match first_target(bullet_candidates, Seq::empty()) {
                Some(b) => PlayerPass {
                    hit_enemies: hit,
                    health: hurt,
                    messages: seq![CombatMessage::PlayerDamaged { player, defeated: hurt.current == 0, consumed: b }],
                },
                None => PlayerPass { hit_enemies: hit, health, messages: Seq::empty() },
            },
        }
    }
}

/// The player's pass after the bullets' sweep, as `player_pass` describes,
/// with the cache's used-up asteroids.
pub fn detect_player_collisions(
    cache: &mut CollisionCache,
    player: EntityId,
    health: &mut Health,
    invincible: bool,
    enemy_candidates: &Vec<Candidate>,
    bullet_candidates: &Vec<Candidate>,
) -> (messages: Vec<CombatMessage>)
    ensures
        final(cache).enemy_grid == old(cache).enemy_grid,
        final(cache).enemy_bullet_grid == old(cache).enemy_bullet_grid,
        final(cache).hit_bullets@ == old(cache).hit_bullets@,
        final(cache).reserved == old(cache).reserved,
        ({
            let p = player_pass(
                old(cache).hit_enemies@,
                *old(health),
                player,
                invincible,
                enemy_candidates@,
                bullet_candidates@,
            );
            &&& final(cache).hit_enemies@ == p.hit_enemies
            &&& *final(health) == p.health
            &&& messages@ == p.messages
        }),
{
    let mut messages: Vec<CombatMessage> = Vec::new();
    if invincible {
        let ghost h0 = cache.hit_enemies@;
        let mut i: usize = 0;
        while i < enemy_candidates.len()
            invariant
                0 <= i <= enemy_candidates@.len(),
                cache.enemy_grid == old(cache).enemy_grid,
                cache.enemy_bullet_grid == old(cache).enemy_bullet_grid,
                cache.hit_bullets@ == old(cache).hit_bullets@,
                cache.reserved == old(cache).reserved,
                h0 == old(cache).hit_enemies@,
                ({
                    let (h, ms) = rams(enemy_candidates@.take(i as int), h0);
                    &&& cache.hit_enemies@ == h
                    &&& messages@ == ms
                }),
            decreases enemy_candidates@.len() - i,
        {
            let c = enemy_candidates[i];
            assert(enemy_candidates@.take(i + 1).drop_last() =~= enemy_candidates@.take(i as int));
            assert(enemy_candidates@.take(i + 1).last() == c);
            if !cache.hit_enemies.contains(&c.entity) && c.overlaps {
                cache.hit_enemies.insert(c.entity);
                messages.push(CombatMessage::EnemyDestroyed { entity: c.entity, score: RAM_SCORE, drop: None });
            }
            i = i + 1;
        }
        assert(enemy_candidates@.take(enemy_candidates@.len() as int) =~= enemy_candidates@);
        let ghost rammed = messages@;
        let mut j: usize = 0;
        while j < bullet_candidates.len()
            invariant
                0 <= j <= bullet_candidates@.len(),
                messages@ == rammed + despawns(overlapping(bullet_candidates@.take(j as int))),
            decreases bullet_candidates@.len() - j,
        {
            let c = bullet_candidates[j];
            assert(bullet_candidates@.take(j + 1).drop_last() =~= bullet_candidates@.take(j as int));
            assert(bullet_candidates@.take(j + 1).last() == c);
            if c.overlaps {
                messages.push(CombatMessage::Despawn(c.entity));
            }
            assert(messages@ =~= rammed + despawns(overlapping(bullet_candidates@.take(j + 1))));
            j = j + 1;
        }
        assert(bullet_candidates@.take(bullet_candidates@.len() as int) =~= bullet_candidates@);
        return messages;
    }
    let empty: HashMap<EntityId, EnemyState> = HashMap::new();
    let target = pick_target(enemy_candidates, &cache.hit_enemies, None, &empty, false);
    if let Some(e) = target {
        let defeated = health.damage(1);
        cache.hit_enemies.insert(e);
        messages.push(CombatMessage::PlayerDamaged { player, defeated, consumed: e });
        return messages;
    }
    let no_hits: HashSet<EntityId> = HashSet::new();
    let shot = pick_target(bullet_candidates, &no_hits, None, &empty, false);
    proof {
        lemma_first_hittable_without_filters(bullet_candidates@);
    }
    if let Some(b) = shot {
        let defeated = health.damage(1);
        messages.push(CombatMessage::PlayerDamaged { player, defeated, consumed: b });
    }
    messages
}

/// What the world must do because of a message.
#[derive(Clone, Copy, Debug, PartialEq, Eq, Structural)]
pub enum CombatAction {
    /// Remove the entity.
    Despawn(EntityId),
    /// Make the asteroid flash.
    Flash(EntityId),
    /// Show an explosion where the destroyed asteroid was.
    Explode(EntityId),
    /// Put a power-up where the destroyed asteroid `at` was.
    SpawnPickup { at: EntityId, kind: PowerUpKind },
    /// Give the hurt player a spell of invincibility lasting `duration`
    /// nanoseconds.
    GrantInvincibility { player: EntityId, duration: u64 },
    /// The player is out of hit points: the game is over.
    GameOver,
}

/// How hard the screen shakes, from not at all to the player's defeat.
#[derive(Clone, Copy, Debug, PartialEq, Eq, Structural)]
pub enum ShakeLevel {
    Still,
    Hit,
    Destroyed,
    Damaged,
    Defeated,
}

pub open spec fn shake_rank(level: ShakeLevel) -> nat {
    match level {
        ShakeLevel::Still => 0,
        ShakeLevel::Hit => 1,
        ShakeLevel::Destroyed => 2,
        ShakeLevel::Damaged => 3,
        ShakeLevel::Defeated => 4,
    }
}

/// The stronger of two shakes.
pub open spec fn stronger_shake(a: ShakeLevel, b: ShakeLevel) -> ShakeLevel {
    if shake_rank(a) >= shake_rank(b) {
        a
    } else {
        b
    }
}

fn stronger(a: ShakeLevel, b: ShakeLevel) -> (level: ShakeLevel)
    ensures
        level == stronger_shake(a, b),
{
    let ra: u8 = match a {
        ShakeLevel::Still => 0,
        ShakeLevel::Hit => 1,
        ShakeLevel::Destroyed => 2,
        ShakeLevel::Damaged => 3,
        ShakeLevel::Defeated => 4,
    };
    let rb: u8 = match b {
        ShakeLevel::Still => 0,
        ShakeLevel::Hit => 1,
        ShakeLevel::Destroyed => 2,
        ShakeLevel::Damaged => 3,
        ShakeLevel::Defeated => 4,
    };
    if ra >= rb {
        a
    } else {
        b
    }
}

/// The shake a message calls for.
pub open spec fn message_shake(m: CombatMessage) -> ShakeLevel {
    match m {
        CombatMessage::Despawn(_) => ShakeLevel::Still,
        CombatMessage::EnemyHit(_) => ShakeLevel::Hit,
        CombatMessage::EnemyDestroyed { .. } => ShakeLevel::Destroyed,
        CombatMessage::PlayerDamaged { defeated, .. } => if defeated {
            ShakeLevel::Defeated
        } else {
            ShakeLevel::Damaged
        },
    }
}

/// The points a message awards.
pub open spec fn message_points(m: CombatMessage) -> nat {
    match m {
        CombatMessage::EnemyDestroyed { score, .. } => score as nat,
        _ => 0,
    }
}

/// The points `messages` award together.
pub open spec fn total_points(messages: Seq<CombatMessage>) -> nat
    decreases messages.len(),
{
    if messages.len() == 0 {
        0
    } else {
        total_points(messages.drop_last()) + message_points(messages.last())
    }
}

/// Where applying the messages stands: what was despawned, the actions so
/// far, and the strongest shake called for.
pub struct OutcomeFrame {
    pub despawned: Set<EntityId>,
    pub actions: Seq<CombatAction>,
    pub shake: ShakeLevel,
}

/// Despawns `e` unless it already was.
pub open spec fn despawn_once(f: OutcomeFrame, e: EntityId) -> OutcomeFrame {
    if f.despawned.contains(e) {
        f
    } else {
        OutcomeFrame { despawned: f.despawned.insert(e), actions: f.actions.push(CombatAction::Despawn(e)), ..f }
    }
}

/// One message's consequences. A despawn removes the bullet once; a hit
/// asteroid flashes; a destroyed asteroid is removed once, explodes and
/// leaves its power-up; a hurt player's asteroid or bullet is removed once,
/// and the player either loses the game or becomes invincible for a while.
pub open spec fn outcome_step(f: OutcomeFrame, m: CombatMessage) -> OutcomeFrame {
    let shake = stronger_shake(f.shake, message_shake(m));
    match m {
        CombatMessage::Despawn(e) => despawn_once(f, e),
        CombatMessage::EnemyHit(e) => OutcomeFrame { actions: f.actions.push(CombatAction::Flash(e)), shake, ..f },
        CombatMessage::EnemyDestroyed { entity, drop, .. } => {
            let g = despawn_once(f, entity);
            let exploded = g.actions.push(CombatAction::Explode(entity));
            OutcomeFrame {
                actions: match drop {
                    Some(kind) => exploded.push(CombatAction::SpawnPickup { at: entity, kind }),
                    None => exploded,
                },
                shake,
                ..g
            }
        },
        CombatMessage::PlayerDamaged { player, defeated, consumed } => {
            let g = despawn_once(f, consumed);
            OutcomeFrame {
                actions: if defeated {
                    g.actions.push(CombatAction::GameOver)
                } else {
                    g.actions.push(CombatAction::GrantInvincibility { player, duration: INVINCIBILITY_DURATION })
                },
                shake,
                ..g
            }
        },
    }
}

/// The consequences of `messages`, in order.
pub open spec fn outcomes(messages: Seq<CombatMessage>) -> OutcomeFrame
    decreases messages.len(),
{
    if messages.len() == 0 {
        OutcomeFrame { despawned: Set::empty(), actions: Seq::empty(), shake: ShakeLevel::Still }
    } else {
        outcome_step(outcomes(messages.drop_last()), messages.last())
    }
}

/// What this frame's messages call for: the actions in order, and the
/// strongest shake (`Still` for none).
pub struct CombatOutcome {
    pub actions: Vec<CombatAction>,
    pub shake: ShakeLevel,
    /// The camera shake to start, if any: the strength of `shake`.
    pub camera_shake: Option<Shake>,
}

/// A camera shake: how far the camera is thrown, in pixels, and for how
/// many nanoseconds.
#[derive(Clone, Copy, Debug, PartialEq, Eq, Structural)]
pub struct Shake {
    pub magnitude: u32,
    pub duration: u64,
}

/// The strength of each shake level: none when still; a hit throws the
/// camera 2 pixels for 30 ms, a destruction 4 for 60 ms, a survived hit on
/// the player 14 for 150 ms, and the player's defeat 20 for 300 ms.
pub open spec fn spec_shake_strength(level: ShakeLevel) -> Option<Shake> {
    match level {
        ShakeLevel::Still => None,
        ShakeLevel::Hit => Some(Shake { magnitude: 2, duration: 30_000_000 }),
        ShakeLevel::Destroyed => Some(Shake { magnitude: 4, duration: 60_000_000 }),
        ShakeLevel::Damaged => Some(Shake { magnitude: 14, duration: 150_000_000 }),
        ShakeLevel::Defeated => Some(Shake { magnitude: 20, duration: 300_000_000 }),
    }
}

/// The camera shake a shake level calls for.
pub fn shake_strength(level: ShakeLevel) -> (s: Option<Shake>)
    ensures
        s == spec_shake_strength(level),
{
    match level {
        ShakeLevel::Still => None,
        ShakeLevel::Hit => Some(Shake { magnitude: 2, duration: 30_000_000 }),
        ShakeLevel::Destroyed => Some(Shake { magnitude: 4, duration: 60_000_000 }),
        ShakeLevel::Damaged => Some(Shake { magnitude: 14, duration: 150_000_000 }),
        ShakeLevel::Defeated => Some(Shake { magnitude: 20, duration: 300_000_000 }),
    }
}

proof fn lemma_total_points_prefix(messages: Seq<CombatMessage>, i: int)
    requires
        0 <= i <= messages.len(),
    ensures
        total_points(messages.take(i)) <= total_points(messages),
    decreases messages.len(),
{
    if i < messages.len() {
        assert(messages.drop_last().take(i) =~= messages.take(i));
        lemma_total_points_prefix(messages.drop_last(), i);
    } else {
        assert(messages.take(i) =~= messages);
    }
}

/// Applies this frame's messages in order, as `outcome_step` describes,
/// adding every destroyed asteroid's points to the score.
pub fn apply_combat_outcomes(messages: &Vec<CombatMessage>, score: &mut Score) -> (out: CombatOutcome)
    requires
        old(score).0 + total_points(messages@) <= u32::MAX,
    ensures
        final(score).0 == old(score).0 + total_points(messages@),
        out.actions@ == outcomes(messages@).actions,
        out.shake == outcomes(messages@).shake,
        out.camera_shake == spec_shake_strength(outcomes(messages@).shake),
{
    let mut despawned: HashSet<EntityId> = HashSet::new();
    let mut actions: Vec<CombatAction> = Vec::new();
    let mut shake = ShakeLevel::Still;
    let mut i: usize = 0;
    while i < messages.len()
        invariant
            0 <= i <= messages@.len(),
            old(score).0 + total_points(messages@) <= u32::MAX,
            score.0 == old(score).0 + total_points(messages@.take(i as int)),
            despawned@ == outcomes(messages@.take(i as int)).despawned,
            actions@ == outcomes(messages@.take(i as int)).actions,
            shake == outcomes(messages@.take(i as int)).shake,
        decreases messages@.len() - i,
    {
        let m = messages[i];
        assert(messages@.take(i + 1).drop_last() =~= messages@.take(i as int));
        assert(messages@.take(i + 1).last() == m);
        proof {
            lemma_total_points_prefix(messages@, i + 1);
        }
        shake = stronger(shake, match m {
            CombatMessage::Despawn(_) => ShakeLevel::Still,
            CombatMessage::EnemyHit(_) => ShakeLevel::Hit,
            CombatMessage::EnemyDestroyed { .. } => ShakeLevel::Destroyed,
            CombatMessage::PlayerDamaged { defeated, .. } => if defeated {
                ShakeLevel::Defeated
            } else {
                ShakeLevel::Damaged
            },
        });
        match m {
            CombatMessage::Despawn(e) => {
                if despawned.insert(e) {
                    actions.push(CombatAction::Despawn(e));
                }
            },
            CombatMessage::EnemyHit(e) => {
                actions.push(CombatAction::Flash(e));
            },
            CombatMessage::EnemyDestroyed { entity, score: points, drop } => {
                if despawned.insert(entity) {
                    actions.push(CombatAction::Despawn(entity));
                }
                actions.push(CombatAction::Explode(entity));
                score.award(points);
                if let Some(kind) = drop {
                    actions.push(CombatAction::SpawnPickup { at: entity, kind });
                }
            },
            CombatMessage::PlayerDamaged { player, defeated, consumed } => {
                if despawned.insert(consumed) {
                    actions.push(CombatAction::Despawn(consumed));
                }
                if defeated {
                    actions.push(CombatAction::GameOver);
                } else {
                    actions.push(CombatAction::GrantInvincibility { player, duration: INVINCIBILITY_DURATION });
                }
            },
        }
        i = i + 1;
    }
    assert(messages@.take(messages@.len() as int) =~= messages@);
    let camera_shake = shake_strength(shake);
    CombatOutcome { actions, shake, camera_shake }
}

/// At most one camera shake per frame, started exactly when some message
/// calls for one (a hit, a destruction or a hurt player), and as far and as
/// long as the strongest of them: its magnitude and its duration are each
/// the largest that any message calls for.
pub proof fn lemma_camera_shake_is_the_largest(messages: Seq<CombatMessage>)
    ensures
        spec_shake_strength(outcomes(messages).shake) is Some <==> exists|j: int|
            0 <= j < messages.len() && (#[trigger] spec_shake_strength(message_shake(messages[j]))) is Some,
        forall|j: int|
            0 <= j < messages.len() && (#[trigger] spec_shake_strength(message_shake(messages[j]))) is Some
                ==> {
                let s = spec_shake_strength(message_shake(messages[j])).unwrap();
                let o = spec_shake_strength(outcomes(messages).shake);
                &&& o is Some
                &&& s.magnitude <= o.unwrap().magnitude
                &&& s.duration <= o.unwrap().duration
            },
        spec_shake_strength(outcomes(messages).shake) matches Some(o) ==> exists|j: int|
            0 <= j < messages.len() && #[trigger] spec_shake_strength(message_shake(messages[j])) == Some(o),
{
    lemma_shake_is_strongest(messages);
    let level = outcomes(messages).shake;
    assert forall|j: int|
        0 <= j < messages.len() && (#[trigger] spec_shake_strength(message_shake(messages[j]))) is Some implies {
        let s = spec_shake_strength(message_shake(messages[j])).unwrap();
        let o = spec_shake_strength(level);
        &&& o is Some
        &&& s.magnitude <= o.unwrap().magnitude
        &&& s.duration <= o.unwrap().duration
    } by {
        assert(shake_rank(message_shake(messages[j])) <= shake_rank(level));
    }
    if spec_shake_strength(level) is Some {
        let j = choose|j: int| 0 <= j < messages.len() && #[trigger] message_shake(messages[j]) == level;
        assert(spec_shake_strength(message_shake(messages[j])) == spec_shake_strength(level));
    }
}

/// A bullet's turn that hits an asteroid: the asteroid loses exactly one hit
/// point (none below zero) and the hit is reported first, as a destruction
/// worth the asteroid's score (leaving the bullet's drop) when no hit point
/// is left and as a flash otherwise. A bullet with a positive pierce charge
/// spends one charge and flies on; a bullet with no charge left (none, or
/// zero) is used up: it joins the used-up bullets and its despawn follows
/// the hit.
pub proof fn lemma_bullet_hit_spends_a_charge_or_the_bullet(f: SweepFrame, p: ProbeView)
    requires
        !f.hit_bullets.contains(p.entity),
        first_hittable(p.candidates, f.hit_enemies, hits_of(p.state), f.enemies.dom()) is Some,
    ensures
        ({
            let e = first_hittable(p.candidates, f.hit_enemies, hits_of(p.state), f.enemies.dom()).unwrap();
            let (g, s) = probe_step(f, p);
            let before = f.enemies[e].health;
            let left: int = if before.current > 0 { before.current - 1 } else { 0 };
            let hit = g.messages[f.messages.len() as int];
            &&& f.enemies.contains_key(e)
            &&& g.enemies.contains_key(e)
            &&& g.enemies[e].health.current == left
            &&& g.enemies[e].health.max == before.max
            &&& g.enemies[e].enemy_type == f.enemies[e].enemy_type
            &&& g.messages.len() > f.messages.len()
            &&& g.messages.subrange(0, f.messages.len() as int) == f.messages
            &&& (left == 0 ==> hit == CombatMessage::EnemyDestroyed {
                entity: e,
                score: spec_score(f.enemies[e].enemy_type),
                drop: p.drop,
            })
            &&& (left > 0 ==> hit == CombatMessage::EnemyHit(e))
            &&& match p.state.pierce {
                Some(n) if n > 0 => {
                    &&& s.pierce == Some((n - 1) as u32)
                    &&& g.hit_bullets == f.hit_bullets
                    &&& g.messages.len() == f.messages.len() + 1
                },
                _ => {
                    &&& s.pierce == p.state.pierce
                    &&& g.hit_bullets.contains(p.entity)
                    &&& g.messages.len() == f.messages.len() + 2
                    &&& g.messages[f.messages.len() + 1int] == CombatMessage::Despawn(p.entity)
                },
            }
        }),
{
    let e = first_hittable(p.candidates, f.hit_enemies, hits_of(p.state), f.enemies.dom()).unwrap();
    lemma_first_hittable_found(p.candidates, f.hit_enemies, hits_of(p.state), f.enemies.dom());
    let g = probe_step(f, p).0;
    assert(g.messages.subrange(0, f.messages.len() as int) =~= f.messages);
}

/// A vulnerable player who touches an asteroid not yet used up loses exactly
/// one hit point (none below zero), is told defeated exactly when none is
/// left, and uses the asteroid up; touching only enemy bullets, the first
/// of them hurts the same way; touching nothing leaves the player as is. An
/// invincible player never loses a hit point.
pub proof fn lemma_vulnerable_player_loses_one_hit_point(
    hit: Set<EntityId>,
    health: Health,
    player: EntityId,
    invincible: bool,
    enemy_candidates: Seq<Candidate>,
    bullet_candidates: Seq<Candidate>,
)
    ensures
        ({
            let p = player_pass(hit, health, player, invincible, enemy_candidates, bullet_candidates);
            let left: int = if health.current > 0 { health.current - 1 } else { 0 };
            let asteroid = first_hittable(enemy_candidates, hit, Seq::empty(), Set::full());
            let bullet = first_target(bullet_candidates, Seq::empty());
            &&& invincible ==> p.health == health
            &&& !invincible && (asteroid is Some || bullet is Some) ==> {
                &&& p.health.current == left
                &&& p.health.max == health.max
                &&& p.messages.len() == 1
                &&& p.messages[0] == CombatMessage::PlayerDamaged {
                    player,
                    defeated: left == 0,
                    consumed: if asteroid is Some { asteroid.unwrap() } else { bullet.unwrap() },
                }
            }
            &&& !invincible && asteroid is Some ==> p.hit_enemies == hit.insert(asteroid.unwrap())
            &&& !invincible && asteroid is None ==> p.hit_enemies == hit
            &&& !invincible && asteroid is None && bullet is None ==> p.health == health
                && p.messages.len() == 0
        }),
{
}

/// The asteroid and power-up kind of a destruction that leaves a drop.
pub open spec fn dropped_by(m: CombatMessage) -> Option<(EntityId, PowerUpKind)> {
    match m {
        CombatMessage::EnemyDestroyed { entity, drop: Some(kind), .. } => Some((entity, kind)),
        _ => None,
    }
}

/// Where and of which kind a pickup action puts a power-up.
pub open spec fn pickup_of(a: CombatAction) -> Option<(EntityId, PowerUpKind)> {
    match a {
        CombatAction::SpawnPickup { at, kind } => Some((at, kind)),
        _ => None,
    }
}

/// The actions explode the asteroid and, right after, put the power-up of
/// that kind where it was.
pub open spec fn spawned_after_explosion(actions: Seq<CombatAction>, d: (EntityId, PowerUpKind)) -> bool {
    exists|j: int|
        0 <= j && j + 1 < actions.len() && #[trigger] actions[j] == CombatAction::Explode(d.0)
            && actions[j + 1] == (CombatAction::SpawnPickup { at: d.0, kind: d.1 })
}

/// Some message destroys that asteroid leaving a power-up of that kind.
pub open spec fn some_message_drops(messages: Seq<CombatMessage>, d: (EntityId, PowerUpKind)) -> bool {
    exists|i: int| 0 <= i < messages.len() && #[trigger] dropped_by(messages[i]) == Some(d)
}

/// Every destroyed asteroid that leaves a power-up gets it: for each
/// destruction message with a drop, whatever its kind, the actions hold the
/// asteroid's explosion immediately followed by a pickup of that kind where
/// it was; and every pickup in the actions comes from such a message.
pub proof fn lemma_every_drop_is_spawned(messages: Seq<CombatMessage>)
    ensures
        forall|i: int|
            0 <= i < messages.len() && (#[trigger] dropped_by(messages[i])) is Some ==> spawned_after_explosion(
                outcomes(messages).actions,
                dropped_by(messages[i]).unwrap(),
            ),
        forall|j: int|
            0 <= j < outcomes(messages).actions.len() && (#[trigger] pickup_of(outcomes(messages).actions[j]))
                is Some ==> some_message_drops(messages, pickup_of(outcomes(messages).actions[j]).unwrap()),
    decreases messages.len(),
{
    if messages.len() > 0 {
        let prev = messages.drop_last();
        lemma_every_drop_is_spawned(prev);
        let f = outcomes(prev);
        let g = outcomes(messages);
        let m = messages.last();
        lemma_outcome_step_extends(f, m);
        let n = f.actions.len();
        assert forall|i: int|
            0 <= i < messages.len() && (#[trigger] dropped_by(messages[i])) is Some implies spawned_after_explosion(
            g.actions,
            dropped_by(messages[i]).unwrap(),
        ) by {
            let d = dropped_by(messages[i]).unwrap();
            if i < prev.len() {
                assert(prev[i] == messages[i]);
                assert(spawned_after_explosion(f.actions, d));
                let j = choose|j: int|
                    0 <= j && j + 1 < f.actions.len() && #[trigger] f.actions[j] == CombatAction::Explode(d.0)
                        && f.actions[j + 1] == (CombatAction::SpawnPickup { at: d.0, kind: d.1 });
                assert(g.actions[j] == f.actions[j]);
                assert(g.actions[j + 1] == f.actions[j + 1]);
            } else {
                let j = g.actions.len() - 2;
                assert(g.actions[j] == CombatAction::Explode(d.0));
            }
        }
        assert forall|j: int|
            0 <= j < g.actions.len() && (#[trigger] pickup_of(g.actions[j])) is Some implies some_message_drops(
            messages,
            pickup_of(g.actions[j]).unwrap(),
        ) by {
            let d = pickup_of(g.actions[j]).unwrap();
            if j < n {
                assert(f.actions[j] == g.actions[j]);
                assert(some_message_drops(prev, d));
                let i = choose|i: int| 0 <= i < prev.len() && #[trigger] dropped_by(prev[i]) == Some(d);
                assert(messages[i] == prev[i]);
            } else {
                assert(dropped_by(messages[messages.len() - 1]) == Some(d));
            }
        }
    }
}

/// The entity a despawn action removes.
pub open spec fn despawned_by(a: CombatAction) -> Option<EntityId> {
    match a {
        CombatAction::Despawn(e) => Some(e),
        _ => None,
    }
}

/// No entity is despawned twice in `actions`.
pub open spec fn despawns_each_once(actions: Seq<CombatAction>) -> bool {
    forall|i: int, j: int|
        0 <= i < j < actions.len() && (#[trigger] despawned_by(actions[i])) is Some
            ==> despawned_by(actions[i]) != #[trigger] despawned_by(actions[j])
}

spec fn outcome_inv(f: OutcomeFrame) -> bool {
    &&& despawns_each_once(f.actions)
    &&& forall|i: int|
        0 <= i < f.actions.len() ==> (#[trigger] despawned_by(f.actions[i]) matches Some(e)
            ==> f.despawned.contains(e))
}

proof fn lemma_despawn_once_keeps_inv(f: OutcomeFrame, e: EntityId)
    requires
        outcome_inv(f),
    ensures
        outcome_inv(despawn_once(f, e)),
        despawn_once(f, e).despawned.contains(e),
        f.despawned.subset_of(despawn_once(f, e).despawned),
{
    let g = despawn_once(f, e);
    let n = f.actions.len();
    assert forall|i: int, j: int|
        0 <= i < j < g.actions.len() && (#[trigger] despawned_by(g.actions[i])) is Some implies despawned_by(
        g.actions[i],
    ) != #[trigger] despawned_by(g.actions[j]) by {
        if j >= n {
            assert(g.actions[i] == f.actions[i]);
        } else {
            assert(g.actions[i] == f.actions[i]);
            assert(g.actions[j] == f.actions[j]);
        }
    }
    assert forall|i: int|
        0 <= i < g.actions.len() implies (#[trigger] despawned_by(g.actions[i]) matches Some(x)
        ==> g.despawned.contains(x)) by {
        if i < n {
            assert(g.actions[i] == f.actions[i]);
        }
    }
}

proof fn lemma_outcome_step_keeps_inv(f: OutcomeFrame, m: CombatMessage)
    requires
        outcome_inv(f),
    ensures
        outcome_inv(outcome_step(f, m)),
{
    let g = outcome_step(f, m);
    match m {
        CombatMessage::Despawn(e) => {
            lemma_despawn_once_keeps_inv(f, e);
        },
        CombatMessage::EnemyHit(e) => {
            lemma_pushed_non_despawn_keeps_inv(f, CombatAction::Flash(e));
        },
        CombatMessage::EnemyDestroyed { entity, drop, .. } => {
            lemma_despawn_once_keeps_inv(f, entity);
            let d = despawn_once(f, entity);
            lemma_pushed_non_despawn_keeps_inv(d, CombatAction::Explode(entity));
            let x = OutcomeFrame { actions: d.actions.push(CombatAction::Explode(entity)), ..d };
            if let Some(kind) = drop {
                lemma_pushed_non_despawn_keeps_inv(x, CombatAction::SpawnPickup { at: entity, kind });
            }
        },
        CombatMessage::PlayerDamaged { player, defeated, consumed } => {
            lemma_despawn_once_keeps_inv(f, consumed);
            let d = despawn_once(f, consumed);
            if defeated {
                lemma_pushed_non_despawn_keeps_inv(d, CombatAction::GameOver);
            } else {
                lemma_pushed_non_despawn_keeps_inv(
                    d,
                    CombatAction::GrantInvincibility { player, duration: INVINCIBILITY_DURATION },
                );
            }
        },
    }
}

proof fn lemma_pushed_non_despawn_keeps_inv(f: OutcomeFrame, a: CombatAction)
    requires
        outcome_inv(f),
        despawned_by(a) is None,
    ensures
        outcome_inv(OutcomeFrame { actions: f.actions.push(a), ..f }),
{
    let g = OutcomeFrame { actions: f.actions.push(a), ..f };
    let n = f.actions.len();
    assert forall|i: int, j: int|
        0 <= i < j < g.actions.len() && (#[trigger] despawned_by(g.actions[i])) is Some implies despawned_by(
        g.actions[i],
    ) != #[trigger] despawned_by(g.actions[j]) by {
        assert(g.actions[i] == f.actions[i]);
        if j < n {
            assert(g.actions[j] == f.actions[j]);
        }
    }
    assert forall|i: int|
        0 <= i < g.actions.len() implies (#[trigger] despawned_by(g.actions[i]) matches Some(x)
        ==> g.despawned.contains(x)) by {
        if i < n {
            assert(g.actions[i] == f.actions[i]);
        }
    }
}

proof fn lemma_outcomes_keep_inv(messages: Seq<CombatMessage>)
    ensures
        outcome_inv(outcomes(messages)),
    decreases messages.len(),
{
    if messages.len() > 0 {
        lemma_outcomes_keep_inv(messages.drop_last());
        lemma_outcome_step_keeps_inv(outcomes(messages.drop_last()), messages.last());
    }
}

/// However many messages name an entity, applying them despawns it at most
/// once.
pub proof fn lemma_outcomes_despawn_each_once(messages: Seq<CombatMessage>)
    ensures
        despawns_each_once(outcomes(messages).actions),
{
    lemma_outcomes_keep_inv(messages);
}

/// A message that reports the player's defeat.
pub open spec fn is_defeat(m: CombatMessage) -> bool {
    m matches CombatMessage::PlayerDamaged { defeated, .. } && defeated
}

pub open spec fn is_game_over(a: CombatAction) -> bool {
    a is GameOver
}

/// The game ends exactly when some message reports the player's defeat.
pub proof fn lemma_game_over_iff_defeat(messages: Seq<CombatMessage>)
    ensures
        (exists|i: int| 0 <= i < outcomes(messages).actions.len() && #[trigger] is_game_over(
            outcomes(messages).actions[i],
        )) <==> (exists|j: int| 0 <= j < messages.len() && #[trigger] is_defeat(messages[j])),
    decreases messages.len(),
{
    if messages.len() > 0 {
        let prev = messages.drop_last();
        lemma_game_over_iff_defeat(prev);
        let f = outcomes(prev);
        let g = outcomes(messages);
        let m = messages.last();
        let n = f.actions.len();
        assert(g.actions.len() >= n);
        assert forall|i: int| 0 <= i < n implies g.actions[i] == f.actions[i] by {
            lemma_outcome_step_extends(f, m);
        }
        lemma_outcome_step_extends(f, m);
        assert forall|i: int| n <= i < g.actions.len() && #[trigger] is_game_over(g.actions[i]) implies is_defeat(
            m,
        ) by {
            lemma_outcome_step_extends(f, m);
        }
        if exists|j: int| 0 <= j < messages.len() && #[trigger] is_defeat(messages[j]) {
            let j = choose|j: int| 0 <= j < messages.len() && #[trigger] is_defeat(messages[j]);
            if j < prev.len() {
                assert(is_defeat(prev[j]));
                let i = choose|i: int| 0 <= i < f.actions.len() && #[trigger] is_game_over(f.actions[i]);
                assert(is_game_over(g.actions[i]));
            } else {
                assert(is_defeat(m));
                assert(is_game_over(g.actions[g.actions.len() - 1]));
            }
        }
        if exists|i: int| 0 <= i < g.actions.len() && #[trigger] is_game_over(g.actions[i]) {
            let i = choose|i: int| 0 <= i < g.actions.len() && #[trigger] is_game_over(g.actions[i]);
            if i < n {
                assert(is_game_over(f.actions[i]));
                let j = choose|j: int| 0 <= j < prev.len() && #[trigger] is_defeat(prev[j]);
                assert(is_defeat(messages[j]));
            } else {
                assert(is_defeat(messages[messages.len() - 1]));
            }
        }
    }
}

/// A step only appends actions, and it appends a game over exactly when the
/// message reports a defeat.
proof fn lemma_outcome_step_extends(f: OutcomeFrame, m: CombatMessage)
    ensures
        outcome_step(f, m).actions.len() >= f.actions.len(),
        forall|i: int| 0 <= i < f.actions.len() ==> outcome_step(f, m).actions[i] == f.actions[i],
        forall|i: int|
            f.actions.len() <= i < outcome_step(f, m).actions.len() ==> (#[trigger] is_game_over(
                outcome_step(f, m).actions[i],
            ) ==> is_defeat(m)),
        is_defeat(m) ==> is_game_over(outcome_step(f, m).actions.last()),
{
}

/// The screen shakes as hard as the strongest message calls for, and no
/// harder.
pub proof fn lemma_shake_is_strongest(messages: Seq<CombatMessage>)
    ensures
        forall|j: int|
            0 <= j < messages.len() ==> shake_rank(#[trigger] message_shake(messages[j])) <= shake_rank(
                outcomes(messages).shake,
            ),
        outcomes(messages).shake == ShakeLevel::Still || exists|j: int|
            0 <= j < messages.len() && #[trigger] message_shake(messages[j]) == outcomes(messages).shake,
    decreases messages.len(),
{
    if messages.len() > 0 {
        let prev = messages.drop_last();
        lemma_shake_is_strongest(prev);
        assert forall|j: int|
            0 <= j < messages.len() implies shake_rank(#[trigger] message_shake(messages[j])) <= shake_rank(
            outcomes(messages).shake,
        ) by {
            if j < prev.len() {
                assert(messages[j] == prev[j]);
            }
        }
        if outcomes(messages).shake != ShakeLevel::Still {
            if outcomes(messages).shake == outcomes(prev).shake {
                let j = choose|j: int|
                    0 <= j < prev.len() && #[trigger] message_shake(prev[j]) == outcomes(prev).shake;
                assert(messages[j] == prev[j]);
            } else {
                assert(message_shake(messages[messages.len() - 1]) == outcomes(messages).shake);
            }
        }
    }
}

/// The asteroid a message reports destroyed.
pub open spec fn destroyed_in(m: CombatMessage) -> Option<EntityId> {
    match m {
        CombatMessage::EnemyDestroyed { entity, .. } => Some(entity),
        _ => None,
    }
}

/// The bullet a message despawns.
pub open spec fn despawn_in(m: CombatMessage) -> Option<EntityId> {
    match m {
        CombatMessage::Despawn(b) => Some(b),
        _ => None,
    }
}

/// No asteroid is reported destroyed twice in `messages`.
pub open spec fn destroys_each_once(messages: Seq<CombatMessage>) -> bool {
    forall|i: int, j: int|
        0 <= i < j < messages.len() && (#[trigger] destroyed_in(messages[i])) is Some
            ==> destroyed_in(messages[i]) != #[trigger] destroyed_in(messages[j])
}

/// No bullet is despawned twice in `messages`.
pub open spec fn despawns_each_bullet_once(messages: Seq<CombatMessage>) -> bool {
    forall|i: int, j: int|
        0 <= i < j < messages.len() && (#[trigger] despawn_in(messages[i])) is Some
            ==> despawn_in(messages[i]) != #[trigger] despawn_in(messages[j])
}

/// Destroyed asteroids are distinct and recorded as used up in `hit`.
spec fn destroyed_recorded(messages: Seq<CombatMessage>, hit: Set<EntityId>) -> bool {
    &&& destroys_each_once(messages)
    &&& forall|i: int|
        0 <= i < messages.len() ==> (#[trigger] destroyed_in(messages[i]) matches Some(e)
            ==> hit.contains(e))
}

spec fn sweep_inv(f: SweepFrame) -> bool {
    &&& destroyed_recorded(f.messages, f.hit_enemies)
    &&& despawns_each_bullet_once(f.messages)
    &&& forall|i: int|
        0 <= i < f.messages.len() ==> (#[trigger] despawn_in(f.messages[i]) matches Some(b)
            ==> f.hit_bullets.contains(b))
}

/// Appending a message keeps `destroyed_recorded` when it destroys nothing,
/// or destroys an asteroid not yet used up that `hit2` records.
proof fn lemma_push_keeps_recorded(
    messages: Seq<CombatMessage>,
    hit: Set<EntityId>,
    hit2: Set<EntityId>,
    m: CombatMessage,
)
    requires
        destroyed_recorded(messages, hit),
        hit.subset_of(hit2),
        destroyed_in(m) matches Some(e) ==> !hit.contains(e) && hit2.contains(e),
    ensures
        destroyed_recorded(messages.push(m), hit2),
{
    let g = messages.push(m);
    let n = messages.len();
    assert forall|i: int, j: int|
        0 <= i < j < g.len() && (#[trigger] destroyed_in(g[i])) is Some implies destroyed_in(g[i])
        != #[trigger] destroyed_in(g[j]) by {
        assert(g[i] == messages[i]);
        if j < n {
            assert(g[j] == messages[j]);
        }
    }
    assert forall|i: int|
        0 <= i < g.len() implies (#[trigger] destroyed_in(g[i]) matches Some(e) ==> hit2.contains(e)) by {
        if i < n {
            assert(g[i] == messages[i]);
        }
    }
}

proof fn lemma_probe_step_keeps_inv(f: SweepFrame, p: ProbeView)
    requires
        sweep_inv(f),
    ensures
        sweep_inv(probe_step(f, p).0),
        f.hit_enemies.subset_of(probe_step(f, p).0.hit_enemies),
{
    if !f.hit_bullets.contains(p.entity) {
        let t = first_hittable(p.candidates, f.hit_enemies, hits_of(p.state), f.enemies.dom());
        lemma_first_hittable_found(p.candidates, f.hit_enemies, hits_of(p.state), f.enemies.dom());
        if let Some(e) = t {
            let g = probe_step(f, p).0;
            let en = f.enemies[e];
            let killed = damaged(en.health, 1).current == 0;
            let hit_message = if killed {
                CombatMessage::EnemyDestroyed { entity: e, score: spec_score(en.enemy_type), drop: p.drop }
            } else {
                CombatMessage::EnemyHit(e)
            };
            lemma_push_keeps_recorded(f.messages, f.hit_enemies, g.hit_enemies, hit_message);
            let pierces = p.state.pierce matches Some(n) && n > 0;
            let once = f.messages.push(hit_message);
            if !pierces {
                lemma_push_keeps_recorded(once, g.hit_enemies, g.hit_enemies, CombatMessage::Despawn(p.entity));
            }
            let n = f.messages.len();
            assert forall|i: int, j: int|
                0 <= i < j < g.messages.len() && (#[trigger] despawn_in(g.messages[i])) is Some implies despawn_in(
                g.messages[i],
            ) != #[trigger] despawn_in(g.messages[j]) by {
                if i < n {
                    assert(g.messages[i] == f.messages[i]);
                    assert(f.hit_bullets.contains(despawn_in(f.messages[i]).unwrap()));
                    if j < n {
                        assert(g.messages[j] == f.messages[j]);
                    }
                }
            }
            assert forall|i: int|
                0 <= i < g.messages.len() implies (#[trigger] despawn_in(g.messages[i]) matches Some(b)
                ==> g.hit_bullets.contains(b)) by {
                if i < n {
                    assert(g.messages[i] == f.messages[i]);
                }
            }
        }
    }
}

proof fn lemma_sweep_keeps_inv(f: SweepFrame, probes: Seq<ProbeView>)
    requires
        sweep_inv(f),
    ensures
        sweep_inv(sweep(f, probes).0),
    decreases probes.len(),
{
    if probes.len() > 0 {
        lemma_sweep_keeps_inv(f, probes.drop_last());
        lemma_probe_step_keeps_inv(sweep(f, probes.drop_last()).0, probes.last());
    }
}

proof fn lemma_rams_keep_recorded(candidates: Seq<Candidate>, hit: Set<EntityId>, before: Seq<CombatMessage>)
    requires
        destroyed_recorded(before, hit),
    ensures
        destroyed_recorded(before + rams(candidates, hit).1, rams(candidates, hit).0),
        hit.subset_of(rams(candidates, hit).0),
    decreases candidates.len(),
{
    if candidates.len() == 0 {
        assert(before + Seq::<CombatMessage>::empty() =~= before);
    } else {
        let prev = candidates.drop_last();
        lemma_rams_keep_recorded(prev, hit, before);
        let (h, ms) = rams(prev, hit);
        let c = candidates.last();
        if !(h.contains(c.entity) || !c.overlaps) {
            let m = CombatMessage::EnemyDestroyed { entity: c.entity, score: RAM_SCORE, drop: None };
            lemma_push_keeps_recorded(before + ms, h, h.insert(c.entity), m);
            assert((before + ms).push(m) =~= before + ms.push(m));
        }
    }
}

/// Within one frame, first the bullets' sweep and then the player's pass:
/// however many bullets touch an asteroid and whether or not the player
/// rams it, the asteroid is reported destroyed at most once; and the
/// sweep despawns each bullet at most once.
pub proof fn lemma_frame_destroys_each_once(
    enemies: Map<EntityId, EnemyState>,
    hit_enemies: Set<EntityId>,
    hit_bullets: Set<EntityId>,
    probes: Seq<ProbeView>,
    health: Health,
    player: EntityId,
    invincible: bool,
    enemy_candidates: Seq<Candidate>,
    bullet_candidates: Seq<Candidate>,
)
    ensures
        ({
            let (g, _) = sweep(SweepFrame { enemies, hit_enemies, hit_bullets, messages: Seq::empty() }, probes);
            let p = player_pass(g.hit_enemies, health, player, invincible, enemy_candidates, bullet_candidates);
            &&& destroys_each_once(g.messages + p.messages)
            &&& despawns_each_bullet_once(g.messages)
        }),
{
    let f0 = SweepFrame { enemies, hit_enemies, hit_bullets, messages: Seq::empty() };
    lemma_sweep_keeps_inv(f0, probes);
    let g = sweep(f0, probes).0;
    let p = player_pass(g.hit_enemies, health, player, invincible, enemy_candidates, bullet_candidates);
    if invincible {
        lemma_rams_keep_recorded(enemy_candidates, g.hit_enemies, g.messages);
        let (h, ms) = rams(enemy_candidates, g.hit_enemies);
        let tail = despawns(overlapping(bullet_candidates));
        let all = g.messages + ms + tail;
        assert(g.messages + p.messages =~= all);
        let head = g.messages + ms;
        assert forall|i: int, j: int|
            0 <= i < j < all.len() && (#[trigger] destroyed_in(all[i])) is Some implies destroyed_in(all[i])
            != #[trigger] destroyed_in(all[j]) by {
            assert(all[i] == head[i]);
            if j < head.len() {
                assert(all[j] == head[j]);
            } else {
                assert(all[j] == tail[j - head.len()]);
            }
        }
    } else {
        let all = g.messages + p.messages;
        let n = g.messages.len();
        assert forall|i: int, j: int|
            0 <= i < j < all.len() && (#[trigger] destroyed_in(all[i])) is Some implies destroyed_in(all[i])
            != #[trigger] destroyed_in(all[j]) by {
            assert(i < n);
            assert(all[i] == g.messages[i]);
            if j < n {
                assert(all[j] == g.messages[j]);
            }
        }
    }
}

/// A piercing bullet never hits the same asteroid twice: once its turn hit
/// an asteroid while its hit list had room, no later turn of that bullet,
/// in whatever frame and among whatever candidates, hits that asteroid
/// again.
pub proof fn lemma_remembered_asteroid_is_not_hit_again(
    f: SweepFrame,
    p: ProbeView,
    later: SweepFrame,
    candidates: Seq<Candidate>,
)
    requires
        p.state.hits matches Some(h) && h.len() < HIT_LIST_CAPACITY,
    ensures
        !f.hit_bullets.contains(p.entity) ==> match first_hittable(
            p.candidates,
            f.hit_enemies,
            hits_of(p.state),
            f.enemies.dom(),
        ) {
            Some(e) => first_hittable(
                candidates,
                later.hit_enemies,
                hits_of(probe_step(f, p).1),
                later.enemies.dom(),
            ) != Some(e),
            None => true,
        },
{
    if !f.hit_bullets.contains(p.entity) {
        if let Some(e) = first_hittable(p.candidates, f.hit_enemies, hits_of(p.state), f.enemies.dom()) {
            let h = p.state.hits.unwrap();
            lemma_push_remembers(h, e, e);
            let s = probe_step(f, p).1;
            assert(hits_of(s) == push_hit(h, e));
            lemma_first_hittable_found(candidates, later.hit_enemies, hits_of(s), later.enemies.dom());
        }
    }
}

/// What the first hittable candidate is: an overlapping candidate that is
/// not used up, not skipped and present; when there is none, every
/// overlapping candidate fails one of these.
pub proof fn lemma_first_hittable_found(
    candidates: Seq<Candidate>,
    hit: Set<EntityId>,
    skipped: Seq<EntityId>,
    present: Set<EntityId>,
)
    ensures
        first_hittable(candidates, hit, skipped, present) matches Some(e) ==> {
            &&& !hit.contains(e)
            &&& !skipped.contains(e)
            &&& present.contains(e)
            &&& exists|i: int| 0 <= i < candidates.len() && candidates[i].entity == e && candidates[i].overlaps
        },
        first_hittable(candidates, hit, skipped, present) is None ==> forall|i: int|
            0 <= i < candidates.len() && #[trigger] candidates[i].overlaps ==> hit.contains(
                candidates[i].entity,
            ) || skipped.contains(candidates[i].entity) || !present.contains(candidates[i].entity),
    decreases candidates.len(),
{
    if candidates.len() > 0 {
        let rest = candidates.drop_first();
        lemma_first_hittable_found(rest, hit, skipped, present);
        if first_hittable(candidates, hit, skipped, present) == first_hittable(rest, hit, skipped, present) {
            if let Some(e) = first_hittable(rest, hit, skipped, present) {
                let i = choose|i: int| 0 <= i < rest.len() && rest[i].entity == e && rest[i].overlaps;
                assert(candidates[i + 1] == rest[i]);
            }
        }
        if first_hittable(candidates, hit, skipped, present) is None {
            assert forall|i: int| 0 <= i < candidates.len() && #[trigger] candidates[i].overlaps implies hit.contains(
                candidates[i].entity,
            ) || skipped.contains(candidates[i].entity) || !present.contains(candidates[i].entity) by {
                if i > 0 {
                    assert(rest[i - 1] == candidates[i]);
                }
            }
        }
    }
}

/// With nothing used up, nothing skipped and everything present, the first
/// hittable candidate is simply the first overlapping one.
proof fn lemma_first_hittable_without_filters(candidates: Seq<Candidate>)
    ensures
        first_hittable(candidates, Set::empty(), Seq::empty(), Set::full()) == first_target(
            candidates,
            Seq::empty(),
        ),
    decreases candidates.len(),
{
    if candidates.len() > 0 {
        lemma_first_hittable_without_filters(candidates.drop_first());
    }
}

} // verus!
