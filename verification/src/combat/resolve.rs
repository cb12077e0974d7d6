//! What this frame's contacts do: bullets damage asteroids, asteroids and
//! enemy bullets damage the player, and an invincible player smashes
//! through both.
//!
//! Each resolution walks its contacts in order, skipping contacts whose
//! bullet, asteroid or player was already used up this frame, and reports
//! the events to act on.
use vstd::prelude::*;

use std::collections::{HashMap, HashSet};

use super::detect::{
    first_target, lemma_bullet_target_is_fresh_overlap, BulletEnemyContact, Candidate, PlayerBulletContact,
    PlayerEnemyContact,
};
use super::hit_list::{lemma_push_remembers, push_hit, HitList, Pierce, HIT_LIST_CAPACITY};
use super::EntityId;
use crate::enemy::{spec_score, EnemyType};
use crate::health::{damaged, Health};

verus! {

broadcast use vstd::std_specs::hash::group_hash_axioms;

/// Points for an asteroid that an invincible player rams.
pub const RAM_SCORE: u32 = 5;

/// Something the world must do because of a contact.
#[derive(Clone, Copy, Debug, PartialEq, Eq, Structural)]
pub enum CombatEvent {
    /// An asteroid lost its last hit point.
    EnemyDestroyed { entity: EntityId, score: u32 },
    /// An asteroid was hit and survived.
    EnemyHit(EntityId),
    /// A bullet is used up.
    DespawnRequested(EntityId),
    /// The player was hurt by the `consumed` asteroid or bullet.
    PlayerDamaged { player: EntityId, defeated: bool, consumed: EntityId },
}

/// The asteroid a destruction event is about.
pub open spec fn destroyed_entity(e: CombatEvent) -> Option<EntityId> {
    match e {
        CombatEvent::EnemyDestroyed { entity, .. } => Some(entity),
        _ => None,
    }
}

/// The bullet a despawn request is about.
pub open spec fn despawned_entity(e: CombatEvent) -> Option<EntityId> {
    match e {
        CombatEvent::DespawnRequested(b) => Some(b),
        _ => None,
    }
}

/// The player a damage event is about.
pub open spec fn damaged_player(e: CombatEvent) -> Option<EntityId> {
    match e {
        CombatEvent::PlayerDamaged { player, .. } => Some(player),
        _ => None,
    }
}

/// No asteroid is destroyed twice in `events`.
pub open spec fn destroyed_at_most_once(events: Seq<CombatEvent>) -> bool {
    forall|i: int, j: int|
        0 <= i < j < events.len() && (#[trigger] destroyed_entity(events[i])) is Some
            ==> destroyed_entity(events[i]) != #[trigger] destroyed_entity(events[j])
}

/// No bullet is despawned twice in `events`.
pub open spec fn despawned_at_most_once(events: Seq<CombatEvent>) -> bool {
    forall|i: int, j: int|
        0 <= i < j < events.len() && (#[trigger] despawned_entity(events[i])) is Some
            ==> despawned_entity(events[i]) != #[trigger] despawned_entity(events[j])
}

/// No player is hurt twice in `events`.
pub open spec fn damaged_at_most_once(events: Seq<CombatEvent>) -> bool {
    forall|i: int, j: int|
        0 <= i < j < events.len() && (#[trigger] damaged_player(events[i])) is Some
            ==> damaged_player(events[i]) != #[trigger] damaged_player(events[j])
}

/// A bullet as the resolution sees it.
#[derive(Clone, Copy, Debug)]
pub struct BulletState {
    pub pierce: Option<Pierce>,
    pub hit_list: Option<HitList>,
}

/// The meaning of a bullet's state: charges left and asteroids remembered.
pub struct BulletView {
    pub pierce: Option<u32>,
    pub hits: Option<Seq<EntityId>>,
}

impl View for BulletState {
    type V = BulletView;

    open spec fn view(&self) -> BulletView {
        BulletView {
            pierce: match self.pierce {
                Some(p) => Some(p.0),
                None => None,
            },
            hits: match self.hit_list {
                Some(h) => Some(h@),
                None => None,
            },
        }
    }
}

/// An asteroid as the resolution sees it.
#[derive(Clone, Copy, Debug, PartialEq, Eq, Structural)]
pub struct EnemyState {
    pub health: Health,
    pub enemy_type: EnemyType,
}

/// The meaning of a map of bullets.
pub open spec fn bullets_view(m: Map<EntityId, BulletState>) -> Map<EntityId, BulletView> {
    m.map_values(|b: BulletState| b@)
}

/// Where bullet-asteroid resolution stands after some contacts.
pub struct BulletFrame {
    pub bullets: Map<EntityId, BulletView>,
    pub enemies: Map<EntityId, EnemyState>,
    pub destroyed: Set<EntityId>,
    pub consumed: Set<EntityId>,
    pub events: Seq<CombatEvent>,
}

pub open spec fn initial_bullet_frame(
    bullets: Map<EntityId, BulletView>,
    enemies: Map<EntityId, EnemyState>,
) -> BulletFrame {
    BulletFrame { bullets, enemies, destroyed: Set::empty(), consumed: Set::empty(), events: Seq::empty() }
}

/// One bullet-asteroid contact. It does nothing when the asteroid was
/// already destroyed or the bullet already used up this frame, when either
/// is gone, when the asteroid has no hit points left, or when the bullet hit
/// this asteroid before. Otherwise the asteroid loses one hit point (and is
/// destroyed or flashes), a remembering bullet remembers it, and the bullet
/// either spends a pierce charge or is used up.
pub open spec fn bullet_step(f: BulletFrame, c: BulletEnemyContact) -> BulletFrame {
    if f.destroyed.contains(c.enemy) || f.consumed.contains(c.bullet) || !f.bullets.contains_key(
        c.bullet,
    ) || !f.enemies.contains_key(c.enemy) {
        f
    } else {
        let b = f.bullets[c.bullet];
        let en = f.enemies[c.enemy];
        if en.health.current == 0 || (b.hits matches Some(h) && h.contains(c.enemy)) {
            f
        } else {
            let health = damaged(en.health, 1);
            let killed = health.current == 0;
            let hits = match b.hits {
                Some(h) => Some(push_hit(h, c.enemy)),
                None => None,
            };
            let hit_event = if killed {
                CombatEvent::EnemyDestroyed { entity: c.enemy, score: spec_score(en.enemy_type) }
            } else {
                CombatEvent::EnemyHit(c.enemy)
            };
            let pierces = b.pierce matches Some(p) && p > 0;
            BulletFrame {
                bullets: f.bullets.insert(
                    c.bullet,
                    BulletView {
                        pierce: if pierces { Some((b.pierce.unwrap() - 1) as u32) } else { b.pierce },
                        hits,
                    },
                ),
                enemies: f.enemies.insert(c.enemy, EnemyState { health, ..en }),
                destroyed: if killed { f.destroyed.insert(c.enemy) } else { f.destroyed },
                consumed: if pierces { f.consumed } else { f.consumed.insert(c.bullet) },
                events: if pierces {
                    f.events.push(hit_event)
                } else {
                    f.events.push(hit_event).push(CombatEvent::DespawnRequested(c.bullet))
                },
            }
        }
    }
}

/// The frame after the contacts `cs`, taken in order.
pub open spec fn bullet_frames(f: BulletFrame, cs: Seq<BulletEnemyContact>) -> BulletFrame
    decreases cs.len(),
{
    if cs.len() == 0 {
        f
    } else {
        bullet_step(bullet_frames(f, cs.drop_last()), cs.last())
    }
}

fn resolve_one_bullet_contact(
    c: BulletEnemyContact,
    bullets: &mut HashMap<EntityId, BulletState>,
    enemies: &mut HashMap<EntityId, EnemyState>,
    destroyed: &mut HashSet<EntityId>,
    consumed: &mut HashSet<EntityId>,
    events: &mut Vec<CombatEvent>,
)
    ensures
        ({
            let f = bullet_step(
                BulletFrame {
                    bullets: bullets_view(old(bullets)@),
                    enemies: old(enemies)@,
                    destroyed: old(destroyed)@,
                    consumed: old(consumed)@,
                    events: old(events)@,
                },
                c,
            );
            &&& bullets_view(final(bullets)@) == f.bullets
            &&& final(enemies)@ == f.enemies
            &&& final(destroyed)@ == f.destroyed
            &&& final(consumed)@ == f.consumed
            &&& final(events)@ == f.events
        }),
{
    if destroyed.contains(&c.enemy) || consumed.contains(&c.bullet) {
        return;
    }
    let b = match bullets.get(&c.bullet) {
        Some(b) => *b,
        None => {
            return;
        },
    };
    let en = match enemies.get(&c.enemy) {
        Some(e) => *e,
        None => {
            return;
        },
    };
    assert(bullets_view(bullets@)[c.bullet] == b@);
    if en.health.current == 0 {
        return;
    }
    let already_hit = match &b.hit_list {
        Some(h) => h.contains(c.enemy),
        None => false,
    };
    if already_hit {
        return;
    }
    let mut health = en.health;
    let killed = health.damage(1);
    let hit_list = match b.hit_list {
        Some(h) => {
            let mut h2 = h;
            h2.push(c.enemy);
            Some(h2)
        },
        None => None,
    };
    enemies.insert(c.enemy, EnemyState { health, enemy_type: en.enemy_type });
    if killed {
        destroyed.insert(c.enemy);
        events.push(CombatEvent::EnemyDestroyed { entity: c.enemy, score: en.enemy_type.score() });
    } else {
        events.push(CombatEvent::EnemyHit(c.enemy));
    }
    let pierce = match b.pierce {
        Some(p) => {
            if p.0 > 0 {
                Some(Pierce(p.0 - 1))
            } else {
                if consumed.insert(c.bullet) {
                    events.push(CombatEvent::DespawnRequested(c.bullet));
                }
                Some(p)
            }
        },
        None => {
            if consumed.insert(c.bullet) {
                events.push(CombatEvent::DespawnRequested(c.bullet));
            }
            None
        },
    };
    let ghost old_bullets = bullets@;
    bullets.insert(c.bullet, BulletState { pierce, hit_list });
    assert(bullets_view(bullets@) =~= bullets_view(old_bullets).insert(
        c.bullet,
        BulletState { pierce, hit_list }@,
    ));
}

/// Resolves this frame's bullet-asteroid contacts in order, updating the
/// bullets and asteroids and returning the events to act on.
pub fn resolve_bullet_enemy_contacts(
    contacts: &Vec<BulletEnemyContact>,
    bullets: &mut HashMap<EntityId, BulletState>,
    enemies: &mut HashMap<EntityId, EnemyState>,
) -> (events: Vec<CombatEvent>)
    ensures
        ({
            let f = bullet_frames(
                initial_bullet_frame(bullets_view(old(bullets)@), old(enemies)@),
                contacts@,
            );
            &&& bullets_view(final(bullets)@) == f.bullets
            &&& final(enemies)@ == f.enemies
            &&& events@ == f.events
        }),
{
    let ghost f0 = initial_bullet_frame(bullets_view(bullets@), enemies@);
    let mut destroyed: HashSet<EntityId> = HashSet::new();
    let mut consumed: HashSet<EntityId> = HashSet::new();
    let mut events: Vec<CombatEvent> = Vec::new();
    let mut i: usize = 0;
    while i < contacts.len()
        invariant
            0 <= i <= contacts@.len(),
            ({
                let f = bullet_frames(f0, contacts@.take(i as int));
                &&& bullets_view(bullets@) == f.bullets
                &&& enemies@ == f.enemies
                &&& destroyed@ == f.destroyed
                &&& consumed@ == f.consumed
                &&& events@ == f.events
            }),
        decreases contacts@.len() - i,
    {
        assert(contacts@.take(i + 1).drop_last() =~= contacts@.take(i as int));
        resolve_one_bullet_contact(contacts[i], bullets, enemies, &mut destroyed, &mut consumed, &mut events);
        i = i + 1;
    }
    assert(contacts@.take(contacts@.len() as int) =~= contacts@);
    events
}

/// What bullet resolution keeps true: destruction and despawn events are
/// recorded in the frame's sets and never repeat, and every destroyed
/// asteroid sits at zero hit points.
pub open spec fn bullet_frame_inv(f: BulletFrame) -> bool {
    &&& destroyed_at_most_once(f.events)
    &&& despawned_at_most_once(f.events)
    &&& forall|i: int|
        0 <= i < f.events.len() ==> (#[trigger] destroyed_entity(f.events[i]) matches Some(e)
            ==> f.destroyed.contains(e))
    &&& forall|i: int|
        0 <= i < f.events.len() ==> (#[trigger] despawned_entity(f.events[i]) matches Some(b)
            ==> f.consumed.contains(b))
    &&& forall|e: EntityId|
        #[trigger] f.destroyed.contains(e) ==> f.enemies.contains_key(e) && f.enemies[e].health.current
            == 0
}

proof fn lemma_bullet_step_keeps_inv(f: BulletFrame, c: BulletEnemyContact)
    requires
        bullet_frame_inv(f),
    ensures
        bullet_frame_inv(bullet_step(f, c)),
{
    let g = bullet_step(f, c);
    let n = f.events.len();
    assert forall|i: int, j: int|
        0 <= i < j < g.events.len() && (#[trigger] destroyed_entity(g.events[i])) is Some implies destroyed_entity(
        g.events[i],
    ) != #[trigger] destroyed_entity(g.events[j]) by {
        if j >= n {
            if i < n {
                assert(g.events[i] == f.events[i]);
                assert(f.destroyed.contains(destroyed_entity(f.events[i]).unwrap()));
                if destroyed_entity(g.events[j]) is Some {
                    assert(destroyed_entity(g.events[j]) == Some(c.enemy));
                    assert(!f.destroyed.contains(c.enemy));
                }
            }
        } else {
            assert(g.events[i] == f.events[i]);
            assert(g.events[j] == f.events[j]);
        }
    }
    assert forall|i: int, j: int|
        0 <= i < j < g.events.len() && (#[trigger] despawned_entity(g.events[i])) is Some implies despawned_entity(
        g.events[i],
    ) != #[trigger] despawned_entity(g.events[j]) by {
        if j >= n {
            if i < n {
                assert(g.events[i] == f.events[i]);
                assert(f.consumed.contains(despawned_entity(f.events[i]).unwrap()));
                if despawned_entity(g.events[j]) is Some {
                    assert(despawned_entity(g.events[j]) == Some(c.bullet));
                    assert(!f.consumed.contains(c.bullet));
                }
            }
        } else {
            assert(g.events[i] == f.events[i]);
            assert(g.events[j] == f.events[j]);
        }
    }
    assert forall|i: int|
        0 <= i < g.events.len() implies (#[trigger] destroyed_entity(g.events[i]) matches Some(e)
        ==> g.destroyed.contains(e)) by {
        if i < n {
            assert(g.events[i] == f.events[i]);
        }
    }
    assert forall|i: int|
        0 <= i < g.events.len() implies (#[trigger] despawned_entity(g.events[i]) matches Some(b)
        ==> g.consumed.contains(b)) by {
        if i < n {
            assert(g.events[i] == f.events[i]);
        }
    }
}

proof fn lemma_bullet_frames_keep_inv(f: BulletFrame, cs: Seq<BulletEnemyContact>)
    requires
        bullet_frame_inv(f),
    ensures
        bullet_frame_inv(bullet_frames(f, cs)),
    decreases cs.len(),
{
    if cs.len() > 0 {
        lemma_bullet_frames_keep_inv(f, cs.drop_last());
        lemma_bullet_step_keeps_inv(bullet_frames(f, cs.drop_last()), cs.last());
    }
}

/// However many bullets touch an asteroid in one frame, it is destroyed at
/// most once, and only at zero hit points; and no bullet is despawned
/// twice.
pub proof fn lemma_bullet_resolution_destroys_once(
    bullets: Map<EntityId, BulletView>,
    enemies: Map<EntityId, EnemyState>,
    contacts: Seq<BulletEnemyContact>,
)
    ensures
        ({
            let f = bullet_frames(initial_bullet_frame(bullets, enemies), contacts);
            &&& destroyed_at_most_once(f.events)
            &&& despawned_at_most_once(f.events)
            &&& forall|i: int|
                0 <= i < f.events.len() ==> (#[trigger] destroyed_entity(f.events[i]) matches Some(e)
                    ==> f.enemies.contains_key(e) && f.enemies[e].health.current == 0)
        }),
{
    let f0 = initial_bullet_frame(bullets, enemies);
    lemma_bullet_frames_keep_inv(f0, contacts);
}

/// A bullet that hits an asteroid while its hit list has room remembers
/// it, so that in later frames the asteroid is never again the target it
/// picks, among whatever candidates.
pub proof fn lemma_resolved_hit_is_remembered(f: BulletFrame, c: BulletEnemyContact, candidates: Seq<Candidate>)
    requires
        f.bullets.contains_key(c.bullet),
        f.bullets[c.bullet].hits matches Some(h) && h.len() < HIT_LIST_CAPACITY,
    ensures
        bullet_step(f, c).events.len() > f.events.len() ==> {
            &&& bullet_step(f, c).bullets[c.bullet].hits matches Some(h2)
            &&& h2.contains(c.enemy)
            &&& first_target(candidates, h2) != Some(c.enemy)
        },
{
    let g = bullet_step(f, c);
    if g.events.len() > f.events.len() {
        let h = f.bullets[c.bullet].hits.unwrap();
        lemma_push_remembers(h, c.enemy, c.enemy);
        let h2 = push_hit(h, c.enemy);
        assert(g.bullets[c.bullet].hits == Some(h2));
        lemma_bullet_target_is_fresh_overlap(candidates, h2);
    }
}

/// The player as contact resolution sees it.
#[derive(Clone, Copy, Debug, PartialEq, Eq, Structural)]
pub struct PlayerState {
    pub health: Health,
    pub invincible: bool,
}

/// Where player contact resolution stands after some contacts.
pub struct PlayerFrame {
    pub players: Map<EntityId, PlayerState>,
    pub enemies: Map<EntityId, Health>,
    pub handled: Set<EntityId>,
    pub destroyed: Set<EntityId>,
    pub despawned: Set<EntityId>,
    pub events: Seq<CombatEvent>,
}

pub open spec fn initial_player_frame(
    players: Map<EntityId, PlayerState>,
    enemies: Map<EntityId, Health>,
) -> PlayerFrame {
    PlayerFrame {
        players,
        enemies,
        handled: Set::empty(),
        destroyed: Set::empty(),
        despawned: Set::empty(),
        events: Seq::empty(),
    }
}

/// The player after one hit.
pub open spec fn hurt(p: PlayerState) -> PlayerState {
    PlayerState { health: damaged(p.health, 1), ..p }
}

/// One player-asteroid contact. Nothing happens once the player was hurt
/// this frame or the asteroid destroyed, when either is gone, or when the
/// asteroid has no hit points left. An invincible player destroys the
/// asteroid for a few points; otherwise the player loses a hit point and the
/// asteroid is spent.
pub open spec fn enemy_contact_step(f: PlayerFrame, c: PlayerEnemyContact) -> PlayerFrame {
    if f.handled.contains(c.player) || f.destroyed.contains(c.enemy) || !f.players.contains_key(
        c.player,
    ) || !f.enemies.contains_key(c.enemy) || f.enemies[c.enemy].current == 0 {
        f
    } else if f.players[c.player].invincible {
        PlayerFrame {
            destroyed: f.destroyed.insert(c.enemy),
            events: f.events.push(CombatEvent::EnemyDestroyed { entity: c.enemy, score: RAM_SCORE }),
            ..f
        }
    } else {
        let p = hurt(f.players[c.player]);
        PlayerFrame {
            players: f.players.insert(c.player, p),
            handled: f.handled.insert(c.player),
            events: f.events.push(
                CombatEvent::PlayerDamaged {
                    player: c.player,
                    defeated: p.health.current == 0,
                    consumed: c.enemy,
                },
            ),
            ..f
        }
    }
}

/// One player-bullet contact. Nothing happens once the player was hurt this
/// frame or the bullet is gone. An invincible player absorbs the bullet;
/// otherwise the player loses a hit point and the bullet is spent.
pub open spec fn bullet_contact_step(f: PlayerFrame, c: PlayerBulletContact) -> PlayerFrame {
    if f.handled.contains(c.player) || f.despawned.contains(c.bullet) || !f.players.contains_key(
        c.player,
    ) {
        f
    } else if f.players[c.player].invincible {
        PlayerFrame {
            despawned: f.despawned.insert(c.bullet),
            events: f.events.push(CombatEvent::DespawnRequested(c.bullet)),
            ..f
        }
    } else {
        let p = hurt(f.players[c.player]);
        PlayerFrame {
            players: f.players.insert(c.player, p),
            handled: f.handled.insert(c.player),
            events: f.events.push(
                CombatEvent::PlayerDamaged {
                    player: c.player,
                    defeated: p.health.current == 0,
                    consumed: c.bullet,
                },
            ),
            ..f
        }
    }
}

pub open spec fn enemy_contact_frames(f: PlayerFrame, cs: Seq<PlayerEnemyContact>) -> PlayerFrame
    decreases cs.len(),
{
    if cs.len() == 0 {
        f
    } else {
        enemy_contact_step(enemy_contact_frames(f, cs.drop_last()), cs.last())
    }
}

pub open spec fn bullet_contact_frames(f: PlayerFrame, cs: Seq<PlayerBulletContact>) -> PlayerFrame
    decreases cs.len(),
{
    if cs.len() == 0 {
        f
    } else {
        bullet_contact_step(bullet_contact_frames(f, cs.drop_last()), cs.last())
    }
}

/// The frame after all asteroid contacts and then all bullet contacts.
pub open spec fn player_frames(
    players: Map<EntityId, PlayerState>,
    enemies: Map<EntityId, Health>,
    enemy_contacts: Seq<PlayerEnemyContact>,
    bullet_contacts: Seq<PlayerBulletContact>,
) -> PlayerFrame {
    bullet_contact_frames(
        enemy_contact_frames(initial_player_frame(players, enemies), enemy_contacts),
        bullet_contacts,
    )
}

fn resolve_one_enemy_contact(
    c: PlayerEnemyContact,
    players: &mut HashMap<EntityId, PlayerState>,
    enemies: &HashMap<EntityId, Health>,
    handled: &mut HashSet<EntityId>,
    destroyed: &mut HashSet<EntityId>,
    despawned: &HashSet<EntityId>,
    events: &mut Vec<CombatEvent>,
)
    ensures
        ({
            let f = enemy_contact_step(
                PlayerFrame {
                    players: old(players)@,
                    enemies: enemies@,
                    handled: old(handled)@,
                    destroyed: old(destroyed)@,
                    despawned: despawned@,
                    events: old(events)@,
                },
                c,
            );
            &&& final(players)@ == f.players
            &&& final(handled)@ == f.handled
            &&& final(destroyed)@ == f.destroyed
            &&& final(events)@ == f.events
        }),
{
    if handled.contains(&c.player) || destroyed.contains(&c.enemy) {
        return;
    }
    let p = match players.get(&c.player) {
        Some(p) => *p,
        None => {
            return;
        },
    };
    let enemy_health = match enemies.get(&c.enemy) {
        Some(h) => *h,
        None => {
            return;
        },
    };
    if enemy_health.current == 0 {
        return;
    }
    if p.invincible {
        destroyed.insert(c.enemy);
        events.push(CombatEvent::EnemyDestroyed { entity: c.enemy, score: RAM_SCORE });
        return;
    }
    let mut health = p.health;
    let defeated = health.damage(1);
    players.insert(c.player, PlayerState { health, invincible: p.invincible });
    handled.insert(c.player);
    events.push(CombatEvent::PlayerDamaged { player: c.player, defeated, consumed: c.enemy });
}

fn resolve_one_player_bullet_contact(
    c: PlayerBulletContact,
    players: &mut HashMap<EntityId, PlayerState>,
    enemies: &HashMap<EntityId, Health>,
    handled: &mut HashSet<EntityId>,
    destroyed: &HashSet<EntityId>,
    despawned: &mut HashSet<EntityId>,
    events: &mut Vec<CombatEvent>,
)
    ensures
        ({
            let f = bullet_contact_step(
                PlayerFrame {
                    players: old(players)@,
                    enemies: enemies@,
                    handled: old(handled)@,
                    destroyed: destroyed@,
                    despawned: old(despawned)@,
                    events: old(events)@,
                },
                c,
            );
            &&& final(players)@ == f.players
            &&& final(handled)@ == f.handled
            &&& final(despawned)@ == f.despawned
            &&& final(events)@ == f.events
        }),
{
    if handled.contains(&c.player) || despawned.contains(&c.bullet) {
        return;
    }
    let p = match players.get(&c.player) {
        Some(p) => *p,
        None => {
            return;
        },
    };
    if p.invincible {
        if despawned.insert(c.bullet) {
            events.push(CombatEvent::DespawnRequested(c.bullet));
        }
        return;
    }
    let mut health = p.health;
    let defeated = health.damage(1);
    players.insert(c.player, PlayerState { health, invincible: p.invincible });
    handled.insert(c.player);
    events.push(CombatEvent::PlayerDamaged { player: c.player, defeated, consumed: c.bullet });
}

/// Resolves this frame's player contacts: first every asteroid contact in
/// order, then every bullet contact in order. Updates the players and
/// returns the events to act on.
pub fn resolve_player_contacts(
    enemy_contacts: &Vec<PlayerEnemyContact>,
    bullet_contacts: &Vec<PlayerBulletContact>,
    players: &mut HashMap<EntityId, PlayerState>,
    enemies: &HashMap<EntityId, Health>,
) -> (events: Vec<CombatEvent>)
    ensures
        ({
            let f = player_frames(old(players)@, enemies@, enemy_contacts@, bullet_contacts@);
            &&& final(players)@ == f.players
            &&& events@ == f.events
        }),
{
    let ghost f0 = initial_player_frame(players@, enemies@);
    let mut handled: HashSet<EntityId> = HashSet::new();
    let mut destroyed: HashSet<EntityId> = HashSet::new();
    let mut despawned: HashSet<EntityId> = HashSet::new();
    let mut events: Vec<CombatEvent> = Vec::new();
    let mut i: usize = 0;
    while i < enemy_contacts.len()
        invariant
            0 <= i <= enemy_contacts@.len(),
            ({
                let f = enemy_contact_frames(f0, enemy_contacts@.take(i as int));
                &&& players@ == f.players
                &&& enemies@ == f.enemies
                &&& handled@ == f.handled
                &&& destroyed@ == f.destroyed
                &&& despawned@ == f.despawned
                &&& events@ == f.events
            }),
        decreases enemy_contacts@.len() - i,
    {
        assert(enemy_contacts@.take(i + 1).drop_last() =~= enemy_contacts@.take(i as int));
        resolve_one_enemy_contact(
            enemy_contacts[i],
            players,
            enemies,
            &mut handled,
            &mut destroyed,
            &despawned,
            &mut events,
        );
        i = i + 1;
    }
    assert(enemy_contacts@.take(enemy_contacts@.len() as int) =~= enemy_contacts@);
    let ghost f1 = enemy_contact_frames(f0, enemy_contacts@);
    let mut j: usize = 0;
    while j < bullet_contacts.len()
        invariant
            0 <= j <= bullet_contacts@.len(),
            f1 == enemy_contact_frames(f0, enemy_contacts@),
            ({
                let f = bullet_contact_frames(f1, bullet_contacts@.take(j as int));
                &&& players@ == f.players
                &&& enemies@ == f.enemies
                &&& handled@ == f.handled
                &&& destroyed@ == f.destroyed
                &&& despawned@ == f.despawned
                &&& events@ == f.events
            }),
        decreases bullet_contacts@.len() - j,
    {
        assert(bullet_contacts@.take(j + 1).drop_last() =~= bullet_contacts@.take(j as int));
        resolve_one_player_bullet_contact(
            bullet_contacts[j],
            players,
            enemies,
            &mut handled,
            &destroyed,
            &mut despawned,
            &mut events,
        );
        j = j + 1;
    }
    assert(bullet_contacts@.take(bullet_contacts@.len() as int) =~= bullet_contacts@);
    events
}

/// What player contact resolution keeps true relative to the players it
/// started from: the same players are present and keep their invincibility;
/// each was hurt once (and is on the record of handled players, never when
/// invincible) or is untouched; each damage event names a hurt player and
/// says truly whether the hit defeated them; and destruction, despawn and
/// damage events never repeat and are recorded in the frame's sets.
pub open spec fn player_frame_inv(start: Map<EntityId, PlayerState>, f: PlayerFrame) -> bool {
    &&& f.players.dom() == start.dom()
    &&& forall|p: EntityId|
        #[trigger] start.contains_key(p) ==> f.players[p].invincible == start[p].invincible && (if f.handled.contains(p) {
            !start[p].invincible && f.players[p] == hurt(start[p])
        } else {
            f.players[p] == start[p]
        })
    &&& destroyed_at_most_once(f.events)
    &&& despawned_at_most_once(f.events)
    &&& damaged_at_most_once(f.events)
    &&& forall|i: int|
        0 <= i < f.events.len() ==> (#[trigger] destroyed_entity(f.events[i]) matches Some(e)
            ==> f.destroyed.contains(e))
    &&& forall|i: int|
        0 <= i < f.events.len() ==> (#[trigger] despawned_entity(f.events[i]) matches Some(b)
            ==> f.despawned.contains(b))
    &&& forall|i: int|
        0 <= i < f.events.len() ==> (#[trigger] f.events[i] matches CombatEvent::PlayerDamaged {
            player,
            defeated,
            ..
        } ==> start.contains_key(player) && f.handled.contains(player) && defeated == (
        f.players[player].health.current == 0))
}

proof fn lemma_player_steps_keep_inv(
    start: Map<EntityId, PlayerState>,
    f: PlayerFrame,
    ce: PlayerEnemyContact,
    cb: PlayerBulletContact,
)
    requires
        player_frame_inv(start, f),
    ensures
        player_frame_inv(start, enemy_contact_step(f, ce)),
        player_frame_inv(start, bullet_contact_step(f, cb)),
{
    let n = f.events.len();
    let g = enemy_contact_step(f, ce);
    assert forall|i: int| 0 <= i < n implies g.events[i] == f.events[i] by {}
    assert forall|i: int, j: int|
        0 <= i < j < g.events.len() && (#[trigger] destroyed_entity(g.events[i])) is Some implies destroyed_entity(
        g.events[i],
    ) != #[trigger] destroyed_entity(g.events[j]) by {
        if j >= n && i < n {
            assert(f.destroyed.contains(destroyed_entity(f.events[i]).unwrap()));
        }
    }
    assert forall|i: int, j: int|
        0 <= i < j < g.events.len() && (#[trigger] damaged_player(g.events[i])) is Some implies damaged_player(
        g.events[i],
    ) != #[trigger] damaged_player(g.events[j]) by {
        if j >= n && i < n {
            assert(f.events[i] matches CombatEvent::PlayerDamaged { .. });
            assert(f.handled.contains(damaged_player(f.events[i]).unwrap()));
        }
    }
    assert forall|i: int, j: int|
        0 <= i < j < g.events.len() && (#[trigger] despawned_entity(g.events[i])) is Some implies despawned_entity(
        g.events[i],
    ) != #[trigger] despawned_entity(g.events[j]) by {}
    assert forall|i: int|
        0 <= i < g.events.len() implies (#[trigger] g.events[i] matches CombatEvent::PlayerDamaged {
        player,
        defeated,
        ..
    } ==> start.contains_key(player) && g.handled.contains(player) && defeated == (
    g.players[player].health.current == 0)) by {
        if i < n && g.events[i] is PlayerDamaged {
            let p = damaged_player(f.events[i]).unwrap();
            assert(f.handled.contains(p));
        }
    }
    assert(g.players.dom() =~= start.dom());
    let h = bullet_contact_step(f, cb);
    assert forall|i: int| 0 <= i < n implies h.events[i] == f.events[i] by {}
    assert forall|i: int, j: int|
        0 <= i < j < h.events.len() && (#[trigger] despawned_entity(h.events[i])) is Some implies despawned_entity(
        h.events[i],
    ) != #[trigger] despawned_entity(h.events[j]) by {
        if j >= n && i < n {
            assert(f.despawned.contains(despawned_entity(f.events[i]).unwrap()));
        }
    }
    assert forall|i: int, j: int|
        0 <= i < j < h.events.len() && (#[trigger] damaged_player(h.events[i])) is Some implies damaged_player(
        h.events[i],
    ) != #[trigger] damaged_player(h.events[j]) by {
        if j >= n && i < n {
            assert(f.events[i] matches CombatEvent::PlayerDamaged { .. });
            assert(f.handled.contains(damaged_player(f.events[i]).unwrap()));
        }
    }
    assert forall|i: int, j: int|
        0 <= i < j < h.events.len() && (#[trigger] destroyed_entity(h.events[i])) is Some implies destroyed_entity(
        h.events[i],
    ) != #[trigger] destroyed_entity(h.events[j]) by {}
    assert forall|i: int|
        0 <= i < h.events.len() implies (#[trigger] h.events[i] matches CombatEvent::PlayerDamaged {
        player,
        defeated,
        ..
    } ==> start.contains_key(player) && h.handled.contains(player) && defeated == (
    h.players[player].health.current == 0)) by {
        if i < n && h.events[i] is PlayerDamaged {
            let p = damaged_player(f.events[i]).unwrap();
            assert(f.handled.contains(p));
        }
    }
    assert(h.players.dom() =~= start.dom());
}

proof fn lemma_enemy_contact_frames_keep_inv(
    start: Map<EntityId, PlayerState>,
    f: PlayerFrame,
    cs: Seq<PlayerEnemyContact>,
)
    requires
        player_frame_inv(start, f),
    ensures
        player_frame_inv(start, enemy_contact_frames(f, cs)),
    decreases cs.len(),
{
    if cs.len() > 0 {
        lemma_enemy_contact_frames_keep_inv(start, f, cs.drop_last());
        let g = enemy_contact_frames(f, cs.drop_last());
        lemma_player_steps_keep_inv(start, g, cs.last(), PlayerBulletContact { player: 0, bullet: 0 });
    }
}

proof fn lemma_bullet_contact_frames_keep_inv(
    start: Map<EntityId, PlayerState>,
    f: PlayerFrame,
    cs: Seq<PlayerBulletContact>,
)
    requires
        player_frame_inv(start, f),
    ensures
        player_frame_inv(start, bullet_contact_frames(f, cs)),
    decreases cs.len(),
{
    if cs.len() > 0 {
        lemma_bullet_contact_frames_keep_inv(start, f, cs.drop_last());
        let g = bullet_contact_frames(f, cs.drop_last());
        lemma_player_steps_keep_inv(start, g, PlayerEnemyContact { player: 0, enemy: 0 }, cs.last());
    }
}

/// An invincible player takes no damage; any other player is hurt at most
/// once per frame, by exactly one hit point, and the damage event says truly
/// whether that hit defeated them. No asteroid is destroyed twice and no
/// bullet despawned twice.
pub proof fn lemma_player_resolution_hurts_at_most_once(
    players: Map<EntityId, PlayerState>,
    enemies: Map<EntityId, Health>,
    enemy_contacts: Seq<PlayerEnemyContact>,
    bullet_contacts: Seq<PlayerBulletContact>,
)
    ensures
        ({
            let f = player_frames(players, enemies, enemy_contacts, bullet_contacts);
            &&& f.players.dom() == players.dom()
            &&& forall|p: EntityId|
                #[trigger] players.contains_key(p) && players[p].invincible ==> f.players[p]
                    == players[p]
            &&& forall|p: EntityId|
                #[trigger] players.contains_key(p) ==> f.players[p] == players[p] || f.players[p]
                    == hurt(players[p])
            &&& damaged_at_most_once(f.events)
            &&& destroyed_at_most_once(f.events)
            &&& despawned_at_most_once(f.events)
            &&& forall|i: int|
                0 <= i < f.events.len() ==> (#[trigger] f.events[i] matches CombatEvent::PlayerDamaged {
                    player,
                    defeated,
                    ..
                } ==> players.contains_key(player) && f.players[player] == hurt(players[player])
                    && defeated == (f.players[player].health.current == 0))
        }),
{
    let f0 = initial_player_frame(players, enemies);
    assert(f0.players.dom() =~= players.dom());
    lemma_enemy_contact_frames_keep_inv(players, f0, enemy_contacts);
    let f1 = enemy_contact_frames(f0, enemy_contacts);
    lemma_bullet_contact_frames_keep_inv(players, f1, bullet_contacts);
    let f = player_frames(players, enemies, enemy_contacts, bullet_contacts);
    assert forall|i: int|
        0 <= i < f.events.len() implies (#[trigger] f.events[i] matches CombatEvent::PlayerDamaged {
        player,
        defeated,
        ..
    } ==> players.contains_key(player) && f.players[player] == hurt(players[player]) && defeated == (
    f.players[player].health.current == 0)) by {
        if f.events[i] is PlayerDamaged {
            let p = damaged_player(f.events[i]).unwrap();
            assert(players.contains_key(p));
            assert(f.handled.contains(p));
        }
    }
}

} // verus!
