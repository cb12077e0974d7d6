use std::collections::HashMap;

use bevy_shooter::combat::cache::{prepare_collision_cache, CollisionCache};
use bevy_shooter::combat::detect::{
    bullet_enemy_contact, player_contacts, BulletEnemyContact, Candidate,
};
use bevy_shooter::combat::grid::SpatialGrid;
use bevy_shooter::combat::hit_list::{HitList, Pierce};
use bevy_shooter::combat::resolve::{
    resolve_bullet_enemy_contacts, resolve_player_contacts, BulletState, CombatEvent, EnemyState,
    PlayerState, RAM_SCORE,
};
use bevy_shooter::combat::sweep::{
    apply_combat_outcomes, detect_bullet_enemy_collisions, detect_player_collisions,
    shake_strength, BulletProbe, CombatAction, CombatMessage, Shake, ShakeLevel,
};
use bevy_shooter::player::INVINCIBILITY_DURATION;
use bevy_shooter::enemy::EnemyType;
use bevy_shooter::health::{Health, Score};
use bevy_shooter::powerup::PowerUpKind;

fn hit_list_check() {
    let entity: u64 = 7;
    let mut hit_list = HitList::default();

    assert!(!hit_list.contains(entity));
    hit_list.push(entity);
    assert!(hit_list.contains(entity));
}

#[test]
fn combat_hit_list_prevents_duplicate_hits() {
    hit_list_check();
}

#[test]
fn mod_hit_list_prevents_duplicate_hits() {
    hit_list_check();
}

#[test]
fn hit_list_remembers_at_most_three() {
    let mut hit_list = HitList::new();
    for e in 1..=4u64 {
        hit_list.push(e);
    }
    assert_eq!(hit_list.len(), 3);
    assert!(hit_list.contains(3));
    assert!(!hit_list.contains(4));
}

fn overlapping(entity: u64) -> Candidate {
    Candidate { entity, overlaps: true }
}

#[test]
fn multiple_bullet_contacts_only_destroy_enemy_once() {
    let enemy: u64 = 1;
    let bullets_ids = [10u64, 11u64];

    let mut enemies: HashMap<u64, EnemyState> = HashMap::new();
    enemies.insert(enemy, EnemyState { health: Health::new(1), enemy_type: EnemyType::Normal });
    let mut bullets: HashMap<u64, BulletState> = HashMap::new();
    let mut contacts: Vec<BulletEnemyContact> = Vec::new();
    for &b in &bullets_ids {
        bullets.insert(b, BulletState { pierce: None, hit_list: None });
        let candidates = vec![overlapping(enemy)];
        if let Some(c) = bullet_enemy_contact(b, &candidates, None) {
            contacts.push(c);
        }
    }
    assert_eq!(contacts.len(), 2);

    let events = resolve_bullet_enemy_contacts(&contacts, &mut bullets, &mut enemies);

    let mut score = Score(0);
    let mut destroyed = 0;
    for event in &events {
        if let CombatEvent::EnemyDestroyed { score: points, .. } = event {
            score.award(*points);
            destroyed += 1;
        }
    }
    assert_eq!(score.0, 10);
    assert_eq!(destroyed, 1);
    assert_eq!(enemies[&enemy].health.current, 0);
}

#[test]
fn invincible_player_consumes_enemy_and_bullet_without_damage() {
    let player: u64 = 1;
    let enemy: u64 = 2;
    let enemy_bullet: u64 = 3;

    let contacts = player_contacts(player, true, &vec![overlapping(enemy)], &vec![overlapping(enemy_bullet)]);
    let mut players: HashMap<u64, PlayerState> = HashMap::new();
    players.insert(player, PlayerState { health: Health::new(3), invincible: true });
    let mut enemies: HashMap<u64, Health> = HashMap::new();
    enemies.insert(enemy, Health::new(1));

    let events = resolve_player_contacts(&contacts.enemies, &contacts.bullets, &mut players, &enemies);

    assert_eq!(players[&player].health.current, 3);
    let mut score = Score(0);
    let mut enemy_gone = false;
    let mut bullet_gone = false;
    for event in &events {
        match event {
            CombatEvent::EnemyDestroyed { entity, score: points } => {
                score.award(*points);
                enemy_gone |= *entity == enemy;
            }
            CombatEvent::DespawnRequested(b) => bullet_gone |= *b == enemy_bullet,
            _ => {}
        }
    }
    assert_eq!(score.0, 5);
    assert!(enemy_gone);
    assert!(bullet_gone);
}

#[test]
fn vulnerable_player_is_hurt_once_per_frame() {
    let player: u64 = 1;
    let contacts = player_contacts(
        player,
        false,
        &vec![overlapping(2), overlapping(4)],
        &vec![overlapping(3)],
    );
    assert_eq!(contacts.enemies.len(), 1);
    assert_eq!(contacts.bullets.len(), 0);

    let mut players: HashMap<u64, PlayerState> = HashMap::new();
    players.insert(player, PlayerState { health: Health::new(1), invincible: false });
    let mut enemies: HashMap<u64, Health> = HashMap::new();
    enemies.insert(2, Health::new(1));
    let events = resolve_player_contacts(&contacts.enemies, &contacts.bullets, &mut players, &enemies);
    assert_eq!(
        events,
        vec![CombatEvent::PlayerDamaged { player, defeated: true, consumed: 2 }]
    );
    assert_eq!(players[&player].health.current, 0);
}

#[test]
fn piercing_bullet_spends_a_charge_and_skips_remembered_asteroids() {
    let mut hits = HitList::new();
    hits.push(5);
    let candidates = vec![overlapping(5), Candidate { entity: 6, overlaps: false }, overlapping(7)];
    let contact = bullet_enemy_contact(10, &candidates, Some(&hits));
    assert_eq!(contact, Some(BulletEnemyContact { bullet: 10, enemy: 7 }));

    let mut bullets: HashMap<u64, BulletState> = HashMap::new();
    bullets.insert(10, BulletState { pierce: Some(Pierce(2)), hit_list: Some(hits) });
    let mut enemies: HashMap<u64, EnemyState> = HashMap::new();
    enemies.insert(7, EnemyState { health: Health::new(3), enemy_type: EnemyType::Chaser });
    let events = resolve_bullet_enemy_contacts(&vec![contact.unwrap()], &mut bullets, &mut enemies);
    assert_eq!(events, vec![CombatEvent::EnemyHit(7)]);
    assert_eq!(bullets[&10].pierce, Some(Pierce(1)));
    assert!(bullets[&10].hit_list.unwrap().contains(7));
    assert_eq!(enemies[&7].health.current, 2);
}

fn ready_cache() -> CollisionCache {
    let mut cache = CollisionCache::new();
    prepare_collision_cache(&mut cache, false, 8, 8, &vec![(1, 1)], &vec![(2, 2)]);
    cache
}

fn probe(entity: u64, enemy: u64, pierce: Option<Pierce>, drop: Option<PowerUpKind>) -> BulletProbe {
    BulletProbe {
        entity,
        candidates: vec![overlapping(enemy)],
        state: BulletState { pierce, hit_list: None },
        drop,
    }
}

#[test]
fn sweep_destroys_an_asteroid_once_and_scores_it() {
    let mut cache = ready_cache();
    let mut enemies: HashMap<u64, EnemyState> = HashMap::new();
    enemies.insert(1, EnemyState { health: Health::new(1), enemy_type: EnemyType::Normal });
    let probes = vec![probe(10, 1, None, Some(PowerUpKind::Shield)), probe(11, 1, None, None)];

    let sweep = detect_bullet_enemy_collisions(&mut cache, &probes, &mut enemies);
    assert_eq!(
        sweep.messages,
        vec![
            CombatMessage::EnemyDestroyed { entity: 1, score: 10, drop: Some(PowerUpKind::Shield) },
            CombatMessage::Despawn(10),
        ]
    );
    assert_eq!(sweep.states.len(), 2);
    assert!(cache.hit_enemies.contains(&1));
    assert!(cache.hit_bullets.contains(&10));

    let mut score = Score(0);
    let outcome = apply_combat_outcomes(&sweep.messages, &mut score);
    assert_eq!(score.0, 10);
    assert_eq!(
        outcome.actions,
        vec![
            CombatAction::Despawn(1),
            CombatAction::Explode(1),
            CombatAction::SpawnPickup { at: 1, kind: PowerUpKind::Shield },
            CombatAction::Despawn(10),
        ]
    );
    assert_eq!(outcome.shake, ShakeLevel::Destroyed);
}

#[test]
fn sweep_piercing_bullet_keeps_flying() {
    let mut cache = ready_cache();
    let mut enemies: HashMap<u64, EnemyState> = HashMap::new();
    enemies.insert(1, EnemyState { health: Health::new(2), enemy_type: EnemyType::Zigzag });
    let probes = vec![probe(10, 1, Some(Pierce(1)), None)];
    let sweep = detect_bullet_enemy_collisions(&mut cache, &probes, &mut enemies);
    assert_eq!(sweep.messages, vec![CombatMessage::EnemyHit(1)]);
    assert_eq!(sweep.states[0].pierce, Some(Pierce(0)));
    assert!(!cache.hit_bullets.contains(&10));
    assert_eq!(enemies[&1].health.current, 1);
}

#[test]
fn sweep_invincible_player_rams_without_damage() {
    let mut cache = ready_cache();
    let mut health = Health::new(3);
    let messages = detect_player_collisions(
        &mut cache,
        99,
        &mut health,
        true,
        &vec![overlapping(1), overlapping(1)],
        &vec![overlapping(3), Candidate { entity: 4, overlaps: false }],
    );
    assert_eq!(
        messages,
        vec![
            CombatMessage::EnemyDestroyed { entity: 1, score: RAM_SCORE, drop: None },
            CombatMessage::Despawn(3),
        ]
    );
    assert_eq!(health.current, 3);

    let mut score = Score(0);
    let outcome = apply_combat_outcomes(&messages, &mut score);
    assert_eq!(score.0, 5);
    assert_eq!(outcome.shake, ShakeLevel::Destroyed);
}

#[test]
fn sweep_player_skips_asteroids_already_used_up() {
    let mut cache = ready_cache();
    cache.hit_enemies.insert(1);
    let mut health = Health::new(2);
    let messages = detect_player_collisions(
        &mut cache,
        99,
        &mut health,
        false,
        &vec![overlapping(1)],
        &vec![overlapping(3)],
    );
    assert_eq!(
        messages,
        vec![CombatMessage::PlayerDamaged { player: 99, defeated: false, consumed: 3 }]
    );
    assert_eq!(health.current, 1);
}

#[test]
fn outcomes_despawn_once_and_end_the_game_on_defeat() {
    let messages = vec![
        CombatMessage::EnemyHit(5),
        CombatMessage::Despawn(7),
        CombatMessage::PlayerDamaged { player: 1, defeated: false, consumed: 7 },
        CombatMessage::PlayerDamaged { player: 1, defeated: true, consumed: 8 },
    ];
    let mut score = Score(3);
    let outcome = apply_combat_outcomes(&messages, &mut score);
    assert_eq!(score.0, 3);
    assert_eq!(
        outcome.actions,
        vec![
            CombatAction::Flash(5),
            CombatAction::Despawn(7),
            CombatAction::GrantInvincibility { player: 1, duration: INVINCIBILITY_DURATION },
            CombatAction::Despawn(8),
            CombatAction::GameOver,
        ]
    );
    assert_eq!(outcome.shake, ShakeLevel::Defeated);
    assert_eq!(outcome.camera_shake, Some(Shake { magnitude: 20, duration: 300_000_000 }));

    let quiet = apply_combat_outcomes(&Vec::new(), &mut score);
    assert!(quiet.actions.is_empty());
    assert_eq!(quiet.shake, ShakeLevel::Still);
    assert_eq!(quiet.camera_shake, None);

    let despawns_only = apply_combat_outcomes(&vec![CombatMessage::Despawn(4)], &mut score);
    assert_eq!(despawns_only.camera_shake, None);
    let hit_and_destroyed = apply_combat_outcomes(
        &vec![CombatMessage::EnemyHit(5), CombatMessage::EnemyDestroyed { entity: 6, score: 20, drop: None }],
        &mut score,
    );
    assert_eq!(hit_and_destroyed.camera_shake, Some(Shake { magnitude: 4, duration: 60_000_000 }));
    assert_eq!(score.0, 23);
    assert_eq!(shake_strength(ShakeLevel::Hit), Some(Shake { magnitude: 2, duration: 30_000_000 }));
    assert_eq!(shake_strength(ShakeLevel::Damaged), Some(Shake { magnitude: 14, duration: 150_000_000 }));
}

#[test]
fn grid_cells_hold_what_was_inserted() {
    let mut grid = SpatialGrid::new();
    grid.rebuild(4, 3);
    assert_eq!(grid.cols(), 4);
    assert_eq!(grid.rows(), 3);
    grid.insert_center(0, 1, 1);
    grid.insert_center(1, 1, 1);
    grid.insert_center(2, 3, 2);
    grid.insert_center(3, 4, 0);
    assert_eq!(grid.cell_index(1, 1), Some(5));
    assert_eq!(grid.cell_index(4, 0), None);
    assert_eq!(grid.get_cell(1, 1).unwrap().to_vec(), vec![0, 1]);
    assert_eq!(grid.get_cell(3, 2).unwrap().to_vec(), vec![2]);
    assert!(grid.get_cell(-1, 0).is_none());
    assert_eq!(grid.neighborhood(2, 1, 1), vec![0, 1, 2]);
    assert!(grid.neighborhood(1, 1, -1).is_empty());
    grid.clear();
    assert!(grid.get_cell(1, 1).unwrap().is_empty());
    assert_eq!(grid.cols(), 4);
}

#[test]
fn collision_cache_prepares_and_fills_grids() {
    let mut cache = CollisionCache::new();
    cache.hit_enemies.insert(5);
    prepare_collision_cache(&mut cache, false, 6, 6, &vec![(0, 0), (5, 5), (9, 9)], &vec![(2, 3)]);
    assert!(cache.reserved);
    assert!(cache.hit_enemies.is_empty());
    assert_eq!(cache.enemy_grid().cols(), 6);
    assert_eq!(cache.enemy_grid().get_cell(0, 0).unwrap().to_vec(), vec![0]);
    assert_eq!(cache.enemy_grid().get_cell(5, 5).unwrap().to_vec(), vec![1]);
    assert_eq!(cache.enemy_bullet_grid().get_cell(2, 3).unwrap().to_vec(), vec![0]);

    prepare_collision_cache(&mut cache, true, 3, 2, &vec![(2, 1)], &vec![]);
    assert_eq!(cache.enemy_grid().cols(), 3);
    assert_eq!(cache.enemy_grid().rows(), 2);
    assert_eq!(cache.enemy_grid().get_cell(2, 1).unwrap().to_vec(), vec![0]);
    assert!(cache.enemy_grid().get_cell(0, 0).unwrap().is_empty());
    assert!(cache.enemy_bullet_grid().get_cell(2, 3).is_none());
}
