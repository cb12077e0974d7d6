use bevy_shooter::enemy::{
    enemy_fire_interval_for_level, enemy_spawner, enemy_tint, enemy_type_for_roll,
    random_enemy_type, reset_enemy_progress, retime_spawn_state, spawn_interval_for_level,
    speed_multiplier_permille_for_level, sync_spawn_interval, Difficulty, EnemyFireTimer,
    EnemyHitFlash, EnemyTint, EnemyType, SpawnState,
};
use bevy_shooter::timer::NANOS_PER_MILLI;

fn descriptors_check() {
    assert_eq!(EnemyType::Normal.initial_hp(), 1);
    assert_eq!(EnemyType::Zigzag.initial_hp(), 2);
    assert_eq!(EnemyType::Chaser.initial_hp(), 3);
    assert_eq!(EnemyType::Normal.score(), 10);
    assert_eq!(EnemyType::Zigzag.score(), 20);
    assert_eq!(EnemyType::Chaser.score(), 30);
}

#[test]
fn enemy_enemy_type_descriptors_match_expected_balance() {
    descriptors_check();
}

#[test]
fn mod_enemy_type_descriptors_match_expected_balance() {
    descriptors_check();
}

fn difficulty_check() {
    assert_eq!(spawn_interval_for_level(0), 1_000_000_000);
    assert_eq!(spawn_interval_for_level(10), 300_000_000);
    assert_eq!(enemy_fire_interval_for_level(0), 2_000_000_000);
    assert_eq!(enemy_fire_interval_for_level(10), 500_000_000);
}

#[test]
fn enemy_difficulty_helpers_clamp_to_limits() {
    difficulty_check();
}

#[test]
fn mod_difficulty_helpers_clamp_to_limits() {
    difficulty_check();
}

#[test]
fn spawn_timer_rescale_preserves_progress_fraction() {
    let mut spawn = SpawnState::default();
    spawn.timer.tick(400 * NANOS_PER_MILLI);

    retime_spawn_state(&mut spawn, 500 * NANOS_PER_MILLI);

    assert_eq!(spawn.current_interval, 500 * NANOS_PER_MILLI);
    assert_eq!(spawn.timer.elapsed(), 200 * NANOS_PER_MILLI);
}

#[test]
fn difficulty_curves_step_and_saturate() {
    assert_eq!(spawn_interval_for_level(1), 850_000_000);
    assert_eq!(spawn_interval_for_level(4), 400_000_000);
    assert_eq!(spawn_interval_for_level(5), 300_000_000);
    assert_eq!(enemy_fire_interval_for_level(3), 1_400_000_000);
    assert_eq!(speed_multiplier_permille_for_level(0), 1000);
    assert_eq!(speed_multiplier_permille_for_level(3), 1300);
    assert_eq!(speed_multiplier_permille_for_level(50), 2000);
    for level in 0..20 {
        assert!(spawn_interval_for_level(level + 1) <= spawn_interval_for_level(level));
        assert!(enemy_fire_interval_for_level(level + 1) <= enemy_fire_interval_for_level(level));
    }
}

#[test]
fn spawn_weights_follow_the_level() {
    assert_eq!(EnemyType::Normal.spawn_weight(0), 1);
    assert_eq!(EnemyType::Zigzag.spawn_weight(1), 0);
    assert_eq!(EnemyType::Chaser.spawn_weight(1), 0);
    for level in 2..6 {
        assert!(EnemyType::Zigzag.spawn_weight(level) > 0);
    }
    assert_eq!(enemy_type_for_roll(0, 0), EnemyType::Normal);
    assert_eq!(enemy_type_for_roll(5, 0), EnemyType::Normal);
    assert_eq!(enemy_type_for_roll(5, 4), EnemyType::Normal);
    assert_ne!(enemy_type_for_roll(5, 5), EnemyType::Normal);
}

#[test]
fn random_enemy_types_use_every_kind_at_high_levels() {
    for _ in 0..50 {
        assert_eq!(random_enemy_type(0), EnemyType::Normal);
    }
    let mut seen_other = false;
    for _ in 0..400 {
        if random_enemy_type(10) != EnemyType::Normal {
            seen_other = true;
        }
    }
    assert!(seen_other);
}

#[test]
fn difficulty_rises_every_fifteen_seconds() {
    let mut d = Difficulty::new();
    d.update(14_999 * NANOS_PER_MILLI);
    assert_eq!(d.level, 0);
    d.update(NANOS_PER_MILLI);
    assert_eq!(d.level, 1);
    d.update(30_000 * NANOS_PER_MILLI);
    assert_eq!(d.level, 3);
    d.update(u64::MAX);
    assert_eq!(d.elapsed_time, u64::MAX);
}

#[test]
fn spawn_counts_are_capped_per_tick() {
    let mut spawn = SpawnState::new();
    assert_eq!(spawn.spawn_count_for_tick(999 * NANOS_PER_MILLI), 0);
    assert_eq!(spawn.spawn_count_for_tick(NANOS_PER_MILLI), 1);
    assert_eq!(spawn.spawn_count_for_tick(10_000 * NANOS_PER_MILLI), 3);

    let mut fire = EnemyFireTimer::new(500 * NANOS_PER_MILLI);
    assert_eq!(fire.shots_for_tick(500 * NANOS_PER_MILLI), 1);
    assert_eq!(fire.shots_for_tick(5_000 * NANOS_PER_MILLI), 2);
}

#[test]
fn spawner_retimes_to_the_level_and_draws_kinds() {
    let mut spawn = SpawnState::new();
    let mut difficulty = Difficulty::new();
    difficulty.update(30_000 * NANOS_PER_MILLI);
    assert_eq!(difficulty.level, 2);
    spawn.timer.tick(500 * NANOS_PER_MILLI);

    let kinds = enemy_spawner(&mut spawn, &difficulty, 350 * NANOS_PER_MILLI);
    assert_eq!(spawn.current_interval, 700 * NANOS_PER_MILLI);
    assert_eq!(kinds.len(), 1);
    assert_eq!(spawn.timer.elapsed(), 0);

    sync_spawn_interval(&mut spawn, &difficulty);
    assert_eq!(spawn.current_interval, 700 * NANOS_PER_MILLI);

    reset_enemy_progress(&mut spawn, &mut difficulty);
    assert_eq!(spawn.current_interval, 1_000 * NANOS_PER_MILLI);
    assert_eq!(difficulty.level, 0);
}

#[test]
fn hit_flash_runs_its_course() {
    let mut flash = Some(EnemyHitFlash::new());
    assert_eq!(enemy_tint(false, &mut flash, 30 * NANOS_PER_MILLI), EnemyTint::Flash);
    assert_eq!(
        enemy_tint(false, &mut flash, 30 * NANOS_PER_MILLI),
        EnemyTint::HealthColor { flash_ended: true }
    );
    let mut none: Option<EnemyHitFlash> = None;
    assert_eq!(enemy_tint(true, &mut none, 1), EnemyTint::HealthColor { flash_ended: false });
    assert_eq!(enemy_tint(false, &mut none, 1), EnemyTint::Unchanged);
}
