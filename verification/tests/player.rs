use bevy_shooter::armory::{player_shoot, FireAngles, PlayerStatus, PlayerWeapons as Gun};
use bevy_shooter::health::Health;
use bevy_shooter::hud::{
    append_effect_line, effect_label, powerup_lines, update_powerup_ui, EffectLine,
};
use bevy_shooter::player::{
    invincibility_after_damage, plan_shot, tick_effect, tick_temporary_effects, EffectKind,
    PlayerEffectSnapshot, PlayerWeapons, ShotPlan, TimedEffect, FIRE_COOLDOWN,
    INVINCIBILITY_DURATION, PIERCE_SHOT_CHARGES, RAPID_FIRE_COOLDOWN,
};
use bevy_shooter::powerup::{
    apply_powerup, powerup_kind_for_roll, roll_drop, PowerUpEffect, PowerUpKind,
    POWERUP_PIERCE_DURATION, POWERUP_RAPID_DURATION, POWERUP_TRIPLE_DURATION,
};
use bevy_shooter::timer::{Timer, TimerMode, NANOS_PER_MILLI, NANOS_PER_SECOND};

#[test]
fn player_weapons_expire_cleanly() {
    let mut weapons = Gun::new();
    weapons.activate_triple_shot(NANOS_PER_SECOND);
    weapons.activate_rapid_fire(NANOS_PER_SECOND);
    weapons.activate_pierce_shot(NANOS_PER_SECOND);

    let expired = weapons.tick(1_500 * NANOS_PER_MILLI);

    assert!(expired.triple_shot);
    assert!(expired.rapid_fire);
    assert!(expired.pierce_shot);
    assert!(weapons.remaining_triple_shot().is_none());
    assert!(weapons.remaining_rapid_fire().is_none());
    assert!(weapons.remaining_pierce_shot().is_none());
}

#[test]
fn player_status_reports_invincibility() {
    let mut status = PlayerStatus::default();
    assert!(!status.is_invincible());

    status.grant_invincibility(INVINCIBILITY_DURATION);

    assert!(status.is_invincible());
    assert!(status.remaining_invincibility().is_some());
}

#[test]
fn player_weapons_adjust_cooldown_for_rapid_fire() {
    let mut weapons = PlayerWeapons::new();

    weapons.reset_fire_cooldown(false);
    let normal_cooldown = weapons.fire_cooldown.duration();

    weapons.reset_fire_cooldown(true);
    let rapid_cooldown = weapons.fire_cooldown.duration();

    assert!(rapid_cooldown < normal_cooldown);
}

#[test]
fn timed_effect_components_report_remaining_time() {
    let mut effect = TimedEffect::new(NANOS_PER_SECOND);
    effect.tick(400 * NANOS_PER_MILLI);

    assert!(effect.remaining_secs() > 500 * NANOS_PER_MILLI);
    assert!(!effect.is_finished());
}

#[test]
fn surviving_player_damage_grants_invincibility() {
    let granted = invincibility_after_damage(false);
    assert!(granted.is_some());
    assert_eq!(granted.unwrap().remaining_secs(), INVINCIBILITY_DURATION);
    assert!(invincibility_after_damage(true).is_none());
}

#[test]
fn powerups_apply_expected_state_changes() {
    let mut health = Health::new(3);
    health.current = 2;
    let mut triple_shot: Option<TimedEffect> = None;
    let mut rapid_fire: Option<TimedEffect> = None;
    let mut pierce_shot: Option<TimedEffect> = None;

    for kind in [
        PowerUpKind::TripleShot,
        PowerUpKind::RapidFire,
        PowerUpKind::PierceShot,
        PowerUpKind::Shield,
    ] {
        match apply_powerup(kind, &mut health) {
            PowerUpEffect::Grant { effect, timer } => match effect {
                EffectKind::TripleShot => triple_shot = Some(timer),
                EffectKind::RapidFire => rapid_fire = Some(timer),
                EffectKind::PierceShot => pierce_shot = Some(timer),
                EffectKind::Invincible => panic!("no power-up grants invincibility"),
            },
            PowerUpEffect::Healed => {}
        }
    }

    assert!(triple_shot.is_some());
    assert!(rapid_fire.is_some());
    assert!(pierce_shot.is_some());
    assert_eq!(health.current, 3);
    assert_eq!(triple_shot.unwrap().remaining_secs(), POWERUP_TRIPLE_DURATION);
    assert_eq!(rapid_fire.unwrap().remaining_secs(), POWERUP_RAPID_DURATION);
    assert_eq!(pierce_shot.unwrap().remaining_secs(), POWERUP_PIERCE_DURATION);
}

#[test]
fn collecting_powerup_despawns_pickup_and_applies_effect() {
    let mut health = Health::new(3);
    health.current = 2;
    assert!(matches!(apply_powerup(PowerUpKind::Shield, &mut health), PowerUpEffect::Healed));
    assert_eq!(health.current, 3);
}

#[test]
fn shield_never_heals_past_the_maximum() {
    let mut health = Health::new(3);
    apply_powerup(PowerUpKind::Shield, &mut health);
    assert_eq!(health.current, 3);
    health.damage(5);
    assert_eq!(health.current, 0);
    health.heal(2);
    assert_eq!(health.current, 2);
}

#[test]
fn drops_pick_each_kind_by_its_roll() {
    assert_eq!(powerup_kind_for_roll(0), PowerUpKind::TripleShot);
    assert_eq!(powerup_kind_for_roll(1), PowerUpKind::RapidFire);
    assert_eq!(powerup_kind_for_roll(2), PowerUpKind::PierceShot);
    assert_eq!(powerup_kind_for_roll(3), PowerUpKind::Shield);
    assert!(roll_drop(false).is_none());
    let mut seen = [false; 4];
    for _ in 0..400 {
        match roll_drop(true) {
            Some(PowerUpKind::TripleShot) => seen[0] = true,
            Some(PowerUpKind::RapidFire) => seen[1] = true,
            Some(PowerUpKind::PierceShot) => seen[2] = true,
            Some(PowerUpKind::Shield) => seen[3] = true,
            None => panic!("a drop was due"),
        }
    }
    assert!(seen.iter().all(|s| *s));
}

#[test]
fn shots_follow_the_power_ups_carried() {
    let mut weapons = PlayerWeapons::new();
    assert_eq!(plan_shot(false, &mut weapons, true, true, true), None);
    let plan = plan_shot(true, &mut weapons, true, true, true);
    assert_eq!(plan, Some(ShotPlan { spread: true, pierce_charges: Some(PIERCE_SHOT_CHARGES) }));
    assert_eq!(weapons.fire_cooldown.duration(), RAPID_FIRE_COOLDOWN);
    assert_eq!(plan_shot(true, &mut weapons, false, false, false), None);
    weapons.tick_cooldown(RAPID_FIRE_COOLDOWN);
    assert_eq!(
        plan_shot(true, &mut weapons, false, false, false),
        Some(ShotPlan { spread: false, pierce_charges: None })
    );
    assert_eq!(weapons.fire_cooldown.duration(), FIRE_COOLDOWN);

    let mut gun = Gun::new();
    assert_eq!(gun.fire_angles(), FireAngles::Single);
    gun.activate_triple_shot(NANOS_PER_SECOND);
    assert_eq!(gun.fire_angles(), FireAngles::Spread);
    assert_eq!(
        player_shoot(true, &mut gun),
        Some(ShotPlan { spread: true, pierce_charges: None })
    );
    assert!(!gun.ready_to_fire());
    assert_eq!(player_shoot(true, &mut gun), None);
    gun.tick(FIRE_COOLDOWN);
    assert!(gun.ready_to_fire());
}

#[test]
fn effects_wear_off_after_their_duration() {
    let mut effect = Some(TimedEffect::new(NANOS_PER_SECOND));
    assert!(!tick_effect(&mut effect, 600 * NANOS_PER_MILLI));
    assert!(effect.is_some());
    assert!(tick_effect(&mut effect, 400 * NANOS_PER_MILLI));
    assert!(effect.is_none());
    assert!(!tick_effect(&mut effect, NANOS_PER_SECOND));

    let mut triple = Some(TimedEffect::new(NANOS_PER_SECOND));
    let mut rapid = Some(TimedEffect::new(3 * NANOS_PER_SECOND));
    let mut pierce: Option<TimedEffect> = None;
    let mut invincible = invincibility_after_damage(false);
    let expired = tick_temporary_effects(&mut triple, &mut rapid, &mut pierce, &mut invincible, 2 * NANOS_PER_SECOND);
    assert!(expired.triple_shot && !expired.rapid_fire && !expired.pierce_shot && expired.invincible);
    assert!(triple.is_none() && rapid.is_some() && invincible.is_none());
}

#[test]
fn invincibility_blinks_and_ends() {
    let mut status = PlayerStatus::default();
    assert!(status.tick_invincibility(NANOS_PER_MILLI));
    status.grant_invincibility(INVINCIBILITY_DURATION);
    assert!(status.tick_invincibility(50 * NANOS_PER_MILLI));
    assert!(!status.tick_invincibility(100 * NANOS_PER_MILLI));
    assert!(status.tick_invincibility(100 * NANOS_PER_MILLI));
    assert!(status.tick_invincibility(2 * NANOS_PER_SECOND));
    assert!(!status.is_invincible());

    let blinking = invincibility_after_damage(false).unwrap();
    let snapshot = PlayerEffectSnapshot::from_components(None, None, None, Some(&blinking));
    assert!(snapshot.is_invincible());
    assert!(snapshot.invincible_visible());
    assert!(!snapshot.has_triple_shot());
}

#[test]
fn powerup_lines_skip_missing_effects() {
    let text = powerup_lines(None, None, None, None);
    assert!(text.is_empty());
}

#[test]
fn powerup_lines_list_effects_with_time_left_in_order() {
    let lines = powerup_lines(Some(3), Some(0), None, Some(7));
    assert_eq!(
        lines,
        vec![
            EffectLine { kind: EffectKind::TripleShot, remaining: 3 },
            EffectLine { kind: EffectKind::Invincible, remaining: 7 },
        ]
    );
    let mut more = lines.clone();
    append_effect_line(&mut more, EffectKind::PierceShot, Some(1));
    assert_eq!(more.len(), 3);
    assert_eq!(effect_label(EffectKind::TripleShot), "TRIPLE");
    assert_eq!(effect_label(EffectKind::Invincible), "INVINCIBLE");
}

#[test]
fn powerup_list_refreshes_ten_times_a_second() {
    let mut ui_timer = Timer::new(0, TimerMode::Once);
    assert!(update_powerup_ui(&mut ui_timer, 50 * NANOS_PER_MILLI, Some(1), None, None, None).is_none());
    let lines = update_powerup_ui(&mut ui_timer, 50 * NANOS_PER_MILLI, Some(1), None, None, None);
    assert_eq!(lines.unwrap().len(), 1);
    assert!(update_powerup_ui(&mut ui_timer, 10 * NANOS_PER_MILLI, Some(1), None, None, None).is_none());
}

#[test]
fn carried_power_ups_report_time_left_until_they_expire() {
    let mut gun = Gun::new();
    gun.activate_rapid_fire(NANOS_PER_SECOND);
    let expired = gun.tick(999 * NANOS_PER_MILLI);
    assert!(!expired.rapid_fire);
    assert_eq!(gun.remaining_rapid_fire(), Some(NANOS_PER_MILLI));
    assert!(gun.remaining_triple_shot().is_none());
    gun.reset_fire_cooldown();
    assert_eq!(gun.fire_cooldown.duration(), RAPID_FIRE_COOLDOWN);
    let expired = gun.tick(NANOS_PER_MILLI);
    assert!(expired.rapid_fire);
    assert!(gun.rapid_fire.is_none());
}
