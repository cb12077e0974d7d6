use bevy_shooter::health::{Health, Score};
use bevy_shooter::state::{
    enter_game, gameover_input, gameplay_active, handle_keys, menu_input, pause_input, GameState,
    PlayState,
};
use bevy_shooter::timer::{Lifetime, Timer, TimerMode, NANOS_PER_MILLI, NANOS_PER_SECOND};

#[test]
fn once_timer_finishes_and_stays_finished() {
    let mut t = Timer::new(NANOS_PER_SECOND, TimerMode::Once);
    t.tick(700 * NANOS_PER_MILLI);
    assert!(!t.is_finished());
    assert_eq!(t.remaining(), 300 * NANOS_PER_MILLI);
    t.tick(700 * NANOS_PER_MILLI);
    assert!(t.is_finished());
    assert_eq!(t.elapsed(), NANOS_PER_SECOND);
    assert_eq!(t.times_finished_this_tick(), 1);
    t.tick(700 * NANOS_PER_MILLI);
    assert!(t.is_finished());
    assert_eq!(t.times_finished_this_tick(), 0);
    t.reset();
    assert!(!t.is_finished());
    assert_eq!(t.elapsed(), 0);
}

#[test]
fn repeating_timer_counts_whole_periods_and_keeps_the_rest() {
    let mut t = Timer::new(300 * NANOS_PER_MILLI, TimerMode::Repeating);
    t.tick(1_000 * NANOS_PER_MILLI);
    assert_eq!(t.times_finished_this_tick(), 3);
    assert_eq!(t.elapsed(), 100 * NANOS_PER_MILLI);
    t.tick(100 * NANOS_PER_MILLI);
    assert_eq!(t.times_finished_this_tick(), 0);
    assert!(!t.is_finished());
    assert_eq!(t.mode(), TimerMode::Repeating);

    let ready = Timer::ready_once(200 * NANOS_PER_MILLI);
    assert!(ready.is_finished());
    assert_eq!(ready.duration(), 200 * NANOS_PER_MILLI);
}

#[test]
fn lifetimes_run_out() {
    let mut life = Lifetime::new(3 * NANOS_PER_SECOND);
    assert!(!life.tick(2 * NANOS_PER_SECOND));
    assert!(life.tick(NANOS_PER_SECOND));
}

#[test]
fn screens_answer_their_keys() {
    assert_eq!(GameState::initial(), GameState::Menu);
    assert_eq!(PlayState::initial(), PlayState::Playing);
    assert_eq!(menu_input(true), Some(GameState::InGame));
    assert_eq!(menu_input(false), None);
    assert_eq!(gameover_input(true), Some(GameState::InGame));
    assert_eq!(pause_input(true, PlayState::Playing), Some(PlayState::Paused));
    assert_eq!(pause_input(true, PlayState::Paused), Some(PlayState::Playing));
    assert_eq!(pause_input(false, PlayState::Playing), None);
    assert_eq!(handle_keys(GameState::Menu, PlayState::Playing, true, true), (Some(GameState::InGame), None));
    assert_eq!(handle_keys(GameState::InGame, PlayState::Playing, true, true), (None, Some(PlayState::Paused)));
    assert_eq!(handle_keys(GameState::GameOver, PlayState::Paused, false, true), (None, None));
    assert!(gameplay_active(GameState::InGame, PlayState::Playing));
    assert!(!gameplay_active(GameState::InGame, PlayState::Paused));
    assert!(!gameplay_active(GameState::Menu, PlayState::Playing));
}

#[test]
fn pausing_twice_resumes() {
    let paused = handle_keys(GameState::InGame, PlayState::Playing, false, true).1.unwrap();
    let resumed = handle_keys(GameState::InGame, paused, false, true).1.unwrap();
    assert_eq!(resumed, PlayState::Playing);
}

#[test]
fn entering_a_game_clears_the_score() {
    let mut score = Score(120);
    assert_eq!(enter_game(&mut score), PlayState::Playing);
    assert_eq!(score.0, 0);
    score.award(30);
    assert_eq!(score.0, 30);
}

#[test]
fn healing_what_was_lost_restores_health() {
    let mut h = Health::new(3);
    assert!(!h.damage(1));
    h.heal(1);
    assert_eq!(h, Health::new(3));

    let mut once = Health::new(5);
    once.damage(3);
    let mut twice = Health::new(5);
    twice.damage(1);
    twice.damage(2);
    assert_eq!(once, twice);
    assert!(twice.damage(10));
    assert_eq!(twice.current, 0);
}
