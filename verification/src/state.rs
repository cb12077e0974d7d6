//! The game's screens and the keys that move between them.
use vstd::prelude::*;

use crate::health::Score;

verus! {

/// The screen the game is on.
#[derive(Clone, Copy, Debug, PartialEq, Eq, Structural)]
pub enum GameState {
    Menu,
    InGame,
    GameOver,
}

/// Whether the running game is paused.
#[derive(Clone, Copy, Debug, PartialEq, Eq, Structural)]
pub enum PlayState {
    Playing,
    Paused,
}

impl GameState {
    /// The game starts on the menu.
    pub fn initial() -> (s: GameState)
        ensures
            s == GameState::Menu,
    {
        GameState::Menu
    }
}

impl PlayState {
    /// The game starts unpaused.
    pub fn initial() -> (s: PlayState)
        ensures
            s == PlayState::Playing,
    {
        PlayState::Playing
    }
}

/// The other play state: playing becomes paused and paused becomes playing.
pub open spec fn toggled(p: PlayState) -> PlayState {
    match p {
        PlayState::Playing => PlayState::Paused,
        PlayState::Paused => PlayState::Playing,
    }
}

/// The world simulates only while a game runs unpaused.
pub fn gameplay_active(game_state: GameState, play_state: PlayState) -> (active: bool)
    ensures
        active == (game_state == GameState::InGame && play_state == PlayState::Playing),
{
    game_state == GameState::InGame && play_state == PlayState::Playing
}

/// On the menu, Space starts a game.
pub fn menu_input(space_just_pressed: bool) -> (next: Option<GameState>)
    ensures
        next == (if space_just_pressed { Some(GameState::InGame) } else { None::<GameState> }),
{
    if space_just_pressed {
        Some(GameState::InGame)
    } else {
        None
    }
}

/// On the game-over screen, Space starts a new game.
pub fn gameover_input(space_just_pressed: bool) -> (next: Option<GameState>)
    ensures
        next == (if space_just_pressed { Some(GameState::InGame) } else { None::<GameState> }),
{
    if space_just_pressed {
        Some(GameState::InGame)
    } else {
        None
    }
}

/// During a game, Escape pauses or resumes.
pub fn pause_input(escape_just_pressed: bool, play_state: PlayState) -> (next: Option<PlayState>)
    ensures
        next == (if escape_just_pressed { Some(toggled(play_state)) } else { None::<PlayState> }),
{
    if escape_just_pressed {
        match play_state {
            PlayState::Playing => Some(PlayState::Paused),
            PlayState::Paused => Some(PlayState::Playing),
        }
    } else {
        None
    }
}

/// Entering a game clears the score and unpauses.
pub fn enter_game(score: &mut Score) -> (next: PlayState)
    ensures
        final(score).0 == 0,
        next == PlayState::Playing,
{
    score.0 = 0;
    PlayState::Playing
}

/// Where a frame's keys lead from the given screens: the next game state and
/// the next play state that the frame requests, if any.
pub open spec fn key_transition(
    game_state: GameState,
    play_state: PlayState,
    space_just_pressed: bool,
    escape_just_pressed: bool,
) -> (Option<GameState>, Option<PlayState>) {
    match game_state {
        GameState::Menu => (
            if space_just_pressed { Some(GameState::InGame) } else { None },
            None,
        ),
        GameState::InGame => (
            None,
            if escape_just_pressed { Some(toggled(play_state)) } else { None },
        ),
        GameState::GameOver => (
            if space_just_pressed { Some(GameState::InGame) } else { None },
            None,
        ),
    }
}

/// Reads one frame's keys for the current screen: Space leaves the menu and
/// the game-over screen for a new game, Escape pauses and resumes a game.
pub fn handle_keys(
    game_state: GameState,
    play_state: PlayState,
    space_just_pressed: bool,
    escape_just_pressed: bool,
) -> (next: (Option<GameState>, Option<PlayState>))
    ensures
        next == key_transition(game_state, play_state, space_just_pressed, escape_just_pressed),
{
    match game_state {
        GameState::Menu => (menu_input(space_just_pressed), None),
        GameState::InGame => (None, pause_input(escape_just_pressed, play_state)),
        GameState::GameOver => (gameover_input(space_just_pressed), None),
    }
}

/// Pressing Escape twice during a game comes back to the same play state.
pub proof fn lemma_pause_twice_resumes(play_state: PlayState)
    ensures
        key_transition(
            GameState::InGame,
            key_transition(GameState::InGame, play_state, false, true).1.unwrap(),
            false,
            true,
        ).1 == Some(play_state),
{
}

/// Escape does nothing outside a game, and Space does nothing inside one.
pub proof fn lemma_keys_only_act_on_their_screens(
    game_state: GameState,
    play_state: PlayState,
    space: bool,
    escape: bool,
)
    ensures
        game_state != GameState::InGame ==> key_transition(game_state, play_state, space, escape).1
            is None,
        game_state == GameState::InGame ==> key_transition(game_state, play_state, space, escape).0
            is None,
{
}

/// Which screen a key press leads to, whatever the other key does: Space
/// on the menu or on the game-over screen starts a new game, and nothing
/// else there changes the screen or the pause state; during a game Space
/// does nothing, and Escape pauses a running game and resumes a paused one.
pub proof fn lemma_keys_lead_where_each_screen_says(play_state: PlayState, space: bool, escape: bool)
    ensures
        key_transition(GameState::Menu, play_state, true, escape) == (Some(GameState::InGame), None::<PlayState>),
        key_transition(GameState::Menu, play_state, false, escape) == (None::<GameState>, None::<PlayState>),
        key_transition(GameState::GameOver, play_state, true, escape) == (
            Some(GameState::InGame),
            None::<PlayState>,
        ),
        key_transition(GameState::GameOver, play_state, false, escape) == (None::<GameState>, None::<PlayState>),
        key_transition(GameState::InGame, PlayState::Playing, space, true) == (
            None::<GameState>,
            Some(PlayState::Paused),
        ),
        key_transition(GameState::InGame, PlayState::Paused, space, true) == (
            None::<GameState>,
            Some(PlayState::Playing),
        ),
        key_transition(GameState::InGame, play_state, space, false) == (None::<GameState>, None::<PlayState>),
{
}

} // verus!
