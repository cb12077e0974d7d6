//! The rules of a side-scrolling space shooter: timers, health, enemy waves,
//! power-ups, weapons, collision resolution and the game's state machine.
pub mod timer;
pub mod health;
pub mod state;
pub mod enemy;
mod random;
pub mod player;
pub mod armory;
pub mod powerup;
pub mod hud;
pub mod combat;
