//! Game-state core of a multi-player Uno-like card game: the card model, the
//! canonical deck, players, the replication events and the game state machine.
mod chance;

pub mod card;
pub mod player;
pub mod event;
pub mod game;
