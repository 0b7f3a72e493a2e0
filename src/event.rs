//! The events that peers exchange to keep their games in step.
use vstd::prelude::*;

use crate::card::Card;

verus! {

/// One state transition, as broadcast to or received from other peers.
#[derive(Clone, Debug, PartialEq, Eq)]
pub enum Event {
    /// Sets the starting top of the pile on a fresh guest.
    Init { last: Card },
    /// The player with id `player` played `card` from position `card_index`
    /// of their hand.
    PlayCard { card: Card, player: u32, card_index: usize },
    /// `count` cards, not named, are dealt to the player with id `player`.
    Deal { player: u32, count: u32 },
    /// The host's answer to a draw request: the cards themselves.
    DrawResponse(Vec<Card>),
    /// A peer asks the host for its draw.
    DrawRequest,
    /// The turn passes on.
    EndTurn,
}

} // verus!
