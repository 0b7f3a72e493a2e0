//! A seat at the table: a stable id, an optional display name and the hand.
use vstd::prelude::*;

use crate::card::{Card, Color};

verus! {

/// What a player is: name, id and the hand in the order the cards came in.
pub ghost struct PlayerView {
    pub name: Option<Seq<char>>,
    pub id: u32,
    pub hand: Seq<Card>,
}

pub struct Player {
    name: Option<String>,
    id: u32,
    hand: Vec<Card>,
}

impl View for Player {
    type V = PlayerView;

    closed spec fn view(&self) -> PlayerView {
        PlayerView {
            name: match self.name {
                Some(n) => Some(n@),
                None => None,
            },
            id: self.id,
            hand: self.hand@,
        }
    }
}

impl Player {
    pub fn new(name: &str, id: u32) -> (r: Player)
        ensures
            r@.name == Some(name@),
            r@.id == id,
            r@.hand == Seq::<Card>::empty(),
    {
        Player { name: Some(String::from_str(name)), id, hand: Vec::new() }
    }

    pub fn set_name(&mut self, name: &str)
        ensures
            final(self)@ == (PlayerView { name: Some(name@), ..old(self)@ }),
    {
        self.name = Some(String::from_str(name));
    }

    /// The name, or the empty string for a player without one.
    pub fn name(&self) -> (r: String)
        ensures
            r@ == match self@.name {
                Some(n) => n,
                None => Seq::<char>::empty(),
            },
    {
        match &self.name {
            Some(n) => n.clone(),
            None => String::new(),
        }
    }

    pub fn set_id(&mut self, id: u32)
        ensures
            final(self)@ == (PlayerView { id, ..old(self)@ }),
    {
        self.id = id;
    }

    pub fn id(&self) -> (r: u32)
        ensures
            r == self@.id,
    {
        self.id
    }

    /// Puts `card` at the end of the hand.
    pub fn draw(&mut self, card: Card)
        ensures
            final(self)@ == (PlayerView { hand: old(self)@.hand.push(card), ..old(self)@ }),
    {
        self.hand.push(card);
    }

    pub fn hand(&self) -> (r: &[Card])
        ensures
            r@ == self@.hand,
    {
        self.hand.as_slice()
    }

    /// Takes the card at `index` out of the hand.
    pub(crate) fn remove_card(&mut self, index: usize) -> (r: Card)
        requires
            index < old(self)@.hand.len(),
        ensures
            r == old(self)@.hand[index as int],
            final(self)@ == (PlayerView { hand: old(self)@.hand.remove(index as int), ..old(self)@ }),
    {
        self.hand.remove(index)
    }

    /// Appends `cards` to the hand, emptying `cards`.
    pub(crate) fn take_cards(&mut self, cards: &mut Vec<Card>)
        ensures
            final(self)@ == (PlayerView { hand: old(self)@.hand + old(cards)@, ..old(self)@ }),
            final(cards)@ == Seq::<Card>::empty(),
    {
        self.hand.append(cards);
    }

    pub(crate) fn clear_hand(&mut self)
        ensures
            final(self)@ == (PlayerView { hand: Seq::<Card>::empty(), ..old(self)@ }),
    {
        self.hand.clear();
    }

    /// Empties the hand and returns what it held.
    pub(crate) fn give_up_hand(&mut self) -> (r: Vec<Card>)
        ensures
            r@ == old(self)@.hand,
            final(self)@ == (PlayerView { hand: Seq::<Card>::empty(), ..old(self)@ }),
    {
        let mut cards: Vec<Card> = Vec::new();
        cards.append(&mut self.hand);
        cards
    }

    /// Sets the color of the card at `index` if it is wild.
    pub(crate) fn choose_color(&mut self, index: usize, color: Color)
        requires
            index < old(self)@.hand.len(),
        ensures
            final(self)@ == (PlayerView {
                hand: if old(self)@.hand[index as int].ty.wild() {
                    old(self)@.hand.update(
                        index as int,
                        Card { color, ..old(self)@.hand[index as int] },
                    )
                } else {
                    old(self)@.hand
                },
                ..old(self)@
            }),
    {
        let card = self.hand[index];
        if card.is_wild() {
            self.hand.set(index, Card { color, ..card });
        }
    }
}

impl Default for Player {
    fn default() -> (r: Player)
        ensures
            r@.name is None,
            r@.id == 0,
            r@.hand == Seq::<Card>::empty(),
    {
        Player { name: None, id: 0, hand: Vec::new() }
    }
}

} // verus!
