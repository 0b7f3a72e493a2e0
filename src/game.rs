//! The game state machine: the piles, the seats, the turn, the direction and
//! the draw debt, the moves that change them and the dispatch of events.
use rand::rngs::StdRng;
use vstd::arithmetic::div_mod::{
    lemma_mod_add_multiples_vanish, lemma_mod_self_0, lemma_small_mod,
};
use vstd::prelude::*;
use vstd::seq_lib::group_to_multiset_ensures;

use crate::card::{build_deck, deck_count, Card, CardType, Color};
use crate::chance::{seeded_rng, shuffle_cards, system_rng};
use crate::event::Event;
use crate::player::{Player, PlayerView};

verus! {

#[derive(Clone, Copy, PartialEq, Eq, Debug, Structural)]
pub enum Direction {
    Clockwise,
    CounterClockwise,
}

/// What a move or an event comes to.
#[derive(Clone, Copy, PartialEq, Eq, Debug, Structural)]
pub enum PlayResult {
    InvalidCard,
    CardPlayed,
    Nothing,
    GameOver,
}

/// The state of a game, as a value.
pub ghost struct GameState {
    /// The card in play, on top of the discard pile.
    pub last: Card,
    pub direction: Direction,
    /// The cards played before `last`, oldest first.
    pub discard: Seq<Card>,
    /// The draw pile; cards are drawn from its end.
    pub draw: Seq<Card>,
    /// The draw debt built up by stacked PlusTwo and PlusFour cards.
    pub draw_count: Option<u64>,
    /// The seats, in ascending order of id.
    pub players: Seq<PlayerView>,
    /// The id of the local player.
    pub own_id: u32,
    /// The index in `players` of the seat whose turn it is.
    pub current_player: int,
    /// Whether this peer owns the draw pile.
    pub is_host: bool,
}

pub open spec fn flip(d: Direction) -> Direction {
    match d {
        Direction::Clockwise => Direction::CounterClockwise,
        Direction::CounterClockwise => Direction::Clockwise,
    }
}

/// `count` cards whose identity this peer does not know, stood in for by the
/// default card.
pub open spec fn placeholders(count: nat) -> Seq<Card> {
    Seq::new(count, |_i: int| Card { ty: CardType::N0, color: Color::Red })
}

impl GameState {
    pub open spec fn wf(self) -> bool {
        &&& self.players.len() > 0
        &&& 0 <= self.current_player < self.players.len()
        &&& forall|i: int, j: int|
            0 <= i < j < self.players.len() ==> #[trigger] self.players[i].id
                < #[trigger] self.players[j].id
        &&& self.draw_count matches Some(n) ==> n >= 2 && n % 2 == 0
    }

    /// Playing `card` would not push the draw debt past what a `u64` holds:
    /// the card is refused, or raises no debt, or the debt has room for it.
    pub open spec fn room_for(self, card: Card) -> bool {
        self.refuses(card) || match card.ty {
            CardType::PlusTwo => self.draw_count matches Some(n) ==> n <= u64::MAX - 2,
            CardType::PlusFour => self.draw_count matches Some(n) ==> n <= u64::MAX - 4,
            _ => true,
        }
    }

    pub open spec fn current(self) -> PlayerView {
        self.players[self.current_player]
    }

    pub open spec fn has_player(self, id: u32) -> bool {
        exists|i: int| 0 <= i < self.players.len() && #[trigger] self.players[i].id == id
    }

    /// The index of the seat with id `id`, where there is one.
    pub open spec fn index_of(self, id: u32) -> int {
        choose|i: int| 0 <= i < self.players.len() && #[trigger] self.players[i].id == id
    }

    /// The seat after the current one in the direction of play.
    pub open spec fn next_seat(self) -> int {
        match self.direction {
            Direction::Clockwise => (self.current_player + 1) % (self.players.len() as int),
            Direction::CounterClockwise => (self.current_player + self.players.len() - 1) % (
            self.players.len() as int),
        }
    }

    pub open spec fn turn_ended(self) -> GameState {
        GameState { current_player: self.next_seat(), ..self }
    }

    /// `card` may not be played now.
    pub open spec fn refuses(self, card: Card) -> bool {
        !card.compatible(self.last) || (self.draw_count is Some && !card.ty.stackable())
    }

    /// The debt after adding `n` to it.
    pub open spec fn debt_plus(self, n: u64) -> Option<u64> {
        match self.draw_count {
            Some(d) => Some((d + n) as u64),
            None => Some(n),
        }
    }

    /// The effect of the card's type alone.
    pub open spec fn effect(self, card: Card) -> GameState {
        match card.ty {
            CardType::PlusTwo => GameState { draw_count: self.debt_plus(2), ..self },
            CardType::PlusFour => GameState { draw_count: self.debt_plus(4), ..self },
            CardType::Skip => if self.draw_count is None {
                self.turn_ended()
            } else {
                self
            },
            CardType::Reverse => GameState { direction: flip(self.direction), ..self },
            _ => self,
        }
    }

    /// The state after `card` is played: its effect, then the old `last` goes
    /// onto the discard pile and `card` takes its place.
    pub open spec fn played(self, card: Card) -> GameState {
        let s = self.effect(card);
        GameState { discard: s.discard.push(s.last), last: card, ..s }
    }

    pub proof fn lemma_index_of(self, i: int)
        requires
            self.wf(),
            0 <= i < self.players.len(),
        ensures
            self.has_player(self.players[i].id),
            self.index_of(self.players[i].id) == i,
    {
        let id = self.players[i].id;
        assert(self.players[i].id == id);
        let j = self.index_of(id);
        if j < i {
            assert(self.players[j].id < self.players[i].id);
        } else if j > i {
            assert(self.players[i].id < self.players[j].id);
        }
    }

    /// The local player's seat, where there is one.
    pub open spec fn own(self) -> PlayerView {
        self.players[self.index_of(self.own_id)]
    }

    /// Cards in the draw and discard piles together.
    pub open spec fn pile_total(self) -> int {
        (self.draw.len() + self.discard.len()) as int
    }

    /// The seat with id `id`, if any, with `extra` appended to its hand.
    pub open spec fn with_cards(self, id: u32, extra: Seq<Card>) -> GameState {
        GameState {
            players: self.players.map(
                |_i: int, p: PlayerView|
                    if p.id == id {
                        PlayerView { hand: p.hand + extra, ..p }
                    } else {
                        p
                    },
            ),
            ..self
        }
    }

    /// An open debt is cleared and the turn passes; without one nothing
    /// changes.
    pub open spec fn debt_settled(self) -> GameState {
        if self.draw_count is Some {
            GameState { draw_count: None, ..self }.turn_ended()
        } else {
            self
        }
    }

    /// `after` is this state once `extra` has reached the seat with id `id`
    /// and any debt is settled; a guest also draws `count` cards from its own
    /// piles to keep their size with the host's.
    pub open spec fn dealt(self, after: GameState, id: u32, extra: Seq<Card>, count: nat) -> bool {
        let s = self.with_cards(id, extra).debt_settled();
        &&& after == (GameState { draw: after.draw, discard: after.discard, ..s })
        &&& self.is_host ==> after.draw == self.draw && after.discard == self.discard
        &&& !self.is_host ==> after.pile_total() == (if self.pile_total() > count {
            self.pile_total() - count
        } else {
            0
        })
        &&& !self.is_host && self.draw.len() >= count ==> after.draw == self.draw.subrange(
            0,
            self.draw.len() - count,
        ) && after.discard == self.discard
    }

    /// `cards` were drawn one by one from the end of this state's draw pile,
    /// which `after` holds what is left of; the discard pile is untouched.
    pub open spec fn drawn_from_top(self, after: GameState, cards: Seq<Card>) -> bool {
        &&& cards.len() <= self.draw.len()
        &&& after.draw == self.draw.subrange(0, self.draw.len() - cards.len())
        &&& after.discard == self.discard
        &&& forall|k: int| 0 <= k < cards.len() ==> #[trigger] cards[k] == self.draw[self.draw.len() - 1 - k]
    }

    /// A PlayCard event from the seat whose turn it is may be applied: the
    /// debt has room for the card, and a card that would leave the hand names
    /// a position in it.
    pub open spec fn can_dispatch(self, e: Event) -> bool {
        match e {
            Event::PlayCard { card, player, card_index } => player == self.current().id ==> (
            self.room_for(card) && (!self.refuses(card) ==> card_index
                < self.current().hand.len())),
            _ => true,
        }
    }

    /// The state and the result after the public event `e`: Init sets the card
    /// in play; PlayCard from the seat whose turn it is plays the card, takes
    /// it from the hand, and either ends the game on an empty hand or passes
    /// the turn; EndTurn passes the turn; anything else changes nothing.
    pub open spec fn dispatched(self, e: Event) -> (GameState, PlayResult) {
        match e {
            Event::Init { last } => (GameState { last, ..self }, PlayResult::Nothing),
            Event::PlayCard { card, player, card_index } => {
                if player != self.current().id {
                    (self, PlayResult::Nothing)
                } else if self.refuses(card) {
                    (self, PlayResult::InvalidCard)
                } else {
                    let s = self.played(card);
                    let seat = self.current();
                    let hand = seat.hand.remove(card_index as int);
                    let t = GameState {
                        players: s.players.update(self.current_player, PlayerView { hand, ..seat }),
                        ..s
                    };
                    if hand.len() == 0 {
                        (t, PlayResult::GameOver)
                    } else {
                        (t.turn_ended(), s.outcome())
                    }
                }
            },
            Event::EndTurn => (self.turn_ended(), PlayResult::Nothing),
            _ => (self, PlayResult::Nothing),
        }
    }

    /// What `play` reports once the card is down.
    pub open spec fn outcome(self) -> PlayResult {
        if self.current().hand.len() == 0 {
            PlayResult::GameOver
        } else {
            PlayResult::CardPlayed
        }
    }
}

/// Passing the turn moves the cursor one seat: forward, wrapping from the last
/// seat to the first, when play goes clockwise; back, wrapping from the first
/// seat to the last, when it goes counterclockwise.
pub proof fn lemma_turn_moves_one_seat(s: GameState)
    requires
        s.wf(),
    ensures
        s.turn_ended().wf(),
        s.direction == Direction::Clockwise ==> s.turn_ended().current_player == (if s.current_player
            + 1 == s.players.len() {
            0
        } else {
            s.current_player + 1
        }),
        s.direction == Direction::CounterClockwise ==> s.turn_ended().current_player == (
        if s.current_player == 0 {
            s.players.len() - 1
        } else {
            s.current_player - 1
        }),
{
    let n = s.players.len() as int;
    let cp = s.current_player;
    lemma_mod_self_0(n);
    if cp + 1 < n {
        lemma_small_mod((cp + 1) as nat, n as nat);
    }
    if cp > 0 {
        lemma_small_mod((cp - 1) as nat, n as nat);
        lemma_mod_add_multiples_vanish(cp - 1, n);
        assert(cp + n - 1 == n + (cp - 1));
    } else {
        lemma_small_mod((n - 1) as nat, n as nat);
    }
}

/// A card that is not refused ends up in play, and the card it covers is the
/// newest card of the discard pile, on top of the pile as it was.
pub proof fn lemma_played_card_on_top(s: GameState, card: Card)
    requires
        !s.refuses(card),
    ensures
        s.played(card).last == card,
        s.played(card).discard.last() == s.last,
        s.played(card).discard.drop_last() == s.discard,
{
    assert(s.played(card).discard.drop_last() =~= s.discard);
}

pub struct Game {
    last: Card,
    direction: Direction,
    discard: Vec<Card>,
    draw: Vec<Card>,
    draw_count: Option<u64>,
    rng: StdRng,
    players: Vec<Player>,
    own_id: u32,
    current_player: usize,
    is_host: bool,
}

impl View for Game {
    type V = GameState;

    closed spec fn view(&self) -> GameState {
        GameState {
            last: self.last,
            direction: self.direction,
            discard: self.discard@,
            draw: self.draw@,
            draw_count: self.draw_count,
            players: self.players@.map_values(|p: Player| p@),
            own_id: self.own_id,
            current_player: self.current_player as int,
            is_host: self.is_host,
        }
    }
}

impl Game {
    /// Where the seat with id `id` is.
    fn find_player(&self, id: u32) -> (r: Option<usize>)
        requires
            self@.wf(),
        ensures
            match r {
                Some(i) => i < self@.players.len() && self@.players[i as int].id == id
                    && self@.index_of(id) == i,
                None => !self@.has_player(id),
            },
    {
        let mut i: usize = 0;
        while i < self.players.len()
            invariant
                self@.wf(),
                i <= self.players.len(),
                forall|j: int| 0 <= j < i ==> self@.players[j].id != id,
            decreases self.players.len() - i,
        {
            if self.players[i].id() == id {
                proof {
                    self@.lemma_index_of(i as int);
                }
                return Some(i);
            }
            i += 1;
        }
        None
    }

    /// A game with `player` as its only seat, as `with_rng` makes it, with a
    /// generator seeded from the system.
    pub fn new(player: Player, is_host: bool) -> (r: Game)
        ensures
            r@.wf(),
            r@.players == seq![player@],
            r@.own_id == player@.id,
            r@.current_player == 0,
            r@.direction == Direction::Clockwise,
            r@.draw_count is None,
            r@.is_host == is_host,
            r@.discard == Seq::<Card>::empty(),
            r@.draw.len() == 107,
            forall|c: Card| #[trigger] r@.draw.push(r@.last).to_multiset().count(c) == deck_count(c),
    {
        Game::with_rng(player, is_host, system_rng())
    }

    /// A game with `player` as its only seat, as `with_rng` makes it, with a
    /// generator seeded by `seed`: the same seed gives the same shuffles.
    pub fn with_seed(player: Player, is_host: bool, seed: u64) -> (r: Game)
        ensures
            r@.wf(),
            r@.players == seq![player@],
            r@.own_id == player@.id,
            r@.current_player == 0,
            r@.direction == Direction::Clockwise,
            r@.draw_count is None,
            r@.is_host == is_host,
            r@.discard == Seq::<Card>::empty(),
            r@.draw.len() == 107,
            forall|c: Card| #[trigger] r@.draw.push(r@.last).to_multiset().count(c) == deck_count(c),
    {
        Game::with_rng(player, is_host, seeded_rng(seed))
    }

    /// A game with `player` as its only seat, its turn, play going clockwise,
    /// no debt, and a deck shuffled with `rng` whose last card is in play;
    /// `rng` stays with the game for its later shuffles and draws.
    pub fn with_rng(player: Player, is_host: bool, mut rng: StdRng) -> (r: Game)
        ensures
            r@.wf(),
            r@.players == seq![player@],
            r@.own_id == player@.id,
            r@.current_player == 0,
            r@.direction == Direction::Clockwise,
            r@.draw_count is None,
            r@.is_host == is_host,
            r@.discard == Seq::<Card>::empty(),
            r@.draw.len() == 107,
            forall|c: Card| #[trigger] r@.draw.push(r@.last).to_multiset().count(c) == deck_count(c),
    {
        broadcast use group_to_multiset_ensures;

        let mut draw = build_deck();
        shuffle_cards(&mut rng, &mut draw);
        let ghost full = draw@;
        let last = draw.pop().unwrap();
        assert(draw@.push(last) =~= full);
        let own_id = player.id();
        let players = vec![player];
        let g = Game {
            last,
            direction: Direction::Clockwise,
            discard: Vec::new(),
            draw,
            draw_count: None,
            rng,
            players,
            own_id,
            current_player: 0,
            is_host,
        };
        assert(g@.players =~= seq![player@]);
        g
    }

    /// The id of the seat whose turn it is.
    pub fn current_player(&self) -> (r: u32)
        requires
            self@.wf(),
        ensures
            r == self@.current().id,
    {
        self.players[self.current_player].id()
    }

    /// Seats `player`, keeping the seats in ascending order of id and the turn
    /// with the seat that had it; a player whose id is already seated is
    /// turned away.
    pub fn add_player(&mut self, player: Player)
        requires
            old(self)@.wf(),
        ensures
            final(self)@.wf(),
            old(self)@.has_player(player@.id) ==> final(self)@ == old(self)@,
            !old(self)@.has_player(player@.id) ==> exists|k: int|
                0 <= k <= old(self)@.players.len() && final(self)@ == (GameState {
                    players: #[trigger] old(self)@.players.insert(k, player@),
                    current_player: if k <= old(self)@.current_player {
                        old(self)@.current_player + 1
                    } else {
                        old(self)@.current_player
                    },
                    ..old(self)@
                }),
            final(self)@.current().id == old(self)@.current().id,
    {
        let id = player.id();
        let n = self.players.len();
        let mut k: usize = 0;
        while k < n && self.players[k].id() < id
            invariant
                self@.wf(),
                n == self.players.len(),
                k <= n,
                forall|j: int| 0 <= j < k ==> self@.players[j].id < id,
            decreases n - k,
        {
            k += 1;
        }
        if k < n && self.players[k].id() == id {
            assert(self@.players[k as int].id == id);
            return;
        }
        let ghost old_players = self@.players;
        proof {
            assert forall|j: int| 0 <= j < n implies old_players[j].id != id by {
                if j >= k {
                    if j > k {
                        assert(old_players[k as int].id < old_players[j].id);
                    }
                }
            }
        }
        self.players.insert(k, player);
        if k <= self.current_player {
            self.current_player = self.current_player + 1;
        }
        assert(self@.players =~= old_players.insert(k as int, player@));
        assert forall|i: int, j: int|
            0 <= i < j < self@.players.len() implies #[trigger] self@.players[i].id
            < #[trigger] self@.players[j].id by {
            if j < k {
                assert(old_players[i].id < old_players[j].id);
            } else if j == k {
                assert(old_players[i].id < id);
            } else if i < k {
                assert(old_players[i].id < old_players[j - 1].id || i == j - 1);
                if k < n {
                    assert(old_players[k as int].id > id);
                    assert(old_players[k as int].id <= old_players[j - 1].id || k == j - 1);
                }
            } else if i == k {
                if k < n {
                    assert(old_players[k as int].id > id);
                    assert(old_players[k as int].id <= old_players[j - 1].id || k == j - 1);
                }
            } else {
                assert(old_players[i - 1].id < old_players[j - 1].id);
            }
        }
    }

    /// Takes the seat with id `id` away: its hand goes back into the draw
    /// pile, which is shuffled, and the turn index is taken modulo the new
    /// number of seats. Nothing happens where no seat has that id.
    pub fn remove_player(&mut self, id: u32)
        requires
            old(self)@.wf(),
            old(self)@.players.len() > 1 || !old(self)@.has_player(id),
        ensures
            final(self)@.wf(),
            !final(self)@.has_player(id),
            !old(self)@.has_player(id) ==> final(self)@ == old(self)@,
            old(self)@.has_player(id) ==> ({
                let i = old(self)@.index_of(id);
                let hand = old(self)@.players[i].hand;
                &&& final(self)@.players == old(self)@.players.remove(i)
                &&& final(self)@.draw.len() == old(self)@.draw.len() + hand.len()
                &&& final(self)@.draw.to_multiset() == old(self)@.draw.to_multiset().add(
                    hand.to_multiset(),
                )
                &&& final(self)@.current_player == old(self)@.current_player % (
                old(self)@.players.len() - 1)
                &&& final(self)@ == GameState {
                    players: final(self)@.players,
                    draw: final(self)@.draw,
                    current_player: final(self)@.current_player,
                    ..old(self)@
                }
            }),
    {
        broadcast use group_to_multiset_ensures;
        broadcast use vstd::seq_lib::lemma_multiset_commutative;

        match self.find_player(id) {
            Some(i) => {
                let ghost old_players = self@.players;
                let mut p = self.players.remove(i);
                let mut hand = p.give_up_hand();
                self.draw.append(&mut hand);
                shuffle_cards(&mut self.rng, &mut self.draw);
                self.current_player = self.current_player % self.players.len();
                assert(self@.players =~= old_players.remove(i as int));
                assert forall|j: int| 0 <= j < self@.players.len() implies #[trigger] self@.players[j].id != id by {
                    if j < i {
                        assert(old_players[j].id < old_players[i as int].id);
                    } else {
                        assert(old_players[i as int].id < old_players[j + 1].id);
                    }
                }
                assert forall|a: int, b: int|
                    0 <= a < b < self@.players.len() implies #[trigger] self@.players[a].id
                    < #[trigger] self@.players[b].id by {
                    let a2 = if a < i { a } else { a + 1 };
                    let b2 = if b < i { b } else { b + 1 };
                    assert(old_players[a2].id < old_players[b2].id);
                }
            },
            None => {},
        }
    }

    /// Moves the discard pile into the draw pile and shuffles it.
    pub fn shuffle(&mut self)
        requires
            old(self)@.wf(),
        ensures
            final(self)@.wf(),
            final(self)@ == (GameState {
                draw: final(self)@.draw,
                discard: Seq::<Card>::empty(),
                ..old(self)@
            }),
            final(self)@.draw.len() == old(self)@.pile_total(),
            final(self)@.draw.to_multiset() == old(self)@.draw.to_multiset().add(
                old(self)@.discard.to_multiset(),
            ),
    {
        broadcast use vstd::seq_lib::lemma_multiset_commutative;

        self.draw.append(&mut self.discard);
        shuffle_cards(&mut self.rng, &mut self.draw);
        assert(self@.players =~= old(self)@.players);
    }

    /// Takes the top card of the draw pile. An empty draw pile is first
    /// refilled from the discard pile (`last` stays in play); if both are
    /// empty, a random card is made up. The card goes into no hand.
    pub fn draw_one(&mut self) -> (r: Card)
        requires
            old(self)@.wf(),
        ensures
            final(self)@.wf(),
            final(self)@ == (GameState {
                draw: final(self)@.draw,
                discard: final(self)@.discard,
                ..old(self)@
            }),
            old(self)@.draw.len() > 0 ==> r == old(self)@.draw.last() && final(self)@.draw
                == old(self)@.draw.drop_last() && final(self)@.discard == old(self)@.discard,
            old(self)@.draw.len() == 0 ==> final(self)@.discard == Seq::<Card>::empty(),
            old(self)@.draw.len() == 0 && old(self)@.discard.len() > 0
                ==> final(self)@.draw.push(r).to_multiset() == old(self)@.discard.to_multiset(),
            old(self)@.pile_total() == 0 ==> final(self)@.draw == Seq::<Card>::empty(),
            final(self)@.pile_total() == (if old(self)@.pile_total() > 0 {
                old(self)@.pile_total() - 1
            } else {
                0
            }),
    {
        broadcast use group_to_multiset_ensures;

        if self.draw.len() == 0 {
            self.shuffle();
        }
        let ghost before = self@.draw;
        let card = match self.draw.pop() {
            Some(c) => c,
            None => Card::random(&mut self.rng),
        };
        proof {
            if before.len() > 0 {
                assert(before =~= self@.draw.push(card));
            }
        }
        assert(self@.players =~= old(self)@.players);
        card
    }

    /// Starts over with the same seats: hands emptied, a freshly shuffled deck
    /// with its last card in play, no debt, the first seat's turn, clockwise.
    pub fn reset(&mut self)
        requires
            old(self)@.wf(),
        ensures
            final(self)@.wf(),
            final(self)@.players.len() == old(self)@.players.len(),
            forall|i: int|
                0 <= i < old(self)@.players.len() ==> #[trigger] final(self)@.players[i] == (
                PlayerView { hand: Seq::<Card>::empty(), ..old(self)@.players[i] }),
            final(self)@.own_id == old(self)@.own_id,
            final(self)@.is_host == old(self)@.is_host,
            final(self)@.current_player == 0,
            final(self)@.direction == Direction::Clockwise,
            final(self)@.draw_count is None,
            final(self)@.discard == Seq::<Card>::empty(),
            final(self)@.draw.len() == 107,
            forall|c: Card|
                #[trigger] final(self)@.draw.push(final(self)@.last).to_multiset().count(c)
                    == deck_count(c),
    {
        broadcast use group_to_multiset_ensures;

        let n = self.players.len();
        let mut i: usize = 0;
        while i < n
            invariant
                n == self.players.len(),
                n == old(self)@.players.len(),
                i <= n,
                forall|j: int|
                    0 <= j < i ==> #[trigger] self@.players[j] == (PlayerView {
                        hand: Seq::<Card>::empty(),
                        ..old(self)@.players[j]
                    }),
                forall|j: int| i <= j < n ==> #[trigger] self@.players[j] == old(self)@.players[j],
                self@ == (GameState { players: self@.players, ..old(self)@ }),
            decreases n - i,
        {
            let ghost before = self@.players;
            self.players[i].clear_hand();
            assert(self@.players =~= before.update(
                i as int,
                PlayerView { hand: Seq::<Card>::empty(), ..before[i as int] },
            ));
            i += 1;
        }
        let mut draw = build_deck();
        shuffle_cards(&mut self.rng, &mut draw);
        let ghost full = draw@;
        self.last = draw.pop().unwrap();
        assert(draw@.push(self.last) =~= full);
        self.draw = draw;
        self.draw_count = None;
        self.discard.clear();
        self.current_player = 0;
        self.direction = Direction::Clockwise;
    }

    /// Plays the card at `card_index` of the current seat's hand, as `play`
    /// does, and takes it out of the hand unless it was refused. An index past
    /// the end of the hand is refused too. Playing the last card of the hand
    /// ends the game.
    pub fn play_index(&mut self, card_index: usize) -> (r: PlayResult)
        requires
            old(self)@.wf(),
            card_index < old(self)@.current().hand.len() ==> old(self)@.room_for(
                old(self)@.current().hand[card_index as int],
            ),
        ensures
            final(self)@.wf(),
            card_index >= old(self)@.current().hand.len() || old(self)@.refuses(
                old(self)@.current().hand[card_index as int],
            ) ==> r == PlayResult::InvalidCard && *final(self) == *old(self),
            card_index < old(self)@.current().hand.len() && !old(self)@.refuses(
                old(self)@.current().hand[card_index as int],
            ) ==> ({
                let seat = old(self)@.current();
                let s = old(self)@.played(seat.hand[card_index as int]);
                &&& r == (if seat.hand.len() == 1 {
                    PlayResult::GameOver
                } else {
                    s.outcome()
                })
                &&& final(self)@ == (GameState {
                    players: s.players.update(
                        old(self)@.current_player,
                        PlayerView { hand: seat.hand.remove(card_index as int), ..seat },
                    ),
                    ..s
                })
            }),
    {
        let pndx = self.current_player;
        if card_index >= self.players[pndx].hand().len() {
            return PlayResult::InvalidCard;
        }
        let card = self.players[pndx].hand()[card_index];
        let res = self.play(card);
        if res != PlayResult::InvalidCard {
            let ghost before = self@.players;
            self.players[pndx].remove_card(card_index);
            assert(self@.players =~= before.update(
                pndx as int,
                PlayerView { hand: before[pndx as int].hand.remove(card_index as int), ..before[pndx as int] },
            ));
            if self.players[pndx].hand().len() == 0 {
                return PlayResult::GameOver;
            }
        }
        res
    }

    /// Sets the color of the wild card at `card_index` of the local player's
    /// hand; a card that is not wild is left as it is.
    pub fn set_wild_color(&mut self, card_index: usize, color: Color)
        requires
            old(self)@.wf(),
            old(self)@.has_player(old(self)@.own_id),
            card_index < old(self)@.own().hand.len(),
        ensures
            final(self)@.wf(),
            final(self)@ == (GameState {
                players: old(self)@.players.update(
                    old(self)@.index_of(old(self)@.own_id),
                    PlayerView {
                        hand: if old(self)@.own().hand[card_index as int].ty.wild() {
                            old(self)@.own().hand.update(
                                card_index as int,
                                Card { color, ..old(self)@.own().hand[card_index as int] },
                            )
                        } else {
                            old(self)@.own().hand
                        },
                        ..old(self)@.own()
                    },
                ),
                ..old(self)@
            }),
    {
        let i = self.find_player(self.own_id).unwrap();
        let ghost before = self@.players;
        self.players[i].choose_color(card_index, color);
        assert(self@.players =~= before.update(i as int, self.players@[i as int]@));
    }

    pub fn color(&self) -> (r: Color)
        ensures
            r == self@.last.color,
    {
        self.last.color()
    }

    pub fn direction(&self) -> (r: Direction)
        ensures
            r == self@.direction,
    {
        self.direction
    }

    /// The card in play.
    pub fn last(&self) -> (r: Card)
        ensures
            r == self@.last,
    {
        self.last
    }

    /// The draw debt, 0 where there is none.
    pub fn draw_count(&self) -> (r: u64)
        ensures
            r == match self@.draw_count {
                Some(n) => n,
                None => 0,
            },
    {
        match self.draw_count {
            Some(n) => n,
            None => 0,
        }
    }

    pub fn draw_len(&self) -> (r: usize)
        ensures
            r == self@.draw.len(),
    {
        self.draw.len()
    }

    pub fn discard_len(&self) -> (r: usize)
        ensures
            r == self@.discard.len(),
    {
        self.discard.len()
    }

    /// The id of the local player.
    pub fn own_id(&self) -> (r: u32)
        ensures
            r == self@.own_id,
    {
        self.own_id
    }

    pub fn discard_pile(&self) -> (r: &[Card])
        ensures
            r@ == self@.discard,
    {
        self.discard.as_slice()
    }

    pub fn draw_pile(&self) -> (r: &[Card])
        ensures
            r@ == self@.draw,
    {
        self.draw.as_slice()
    }

    /// The seats, in ascending order of id.
    pub fn players(&self) -> (r: &[Player])
        ensures
            r@.map_values(|p: Player| p@) == self@.players,
    {
        self.players.as_slice()
    }

    /// The seat with id `id`.
    pub fn player(&self, id: u32) -> (r: &Player)
        requires
            self@.wf(),
            self@.has_player(id),
        ensures
            r@ == self@.players[self@.index_of(id)],
    {
        let i = self.find_player(id).unwrap();
        &self.players[i]
    }

    /// The local player's hand.
    pub fn own_hand(&self) -> (r: &[Card])
        requires
            self@.wf(),
            self@.has_player(self@.own_id),
        ensures
            r@ == self@.own().hand,
    {
        let i = self.find_player(self.own_id).unwrap();
        self.players[i].hand()
    }

    /// Appends `cards` to the hand of the seat with id `id`, if there is one.
    fn give_cards(&mut self, id: u32, cards: &mut Vec<Card>)
        requires
            old(self)@.wf(),
        ensures
            final(self)@.wf(),
            final(self)@ == old(self)@.with_cards(id, old(cards)@),
    {
        let ghost before = self@;
        let ghost extra = cards@;
        match self.find_player(id) {
            Some(i) => {
                self.players[i].take_cards(cards);
                assert forall|j: int| 0 <= j < before.players.len() && j != i implies before.players[j].id != id by {
                    if j < i {
                        assert(before.players[j].id < before.players[i as int].id);
                    } else {
                        assert(before.players[i as int].id < before.players[j].id);
                    }
                }
                assert(self@.players =~= before.with_cards(id, extra).players);
            },
            None => {
                assert(self@.players =~= before.with_cards(id, extra).players);
            },
        }
    }

    /// Draws `count` cards with `draw_one`, in order.
    fn draw_many(&mut self, count: usize) -> (r: Vec<Card>)
        requires
            old(self)@.wf(),
        ensures
            final(self)@.wf(),
            r@.len() == count,
            final(self)@ == (GameState {
                draw: final(self)@.draw,
                discard: final(self)@.discard,
                ..old(self)@
            }),
            final(self)@.pile_total() == (if old(self)@.pile_total() > count {
                old(self)@.pile_total() - count
            } else {
                0
            }),
            old(self)@.draw.len() >= count ==> old(self)@.drawn_from_top(final(self)@, r@),
    {
        let mut cards: Vec<Card> = Vec::new();
        let mut i: usize = 0;
        assert(old(self)@.draw.subrange(0, old(self)@.draw.len() as int) =~= old(self)@.draw);
        while i < count
            invariant
                i <= count,
                cards@.len() == i,
                self@.wf(),
                self@ == (GameState { draw: self@.draw, discard: self@.discard, ..old(self)@ }),
                self@.pile_total() == (if old(self)@.pile_total() > i {
                    old(self)@.pile_total() - i
                } else {
                    0
                }),
                old(self)@.draw.len() >= i ==> old(self)@.drawn_from_top(self@, cards@),
            decreases count - i,
        {
            let c = self.draw_one();
            cards.push(c);
            i += 1;
            proof {
                let o = old(self)@.draw;
                if o.len() >= i {
                    assert(self@.draw =~= o.subrange(0, o.len() - i));
                }
            }
        }
        cards
    }

    /// Clears an open debt and passes the turn; does nothing without one.
    fn settle_debt(&mut self)
        requires
            old(self)@.wf(),
        ensures
            final(self)@.wf(),
            final(self)@ == old(self)@.debt_settled(),
    {
        if self.draw_count.take().is_some() {
            self.end_turn();
        }
    }

    /// Applies a public event; see `GameState::dispatched`.
    pub fn handle_event(&mut self, event: Event) -> (r: PlayResult)
        requires
            old(self)@.wf(),
            old(self)@.can_dispatch(event),
        ensures
            final(self)@.wf(),
            (final(self)@, r) == old(self)@.dispatched(event),
    {
        match event {
            Event::Init { last } => {
                self.last = last;
                assert(self@.players =~= old(self)@.players);
            },
            Event::PlayCard { card, player, card_index } => {
                if player == self.players[self.current_player].id() {
                    let pndx = self.current_player;
                    let res = self.play(card);
                    if res != PlayResult::InvalidCard {
                        let ghost before = self@.players;
                        self.players[pndx].remove_card(card_index);
                        assert(self@.players =~= before.update(
                            pndx as int,
                            PlayerView {
                                hand: before[pndx as int].hand.remove(card_index as int),
                                ..before[pndx as int]
                            },
                        ));
                        if self.players[pndx].hand().len() == 0 {
                            return PlayResult::GameOver;
                        } else {
                            self.end_turn();
                        }
                    }
                    return res;
                }
            },
            Event::EndTurn => self.end_turn(),
            _ => {},
        }
        PlayResult::Nothing
    }

    /// Applies a draw event. Deal to another seat gives it placeholder cards;
    /// DrawResponse gives the local player the cards named. A guest draws as
    /// many cards from its own piles so that their size keeps up with the
    /// host's, and an open debt is cleared with the turn passing on. Anything
    /// else, and Deal to the local player, changes nothing.
    pub fn handle_host_event(&mut self, event: Event)
        requires
            old(self)@.wf(),
        ensures
            final(self)@.wf(),
            match event {
                Event::Deal { player, count } => if player != old(self)@.own_id {
                    old(self)@.dealt(final(self)@, player, placeholders(count as nat), count as nat)
                } else {
                    final(self)@ == old(self)@
                },
                Event::DrawResponse(cards) => old(self)@.dealt(
                    final(self)@,
                    old(self)@.own_id,
                    cards@,
                    cards@.len(),
                ),
                _ => final(self)@ == old(self)@,
            },
    {
        match event {
            Event::Deal { player, count } => {
                if player != self.own_id {
                    let mut extra: Vec<Card> = Vec::new();
                    let mut k: u32 = 0;
                    while k < count
                        invariant
                            k <= count,
                            extra@ == placeholders(k as nat),
                        decreases count - k,
                    {
                        extra.push(Card::default());
                        k += 1;
                        assert(extra@ =~= placeholders(k as nat));
                    }
                    self.give_cards(player, &mut extra);
                    if !self.is_host {
                        self.draw_many(count as usize);
                    }
                    self.settle_debt();
                }
            },
            Event::DrawResponse(cards) => {
                let count = cards.len();
                let mut cards = cards;
                let own = self.own_id;
                self.give_cards(own, &mut cards);
                if !self.is_host {
                    self.draw_many(count);
                }
                self.settle_debt();
            },
            _ => {},
        }
    }

    pub fn init_event(&self) -> (r: Event)
        ensures
            r == (Event::Init { last: self@.last }),
    {
        Event::Init { last: self.last }
    }

    pub fn end_turn_event(&self) -> (r: Event)
        ensures
            r == Event::EndTurn,
    {
        Event::EndTurn
    }

    /// The event of the local player playing the card at `card_index` of
    /// their hand.
    pub fn play_card_event(&self, card_index: usize) -> (r: Event)
        requires
            self@.wf(),
            self@.has_player(self@.own_id),
            card_index < self@.own().hand.len(),
        ensures
            r == (Event::PlayCard {
                card: self@.own().hand[card_index as int],
                player: self@.own_id,
                card_index,
            }),
    {
        let i = self.find_player(self.own_id).unwrap();
        let card = self.players[i].hand()[card_index];
        Event::PlayCard { card, player: self.players[i].id(), card_index }
    }

    /// The event dealing the current seat its draw: the debt, or one card.
    pub fn deal_event(&self) -> (r: Event)
        requires
            self@.wf(),
        ensures
            r == (Event::Deal {
                player: self@.current().id,
                count: match self@.draw_count {
                    Some(n) => n as u32,
                    None => 1,
                },
            }),
    {
        let count = match self.draw_count {
            Some(n) => n as u32,
            None => 1,
        };
        let player = self.players[self.current_player].id();
        Event::Deal { player, count }
    }

    pub fn draw_request(&self) -> (r: Event)
        ensures
            r == Event::DrawRequest,
    {
        Event::DrawRequest
    }

    /// The host's answer to a draw request: the debt's worth of cards, or one
    /// card, taken with `draw_one`.
    pub fn draw_response(&mut self) -> (r: Event)
        requires
            old(self)@.wf(),
        ensures
            final(self)@.wf(),
            final(self)@ == (GameState {
                draw: final(self)@.draw,
                discard: final(self)@.discard,
                ..old(self)@
            }),
            r is DrawResponse,
            r->DrawResponse_0@.len() == match old(self)@.draw_count {
                Some(n) => n as usize,
                None => 1,
            },
            final(self)@.pile_total() == (if old(self)@.pile_total() > r->DrawResponse_0@.len() {
                old(self)@.pile_total() - r->DrawResponse_0@.len()
            } else {
                0
            }),
            old(self)@.draw.len() >= r->DrawResponse_0@.len() ==> old(self)@.drawn_from_top(
                final(self)@,
                r->DrawResponse_0@,
            ),
    {
        let count = match self.draw_count {
            Some(n) => n as usize,
            None => 1,
        };
        let cards = self.draw_many(count);
        Event::DrawResponse(cards)
    }

    /// Passes the turn to the next seat in the direction of play.
    pub fn end_turn(&mut self)
        requires
            old(self)@.wf(),
        ensures
            final(self)@ == old(self)@.turn_ended(),
            final(self)@.wf(),
    {
        let n = self.players.len();
        let cp = self.current_player;
        self.current_player = match self.direction {
            Direction::Clockwise => if cp + 1 == n {
                0
            } else {
                cp + 1
            },
            Direction::CounterClockwise => if cp == 0 {
                n - 1
            } else {
                cp - 1
            },
        };
        proof {
            lemma_turn_moves_one_seat(old(self)@);
        }
        assert(self@.players =~= old(self)@.players);
    }

    /// Plays `card` on the pile. A card that is not compatible with the one in
    /// play, or that cannot be stacked while a debt is open, is refused and
    /// nothing changes. Otherwise the card takes effect (PlusTwo and PlusFour
    /// raise the debt, Reverse turns the direction, Skip without a debt passes
    /// the turn once), goes on the pile, and the result says whether the
    /// current seat's hand is empty.
    pub fn play(&mut self, card: Card) -> (r: PlayResult)
        requires
            old(self)@.wf(),
            old(self)@.room_for(card),
        ensures
            final(self)@.wf(),
            (r == PlayResult::InvalidCard) == old(self)@.refuses(card),
            old(self)@.refuses(card) ==> *final(self) == *old(self),
            !old(self)@.refuses(card) ==> final(self)@ == old(self)@.played(card) && r
                == final(self)@.outcome(),
    {
        if !card.compatible_with(self.last) || (self.draw_count.is_some()
            && !card.ty().can_be_stacked()) {
            return PlayResult::InvalidCard;
        }
        match card.ty() {
            CardType::PlusTwo => {
                self.draw_count = Some(
                    match self.draw_count {
                        Some(n) => n + 2,
                        None => 2,
                    },
                );
            },
            CardType::Skip => {
                if self.draw_count.is_none() {
                    self.end_turn();
                }
            },
            CardType::Reverse => {
                self.direction = match self.direction {
                    Direction::Clockwise => Direction::CounterClockwise,
                    Direction::CounterClockwise => Direction::Clockwise,
                };
            },
            CardType::PlusFour => {
                self.draw_count = Some(
                    match self.draw_count {
                        Some(n) => n + 4,
                        None => 4,
                    },
                );
            },
            _ => {},
        }
        self.discard.push(self.last);
        self.last = card;
        assert(self@.players =~= old(self)@.players);
        if self.players[self.current_player].hand().len() == 0 {
            PlayResult::GameOver
        } else {
            PlayResult::CardPlayed
        }
    }
}

} // verus!
