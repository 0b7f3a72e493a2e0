use uno::card::{build_deck, Card, CardType, Color};
use uno::event::Event;
use uno::game::{Direction, Game, PlayResult};
use uno::player::Player;

fn card(ty: CardType, color: Color) -> Card {
    Card::new(ty, color)
}

fn player_with(name: &str, id: u32, hand: &[Card]) -> Player {
    let mut p = Player::new(name, id);
    for c in hand {
        p.draw(*c);
    }
    p
}

fn sorted_compact(cards: &[Card]) -> Vec<String> {
    let mut v: Vec<String> = cards.iter().map(|c| c.to_compact()).collect();
    v.sort();
    v
}

/// A host game with one seat per id, the first one local, and `last` in play.
fn table(ids: &[u32], last: Card) -> Game {
    let filler = [card(CardType::N9, Color::Blue), card(CardType::N8, Color::Green)];
    let mut g = Game::new(player_with("p0", ids[0], &filler), true);
    for (k, id) in ids.iter().enumerate().skip(1) {
        g.add_player(player_with(&format!("p{}", k), *id, &filler));
    }
    g.handle_event(Event::Init { last });
    g
}

#[test]
fn new_game_deals_from_a_shuffled_deck() {
    let g = Game::new(Player::new("a", 7), false);
    assert_eq!(g.draw_len(), 107);
    assert_eq!(g.discard_len(), 0);
    assert_eq!(g.current_player(), 7);
    assert_eq!(g.direction(), Direction::Clockwise);
    assert_eq!(g.draw_count(), 0);
    let mut all: Vec<Card> = g.draw_pile().to_vec();
    all.push(g.last());
    assert_eq!(sorted_compact(&all), sorted_compact(&build_deck()));
    assert_eq!(g.color(), g.last().color());
}

#[test]
fn shuffled_deck_is_not_in_build_order() {
    let g1 = Game::new(Player::new("a", 1), true);
    let g2 = Game::new(Player::new("a", 1), true);
    let deck = build_deck();
    let unshuffled = &deck[..107];
    assert!(g1.draw_pile() != unshuffled || g2.draw_pile() != unshuffled);
}

#[test]
fn color_match() {
    let mut g = table(&[1], card(CardType::N5, Color::Red));
    let r = g.play(card(CardType::N2, Color::Red));
    assert_eq!(r, PlayResult::CardPlayed);
    assert_eq!(g.last(), card(CardType::N2, Color::Red));
    assert_eq!(*g.discard_pile().last().unwrap(), card(CardType::N5, Color::Red));
}

#[test]
fn wild_on_anything() {
    let mut g = table(&[1], card(CardType::N7, Color::Blue));
    let wild = card(CardType::Wild, Color::Yellow);
    assert_eq!(g.play(wild), PlayResult::CardPlayed);
    assert_eq!(g.last(), wild);
    assert_eq!(g.draw_count(), 0);
}

#[test]
fn invalid_card_changes_nothing() {
    let mut g = table(&[1, 2], card(CardType::N5, Color::Red));
    let before_draw = g.draw_pile().to_vec();
    let r = g.play(card(CardType::N2, Color::Blue));
    assert_eq!(r, PlayResult::InvalidCard);
    assert_eq!(g.last(), card(CardType::N5, Color::Red));
    assert_eq!(g.discard_len(), 0);
    assert_eq!(g.draw_pile(), &before_draw[..]);
    assert_eq!(g.current_player(), 1);
    assert_eq!(g.direction(), Direction::Clockwise);
}

#[test]
fn stacking_draws() {
    let mut g = table(&[1, 2], card(CardType::N1, Color::Red));
    assert_eq!(g.play(card(CardType::PlusTwo, Color::Red)), PlayResult::CardPlayed);
    assert_eq!(g.draw_count(), 2);
    // player A stacks
    assert_eq!(g.play(card(CardType::PlusTwo, Color::Red)), PlayResult::CardPlayed);
    assert_eq!(g.draw_count(), 4);
    g.end_turn();
    assert_eq!(g.current_player(), 2);
    // player B may not play a plain card on the debt
    assert_eq!(g.play(card(CardType::N3, Color::Red)), PlayResult::InvalidCard);
    assert_eq!(g.draw_count(), 4);
    assert_eq!(g.draw_request(), Event::DrawRequest);
    let draw_before = g.draw_len();
    match g.draw_response() {
        Event::DrawResponse(cards) => assert_eq!(cards.len(), 4),
        other => panic!("unexpected {:?}", other),
    }
    assert_eq!(g.draw_len(), draw_before - 4);
    let deal = g.deal_event();
    assert_eq!(deal, Event::Deal { player: 2, count: 4 });
    g.handle_host_event(deal);
    assert_eq!(g.player(2).hand().len(), 6);
    assert_eq!(g.draw_count(), 0);
    assert_eq!(g.current_player(), 1);
}

#[test]
fn plus_four_raises_debt_and_reverse_stacks() {
    let mut g = table(&[1, 2], card(CardType::N1, Color::Red));
    assert_eq!(g.play(card(CardType::PlusFour, Color::Green)), PlayResult::CardPlayed);
    assert_eq!(g.draw_count(), 4);
    assert_eq!(g.play(card(CardType::Reverse, Color::Green)), PlayResult::CardPlayed);
    assert_eq!(g.direction(), Direction::CounterClockwise);
    assert_eq!(g.draw_count(), 4);
    // a skip during a debt does not pass the turn
    assert_eq!(g.play(card(CardType::Skip, Color::Green)), PlayResult::CardPlayed);
    assert_eq!(g.current_player(), 1);
    assert_eq!(g.play(card(CardType::Wild, Color::Green)), PlayResult::InvalidCard);
}

#[test]
fn reverse_with_two_players() {
    let mut g = table(&[10, 20], card(CardType::N4, Color::Green));
    assert_eq!(g.play(card(CardType::Reverse, Color::Green)), PlayResult::CardPlayed);
    assert_eq!(g.direction(), Direction::CounterClockwise);
    assert_eq!(g.handle_event(Event::EndTurn), PlayResult::Nothing);
    assert_eq!(g.current_player(), 20);
}

#[test]
fn skip_without_debt() {
    let skip = card(CardType::Skip, Color::Yellow);
    let mut g = Game::new(
        player_with("a", 1, &[skip, card(CardType::N1, Color::Red)]),
        true,
    );
    g.add_player(player_with("b", 2, &[card(CardType::N2, Color::Red)]));
    g.add_player(player_with("c", 3, &[card(CardType::N3, Color::Red)]));
    g.handle_event(Event::Init { last: card(CardType::N6, Color::Yellow) });
    let r = g.handle_event(Event::PlayCard { card: skip, player: 1, card_index: 0 });
    assert_eq!(r, PlayResult::CardPlayed);
    assert_eq!(g.current_player(), 3);
    assert_eq!(g.player(1).hand(), &[card(CardType::N1, Color::Red)][..]);
}

#[test]
fn skip_play_advances_once() {
    let mut g = table(&[1, 2, 3], card(CardType::N6, Color::Yellow));
    g.play(card(CardType::Skip, Color::Yellow));
    assert_eq!(g.current_player(), 2);
}

#[test]
fn game_over_on_last_card() {
    let last_card = card(CardType::N3, Color::Blue);
    let mut g = Game::new(player_with("a", 1, &[last_card]), true);
    g.add_player(player_with("b", 2, &[card(CardType::N2, Color::Red)]));
    g.handle_event(Event::Init { last: card(CardType::N9, Color::Blue) });
    let r = g.handle_event(Event::PlayCard { card: last_card, player: 1, card_index: 0 });
    assert_eq!(r, PlayResult::GameOver);
    assert!(g.player(1).hand().is_empty());
    assert_eq!(g.last(), last_card);
    assert_eq!(g.current_player(), 1);
}

#[test]
fn play_card_from_other_seat_is_ignored() {
    let mut g = table(&[1, 2], card(CardType::N9, Color::Blue));
    let c = card(CardType::N8, Color::Green);
    let r = g.handle_event(Event::PlayCard { card: c, player: 2, card_index: 0 });
    assert_eq!(r, PlayResult::Nothing);
    assert_eq!(g.last(), card(CardType::N9, Color::Blue));
    assert_eq!(g.player(2).hand().len(), 2);
}

#[test]
fn play_card_event_then_dispatch() {
    let mut g = table(&[1, 2], card(CardType::N9, Color::Red));
    let e = g.play_card_event(0);
    assert_eq!(
        e,
        Event::PlayCard { card: card(CardType::N9, Color::Blue), player: 1, card_index: 0 }
    );
    assert_eq!(g.handle_event(e), PlayResult::CardPlayed);
    assert_eq!(g.own_hand(), &[card(CardType::N8, Color::Green)][..]);
    assert_eq!(g.current_player(), 2);
}

#[test]
fn play_index_removes_card() {
    let mut g = table(&[1], card(CardType::N8, Color::Red));
    assert_eq!(g.play_index(5), PlayResult::InvalidCard);
    assert_eq!(g.play_index(0), PlayResult::InvalidCard);
    assert_eq!(g.own_hand().len(), 2);
    assert_eq!(g.play_index(1), PlayResult::CardPlayed);
    assert_eq!(g.own_hand(), &[card(CardType::N9, Color::Blue)][..]);
    assert_eq!(g.last(), card(CardType::N8, Color::Green));
}

#[test]
fn end_turn_wraps_both_ways() {
    let mut g = table(&[5, 6, 7], card(CardType::N1, Color::Red));
    g.end_turn();
    assert_eq!(g.current_player(), 6);
    g.end_turn();
    g.end_turn();
    assert_eq!(g.current_player(), 5);
    g.play(card(CardType::Reverse, Color::Red));
    g.end_turn();
    assert_eq!(g.current_player(), 7);
    g.end_turn();
    assert_eq!(g.current_player(), 6);
}

#[test]
fn add_player_keeps_order_and_turn() {
    let mut g = Game::new(Player::new("a", 5), true);
    g.add_player(Player::new("b", 9));
    g.end_turn();
    assert_eq!(g.current_player(), 9);
    g.add_player(Player::new("c", 1));
    let ids: Vec<u32> = g.players().iter().map(|p| p.id()).collect();
    assert_eq!(ids, vec![1, 5, 9]);
    assert_eq!(g.current_player(), 9);
    g.add_player(Player::new("again", 5));
    assert_eq!(g.players().len(), 3);
    assert_eq!(g.player(5).name(), "a");
}

#[test]
fn remove_player_returns_hand_to_draw() {
    let mut g = table(&[1, 2, 3], card(CardType::N1, Color::Red));
    g.end_turn();
    g.end_turn();
    assert_eq!(g.current_player(), 3);
    let before = g.draw_len();
    g.remove_player(3);
    assert_eq!(g.draw_len(), before + 2);
    assert!(g.players().iter().all(|p| p.id() != 3));
    assert_eq!(g.players().len(), 2);
    assert_eq!(g.current_player(), 1);
    g.remove_player(42);
    assert_eq!(g.players().len(), 2);
    assert_eq!(g.draw_len(), before + 2);
}

#[test]
fn draw_one_refills_from_discard() {
    let mut g = table(&[1], card(CardType::N1, Color::Red));
    while g.draw_len() > 0 {
        g.draw_one();
    }
    g.play(card(CardType::N2, Color::Red));
    g.play(card(CardType::N3, Color::Red));
    assert_eq!(g.discard_len(), 2);
    let c = g.draw_one();
    assert_eq!(g.discard_len(), 0);
    assert_eq!(g.draw_len(), 1);
    assert!(c == card(CardType::N1, Color::Red) || c == card(CardType::N2, Color::Red));
    assert_eq!(g.last(), card(CardType::N3, Color::Red));
    g.draw_one();
    assert_eq!(g.draw_len(), 0);
    // both piles empty: a made-up card, piles stay empty
    g.draw_one();
    assert_eq!(g.draw_len(), 0);
    assert_eq!(g.discard_len(), 0);
}

#[test]
fn draw_one_takes_from_the_end() {
    let mut g = table(&[1], card(CardType::N1, Color::Red));
    let top = *g.draw_pile().last().unwrap();
    let n = g.draw_len();
    assert_eq!(g.draw_one(), top);
    assert_eq!(g.draw_len(), n - 1);
}

#[test]
fn shuffle_moves_discard_into_draw() {
    let mut g = table(&[1], card(CardType::N1, Color::Red));
    g.play(card(CardType::N2, Color::Red));
    g.play(card(CardType::N3, Color::Red));
    let mut expected: Vec<Card> = g.draw_pile().to_vec();
    expected.extend_from_slice(g.discard_pile());
    g.shuffle();
    assert_eq!(g.discard_len(), 0);
    assert_eq!(sorted_compact(g.draw_pile()), sorted_compact(&expected));
}

#[test]
fn reset_starts_over() {
    let mut g = table(&[1, 2], card(CardType::N1, Color::Red));
    g.play(card(CardType::PlusTwo, Color::Red));
    g.play(card(CardType::Reverse, Color::Red));
    g.end_turn();
    g.reset();
    assert_eq!(g.draw_len(), 107);
    assert_eq!(g.discard_len(), 0);
    assert_eq!(g.draw_count(), 0);
    assert_eq!(g.current_player(), 1);
    assert_eq!(g.direction(), Direction::Clockwise);
    assert!(g.players().iter().all(|p| p.hand().is_empty()));
    assert_eq!(g.players().len(), 2);
}

#[test]
fn set_wild_color_only_on_wilds() {
    let wild = card(CardType::Wild, Color::Red);
    let plain = card(CardType::N4, Color::Red);
    let mut g = Game::new(player_with("a", 1, &[wild, plain]), true);
    g.set_wild_color(0, Color::Blue);
    g.set_wild_color(1, Color::Blue);
    assert_eq!(
        g.own_hand(),
        &[card(CardType::Wild, Color::Blue), card(CardType::N4, Color::Red)][..]
    );
}

#[test]
fn guest_keeps_pile_size_on_deal() {
    let mut g = Game::new(Player::new("me", 1), false);
    g.add_player(Player::new("other", 2));
    let before = g.draw_len();
    g.handle_host_event(Event::Deal { player: 2, count: 3 });
    assert_eq!(g.draw_len(), before - 3);
    assert_eq!(g.player(2).hand(), &[Card::default(); 3][..]);
    assert_eq!(g.current_player(), 1);
    // a deal to oneself is ignored
    g.handle_host_event(Event::Deal { player: 1, count: 3 });
    assert_eq!(g.draw_len(), before - 3);
    assert!(g.own_hand().is_empty());
}

#[test]
fn draw_response_goes_to_own_hand() {
    let mut g = table(&[1, 2], card(CardType::N1, Color::Red));
    g.play(card(CardType::PlusTwo, Color::Red));
    let cards = vec![card(CardType::N5, Color::Green), card(CardType::Skip, Color::Blue)];
    g.handle_host_event(Event::DrawResponse(cards));
    assert_eq!(g.own_hand().len(), 4);
    assert_eq!(g.own_hand()[3], card(CardType::Skip, Color::Blue));
    assert_eq!(g.draw_count(), 0);
    assert_eq!(g.current_player(), 2);
    g.handle_host_event(Event::DrawRequest);
    assert_eq!(g.current_player(), 2);
}

#[test]
fn event_constructors() {
    let g = table(&[1, 2], card(CardType::N1, Color::Red));
    assert_eq!(g.init_event(), Event::Init { last: card(CardType::N1, Color::Red) });
    assert_eq!(g.end_turn_event(), Event::EndTurn);
    assert_eq!(g.deal_event(), Event::Deal { player: 1, count: 1 });
}

#[test]
fn player_basics() {
    let mut p = Player::new("ann", 4);
    assert_eq!(p.name(), "ann");
    assert_eq!(p.id(), 4);
    p.set_name("bea");
    p.set_id(8);
    assert_eq!(p.name(), "bea");
    assert_eq!(p.id(), 8);
    p.draw(card(CardType::N1, Color::Red));
    assert_eq!(p.hand(), &[card(CardType::N1, Color::Red)][..]);
    let d = Player::default();
    assert_eq!(d.name(), "");
    assert_eq!(d.id(), 0);
    assert!(d.hand().is_empty());
}

#[test]
fn play_index_last_card_ends_game() {
    let only = card(CardType::N3, Color::Blue);
    let mut g = Game::new(player_with("a", 1, &[only]), true);
    g.add_player(player_with("b", 2, &[card(CardType::N2, Color::Red)]));
    g.handle_event(Event::Init { last: card(CardType::N9, Color::Blue) });
    assert_eq!(g.play_index(0), PlayResult::GameOver);
    assert!(g.own_hand().is_empty());
    assert_eq!(g.last(), only);
}

#[test]
fn guest_draw_response_takes_top_of_own_pile() {
    let mut g = Game::with_seed(Player::new("me", 1), false, 3);
    g.add_player(Player::new("other", 2));
    let pile = g.draw_pile().to_vec();
    let discard = g.discard_pile().to_vec();
    let cards = vec![card(CardType::N5, Color::Green), card(CardType::Skip, Color::Blue)];
    g.handle_host_event(Event::DrawResponse(cards.clone()));
    assert_eq!(g.own_hand(), &cards[..]);
    assert_eq!(g.draw_pile(), &pile[..pile.len() - 2]);
    assert_eq!(g.discard_pile(), &discard[..]);
}

#[test]
fn same_seed_same_game() {
    let g1 = Game::with_seed(Player::new("a", 1), true, 42);
    let g2 = Game::with_seed(Player::new("a", 1), true, 42);
    assert_eq!(g1.draw_pile(), g2.draw_pile());
    assert_eq!(g1.last(), g2.last());
    let mut all: Vec<Card> = g1.draw_pile().to_vec();
    all.push(g1.last());
    assert_eq!(sorted_compact(&all), sorted_compact(&build_deck()));
}

#[test]
fn host_draw_response_takes_top_cards() {
    let mut g = Game::with_seed(Player::new("a", 1), true, 5);
    g.handle_event(Event::Init { last: card(CardType::N1, Color::Red) });
    g.play(card(CardType::PlusTwo, Color::Red));
    let pile = g.draw_pile().to_vec();
    let n = pile.len();
    match g.draw_response() {
        Event::DrawResponse(cards) => assert_eq!(cards, vec![pile[n - 1], pile[n - 2]]),
        other => panic!("unexpected {:?}", other),
    }
    assert_eq!(g.draw_pile(), &pile[..n - 2]);
}
