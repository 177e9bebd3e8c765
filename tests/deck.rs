use verplant::{Card, GameState};

fn count(deck: &[Card], card: Card) -> usize {
    deck.iter().filter(|c| **c == card).count()
}

#[test]
fn build_deck_has_the_standard_sixteen_cards() {
    let deck = Card::create_deck();
    assert_eq!(deck.len(), 16);
    for n in 1..=5u8 {
        assert_eq!(count(&deck, Card::Number(n)), 2);
    }
    assert_eq!(count(&deck, Card::Six), 1);
    for n in 2..=4u8 {
        assert_eq!(count(&deck, Card::Express(n)), 1);
    }
    assert_eq!(count(&deck, Card::Express(5)), 0);
    assert_eq!(count(&deck, Card::Transfer), 1);
    assert_eq!(count(&deck, Card::FreeRide), 1);
}

#[test]
fn card_values() {
    assert_eq!(Card::Number(3).get_value(), Some(3));
    assert_eq!(Card::Express(4).get_value(), Some(4));
    assert_eq!(Card::Six.get_value(), Some(6));
    assert_eq!(Card::Transfer.get_value(), None);
    assert_eq!(Card::FreeRide.get_value(), None);
}

#[test]
fn shuffle_is_deterministic_for_a_seed() {
    let mut a = Card::create_deck();
    let mut b = Card::create_deck();
    GameState::shuffle_deck(&mut a, 42);
    GameState::shuffle_deck(&mut b, 42);
    assert_eq!(a, b);
    let mut c = Card::create_deck();
    GameState::shuffle_deck(&mut c, 7);
    assert_ne!(a, c);
}

#[test]
fn shuffle_keeps_the_cards() {
    let mut d = Card::create_deck();
    GameState::shuffle_deck(&mut d, 123456789);
    assert_eq!(d.len(), 16);
    let unshuffled = Card::create_deck();
    for card in unshuffled.iter() {
        assert_eq!(count(&d, *card), count(&unshuffled, *card));
    }
}

#[test]
fn shuffle_first_step_matches_the_generator() {
    // seed 0: state becomes 12345, and for two cards j = 12345 % 2 = 1: no exchange.
    let mut d = vec![Card::Number(1), Card::Number(2)];
    GameState::shuffle_deck(&mut d, 0);
    assert_eq!(d, vec![Card::Number(1), Card::Number(2)]);
    // seed 1: state becomes 1103527590, even, so the two cards exchange.
    let mut e = vec![Card::Number(1), Card::Number(2)];
    GameState::shuffle_deck(&mut e, 1);
    assert_eq!(e, vec![Card::Number(2), Card::Number(1)]);
}

fn total(g: &GameState) -> usize {
    g.deck.len() + g.discard_pile.len() + if g.current_card.is_some() { 1 } else { 0 }
}

#[test]
fn new_game_holds_sixteen_cards() {
    let g = GameState::create(1, verplant::City::Amsterdam, 9, 5);
    assert_eq!(total(&g), 16);
    assert_eq!(g.round, 0);
    assert!(g.current_card.is_none());
    assert!(!g.game_ended);
    let h = GameState::new(verplant::City::Berlin, 9);
    assert_eq!(total(&h), 16);
}

#[test]
fn cards_are_conserved_over_rounds() {
    let mut g = GameState::create(1, verplant::City::Amsterdam, 9, 77);
    for round in 0..40u64 {
        let before = total(&g);
        let card = g.reveal_card_seeded(round);
        assert!(card.is_some());
        assert_eq!(total(&g), before);
        assert_eq!(total(&g), 16);
        g.next_round_seeded(round + 1000);
        assert_eq!(total(&g), 16);
        assert!(g.current_card.is_none());
    }
    assert_eq!(g.round, 40);
}

#[test]
fn draw_takes_the_top_card() {
    let mut g = GameState::create(1, verplant::City::Amsterdam, 9, 3);
    let top = *g.deck.last().unwrap();
    assert_eq!(g.draw_card_seeded(0), Some(top));
    assert_eq!(g.deck.len(), 15);
}

#[test]
fn draw_refills_from_discard() {
    let mut g = GameState::create(1, verplant::City::Amsterdam, 9, 3);
    g.discard_pile = vec![Card::Number(1), Card::Number(2), Card::Transfer];
    g.deck = Vec::new();
    let card = g.draw_card_seeded(11).unwrap();
    assert!(g.discard_pile.is_empty());
    assert_eq!(g.deck.len(), 2);
    let mut all = g.deck.clone();
    all.push(card);
    assert_eq!(count(&all, Card::Number(1)), 1);
    assert_eq!(count(&all, Card::Number(2)), 1);
    assert_eq!(count(&all, Card::Transfer), 1);
}

#[test]
fn draw_from_nothing_gives_none() {
    let mut g = GameState::create(1, verplant::City::Amsterdam, 9, 3);
    g.deck = Vec::new();
    assert_eq!(g.draw_card_seeded(5), None);
    assert_eq!(g.reveal_card_seeded(5), None);
    assert!(g.current_card.is_none());
}

#[test]
fn six_reshuffles_everything() {
    let mut g = GameState::create(1, verplant::City::Amsterdam, 9, 3);
    g.deck = vec![Card::Number(1)];
    g.discard_pile = vec![Card::Number(2), Card::Express(3)];
    g.current_card = Some(Card::Six);
    g.next_round_seeded(8);
    assert!(g.discard_pile.is_empty());
    assert!(g.current_card.is_none());
    assert_eq!(g.deck.len(), 4);
    assert_eq!(count(&g.deck, Card::Six), 1);
    assert_eq!(g.round, 1);
}

#[test]
fn other_cards_go_to_the_discard_pile() {
    let mut g = GameState::create(1, verplant::City::Amsterdam, 9, 3);
    let card = g.reveal_card_seeded(0).unwrap();
    let deck_len = g.deck.len();
    if card != Card::Six {
        g.next_round_seeded(0);
        assert_eq!(g.discard_pile, vec![card]);
        assert_eq!(g.deck.len(), deck_len);
    }
}
