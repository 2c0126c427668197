use std::collections::HashSet;

use rumenx_blackjack::engine::deck::Deck;
use rumenx_blackjack::engine::types::{Card, Rank, Suit};

#[test]
fn test_new_deck_has_52_cards() {
    let deck = Deck::new();
    assert_eq!(deck.remaining(), 52);
}

#[test]
fn test_new_deck_has_unique_cards() {
    let deck = Deck::new();
    let unique: HashSet<Card> = deck.cards().iter().copied().collect();
    assert_eq!(unique.len(), 52, "all 52 cards should be unique");
}

#[test]
fn test_draw_reduces_count() {
    let mut deck = Deck::new_shuffled();
    let _ = deck.draw().expect("should draw a card");
    assert_eq!(deck.remaining(), 51);
}

#[test]
fn test_draw_returns_card() {
    let mut deck = Deck::new_shuffled();
    let card = deck.draw().expect("should draw a card");
    assert!(Rank::ALL.contains(&card.rank));
    assert!(Suit::ALL.contains(&card.suit));
}

#[test]
fn test_draw_all_cards_then_empty() {
    let mut deck = Deck::new_shuffled();
    for _ in 0..52 {
        deck.draw().expect("should have cards");
    }
    assert!(deck.is_empty());
    assert!(deck.draw().is_err(), "drawing from empty deck should error");
}

#[test]
fn test_shuffled_deck_has_52_unique_cards() {
    let deck = Deck::new_shuffled();
    assert_eq!(deck.remaining(), 52);
    let unique: HashSet<Card> = deck.cards().iter().copied().collect();
    assert_eq!(unique.len(), 52);
}

#[test]
fn test_shuffle_changes_order() {
    // Probabilistic: two shuffles giving the same order is astronomically unlikely.
    let deck1 = Deck::new_shuffled();
    let deck2 = Deck::new_shuffled();
    assert_ne!(
        deck1.cards(),
        deck2.cards(),
        "two shuffled decks should (almost certainly) differ"
    );
}

#[test]
fn test_new_deck_order() {
    let deck = Deck::new();
    let cards = deck.cards();
    assert_eq!(cards[0], Card::new(Rank::Two, Suit::Hearts));
    assert_eq!(cards[12], Card::new(Rank::Ace, Suit::Hearts));
    assert_eq!(cards[13], Card::new(Rank::Two, Suit::Diamonds));
    assert_eq!(cards[51], Card::new(Rank::Ace, Suit::Spades));
    assert_eq!(Deck::default().cards(), cards);
}

#[test]
fn test_draw_takes_the_top_card() {
    let mut deck = Deck::new();
    assert_eq!(deck.draw().unwrap(), Card::new(Rank::Ace, Suit::Spades));
    assert_eq!(deck.draw().unwrap(), Card::new(Rank::King, Suit::Spades));
    assert_eq!(deck.remaining(), 50);
    assert_eq!(deck.cards().last(), Some(&Card::new(Rank::Queen, Suit::Spades)));
}

#[test]
fn test_shuffle_keeps_the_same_cards_in_another_order() {
    let mut deck = Deck::new();
    for _ in 0..10 {
        deck.draw().unwrap();
    }
    let before: Vec<Card> = deck.cards().to_vec();
    deck.shuffle();
    assert_eq!(deck.remaining(), 42);
    let mut a = before.clone();
    let mut b: Vec<Card> = deck.cards().to_vec();
    let key = |c: &Card| (c.suit as u8, c.rank as u8);
    a.sort_by_key(key);
    b.sort_by_key(key);
    assert_eq!(a, b);
    // Probabilistic: a shuffle of 42 cards keeps their order with negligible chance.
    assert_ne!(deck.cards(), &before[..]);
}

#[test]
fn test_new_shuffled_is_not_the_built_order() {
    // Probabilistic, as above.
    assert_ne!(Deck::new_shuffled().cards(), Deck::new().cards());
}

#[test]
fn test_empty_deck_draw_leaves_it_empty() {
    let mut deck = Deck::new();
    for _ in 0..52 {
        deck.draw().unwrap();
    }
    assert!(matches!(
        deck.draw(),
        Err(rumenx_blackjack::engine::types::GameError::DeckEmpty)
    ));
    assert_eq!(deck.remaining(), 0);
    let copy = deck.clone();
    assert!(copy.is_empty());
}
