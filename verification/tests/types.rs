use rumenx_blackjack::engine::types::{Action, Card, GameError, GameStatus, HandValue, Rank, Suit};

#[test]
fn test_rank_values() {
    assert_eq!(Rank::Two.value(), 2);
    assert_eq!(Rank::Ten.value(), 10);
    assert_eq!(Rank::Jack.value(), 10);
    assert_eq!(Rank::Queen.value(), 10);
    assert_eq!(Rank::King.value(), 10);
    assert_eq!(Rank::Ace.value(), 11);
}

#[test]
fn test_rank_symbols() {
    assert_eq!(Rank::Ace.symbol(), "A");
    assert_eq!(Rank::Ten.symbol(), "10");
    assert_eq!(Rank::King.symbol(), "K");
    assert_eq!(Rank::Two.symbol(), "2");
}

#[test]
fn test_rank_all_has_13_variants() {
    assert_eq!(Rank::ALL.len(), 13);
}

#[test]
fn test_suit_names() {
    assert_eq!(Suit::Hearts.name(), "hearts");
    assert_eq!(Suit::Spades.name(), "spades");
}

#[test]
fn test_suit_all_has_4_variants() {
    assert_eq!(Suit::ALL.len(), 4);
}

#[test]
fn test_card_display() {
    let card = Card::new(Rank::Ace, Suit::Spades);
    assert_eq!(card.to_string(), "A♠");

    let card = Card::new(Rank::Ten, Suit::Hearts);
    assert_eq!(card.to_string(), "10♥");
}

#[test]
fn test_game_status_is_terminal() {
    assert!(!GameStatus::Playing.is_terminal());
    assert!(GameStatus::PlayerBust.is_terminal());
    assert!(GameStatus::DealerBust.is_terminal());
    assert!(GameStatus::PlayerWins.is_terminal());
    assert!(GameStatus::DealerWins.is_terminal());
    assert!(GameStatus::Push.is_terminal());
    assert!(GameStatus::Blackjack.is_terminal());
}

#[test]
fn test_game_status_display() {
    assert_eq!(GameStatus::Playing.to_string(), "playing");
    assert_eq!(GameStatus::PlayerBust.to_string(), "player_bust");
    assert_eq!(GameStatus::Blackjack.to_string(), "blackjack");
}

#[test]
fn test_action_display() {
    let card = Card::new(Rank::Five, Suit::Clubs);
    assert_eq!(Action::Deal.to_string(), "Deal");
    assert_eq!(Action::Hit { card }.to_string(), "Hit 5♣");
    assert_eq!(Action::Stand.to_string(), "Stand");
}

#[test]
fn test_all_rank_values_and_symbols() {
    let values: Vec<u8> = Rank::ALL.iter().map(|r| r.value()).collect();
    assert_eq!(values, vec![2, 3, 4, 5, 6, 7, 8, 9, 10, 10, 10, 10, 11]);
    let symbols: Vec<&str> = Rank::ALL.iter().map(|r| r.symbol()).collect();
    assert_eq!(
        symbols,
        vec!["2", "3", "4", "5", "6", "7", "8", "9", "10", "J", "Q", "K", "A"]
    );
    assert_eq!(Rank::Queen.to_string(), "Q");
}

#[test]
fn test_all_suit_names_and_symbols() {
    let names: Vec<&str> = Suit::ALL.iter().map(|s| s.name()).collect();
    assert_eq!(names, vec!["hearts", "diamonds", "clubs", "spades"]);
    let glyphs: Vec<String> = Suit::ALL.iter().map(|s| s.to_string()).collect();
    assert_eq!(glyphs, vec!["♥", "♦", "♣", "♠"]);
}

#[test]
fn test_all_status_labels() {
    assert_eq!(GameStatus::DealerTurn.to_string(), "dealer_turn");
    assert_eq!(GameStatus::DealerBust.to_string(), "dealer_bust");
    assert_eq!(GameStatus::PlayerWins.to_string(), "player_wins");
    assert_eq!(GameStatus::DealerWins.to_string(), "dealer_wins");
    assert_eq!(GameStatus::Push.to_string(), "push");
    assert!(GameStatus::DealerTurn.is_terminal());
}

#[test]
fn test_all_action_texts() {
    let card = Card::new(Rank::Queen, Suit::Diamonds);
    assert_eq!(Action::Double { card }.to_string(), "Double Q♦");
    assert_eq!(Action::DealerHit { card }.to_string(), "Dealer hits Q♦");
    assert_eq!(Action::DealerStand.to_string(), "Dealer stands");
}

#[test]
fn test_game_error_messages() {
    assert_eq!(
        GameError::InvalidAction("nope".to_string()).to_string(),
        "invalid action: nope"
    );
    assert_eq!(GameError::DeckEmpty.to_string(), "deck is empty");
    assert_eq!(
        GameError::CannotSplit.to_string(),
        "cannot split: hand does not contain a pair"
    );
}

#[test]
fn test_hand_value_equality() {
    let v = HandValue { value: 17, soft: true };
    assert_eq!(v, HandValue { value: 17, soft: true });
    assert_ne!(v, HandValue { value: 17, soft: false });
}
