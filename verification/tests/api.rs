use rumenx_blackjack::api::errors::ApiError;
use rumenx_blackjack::api::models::{CardResponse, GameResponse, GameSummary, HistoryResponse};
use rumenx_blackjack::engine::deck::Deck;
use rumenx_blackjack::engine::game::Game;
use rumenx_blackjack::engine::types::{Card, GameError, Rank, Suit};

fn game_after(burn: usize) -> Game {
    let mut deck = Deck::new();
    for _ in 0..burn {
        deck.draw().unwrap();
    }
    Game::deal("g-7".to_string(), deck).unwrap()
}

#[test]
fn test_error_mapping() {
    let e = ApiError::from_game_error(GameError::InvalidAction("bad move".to_string()));
    assert!(matches!(&e, ApiError::InvalidAction(m) if m == "bad move"));
    assert_eq!(e.status_code(), 400);
    assert_eq!(e.error_key(), "invalid_action");
    assert_eq!(e.to_string(), "bad move");

    let e = ApiError::from_game_error(GameError::DeckEmpty);
    assert!(matches!(&e, ApiError::Internal(m) if m == "deck is empty"));
    assert_eq!(e.status_code(), 500);
    assert_eq!(e.error_key(), "internal_error");
    assert_eq!(e.to_string(), "internal error: deck is empty");

    let e = ApiError::from_game_error(GameError::CannotSplit);
    assert!(matches!(&e, ApiError::InvalidAction(m) if m == "cannot split: not a pair"));

    let e = ApiError::GameNotFound("abc".to_string());
    assert_eq!(e.status_code(), 404);
    assert_eq!(e.error_key(), "game_not_found");
    assert_eq!(e.to_string(), "game not found: abc");
}

#[test]
fn test_card_responses() {
    let r = CardResponse::from_card(&Card::new(Rank::Ten, Suit::Diamonds));
    assert_eq!(r.rank, "10");
    assert_eq!(r.suit, "diamonds");
    let h = CardResponse::hidden();
    assert_eq!(h.rank, "?");
    assert_eq!(h.suit, "?");
}

#[test]
fn test_game_response_hides_hole_card_while_playing() {
    let game = game_after(1);
    let r = GameResponse::from_game(&game);
    assert_eq!(r.id, "g-7");
    assert_eq!(r.status, "playing");
    let ranks: Vec<&str> = r.player_hand.cards.iter().map(|c| c.rank.as_str()).collect();
    assert_eq!(ranks, vec!["K", "J"]);
    assert_eq!(r.player_hand.value, 20);
    assert!(!r.player_hand.soft);
    assert_eq!(r.dealer_hand.cards.len(), 2);
    assert_eq!(r.dealer_hand.cards[0].rank, "Q");
    assert_eq!(r.dealer_hand.cards[0].suit, "spades");
    assert_eq!(r.dealer_hand.cards[1].rank, "?");
    assert_eq!(r.dealer_hand.cards[1].suit, "?");
    assert_eq!(r.dealer_hand.value, 10);
    assert_eq!(r.dealer_hand.visible_value, 10);
    assert_eq!(r.deck_remaining, 47);
    assert_eq!(r.actions, vec!["hit", "stand", "double"]);
}

#[test]
fn test_game_response_shows_all_when_over() {
    let mut game = game_after(4);
    game.stand().unwrap();
    let r = GameResponse::from_game(&game);
    assert_eq!(r.status, "dealer_bust");
    let ranks: Vec<&str> = r.dealer_hand.cards.iter().map(|c| c.rank.as_str()).collect();
    assert_eq!(ranks, vec!["9", "7", "6"]);
    assert_eq!(r.dealer_hand.value, 22);
    assert_eq!(r.dealer_hand.visible_value, 22);
    assert!(r.actions.is_empty());

    let s = GameSummary::from_game(&game);
    assert_eq!(s.id, "g-7");
    assert_eq!(s.status, "dealer_bust");
    assert_eq!(s.player_value, 18);

    let h = HistoryResponse::from_game(&game);
    assert_eq!(h.id, "g-7");
    assert_eq!(h.actions, vec!["Deal", "Stand", "Dealer hits 6♠", "Dealer stands"]);
}
