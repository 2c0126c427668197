use rumenx_blackjack::engine::hand::Hand;
use rumenx_blackjack::engine::types::{Card, HandValue, Rank, Suit};

/// Helper: create a card.
fn card(rank: Rank, suit: Suit) -> Card {
    Card::new(rank, suit)
}

#[test]
fn test_empty_hand() {
    let hand = Hand::new();
    assert!(hand.is_empty());
    assert_eq!(hand.len(), 0);
    assert_eq!(
        hand.value(),
        HandValue {
            value: 0,
            soft: false
        }
    );
}

#[test]
fn test_simple_hard_hand() {
    let mut hand = Hand::new();
    hand.add(card(Rank::Ten, Suit::Hearts));
    hand.add(card(Rank::Seven, Suit::Clubs));
    let v = hand.value();
    assert_eq!(v.value, 17);
    assert!(!v.soft, "no aces means hard hand");
}

#[test]
fn test_soft_hand_with_ace() {
    let mut hand = Hand::new();
    hand.add(card(Rank::Ace, Suit::Spades));
    hand.add(card(Rank::Six, Suit::Hearts));
    let v = hand.value();
    assert_eq!(v.value, 17, "A + 6 = soft 17");
    assert!(v.soft);
}

#[test]
fn test_ace_downgrades_when_bust() {
    let mut hand = Hand::new();
    hand.add(card(Rank::Ace, Suit::Spades));
    hand.add(card(Rank::Eight, Suit::Hearts));
    hand.add(card(Rank::Seven, Suit::Clubs));
    let v = hand.value();
    // A(11)+8+7 = 26 → bust, so A becomes 1: 1+8+7 = 16
    assert_eq!(v.value, 16);
    assert!(!v.soft, "ace was downgraded");
    assert!(!hand.is_bust());
}

#[test]
fn test_two_aces_downgrade() {
    let mut hand = Hand::new();
    hand.add(card(Rank::Ace, Suit::Hearts));
    hand.add(card(Rank::Ace, Suit::Spades));
    let v = hand.value();
    // A(11)+A(11) = 22 → one downgrade: 11+1 = 12
    assert_eq!(v.value, 12);
    assert!(v.soft, "one ace still counts as 11");
}

#[test]
fn test_three_aces() {
    let mut hand = Hand::new();
    hand.add(card(Rank::Ace, Suit::Hearts));
    hand.add(card(Rank::Ace, Suit::Spades));
    hand.add(card(Rank::Ace, Suit::Clubs));
    let v = hand.value();
    // A(11)+A(11)+A(11) = 33 → 23 → 13
    assert_eq!(v.value, 13);
    assert!(v.soft, "one ace still counts as 11");
}

#[test]
fn test_blackjack() {
    let mut hand = Hand::new();
    hand.add(card(Rank::Ace, Suit::Hearts));
    hand.add(card(Rank::King, Suit::Spades));
    assert!(hand.is_blackjack());
    assert_eq!(hand.value().value, 21);
    assert!(hand.value().soft);
}

#[test]
fn test_21_but_not_blackjack() {
    let mut hand = Hand::new();
    hand.add(card(Rank::Seven, Suit::Hearts));
    hand.add(card(Rank::Seven, Suit::Spades));
    hand.add(card(Rank::Seven, Suit::Clubs));
    assert_eq!(hand.value().value, 21);
    assert!(
        !hand.is_blackjack(),
        "three cards is not a natural blackjack"
    );
}

#[test]
fn test_bust() {
    let mut hand = Hand::new();
    hand.add(card(Rank::Ten, Suit::Hearts));
    hand.add(card(Rank::King, Suit::Spades));
    hand.add(card(Rank::Five, Suit::Clubs));
    assert!(hand.is_bust(), "10+10+5 = 25 is a bust");
    assert_eq!(hand.value().value, 25);
}

#[test]
fn test_is_pair() {
    let mut hand = Hand::new();
    hand.add(card(Rank::Eight, Suit::Hearts));
    hand.add(card(Rank::Eight, Suit::Spades));
    assert!(hand.is_pair());
}

#[test]
fn test_is_not_pair_different_ranks() {
    let mut hand = Hand::new();
    hand.add(card(Rank::Eight, Suit::Hearts));
    hand.add(card(Rank::Nine, Suit::Spades));
    assert!(!hand.is_pair());
}

#[test]
fn test_is_not_pair_three_cards() {
    let mut hand = Hand::new();
    hand.add(card(Rank::Eight, Suit::Hearts));
    hand.add(card(Rank::Eight, Suit::Spades));
    hand.add(card(Rank::Eight, Suit::Clubs));
    assert!(!hand.is_pair(), "pair requires exactly 2 cards");
}

#[test]
fn test_face_cards_worth_ten() {
    for rank in [Rank::Jack, Rank::Queen, Rank::King] {
        let mut hand = Hand::new();
        hand.add(card(rank, Suit::Hearts));
        assert_eq!(hand.value().value, 10, "{rank:?} should be worth 10");
    }
}

#[test]
fn test_best_value_keeps_one_ace_high() {
    // A + A + 9: 31 → 21 with one Ace as 1 and one as 11.
    let mut hand = Hand::new();
    hand.add(card(Rank::Ace, Suit::Hearts));
    hand.add(card(Rank::Ace, Suit::Spades));
    hand.add(card(Rank::Nine, Suit::Clubs));
    assert_eq!(hand.value(), HandValue { value: 21, soft: true });
    assert!(!hand.is_blackjack());
}

#[test]
fn test_all_aces_low_when_still_bust() {
    // A + K + A + Q: 42 → 32 → 22, both Aces at 1 and still bust.
    let mut hand = Hand::new();
    hand.add(card(Rank::Ace, Suit::Hearts));
    hand.add(card(Rank::King, Suit::Spades));
    hand.add(card(Rank::Ace, Suit::Clubs));
    hand.add(card(Rank::Queen, Suit::Clubs));
    assert_eq!(hand.value(), HandValue { value: 22, soft: false });
    assert!(hand.is_bust());
}

#[test]
fn test_total_stops_at_255() {
    // 26 tens are worth 260 in all; the 8-bit total stops at 255.
    let mut hand = Hand::new();
    for _ in 0..26 {
        hand.add(card(Rank::Ten, Suit::Hearts));
    }
    assert_eq!(hand.value(), HandValue { value: 255, soft: false });
    assert!(hand.is_bust());
}

#[test]
fn test_cards_in_order_added() {
    let mut hand = Hand::default();
    hand.add(card(Rank::Two, Suit::Hearts));
    hand.add(card(Rank::Three, Suit::Clubs));
    assert_eq!(
        hand.cards(),
        &[card(Rank::Two, Suit::Hearts), card(Rank::Three, Suit::Clubs)]
    );
    assert_eq!(hand.len(), 2);
    assert!(!hand.is_empty());
}
