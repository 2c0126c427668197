//! Hand management for Blackjack.
//!
//! A hand holds a player's or dealer's cards and calculates the best
//! possible value following Blackjack rules:
//! - Number cards are face value
//! - Face cards (J, Q, K) are 10
//! - Aces are 11 unless that busts, then 1

use vstd::prelude::*;

use super::types::{Card, HandValue, Rank};

verus! {

// ---------------------------------------------------------------------------
// Mathematical model of a hand's value
// ---------------------------------------------------------------------------

/// Sum of the base point values of the cards (every Ace counted as 11).
pub open spec fn raw_total(cards: Seq<Card>) -> nat
    decreases cards.len(),
{
    if cards.len() == 0 {
        0
    } else {
        raw_total(cards.drop_last()) + cards.last().rank.points()
    }
}

/// Number of Aces among the cards.
pub open spec fn ace_count(cards: Seq<Card>) -> nat
    decreases cards.len(),
{
    if cards.len() == 0 {
        0
    } else {
        ace_count(cards.drop_last()) + if cards.last().rank == Rank::Ace {
            1nat
        } else {
            0nat
        }
    }
}

/// The raw total as an 8-bit sum that stops at 255.
pub open spec fn capped_total(cards: Seq<Card>) -> nat {
    if raw_total(cards) <= 255 {
        raw_total(cards)
    } else {
        255
    }
}

/// How many Aces drop from 11 to 1: as few as keep the total at 21 or
/// below, and no more than there are Aces.
pub open spec fn downgrades(total: nat, aces: nat) -> nat {
    if total <= 21 {
        0
    } else {
        let needed = ((total - 12) / 10) as nat;
        if needed < aces {
            needed
        } else {
            aces
        }
    }
}

/// The value of a hand: the capped total with just enough Aces counted
/// as 1, soft when an Ace still counts as 11.
pub open spec fn hand_value(cards: Seq<Card>) -> HandValue {
    let total = capped_total(cards);
    let aces = ace_count(cards);
    let k = downgrades(total, aces);
    HandValue { value: (total - 10 * k) as u8, soft: k < aces }
}

/// There are never more Aces than cards.
pub proof fn lemma_ace_count_le_len(cards: Seq<Card>)
    ensures
        ace_count(cards) <= cards.len(),
    decreases cards.len(),
{
    if cards.len() > 0 {
        lemma_ace_count_le_len(cards.drop_last());
    }
}

/// Every card is worth at least one point beyond the ten that an Ace may
/// drop: the raw total is at least the number of cards plus ten per Ace.
pub proof fn lemma_raw_total_counts_cards(cards: Seq<Card>)
    ensures
        raw_total(cards) >= cards.len() + 10 * ace_count(cards),
    decreases cards.len(),
{
    if cards.len() > 0 {
        lemma_raw_total_counts_cards(cards.drop_last());
    }
}

/// With at most four Aces, a hand worth less than 215 holds no more cards
/// than its value.
pub proof fn lemma_value_counts_cards(cards: Seq<Card>)
    requires
        ace_count(cards) <= 4,
    ensures
        hand_value(cards).value >= 215 || cards.len() <= hand_value(cards).value,
{
    lemma_raw_total_counts_cards(cards);
}

/// A prefix of a hand holds no more Aces than the hand.
proof fn lemma_ace_count_prefix(cards: Seq<Card>, i: int)
    requires
        0 <= i <= cards.len(),
    ensures
        ace_count(cards.take(i)) <= ace_count(cards),
    decreases cards.len() - i,
{
    if i < cards.len() {
        lemma_ace_count_prefix(cards, i + 1);
        assert(cards.take(i + 1).drop_last() =~= cards.take(i));
    } else {
        assert(cards.take(i) =~= cards);
    }
}

/// The total of a hand when `ones` of its Aces count as 1 and the rest as 11.
pub open spec fn total_with_ones(cards: Seq<Card>, ones: nat) -> int {
    raw_total(cards) - 10 * ones
}

/// The value of a hand is the best one that the rules allow: every Ace
/// counts 11 or 1; when some choice keeps the total at 21 or below, the
/// value is the largest such total, and otherwise every Ace counts 1.
/// The hand is soft exactly when an Ace still counts 11. A hand that is
/// bust even with every Ace at 1 is worth that all-ones total and is hard.
/// (Stated for hands whose raw total fits the 8-bit sum.)
pub proof fn lemma_value_is_best(cards: Seq<Card>)
    requires
        raw_total(cards) <= 255,
    ensures
        ({
            let v = hand_value(cards);
            let aces = ace_count(cards);
            &&& exists|k: nat|
                k <= aces && v.value == #[trigger] total_with_ones(cards, k) && v.soft == (k
                    < aces)
            &&& forall|j: nat|
                j <= aces && #[trigger] total_with_ones(cards, j) <= 21 ==> total_with_ones(
                    cards,
                    j,
                ) <= v.value
            &&& (v.value > 21 <==> total_with_ones(cards, aces) > 21)
            &&& total_with_ones(cards, aces) > 21 ==> v.value == total_with_ones(cards, aces)
                && !v.soft
            &&& total_with_ones(cards, aces) <= 21 ==> v.value <= 21
        }),
{
    let raw = raw_total(cards);
    let aces = ace_count(cards);
    let k = downgrades(raw, aces);
    assert(k <= aces && hand_value(cards).value == total_with_ones(cards, k));
}

// ---------------------------------------------------------------------------
// Hand
// ---------------------------------------------------------------------------

/// A Blackjack hand — a collection of cards with value calculation.
#[derive(Debug)]
pub struct Hand {
    /// Cards currently in this hand.
    cards: Vec<Card>,
}

impl View for Hand {
    type V = Seq<Card>;

    closed spec fn view(&self) -> Seq<Card> {
        self.cards@
    }
}

impl Clone for Hand {
    fn clone(&self) -> (h: Self)
        ensures
            h@ == self@,
    {
        let cards = self.cards.clone();
        proof {
            assert(cards@ =~= self.cards@);
        }
        Hand { cards }
    }
}

impl Default for Hand {
    fn default() -> (h: Self)
        ensures
            h@ == Seq::<Card>::empty(),
    {
        Hand::new()
    }
}

impl Hand {
    /// Create an empty hand.
    pub fn new() -> (h: Self)
        ensures
            h@ == Seq::<Card>::empty(),
    {
        Hand { cards: Vec::new() }
    }

    /// Add a card to the hand.
    pub fn add(&mut self, card: Card)
        ensures
            final(self)@ == old(self)@.push(card),
    {
        self.cards.push(card);
    }

    /// The cards in this hand.
    pub fn cards(&self) -> (s: &[Card])
        ensures
            s@ == self@,
    {
        self.cards.as_slice()
    }

    /// Number of cards in the hand.
    pub fn len(&self) -> (n: usize)
        ensures
            n == self@.len(),
    {
        self.cards.len()
    }

    /// Whether the hand has no cards.
    pub fn is_empty(&self) -> (r: bool)
        ensures
            r == (self@.len() == 0),
    {
        self.cards.len() == 0
    }

    /// Calculate the best value for this hand.
    ///
    /// Aces count as 11 unless that would cause a bust (> 21), in which
    /// case they are downgraded to 1 one at a time. The running total is
    /// an 8-bit sum that stops at 255; the Ace counter is 8-bit too.
    pub fn value(&self) -> (v: HandValue)
        requires
            ace_count(self@) < 256,
        ensures
            v == hand_value(self@),
    {
        let mut total: u8 = 0;
        let mut aces: u8 = 0;
        let mut i: usize = 0;
        let n = self.cards.len();
        while i < n
            invariant
                n == self.cards@.len(),
                i <= n,
                total == capped_total(self.cards@.take(i as int)),
                aces == ace_count(self.cards@.take(i as int)),
                ace_count(self.cards@) < 256,
            decreases n - i,
        {
            let card = self.cards[i];
            proof {
                assert(self.cards@.take(i + 1).drop_last() =~= self.cards@.take(i as int));
                lemma_ace_count_prefix(self.cards@, i + 1);
            }
            // Ace initially counts as 11 via Rank::value().
            total = total.saturating_add(card.rank.value());
            if card.rank == Rank::Ace {
                aces += 1;
            }
            i += 1;
        }
        proof {
            assert(self.cards@.take(n as int) =~= self.cards@);
        }
        let ghost t0 = total as nat;
        let ghost a0 = aces as nat;
        // Downgrade aces from 11 to 1 as needed to avoid bust.
        while total > 21 && aces > 0
            invariant
                t0 <= 255,
                aces <= a0,
                total + 10 * (a0 - aces) == t0,
                a0 - aces <= downgrades(t0, a0),
            decreases aces,
        {
            total -= 10;
            aces -= 1;
        }
        HandValue { value: total, soft: aces > 0 }
    }

    /// Whether the hand value exceeds 21 (bust).
    pub fn is_bust(&self) -> (r: bool)
        requires
            ace_count(self@) < 256,
        ensures
            r == (hand_value(self@).value > 21),
    {
        self.value().value > 21
    }

    /// Whether the hand is a natural Blackjack (exactly two cards totaling 21).
    pub fn is_blackjack(&self) -> (r: bool)
        ensures
            r == (self@.len() == 2 && hand_value(self@).value == 21),
    {
        proof {
            lemma_ace_count_le_len(self@);
        }
        self.cards.len() == 2 && self.value().value == 21
    }

    /// Whether the hand is a pair (exactly two cards of the same rank).
    ///
    /// This is used to determine if the player can split.
    pub fn is_pair(&self) -> (r: bool)
        ensures
            r == (self@.len() == 2 && self@[0].rank == self@[1].rank),
    {
        self.cards.len() == 2 && self.cards[0].rank == self.cards[1].rank
    }
}

} // verus!
