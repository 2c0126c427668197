//! Deck management for Blackjack.
//!
//! A standard 52-card deck that can be shuffled and drawn from.
//! Shuffling uses the `rand` crate.

use rand::seq::SliceRandom;
use vstd::prelude::*;

use super::types::{Card, GameError, Rank, Suit};

verus! {

/// The unshuffled 52-card deck, in the order in which it is built:
/// suits Hearts, Diamonds, Clubs, Spades, each from Two to Ace.
pub open spec fn standard_deck() -> Seq<Card> {
    Seq::new(52, |i: int| Card { rank: Rank::nth(i % 13), suit: Suit::nth(i / 13) })
}

/// The standard deck holds 52 cards, no card twice, and every card.
pub proof fn lemma_standard_deck_complete()
    ensures
        standard_deck().len() == 52,
        standard_deck().no_duplicates(),
        forall|c: Card| #[trigger] standard_deck().contains(c),
{
    let d = standard_deck();
    assert forall|i: int, j: int| 0 <= i < d.len() && 0 <= j < d.len() && i != j implies d[i]
        != d[j] by {
        assert(Rank::nth(i % 13).index() == i % 13);
        assert(Rank::nth(j % 13).index() == j % 13);
        assert(Suit::nth(i / 13).index() == i / 13);
        assert(Suit::nth(j / 13).index() == j / 13);
    }
    assert forall|c: Card| #[trigger] d.contains(c) by {
        let k = c.suit.index() * 13 + c.rank.index();
        assert(k % 13 == c.rank.index());
        assert(k / 13 == c.suit.index());
        assert(d[k] == c);
    }
}

/// Rank at position `i` of the order Two .. Ace.
fn rank_at(i: usize) -> (r: Rank)
    requires
        i < 13,
    ensures
        r == Rank::nth(i as int),
{
    Rank::ALL[i]
}

/// Suit at position `i` of the order Hearts, Diamonds, Clubs, Spades.
fn suit_at(i: usize) -> (s: Suit)
    requires
        i < 4,
    ensures
        s == Suit::nth(i as int),
{
    Suit::ALL[i]
}

/// Calls `SliceRandom::shuffle` of the `rand` crate on the cards, with the
/// thread-local generator of `rand::rng()`. Claimed: the cards come back
/// as a permutation of themselves (same multiset, same length). Which
/// permutation is left unsaid: it depends on the random generator. The
/// generator panics if the operating system cannot seed it; nothing here
/// rules that machine failure out.
#[verifier::external_body]
fn shuffle_cards(cards: &mut Vec<Card>)
    ensures
        final(cards)@.to_multiset() == old(cards)@.to_multiset(),
        final(cards)@.len() == old(cards)@.len(),
{
    cards.shuffle(&mut rand::rng());
}

/// A standard 52-card deck.
#[derive(Debug)]
pub struct Deck {
    /// Cards remaining in the deck. Top of deck = last element.
    cards: Vec<Card>,
}

impl View for Deck {
    type V = Seq<Card>;

    closed spec fn view(&self) -> Seq<Card> {
        self.cards@
    }
}

impl Clone for Deck {
    fn clone(&self) -> (d: Self)
        ensures
            d@ == self@,
    {
        proof {
            use_type_invariant(self);
        }
        let cards = self.cards.clone();
        proof {
            assert(cards@ =~= self.cards@);
        }
        Deck { cards }
    }
}

impl Default for Deck {
    fn default() -> (d: Self)
        ensures
            d@ == standard_deck(),
    {
        Deck::new()
    }
}

impl Deck {
    /// A deck never holds more than 52 cards.
    #[verifier::type_invariant]
    pub open spec fn holds_at_most_52(self) -> bool {
        self@.len() <= 52
    }

    /// Create a new, unshuffled 52-card deck.
    pub fn new() -> (d: Self)
        ensures
            d@ == standard_deck(),
    {
        let mut cards: Vec<Card> = Vec::with_capacity(52);
        let mut s: usize = 0;
        while s < 4
            invariant
                s <= 4,
                cards@ == standard_deck().take(13 * s as int),
            decreases 4 - s,
        {
            let suit = suit_at(s);
            let mut r: usize = 0;
            while r < 13
                invariant
                    s < 4,
                    r <= 13,
                    suit == Suit::nth(s as int),
                    cards@ == standard_deck().take(13 * s + r),
                decreases 13 - r,
            {
                let ghost before = cards@;
                cards.push(Card::new(rank_at(r), suit));
                proof {
                    let k = 13 * s + r;
                    assert(k % 13 == r as int);
                    assert(k / 13 == s as int);
                    assert(cards@ =~= standard_deck().take(k + 1));
                }
                r += 1;
            }
            s += 1;
        }
        assert(cards@ =~= standard_deck());
        Deck { cards }
    }

    /// Create a new deck and shuffle it.
    pub fn new_shuffled() -> (d: Self)
        ensures
            d@.to_multiset() == standard_deck().to_multiset(),
            d@.len() == 52,
    {
        let mut deck = Self::new();
        deck.shuffle();
        deck
    }

    /// Shuffle the remaining cards in place.
    pub fn shuffle(&mut self)
        ensures
            final(self)@.to_multiset() == old(self)@.to_multiset(),
            final(self)@.len() == old(self)@.len(),
    {
        proof {
            use_type_invariant(&*self);
        }
        let mut cards: Vec<Card> = Vec::new();
        std::mem::swap(&mut cards, &mut self.cards);
        shuffle_cards(&mut cards);
        self.cards = cards;
    }

    /// Draw the top card (the last one) from the deck.
    ///
    /// Returns `Err(GameError::DeckEmpty)`, and leaves the deck as it is,
    /// if no cards remain.
    pub fn draw(&mut self) -> (r: Result<Card, GameError>)
        ensures
            match r {
                Ok(c) => {
                    &&& old(self)@.len() > 0
                    &&& c == old(self)@.last()
                    &&& final(self)@ == old(self)@.drop_last()
                },
                Err(e) => {
                    &&& old(self)@.len() == 0
                    &&& e is DeckEmpty
                    &&& final(self)@ == old(self)@
                },
            },
    {
        proof {
            use_type_invariant(&*self);
        }
        let mut cards: Vec<Card> = Vec::new();
        std::mem::swap(&mut cards, &mut self.cards);
        let top = cards.pop();
        self.cards = cards;
        match top {
            Some(c) => Ok(c),
            None => Err(GameError::DeckEmpty),
        }
    }

    /// The cards remaining in the deck; the top card is the last one.
    pub fn cards(&self) -> (s: &[Card])
        ensures
            s@ == self@,
    {
        self.cards.as_slice()
    }

    /// Number of cards remaining in the deck.
    pub fn remaining(&self) -> (n: usize)
        ensures
            n == self@.len(),
    {
        self.cards.len()
    }

    /// Whether the deck has no cards left.
    pub fn is_empty(&self) -> (r: bool)
        ensures
            r == (self@.len() == 0),
    {
        self.cards.len() == 0
    }
}

} // verus!
