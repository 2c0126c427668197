//! Core Blackjack engine types: cards, hand values, game status,
//! action history and engine errors.

use vstd::prelude::*;

verus! {

// ---------------------------------------------------------------------------
// Rank
// ---------------------------------------------------------------------------

/// The thirteen ranks in a standard deck of playing cards.
#[derive(Clone, Copy, Debug, PartialEq, Eq, Hash, Structural)]
pub enum Rank {
    Two,
    Three,
    Four,
    Five,
    Six,
    Seven,
    Eight,
    Nine,
    Ten,
    Jack,
    Queen,
    King,
    Ace,
}

impl Rank {
    /// All thirteen ranks in order (Two through Ace).
    pub const ALL: [Rank; 13] = [
        Rank::Two,
        Rank::Three,
        Rank::Four,
        Rank::Five,
        Rank::Six,
        Rank::Seven,
        Rank::Eight,
        Rank::Nine,
        Rank::Ten,
        Rank::Jack,
        Rank::Queen,
        Rank::King,
        Rank::Ace,
    ];

    /// Base point value: number cards at face value, faces 10, Ace 11.
    pub open spec fn points(self) -> nat {
        match self {
            Rank::Two => 2,
            Rank::Three => 3,
            Rank::Four => 4,
            Rank::Five => 5,
            Rank::Six => 6,
            Rank::Seven => 7,
            Rank::Eight => 8,
            Rank::Nine => 9,
            Rank::Ten | Rank::Jack | Rank::Queen | Rank::King => 10,
            Rank::Ace => 11,
        }
    }

    /// The short symbol of the rank ("2" .. "10", "J", "Q", "K", "A").
    pub open spec fn symbol_text(self) -> Seq<char> {
        match self {
            Rank::Two => "2"@,
            Rank::Three => "3"@,
            Rank::Four => "4"@,
            Rank::Five => "5"@,
            Rank::Six => "6"@,
            Rank::Seven => "7"@,
            Rank::Eight => "8"@,
            Rank::Nine => "9"@,
            Rank::Ten => "10"@,
            Rank::Jack => "J"@,
            Rank::Queen => "Q"@,
            Rank::King => "K"@,
            Rank::Ace => "A"@,
        }
    }

    /// The rank at position `i` of [`Rank::ALL`].
    pub open spec fn nth(i: int) -> Rank {
        if i <= 0 {
            Rank::Two
        } else if i == 1 {
            Rank::Three
        } else if i == 2 {
            Rank::Four
        } else if i == 3 {
            Rank::Five
        } else if i == 4 {
            Rank::Six
        } else if i == 5 {
            Rank::Seven
        } else if i == 6 {
            Rank::Eight
        } else if i == 7 {
            Rank::Nine
        } else if i == 8 {
            Rank::Ten
        } else if i == 9 {
            Rank::Jack
        } else if i == 10 {
            Rank::Queen
        } else if i == 11 {
            Rank::King
        } else {
            Rank::Ace
        }
    }

    /// Position of the rank in [`Rank::ALL`].
    pub open spec fn index(self) -> int {
        match self {
            Rank::Two => 0,
            Rank::Three => 1,
            Rank::Four => 2,
            Rank::Five => 3,
            Rank::Six => 4,
            Rank::Seven => 5,
            Rank::Eight => 6,
            Rank::Nine => 7,
            Rank::Ten => 8,
            Rank::Jack => 9,
            Rank::Queen => 10,
            Rank::King => 11,
            Rank::Ace => 12,
        }
    }

    /// Base point value of this rank in Blackjack.
    ///
    /// Face cards (J, Q, K) are worth 10. Ace is valued at 11 here; the
    /// hand value downgrades it to 1 when needed.
    pub fn value(self) -> (v: u8)
        ensures
            v == self.points(),
    {
        match self {
            Rank::Two => 2,
            Rank::Three => 3,
            Rank::Four => 4,
            Rank::Five => 5,
            Rank::Six => 6,
            Rank::Seven => 7,
            Rank::Eight => 8,
            Rank::Nine => 9,
            Rank::Ten | Rank::Jack | Rank::Queen | Rank::King => 10,
            Rank::Ace => 11,
        }
    }

    /// Short display string (e.g. "A", "K", "10", "2").
    pub fn symbol(self) -> (s: &'static str)
        ensures
            s@ == self.symbol_text(),
    {
        match self {
            Rank::Two => "2",
            Rank::Three => "3",
            Rank::Four => "4",
            Rank::Five => "5",
            Rank::Six => "6",
            Rank::Seven => "7",
            Rank::Eight => "8",
            Rank::Nine => "9",
            Rank::Ten => "10",
            Rank::Jack => "J",
            Rank::Queen => "Q",
            Rank::King => "K",
            Rank::Ace => "A",
        }
    }

    /// The display text of the rank, as an owned string.
    pub fn to_string(&self) -> (s: String)
        ensures
            s@ == self.symbol_text(),
    {
        self.symbol().to_owned()
    }
}

// ---------------------------------------------------------------------------
// Suit
// ---------------------------------------------------------------------------

/// The four suits in a standard deck of playing cards.
#[derive(Clone, Copy, Debug, PartialEq, Eq, Hash, Structural)]
pub enum Suit {
    Hearts,
    Diamonds,
    Clubs,
    Spades,
}

impl Suit {
    /// All four suits.
    pub const ALL: [Suit; 4] = [Suit::Hearts, Suit::Diamonds, Suit::Clubs, Suit::Spades];

    /// Lowercase name used in JSON.
    pub open spec fn name_text(self) -> Seq<char> {
        match self {
            Suit::Hearts => "hearts"@,
            Suit::Diamonds => "diamonds"@,
            Suit::Clubs => "clubs"@,
            Suit::Spades => "spades"@,
        }
    }

    /// The suit's symbol as displayed on a card.
    pub open spec fn glyph_text(self) -> Seq<char> {
        match self {
            Suit::Hearts => "♥"@,
            Suit::Diamonds => "♦"@,
            Suit::Clubs => "♣"@,
            Suit::Spades => "♠"@,
        }
    }

    /// The suit at position `i` of [`Suit::ALL`].
    pub open spec fn nth(i: int) -> Suit {
        if i <= 0 {
            Suit::Hearts
        } else if i == 1 {
            Suit::Diamonds
        } else if i == 2 {
            Suit::Clubs
        } else {
            Suit::Spades
        }
    }

    /// Position of the suit in [`Suit::ALL`].
    pub open spec fn index(self) -> int {
        match self {
            Suit::Hearts => 0,
            Suit::Diamonds => 1,
            Suit::Clubs => 2,
            Suit::Spades => 3,
        }
    }

    /// Lowercase name for JSON serialization.
    pub fn name(self) -> (s: &'static str)
        ensures
            s@ == self.name_text(),
    {
        match self {
            Suit::Hearts => "hearts",
            Suit::Diamonds => "diamonds",
            Suit::Clubs => "clubs",
            Suit::Spades => "spades",
        }
    }

    /// The suit's symbol ("♥", "♦", "♣", "♠").
    pub fn glyph(self) -> (s: &'static str)
        ensures
            s@ == self.glyph_text(),
    {
        match self {
            Suit::Hearts => "♥",
            Suit::Diamonds => "♦",
            Suit::Clubs => "♣",
            Suit::Spades => "♠",
        }
    }

    /// The display text of the suit (its symbol), as an owned string.
    pub fn to_string(&self) -> (s: String)
        ensures
            s@ == self.glyph_text(),
    {
        self.glyph().to_owned()
    }
}

// ---------------------------------------------------------------------------
// Card
// ---------------------------------------------------------------------------

/// A single playing card with a rank and suit.
#[derive(Clone, Copy, Debug, PartialEq, Eq, Hash, Structural)]
pub struct Card {
    pub rank: Rank,
    pub suit: Suit,
}

impl Card {
    /// The display text of the card: rank symbol followed by suit symbol.
    pub open spec fn text(self) -> Seq<char> {
        self.rank.symbol_text() + self.suit.glyph_text()
    }

    /// Create a new card.
    pub fn new(rank: Rank, suit: Suit) -> (c: Card)
        ensures
            c.rank == rank,
            c.suit == suit,
    {
        Card { rank, suit }
    }

    /// The display text of the card (e.g. "A♠", "10♥").
    pub fn to_string(&self) -> (s: String)
        ensures
            s@ == self.text(),
    {
        self.rank.symbol().to_owned().concat(self.suit.glyph())
    }
}

// ---------------------------------------------------------------------------
// HandValue
// ---------------------------------------------------------------------------

/// The calculated value of a Blackjack hand.
#[derive(Clone, Copy, Debug, PartialEq, Eq, Structural)]
pub struct HandValue {
    /// Total point value (best possible without busting, if achievable).
    pub value: u8,
    /// Whether an Ace is currently counted as 11 (soft hand).
    pub soft: bool,
}

// ---------------------------------------------------------------------------
// GameStatus
// ---------------------------------------------------------------------------

/// The current status of a Blackjack game.
///
/// Only `Playing` accepts player actions; every other status is final.
#[derive(Clone, Copy, Debug, PartialEq, Eq, Structural)]
pub enum GameStatus {
    /// The player is to act.
    Playing,
    /// Dealer is drawing cards (internal, resolved immediately).
    DealerTurn,
    /// Player exceeded 21.
    PlayerBust,
    /// Dealer exceeded 21 — player wins.
    DealerBust,
    /// Player's hand beats dealer's hand.
    PlayerWins,
    /// Dealer's hand beats player's hand.
    DealerWins,
    /// Both hands have equal value.
    Push,
    /// Player has natural 21 on first two cards.
    Blackjack,
}

impl GameStatus {
    /// The snake-case label of the status.
    pub open spec fn label(self) -> Seq<char> {
        match self {
            GameStatus::Playing => "playing"@,
            GameStatus::DealerTurn => "dealer_turn"@,
            GameStatus::PlayerBust => "player_bust"@,
            GameStatus::DealerBust => "dealer_bust"@,
            GameStatus::PlayerWins => "player_wins"@,
            GameStatus::DealerWins => "dealer_wins"@,
            GameStatus::Push => "push"@,
            GameStatus::Blackjack => "blackjack"@,
        }
    }

    /// Whether this status represents a finished game.
    pub fn is_terminal(self) -> (r: bool)
        ensures
            r == (self != GameStatus::Playing),
    {
        !matches!(self, GameStatus::Playing)
    }

    /// The snake-case label of the status.
    pub fn label_str(self) -> (s: &'static str)
        ensures
            s@ == self.label(),
    {
        match self {
            GameStatus::Playing => "playing",
            GameStatus::DealerTurn => "dealer_turn",
            GameStatus::PlayerBust => "player_bust",
            GameStatus::DealerBust => "dealer_bust",
            GameStatus::PlayerWins => "player_wins",
            GameStatus::DealerWins => "dealer_wins",
            GameStatus::Push => "push",
            GameStatus::Blackjack => "blackjack",
        }
    }

    /// The display text of the status (its snake-case label).
    pub fn to_string(&self) -> (s: String)
        ensures
            s@ == self.label(),
    {
        self.label_str().to_owned()
    }
}

// ---------------------------------------------------------------------------
// Action (history tracking)
// ---------------------------------------------------------------------------

/// A recorded player or dealer action for the game history log.
#[derive(Clone, Copy, Debug, PartialEq, Eq, Structural)]
pub enum Action {
    /// Initial deal.
    Deal,
    /// Player drew a card.
    Hit { card: Card },
    /// Player chose to stand.
    Stand,
    /// Player doubled down, drawing one card.
    Double { card: Card },
    /// Dealer drew a card.
    DealerHit { card: Card },
    /// Dealer stood (reached ≥ 17).
    DealerStand,
}

impl Action {
    /// The display text of the action.
    pub open spec fn text(self) -> Seq<char> {
        match self {
            Action::Deal => "Deal"@,
            Action::Hit { card } => "Hit "@ + card.text(),
            Action::Stand => "Stand"@,
            Action::Double { card } => "Double "@ + card.text(),
            Action::DealerHit { card } => "Dealer hits "@ + card.text(),
            Action::DealerStand => "Dealer stands"@,
        }
    }

    /// The display text of the action (e.g. "Deal", "Hit 5♣").
    pub fn to_string(&self) -> (s: String)
        ensures
            s@ == self.text(),
    {
        match self {
            Action::Deal => "Deal".to_owned(),
            Action::Hit { card } => "Hit ".to_owned().concat(card.to_string().as_str()),
            Action::Stand => "Stand".to_owned(),
            Action::Double { card } => "Double ".to_owned().concat(card.to_string().as_str()),
            Action::DealerHit { card } => "Dealer hits ".to_owned().concat(
                card.to_string().as_str(),
            ),
            Action::DealerStand => "Dealer stands".to_owned(),
        }
    }
}

// ---------------------------------------------------------------------------
// Errors
// ---------------------------------------------------------------------------

/// Errors that can occur in the Blackjack engine.
#[derive(Clone, Debug)]
pub enum GameError {
    /// Attempted an action that isn't valid in the current game state.
    InvalidAction(String),
    /// The deck ran out of cards.
    DeckEmpty,
    /// Cannot split — hand does not contain a pair.
    CannotSplit,
}

impl GameError {
    /// The human-readable description of the error.
    pub open spec fn text(self) -> Seq<char> {
        match self {
            GameError::InvalidAction(msg) => "invalid action: "@ + msg@,
            GameError::DeckEmpty => "deck is empty"@,
            GameError::CannotSplit => "cannot split: hand does not contain a pair"@,
        }
    }

    /// The human-readable description of the error.
    pub fn to_string(&self) -> (s: String)
        ensures
            s@ == self.text(),
    {
        match self {
            GameError::InvalidAction(msg) => "invalid action: ".to_owned().concat(msg.as_str()),
            GameError::DeckEmpty => "deck is empty".to_owned(),
            GameError::CannotSplit => "cannot split: hand does not contain a pair".to_owned(),
        }
    }
}

} // verus!
