//! Response shapes of the REST API, built from engine values.
//!
//! They control the exact surface sent to clients: the dealer's hole card
//! stays hidden while the player is to act.

use vstd::prelude::*;

use crate::engine::game::{actions_of, visible_cards_of, visible_value_of, Game};
use crate::engine::hand::hand_value;
use crate::engine::types::{Action, Card, GameStatus};

verus! {

/// A card as shown to a client.
#[derive(Clone, Debug)]
pub struct CardResponse {
    pub rank: String,
    pub suit: String,
}

/// A hand (player or dealer) as shown to a client.
#[derive(Clone, Debug)]
pub struct HandResponse {
    pub cards: Vec<CardResponse>,
    pub value: u8,
    pub soft: bool,
}

/// The dealer's hand as shown to a client (may hide the hole card).
#[derive(Clone, Debug)]
pub struct DealerHandResponse {
    pub cards: Vec<CardResponse>,
    pub value: u8,
    pub visible_value: u8,
}

/// Full game state as shown to a client.
#[derive(Clone, Debug)]
pub struct GameResponse {
    pub id: String,
    pub status: String,
    pub player_hand: HandResponse,
    pub dealer_hand: DealerHandResponse,
    pub deck_remaining: usize,
    pub actions: Vec<String>,
}

/// Minimal game summary for listing.
#[derive(Clone, Debug)]
pub struct GameSummary {
    pub id: String,
    pub status: String,
    pub player_value: u8,
}

/// Health check response.
#[derive(Clone, Debug)]
pub struct HealthResponse {
    pub status: String,
    pub version: String,
}

/// Action history response.
#[derive(Clone, Debug)]
pub struct HistoryResponse {
    pub id: String,
    pub actions: Vec<String>,
}

/// Whether the shown card is `card` (rank symbol and suit name), or the
/// hidden card ("?" and "?") when `card` is `None`.
pub open spec fn shows(r: CardResponse, card: Option<Card>) -> bool {
    match card {
        Some(c) => r.rank@ == c.rank.symbol_text() && r.suit@ == c.suit.name_text(),
        None => r.rank@ == "?"@ && r.suit@ == "?"@,
    }
}

/// The cards, all face up.
pub open spec fn face_up(cards: Seq<Card>) -> Seq<Option<Card>> {
    cards.map_values(|c: Card| Some(c))
}

/// Whether the shown cards are `cards`, one for one.
pub open spec fn shows_all(rs: Seq<CardResponse>, cards: Seq<Option<Card>>) -> bool {
    &&& rs.len() == cards.len()
    &&& forall|i: int| 0 <= i < rs.len() ==> #[trigger] shows(rs[i], cards[i])
}

impl CardResponse {
    /// Create from an engine `Card`.
    pub fn from_card(card: &Card) -> (r: Self)
        ensures
            shows(r, Some(*card)),
    {
        CardResponse { rank: card.rank.symbol().to_owned(), suit: card.suit.name().to_owned() }
    }

    /// A hidden card (dealer's hole card).
    pub fn hidden() -> (r: Self)
        ensures
            shows(r, None),
    {
        CardResponse { rank: "?".to_owned(), suit: "?".to_owned() }
    }
}

impl GameResponse {
    /// Build a game response from a `Game`, respecting dealer card
    /// visibility.
    pub fn from_game(game: &Game) -> (r: Self)
        requires
            game.wf(),
        ensures
            r.id@ == game@.id,
            r.status@ == game@.status.label(),
            shows_all(r.player_hand.cards@, face_up(game@.player)),
            r.player_hand.value == hand_value(game@.player).value,
            r.player_hand.soft == hand_value(game@.player).soft,
            shows_all(r.dealer_hand.cards@, visible_cards_of(game@)),
            r.dealer_hand.visible_value == visible_value_of(game@),
            r.dealer_hand.value == if game@.status == GameStatus::Playing {
                visible_value_of(game@)
            } else {
                hand_value(game@.dealer).value
            },
            r.deck_remaining == game@.deck.len(),
            r.actions@.map_values(|a: String| a@) == actions_of(game@),
    {
        let player_val = game.player_value();
        let dealer_visible = game.dealer_visible_cards();
        let dealer_full_val = game.dealer_value();

        let mut dealer_cards: Vec<CardResponse> = Vec::new();
        let mut i: usize = 0;
        while i < dealer_visible.len()
            invariant
                i <= dealer_visible@.len(),
                dealer_cards@.len() == i,
                forall|j: int| 0 <= j < i ==> #[trigger] shows(dealer_cards@[j], dealer_visible@[j]),
            decreases dealer_visible@.len() - i,
        {
            let shown = match dealer_visible[i] {
                Some(card) => CardResponse::from_card(&card),
                None => CardResponse::hidden(),
            };
            dealer_cards.push(shown);
            i += 1;
        }

        let cards = game.player_hand().cards();
        let mut player_cards: Vec<CardResponse> = Vec::new();
        let mut k: usize = 0;
        while k < cards.len()
            invariant
                k <= cards@.len(),
                player_cards@.len() == k,
                forall|j: int| 0 <= j < k ==> #[trigger] shows(player_cards@[j], Some(cards@[j])),
            decreases cards@.len() - k,
        {
            player_cards.push(CardResponse::from_card(&cards[k]));
            k += 1;
        }
        assert forall|j: int| 0 <= j < player_cards@.len() implies #[trigger] shows(
            player_cards@[j],
            face_up(game@.player)[j],
        ) by {
            assert(shows(player_cards@[j], Some(cards@[j])));
        }

        // Visible value is only the face-up card during player's turn.
        let visible_value = game.dealer_visible_value();

        // Full dealer value is only shown when game is over.
        let dealer_value = if game.status() == GameStatus::Playing {
            visible_value
        } else {
            dealer_full_val.value
        };

        GameResponse {
            id: game.id().to_owned(),
            status: game.status().to_string(),
            player_hand: HandResponse {
                cards: player_cards,
                value: player_val.value,
                soft: player_val.soft,
            },
            dealer_hand: DealerHandResponse { cards: dealer_cards, value: dealer_value, visible_value },
            deck_remaining: game.deck_remaining(),
            actions: game.available_actions(),
        }
    }
}

impl GameSummary {
    /// Build a summary from a `Game`.
    pub fn from_game(game: &Game) -> (r: Self)
        requires
            game.wf(),
        ensures
            r.id@ == game@.id,
            r.status@ == game@.status.label(),
            r.player_value == hand_value(game@.player).value,
    {
        GameSummary {
            id: game.id().to_owned(),
            status: game.status().to_string(),
            player_value: game.player_value().value,
        }
    }
}

impl HistoryResponse {
    /// Build the history response of a `Game`: its id and the display text
    /// of each recorded action, in order.
    pub fn from_game(game: &Game) -> (r: Self)
        ensures
            r.id@ == game@.id,
            r.actions@.map_values(|a: String| a@) == game@.history.map_values(|a: Action| a.text()),
    {
        let history = game.history();
        let mut actions: Vec<String> = Vec::new();
        let mut i: usize = 0;
        while i < history.len()
            invariant
                i <= history@.len(),
                actions@.len() == i,
                forall|j: int| 0 <= j < i ==> #[trigger] actions@[j]@ == history@[j].text(),
            decreases history@.len() - i,
        {
            actions.push(history[i].to_string());
            i += 1;
        }
        assert(actions@.map_values(|a: String| a@) =~= game@.history.map_values(
            |a: Action| a.text(),
        ));
        HistoryResponse { id: game.id().to_owned(), actions }
    }
}

} // verus!
