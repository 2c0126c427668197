//! Blackjack game state machine.
//!
//! The [`Game`] struct owns all mutable state for a single round of
//! Blackjack: the deck, player hand, dealer hand, status and history.
//! It enforces valid state transitions — calling [`Game::hit`] on a
//! finished game returns an error.
//!
//! Every move is specified by a step function on [`GameState`], the
//! mathematical view of a game; the laws of the game are proved over
//! these step functions.

use vstd::multiset::Multiset;
use vstd::prelude::*;

use super::deck::{lemma_standard_deck_complete, standard_deck, Deck};
use super::hand::{
    ace_count,
    hand_value,
    lemma_ace_count_le_len,
    lemma_value_counts_cards,
    raw_total,
    Hand,
};
use super::types::{Action, Card, GameError, GameStatus, HandValue, Rank, Suit};

verus! {

broadcast use {vstd::seq_lib::group_to_multiset_ensures, vstd::multiset::group_multiset_axioms};

// ---------------------------------------------------------------------------
// Mathematical model
// ---------------------------------------------------------------------------

/// The mathematical view of a game.
pub struct GameState {
    pub id: Seq<char>,
    /// Cards left in the deck; the top card is the last one.
    pub deck: Seq<Card>,
    pub player: Seq<Card>,
    pub dealer: Seq<Card>,
    pub status: GameStatus,
    pub history: Seq<Action>,
}

impl GameState {
    /// All cards of the game, wherever they lie.
    pub open spec fn card_multiset(self) -> Multiset<Card> {
        self.deck.to_multiset().add(self.player.to_multiset()).add(self.dealer.to_multiset())
    }

    /// Total number of cards in the deck and both hands.
    pub open spec fn card_count(self) -> nat {
        self.deck.len() + self.player.len() + self.dealer.len()
    }
}

/// Why a move was refused, as the model names it.
pub enum Fault {
    /// The game is over; the status it ended in.
    GameOver(GameStatus),
    /// The deck ran out of cards.
    DeckEmpty,
    /// Doubling down needs exactly two cards in the player's hand.
    DoubleNeedsTwoCards,
    /// Splitting needs a pair.
    NotAPair,
    /// Splitting a pair is not supported.
    SplitUnsupported,
}

/// The message of the error that a finished game answers a move with.
pub open spec fn game_over_text(status: GameStatus) -> Seq<char> {
    "game is already over (status: "@ + status.label() + ")"@
}

/// Whether the engine error `e` is the one that reports `f`.
pub open spec fn error_reports(e: GameError, f: Fault) -> bool {
    match f {
        Fault::GameOver(status) => e matches GameError::InvalidAction(msg) && msg@
            == game_over_text(status),
        Fault::DeckEmpty => e is DeckEmpty,
        Fault::DoubleNeedsTwoCards => e matches GameError::InvalidAction(msg) && msg@
            == "double down is only allowed on first two cards"@,
        Fault::NotAPair => e is CannotSplit,
        Fault::SplitUnsupported => e matches GameError::InvalidAction(msg) && msg@
            == "split is not yet implemented in v1"@,
    }
}

/// Whether an engine result is the outcome that the model prescribes.
pub open spec fn outcome_matches<T>(r: Result<T, GameError>, o: Result<T, Fault>) -> bool {
    match r {
        Ok(v) => o == Ok::<T, Fault>(v),
        Err(e) => match o {
            Err(f) => error_reports(e, f),
            Ok(_) => false,
        },
    }
}

/// Whether the cards form a natural: exactly two cards worth 21.
pub open spec fn is_natural(cards: Seq<Card>) -> bool {
    cards.len() == 2 && hand_value(cards).value == 21
}

/// Whether the cards form a pair: exactly two cards of the same rank.
pub open spec fn is_pair(cards: Seq<Card>) -> bool {
    cards.len() == 2 && cards[0].rank == cards[1].rank
}

/// The outcome of a finished round that went to the dealer.
pub open spec fn resolve_status(player: Seq<Card>, dealer: Seq<Card>) -> GameStatus {
    let p = hand_value(player).value;
    let d = hand_value(dealer).value;
    if d > 21 {
        GameStatus::DealerBust
    } else if p > d {
        GameStatus::PlayerWins
    } else if d > p {
        GameStatus::DealerWins
    } else {
        GameStatus::Push
    }
}

/// What the dealer's drawing leaves behind.
pub struct DealerRun {
    pub dealer: Seq<Card>,
    pub deck: Seq<Card>,
    /// The cards drawn, in the order drawn.
    pub drawn: Seq<Card>,
    /// False when the deck ran out before the dealer reached 17.
    pub complete: bool,
}

/// The dealer draws from the top of the deck while the hand is worth
/// less than 17.
pub open spec fn dealer_run(dealer: Seq<Card>, deck: Seq<Card>) -> DealerRun
    decreases deck.len(),
{
    if hand_value(dealer).value >= 17 {
        DealerRun { dealer, deck, drawn: Seq::empty(), complete: true }
    } else if deck.len() == 0 {
        DealerRun { dealer, deck, drawn: Seq::empty(), complete: false }
    } else {
        let r = dealer_run(dealer.push(deck.last()), deck.drop_last());
        DealerRun { drawn: seq![deck.last()] + r.drawn, ..r }
    }
}

/// The history entries of the dealer's draws.
pub open spec fn dealer_hits(drawn: Seq<Card>) -> Seq<Action> {
    drawn.map_values(|c: Card| Action::DealerHit { card: c })
}

/// The dealer plays out the hand: the draws and, if the dealer reached
/// 17, the stand are recorded; the status is left as it was. The flag
/// is false when the deck ran out first.
pub open spec fn dealer_play_step(s: GameState) -> (GameState, bool) {
    let r = dealer_run(s.dealer, s.deck);
    let history = s.history + dealer_hits(r.drawn);
    (
        GameState {
            deck: r.deck,
            dealer: r.dealer,
            history: if r.complete {
                history.push(Action::DealerStand)
            } else {
                history
            },
            ..s
        },
        r.complete,
    )
}

/// The dealer's turn: play out the hand, then settle the round if the
/// dealer finished.
pub open spec fn dealer_turn(s: GameState) -> (GameState, bool) {
    let (t, ok) = dealer_play_step(s);
    if ok {
        (GameState { status: resolve_status(t.player, t.dealer), ..t }, true)
    } else {
        (t, false)
    }
}

/// The game dealt from `deck` under the name `id`: player, dealer,
/// player, dealer from the top; `None` when the deck holds fewer than
/// four cards.
pub open spec fn dealt(id: Seq<char>, deck: Seq<Card>) -> Option<GameState> {
    if deck.len() < 4 {
        None
    } else {
        let n = deck.len();
        let player = seq![deck[n - 1], deck[n - 3]];
        Some(
            GameState {
                id,
                deck: deck.take(n - 4),
                player,
                dealer: seq![deck[n - 2], deck[n - 4]],
                status: if is_natural(player) {
                    GameStatus::Blackjack
                } else {
                    GameStatus::Playing
                },
                history: seq![Action::Deal],
            },
        )
    }
}

/// The player hits.
pub open spec fn hit_step(s: GameState) -> (GameState, Result<Card, Fault>) {
    if s.status != GameStatus::Playing {
        (s, Err(Fault::GameOver(s.status)))
    } else if s.deck.len() == 0 {
        (s, Err(Fault::DeckEmpty))
    } else {
        let c = s.deck.last();
        let player = s.player.push(c);
        (
            GameState {
                deck: s.deck.drop_last(),
                player,
                status: if hand_value(player).value > 21 {
                    GameStatus::PlayerBust
                } else {
                    s.status
                },
                history: s.history.push(Action::Hit { card: c }),
                ..s
            },
            Ok(c),
        )
    }
}

/// The player stands and the dealer plays.
pub open spec fn stand_step(s: GameState) -> (GameState, Result<GameStatus, Fault>) {
    if s.status != GameStatus::Playing {
        (s, Err(Fault::GameOver(s.status)))
    } else {
        let (t, ok) = dealer_turn(
            GameState {
                status: GameStatus::DealerTurn,
                history: s.history.push(Action::Stand),
                ..s
            },
        );
        if ok {
            (t, Ok(t.status))
        } else {
            (t, Err(Fault::DeckEmpty))
        }
    }
}

/// The player doubles down: one more card, then the dealer plays unless
/// the player busted.
pub open spec fn double_step(s: GameState) -> (GameState, Result<Card, Fault>) {
    if s.status != GameStatus::Playing {
        (s, Err(Fault::GameOver(s.status)))
    } else if s.player.len() != 2 {
        (s, Err(Fault::DoubleNeedsTwoCards))
    } else if s.deck.len() == 0 {
        (s, Err(Fault::DeckEmpty))
    } else {
        let c = s.deck.last();
        let player = s.player.push(c);
        let drawn = GameState {
            deck: s.deck.drop_last(),
            player,
            history: s.history.push(Action::Double { card: c }),
            ..s
        };
        if hand_value(player).value > 21 {
            (GameState { status: GameStatus::PlayerBust, ..drawn }, Ok(c))
        } else {
            let (t, ok) = dealer_turn(GameState { status: GameStatus::DealerTurn, ..drawn });
            if ok {
                (t, Ok(c))
            } else {
                (t, Err(Fault::DeckEmpty))
            }
        }
    }
}

/// The player asks to split; this is never granted.
pub open spec fn split_step(s: GameState) -> (GameState, Result<(), Fault>) {
    if s.status != GameStatus::Playing {
        (s, Err(Fault::GameOver(s.status)))
    } else if !is_pair(s.player) {
        (s, Err(Fault::NotAPair))
    } else {
        (s, Err(Fault::SplitUnsupported))
    }
}

/// The actions offered to the player.
pub open spec fn actions_of(s: GameState) -> Seq<Seq<char>> {
    if s.status != GameStatus::Playing {
        Seq::empty()
    } else {
        seq!["hit"@, "stand"@] + (if s.player.len() == 2 {
            seq!["double"@]
        } else {
            Seq::empty()
        }) + (if is_pair(s.player) {
            seq!["split"@]
        } else {
            Seq::empty()
        })
    }
}

/// The value of the dealer's hand that the player may see.
pub open spec fn visible_value_of(s: GameState) -> u8 {
    if s.status == GameStatus::Playing {
        if s.dealer.len() == 0 {
            0
        } else {
            s.dealer[0].rank.points() as u8
        }
    } else {
        hand_value(s.dealer).value
    }
}

/// The dealer's cards as the player sees them: while the player is to act
/// and the dealer holds two cards or more, only the first is shown.
pub open spec fn visible_cards_of(s: GameState) -> Seq<Option<Card>> {
    if s.status == GameStatus::Playing && s.dealer.len() >= 2 {
        Seq::new(
            s.dealer.len(),
            |i: int|
                if i == 0 {
                    Some(s.dealer[0])
                } else {
                    None
                },
        )
    } else {
        s.dealer.map_values(|c: Card| Some(c))
    }
}

/// Whether the text has the shape of a hyphenated lowercase version-4 UUID.
pub open spec fn is_uuid_text(s: Seq<char>) -> bool {
    &&& s.len() == 36
    &&& forall|i: int|
        0 <= i < 36 ==> if i == 8 || i == 13 || i == 18 || i == 23 {
            #[trigger] s[i] == '-'
        } else {
            ('0' <= s[i] <= '9' || 'a' <= s[i] <= 'f')
        }
    &&& s[14] == '4'
}

// ---------------------------------------------------------------------------
// Lemmas
// ---------------------------------------------------------------------------

/// Moving the top card of a deck onto a hand keeps the cards together.
proof fn lemma_move_top(deck: Seq<Card>, hand: Seq<Card>)
    requires
        deck.len() > 0,
    ensures
        deck.drop_last().to_multiset().add(hand.push(deck.last()).to_multiset())
            == deck.to_multiset().add(hand.to_multiset()),
{
    assert(deck.drop_last().push(deck.last()) =~= deck);
    assert(deck.drop_last().to_multiset().add(hand.push(deck.last()).to_multiset())
        =~= deck.to_multiset().add(hand.to_multiset()));
}

/// The dealer's drawing moves cards from the deck to the dealer only.
proof fn lemma_dealer_run(dealer: Seq<Card>, deck: Seq<Card>)
    ensures
        ({
            let r = dealer_run(dealer, deck);
            &&& r.deck.to_multiset().add(r.dealer.to_multiset()) == deck.to_multiset().add(
                dealer.to_multiset(),
            )
            &&& r.deck.len() + r.dealer.len() == deck.len() + dealer.len()
            &&& r.dealer == dealer + r.drawn
            &&& r.deck.len() + r.drawn.len() == deck.len()
            &&& r.complete ==> hand_value(r.dealer).value >= 17
        }),
    decreases deck.len(),
{
    if hand_value(dealer).value >= 17 {
        assert(dealer + Seq::<Card>::empty() =~= dealer);
    } else if deck.len() == 0 {
        assert(dealer + Seq::<Card>::empty() =~= dealer);
    } else {
        let c = deck.last();
        lemma_dealer_run(dealer.push(c), deck.drop_last());
        lemma_move_top(deck, dealer);
        let r = dealer_run(dealer.push(c), deck.drop_last());
        assert(dealer.push(c) + r.drawn =~= dealer + (seq![c] + r.drawn));
    }
}

/// Dealing keeps every card of the deck in the game.
proof fn lemma_dealt(id: Seq<char>, deck: Seq<Card>)
    requires
        deck.len() >= 4,
    ensures
        dealt(id, deck).unwrap().card_multiset() == deck.to_multiset(),
        dealt(id, deck).unwrap().card_count() == deck.len(),
{
    let s = dealt(id, deck).unwrap();
    let n = deck.len();
    let d1 = deck.drop_last();
    let d2 = d1.drop_last();
    let d3 = d2.drop_last();
    let d4 = d3.drop_last();
    assert(d1.push(deck[n - 1]) =~= deck);
    assert(d2.push(deck[n - 2]) =~= d1);
    assert(d3.push(deck[n - 3]) =~= d2);
    assert(d4.push(deck[n - 4]) =~= d3);
    assert(d4 =~= s.deck);
    assert(seq![deck[n - 1]] =~= Seq::<Card>::empty().push(deck[n - 1]));
    assert(s.player =~= seq![deck[n - 1]].push(deck[n - 3]));
    assert(seq![deck[n - 2]] =~= Seq::<Card>::empty().push(deck[n - 2]));
    assert(s.dealer =~= seq![deck[n - 2]].push(deck[n - 4]));
    assert(s.card_multiset() =~= deck.to_multiset());
}

/// The dealer's turn keeps the cards of the game together and leaves the
/// player's hand, the id and the old history alone.
proof fn lemma_dealer_turn(s: GameState)
    ensures
        ({
            let (t, ok) = dealer_turn(s);
            &&& t.card_multiset() == s.card_multiset()
            &&& t.card_count() == s.card_count()
            &&& t.player == s.player
            &&& t.id == s.id
            &&& s.history.is_prefix_of(t.history)
            &&& ok ==> t.status == resolve_status(t.player, t.dealer)
            &&& ok ==> hand_value(t.dealer).value >= 17
            &&& !ok ==> t.status == s.status
        }),
{
    lemma_dealer_run(s.dealer, s.deck);
    let r = dealer_run(s.dealer, s.deck);
    let t = dealer_turn(s).0;
    assert forall|x: Card| #[trigger] t.card_multiset().count(x) == s.card_multiset().count(x) by {
        assert(r.deck.to_multiset().add(r.dealer.to_multiset()).count(x) == s.deck.to_multiset().add(
            s.dealer.to_multiset(),
        ).count(x));
    }
    assert(t.card_multiset() =~= s.card_multiset());
    let h = s.history + dealer_hits(r.drawn);
    assert(h.push(Action::DealerStand).subrange(0, s.history.len() as int) =~= s.history);
    assert(h.subrange(0, s.history.len() as int) =~= s.history);
}

// ---------------------------------------------------------------------------
// Laws
// ---------------------------------------------------------------------------

/// No move makes a card appear or disappear: the cards of the deck and
/// both hands stay the same multiset, whatever the move and its outcome.
pub proof fn lemma_moves_keep_cards(s: GameState)
    ensures
        hit_step(s).0.card_multiset() == s.card_multiset(),
        stand_step(s).0.card_multiset() == s.card_multiset(),
        double_step(s).0.card_multiset() == s.card_multiset(),
        split_step(s).0.card_multiset() == s.card_multiset(),
        hit_step(s).0.card_count() == s.card_count(),
        stand_step(s).0.card_count() == s.card_count(),
        double_step(s).0.card_count() == s.card_count(),
        split_step(s).0.card_count() == s.card_count(),
{
    if s.status == GameStatus::Playing {
        if s.deck.len() > 0 {
            lemma_move_top(s.deck, s.player);
            assert(hit_step(s).0.card_multiset() =~= s.card_multiset());
        }
        let st = GameState {
            status: GameStatus::DealerTurn,
            history: s.history.push(Action::Stand),
            ..s
        };
        lemma_dealer_turn(st);
        assert(st.card_multiset() == s.card_multiset());
        if s.player.len() == 2 && s.deck.len() > 0 {
            let c = s.deck.last();
            let drawn = GameState {
                deck: s.deck.drop_last(),
                player: s.player.push(c),
                history: s.history.push(Action::Double { card: c }),
                ..s
            };
            lemma_move_top(s.deck, s.player);
            assert(drawn.card_multiset() =~= s.card_multiset());
            lemma_dealer_turn(GameState { status: GameStatus::DealerTurn, ..drawn });
        }
    }
}

/// A finished game refuses every move, answers with the status it ended
/// in, and stays as it is.
pub proof fn lemma_finished_game_refuses_moves(s: GameState)
    requires
        s.status != GameStatus::Playing,
    ensures
        hit_step(s) == (s, Err::<Card, Fault>(Fault::GameOver(s.status))),
        stand_step(s) == (s, Err::<GameStatus, Fault>(Fault::GameOver(s.status))),
        double_step(s) == (s, Err::<Card, Fault>(Fault::GameOver(s.status))),
        split_step(s) == (s, Err::<(), Fault>(Fault::GameOver(s.status))),
{
}

/// Every move only appends to the history.
pub proof fn lemma_history_only_grows(s: GameState)
    ensures
        s.history.is_prefix_of(hit_step(s).0.history),
        s.history.is_prefix_of(stand_step(s).0.history),
        s.history.is_prefix_of(double_step(s).0.history),
        s.history.is_prefix_of(split_step(s).0.history),
{
    if s.status == GameStatus::Playing {
        let st = GameState {
            status: GameStatus::DealerTurn,
            history: s.history.push(Action::Stand),
            ..s
        };
        lemma_dealer_turn(st);
        if s.player.len() == 2 && s.deck.len() > 0 {
            let c = s.deck.last();
            let drawn = GameState {
                deck: s.deck.drop_last(),
                player: s.player.push(c),
                history: s.history.push(Action::Double { card: c }),
                ..s
            };
            lemma_dealer_turn(GameState { status: GameStatus::DealerTurn, ..drawn });
        }
    }
}

/// Standing, when it succeeds, finishes the game: the dealer holds 17 or
/// more, and the status is the one returned, one of a dealer bust, a
/// player win, a dealer win or a push, decided by the hands' values.
pub proof fn lemma_stand_finishes_game(s: GameState)
    requires
        stand_step(s).1 is Ok,
    ensures
        ({
            let (t, r) = stand_step(s);
            &&& r == Ok::<GameStatus, Fault>(t.status)
            &&& t.status != GameStatus::Playing
            &&& t.status == resolve_status(t.player, t.dealer)
            &&& (t.status == GameStatus::DealerBust || t.status == GameStatus::PlayerWins
                || t.status == GameStatus::DealerWins || t.status == GameStatus::Push)
            &&& hand_value(t.dealer).value >= 17
            &&& t.player == s.player
        }),
{
    let st = GameState {
        status: GameStatus::DealerTurn,
        history: s.history.push(Action::Stand),
        ..s
    };
    lemma_dealer_turn(st);
}

/// A successful stand settles the round on the values of the two hands:
/// the dealer has drawn to 17 or more (keeping the dealt cards), a dealer
/// over 21 busts, and otherwise the higher value wins and equal values
/// push. The player's hand is left as it was.
pub proof fn lemma_stand_settles_by_values(s: GameState)
    requires
        stand_step(s).1 is Ok,
    ensures
        ({
            let t = stand_step(s).0;
            let p = hand_value(t.player).value;
            let d = hand_value(t.dealer).value;
            &&& t.player == s.player
            &&& s.dealer.is_prefix_of(t.dealer)
            &&& d >= 17
            &&& (t.status == GameStatus::DealerBust <==> d > 21)
            &&& d <= 21 ==> {
                &&& (t.status == GameStatus::PlayerWins <==> p > d)
                &&& (t.status == GameStatus::DealerWins <==> p < d)
                &&& (t.status == GameStatus::Push <==> p == d)
            }
        }),
{
    let st = GameState {
        status: GameStatus::DealerTurn,
        history: s.history.push(Action::Stand),
        ..s
    };
    lemma_dealer_turn(st);
    lemma_dealer_run(s.dealer, s.deck);
    let r = dealer_run(s.dealer, s.deck);
    assert(r.dealer.subrange(0, s.dealer.len() as int) =~= s.dealer);
}

/// A successful double down draws the top card for the player. If that
/// busts the player, the game ends as a player bust and the dealer does not
/// draw; otherwise the dealer draws to 17 or more and the round is settled
/// on the values of the two hands, as for a stand.
pub proof fn lemma_double_settles_by_values(s: GameState)
    requires
        double_step(s).1 is Ok,
    ensures
        ({
            let t = double_step(s).0;
            let p = hand_value(t.player).value;
            let d = hand_value(t.dealer).value;
            &&& t.player == s.player.push(s.deck.last())
            &&& p > 21 ==> t.status == GameStatus::PlayerBust && t.dealer == s.dealer
            &&& p <= 21 ==> {
                &&& s.dealer.is_prefix_of(t.dealer)
                &&& d >= 17
                &&& (t.status == GameStatus::DealerBust <==> d > 21)
                &&& d <= 21 ==> {
                    &&& (t.status == GameStatus::PlayerWins <==> p > d)
                    &&& (t.status == GameStatus::DealerWins <==> p < d)
                    &&& (t.status == GameStatus::Push <==> p == d)
                }
            }
        }),
{
    let c = s.deck.last();
    let drawn = GameState {
        deck: s.deck.drop_last(),
        player: s.player.push(c),
        history: s.history.push(Action::Double { card: c }),
        ..s
    };
    lemma_dealer_turn(GameState { status: GameStatus::DealerTurn, ..drawn });
    lemma_dealer_run(s.dealer, s.deck.drop_last());
    let r = dealer_run(s.dealer, s.deck.drop_last());
    assert(r.dealer.subrange(0, s.dealer.len() as int) =~= s.dealer);
}

/// Dealing hands the player the first and third cards from the top and the
/// dealer the second and fourth; the game is a natural blackjack exactly
/// when the player's two cards are worth 21, whatever their order, and the
/// player is to act otherwise.
pub proof fn lemma_deal_detects_natural(id: Seq<char>, deck: Seq<Card>)
    requires
        deck.len() >= 4,
    ensures
        ({
            let g = dealt(id, deck).unwrap();
            let n = deck.len();
            &&& g.player == seq![deck[n - 1], deck[n - 3]]
            &&& g.dealer == seq![deck[n - 2], deck[n - 4]]
            &&& g.deck == deck.take(n - 4)
            &&& g.history == seq![Action::Deal]
            &&& (g.status == GameStatus::Blackjack <==> hand_value(g.player).value == 21)
            &&& (g.status == GameStatus::Playing <==> hand_value(g.player).value != 21)
            &&& hand_value(seq![deck[n - 1], deck[n - 3]]) == hand_value(
                seq![deck[n - 3], deck[n - 1]],
            )
        }),
{
    let n = deck.len();
    lemma_two_card_value(deck[n - 1], deck[n - 3]);
    lemma_two_card_value(deck[n - 3], deck[n - 1]);
}

/// The value of a two-card hand: the sum of the base values, except that
/// two Aces are worth 12, soft.
proof fn lemma_two_card_value(a: Card, b: Card)
    ensures
        hand_value(seq![a, b]) == (if a.rank == Rank::Ace && b.rank == Rank::Ace {
            HandValue { value: 12, soft: true }
        } else {
            HandValue {
                value: (a.rank.points() + b.rank.points()) as u8,
                soft: a.rank == Rank::Ace || b.rank == Rank::Ace,
            }
        }),
{
    let s = seq![a, b];
    assert(s.drop_last() =~= seq![a]);
    assert(seq![a].drop_last() =~= Seq::<Card>::empty());
    assert(s.last() == b);
    assert(seq![a].last() == a);
    assert(seq![a].len() == 1);
    assert(raw_total(Seq::<Card>::empty()) == 0);
    assert(ace_count(Seq::<Card>::empty()) == 0);
    assert(raw_total(seq![a]) == a.rank.points());
    assert(ace_count(seq![a]) == if a.rank == Rank::Ace {
        1nat
    } else {
        0nat
    });
}

/// While the player is to act, the dealer's visible value is the value of
/// the one card shown, the dealer's first card, and every later card is
/// hidden; once the game is over, every card is shown and the visible value
/// is the whole hand's value.
pub proof fn lemma_visible_value_is_shown_card(s: GameState)
    ensures
        s.status == GameStatus::Playing && s.dealer.len() >= 1 ==> visible_value_of(s)
            == s.dealer[0].rank.points() && visible_value_of(s) == hand_value(
            seq![s.dealer[0]],
        ).value,
        s.status == GameStatus::Playing && s.dealer.len() >= 2 ==> {
            &&& visible_cards_of(s).len() == s.dealer.len()
            &&& visible_cards_of(s)[0] == Some(s.dealer[0])
            &&& forall|i: int| 1 <= i < s.dealer.len() ==> #[trigger] visible_cards_of(s)[i] is None
        },
        s.status != GameStatus::Playing ==> {
            &&& visible_value_of(s) == hand_value(s.dealer).value
            &&& visible_cards_of(s).len() == s.dealer.len()
            &&& forall|i: int| 0 <= i < s.dealer.len() ==> #[trigger] visible_cards_of(s)[i] == Some(
                s.dealer[i],
            )
        },
{
    if s.dealer.len() >= 1 {
        let c = s.dealer[0];
        assert(seq![c].drop_last() =~= Seq::<Card>::empty());
        assert(seq![c].last() == c);
        assert(raw_total(Seq::<Card>::empty()) == 0);
        assert(ace_count(Seq::<Card>::empty()) == 0);
        assert(raw_total(seq![c]) == c.rank.points());
    }
}

/// Doubling down, when it succeeds, gives the player exactly one more
/// card and finishes the game.
pub proof fn lemma_double_finishes_game(s: GameState)
    requires
        double_step(s).1 is Ok,
    ensures
        ({
            let (t, r) = double_step(s);
            &&& r == Ok::<Card, Fault>(s.deck.last())
            &&& t.player == s.player.push(s.deck.last())
            &&& t.player.len() == 3
            &&& t.status != GameStatus::Playing
        }),
{
    let c = s.deck.last();
    let drawn = GameState {
        deck: s.deck.drop_last(),
        player: s.player.push(c),
        history: s.history.push(Action::Double { card: c }),
        ..s
    };
    lemma_dealer_turn(GameState { status: GameStatus::DealerTurn, ..drawn });
}

/// In a game that holds exactly one standard deck (as every game from
/// [`Game::new`] does, and keeps doing by [`lemma_moves_keep_cards`]),
/// each of the 52 cards is present exactly once.
pub proof fn lemma_each_card_once(s: GameState)
    requires
        s.card_multiset() == standard_deck().to_multiset(),
    ensures
        forall|c: Card| #[trigger] s.card_multiset().count(c) == 1,
        s.card_count() == 52,
{
    lemma_standard_deck_complete();
    standard_deck().lemma_multiset_has_no_duplicates();
    assert forall|c: Card| #[trigger] s.card_multiset().count(c) == 1 by {
        assert(standard_deck().contains(c));
    }
    assert(s.card_multiset().len() == s.card_count());
}

/// What holds while the player is to act: the player holds at least two
/// cards and is not bust, and the dealer holds exactly the two cards dealt.
pub open spec fn player_turn_ok(s: GameState) -> bool {
    s.status == GameStatus::Playing ==> {
        &&& s.player.len() >= 2
        &&& hand_value(s.player).value <= 21
        &&& s.dealer.len() == 2
    }
}

/// Two dealt cards are never bust.
proof fn lemma_two_cards_not_bust(a: Card, b: Card)
    ensures
        hand_value(seq![a, b]).value <= 21,
{
    let s = seq![a, b];
    assert(s.drop_last() =~= seq![a]);
    assert(seq![a].drop_last() =~= Seq::<Card>::empty());
    assert(s.last() == b);
    assert(seq![a].last() == a);
    assert(seq![a].len() == 1);
    assert(raw_total(Seq::<Card>::empty()) == 0);
    assert(ace_count(Seq::<Card>::empty()) == 0);
    assert(raw_total(seq![a]) == a.rank.points());
    assert(ace_count(seq![a]) == if a.rank == Rank::Ace { 1nat } else { 0nat });
    assert(raw_total(s) == a.rank.points() + b.rank.points());
    if raw_total(s) > 21 {
        assert(a.rank == Rank::Ace && b.rank == Rank::Ace);
        assert(ace_count(s) == 2);
    }
}

/// A freshly dealt game satisfies [`player_turn_ok`]: two dealt cards are
/// never bust.
pub proof fn lemma_deal_starts_player_turn_ok(id: Seq<char>, deck: Seq<Card>)
    requires
        deck.len() >= 4,
    ensures
        player_turn_ok(dealt(id, deck).unwrap()),
{
    let n = deck.len();
    lemma_two_cards_not_bust(deck[n - 1], deck[n - 3]);
}

/// Every move keeps [`player_turn_ok`]: the player never acts on a bust
/// hand, and the dealer draws only once the player's turn is over.
pub proof fn lemma_moves_keep_player_turn_ok(s: GameState)
    requires
        player_turn_ok(s),
    ensures
        player_turn_ok(hit_step(s).0),
        player_turn_ok(stand_step(s).0),
        player_turn_ok(double_step(s).0),
        player_turn_ok(split_step(s).0),
{
    if s.status == GameStatus::Playing {
        let st = GameState {
            status: GameStatus::DealerTurn,
            history: s.history.push(Action::Stand),
            ..s
        };
        lemma_dealer_turn(st);
        if s.player.len() == 2 && s.deck.len() > 0 {
            let c = s.deck.last();
            let drawn = GameState {
                deck: s.deck.drop_last(),
                player: s.player.push(c),
                history: s.history.push(Action::Double { card: c }),
                ..s
            };
            lemma_dealer_turn(GameState { status: GameStatus::DealerTurn, ..drawn });
        }
    }
}

/// Whether no card occurs more than once.
pub open spec fn at_most_once(m: Multiset<Card>) -> bool {
    forall|c: Card| #[trigger] m.count(c) <= 1
}

/// How many of the four Aces the multiset holds, with repetition.
pub open spec fn aces_in(m: Multiset<Card>) -> nat {
    m.count(Card { rank: Rank::Ace, suit: Suit::Hearts }) + m.count(
        Card { rank: Rank::Ace, suit: Suit::Diamonds },
    ) + m.count(Card { rank: Rank::Ace, suit: Suit::Clubs }) + m.count(
        Card { rank: Rank::Ace, suit: Suit::Spades },
    )
}

/// The Aces of a sequence of cards are the Aces of its multiset.
proof fn lemma_ace_count_multiset(cards: Seq<Card>)
    ensures
        ace_count(cards) == aces_in(cards.to_multiset()),
    decreases cards.len(),
{
    if cards.len() == 0 {
    } else {
        let rest = cards.drop_last();
        lemma_ace_count_multiset(rest);
        assert(rest.push(cards.last()) =~= cards);
    }
}

/// Cards that occur at most once hold at most four Aces.
proof fn lemma_few_aces(cards: Seq<Card>)
    requires
        at_most_once(cards.to_multiset()),
    ensures
        ace_count(cards) <= 4,
{
    lemma_ace_count_multiset(cards);
    let m = cards.to_multiset();
    assert(m.count(Card { rank: Rank::Ace, suit: Suit::Hearts }) <= 1);
    assert(m.count(Card { rank: Rank::Ace, suit: Suit::Diamonds }) <= 1);
    assert(m.count(Card { rank: Rank::Ace, suit: Suit::Clubs }) <= 1);
    assert(m.count(Card { rank: Rank::Ace, suit: Suit::Spades }) <= 1);
}

/// A hand of cards that occur at most once, worth 21 or less, holds no
/// more cards than its value.
proof fn lemma_live_hand_is_short(cards: Seq<Card>)
    requires
        at_most_once(cards.to_multiset()),
    ensures
        hand_value(cards).value < 215 ==> cards.len() <= hand_value(cards).value,
{
    lemma_few_aces(cards);
    lemma_value_counts_cards(cards);
}

/// The dealer never runs out of cards while dealer hand and deck together
/// hold 17 cards or more, none of them twice: the dealer stops at 17, and a
/// hand worth less than 17 holds at most 16 cards.
proof fn lemma_dealer_completes(dealer: Seq<Card>, deck: Seq<Card>)
    requires
        dealer.len() + deck.len() >= 17,
        at_most_once(dealer.to_multiset().add(deck.to_multiset())),
    ensures
        dealer_run(dealer, deck).complete,
    decreases deck.len(),
{
    assert(at_most_once(dealer.to_multiset())) by {
        assert forall|c: Card| #[trigger] dealer.to_multiset().count(c) <= 1 by {
            assert(dealer.to_multiset().add(deck.to_multiset()).count(c) <= 1);
        }
    }
    lemma_live_hand_is_short(dealer);
    if hand_value(dealer).value >= 17 {
    } else if deck.len() == 0 {
        assert(false);
    } else {
        let c = deck.last();
        lemma_move_top(deck, dealer);
        let m = deck.drop_last().to_multiset().add(dealer.push(c).to_multiset());
        assert forall|x: Card| #[trigger]
            dealer.push(c).to_multiset().add(deck.drop_last().to_multiset()).count(x) <= 1 by {
            assert(m.count(x) == dealer.to_multiset().add(deck.to_multiset()).count(x));
        }
        lemma_dealer_completes(dealer.push(c), deck.drop_last());
    }
}

/// A game that holds one standard deck, with the player to act and not
/// bust, never runs out of cards: a hit, a stand or a double down is never
/// refused for an empty deck. (The player, at 21 or less with at most four
/// Aces, holds at most 21 cards, so at least 29 remain in the deck.)
pub proof fn lemma_full_deck_never_runs_out(s: GameState)
    requires
        s.card_multiset() == standard_deck().to_multiset(),
        player_turn_ok(s),
        s.status == GameStatus::Playing,
    ensures
        hit_step(s).1 != Err::<Card, Fault>(Fault::DeckEmpty),
        stand_step(s).1 != Err::<GameStatus, Fault>(Fault::DeckEmpty),
        double_step(s).1 != Err::<Card, Fault>(Fault::DeckEmpty),
{
    lemma_each_card_once(s);
    let all = s.card_multiset();
    assert(at_most_once(s.player.to_multiset())) by {
        assert forall|c: Card| #[trigger] s.player.to_multiset().count(c) <= 1 by {
            assert(all.count(c) == 1);
        }
    }
    lemma_live_hand_is_short(s.player);
    assert(s.player.len() <= 21);
    assert(s.deck.len() >= 29);
    assert(at_most_once(s.dealer.to_multiset().add(s.deck.to_multiset()))) by {
        assert forall|c: Card| #[trigger]
            s.dealer.to_multiset().add(s.deck.to_multiset()).count(c) <= 1 by {
            assert(all.count(c) == 1);
        }
    }
    lemma_dealer_completes(s.dealer, s.deck);
    if s.player.len() == 2 {
        let rest = s.deck.drop_last();
        assert(rest.push(s.deck.last()) =~= s.deck);
        assert forall|c: Card| #[trigger]
            s.dealer.to_multiset().add(rest.to_multiset()).count(c) <= 1 by {
            assert(s.dealer.to_multiset().add(s.deck.to_multiset()).count(c) <= 1);
        }
        lemma_dealer_completes(s.dealer, rest);
    }
}

/// After a successful stand, a hit is refused and changes nothing.
pub proof fn lemma_no_hit_after_stand(s: GameState)
    requires
        stand_step(s).1 is Ok,
    ensures
        hit_step(stand_step(s).0) == (
            stand_step(s).0,
            Err::<Card, Fault>(Fault::GameOver(stand_step(s).0.status)),
        ),
{
    lemma_stand_finishes_game(s);
}

/// A hit that takes the player over 21 ends the game as a player bust;
/// one that does not leaves the player to act.
pub proof fn lemma_hit_busts_only_over_21(s: GameState)
    requires
        hit_step(s).1 is Ok,
    ensures
        ({
            let t = hit_step(s).0;
            &&& t.player.len() == s.player.len() + 1
            &&& (t.status == GameStatus::PlayerBust <==> hand_value(t.player).value > 21)
            &&& (t.status == GameStatus::Playing <==> hand_value(t.player).value <= 21)
        }),
{
}

// ---------------------------------------------------------------------------
// Outside calls
// ---------------------------------------------------------------------------

/// Calls `uuid::Uuid::new_v4()` and formats the result with `to_string()`.
/// Claimed: the text is a hyphenated lowercase UUID of version 4
/// (36 characters, hyphens at 8, 13, 18 and 23, '4' at 14, lowercase hex
/// digits elsewhere), as uuid's `Display` writes it. Which id comes out is
/// left unsaid: it is random. Drawing the random bits panics if the
/// operating system's generator fails; nothing here rules that out.
#[verifier::external_body]
fn new_game_id() -> (id: String)
    ensures
        is_uuid_text(id@),
{
    uuid::Uuid::new_v4().to_string()
}

// ---------------------------------------------------------------------------
// Game
// ---------------------------------------------------------------------------

/// A single Blackjack game (one round, player vs dealer).
#[derive(Debug)]
pub struct Game {
    /// Unique identifier for this game.
    id: String,
    /// The deck of cards.
    deck: Deck,
    /// Player's hand.
    player_hand: Hand,
    /// Dealer's hand.
    dealer_hand: Hand,
    /// Current game status.
    status: GameStatus,
    /// Ordered log of actions taken during this game.
    history: Vec<Action>,
}

impl View for Game {
    type V = GameState;

    closed spec fn view(&self) -> GameState {
        GameState {
            id: self.id@,
            deck: self.deck@,
            player: self.player_hand@,
            dealer: self.dealer_hand@,
            status: self.status,
            history: self.history@,
        }
    }
}

impl Clone for Game {
    fn clone(&self) -> (g: Self)
        ensures
            g@ == self@,
            g.wf() == self.wf(),
    {
        let history = self.history.clone();
        proof {
            assert(history@ =~= self.history@);
        }
        Game {
            id: self.id.clone(),
            deck: self.deck.clone(),
            player_hand: self.player_hand.clone(),
            dealer_hand: self.dealer_hand.clone(),
            status: self.status,
            history,
        }
    }
}

impl Game {
    /// Well-formedness: a game never holds more than one deck's worth of
    /// cards.
    pub closed spec fn wf(&self) -> bool {
        self@.card_count() <= 52
    }

    /// Create a new game with a shuffled deck and a fresh random id, and
    /// deal the initial hands (player, dealer, player, dealer).
    ///
    /// If the player has a natural Blackjack, the game status is set to
    /// `Blackjack` immediately.
    pub fn new() -> (r: Result<Self, GameError>)
        ensures
            r matches Ok(g) && {
                &&& g.wf()
                &&& player_turn_ok(g@)
                &&& exists|d: Seq<Card>|
                    d.to_multiset() == standard_deck().to_multiset() && #[trigger] dealt(g@.id, d)
                        == Some(g@)
                &&& is_uuid_text(g@.id)
                &&& g@.card_multiset() == standard_deck().to_multiset()
                &&& g@.deck.len() == 48
                &&& g@.player.len() == 2
                &&& g@.dealer.len() == 2
                &&& g@.history == seq![Action::Deal]
                &&& g@.status == if is_natural(g@.player) {
                    GameStatus::Blackjack
                } else {
                    GameStatus::Playing
                }
            },
    {
        let id = new_game_id();
        let deck = Deck::new_shuffled();
        let ghost cards = deck@;
        let r = Game::deal(id, deck);
        proof {
            lemma_dealt(id@, cards);
            lemma_deal_starts_player_turn_ok(id@, cards);
            let g = r.unwrap();
            assert(g@.id == id@);
            assert(dealt(g@.id, cards) == Some(g@));
        }
        r
    }

    /// Deal a game named `id` from `deck`: player, dealer, player, dealer,
    /// each from the top of the deck.
    ///
    /// Returns `Err(GameError::DeckEmpty)` if the deck holds fewer than
    /// four cards.
    pub fn deal(id: String, deck: Deck) -> (r: Result<Self, GameError>)
        ensures
            match r {
                Ok(g) => g.wf() && dealt(id@, deck@) == Some(g@),
                Err(e) => dealt(id@, deck@) is None && e is DeckEmpty,
            },
    {
        proof {
            use_type_invariant(&deck);
        }
        let ghost cards = deck@;
        let mut game = Game {
            id,
            deck,
            player_hand: Hand::new(),
            dealer_hand: Hand::new(),
            status: GameStatus::Playing,
            history: Vec::new(),
        };
        let c1 = match game.deck.draw() {
            Ok(c) => c,
            Err(e) => return Err(e),
        };
        game.player_hand.add(c1);
        let c2 = match game.deck.draw() {
            Ok(c) => c,
            Err(e) => return Err(e),
        };
        game.dealer_hand.add(c2);
        let c3 = match game.deck.draw() {
            Ok(c) => c,
            Err(e) => return Err(e),
        };
        game.player_hand.add(c3);
        let c4 = match game.deck.draw() {
            Ok(c) => c,
            Err(e) => return Err(e),
        };
        game.dealer_hand.add(c4);
        game.history.push(Action::Deal);
        // Check for natural blackjack.
        if game.player_hand.is_blackjack() {
            game.status = GameStatus::Blackjack;
        }
        proof {
            let n = cards.len();
            assert(game.deck@ =~= cards.take(n - 4));
            assert(game.player_hand@ =~= seq![cards[n - 1], cards[n - 3]]);
            assert(game.dealer_hand@ =~= seq![cards[n - 2], cards[n - 4]]);
            assert(game.history@ =~= seq![Action::Deal]);
        }
        Ok(game)
    }

    // -- Accessors ----------------------------------------------------------

    /// The game's unique identifier.
    pub fn id(&self) -> (s: &str)
        ensures
            s@ == self@.id,
    {
        self.id.as_str()
    }

    /// Current game status.
    pub fn status(&self) -> (s: GameStatus)
        ensures
            s == self@.status,
    {
        self.status
    }

    /// The player's hand.
    pub fn player_hand(&self) -> (h: &Hand)
        ensures
            h@ == self@.player,
    {
        &self.player_hand
    }

    /// The dealer's hand.
    pub fn dealer_hand(&self) -> (h: &Hand)
        ensures
            h@ == self@.dealer,
    {
        &self.dealer_hand
    }

    /// Number of cards remaining in the deck.
    pub fn deck_remaining(&self) -> (n: usize)
        ensures
            n == self@.deck.len(),
    {
        self.deck.remaining()
    }

    /// The action history for this game.
    pub fn history(&self) -> (s: &[Action])
        ensures
            s@ == self@.history,
    {
        self.history.as_slice()
    }

    /// Available actions the player can take in the current state.
    pub fn available_actions(&self) -> (v: Vec<String>)
        ensures
            v@.map_values(|a: String| a@) == actions_of(self@),
    {
        if self.status != GameStatus::Playing {
            let v: Vec<String> = Vec::new();
            assert(v@.map_values(|a: String| a@) =~= actions_of(self@));
            return v;
        }
        let mut actions: Vec<String> = Vec::new();
        actions.push("hit".to_owned());
        actions.push("stand".to_owned());
        let ghost base = seq!["hit"@, "stand"@];
        assert(actions@.map_values(|a: String| a@) =~= base);
        // Double down: only allowed on first two cards.
        if self.player_hand.len() == 2 {
            actions.push("double".to_owned());
        }
        let ghost with_double = base + (if self@.player.len() == 2 {
            seq!["double"@]
        } else {
            Seq::empty()
        });
        assert(actions@.map_values(|a: String| a@) =~= with_double);
        // Split: only allowed with a pair on first two cards.
        if self.player_hand.is_pair() {
            actions.push("split".to_owned());
        }
        assert(actions@.map_values(|a: String| a@) =~= actions_of(self@));
        actions
    }

    /// The dealer's visible hand value (only the face-up card when the
    /// player is to act).
    pub fn dealer_visible_value(&self) -> (v: u8)
        requires
            self.wf(),
        ensures
            v == visible_value_of(self@),
    {
        proof {
            lemma_ace_count_le_len(self.dealer_hand@);
        }
        if self.status == GameStatus::Playing {
            // Only the first card is visible during player's turn.
            let cards = self.dealer_hand.cards();
            if cards.len() == 0 {
                0
            } else {
                cards[0].rank.value()
            }
        } else {
            self.dealer_hand.value().value
        }
    }

    /// The dealer's visible cards (hides the hole card during the
    /// player's turn).
    pub fn dealer_visible_cards(&self) -> (v: Vec<Option<Card>>)
        ensures
            v@ == visible_cards_of(self@),
    {
        let cards = self.dealer_hand.cards();
        let mut visible: Vec<Option<Card>> = Vec::new();
        if self.status == GameStatus::Playing && cards.len() >= 2 {
            // Show first card, hide the rest.
            visible.push(Some(cards[0]));
            let mut i: usize = 1;
            while i < cards.len()
                invariant
                    1 <= i <= cards@.len(),
                    cards@.len() >= 2,
                    visible@.len() == i,
                    visible@[0] == Some(cards@[0]),
                    forall|j: int| 1 <= j < i ==> visible@[j] == None::<Card>,
                decreases cards@.len() - i,
            {
                visible.push(None);  // hidden (hole card)
                i += 1;
            }
            assert(visible@ =~= visible_cards_of(self@));
        } else {
            // Game is over — show all cards.
            let mut i: usize = 0;
            while i < cards.len()
                invariant
                    i <= cards@.len(),
                    visible@ =~= cards@.take(i as int).map_values(|c: Card| Some(c)),
                decreases cards@.len() - i,
            {
                visible.push(Some(cards[i]));
                i += 1;
                assert(visible@ =~= cards@.take(i as int).map_values(|c: Card| Some(c)));
            }
            assert(cards@.take(cards@.len() as int) =~= cards@);
        }
        visible
    }

    // -- Player Actions -----------------------------------------------------

    /// Player hits — draws one card.
    ///
    /// If the new hand busts (> 21), the game ends with `PlayerBust`.
    pub fn hit(&mut self) -> (r: Result<Card, GameError>)
        requires
            old(self).wf(),
        ensures
            final(self).wf(),
            final(self)@ == hit_step(old(self)@).0,
            outcome_matches(r, hit_step(old(self)@).1),
    {
        match self.require_playing() {
            Ok(()) => {},
            Err(e) => return Err(e),
        }
        let card = match self.deck.draw() {
            Ok(c) => c,
            Err(e) => return Err(e),
        };
        self.player_hand.add(card);
        self.history.push(Action::Hit { card });
        proof {
            lemma_ace_count_le_len(self.player_hand@);
        }
        if self.player_hand.is_bust() {
            self.status = GameStatus::PlayerBust;
        }
        Ok(card)
    }

    /// Player stands — ends the player's turn and triggers dealer play.
    ///
    /// The dealer draws until reaching 17 or more, then the game is
    /// resolved. If the deck runs out first, the game is left in
    /// `DealerTurn` and `DeckEmpty` is returned.
    pub fn stand(&mut self) -> (r: Result<GameStatus, GameError>)
        requires
            old(self).wf(),
        ensures
            final(self).wf(),
            final(self)@ == stand_step(old(self)@).0,
            outcome_matches(r, stand_step(old(self)@).1),
    {
        match self.require_playing() {
            Ok(()) => {},
            Err(e) => return Err(e),
        }
        self.history.push(Action::Stand);
        self.status = GameStatus::DealerTurn;
        match self.dealer_play() {
            Ok(()) => {},
            Err(e) => return Err(e),
        }
        self.resolve();
        Ok(self.status)
    }

    /// Player doubles down — draws exactly one card, then stands
    /// immediately (dealer plays) unless the card busts the hand.
    ///
    /// Only allowed on the first two cards.
    pub fn double_down(&mut self) -> (r: Result<Card, GameError>)
        requires
            old(self).wf(),
        ensures
            final(self).wf(),
            final(self)@ == double_step(old(self)@).0,
            outcome_matches(r, double_step(old(self)@).1),
    {
        match self.require_playing() {
            Ok(()) => {},
            Err(e) => return Err(e),
        }
        if self.player_hand.len() != 2 {
            return Err(
                GameError::InvalidAction(
                    "double down is only allowed on first two cards".to_owned(),
                ),
            );
        }
        let card = match self.deck.draw() {
            Ok(c) => c,
            Err(e) => return Err(e),
        };
        self.player_hand.add(card);
        self.history.push(Action::Double { card });
        proof {
            lemma_ace_count_le_len(self.player_hand@);
        }
        if self.player_hand.is_bust() {
            self.status = GameStatus::PlayerBust;
        } else {
            // Player must stand after doubling.
            self.status = GameStatus::DealerTurn;
            match self.dealer_play() {
                Ok(()) => {},
                Err(e) => return Err(e),
            }
            self.resolve();
        }
        Ok(card)
    }

    /// Player asks to split a pair into two hands.
    ///
    /// Splitting is not supported: the answer is `CannotSplit` without a
    /// pair and `InvalidAction` with one.
    pub fn split(&mut self) -> (r: Result<(), GameError>)
        requires
            old(self).wf(),
        ensures
            final(self).wf(),
            final(self)@ == split_step(old(self)@).0,
            outcome_matches(r, split_step(old(self)@).1),
    {
        match self.require_playing() {
            Ok(()) => {},
            Err(e) => return Err(e),
        }
        if !self.player_hand.is_pair() {
            return Err(GameError::CannotSplit);
        }
        Err(GameError::InvalidAction("split is not yet implemented in v1".to_owned()))
    }

    /// The player's hand value.
    pub fn player_value(&self) -> (v: HandValue)
        requires
            self.wf(),
        ensures
            v == hand_value(self@.player),
    {
        proof {
            lemma_ace_count_le_len(self.player_hand@);
        }
        self.player_hand.value()
    }

    /// The dealer's hand value (full, regardless of visibility).
    pub fn dealer_value(&self) -> (v: HandValue)
        requires
            self.wf(),
        ensures
            v == hand_value(self@.dealer),
    {
        proof {
            lemma_ace_count_le_len(self.dealer_hand@);
        }
        self.dealer_hand.value()
    }

    // -- Internal -----------------------------------------------------------

    /// Verify the game is in `Playing` status; error otherwise.
    fn require_playing(&self) -> (r: Result<(), GameError>)
        ensures
            r is Ok <==> self@.status == GameStatus::Playing,
            r matches Err(e) ==> error_reports(e, Fault::GameOver(self@.status)),
    {
        if self.status != GameStatus::Playing {
            let msg = "game is already over (status: ".to_owned().concat(
                self.status.label_str(),
            ).concat(")");
            return Err(GameError::InvalidAction(msg));
        }
        Ok(())
    }

    /// Dealer draws cards until reaching a hand value of 17 or more.
    fn dealer_play(&mut self) -> (r: Result<(), GameError>)
        requires
            old(self).wf(),
        ensures
            final(self).wf(),
            final(self)@ == dealer_play_step(old(self)@).0,
            r is Ok <==> dealer_play_step(old(self)@).1,
            r matches Err(e) ==> e is DeckEmpty,
    {
        let ghost s0 = self@;
        let ghost r0 = dealer_run(s0.dealer, s0.deck);
        let ghost mut drawn: Seq<Card> = Seq::empty();
        loop
            invariant
                s0 == old(self)@,
                r0 == dealer_run(s0.dealer, s0.deck),
                self@.id == s0.id,
                self@.player == s0.player,
                self@.status == s0.status,
                self@.history == s0.history + dealer_hits(drawn),
                dealer_run(self@.dealer, self@.deck).dealer == r0.dealer,
                dealer_run(self@.dealer, self@.deck).deck == r0.deck,
                dealer_run(self@.dealer, self@.deck).complete == r0.complete,
                r0.drawn == drawn + dealer_run(self@.dealer, self@.deck).drawn,
                self@.card_count() <= 52,
            ensures
                hand_value(self@.dealer).value >= 17,
                self@.id == s0.id,
                self@.player == s0.player,
                self@.status == s0.status,
                self@.history == s0.history + dealer_hits(drawn),
                r0.dealer == self@.dealer,
                r0.deck == self@.deck,
                r0.complete,
                r0.drawn == drawn,
                self@.card_count() <= 52,
            decreases self@.deck.len(),
        {
            proof {
                lemma_ace_count_le_len(self.dealer_hand@);
            }
            if self.dealer_hand.value().value >= 17 {
                proof {
                    assert(drawn + Seq::<Card>::empty() =~= drawn);
                }
                break ;
            }
            let card = match self.deck.draw() {
                Ok(c) => c,
                Err(e) => {
                    proof {
                        assert(drawn + Seq::<Card>::empty() =~= drawn);
                    }
                    return Err(e);
                },
            };
            self.dealer_hand.add(card);
            self.history.push(Action::DealerHit { card });
            proof {
                let rest = dealer_run(self@.dealer, self@.deck).drawn;
                assert(drawn + (seq![card] + rest) =~= drawn.push(card) + rest);
                assert(dealer_hits(drawn.push(card)) =~= dealer_hits(drawn).push(
                    Action::DealerHit { card },
                ));
                drawn = drawn.push(card);
            }
        }
        self.history.push(Action::DealerStand);
        Ok(())
    }

    /// Compare hands and set the final game status.
    fn resolve(&mut self)
        requires
            old(self).wf(),
        ensures
            final(self)@ == (GameState {
                status: resolve_status(old(self)@.player, old(self)@.dealer),
                ..old(self)@
            }),
    {
        proof {
            lemma_ace_count_le_len(self.dealer_hand@);
            lemma_ace_count_le_len(self.player_hand@);
        }
        let dealer_val = self.dealer_hand.value().value;
        let player_val = self.player_hand.value().value;
        if self.dealer_hand.is_bust() {
            self.status = GameStatus::DealerBust;
        } else if player_val > dealer_val {
            self.status = GameStatus::PlayerWins;
        } else if dealer_val > player_val {
            self.status = GameStatus::DealerWins;
        } else {
            self.status = GameStatus::Push;
        }
    }
}

} // verus!
