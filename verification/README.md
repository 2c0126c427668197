# rumenx-blackjack

A single-deck Blackjack engine and REST server. The engine is written in
Verus: its behaviour is stated in `requires`/`ensures` contracts and proved.

## Layout

- `src/engine/types.rs` — cards, ranks, suits, hand values, game status,
  history actions and engine errors, with their display texts.
- `src/engine/hand.rs` — hand value arithmetic (Aces as 11 or 1) and the
  proof that the value is the best one the rules allow.
- `src/engine/deck.rs` — the 52-card deck, shuffling (through `rand`) and
  drawing.
- `src/engine/game.rs` — the game state machine. Each move is specified by a
  step function on `GameState`; the laws of the game (cards are never created
  or lost, a finished game refuses moves, standing finishes the game, ...) are
  proved over these step functions.
- `src/api/` — API error mapping and the response shapes (the dealer's hole
  card stays hidden while the player is to act).
- `src/config.rs` — port parsing, defaults and the bind address.
- `app/` — the Axum server: routes, handlers, the game registry, JSON
  serialization and environment reading.
- `tests/` — tests of the library.

## Running

The server listens on `HOST:PORT` (defaults `0.0.0.0:8083`) and offers
`/health`, `/api/games`, `/api/games/{id}` and the actions `hit`, `stand`,
`double`, `split` and `history` under a game.
