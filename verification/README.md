# monopoly

A terminal Monopoly game whose rules engine is verified with Verus.

## Layout

- `src/` — the verified engine.
  - `space.rs`, `board.rs`, `player.rs` — the squares, the standard US board,
    the players and their tokens.
  - `game/` — the rules: turns and movement (`mod.rs`), rent (`rent.rs`),
    Chance and Community Chest (`cards.rs`), jail (`jail.rs`), building and
    mortgages (`estate.rs`), debts and liquidation (`debt.rs`), auctions
    (`auction.rs`), trades (`trade.rs`), the turn menu (`action.rs`), key and
    clock handling (`play.rs`), starting a game (`start.rs`), the saved slice
    of a game (`save.rs`) and the messages for the players (`note.rs`);
    `tally.rs` holds the sums over players and board that the contracts speak
    of.
  - `screen.rs` — which screen is up (menu, new-game form, game) and how a
    key moves between them, including the quit prompt.
  - `ui/` — the key type, list cursor and Yes/No prompt, the main menu, and the
    dice clock; `setup.rs` is the new-game form; `map.rs` places the squares on
    the 11x11 ring and writes their cell text.
  - `random.rs` — the one trusted call: a uniform draw from `rand`.
- `app/` — the terminal front end (crossterm + ratatui): the event loop,
  drawing, the GIF animations, the game's messages as toasts, and saving to
  `save.json` under the per-user data directory (`--continue` resumes it).
- `tests/` — the engine's tests.

## Rules in brief

Standard US edition for 2 to 8 players, $1500 each by default (adjustable in
$250 steps). A roll-off decides who starts: highest total, ties to the earlier
seat. Doubles roll again; a third double in a turn goes straight to jail.
Passing or landing on GO pays $200. An unbought deed is offered to the player
who lands on it, and auctioned among everyone still in if they decline. Rent
doubles on an unbuilt street when its whole color group has one owner; railroad
rent is $25 per railroad held; a utility charges 4x the roll, or 10x with both.
Building needs the whole group, stays even across it, and draws on the bank's
32 houses and 12 hotels. A mortgage pays half the price and costs that plus 10%
to lift. Jail is left by paying $50, using a Get Out of Jail Free card, or
rolling doubles; after three failed attempts the bail is paid and the player
moves. A player who cannot pay even after mortgaging and selling goes bankrupt:
a creditor player takes the estate and owes 10% on each mortgaged deed; the bank
auctions it off instead. The last player left wins.
