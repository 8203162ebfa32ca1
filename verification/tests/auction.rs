use monopoly::game::auction::STEP;
use monopoly::game::{Game, Modal};
use monopoly::player::{Piece, Player};
use monopoly::space::{ColorGroup, Space};
use monopoly::ui::Key;

/// A game of `count` players holding `cash` each, with player 0 to move.
fn game(count: usize, cash: u32) -> Game {
    let players: Vec<Player> = Piece::all().into_iter().take(count).map(|p| Player::new(p, cash)).collect();
    let mut g = Game::new(players);
    g.current = 0;
    g.doubles = 0;
    g.can_roll = true;
    g.has_rolled = false;
    g
}

/// Hand `idx` to player `who`.
#[allow(dead_code)]
fn own(g: &mut Game, idx: usize, who: usize) {
    g.board[idx].set_owner(Some(who));
}

/// Hand every street in `group` to player `who`.
#[allow(dead_code)]
fn own_group(g: &mut Game, group: ColorGroup, who: usize) {
    for space in &mut g.board {
        if matches!(space, Space::Property(p) if p.group == group) {
            space.set_owner(Some(who));
        }
    }
}

/// Put `houses` on `idx` directly, bypassing the build rules and their cost.
#[allow(dead_code)]
fn set_houses(g: &mut Game, idx: usize, houses: u8) {
    if let Space::Property(p) = &mut g.board[idx] {
        p.houses = houses;
    }
}

/// Drop player `who` on `idx` without moving them through the board.
#[allow(dead_code)]
fn place(g: &mut Game, who: usize, idx: usize) {
    g.players[who].position = idx;
}

// Board indices used by the tests, by name.
#[allow(dead_code)]
const MEDITERRANEAN: usize = 1;
#[allow(dead_code)]
const BALTIC: usize = 3;
#[allow(dead_code)]
const INCOME_TAX: usize = 4;
#[allow(dead_code)]
const READING_RR: usize = 5;
#[allow(dead_code)]
const ORIENTAL: usize = 6;
#[allow(dead_code)]
const CHANCE_LOW: usize = 7;
#[allow(dead_code)]
const JAIL: usize = 10;
#[allow(dead_code)]
const ELECTRIC_CO: usize = 12;
#[allow(dead_code)]
const PENNSYLVANIA_RR: usize = 15;
#[allow(dead_code)]
const FREE_PARKING: usize = 20;
#[allow(dead_code)]
const ILLINOIS: usize = 24;
#[allow(dead_code)]
const B_AND_O_RR: usize = 25;
#[allow(dead_code)]
const WATER_WORKS: usize = 28;
#[allow(dead_code)]
const GO_TO_JAIL: usize = 30;
#[allow(dead_code)]
const SHORT_LINE: usize = 35;
#[allow(dead_code)]
const LUXURY_TAX: usize = 38;
#[allow(dead_code)]
const BOARDWALK: usize = 39;

fn bidding(count: usize) -> Game {
    let mut g = game(count, 1500);
    g.start_auction(BOARDWALK);
    g
}

#[test]
fn declining_the_buy_prompt_starts_an_auction() {
    let mut g = game(2, 1500);
    place(&mut g, 0, BOARDWALK - 5);
    g.apply_roll(2, 3);
    assert!(matches!(g.modal, Modal::Buy { .. }));
    g.handle_key(Key::Enter); // the prompt defaults to "No"
    assert!(matches!(g.modal, Modal::Auction(_)));
}

#[test]
fn each_bid_raises_the_price_by_one_step() {
    let mut g = bidding(2);
    g.handle_key(Key::Char('b'));
    g.handle_key(Key::Char('b'));
    let Modal::Auction(auc) = &g.modal else { panic!("expected the auction") };
    assert_eq!(auc.high_bid, STEP * 2);
    assert_eq!(auc.high_bidder, Some(1));
}

#[test]
fn bidding_passes_the_turn_round_the_table() {
    let mut g = bidding(3);
    g.handle_key(Key::Char('b'));
    let Modal::Auction(auc) = &g.modal else { panic!("expected the auction") };
    assert_eq!(auc.active[auc.turn], 1);
}

#[test]
fn the_last_bidder_left_wins_the_lot() {
    let mut g = bidding(2);
    g.handle_key(Key::Char('b')); // player 0 bids $10
    g.handle_key(Key::Char('p')); // player 1 passes
    assert!(matches!(g.modal, Modal::Clear), "the auction is over");
    assert_eq!(g.board[BOARDWALK].owner(), Some(0));
    assert_eq!(g.players[0].money, 1490);
}

#[test]
fn nobody_bidding_leaves_the_lot_with_the_bank() {
    let mut g = bidding(2);
    g.handle_key(Key::Char('p'));
    g.handle_key(Key::Char('p'));
    assert!(matches!(g.modal, Modal::Clear));
    assert_eq!(g.board[BOARDWALK].owner(), None);
    assert_eq!(g.players[0].money, 1500);
}

#[test]
fn a_bid_beyond_your_cash_is_refused() {
    let mut g = bidding(2);
    g.players[0].money = 5;
    g.handle_key(Key::Char('b'));
    let Modal::Auction(auc) = &g.modal else { panic!("expected the auction") };
    assert_eq!(auc.high_bidder, None);
    assert_eq!(auc.active[auc.turn], 0, "and the turn does not move on");
}

#[test]
fn eliminated_players_are_not_invited() {
    let mut g = game(3, 1500);
    g.players[1].bankrupt = true;
    g.start_auction(BOARDWALK);
    let Modal::Auction(auc) = &g.modal else { panic!("expected the auction") };
    assert_eq!(auc.active, vec![0, 2]);
}

#[test]
fn a_three_way_auction_settles_on_the_survivor() {
    let mut g = bidding(3);
    g.handle_key(Key::Char('b')); // 0 bids 10
    g.handle_key(Key::Char('b')); // 1 bids 20
    g.handle_key(Key::Char('p')); // 2 out
    g.handle_key(Key::Char('b')); // 0 bids 30
    g.handle_key(Key::Char('p')); // 1 out, leaving 0 as high bidder
    assert_eq!(g.board[BOARDWALK].owner(), Some(0));
    assert_eq!(g.players[0].money, 1470);
}

#[test]
fn cancelling_leaves_the_lot_unsold() {
    let mut g = bidding(2);
    g.handle_key(Key::Char('b'));
    g.handle_key(Key::Esc);
    assert!(matches!(g.modal, Modal::Clear));
    assert_eq!(g.board[BOARDWALK].owner(), None);
    assert_eq!(g.players[0].money, 1500, "an unsold lot costs nothing");
}
