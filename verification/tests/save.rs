use monopoly::game::{Game, Modal, TOTAL_HOTELS, TOTAL_HOUSES};
use monopoly::player::{Piece, Player};
use monopoly::space::{ColorGroup, Space};

/// A game of `count` players holding `cash` each, with player 0 to move.
fn game(count: usize, cash: u32) -> Game {
    let players: Vec<Player> = Piece::all().into_iter().take(count).map(|p| Player::new(p, cash)).collect();
    let mut g = Game::new(players);
    g.current = 0;
    g.doubles = 0;
    g.can_roll = true;
    g.has_rolled = false;
    g
}

/// Hand `idx` to player `who`.
#[allow(dead_code)]
fn own(g: &mut Game, idx: usize, who: usize) {
    g.board[idx].set_owner(Some(who));
}

/// Hand every street in `group` to player `who`.
#[allow(dead_code)]
fn own_group(g: &mut Game, group: ColorGroup, who: usize) {
    for space in &mut g.board {
        if matches!(space, Space::Property(p) if p.group == group) {
            space.set_owner(Some(who));
        }
    }
}

/// Put `houses` on `idx` directly, bypassing the build rules and their cost.
#[allow(dead_code)]
fn set_houses(g: &mut Game, idx: usize, houses: u8) {
    if let Space::Property(p) = &mut g.board[idx] {
        p.houses = houses;
    }
}

/// Drop player `who` on `idx` without moving them through the board.
#[allow(dead_code)]
fn place(g: &mut Game, who: usize, idx: usize) {
    g.players[who].position = idx;
}

// Board indices used by the tests, by name.
#[allow(dead_code)]
const MEDITERRANEAN: usize = 1;
#[allow(dead_code)]
const BALTIC: usize = 3;
#[allow(dead_code)]
const INCOME_TAX: usize = 4;
#[allow(dead_code)]
const READING_RR: usize = 5;
#[allow(dead_code)]
const ORIENTAL: usize = 6;
#[allow(dead_code)]
const CHANCE_LOW: usize = 7;
#[allow(dead_code)]
const JAIL: usize = 10;
#[allow(dead_code)]
const ELECTRIC_CO: usize = 12;
#[allow(dead_code)]
const PENNSYLVANIA_RR: usize = 15;
#[allow(dead_code)]
const FREE_PARKING: usize = 20;
#[allow(dead_code)]
const ILLINOIS: usize = 24;
#[allow(dead_code)]
const B_AND_O_RR: usize = 25;
#[allow(dead_code)]
const WATER_WORKS: usize = 28;
#[allow(dead_code)]
const GO_TO_JAIL: usize = 30;
#[allow(dead_code)]
const SHORT_LINE: usize = 35;
#[allow(dead_code)]
const LUXURY_TAX: usize = 38;
#[allow(dead_code)]
const BOARDWALK: usize = 39;

/// Round-trip through the saved slice.
fn reload(game: &Game) -> Game {
    Game::from_save(game.snapshot())
}

#[test]
fn a_save_round_trips_through_json() {
    let mut g = game(2, 1500);
    own(&mut g, BOARDWALK, 1);
    set_houses(&mut g, MEDITERRANEAN, 3);
    g.players[0].in_jail = true;
    g.players[0].get_out_free = 1;
    g.current = 1;
    g.doubles = 2;

    let restored = reload(&g);
    assert_eq!(restored.current, 1);
    assert_eq!(restored.doubles, 2);
    assert_eq!(restored.board[BOARDWALK].owner(), Some(1));
    assert_eq!(restored.board[MEDITERRANEAN].houses(), 3);
    assert!(restored.players[0].in_jail);
    assert_eq!(restored.players[0].get_out_free, 1);
}

#[test]
fn transient_ui_state_is_not_saved() {
    let mut g = game(2, 1500);
    g.show_inventory();
    let restored = reload(&g);
    assert!(matches!(restored.modal, Modal::Clear));
    assert!(restored.pending.is_empty());
    assert!(!restored.is_done());
}

#[test]
fn the_banks_stock_survives_a_round_trip() {
    let mut g = game(2, 1500);
    own_group(&mut g, ColorGroup::Brown, 0);
    g.build_house(MEDITERRANEAN);
    g.build_house(BALTIC);
    let restored = reload(&g);
    assert_eq!(restored.houses_left, TOTAL_HOUSES - 2);
    assert_eq!(restored.hotels_left, TOTAL_HOTELS);
}
