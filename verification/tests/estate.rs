use monopoly::game::{Game, Modal, TOTAL_HOTELS, TOTAL_HOUSES};
use monopoly::player::{Piece, Player};
use monopoly::space::{ColorGroup, Space, HOTEL};
use monopoly::ui::Key;

/// A game of `count` players holding `cash` each, with player 0 to move.
fn game(count: usize, cash: u32) -> Game {
    let players: Vec<Player> = Piece::all().into_iter().take(count).map(|p| Player::new(p, cash)).collect();
    let mut g = Game::new(players);
    g.current = 0;
    g.doubles = 0;
    g.can_roll = true;
    g.has_rolled = false;
    g
}

/// Hand `idx` to player `who`.
#[allow(dead_code)]
fn own(g: &mut Game, idx: usize, who: usize) {
    g.board[idx].set_owner(Some(who));
}

/// Hand every street in `group` to player `who`.
#[allow(dead_code)]
fn own_group(g: &mut Game, group: ColorGroup, who: usize) {
    for space in &mut g.board {
        if matches!(space, Space::Property(p) if p.group == group) {
            space.set_owner(Some(who));
        }
    }
}

/// Put `houses` on `idx` directly, bypassing the build rules and their cost.
#[allow(dead_code)]
fn set_houses(g: &mut Game, idx: usize, houses: u8) {
    if let Space::Property(p) = &mut g.board[idx] {
        p.houses = houses;
    }
}

/// Drop player `who` on `idx` without moving them through the board.
#[allow(dead_code)]
fn place(g: &mut Game, who: usize, idx: usize) {
    g.players[who].position = idx;
}

// Board indices used by the tests, by name.
#[allow(dead_code)]
const MEDITERRANEAN: usize = 1;
#[allow(dead_code)]
const BALTIC: usize = 3;
#[allow(dead_code)]
const INCOME_TAX: usize = 4;
#[allow(dead_code)]
const READING_RR: usize = 5;
#[allow(dead_code)]
const ORIENTAL: usize = 6;
#[allow(dead_code)]
const CHANCE_LOW: usize = 7;
#[allow(dead_code)]
const JAIL: usize = 10;
#[allow(dead_code)]
const ELECTRIC_CO: usize = 12;
#[allow(dead_code)]
const PENNSYLVANIA_RR: usize = 15;
#[allow(dead_code)]
const FREE_PARKING: usize = 20;
#[allow(dead_code)]
const ILLINOIS: usize = 24;
#[allow(dead_code)]
const B_AND_O_RR: usize = 25;
#[allow(dead_code)]
const WATER_WORKS: usize = 28;
#[allow(dead_code)]
const GO_TO_JAIL: usize = 30;
#[allow(dead_code)]
const SHORT_LINE: usize = 35;
#[allow(dead_code)]
const LUXURY_TAX: usize = 38;
#[allow(dead_code)]
const BOARDWALK: usize = 39;

/// Player 0 owning the brown group outright, with cash to build.
fn brown_monopoly() -> Game {
    let mut g = game(2, 1500);
    own_group(&mut g, ColorGroup::Brown, 0);
    g
}

#[test]
fn building_needs_the_whole_color_group() {
    let mut g = game(2, 1500);
    own(&mut g, MEDITERRANEAN, 0);
    g.open_build();
    assert!(matches!(g.modal, Modal::Clear), "a partial group offers nothing");
}

#[test]
fn a_house_costs_its_printed_price() {
    let mut g = brown_monopoly();
    g.build_house(MEDITERRANEAN);
    assert_eq!(g.board[MEDITERRANEAN].houses(), 1);
    assert_eq!(g.players[0].money, 1450);
}

#[test]
fn building_must_stay_even_across_the_group() {
    let mut g = brown_monopoly();
    g.build_house(MEDITERRANEAN);
    g.build_house(MEDITERRANEAN);
    assert_eq!(g.board[MEDITERRANEAN].houses(), 1, "the second house must go elsewhere");

    g.build_house(BALTIC);
    g.build_house(MEDITERRANEAN);
    assert_eq!(g.board[MEDITERRANEAN].houses(), 2);
}

#[test]
fn the_fifth_house_is_the_hotel_and_the_last() {
    let mut g = brown_monopoly();
    for _ in 0..HOTEL {
        g.build_house(MEDITERRANEAN);
        g.build_house(BALTIC);
    }
    assert_eq!(g.board[MEDITERRANEAN].houses(), HOTEL);
    g.build_house(MEDITERRANEAN);
    assert_eq!(g.board[MEDITERRANEAN].houses(), HOTEL, "nothing beyond a hotel");
}

#[test]
fn building_is_refused_without_the_cash() {
    let mut g = brown_monopoly();
    g.players[0].money = 10;
    g.build_house(MEDITERRANEAN);
    assert_eq!(g.board[MEDITERRANEAN].houses(), 0);
    assert_eq!(g.players[0].money, 10);
}

#[test]
fn a_mortgaged_group_cannot_be_built_on() {
    let mut g = brown_monopoly();
    g.board[BALTIC].set_mortgaged(true);
    g.build_house(MEDITERRANEAN);
    assert_eq!(g.board[MEDITERRANEAN].houses(), 0);
}

#[test]
fn the_bank_starts_with_the_full_stock() {
    let g = game(2, 1500);
    assert_eq!(g.houses_left, TOTAL_HOUSES);
    assert_eq!(g.hotels_left, TOTAL_HOTELS);
}

#[test]
fn building_draws_houses_out_of_the_bank() {
    let mut g = brown_monopoly();
    g.build_house(MEDITERRANEAN);
    g.build_house(BALTIC);
    assert_eq!(g.houses_left, TOTAL_HOUSES - 2);
    assert_eq!(g.hotels_left, TOTAL_HOTELS);
}

#[test]
fn a_hotel_trades_four_houses_back_in() {
    let mut g = brown_monopoly();
    for _ in 0..HOTEL {
        g.build_house(MEDITERRANEAN);
        g.build_house(BALTIC);
    }
    assert_eq!(g.hotels_left, TOTAL_HOTELS - 2);
    assert_eq!(g.houses_left, TOTAL_HOUSES, "both groups of four came back");
}

#[test]
fn an_empty_house_stock_blocks_building() {
    let mut g = brown_monopoly();
    g.houses_left = 0;
    g.build_house(MEDITERRANEAN);
    assert_eq!(g.board[MEDITERRANEAN].houses(), 0);
    assert_eq!(g.players[0].money, 1500, "and costs nothing");
}

#[test]
fn an_empty_hotel_stock_blocks_the_fifth_house() {
    let mut g = brown_monopoly();
    g.hotels_left = 0;
    set_houses(&mut g, MEDITERRANEAN, 4);
    set_houses(&mut g, BALTIC, 4);
    g.build_house(MEDITERRANEAN);
    assert_eq!(g.board[MEDITERRANEAN].houses(), 4);
}

#[test]
fn selling_returns_houses_to_the_bank() {
    let mut g = brown_monopoly();
    g.build_house(MEDITERRANEAN);
    g.build_house(BALTIC);
    g.sell_house(0, MEDITERRANEAN);
    assert_eq!(g.houses_left, TOTAL_HOUSES - 1);
}

#[test]
fn breaking_a_hotel_takes_four_houses_back_out() {
    let mut g = brown_monopoly();
    set_houses(&mut g, MEDITERRANEAN, HOTEL);
    set_houses(&mut g, BALTIC, HOTEL);
    g.hotels_left = TOTAL_HOTELS - 2;
    g.sell_house(0, MEDITERRANEAN);
    assert_eq!(g.board[MEDITERRANEAN].houses(), 4);
    assert_eq!(g.houses_left, TOTAL_HOUSES - 4);
    assert_eq!(g.hotels_left, TOTAL_HOTELS - 1);
}

#[test]
fn a_hotel_cannot_be_broken_without_houses_to_break_it_into() {
    let mut g = brown_monopoly();
    set_houses(&mut g, MEDITERRANEAN, HOTEL);
    set_houses(&mut g, BALTIC, HOTEL);
    g.houses_left = 3;
    g.sell_house(0, MEDITERRANEAN);
    assert_eq!(g.board[MEDITERRANEAN].houses(), HOTEL, "the trade cannot be made");
    assert_eq!(g.houses_left, 3);
}

#[test]
fn a_bankrupt_estate_returns_its_buildings_to_the_bank() {
    let mut g = game(2, 1500);
    own_group(&mut g, ColorGroup::Brown, 0);
    g.build_house(MEDITERRANEAN);
    g.build_house(BALTIC);
    assert_eq!(g.houses_left, TOTAL_HOUSES - 2);
    g.bankrupt(0, None);
    assert_eq!(g.houses_left, TOTAL_HOUSES);
}

#[test]
fn a_house_sells_back_for_half() {
    let mut g = brown_monopoly();
    set_houses(&mut g, MEDITERRANEAN, 1);
    set_houses(&mut g, BALTIC, 1);
    g.sell_house(0, MEDITERRANEAN);
    assert_eq!(g.board[MEDITERRANEAN].houses(), 0);
    assert_eq!(g.players[0].money, 1525);
}

#[test]
fn selling_must_stay_even_across_the_group() {
    let mut g = brown_monopoly();
    set_houses(&mut g, MEDITERRANEAN, 1);
    set_houses(&mut g, BALTIC, 2);
    g.sell_house(0, MEDITERRANEAN);
    assert_eq!(g.board[MEDITERRANEAN].houses(), 1, "sell off the taller street first");
}

#[test]
fn selling_from_a_bare_street_is_refused() {
    let mut g = brown_monopoly();
    g.sell_house(0, MEDITERRANEAN);
    assert_eq!(g.players[0].money, 1500);
}

#[test]
fn a_mortgage_pays_half_the_printed_price() {
    let mut g = game(2, 1500);
    own(&mut g, MEDITERRANEAN, 0);
    g.mortgage(0, MEDITERRANEAN);
    assert!(g.board[MEDITERRANEAN].is_mortgaged());
    assert_eq!(g.players[0].money, 1530);
}

#[test]
fn lifting_a_mortgage_costs_the_value_plus_ten_percent() {
    let mut g = game(2, 1500);
    own(&mut g, MEDITERRANEAN, 0);
    g.mortgage(0, MEDITERRANEAN);
    g.unmortgage(0, MEDITERRANEAN);
    assert!(!g.board[MEDITERRANEAN].is_mortgaged());
    assert_eq!(g.players[0].money, 1497, "1500 + 30 - 33");
}

#[test]
fn lifting_is_refused_without_the_cash() {
    let mut g = game(2, 1500);
    own(&mut g, MEDITERRANEAN, 0);
    g.board[MEDITERRANEAN].set_mortgaged(true);
    g.players[0].money = 10;
    g.unmortgage(0, MEDITERRANEAN);
    assert!(g.board[MEDITERRANEAN].is_mortgaged());
    assert_eq!(g.players[0].money, 10);
}

#[test]
fn mortgaging_is_blocked_while_the_group_holds_buildings() {
    let mut g = brown_monopoly();
    set_houses(&mut g, BALTIC, 1);
    g.mortgage(0, MEDITERRANEAN);
    assert!(!g.board[MEDITERRANEAN].is_mortgaged(), "sell the group's houses first");
}

#[test]
fn railroads_mortgage_freely() {
    let mut g = game(2, 1500);
    own(&mut g, READING_RR, 0);
    g.mortgage(0, READING_RR);
    assert!(g.board[READING_RR].is_mortgaged());
    assert_eq!(g.players[0].money, 1600);
}

#[test]
fn mortgaging_twice_is_refused() {
    let mut g = game(2, 1500);
    own(&mut g, MEDITERRANEAN, 0);
    g.mortgage(0, MEDITERRANEAN);
    g.mortgage(0, MEDITERRANEAN);
    assert_eq!(g.players[0].money, 1530, "paid out once");
}

#[test]
fn the_mortgage_list_needs_something_to_list() {
    let mut g = game(2, 1500);
    g.open_mortgages();
    assert!(matches!(g.modal, Modal::Clear));

    own(&mut g, MEDITERRANEAN, 0);
    g.open_mortgages();
    assert!(matches!(g.modal, Modal::Estate(_)));
}

#[test]
fn the_estate_popup_closes_on_escape() {
    let mut g = brown_monopoly();
    g.open_build();
    assert!(matches!(g.modal, Modal::Estate(_)));
    g.handle_key(Key::Esc);
    assert!(matches!(g.modal, Modal::Clear));
}

#[test]
fn the_build_popup_buys_and_sells_through_the_cursor() {
    let mut g = brown_monopoly();
    g.open_build();
    g.handle_key(Key::Enter); // build on Mediterranean
    assert_eq!(g.board[MEDITERRANEAN].houses(), 1);
    g.handle_key(Key::Char('s'));
    assert_eq!(g.board[MEDITERRANEAN].houses(), 0);
}
