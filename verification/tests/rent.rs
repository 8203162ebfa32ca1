use monopoly::game::rent::RentRule;
use monopoly::game::Game;
use monopoly::player::{Piece, Player};
use monopoly::space::{ColorGroup, Space, HOTEL};

/// A game of `count` players holding `cash` each, with player 0 to move.
fn game(count: usize, cash: u32) -> Game {
    let players: Vec<Player> = Piece::all().into_iter().take(count).map(|p| Player::new(p, cash)).collect();
    let mut g = Game::new(players);
    g.current = 0;
    g.doubles = 0;
    g.can_roll = true;
    g.has_rolled = false;
    g
}

/// Hand `idx` to player `who`.
#[allow(dead_code)]
fn own(g: &mut Game, idx: usize, who: usize) {
    g.board[idx].set_owner(Some(who));
}

/// Hand every street in `group` to player `who`.
#[allow(dead_code)]
fn own_group(g: &mut Game, group: ColorGroup, who: usize) {
    for space in &mut g.board {
        if matches!(space, Space::Property(p) if p.group == group) {
            space.set_owner(Some(who));
        }
    }
}

/// Put `houses` on `idx` directly, bypassing the build rules and their cost.
#[allow(dead_code)]
fn set_houses(g: &mut Game, idx: usize, houses: u8) {
    if let Space::Property(p) = &mut g.board[idx] {
        p.houses = houses;
    }
}

/// Drop player `who` on `idx` without moving them through the board.
#[allow(dead_code)]
fn place(g: &mut Game, who: usize, idx: usize) {
    g.players[who].position = idx;
}

// Board indices used by the tests, by name.
#[allow(dead_code)]
const MEDITERRANEAN: usize = 1;
#[allow(dead_code)]
const BALTIC: usize = 3;
#[allow(dead_code)]
const INCOME_TAX: usize = 4;
#[allow(dead_code)]
const READING_RR: usize = 5;
#[allow(dead_code)]
const ORIENTAL: usize = 6;
#[allow(dead_code)]
const CHANCE_LOW: usize = 7;
#[allow(dead_code)]
const JAIL: usize = 10;
#[allow(dead_code)]
const ELECTRIC_CO: usize = 12;
#[allow(dead_code)]
const PENNSYLVANIA_RR: usize = 15;
#[allow(dead_code)]
const FREE_PARKING: usize = 20;
#[allow(dead_code)]
const ILLINOIS: usize = 24;
#[allow(dead_code)]
const B_AND_O_RR: usize = 25;
#[allow(dead_code)]
const WATER_WORKS: usize = 28;
#[allow(dead_code)]
const GO_TO_JAIL: usize = 30;
#[allow(dead_code)]
const SHORT_LINE: usize = 35;
#[allow(dead_code)]
const LUXURY_TAX: usize = 38;
#[allow(dead_code)]
const BOARDWALK: usize = 39;


#[test]
fn rent_is_the_printed_base_for_a_lone_street() {
    let mut g = game(2, 1500);
    own(&mut g, MEDITERRANEAN, 1);
    assert_eq!(g.rent(MEDITERRANEAN, 1, 7, RentRule::Normal), 2);
}

#[test]
fn a_full_group_doubles_undeveloped_rent() {
    let mut g = game(2, 1500);
    own_group(&mut g, ColorGroup::Brown, 1);
    assert_eq!(g.rent(MEDITERRANEAN, 1, 7, RentRule::Normal), 4);
}

#[test]
fn houses_replace_the_doubled_group_rent() {
    let mut g = game(2, 1500);
    own_group(&mut g, ColorGroup::Brown, 1);
    set_houses(&mut g, MEDITERRANEAN, 1);
    assert_eq!(g.rent(MEDITERRANEAN, 1, 7, RentRule::Normal), 10, "the table takes over");
}

#[test]
fn a_hotel_charges_the_top_of_the_table() {
    let mut g = game(2, 1500);
    own_group(&mut g, ColorGroup::Brown, 1);
    set_houses(&mut g, MEDITERRANEAN, HOTEL);
    assert_eq!(g.rent(MEDITERRANEAN, 1, 7, RentRule::Normal), 250);
}

#[test]
fn railroad_rent_scales_with_the_number_held() {
    let mut g = game(2, 1500);
    own(&mut g, READING_RR, 1);
    assert_eq!(g.rent(READING_RR, 1, 7, RentRule::Normal), 25);
    own(&mut g, PENNSYLVANIA_RR, 1);
    assert_eq!(g.rent(READING_RR, 1, 7, RentRule::Normal), 50);
    own(&mut g, B_AND_O_RR, 1);
    own(&mut g, SHORT_LINE, 1);
    assert_eq!(g.rent(READING_RR, 1, 7, RentRule::Normal), 100);
}

#[test]
fn the_railroad_card_doubles_whatever_the_rate_is() {
    let mut g = game(2, 1500);
    own(&mut g, READING_RR, 1);
    own(&mut g, PENNSYLVANIA_RR, 1);
    assert_eq!(g.rent(READING_RR, 1, 7, RentRule::DoubleRailroad), 100);
}

#[test]
fn utility_rent_is_four_or_ten_times_the_roll() {
    let mut g = game(2, 1500);
    own(&mut g, ELECTRIC_CO, 1);
    assert_eq!(g.rent(ELECTRIC_CO, 1, 9, RentRule::Normal), 36);
    own(&mut g, WATER_WORKS, 1);
    assert_eq!(g.rent(ELECTRIC_CO, 1, 9, RentRule::Normal), 90);
}

#[test]
fn the_utility_card_bills_its_own_throw() {
    let mut g = game(2, 1500);
    own(&mut g, ELECTRIC_CO, 1);
    assert_eq!(g.rent(ELECTRIC_CO, 1, 9, RentRule::TenTimesUtility(4)), 40);
}

#[test]
fn a_mortgaged_space_collects_nothing() {
    let mut g = game(2, 1500);
    for idx in [BOARDWALK, READING_RR, ELECTRIC_CO] {
        own(&mut g, idx, 1);
        g.board[idx].set_mortgaged(true);
        assert_eq!(g.rent(idx, 1, 7, RentRule::Normal), 0);
    }
}

#[test]
fn a_mortgaged_space_collects_nothing_under_the_cards_either() {
    let mut g = game(2, 1500);
    own(&mut g, READING_RR, 1);
    g.board[READING_RR].set_mortgaged(true);
    assert_eq!(g.rent(READING_RR, 1, 7, RentRule::DoubleRailroad), 0);
    own(&mut g, ELECTRIC_CO, 1);
    g.board[ELECTRIC_CO].set_mortgaged(true);
    assert_eq!(g.rent(ELECTRIC_CO, 1, 7, RentRule::TenTimesUtility(9)), 0);
}

#[test]
fn a_full_group_is_only_a_monopoly_when_every_street_is_held() {
    let mut g = game(2, 1500);
    own(&mut g, MEDITERRANEAN, 0);
    assert!(!g.owns_full_group(0, ColorGroup::Brown));
    own(&mut g, BALTIC, 0);
    assert!(g.owns_full_group(0, ColorGroup::Brown));
}
