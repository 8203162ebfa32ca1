use monopoly::game::trade::{Item, Stage, CARD_VALUE, STEP};
use monopoly::game::{Game, Modal};
use monopoly::player::{Piece, Player};
use monopoly::space::{ColorGroup, Space};
use monopoly::ui::Key;

/// A game of `count` players holding `cash` each, with player 0 to move.
fn game(count: usize, cash: u32) -> Game {
    let players: Vec<Player> = Piece::all().into_iter().take(count).map(|p| Player::new(p, cash)).collect();
    let mut g = Game::new(players);
    g.current = 0;
    g.doubles = 0;
    g.can_roll = true;
    g.has_rolled = false;
    g
}

/// Hand `idx` to player `who`.
#[allow(dead_code)]
fn own(g: &mut Game, idx: usize, who: usize) {
    g.board[idx].set_owner(Some(who));
}

/// Hand every street in `group` to player `who`.
#[allow(dead_code)]
fn own_group(g: &mut Game, group: ColorGroup, who: usize) {
    for space in &mut g.board {
        if matches!(space, Space::Property(p) if p.group == group) {
            space.set_owner(Some(who));
        }
    }
}

/// Put `houses` on `idx` directly, bypassing the build rules and their cost.
#[allow(dead_code)]
fn set_houses(g: &mut Game, idx: usize, houses: u8) {
    if let Space::Property(p) = &mut g.board[idx] {
        p.houses = houses;
    }
}

/// Drop player `who` on `idx` without moving them through the board.
#[allow(dead_code)]
fn place(g: &mut Game, who: usize, idx: usize) {
    g.players[who].position = idx;
}

// Board indices used by the tests, by name.
#[allow(dead_code)]
const MEDITERRANEAN: usize = 1;
#[allow(dead_code)]
const BALTIC: usize = 3;
#[allow(dead_code)]
const INCOME_TAX: usize = 4;
#[allow(dead_code)]
const READING_RR: usize = 5;
#[allow(dead_code)]
const ORIENTAL: usize = 6;
#[allow(dead_code)]
const CHANCE_LOW: usize = 7;
#[allow(dead_code)]
const JAIL: usize = 10;
#[allow(dead_code)]
const ELECTRIC_CO: usize = 12;
#[allow(dead_code)]
const PENNSYLVANIA_RR: usize = 15;
#[allow(dead_code)]
const FREE_PARKING: usize = 20;
#[allow(dead_code)]
const ILLINOIS: usize = 24;
#[allow(dead_code)]
const B_AND_O_RR: usize = 25;
#[allow(dead_code)]
const WATER_WORKS: usize = 28;
#[allow(dead_code)]
const GO_TO_JAIL: usize = 30;
#[allow(dead_code)]
const SHORT_LINE: usize = 35;
#[allow(dead_code)]
const LUXURY_TAX: usize = 38;
#[allow(dead_code)]
const BOARDWALK: usize = 39;

/// Walk the builder to the price stage for the only tradeable property.
fn to_price_stage(g: &mut Game) {
    g.open_trade();
    g.handle_key(Key::Enter); // pick the partner
    g.handle_key(Key::Enter); // pick the property
}

#[test]
fn trading_needs_a_partner() {
    let mut g = game(2, 1500);
    g.players[1].bankrupt = true;
    g.open_trade();
    assert!(matches!(g.modal, Modal::Clear));
}

#[test]
fn trading_needs_something_to_trade() {
    let mut g = game(2, 1500);
    g.open_trade();
    g.handle_key(Key::Enter);
    assert!(matches!(g.modal, Modal::Clear), "neither side owns anything");
}

#[test]
fn the_price_defaults_to_the_printed_value() {
    let mut g = game(2, 1500);
    own(&mut g, BOARDWALK, 1);
    to_price_stage(&mut g);
    let Modal::Trade(t) = &g.modal else { panic!("expected the trade builder") };
    assert_eq!(t.price, 400);
}

#[test]
fn the_price_adjusts_in_steps_and_never_goes_negative() {
    let mut g = game(2, 1500);
    own(&mut g, MEDITERRANEAN, 1);
    to_price_stage(&mut g);
    g.handle_key(Key::Right);
    let Modal::Trade(t) = &g.modal else { panic!("expected the trade builder") };
    assert_eq!(t.price, 60 + STEP);

    for _ in 0..20 {
        g.handle_key(Key::Left);
    }
    let Modal::Trade(t) = &g.modal else { panic!("expected the trade builder") };
    assert_eq!(t.price, 0);
}

#[test]
fn buying_from_a_partner_moves_the_deed_and_the_cash() {
    let mut g = game(2, 1500);
    own(&mut g, BOARDWALK, 1);
    to_price_stage(&mut g);
    g.handle_key(Key::Enter);
    assert!(matches!(g.modal, Modal::Clear));
    assert_eq!(g.board[BOARDWALK].owner(), Some(0));
    assert_eq!(g.players[0].money, 1100);
    assert_eq!(g.players[1].money, 1900);
}

#[test]
fn selling_to_a_partner_moves_the_cash_the_other_way() {
    let mut g = game(2, 1500);
    own(&mut g, BOARDWALK, 0);
    to_price_stage(&mut g);
    g.handle_key(Key::Enter);
    assert_eq!(g.board[BOARDWALK].owner(), Some(1));
    assert_eq!(g.players[0].money, 1900);
    assert_eq!(g.players[1].money, 1100);
}

#[test]
fn a_buyer_who_cannot_pay_keeps_the_builder_open() {
    let mut g = game(2, 1500);
    g.players[0].money = 10;
    own(&mut g, BOARDWALK, 1);
    to_price_stage(&mut g);
    g.handle_key(Key::Enter);
    assert!(matches!(g.modal, Modal::Trade(_)), "so the price can be lowered");
    assert_eq!(g.board[BOARDWALK].owner(), Some(1));
}

#[test]
fn a_built_up_street_cannot_change_hands() {
    let mut g = game(2, 1500);
    own(&mut g, BOARDWALK, 1);
    set_houses(&mut g, BOARDWALK, 1);
    to_price_stage(&mut g);
    g.handle_key(Key::Enter);
    assert!(matches!(g.modal, Modal::Trade(_)));
    assert_eq!(g.board[BOARDWALK].owner(), Some(1), "sell the houses first");
}

#[test]
fn escape_steps_back_through_the_stages() {
    let mut g = game(2, 1500);
    own(&mut g, BOARDWALK, 1);
    to_price_stage(&mut g);
    g.handle_key(Key::Esc);
    let Modal::Trade(t) = &g.modal else { panic!("expected the trade builder") };
    assert_eq!(t.stage, Stage::Item);

    g.handle_key(Key::Esc);
    let Modal::Trade(t) = &g.modal else { panic!("expected the trade builder") };
    assert_eq!(t.stage, Stage::Partner);

    g.handle_key(Key::Esc);
    assert!(matches!(g.modal, Modal::Clear));
}

#[test]
fn a_jail_card_can_be_put_up_for_trade() {
    let mut g = game(2, 1500);
    g.players[1].get_out_free = 1;
    assert_eq!(g.tradeable(0, 1), vec![Item::JailCard(1)]);
}

#[test]
fn a_jail_card_opens_at_the_price_of_bail() {
    let mut g = game(2, 1500);
    g.players[1].get_out_free = 1;
    to_price_stage(&mut g);
    let Modal::Trade(t) = &g.modal else { panic!("expected the trade builder") };
    assert_eq!(t.price, CARD_VALUE);
}

#[test]
fn buying_a_jail_card_moves_it_and_the_cash() {
    let mut g = game(2, 1500);
    g.players[1].get_out_free = 1;
    to_price_stage(&mut g);
    g.handle_key(Key::Enter);
    assert_eq!(g.players[0].get_out_free, 1);
    assert_eq!(g.players[1].get_out_free, 0);
    assert_eq!(g.players[0].money, 1450);
    assert_eq!(g.players[1].money, 1550);
}

#[test]
fn selling_your_own_jail_card_moves_the_cash_the_other_way() {
    let mut g = game(2, 1500);
    g.players[0].get_out_free = 1;
    to_price_stage(&mut g);
    g.handle_key(Key::Enter);
    assert_eq!(g.players[0].get_out_free, 0);
    assert_eq!(g.players[1].get_out_free, 1);
    assert_eq!(g.players[0].money, 1550);
}

#[test]
fn only_held_jail_cards_are_offered() {
    let g = game(2, 1500);
    assert!(g.tradeable(0, 1).is_empty(), "nobody holds one");
}

#[test]
fn a_trade_is_blocked_when_the_group_still_has_houses() {
    let mut g = game(2, 1500);
    own_group(&mut g, ColorGroup::Brown, 1);
    set_houses(&mut g, BALTIC, 1);
    to_price_stage(&mut g); // Mediterranean is the first item, and is bare
    g.handle_key(Key::Enter);
    assert!(matches!(g.modal, Modal::Trade(_)));
    assert_eq!(g.board[MEDITERRANEAN].owner(), Some(1), "the group is developed");
}

#[test]
fn both_sides_holdings_are_on_the_table() {
    let mut g = game(2, 1500);
    own(&mut g, MEDITERRANEAN, 0);
    own(&mut g, BOARDWALK, 1);
    own(&mut g, ORIENTAL, 1);
    let deeds: Vec<usize> = g
        .tradeable(0, 1)
        .into_iter()
        .filter_map(|item| match item {
            Item::Deed(idx) => Some(idx),
            Item::JailCard(_) => None,
        })
        .collect();
    assert_eq!(deeds, vec![MEDITERRANEAN, ORIENTAL, BOARDWALK]);
}
