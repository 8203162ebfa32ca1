use monopoly::game::{Game, Modal};
use monopoly::player::{Piece, Player};
use monopoly::space::{ColorGroup, Space};
use monopoly::ui::Key;

/// A game of `count` players holding `cash` each, with player 0 to move.
fn game(count: usize, cash: u32) -> Game {
    let players: Vec<Player> = Piece::all().into_iter().take(count).map(|p| Player::new(p, cash)).collect();
    let mut g = Game::new(players);
    g.current = 0;
    g.doubles = 0;
    g.can_roll = true;
    g.has_rolled = false;
    g
}

/// Hand `idx` to player `who`.
#[allow(dead_code)]
fn own(g: &mut Game, idx: usize, who: usize) {
    g.board[idx].set_owner(Some(who));
}

/// Hand every street in `group` to player `who`.
#[allow(dead_code)]
fn own_group(g: &mut Game, group: ColorGroup, who: usize) {
    for space in &mut g.board {
        if matches!(space, Space::Property(p) if p.group == group) {
            space.set_owner(Some(who));
        }
    }
}

/// Put `houses` on `idx` directly, bypassing the build rules and their cost.
#[allow(dead_code)]
fn set_houses(g: &mut Game, idx: usize, houses: u8) {
    if let Space::Property(p) = &mut g.board[idx] {
        p.houses = houses;
    }
}

/// Drop player `who` on `idx` without moving them through the board.
#[allow(dead_code)]
fn place(g: &mut Game, who: usize, idx: usize) {
    g.players[who].position = idx;
}

// Board indices used by the tests, by name.
#[allow(dead_code)]
const MEDITERRANEAN: usize = 1;
#[allow(dead_code)]
const BALTIC: usize = 3;
#[allow(dead_code)]
const INCOME_TAX: usize = 4;
#[allow(dead_code)]
const READING_RR: usize = 5;
#[allow(dead_code)]
const ORIENTAL: usize = 6;
#[allow(dead_code)]
const CHANCE_LOW: usize = 7;
#[allow(dead_code)]
const JAIL: usize = 10;
#[allow(dead_code)]
const ELECTRIC_CO: usize = 12;
#[allow(dead_code)]
const PENNSYLVANIA_RR: usize = 15;
#[allow(dead_code)]
const FREE_PARKING: usize = 20;
#[allow(dead_code)]
const ILLINOIS: usize = 24;
#[allow(dead_code)]
const B_AND_O_RR: usize = 25;
#[allow(dead_code)]
const WATER_WORKS: usize = 28;
#[allow(dead_code)]
const GO_TO_JAIL: usize = 30;
#[allow(dead_code)]
const SHORT_LINE: usize = 35;
#[allow(dead_code)]
const LUXURY_TAX: usize = 38;
#[allow(dead_code)]
const BOARDWALK: usize = 39;

fn jailed(cash: u32) -> Game {
    let mut g = game(2, cash);
    g.send_to_jail();
    g
}

#[test]
fn being_jailed_parks_you_on_the_jail_square() {
    let mut g = game(2, 1500);
    g.doubles = 2;
    place(&mut g, 0, 25);
    g.send_to_jail();
    assert!(g.players[0].in_jail);
    assert_eq!(g.players[0].position, JAIL);
    assert_eq!(g.players[0].jail_turns, 0);
    assert_eq!(g.doubles, 0, "the doubles streak is broken");
    assert_eq!(g.players[0].money, 1500, "no salary on the way");
}

#[test]
fn rolling_while_jailed_opens_the_choices_instead() {
    let mut g = jailed(1500);
    g.start_roll();
    assert!(matches!(g.modal, Modal::Jail(_)));
}

#[test]
fn the_menu_offers_only_what_is_available() {
    let mut g = jailed(1500);
    g.open_jail();
    let Modal::Jail(menu) = &g.modal else { panic!("expected the jail menu") };
    assert_eq!(menu.labels(), vec!["Pay $50 bail", "Roll for doubles"]);

    let mut g = jailed(10);
    g.players[0].get_out_free = 1;
    g.open_jail();
    let Modal::Jail(menu) = &g.modal else { panic!("expected the jail menu") };
    assert_eq!(
        menu.labels(),
        vec!["Roll for doubles", "Use Get Out of Jail Free"],
        "bail is hidden when it is unaffordable"
    );
}

#[test]
fn paying_bail_frees_you_and_rolls() {
    let mut g = jailed(1500);
    g.open_jail();
    g.handle_key(Key::Enter); // "Pay $50 bail" is first
    assert!(!g.players[0].in_jail);
    assert_eq!(g.players[0].money, 1450);
    assert!(matches!(g.modal, Modal::Roll(_)));
}

#[test]
fn a_card_frees_you_without_paying() {
    let mut g = jailed(1500);
    g.players[0].get_out_free = 1;
    g.open_jail();
    g.handle_key(Key::Down);
    g.handle_key(Key::Down); // Pay, Roll, Card
    g.handle_key(Key::Enter);
    assert!(!g.players[0].in_jail);
    assert_eq!(g.players[0].money, 1500);
    assert_eq!(g.players[0].get_out_free, 0);
}

#[test]
fn doubles_escape_and_move_you() {
    let mut g = jailed(1500);
    g.apply_roll(3, 3);
    assert!(!g.players[0].in_jail);
    assert_eq!(g.players[0].position, JAIL + 6);
    assert!(!g.can_roll, "leaving jail never grants a bonus roll");
    assert_eq!(g.doubles, 0);
}

#[test]
fn a_failed_attempt_keeps_you_in_and_is_counted() {
    let mut g = jailed(1500);
    g.apply_roll(2, 5);
    assert!(g.players[0].in_jail);
    assert_eq!(g.players[0].jail_turns, 1);
    assert_eq!(g.players[0].position, JAIL);
    assert!(!g.can_roll);
}

#[test]
fn the_third_failure_forces_the_bail_and_the_move() {
    let mut g = jailed(1500);
    g.apply_roll(2, 5);
    g.apply_roll(2, 5);
    g.apply_roll(2, 5);
    assert!(!g.players[0].in_jail);
    assert_eq!(g.players[0].money, 1450);
    assert_eq!(g.players[0].position, JAIL + 7);
    assert_eq!(g.players[0].jail_turns, 0);
}

#[test]
fn a_jailed_player_still_collects_rent() {
    let mut g = game(2, 1500);
    own(&mut g, BOARDWALK, 1);
    g.current = 1;
    g.send_to_jail();
    g.current = 0;
    place(&mut g, 0, BOARDWALK - 5);
    g.apply_roll(2, 3);
    assert_eq!(g.players[1].money, 1550, "jail does not suspend rent");
}

#[test]
fn escaping_leaves_the_menu_closed() {
    let mut g = jailed(1500);
    g.open_jail();
    g.handle_key(Key::Esc);
    assert!(matches!(g.modal, Modal::Clear));
    assert!(g.players[0].in_jail);
}

#[test]
fn a_third_failed_try_without_the_bail_opens_liquidation() {
    let mut g = game(2, 1500);
    own(&mut g, MEDITERRANEAN, 0);
    own(&mut g, BALTIC, 0); // $10 cash + $60 in mortgages covers the $50 bail
    place(&mut g, 0, JAIL);
    g.players[0].in_jail = true;
    g.players[0].jail_turns = 2;
    g.players[0].money = 10;
    g.apply_roll(1, 2);
    assert!(!g.players[0].in_jail, "out of jail, owing the bail");
    match &g.modal {
        Modal::Debt(d) => {
            assert_eq!(d.who, 0);
            assert_eq!(d.amount, 50);
            assert_eq!(d.then_advance, Some(3));
        }
        _ => panic!("expected the liquidation list"),
    }
    assert_eq!(g.players[0].position, JAIL, "the move waits for the bail");
}

#[test]
fn a_third_failed_try_with_nothing_to_sell_bankrupts() {
    let mut g = game(3, 1500);
    place(&mut g, 0, JAIL);
    g.players[0].in_jail = true;
    g.players[0].jail_turns = 2;
    g.players[0].money = 10;
    g.apply_roll(1, 2);
    assert!(g.players[0].bankrupt);
}
