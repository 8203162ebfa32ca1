use monopoly::game::debt::Payee;
use monopoly::game::{Game, Modal, Pending};
use monopoly::player::{Piece, Player};
use monopoly::space::{ColorGroup, Space};
use monopoly::ui::Key;

/// A game of `count` players holding `cash` each, with player 0 to move.
fn game(count: usize, cash: u32) -> Game {
    let players: Vec<Player> = Piece::all().into_iter().take(count).map(|p| Player::new(p, cash)).collect();
    let mut g = Game::new(players);
    g.current = 0;
    g.doubles = 0;
    g.can_roll = true;
    g.has_rolled = false;
    g
}

/// Hand `idx` to player `who`.
#[allow(dead_code)]
fn own(g: &mut Game, idx: usize, who: usize) {
    g.board[idx].set_owner(Some(who));
}

/// Hand every street in `group` to player `who`.
#[allow(dead_code)]
fn own_group(g: &mut Game, group: ColorGroup, who: usize) {
    for space in &mut g.board {
        if matches!(space, Space::Property(p) if p.group == group) {
            space.set_owner(Some(who));
        }
    }
}

/// Put `houses` on `idx` directly, bypassing the build rules and their cost.
#[allow(dead_code)]
fn set_houses(g: &mut Game, idx: usize, houses: u8) {
    if let Space::Property(p) = &mut g.board[idx] {
        p.houses = houses;
    }
}

/// Drop player `who` on `idx` without moving them through the board.
#[allow(dead_code)]
fn place(g: &mut Game, who: usize, idx: usize) {
    g.players[who].position = idx;
}

// Board indices used by the tests, by name.
#[allow(dead_code)]
const MEDITERRANEAN: usize = 1;
#[allow(dead_code)]
const BALTIC: usize = 3;
#[allow(dead_code)]
const INCOME_TAX: usize = 4;
#[allow(dead_code)]
const READING_RR: usize = 5;
#[allow(dead_code)]
const ORIENTAL: usize = 6;
#[allow(dead_code)]
const CHANCE_LOW: usize = 7;
#[allow(dead_code)]
const JAIL: usize = 10;
#[allow(dead_code)]
const ELECTRIC_CO: usize = 12;
#[allow(dead_code)]
const PENNSYLVANIA_RR: usize = 15;
#[allow(dead_code)]
const FREE_PARKING: usize = 20;
#[allow(dead_code)]
const ILLINOIS: usize = 24;
#[allow(dead_code)]
const B_AND_O_RR: usize = 25;
#[allow(dead_code)]
const WATER_WORKS: usize = 28;
#[allow(dead_code)]
const GO_TO_JAIL: usize = 30;
#[allow(dead_code)]
const SHORT_LINE: usize = 35;
#[allow(dead_code)]
const LUXURY_TAX: usize = 38;
#[allow(dead_code)]
const BOARDWALK: usize = 39;

/// Player 0 holds $10 and the two brown streets ($30 of mortgage value
/// each), then lands on player 1's Boardwalk for $50 of rent.
fn short_on_rent() -> Game {
    let mut g = game(2, 1500);
    g.players[0].money = 10;
    g.players[1].money = 0;
    own(&mut g, BOARDWALK, 1);
    own(&mut g, MEDITERRANEAN, 0);
    own(&mut g, BALTIC, 0);
    place(&mut g, 0, BOARDWALK - 5);
    g.apply_roll(2, 3);
    g
}

#[test]
fn affordable_debts_are_paid_outright() {
    let mut g = game(2, 1500);
    g.charge(0, 200, Payee::Player(1));
    assert!(matches!(g.modal, Modal::Clear), "no popup when the cash is there");
    assert_eq!(g.players[0].money, 1300);
    assert_eq!(g.players[1].money, 1700);
}

#[test]
fn a_zero_debt_is_a_no_op() {
    let mut g = game(2, 1500);
    g.charge(0, 0, Payee::Bank);
    assert_eq!(g.players[0].money, 1500);
    assert!(matches!(g.modal, Modal::Clear));
}

#[test]
fn a_split_debt_is_divided_evenly() {
    let mut g = game(3, 1500);
    g.charge(0, 100, Payee::Split(vec![1, 2]));
    assert_eq!(g.players[0].money, 1400);
    assert_eq!(g.players[1].money, 1550);
    assert_eq!(g.players[2].money, 1550);
}

#[test]
fn a_split_remainder_goes_a_dollar_each_to_the_first_listed() {
    let mut g = game(3, 1500);
    g.charge(0, 25, Payee::Split(vec![1, 2]));
    assert_eq!(g.players[0].money, 1475);
    assert_eq!(g.players[1].money, 1513);
    assert_eq!(g.players[2].money, 1512);
}

#[test]
fn an_unaffordable_debt_opens_liquidation() {
    let g = short_on_rent();
    assert!(matches!(g.modal, Modal::Debt(_)), "should offer liquidation");
    assert!(!g.players[0].bankrupt);
    assert_eq!(g.players[0].money, 10, "nothing is paid until the debt clears");
    assert_eq!(g.players[1].money, 0);
}

#[test]
fn mortgaging_enough_settles_the_debt() {
    let mut g = short_on_rent();
    g.handle_key(Key::Enter); // mortgage Mediterranean (+$30)
    assert!(matches!(g.modal, Modal::Debt(_)), "still $10 short of $50");
    g.handle_key(Key::Down);
    g.handle_key(Key::Enter); // mortgage Baltic (+$30)

    assert!(!matches!(g.modal, Modal::Debt(_)), "debt cleared");
    assert_eq!(g.players[0].money, 20, "10 + 30 + 30 - 50");
    assert_eq!(g.players[1].money, 50);
    assert!(!g.players[0].bankrupt);
}

#[test]
fn selling_houses_also_raises_the_cash() {
    let mut g = game(2, 1500);
    g.players[0].money = 0;
    g.players[1].money = 0;
    own_group(&mut g, ColorGroup::Brown, 0);
    set_houses(&mut g, MEDITERRANEAN, 1);
    set_houses(&mut g, BALTIC, 1);
    own(&mut g, BOARDWALK, 1);
    place(&mut g, 0, BOARDWALK - 5);
    g.apply_roll(2, 3);

    assert!(matches!(g.modal, Modal::Debt(_)));
    g.handle_key(Key::Char('s')); // sell a house off Mediterranean (+$25)
    g.handle_key(Key::Down);
    g.handle_key(Key::Char('s')); // sell a house off Baltic (+$25)
    assert_eq!(g.board[MEDITERRANEAN].houses(), 0);
    assert_eq!(g.players[0].money, 0, "50 raised, 50 paid");
    assert_eq!(g.players[1].money, 50);
}

#[test]
fn a_hopeless_debt_bankrupts_immediately() {
    let mut g = game(2, 1500);
    g.players[0].money = 10;
    g.players[1].money = 0;
    own(&mut g, BOARDWALK, 1);
    place(&mut g, 0, BOARDWALK - 5);
    g.apply_roll(2, 3);

    assert!(g.players[0].bankrupt, "no estate to sell");
    assert_eq!(g.players[1].money, 10, "the creditor takes the remaining cash");
}

#[test]
fn folding_hands_the_estate_to_the_creditor() {
    let mut g = short_on_rent();
    g.handle_key(Key::Char('b'));
    assert!(g.players[0].bankrupt);
    assert_eq!(g.board[MEDITERRANEAN].owner(), Some(1));
    assert_eq!(g.board[BALTIC].owner(), Some(1));
    assert_eq!(g.players[1].money, 10, "and the cash that was left");
}

#[test]
fn folding_on_a_bank_debt_returns_the_estate_to_the_bank() {
    let mut g = game(2, 1500);
    g.players[0].money = 10;
    own(&mut g, MEDITERRANEAN, 0);
    own(&mut g, BALTIC, 0);
    g.charge(0, 50, Payee::Bank);
    assert!(matches!(g.modal, Modal::Debt(_)));

    g.handle_key(Key::Char('b'));
    assert_eq!(g.board[MEDITERRANEAN].owner(), None);
    assert_eq!(g.board[BALTIC].owner(), None);
}

#[test]
fn a_debt_matching_net_worth_exactly_is_survivable() {
    let mut g = game(2, 1500);
    g.players[0].money = 10;
    own(&mut g, MEDITERRANEAN, 0);
    own(&mut g, BALTIC, 0);
    g.charge(0, 70, Payee::Bank); // exactly cash + both mortgage values
    assert!(matches!(g.modal, Modal::Debt(_)));

    g.handle_key(Key::Enter);
    g.handle_key(Key::Down);
    g.handle_key(Key::Enter);
    assert!(!g.players[0].bankrupt);
    assert_eq!(g.players[0].money, 0);
}

#[test]
fn a_debt_one_dollar_past_net_worth_is_fatal() {
    let mut g = game(2, 1500);
    g.players[0].money = 10;
    own(&mut g, MEDITERRANEAN, 0);
    own(&mut g, BALTIC, 0);
    g.charge(0, 71, Payee::Bank);
    assert!(g.players[0].bankrupt, "no popup when the estate cannot cover it");
}

#[test]
fn liquidation_has_no_escape_key() {
    let mut g = short_on_rent();
    g.handle_key(Key::Esc);
    assert!(matches!(g.modal, Modal::Debt(_)), "Esc must not dodge the debt");
}

#[test]
fn net_worth_counts_cash_mortgages_and_houses() {
    let mut g = game(2, 100);
    own_group(&mut g, ColorGroup::Brown, 0);
    set_houses(&mut g, MEDITERRANEAN, 2);
    // 100 cash + 30 + 30 mortgage value + 2 houses at half of $50.
    assert_eq!(g.net_worth(0), 210);

    g.board[BALTIC].set_mortgaged(true);
    assert_eq!(g.net_worth(0), 180, "an already-mortgaged deed raises nothing");
}

#[test]
fn a_deferred_move_runs_once_the_debt_clears() {
    let mut g = game(2, 1500);
    g.players[0].money = 10;
    own(&mut g, MEDITERRANEAN, 0);
    own(&mut g, BALTIC, 0);
    place(&mut g, 0, JAIL);
    g.charge_then(0, 50, Payee::Bank, Some(5));
    assert!(matches!(g.modal, Modal::Debt(_)));
    assert_eq!(g.players[0].position, JAIL, "held until the debt is settled");

    g.handle_key(Key::Enter);
    g.handle_key(Key::Down);
    g.handle_key(Key::Enter);
    assert_eq!(g.players[0].money, 20);
    assert_eq!(g.players[0].position, JAIL + 5, "then the move happens");
}

#[test]
fn a_bank_bankruptcy_auctions_the_deeds_in_board_order() {
    let mut g = game(3, 1500);
    own(&mut g, MEDITERRANEAN, 0);
    own(&mut g, BALTIC, 0);
    g.bankrupt(0, None);
    assert!(g.players[0].bankrupt);
    match &g.modal {
        Modal::Auction(a) => assert_eq!(a.pos, MEDITERRANEAN, "the first deed goes up at once"),
        _ => panic!("expected an auction"),
    }
    assert_eq!(g.pending.len(), 1, "the other deed waits its turn");
    assert!(matches!(g.pending[0], Pending::Auction(BALTIC)));
}

#[test]
fn a_queued_bill_beyond_cash_opens_liquidation() {
    let mut g = game(2, 1500);
    g.players[0].money = 10;
    own(&mut g, MEDITERRANEAN, 0);
    g.queue(Pending::Charge { who: 0, amount: 30, payee: Payee::Bank });
    g.queue(Pending::Auction(BALTIC));
    g.run_pending();
    match &g.modal {
        Modal::Debt(d) => {
            assert_eq!(d.who, 0);
            assert_eq!(d.amount, 30);
            assert_eq!(d.slots, vec![MEDITERRANEAN]);
        },
        _ => panic!("expected the liquidation list"),
    }
    assert_eq!(g.pending.len(), 1, "the lot behind the bill still waits");
    assert_eq!(g.players[0].money, 10, "nothing is paid until cash is raised");
}

#[test]
fn a_queued_bill_beyond_the_estate_bankrupts() {
    let mut g = game(3, 1500);
    g.players[0].money = 10;
    g.queue(Pending::Charge { who: 0, amount: 30, payee: Payee::Player(1) });
    g.run_pending();
    assert!(g.players[0].bankrupt);
    assert_eq!(g.players[1].money, 1510, "the creditor takes what cash there was");
}
