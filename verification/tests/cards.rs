use monopoly::game::cards::{chance_deck, chest_deck, fresh_decks, Card, CardEffect, Deck, CHANCE_TITLE};
use monopoly::game::rent::RentRule;
use monopoly::game::{Game, InfoBox, Modal, BOARD_LEN};
use monopoly::player::{Piece, Player};
use monopoly::space::{ColorGroup, Space, HOTEL};
use monopoly::ui::Key;

/// A game of `count` players holding `cash` each, with player 0 to move.
fn game(count: usize, cash: u32) -> Game {
    let players: Vec<Player> = Piece::all().into_iter().take(count).map(|p| Player::new(p, cash)).collect();
    let mut g = Game::new(players);
    g.current = 0;
    g.doubles = 0;
    g.can_roll = true;
    g.has_rolled = false;
    g
}

/// Hand `idx` to player `who`.
#[allow(dead_code)]
fn own(g: &mut Game, idx: usize, who: usize) {
    g.board[idx].set_owner(Some(who));
}

/// Hand every street in `group` to player `who`.
#[allow(dead_code)]
fn own_group(g: &mut Game, group: ColorGroup, who: usize) {
    for space in &mut g.board {
        if matches!(space, Space::Property(p) if p.group == group) {
            space.set_owner(Some(who));
        }
    }
}

/// Put `houses` on `idx` directly, bypassing the build rules and their cost.
#[allow(dead_code)]
fn set_houses(g: &mut Game, idx: usize, houses: u8) {
    if let Space::Property(p) = &mut g.board[idx] {
        p.houses = houses;
    }
}

/// Drop player `who` on `idx` without moving them through the board.
#[allow(dead_code)]
fn place(g: &mut Game, who: usize, idx: usize) {
    g.players[who].position = idx;
}

// Board indices used by the tests, by name.
#[allow(dead_code)]
const MEDITERRANEAN: usize = 1;
#[allow(dead_code)]
const BALTIC: usize = 3;
#[allow(dead_code)]
const INCOME_TAX: usize = 4;
#[allow(dead_code)]
const READING_RR: usize = 5;
#[allow(dead_code)]
const ORIENTAL: usize = 6;
#[allow(dead_code)]
const CHANCE_LOW: usize = 7;
#[allow(dead_code)]
const JAIL: usize = 10;
#[allow(dead_code)]
const ELECTRIC_CO: usize = 12;
#[allow(dead_code)]
const PENNSYLVANIA_RR: usize = 15;
#[allow(dead_code)]
const FREE_PARKING: usize = 20;
#[allow(dead_code)]
const ILLINOIS: usize = 24;
#[allow(dead_code)]
const B_AND_O_RR: usize = 25;
#[allow(dead_code)]
const WATER_WORKS: usize = 28;
#[allow(dead_code)]
const GO_TO_JAIL: usize = 30;
#[allow(dead_code)]
const SHORT_LINE: usize = 35;
#[allow(dead_code)]
const LUXURY_TAX: usize = 38;
#[allow(dead_code)]
const BOARDWALK: usize = 39;


#[test]
fn both_decks_are_dealt_and_shuffled_whole() {
    let (chance, chest) = fresh_decks();
    assert_eq!(chance.len(), chance_deck().len());
    assert_eq!(chest.len(), chest_deck().len());
}

#[test]
fn each_deck_holds_exactly_one_get_out_of_jail_free() {
    for deck in [chance_deck(), chest_deck()] {
        let count = deck.iter().filter(|c| matches!(c.effect, CardEffect::GetOutFree)).count();
        assert_eq!(count, 1);
    }
}

#[test]
fn chance_carries_the_full_sixteen() {
    assert_eq!(chance_deck().len(), 16);
}

#[test]
fn chance_has_two_nearest_railroad_cards_and_one_utility() {
    let deck = chance_deck();
    let count = |f: fn(&CardEffect) -> bool| deck.iter().filter(|c| f(&c.effect)).count();
    assert_eq!(count(|e| matches!(e, CardEffect::NearestRailroad)), 2);
    assert_eq!(count(|e| matches!(e, CardEffect::NearestUtility)), 1);
}

#[test]
fn every_advance_target_is_on_the_board() {
    for deck in [chance_deck(), chest_deck()] {
        for card in deck {
            if let CardEffect::AdvanceTo(dest) = card.effect {
                assert!(dest < BOARD_LEN, "{} points off the board", card.text);
            }
        }
    }
}

#[test]
fn drawing_recycles_the_card_to_the_bottom() {
    let mut g = game(2, 1500);
    let top = g.chance.front().expect("a full deck").text;
    let size = g.chance.len();
    g.draw_card(Deck::Chance);
    assert_eq!(g.chance.len(), size, "the deck never shrinks");
    assert_eq!(g.chance.back().expect("a full deck").text, top);
    assert!(matches!(g.modal, Modal::Card(_)));
}

#[test]
fn drawing_cycles_through_the_whole_deck_before_repeating() {
    let mut g = game(2, 1500);
    let size = g.chest.len();
    let first = g.chest.front().expect("a full deck").text;
    for _ in 0..size {
        g.draw_card(Deck::Chest);
    }
    assert_eq!(g.chest.front().expect("a full deck").text, first);
}

#[test]
fn collect_credits_the_bank() {
    let mut g = game(2, 1500);
    g.apply_card(CardEffect::Collect(150));
    assert_eq!(g.players[0].money, 1650);
}

#[test]
fn pay_debits_the_bank() {
    let mut g = game(2, 1500);
    g.apply_card(CardEffect::Pay(15));
    assert_eq!(g.players[0].money, 1485);
}

#[test]
fn collect_each_takes_from_every_rival() {
    let mut g = game(3, 1500);
    g.apply_card(CardEffect::CollectEach(50));
    assert_eq!(g.players[0].money, 1600);
    assert_eq!(g.players[1].money, 1450);
    assert_eq!(g.players[2].money, 1450);
}

#[test]
fn collect_each_skips_eliminated_players() {
    let mut g = game(3, 1500);
    g.players[2].bankrupt = true;
    g.apply_card(CardEffect::CollectEach(50));
    assert_eq!(g.players[0].money, 1550);
    assert_eq!(g.players[2].money, 1500);
}

#[test]
fn collect_each_makes_a_short_payer_liquidate() {
    let mut g = game(3, 1500);
    g.players[1].money = 10;
    own(&mut g, MEDITERRANEAN, 1);
    own(&mut g, BALTIC, 1);
    g.apply_card(CardEffect::CollectEach(50));

    assert!(matches!(g.modal, Modal::Debt(_)), "player 2 must raise the cash");
    assert!(!g.players[1].bankrupt);
    assert_eq!(g.players[2].money, 1500, "player 3 waits their turn in the queue");
}

#[test]
fn collect_each_resumes_after_the_liquidation_closes() {
    let mut g = game(3, 1500);
    g.players[1].money = 10;
    own(&mut g, MEDITERRANEAN, 1);
    own(&mut g, BALTIC, 1);
    g.apply_card(CardEffect::CollectEach(50));

    g.handle_key(Key::Enter); // mortgage Mediterranean
    g.handle_key(Key::Down);
    g.handle_key(Key::Enter); // mortgage Baltic, clearing the debt

    assert!(matches!(g.modal, Modal::Clear), "the queue drained");
    assert_eq!(g.players[1].money, 20, "10 + 30 + 30 - 50");
    assert_eq!(g.players[2].money, 1450, "and player 3 paid once the screen cleared");
    assert_eq!(g.players[0].money, 1600, "the drawer collected from both");
}

#[test]
fn pay_each_pays_every_rival() {
    let mut g = game(3, 1500);
    g.apply_card(CardEffect::PayEach(50));
    assert_eq!(g.players[0].money, 1400);
    assert_eq!(g.players[1].money, 1550);
    assert_eq!(g.players[2].money, 1550);
}

#[test]
fn pay_each_beyond_your_means_opens_liquidation() {
    let mut g = game(3, 1500);
    g.players[0].money = 10;
    own(&mut g, MEDITERRANEAN, 0);
    own(&mut g, BALTIC, 0);
    g.apply_card(CardEffect::PayEach(25));
    assert!(matches!(g.modal, Modal::Debt(_)));
    assert!(!g.players[0].bankrupt);
}

#[test]
fn advancing_forward_collects_go_on_the_way_round() {
    let mut g = game(2, 1500);
    place(&mut g, 0, GO_TO_JAIL);
    g.apply_card(CardEffect::AdvanceTo(0));
    assert_eq!(g.players[0].position, 0);
    assert_eq!(g.players[0].money, 1700);
}

#[test]
fn advancing_without_wrapping_pays_nothing() {
    let mut g = game(2, 1500);
    place(&mut g, 0, CHANCE_LOW);
    g.apply_card(CardEffect::AdvanceTo(ILLINOIS));
    assert_eq!(g.players[0].position, ILLINOIS);
    assert_eq!(g.players[0].money, 1500);
}

#[test]
fn advancing_onto_a_rival_property_charges_rent() {
    let mut g = game(2, 1500);
    own(&mut g, ILLINOIS, 1);
    place(&mut g, 0, CHANCE_LOW);
    g.apply_card(CardEffect::AdvanceTo(ILLINOIS));
    assert_eq!(g.players[0].money, 1480);
    assert_eq!(g.players[1].money, 1520);
}

#[test]
fn the_nearest_railroad_is_the_next_one_forward() {
    let mut g = game(2, 1500);
    place(&mut g, 0, CHANCE_LOW);
    g.apply_card(CardEffect::NearestRailroad);
    assert_eq!(g.players[0].position, PENNSYLVANIA_RR);
}

#[test]
fn the_nearest_railroad_wraps_past_go() {
    let mut g = game(2, 1500);
    place(&mut g, 0, 36); // the Chance between Short Line and Park Place
    g.apply_card(CardEffect::NearestRailroad);
    assert_eq!(g.players[0].position, READING_RR);
    assert_eq!(g.players[0].money, 1700, "and collects the salary on the way");
}

#[test]
fn the_nearest_railroad_charges_double_rent() {
    let mut g = game(2, 1500);
    own(&mut g, PENNSYLVANIA_RR, 1);
    place(&mut g, 0, CHANCE_LOW);
    g.apply_card(CardEffect::NearestRailroad);
    assert_eq!(g.players[0].money, 1450, "2 x the $25 one-railroad rate");
    assert_eq!(g.players[1].money, 1550);
}

#[test]
fn an_unowned_nearest_railroad_is_offered_for_sale() {
    let mut g = game(2, 1500);
    place(&mut g, 0, CHANCE_LOW);
    g.apply_card(CardEffect::NearestRailroad);
    assert!(matches!(g.modal, Modal::Buy { pos, .. } if pos == PENNSYLVANIA_RR));
}

#[test]
fn the_nearest_utility_is_the_next_one_forward() {
    let mut g = game(2, 1500);
    place(&mut g, 0, CHANCE_LOW);
    g.apply_card(CardEffect::NearestUtility);
    assert_eq!(g.players[0].position, ELECTRIC_CO);
}

#[test]
fn the_nearest_utility_charges_ten_times_a_fresh_roll() {
    let mut g = game(2, 1500);
    own(&mut g, ELECTRIC_CO, 1);
    place(&mut g, 0, CHANCE_LOW);
    g.apply_card(CardEffect::NearestUtility);

    // The throw is random, so pin the range: 10 x (2..=12), never the
    // 4x-the-distance rate a normal landing would have charged.
    let paid = 1500 - g.players[0].money;
    assert!((20..=120).contains(&paid), "paid {paid}");
    assert_eq!(paid % 10, 0);
    assert_eq!(g.players[1].money, 1500 + paid);
}

#[test]
fn a_single_utility_still_bills_ten_times_under_the_card() {
    let mut g = game(2, 1500);
    own(&mut g, ELECTRIC_CO, 1);
    // A normal landing with one utility owned would be 4x, not 10x.
    assert_eq!(g.rent(ELECTRIC_CO, 1, 6, RentRule::Normal), 24);
    assert_eq!(g.rent(ELECTRIC_CO, 1, 6, RentRule::TenTimesUtility(6)), 60);
}

#[test]
fn going_back_never_collects_go() {
    let mut g = game(2, 1500);
    place(&mut g, 0, 1);
    g.apply_card(CardEffect::Back(3));
    assert_eq!(g.players[0].position, LUXURY_TAX);
    assert_eq!(g.players[0].money, 1400, "the tax it landed on, and no GO salary");
}

#[test]
fn going_back_resolves_the_new_square() {
    let mut g = game(2, 1500);
    place(&mut g, 0, CHANCE_LOW);
    g.apply_card(CardEffect::Back(3));
    assert_eq!(g.players[0].position, INCOME_TAX);
    assert_eq!(g.players[0].money, 1300, "and pays the tax it lands on");
}

#[test]
fn the_jail_card_sends_you_straight_there() {
    let mut g = game(2, 1500);
    place(&mut g, 0, ILLINOIS);
    g.apply_card(CardEffect::GoToJail);
    assert!(g.players[0].in_jail);
    assert_eq!(g.players[0].position, JAIL);
    assert_eq!(g.players[0].money, 1500);
}

#[test]
fn get_out_free_cards_accumulate() {
    let mut g = game(2, 1500);
    g.apply_card(CardEffect::GetOutFree);
    g.apply_card(CardEffect::GetOutFree);
    assert_eq!(g.players[0].get_out_free, 2);
}

#[test]
fn repairs_bill_per_house_and_per_hotel() {
    let mut g = game(2, 1500);
    own_group(&mut g, ColorGroup::Brown, 0);
    set_houses(&mut g, MEDITERRANEAN, 3);
    set_houses(&mut g, BALTIC, HOTEL);
    g.apply_card(CardEffect::Repairs { per_house: 25, per_hotel: 100 });
    assert_eq!(g.players[0].money, 1325, "3 houses at 25, one hotel at 100");
}

#[test]
fn repairs_cost_nothing_when_you_have_built_nothing() {
    let mut g = game(2, 1500);
    own_group(&mut g, ColorGroup::Brown, 0);
    g.apply_card(CardEffect::Repairs { per_house: 25, per_hotel: 100 });
    assert_eq!(g.players[0].money, 1500);
}

#[test]
fn a_resolved_card_shows_its_text() {
    let mut g = game(2, 1500);
    let card = Card {
        title: CHANCE_TITLE,
        text: "Bank pays you a dividend of $50",
        effect: CardEffect::Collect(50),
    };
    g.finish_card(card);
    match &g.modal {
        Modal::Info(InfoBox::CardText(shown)) => {
            assert_eq!(shown.text, "Bank pays you a dividend of $50");
            assert_eq!(shown.title, CHANCE_TITLE);
        }
        _ => panic!("expected the card text"),
    }
}

#[test]
fn a_card_that_chains_into_a_popup_skips_its_text() {
    let mut g = game(2, 1500);
    place(&mut g, 0, CHANCE_LOW);
    let card = Card {
        title: CHANCE_TITLE,
        text: "Advance to Illinois Ave",
        effect: CardEffect::AdvanceTo(ILLINOIS),
    };
    g.finish_card(card);
    assert!(matches!(g.modal, Modal::Buy { .. }), "the buy prompt wins");
}

#[test]
fn a_card_that_jails_you_ends_the_turn() {
    let mut g = game(2, 1500);
    let card =
        Card { title: CHANCE_TITLE, text: "Go directly to Jail", effect: CardEffect::GoToJail };
    g.finish_card(card);
    assert!(!g.can_roll);
}

#[test]
fn landing_on_chance_draws_a_card() {
    let mut g = game(2, 1500);
    place(&mut g, 0, CHANCE_LOW - 2);
    g.apply_roll(1, 1);
    assert!(matches!(g.modal, Modal::Card(_)));
}

#[test]
fn landing_on_chance_shows_the_top_chance_card_and_leaves_the_chest_alone() {
    let mut g = game(2, 1500);
    let top = g.chance[0];
    let second = g.chance[1];
    let chest_before: Vec<&str> = g.chest.iter().map(|c| c.text).collect();
    let chance_len = g.chance.len();
    place(&mut g, 0, CHANCE_LOW - 2);
    g.apply_roll(1, 1);
    match &g.modal {
        Modal::Card(draw) => {
            assert_eq!(draw.card.title, CHANCE_TITLE);
            assert_eq!(draw.card.text, top.text);
        }
        _ => panic!("a chance card should be on screen"),
    }
    assert_eq!(g.chance.len(), chance_len);
    assert_eq!(g.chance[0].text, second.text, "the drawn card went to the bottom");
    assert_eq!(g.chance[chance_len - 1].text, top.text);
    let chest_after: Vec<&str> = g.chest.iter().map(|c| c.text).collect();
    assert_eq!(chest_before, chest_after, "the chest pile is untouched");
}

#[test]
fn a_jail_card_leaves_no_card_text_on_screen() {
    let mut g = game(2, 1500);
    let card =
        Card { title: CHANCE_TITLE, text: "Go directly to Jail", effect: CardEffect::GoToJail };
    g.finish_card(card);
    assert!(g.players[0].in_jail);
    assert!(matches!(g.modal, Modal::Clear), "the turn ended in jail: no card text");
}
