use monopoly::game::action::TurnAction;
use monopoly::game::note::{Level, Note};
use monopoly::game::Game;
use monopoly::player::{Piece, Player};
use monopoly::space::{ColorGroup, Space};

/// A game of `count` players holding `cash` each, with player 0 to move and no
/// messages pending.
fn game(count: usize, cash: u32) -> Game {
    let players: Vec<Player> = Piece::all().into_iter().take(count).map(|p| Player::new(p, cash)).collect();
    let mut g = Game::new(players);
    g.current = 0;
    g.doubles = 0;
    g.can_roll = true;
    g.has_rolled = false;
    g.notes.clear();
    g
}

const MEDITERRANEAN: usize = 1;
const BALTIC: usize = 3;
const FREE_PARKING: usize = 20;

#[test]
fn a_new_game_announces_who_starts() {
    let players: Vec<Player> = Piece::all().into_iter().take(3).map(|p| Player::new(p, 1500)).collect();
    let g = Game::new(players);
    assert_eq!(g.notes, vec![Note::FirstPlayer { who: g.current }, Note::Turn { who: g.current }]);
}

#[test]
fn ending_the_turn_before_rolling_is_refused_with_a_message() {
    let mut g = game(2, 1500);
    g.run(TurnAction::EndTurn);
    assert_eq!(g.notes, vec![Note::RollFirst]);
    assert_eq!(Note::RollFirst.level(), Level::Warn);
}

#[test]
fn buying_reports_the_deed_and_the_price() {
    let mut g = game(2, 1500);
    g.players[0].position = MEDITERRANEAN;
    g.buy_current();
    assert_eq!(g.notes, vec![Note::Bought { who: 0, pos: MEDITERRANEAN, price: 60 }]);
    g.buy_current();
    assert_eq!(g.notes[1], Note::AlreadyOwned);
}

#[test]
fn a_roll_reports_the_dice_the_move_and_the_square() {
    let mut g = game(2, 1500);
    g.players[0].position = FREE_PARKING - 4;
    g.apply_roll(1, 3);
    assert_eq!(
        g.notes,
        vec![Note::Rolled { who: 0, a: 1, b: 3 }, Note::Landed { who: 0, pos: FREE_PARKING }]
    );
}

#[test]
fn uneven_building_is_refused_with_a_message() {
    let mut g = game(2, 1500);
    for space in &mut g.board {
        if matches!(space, Space::Property(p) if p.group == ColorGroup::Brown) {
            space.set_owner(Some(0));
        }
    }
    g.build_house(MEDITERRANEAN);
    g.build_house(MEDITERRANEAN);
    assert_eq!(g.notes[0], Note::Built { who: 0, pos: MEDITERRANEAN, hotel: false, cost: 50 });
    assert_eq!(g.notes[1], Note::BuildEvenly);
    assert_eq!(g.board[BALTIC].houses(), 0);
}
