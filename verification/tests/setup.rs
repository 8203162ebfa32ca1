use monopoly::player::Piece;
use monopoly::setup::{default_pieces, Setup, MAX_PLAYERS, MIN_MONEY, MIN_PLAYERS};
use monopoly::ui::Key;

#[test]
fn the_form_opens_on_four_players_with_1500() {
    let s = Setup::new();
    assert_eq!(s.player_count, 4);
    assert_eq!(s.starting_money, 1500);
    assert_eq!(s.pieces, vec![Piece::TopHat, Piece::Car, Piece::Dog, Piece::Cat]);
    assert_eq!(s.selected, 0);
    assert_eq!(s.field_count(), 6);
}

#[test]
fn the_player_count_stays_between_two_and_eight() {
    let mut s = Setup::new();
    for _ in 0..10 {
        s.handle_key(Key::Right);
    }
    assert_eq!(s.player_count, MAX_PLAYERS);
    assert_eq!(s.pieces.len(), MAX_PLAYERS);
    for _ in 0..10 {
        s.handle_key(Key::Left);
    }
    assert_eq!(s.player_count, MIN_PLAYERS);
    assert_eq!(s.pieces, default_pieces(2));
}

#[test]
fn the_starting_cash_moves_in_steps_and_has_a_floor() {
    let mut s = Setup::new();
    s.handle_key(Key::Down);
    s.handle_key(Key::Right);
    assert_eq!(s.starting_money, 1750);
    for _ in 0..20 {
        s.handle_key(Key::Left);
    }
    assert_eq!(s.starting_money, MIN_MONEY);
}

#[test]
fn a_seat_skips_tokens_another_seat_holds() {
    let mut s = Setup::new();
    s.handle_key(Key::Down);
    s.handle_key(Key::Down); // the first seat's token
    s.handle_key(Key::Right);
    assert_eq!(s.pieces[0], Piece::Ship, "Car, Dog and Cat are taken");
    s.handle_key(Key::Left);
    assert_eq!(s.pieces[0], Piece::TopHat);
    s.handle_key(Key::Left);
    assert_eq!(s.pieces[0], Piece::Wheelbarrow, "stepping back wraps round");
}

#[test]
fn with_every_token_taken_a_seat_keeps_its_own() {
    let mut s = Setup::new();
    for _ in 0..4 {
        s.handle_key(Key::Right);
    }
    assert_eq!(s.player_count, 8);
    s.handle_key(Key::Down);
    s.handle_key(Key::Down);
    s.handle_key(Key::Right);
    assert_eq!(s.pieces[0], Piece::TopHat);
}

#[test]
fn shrinking_the_table_pulls_the_cursor_back() {
    let mut s = Setup::new();
    for _ in 0..10 {
        s.handle_key(Key::Down);
    }
    assert_eq!(s.selected, 5, "the last seat's token");
    s.set_player_count(2);
    assert_eq!(s.selected, 3);
    assert_eq!(s.pieces.len(), 2);
}

#[test]
fn enter_seats_the_players_with_their_tokens_and_cash() {
    let mut s = Setup::new();
    let players = s.handle_key(Key::Enter).expect("the form confirms");
    assert_eq!(players.len(), 4);
    assert_eq!(players[2].piece, Piece::Dog);
    assert!(players.iter().all(|p| p.money == 1500 && p.position == 0));
    assert!(s.handle_key(Key::Up).is_none());
}
