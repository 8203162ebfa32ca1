use monopoly::ui::menu::{Menu, MenuAction};
use monopoly::ui::{Confirm, ConfirmResult, Cursor, Key};

#[test]
fn the_cursor_starts_at_the_top_and_stops_there() {
    let mut cursor = Cursor::new(3);
    assert_eq!(cursor.selected, 0);
    cursor.up();
    assert_eq!(cursor.selected, 0);
}

#[test]
fn the_cursor_stops_at_the_last_row() {
    let mut cursor = Cursor::new(3);
    for _ in 0..10 {
        cursor.down();
    }
    assert_eq!(cursor.selected, 2);
}

#[test]
fn an_empty_list_leaves_the_cursor_at_zero() {
    let mut cursor = Cursor::new(0);
    cursor.down();
    assert_eq!(cursor.selected, 0);
}

#[test]
fn shrinking_a_list_pulls_the_cursor_back_into_range() {
    let mut cursor = Cursor::new(5);
    for _ in 0..4 {
        cursor.down();
    }
    assert_eq!(cursor.selected, 4);
    cursor.set_len(2);
    assert_eq!(cursor.selected, 1);
}

#[test]
fn a_prompt_defaults_to_no() {
    let confirm = Confirm::new();
    assert!(!confirm.is_yes());
    assert!(matches!(Confirm::new().handle_key(Key::Enter), ConfirmResult::No));
}

#[test]
fn any_arrow_toggles_the_answer() {
    for key in [Key::Up, Key::Down, Key::Left, Key::Right] {
        let mut confirm = Confirm::new();
        assert!(matches!(confirm.handle_key(key), ConfirmResult::Pending));
        assert!(confirm.is_yes());
    }
}

#[test]
fn enter_resolves_the_highlighted_answer() {
    let mut confirm = Confirm::new();
    confirm.toggle();
    assert!(matches!(confirm.handle_key(Key::Enter), ConfirmResult::Yes));
}

#[test]
fn escape_always_means_no() {
    let mut confirm = Confirm::new();
    confirm.toggle();
    assert!(matches!(confirm.handle_key(Key::Esc), ConfirmResult::No));
}

#[test]
fn an_unrelated_key_leaves_the_prompt_pending() {
    let mut confirm = Confirm::new();
    assert!(matches!(confirm.handle_key(Key::Char('x')), ConfirmResult::Pending));
    assert!(!confirm.is_yes(), "and does not move the highlight");
}

#[test]
fn toggling_twice_restores_the_answer() {
    let mut confirm = Confirm::new();
    confirm.toggle();
    confirm.toggle();
    assert!(!confirm.is_yes());
}

#[test]
fn the_menu_starts_a_game_on_enter_and_quits_on_escape() {
    let mut menu = Menu::new();
    assert_eq!(menu.handle_key(Key::Enter), MenuAction::NewGame);
    assert_eq!(menu.handle_key(Key::Down), MenuAction::Idle);
    assert_eq!(menu.cursor.selected, 0, "a single entry keeps the cursor on it");
    assert_eq!(menu.handle_key(Key::Esc), MenuAction::Quit);
    assert_eq!(menu.handle_key(Key::Char('x')), MenuAction::Idle);
}
