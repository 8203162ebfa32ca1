use monopoly::screen::{screen_key, Screen, Step};
use monopoly::ui::menu::Menu;
use monopoly::ui::{Confirm, Key};

#[test]
fn the_menu_starts_the_form_and_the_form_starts_a_game() {
    let (s, q, step) = screen_key(Screen::Menu(Menu::new()), None, Key::Enter, false);
    assert!(matches!(s, Screen::Setup(_)));
    assert!(q.is_none());
    assert_eq!(step, Step::Stay);
    let (s, _, _) = screen_key(s, None, Key::Enter, false);
    match s {
        Screen::Playing(g) => {
            assert_eq!(g.players.len(), 4);
            assert!(g.players.iter().all(|p| p.money == 1500));
        }
        _ => panic!("expected a game"),
    }
}

#[test]
fn q_asks_before_quitting_and_no_keeps_playing() {
    let (s, q, step) = screen_key(Screen::Menu(Menu::new()), None, Key::Char('q'), true);
    assert_eq!(step, Step::Stay);
    assert_eq!(q.map(|c| c.selected), Some(1), "the prompt opens on No");
    let (s, q, step) = screen_key(s, q, Key::Enter, false);
    assert!(q.is_none());
    assert_eq!(step, Step::Stay);
    let (_, _, step) = screen_key(s, Some(Confirm { selected: 0 }), Key::Enter, false);
    assert_eq!(step, Step::Quit);
}

#[test]
fn esc_leaves_the_form_for_the_menu() {
    let (s, _, _) = screen_key(Screen::Menu(Menu::new()), None, Key::Enter, false);
    let (s, _, step) = screen_key(s, None, Key::Esc, false);
    assert!(matches!(s, Screen::Menu(_)));
    assert_eq!(step, Step::Stay);
}
