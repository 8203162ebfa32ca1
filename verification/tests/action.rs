use monopoly::game::action::{
    action_at, action_for_hotkey, action_hotkey, action_label, ActionMenu, TurnAction, ACTION_COUNT,
};

#[test]
fn every_action_has_a_unique_hotkey() {
    let mut keys: Vec<char> = (0..ACTION_COUNT).map(|i| action_hotkey(action_at(i))).collect();
    keys.sort_unstable();
    let count = keys.len();
    keys.dedup();
    assert_eq!(keys.len(), count);
}

#[test]
fn every_hotkey_resolves_to_its_own_row() {
    for i in 0..ACTION_COUNT {
        let key = action_hotkey(action_at(i));
        let action = action_for_hotkey(key).expect("a bound hotkey");
        assert_eq!(action, action_at(i));
    }
}

#[test]
fn an_unbound_key_resolves_to_nothing() {
    assert!(action_for_hotkey('z').is_none());
}

#[test]
fn the_menu_cursor_is_bounded_at_both_ends() {
    let mut menu = ActionMenu::new();
    menu.prev();
    assert_eq!(menu.cursor.selected, 0);

    for _ in 0..ACTION_COUNT * 2 {
        menu.next();
    }
    assert_eq!(menu.cursor.selected, ACTION_COUNT - 1);
}

#[test]
fn the_cursor_selects_the_matching_row() {
    let mut menu = ActionMenu::new();
    menu.next();
    assert_eq!(menu.selected(), action_at(1));
}

#[test]
fn the_menu_lists_the_actions_in_order_with_their_labels() {
    assert_eq!(action_at(0), TurnAction::RollDice);
    assert_eq!(action_label(TurnAction::RollDice), "Roll Dice");
    assert_eq!(action_hotkey(TurnAction::SaveGame), 'v');
    assert_eq!(action_at(ACTION_COUNT - 1), TurnAction::EndTurn);
}
