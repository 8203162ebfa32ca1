//! The per-turn action menu: the things a player can do on their turn, their
//! labels and hotkeys, and the cursor that picks one.

use vstd::prelude::*;

use crate::ui::Cursor;

verus! {

#[derive(Debug, Clone, Copy, PartialEq, Eq, Structural)]
pub enum TurnAction {
    RollDice,
    BuyProperty,
    BuildHouses,
    Trade,
    ViewInventory,
    Mortgages,
    SaveGame,
    EndTurn,
}

/// How many actions the menu lists.
pub const ACTION_COUNT: usize = 8;

/// The actions in menu order.
pub open spec fn action_row(i: int) -> TurnAction {
    if i == 0 {
        TurnAction::RollDice
    } else if i == 1 {
        TurnAction::BuyProperty
    } else if i == 2 {
        TurnAction::BuildHouses
    } else if i == 3 {
        TurnAction::Trade
    } else if i == 4 {
        TurnAction::ViewInventory
    } else if i == 5 {
        TurnAction::Mortgages
    } else if i == 6 {
        TurnAction::SaveGame
    } else {
        TurnAction::EndTurn
    }
}

pub open spec fn hotkey_of(a: TurnAction) -> char {
    match a {
        TurnAction::RollDice => 'r',
        TurnAction::BuyProperty => 'b',
        TurnAction::BuildHouses => 'h',
        TurnAction::Trade => 't',
        TurnAction::ViewInventory => 'i',
        TurnAction::Mortgages => 'g',
        TurnAction::SaveGame => 'v',
        TurnAction::EndTurn => 'e',
    }
}

pub open spec fn label_of(a: TurnAction) -> Seq<char> {
    match a {
        TurnAction::RollDice => "Roll Dice"@,
        TurnAction::BuyProperty => "Buy Property"@,
        TurnAction::BuildHouses => "Build Houses"@,
        TurnAction::Trade => "Trade"@,
        TurnAction::ViewInventory => "View Inventory"@,
        TurnAction::Mortgages => "Mortgages"@,
        TurnAction::SaveGame => "Save Game"@,
        TurnAction::EndTurn => "End Turn"@,
    }
}

/// The first action in menu order bound to `c`, if any.
pub open spec fn action_for_key(c: char) -> Option<TurnAction> {
    if exists|i: int| 0 <= i < 8 && hotkey_of(action_row(i)) == c {
        Some(action_row(choose|i: int| 0 <= i < 8 && hotkey_of(action_row(i)) == c
            && forall|j: int| 0 <= j < i ==> hotkey_of(action_row(j)) != c))
    } else {
        None
    }
}

/// The action on row `i` of the menu.
pub fn action_at(i: usize) -> (a: TurnAction)
    requires
        i < ACTION_COUNT,
    ensures
        a == action_row(i as int),
{
    match i {
        0 => TurnAction::RollDice,
        1 => TurnAction::BuyProperty,
        2 => TurnAction::BuildHouses,
        3 => TurnAction::Trade,
        4 => TurnAction::ViewInventory,
        5 => TurnAction::Mortgages,
        6 => TurnAction::SaveGame,
        _ => TurnAction::EndTurn,
    }
}

/// The menu label of an action.
pub fn action_label(action: TurnAction) -> (s: &'static str)
    ensures
        s@ == label_of(action),
{
    match action {
        TurnAction::RollDice => "Roll Dice",
        TurnAction::BuyProperty => "Buy Property",
        TurnAction::BuildHouses => "Build Houses",
        TurnAction::Trade => "Trade",
        TurnAction::ViewInventory => "View Inventory",
        TurnAction::Mortgages => "Mortgages",
        TurnAction::SaveGame => "Save Game",
        TurnAction::EndTurn => "End Turn",
    }
}

/// Hotkey for an action, usable inside or outside the menu.
pub fn action_hotkey(action: TurnAction) -> (c: char)
    ensures
        c == hotkey_of(action),
{
    match action {
        TurnAction::RollDice => 'r',
        TurnAction::BuyProperty => 'b',
        TurnAction::BuildHouses => 'h',
        TurnAction::Trade => 't',
        TurnAction::ViewInventory => 'i',
        TurnAction::Mortgages => 'g',
        TurnAction::SaveGame => 'v',
        TurnAction::EndTurn => 'e',
    }
}

/// The action bound to keyboard key `c`, if any: the first row whose hotkey it is.
pub fn action_for_hotkey(c: char) -> (a: Option<TurnAction>)
    ensures
        a == action_for_key(c),
        a matches Some(x) ==> hotkey_of(x) == c,
{
    let mut i: usize = 0;
    while i < ACTION_COUNT
        invariant
            i <= ACTION_COUNT,
            forall|j: int| 0 <= j < i ==> hotkey_of(action_row(j)) != c,
        decreases ACTION_COUNT - i,
    {
        let action = action_at(i);
        if action_hotkey(action) == c {
            proof {
                let w = choose|k: int| 0 <= k < 8 && hotkey_of(action_row(k)) == c
                    && forall|j: int| 0 <= j < k ==> hotkey_of(action_row(j)) != c;
                assert(0 <= i < 8 && hotkey_of(action_row(i as int)) == c
                    && forall|j: int| 0 <= j < i ==> hotkey_of(action_row(j)) != c);
                if w < i {
                    assert(hotkey_of(action_row(w)) != c);
                } else if w > i {
                    assert(hotkey_of(action_row(i as int)) != c);
                }
            }
            return Some(action);
        }
        i = i + 1;
    }
    None
}

/// Every action has its own hotkey, so each one resolves back to its own row.
pub proof fn lemma_hotkeys_unique(i: int, j: int)
    requires
        0 <= i < 8,
        0 <= j < 8,
        i != j,
    ensures
        hotkey_of(action_row(i)) != hotkey_of(action_row(j)),
{
}

#[derive(Debug, Clone, Copy)]
pub struct ActionMenu {
    pub cursor: Cursor,
}

impl ActionMenu {
    pub open spec fn wf(&self) -> bool {
        self.cursor.len == ACTION_COUNT && self.cursor.wf()
    }

    /// A fresh menu with the first action highlighted.
    pub open spec fn new_spec() -> ActionMenu {
        ActionMenu { cursor: Cursor { selected: 0, len: ACTION_COUNT } }
    }

    pub fn new() -> (m: Self)
        ensures
            m == ActionMenu::new_spec(),
            m.cursor.selected == 0,
            m.wf(),
    {
        ActionMenu { cursor: Cursor::new(ACTION_COUNT) }
    }

    pub fn prev(&mut self)
        requires
            old(self).wf(),
        ensures
            final(self).wf(),
            final(self).cursor.selected == (if old(self).cursor.selected == 0 {
                0
            } else {
                (old(self).cursor.selected - 1) as usize
            }),
    {
        self.cursor.up();
    }

    pub fn next(&mut self)
        requires
            old(self).wf(),
        ensures
            final(self).wf(),
            final(self).cursor.selected == (if old(self).cursor.selected < 7 {
                (old(self).cursor.selected + 1) as usize
            } else {
                7
            }),
    {
        self.cursor.down();
    }

    pub fn selected(&self) -> (a: TurnAction)
        requires
            self.wf(),
        ensures
            a == action_row(self.cursor.selected as int),
    {
        action_at(self.cursor.selected)
    }
}

} // verus!
