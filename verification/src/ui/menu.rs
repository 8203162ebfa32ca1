//! Main menu shown on the board before a game starts.

use vstd::prelude::*;

use crate::ui::{Cursor, Key};

verus! {

/// Menu entries, in display order.
pub const OPTIONS: [&'static str; 1] = ["Start New Game"];

/// Where "Start New Game" sits in [`OPTIONS`].
pub const NEW_GAME_ROW: usize = 0;

/// What a key press asked the menu to do.
#[derive(Debug, Clone, Copy, PartialEq, Eq, Structural)]
pub enum MenuAction {
    Idle,
    NewGame,
    Quit,
}

pub struct Menu {
    pub cursor: Cursor,
}

impl Menu {
    pub open spec fn wf(&self) -> bool {
        self.cursor.len == 1 && self.cursor.wf()
    }

    pub fn new() -> (m: Self)
        ensures
            m.cursor.selected == 0,
            m.cursor.len == 1,
            m.wf(),
    {
        Menu { cursor: Cursor::new(1) }
    }

    pub fn handle_key(&mut self, key: Key) -> (a: MenuAction)
        requires
            old(self).wf(),
        ensures
            final(self).wf(),
            a == (match key {
                Key::Enter => if old(self).cursor.selected == NEW_GAME_ROW {
                    MenuAction::NewGame
                } else {
                    MenuAction::Idle
                },
                Key::Esc => MenuAction::Quit,
                _ => MenuAction::Idle,
            }),
            !(key is Up || key is Down) ==> final(self).cursor == old(self).cursor,
    {
        match key {
            Key::Up => self.cursor.up(),
            Key::Down => self.cursor.down(),
            Key::Enter => {
                if self.cursor.selected == NEW_GAME_ROW {
                    return MenuAction::NewGame;
                }
            },
            Key::Esc => return MenuAction::Quit,
            _ => {},
        }
        MenuAction::Idle
    }
}

} // verus!
