//! Shared interaction helpers: the keys the game reacts to, a bounded list
//! cursor, and the Yes/No prompt, plus the menu and dice screens' state.

use vstd::prelude::*;

pub mod dice;
pub mod menu;

verus! {

/// A key press, as far as the game distinguishes keys.
#[derive(Debug, Clone, Copy, PartialEq, Eq, Structural)]
pub enum Key {
    Up,
    Down,
    Left,
    Right,
    Enter,
    Esc,
    Char(char),
    /// Any key the game has no binding for.
    Other,
}

/// A bounded selection index for vertical menus. `up`/`down` clamp at the ends.
#[derive(Debug, Clone, Copy)]
pub struct Cursor {
    pub selected: usize,
    pub len: usize,
}

/// `len - 1`, or 0 for an empty list: the last row a cursor may select.
pub open spec fn last_row(len: usize) -> usize {
    if len == 0 {
        0
    } else {
        (len - 1) as usize
    }
}

impl Cursor {
    /// The selection lies within the list (at 0 for an empty one).
    pub open spec fn wf(self) -> bool {
        self.selected <= last_row(self.len)
    }

    /// The cursor one row up, stopping at the top.
    pub open spec fn up_spec(self) -> Cursor {
        Cursor {
            selected: if self.selected == 0 {
                0
            } else {
                (self.selected - 1) as usize
            },
            len: self.len,
        }
    }

    /// The cursor one row down, stopping at the last row.
    pub open spec fn down_spec(self) -> Cursor {
        Cursor {
            selected: if self.selected + 1 <= last_row(self.len) {
                (self.selected + 1) as usize
            } else {
                last_row(self.len)
            },
            len: self.len,
        }
    }

    pub fn new(len: usize) -> (c: Self)
        ensures
            c.selected == 0,
            c.len == len,
            c.wf(),
    {
        Cursor { selected: 0, len }
    }

    pub fn up(&mut self)
        ensures
            *final(self) == old(self).up_spec(),
            final(self).len == old(self).len,
            final(self).selected == (if old(self).selected == 0 {
                0
            } else {
                (old(self).selected - 1) as usize
            }),
            old(self).wf() ==> final(self).wf(),
    {
        self.selected = self.selected.saturating_sub(1);
    }

    pub fn down(&mut self)
        requires
            old(self).selected < usize::MAX,
        ensures
            *final(self) == old(self).down_spec(),
            final(self).len == old(self).len,
            final(self).selected == (if old(self).selected + 1 <= last_row(old(self).len) {
                (old(self).selected + 1) as usize
            } else {
                last_row(old(self).len)
            }),
            final(self).wf(),
    {
        self.selected = (self.selected + 1).min(self.len.saturating_sub(1));
    }

    /// Resize the list (e.g. after the player count changes), keeping the
    /// selection in range.
    pub fn set_len(&mut self, len: usize)
        ensures
            final(self).len == len,
            final(self).selected == (if old(self).selected <= last_row(len) {
                old(self).selected
            } else {
                last_row(len)
            }),
            final(self).wf(),
    {
        self.len = len;
        self.selected = self.selected.min(len.saturating_sub(1));
    }
}

/// Outcome of feeding a key to a [`Confirm`] prompt.
#[derive(Debug, Clone, Copy, PartialEq, Eq, Structural)]
pub enum ConfirmResult {
    Pending,
    Yes,
    No,
}

/// A Yes/No prompt tracking the highlighted row (defaults to No).
#[derive(Debug, Clone, Copy)]
pub struct Confirm {
    /// 0 = Yes, 1 = No.
    pub selected: usize,
}

impl Confirm {
    pub open spec fn wf(self) -> bool {
        self.selected <= 1
    }

    pub open spec fn yes_spec(self) -> bool {
        self.selected == 0
    }

    pub fn new() -> (c: Self)
        ensures
            c.selected == 1,
            !c.yes_spec(),
    {
        Confirm { selected: 1 }
    }

    pub fn toggle(&mut self)
        requires
            old(self).wf(),
        ensures
            final(self).selected == 1 - old(self).selected,
            final(self).wf(),
            final(self).yes_spec() == !old(self).yes_spec(),
    {
        self.selected = 1 - self.selected;
    }

    pub fn is_yes(&self) -> (b: bool)
        ensures
            b == self.yes_spec(),
    {
        self.selected == 0
    }

    /// Drive the prompt from a key press: arrows toggle, Enter resolves, Esc
    /// cancels (treated as No).
    pub fn handle_key(&mut self, key: Key) -> (r: ConfirmResult)
        requires
            old(self).wf(),
        ensures
            final(self).wf(),
            (key is Up || key is Down || key is Left || key is Right) ==> r == ConfirmResult::Pending
                && final(self).selected == 1 - old(self).selected,
            key is Enter ==> *final(self) == *old(self) && r == (if old(self).yes_spec() {
                ConfirmResult::Yes
            } else {
                ConfirmResult::No
            }),
            key is Esc ==> *final(self) == *old(self) && r == ConfirmResult::No,
            (key is Char || key is Other) ==> *final(self) == *old(self) && r == ConfirmResult::Pending,
    {
        match key {
            Key::Up | Key::Down | Key::Left | Key::Right => {
                self.toggle();
                ConfirmResult::Pending
            },
            Key::Enter => {
                if self.is_yes() {
                    ConfirmResult::Yes
                } else {
                    ConfirmResult::No
                }
            },
            Key::Esc => ConfirmResult::No,
            _ => ConfirmResult::Pending,
        }
    }
}

} // verus!
