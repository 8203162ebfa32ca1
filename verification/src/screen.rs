//! Which screen is up (the main menu, the new-game form, or a game) and how a
//! key moves between them: the quit prompt that `q` or an interrupt opens, the
//! menu starting the form, the form starting a game, and a finished game going
//! back to the menu. The front end reads the keys and draws; this decides.

use vstd::prelude::*;

use crate::game::play::key_handled;
use crate::game::Game;
use crate::player::Player;
use crate::setup::{default_pieces_spec, Setup, MONEY_STEP};
use crate::ui::menu::{Menu, MenuAction, NEW_GAME_ROW};
use crate::ui::{Confirm, ConfirmResult, Key};

verus! {

/// The screen that is up.
pub enum Screen {
    Menu(Menu),
    Setup(Setup),
    Playing(Box<Game>),
}

/// What the front end must do after a key.
#[derive(Debug, Clone, Copy, PartialEq, Eq, Structural)]
pub enum Step {
    /// Nothing beyond drawing the new screen.
    Stay,
    /// Save the game on screen.
    Save,
    /// Leave the program.
    Quit,
}

/// The screen can take `key`: its own invariant holds, and the key will not
/// push a counter past its range.
pub open spec fn screen_ready(s: Screen, key: Key) -> bool {
    match s {
        Screen::Menu(m) => m.wf(),
        Screen::Setup(f) => f.wf() && (key is Right && f.selected == 1 ==> f.starting_money <= u32::MAX - MONEY_STEP),
        Screen::Playing(g) => g.wf() && g.has_room(),
    }
}

/// A fresh new-game form.
pub open spec fn fresh_setup(f: Setup) -> bool {
    f.wf() && f.player_count == 4 && f.starting_money == 1500 && f.pieces@ == default_pieces_spec(4) && f.selected == 0
}

/// The screen and quit prompt after `key` on the screen `s` with the prompt
/// `quit`, and what the front end must do; `interrupt` is `q` or Ctrl-C.
pub open spec fn screen_moved(
    s: Screen,
    quit: Option<Confirm>,
    key: Key,
    interrupt: bool,
    t: Screen,
    q: Option<Confirm>,
    step: Step,
) -> bool {
    match quit {
        Some(c) => t == s && match key {
            Key::Up | Key::Down | Key::Left | Key::Right => q == Some(Confirm { selected: (1 - c.selected) as usize })
                && step == Step::Stay,
            Key::Enter => if c.yes_spec() {
                q == quit && step == Step::Quit
            } else {
                q is None && step == Step::Stay
            },
            Key::Esc => q is None && step == Step::Stay,
            _ => q == quit && step == Step::Stay,
        },
        None => if interrupt {
            t == s && q == Some(Confirm { selected: 1 }) && step == Step::Stay
        } else {
            &&& q is None
            &&& match s {
                Screen::Menu(m) => match key {
                    Key::Enter if m.cursor.selected == NEW_GAME_ROW => step == Step::Stay && (t matches Screen::Setup(
                        f,
                    ) && fresh_setup(f)),
                    Key::Esc => step == Step::Quit,
                    _ => step == Step::Stay && (t matches Screen::Menu(n) && n.wf()),
                },
                Screen::Setup(f) => step == Step::Stay && match key {
                    Key::Esc => t matches Screen::Menu(n) && n.wf() && n.cursor.selected == 0,
                    Key::Enter => t matches Screen::Playing(g) && g.players@.len() == f.player_count && forall|i: int|
                        0 <= i < f.player_count ==> #[trigger] g.players@[i] == (Player {
                            piece: f.pieces@[i],
                            money: f.starting_money,
                            position: 0,
                            in_jail: false,
                            jail_turns: 0,
                            get_out_free: 0,
                            bankrupt: false,
                        }),
                    _ => t matches Screen::Setup(n) && n.wf(),
                },
                Screen::Playing(g) => exists|h: Game, save: bool|
                    #[trigger] key_handled(*g, h, key, save) && step == (if save {
                        Step::Save
                    } else {
                        Step::Stay
                    }) && (if h.done {
                        t matches Screen::Menu(n) && n.wf() && n.cursor.selected == 0
                    } else {
                        t == Screen::Playing(Box::new(h))
                    }),
            }
        },
    }
}

/// Feed a key to the screen that is up (see [`screen_moved`]).
pub fn screen_key(s: Screen, quit: Option<Confirm>, key: Key, interrupt: bool) -> (r: (Screen, Option<Confirm>, Step))
    requires
        screen_ready(s, key),
        quit matches Some(c) ==> c.wf(),
    ensures
        screen_moved(s, quit, key, interrupt, r.0, r.1, r.2),
{
    if let Some(c) = quit {
        let mut c = c;
        return match c.handle_key(key) {
            ConfirmResult::Pending => (s, Some(c), Step::Stay),
            ConfirmResult::Yes => (s, quit, Step::Quit),
            ConfirmResult::No => (s, None, Step::Stay),
        };
    }
    if interrupt {
        return (s, Some(Confirm::new()), Step::Stay);
    }
    match s {
        Screen::Menu(m) => {
            let mut m = m;
            match m.handle_key(key) {
                MenuAction::NewGame => (Screen::Setup(Setup::new()), None, Step::Stay),
                MenuAction::Quit => (Screen::Menu(m), None, Step::Quit),
                MenuAction::Idle => (Screen::Menu(m), None, Step::Stay),
            }
        },
        Screen::Setup(f) => {
            if key == Key::Esc {
                return (Screen::Menu(Menu::new()), None, Step::Stay);
            }
            let mut f = f;
            match f.handle_key(key) {
                Some(players) => (Screen::Playing(Box::new(Game::new(players))), None, Step::Stay),
                None => (Screen::Setup(f), None, Step::Stay),
            }
        },
        Screen::Playing(g) => {
            let mut g = g;
            let save = g.handle_key(key);
            let step = if save {
                Step::Save
            } else {
                Step::Stay
            };
            if g.is_done() {
                (Screen::Menu(Menu::new()), None, step)
            } else {
                (Screen::Playing(g), None, step)
            }
        },
    }
}

} // verus!
