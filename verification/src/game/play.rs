//! Input and time: what a key press does with the popup on screen, the per-turn
//! actions it can start, and the clock that plays the dice and card animations.

use vstd::prelude::*;

use std::mem::swap;

use super::action::{action_for_hotkey, action_for_key, action_row, ActionMenu, TurnAction};
use super::estate::{build_opened, build_slots_upto, estate_keyed, mortgages_opened, EstateMenu, Mode};
use super::cards::{card_resolved, rivals_upto, CardDraw};
use super::note::Note;
use super::trade::{trade_keyed, trade_opened, Trade};
use super::jail::{jail_keyed, JailMenu};
use super::debt::{debt_keyed, Debt};
use super::auction::{auction_keyed, auction_started, Auction};
use super::tally::total_money;
use super::{active_upto, bought, pending_ran, turn_passed, holdings_upto, roll_applied, roll_started, lemma_holdings_upto, next_seat, Game, InfoBox, Modal, BOARD_LEN, GO_SALARY};
use crate::player::Player;
use crate::ui::dice::{clip_after, Clip, Roll, FRAME_TIME};
use crate::ui::{Confirm, ConfirmResult, Key};

verus! {

/// A turn action started from a clear screen, between the game `o` before and
/// `f` after; `save` is whether it asks for the game to be saved.
pub open spec fn ran(o: Game, f: Game, action: TurnAction, save: bool) -> bool {
    &&& match action {
        TurnAction::RollDice => roll_started(o, f),
        TurnAction::BuyProperty => bought(o, f),
        TurnAction::EndTurn => if o.has_rolled {
            f == (Game { modal: Modal::ConfirmEnd(Confirm { selected: 1 }), ..o })
        } else {
            f == (Game { notes: f.notes, ..o }) && f.notes@ == o.notes@.push(Note::RollFirst)
        },
        TurnAction::BuildHouses => build_opened(o, f),
        TurnAction::ViewInventory => inventory_shown(o, f),
        TurnAction::Trade => trade_opened(o, f),
        TurnAction::Mortgages => mortgages_opened(o, f),
        TurnAction::SaveGame => f == o,
    }
    &&& f.stock_kept(&o)
    &&& save == (action == TurnAction::SaveGame)
    &&& f.players@.len() == o.players@.len()
    &&& f.pending@ == o.pending@
    &&& f.current == o.current
    &&& total_money(f.players@) <= total_money(o.players@)
    &&& action != TurnAction::BuyProperty ==> f.players@ == o.players@ && f.board@
        == o.board@ && f.same_rest_but_modal(&o)
    &&& action == TurnAction::BuyProperty ==> f.same_but_estates(&o)
    &&& action == TurnAction::SaveGame ==> f == o
    &&& action == TurnAction::EndTurn && o.has_rolled ==> f.modal == Modal::ConfirmEnd(Confirm { selected: 1 })
    &&& action == TurnAction::RollDice && o.can_roll && !o.players@[o.current as int].in_jail
        ==> f.modal == Modal::Roll(Roll { clip: Clip::new_spec(), result: None })
    &&& action == TurnAction::RollDice && o.can_roll && o.players@[o.current as int].in_jail
        ==> f.modal is Jail
    &&& action == TurnAction::RollDice && !o.can_roll ==> f.modal == o.modal
    &&& action == TurnAction::ViewInventory ==> f.modal is Info
    &&& action == TurnAction::Mortgages ==> (holdings_upto(o.board@, o.current, BOARD_LEN as int).len()
        > 0 <==> f.modal is Estate)
    &&& action == TurnAction::BuildHouses ==> (build_slots_upto(o.board@, o.current, BOARD_LEN as int).len()
        > 0 <==> f.modal is Estate)
    &&& action == TurnAction::Trade ==> (rivals_upto(o.players@, o.current, o.players@.len() as int).len()
        > 0 <==> f.modal is Trade)
}

/// The current player's cash and deeds shown, between the game `o` before and
/// `f` after.
pub open spec fn inventory_shown(o: Game, f: Game) -> bool {
    &&& f.players@ == o.players@
    &&& f.board@ == o.board@
    &&& f.pending@ == o.pending@
    &&& f.same_rest_but_modal(&o)
    &&& f.modal matches Modal::Info(InfoBox::Inventory { who, money, holdings }) && who
        == o.current && money == o.players@[o.current as int].money
        && holdings@ == holdings_upto(o.board@, o.current, BOARD_LEN as int)
}

impl Game {
    /// Show the current player's cash and the deeds they hold, in board order.
    pub fn show_inventory(&mut self)
        requires
            old(self).wf(),
        ensures
            final(self).wf(),
            inventory_shown(*old(self), *final(self)),
    {
        let me = self.current;
        let holdings = self.holdings(me);
        proof {
            lemma_holdings_upto(self.board@, me, BOARD_LEN as int);
        }
        let money = self.players[me].money;
        self.modal = Modal::Info(InfoBox::Inventory { who: me, money, holdings });
    }

    /// Start one of the turn actions. Returns `true` when the action asks the
    /// caller to save the game, which is all that action does here.
    pub fn run(&mut self, action: TurnAction) -> (save: bool)
        requires
            old(self).wf(),
            old(self).modal is Clear,
        ensures
            final(self).wf(),
            ran(*old(self), *final(self), action, save),
    {
        match action {
            TurnAction::RollDice => self.start_roll(),
            TurnAction::BuyProperty => self.buy_current(),
            TurnAction::EndTurn => {
                if self.has_rolled {
                    self.modal = Modal::ConfirmEnd(Confirm::new());
                } else {
                    self.note(Note::RollFirst);
                }
            },
            TurnAction::BuildHouses => self.open_build(),
            TurnAction::ViewInventory => self.show_inventory(),
            TurnAction::Trade => self.open_trade(),
            TurnAction::Mortgages => self.open_mortgages(),
            TurnAction::SaveGame => {
                return true;
            },
        }
        false
    }
}

} // verus!

verus! {

/// Once the game `g` has its screen clear, queued work resumes, giving `f`
/// (see [`pending_ran`]); with a popup up, nothing more happens.
pub open spec fn then_pending(g: Game, f: Game) -> bool {
    if g.modal is Clear {
        pending_ran(g, f)
    } else {
        f == g
    }
}

/// What the popup on screen (or, with none, the game itself) does with a key,
/// between the game `o` before and `g` after, before queued work resumes;
/// `save` is whether the player asked to save. A popup is off the screen, in
/// `c`, while it acts.
pub open spec fn key_taken(o: Game, g: Game, key: Key, save: bool) -> bool {
    let c = Game { modal: Modal::Clear, ..o };
    &&& save == ((o.modal is Clear && (key matches Key::Char(ch) && action_for_key(ch) == Some(TurnAction::SaveGame)))
        || (o.modal matches Modal::Menu(m) && key is Enter && action_row(m.cursor.selected as int)
        == TurnAction::SaveGame))
    &&& match o.modal {
        Modal::GameOver(_) => g == (Game { done: true, ..o }),
        Modal::Info(_) => g == c,
        Modal::ConfirmEnd(k) => match key {
            Key::Up | Key::Down | Key::Left | Key::Right => g == (Game {
                modal: Modal::ConfirmEnd(Confirm { selected: (1 - k.selected) as usize }),
                ..o
            }),
            Key::Enter => if k.yes_spec() {
                turn_passed(c, g)
            } else {
                g == c
            },
            Key::Esc => g == c,
            _ => g == o,
        },
        Modal::Menu(m) => match key {
            Key::Up => g == (Game { modal: g.modal, ..o }) && (g.modal matches Modal::Menu(n) && n.cursor.len
                == m.cursor.len && n.cursor.selected == (if m.cursor.selected == 0 {
                0
            } else {
                (m.cursor.selected - 1) as usize
            })),
            Key::Down => g == (Game { modal: g.modal, ..o }) && (g.modal matches Modal::Menu(n) && n.cursor.len
                == m.cursor.len && n.cursor.selected == (if m.cursor.selected < 7 {
                (m.cursor.selected + 1) as usize
            } else {
                7
            })),
            Key::Esc => g == c,
            Key::Enter => ran(c, g, action_row(m.cursor.selected as int), save),
            _ => g == o,
        },
        Modal::Jail(_) | Modal::Estate(_) | Modal::Debt(_) | Modal::Auction(_) | Modal::Trade(_) => popup_fed(
            c,
            g,
            o.modal,
            key,
        ),
        Modal::Buy { confirm, pos } => match key {
            Key::Up | Key::Down | Key::Left | Key::Right => g == (Game {
                modal: Modal::Buy { confirm: Confirm { selected: (1 - confirm.selected) as usize }, pos },
                ..o
            }),
            Key::Enter => if confirm.yes_spec() {
                bought(c, g)
            } else {
                auction_started(c, g, pos)
            },
            Key::Esc => auction_started(c, g, pos),
            _ => g == o,
        },
        Modal::Card(d) => if key == Key::Char(' ') || key is Enter {
            card_resolved(c, g, d.card)
        } else {
            g == o
        },
        Modal::Roll(r) => if (key == Key::Char(' ') || key is Enter) && r.result is Some {
            g == c
        } else {
            g == o
        },
        Modal::Clear => match key {
            Key::Enter => g == (Game { modal: Modal::Menu(ActionMenu::new_spec()), ..o }),
            Key::Char(ch) => if ch == 'm' {
                g == (Game { modal: Modal::Menu(ActionMenu::new_spec()), ..o })
            } else if ch == ' ' {
                roll_started(o, g)
            } else {
                match action_for_key(ch) {
                    Some(a) => ran(o, g, a, save),
                    None => g == o,
                }
            },
            _ => g == o,
        },
    }
}

/// What a key press does, between the game `o` before and `f` after; `save` is
/// whether the player asked to save: the key is taken (see [`key_taken`]), then
/// queued work resumes if the screen is clear.
pub open spec fn key_handled(o: Game, f: Game, key: Key, save: bool) -> bool {
    exists|g: Game| #[trigger] key_taken(o, g, key, save) && then_pending(g, f)
}

impl Game {
    /// Feed a key to whatever is on screen. Returns `true` when the player
    /// asked to save the game. Once the screen is clear again, queued work
    /// resumes (the next lot goes up, the next bill is charged).
    ///
    /// The game-over popup marks the game done on any key; an info popup is
    /// dismissed by any key; the end-turn prompt and the buy prompt answer
    /// Yes/No (declining to buy auctions the deed); the turn menu moves with
    /// the arrows, closes on Esc and runs the highlighted action on Enter; the
    /// jail menu, estate list, liquidation list, auction and trade builder each
    /// take the key themselves; a card being drawn is resolved at once by Space
    /// or Enter, and a settled roll is dismissed by them. With nothing on
    /// screen, `m` or Enter opens the menu, Space rolls, and the actions'
    /// hotkeys run them.
    pub fn handle_key(&mut self, key: Key) -> (save: bool)
        requires
            old(self).wf(),
            old(self).has_room(),
        ensures
            final(self).stock_kept(old(self)),
            final(self).wf(),
            final(self).players@.len() == old(self).players@.len(),
            total_money(final(self).players@) <= total_money(old(self).players@) + 500_200,
            old(self).modal is GameOver ==> final(self).done,
            !(old(self).modal is GameOver) ==> final(self).done == old(self).done,
            key_handled(*old(self), *final(self), key, save),
    {
        let ghost g0 = *self;
        let mut modal = Modal::Clear;
        swap(&mut modal, &mut self.modal);
        proof {
            assert(self.wf());
            assert(g0 == Game { modal: modal, ..*self });
        }
        let save = self.take_key(modal, key);
        let ghost g = *self;
        if self.screen_clear() {
            self.run_pending();
        }
        proof {
            assert(key_taken(g0, g, key, save));
            assert(then_pending(g, *self));
        }
        save
    }

    /// Let the popup `modal`, just taken off the screen, act on a key; with no
    /// popup, the key acts on the game itself. See [`key_taken`].
    #[verifier::rlimit(80)]
    fn take_key(&mut self, modal: Modal, key: Key) -> (save: bool)
        requires
            old(self).wf(),
            old(self).has_room(),
            old(self).modal is Clear,
            (Game { modal: modal, ..*old(self) }).wf(),
            (Game { modal: modal, ..*old(self) }).has_room(),
        ensures
            final(self).stock_kept(old(self)),
            final(self).wf(),
            final(self).players@.len() == old(self).players@.len(),
            total_money(final(self).players@) <= total_money(old(self).players@) + 500_200,
            final(self).done == (old(self).done || modal is GameOver),
            key_taken((Game { modal: modal, ..*old(self) }), *final(self), key, save),
    {
        let mut save = false;
        match modal {
            Modal::GameOver(w) => {
                self.modal = Modal::GameOver(w);
                self.done = true;
            },
            Modal::Info(_) => {},
            Modal::ConfirmEnd(mut c) => {
                match c.handle_key(key) {
                    ConfirmResult::Pending => {
                        self.modal = Modal::ConfirmEnd(c);
                    },
                    ConfirmResult::Yes => {
                        self.end_turn();
                    },
                    ConfirmResult::No => {},
                }
            },
            Modal::Menu(mut m) => {
                match key {
                    Key::Up => {
                        m.prev();
                        self.modal = Modal::Menu(m);
                    },
                    Key::Down => {
                        m.next();
                        self.modal = Modal::Menu(m);
                    },
                    Key::Esc => {},
                    Key::Enter => {
                        let action = m.selected();
                        save = self.run(action);
                    },
                    _ => {
                        self.modal = Modal::Menu(m);
                    },
                }
            },
            Modal::Jail(menu) => self.feed_popup(Modal::Jail(menu), key),
            Modal::Estate(menu) => self.feed_popup(Modal::Estate(menu), key),
            Modal::Debt(debt) => self.feed_popup(Modal::Debt(debt), key),
            Modal::Auction(auc) => self.feed_popup(Modal::Auction(auc), key),
            Modal::Trade(t) => self.feed_popup(Modal::Trade(t), key),
            Modal::Buy { mut confirm, pos } => {
                match confirm.handle_key(key) {
                    ConfirmResult::Pending => {
                        self.modal = Modal::Buy { confirm, pos };
                    },
                    ConfirmResult::Yes => {
                        self.buy_current();
                    },
                    ConfirmResult::No => {
                        self.start_auction(pos);
                    },
                }
            },
            Modal::Card(draw) => {
                if key == Key::Char(' ') || key == Key::Enter {
                    self.finish_card(draw.card);
                } else {
                    self.modal = Modal::Card(draw);
                }
            },
            Modal::Roll(roll) => {
                let go = key == Key::Char(' ') || key == Key::Enter;
                if !(go && !roll.animating()) {
                    self.modal = Modal::Roll(roll);
                }
            },
            Modal::Clear => {
                match key {
                    Key::Enter => {
                        self.modal = Modal::Menu(ActionMenu::new());
                    },
                    Key::Char(c) => {
                        if c == 'm' {
                            self.modal = Modal::Menu(ActionMenu::new());
                        } else if c == ' ' {
                            self.start_roll();
                        } else {
                            match action_for_hotkey(c) {
                                Some(action) => {
                                    save = self.run(action);
                                },
                                None => {},
                            }
                        }
                    },
                    _ => {},
                }
            },
        }
        save
    }
}

} // verus!

verus! {

/// Whether a clip showing its last of `frames` frames, or reaching it after
/// `delta` more nanoseconds.
pub open spec fn clip_done(c: Clip, frames: usize, delta: u64) -> bool {
    c.finished_spec(frames) || clip_after(c.frame as int, frames as int, c.elapsed + delta).0 + 1 >= frames
}

/// The dice settled on `n`'s faces, both from 1 to 6, and that roll was applied
/// to the game `o` with `n` on screen, giving `f` (see [`roll_applied`]).
pub open spec fn dice_settled(o: Game, f: Game, n: Roll) -> bool {
    &&& n.result matches Some((a, b))
    &&& 1 <= a <= 6 && 1 <= b <= 6
    &&& roll_applied((Game { modal: Modal::Roll(n), ..o }), f, a, b)
}

impl Game {
    /// True once the winner has been shown and the player dismissed it.
    pub fn is_done(&self) -> (d: bool)
        ensures
            d == self.done,
    {
        self.done
    }

    /// Whether an animation is playing: a card being drawn, or dice still
    /// rolling. When false the caller can wait for input instead of ticking.
    pub fn needs_tick(&self) -> (b: bool)
        ensures
            b == (self.modal is Card || (self.modal matches Modal::Roll(r) && r.result is None)),
    {
        match &self.modal {
            Modal::Card(_) => true,
            Modal::Roll(roll) => roll.animating(),
            _ => false,
        }
    }

    /// Advance time by `delta` nanoseconds through animations of the given
    /// frame counts: the clock moves on; rolling dice play on and, once they
    /// settle, the roll is applied; a card being drawn plays on and, once its
    /// animation ends, the card is resolved.
    #[verifier::rlimit(40)]
    pub fn tick(&mut self, delta: u64, dice_frames: usize, card_frames: usize)
        requires
            old(self).wf(),
            old(self).has_room(),
            old(self).clock + delta <= u64::MAX,
            delta <= u64::MAX - FRAME_TIME,
        ensures
            final(self).stock_kept(old(self)),
            final(self).wf(),
            final(self).clock == old(self).clock + delta,
            final(self).done == old(self).done,
            final(self).players@.len() == old(self).players@.len(),
            total_money(final(self).players@) <= total_money(old(self).players@) + GO_SALARY,
            !(old(self).modal is Roll || old(self).modal is Card) ==> *final(self) == (Game {
                clock: (old(self).clock + delta) as u64,
                ..*old(self)
            }),
            old(self).modal matches Modal::Roll(r) ==> (r.result is Some ==> *final(self) == (Game {
                clock: (old(self).clock + delta) as u64,
                ..*old(self)
            })),
            old(self).modal matches Modal::Roll(r) ==> (r.result is None && !clip_done(r.clip, dice_frames, delta) ==> (
            *final(self) == (Game { modal: final(self).modal, clock: (old(self).clock + delta) as u64, ..*old(self) })
                && final(self).modal == Modal::Roll(Roll {
                clip: Clip {
                    frame: clip_after(r.clip.frame as int, dice_frames as int, r.clip.elapsed + delta).0 as usize,
                    elapsed: clip_after(r.clip.frame as int, dice_frames as int, r.clip.elapsed + delta).1 as u64,
                },
                result: None,
            }))),
            old(self).modal matches Modal::Roll(r) ==> (r.result is None && clip_done(r.clip, dice_frames, delta) ==> exists|
                n: Roll,
            | #[trigger] dice_settled(*old(self), *final(self), n)),
            old(self).modal matches Modal::Card(c) ==> (!clip_done(c.clip, card_frames, delta) ==> (
            *final(self) == (Game { modal: final(self).modal, clock: (old(self).clock + delta) as u64, ..*old(self) })
                && final(self).modal == Modal::Card(CardDraw {
                clip: Clip {
                    frame: clip_after(c.clip.frame as int, card_frames as int, c.clip.elapsed + delta).0 as usize,
                    elapsed: clip_after(c.clip.frame as int, card_frames as int, c.clip.elapsed + delta).1 as u64,
                },
                ..c
            }))),
            old(self).modal matches Modal::Card(c) ==> (clip_done(c.clip, card_frames, delta) ==> card_resolved(
                (Game { modal: Modal::Clear, ..*old(self) }),
                *final(self),
                c.card,
            )),
    {
        let clock = self.clock + delta;
        let ghost mut settled: Option<Roll> = None;
        let mut modal = Modal::Clear;
        swap(&mut modal, &mut self.modal);
        match modal {
            Modal::Roll(mut roll) => {
                if roll.animating() {
                    roll.tick(dice_frames, delta);
                    let result = roll.result();
                    self.modal = Modal::Roll(roll);
                    if let Some((a, b)) = result {
                        proof {
                            assert(*self == (Game { modal: Modal::Roll(roll), ..*old(self) }));
                        }
                        self.apply_roll(a, b);
                        proof {
                            settled = Some(roll);
                        }
                    }
                } else {
                    self.modal = Modal::Roll(roll);
                }
            },
            Modal::Card(mut draw) => {
                draw.clip.tick(card_frames, delta);
                if draw.clip.finished(card_frames) {
                    self.finish_card(draw.card);
                } else {
                    self.modal = Modal::Card(draw);
                }
            },
            other => {
                self.modal = other;
            },
        }
        self.clock = clock;
        proof {
            if let Some(n) = settled {
                assert(dice_settled(*old(self), *self, n));
            }
        }
    }
}

} // verus!

verus! {

/// A key handed to the popup `popup`, taken off the screen of the game `o`,
/// giving `f`: the popup's own handling (see [`jail_keyed`], [`estate_keyed`],
/// [`debt_keyed`], [`auction_keyed`], [`trade_keyed`]), with the popup back on
/// screen when it stays open.
pub open spec fn popup_fed(o: Game, f: Game, popup: Modal, key: Key) -> bool {
    match popup {
        Modal::Jail(m) => exists|g: Game, n: JailMenu, keep: bool|
            #[trigger] jail_keyed(o, m, g, n, key, keep) && f == (if keep {
                Game { modal: Modal::Jail(n), ..g }
            } else {
                g
            }),
        Modal::Estate(m) => exists|g: Game, n: EstateMenu, keep: bool|
            #[trigger] estate_keyed(o, m, g, n, key, keep) && f == (if keep {
                Game { modal: Modal::Estate(n), ..g }
            } else {
                g
            }),
        Modal::Debt(m) => exists|g: Game, n: Debt, keep: bool|
            #[trigger] debt_keyed(o, m, g, n, key, keep) && f == (if keep {
                Game { modal: Modal::Debt(n), ..g }
            } else {
                g
            }),
        Modal::Auction(m) => exists|g: Game, n: Auction, keep: bool|
            #[trigger] auction_keyed(o, m, g, n, key, keep) && f == (if keep {
                Game { modal: Modal::Auction(n), ..g }
            } else {
                g
            }),
        Modal::Trade(m) => exists|g: Game, n: Trade, keep: bool|
            #[trigger] trade_keyed(o, m, g, n, key, keep) && f == (if keep {
                Game { modal: Modal::Trade(n), ..g }
            } else {
                g
            }),
        _ => f == o,
    }
}

impl Game {
    /// Hand a key to a popup that takes keys itself (the jail menu, the estate
    /// list, the liquidation list, an auction or the trade builder), taken off
    /// the screen for the call; it goes back on screen when it stays open.
    pub fn feed_popup(&mut self, popup: Modal, key: Key)
        requires
            old(self).wf(),
            old(self).has_room(),
            old(self).modal is Clear,
            popup is Jail || popup is Estate || popup is Debt || popup is Auction || popup is Trade,
            (Game { modal: popup, ..*old(self) }).wf(),
            (Game { modal: popup, ..*old(self) }).has_room(),
        ensures
            final(self).wf(),
            final(self).stock_kept(old(self)),
            final(self).done == old(self).done,
            final(self).players@.len() == old(self).players@.len(),
            total_money(final(self).players@) <= total_money(old(self).players@) + 500_200,
            popup_fed(*old(self), *final(self), popup, key),
    {
        match popup {
            Modal::Jail(mut menu) => {
                let ghost m = menu;
                let keep = self.jail_input(&mut menu, key);
                let ghost g = *self;
                if keep {
                    self.modal = Modal::Jail(menu);
                }
                proof {
                    assert(jail_keyed(*old(self), m, g, menu, key, keep));
                }
            },
            Modal::Estate(mut menu) => {
                let ghost m = menu;
                let keep = self.estate_input(&mut menu, key);
                let ghost g = *self;
                if keep {
                    self.modal = Modal::Estate(menu);
                }
                proof {
                    assert(estate_keyed(*old(self), m, g, menu, key, keep));
                }
            },
            Modal::Debt(mut debt) => {
                let ghost m = debt;
                let keep = self.debt_input(&mut debt, key);
                let ghost g = *self;
                if keep {
                    self.modal = Modal::Debt(debt);
                }
                proof {
                    assert(debt_keyed(*old(self), m, g, debt, key, keep));
                }
            },
            Modal::Auction(mut auc) => {
                let ghost m = auc;
                let keep = self.auction_input(&mut auc, key);
                let ghost g = *self;
                if keep {
                    self.modal = Modal::Auction(auc);
                }
                proof {
                    assert(auction_keyed(*old(self), m, g, auc, key, keep));
                }
            },
            Modal::Trade(mut t) => {
                let ghost m = t;
                let keep = self.trade_input(&mut t, key);
                let ghost g = *self;
                if keep {
                    self.modal = Modal::Trade(t);
                }
                proof {
                    assert(trade_keyed(*old(self), m, g, t, key, keep));
                }
            },
            _ => {},
        }
    }
}

} // verus!
