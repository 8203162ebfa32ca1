//! Jail: sending a player there, the start-of-turn choice (pay / roll / card),
//! and resolving a roll made from jail.

use vstd::prelude::*;

use super::tally::{active_count, lemma_active_update, lemma_total_update, total_money};
use super::debt::{estate_worth, settled, Payee};
use super::rent::RentRule;
use super::{debit, landing_result, lemma_wf_kept, moved, Game, Modal, BOARD_LEN, GO_SALARY, WORTH_ROOM};
use crate::player::Player;
use crate::ui::dice::{Clip, Roll};
use crate::ui::Key;
use crate::ui::Cursor;
use super::note::Note;

verus! {

pub const JAIL_INDEX: usize = 10;
pub const BAIL: u32 = 50;

/// What a jailed player may do at the start of their turn.
#[derive(Debug, Clone, Copy, PartialEq, Eq, Structural)]
pub enum Choice {
    Pay,
    Roll,
    Card,
}

/// The in-jail action picker.
#[derive(Debug)]
pub struct JailMenu {
    pub choices: Vec<Choice>,
    pub cursor: Cursor,
}

} // verus!

verus! {

/// The choices a jailed player with this cash and these cards is offered:
/// bail when affordable, always a roll, the card when held.
pub open spec fn jail_choices(money: u32, cards: u8) -> Seq<Choice> {
    let a = if money >= BAIL {
        seq![Choice::Pay]
    } else {
        Seq::empty()
    };
    let b = a.push(Choice::Roll);
    if cards > 0 {
        b.push(Choice::Card)
    } else {
        b
    }
}

pub open spec fn choice_label(c: Choice) -> Seq<char> {
    match c {
        Choice::Pay => "Pay $50 bail"@,
        Choice::Roll => "Roll for doubles"@,
        Choice::Card => "Use Get Out of Jail Free"@,
    }
}

impl JailMenu {
    /// The menu labels, one per choice, in order.
    pub fn labels(&self) -> (v: Vec<&'static str>)
        ensures
            v@.len() == self.choices@.len(),
            forall|i: int| 0 <= i < v@.len() ==> #[trigger] v@[i]@ == choice_label(self.choices@[i]),
    {
        let mut v: Vec<&'static str> = Vec::new();
        let mut i: usize = 0;
        while i < self.choices.len()
            invariant
                i <= self.choices@.len(),
                v@.len() == i,
                forall|j: int| 0 <= j < i ==> #[trigger] v@[j]@ == choice_label(self.choices@[j]),
            decreases self.choices.len() - i,
        {
            let label = match self.choices[i] {
                Choice::Pay => "Pay $50 bail",
                Choice::Roll => "Roll for doubles",
                Choice::Card => "Use Get Out of Jail Free",
            };
            v.push(label);
            i = i + 1;
        }
        v
    }
}

/// One key on the jail menu, between the game `o` with menu `m` before and the
/// game `f` with menu `n` after; `keep` is whether the menu stays open.
pub open spec fn jail_keyed(o: Game, m: JailMenu, f: Game, n: JailMenu, key: Key, keep: bool) -> bool {
    &&& f.stock_kept(&o)
    &&& f.players@.len() == o.players@.len()
    &&& keep ==> f.modal is Clear && (Game { modal: Modal::Jail(n), ..f }).wf()
    &&& keep ==> f.players@ == o.players@ && n.choices@ == m.choices@
    &&& key is Esc ==> !keep && f == o
    &&& key is Enter ==> !keep && jail_chosen(o, f, m.choices@[m.cursor.selected as int])
    &&& key is Up ==> f == o && n.cursor == m.cursor.up_spec()
    &&& key is Down ==> f == o && n.cursor == m.cursor.down_spec()
    &&& !(key is Up || key is Down) ==> n.cursor == m.cursor
    &&& !(key is Esc || key is Enter) ==> keep
    &&& f.board@ == o.board@
    &&& f.pending@ == o.pending@
    &&& f.same_rest_but_modal(&o)
    &&& total_money(f.players@) <= total_money(o.players@)
    &&& active_count(f.players@) == active_count(o.players@)
}

/// The jailed current player acts on `choice`, between the game `o` before
/// and `f` after: pays the bail or spends a card to walk out, or stays in; the
/// roll begins either way.
pub open spec fn jail_chosen(o: Game, f: Game, choice: Choice) -> bool {
    &&& f.stock_kept(&o)
    &&& f.notes@ == match choice {
        Choice::Pay => o.notes@.push(Note::PaidBail { who: o.current }),
        Choice::Card => o.notes@.push(Note::UsedCard { who: o.current }),
        Choice::Roll => o.notes@,
    }
    &&& f.modal == Modal::Roll(Roll { clip: Clip::new_spec(), result: None })
    &&& ({
        let me = o.current as int;
        let p = o.players@[me];
        f.players@ == match choice {
            Choice::Pay => o.players@.update(
                me,
                Player { money: (p.money - BAIL) as u32, in_jail: false, jail_turns: 0, ..p },
            ),
            Choice::Card => o.players@.update(
                me,
                Player { get_out_free: (p.get_out_free - 1) as u8, in_jail: false, jail_turns: 0, ..p },
            ),
            Choice::Roll => o.players@,
        }
    })
    &&& f.board@ == o.board@
    &&& f.pending@ == o.pending@
    &&& f.same_rest_but_modal(&o)
    &&& total_money(f.players@) <= total_money(o.players@)
    &&& active_count(f.players@) == active_count(o.players@)
}

/// The jail menu opened for the current player, between the game `o` before
/// and `f` after, offering the bail only when they can pay it and the card only
/// when they hold one.
pub open spec fn jail_opened(o: Game, f: Game) -> bool {
    &&& f.modal matches Modal::Jail(m) && m.choices@ == jail_choices(
        o.players@[o.current as int].money,
        o.players@[o.current as int].get_out_free,
    ) && m.cursor.selected == 0
    &&& f.players@ == o.players@
    &&& f.board@ == o.board@
    &&& f.pending@ == o.pending@
    &&& f.same_rest_but_modal(&o)
    &&& f.notes@ == o.notes@
}

/// The current player sent to jail, between the game `o` before and `f` after:
/// onto the jail square with no salary, and the doubles streak cleared.
pub open spec fn sent_to_jail(o: Game, f: Game) -> bool {
    &&& f.notes@ == o.notes@.push(Note::Jailed { who: o.current })
    &&& f.players@ == o.players@.update(
        o.current as int,
        Player {
            position: JAIL_INDEX,
            in_jail: true,
            jail_turns: 0,
            ..o.players@[o.current as int]
        },
    )
    &&& f.doubles == 0
    &&& f.board@ == o.board@
    &&& f.modal == o.modal
    &&& f.pending@ == o.pending@
    &&& f.chance@ == o.chance@
    &&& f.chest@ == o.chest@
    &&& f.current == o.current
    &&& f.can_roll == o.can_roll
    &&& f.has_rolled == o.has_rolled
    &&& f.clock == o.clock
    &&& f.done == o.done
    &&& f.houses_left == o.houses_left
    &&& f.hotels_left == o.hotels_left
    &&& total_money(f.players@) == total_money(o.players@)
    &&& active_count(f.players@) == active_count(o.players@)
}

impl Game {
    /// Send the current player to Jail (no salary, doubles streak reset).
    pub fn send_to_jail(&mut self)
        requires
            old(self).wf(),
        ensures
            final(self).wf(),
            sent_to_jail(*old(self), *final(self)),
    {
        let who = self.current;
        proof {
            let p = Player { position: JAIL_INDEX, in_jail: true, jail_turns: 0, ..self.players@[who as int] };
            lemma_total_update(self.players@, who as int, p);
            lemma_active_update(self.players@, who as int, p);
        }
        let mut p = self.players[who];
        p.position = JAIL_INDEX;
        p.in_jail = true;
        p.jail_turns = 0;
        self.players.set(who, p);
        self.doubles = 0;
        self.note(Note::Jailed { who });
    }

    /// Let `who` out of jail.
    pub fn free_from_jail(&mut self, who: usize)
        requires
            old(self).wf(),
            who < old(self).players@.len(),
        ensures
            final(self).notes@ == old(self).notes@,
            final(self).wf(),
            final(self).players@ == old(self).players@.update(
                who as int,
                Player { in_jail: false, jail_turns: 0, ..old(self).players@[who as int] },
            ),
            final(self).board@ == old(self).board@,
            final(self).modal == old(self).modal,
            final(self).pending@ == old(self).pending@,
            final(self).same_rest_but_modal(old(self)),
            total_money(final(self).players@) == total_money(old(self).players@),
            active_count(final(self).players@) == active_count(old(self).players@),
    {
        proof {
            let p = Player { in_jail: false, jail_turns: 0, ..self.players@[who as int] };
            lemma_total_update(self.players@, who as int, p);
            lemma_active_update(self.players@, who as int, p);
        }
        let mut p = self.players[who];
        p.in_jail = false;
        p.jail_turns = 0;
        self.players.set(who, p);
    }

    /// Show the jailed player's options at the start of their turn.
    pub fn open_jail(&mut self)
        requires
            old(self).wf(),
        ensures
            final(self).wf(),
            jail_opened(*old(self), *final(self)),
    {
        let money = self.players[self.current].money;
        let cards = self.players[self.current].get_out_free;
        let mut choices: Vec<Choice> = Vec::new();
        if money >= BAIL {
            choices.push(Choice::Pay);
        }
        choices.push(Choice::Roll);
        if cards > 0 {
            choices.push(Choice::Card);
        }
        proof {
            assert(choices@ =~= jail_choices(money, cards));
        }
        let cursor = Cursor::new(choices.len());
        self.modal = Modal::Jail(JailMenu { choices, cursor });
    }

    /// Act on the chosen escape. Pay and Card free the player first; then the
    /// roll begins (jail rules for a roll still in jail apply when it settles).
    pub fn resolve_jail_choice(&mut self, choice: Choice)
        requires
            old(self).wf(),
            choice == Choice::Pay ==> old(self).players@[old(self).current as int].money >= BAIL,
            choice == Choice::Card ==> old(self).players@[old(self).current as int].get_out_free >= 1,
        ensures
            final(self).wf(),
            jail_chosen(*old(self), *final(self), choice),
    {
        let who = self.current;
        let ghost g0 = *self;
        self.modal = Modal::Clear;
        match choice {
            Choice::Pay => {
                debit(&mut self.players, who, BAIL);
                proof {
                    lemma_wf_kept(&Game { modal: Modal::Clear, ..g0 }, self);
                }
                self.free_from_jail(who);
                self.note(Note::PaidBail { who });
            },
            Choice::Card => {
                proof {
                    let p = Player { get_out_free: (self.players@[who as int].get_out_free - 1) as u8, ..self.players@[who as int] };
                    lemma_total_update(self.players@, who as int, p);
                    lemma_active_update(self.players@, who as int, p);
                }
                self.players[who].get_out_free = self.players[who].get_out_free - 1;
                self.free_from_jail(who);
                self.note(Note::UsedCard { who });
            },
            Choice::Roll => {},
        }
        self.modal = Modal::Roll(Roll::new());
        proof {
            let me = old(self).current as int;
            let p = old(self).players@[me];
            assert(self.players@ == match choice {
                Choice::Pay => old(self).players@.update(
                    me,
                    Player { money: (p.money - BAIL) as u32, in_jail: false, jail_turns: 0, ..p },
                ),
                Choice::Card => old(self).players@.update(
                    me,
                    Player { get_out_free: (p.get_out_free - 1) as u8, in_jail: false, jail_turns: 0, ..p },
                ),
                Choice::Roll => old(self).players@,
            });
            assert(jail_chosen(*old(self), *self, choice));
        }
    }

    /// Handle one jail-menu key press. Returns `true` to keep the menu open.
    pub fn jail_input(&mut self, menu: &mut JailMenu, key: Key) -> (keep: bool)
        requires
            old(self).wf(),
            old(self).modal is Clear,
            (Game { modal: Modal::Jail(*old(menu)), ..*old(self) }).wf(),
        ensures
            final(self).wf(),
            jail_keyed(*old(self), *old(menu), *final(self), *final(menu), key, keep),
    {
        match key {
            Key::Up => menu.cursor.up(),
            Key::Down => menu.cursor.down(),
            Key::Esc => {
                return false;
            },
            Key::Enter => {
                let choice = menu.choices[menu.cursor.selected];
                self.resolve_jail_choice(choice);
                return false;
            },
            _ => {},
        }
        true
    }
}

} // verus!

verus! {

impl Game {
    /// Resolve a roll made from jail: doubles escape and move; otherwise count a
    /// failed attempt, and on the third pay the bail and move regardless. The
    /// turn ends after this either way.
    #[verifier::rlimit(40)]
    pub fn apply_jail_roll(&mut self, who: usize, a: u8, b: u8, total: usize)
        requires
            old(self).wf(),
            old(self).modal_independent(),
            who < old(self).players@.len(),
            total <= 255,
            total_money(old(self).players@) + WORTH_ROOM + GO_SALARY <= u32::MAX,
        ensures
            final(self).stock_kept(old(self)),
            final(self).done == old(self).done,
            final(self).wf(),
            total_money(final(self).players@) <= total_money(old(self).players@) + GO_SALARY,
            final(self).players@.len() == old(self).players@.len(),
            final(self).move_ready(),
            !final(self).can_roll || (final(self).players@[who as int].bankrupt && who == old(self).current),
            a != b && old(self).players@[who as int].jail_turns + 1 < 3 && !old(self).players@[who as int].bankrupt ==> final(self).players@
                == old(self).players@.update(
                who as int,
                Player {
                    jail_turns: (old(self).players@[who as int].jail_turns + 1) as u8,
                    ..old(self).players@[who as int]
                },
            ) && final(self).modal == old(self).modal && final(self).current == old(self).current
                && final(self).notes@ == old(self).notes@.push(
                Note::FailedDoubles { who, tries: (old(self).players@[who as int].jail_turns + 1) as u8 },
            ),
            a == b && who == old(self).current ==> {
                let p = old(self).players@[who as int];
                landing_result(
                    *old(self),
                    moved(
                        old(self).players@.update(who as int, Player { in_jail: false, jail_turns: 0, ..p }),
                        who as int,
                        total as int,
                    ),
                    who as int,
                    (p.position + total) % (BOARD_LEN as int),
                    total as int,
                    RentRule::Normal,
                    *final(self),
                )
            },
            a != b && old(self).players@[who as int].jail_turns + 1 >= 3 && who == old(self).current
                && old(self).players@[who as int].money >= BAIL ==> {
                let p = old(self).players@[who as int];
                landing_result(
                    *old(self),
                    moved(
                        settled(
                            old(self).players@.update(who as int, Player { in_jail: false, jail_turns: 0, ..p }),
                            who as int,
                            BAIL as int,
                            Payee::Bank,
                        ),
                        who as int,
                        total as int,
                    ),
                    who as int,
                    (p.position + total) % (BOARD_LEN as int),
                    total as int,
                    RentRule::Normal,
                    *final(self),
                )
            },
            a != b && old(self).players@[who as int].jail_turns + 1 >= 3 && old(self).players@[who as int].money < BAIL
                ==> {
                let p = old(self).players@[who as int];
                let freed = old(self).players@.update(who as int, Player { in_jail: false, jail_turns: 0, ..p });
                &&& p.money + estate_worth(old(self).board@, who, BOARD_LEN as int) >= BAIL ==> final(self).players@
                    == freed && final(self).board@ == old(self).board@ && (final(self).modal matches Modal::Debt(d)
                    && d.who == who && d.amount == BAIL && d.payee == Payee::Bank && d.then_advance == Some(total))
                &&& p.money + estate_worth(old(self).board@, who, BOARD_LEN as int) < BAIL
                    ==> final(self).players@[who as int].bankrupt
            },
    {
        if a == b {
            self.free_from_jail(who);
            self.note(Note::LeftJail { who });
            self.advance(who, total);
        } else {
            let mut p = self.players[who];
            p.jail_turns = p.jail_turns + 1;
            let n = p.jail_turns;
            if n >= 3 {
                p.in_jail = false;
                p.jail_turns = 0;
            }
            proof {
                lemma_total_update(self.players@, who as int, p);
                lemma_active_update(self.players@, who as int, p);
            }
            let ghost g0 = *self;
            self.players.set(who, p);
            proof {
                lemma_wf_kept(&g0, self);
            }
            if n >= 3 {
                self.note(Note::ForcedBail { who });
                self.charge_then(who, BAIL, Payee::Bank, Some(total));
            } else {
                self.note(Note::FailedDoubles { who, tries: n });
            }
        }
        self.can_roll = false;
        self.settle_if_bankrupt(who);
    }
}

} // verus!
