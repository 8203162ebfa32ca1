//! Debt settlement: charging a player, and the liquidation list that lets them
//! mortgage and sell down before bankruptcy is forced on them.

use vstd::prelude::*;

use super::tally::{active_count, lemma_active_update, lemma_total_ge, lemma_total_nonneg, lemma_total_two, lemma_total_update, total_money};
use super::estate::{mortgaged_board, mortgaged_players};
use super::rent::RentRule;
use super::{advanced, bankrupted, landing_result, moved, pending_ran};
use super::{credit, debit, VALUE_CAP, holdings_upto, index_list_ok, lemma_holdings_upto, lemma_wf_kept, space_ok, Game, Modal, BOARD_LEN, GO_SALARY, WORTH_ROOM};
use crate::player::Player;
use crate::space::Space;
use crate::ui::{Cursor, Key};
use super::note::Note;

verus! {

/// Who receives a settled debt.
#[derive(Debug)]
pub enum Payee {
    Bank,
    Player(usize),
    /// Split evenly among these players.
    Split(Vec<usize>),
}

impl Payee {
    /// Every player named lies within a table of `n` seats.
    pub open spec fn valid(&self, n: int) -> bool {
        match self {
            Payee::Bank => true,
            Payee::Player(p) => *p < n,
            Payee::Split(v) => v@.len() <= u32::MAX && forall|i: int| 0 <= i < v@.len() ==> #[trigger] v@[i] < n,
        }
    }

    pub open spec fn creditor_spec(&self) -> Option<usize> {
        match self {
            Payee::Player(p) => Some(*p),
            _ => None,
        }
    }

    /// The player who inherits the debtor's estate on bankruptcy, if any.
    pub fn creditor(&self) -> (c: Option<usize>)
        ensures
            c == self.creditor_spec(),
    {
        match self {
            Payee::Player(p) => Some(*p),
            _ => None,
        }
    }
}

/// A debt the player can't cover in cash but could cover by liquidating.
#[derive(Debug)]
pub struct Debt {
    pub who: usize,
    pub amount: u32,
    pub payee: Payee,
    /// Steps to move once the debt clears (the forced-bail exit from jail).
    pub then_advance: Option<usize>,
    pub slots: Vec<usize>,
    pub cursor: Cursor,
}

} // verus!

verus! {

/// Money paid to each listed seat in turn: `per` each, and one more to each of
/// the first `extra` in the list.
pub open spec fn credit_each(s: Seq<Player>, v: Seq<usize>, per: int, extra: int) -> Seq<Player>
    decreases v.len(),
{
    if v.len() == 0 {
        s
    } else {
        let t = credit_each(s, v.drop_last(), per, extra);
        let w = v.last() as int;
        let share = per + if v.len() - 1 < extra {
            1int
        } else {
            0int
        };
        t.update(w, Player { money: (t[w].money + share) as u32, ..t[w] })
    }
}

/// How many of `len` seats get the extra dollar.
pub open spec fn extras(extra: int, len: int) -> int {
    if extra <= len {
        extra
    } else {
        len
    }
}

/// The players after `who` pays `amount` (capped at their cash) to `payee`;
/// a split payment is shared as evenly as whole dollars allow, the first seats
/// listed taking the remainder a dollar each.
pub open spec fn settled(s: Seq<Player>, who: int, amount: int, payee: Payee) -> Seq<Player> {
    let a = if amount <= s[who].money {
        amount
    } else {
        s[who].money as int
    };
    let d = s.update(who, Player { money: (s[who].money - a) as u32, ..s[who] });
    match payee {
        Payee::Bank => d,
        Payee::Player(p) => d.update(p as int, Player { money: (d[p as int].money + a) as u32, ..d[p as int] }),
        Payee::Split(v) => {
            let n = if v@.len() == 0 {
                1int
            } else {
                v@.len() as int
            };
            credit_each(d, v@, a / n, a % n)
        },
    }
}

/// What `who`'s holdings among the first `n` squares can raise: the mortgage
/// value of every unmortgaged deed plus half the cost of every building.
pub open spec fn estate_worth(b: Seq<Space>, who: usize, n: int) -> int
    decreases n,
{
    if n <= 0 {
        0
    } else {
        estate_worth(b, who, n - 1) + if b[n - 1].owner_spec() == Some(who) {
            (if b[n - 1].mortgaged_spec() {
                0int
            } else {
                b[n - 1].mortgage_value_spec() as int
            }) + b[n - 1].houses_spec() * b[n - 1].house_refund_spec()
        } else {
            0int
        }
    }
}

proof fn lemma_estate_worth_bounds(b: Seq<Space>, who: usize, n: int)
    requires
        0 <= n <= b.len(),
        forall|i: int| 0 <= i < b.len() ==> space_ok(#[trigger] b[i]),
    ensures
        0 <= estate_worth(b, who, n) <= n * 3_000_000,
        estate_worth(b, who, n) > 0 ==> holdings_upto(b, who, n).len() > 0,
    decreases n,
{
    if n > 0 {
        lemma_estate_worth_bounds(b, who, n - 1);
        let s = b[n - 1];
        assert(space_ok(s));
        let h = s.houses_spec();
        let r = s.house_refund_spec();
        assert(h <= 5);
        assert(r <= 500_000);
        assert(h * r <= 5 * 500_000) by (nonlinear_arith)
            requires
                h <= 5,
                r <= 500_000,
                0 <= h,
                0 <= r,
        ;
        assert(h * r >= 0) by (nonlinear_arith)
            requires
                0 <= h,
                0 <= r,
        ;
    }
}

proof fn lemma_credit_each_total(s: Seq<Player>, v: Seq<usize>, per: int, extra: int)
    requires
        index_list_ok(v, s.len() as int),
        0 <= per,
        0 <= extra,
        total_money(s) + per * v.len() + extras(extra, v.len() as int) <= u32::MAX,
    ensures
        total_money(credit_each(s, v, per, extra)) == total_money(s) + per * v.len() + extras(extra, v.len() as int),
        credit_each(s, v, per, extra).len() == s.len(),
        active_count(credit_each(s, v, per, extra)) == active_count(s),
        forall|i: int| 0 <= i < s.len() ==> #[trigger] credit_each(s, v, per, extra)[i].money >= s[i].money,
        forall|i: int| 0 <= i < s.len() ==> {
            let a = #[trigger] credit_each(s, v, per, extra)[i];
            a.position == s[i].position && a.jail_turns == s[i].jail_turns && a.bankrupt == s[i].bankrupt
                && a.get_out_free == s[i].get_out_free && a.in_jail == s[i].in_jail
        },
    decreases v.len(),
{
    if v.len() > 0 {
        assert(per * (v.len() - 1) <= per * v.len()) by (nonlinear_arith)
            requires
                0 <= per,
                v.len() >= 1,
        ;
        lemma_credit_each_total(s, v.drop_last(), per, extra);
        let t = credit_each(s, v.drop_last(), per, extra);
        let w = v.last() as int;
        let share = per + if v.len() - 1 < extra {
            1int
        } else {
            0int
        };
        assert(w < s.len());
        lemma_total_ge(t, w);
        lemma_total_update(t, w, Player { money: (t[w].money + share) as u32, ..t[w] });
        lemma_active_update(t, w, Player { money: (t[w].money + share) as u32, ..t[w] });
        assert(per * v.len() == per * (v.len() - 1) + per) by (nonlinear_arith);
    }
}

/// Pay `amount` from the bank to the listed seats, shared as evenly as whole
/// dollars allow: each gets `amount / len`, and the first `amount % len` in
/// the list one dollar more, so the seats receive `amount` in all.
pub fn credit_shares(players: &mut Vec<Player>, others: &Vec<usize>, amount: u32)
    requires
        index_list_ok(others@, old(players)@.len() as int),
        others@.len() <= u32::MAX,
        total_money(old(players)@) + amount <= u32::MAX,
    ensures
        ({
            let n = if others@.len() == 0 {
                1int
            } else {
                others@.len() as int
            };
            final(players)@ == credit_each(old(players)@, others@, amount as int / n, amount as int % n)
        }),
        others@.len() > 0 ==> total_money(final(players)@) == total_money(old(players)@) + amount,
        total_money(final(players)@) <= total_money(old(players)@) + amount,
        active_count(final(players)@) == active_count(old(players)@),
        final(players)@.len() == old(players)@.len(),
        forall|i: int| 0 <= i < old(players)@.len() ==> #[trigger] final(players)@[i].money >= old(players)@[i].money,
        forall|i: int| 0 <= i < old(players)@.len() ==> {
            let a = #[trigger] final(players)@[i];
            let o = old(players)@[i];
            a.position == o.position && a.jail_turns == o.jail_turns && a.bankrupt == o.bankrupt
                && a.get_out_free == o.get_out_free && a.in_jail == o.in_jail
        },
{
    let count: usize = if others.len() == 0 {
        1
    } else {
        others.len()
    };
    let count32 = count as u32;
    let per = amount / count32;
    let extra = amount % count32;
    let ghost d = players@;
    let ghost v = others@;
    proof {
        vstd::arithmetic::div_mod::lemma_fundamental_div_mod(amount as int, count as int);
        assert(count32 == count);
        assert(per * count + extra == amount) by (nonlinear_arith)
            requires
                amount as int == count as int * (amount as int / count as int) + amount as int % count as int,
                per as int == amount as int / count as int,
                extra as int == amount as int % count as int,
        ;
        assert(extra < count);
        if v.len() > 0 {
            assert(per * v.len() + extras(extra as int, v.len() as int) == amount);
        } else {
            assert(per * v.len() + extras(extra as int, v.len() as int) == 0);
        }
    }
    let mut k: usize = 0;
    while k < others.len()
        invariant
            k <= v.len(),
            v == others@,
            count == (if v.len() == 0 {
                1
            } else {
                v.len()
            }),
            per * count + extra == amount,
            extra < count,
            index_list_ok(v, d.len() as int),
            players@ == credit_each(d, v.take(k as int), per as int, extra as int),
            per * v.len() + extras(extra as int, v.len() as int) <= amount,
            total_money(d) + amount <= u32::MAX,
        decreases v.len() - k,
    {
        proof {
            assert(per * k + per <= per * v.len()) by (nonlinear_arith)
                requires
                    k < v.len(),
                    per >= 0,
            ;
            assert(per * k <= per * v.len()) by (nonlinear_arith)
                requires
                    k <= v.len(),
                    per >= 0,
            ;
            lemma_credit_each_total(d, v.take(k as int), per as int, extra as int);
            lemma_total_ge(players@, v[k as int] as int);
        }
        let share = if k < extra as usize {
            per + 1
        } else {
            per
        };
        credit(players, others[k], share);
        proof {
            assert(v.take(k + 1).drop_last() =~= v.take(k as int));
            assert(v.take(k + 1).len() - 1 == k);
        }
        k = k + 1;
    }
    proof {
        assert(v.take(v.len() as int) =~= v);
        lemma_credit_each_total(d, v, per as int, extra as int);
    }
}

/// The message for `who` having paid `paid` to `payee`; a split payment is
/// reported by each player's share.
pub open spec fn payment_note(who: usize, paid: u32, payee: Payee) -> Note {
    match payee {
        Payee::Bank => Note::Paid { who, amount: paid },
        Payee::Player(p) => Note::PaidTo { who, to: p, amount: paid },
        Payee::Split(v) => Note::PaidEach {
            who,
            per: (paid as int / (if v@.len() == 0 {
                1int
            } else {
                v@.len() as int
            })) as u32,
        },
    }
}

/// `who` paid `amount` (or all their cash, when short) to `payee`, between the
/// game `o` before and `f` after.
pub open spec fn settle_done(o: Game, f: Game, who: usize, amount: u32, payee: Payee) -> bool {
    &&& f.notes@ == o.notes@.push(
        payment_note(
            who,
            if amount <= o.players@[who as int].money {
                amount
            } else {
                o.players@[who as int].money
            },
            payee,
        ),
    )
    &&& forall|i: int| 0 <= i < o.players@.len() ==> #[trigger] f.players@[i].position
        == o.players@[i].position
    &&& f.stock_kept(&o)
    &&& f.players@ == settled(o.players@, who as int, amount as int, payee)
    &&& f.players@.len() == o.players@.len()
    &&& forall|i: int| 0 <= i < o.players@.len() ==> #[trigger] f.players@[i].bankrupt
        == o.players@[i].bankrupt
    &&& total_money(f.players@) <= total_money(o.players@)
    &&& active_count(f.players@) == active_count(o.players@)
    &&& f.board@ == o.board@
    &&& f.modal == o.modal
    &&& f.same_rest_but_modal(&o)
}

/// `who`, unable to cover a bill to `payee` even by selling up, hands over all
/// their cash and goes bankrupt (see [`bankrupted`]), between the game `o`
/// before and `f` after.
pub open spec fn went_under(o: Game, f: Game, who: usize, payee: Payee) -> bool {
    exists|h: Game|
        #[trigger] settle_done(o, h, who, o.players@[who as int].money, payee) && bankrupted(
            h,
            f,
            who,
            payee.creditor_spec(),
        )
}

impl Game {
    /// Move `amount` (capped at what they hold) from `who` to `payee`. A split
    /// share goes out in whole equal parts; any remainder goes nowhere.
    pub fn settle(&mut self, who: usize, amount: u32, payee: &Payee)
        requires
            old(self).wf(),
            old(self).modal_independent(),
            who < old(self).players@.len(),
            payee.valid(old(self).players@.len() as int),
            total_money(old(self).players@) <= u32::MAX,
        ensures
            final(self).wf(),
            settle_done(*old(self), *final(self), who, amount, *payee),
    {
        let ghost g0 = *self;
        let amount = amount.min(self.players[who].money);
        debit(&mut self.players, who, amount);
        let note = match payee {
            Payee::Bank => Note::Paid { who, amount },
            Payee::Player(p) => {
                proof {
                    lemma_total_ge(self.players@, *p as int);
                }
                credit(&mut self.players, *p, amount);
                Note::PaidTo { who, to: *p, amount }
            },
            Payee::Split(others) => {
                proof {
                    lemma_total_nonneg(self.players@);
                }
                credit_shares(&mut self.players, others, amount);
                let n = others.len();
                let parts: u32 = if n == 0 {
                    1
                } else {
                    n as u32
                };
                Note::PaidEach { who, per: amount / parts }
            },
        };
        proof {
            lemma_wf_kept(&g0, self);
        }
        self.note(note);
    }

    /// Cash plus everything the estate could be liquidated for: mortgage value
    /// on unmortgaged holdings, half the build cost on every house.
    pub fn net_worth(&self, who: usize) -> (w: u32)
        requires
            self.wf(),
            who < self.players@.len(),
            total_money(self.players@) + WORTH_ROOM <= u32::MAX,
        ensures
            w == self.players@[who as int].money + estate_worth(self.board@, who, BOARD_LEN as int),
    {
        let mut sum: u32 = 0;
        let mut i: usize = 0;
        proof {
            lemma_total_ge(self.players@, who as int);
        }
        while i < self.board.len()
            invariant
                i <= BOARD_LEN,
                self.wf(),
                sum == estate_worth(self.board@, who, i as int),
            decreases BOARD_LEN - i,
        {
            proof {
                lemma_estate_worth_bounds(self.board@, who, i + 1);
            }
            let s = &self.board[i];
            if s.owner() == Some(who) {
                let mortgage = if s.is_mortgaged() {
                    0
                } else {
                    s.mortgage_value()
                };
                proof {
                    assert(space_ok(*s));
                    assert(s.houses_spec() * s.house_refund_spec() <= 5 * 500_000) by (nonlinear_arith)
                        requires
                            s.houses_spec() <= 5,
                            s.house_refund_spec() <= 500_000,
                    ;
                }
                sum = sum + (mortgage + s.houses() as u32 * s.house_refund());
            }
            i = i + 1;
        }
        proof {
            lemma_estate_worth_bounds(self.board@, who, BOARD_LEN as int);
        }
        sum + self.players[who].money
    }
}

} // verus!

verus! {

/// `who` billed `amount` for `payee`, between the game `o` before and `f` after;
/// `out` is whether it bankrupted them. Cash pays at once; short of cash, the
/// liquidation list opens (holding back the move `then_advance`, if any) when
/// the estate could cover the rest, and otherwise they go bankrupt.
pub open spec fn charged(o: Game, f: Game, who: usize, amount: u32, payee: Payee, then_advance: Option<usize>, out: bool) -> bool {
    &&& f.stock_kept(&o)
    &&& total_money(f.players@) <= total_money(o.players@)
    &&& active_count(f.players@) <= active_count(o.players@)
    &&& f.players@.len() == o.players@.len()
    &&& f.same_rest_but_modal_and_stock(&o)
    &&& out ==> active_count(f.players@) < active_count(o.players@)
        || o.players@[who as int].bankrupt
    &&& !out ==> f.pending@ == o.pending@
    &&& amount == 0 ==> !out && f.players@ == o.players@ && f.board@
        == o.board@ && f.modal == o.modal
    &&& amount == 0 ==> f.notes@ == o.notes@
    &&& amount > 0 && o.players@[who as int].money >= amount ==> f.notes@ == o.notes@.push(
        payment_note(who, amount, payee),
    )
    &&& amount > 0 && o.players@[who as int].money >= amount ==> !out && f.players@
        == settled(o.players@, who as int, amount as int, payee) && f.board@
        == o.board@ && f.modal == o.modal
    &&& amount > 0 && o.players@[who as int].money < amount ==> {
        let worth = o.players@[who as int].money + estate_worth(o.board@, who, BOARD_LEN as int);
        &&& worth < amount ==> out && f.players@[who as int].bankrupt && went_under(
            o,
            f,
            who,
            payee,
        )
        &&& worth >= amount ==> !out && f.players@ == o.players@
            && f.board@ == o.board@ && f.notes@ == o.notes@.push(Note::MustRaise { who, amount })
            && (f.modal matches Modal::Debt(d) && d.who == who && d.amount == amount
            && d.payee == payee && d.then_advance == then_advance
            && d.slots@ == holdings_upto(o.board@, who, BOARD_LEN as int)
            && d.cursor.selected == 0)
    }
    &&& f.modal is Clear || f.modal == o.modal || f.modal is Debt
        || f.modal is GameOver
    &&& forall|i: int| 0 <= i < o.players@.len() && #[trigger] o.players@[i].bankrupt ==> f.players@[i].bankrupt
}

impl Game {
    /// Bill `who`, with no follow-up move and no draining of queued work: paid
    /// outright when the cash is there; otherwise, if their whole estate falls
    /// short, they pay what they have and go bankrupt (the result is then
    /// `true`); otherwise the liquidation list opens.
    pub fn charge_step(&mut self, who: usize, amount: u32, payee: Payee, then_advance: Option<usize>) -> (out: bool)
        requires
            old(self).wf(),
            old(self).modal_independent(),
            who < old(self).players@.len(),
            payee.valid(old(self).players@.len() as int),
            total_money(old(self).players@) + WORTH_ROOM <= u32::MAX,
            then_advance matches Some(s) ==> s <= 255,
        ensures
            final(self).wf(),
            charged(*old(self), *final(self), who, amount, payee, then_advance, out),
    {
        if amount == 0 {
            return false;
        }
        if self.players[who].money >= amount {
            self.settle(who, amount, &payee);
            return false;
        }
        if self.net_worth(who) < amount {
            let left = self.players[who].money;
            let creditor = payee.creditor();
            self.settle(who, left, &payee);
            let ghost h = *self;
            self.bankrupt_core(who, creditor);
            proof {
                assert(settle_done(*old(self), h, who, left, payee));
            }
            return true;
        }
        let slots = self.holdings(who);
        proof {
            lemma_estate_worth_bounds(self.board@, who, BOARD_LEN as int);
            lemma_holdings_upto(self.board@, who, BOARD_LEN as int);
        }
        let cursor = Cursor::new(slots.len());
        self.note(Note::MustRaise { who, amount });
        self.modal = Modal::Debt(Debt { who, amount, payee, then_advance, slots, cursor });
        false
    }
}

} // verus!

verus! {

impl Game {
    /// Bill `who`, and once the bill is paid move them `then_advance` squares:
    /// at once when the cash is there, or when the liquidation list clears.
    pub fn charge_then(&mut self, who: usize, amount: u32, payee: Payee, then_advance: Option<usize>)
        requires
            old(self).wf(),
            old(self).modal_independent(),
            who < old(self).players@.len(),
            payee.valid(old(self).players@.len() as int),
            total_money(old(self).players@) + WORTH_ROOM + GO_SALARY <= u32::MAX,
            then_advance matches Some(s) ==> s <= 255,
        ensures
            final(self).stock_kept(old(self)),
            final(self).done == old(self).done,
            final(self).wf(),
            total_money(final(self).players@) <= total_money(old(self).players@) + GO_SALARY,
            final(self).players@.len() == old(self).players@.len(),
            final(self).current == old(self).current,
            final(self).can_roll == old(self).can_roll,
            final(self).has_rolled == old(self).has_rolled,
            final(self).move_ready(),
            amount == 0 ==> *final(self) == *old(self),
            amount > 0 && old(self).players@[who as int].money >= amount ==> exists|h: Game|
                #[trigger] settle_done(*old(self), h, who, amount, payee) && match then_advance {
                    Some(steps) => advanced(h, *final(self), who, steps),
                    None => *final(self) == h,
                },
            amount > 0 && old(self).players@[who as int].money < amount && old(self).players@[who as int].money
                + estate_worth(old(self).board@, who, BOARD_LEN as int) < amount ==> final(self).players@[who as int].bankrupt
                && exists|g: Game| #[trigger] went_under(*old(self), g, who, payee) && pending_ran(g, *final(self)),
            amount > 0 && old(self).players@[who as int].money >= amount && then_advance is None ==> final(self).players@
                == settled(old(self).players@, who as int, amount as int, payee) && final(self).board@ == old(self).board@
                && final(self).modal == old(self).modal,
            then_advance matches Some(steps) ==> (amount > 0 && old(self).players@[who as int].money >= amount
                && who == old(self).current ==> landing_result(
                *old(self),
                moved(settled(old(self).players@, who as int, amount as int, payee), who as int, steps as int),
                who as int,
                (old(self).players@[who as int].position + steps) % (BOARD_LEN as int),
                steps as int,
                RentRule::Normal,
                *final(self),
            )),
            amount > 0 && old(self).players@[who as int].money < amount && old(self).players@[who as int].money
                + estate_worth(old(self).board@, who, BOARD_LEN as int) >= amount ==> final(self).players@
                == old(self).players@ && (final(self).modal matches Modal::Debt(d) && d.who == who && d.amount
                == amount && d.payee == payee && d.then_advance == then_advance && d.slots@ == holdings_upto(
                old(self).board@,
                who,
                BOARD_LEN as int,
            ) && d.cursor.selected == 0) && final(self).board@ == old(self).board@,
    {
        if amount == 0 {
            return;
        }
        if self.players[who].money >= amount {
            self.settle(who, amount, &payee);
            let ghost h = *self;
            if let Some(steps) = then_advance {
                self.advance(who, steps);
            }
            proof {
                assert(settle_done(*old(self), h, who, amount, payee));
            }
            return;
        }
        if self.charge_step(who, amount, payee, then_advance) {
            let ghost g = *self;
            self.run_pending();
            proof {
                if old(self).players@[who as int].money + estate_worth(old(self).board@, who, BOARD_LEN as int) < amount {
                    assert(went_under(*old(self), g, who, payee));
                }
            }
        }
    }
}

} // verus!

verus! {

/// The board and the players after one key on the liquidation list, before
/// any payment: Enter mortgages the selected deed, `s` sells a building off it
/// (when selling is allowed there), and any other key leaves both alone.
pub open spec fn liquidated(g: &Game, d: &Debt, key: Key) -> (Seq<Space>, Seq<Player>) {
    let idx = d.slots@[d.cursor.selected as int] as int;
    let b = g.board@;
    let s = g.players@;
    let who = d.who as int;
    match key {
        Key::Enter => (mortgaged_board(b, idx), mortgaged_players(b, s, who, idx)),
        Key::Char(c) => if c == 's' && g.can_sell(idx) {
            (
                b.update(idx, b[idx].with_houses((b[idx].houses_spec() - 1) as u8)),
                s.update(who, Player { money: (s[who].money + b[idx].house_refund_spec()) as u32, ..s[who] }),
            )
        } else {
            (b, s)
        },
        _ => (b, s),
    }
}

/// The bill in `m` paid once `key` raised the cash from the game `o`: `h` is
/// the game with the bill settled, `g` the game after any move the bill held
/// back.
pub open spec fn debt_settled(o: Game, m: Debt, key: Key, h: Game, g: Game) -> bool {
    let l = liquidated(&o, &m, key);
    &&& h.players@ == settled(l.1, m.who as int, m.amount as int, m.payee)
    &&& h.board@ == l.0
    &&& h.modal == o.modal
    &&& h.pending@ == o.pending@
    &&& h.current == o.current
    &&& match m.then_advance {
        Some(st) => advanced(h, g, m.who, st),
        None => g == h,
    }
}

/// One key on the liquidation list, between the game `o` with debt `m` before
/// and the game `f` with debt `n` after; `keep` is whether the list stays open.
pub open spec fn debt_keyed(o: Game, m: Debt, f: Game, n: Debt, key: Key, keep: bool) -> bool {
    &&& key != Key::Char('b') && !keep ==> exists|h: Game, g: Game|
        #[trigger] debt_settled(o, m, key, h, g) && pending_ran(g, f)
    &&& f.stock_kept(&o)
    &&& f.done == o.done
    &&& keep ==> f.modal is Clear && (Game { modal: Modal::Debt(n), ..f }).wf()
    &&& n.who == m.who
    &&& n.amount == m.amount
    &&& n.payee == m.payee
    &&& n.then_advance == m.then_advance
    &&& n.slots@ == m.slots@
    &&& f.players@.len() == o.players@.len()
    &&& key == Key::Char('b') ==> !keep && f.players@[m.who as int].bankrupt
    &&& keep ==> f.players@[m.who as int].money < m.amount
    &&& !(key is Enter || key is Char) ==> (keep <==> o.players@[m.who as int].money
        < m.amount)
    &&& keep && !(key is Enter || key is Char) ==> f == o
    &&& key != Key::Char('b') && keep ==> f.board@ == liquidated(&o, &m, key).0
        && f.players@ == liquidated(&o, &m, key).1
    &&& key != Key::Char('b') && !keep ==> liquidated(&o, &m, key).1[m.who as int].money
        >= m.amount
    &&& key != Key::Char('b') && !keep && m.then_advance is None && o.pending@.len() == 0
        ==> f.players@ == settled(
        liquidated(&o, &m, key).1,
        m.who as int,
        m.amount as int,
        m.payee,
    ) && f.board@ == liquidated(&o, &m, key).0 && f.modal is Clear
    &&& key is Up ==> n.cursor.selected == (if m.cursor.selected == 0 {
        0
    } else {
        (m.cursor.selected - 1) as usize
    })
    &&& key is Down ==> n.cursor.selected == (if m.cursor.selected + 1 < m.slots@.len() {
        (m.cursor.selected + 1) as usize
    } else {
        m.cursor.selected
    })
    &&& !(key is Up || key is Down) ==> n.cursor == m.cursor
    &&& total_money(f.players@) <= total_money(o.players@) + VALUE_CAP / 2 + GO_SALARY
}

impl Game {
    /// Handle one key on the liquidation list. Returns `true` to keep it open.
    /// Arrows move; Enter mortgages the selected deed and `s` sells a building
    /// off it; `b` folds: the player pays what cash they have and goes
    /// bankrupt. Once their cash covers the debt it is paid, any move it was
    /// holding back is made, and queued work resumes. There is no escape key.
    #[verifier::rlimit(40)]
    pub fn debt_input(&mut self, debt: &mut Debt, key: Key) -> (keep: bool)
        requires
            old(self).wf(),
            old(self).has_room(),
            old(self).modal is Clear,
            (Game { modal: Modal::Debt(*old(debt)), ..*old(self) }).wf(),
        ensures
            final(self).wf(),
            debt_keyed(*old(self), *old(debt), *final(self), *final(debt), key, keep),
    {
        proof {
            let g = Game { modal: Modal::Debt(*debt), ..*self };
            assert(g.modal_ok());
            lemma_total_ge(self.players@, debt.who as int);
        }
        let who = debt.who;
        let idx = debt.slots[debt.cursor.selected];
        match key {
            Key::Up => debt.cursor.up(),
            Key::Down => debt.cursor.down(),
            Key::Enter => self.mortgage(who, idx),
            Key::Char(c) => {
                if c == 's' {
                    self.sell_house(who, idx);
                } else if c == 'b' {
                    let left = self.players[who].money;
                    let creditor = debt.payee.creditor();
                    self.settle(who, left, &debt.payee);
                    self.bankrupt(who, creditor);
                    self.settle_if_bankrupt(who);
                    self.run_pending();
                    return false;
                }
            },
            _ => {},
        }
        if self.players[who].money < debt.amount {
            return true;
        }
        self.settle(who, debt.amount, &debt.payee);
        let ghost h = *self;
        if let Some(steps) = debt.then_advance {
            self.advance(who, steps);
        }
        let ghost g = *self;
        self.run_pending();
        proof {
            assert(debt_settled(*old(self), *old(debt), key, h, g));
        }
        false
    }
}

} // verus!

verus! {

/// Paying another player moves money without making or losing any: the
/// debtor is down exactly what they paid (their whole cash when short) and
/// the creditor up the same.
pub proof fn lemma_paying_a_player_conserves_money(s: Seq<Player>, who: int, amount: int, to: usize)
    requires
        0 <= who < s.len(),
        to < s.len(),
        0 <= amount,
        total_money(s) <= u32::MAX,
    ensures
        total_money(settled(s, who, amount, Payee::Player(to))) == total_money(s),
        who != to ==> settled(s, who, amount, Payee::Player(to))[who].money == s[who].money - (if amount
            <= s[who].money {
            amount
        } else {
            s[who].money as int
        }),
        who != to ==> settled(s, who, amount, Payee::Player(to))[to as int].money == s[to as int].money + (if amount
            <= s[who].money {
            amount
        } else {
            s[who].money as int
        }),
{
    let a = if amount <= s[who].money {
        amount
    } else {
        s[who].money as int
    };
    let d = s.update(who, Player { money: (s[who].money - a) as u32, ..s[who] });
    lemma_total_update(s, who, Player { money: (s[who].money - a) as u32, ..s[who] });
    lemma_total_ge(d, to as int);
    lemma_total_update(d, to as int, Player { money: (d[to as int].money + a) as u32, ..d[to as int] });
    if who != to as int {
        lemma_total_two(s, who, to as int);
    }
}

/// Paying several players at once moves money without making or losing any:
/// the debtor is down what they paid (their whole cash when short) and the
/// players sharing it receive that amount in all; when the debtor is not among
/// them and no one is listed twice, the `j`-th of them gets the paid amount
/// divided by their number, plus one dollar when `j` is below the remainder.
pub proof fn lemma_paying_a_split_conserves_money(s: Seq<Player>, who: int, amount: int, v: Vec<usize>)
    requires
        0 <= who < s.len(),
        0 <= amount,
        v@.len() > 0,
        index_list_ok(v@, s.len() as int),
        total_money(s) <= u32::MAX,
    ensures
        total_money(settled(s, who, amount, Payee::Split(v))) == total_money(s),
        ({
            let a = if amount <= s[who].money {
                amount
            } else {
                s[who].money as int
            };
            let n = v@.len() as int;
            (!v@.contains(who as usize) && forall|i: int, j: int| 0 <= i < j < n ==> v@[i] != v@[j]) ==> {
                &&& settled(s, who, amount, Payee::Split(v))[who].money == s[who].money - a
                &&& forall|j: int|
                    0 <= j < n ==> #[trigger] settled(s, who, amount, Payee::Split(v))[v@[j] as int].money
                        == s[v@[j] as int].money + a / n + (if j < a % n {
                        1int
                    } else {
                        0int
                    })
            }
        }),
{
    let a = if amount <= s[who].money {
        amount
    } else {
        s[who].money as int
    };
    let n = v@.len() as int;
    let d = s.update(who, Player { money: (s[who].money - a) as u32, ..s[who] });
    lemma_total_update(s, who, Player { money: (s[who].money - a) as u32, ..s[who] });
    vstd::arithmetic::div_mod::lemma_fundamental_div_mod(a, n);
    assert(a / n >= 0) by {
        vstd::arithmetic::div_mod::lemma_div_pos_is_pos(a, n);
    }
    assert(a % n < n) by {
        vstd::arithmetic::div_mod::lemma_mod_bound(a, n);
    }
    assert((a / n) * n + a % n == a) by (nonlinear_arith)
        requires
            a == n * (a / n) + a % n,
    ;
    lemma_credit_each_total(d, v@, a / n, a % n);
    if !v@.contains(who as usize) && forall|i: int, j: int| 0 <= i < j < n ==> v@[i] != v@[j] {
        lemma_credit_each_shares(d, v@, a / n, a % n);
        assert(!v@.contains(who as usize));
        lemma_credit_each_outside(d, v@, a / n, a % n, who);
    }
}

/// Crediting listed seats leaves the number of players alone.
proof fn lemma_credit_each_len(s: Seq<Player>, v: Seq<usize>, per: int, extra: int)
    requires
        index_list_ok(v, s.len() as int),
    ensures
        credit_each(s, v, per, extra).len() == s.len(),
    decreases v.len(),
{
    if v.len() > 0 {
        lemma_credit_each_len(s, v.drop_last(), per, extra);
    }
}

/// Each listed seat, listed once, gets its share on top of what it held.
proof fn lemma_credit_each_shares(s: Seq<Player>, v: Seq<usize>, per: int, extra: int)
    requires
        index_list_ok(v, s.len() as int),
        forall|i: int, j: int| 0 <= i < j < v.len() ==> v[i] != v[j],
        0 <= per,
        0 <= extra,
        total_money(s) + per * v.len() + extras(extra, v.len() as int) <= u32::MAX,
    ensures
        forall|j: int|
            0 <= j < v.len() ==> #[trigger] credit_each(s, v, per, extra)[v[j] as int].money == s[v[j] as int].money
                + per + (if j < extra {
                1int
            } else {
                0int
            }),
    decreases v.len(),
{
    if v.len() > 0 {
        let r = v.drop_last();
        let w = v.last() as int;
        assert(per * (v.len() - 1) <= per * v.len()) by (nonlinear_arith)
            requires
                0 <= per,
                v.len() >= 1,
        ;
        lemma_credit_each_shares(s, r, per, extra);
        lemma_credit_each_total(s, r, per, extra);
        lemma_credit_each_len(s, r, per, extra);
        assert(!r.contains(v.last())) by {
            if r.contains(v.last()) {
                let k = choose|k: int| 0 <= k < r.len() && r[k] == v.last();
                assert(v[k] == v[v.len() - 1]);
            }
        }
        lemma_credit_each_outside(s, r, per, extra, w);
        let t = credit_each(s, r, per, extra);
        lemma_total_ge(t, w);
        assert(per * v.len() == per * (v.len() - 1) + per) by (nonlinear_arith);
        assert forall|j: int| 0 <= j < v.len() implies #[trigger] credit_each(s, v, per, extra)[v[j] as int].money
            == s[v[j] as int].money + per + (if j < extra {
            1int
        } else {
            0int
        }) by {
            if j < v.len() - 1 {
                assert(r[j] == v[j]);
                assert(v[j] != v[v.len() - 1]);
            }
        }
    }
}

/// A seat not listed keeps what it held.
proof fn lemma_credit_each_outside(s: Seq<Player>, v: Seq<usize>, per: int, extra: int, w: int)
    requires
        index_list_ok(v, s.len() as int),
        !v.contains(w as usize),
        0 <= w < s.len(),
    ensures
        credit_each(s, v, per, extra)[w] == s[w],
    decreases v.len(),
{
    if v.len() > 0 {
        let r = v.drop_last();
        assert(!r.contains(w as usize)) by {
            if r.contains(w as usize) {
                let k = choose|k: int| 0 <= k < r.len() && r[k] == w as usize;
                assert(v[k] == w as usize);
            }
        }
        lemma_credit_each_outside(s, r, per, extra, w);
        lemma_credit_each_len(s, r, per, extra);
        assert(v.last() != w as usize) by {
            assert(v[v.len() - 1] == v.last());
        }
    }
}

/// Paying the bank takes exactly what was paid out of the game.
pub proof fn lemma_paying_the_bank_removes_money(s: Seq<Player>, who: int, amount: int)
    requires
        0 <= who < s.len(),
        0 <= amount <= s[who].money,
    ensures
        total_money(settled(s, who, amount, Payee::Bank)) == total_money(s) - amount,
        settled(s, who, amount, Payee::Bank)[who].money == s[who].money - amount,
{
    lemma_total_update(s, who, Player { money: (s[who].money - amount) as u32, ..s[who] });
}

} // verus!
