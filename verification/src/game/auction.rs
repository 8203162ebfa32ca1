//! Bank auctions: when a player declines to buy, the property is auctioned to
//! the highest bidder among the remaining players.

use vstd::prelude::*;

use super::{active_upto, debit, lemma_active_upto, lemma_space_updates, lemma_wf_kept, Game, Modal, BOARD_LEN};
use super::tally::{lemma_houses_update, total_money};
use crate::player::Player;
use crate::ui::Key;
use super::note::Note;

verus! {

/// How much each bid raises the price.
pub const STEP: u32 = 10;

/// One property up for auction.
#[derive(Debug)]
pub struct Auction {
    pub pos: usize,
    /// Players still bidding, in seating order.
    pub active: Vec<usize>,
    /// Index into `active`.
    pub turn: usize,
    pub high_bid: u32,
    pub high_bidder: Option<usize>,
}

} // verus!

verus! {

/// The square at `pos` put up for auction among the players still in the game,
/// between the game `o` before and `f` after (with nobody left, nothing happens).
pub open spec fn auction_started(o: Game, f: Game, pos: usize) -> bool {
    &&& f.stock_kept(&o)
    &&& f.notes@ == if active_upto(o.players@, o.players@.len() as int).len() > 0 {
        o.notes@.push(Note::AuctionOpened { pos })
    } else {
        o.notes@
    }
    &&& active_upto(o.players@, o.players@.len() as int).len() == 0 ==> f.modal
        == o.modal
    &&& active_upto(o.players@, o.players@.len() as int).len() > 0 ==> (f.modal
        matches Modal::Auction(a) && a.pos == pos && a.active@ == active_upto(
        o.players@,
        o.players@.len() as int,
    ) && a.turn == 0 && a.high_bid == 0 && a.high_bidder is None)
    &&& f.players@ == o.players@
    &&& f.board@ == o.board@
    &&& f.pending@ == o.pending@
    &&& f.same_rest_but_modal(&o)
}

impl Game {
    /// Put `pos` up for auction among all players still in the game (no one
    /// left: nothing happens).
    pub fn start_auction(&mut self, pos: usize)
        requires
            old(self).wf(),
            pos < BOARD_LEN,
        ensures
            final(self).wf(),
            auction_started(*old(self), *final(self), pos),
    {
        let active = self.active_players();
        if active.len() == 0 {
            return;
        }
        proof {
            lemma_active_upto(self.players@, self.players@.len() as int);
        }
        self.note(Note::AuctionOpened { pos });
        self.modal = Modal::Auction(Auction { pos, active, turn: 0, high_bid: 0, high_bidder: None });
    }
}

} // verus!

verus! {

/// The messages a bid on auction `a` leaves after those of `o`: refused beyond
/// the bidder's cash; otherwise the bid, and the win when the bidder is alone.
pub open spec fn bid_notes(o: Game, a: Auction) -> Seq<Note> {
    let cur = a.active@[a.turn as int];
    let next = (a.high_bid + STEP) as u32;
    if o.players@[cur as int].money < next {
        o.notes@.push(Note::CantAffordBid { who: cur, amount: next })
    } else if a.active@.len() == 1 {
        o.notes@.push(Note::Bid { who: cur, amount: next }).push(Note::AuctionWon { who: cur, pos: a.pos, price: next })
    } else {
        o.notes@.push(Note::Bid { who: cur, amount: next })
    }
}

/// The messages a pass on auction `a` leaves after those of `o`: the pass, then
/// "no bids" when nobody is left, or the win when only the high bidder is.
pub open spec fn pass_notes(o: Game, a: Auction) -> Seq<Note> {
    let cur = a.active@[a.turn as int];
    let rest = a.active@.remove(a.turn as int);
    let passed = o.notes@.push(Note::Passed { who: cur });
    if rest.len() == 0 {
        passed.push(Note::NoBids)
    } else if rest.len() == 1 && a.high_bidder == Some(rest[0]) {
        passed.push(Note::AuctionWon { who: rest[0], pos: a.pos, price: a.high_bid })
    } else {
        passed
    }
}

/// One key on an auction, between the game `o` with auction `m` before and the
/// game `f` with auction `n` after; `keep` is whether the auction stays open.
pub open spec fn auction_keyed(o: Game, m: Auction, f: Game, n: Auction, key: Key, keep: bool) -> bool {
    &&& f.stock_kept(&o)
    &&& f.players@.len() == o.players@.len()
    &&& f.same_turn(&o)
    &&& f.houses_left == o.houses_left
    &&& f.hotels_left == o.hotels_left
    &&& total_money(f.players@) <= total_money(o.players@)
    &&& keep ==> f.modal is Clear && (Game { modal: Modal::Auction(n), ..f }).wf()
    &&& keep ==> f.players@ == o.players@ && f.board@ == o.board@
    &&& n.pos == m.pos
    &&& key is Esc ==> !keep && f == (Game { notes: f.notes, ..o }) && f.notes@ == o.notes@.push(Note::AuctionCancelled)
    &&& !(key is Esc || key == Key::Char('b') || key == Key::Char('p')) ==> keep && n == m
    &&& key == Key::Char('b') ==> f.notes@ == bid_notes(o, m)
    &&& key == Key::Char('p') ==> f.notes@ == pass_notes(o, m)
    &&& key == Key::Char('b') ==> {
        let a = m;
        let cur = a.active@[a.turn as int];
        let next = a.high_bid + STEP;
        &&& o.players@[cur as int].money < next ==> keep && n == a
        &&& o.players@[cur as int].money >= next && a.active@.len() == 1 ==> !keep
            && f.players@ == o.players@.update(
            cur as int,
            Player { money: (o.players@[cur as int].money - next) as u32, ..o.players@[cur as int] },
        ) && f.board@ == o.board@.update(
            a.pos as int,
            o.board@[a.pos as int].with_owner(Some(cur)),
        )
        &&& o.players@[cur as int].money >= next && a.active@.len() > 1 ==> keep
            && n.active@ == a.active@ && n.high_bid == next && n.high_bidder
            == Some(cur) && n.turn == (a.turn + 1) % (a.active@.len() as int)
    }
    &&& key == Key::Char('p') ==> {
        let a = m;
        let rest = a.active@.remove(a.turn as int);
        &&& rest.len() == 0 ==> !keep && f == (Game { notes: f.notes, ..o })
        &&& rest.len() == 1 && a.high_bidder == Some(rest[0]) ==> !keep && f.players@
            == o.players@.update(
            rest[0] as int,
            Player { money: (o.players@[rest[0] as int].money - a.high_bid) as u32, ..o.players@[rest[0] as int] },
        ) && f.board@ == o.board@.update(
            a.pos as int,
            o.board@[a.pos as int].with_owner(Some(rest[0])),
        )
        &&& rest.len() > 0 && !(rest.len() == 1 && a.high_bidder == Some(rest[0])) ==> keep
            && n.active@ == rest && n.high_bid == a.high_bid && n.high_bidder
            == a.high_bidder && n.turn == (if a.turn >= rest.len() {
            0
        } else {
            a.turn
        })
    }
}

impl Game {
    /// Hand the lot to the high bidder for their bid; with no bid it stays
    /// with the bank.
    pub fn finish_auction(&mut self, auc: &Auction)
        requires
            old(self).wf(),
            old(self).modal is Clear,
            auc.pos < BOARD_LEN,
            auc.high_bidder matches Some(w) ==> w < old(self).players@.len() && old(self).players@[w as int].money
                >= auc.high_bid,
        ensures
            final(self).notes@ == match auc.high_bidder {
                Some(w) => old(self).notes@.push(Note::AuctionWon { who: w, pos: auc.pos, price: auc.high_bid }),
                None => old(self).notes@,
            },
            final(self).stock_kept(old(self)),
            final(self).wf(),
            final(self).same_turn(old(self)),
            final(self).houses_left == old(self).houses_left,
            final(self).hotels_left == old(self).hotels_left,
            auc.high_bidder is None ==> final(self).players@ == old(self).players@ && final(self).board@
                == old(self).board@,
            auc.high_bidder matches Some(w) ==> final(self).players@ == old(self).players@.update(
                w as int,
                Player { money: (old(self).players@[w as int].money - auc.high_bid) as u32, ..old(self).players@[w as int] },
            ) && final(self).board@ == old(self).board@.update(
                auc.pos as int,
                old(self).board@[auc.pos as int].with_owner(Some(w)),
            ),
            total_money(final(self).players@) <= total_money(old(self).players@),
    {
        if let Some(winner) = auc.high_bidder {
            let ghost g0 = *self;
            debit(&mut self.players, winner, auc.high_bid);
            proof {
                lemma_houses_update(self.board@, auc.pos as int, self.board@[auc.pos as int].with_owner(Some(winner)));
                lemma_space_updates(self.board@[auc.pos as int]);
            }
            self.board[auc.pos].set_owner(Some(winner));
            proof {
                lemma_wf_kept(&g0, self);
            }
            self.note(Note::AuctionWon { who: winner, pos: auc.pos, price: auc.high_bid });
        }
    }

    /// Handle one auction key. Returns `true` to keep the auction open: `b`
    /// bids one step more for the bidder whose turn it is (refused beyond their
    /// cash; a lone bidder wins at once, otherwise the turn moves on), `p`
    /// drops them out (the last one standing wins if they hold the high bid;
    /// with nobody left the lot stays with the bank), and Esc cancels the sale.
    #[verifier::rlimit(30)]
    pub fn auction_input(&mut self, auc: &mut Auction, key: Key) -> (keep: bool)
        requires
            old(self).wf(),
            old(self).has_room(),
            old(self).modal is Clear,
            (Game { modal: Modal::Auction(*old(auc)), ..*old(self) }).wf(),
        ensures
            final(self).wf(),
            auction_keyed(*old(self), *old(auc), *final(self), *final(auc), key, keep),
    {
        proof {
            let g = Game { modal: Modal::Auction(*auc), ..*self };
            assert(g.modal_ok());
        }
        match key {
            Key::Esc => {
                self.note(Note::AuctionCancelled);
                false
            },
            Key::Char(c) => {
                if c == 'b' {
                    self.auction_bid(auc)
                } else if c == 'p' {
                    self.auction_pass(auc)
                } else {
                    true
                }
            },
            _ => true,
        }
    }

    /// The bidder whose turn it is raises the price one step.
    pub fn auction_bid(&mut self, auc: &mut Auction) -> (keep: bool)
        requires
            old(self).wf(),
            old(self).has_room(),
            old(self).modal is Clear,
            (Game { modal: Modal::Auction(*old(auc)), ..*old(self) }).wf(),
        ensures
            final(self).notes@ == bid_notes(*old(self), *old(auc)),
            final(self).stock_kept(old(self)),
            final(self).players@.len() == old(self).players@.len(),
            final(self).wf(),
            final(self).same_turn(old(self)),
            final(self).houses_left == old(self).houses_left,
            final(self).hotels_left == old(self).hotels_left,
            total_money(final(self).players@) <= total_money(old(self).players@),
            keep ==> final(self).modal is Clear && (Game { modal: Modal::Auction(*final(auc)), ..*final(self) }).wf(),
            keep ==> final(self).players@ == old(self).players@ && final(self).board@ == old(self).board@,
            final(auc).pos == old(auc).pos,
            ({
                let a = *old(auc);
                let cur = a.active@[a.turn as int];
                let next = a.high_bid + STEP;
                &&& old(self).players@[cur as int].money < next ==> keep && *final(auc) == a
                &&& old(self).players@[cur as int].money >= next && a.active@.len() == 1 ==> !keep
                    && final(self).players@ == old(self).players@.update(
                    cur as int,
                    Player { money: (old(self).players@[cur as int].money - next) as u32, ..old(self).players@[cur as int] },
                ) && final(self).board@ == old(self).board@.update(
                    a.pos as int,
                    old(self).board@[a.pos as int].with_owner(Some(cur)),
                )
                &&& old(self).players@[cur as int].money >= next && a.active@.len() > 1 ==> keep
                    && final(auc).active@ == a.active@ && final(auc).high_bid == next && final(auc).high_bidder
                    == Some(cur) && final(auc).turn == (a.turn + 1) % (a.active@.len() as int)
            }),
    {
        proof {
            let g = Game { modal: Modal::Auction(*auc), ..*self };
            assert(g.modal_ok());
        }
        let cur = auc.active[auc.turn];
        let next = auc.high_bid + STEP;
        if self.players[cur].money < next {
            self.note(Note::CantAffordBid { who: cur, amount: next });
            return true;
        }
        auc.high_bid = next;
        auc.high_bidder = Some(cur);
        self.note(Note::Bid { who: cur, amount: next });
        if auc.active.len() == 1 {
            self.finish_auction(auc);
            return false;
        }
        auc.turn = (auc.turn + 1) % auc.active.len();
        proof {
            super::tally::lemma_total_ge(self.players@, cur as int);
        }
        true
    }

    /// The bidder whose turn it is drops out.
    pub fn auction_pass(&mut self, auc: &mut Auction) -> (keep: bool)
        requires
            old(self).wf(),
            old(self).has_room(),
            old(self).modal is Clear,
            (Game { modal: Modal::Auction(*old(auc)), ..*old(self) }).wf(),
        ensures
            final(self).notes@ == pass_notes(*old(self), *old(auc)),
            final(self).stock_kept(old(self)),
            final(self).players@.len() == old(self).players@.len(),
            final(self).wf(),
            final(self).same_turn(old(self)),
            final(self).houses_left == old(self).houses_left,
            final(self).hotels_left == old(self).hotels_left,
            total_money(final(self).players@) <= total_money(old(self).players@),
            keep ==> final(self).modal is Clear && (Game { modal: Modal::Auction(*final(auc)), ..*final(self) }).wf(),
            keep ==> final(self).players@ == old(self).players@ && final(self).board@ == old(self).board@,
            final(auc).pos == old(auc).pos,
            ({
                let a = *old(auc);
                let rest = a.active@.remove(a.turn as int);
                &&& rest.len() == 0 ==> !keep && *final(self) == (Game { notes: final(self).notes, ..*old(self) })
                &&& rest.len() == 1 && a.high_bidder == Some(rest[0]) ==> !keep && final(self).players@
                    == old(self).players@.update(
                    rest[0] as int,
                    Player { money: (old(self).players@[rest[0] as int].money - a.high_bid) as u32, ..old(self).players@[rest[0] as int] },
                ) && final(self).board@ == old(self).board@.update(
                    a.pos as int,
                    old(self).board@[a.pos as int].with_owner(Some(rest[0])),
                )
                &&& rest.len() > 0 && !(rest.len() == 1 && a.high_bidder == Some(rest[0])) ==> keep
                    && final(auc).active@ == rest && final(auc).high_bid == a.high_bid && final(auc).high_bidder
                    == a.high_bidder && final(auc).turn == (if a.turn >= rest.len() {
                    0
                } else {
                    a.turn
                })
            }),
    {
        proof {
            let g = Game { modal: Modal::Auction(*auc), ..*self };
            assert(g.modal_ok());
        }
        let turn = auc.turn;
        self.note(Note::Passed { who: auc.active[turn] });
        auc.active.remove(turn);
        if auc.active.len() == 0 {
            self.note(Note::NoBids);
            return false;
        }
        if auc.turn >= auc.active.len() {
            auc.turn = 0;
        }
        if auc.active.len() == 1 && auc.high_bidder == Some(auc.active[0]) {
            self.finish_auction(auc);
            return false;
        }
        proof {
            let g = Game { modal: Modal::Auction(*auc), ..*self };
            assert forall|i: int| 0 <= i < auc.active@.len() implies #[trigger] auc.active@[i] < self.players@.len() by {
                if i < turn {
                    assert(auc.active@[i] == old(auc).active@[i]);
                } else {
                    assert(auc.active@[i] == old(auc).active@[i + 1]);
                }
            }
        }
        true
    }
}

} // verus!
