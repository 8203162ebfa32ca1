//! Hotseat trading: the current player buys one item from, or sells one to,
//! another player for cash.

use vstd::prelude::*;

use super::estate::group_built;
use super::tally::{active_count, lemma_active_update, lemma_total_ge, lemma_total_two, lemma_total_update, total_money};
use super::cards::{rivals_upto, lemma_rivals};
use super::{credit, debit, lemma_space_updates, lemma_wf_kept, Game, Modal, BOARD_LEN};
use super::tally::lemma_houses_update;
use crate::player::Player;
use super::note::Note;
use crate::space::Space;
use crate::ui::{Cursor, Key};

verus! {

/// How much each press moves the asking price.
pub const STEP: u32 = 10;

/// What the bail on a Get Out of Jail Free card is worth.
pub const CARD_VALUE: u32 = 50;

/// Which step of building a trade we're on.
#[derive(Debug, Clone, Copy, PartialEq, Eq, Structural)]
pub enum Stage {
    Partner,
    Item,
    Price,
}

/// Something that can change hands.
#[derive(Debug, Clone, Copy, PartialEq, Eq, Structural)]
pub enum Item {
    /// A title deed, by board index.
    Deed(usize),
    /// One Get Out of Jail Free card held by this player.
    JailCard(usize),
}

/// A one-item-for-cash trade.
#[derive(Debug)]
pub struct Trade {
    pub stage: Stage,
    pub partners: Vec<usize>,
    pub pcursor: Cursor,
    pub partner: usize,
    pub items: Vec<Item>,
    pub item_cursor: Cursor,
    pub price: u32,
}

} // verus!

verus! {

/// The side giving `item` up: the deed's owner, or the card's holder.
pub open spec fn holder_spec(item: Item, b: Seq<Space>) -> usize {
    match item {
        Item::Deed(idx) => match b[idx as int].owner_spec() {
            Some(o) => o,
            None => 0,
        },
        Item::JailCard(w) => w,
    }
}

/// The opening asking price of `item`: a deed's printed price, or the bail a
/// card saves.
pub open spec fn value_spec(item: Item, b: Seq<Space>) -> u32 {
    match item {
        Item::Deed(idx) => match b[idx as int].price_spec() {
            Some(p) => p,
            None => 0,
        },
        Item::JailCard(_) => CARD_VALUE,
    }
}

/// The deeds among the first `n` squares held by `a` or `c`, in board order.
pub open spec fn deed_items_upto(b: Seq<Space>, a: usize, c: usize, n: int) -> Seq<Item>
    decreases n,
{
    if n <= 0 {
        Seq::empty()
    } else if b[n - 1].owner_spec() == Some(a) || b[n - 1].owner_spec() == Some(c) {
        deed_items_upto(b, a, c, n - 1).push(Item::Deed((n - 1) as usize))
    } else {
        deed_items_upto(b, a, c, n - 1)
    }
}

/// Everything `a` and `c` can put up: their deeds in board order, then the
/// jail card of each one who holds any.
pub open spec fn tradeable_spec(b: Seq<Space>, s: Seq<Player>, a: usize, c: usize) -> Seq<Item> {
    let deeds = deed_items_upto(b, a, c, b.len() as int);
    let with_a = if s[a as int].get_out_free > 0 {
        deeds.push(Item::JailCard(a))
    } else {
        deeds
    };
    if s[c as int].get_out_free > 0 {
        with_a.push(Item::JailCard(c))
    } else {
        with_a
    }
}

proof fn lemma_deed_items(b: Seq<Space>, a: usize, c: usize, n: int)
    requires
        0 <= n <= b.len(),
        n <= usize::MAX,
    ensures
        forall|k: int| 0 <= k < deed_items_upto(b, a, c, n).len() ==> (#[trigger] deed_items_upto(b, a, c, n)[k] matches Item::Deed(idx)
            && idx < n && (b[idx as int].owner_spec() == Some(a) || b[idx as int].owner_spec() == Some(c))),
        deed_items_upto(b, a, c, n).len() <= n,
    decreases n,
{
    if n > 0 {
        lemma_deed_items(b, a, c, n - 1);
    }
}

impl Item {
    /// The side giving the item up.
    pub fn holder(self, game: &Game) -> (w: usize)
        requires
            self matches Item::Deed(idx) ==> idx < game.board@.len() && game.board@[idx as int].owner_spec() is Some,
        ensures
            w == holder_spec(self, game.board@),
    {
        match self {
            Item::Deed(idx) => match game.board[idx].owner() {
                Some(o) => o,
                None => 0,
            },
            Item::JailCard(who) => who,
        }
    }

    /// The opening asking price.
    pub fn value(self, game: &Game) -> (v: u32)
        requires
            self matches Item::Deed(idx) ==> idx < game.board@.len(),
        ensures
            v == value_spec(self, game.board@),
    {
        match self {
            Item::Deed(idx) => match game.board[idx].price() {
                Some(p) => p,
                None => 0,
            },
            Item::JailCard(_) => CARD_VALUE,
        }
    }

    /// What the trade list calls the item.
    pub fn label(self, game: &Game) -> (l: String)
        requires
            self matches Item::Deed(idx) ==> idx < game.board@.len(),
        ensures
            l@ == match self {
                Item::Deed(idx) => game.board@[idx as int].name_spec(),
                Item::JailCard(_) => "Get Out of Jail Free"@,
            },
    {
        match self {
            Item::Deed(idx) => game.board[idx].name().to_owned(),
            Item::JailCard(_) => "Get Out of Jail Free".to_owned(),
        }
    }
}

/// The trade builder opened on the players the current one can trade with,
/// between the game `o` before and `f` after (nothing opens when there are none).
pub open spec fn trade_opened(o: Game, f: Game) -> bool {
    &&& f.players@ == o.players@
    &&& f.board@ == o.board@
    &&& f.pending@ == o.pending@
    &&& f.same_rest_but_modal(&o)
    &&& ({
        let r = rivals_upto(o.players@, o.current, o.players@.len() as int);
        &&& r.len() == 0 ==> f.modal == o.modal && f.notes@ == o.notes@.push(Note::NoOneToTrade)
        &&& r.len() > 0 ==> f.notes@ == o.notes@ && (f.modal matches Modal::Trade(t) && t.stage == Stage::Partner
            && t.partners@ == r && t.pcursor.selected == 0 && t.partner == r[0] && t.price == 0
            && t.items@.len() == 0)
    })
}

impl Game {
    /// Everything either side can put up: deeds in board order, then any Get
    /// Out of Jail Free cards they hold.
    pub fn tradeable(&self, a: usize, c: usize) -> (v: Vec<Item>)
        requires
            a < self.players@.len(),
            c < self.players@.len(),
            self.board@.len() == BOARD_LEN,
        ensures
            v@ == tradeable_spec(self.board@, self.players@, a, c),
            forall|k: int| 0 <= k < v@.len() ==> match #[trigger] v@[k] {
                Item::Deed(idx) => idx < BOARD_LEN && (self.board@[idx as int].owner_spec() == Some(a)
                    || self.board@[idx as int].owner_spec() == Some(c)),
                Item::JailCard(w) => (w == a || w == c) && self.players@[w as int].get_out_free >= 1,
            },
    {
        let mut v: Vec<Item> = Vec::new();
        let mut i: usize = 0;
        while i < self.board.len()
            invariant
                i <= BOARD_LEN,
                self.board@.len() == BOARD_LEN,
                v@ == deed_items_upto(self.board@, a, c, i as int),
            decreases BOARD_LEN - i,
        {
            let o = self.board[i].owner();
            if o == Some(a) || o == Some(c) {
                v.push(Item::Deed(i));
            }
            i = i + 1;
        }
        proof {
            lemma_deed_items(self.board@, a, c, BOARD_LEN as int);
        }
        let ghost deeds = v@;
        if self.players[a].get_out_free > 0 {
            v.push(Item::JailCard(a));
        }
        let ghost with_a = v@;
        if self.players[c].get_out_free > 0 {
            v.push(Item::JailCard(c));
        }
        proof {
            assert forall|k: int| 0 <= k < v@.len() implies match #[trigger] v@[k] {
                Item::Deed(idx) => idx < BOARD_LEN && (self.board@[idx as int].owner_spec() == Some(a)
                    || self.board@[idx as int].owner_spec() == Some(c)),
                Item::JailCard(w) => (w == a || w == c) && self.players@[w as int].get_out_free >= 1,
            } by {
                if k < deeds.len() {
                    assert(v@[k] == deeds[k]);
                } else if k < with_a.len() {
                    assert(v@[k] == with_a[k]);
                }
            }
        }
        v
    }

    /// Open the trade builder over the other players still in the game;
    /// nothing happens when nobody else is.
    pub fn open_trade(&mut self)
        requires
            old(self).wf(),
        ensures
            final(self).wf(),
            trade_opened(*old(self), *final(self)),
    {
        let me = self.current;
        let partners = self.rivals(me);
        if partners.len() == 0 {
            self.note(Note::NoOneToTrade);
            return;
        }
        proof {
            lemma_rivals(self.players@, me, self.players@.len() as int);
        }
        let pcursor = Cursor::new(partners.len());
        let partner = partners[0];
        self.modal = Modal::Trade(
            Trade {
                stage: Stage::Partner,
                partners,
                pcursor,
                partner,
                items: Vec::new(),
                item_cursor: Cursor::new(0),
                price: 0,
            },
        );
    }
}

} // verus!

verus! {

/// The players after `buyer` pays `price` to `seller` for a deed (`card` false)
/// or a Get Out of Jail Free card (`card` true), which then changes hands.
pub open spec fn traded(s: Seq<Player>, buyer: int, seller: int, price: int, card: bool) -> Seq<Player> {
    let b = s[buyer];
    let t = s[seller];
    s.update(
        buyer,
        Player {
            money: (b.money - price) as u32,
            get_out_free: (if card {
                b.get_out_free + 1
            } else {
                b.get_out_free as int
            }) as u8,
            ..b
        },
    ).update(
        seller,
        Player {
            money: (t.money + price) as u32,
            get_out_free: (if card {
                t.get_out_free - 1
            } else {
                t.get_out_free as int
            }) as u8,
            ..t
        },
    )
}

/// The built trade carried out, between the game `o` before and `f` after:
/// refused (the builder stays open, nothing changes) for a deed whose color
/// group has buildings or a buyer short of the price; otherwise the item and
/// the price change hands.
pub open spec fn trade_done(o: Game, f: Game, t: Trade, keep: bool) -> bool {
    let item = t.items@[t.item_cursor.selected as int];
    let b = o.board@;
    let s = o.players@;
    let seller = holder_spec(item, b);
    let buyer = if seller == o.current {
        t.partner
    } else {
        o.current
    };
    if item matches Item::Deed(idx) && group_built(b, idx as int) {
        keep && f == (Game { notes: f.notes, ..o }) && f.notes@ == o.notes@.push(Note::SellBeforeTrading)
    } else if s[buyer as int].money < t.price {
        keep && f == (Game { notes: f.notes, ..o }) && f.notes@ == o.notes@.push(
            Note::CantAffordTrade { who: buyer, price: t.price },
        )
    } else {
        &&& !keep
        &&& f.notes@ == o.notes@.push(Note::Traded { buyer, seller, item, price: t.price })
        &&& f.players@ == traded(s, buyer as int, seller as int, t.price as int, item is JailCard)
        &&& f.board@ == match item {
            Item::Deed(idx) => b.update(idx as int, b[idx as int].with_owner(Some(buyer))),
            Item::JailCard(_) => b,
        }
    }
}

impl Game {
    /// Carry out the built trade: whoever holds the chosen item sells it to the
    /// other side for the price. Returns `true` to keep the builder open when
    /// the trade cannot go through: a deed whose color group has buildings, or
    /// a buyer short of the price.
    #[verifier::rlimit(30)]
    pub fn execute_trade(&mut self, t: &Trade) -> (keep: bool)
        requires
            old(self).wf(),
            old(self).has_room(),
            old(self).modal is Clear,
            t.stage != Stage::Partner,
            (Game { modal: Modal::Trade(*t), ..*old(self) }).wf(),
        ensures
            final(self).stock_kept(old(self)),
            final(self).players@.len() == old(self).players@.len(),
            final(self).wf(),
            final(self).same_but_estates(old(self)),
            total_money(final(self).players@) == total_money(old(self).players@),
            active_count(final(self).players@) == active_count(old(self).players@),
            trade_done(*old(self), *final(self), *t, keep),
    {
        proof {
            let g = Game { modal: Modal::Trade(*t), ..*self };
            assert(g.modal_ok());
            assert(g.item_ok(t.items@[t.item_cursor.selected as int], t.partner));
        }
        let item = t.items[t.item_cursor.selected];
        if let Item::Deed(idx) = item {
            if self.group_has_houses(idx) {
                self.note(Note::SellBeforeTrading);
                return true;
            }
        }
        let seller = item.holder(self);
        let buyer = if seller == self.current {
            t.partner
        } else {
            self.current
        };
        if self.players[buyer].money < t.price {
            self.note(Note::CantAffordTrade { who: buyer, price: t.price });
            return true;
        }
        let ghost g0 = *self;
        let card = match item {
            Item::Deed(_) => false,
            Item::JailCard(_) => true,
        };
        proof {
            lemma_total_two(self.players@, buyer as int, seller as int);
        }
        let mut pb = self.players[buyer];
        let mut ps = self.players[seller];
        pb.money = pb.money - t.price;
        ps.money = ps.money + t.price;
        if card {
            pb.get_out_free = pb.get_out_free + 1;
            ps.get_out_free = ps.get_out_free - 1;
        }
        proof {
            lemma_total_update(self.players@, buyer as int, pb);
            lemma_active_update(self.players@, buyer as int, pb);
            lemma_total_update(self.players@.update(buyer as int, pb), seller as int, ps);
            lemma_active_update(self.players@.update(buyer as int, pb), seller as int, ps);
        }
        self.players.set(buyer, pb);
        self.players.set(seller, ps);
        if let Item::Deed(idx) = item {
            proof {
                lemma_houses_update(self.board@, idx as int, self.board@[idx as int].with_owner(Some(buyer)));
                lemma_space_updates(self.board@[idx as int]);
            }
            self.board[idx].set_owner(Some(buyer));
        }
        proof {
            lemma_wf_kept(&g0, self);
        }
        self.note(Note::Traded { buyer, seller, item, price: t.price });
        false
    }
}

} // verus!

verus! {

/// One key on the trade builder, between the game `o` with trade `m` before and
/// the game `f` with trade `n` after; `keep` is whether the builder stays open.
pub open spec fn trade_keyed(o: Game, m: Trade, f: Game, n: Trade, key: Key, keep: bool) -> bool {
    &&& f.stock_kept(&o)
    &&& f.players@.len() == o.players@.len()
    &&& keep ==> f.modal is Clear && (Game { modal: Modal::Trade(n), ..f }).wf()
    &&& f.same_but_estates(&o)
    &&& total_money(f.players@) == total_money(o.players@)
    &&& active_count(f.players@) == active_count(o.players@)
    &&& !(m.stage == Stage::Price && key is Enter) && !(m.stage == Stage::Partner && key is Enter) ==> f == o
    &&& n.partners@ == m.partners@
    &&& ({
        match m.stage {
            Stage::Partner => match key {
                Key::Esc => !keep,
                Key::Enter => {
                    let partner = m.partners@[m.pcursor.selected as int];
                    let items = tradeable_spec(o.board@, o.players@, o.current, partner);
                    &&& items.len() == 0 ==> !keep && f == (Game { notes: f.notes, ..o }) && f.notes@
                        == o.notes@.push(Note::NothingToTrade)
                    &&& items.len() > 0 ==> keep && f == o && n.stage == Stage::Item && n.partner == partner && n.items@
                        == items && n.item_cursor.selected == 0 && n.price == m.price
                },
                Key::Up => keep && n.stage == m.stage && n.pcursor == m.pcursor.up_spec(),
                Key::Down => keep && n.stage == m.stage && n.pcursor == m.pcursor.down_spec(),
                _ => keep && n == m,
            },
            Stage::Item => match key {
                Key::Esc => keep && n == (Trade { stage: Stage::Partner, ..m }),
                Key::Enter => keep && n == (Trade {
                    stage: Stage::Price,
                    price: value_spec(m.items@[m.item_cursor.selected as int], o.board@),
                    ..m
                }),
                Key::Up => keep && n.stage == m.stage && n.items@ == m.items@ && n.item_cursor
                    == m.item_cursor.up_spec(),
                Key::Down => keep && n.stage == m.stage && n.items@ == m.items@ && n.item_cursor
                    == m.item_cursor.down_spec(),
                _ => keep && n == m,
            },
            Stage::Price => match key {
                Key::Left | Key::Down => keep && n == (Trade {
                    price: if m.price >= STEP {
                        (m.price - STEP) as u32
                    } else {
                        0
                    },
                    ..m
                }),
                Key::Right | Key::Up => keep && n == (Trade { price: (m.price + STEP) as u32, ..m }),
                Key::Esc => keep && n == (Trade { stage: Stage::Item, ..m }),
                Key::Enter => n == m && trade_done(o, f, m, keep),
                _ => keep && n == m,
            },
        }
    })
}

impl Game {
    /// Drive the trade builder one key. Returns `true` to keep it open.
    /// Choosing a partner: arrows move, Enter takes the partner and lists what
    /// either side can put up (closing when there is nothing), Esc closes.
    /// Choosing the item: arrows move, Enter opens at its asking price, Esc
    /// goes back. Setting the price: Left/Down lower it a step (not below 0),
    /// Right/Up raise it a step, Esc goes back, Enter executes the trade.
    #[verifier::rlimit(40)]
    pub fn trade_input(&mut self, t: &mut Trade, key: Key) -> (keep: bool)
        requires
            old(self).wf(),
            old(self).has_room(),
            old(self).modal is Clear,
            (Game { modal: Modal::Trade(*old(t)), ..*old(self) }).wf(),
            old(t).price <= u32::MAX - STEP,
        ensures
            final(self).wf(),
            trade_keyed(*old(self), *old(t), *final(self), *final(t), key, keep),
    {
        proof {
            let g = Game { modal: Modal::Trade(*t), ..*self };
            assert(g.modal_ok());
        }
        match t.stage {
            Stage::Partner => match key {
                Key::Up => t.pcursor.up(),
                Key::Down => t.pcursor.down(),
                Key::Esc => {
                    return false;
                },
                Key::Enter => {
                    let partner = t.partners[t.pcursor.selected];
                    let items = self.tradeable(self.current, partner);
                    if items.len() == 0 {
                        self.note(Note::NothingToTrade);
                        return false;
                    }
                    t.partner = partner;
                    t.item_cursor = Cursor::new(items.len());
                    t.items = items;
                    t.stage = Stage::Item;
                },
                _ => {},
            },
            Stage::Item => match key {
                Key::Up => t.item_cursor.up(),
                Key::Down => t.item_cursor.down(),
                Key::Esc => {
                    t.stage = Stage::Partner;
                },
                Key::Enter => {
                    let item = t.items[t.item_cursor.selected];
                    proof {
                        let g = Game { modal: Modal::Trade(*t), ..*self };
                        assert(g.item_ok(t.items@[t.item_cursor.selected as int], t.partner));
                    }
                    t.price = item.value(self);
                    t.stage = Stage::Price;
                },
                _ => {},
            },
            Stage::Price => match key {
                Key::Left | Key::Down => {
                    t.price = t.price.saturating_sub(STEP);
                },
                Key::Right | Key::Up => {
                    t.price = t.price + STEP;
                },
                Key::Esc => {
                    t.stage = Stage::Item;
                },
                Key::Enter => {
                    return self.execute_trade(t);
                },
                _ => {},
            },
        }
        true
    }
}

} // verus!
