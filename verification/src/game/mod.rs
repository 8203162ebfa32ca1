//! Game state and rules: turns, movement, buying, rent, and the popups that
//! drive a turn. README.md summarizes the rules this implements.

use vstd::prelude::*;

use std::collections::VecDeque;

pub mod action;
pub mod auction;
pub mod cards;
pub mod debt;
pub mod estate;
pub mod jail;
pub mod note;
pub mod play;
pub mod rent;
pub mod save;
pub mod start;
pub mod tally;
pub mod trade;

use self::action::ActionMenu;
use self::rent::{rent_due, RentRule};
use self::auction::{auction_started, Auction, STEP};
use self::cards::{card_drawn, cycled, effect_ok, Card, CardDraw, Deck};
use self::debt::{charged, estate_worth, payment_note, settled, went_under, Debt, Payee};
use self::estate::EstateMenu;
use self::jail::{jail_opened, sent_to_jail, Choice, JailMenu, BAIL};
use crate::space::HOTEL;
use self::tally::{lemma_active_nonneg, lemma_houses_ge, lemma_houses_update,
    active_count, hotel_count, lemma_active_update, lemma_total_ge, lemma_total_update,
    street_houses, total_money,
};
use self::trade::{Item, Stage, Trade};
use self::note::Note;
use crate::player::Player;
use crate::space::Space;
use crate::ui::dice::{valid_dice, Clip, Roll, FRAME_TIME};
use crate::ui::Confirm;

verus! {

/// Spaces on the board, indexed clockwise from GO at 0.
pub const BOARD_LEN: usize = 40;
pub const GO_SALARY: u32 = 200;
/// The bank's building stock.
pub const TOTAL_HOUSES: u8 = 32;
pub const TOTAL_HOTELS: u8 = 12;
/// The largest printed amount (price, rent, building cost, tax) the rules handle.
/// The standard board tops out at $2000; the cap only bounds the sums below.
pub const VALUE_CAP: u32 = 1_000_000;
/// Head-room on the players' combined cash that one step of play may use up.
/// Money is counted in `u32`, so every credit must stay below `u32::MAX`: one
/// key or tick adds at most [`WORTH_ROOM`] (cash raised by liquidation) plus the
/// GO salary and a card's collection, all far below this. Callers check
/// `has_room` before each step; with the standard board and 2 to 8 players the
/// total cash is a few tens of thousands of dollars.
pub const ROOM: u32 = 200_000_000;
/// Head-room the liquidation arithmetic needs: a player's cash plus everything
/// their estate could raise, with 28 deeds mortgaged at no more than half of
/// [`VALUE_CAP`] each and every building sold back at no more than that, stays
/// under this much above the combined cash, so those sums fit in a `u32`.
pub const WORTH_ROOM: u32 = 150_000_000;
/// The most seats a table can have: a card's per-player amount (at most $1000)
/// times the number of players must fit in a `u32`, and 1000 times this is
/// below `u32::MAX`. The game itself seats 2 to 8.
pub const SEAT_CAP: usize = 4_000_000;

/// A prompt waiting for the screen to clear.
#[derive(Debug)]
pub enum Pending {
    /// Auction this board index off for the bank.
    Auction(usize),
    /// Bill a player, which may open a liquidation list of its own.
    Charge { who: usize, amount: u32, payee: Payee },
}

/// A centered popup dismissed with any key.
#[derive(Debug)]
pub enum InfoBox {
    /// The deeds a player holds (board indices, in board order) and their cash.
    Inventory { who: usize, money: u32, holdings: Vec<usize> },
    /// The text of a card just resolved.
    CardText(Card),
}

/// The single popup the game is currently showing, if any.
#[derive(Debug)]
pub enum Modal {
    /// Nothing on screen.
    Clear,
    Roll(Roll),
    Card(CardDraw),
    Menu(ActionMenu),
    ConfirmEnd(Confirm),
    Info(InfoBox),
    Jail(JailMenu),
    Estate(EstateMenu),
    Buy { confirm: Confirm, pos: usize },
    Auction(Auction),
    Trade(Trade),
    Debt(Debt),
    /// The winning player's index.
    GameOver(usize),
}

/// The whole game.
pub struct Game {
    pub players: Vec<Player>,
    pub board: Vec<Space>,
    pub current: usize,
    pub modal: Modal,
    pub doubles: u8,
    pub can_roll: bool,
    /// Rolled at least once this turn.
    pub has_rolled: bool,
    /// Nanoseconds of play, which drive the breathing highlight.
    pub clock: u64,
    /// Game over acknowledged; the caller returns to the menu.
    pub done: bool,
    pub chance: VecDeque<Card>,
    pub chest: VecDeque<Card>,
    pub houses_left: u8,
    pub hotels_left: u8,
    pub pending: VecDeque<Pending>,
    /// Messages for the players, oldest first, for the front end to show.
    pub notes: Vec<Note>,
}

/// The consequence of landing on a space, free of any borrow on the board.
#[derive(Debug, Clone, Copy, PartialEq, Eq, Structural)]
pub enum Landing {
    Tax(u32),
    Jail,
    Draw(self::cards::Deck),
    ForSale(u32),
    Owned(usize),
    Nothing,
}

/// Every printed amount of a space lies within [`VALUE_CAP`], and a street has
/// at most a hotel.
pub open spec fn space_ok(s: Space) -> bool {
    match s {
        Space::Property(p) => p.base.price <= VALUE_CAP && p.house_cost <= VALUE_CAP && p.houses
            <= 5 && (forall|k: int| 0 <= k < 6 ==> #[trigger] p.rents[k] <= VALUE_CAP),
        Space::Railroad(o) => o.price <= VALUE_CAP,
        Space::Utility(o) => o.price <= VALUE_CAP,
        Space::Tax(n) => n <= VALUE_CAP,
        _ => true,
    }
}

pub open spec fn player_ok(p: Player) -> bool {
    p.position < BOARD_LEN && p.jail_turns < 255
}

pub open spec fn index_list_ok(v: Seq<usize>, n: int) -> bool {
    forall|i: int| 0 <= i < v.len() ==> #[trigger] v[i] < n
}

pub open spec fn deck_ok(d: Seq<Card>) -> bool {
    forall|i: int| 0 <= i < d.len() ==> effect_ok(#[trigger] d[i].effect)
}

impl Game {
    pub open spec fn board_ok(&self) -> bool {
        &&& self.board@.len() == BOARD_LEN
        &&& forall|i: int| 0 <= i < self.board@.len() ==> space_ok(#[trigger] self.board@[i])
    }

    pub open spec fn owners_ok(&self) -> bool {
        forall|i: int|
            0 <= i < self.board@.len() ==> (#[trigger] self.board@[i].owner_spec() matches Some(o) ==> o
                < self.players@.len())
    }

    pub open spec fn players_ok(&self) -> bool {
        &&& 1 <= self.players@.len() <= SEAT_CAP
        &&& self.current < self.players@.len()
        &&& forall|i: int| 0 <= i < self.players@.len() ==> player_ok(#[trigger] self.players@[i])
    }

    pub open spec fn stock_ok(&self) -> bool {
        &&& self.houses_left + street_houses(self.board@) <= 255
        &&& self.hotels_left + hotel_count(self.board@) <= 255
    }

    pub open spec fn pending_ok(&self) -> bool {
        forall|i: int|
            0 <= i < self.pending@.len() ==> match #[trigger] self.pending@[i] {
                Pending::Auction(pos) => pos < BOARD_LEN,
                Pending::Charge { who, amount, payee } => who < self.players@.len() && payee.valid(
                    self.players@.len() as int,
                ),
            }
    }

    pub open spec fn modal_ok(&self) -> bool {
        let n = self.players@.len() as int;
        match self.modal {
            Modal::Clear => true,
            Modal::Roll(r) => r.clip.frame < usize::MAX && valid_dice(r.result) && (r.result is None
                ==> r.clip.elapsed < FRAME_TIME),
            Modal::Card(c) => c.clip.frame < usize::MAX && c.clip.elapsed < FRAME_TIME && effect_ok(
                c.card.effect,
            ),
            Modal::Menu(m) => m.wf(),
            Modal::ConfirmEnd(c) => c.wf(),
            Modal::Info(info) => match info {
                InfoBox::Inventory { who, money, holdings } => who < n && index_list_ok(
                    holdings@,
                    BOARD_LEN as int,
                ),
                InfoBox::CardText(_) => true,
            },
            Modal::Jail(menu) => {
                &&& menu.cursor.wf()
                &&& menu.cursor.len == menu.choices@.len()
                &&& menu.choices@.len() >= 1
                &&& forall|i: int|
                    0 <= i < menu.choices@.len() ==> (#[trigger] menu.choices@[i] == Choice::Pay
                        ==> self.players@[self.current as int].money >= BAIL)
                &&& forall|i: int|
                    0 <= i < menu.choices@.len() ==> (#[trigger] menu.choices@[i] == Choice::Card
                        ==> self.players@[self.current as int].get_out_free >= 1)
            },
            Modal::Estate(menu) => {
                &&& menu.cursor.wf()
                &&& menu.cursor.len == menu.slots@.len()
                &&& menu.slots@.len() >= 1
                &&& index_list_ok(menu.slots@, BOARD_LEN as int)
            },
            Modal::Buy { confirm, pos } => confirm.wf() && pos < BOARD_LEN,
            Modal::Auction(a) => {
                &&& a.pos < BOARD_LEN
                &&& a.active@.len() >= 1
                &&& a.turn < a.active@.len()
                &&& index_list_ok(a.active@, n)
                &&& a.high_bid <= u32::MAX - STEP
                &&& (a.high_bidder matches Some(w) ==> w < n && self.players@[w as int].money
                    >= a.high_bid)
            },
            Modal::Trade(t) => {
                &&& t.partners@.len() >= 1
                &&& t.pcursor.wf()
                &&& t.pcursor.len == t.partners@.len()
                &&& index_list_ok(t.partners@, n)
                &&& (forall|i: int| 0 <= i < t.partners@.len() ==> #[trigger] t.partners@[i] != self.current)
                &&& t.partner < n
                &&& t.partner != self.current
                &&& (t.stage != Stage::Partner ==> {
                    &&& t.items@.len() >= 1
                    &&& t.item_cursor.wf()
                    &&& t.item_cursor.len == t.items@.len()
                    &&& forall|i: int|
                        0 <= i < t.items@.len() ==> self.item_ok(#[trigger] t.items@[i], t.partner)
                })
            },
            Modal::Debt(d) => {
                &&& d.who < n
                &&& d.slots@.len() >= 1
                &&& d.cursor.wf()
                &&& d.cursor.len == d.slots@.len()
                &&& index_list_ok(d.slots@, BOARD_LEN as int)
                &&& d.payee.valid(n)
                &&& (d.then_advance matches Some(s) ==> s <= 255)
            },
            Modal::GameOver(w) => w < n,
        }
    }

    /// The popup on screen does not depend on anyone's cash, cards or deeds.
    pub open spec fn modal_independent(&self) -> bool {
        !(self.modal is Jail || self.modal is Auction || self.modal is Trade)
    }

    /// An item that can change hands between the current player and `partner`:
    /// a deed one of them holds, or a jail card one of them has.
    pub open spec fn item_ok(&self, item: Item, partner: usize) -> bool {
        match item {
            Item::Deed(idx) => idx < BOARD_LEN && (self.board@[idx as int].owner_spec() == Some(
                self.current,
            ) || self.board@[idx as int].owner_spec() == Some(partner)),
            Item::JailCard(w) => (w == self.current || w == partner) && w < self.players@.len()
                && self.players@[w as int].get_out_free >= 1,
        }
    }

    /// The state the rules can run on without indexing out of bounds.
    pub open spec fn wf(&self) -> bool {
        &&& self.board_ok()
        &&& self.players_ok()
        &&& self.owners_ok()
        &&& self.stock_ok()
        &&& self.pending_ok()
        &&& self.modal_ok()
        &&& deck_ok(self.chance@)
        &&& deck_ok(self.chest@)
        &&& self.doubles < 255
    }

    /// Room for one more step of play before any counter could overflow: the
    /// players' combined cash, the jail cards a player holds, and a trade's price.
    pub open spec fn has_room(&self) -> bool {
        &&& total_money(self.players@) + ROOM <= u32::MAX
        &&& forall|i: int| 0 <= i < self.players@.len() ==> #[trigger] self.players@[i].get_out_free < 255
        &&& (self.modal matches Modal::Trade(t) ==> t.price <= u32::MAX - trade::STEP)
    }
}

/// Pay `amount` from the bank to player `who`.
pub fn credit(players: &mut Vec<Player>, who: usize, amount: u32)
    requires
        who < old(players)@.len(),
        total_money(old(players)@) + amount <= u32::MAX,
    ensures
        final(players)@ == old(players)@.update(
            who as int,
            Player { money: (old(players)@[who as int].money + amount) as u32, ..old(players)@[who as int] },
        ),
        total_money(final(players)@) == total_money(old(players)@) + amount,
        active_count(final(players)@) == active_count(old(players)@),
        final(players)@[who as int].money == old(players)@[who as int].money + amount,
{
    proof {
        lemma_total_ge(players@, who as int);
        let p = Player { money: (players@[who as int].money + amount) as u32, ..players@[who as int] };
        lemma_total_update(players@, who as int, p);
        lemma_active_update(players@, who as int, p);
    }
    players[who].money = players[who].money + amount;
}

/// Take `amount` from player `who` (who holds at least that much).
pub fn debit(players: &mut Vec<Player>, who: usize, amount: u32)
    requires
        who < old(players)@.len(),
        old(players)@[who as int].money >= amount,
    ensures
        final(players)@ == old(players)@.update(
            who as int,
            Player { money: (old(players)@[who as int].money - amount) as u32, ..old(players)@[who as int] },
        ),
        total_money(final(players)@) == total_money(old(players)@) - amount,
        active_count(final(players)@) == active_count(old(players)@),
        final(players)@[who as int].money == old(players)@[who as int].money - amount,
{
    proof {
        let p = Player { money: (players@[who as int].money - amount) as u32, ..players@[who as int] };
        lemma_total_update(players@, who as int, p);
        lemma_active_update(players@, who as int, p);
    }
    players[who].money = players[who].money - amount;
}

/// Move `amount` from player `from` to player `to` (`from` holds at least that much).
pub fn transfer(players: &mut Vec<Player>, from: usize, to: usize, amount: u32)
    requires
        from < old(players)@.len(),
        to < old(players)@.len(),
        old(players)@[from as int].money >= amount,
        total_money(old(players)@) <= u32::MAX,
    ensures
        from != to ==> final(players)@ == old(players)@.update(
            from as int,
            Player { money: (old(players)@[from as int].money - amount) as u32, ..old(players)@[from as int] },
        ).update(
            to as int,
            Player { money: (old(players)@[to as int].money + amount) as u32, ..old(players)@[to as int] },
        ),
        from == to ==> final(players)@ == old(players)@,
        total_money(final(players)@) == total_money(old(players)@),
        active_count(final(players)@) == active_count(old(players)@),
{
    debit(players, from, amount);
    proof {
        lemma_total_ge(players@, to as int);
    }
    credit(players, to, amount);
    proof {
        if from == to {
            assert(players@ =~= old(players)@);
        }
    }
}

} // verus!

verus! {

/// The board indices among the first `n` squares whose deed `who` holds, in board order.
pub open spec fn holdings_upto(b: Seq<Space>, who: usize, n: int) -> Seq<usize>
    decreases n,
{
    if n <= 0 {
        Seq::empty()
    } else if b[n - 1].owner_spec() == Some(who) {
        holdings_upto(b, who, n - 1).push((n - 1) as usize)
    } else {
        holdings_upto(b, who, n - 1)
    }
}

/// The seats among the first `n` whose player is still in the game, in seating order.
pub open spec fn active_upto(s: Seq<Player>, n: int) -> Seq<usize>
    decreases n,
{
    if n <= 0 {
        Seq::empty()
    } else if !s[n - 1].bankrupt {
        active_upto(s, n - 1).push((n - 1) as usize)
    } else {
        active_upto(s, n - 1)
    }
}

/// Every entry of a list built by `holdings_upto` is a square below `n` held by `who`.
pub proof fn lemma_holdings_upto(b: Seq<Space>, who: usize, n: int)
    requires
        0 <= n <= b.len(),
        n <= usize::MAX,
    ensures
        forall|k: int| 0 <= k < holdings_upto(b, who, n).len() ==> #[trigger] holdings_upto(b, who, n)[k] < n
            && b[holdings_upto(b, who, n)[k] as int].owner_spec() == Some(who),
        forall|i: int| 0 <= i < n && b[i].owner_spec() == Some(who) ==> holdings_upto(b, who, n).contains(i as usize),
        holdings_upto(b, who, n).len() <= n,
        forall|a: int, c: int|
            0 <= a < c < holdings_upto(b, who, n).len() ==> #[trigger] holdings_upto(b, who, n)[a]
                < #[trigger] holdings_upto(b, who, n)[c],
    decreases n,
{
    if n > 0 {
        lemma_holdings_upto(b, who, n - 1);
        let prev = holdings_upto(b, who, n - 1);
        if b[n - 1].owner_spec() == Some(who) {
            let cur = holdings_upto(b, who, n);
            assert forall|a: int, c: int| 0 <= a < c < cur.len() implies #[trigger] cur[a] < #[trigger] cur[c] by {
                if c == prev.len() {
                    assert(prev[a] < n - 1);
                } else {
                    assert(prev[a] < prev[c]);
                }
            }
        }
        if b[n - 1].owner_spec() == Some(who) {
            assert forall|i: int| 0 <= i < n && b[i].owner_spec() == Some(who) implies holdings_upto(b, who, n).contains(i as usize) by {
                if i < n - 1 {
                    let k = choose|k: int| 0 <= k < prev.len() && prev[k] == i as usize;
                    assert(holdings_upto(b, who, n)[k] == i as usize);
                } else {
                    assert(holdings_upto(b, who, n)[prev.len() as int] == i as usize);
                }
            }
        }
    }
}

/// Every entry of a list built by `active_upto` is a seat below `n` still in the game.
pub proof fn lemma_active_upto(s: Seq<Player>, n: int)
    requires
        0 <= n <= s.len(),
        n <= usize::MAX,
    ensures
        forall|k: int| 0 <= k < active_upto(s, n).len() ==> #[trigger] active_upto(s, n)[k] < n
            && !s[active_upto(s, n)[k] as int].bankrupt,
        forall|i: int| 0 <= i < n && !s[i].bankrupt ==> active_upto(s, n).contains(i as usize),
        active_upto(s, n).len() <= n,
        active_upto(s, n).len() == active_count(s.take(n)),
    decreases n,
{
    if n > 0 {
        lemma_active_upto(s, n - 1);
        let prev = active_upto(s, n - 1);
        assert(s.take(n).drop_last() =~= s.take(n - 1));
        if !s[n - 1].bankrupt {
            assert forall|i: int| 0 <= i < n && !s[i].bankrupt implies active_upto(s, n).contains(i as usize) by {
                if i < n - 1 {
                    let k = choose|k: int| 0 <= k < prev.len() && prev[k] == i as usize;
                    assert(active_upto(s, n)[k] == i as usize);
                } else {
                    assert(active_upto(s, n)[prev.len() as int] == i as usize);
                }
            }
        }
    } else {
        assert(s.take(n) =~= Seq::<Player>::empty());
    }
}

impl Game {
    /// Everything but the players, the board and the bank's building stock is as in `o`.
    pub open spec fn same_turn(&self, o: &Game) -> bool {
        &&& self.current == o.current
        &&& self.modal == o.modal
        &&& self.doubles == o.doubles
        &&& self.can_roll == o.can_roll
        &&& self.has_rolled == o.has_rolled
        &&& self.clock == o.clock
        &&& self.done == o.done
        &&& self.chance@ == o.chance@
        &&& self.chest@ == o.chest@
        &&& self.pending@ == o.pending@
    }

    /// Indices of players still in the game, in seating order.
    pub fn active_players(&self) -> (v: Vec<usize>)
        ensures
            v@ == active_upto(self.players@, self.players@.len() as int),
    {
        let mut v: Vec<usize> = Vec::new();
        let mut i: usize = 0;
        while i < self.players.len()
            invariant
                i <= self.players@.len(),
                v@ == active_upto(self.players@, i as int),
            decreases self.players.len() - i,
        {
            if !self.players[i].bankrupt {
                v.push(i);
            }
            i = i + 1;
        }
        v
    }

    /// Board indices owned by `who`, in board order.
    pub fn holdings(&self, who: usize) -> (v: Vec<usize>)
        ensures
            v@ == holdings_upto(self.board@, who, self.board@.len() as int),
    {
        let mut v: Vec<usize> = Vec::new();
        let mut i: usize = 0;
        while i < self.board.len()
            invariant
                i <= self.board@.len(),
                v@ == holdings_upto(self.board@, who, i as int),
            decreases self.board.len() - i,
        {
            if self.board[i].owner() == Some(who) {
                v.push(i);
            }
            i = i + 1;
        }
        v
    }
}

} // verus!

verus! {

/// What the space updates keep: changing one field leaves the others alone.
pub proof fn lemma_space_updates(s: Space)
    ensures
        forall|v: bool| #[trigger] s.with_mortgaged(v).owner_spec() == s.owner_spec(),
        forall|v: bool| #[trigger] s.with_mortgaged(v).houses_spec() == s.houses_spec(),
        forall|v: bool| #[trigger] s.with_mortgaged(v).price_spec() == s.price_spec(),
        forall|v: bool| space_ok(s) ==> space_ok(#[trigger] s.with_mortgaged(v)),
        forall|h: u8| #[trigger] s.with_houses(h).owner_spec() == s.owner_spec(),
        forall|h: u8| #[trigger] s.with_houses(h).mortgaged_spec() == s.mortgaged_spec(),
        forall|h: u8| s is Property ==> #[trigger] s.with_houses(h).houses_spec() == h,
        forall|h: u8| space_ok(s) && h <= 5 ==> space_ok(#[trigger] s.with_houses(h)),
        forall|w: Option<usize>| #[trigger] s.with_owner(w).houses_spec() == s.houses_spec(),
        forall|w: Option<usize>| #[trigger] s.with_owner(w).mortgaged_spec() == s.mortgaged_spec(),
        forall|w: Option<usize>| s.ownable_spec() ==> #[trigger] s.with_owner(w).owner_spec() == w,
        forall|w: Option<usize>| space_ok(s) ==> space_ok(#[trigger] s.with_owner(w)),
{
}

/// The well-formedness of a game survives a change that keeps the table's size
/// and turn, keeps every deed with a seated owner, keeps the board within its
/// caps and the bank's stock within bounds, and either clears the screen or only
/// adds to players' cash and cards.
pub proof fn lemma_wf_kept(o: &Game, n: &Game)
    requires
        o.wf(),
        n.players@.len() == o.players@.len(),
        n.current == o.current,
        forall|i: int| 0 <= i < n.players@.len() ==> player_ok(#[trigger] n.players@[i]),
        n.board@.len() == BOARD_LEN,
        forall|i: int| 0 <= i < BOARD_LEN ==> space_ok(#[trigger] n.board@[i]),
        forall|i: int|
            0 <= i < BOARD_LEN ==> (#[trigger] n.board@[i].owner_spec() matches Some(w) ==> w
                < n.players@.len()),
        n.stock_ok(),
        n.pending@ == o.pending@,
        n.chance@ == o.chance@,
        n.chest@ == o.chest@,
        n.doubles == o.doubles,
        n.modal == o.modal,
        n.modal_independent() || (forall|i: int|
            #![trigger n.players@[i]]
            0 <= i < n.players@.len() ==> n.players@[i].money >= o.players@[i].money
                && n.players@[i].get_out_free >= o.players@[i].get_out_free),
        n.modal_independent() || (forall|i: int|
            0 <= i < BOARD_LEN ==> #[trigger] n.board@[i].owner_spec() == o.board@[i].owner_spec()),
    ensures
        n.wf(),
{
    if !n.modal_independent() {
        assert(n.players@[n.current as int].money >= o.players@[o.current as int].money);
        assert(n.players@[n.current as int].get_out_free >= o.players@[o.current as int].get_out_free);
        match n.modal {
            Modal::Auction(a) => {
                if let Some(w) = a.high_bidder {
                    assert(n.players@[w as int].money >= o.players@[w as int].money);
                }
            },
            Modal::Trade(t) => {
                if t.stage != Stage::Partner {
                    assert forall|i: int| 0 <= i < t.items@.len() implies n.item_ok(#[trigger] t.items@[i], t.partner) by {
                        assert(o.item_ok(t.items@[i], t.partner));
                        match t.items@[i] {
                            Item::Deed(idx) => {
                                assert(n.board@[idx as int].owner_spec() == o.board@[idx as int].owner_spec());
                            },
                            Item::JailCard(w) => {
                                assert(w < n.players@.len());
                                assert(n.players@[w as int].get_out_free >= o.players@[w as int].get_out_free);
                            },
                        }
                    }
                }
            },
            _ => {},
        }
    }
}

} // verus!

verus! {

/// A change of turn keeps the game well formed while no popup depends on whose
/// turn it is.
pub proof fn lemma_wf_turn(o: &Game, n: &Game)
    requires
        o.wf(),
        n.players@ == o.players@,
        n.board@ == o.board@,
        n.current < n.players@.len(),
        n.doubles < 255,
        n.houses_left == o.houses_left,
        n.hotels_left == o.hotels_left,
        n.pending@ == o.pending@,
        n.chance@ == o.chance@,
        n.chest@ == o.chest@,
        n.modal == o.modal,
        !(n.modal is Jail),
        !(n.modal is Trade),
    ensures
        n.wf(),
{
}

/// The seat `k` places after `cur` round a table of `n`.
#[verifier::opaque]
pub open spec fn seat_after(cur: int, k: int, n: int) -> int {
    (cur + k) % n
}

/// The next seat after `cur`, going round the table, whose player is still in
/// the game; `cur` itself when nobody is.
pub open spec fn next_seat(s: Seq<Player>, cur: int) -> int {
    let n = s.len() as int;
    if exists|k: int| 1 <= k <= n && !s[#[trigger] seat_after(cur, k, n)].bankrupt {
        seat_after(
            cur,
            choose|k: int|
                1 <= k <= n && !s[#[trigger] seat_after(cur, k, n)].bankrupt && forall|j: int|
                    1 <= j < k ==> s[#[trigger] seat_after(cur, j, n)].bankrupt,
            n,
        )
    } else {
        cur
    }
}

/// The player still in the game when exactly one is left.
pub open spec fn sole_survivor(s: Seq<Player>) -> Option<usize> {
    if active_upto(s, s.len() as int).len() == 1 {
        Some(active_upto(s, s.len() as int)[0])
    } else {
        None
    }
}

/// The turn passed on, between the game `o` before and `f` after: the next
/// seat still in the game plays, with a fresh right to roll and no doubles.
pub open spec fn turn_passed(o: Game, f: Game) -> bool {
    &&& f.current == next_seat(o.players@, o.current as int)
    &&& f.notes@ == o.notes@.push(Note::Turn { who: f.current })
    &&& f.doubles == 0
    &&& f.can_roll
    &&& !f.has_rolled
    &&& f.players@ == o.players@
    &&& f.board@ == o.board@
    &&& f.modal == o.modal
    &&& f.pending@ == o.pending@
    &&& f.houses_left == o.houses_left
    &&& f.hotels_left == o.hotels_left
    &&& f.chance@ == o.chance@
    &&& f.chest@ == o.chest@
    &&& f.clock == o.clock
    &&& f.done == o.done
}

impl Game {
    /// The next seat after the current one whose player is still in the game
    /// (the current seat itself when nobody is).
    pub fn next_active_seat(&self) -> (c: usize)
        requires
            self.players_ok(),
        ensures
            c == next_seat(self.players@, self.current as int),
            c < self.players@.len(),
    {
        let n = self.players.len();
        let start = self.current;
        let ghost s = self.players@;
        let mut j: usize = 0;
        while j < n
            invariant
                0 <= j <= n,
                n == s.len(),
                s == self.players@,
                start < n,
                start == self.current,
                forall|i: int| 1 <= i < j + 1 ==> s[#[trigger] seat_after(start as int, i, n as int)].bankrupt,
            decreases n - j,
        {
            let k = j + 1;
            let c = if k < n - start {
                start + k
            } else {
                k - (n - start)
            };
            proof {
                reveal(seat_after);
                let t = start + k;
                if k >= n - start {
                    vstd::arithmetic::div_mod::lemma_mod_add_multiples_vanish((t - n) as int, n as int);
                    vstd::arithmetic::div_mod::lemma_small_mod((t - n) as nat, n as nat);
                } else {
                    vstd::arithmetic::div_mod::lemma_small_mod(t as nat, n as nat);
                }
                assert(c == seat_after(start as int, k as int, n as int));
            }
            if !self.players[c].bankrupt {
                proof {
                    let w = choose|m: int|
                        1 <= m <= n && !s[#[trigger] seat_after(start as int, m, n as int)].bankrupt
                            && forall|j: int| 1 <= j < m ==> s[#[trigger] seat_after(start as int, j, n as int)].bankrupt;
                    assert(1 <= k <= n && !s[seat_after(start as int, k as int, n as int)].bankrupt);
                    if w < k {
                        assert(s[seat_after(start as int, w, n as int)].bankrupt);
                    } else if w > k {
                        assert(s[seat_after(start as int, k as int, n as int)].bankrupt);
                    }
                }
                return c;
            }
            j = j + 1;
        }
        start
    }

    /// Pass the turn to the next player still in the game, clearing the
    /// doubles streak and the right to roll.
    pub fn end_turn(&mut self)
        requires
            old(self).wf(),
            !(old(self).modal is Jail),
            !(old(self).modal is Trade),
        ensures
            final(self).wf(),
            turn_passed(*old(self), *final(self)),
    {
        let c = self.next_active_seat();
        let ghost g0 = *self;
        self.doubles = 0;
        self.can_roll = true;
        self.has_rolled = false;
        self.current = c;
        proof {
            lemma_wf_turn(&g0, self);
        }
        self.note(Note::Turn { who: c });
    }

    /// If only one player is left standing, end the game with them as winner.
    pub fn check_win(&mut self)
        requires
            old(self).wf(),
        ensures
            final(self).wf(),
            sole_survivor(old(self).players@) matches Some(w) ==> final(self).modal == Modal::GameOver(w),
            sole_survivor(old(self).players@) is None ==> final(self).modal == old(self).modal,
            final(self).notes@ == (if sole_survivor(old(self).players@) is Some {
                old(self).notes@.push(Note::Wins { who: sole_survivor(old(self).players@)->0 })
            } else {
                old(self).notes@
            }),
            final(self).players@ == old(self).players@,
            final(self).board@ == old(self).board@,
            final(self).same_rest_but_modal(old(self)),
    {
        let alive = self.active_players();
        if alive.len() == 1 {
            proof {
                lemma_active_upto(self.players@, self.players@.len() as int);
            }
            self.modal = Modal::GameOver(alive[0]);
            self.note(Note::Wins { who: alive[0] });
        }
    }

    /// The buildings on the board and the bank's stock together are as in `o`:
    /// every house and hotel is either standing or in the bank.
    pub open spec fn stock_kept(&self, o: &Game) -> bool {
        &&& street_houses(self.board@) + self.houses_left == street_houses(o.board@) + o.houses_left
        &&& hotel_count(self.board@) + self.hotels_left == hotel_count(o.board@) + o.hotels_left
    }

    /// Everything but the players, the board and the popup is as in `o`.
    pub open spec fn same_rest_but_modal(&self, o: &Game) -> bool {
        &&& self.current == o.current
        &&& self.doubles == o.doubles
        &&& self.can_roll == o.can_roll
        &&& self.has_rolled == o.has_rolled
        &&& self.clock == o.clock
        &&& self.done == o.done
        &&& self.chance@ == o.chance@
        &&& self.chest@ == o.chest@
        &&& self.pending@ == o.pending@
        &&& self.houses_left == o.houses_left
        &&& self.hotels_left == o.hotels_left
    }
}

} // verus!

verus! {

/// A square after `who` goes bankrupt: a deed of theirs passes as it stands to
/// the creditor, or returns to the bank bare and unmortgaged.
pub open spec fn after_bankruptcy(s: Space, who: usize, creditor: Option<usize>) -> Space {
    if s.owner_spec() == Some(who) {
        match creditor {
            Some(to) => s.with_owner(Some(to)),
            None => s.with_owner(None).with_houses(0).with_mortgaged(false),
        }
    } else {
        s
    }
}

/// The interest owed on the mortgaged deeds among the listed squares: a tenth
/// of each one's mortgage value.
pub open spec fn mortgage_interest(b: Seq<Space>, v: Seq<usize>) -> int
    decreases v.len(),
{
    if v.len() == 0 {
        0
    } else {
        mortgage_interest(b, v.drop_last()) + if b[v.last() as int].mortgaged_spec() {
            b[v.last() as int].mortgage_value_spec() / 10
        } else {
            0
        }
    }
}

/// One queued auction per listed square, in order.
pub open spec fn auctions_of(v: Seq<usize>) -> Seq<Pending> {
    Seq::new(v.len(), |i: int| Pending::Auction(v[i]))
}

proof fn lemma_interest_bounds(b: Seq<Space>, v: Seq<usize>)
    requires
        index_list_ok(v, b.len() as int),
        forall|i: int| 0 <= i < b.len() ==> space_ok(#[trigger] b[i]),
    ensures
        0 <= mortgage_interest(b, v) <= v.len() * 50_000,
    decreases v.len(),
{
    if v.len() > 0 {
        lemma_interest_bounds(b, v.drop_last());
        assert(space_ok(b[v.last() as int]));
    }
}

/// The interest on one deed: a tenth of its mortgage value when it is
/// mortgaged, nothing otherwise.
pub proof fn lemma_interest_on_one_deed(b: Seq<Space>, i: usize)
    ensures
        mortgage_interest(b, seq![i]) == if b[i as int].mortgaged_spec() {
            (b[i as int].mortgage_value_spec() / 10) as int
        } else {
            0int
        },
{
    let v = seq![i];
    assert(v.drop_last() =~= Seq::<usize>::empty());
    assert(mortgage_interest(b, v.drop_last()) == 0);
    assert(v.last() == i);
}

/// The interest on an inherited estate adds up deed by deed: the bill on two
/// lists of deeds taken together is the bill on each added together, so one
/// more mortgaged deed adds its own tenth and no deed's interest is dropped.
pub proof fn lemma_interest_adds_up(b: Seq<Space>, v1: Seq<usize>, v2: Seq<usize>)
    ensures
        mortgage_interest(b, v1 + v2) == mortgage_interest(b, v1) + mortgage_interest(b, v2),
    decreases v2.len(),
{
    if v2.len() == 0 {
        assert(v1 + v2 =~= v1);
    } else {
        lemma_interest_adds_up(b, v1, v2.drop_last());
        assert((v1 + v2).drop_last() =~= v1 + v2.drop_last());
        assert((v1 + v2).last() == v2.last());
    }
}

/// `who` eliminated, between the game `o` before and `f` after: their estate
/// goes to `creditor` (or back to the bank, each deed queued for auction), the
/// game ends if one player is left, and otherwise a creditor is billed 10%
/// interest on each mortgaged deed.
pub open spec fn bankrupted(o: Game, f: Game, who: usize, creditor: Option<usize>) -> bool {
    &&& f.stock_kept(&o)
    &&& ({
        let interest = mortgage_interest(o.board@, holdings_upto(o.board@, who, BOARD_LEN as int));
        f.notes@ == o.notes@.push(Note::Out { who }) + (if sole_survivor(f.players@) is Some {
            seq![Note::Wins { who: sole_survivor(f.players@)->0 }]
        } else {
            Seq::empty()
        }) + (if !(f.modal is GameOver) && creditor is Some && interest > 0 {
            seq![Note::Interest { who: creditor->0, amount: interest as u32 }]
        } else {
            Seq::empty()
        })
    })
    &&& f.players@ == o.players@.update(
        who as int,
        Player { bankrupt: true, ..o.players@[who as int] },
    )
    &&& forall|i: int| 0 <= i < BOARD_LEN ==> #[trigger] f.board@[i] == after_bankruptcy(
        o.board@[i],
        who,
        creditor,
    )
    &&& f.board@.len() == BOARD_LEN
    &&& street_houses(f.board@) + f.houses_left == street_houses(o.board@)
        + o.houses_left
    &&& hotel_count(f.board@) + f.hotels_left == hotel_count(o.board@)
        + o.hotels_left
    &&& sole_survivor(f.players@) matches Some(w) ==> f.modal == Modal::GameOver(w)
    &&& sole_survivor(f.players@) is None ==> f.modal == o.modal
    &&& f.modal is GameOver ==> f.pending@.len() == 0
    &&& ({
        let hs = holdings_upto(o.board@, who, BOARD_LEN as int);
        match f.modal {
            Modal::GameOver(_) => true,
            _ => f.pending@ == (match creditor {
                None => o.pending@ + auctions_of(hs),
                Some(to) => if mortgage_interest(o.board@, hs) > 0 {
                    o.pending@.push(
                        Pending::Charge {
                            who: to,
                            amount: mortgage_interest(o.board@, hs) as u32,
                            payee: Payee::Bank,
                        },
                    )
                } else {
                    o.pending@
                },
            }),
        }
    })
    &&& active_count(f.players@) == active_count(o.players@) - (if o.players@[who as int].bankrupt {
        0int
    } else {
        1int
    })
    &&& total_money(f.players@) == total_money(o.players@)
    &&& f.current == o.current
    &&& f.doubles == o.doubles
    &&& f.can_roll == o.can_roll
    &&& f.has_rolled == o.has_rolled
    &&& f.clock == o.clock
    &&& f.done == o.done
    &&& f.chance@ == o.chance@
    &&& f.chest@ == o.chest@
}

impl Game {
    /// Add work behind the popup that is currently open.
    pub fn queue(&mut self, work: Pending)
        ensures
            final(self).notes@ == old(self).notes@,
            final(self).pending@ == old(self).pending@.push(work),
            final(self).players@ == old(self).players@,
            final(self).board@ == old(self).board@,
            final(self).modal == old(self).modal,
            final(self).current == old(self).current,
            final(self).doubles == old(self).doubles,
            final(self).can_roll == old(self).can_roll,
            final(self).has_rolled == old(self).has_rolled,
            final(self).clock == old(self).clock,
            final(self).done == old(self).done,
            final(self).chance@ == old(self).chance@,
            final(self).chest@ == old(self).chest@,
            final(self).houses_left == old(self).houses_left,
            final(self).hotels_left == old(self).hotels_left,
    {
        self.pending.push_back(work);
    }

    /// Return the buildings on `idx` to the bank's stock.
    pub fn reclaim_buildings(&mut self, idx: usize)
        requires
            idx < old(self).board@.len(),
            old(self).board@[idx as int].houses_spec() != HOTEL ==> old(self).houses_left + old(self).board@[idx as int].houses_spec() <= 255,
            old(self).board@[idx as int].houses_spec() == HOTEL ==> old(self).hotels_left + 1 <= 255,
        ensures
            final(self).notes@ == old(self).notes@,
            old(self).board@[idx as int].houses_spec() == 0 ==> final(self).houses_left == old(self).houses_left
                && final(self).hotels_left == old(self).hotels_left,
            old(self).board@[idx as int].houses_spec() == HOTEL ==> final(self).houses_left
                == old(self).houses_left && final(self).hotels_left == old(self).hotels_left + 1,
            old(self).board@[idx as int].houses_spec() != 0 && old(self).board@[idx as int].houses_spec() != HOTEL
                ==> final(self).houses_left == old(self).houses_left + old(self).board@[idx as int].houses_spec()
                && final(self).hotels_left == old(self).hotels_left,
            final(self).players@ == old(self).players@,
            final(self).board@ == old(self).board@,
            final(self).same_turn(old(self)),
    {
        let n = self.board[idx].houses();
        if n == 0 {
        } else if n == HOTEL {
            self.hotels_left = self.hotels_left + 1;
        } else {
            self.houses_left = self.houses_left + n;
        }
    }

    /// Eliminate `who`: hand their estate to `creditor` (a player) or back to the
    /// bank (queueing an auction of each deed), then end the game if one player is
    /// left; otherwise a creditor is billed 10% interest on each mortgaged deed.
    pub fn bankrupt_core(&mut self, who: usize, creditor: Option<usize>)
        requires
            old(self).wf(),
            old(self).modal_independent(),
            who < old(self).players@.len(),
            creditor matches Some(to) ==> to < old(self).players@.len(),
        ensures
            final(self).wf(),
            bankrupted(*old(self), *final(self), who, creditor),
    {
        let ghost g0 = *self;
        let ghost b0 = self.board@;
        proof {
            let p = Player { bankrupt: true, ..self.players@[who as int] };
            lemma_active_update(self.players@, who as int, p);
            lemma_total_update(self.players@, who as int, p);
        }
        self.players[who].bankrupt = true;
        let hs = self.holdings(who);
        proof {
            lemma_holdings_upto(b0, who, BOARD_LEN as int);
        }
        let mut interest: u32 = 0;
        let mut k: usize = 0;
        while k < hs.len()
            invariant
                k <= hs@.len(),
                self.notes@ == g0.notes@,
                hs@ == holdings_upto(b0, who, BOARD_LEN as int),
                hs@.len() <= BOARD_LEN,
                forall|j: int| 0 <= j < hs@.len() ==> #[trigger] hs@[j] < BOARD_LEN && b0[hs@[j] as int].owner_spec() == Some(who),
                forall|a: int, c: int| 0 <= a < c < hs@.len() ==> #[trigger] hs@[a] < #[trigger] hs@[c],
                self.board@.len() == BOARD_LEN,
                b0.len() == BOARD_LEN,
                forall|i: int| 0 <= i < BOARD_LEN ==> #[trigger] self.board@[i] == (if hs@.take(k as int).contains(i as usize) {
                    after_bankruptcy(b0[i], who, creditor)
                } else {
                    b0[i]
                }),
                street_houses(self.board@) + self.houses_left == street_houses(b0) + g0.houses_left,
                hotel_count(self.board@) + self.hotels_left == hotel_count(b0) + g0.hotels_left,
                self.houses_left + street_houses(self.board@) <= 255,
                self.hotels_left + hotel_count(self.board@) <= 255,
                creditor is Some ==> interest == mortgage_interest(b0, hs@.take(k as int)),
                interest <= k * 50_000,
                self.pending@ == (if creditor is None {
                    g0.pending@ + auctions_of(hs@.take(k as int))
                } else {
                    g0.pending@
                }),
                self.players@ == g0.players@.update(who as int, Player { bankrupt: true, ..g0.players@[who as int] }),
                self.modal == g0.modal,
                self.same_rest_but_modal_and_stock(&g0),
                forall|i: int| 0 <= i < BOARD_LEN ==> space_ok(#[trigger] b0[i]),
                g0.wf(),
            decreases hs@.len() - k,
        {
            let idx = hs[k];
            proof {
                assert(!hs@.take(k as int).contains(idx)) by {
                    if hs@.take(k as int).contains(idx) {
                        let j = choose|j: int| 0 <= j < k && #[trigger] hs@.take(k as int)[j] == idx;
                        assert(hs@[j] < hs@[k as int]);
                    }
                }
                assert(self.board@[idx as int] == b0[idx as int]);
                assert(index_list_ok(hs@.take(k as int), BOARD_LEN as int));
                lemma_interest_bounds(b0, hs@.take(k as int));
                lemma_space_updates(self.board@[idx as int]);
                lemma_space_updates(self.board@[idx as int].with_owner(None));
                lemma_space_updates(self.board@[idx as int].with_owner(None).with_houses(0));
                lemma_houses_ge(self.board@, idx as int);
                assert(space_ok(b0[idx as int]));
                assert(hs@.take(k + 1).drop_last() =~= hs@.take(k as int));
                assert(hs@.take(k + 1).last() == idx);
            }
            match creditor {
                Some(to) => {
                    if self.board[idx].is_mortgaged() {
                        interest = interest + self.board[idx].mortgage_value() / 10;
                    }
                    proof {
                        lemma_houses_update(self.board@, idx as int, self.board@[idx as int].with_owner(Some(to)));
                    }
                    self.board[idx].set_owner(Some(to));
                },
                None => {
                    self.reclaim_buildings(idx);
                    proof {
                        lemma_houses_update(self.board@, idx as int, self.board@[idx as int].with_owner(None));
                    }
                    self.board[idx].set_owner(None);
                    proof {
                        lemma_houses_update(
                            self.board@,
                            idx as int,
                            self.board@[idx as int].with_houses(0).with_mortgaged(false),
                        );
                    }
                    self.board[idx].reset_buildings();
                    self.queue(Pending::Auction(idx));
                    proof {
                        assert(auctions_of(hs@.take(k + 1)) =~= auctions_of(hs@.take(k as int)).push(Pending::Auction(idx)));
                    }
                },
            }
            proof {
                assert forall|i: int| 0 <= i < BOARD_LEN implies #[trigger] self.board@[i] == (if hs@.take(k + 1).contains(i as usize) {
                    after_bankruptcy(b0[i], who, creditor)
                } else {
                    b0[i]
                }) by {
                    if i == idx as int {
                        assert(hs@.take(k + 1)[k as int] == idx);
                    } else {
                        assert(hs@.take(k + 1).contains(i as usize) == hs@.take(k as int).contains(i as usize)) by {
                            if hs@.take(k + 1).contains(i as usize) {
                                let j = choose|j: int| 0 <= j < k + 1 && #[trigger] hs@.take(k + 1)[j] == i as usize;
                                assert(hs@.take(k as int)[j] == i as usize);
                            }
                            if hs@.take(k as int).contains(i as usize) {
                                let j = choose|j: int| 0 <= j < k && #[trigger] hs@.take(k as int)[j] == i as usize;
                                assert(hs@.take(k + 1)[j] == i as usize);
                            }
                        }
                    }
                }
            }
            k = k + 1;
        }
        proof {
            assert(hs@.take(hs@.len() as int) =~= hs@);
            assert forall|i: int| 0 <= i < BOARD_LEN implies #[trigger] self.board@[i] == after_bankruptcy(
                b0[i],
                who,
                creditor,
            ) by {
                if !hs@.contains(i as usize) {
                    assert(b0[i].owner_spec() != Some(who));
                }
            }
            assert forall|i: int| 0 <= i < BOARD_LEN implies space_ok(#[trigger] self.board@[i]) by {
                lemma_space_updates(b0[i]);
                lemma_space_updates(b0[i].with_owner(None));
                lemma_space_updates(b0[i].with_owner(None).with_houses(0));
            }
            assert forall|i: int| 0 <= i < BOARD_LEN implies (#[trigger] self.board@[i].owner_spec() matches Some(o) ==> o
                < self.players@.len()) by {
                lemma_space_updates(b0[i]);
                lemma_space_updates(b0[i].with_owner(None));
                lemma_space_updates(b0[i].with_owner(None).with_houses(0));
            }
            assert(self.wf());
        }
        self.note(Note::Out { who });
        let ghost n1 = self.notes@;
        self.check_win();
        let over = match self.modal {
            Modal::GameOver(_) => true,
            _ => false,
        };
        if over {
            self.pending.clear();
            proof {
                if sole_survivor(self.players@) is Some {
                    assert(self.notes@ =~= n1 + seq![Note::Wins { who: sole_survivor(self.players@)->0 }]
                        + Seq::<Note>::empty());
                } else {
                    assert(self.notes@ =~= n1 + Seq::<Note>::empty() + Seq::<Note>::empty());
                }
            }
            return;
        }
        if let Some(to) = creditor {
            if interest > 0 {
                self.note(Note::Interest { who: to, amount: interest });
                self.queue(Pending::Charge { who: to, amount: interest, payee: Payee::Bank });
                proof {
                    assert(self.notes@ =~= n1 + Seq::<Note>::empty() + seq![Note::Interest { who: to, amount: interest }]);
                }
            }
        }
        proof {
            assert(n1 + Seq::<Note>::empty() + Seq::<Note>::empty() =~= n1);
        }
    }

    /// Everything but the players, the board, the popup, the queue, the bank's stock and the decks is as in `o`.
    pub open spec fn same_rest_but_decks_and_modal(&self, o: &Game) -> bool {
        &&& self.current == o.current
        &&& self.doubles == o.doubles
        &&& self.can_roll == o.can_roll
        &&& self.has_rolled == o.has_rolled
        &&& self.clock == o.clock
        &&& self.done == o.done
        &&& self.houses_left == o.houses_left
        &&& self.hotels_left == o.hotels_left
    }

    /// Everything but the players, the board, the popup, the queue and the bank's stock is as in `o`.
    pub open spec fn same_rest_but_modal_and_stock(&self, o: &Game) -> bool {
        &&& self.current == o.current
        &&& self.doubles == o.doubles
        &&& self.can_roll == o.can_roll
        &&& self.has_rolled == o.has_rolled
        &&& self.clock == o.clock
        &&& self.done == o.done
        &&& self.chance@ == o.chance@
        &&& self.chest@ == o.chest@
    }
}

} // verus!

verus! {

/// Every bill in the queue, taken in order, finds its payer still in the game
/// with the cash to pay it outright (and the queue holds nothing but bills).
pub open spec fn bills_payable(s: Seq<Player>, q: Seq<Pending>) -> bool
    decreases q.len(),
{
    if q.len() == 0 {
        true
    } else {
        match q[0] {
            Pending::Charge { who, amount, payee } => {
                &&& who < s.len()
                &&& !s[who as int].bankrupt
                &&& amount > 0
                &&& s[who as int].money >= amount
                &&& payee.valid(s.len() as int)
                &&& bills_payable(settled(s, who as int, amount as int, payee), q.drop_first())
            },
            Pending::Auction(_) => false,
        }
    }
}

/// The queue holds nothing but lots for auction.
pub open spec fn only_lots(q: Seq<Pending>) -> bool {
    forall|i: int| 0 <= i < q.len() ==> #[trigger] q[i] is Auction
}

/// With nothing on screen, the next piece of queued work is a lot and someone
/// is still in the game to bid on it.
pub open spec fn lot_next(g: Game) -> bool {
    &&& g.modal is Clear
    &&& g.pending@.len() > 0
    &&& g.pending@[0] is Auction
    &&& active_upto(g.players@, g.players@.len() as int).len() > 0
}

/// With nothing on screen, the next piece of queued work is a bill that its
/// player, still in the game, can pay only by raising cash on their estate.
pub open spec fn bill_short(g: Game) -> bool {
    &&& g.modal is Clear
    &&& g.pending@.len() > 0
    &&& g.pending@[0] matches Pending::Charge { who, amount, payee }
    &&& who < g.players@.len()
    &&& !g.players@[who as int].bankrupt
    &&& g.players@[who as int].money < amount
    &&& g.players@[who as int].money + estate_worth(g.board@, who, BOARD_LEN as int) >= amount
}

/// With nothing on screen, the next piece of queued work is a bill that its
/// player, still in the game, cannot cover even by selling up.
pub open spec fn bill_fatal(g: Game) -> bool {
    &&& g.modal is Clear
    &&& g.pending@.len() > 0
    &&& g.pending@[0] matches Pending::Charge { who, amount, payee }
    &&& who < g.players@.len()
    &&& !g.players@[who as int].bankrupt
    &&& g.players@[who as int].money < amount
    &&& g.players@[who as int].money + estate_worth(g.board@, who, BOARD_LEN as int) < amount
}

/// The liquidation list opened on the bill at the head of the queue in `o`,
/// giving `f`, with the bill taken off the queue.
pub open spec fn bill_listed(o: Game, f: Game) -> bool {
    &&& o.pending@[0] matches Pending::Charge { who, amount, payee }
    &&& f.modal matches Modal::Debt(d)
    &&& d.who == who && d.amount == amount && d.payee == payee && d.then_advance is None
    &&& d.slots@ == holdings_upto(o.board@, who, BOARD_LEN as int) && d.cursor.selected == 0
    &&& f.pending@ == o.pending@.drop_first()
    &&& f.players@ == o.players@
    &&& f.board@ == o.board@
}

/// The players after each bill in the queue is paid in turn.
pub open spec fn bills_paid(s: Seq<Player>, q: Seq<Pending>) -> Seq<Player>
    decreases q.len(),
{
    if q.len() == 0 {
        s
    } else {
        match q[0] {
            Pending::Charge { who, amount, payee } => bills_paid(
                settled(s, who as int, amount as int, payee),
                q.drop_first(),
            ),
            Pending::Auction(_) => s,
        }
    }
}

/// `p` is the game `o` with the head of its queue taken off.
pub open spec fn popped(o: Game, p: Game) -> bool {
    &&& o.pending@.len() > 0
    &&& p.pending@ == o.pending@.drop_first()
    &&& p.players@ == o.players@
    &&& p.board@ == o.board@
    &&& p.modal == o.modal
    &&& p.houses_left == o.houses_left
    &&& p.hotels_left == o.hotels_left
    &&& p.same_rest_but_modal_and_stock(&o)
}

/// One piece of queued work started with nothing on screen in `o`, giving `h`:
/// the head of the queue is taken off; a lot goes up for auction (see
/// [`auction_started`]); a bill is charged (see [`charged`]) unless its player
/// is already out.
pub open spec fn pending_step(o: Game, h: Game) -> bool {
    &&& o.modal is Clear
    &&& exists|p: Game|
        #[trigger] popped(o, p) && match o.pending@[0] {
            Pending::Auction(pos) => auction_started(p, h, pos),
            Pending::Charge { who, amount, payee } => if p.players@[who as int].bankrupt {
                h == p
            } else {
                exists|out: bool| #[trigger] charged(p, h, who, amount, payee, None, out)
            },
        }
}

/// `f` is reached from `o` by `k` pieces of queued work (see [`pending_step`]).
pub open spec fn pending_steps(o: Game, f: Game, k: nat) -> bool
    decreases k,
{
    if k == 0 {
        f == o
    } else {
        exists|h: Game| #[trigger] pending_step(o, h) && pending_steps(h, f, (k - 1) as nat)
    }
}

/// One more piece of work at the end of a run of queued work.
proof fn lemma_steps_extend(a: Game, b: Game, c: Game, k: nat)
    requires
        pending_steps(a, b, k),
        pending_step(b, c),
    ensures
        pending_steps(a, c, k + 1),
    decreases k,
{
    if k == 0 {
        assert(pending_steps(c, c, 0));
        assert(pending_step(a, c) && pending_steps(c, c, 0));
    } else {
        let h = choose|h: Game| #[trigger] pending_step(a, h) && pending_steps(h, b, (k - 1) as nat);
        lemma_steps_extend(h, b, c, (k - 1) as nat);
        assert(pending_step(a, h) && pending_steps(h, c, k));
    }
}

/// What starting queued work does, between the game `o` before and `f` after:
/// bills all payable in cash are paid in turn; nothing happens with a popup up
/// or an empty queue; the next lot goes up for auction; the work stops only
/// with the screen taken or the queue empty.
pub open spec fn pending_ran(o: Game, f: Game) -> bool {
    &&& o.modal is Clear && bills_payable(o.players@, o.pending@)
        ==> f.players@ == bills_paid(o.players@, o.pending@) && f.modal is Clear && f.board@ == o.board@
    &&& f.stock_kept(&o)
    &&& total_money(f.players@) <= total_money(o.players@)
    &&& active_count(f.players@) <= active_count(o.players@)
    &&& f.players@.len() == o.players@.len()
    &&& f.same_rest_but_modal_and_stock(&o)
    &&& !(o.modal is Clear) || o.pending@.len() == 0 ==> f.modal == o.modal && f.players@ == o.players@
        && f.board@ == o.board@ && f.pending@ == o.pending@ && f.houses_left == o.houses_left
        && f.hotels_left == o.hotels_left
    &&& f.modal is Clear ==> f.pending@.len() == 0
    &&& f.modal is Clear || f.modal == o.modal || f.modal is Debt || f.modal is GameOver || f.modal is Auction
    &&& forall|i: int| 0 <= i < o.players@.len() && #[trigger] o.players@[i].bankrupt ==> f.players@[i].bankrupt
    &&& only_lots(o.pending@) ==> f.players@ == o.players@ && f.board@ == o.board@
    &&& lot_next(o) ==> (f.modal matches Modal::Auction(a) && a.pos == o.pending@[0]->0
        && f.pending@ == o.pending@.drop_first() && f.players@ == o.players@ && f.board@ == o.board@)
    &&& bill_short(o) ==> bill_listed(o, f)
    &&& bill_fatal(o) ==> f.players@[o.pending@[0]->who as int].bankrupt
    &&& exists|k: nat| #[trigger] pending_steps(o, f, k)
}

/// `who` billed `amount` for `payee` (see [`charged`]), between the game `o`
/// before and `f` after, with queued work resuming after a bankruptcy.
pub open spec fn billed(o: Game, f: Game, who: usize, amount: u32, payee: Payee) -> bool {
    &&& f.stock_kept(&o)
    &&& total_money(f.players@) <= total_money(o.players@)
    &&& active_count(f.players@) <= active_count(o.players@)
    &&& f.players@.len() == o.players@.len()
    &&& f.same_rest_but_modal_and_stock(&o)
    &&& amount == 0 ==> f.players@ == o.players@ && f.board@ == o.board@
        && f.modal == o.modal
    &&& amount == 0 ==> f.notes@ == o.notes@
    &&& amount > 0 && o.players@[who as int].money >= amount ==> f.notes@ == o.notes@.push(
        payment_note(who, amount, payee),
    )
    &&& amount > 0 && o.players@[who as int].money >= amount ==> f.players@ == settled(
        o.players@,
        who as int,
        amount as int,
        payee,
    ) && f.board@ == o.board@ && f.modal == o.modal
    &&& amount > 0 && o.players@[who as int].money < amount ==> {
        let worth = o.players@[who as int].money + estate_worth(o.board@, who, BOARD_LEN as int);
        &&& worth < amount ==> f.players@[who as int].bankrupt && exists|g: Game|
            #[trigger] went_under(o, g, who, payee) && pending_ran(g, f)
        &&& worth >= amount ==> f.players@ == o.players@ && f.board@
            == o.board@ && (f.modal matches Modal::Debt(d) && d.who == who && d.amount == amount
            && d.payee == payee && d.then_advance is None && d.slots@ == holdings_upto(
            o.board@,
            who,
            BOARD_LEN as int,
        ) && d.cursor.selected == 0)
    }
    &&& f.modal is Clear || f.modal == o.modal || f.modal is Debt
        || f.modal is GameOver || f.modal is Auction
}

impl Game {
    /// Record a message for the players; nothing else changes.
    pub fn note(&mut self, n: Note)
        ensures
            *final(self) == (Game { notes: final(self).notes, ..*old(self) }),
            final(self).notes@ == old(self).notes@.push(n),
    {
        self.notes.push(n);
    }

    /// Nothing is on screen.
    pub fn screen_clear(&self) -> (b: bool)
        ensures
            b == self.modal is Clear,
    {
        match self.modal {
            Modal::Clear => true,
            _ => false,
        }
    }

    /// Start queued work while nothing is on screen: each lot goes up for
    /// auction, and each bill is charged to its player unless they are out.
    /// Stops when a popup opens or the queue is empty.
    pub fn run_pending(&mut self)
        requires
            old(self).wf(),
            total_money(old(self).players@) + WORTH_ROOM <= u32::MAX,
        ensures
            final(self).wf(),
            pending_ran(*old(self), *final(self)),
    {
        let ghost g0 = *self;
        proof {
            assert(pending_steps(g0, *self, 0));
        }
        while self.screen_clear()
            invariant
                self.wf(),
                only_lots(g0.pending@) ==> only_lots(self.pending@) && self.players@ == g0.players@ && self.board@
                    == g0.board@,
                exists|k: nat| #[trigger] pending_steps(g0, *self, k),
                bill_short(g0) ==> *self == g0 || bill_listed(g0, *self),
                bill_fatal(g0) ==> *self == g0 || self.players@[g0.pending@[0]->who as int].bankrupt,
                lot_next(g0) ==> *self == g0 || (self.modal matches Modal::Auction(a) && a.pos == g0.pending@[0]->0
                    && self.pending@ == g0.pending@.drop_first() && self.players@ == g0.players@ && self.board@
                    == g0.board@),
                forall|i: int| 0 <= i < g0.players@.len() && #[trigger] g0.players@[i].bankrupt ==> self.players@[i].bankrupt,
                self.modal is Clear || self.modal == g0.modal || self.modal is Debt || self.modal is GameOver
                    || self.modal is Auction,
                total_money(self.players@) <= total_money(g0.players@),
                total_money(g0.players@) + WORTH_ROOM <= u32::MAX,
                active_count(self.players@) <= active_count(g0.players@),
                self.players@.len() == g0.players@.len(),
                self.same_rest_but_modal_and_stock(&g0),
                !(g0.modal is Clear) ==> *self == g0,
                self.stock_kept(&g0),
                g0.modal is Clear && bills_payable(g0.players@, g0.pending@) ==> self.modal is Clear
                    && bills_payable(self.players@, self.pending@) && bills_paid(self.players@, self.pending@)
                    == bills_paid(g0.players@, g0.pending@) && self.board@ == g0.board@,
                g0.pending@.len() == 0 ==> self.modal == g0.modal && self.players@ == g0.players@
                    && self.board@ == g0.board@ && self.pending@ == g0.pending@
                    && self.houses_left == g0.houses_left && self.hotels_left == g0.hotels_left,
            ensures
                self.modal is Clear ==> self.pending@.len() == 0,
                self.modal is Clear || self.modal == g0.modal || self.modal is Debt || self.modal is GameOver
                    || self.modal is Auction,
            decreases active_count(self.players@), self.pending@.len(),
        {
            proof {
                lemma_active_nonneg(self.players@);
            }
            if self.pending.len() == 0 {
                break;
            }
            let ghost before = *self;
            let head = self.pending.pop_front();
            let ghost p = *self;
            match head {
                Some(Pending::Auction(pos)) => {
                    self.start_auction(pos);
                },
                Some(Pending::Charge { who, amount, payee }) => {
                    if !self.players[who].bankrupt {
                        let out = self.charge_step(who, amount, payee, None);
                        proof {
                            assert(charged(p, *self, who, amount, payee, None, out));
                        }
                    }
                },
                None => {},
            }
            proof {
                assert(popped(before, p));
                assert(pending_step(before, *self));
                let k = choose|k: nat| #[trigger] pending_steps(g0, before, k);
                lemma_steps_extend(g0, before, *self, k);
            }
            proof {
                lemma_active_nonneg(self.players@);
            }
        }
    }

    /// Eliminate `who` (see [`Game::bankrupt_core`]), then start any work that
    /// it queued.
    pub fn bankrupt(&mut self, who: usize, creditor: Option<usize>)
        requires
            old(self).wf(),
            old(self).modal_independent(),
            who < old(self).players@.len(),
            creditor matches Some(to) ==> to < old(self).players@.len(),
            total_money(old(self).players@) + WORTH_ROOM <= u32::MAX,
        ensures
            final(self).stock_kept(old(self)),
            final(self).wf(),
            final(self).players@[who as int].bankrupt,
            total_money(final(self).players@) <= total_money(old(self).players@),
            active_count(final(self).players@) < active_count(old(self).players@) || old(self).players@[who as int].bankrupt,
            final(self).players@.len() == old(self).players@.len(),
            final(self).same_rest_but_modal_and_stock(old(self)),
            final(self).move_ready(),
            ({
                let hs = holdings_upto(old(self).board@, who, BOARD_LEN as int);
                only_lots(old(self).pending@) && (creditor is None || mortgage_interest(old(self).board@, hs) == 0)
                    ==> final(self).players@ == old(self).players@.update(
                    who as int,
                    Player { bankrupt: true, ..old(self).players@[who as int] },
                ) && final(self).board@.len() == BOARD_LEN && forall|i: int|
                    0 <= i < BOARD_LEN ==> #[trigger] final(self).board@[i] == after_bankruptcy(old(self).board@[i], who, creditor)
            }),
            ({
                let hs = holdings_upto(old(self).board@, who, BOARD_LEN as int);
                creditor is None && old(self).modal is Clear && old(self).pending@.len() == 0 && hs.len() > 0
                    && active_upto(final(self).players@, final(self).players@.len() as int).len() > 1
                    ==> (final(self).modal matches Modal::Auction(a) && a.pos == hs[0]
                    && final(self).pending@ == auctions_of(hs).drop_first())
            }),
            exists|g: Game| #[trigger] bankrupted(*old(self), g, who, creditor) && pending_ran(g, *final(self)),
    {
        self.bankrupt_core(who, creditor);
        let ghost g = *self;
        proof {
            assert(self.players@[who as int].bankrupt);
            let hs = holdings_upto(old(self).board@, who, BOARD_LEN as int);
            if only_lots(old(self).pending@) && (creditor is None || mortgage_interest(old(self).board@, hs) == 0)
                && !(self.modal is GameOver) {
                assert forall|i: int| 0 <= i < self.pending@.len() implies #[trigger] self.pending@[i] is Auction by {
                    if creditor is None {
                        if i >= old(self).pending@.len() {
                            assert(self.pending@[i] == auctions_of(hs)[i - old(self).pending@.len()]);
                        } else {
                            assert(self.pending@[i] == old(self).pending@[i]);
                        }
                    }
                }
            }
            if creditor is None && old(self).modal is Clear && old(self).pending@.len() == 0 && hs.len() > 0 {
                if active_upto(self.players@, self.players@.len() as int).len() > 1 {
                    assert(self.pending@ =~= auctions_of(hs));
                    assert(lot_next(*self));
                }
            }
        }
        self.run_pending();
        proof {
            assert(bankrupted(*old(self), g, who, creditor));
        }
    }

    /// Bill `who` (see [`Game::charge_step`]); a bankruptcy it causes starts
    /// the work it queued.
    pub fn charge(&mut self, who: usize, amount: u32, payee: Payee)
        requires
            old(self).wf(),
            old(self).modal_independent(),
            who < old(self).players@.len(),
            payee.valid(old(self).players@.len() as int),
            total_money(old(self).players@) + WORTH_ROOM <= u32::MAX,
        ensures
            final(self).wf(),
            billed(*old(self), *final(self), who, amount, payee),
    {
        if self.charge_step(who, amount, payee, None) {
            let ghost g = *self;
            self.run_pending();
            proof {
                if amount > 0 && old(self).players@[who as int].money < amount && old(self).players@[who as int].money
                    + estate_worth(old(self).board@, who, BOARD_LEN as int) < amount {
                    assert(went_under(*old(self), g, who, payee));
                }
            }
        }
    }

    /// After a debt was paid, hand off the turn if it bankrupted `who`. Returns
    /// `true` when `who` is out. Only the player whose turn it is hands it off,
    /// and not once the game is over.
    pub fn settle_if_bankrupt(&mut self, who: usize) -> (out: bool)
        requires
            old(self).wf(),
            who < old(self).players@.len(),
            !(old(self).modal is Jail),
            !(old(self).modal is Trade),
        ensures
            !out ==> *final(self) == *old(self),
            final(self).wf(),
            out == old(self).players@[who as int].bankrupt,
            final(self).players@ == old(self).players@,
            final(self).board@ == old(self).board@,
            final(self).modal == old(self).modal,
            final(self).pending@ == old(self).pending@,
            final(self).houses_left == old(self).houses_left,
            final(self).hotels_left == old(self).hotels_left,
            final(self).chance@ == old(self).chance@,
            final(self).chest@ == old(self).chest@,
            final(self).clock == old(self).clock,
            final(self).done == old(self).done,
            out && who == old(self).current && !(old(self).modal is GameOver) ==> final(self).current == next_seat(
                old(self).players@,
                old(self).current as int,
            ) && final(self).doubles == 0 && final(self).can_roll && !final(self).has_rolled,
            !(out && who == old(self).current && !(old(self).modal is GameOver)) ==> final(self).current
                == old(self).current && final(self).doubles == old(self).doubles && final(self).can_roll
                == old(self).can_roll && final(self).has_rolled == old(self).has_rolled,
    {
        if !self.players[who].bankrupt {
            return false;
        }
        let over = match self.modal {
            Modal::GameOver(_) => true,
            _ => false,
        };
        if who == self.current && !over {
            self.end_turn();
        }
        true
    }
}

} // verus!

verus! {

/// What landing on square `pos` demands of the player whose turn it is.
pub open spec fn landing_spec(b: Seq<Space>, pos: int, current: usize) -> Landing {
    match b[pos] {
        Space::Tax(a) => Landing::Tax(a),
        Space::GoToJail => Landing::Jail,
        Space::Chance => Landing::Draw(self::cards::Deck::Chance),
        Space::CommunityChest => Landing::Draw(self::cards::Deck::Chest),
        s => if !s.ownable_spec() {
            Landing::Nothing
        } else {
            match s.owner_spec() {
                None => Landing::ForSale(
                    match s.price_spec() {
                        Some(p) => p,
                        None => 0,
                    },
                ),
                Some(o) => if o != current {
                    Landing::Owned(o)
                } else {
                    Landing::Nothing
                },
            }
        },
    }
}

/// The players after the current player is sent to jail.
pub open spec fn jailed(s: Seq<Player>, who: int) -> Seq<Player> {
    s.update(who, Player { position: self::jail::JAIL_INDEX, in_jail: true, jail_turns: 0, ..s[who] })
}

/// The players after `who` moves `steps` squares forward, collecting the GO
/// salary when the move reaches or passes GO.
pub open spec fn moved(s: Seq<Player>, who: int, steps: int) -> Seq<Player> {
    let p = s[who];
    let salary = if p.position + steps >= BOARD_LEN {
        GO_SALARY as int
    } else {
        0
    };
    s.update(who, Player { position: ((p.position + steps) % (BOARD_LEN as int)) as usize, money: (p.money + salary) as u32, ..p })
}

/// What billing `me` for `amount` to `payee` leaves behind, starting from the
/// players `mid`, the board `b` and the popup `before`: nothing for a zero bill;
/// the bill paid when the cash is there; the liquidation list when the estate
/// could raise the rest; bankruptcy otherwise.
pub open spec fn bill_outcome(
    b: Seq<Space>,
    mid: Seq<Player>,
    me: int,
    amount: u32,
    payee: Payee,
    before: Modal,
    after: Seq<Player>,
    modal: Modal,
) -> bool {
    let cash = mid[me].money;
    &&& amount == 0 ==> after == mid && modal == before
    &&& amount > 0 && cash >= amount ==> after == settled(mid, me, amount as int, payee) && modal == before
    &&& amount > 0 && cash < amount && cash + estate_worth(b, me as usize, BOARD_LEN as int) >= amount ==> after == mid
        && (modal matches Modal::Debt(d) && d.who == me && d.amount == amount && d.payee == payee
        && d.then_advance is None)
    &&& amount > 0 && cash < amount && cash + estate_worth(b, me as usize, BOARD_LEN as int) < amount ==> after[me].bankrupt
}

/// What resolving a landing on `dest` leaves behind in `f`, for the player `me`
/// whose turn it is, moved from the game `o` to the players `mid`: nothing on a
/// free square, the buy prompt on a deed for sale, the rent or tax billed (see
/// [`bill_outcome`]), jail, or a card drawn from that square's deck; the card
/// piles change only on a card square.
pub open spec fn landing_result(
    o: Game,
    mid: Seq<Player>,
    me: int,
    dest: int,
    steps: int,
    rule: RentRule,
    f: Game,
) -> bool {
    let b = o.board@;
    let before = o.modal;
    let after = f.players@;
    let modal = f.modal;
    &&& !(landing_spec(b, dest, me as usize) is Draw) ==> f.chance@ == o.chance@ && f.chest@ == o.chest@
    &&& match landing_spec(b, dest, me as usize) {
        Landing::Nothing => after == mid && modal == before,
        Landing::ForSale(_) => after == mid && modal == (Modal::Buy { confirm: Confirm { selected: 1 }, pos: dest as usize }),
        Landing::Owned(w) => {
            let r = rent_due(b, dest, w, steps, rule);
            0 <= r <= u32::MAX && bill_outcome(b, mid, me, r as u32, Payee::Player(w), before, after, modal)
        },
        Landing::Tax(a) => bill_outcome(b, mid, me, a, Payee::Bank, before, after, modal),
        Landing::Jail => after == jailed(mid, me) && f.doubles == 0 && modal == before,
        Landing::Draw(d) => after == mid && drawn_from(o, f, d),
    }
}

/// A card drawn from deck `d`, between the decks and popup of `o` and those of
/// `f`: that pile's top card goes to the bottom and shows in the card popup
/// (nothing shows from an empty pile), and the other pile is untouched.
pub open spec fn drawn_from(o: Game, f: Game, d: Deck) -> bool {
    let pile = if d == Deck::Chance {
        o.chance@
    } else {
        o.chest@
    };
    &&& d == Deck::Chance ==> f.chance@ == cycled(o.chance@) && f.chest@ == o.chest@
    &&& d == Deck::Chest ==> f.chest@ == cycled(o.chest@) && f.chance@ == o.chance@
    &&& pile.len() == 0 ==> f.modal == o.modal
    &&& pile.len() > 0 ==> f.modal == Modal::Card(CardDraw { clip: Clip::new_spec(), card: pile[0] })
}

/// A card square sends the player to its own pile: landing on Community Chest
/// turns over the top Community Chest card (that pile cycles, the Chance pile
/// is untouched) and landing on Chance the top Chance card, shown in the card
/// popup when the pile holds any.
pub proof fn lemma_card_squares_draw_their_own_pile(
    o: Game,
    mid: Seq<Player>,
    me: int,
    dest: int,
    steps: int,
    rule: RentRule,
    f: Game,
)
    requires
        landing_result(o, mid, me, dest, steps, rule, f),
    ensures
        o.board@[dest] is CommunityChest ==> {
            &&& f.chest@ == cycled(o.chest@)
            &&& f.chance@ == o.chance@
            &&& o.chest@.len() > 0 ==> f.modal == Modal::Card(CardDraw { clip: Clip::new_spec(), card: o.chest@[0] })
        },
        o.board@[dest] is Chance ==> {
            &&& f.chance@ == cycled(o.chance@)
            &&& f.chest@ == o.chest@
            &&& o.chance@.len() > 0 ==> f.modal == Modal::Card(CardDraw { clip: Clip::new_spec(), card: o.chance@[0] })
        },
        !(o.board@[dest] is CommunityChest) && !(o.board@[dest] is Chance) ==> f.chance@ == o.chance@ && f.chest@
            == o.chest@,
{
}

/// `who` moved `steps` squares on, collecting the salary for passing GO, and the
/// square they land on resolved, between the game `o` before and `f` after.
pub open spec fn advanced(o: Game, f: Game, who: usize, steps: usize) -> bool {
    &&& f.stock_kept(&o)
    &&& f.doubles == o.doubles || f.players@[o.current as int].in_jail
    &&& f.done == o.done
    &&& total_money(f.players@) <= total_money(o.players@) + GO_SALARY
    &&& f.players@.len() == o.players@.len()
    &&& f.current == o.current
    &&& f.can_roll == o.can_roll
    &&& f.has_rolled == o.has_rolled
    &&& f.move_ready()
    &&& ({
        let p = o.players@[who as int];
        let dest = (p.position + steps) % (BOARD_LEN as int);
        let salary = if p.position + steps >= BOARD_LEN {
            GO_SALARY as int
        } else {
            0
        };
        landing_spec(o.board@, dest, o.current) is Nothing ==> f.players@
            == o.players@.update(
            who as int,
            Player { position: dest as usize, money: (p.money + salary) as u32, ..p },
        ) && f.modal == o.modal && f.notes@ == o.notes@ + (if salary > 0 {
            seq![Note::PassedGo { who }]
        } else {
            Seq::empty()
        }) + seq![Note::Landed { who, pos: dest as usize }]
    })
    &&& who == o.current ==> landing_result(
        o,
        moved(o.players@, who as int, steps as int),
        who as int,
        (o.players@[who as int].position + steps) % (BOARD_LEN as int),
        steps as int,
        RentRule::Normal,
        f,
    )
}

impl Game {
    /// The popup on screen does not stand in the way of a move: it is neither
    /// the jail menu nor the trade builder.
    pub open spec fn move_ready(&self) -> bool {
        !(self.modal is Jail) && !(self.modal is Trade)
    }

    /// What landing on a space demands, read off the board.
    pub fn landing(&self, pos: usize) -> (l: Landing)
        requires
            pos < self.board@.len(),
        ensures
            l == landing_spec(self.board@, pos as int, self.current),
    {
        let space = &self.board[pos];
        match space {
            Space::Tax(amount) => Landing::Tax(*amount),
            Space::GoToJail => Landing::Jail,
            Space::Chance => Landing::Draw(self::cards::Deck::Chance),
            Space::CommunityChest => Landing::Draw(self::cards::Deck::Chest),
            _ => {
                if !space.is_ownable() {
                    Landing::Nothing
                } else {
                    match space.owner() {
                        None => Landing::ForSale(
                            match space.price() {
                                Some(p) => p,
                                None => 0,
                            },
                        ),
                        Some(owner) => {
                            if owner != self.current {
                                Landing::Owned(owner)
                            } else {
                                Landing::Nothing
                            }
                        },
                    }
                }
            },
        }
    }

    /// Bill the current player `amount`, payable to the bank.
    pub fn pay_bank(&mut self, amount: u32)
        requires
            old(self).wf(),
            old(self).modal_independent(),
            total_money(old(self).players@) + WORTH_ROOM <= u32::MAX,
        ensures
            final(self).stock_kept(old(self)),
            final(self).wf(),
            total_money(final(self).players@) <= total_money(old(self).players@),
            final(self).players@.len() == old(self).players@.len(),
            final(self).same_rest_but_modal_and_stock(old(self)),
            final(self).move_ready(),
            billed(*old(self), *final(self), old(self).current, amount, Payee::Bank),
    {
        self.charge(self.current, amount, Payee::Bank);
    }

    /// Bill the current player `rent`, payable to `owner`.
    pub fn pay_player(&mut self, owner: usize, rent: u32)
        requires
            old(self).wf(),
            old(self).modal_independent(),
            owner < old(self).players@.len(),
            total_money(old(self).players@) + WORTH_ROOM <= u32::MAX,
        ensures
            final(self).stock_kept(old(self)),
            final(self).wf(),
            total_money(final(self).players@) <= total_money(old(self).players@),
            final(self).players@.len() == old(self).players@.len(),
            final(self).same_rest_but_modal_and_stock(old(self)),
            final(self).move_ready(),
            billed(*old(self), *final(self), old(self).current, rent, Payee::Player(owner)),
    {
        self.charge(self.current, rent, Payee::Player(owner));
    }

    /// React to the space the current player landed on.
    pub fn resolve_landing(&mut self, pos: usize, total: usize, rule: RentRule)
        requires
            old(self).wf(),
            old(self).modal_independent(),
            pos < BOARD_LEN,
            total <= 255,
            rule matches RentRule::TenTimesUtility(roll) ==> roll <= 1000,
            total_money(old(self).players@) + WORTH_ROOM <= u32::MAX,
        ensures
            final(self).doubles == old(self).doubles || final(self).players@[old(self).current as int].in_jail,
            final(self).stock_kept(old(self)),
            final(self).wf(),
            total_money(final(self).players@) <= total_money(old(self).players@),
            final(self).players@.len() == old(self).players@.len(),
            final(self).current == old(self).current,
            final(self).can_roll == old(self).can_roll,
            final(self).has_rolled == old(self).has_rolled,
            final(self).clock == old(self).clock,
            final(self).done == old(self).done,
            final(self).move_ready(),
            ({
                let me = old(self).current as int;
                match landing_spec(old(self).board@, pos as int, old(self).current) {
                    Landing::Tax(a) => billed(*old(self), *final(self), me as usize, a, Payee::Bank),
                    Landing::Jail => final(self).players@ == jailed(old(self).players@, me) && sent_to_jail(
                        *old(self),
                        *final(self),
                    ),
                    Landing::Draw(d) => card_drawn(*old(self), *final(self), d),
                    Landing::ForSale(price) => *final(self) == (Game {
                        modal: Modal::Buy { confirm: Confirm { selected: 1 }, pos },
                        notes: final(self).notes,
                        ..*old(self)
                    }) && final(self).notes@ == old(self).notes@.push(Note::ForSale { pos, price }),
                    Landing::Owned(o) => {
                        let r = rent_due(old(self).board@, pos as int, o, total as int, rule);
                        0 <= r <= u32::MAX && billed(*old(self), *final(self), me as usize, r as u32, Payee::Player(o))
                    },
                    Landing::Nothing => *final(self) == *old(self),
                }
            }),
    {
        match self.landing(pos) {
            Landing::Tax(amount) => self.pay_bank(amount),
            Landing::Jail => self.send_to_jail(),
            Landing::Draw(deck) => self.draw_card(deck),
            Landing::ForSale(price) => {
                self.note(Note::ForSale { pos, price });
                self.modal = Modal::Buy { confirm: Confirm::new(), pos };
            },
            Landing::Owned(owner) => {
                let rent = self.rent(pos, owner, total, rule);
                self.pay_player(owner, rent);
            },
            Landing::Nothing => {},
        }
    }

    /// Move `who` forward `steps`, paying GO salary on a pass and resolving the
    /// landing for the current player.
    pub fn advance(&mut self, who: usize, steps: usize)
        requires
            old(self).wf(),
            old(self).modal_independent(),
            who < old(self).players@.len(),
            steps <= 255,
            total_money(old(self).players@) + WORTH_ROOM + GO_SALARY <= u32::MAX,
        ensures
            final(self).wf(),
            advanced(*old(self), *final(self), who, steps),
    {
        self.advance_under(who, steps, RentRule::Normal);
    }

    /// `advance` with the rent `rule` the landing is charged under.
    pub fn advance_under(&mut self, who: usize, steps: usize, rule: RentRule)
        requires
            old(self).wf(),
            old(self).modal_independent(),
            who < old(self).players@.len(),
            steps <= 255,
            rule matches RentRule::TenTimesUtility(roll) ==> roll <= 1000,
            total_money(old(self).players@) + WORTH_ROOM + GO_SALARY <= u32::MAX,
        ensures
            final(self).doubles == old(self).doubles || final(self).players@[old(self).current as int].in_jail,
            final(self).stock_kept(old(self)),
            final(self).done == old(self).done,
            final(self).wf(),
            total_money(final(self).players@) <= total_money(old(self).players@) + GO_SALARY,
            final(self).players@.len() == old(self).players@.len(),
            final(self).current == old(self).current,
            final(self).can_roll == old(self).can_roll,
            final(self).has_rolled == old(self).has_rolled,
            final(self).move_ready(),
            ({
                let p = old(self).players@[who as int];
                let dest = (p.position + steps) % (BOARD_LEN as int);
                let salary = if p.position + steps >= BOARD_LEN {
                    GO_SALARY as int
                } else {
                    0
                };
                landing_spec(old(self).board@, dest, old(self).current) is Nothing ==> final(self).players@
                    == old(self).players@.update(
                    who as int,
                    Player { position: dest as usize, money: (p.money + salary) as u32, ..p },
                ) && final(self).modal == old(self).modal && final(self).notes@ == old(self).notes@ + (if salary > 0 {
                    seq![Note::PassedGo { who }]
                } else {
                    Seq::empty()
                }) + seq![Note::Landed { who, pos: dest as usize }]
            }),
            who == old(self).current ==> landing_result(
                *old(self),
                moved(old(self).players@, who as int, steps as int),
                who as int,
                (old(self).players@[who as int].position + steps) % (BOARD_LEN as int),
                steps as int,
                rule,
                *final(self),
            ),
    {
        let ghost g0 = *self;
        let old_pos = self.players[who].position;
        let passed_go = old_pos + steps >= BOARD_LEN;
        let new = (old_pos + steps) % BOARD_LEN;
        let mut p = self.players[who];
        p.position = new;
        proof {
            lemma_total_update(self.players@, who as int, p);
            lemma_active_update(self.players@, who as int, p);
        }
        self.players.set(who, p);
        if passed_go {
            proof {
                lemma_total_ge(self.players@, who as int);
            }
            credit(&mut self.players, who, GO_SALARY);
        }
        proof {
            lemma_wf_kept(&g0, self);
            assert(self.players@ =~= moved(g0.players@, who as int, steps as int));
        }
        if passed_go {
            self.note(Note::PassedGo { who });
        }
        self.note(Note::Landed { who, pos: new });
        proof {
            let passing = if passed_go {
                seq![Note::PassedGo { who }]
            } else {
                Seq::<Note>::empty()
            };
            assert(self.notes@ =~= g0.notes@ + passing + seq![Note::Landed { who, pos: new }]);
        }
        self.resolve_landing(new, steps, rule);
    }
}

} // verus!

verus! {

/// What rolling `a` and `b` does, between the game `o` before the roll and `f`
/// after it: three doubles in a row jail the player; otherwise the player moves
/// (out of jail on doubles, or after paying the bail on the third failed try)
/// and the landing is resolved; a failed try from jail is only counted.
pub open spec fn roll_applied(o: Game, f: Game, a: u8, b: u8) -> bool {
    let me = o.current as int;
    &&& !o.players@[me].in_jail && a == b && o.doubles + 1 >= 3 ==> f.players@ == jailed(o.players@, me)
        && !f.can_roll && f.doubles == 0 && f.has_rolled && f.board@ == o.board@ && f.modal == o.modal
        && f.notes@ == o.notes@.push(Note::Rolled { who: me as usize, a, b }).push(Note::Jailed { who: me as usize })
    &&& !o.players@[me].in_jail && a != b && !f.players@[me].bankrupt ==> f.current == o.current && !f.can_roll
        && f.has_rolled
    &&& !o.players@[me].in_jail && a != b && !f.players@[me].bankrupt && !f.players@[me].in_jail ==> f.doubles
        == o.doubles
    &&& !o.players@[me].in_jail && a == b && o.doubles + 1 < 3 && !f.players@[me].bankrupt
        && !f.players@[me].in_jail ==> f.current == o.current && f.can_roll && f.has_rolled && f.doubles == o.doubles
        + 1
    &&& o.players@[me].in_jail ==> !f.can_roll || f.players@[me].bankrupt
    &&& !o.players@[me].in_jail && !(a == b && o.doubles + 1 >= 3) ==> landing_result(
        o,
        moved(o.players@, me, a + b),
        me,
        (o.players@[me].position + a + b) % (BOARD_LEN as int),
        a + b,
        RentRule::Normal,
        f,
    )
    &&& o.players@[me].in_jail && a == b ==> {
        let p = o.players@[me];
        landing_result(
            o,
            moved(o.players@.update(me, Player { in_jail: false, jail_turns: 0, ..p }), me, a + b),
            me,
            (p.position + a + b) % (BOARD_LEN as int),
            a + b,
            RentRule::Normal,
            f,
        )
    }
    &&& o.players@[me].in_jail && a != b && o.players@[me].jail_turns + 1 < 3 && !o.players@[me].bankrupt
        ==> f.players@ == o.players@.update(me, Player { jail_turns: (o.players@[me].jail_turns + 1) as u8, ..o.players@[me] })
        && f.modal == o.modal && f.current == o.current && f.notes@ == o.notes@.push(
        Note::Rolled { who: me as usize, a, b },
    ).push(Note::FailedDoubles { who: me as usize, tries: (o.players@[me].jail_turns + 1) as u8 })
    &&& o.players@[me].in_jail && a != b && o.players@[me].jail_turns + 1 >= 3 && o.players@[me].money >= BAIL ==> {
        let p = o.players@[me];
        landing_result(
            o,
            moved(settled(o.players@.update(me, Player { in_jail: false, jail_turns: 0, ..p }), me, BAIL as int, Payee::Bank), me, a + b),
            me,
            (p.position + a + b) % (BOARD_LEN as int),
            a + b,
            RentRule::Normal,
            f,
        )
    }
    &&& o.players@[me].in_jail && a != b && o.players@[me].jail_turns + 1 >= 3 && o.players@[me].money < BAIL ==> {
        let p = o.players@[me];
        let freed = o.players@.update(me, Player { in_jail: false, jail_turns: 0, ..p });
        &&& p.money + estate_worth(o.board@, me as usize, BOARD_LEN as int) >= BAIL ==> f.players@ == freed
            && f.board@ == o.board@ && (f.modal matches Modal::Debt(d) && d.who == me && d.amount == BAIL
            && d.payee == Payee::Bank && d.then_advance == Some((a + b) as usize))
        &&& p.money + estate_worth(o.board@, me as usize, BOARD_LEN as int) < BAIL ==> f.players@[me].bankrupt
    }
}

/// The current player buys the square they stand on, between the game `o`
/// before and `f` after, if it is for sale and they have the price; otherwise
/// nothing changes.
pub open spec fn bought(o: Game, f: Game) -> bool {
    &&& f.stock_kept(&o)
    &&& f.same_but_estates(&o)
    &&& ({
        let me = o.current as int;
        let pos = o.players@[me].position as int;
        let s = o.board@[pos];
        if s.ownable_spec() && s.owner_spec() is None && o.players@[me].money >= s.price_spec()->0 {
            &&& f.board@ == o.board@.update(pos, s.with_owner(Some(me as usize)))
            &&& f.players@ == o.players@.update(
                me,
                Player { money: (o.players@[me].money - s.price_spec()->0) as u32, ..o.players@[me] },
            )
        } else {
            f.board@ == o.board@ && f.players@ == o.players@
        }
    })
    &&& ({
        let me = o.current as int;
        let pos = o.players@[me].position as int;
        let s = o.board@[pos];
        f.notes@ == o.notes@.push(
            if !s.ownable_spec() {
                Note::NothingToBuy
            } else if s.owner_spec() is Some {
                Note::AlreadyOwned
            } else if o.players@[me].money < s.price_spec()->0 {
                Note::CantAffordDeed
            } else {
                Note::Bought { who: me as usize, pos: pos as usize, price: s.price_spec()->0 }
            },
        )
    })
    &&& total_money(f.players@) <= total_money(o.players@)
}

/// A roll asked for, between the game `o` before and `f` after: the dice start
/// rolling, or the jail menu opens for a jailed player; nothing happens when
/// the dice are already rolling or the player may not roll.
pub open spec fn roll_started(o: Game, f: Game) -> bool {
    &&& f.notes@ == if !(o.modal is Roll) && !o.can_roll {
        o.notes@.push(Note::AlreadyRolled)
    } else {
        o.notes@
    }
    &&& f.players@ == o.players@
    &&& f.board@ == o.board@
    &&& f.pending@ == o.pending@
    &&& f.same_rest_but_modal(&o)
    &&& (o.modal is Roll || !o.can_roll) ==> f.modal == o.modal
    &&& !(o.modal is Roll) && o.can_roll && o.players@[o.current as int].in_jail ==> jail_opened(o, f)
    &&& !(o.modal is Roll) && o.can_roll && !o.players@[o.current as int].in_jail
        ==> f.modal == Modal::Roll(Roll { clip: Clip::new_spec(), result: None })
}

impl Game {
    /// Apply a finished dice roll: a jailed player tries for doubles; otherwise
    /// doubles earn another roll (the third in a row jails without moving), the
    /// player moves, passes GO, and the landing is resolved.
    #[verifier::rlimit(40)]
    pub fn apply_roll(&mut self, a: u8, b: u8)
        requires
            old(self).wf(),
            old(self).modal_independent(),
            a + b <= 255,
            total_money(old(self).players@) + WORTH_ROOM + GO_SALARY <= u32::MAX,
        ensures
            final(self).stock_kept(old(self)),
            final(self).done == old(self).done,
            final(self).wf(),
            total_money(final(self).players@) <= total_money(old(self).players@) + GO_SALARY,
            final(self).players@.len() == old(self).players@.len(),
            final(self).move_ready(),
            roll_applied(*old(self), *final(self), a, b),
    {
        let total = (a + b) as usize;
        let who = self.current;
        self.has_rolled = true;
        self.note(Note::Rolled { who, a, b });
        if self.players[who].in_jail {
            self.apply_jail_roll(who, a, b, total);
            return;
        }
        if a == b {
            let streak = self.doubles + 1;
            if streak >= 3 {
                self.send_to_jail();
                self.can_roll = false;
                return;
            }
            self.doubles = streak;
            self.can_roll = true;
            self.note(Note::DoublesAgain { who });
        } else {
            self.can_roll = false;
        }
        self.advance(who, total);
        if self.players[who].in_jail {
            self.can_roll = false;
        }
        self.settle_if_bankrupt(who);
    }

    /// Buy the square the current player stands on, if it is for sale and
    /// affordable.
    pub fn buy_current(&mut self)
        requires
            old(self).wf(),
            old(self).modal_independent(),
        ensures
            final(self).wf(),
            bought(*old(self), *final(self)),
    {
        let me = self.current;
        let pos = self.players[me].position;
        if !self.board[pos].is_ownable() {
            self.note(Note::NothingToBuy);
            return;
        }
        if self.board[pos].owner().is_some() {
            self.note(Note::AlreadyOwned);
            return;
        }
        let price = match self.board[pos].price() {
            Some(p) => p,
            None => 0,
        };
        if self.players[me].money < price {
            self.note(Note::CantAffordDeed);
            return;
        }
        let ghost g0 = *self;
        debit(&mut self.players, me, price);
        proof {
            lemma_houses_update(self.board@, pos as int, self.board@[pos as int].with_owner(Some(me)));
            lemma_space_updates(self.board@[pos as int]);
        }
        self.board[pos].set_owner(Some(me));
        proof {
            lemma_wf_kept(&g0, self);
        }
        self.note(Note::Bought { who: me, pos, price });
    }

    /// Open the roll (or, for a jailed player, the jail menu) if a roll is due.
    pub fn start_roll(&mut self)
        requires
            old(self).wf(),
        ensures
            final(self).wf(),
            roll_started(*old(self), *final(self)),
    {
        if let Modal::Roll(_) = self.modal {
            return;
        }
        if !self.can_roll {
            self.note(Note::AlreadyRolled);
            return;
        }
        if self.players[self.current].in_jail {
            self.open_jail();
            return;
        }
        self.modal = Modal::Roll(Roll::new());
    }
}

} // verus!

verus! {

/// Passing the turn skips everyone who is out: while anyone other than the
/// current player is still in, the turn goes to the nearest such player going
/// round the table.
#[verifier::rlimit(50)]
pub proof fn lemma_turn_skips_the_eliminated(s: Seq<Player>, cur: int)
    requires
        0 <= cur < s.len(),
        exists|i: int| 0 <= i < s.len() && !s[i].bankrupt,
    ensures
        0 <= next_seat(s, cur) < s.len(),
        !s[next_seat(s, cur)].bankrupt,
        exists|k: int|
            1 <= k <= s.len() && next_seat(s, cur) == #[trigger] seat_after(cur, k, s.len() as int) && forall|j: int|
                1 <= j < k ==> s[#[trigger] seat_after(cur, j, s.len() as int)].bankrupt,
{
    let n = s.len() as int;
    let i = choose|i: int| 0 <= i < s.len() && !s[i].bankrupt;
    let k0 = lemma_seat_reaches(cur, i, n);
    lemma_first_active(s, cur, k0);
    let k = choose|k: int|
        1 <= k <= n && !s[#[trigger] seat_after(cur, k, n)].bankrupt && forall|j: int|
            1 <= j < k ==> s[#[trigger] seat_after(cur, j, n)].bankrupt;
    lemma_seat_in_range(cur, k, n);
}

/// Some number of places round the table, from 1 to `n`, reaches seat `i`.
proof fn lemma_seat_reaches(cur: int, i: int, n: int) -> (k: int)
    requires
        0 <= cur < n,
        0 <= i < n,
    ensures
        1 <= k <= n,
        seat_after(cur, k, n) == i,
{
    reveal(seat_after);
    if i > cur {
        vstd::arithmetic::div_mod::lemma_small_mod(i as nat, n as nat);
        i - cur
    } else {
        vstd::arithmetic::div_mod::lemma_mod_add_multiples_vanish(i, n);
        vstd::arithmetic::div_mod::lemma_small_mod(i as nat, n as nat);
        i - cur + n
    }
}

/// A seat found by going round the table is a seat at the table.
proof fn lemma_seat_in_range(cur: int, k: int, n: int)
    requires
        0 <= cur,
        0 <= k,
        0 < n,
    ensures
        0 <= seat_after(cur, k, n) < n,
{
    reveal(seat_after);
    vstd::arithmetic::div_mod::lemma_mod_bound(cur + k, n);
}

/// Below any seat that is still in, there is a first one going round.
proof fn lemma_first_active(s: Seq<Player>, cur: int, k0: int)
    requires
        1 <= k0 <= s.len(),
        !s[seat_after(cur, k0, s.len() as int)].bankrupt,
    ensures
        exists|k: int|
            1 <= k <= s.len() && !s[#[trigger] seat_after(cur, k, s.len() as int)].bankrupt && forall|j: int|
                1 <= j < k ==> s[#[trigger] seat_after(cur, j, s.len() as int)].bankrupt,
    decreases k0,
{
    let n = s.len() as int;
    if forall|j: int| 1 <= j < k0 ==> s[#[trigger] seat_after(cur, j, n)].bankrupt {
        assert(1 <= k0 <= n && !s[seat_after(cur, k0, n)].bankrupt && forall|j: int|
            1 <= j < k0 ==> s[#[trigger] seat_after(cur, j, n)].bankrupt);
    } else {
        let j = choose|j: int| 1 <= j < k0 && !s[#[trigger] seat_after(cur, j, n)].bankrupt;
        lemma_first_active(s, cur, j);
    }
}

/// After a bankruptcy the bankrupt player holds no deed: each one went to the
/// creditor or back to the bank.
pub proof fn lemma_bankrupt_holds_nothing(b: Seq<Space>, who: usize, creditor: Option<usize>)
    requires
        creditor != Some(who),
    ensures
        forall|i: int| 0 <= i < b.len() ==> #[trigger] after_bankruptcy(b[i], who, creditor).owner_spec() != Some(who),
        forall|i: int|
            0 <= i < b.len() && b[i].owner_spec() == Some(who) && b[i].ownable_spec() ==> #[trigger] after_bankruptcy(
                b[i],
                who,
                creditor,
            ).owner_spec() == creditor,
{
    assert forall|i: int| 0 <= i < b.len() implies #[trigger] after_bankruptcy(b[i], who, creditor).owner_spec()
        != Some(who) by {
        lemma_space_updates(b[i]);
        lemma_space_updates(b[i].with_owner(None));
        lemma_space_updates(b[i].with_owner(None).with_houses(0));
    }
    assert forall|i: int|
        0 <= i < b.len() && b[i].owner_spec() == Some(who) && b[i].ownable_spec() implies #[trigger] after_bankruptcy(
        b[i],
        who,
        creditor,
    ).owner_spec() == creditor by {
        lemma_space_updates(b[i]);
        lemma_space_updates(b[i].with_owner(None));
        lemma_space_updates(b[i].with_owner(None).with_houses(0));
    }
}

} // verus!
