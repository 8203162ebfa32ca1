//! Property management: mortgaging/unmortgaging and building or selling houses,
//! both presented as a list of the current player's holdings.

use vstd::prelude::*;

use super::tally::{active_count, hotel_count, lemma_houses_ge, lemma_houses_update, street_houses, total_money};
use crate::space::HOTEL;
use super::{credit, debit, holdings_upto, index_list_ok, lemma_holdings_upto, lemma_space_updates, lemma_wf_kept, space_ok,
    Game, Modal, BOARD_LEN, VALUE_CAP};
use crate::ui::Key;
use super::rent::owns_group;
use crate::player::Player;
use crate::space::{ColorGroup, Space};
use crate::ui::Cursor;
use super::note::Note;
use super::rent::in_group;

verus! {

/// Whether the estate list is mortgaging or building.
#[derive(Debug, Clone, Copy, PartialEq, Eq, Structural)]
pub enum Mode {
    Mortgage,
    Build,
}

/// A list of board indices the player can act on.
#[derive(Debug)]
pub struct EstateMenu {
    pub mode: Mode,
    pub slots: Vec<usize>,
    pub cursor: Cursor,
}

} // verus!

verus! {

/// The lowest house count in `group` (255 when the group has no street).
pub open spec fn is_group_min(b: Seq<Space>, group: ColorGroup, lo: u8) -> bool {
    &&& forall|i: int| 0 <= i < b.len() && #[trigger] in_group(b[i], group) ==> lo <= b[i].houses_spec()
    &&& (lo == u8::MAX || exists|i: int| 0 <= i < b.len() && #[trigger] in_group(b[i], group) && b[i].houses_spec() == lo)
}

/// The highest house count in `group` (0 when the group has no street).
pub open spec fn is_group_max(b: Seq<Space>, group: ColorGroup, hi: u8) -> bool {
    &&& forall|i: int| 0 <= i < b.len() && #[trigger] in_group(b[i], group) ==> b[i].houses_spec() <= hi
    &&& (hi == 0 || exists|i: int| 0 <= i < b.len() && #[trigger] in_group(b[i], group) && b[i].houses_spec() == hi)
}

/// Some street of `group` is mortgaged.
pub open spec fn group_mortgaged(b: Seq<Space>, group: ColorGroup) -> bool {
    exists|i: int| 0 <= i < b.len() && #[trigger] in_group(b[i], group) && b[i].mortgaged_spec()
}

/// The board after mortgaging the deed at `idx`, which is refused while it is
/// already mortgaged or its color group has a building.
pub open spec fn mortgaged_board(b: Seq<Space>, idx: int) -> Seq<Space> {
    if b[idx].mortgaged_spec() || group_built(b, idx) {
        b
    } else {
        b.update(idx, b[idx].with_mortgaged(true))
    }
}

/// The players after `who` mortgages the deed at `idx` (see [`mortgaged_board`]).
pub open spec fn mortgaged_players(b: Seq<Space>, s: Seq<Player>, who: int, idx: int) -> Seq<Player> {
    if b[idx].mortgaged_spec() || group_built(b, idx) {
        s
    } else {
        s.update(who, Player { money: (s[who].money + b[idx].mortgage_value_spec()) as u32, ..s[who] })
    }
}

/// The space at `idx` is a street whose color group has a building somewhere.
pub open spec fn group_built(b: Seq<Space>, idx: int) -> bool {
    b[idx] matches Space::Property(p) && exists|i: int|
        0 <= i < b.len() && #[trigger] in_group(b[i], p.group) && b[i].houses_spec() > 0
}

impl Game {
    /// Lowest and highest house counts across `group` (for even-build rules).
    pub fn group_house_bounds(&self, group: ColorGroup) -> (r: (u8, u8))
        ensures
            is_group_min(self.board@, group, r.0),
            is_group_max(self.board@, group, r.1),
    {
        let mut min: u8 = u8::MAX;
        let mut max: u8 = 0;
        let mut i: usize = 0;
        while i < self.board.len()
            invariant
                i <= self.board@.len(),
                is_group_min(self.board@.take(i as int), group, min),
                is_group_max(self.board@.take(i as int), group, max),
            decreases self.board.len() - i,
        {
            let ghost pre = self.board@.take(i as int);
            let ghost next = self.board@.take(i + 1);
            let ghost (pmin, pmax) = (min, max);
            if let Space::Property(p) = &self.board[i] {
                if p.group == group {
                    min = min.min(p.houses);
                    max = max.max(p.houses);
                }
            }
            proof {
                assert(next =~= pre.push(self.board@[i as int]));
                assert forall|j: int| 0 <= j < next.len() && #[trigger] in_group(next[j], group) implies min
                    <= next[j].houses_spec() && next[j].houses_spec() <= max by {
                    if j < i {
                        assert(pre[j] == next[j]);
                    }
                }
                if min != u8::MAX && min != pmin {
                    assert(in_group(next[i as int], group) && next[i as int].houses_spec() == min);
                } else if min != u8::MAX {
                    let w = choose|j: int| 0 <= j < pre.len() && #[trigger] in_group(pre[j], group) && pre[j].houses_spec() == pmin;
                    assert(next[w] == pre[w]);
                }
                if max != 0 && max != pmax {
                    assert(in_group(next[i as int], group) && next[i as int].houses_spec() == max);
                } else if max != 0 {
                    let w = choose|j: int| 0 <= j < pre.len() && #[trigger] in_group(pre[j], group) && pre[j].houses_spec() == pmax;
                    assert(next[w] == pre[w]);
                }
            }
            i = i + 1;
        }
        proof {
            assert(self.board@.take(i as int) =~= self.board@);
        }
        (min, max)
    }

    /// True when any property in `group` is mortgaged, which blocks building.
    pub fn group_any_mortgaged(&self, group: ColorGroup) -> (b: bool)
        ensures
            b == group_mortgaged(self.board@, group),
    {
        let mut i: usize = 0;
        while i < self.board.len()
            invariant
                i <= self.board@.len(),
                forall|j: int| 0 <= j < i && #[trigger] in_group(self.board@[j], group) ==> !self.board@[j].mortgaged_spec(),
            decreases self.board.len() - i,
        {
            if let Space::Property(p) = &self.board[i] {
                if p.group == group && p.base.mortgaged {
                    proof {
                        assert(in_group(self.board@[i as int], group) && self.board@[i as int].mortgaged_spec());
                    }
                    return true;
                }
            }
            i = i + 1;
        }
        false
    }

    /// True when the color group containing `idx` still has buildings on it,
    /// which blocks mortgaging. Always false for railroads and utilities.
    pub fn group_has_houses(&self, idx: usize) -> (b: bool)
        requires
            idx < self.board@.len(),
        ensures
            b == group_built(self.board@, idx as int),
    {
        let Space::Property(p) = &self.board[idx] else {
            return false;
        };
        let (_, max) = self.group_house_bounds(p.group);
        proof {
            if max > 0 {
                let w = choose|i: int| 0 <= i < self.board@.len() && #[trigger] in_group(self.board@[i], p.group) && self.board@[i].houses_spec() == max;
                assert(in_group(self.board@[w], p.group) && self.board@[w].houses_spec() > 0);
            }
        }
        max > 0
    }
}

} // verus!

verus! {

/// The street slot `i` of the build list: a street `me` holds whose whole group they hold.
pub open spec fn build_slot(b: Seq<Space>, me: usize, i: int) -> bool {
    b[i] matches Space::Property(p) && p.base.owner == Some(me) && owns_group(b, me, p.group)
}

/// While anyone but `me` (a rival or the bank) holds a street of a color
/// group, no street of that group is offered to `me` for building.
pub proof fn lemma_no_building_on_a_shared_group(b: Seq<Space>, me: usize, j: int, i: int)
    requires
        0 <= j < b.len(),
        0 <= i < b.len(),
        b[j] matches Space::Property(q) && q.base.owner != Some(me),
        b[i] matches Space::Property(p) && b[j] matches Space::Property(q) && p.group == q.group,
    ensures
        !build_slot(b, me, i),
{
    if let Space::Property(p) = b[i] {
        assert(super::rent::in_group(b[j], p.group));
    }
}

/// The build-list slots among the first `n` squares, in board order.
pub open spec fn build_slots_upto(b: Seq<Space>, me: usize, n: int) -> Seq<usize>
    decreases n,
{
    if n <= 0 {
        Seq::empty()
    } else if build_slot(b, me, n - 1) {
        build_slots_upto(b, me, n - 1).push((n - 1) as usize)
    } else {
        build_slots_upto(b, me, n - 1)
    }
}

pub proof fn lemma_build_slots_upto(b: Seq<Space>, me: usize, n: int)
    requires
        0 <= n <= b.len(),
        n <= usize::MAX,
    ensures
        forall|k: int| 0 <= k < build_slots_upto(b, me, n).len() ==> #[trigger] build_slots_upto(b, me, n)[k] < n,
        build_slots_upto(b, me, n).len() <= n,
    decreases n,
{
    if n > 0 {
        lemma_build_slots_upto(b, me, n - 1);
    }
}

impl EstateMenu {
    pub fn new(mode: Mode, slots: Vec<usize>) -> (m: Self)
        ensures
            m.mode == mode,
            m.slots@ == slots@,
            m.cursor.selected == 0,
            m.cursor.len == slots@.len(),
            m.cursor.wf(),
    {
        let cursor = Cursor::new(slots.len());
        EstateMenu { mode, slots, cursor }
    }

    /// The board index under the cursor.
    pub fn selected(&self) -> (idx: usize)
        requires
            self.cursor.len == self.slots@.len(),
            self.slots@.len() >= 1,
            self.cursor.wf(),
        ensures
            idx == self.slots@[self.cursor.selected as int],
    {
        self.slots[self.cursor.selected]
    }
}

/// `who` mortgages the deed at `idx`, or lifts its mortgage, between the game
/// `o` before and `f` after: refused for a deed in a built-up group or a
/// mortgage they cannot afford to lift.
pub open spec fn mortgage_toggled(o: Game, f: Game, who: usize, idx: usize) -> bool {
    &&& f.notes@ == o.notes@.push(
        if o.board@[idx as int].mortgaged_spec() {
            unmortgage_note(o, who, idx)
        } else {
            mortgage_note(o.board@, who, idx)
        },
    )
    &&& f.stock_kept(&o)
    &&& f.same_but_estates(&o)
    &&& ({
        let s = o.board@[idx as int];
        let p = o.players@[who as int];
        if s.mortgaged_spec() {
            if p.money < s.unmortgage_cost_spec() {
                f.board@ == o.board@ && f.players@ == o.players@
            } else {
                f.board@ == o.board@.update(idx as int, s.with_mortgaged(false))
                    && f.players@ == o.players@.update(
                    who as int,
                    Player { money: (p.money - s.unmortgage_cost_spec()) as u32, ..p },
                )
            }
        } else if group_built(o.board@, idx as int) {
            f.board@ == o.board@ && f.players@ == o.players@
        } else {
            f.board@ == o.board@.update(idx as int, s.with_mortgaged(true))
                && f.players@ == o.players@.update(
                who as int,
                Player { money: (p.money + s.mortgage_value_spec()) as u32, ..p },
            )
        }
    })
    &&& total_money(f.players@) <= total_money(o.players@) + VALUE_CAP / 2
    &&& active_count(f.players@) == active_count(o.players@)
    &&& street_houses(f.board@) == street_houses(o.board@)
    &&& hotel_count(f.board@) == hotel_count(o.board@)
}

impl Game {
    /// The bank's stock and everything outside the players and the board are as in `o`.
    pub open spec fn same_but_estates(&self, o: &Game) -> bool {
        &&& self.same_turn(o)
        &&& self.houses_left == o.houses_left
        &&& self.hotels_left == o.hotels_left
    }

    /// Take a mortgage for half the printed price. Blocked while the deed is
    /// already mortgaged or its color group still has buildings on it.
    pub fn mortgage(&mut self, who: usize, idx: usize)
        requires
            old(self).wf(),
            who < old(self).players@.len(),
            idx < BOARD_LEN,
            total_money(old(self).players@) + VALUE_CAP <= u32::MAX,
        ensures
            final(self).notes@ == old(self).notes@.push(mortgage_note(old(self).board@, who, idx)),
            final(self).stock_kept(old(self)),
            final(self).wf(),
            final(self).same_but_estates(old(self)),
            ({
                let s = old(self).board@[idx as int];
                if s.mortgaged_spec() || group_built(old(self).board@, idx as int) {
                    final(self).board@ == old(self).board@ && final(self).players@ == old(self).players@
                } else {
                    &&& final(self).board@ == old(self).board@.update(idx as int, s.with_mortgaged(true))
                    &&& final(self).players@ == old(self).players@.update(
                        who as int,
                        Player {
                            money: (old(self).players@[who as int].money + s.mortgage_value_spec()) as u32,
                            ..old(self).players@[who as int]
                        },
                    )
                }
            }),
            total_money(final(self).players@) <= total_money(old(self).players@) + VALUE_CAP / 2,
            active_count(final(self).players@) == active_count(old(self).players@),
    {
        if self.board[idx].is_mortgaged() {
            self.note(Note::AlreadyMortgaged);
            return;
        }
        if self.group_has_houses(idx) {
            self.note(Note::SellHousesFirst);
            return;
        }
        let half = self.board[idx].mortgage_value();
        let ghost g0 = *self;
        credit(&mut self.players, who, half);
        proof {
            lemma_houses_update(self.board@, idx as int, self.board@[idx as int].with_mortgaged(true));
            lemma_space_updates(self.board@[idx as int]);
        }
        self.board[idx].set_mortgaged(true);
        proof {
            lemma_wf_kept(&g0, self);
        }
        self.note(Note::Mortgaged { who, pos: idx, amount: half });
    }

    /// Lift a mortgage for its value plus 10% interest, if the cash is there.
    pub fn unmortgage(&mut self, who: usize, idx: usize)
        requires
            old(self).wf(),
            old(self).modal is Clear,
            who < old(self).players@.len(),
            idx < BOARD_LEN,
        ensures
            final(self).notes@ == old(self).notes@.push(unmortgage_note(*old(self), who, idx)),
            final(self).stock_kept(old(self)),
            final(self).wf(),
            final(self).same_but_estates(old(self)),
            ({
                let s = old(self).board@[idx as int];
                if old(self).players@[who as int].money < s.unmortgage_cost_spec() {
                    final(self).board@ == old(self).board@ && final(self).players@ == old(self).players@
                } else {
                    &&& final(self).board@ == old(self).board@.update(idx as int, s.with_mortgaged(false))
                    &&& final(self).players@ == old(self).players@.update(
                        who as int,
                        Player {
                            money: (old(self).players@[who as int].money - s.unmortgage_cost_spec()) as u32,
                            ..old(self).players@[who as int]
                        },
                    )
                }
            }),
            total_money(final(self).players@) <= total_money(old(self).players@),
            active_count(final(self).players@) == active_count(old(self).players@),
    {
        let lift = self.board[idx].unmortgage_cost();
        if self.players[who].money < lift {
            self.note(Note::NeedToUnmortgage { pos: idx, amount: lift });
            return;
        }
        let ghost g0 = *self;
        debit(&mut self.players, who, lift);
        proof {
            lemma_houses_update(self.board@, idx as int, self.board@[idx as int].with_mortgaged(false));
            lemma_space_updates(self.board@[idx as int]);
        }
        self.board[idx].set_mortgaged(false);
        proof {
            lemma_wf_kept(&g0, self);
        }
        self.note(Note::Unmortgaged { who, pos: idx, amount: lift });
    }

    /// Mortgage the deed at `idx`, or lift its mortgage if it already has one.
    pub fn toggle_mortgage(&mut self, who: usize, idx: usize)
        requires
            old(self).wf(),
            old(self).modal is Clear,
            who < old(self).players@.len(),
            idx < BOARD_LEN,
            total_money(old(self).players@) + VALUE_CAP <= u32::MAX,
        ensures
            final(self).wf(),
            mortgage_toggled(*old(self), *final(self), who, idx),
    {
        proof {
            lemma_space_updates(self.board@[idx as int]);
            lemma_houses_update(self.board@, idx as int, self.board@[idx as int].with_mortgaged(true));
            lemma_houses_update(self.board@, idx as int, self.board@[idx as int].with_mortgaged(false));
        }
        if self.board[idx].is_mortgaged() {
            self.unmortgage(who, idx);
        } else {
            self.mortgage(who, idx);
        }
    }
}

} // verus!

verus! {

/// The message for `who` mortgaging the deed at `idx` (or being refused).
pub open spec fn mortgage_note(b: Seq<Space>, who: usize, idx: usize) -> Note {
    if b[idx as int].mortgaged_spec() {
        Note::AlreadyMortgaged
    } else if group_built(b, idx as int) {
        Note::SellHousesFirst
    } else {
        Note::Mortgaged { who, pos: idx, amount: b[idx as int].mortgage_value_spec() }
    }
}

/// The message for `who` lifting the mortgage on `idx` (or being refused).
pub open spec fn unmortgage_note(o: Game, who: usize, idx: usize) -> Note {
    let s = o.board@[idx as int];
    if o.players@[who as int].money < s.unmortgage_cost_spec() {
        Note::NeedToUnmortgage { pos: idx, amount: s.unmortgage_cost_spec() as u32 }
    } else {
        Note::Unmortgaged { who, pos: idx, amount: s.unmortgage_cost_spec() as u32 }
    }
}

/// The message for the current player building on `idx`: the first rule in
/// the way, or what was built; none for a square that is not a street.
pub open spec fn build_note(o: Game, idx: usize) -> Option<Note> {
    match o.board@[idx as int] {
        Space::Property(p) => {
            let hotel = p.houses + 1 == HOTEL;
            Some(
                if group_mortgaged(o.board@, p.group) {
                    Note::UnmortgageGroupFirst
                } else if p.houses >= HOTEL {
                    Note::HasHotel
                } else if !lowest_in_group(o.board@, p.group, p.houses) {
                    Note::BuildEvenly
                } else if hotel && o.hotels_left == 0 {
                    Note::NoHotels
                } else if !hotel && o.houses_left == 0 {
                    Note::NoHouses
                } else if o.players@[o.current as int].money < p.house_cost {
                    Note::NeedToBuild { amount: p.house_cost }
                } else {
                    Note::Built { who: o.current, pos: idx, hotel, cost: p.house_cost }
                },
            )
        },
        _ => None,
    }
}

/// The message for `who` selling a building off `idx`: the first rule in the
/// way, or the refund; none for a square that is not a street.
pub open spec fn sell_note(o: Game, who: usize, idx: usize) -> Option<Note> {
    match o.board@[idx as int] {
        Space::Property(p) => Some(
            if p.houses == 0 {
                Note::NoHousesToSell
            } else if !highest_in_group(o.board@, p.group, p.houses) {
                Note::SellEvenly
            } else if p.houses == HOTEL && o.houses_left < HOTEL - 1 {
                Note::NoHousesToBreakHotel
            } else {
                Note::SoldHouse { who, pos: idx, refund: p.house_cost / 2 }
            },
        ),
        _ => None,
    }
}

/// Every street of `group` has at least `h` houses: a street at `h` is among the lowest.
pub open spec fn lowest_in_group(b: Seq<Space>, group: ColorGroup, h: u8) -> bool {
    forall|j: int| 0 <= j < b.len() && #[trigger] in_group(b[j], group) ==> h <= b[j].houses_spec()
}

/// Every street of `group` has at most `h` houses: a street at `h` is among the highest.
pub open spec fn highest_in_group(b: Seq<Space>, group: ColorGroup, h: u8) -> bool {
    forall|j: int| 0 <= j < b.len() && #[trigger] in_group(b[j], group) ==> b[j].houses_spec() <= h
}

/// The current player puts one building on the street at `idx`, between the
/// game `o` before and `f` after, when the rules allow it; otherwise nothing
/// changes.
pub open spec fn house_built(o: Game, f: Game, idx: usize) -> bool {
    &&& f.notes@ == match build_note(o, idx) {
        Some(n) => o.notes@.push(n),
        None => o.notes@,
    }
    &&& f.same_turn(&o)
    &&& !o.can_build(idx as int) ==> f.board@ == o.board@
        && f.players@ == o.players@ && f.houses_left
        == o.houses_left && f.hotels_left == o.hotels_left
    &&& o.can_build(idx as int) ==> {
        let s = o.board@[idx as int];
        let h = s.houses_spec();
        let me = o.current as int;
        &&& f.board@ == o.board@.update(idx as int, s.with_houses((h + 1) as u8))
        &&& f.players@ == o.players@.update(
            me,
            Player {
                money: (o.players@[me].money - s.house_cost_spec()) as u32,
                ..o.players@[me]
            },
        )
        &&& if h + 1 == HOTEL {
            f.hotels_left == o.hotels_left - 1 && f.houses_left
                == o.houses_left + (HOTEL - 1)
        } else {
            f.hotels_left == o.hotels_left && f.houses_left
                == o.houses_left - 1
        }
    }
    &&& street_houses(f.board@) + f.houses_left == street_houses(o.board@)
        + o.houses_left
    &&& hotel_count(f.board@) + f.hotels_left == hotel_count(o.board@)
        + o.hotels_left
    &&& total_money(f.players@) <= total_money(o.players@)
    &&& active_count(f.players@) == active_count(o.players@)
}

/// `who` sells one building back off the street at `idx` for half its cost,
/// between the game `o` before and `f` after, when the rules allow it;
/// otherwise nothing changes.
pub open spec fn house_sold(o: Game, f: Game, who: usize, idx: usize) -> bool {
    &&& f.notes@ == match sell_note(o, who, idx) {
        Some(n) => o.notes@.push(n),
        None => o.notes@,
    }
    &&& f.same_turn(&o)
    &&& !o.can_sell(idx as int) ==> f.board@ == o.board@
        && f.players@ == o.players@ && f.houses_left
        == o.houses_left && f.hotels_left == o.hotels_left
    &&& o.can_sell(idx as int) ==> {
        let s = o.board@[idx as int];
        let h = s.houses_spec();
        &&& f.board@ == o.board@.update(idx as int, s.with_houses((h - 1) as u8))
        &&& f.players@ == o.players@.update(
            who as int,
            Player {
                money: (o.players@[who as int].money + s.house_refund_spec()) as u32,
                ..o.players@[who as int]
            },
        )
        &&& if h == HOTEL {
            f.hotels_left == o.hotels_left + 1 && f.houses_left
                == o.houses_left - (HOTEL - 1)
        } else {
            f.hotels_left == o.hotels_left && f.houses_left
                == o.houses_left + 1
        }
    }
    &&& street_houses(f.board@) + f.houses_left == street_houses(o.board@)
        + o.houses_left
    &&& hotel_count(f.board@) + f.hotels_left == hotel_count(o.board@)
        + o.hotels_left
    &&& total_money(f.players@) <= total_money(o.players@) + VALUE_CAP / 2
    &&& active_count(f.players@) == active_count(o.players@)
}

impl Game {
    /// The current player may put one more building on the street at `idx`: the
    /// group is unmortgaged, the street is below a hotel and among the group's
    /// least built, the bank has the house (or hotel) and the player the cash.
    pub open spec fn can_build(&self, idx: int) -> bool {
        self.board@[idx] matches Space::Property(p) && {
            &&& !group_mortgaged(self.board@, p.group)
            &&& p.houses < HOTEL
            &&& lowest_in_group(self.board@, p.group, p.houses)
            &&& (if p.houses + 1 == HOTEL {
                self.hotels_left > 0
            } else {
                self.houses_left > 0
            })
            &&& self.players@[self.current as int].money >= p.house_cost
        }
    }

    /// `who` may sell one building back off the street at `idx`: it has one,
    /// it is among the group's most built, and breaking a hotel finds four
    /// houses in the bank.
    pub open spec fn can_sell(&self, idx: int) -> bool {
        self.board@[idx] matches Space::Property(p) && {
            &&& p.houses > 0
            &&& highest_in_group(self.board@, p.group, p.houses)
            &&& (p.houses == HOTEL ==> self.houses_left >= HOTEL - 1)
        }
    }

    /// Build one house (or the hotel) on `idx`, enforcing even building.
    pub fn build_house(&mut self, idx: usize)
        requires
            old(self).wf(),
            old(self).modal_independent(),
            idx < BOARD_LEN,
        ensures
            final(self).wf(),
            house_built(*old(self), *final(self), idx),
    {
        let me = self.current;
        let (group, houses, cost) = match &self.board[idx] {
            Space::Property(p) => (p.group, p.houses, p.house_cost),
            _ => {
                return;
            },
        };
        if self.group_any_mortgaged(group) {
            self.note(Note::UnmortgageGroupFirst);
            return;
        }
        if houses >= HOTEL {
            self.note(Note::HasHotel);
            return;
        }
        let (lo, _) = self.group_house_bounds(group);
        if houses > lo {
            proof {
                let w = choose|j: int| 0 <= j < self.board@.len() && #[trigger] in_group(self.board@[j], group) && self.board@[j].houses_spec() == lo;
                assert(in_group(self.board@[w], group));
            }
            self.note(Note::BuildEvenly);
            return;
        }
        let hotel = houses + 1 == HOTEL;
        if hotel && self.hotels_left == 0 {
            self.note(Note::NoHotels);
            return;
        }
        if !hotel && self.houses_left == 0 {
            self.note(Note::NoHouses);
            return;
        }
        if self.players[me].money < cost {
            self.note(Note::NeedToBuild { amount: cost });
            return;
        }
        let ghost g0 = *self;
        debit(&mut self.players, me, cost);
        proof {
            lemma_houses_ge(self.board@, idx as int);
            lemma_houses_update(self.board@, idx as int, self.board@[idx as int].with_houses((houses + 1) as u8));
            lemma_space_updates(self.board@[idx as int]);
        }
        if hotel {
            self.hotels_left = self.hotels_left - 1;
            self.houses_left = self.houses_left + (HOTEL - 1);
        } else {
            self.houses_left = self.houses_left - 1;
        }
        if let Space::Property(p) = &mut self.board[idx] {
            p.houses = p.houses + 1;
        }
        proof {
            assert(self.board@ == g0.board@.update(idx as int, g0.board@[idx as int].with_houses((houses + 1) as u8)));
            lemma_wf_kept(&g0, self);
        }
        self.note(Note::Built { who: me, pos: idx, hotel, cost });
    }

    /// Sell one house back to the bank for half its cost, even-selling enforced.
    pub fn sell_house(&mut self, who: usize, idx: usize)
        requires
            old(self).wf(),
            who < old(self).players@.len(),
            idx < BOARD_LEN,
            total_money(old(self).players@) + VALUE_CAP <= u32::MAX,
        ensures
            final(self).wf(),
            house_sold(*old(self), *final(self), who, idx),
    {
        let (group, houses, cost) = match &self.board[idx] {
            Space::Property(p) => (p.group, p.houses, p.house_cost),
            _ => {
                return;
            },
        };
        if houses == 0 {
            self.note(Note::NoHousesToSell);
            return;
        }
        let (_, hi) = self.group_house_bounds(group);
        if houses < hi {
            proof {
                let w = choose|j: int| 0 <= j < self.board@.len() && #[trigger] in_group(self.board@[j], group) && self.board@[j].houses_spec() == hi;
                assert(in_group(self.board@[w], group));
            }
            self.note(Note::SellEvenly);
            return;
        }
        proof {
            lemma_houses_ge(self.board@, idx as int);
            lemma_houses_update(self.board@, idx as int, self.board@[idx as int].with_houses((houses - 1) as u8));
            lemma_space_updates(self.board@[idx as int]);
        }
        let ghost g0 = *self;
        if houses == HOTEL {
            if self.houses_left < HOTEL - 1 {
                self.note(Note::NoHousesToBreakHotel);
                return;
            }
            self.houses_left = self.houses_left - (HOTEL - 1);
            self.hotels_left = self.hotels_left + 1;
        } else {
            self.houses_left = self.houses_left + 1;
        }
        if let Space::Property(p) = &mut self.board[idx] {
            p.houses = p.houses - 1;
        }
        let refund = cost / 2;
        credit(&mut self.players, who, refund);
        proof {
            assert(self.board@ == g0.board@.update(idx as int, g0.board@[idx as int].with_houses((houses - 1) as u8)));
            lemma_wf_kept(&g0, self);
        }
        self.note(Note::SoldHouse { who, pos: idx, refund });
    }
}

} // verus!

verus! {

/// One key on the estate list, between the game `o` with list `m` before and the
/// game `f` with list `n` after; `keep` is whether the list stays open.
pub open spec fn estate_keyed(o: Game, m: EstateMenu, f: Game, n: EstateMenu, key: Key, keep: bool) -> bool {
    &&& f.stock_kept(&o)
    &&& f.players@.len() == o.players@.len()
    &&& keep == !(key is Esc)
    &&& keep ==> f.modal is Clear && (Game { modal: Modal::Estate(n), ..f }).wf()
    &&& n.slots@ == m.slots@
    &&& n.mode == m.mode
    &&& f.same_but_estates(&o) || (m.mode == Mode::Build && f.same_turn(&o))
    &&& !(key is Enter || key == Key::Char('s')) ==> f.players@ == o.players@
        && f.board@ == o.board@ && f.houses_left == o.houses_left
        && f.hotels_left == o.hotels_left
    &&& key is Esc ==> n == m
    &&& key is Up ==> n.cursor.selected == (if m.cursor.selected == 0 {
        0
    } else {
        (m.cursor.selected - 1) as usize
    })
    &&& key is Down ==> n.cursor.selected == (if m.cursor.selected + 1 < m.slots@.len() {
        (m.cursor.selected + 1) as usize
    } else {
        m.cursor.selected
    })
    &&& !(key is Up || key is Down) ==> n.cursor == m.cursor
    &&& key == Key::Char('s') && m.mode == Mode::Mortgage ==> f == o
    &&& key is Enter && m.mode == Mode::Mortgage ==> mortgage_toggled(o, f, o.current, m.slots@[m.cursor.selected as int])
    &&& key is Enter && m.mode == Mode::Build ==> house_built(o, f, m.slots@[m.cursor.selected as int])
    &&& key == Key::Char('s') && m.mode == Mode::Build ==> house_sold(o, f, o.current, m.slots@[m.cursor.selected as int])
    &&& street_houses(f.board@) + f.houses_left == street_houses(o.board@)
        + o.houses_left
    &&& hotel_count(f.board@) + f.hotels_left == hotel_count(o.board@)
        + o.hotels_left
    &&& total_money(f.players@) <= total_money(o.players@) + VALUE_CAP / 2
    &&& active_count(f.players@) == active_count(o.players@)
}

/// The mortgage list opened on the current player's deeds, between the game `o`
/// before and `f` after (nothing opens when they hold none).
pub open spec fn mortgages_opened(o: Game, f: Game) -> bool {
    &&& f.players@ == o.players@
    &&& f.board@ == o.board@
    &&& f.pending@ == o.pending@
    &&& f.same_rest_but_modal(&o)
    &&& ({
        let hs = holdings_upto(o.board@, o.current, BOARD_LEN as int);
        &&& hs.len() == 0 ==> f.modal == o.modal && f.notes@ == o.notes@.push(Note::NothingToMortgage)
        &&& hs.len() > 0 ==> (f.modal matches Modal::Estate(m) && m.mode == Mode::Mortgage
            && m.slots@ == hs && m.cursor.selected == 0) && f.notes@ == o.notes@
    })
}

/// The build list opened on the streets the current player can build on,
/// between the game `o` before and `f` after (nothing opens when there are none).
pub open spec fn build_opened(o: Game, f: Game) -> bool {
    &&& f.players@ == o.players@
    &&& f.board@ == o.board@
    &&& f.pending@ == o.pending@
    &&& f.same_rest_but_modal(&o)
    &&& ({
        let slots = build_slots_upto(o.board@, o.current, BOARD_LEN as int);
        &&& slots.len() == 0 ==> f.modal == o.modal && f.notes@ == o.notes@.push(Note::NoFullGroup)
        &&& slots.len() > 0 ==> (f.modal matches Modal::Estate(m) && m.mode == Mode::Build
            && m.slots@ == slots && m.cursor.selected == 0) && f.notes@ == o.notes@
    })
}

impl Game {
    /// The build-list slots for `me`: every street they hold in a color group
    /// they hold whole, in board order.
    pub fn build_slots(&self, me: usize) -> (v: Vec<usize>)
        requires
            self.board@.len() == BOARD_LEN,
        ensures
            v@ == build_slots_upto(self.board@, me, BOARD_LEN as int),
    {
        let mut v: Vec<usize> = Vec::new();
        let mut i: usize = 0;
        while i < self.board.len()
            invariant
                i <= BOARD_LEN,
                self.board@.len() == BOARD_LEN,
                v@ == build_slots_upto(self.board@, me, i as int),
            decreases BOARD_LEN - i,
        {
            let take = match &self.board[i] {
                Space::Property(p) => p.base.owner == Some(me) && self.owns_full_group(me, p.group),
                _ => false,
            };
            if take {
                v.push(i);
            }
            i = i + 1;
        }
        v
    }

    /// Open the mortgage list over the current player's holdings; nothing
    /// happens when they hold nothing.
    pub fn open_mortgages(&mut self)
        requires
            old(self).wf(),
        ensures
            final(self).wf(),
            mortgages_opened(*old(self), *final(self)),
    {
        let slots = self.holdings(self.current);
        if slots.len() == 0 {
            self.note(Note::NothingToMortgage);
            return;
        }
        proof {
            lemma_holdings_upto(self.board@, self.current, BOARD_LEN as int);
        }
        self.modal = Modal::Estate(EstateMenu::new(Mode::Mortgage, slots));
    }

    /// Open the build list: the current player's streets in color groups they
    /// hold whole; nothing happens when there are none.
    pub fn open_build(&mut self)
        requires
            old(self).wf(),
        ensures
            final(self).wf(),
            build_opened(*old(self), *final(self)),
    {
        let slots = self.build_slots(self.current);
        if slots.len() == 0 {
            self.note(Note::NoFullGroup);
            return;
        }
        proof {
            lemma_build_slots_upto(self.board@, self.current, BOARD_LEN as int);
        }
        self.modal = Modal::Estate(EstateMenu::new(Mode::Build, slots));
    }

    /// Handle one key on the estate list. Returns `true` to keep the list open:
    /// Esc closes it; arrows move; Enter mortgages or unmortgages (mortgage
    /// list) or builds (build list) on the selected deed; `s` sells a building
    /// back (build list only).
    pub fn estate_input(&mut self, menu: &mut EstateMenu, key: Key) -> (keep: bool)
        requires
            old(self).wf(),
            old(self).has_room(),
            old(self).modal is Clear,
            (Game { modal: Modal::Estate(*old(menu)), ..*old(self) }).wf(),
        ensures
            final(self).wf(),
            estate_keyed(*old(self), *old(menu), *final(self), *final(menu), key, keep),
    {
        proof {
            let g = Game { modal: Modal::Estate(*menu), ..*self };
            assert(g.modal_ok());
        }
        match key {
            Key::Up => menu.cursor.up(),
            Key::Down => menu.cursor.down(),
            Key::Esc => {
                return false;
            },
            Key::Enter => {
                let idx = menu.selected();
                match menu.mode {
                    Mode::Mortgage => self.toggle_mortgage(self.current, idx),
                    Mode::Build => self.build_house(idx),
                }
            },
            Key::Char(c) => {
                if c == 's' && menu.mode == Mode::Build {
                    let idx = menu.selected();
                    self.sell_house(self.current, idx);
                }
            },
            _ => {},
        }
        true
    }
}

} // verus!

verus! {

/// Selling back the building just put up leaves the street as it was, and
/// building on a street just sold down does too.
pub proof fn lemma_build_then_sell_restores(s: Space)
    requires
        s is Property,
    ensures
        s.with_houses((s.houses_spec() + 1) as u8).with_houses(s.houses_spec()) == s,
        s.houses_spec() > 0 ==> s.with_houses((s.houses_spec() - 1) as u8).with_houses(s.houses_spec()) == s,
{
}

/// A mortgage lifted right after it was taken leaves the deed as it was, at a
/// cost of 10% of its value: the owner receives the value, then pays the value
/// plus the interest.
pub proof fn lemma_mortgage_round_trip(s: Space)
    requires
        s.ownable_spec(),
        !s.mortgaged_spec(),
    ensures
        s.with_mortgaged(true).with_mortgaged(false) == s,
        s.with_mortgaged(true).mortgaged_spec(),
        s.with_mortgaged(true).unmortgage_cost_spec() - s.mortgage_value_spec() == s.mortgage_value_spec() / 10,
{
}

} // verus!

verus! {

/// No street of `group` is more than one building ahead of another.
pub open spec fn group_even(b: Seq<Space>, group: ColorGroup) -> bool {
    forall|i: int, j: int|
        0 <= i < b.len() && 0 <= j < b.len() && #[trigger] in_group(b[i], group) && #[trigger] in_group(b[j], group)
            ==> b[i].houses_spec() <= b[j].houses_spec() + 1
}

/// Building evenly keeps every color group even: a building put up on one of
/// its group's least built streets leaves no street more than one ahead.
pub proof fn lemma_building_keeps_groups_even(b: Seq<Space>, idx: int, group: ColorGroup)
    requires
        0 <= idx < b.len(),
        b[idx] is Property,
        b[idx].houses_spec() < HOTEL,
        lowest_in_group(b, b[idx]->Property_0.group, b[idx].houses_spec()),
        group_even(b, group),
    ensures
        group_even(b.update(idx, b[idx].with_houses((b[idx].houses_spec() + 1) as u8)), group),
{
    let h = b[idx].houses_spec();
    let n = b.update(idx, b[idx].with_houses((h + 1) as u8));
    assert forall|i: int, j: int|
        0 <= i < n.len() && 0 <= j < n.len() && #[trigger] in_group(n[i], group) && #[trigger] in_group(n[j], group)
            implies n[i].houses_spec() <= n[j].houses_spec() + 1 by {
        assert(in_group(b[i], group) && in_group(b[j], group));
        if i == idx && j != idx {
            assert(in_group(b[j], b[idx]->Property_0.group));
        }
    }
}

/// Selling evenly keeps every color group even: a building sold off one of
/// its group's most built streets leaves no street more than one behind.
pub proof fn lemma_selling_keeps_groups_even(b: Seq<Space>, idx: int, group: ColorGroup)
    requires
        0 <= idx < b.len(),
        b[idx] is Property,
        b[idx].houses_spec() > 0,
        highest_in_group(b, b[idx]->Property_0.group, b[idx].houses_spec()),
        group_even(b, group),
    ensures
        group_even(b.update(idx, b[idx].with_houses((b[idx].houses_spec() - 1) as u8)), group),
{
    let h = b[idx].houses_spec();
    let n = b.update(idx, b[idx].with_houses((h - 1) as u8));
    assert forall|i: int, j: int|
        0 <= i < n.len() && 0 <= j < n.len() && #[trigger] in_group(n[i], group) && #[trigger] in_group(n[j], group)
            implies n[i].houses_spec() <= n[j].houses_spec() + 1 by {
        assert(in_group(b[i], group) && in_group(b[j], group));
        if j == idx && i != idx {
            assert(in_group(b[i], b[idx]->Property_0.group));
        }
    }
}

} // verus!
