//! What a landing costs: the rent tables, color-group monopolies, and the
//! special rates the "advance to the nearest ..." cards charge.

use vstd::prelude::*;

use super::Game;
use crate::space::{ColorGroup, Space};

verus! {

pub const RAILROAD_BASE_RENT: u32 = 25;

/// The rate a landing is charged at. The "advance to the nearest ..." cards bill
/// more than the printed rate; everything else is `Normal`.
#[derive(Debug, Clone, Copy, PartialEq, Eq, Structural)]
pub enum RentRule {
    Normal,
    /// Twice the railroad's usual rent.
    DoubleRailroad,
    /// Ten times this roll, however many utilities the owner holds.
    TenTimesUtility(usize),
}

/// The two space kinds whose rent scales with how many the owner holds.
#[derive(Debug, Clone, Copy, PartialEq, Eq, Structural)]
pub enum Kind {
    Railroad,
    Utility,
}

pub open spec fn is_kind(s: Space, kind: Kind) -> bool {
    match kind {
        Kind::Railroad => s is Railroad,
        Kind::Utility => s is Utility,
    }
}

/// How many spaces of `kind` that `owner` holds among the first `n` squares.
pub open spec fn kind_count(b: Seq<Space>, owner: usize, kind: Kind, n: int) -> int
    decreases n,
{
    if n <= 0 {
        0
    } else {
        kind_count(b, owner, kind, n - 1) + if is_kind(b[n - 1], kind) && b[n - 1].owner_spec()
            == Some(owner) {
            1int
        } else {
            0int
        }
    }
}

/// `s` is a street of `group`.
pub open spec fn in_group(s: Space, group: ColorGroup) -> bool {
    s matches Space::Property(p) && p.group == group
}

/// `owner` holds every street of `group`, and the group has at least one street.
pub open spec fn owns_group(b: Seq<Space>, owner: usize, group: ColorGroup) -> bool {
    &&& exists|i: int| 0 <= i < b.len() && #[trigger] in_group(b[i], group)
    &&& forall|i: int|
        0 <= i < b.len() && #[trigger] in_group(b[i], group) ==> b[i].owner_spec() == Some(owner)
}

/// Rent owed for the space at `pos`, owned by `owner`, after a move of `total`
/// squares, under `rule`.
pub open spec fn rent_due(b: Seq<Space>, pos: int, owner: usize, total: int, rule: RentRule) -> int {
    match b[pos] {
        Space::Property(p) => if p.base.mortgaged {
            0
        } else if p.houses == 0 && owns_group(b, owner, p.group) {
            p.rent_spec() * 2
        } else {
            p.rent_spec() as int
        },
        Space::Railroad(o) => if o.mortgaged {
            0
        } else {
            let r = 25 * kind_count(b, owner, Kind::Railroad, b.len() as int);
            if rule == RentRule::DoubleRailroad {
                r * 2
            } else {
                r
            }
        },
        Space::Utility(o) => if o.mortgaged {
            0
        } else {
            match rule {
                RentRule::TenTimesUtility(roll) => roll * 10,
                _ => if kind_count(b, owner, Kind::Utility, b.len() as int) == 2 {
                    total * 10
                } else {
                    total * 4
                },
            }
        },
        _ => 0,
    }
}

proof fn lemma_kind_count_bounds(b: Seq<Space>, owner: usize, kind: Kind, n: int)
    requires
        0 <= n,
    ensures
        0 <= kind_count(b, owner, kind, n) <= n,
    decreases n,
{
    if n > 0 {
        lemma_kind_count_bounds(b, owner, kind, n - 1);
    }
}

/// Handing `owner` one more space of `kind` (at `j`, below `n`) adds one to
/// their count, and any change away from the first `n` squares adds nothing.
proof fn lemma_kind_count_one_more(b: Seq<Space>, b2: Seq<Space>, owner: usize, kind: Kind, j: int, n: int)
    requires
        0 <= n <= b.len(),
        b2.len() == b.len(),
        0 <= j < b.len(),
        forall|i: int| 0 <= i < b.len() && i != j ==> b2[i] == b[i],
        !(is_kind(b[j], kind) && b[j].owner_spec() == Some(owner)),
        is_kind(b2[j], kind) && b2[j].owner_spec() == Some(owner),
    ensures
        kind_count(b2, owner, kind, n) == kind_count(b, owner, kind, n) + if j < n {
            1int
        } else {
            0int
        },
    decreases n,
{
    if n > 0 {
        lemma_kind_count_one_more(b, b2, owner, kind, j, n - 1);
    }
}

/// Only the square at `only` is a space of `kind` held by `owner`.
proof fn lemma_kind_count_lone(b: Seq<Space>, owner: usize, kind: Kind, only: int, n: int)
    requires
        0 <= n <= b.len(),
        0 <= only < b.len(),
        is_kind(b[only], kind) && b[only].owner_spec() == Some(owner),
        forall|i: int| 0 <= i < b.len() && i != only && is_kind(b[i], kind) ==> b[i].owner_spec() != Some(owner),
    ensures
        kind_count(b, owner, kind, n) == if only < n {
            1int
        } else {
            0int
        },
    decreases n,
{
    if n > 0 {
        lemma_kind_count_lone(b, owner, kind, only, n - 1);
    }
}

/// A railroad whose owner holds no other railroad rents for $25, and for $50
/// under the nearest-railroad card.
pub proof fn lemma_a_lone_railroad_rents_for_25(b: Seq<Space>, pos: int, owner: usize, total: int)
    requires
        0 <= pos < b.len(),
        b[pos] is Railroad,
        !b[pos].mortgaged_spec(),
        b[pos].owner_spec() == Some(owner),
        forall|i: int| 0 <= i < b.len() && i != pos && #[trigger] b[i] is Railroad ==> b[i].owner_spec() != Some(owner),
    ensures
        rent_due(b, pos, owner, total, RentRule::Normal) == 25,
        rent_due(b, pos, owner, total, RentRule::DoubleRailroad) == 50,
{
    lemma_kind_count_lone(b, owner, Kind::Railroad, pos, b.len() as int);
}

/// Every further railroad its owner holds raises a railroad's rent by exactly
/// $25 (so one to four held rent for $25, $50, $75, $100), and the
/// nearest-railroad card always charges twice the usual rent.
pub proof fn lemma_each_railroad_held_adds_25(
    b: Seq<Space>,
    b2: Seq<Space>,
    pos: int,
    j: int,
    owner: usize,
    total: int,
)
    requires
        0 <= pos < b.len(),
        0 <= j < b.len(),
        pos != j,
        b2.len() == b.len(),
        forall|i: int| 0 <= i < b.len() && i != j ==> b2[i] == b[i],
        b[pos] is Railroad,
        !b[pos].mortgaged_spec(),
        b[j] is Railroad,
        b[j].owner_spec() != Some(owner),
        b2[j] is Railroad,
        b2[j].owner_spec() == Some(owner),
    ensures
        rent_due(b2, pos, owner, total, RentRule::Normal) == rent_due(b, pos, owner, total, RentRule::Normal) + 25,
        rent_due(b, pos, owner, total, RentRule::DoubleRailroad) == 2 * rent_due(b, pos, owner, total, RentRule::Normal),
        rent_due(b2, pos, owner, total, RentRule::DoubleRailroad) == 2 * rent_due(b2, pos, owner, total, RentRule::Normal),
{
    lemma_kind_count_one_more(b, b2, owner, Kind::Railroad, j, b.len() as int);
}

/// A street of `group` held by anyone but `owner` (a rival or the bank) means
/// `owner` does not hold the full group: they cannot build on it, and each of
/// its unmortgaged streets rents to `owner`'s account at the printed rate for
/// its buildings, never doubled.
pub proof fn lemma_a_street_held_by_another_breaks_the_group(
    b: Seq<Space>,
    owner: usize,
    group: ColorGroup,
    j: int,
    pos: int,
    total: int,
    rule: RentRule,
)
    requires
        0 <= j < b.len(),
        in_group(b[j], group),
        b[j].owner_spec() != Some(owner),
        0 <= pos < b.len(),
        in_group(b[pos], group),
        !b[pos].mortgaged_spec(),
    ensures
        !owns_group(b, owner, group),
        b[pos] matches Space::Property(p) && rent_due(b, pos, owner, total, rule) == p.rent_spec(),
{
}

/// A group whose every street `owner` holds (and which has a street) is full
/// for them: its unbuilt, unmortgaged streets rent at double the base rate.
pub proof fn lemma_holding_every_street_doubles_bare_rent(
    b: Seq<Space>,
    owner: usize,
    group: ColorGroup,
    pos: int,
    total: int,
    rule: RentRule,
)
    requires
        0 <= pos < b.len(),
        in_group(b[pos], group),
        forall|i: int| 0 <= i < b.len() && #[trigger] in_group(b[i], group) ==> b[i].owner_spec() == Some(owner),
    ensures
        owns_group(b, owner, group),
        b[pos] matches Space::Property(p) && (!p.base.mortgaged && p.houses == 0 ==> rent_due(b, pos, owner, total, rule)
            == 2 * p.rent_spec()),
{
}

impl Game {
    /// Rent owed for the space at `pos`, owned by `owner`, under `rule`. A
    /// mortgaged space collects nothing.
    pub fn rent(&self, pos: usize, owner: usize, total: usize, rule: RentRule) -> (r: u32)
        requires
            self.board_ok(),
            pos < self.board.len(),
            total <= 1000,
            rule matches RentRule::TenTimesUtility(roll) ==> roll <= 1000,
        ensures
            r == rent_due(self.board@, pos as int, owner, total as int, rule),
    {
        match &self.board[pos] {
            Space::Property(p) => {
                if p.base.mortgaged {
                    return 0;
                }
                proof {
                    assert(self.board@[pos as int] matches Space::Property(q) && q.rents@.len() == 6);
                }
                if p.houses == 0 && self.owns_full_group(owner, p.group) {
                    p.current_rent() * 2
                } else {
                    p.current_rent()
                }
            },
            Space::Railroad(o) => {
                if o.mortgaged {
                    return 0;
                }
                let rent = RAILROAD_BASE_RENT * self.count_kind(owner, Kind::Railroad);
                if rule == RentRule::DoubleRailroad {
                    rent * 2
                } else {
                    rent
                }
            },
            Space::Utility(o) => {
                if o.mortgaged {
                    return 0;
                }
                match rule {
                    RentRule::TenTimesUtility(roll) => roll as u32 * 10,
                    _ => {
                        if self.count_kind(owner, Kind::Utility) == 2 {
                            total as u32 * 10
                        } else {
                            total as u32 * 4
                        }
                    },
                }
            },
            _ => 0,
        }
    }

    /// True when `owner` holds every street in `group`, the precondition for
    /// building and for doubled rent.
    pub fn owns_full_group(&self, owner: usize, group: ColorGroup) -> (b: bool)
        ensures
            b == owns_group(self.board@, owner, group),
    {
        let mut any = false;
        let mut all = true;
        let mut i: usize = 0;
        while i < self.board.len()
            invariant
                i <= self.board@.len(),
                any == exists|j: int| 0 <= j < i && #[trigger] in_group(self.board@[j], group),
                all == forall|j: int|
                    0 <= j < i && #[trigger] in_group(self.board@[j], group) ==> self.board@[j].owner_spec()
                        == Some(owner),
            decreases self.board.len() - i,
        {
            let ghost prev_any = any;
            let ghost prev_all = all;
            if let Space::Property(p) = &self.board[i] {
                if p.group == group {
                    any = true;
                    if p.base.owner != Some(owner) {
                        all = false;
                    }
                }
            }
            proof {
                let s = self.board@[i as int];
                if in_group(s, group) {
                    assert(any);
                    assert(all == (prev_all && s.owner_spec() == Some(owner)));
                } else {
                    assert(any == prev_any);
                    assert(all == prev_all);
                }
                assert forall|j: int| 0 <= j < i + 1 && #[trigger] in_group(self.board@[j], group) implies (
                j < i || j == i) by {}
            }
            i = i + 1;
        }
        any && all
    }

    /// How many railroads/utilities `owner` holds.
    pub fn count_kind(&self, owner: usize, kind: Kind) -> (n: u32)
        requires
            self.board@.len() <= 1000,
        ensures
            n == kind_count(self.board@, owner, kind, self.board@.len() as int),
            n <= self.board@.len(),
    {
        let mut n: u32 = 0;
        let mut i: usize = 0;
        while i < self.board.len()
            invariant
                i <= self.board@.len() <= 1000,
                n == kind_count(self.board@, owner, kind, i as int),
            decreases self.board.len() - i,
        {
            proof {
                lemma_kind_count_bounds(self.board@, owner, kind, i as int);
            }
            let s = &self.board[i];
            let matching = match kind {
                Kind::Railroad => matches!(s, Space::Railroad(_)),
                Kind::Utility => matches!(s, Space::Utility(_)),
            };
            if matching && s.owner() == Some(owner) {
                n = n + 1;
            }
            i = i + 1;
        }
        proof {
            lemma_kind_count_bounds(self.board@, owner, kind, self.board@.len() as int);
        }
        n
    }
}

} // verus!
