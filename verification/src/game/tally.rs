//! Sums and counts over the players and the board, with the facts about how
//! they change when one entry changes.

use vstd::prelude::*;

use crate::player::Player;
use crate::space::Space;

verus! {

/// All the cash held by the players.
pub open spec fn total_money(s: Seq<Player>) -> int
    decreases s.len(),
{
    if s.len() == 0 {
        0
    } else {
        total_money(s.drop_last()) + s.last().money
    }
}

/// How many players are still in the game.
pub open spec fn active_count(s: Seq<Player>) -> int
    decreases s.len(),
{
    if s.len() == 0 {
        0
    } else {
        active_count(s.drop_last()) + if s.last().bankrupt {
            0int
        } else {
            1int
        }
    }
}

/// Houses standing on streets that have not yet been turned into a hotel.
pub open spec fn street_houses(b: Seq<Space>) -> int
    decreases b.len(),
{
    if b.len() == 0 {
        0
    } else {
        street_houses(b.drop_last()) + if b.last().houses_spec() < 5 {
            b.last().houses_spec() as int
        } else {
            0int
        }
    }
}

/// Hotels standing on the board.
pub open spec fn hotel_count(b: Seq<Space>) -> int
    decreases b.len(),
{
    if b.len() == 0 {
        0
    } else {
        hotel_count(b.drop_last()) + if b.last().houses_spec() == 5 {
            1int
        } else {
            0int
        }
    }
}

pub proof fn lemma_total_update(s: Seq<Player>, i: int, p: Player)
    requires
        0 <= i < s.len(),
    ensures
        total_money(s.update(i, p)) == total_money(s) - s[i].money + p.money,
    decreases s.len(),
{
    if i == s.len() - 1 {
        assert(s.update(i, p).drop_last() =~= s.drop_last());
    } else {
        lemma_total_update(s.drop_last(), i, p);
        assert(s.update(i, p).drop_last() =~= s.drop_last().update(i, p));
    }
}

pub proof fn lemma_total_nonneg(s: Seq<Player>)
    ensures
        total_money(s) >= 0,
    decreases s.len(),
{
    if s.len() > 0 {
        lemma_total_nonneg(s.drop_last());
    }
}

/// One player's cash never exceeds everyone's together.
pub proof fn lemma_total_ge(s: Seq<Player>, i: int)
    requires
        0 <= i < s.len(),
    ensures
        s[i].money <= total_money(s),
    decreases s.len(),
{
    lemma_total_nonneg(s.drop_last());
    if i < s.len() - 1 {
        lemma_total_ge(s.drop_last(), i);
    }
}

/// Two players' cash never exceeds everyone's together.
pub proof fn lemma_total_two(s: Seq<Player>, i: int, j: int)
    requires
        0 <= i < s.len(),
        0 <= j < s.len(),
        i != j,
    ensures
        s[i].money + s[j].money <= total_money(s),
    decreases s.len(),
{
    let n = s.len() - 1;
    if i == n {
        lemma_total_ge(s.drop_last(), j);
    } else if j == n {
        lemma_total_ge(s.drop_last(), i);
    } else {
        lemma_total_two(s.drop_last(), i, j);
    }
}

pub proof fn lemma_active_update(s: Seq<Player>, i: int, p: Player)
    requires
        0 <= i < s.len(),
    ensures
        active_count(s.update(i, p)) == active_count(s) - (if s[i].bankrupt {
            0int
        } else {
            1int
        }) + (if p.bankrupt {
            0int
        } else {
            1int
        }),
    decreases s.len(),
{
    if i == s.len() - 1 {
        assert(s.update(i, p).drop_last() =~= s.drop_last());
    } else {
        lemma_active_update(s.drop_last(), i, p);
        assert(s.update(i, p).drop_last() =~= s.drop_last().update(i, p));
    }
}

pub proof fn lemma_active_nonneg(s: Seq<Player>)
    ensures
        active_count(s) >= 0,
    decreases s.len(),
{
    if s.len() > 0 {
        lemma_active_nonneg(s.drop_last());
    }
}

pub proof fn lemma_houses_update(b: Seq<Space>, i: int, s: Space)
    requires
        0 <= i < b.len(),
    ensures
        street_houses(b.update(i, s)) == street_houses(b) - (if b[i].houses_spec() < 5 {
            b[i].houses_spec() as int
        } else {
            0int
        }) + (if s.houses_spec() < 5 {
            s.houses_spec() as int
        } else {
            0int
        }),
        hotel_count(b.update(i, s)) == hotel_count(b) - (if b[i].houses_spec() == 5 {
            1int
        } else {
            0int
        }) + (if s.houses_spec() == 5 {
            1int
        } else {
            0int
        }),
    decreases b.len(),
{
    if i == b.len() - 1 {
        assert(b.update(i, s).drop_last() =~= b.drop_last());
    } else {
        lemma_houses_update(b.drop_last(), i, s);
        assert(b.update(i, s).drop_last() =~= b.drop_last().update(i, s));
    }
}

pub proof fn lemma_houses_nonneg(b: Seq<Space>)
    ensures
        street_houses(b) >= 0,
        hotel_count(b) >= 0,
    decreases b.len(),
{
    if b.len() > 0 {
        lemma_houses_nonneg(b.drop_last());
    }
}

/// The houses on one un-hoteled street are among the board's street houses,
/// and a hotel is among its hotels.
pub proof fn lemma_houses_ge(b: Seq<Space>, i: int)
    requires
        0 <= i < b.len(),
    ensures
        b[i].houses_spec() < 5 ==> b[i].houses_spec() <= street_houses(b),
        b[i].houses_spec() == 5 ==> 1 <= hotel_count(b),
    decreases b.len(),
{
    lemma_houses_nonneg(b.drop_last());
    if i < b.len() - 1 {
        lemma_houses_ge(b.drop_last(), i);
    }
}

} // verus!
