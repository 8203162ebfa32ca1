//! Starting a game: the roll-off for the first turn and the opening state.

use vstd::prelude::*;

use super::note::Note;

use std::collections::VecDeque;

use super::cards::{fresh_decks, is_chance_deck, is_chest_deck, Card};
use super::tally::{hotel_count, street_houses};
use super::{player_ok, space_ok, Game, Modal, BOARD_LEN, SEAT_CAP, TOTAL_HOTELS, TOTAL_HOUSES};
use crate::board::{board, is_standard_board};
use crate::player::Player;
use crate::random::random_range_inclusive;
use crate::space::Space;

verus! {

/// The seat that wins a roll-off among the first `n` totals, with its total:
/// the first seat to throw the highest total (seat 0 and total 0 before anyone
/// has thrown).
pub open spec fn roll_off_upto(t: Seq<u8>, n: int) -> (int, int)
    decreases n,
{
    if n <= 0 {
        (0, 0)
    } else {
        let (f, b) = roll_off_upto(t, n - 1);
        if t[n - 1] > b {
            (n - 1, t[n - 1] as int)
        } else {
            (f, b)
        }
    }
}

proof fn lemma_roll_off_bounds(t: Seq<u8>, n: int)
    requires
        0 <= n <= t.len(),
    ensures
        0 <= roll_off_upto(t, n).0 < (if n == 0 {
            1
        } else {
            n
        }),
        forall|i: int| 0 <= i < n ==> #[trigger] t[i] <= roll_off_upto(t, n).1,
        n > 0 ==> t[roll_off_upto(t, n).0] == roll_off_upto(t, n).1 || roll_off_upto(t, n).1 == 0,
    decreases n,
{
    if n > 0 {
        lemma_roll_off_bounds(t, n - 1);
    }
}

/// The seat that goes first after everyone throws the listed totals: the
/// highest total wins, ties going to the earlier seat.
pub fn roll_off_winner(totals: &Vec<u8>) -> (first: usize)
    ensures
        first == roll_off_upto(totals@, totals@.len() as int).0,
        totals@.len() > 0 ==> first < totals@.len(),
{
    let mut first: usize = 0;
    let mut best: u8 = 0;
    let mut i: usize = 0;
    while i < totals.len()
        invariant
            i <= totals@.len(),
            (first as int, best as int) == roll_off_upto(totals@, i as int),
        decreases totals@.len() - i,
    {
        if totals[i] > best {
            best = totals[i];
            first = i;
        }
        i = i + 1;
    }
    proof {
        lemma_roll_off_bounds(totals@, totals@.len() as int);
    }
    first
}

/// No street of `b` has a building.
pub open spec fn unbuilt(b: Seq<Space>) -> bool {
    forall|i: int| 0 <= i < b.len() ==> #[trigger] b[i].houses_spec() == 0
}

proof fn lemma_unbuilt_counts(b: Seq<Space>)
    requires
        unbuilt(b),
    ensures
        street_houses(b) == 0,
        hotel_count(b) == 0,
    decreases b.len(),
{
    if b.len() > 0 {
        assert(unbuilt(b.drop_last()));
        lemma_unbuilt_counts(b.drop_last());
        assert(b.last().houses_spec() == 0);
    }
}

/// The standard board is within the rules' caps, held by the bank, and bare.
pub proof fn lemma_standard_board(b: Seq<Space>)
    requires
        is_standard_board(b),
    ensures
        forall|i: int| 0 <= i < b.len() ==> space_ok(#[trigger] b[i]),
        forall|i: int| 0 <= i < b.len() ==> (#[trigger] b[i]).owner_spec() is None,
        unbuilt(b),
        street_houses(b) == 0,
        hotel_count(b) == 0,
{
    assert forall|i: int| 0 <= i < b.len() implies space_ok(#[trigger] b[i]) && b[i].owner_spec() is None
        && b[i].houses_spec() == 0 by {
        if let Space::Property(p) = b[i] {
            assert forall|k: int| 0 <= k < 6 implies #[trigger] p.rents[k] <= 2000 by {
                assert(p.rents[k] <= 2000);
            }
        }
    }
    lemma_unbuilt_counts(b);
}

/// Every seat throws two dice; returns the totals, seat by seat.
fn throw_roll_off(n: usize) -> (t: Vec<u8>)
    ensures
        t@.len() == n,
        forall|i: int| 0 <= i < n ==> 2 <= #[trigger] t@[i] <= 12,
{
    let mut t: Vec<u8> = Vec::new();
    let mut i: usize = 0;
    while i < n
        invariant
            i <= n,
            t@.len() == i,
            forall|k: int| 0 <= k < i ==> 2 <= #[trigger] t@[k] <= 12,
        decreases n - i,
    {
        let a = random_range_inclusive(1, 6);
        let b = random_range_inclusive(1, 6);
        t.push((a + b) as u8);
        i = i + 1;
    }
    t
}

impl Game {
    /// A new game for these players on the standard board: a roll-off picks
    /// who goes first (highest total of two dice, ties to the earlier seat),
    /// both decks are freshly shuffled, the bank holds its full stock, and
    /// nothing is on screen.
    pub fn new(players: Vec<Player>) -> (g: Game)
        requires
            1 <= players@.len() <= SEAT_CAP,
            forall|i: int| 0 <= i < players@.len() ==> player_ok(#[trigger] players@[i]),
        ensures
            g.wf(),
            g.players@ == players@,
            is_standard_board(g.board@),
            exists|t: Seq<u8>|
                t.len() == players@.len() && (forall|i: int| 0 <= i < t.len() ==> 2 <= #[trigger] t[i] <= 12)
                    && g.current == #[trigger] roll_off_upto(t, t.len() as int).0,
            g.modal is Clear,
            g.doubles == 0,
            g.can_roll,
            !g.has_rolled,
            g.clock == 0,
            !g.done,
            exists|d: Seq<Card>| is_chance_deck(d) && g.chance@.to_multiset() == #[trigger] d.to_multiset(),
            exists|d: Seq<Card>| is_chest_deck(d) && g.chest@.to_multiset() == #[trigger] d.to_multiset(),
            g.houses_left == TOTAL_HOUSES,
            g.hotels_left == TOTAL_HOTELS,
            g.pending@.len() == 0,
            g.notes@ == seq![Note::FirstPlayer { who: g.current }, Note::Turn { who: g.current }],
    {
        let totals = throw_roll_off(players.len());
        let first = roll_off_winner(&totals);
        let (chance, chest) = fresh_decks();
        let b = board();
        proof {
            lemma_standard_board(b@);
        }
        let mut g = Game {
            players,
            board: b,
            current: first,
            modal: Modal::Clear,
            doubles: 0,
            can_roll: true,
            has_rolled: false,
            clock: 0,
            done: false,
            chance,
            chest,
            houses_left: TOTAL_HOUSES,
            hotels_left: TOTAL_HOTELS,
            pending: VecDeque::new(),
            notes: Vec::new(),
        };
        proof {
            assert(g.current == roll_off_upto(totals@, totals@.len() as int).0);
        }
        g.note(Note::FirstPlayer { who: first });
        g.note(Note::Turn { who: first });
        proof {
            assert(g.notes@ =~= seq![Note::FirstPlayer { who: g.current }, Note::Turn { who: g.current }]);
        }
        g
    }
}

} // verus!

verus! {

/// The roll-off gives the first turn to the highest total, ties going to the
/// earlier seat: the winner threw at least as much as everyone, and more than
/// everyone seated before them.
pub proof fn lemma_roll_off_picks_the_highest(t: Seq<u8>)
    requires
        t.len() > 0,
        forall|i: int| 0 <= i < t.len() ==> #[trigger] t[i] > 0,
    ensures
        0 <= roll_off_upto(t, t.len() as int).0 < t.len(),
        forall|i: int| 0 <= i < t.len() ==> #[trigger] t[i] <= t[roll_off_upto(t, t.len() as int).0],
        forall|i: int| 0 <= i < roll_off_upto(t, t.len() as int).0 ==> #[trigger] t[i] < t[roll_off_upto(
            t,
            t.len() as int,
        ).0],
{
    lemma_roll_off_strict(t, t.len() as int);
}

proof fn lemma_roll_off_strict(t: Seq<u8>, n: int)
    requires
        0 < n <= t.len(),
        forall|i: int| 0 <= i < t.len() ==> #[trigger] t[i] > 0,
    ensures
        0 <= roll_off_upto(t, n).0 < n,
        roll_off_upto(t, n).1 == t[roll_off_upto(t, n).0],
        forall|i: int| 0 <= i < n ==> #[trigger] t[i] <= roll_off_upto(t, n).1,
        forall|i: int| 0 <= i < roll_off_upto(t, n).0 ==> #[trigger] t[i] < roll_off_upto(t, n).1,
    decreases n,
{
    if n > 1 {
        lemma_roll_off_strict(t, n - 1);
    } else {
        assert(roll_off_upto(t, 0) == (0int, 0int));
    }
}

} // verus!
