//! The persistent slice of a game, and how a game is rebuilt from it. Turning
//! it into bytes and back is the caller's business.

use vstd::prelude::*;

use std::collections::VecDeque;

use super::cards::{fresh_decks, is_chance_deck, is_chest_deck, Card};
use super::tally::{hotel_count, street_houses};
use super::{player_ok, space_ok, Game, Modal, BOARD_LEN, SEAT_CAP, TOTAL_HOTELS, TOTAL_HOUSES, VALUE_CAP};
use crate::player::Player;
use crate::space::Space;

verus! {

/// The persistent slice of a game. The popup on screen, the clock, the queue
/// of work and the card decks are not saved: decks are reshuffled on load.
#[derive(Debug)]
pub struct Save {
    pub players: Vec<Player>,
    pub board: Vec<Space>,
    pub current: usize,
    pub doubles: u8,
    pub can_roll: bool,
    pub has_rolled: bool,
    pub houses_left: u8,
    pub hotels_left: u8,
}

/// The bank's full stock of houses, for a save that does not record it.
pub fn full_houses() -> (n: u8)
    ensures
        n == TOTAL_HOUSES,
{
    TOTAL_HOUSES
}

/// The bank's full stock of hotels, for a save that does not record it.
pub fn full_hotels() -> (n: u8)
    ensures
        n == TOTAL_HOTELS,
{
    TOTAL_HOTELS
}

/// A space within the rules' caps (see [`space_ok`]).
pub fn space_within_caps(s: &Space) -> (b: bool)
    ensures
        b == space_ok(*s),
{
    match s {
        Space::Property(p) => {
            if p.base.price > VALUE_CAP || p.house_cost > VALUE_CAP || p.houses > 5 {
                return false;
            }
            let mut k: usize = 0;
            while k < 6
                invariant
                    k <= 6,
                    *s == Space::Property(*p),
                    forall|j: int| 0 <= j < k ==> #[trigger] p.rents[j] <= VALUE_CAP,
                decreases 6 - k,
            {
                if p.rents[k] > VALUE_CAP {
                    proof {
                        assert(!(p.rents[k as int] <= VALUE_CAP));
                    }
                    return false;
                }
                k = k + 1;
            }
            true
        },
        Space::Railroad(o) => o.price <= VALUE_CAP,
        Space::Utility(o) => o.price <= VALUE_CAP,
        Space::Tax(n) => *n <= VALUE_CAP,
        _ => true,
    }
}

/// The houses and the hotels standing on a board.
pub fn building_counts(b: &Vec<Space>) -> (c: (u32, u32))
    requires
        b@.len() <= 1_000_000,
        forall|i: int| 0 <= i < b@.len() ==> (#[trigger] b@[i]).houses_spec() <= 5,
    ensures
        c.0 == street_houses(b@),
        c.1 == hotel_count(b@),
        c.0 <= 4 * b@.len(),
        c.1 <= b@.len(),
{
    let mut houses: u32 = 0;
    let mut hotels: u32 = 0;
    let mut i: usize = 0;
    while i < b.len()
        invariant
            i <= b@.len(),
            b@.len() <= 1_000_000,
            forall|j: int| 0 <= j < b@.len() ==> (#[trigger] b@[j]).houses_spec() <= 5,
            houses == street_houses(b@.take(i as int)),
            hotels == hotel_count(b@.take(i as int)),
            houses <= 4 * i,
            hotels <= i,
        decreases b@.len() - i,
    {
        proof {
            assert(b@.take(i + 1).drop_last() =~= b@.take(i as int));
        }
        let h = b[i].houses();
        if h == 5 {
            hotels = hotels + 1;
        } else {
            houses = houses + h as u32;
        }
        i = i + 1;
    }
    proof {
        assert(b@.take(b@.len() as int) =~= b@);
    }
    (houses, hotels)
}

impl Save {
    /// This is the persistent slice of `g`.
    pub open spec fn holds(&self, g: &Game) -> bool {
        &&& self.players@ == g.players@
        &&& self.board@ == g.board@
        &&& self.current == g.current
        &&& self.doubles == g.doubles
        &&& self.can_roll == g.can_roll
        &&& self.has_rolled == g.has_rolled
        &&& self.houses_left == g.houses_left
        &&& self.hotels_left == g.hotels_left
    }

    /// The saved state can be played on: a table of 1 to [`SEAT_CAP`] seats
    /// with a valid turn and valid players, a 40-square board within the
    /// rules' caps whose deeds belong to seated players, a bank whose stock
    /// and buildings fit in a byte, and a doubles streak below 255.
    pub open spec fn valid(&self) -> bool {
        &&& 1 <= self.players@.len() <= SEAT_CAP
        &&& self.current < self.players@.len()
        &&& forall|i: int| 0 <= i < self.players@.len() ==> player_ok(#[trigger] self.players@[i])
        &&& self.board@.len() == BOARD_LEN
        &&& forall|i: int| 0 <= i < self.board@.len() ==> space_ok(#[trigger] self.board@[i])
        &&& forall|i: int|
            0 <= i < self.board@.len() ==> (#[trigger] self.board@[i].owner_spec() matches Some(o) ==> o
                < self.players@.len())
        &&& self.houses_left + street_houses(self.board@) <= 255
        &&& self.hotels_left + hotel_count(self.board@) <= 255
        &&& self.doubles < 255
    }

    /// Whether the saved state can be played on (see [`Save::valid`]).
    pub fn is_valid(&self) -> (b: bool)
        ensures
            b == self.valid(),
    {
        let n = self.players.len();
        if n < 1 || n > SEAT_CAP || self.current >= n || self.doubles >= 255 {
            return false;
        }
        let mut i: usize = 0;
        while i < n
            invariant
                i <= n,
                n == self.players@.len(),
                forall|j: int| 0 <= j < i ==> player_ok(#[trigger] self.players@[j]),
            decreases n - i,
        {
            let p = self.players[i];
            if p.position >= BOARD_LEN || p.jail_turns >= 255 {
                return false;
            }
            i = i + 1;
        }
        if self.board.len() != BOARD_LEN {
            return false;
        }
        let mut k: usize = 0;
        while k < BOARD_LEN
            invariant
                k <= BOARD_LEN,
                n == self.players@.len(),
                self.board@.len() == BOARD_LEN,
                forall|j: int| 0 <= j < k ==> space_ok(#[trigger] self.board@[j]),
                forall|j: int|
                    0 <= j < k ==> (#[trigger] self.board@[j].owner_spec() matches Some(o) ==> o < n),
            decreases BOARD_LEN - k,
        {
            if !space_within_caps(&self.board[k]) {
                return false;
            }
            match self.board[k].owner() {
                Some(o) => {
                    if o >= n {
                        return false;
                    }
                },
                None => {},
            }
            k = k + 1;
        }
        proof {
            assert forall|j: int| 0 <= j < self.board@.len() implies (#[trigger] self.board@[j]).houses_spec() <= 5 by {
                assert(space_ok(self.board@[j]));
            }
        }
        let (houses, hotels) = building_counts(&self.board);
        self.houses_left as u32 + houses <= 255 && self.hotels_left as u32 + hotels <= 255
    }
}

impl Game {
    /// The persistent slice of this game.
    pub fn snapshot(&self) -> (s: Save)
        ensures
            s.holds(self),
            self.wf() ==> s.valid(),
    {
        let mut players: Vec<Player> = Vec::new();
        let mut i: usize = 0;
        while i < self.players.len()
            invariant
                i <= self.players@.len(),
                players@ == self.players@.take(i as int),
            decreases self.players@.len() - i,
        {
            players.push(self.players[i]);
            proof {
                assert(self.players@.take(i + 1) =~= self.players@.take(i as int).push(self.players@[i as int]));
            }
            i = i + 1;
        }
        let mut board: Vec<Space> = Vec::new();
        let mut k: usize = 0;
        while k < self.board.len()
            invariant
                k <= self.board@.len(),
                board@ == self.board@.take(k as int),
            decreases self.board@.len() - k,
        {
            board.push(self.board[k].clone());
            proof {
                assert(self.board@.take(k + 1) =~= self.board@.take(k as int).push(self.board@[k as int]));
            }
            k = k + 1;
        }
        proof {
            assert(self.players@.take(self.players@.len() as int) =~= self.players@);
            assert(self.board@.take(self.board@.len() as int) =~= self.board@);
        }
        Save {
            players,
            board,
            current: self.current,
            doubles: self.doubles,
            can_roll: self.can_roll,
            has_rolled: self.has_rolled,
            houses_left: self.houses_left,
            hotels_left: self.hotels_left,
        }
    }

    /// A game rebuilt from its saved slice, with nothing on screen, no queued
    /// work, the clock at zero, and both decks freshly shuffled.
    pub fn from_save(save: Save) -> (g: Game)
        requires
            save.valid(),
        ensures
            g.wf(),
            save.holds(&g),
            g.modal is Clear,
            g.clock == 0,
            !g.done,
            g.pending@.len() == 0,
            exists|d: Seq<Card>| is_chance_deck(d) && g.chance@.to_multiset() == #[trigger] d.to_multiset(),
            exists|d: Seq<Card>| is_chest_deck(d) && g.chest@.to_multiset() == #[trigger] d.to_multiset(),
    {
        let (chance, chest) = fresh_decks();
        Game {
            players: save.players,
            board: save.board,
            current: save.current,
            modal: Modal::Clear,
            doubles: save.doubles,
            can_roll: save.can_roll,
            has_rolled: save.has_rolled,
            clock: 0,
            done: false,
            chance,
            chest,
            houses_left: save.houses_left,
            hotels_left: save.hotels_left,
            pending: VecDeque::new(),
            notes: Vec::new(),
        }
    }

    /// The game a save holds, when it can be played on (see [`Save::valid`]);
    /// `None` otherwise.
    pub fn restore(save: Save) -> (g: Option<Game>)
        ensures
            g is Some <==> save.valid(),
            g matches Some(game) ==> game.wf() && save.holds(&game) && game.modal is Clear,
    {
        if save.is_valid() {
            Some(Game::from_save(save))
        } else {
            None
        }
    }
}

} // verus!

verus! {

/// Restoring a save gives back the game it was taken from: the players, the
/// board, whose turn it is and how far into it, and the bank's stock.
pub proof fn lemma_restore_gives_back(g: &Game, s: &Save, r: &Game)
    requires
        s.holds(g),
        s.holds(r),
    ensures
        r.players@ == g.players@,
        r.board@ == g.board@,
        r.current == g.current,
        r.doubles == g.doubles,
        r.can_roll == g.can_roll,
        r.has_rolled == g.has_rolled,
        r.houses_left == g.houses_left,
        r.hotels_left == g.hotels_left,
        g.wf() ==> s.valid(),
{
    if g.wf() {
        assert(s.players@ == g.players@);
    }
}

} // verus!
