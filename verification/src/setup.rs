//! New-game setup: how many players, the starting cash, and each seat's token.
//!
//! Up/Down move between fields, Left/Right change the selected value, Enter
//! starts the game.

use vstd::prelude::*;

use crate::player::{all_pieces, next_piece, piece_index, prev_piece, Piece, Player};
use crate::ui::Key;

verus! {

pub const MIN_PLAYERS: usize = 2;
pub const MAX_PLAYERS: usize = 8;
pub const MONEY_STEP: u32 = 250;
pub const MIN_MONEY: u32 = 250;

/// The setup form.
#[derive(Debug)]
pub struct Setup {
    pub player_count: usize,
    pub starting_money: u32,
    /// One token per seat.
    pub pieces: Vec<Piece>,
    /// The field under the cursor: 0 = players, 1 = money, 2.. = a seat's token.
    pub selected: usize,
}

/// The first `count` tokens in declaration order.
pub open spec fn default_pieces_spec(count: int) -> Seq<Piece> {
    all_pieces().take(count)
}

/// No two seats hold the same token.
pub open spec fn distinct_pieces(p: Seq<Piece>) -> bool {
    forall|i: int, j: int| 0 <= i < p.len() && 0 <= j < p.len() && i != j ==> p[i] != p[j]
}

/// One step from `p` in the chosen direction.
pub open spec fn step_piece(p: Piece, forward: bool) -> Piece {
    if forward {
        next_piece(p)
    } else {
        prev_piece(p)
    }
}

/// Some seat other than `idx` holds `p`.
pub open spec fn taken(pieces: Seq<Piece>, idx: int, p: Piece) -> bool {
    exists|j: int| 0 <= j < pieces.len() && j != idx && pieces[j] == p
}

/// Searching from candidate `p` onwards for at most `k` more steps, the first
/// token no other seat holds; the seat's own token when every one is taken.
pub open spec fn free_from(pieces: Seq<Piece>, idx: int, forward: bool, p: Piece, k: nat) -> Piece
    decreases k,
{
    if k == 0 {
        pieces[idx]
    } else if !taken(pieces, idx, p) {
        p
    } else {
        free_from(pieces, idx, forward, step_piece(p, forward), (k - 1) as nat)
    }
}

proof fn lemma_free_from_ok(pieces: Seq<Piece>, idx: int, forward: bool, p: Piece, k: nat)
    requires
        0 <= idx < pieces.len(),
    ensures
        free_from(pieces, idx, forward, p, k) == pieces[idx] || !taken(
            pieces,
            idx,
            free_from(pieces, idx, forward, p, k),
        ),
    decreases k,
{
    if k > 0 && taken(pieces, idx, p) {
        lemma_free_from_ok(pieces, idx, forward, step_piece(p, forward), (k - 1) as nat);
    }
}

/// The first `count` tokens in declaration order.
pub fn default_pieces(count: usize) -> (v: Vec<Piece>)
    requires
        count <= 8,
    ensures
        v@ == default_pieces_spec(count as int),
        distinct_pieces(v@),
{
    let all = Piece::all();
    let mut v: Vec<Piece> = Vec::new();
    let mut i: usize = 0;
    while i < count
        invariant
            i <= count <= 8,
            all@ == all_pieces(),
            v@ == all_pieces().take(i as int),
        decreases count - i,
    {
        v.push(all[i]);
        proof {
            assert(all_pieces().take(i + 1) =~= all_pieces().take(i as int).push(all_pieces()[i as int]));
        }
        i = i + 1;
    }
    proof {
        assert forall|i: int, j: int| 0 <= i < v@.len() && 0 <= j < v@.len() && i != j implies v@[i] != v@[j] by {
            if i < j {
                crate::player::lemma_pieces_distinct(i, j);
            } else {
                crate::player::lemma_pieces_distinct(j, i);
            }
        }
    }
    v
}

impl Setup {
    /// The form is in range: 2 to 8 seats, one distinct token per seat, and
    /// the cursor on one of the fields.
    pub open spec fn wf(&self) -> bool {
        &&& MIN_PLAYERS <= self.player_count <= MAX_PLAYERS
        &&& self.pieces@.len() == self.player_count
        &&& distinct_pieces(self.pieces@)
        &&& self.selected < 2 + self.player_count
    }

    /// How many fields the form has: players, money, and one per seat.
    pub open spec fn field_count_spec(&self) -> int {
        2 + self.player_count
    }

    /// Four players with $1500 each, holding the first four tokens.
    pub fn new() -> (s: Self)
        ensures
            s.wf(),
            s.player_count == 4,
            s.starting_money == 1500,
            s.pieces@ == default_pieces_spec(4),
            s.selected == 0,
    {
        let player_count: usize = 4;
        Setup { player_count, starting_money: 1500, pieces: default_pieces(player_count), selected: 0 }
    }

    pub fn field_count(&self) -> (n: usize)
        requires
            self.player_count <= MAX_PLAYERS,
        ensures
            n == self.field_count_spec(),
    {
        2 + self.player_count
    }

    /// Feed a key to the form; returns the players once Enter confirms it.
    pub fn handle_key(&mut self, key: Key) -> (r: Option<Vec<Player>>)
        requires
            old(self).wf(),
            key is Right && old(self).selected == 1 ==> old(self).starting_money <= u32::MAX - MONEY_STEP,
        ensures
            final(self).wf(),
            key is Enter ==> *final(self) == *old(self) && (r matches Some(v) && v@.len() == old(self).player_count
                && forall|i: int|
                0 <= i < v@.len() ==> #[trigger] v@[i] == (Player {
                    piece: old(self).pieces@[i],
                    money: old(self).starting_money,
                    position: 0,
                    in_jail: false,
                    jail_turns: 0,
                    get_out_free: 0,
                    bankrupt: false,
                })),
            !(key is Enter) ==> r is None,
            key is Up ==> final(self).selected == (if old(self).selected == 0 {
                0
            } else {
                (old(self).selected - 1) as usize
            }) && final(self).pieces@ == old(self).pieces@,
            key is Down ==> final(self).selected == (if old(self).selected + 1 < old(self).field_count_spec() {
                (old(self).selected + 1) as usize
            } else {
                old(self).selected
            }) && final(self).pieces@ == old(self).pieces@,
            key is Left ==> final(self).selected <= old(self).selected,
            key is Right && old(self).selected == 1 ==> final(self).starting_money == old(self).starting_money
                + MONEY_STEP,
            key is Left && old(self).selected == 1 ==> final(self).starting_money == (if old(self).starting_money
                >= MIN_MONEY + MONEY_STEP {
                old(self).starting_money - MONEY_STEP
            } else {
                MIN_MONEY as int
            }),
            (key is Left || key is Right) && old(self).selected == 0 ==> final(self).player_count == (if key is Left {
                if old(self).player_count > MIN_PLAYERS {
                    old(self).player_count - 1
                } else {
                    MIN_PLAYERS as int
                }
            } else {
                if old(self).player_count < MAX_PLAYERS {
                    old(self).player_count + 1
                } else {
                    MAX_PLAYERS as int
                }
            }) && final(self).pieces@ == default_pieces_spec(final(self).player_count as int),
            (key is Left || key is Right) && old(self).selected >= 2 ==> final(self).pieces@ == old(self).pieces@.update(
                old(self).selected - 2,
                free_from(
                    old(self).pieces@,
                    old(self).selected - 2,
                    key is Right,
                    step_piece(old(self).pieces@[old(self).selected - 2], key is Right),
                    7,
                ),
            ),
            !(key is Left || key is Right) ==> final(self).player_count == old(self).player_count
                && final(self).starting_money == old(self).starting_money,
    {
        match key {
            Key::Up => {
                self.selected = self.selected.saturating_sub(1);
            },
            Key::Down => {
                let last = self.field_count() - 1;
                let next = self.selected + 1;
                self.selected = if next < last {
                    next
                } else {
                    last
                };
            },
            Key::Left => self.adjust(-1),
            Key::Right => self.adjust(1),
            Key::Enter => {
                return Some(self.build_players());
            },
            _ => {},
        }
        None
    }

    /// Change the selected field's value one step in direction `dir`: the
    /// player count (kept within 2 to 8, which deals the first tokens anew),
    /// the starting cash (in steps, never below the minimum), or a seat's token
    /// (the next one that no other seat holds).
    pub fn adjust(&mut self, dir: i32)
        requires
            old(self).wf(),
            dir == 1 || dir == -1,
            dir > 0 && old(self).selected == 1 ==> old(self).starting_money <= u32::MAX - MONEY_STEP,
        ensures
            final(self).wf(),
            final(self).selected <= old(self).selected,
            old(self).selected == 0 ==> final(self).player_count == (if dir > 0 {
                if old(self).player_count < MAX_PLAYERS {
                    old(self).player_count + 1
                } else {
                    MAX_PLAYERS as int
                }
            } else {
                if old(self).player_count > MIN_PLAYERS {
                    old(self).player_count - 1
                } else {
                    MIN_PLAYERS as int
                }
            }) && final(self).pieces@ == default_pieces_spec(final(self).player_count as int)
                && final(self).starting_money == old(self).starting_money,
            old(self).selected == 1 ==> final(self).starting_money == (if dir > 0 {
                old(self).starting_money + MONEY_STEP
            } else if old(self).starting_money >= MIN_MONEY + MONEY_STEP {
                old(self).starting_money - MONEY_STEP
            } else {
                MIN_MONEY as int
            }) && final(self).pieces@ == old(self).pieces@ && final(self).player_count == old(self).player_count
                && final(self).selected == old(self).selected,
            old(self).selected >= 2 ==> final(self).pieces@ == old(self).pieces@.update(
                old(self).selected - 2,
                free_from(
                    old(self).pieces@,
                    old(self).selected - 2,
                    dir > 0,
                    step_piece(old(self).pieces@[old(self).selected - 2], dir > 0),
                    7,
                ),
            ) && final(self).player_count == old(self).player_count && final(self).starting_money
                == old(self).starting_money && final(self).selected == old(self).selected,
    {
        if self.selected == 0 {
            let count = if dir > 0 {
                if self.player_count < MAX_PLAYERS {
                    self.player_count + 1
                } else {
                    MAX_PLAYERS
                }
            } else {
                if self.player_count > MIN_PLAYERS {
                    self.player_count - 1
                } else {
                    MIN_PLAYERS
                }
            };
            self.set_player_count(count);
        } else if self.selected == 1 {
            self.starting_money = if dir > 0 {
                self.starting_money + MONEY_STEP
            } else {
                let lower = self.starting_money.saturating_sub(MONEY_STEP);
                if lower > MIN_MONEY {
                    lower
                } else {
                    MIN_MONEY
                }
            };
        } else {
            let idx = self.selected - 2;
            let piece = self.next_free(idx, dir);
            proof {
                lemma_free_from_ok(self.pieces@, idx as int, dir > 0, step_piece(self.pieces@[idx as int], dir > 0), 7);
            }
            self.pieces.set(idx, piece);
            proof {
                let old_p = old(self).pieces@;
                assert forall|i: int, j: int|
                    0 <= i < self.pieces@.len() && 0 <= j < self.pieces@.len() && i != j implies self.pieces@[i]
                    != self.pieces@[j] by {
                    if i == idx as int && piece != old_p[idx as int] {
                        assert(!taken(old_p, idx as int, piece));
                        if self.pieces@[i] == self.pieces@[j] {
                            assert(old_p[j] == piece);
                        }
                    } else if j == idx as int && piece != old_p[idx as int] {
                        assert(!taken(old_p, idx as int, piece));
                        if self.pieces@[i] == self.pieces@[j] {
                            assert(old_p[i] == piece);
                        }
                    }
                }
            }
        }
    }

    /// The next token from seat `idx`'s in direction `dir` that no other seat
    /// holds; the seat's own token if every other is taken.
    pub fn next_free(&self, idx: usize, dir: i32) -> (p: Piece)
        requires
            idx < self.pieces@.len(),
        ensures
            p == free_from(self.pieces@, idx as int, dir > 0, step_piece(self.pieces@[idx as int], dir > 0), 7),
    {
        let current = self.pieces[idx];
        let forward = dir > 0;
        let mut piece = if forward {
            current.next()
        } else {
            current.prev()
        };
        let mut left: usize = 7;
        while left > 0
            invariant
                left <= 7,
                forward == (dir > 0),
                idx < self.pieces@.len(),
                current == self.pieces@[idx as int],
                free_from(self.pieces@, idx as int, forward, step_piece(current, forward), 7) == free_from(
                    self.pieces@,
                    idx as int,
                    forward,
                    piece,
                    left as nat,
                ),
            decreases left,
        {
            let mut is_taken = false;
            let mut j: usize = 0;
            while j < self.pieces.len()
                invariant
                    j <= self.pieces@.len(),
                    idx < self.pieces@.len(),
                    0 < left <= 7,
                    forward == (dir > 0),
                    current == self.pieces@[idx as int],
                    free_from(self.pieces@, idx as int, forward, step_piece(current, forward), 7) == free_from(
                        self.pieces@,
                        idx as int,
                        forward,
                        piece,
                        left as nat,
                    ),
                    is_taken <==> exists|k: int| 0 <= k < j && k != idx && self.pieces@[k] == piece,
                decreases self.pieces@.len() - j,
            {
                if j != idx && self.pieces[j] == piece {
                    is_taken = true;
                }
                j = j + 1;
            }
            if !is_taken {
                proof {
                    assert(!taken(self.pieces@, idx as int, piece));
                }
                return piece;
            }
            proof {
                let w = choose|k: int| 0 <= k < self.pieces@.len() && k != idx && self.pieces@[k] == piece;
                assert(taken(self.pieces@, idx as int, piece));
            }
            piece = if forward {
                piece.next()
            } else {
                piece.prev()
            };
            left = left - 1;
        }
        current
    }

    /// Deal the seats the chosen number of first tokens, keeping the cursor on
    /// a field that still exists.
    pub fn set_player_count(&mut self, count: usize)
        requires
            MIN_PLAYERS <= count <= MAX_PLAYERS,
            old(self).selected < 2 + old(self).player_count,
        ensures
            final(self).player_count == count,
            final(self).pieces@ == default_pieces_spec(count as int),
            final(self).starting_money == old(self).starting_money,
            final(self).selected == (if old(self).selected < 2 + count {
                old(self).selected
            } else {
                (2 + count - 1) as usize
            }),
            final(self).wf(),
    {
        self.player_count = count;
        self.pieces = default_pieces(count);
        let last = 2 + count - 1;
        if self.selected > last {
            self.selected = last;
        }
    }

    /// One player per seat, holding the seat's token and the starting cash.
    pub fn build_players(&self) -> (v: Vec<Player>)
        ensures
            v@.len() == self.pieces@.len(),
            forall|i: int|
                0 <= i < v@.len() ==> #[trigger] v@[i] == (Player {
                    piece: self.pieces@[i],
                    money: self.starting_money,
                    position: 0,
                    in_jail: false,
                    jail_turns: 0,
                    get_out_free: 0,
                    bankrupt: false,
                }),
    {
        let mut v: Vec<Player> = Vec::new();
        let mut i: usize = 0;
        while i < self.pieces.len()
            invariant
                i <= self.pieces@.len(),
                v@.len() == i,
                forall|k: int|
                    0 <= k < i ==> #[trigger] v@[k] == (Player {
                        piece: self.pieces@[k],
                        money: self.starting_money,
                        position: 0,
                        in_jail: false,
                        jail_turns: 0,
                        get_out_free: 0,
                        bankrupt: false,
                    }),
            decreases self.pieces@.len() - i,
        {
            v.push(Player::new(self.pieces[i], self.starting_money));
            i = i + 1;
        }
        v
    }
}

} // verus!
