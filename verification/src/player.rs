//! Players and their board tokens.

use vstd::prelude::*;

verus! {

/// The eight classic tokens.
#[derive(Debug, Clone, Copy, PartialEq, Eq, Structural)]
pub enum Piece {
    TopHat,
    Car,
    Dog,
    Cat,
    Ship,
    Boot,
    Thimble,
    Wheelbarrow,
}

/// A token's place in declaration order.
pub open spec fn piece_index(p: Piece) -> int {
    match p {
        Piece::TopHat => 0,
        Piece::Car => 1,
        Piece::Dog => 2,
        Piece::Cat => 3,
        Piece::Ship => 4,
        Piece::Boot => 5,
        Piece::Thimble => 6,
        Piece::Wheelbarrow => 7,
    }
}

/// The token at place `i` in declaration order (`i` taken modulo the count).
pub open spec fn piece_at(i: int) -> Piece {
    let k = i % 8;
    if k == 0 {
        Piece::TopHat
    } else if k == 1 {
        Piece::Car
    } else if k == 2 {
        Piece::Dog
    } else if k == 3 {
        Piece::Cat
    } else if k == 4 {
        Piece::Ship
    } else if k == 5 {
        Piece::Boot
    } else if k == 6 {
        Piece::Thimble
    } else {
        Piece::Wheelbarrow
    }
}

/// Every token, in declaration order.
/// The token after `p`, wrapping from the last back to the first.
pub open spec fn next_piece(p: Piece) -> Piece {
    piece_at(piece_index(p) + 1)
}

/// The token before `p`, wrapping from the first back to the last.
pub open spec fn prev_piece(p: Piece) -> Piece {
    piece_at(piece_index(p) + 7)
}

pub open spec fn all_pieces() -> Seq<Piece> {
    seq![
        Piece::TopHat,
        Piece::Car,
        Piece::Dog,
        Piece::Cat,
        Piece::Ship,
        Piece::Boot,
        Piece::Thimble,
        Piece::Wheelbarrow,
    ]
}

pub open spec fn piece_icon(p: Piece) -> &'static str {
    match p {
        Piece::TopHat => "🎩",
        Piece::Car => "🚗",
        Piece::Dog => "🐕",
        Piece::Cat => "🐈",
        Piece::Ship => "🚢",
        Piece::Boot => "👢",
        Piece::Thimble => "🧵",
        Piece::Wheelbarrow => "🛒",
    }
}

pub open spec fn piece_label(p: Piece) -> &'static str {
    match p {
        Piece::TopHat => "Top Hat",
        Piece::Car => "Car",
        Piece::Dog => "Dog",
        Piece::Cat => "Cat",
        Piece::Ship => "Ship",
        Piece::Boot => "Boot",
        Piece::Thimble => "Thimble",
        Piece::Wheelbarrow => "Wheelbarrow",
    }
}

impl Piece {
    /// How many tokens there are.
    pub const COUNT: usize = 8;

    /// Every piece, in declaration order.
    pub fn all() -> (v: Vec<Piece>)
        ensures
            v@ == all_pieces(),
    {
        let v = vec![
            Piece::TopHat,
            Piece::Car,
            Piece::Dog,
            Piece::Cat,
            Piece::Ship,
            Piece::Boot,
            Piece::Thimble,
            Piece::Wheelbarrow,
        ];
        assert(v@ =~= all_pieces());
        v
    }

    /// This token's place in declaration order.
    pub fn index(self) -> (i: usize)
        ensures
            i == piece_index(self),
            i < Piece::COUNT,
    {
        match self {
            Piece::TopHat => 0,
            Piece::Car => 1,
            Piece::Dog => 2,
            Piece::Cat => 3,
            Piece::Ship => 4,
            Piece::Boot => 5,
            Piece::Thimble => 6,
            Piece::Wheelbarrow => 7,
        }
    }

    /// The token at place `i` in declaration order, if there is one.
    pub fn from_index(i: usize) -> (p: Option<Piece>)
        ensures
            i < 8 ==> p == Some(piece_at(i as int)),
            i >= 8 ==> p is None,
    {
        match i {
            0 => Some(Piece::TopHat),
            1 => Some(Piece::Car),
            2 => Some(Piece::Dog),
            3 => Some(Piece::Cat),
            4 => Some(Piece::Ship),
            5 => Some(Piece::Boot),
            6 => Some(Piece::Thimble),
            7 => Some(Piece::Wheelbarrow),
            _ => None,
        }
    }

    /// Token glyph.
    pub fn icon(self) -> (s: &'static str)
        ensures
            s == piece_icon(self),
    {
        match self {
            Piece::TopHat => "🎩",
            Piece::Car => "🚗",
            Piece::Dog => "🐕",
            Piece::Cat => "🐈",
            Piece::Ship => "🚢",
            Piece::Boot => "👢",
            Piece::Thimble => "🧵",
            Piece::Wheelbarrow => "🛒",
        }
    }

    pub fn label(self) -> (s: &'static str)
        ensures
            s == piece_label(self),
    {
        match self {
            Piece::TopHat => "Top Hat",
            Piece::Car => "Car",
            Piece::Dog => "Dog",
            Piece::Cat => "Cat",
            Piece::Ship => "Ship",
            Piece::Boot => "Boot",
            Piece::Thimble => "Thimble",
            Piece::Wheelbarrow => "Wheelbarrow",
        }
    }

    /// The following token, wrapping from the last back to the first.
    pub fn next(self) -> (p: Self)
        ensures
            p == next_piece(self),
            piece_index(p) == (piece_index(self) + 1) % 8,
    {
        match self {
            Piece::TopHat => Piece::Car,
            Piece::Car => Piece::Dog,
            Piece::Dog => Piece::Cat,
            Piece::Cat => Piece::Ship,
            Piece::Ship => Piece::Boot,
            Piece::Boot => Piece::Thimble,
            Piece::Thimble => Piece::Wheelbarrow,
            Piece::Wheelbarrow => Piece::TopHat,
        }
    }

    /// The preceding token, wrapping from the first back to the last.
    pub fn prev(self) -> (p: Self)
        ensures
            p == prev_piece(self),
            piece_index(p) == (piece_index(self) + 7) % 8,
    {
        match self {
            Piece::TopHat => Piece::Wheelbarrow,
            Piece::Car => Piece::TopHat,
            Piece::Dog => Piece::Car,
            Piece::Cat => Piece::Dog,
            Piece::Ship => Piece::Cat,
            Piece::Boot => Piece::Ship,
            Piece::Thimble => Piece::Boot,
            Piece::Wheelbarrow => Piece::Thimble,
        }
    }
}

/// One seat at the table.
#[derive(Debug, Clone, Copy)]
pub struct Player {
    pub piece: Piece,
    pub money: u32,
    /// Board index, starts on GO.
    pub position: usize,
    pub in_jail: bool,
    /// Consecutive turns spent in jail (0..3).
    pub jail_turns: u8,
    /// Unused Get Out of Jail Free cards held.
    pub get_out_free: u8,
    /// Eliminated from the game.
    pub bankrupt: bool,
}

impl Player {
    pub fn new(piece: Piece, money: u32) -> (p: Self)
        ensures
            p == (Player {
                piece,
                money,
                position: 0,
                in_jail: false,
                jail_turns: 0,
                get_out_free: 0,
                bankrupt: false,
            }),
    {
        Player {
            piece,
            money,
            position: 0,
            in_jail: false,
            jail_turns: 0,
            get_out_free: 0,
            bankrupt: false,
        }
    }
}

/// Stepping back undoes stepping forward, and the other way round.
pub proof fn lemma_next_prev_inverse(p: Piece)
    ensures
        prev_piece(next_piece(p)) == p,
        next_piece(prev_piece(p)) == p,
{
}

/// Stepping forward through every token in turn comes back to the start.
pub proof fn lemma_next_cycles(p: Piece)
    ensures
        next_piece(next_piece(next_piece(next_piece(next_piece(next_piece(next_piece(next_piece(p))))))))
            == p,
{
}

/// Each place in declaration order holds a different token.
pub proof fn lemma_pieces_distinct(i: int, j: int)
    requires
        0 <= i < j < 8,
    ensures
        all_pieces()[i] != all_pieces()[j],
        piece_icon(all_pieces()[i]) != piece_icon(all_pieces()[j]),
        piece_label(all_pieces()[i]) != piece_label(all_pieces()[j]),
{
    reveal_strlit("Top Hat");
}

} // verus!
