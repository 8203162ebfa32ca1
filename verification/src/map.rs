//! Board layout and cell text: which grid cell of the 11x11 ring shows which
//! square, and the name and price or owner line printed in a cell.

use vstd::prelude::*;

use crate::space::Space;

verus! {

/// The board grid is 11 cells a side; only the outer ring holds squares.
pub const SIZE: usize = 11;

/// The square shown in ring cell (`r`, `c`) of a `rows` x `cols` grid,
/// clockwise from GO in the bottom-right corner; `None` for an interior cell.
pub open spec fn ring_spec(r: int, c: int, rows: int, cols: int) -> Option<int> {
    let last_r = rows - 1;
    let last_c = cols - 1;
    if r == last_r {
        Some(last_c - c)
    } else if c == 0 {
        Some(last_c + (last_r - r))
    } else if r == 0 {
        Some(last_c + last_r + c)
    } else if c == last_c {
        Some(last_c + last_r + last_c + r)
    } else {
        None
    }
}

/// Ring cell (row, col) to board index, clockwise from GO at the bottom-right
/// corner. Interior cells give `None`.
pub fn ring_index(r: usize, c: usize, rows: usize, cols: usize) -> (i: Option<usize>)
    requires
        r < rows,
        c < cols,
        rows <= 1_000_000,
        cols <= 1_000_000,
    ensures
        i matches Some(k) ==> ring_spec(r as int, c as int, rows as int, cols as int) == Some(k as int),
        i is None ==> ring_spec(r as int, c as int, rows as int, cols as int) is None,
{
    let last_r = rows - 1;
    let last_c = cols - 1;
    if r == last_r {
        Some(last_c - c)
    } else if c == 0 {
        Some(last_c + (last_r - r))
    } else if r == 0 {
        Some(last_c + last_r + c)
    } else if c == last_c {
        Some(last_c + last_r + last_c + r)
    } else {
        None
    }
}

/// The cell (row, col) of the 11 x 11 grid that shows square `i` of the
/// board, walking clockwise from GO in the bottom-right corner.
pub open spec fn ring_cell(i: int) -> (int, int) {
    if i <= 10 {
        (10, 10 - i)
    } else if i <= 20 {
        (20 - i, 0)
    } else if i <= 30 {
        (0, i - 20)
    } else {
        (i - 30, 10)
    }
}

/// Two grid cells share a side.
pub open spec fn side_by_side(a: (int, int), b: (int, int)) -> bool {
    ||| a.0 == b.0 && (a.1 == b.1 + 1 || b.1 == a.1 + 1)
    ||| a.1 == b.1 && (a.0 == b.0 + 1 || b.0 == a.0 + 1)
}

/// On the 11 x 11 board a cell shows no square exactly when it is inside the
/// ring, and a ring cell shows one of the 40 squares, the one whose cell it is:
/// no two cells show the same square.
pub proof fn lemma_ring_cells_show_one_square_each(r: int, c: int)
    requires
        0 <= r < SIZE,
        0 <= c < SIZE,
    ensures
        ring_spec(r, c, SIZE as int, SIZE as int) is None <==> (0 < r < 10 && 0 < c < 10),
        ring_spec(r, c, SIZE as int, SIZE as int) matches Some(k) ==> 0 <= k < 40 && ring_cell(k) == (r, c),
{
}

/// Every one of the 40 squares is shown in its ring cell, and squares that
/// follow each other round the board (the last one back to GO included) sit in
/// cells that share a side.
pub proof fn lemma_every_square_has_a_ring_cell(i: int)
    requires
        0 <= i < 40,
    ensures
        0 <= ring_cell(i).0 < SIZE,
        0 <= ring_cell(i).1 < SIZE,
        ring_spec(ring_cell(i).0, ring_cell(i).1, SIZE as int, SIZE as int) == Some(i),
        side_by_side(ring_cell(i), ring_cell((i + 1) % 40)),
{
}

/// The printed digit `d` (0 to 9).
pub open spec fn digit_char(d: int) -> char {
    if d == 0 {
        '0'
    } else if d == 1 {
        '1'
    } else if d == 2 {
        '2'
    } else if d == 3 {
        '3'
    } else if d == 4 {
        '4'
    } else if d == 5 {
        '5'
    } else if d == 6 {
        '6'
    } else if d == 7 {
        '7'
    } else if d == 8 {
        '8'
    } else {
        '9'
    }
}

/// `n` written in decimal, without leading zeros.
pub open spec fn decimal(n: nat) -> Seq<char>
    decreases n,
{
    if n < 10 {
        seq![digit_char(n as int)]
    } else {
        decimal(n / 10).push(digit_char((n % 10) as int))
    }
}

fn digit_str(d: u32) -> (s: &'static str)
    requires
        d < 10,
    ensures
        s@ == seq![digit_char(d as int)],
{
    proof {
        reveal_strlit("0");
        reveal_strlit("1");
        reveal_strlit("2");
        reveal_strlit("3");
        reveal_strlit("4");
        reveal_strlit("5");
        reveal_strlit("6");
        reveal_strlit("7");
        reveal_strlit("8");
        reveal_strlit("9");
    }
    match d {
        0 => "0",
        1 => "1",
        2 => "2",
        3 => "3",
        4 => "4",
        5 => "5",
        6 => "6",
        7 => "7",
        8 => "8",
        _ => "9",
    }
}

/// Append `n` in decimal.
pub fn push_decimal(s: &mut String, n: u32)
    ensures
        final(s)@ == old(s)@ + decimal(n as nat),
    decreases n,
{
    if n >= 10 {
        push_decimal(s, n / 10);
    }
    s.append(digit_str(n % 10));
    proof {
        if n >= 10 {
            assert(old(s)@ + decimal((n / 10) as nat) + seq![digit_char((n % 10) as int)] =~= old(s)@ + decimal(
                n as nat,
            ));
        } else {
            assert(old(s)@ + seq![digit_char((n % 10) as int)] =~= old(s)@ + decimal(n as nat));
        }
    }
}

/// `text` cut to its first `width` characters.
pub open spec fn clipped(text: Seq<char>, width: int) -> Seq<char> {
    if text.len() <= width {
        text
    } else {
        text.take(width)
    }
}

/// The square's name cut to fit inside a cell of `cell_width` columns (the
/// width minus its two borders).
pub fn short_name(space: &Space, cell_width: u16) -> (s: String)
    ensures
        s@ == clipped(space.name_spec(), if cell_width >= 2 {
            cell_width - 2
        } else {
            0
        }),
{
    let max = cell_width.saturating_sub(2) as usize;
    let name = space.name();
    let len = name.unicode_len();
    let keep = if max < len {
        max
    } else {
        len
    };
    let s = String::from_str(name.substring_char(0, keep));
    proof {
        if max >= len {
            assert(name@.subrange(0, keep as int) =~= name@);
        }
    }
    s
}

/// "P<n> <token>" for a deed player `n - 1` holds, otherwise its price
/// like "$200".
pub fn owned_or_price(owner: Option<usize>, price: u32, icon: Option<&str>) -> (s: String)
    requires
        owner matches Some(p) ==> p < u32::MAX,
    ensures
        s@ == match owner {
            Some(p) => "P"@ + decimal((p + 1) as nat) + " "@ + match icon {
                Some(i) => i@,
                None => Seq::<char>::empty(),
            },
            None => "$"@ + decimal(price as nat),
        },
{
    match owner {
        Some(player) => {
            let mut s = String::from_str("P");
            push_decimal(&mut s, (player + 1) as u32);
            s.append(" ");
            match icon {
                Some(i) => s.append(i),
                None => {
                    proof {
                        reveal_strlit("");
                    }
                    s.append("");
                },
            }
            proof {
                if icon is None {
                    assert(s@ =~= "P"@ + decimal((player + 1) as nat) + " "@ + Seq::<char>::empty());
                }
            }
            s
        },
        None => {
            let mut s = String::from_str("$");
            push_decimal(&mut s, price);
            s
        },
    }
}

/// The bottom line of a cell: owner (with their token) if bought, else the
/// price; "-$<amount>" on a tax square; blank elsewhere.
pub fn detail_line(space: &Space, owner_icon: Option<&str>) -> (s: String)
    requires
        space.owner_spec() matches Some(p) ==> p < u32::MAX,
    ensures
        s@ == match space {
            Space::Property(p) => match p.base.owner {
                Some(o) => "P"@ + decimal((o + 1) as nat) + " "@ + match owner_icon {
                    Some(i) => i@,
                    None => Seq::<char>::empty(),
                },
                None => "$"@ + decimal(p.base.price as nat),
            },
            Space::Railroad(o) | Space::Utility(o) => match o.owner {
                Some(w) => "P"@ + decimal((w + 1) as nat) + " "@ + match owner_icon {
                    Some(i) => i@,
                    None => Seq::<char>::empty(),
                },
                None => "$"@ + decimal(o.price as nat),
            },
            Space::Tax(amount) => "-$"@ + decimal(*amount as nat),
            _ => Seq::<char>::empty(),
        },
{
    match space {
        Space::Property(p) => owned_or_price(p.base.owner, p.base.price, owner_icon),
        Space::Railroad(r) => owned_or_price(r.owner, r.price, owner_icon),
        Space::Utility(u) => owned_or_price(u.owner, u.price, owner_icon),
        Space::Tax(amount) => {
            let mut s = String::from_str("-$");
            push_decimal(&mut s, *amount);
            s
        },
        _ => String::new(),
    }
}

} // verus!
