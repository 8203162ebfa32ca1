//! Dice state: an animation clip played frame by frame, the roll that settles
//! on two random dice once the clip ends, and the pip layout of a die face.
//!
//! Time is counted in nanoseconds; an animation is known here only by how many
//! frames it has.

use vstd::prelude::*;

use crate::random::random_range_inclusive;

verus! {

/// How long each GIF frame is shown, in nanoseconds (40 ms).
pub const FRAME_TIME: u64 = 40_000_000;

/// Plays an animation once, frame by frame.
#[derive(Debug, Clone, Copy)]
pub struct Clip {
    pub frame: usize,
    /// Time accumulated towards the next frame, in nanoseconds.
    pub elapsed: u64,
}

/// The frame and leftover time after `total` nanoseconds accumulate on a clip
/// that stands at `frame` of `frames`: one frame per whole [`FRAME_TIME`], stopping
/// at the last frame (where the time that moved it no further is still spent).
pub open spec fn clip_after(frame: int, frames: int, total: int) -> (int, int) {
    let room = frames - 1 - frame;
    if total / (FRAME_TIME as int) <= room {
        (frame + total / (FRAME_TIME as int), total % (FRAME_TIME as int))
    } else {
        (frames - 1, total - (room + 1) * (FRAME_TIME as int))
    }
}

impl Clip {
    pub open spec fn finished_spec(self, frames: usize) -> bool {
        self.frame + 1 >= frames
    }

    pub fn new() -> (c: Self)
        ensures
            c.frame == 0,
            c.elapsed == 0,
    {
        Clip { frame: 0, elapsed: 0 }
    }

    /// True once the last of `frames` frames is showing.
    pub fn finished(&self, frames: usize) -> (b: bool)
        requires
            self.frame < usize::MAX,
        ensures
            b == self.finished_spec(frames),
    {
        self.frame + 1 >= frames
    }

    /// Advance by `delta` nanoseconds through an animation of `frames` frames.
    pub fn tick(&mut self, frames: usize, delta: u64)
        requires
            old(self).frame < usize::MAX,
            old(self).elapsed + delta <= u64::MAX,
        ensures
            old(self).finished_spec(frames) ==> *final(self) == *old(self),
            !old(self).finished_spec(frames) ==> ({
                let (f, e) = clip_after(old(self).frame as int, frames as int, old(self).elapsed + delta);
                final(self).frame == f && final(self).elapsed == e
            }),
            final(self).frame < usize::MAX,
            final(self).frame >= old(self).frame,
            !old(self).finished_spec(frames) ==> final(self).frame < frames,
    {
        if self.finished(frames) {
            return;
        }
        let ghost frame0 = self.frame as int;
        let ghost total = self.elapsed + delta;
        let ghost ft = FRAME_TIME as int;
        self.elapsed = self.elapsed + delta;
        let mut stopped = false;
        while self.elapsed >= FRAME_TIME
            invariant_except_break
                frame0 <= self.frame < frames,
                total == self.elapsed + (self.frame - frame0) * ft,
                total == old(self).elapsed + delta,
                ft == FRAME_TIME,
                frame0 == old(self).frame,
                frame0 + 1 < frames,
                !stopped,
            ensures
                frame0 <= self.frame < frames,
                !stopped ==> total == self.elapsed + (self.frame - frame0) * ft && self.elapsed < ft,
                stopped ==> self.frame == frames - 1 && total == self.elapsed + (self.frame - frame0 + 1) * ft,
            decreases self.elapsed,
        {
            self.elapsed = self.elapsed - FRAME_TIME;
            if self.frame + 1 < frames {
                self.frame = self.frame + 1;
            } else {
                stopped = true;
                break;
            }
        }
        proof {
            let room = frames - 1 - frame0;
            let k = self.frame - frame0;
            if !stopped {
                vstd::arithmetic::div_mod::lemma_fundamental_div_mod_converse(
                    total, ft, k, self.elapsed as int);
            } else {
                assert(k == room);
                assert(total >= (room + 1) * ft);
                vstd::arithmetic::div_mod::lemma_div_is_ordered(
                    (room + 1) * ft, total, ft);
                vstd::arithmetic::div_mod::lemma_div_multiples_vanish(room + 1, ft);
            }
        }
    }
}

/// A dice roll: plays the GIF, then settles on two random values.
#[derive(Debug, Clone, Copy)]
pub struct Roll {
    pub clip: Clip,
    pub result: Option<(u8, u8)>,
}

/// Both dice show a face from 1 to 6.
pub open spec fn valid_dice(r: Option<(u8, u8)>) -> bool {
    r matches Some((a, b)) ==> 1 <= a <= 6 && 1 <= b <= 6
}

impl Roll {
    pub fn new() -> (r: Self)
        ensures
            r.clip == Clip::new_spec(),
            r.result is None,
    {
        Roll { clip: Clip::new(), result: None }
    }

    /// True while the GIF is still playing (no dice rolled yet).
    pub fn animating(&self) -> (b: bool)
        ensures
            b == self.result is None,
    {
        self.result.is_none()
    }

    /// The rolled dice, once the animation has finished.
    pub fn result(&self) -> (r: Option<(u8, u8)>)
        ensures
            r == self.result,
    {
        self.result
    }

    /// Advance the GIF by `delta` nanoseconds; roll the dice once it finishes.
    pub fn tick(&mut self, frames: usize, delta: u64)
        requires
            old(self).clip.frame < usize::MAX,
            old(self).clip.elapsed + delta <= u64::MAX,
        ensures
            old(self).result is Some ==> *final(self) == *old(self),
            old(self).result is None ==> {
                &&& final(self).clip.finished_spec(frames) ==> final(self).result is Some
                &&& !final(self).clip.finished_spec(frames) ==> final(self).result is None
                &&& !old(self).clip.finished_spec(frames) ==> ({
                    let (f, e) = clip_after(
                        old(self).clip.frame as int,
                        frames as int,
                        old(self).clip.elapsed + delta,
                    );
                    final(self).clip.frame == f && final(self).clip.elapsed == e
                })
                &&& old(self).clip.finished_spec(frames) ==> final(self).clip == old(self).clip
            },
            valid_dice(old(self).result) ==> valid_dice(final(self).result),
            final(self).clip.frame < usize::MAX,
    {
        if self.result.is_some() {
            return;
        }
        self.clip.tick(frames, delta);
        if self.clip.finished(frames) {
            let a = random_range_inclusive(1, 6) as u8;
            let b = random_range_inclusive(1, 6) as u8;
            self.result = Some((a, b));
        }
    }
}

impl Clip {
    pub open spec fn new_spec() -> Clip {
        Clip { frame: 0, elapsed: 0 }
    }
}

/// Whether the pip at row `r`, column `c` of a 3x3 grid is filled on a die
/// showing `value` (anything past 5 draws the six).
pub open spec fn pip_on(value: u8, r: int, c: int) -> bool {
    let corner_main = (r == 0 && c == 0) || (r == 2 && c == 2);
    let corner_anti = (r == 0 && c == 2) || (r == 2 && c == 0);
    let middle = r == 1 && c == 1;
    let sides = (r == 1 && c == 0) || (r == 1 && c == 2);
    if value == 1 {
        middle
    } else if value == 2 {
        corner_main
    } else if value == 3 {
        corner_main || middle
    } else if value == 4 {
        corner_main || corner_anti
    } else if value == 5 {
        corner_main || corner_anti || middle
    } else {
        corner_main || corner_anti || sides
    }
}

/// Pip layout for a die value on a 3x3 grid (true = filled).
pub fn pips(value: u8) -> (grid: [[bool; 3]; 3])
    ensures
        forall|r: int, c: int| 0 <= r < 3 && 0 <= c < 3 ==> #[trigger] grid[r][c] == pip_on(value, r, c),
{
    match value {
        1 => [[false, false, false], [false, true, false], [false, false, false]],
        2 => [[true, false, false], [false, false, false], [false, false, true]],
        3 => [[true, false, false], [false, true, false], [false, false, true]],
        4 => [[true, false, true], [false, false, false], [true, false, true]],
        5 => [[true, false, true], [false, true, false], [true, false, true]],
        _ => [[true, false, true], [true, false, true], [true, false, true]],
    }
}

/// One pip cell as drawn: a dot when filled, a blank otherwise.
pub open spec fn pip_cell(on: bool) -> Seq<char> {
    if on {
        "●"@
    } else {
        " "@
    }
}

/// One row of a die face: its three cells separated by single spaces.
pub open spec fn die_row_spec(value: u8, row: int) -> Seq<char> {
    pip_cell(pip_on(value, row, 0)) + " "@ + pip_cell(pip_on(value, row, 1)) + " "@ + pip_cell(
        pip_on(value, row, 2),
    )
}

fn cell_str(on: bool) -> (s: &'static str)
    ensures
        s@ == pip_cell(on),
{
    if on {
        "●"
    } else {
        " "
    }
}

/// One row (0..3) of a die face as pips spaced out, e.g. "●   ●".
pub fn die_row(value: u8, row: u16) -> (s: String)
    requires
        row < 3,
    ensures
        s@ == die_row_spec(value, row as int),
{
    let grid = pips(value);
    let cells = grid[row as usize];
    let mut s = String::from_str(cell_str(cells[0]));
    s.append(" ");
    s.append(cell_str(cells[1]));
    s.append(" ");
    s.append(cell_str(cells[2]));
    s
}

/// A die drawn as a 5-line bordered cube.
pub fn die_box(value: u8) -> (lines: Vec<String>)
    ensures
        lines.len() == 5,
        lines[0]@ == "┌─────┐"@,
        forall|r: int| 0 <= r < 3 ==> #[trigger] lines[r + 1]@ == "│"@ + die_row_spec(value, r) + "│"@,
        lines[4]@ == "└─────┘"@,
{
    let mut lines: Vec<String> = Vec::new();
    lines.push(String::from_str("┌─────┐"));
    let mut r: u16 = 0;
    while r < 3
        invariant
            r <= 3,
            lines.len() == r + 1,
            lines[0]@ == "┌─────┐"@,
            forall|k: int| 0 <= k < r ==> #[trigger] lines[k + 1]@ == "│"@ + die_row_spec(value, k) + "│"@,
        decreases 3 - r,
    {
        let mut line = String::from_str("│");
        line.append(die_row(value, r).as_str());
        line.append("│");
        lines.push(line);
        r = r + 1;
    }
    lines.push(String::from_str("└─────┘"));
    lines
}

} // verus!
