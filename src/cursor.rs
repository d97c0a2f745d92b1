use crate::stats::Stats;
use vstd::prelude::*;

verus! {

/// A directional input.
#[derive(Clone, Copy, PartialEq, Eq, Structural, Debug)]
pub enum Direction {
    Up,
    Down,
    Left,
    Right,
}

/// `(row, col)` is a caret position over lines of lengths `lens`: the column
/// may sit just past the last character of its line.
pub open spec fn in_bounds(lens: Seq<nat>, row: int, col: int) -> bool {
    0 <= row < lens.len() && 0 <= col <= lens[row]
}

/// `(row, col)` is the end of the last line: the true end of the text.
pub open spec fn is_end(lens: Seq<nat>, row: int, col: int) -> bool {
    row == lens.len() - 1 && col == lens[row]
}

/// Position after `Right`: one character on, wrapping to the start of the
/// next line, and staying put at the end of the text.
pub open spec fn right_of(lens: Seq<nat>, row: int, col: int) -> (int, int) {
    if is_end(lens, row, col) {
        (row, col)
    } else if col == lens[row] {
        (row + 1, 0)
    } else {
        (row, col + 1)
    }
}

/// Position after `Left`: one character back, wrapping to the end of the
/// previous line, and staying put at `(0, 0)`.
pub open spec fn left_of(lens: Seq<nat>, row: int, col: int) -> (int, int) {
    if row == 0 && col == 0 {
        (row, col)
    } else if col == 0 {
        (row - 1, lens[row - 1] as int)
    } else {
        (row, col - 1)
    }
}

/// Position after `Up`: start of the previous line, if there is one.
pub open spec fn up_of(row: int, col: int) -> (int, int) {
    if row > 0 {
        (row - 1, 0)
    } else {
        (row, col)
    }
}

/// Position after `Down`: start of the next line, if there is one.
pub open spec fn down_of(lens: Seq<nat>, row: int, col: int) -> (int, int) {
    if row + 1 < lens.len() {
        (row + 1, 0)
    } else {
        (row, col)
    }
}

/// Position after a move in direction `d`.
pub open spec fn moved(d: Direction, lens: Seq<nat>, row: int, col: int) -> (int, int) {
    match d {
        Direction::Up => up_of(row, col),
        Direction::Down => down_of(lens, row, col),
        Direction::Left => left_of(lens, row, col),
        Direction::Right => right_of(lens, row, col),
    }
}

/// Every move keeps a caret position a caret position.
pub proof fn lemma_moved_in_bounds(d: Direction, lens: Seq<nat>, row: int, col: int)
    requires
        in_bounds(lens, row, col),
    ensures
        in_bounds(lens, moved(d, lens, row, col).0, moved(d, lens, row, col).1),
        moved(d, lens, row, col).0 - row <= 1,
        row - moved(d, lens, row, col).0 <= 1,
{
}

/// `Right` then `Left` from any position but the end of the text comes back
/// to where it started.
pub proof fn lemma_right_then_left(lens: Seq<nat>, row: int, col: int)
    requires
        in_bounds(lens, row, col),
        !is_end(lens, row, col),
    ensures
        left_of(lens, right_of(lens, row, col).0, right_of(lens, row, col).1) == (row, col),
{
}

/// `Up` on the first line, `Down` on the last line, `Left` at `(0, 0)` and
/// `Right` at the end of the text leave the position as it is.
pub proof fn lemma_edges_fixed(lens: Seq<nat>, col: int)
    requires
        lens.len() > 0,
    ensures
        moved(Direction::Up, lens, 0, col) == (0int, col),
        moved(Direction::Down, lens, lens.len() - 1, col) == (lens.len() - 1, col),
        moved(Direction::Left, lens, 0, 0) == (0int, 0int),
        moved(Direction::Right, lens, lens.len() - 1, lens.last() as int) == (
            lens.len() - 1,
            lens.last() as int,
        ),
{
}

/// A caret position, with the width it wraps at when no line lengths are at
/// hand.
pub struct Cursor {
    pub row: usize,
    pub col: usize,
    pub width: usize,
}

impl Cursor {
    /// The caret as `(row, col)`.
    pub open spec fn pos(&self) -> (int, int) {
        (self.row as int, self.col as int)
    }

    /// A cursor at `(0, 0)`.
    pub fn new(width: usize) -> (r: Self)
        ensures
            r.row == 0,
            r.col == 0,
            r.width == width,
    {
        Self { row: 0, col: 0, width }
    }

    /// Back to `(0, 0)`.
    pub fn reset(&mut self)
        ensures
            final(self).row == 0,
            final(self).col == 0,
            final(self).width == old(self).width,
    {
        *self = Self { row: 0, col: 0, width: self.width };
    }

    /// The caret as `(row, col)`.
    pub fn tuple(&self) -> (r: (usize, usize))
        ensures
            r == (self.row, self.col),
    {
        (self.row, self.col)
    }

    /// Start of the next row.
    pub fn advance_row(&mut self)
        requires
            old(self).row < usize::MAX,
        ensures
            final(self).row == old(self).row + 1,
            final(self).col == 0,
            final(self).width == old(self).width,
    {
        self.row += 1;
        self.col = 0;
    }

    /// Moves one step in direction `arrow` over the lines of `stats`.
    pub fn moveit(&mut self, arrow: &Direction, stats: &Stats)
        requires
            stats.wf(),
            in_bounds(stats@, old(self).row as int, old(self).col as int),
        ensures
            final(self).pos() == moved(*arrow, stats@, old(self).row as int, old(self).col as int),
            final(self).width == old(self).width,
    {
        match arrow {
            Direction::Up => self.up(),
            Direction::Down => self.down(stats),
            Direction::Right => self.advance(Some(stats)),
            Direction::Left => self.back(Some(stats)),
        }
    }

    /// One character on. Over the lines of `stats`: wraps at the end of a
    /// line and stays put at the end of the text. Without them: wraps once
    /// the column reaches the width.
    pub fn advance(&mut self, stats: Option<&Stats>)
        requires
            match stats {
                Some(s) => s.wf() && in_bounds(s@, old(self).row as int, old(self).col as int),
                None => old(self).col <= old(self).width && old(self).row < usize::MAX,
            },
        ensures
            final(self).pos() == match stats {
                Some(s) => right_of(s@, old(self).row as int, old(self).col as int),
                None => if old(self).col == old(self).width {
                    (old(self).row + 1, 0)
                } else {
                    (old(self).row as int, old(self).col + 1)
                },
            },
            final(self).width == old(self).width,
    {
        let bound = match stats {
            Some(stats) => {
                if self.last_spot(stats) {
                    return;
                }
                stats.get_row_len(self.row)
            },
            None => self.width,
        };
        if self.col == bound {
            self.col = 0;
            self.row += 1;
        } else {
            self.col += 1;
        }
    }

    /// One character back. Over the lines of `stats`: wraps to the end of
    /// the previous line and stays put at `(0, 0)`. Without them: wraps to
    /// the width.
    fn back(&mut self, stats: Option<&Stats>)
        requires
            match stats {
                Some(s) => s.wf() && in_bounds(s@, old(self).row as int, old(self).col as int),
                None => true,
            },
        ensures
            final(self).pos() == match stats {
                Some(s) => left_of(s@, old(self).row as int, old(self).col as int),
                None => if old(self).row == 0 && old(self).col == 0 {
                    (0, 0)
                } else if old(self).col == 0 {
                    (old(self).row - 1, old(self).width as int)
                } else {
                    (old(self).row as int, old(self).col - 1)
                },
            },
            final(self).width == old(self).width,
    {
        let bound = match stats {
            Some(stats) => stats.previous_row_len(self.row),
            None => self.width,
        };
        if self.first_spot() {
            return;
        }
        if self.col == 0 {
            self.col = bound;
            self.row -= 1;
        } else {
            self.col -= 1;
        }
    }

    fn up(&mut self)
        ensures
            final(self).pos() == up_of(old(self).row as int, old(self).col as int),
            final(self).width == old(self).width,
    {
        if self.row != 0 {
            self.col = 0;
            self.row -= 1;
        }
    }

    fn down(&mut self, stats: &Stats)
        requires
            in_bounds(stats@, old(self).row as int, old(self).col as int),
        ensures
            final(self).pos() == down_of(stats@, old(self).row as int, old(self).col as int),
            final(self).width == old(self).width,
    {
        if !self.last_row(stats) {
            self.col = 0;
            self.row += 1;
        }
    }

    fn first_spot(&self) -> (r: bool)
        ensures
            r == (self.row == 0 && self.col == 0),
    {
        self.row == 0 && self.col == 0
    }

    fn last_spot(&self, stats: &Stats) -> (r: bool)
        requires
            in_bounds(stats@, self.row as int, self.col as int),
        ensures
            r == is_end(stats@, self.row as int, self.col as int),
            stats@.len() <= usize::MAX,
    {
        self.last_row(stats) && self.last_col(stats)
    }

    fn last_row(&self, stats: &Stats) -> (r: bool)
        requires
            stats@.len() > 0,
        ensures
            r == (self.row == stats@.len() - 1),
            stats@.len() <= usize::MAX,
    {
        self.row == stats.rows_num() - 1
    }

    fn last_col(&self, stats: &Stats) -> (r: bool)
        requires
            self.row < stats@.len(),
        ensures
            r == (self.col == stats@[self.row as int]),
    {
        self.col == stats.get_row_len(self.row)
    }
}

} // verus!
