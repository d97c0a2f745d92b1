use vstd::prelude::*;

verus! {

/// Bounds of the window after following the cursor to `row`: one row down
/// when it reaches the upper bound, one row up when it leaves above the
/// lower bound, else unchanged.
pub open spec fn follow_of(lower: int, upper: int, row: int) -> (int, int) {
    if row == upper {
        (lower + 1, upper + 1)
    } else if row + 1 == lower && lower != 0 {
        (lower - 1, upper - 1)
    } else {
        (lower, upper)
    }
}

/// A window that holds the cursor's row keeps holding it when the cursor
/// moves by at most one row and the window follows.
pub proof fn lemma_follow_keeps_row(lower: int, upper: int, row: int, next: int)
    requires
        0 <= lower <= row < upper,
        0 <= next,
        next - row <= 1,
        row - next <= 1,
    ensures
        follow_of(lower, upper, next).0 <= next < follow_of(lower, upper, next).1,
        follow_of(lower, upper, next).1 - follow_of(lower, upper, next).0 == upper - lower,
{
}

/// The visible rows `lower_bound..upper_bound`.
pub struct Window {
    pub lower_bound: usize,
    pub upper_bound: usize,
}

impl Window {
    /// The bounds as `(lower, upper)`.
    pub open spec fn bounds(&self) -> (int, int) {
        (self.lower_bound as int, self.upper_bound as int)
    }

    /// The rows `0..upper_bound`.
    pub fn new(upper_bound: usize) -> (r: Self)
        ensures
            r.lower_bound == 0,
            r.upper_bound == upper_bound,
    {
        Self { lower_bound: 0, upper_bound }
    }

    /// One row down.
    pub fn move_down(&mut self)
        requires
            old(self).upper_bound < usize::MAX,
            old(self).lower_bound <= old(self).upper_bound,
        ensures
            final(self).lower_bound == old(self).lower_bound + 1,
            final(self).upper_bound == old(self).upper_bound + 1,
    {
        self.upper_bound += 1;
        self.lower_bound += 1;
    }

    /// One row up; a bound already at `0` stays there.
    pub fn move_up(&mut self)
        ensures
            final(self).lower_bound == if old(self).lower_bound == 0 {
                0
            } else {
                old(self).lower_bound - 1
            },
            final(self).upper_bound == if old(self).upper_bound == 0 {
                0
            } else {
                old(self).upper_bound - 1
            },
    {
        if self.upper_bound != 0 {
            self.upper_bound -= 1;
        }
        if self.lower_bound != 0 {
            self.lower_bound -= 1;
        }
    }

    /// Slides the window by one row to follow the cursor to `cursor_row`.
    pub fn follow(&mut self, cursor_row: usize)
        requires
            old(self).lower_bound <= old(self).upper_bound,
            cursor_row < usize::MAX,
        ensures
            final(self).bounds() == follow_of(
                old(self).lower_bound as int,
                old(self).upper_bound as int,
                cursor_row as int,
            ),
    {
        if cursor_row == self.upper_bound {
            self.move_down();
        } else if cursor_row + 1 == self.lower_bound && self.lower_bound != 0 {
            self.move_up();
        }
    }
}

} // verus!
