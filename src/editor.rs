use crate::cursor::{Cursor, Direction, in_bounds, moved};
use crate::stats::{
    Stats,
    cumulative,
    line_lens,
    lemma_cumulative_mono,
    lemma_cumulative_prefix,
    lemma_line_lens_nonempty,
    lemma_line_lens_total,
};
use crate::window::{Window, follow_of};
use vstd::prelude::*;

verus! {

/// Line `row` ends no later than the text: with its separator it reaches at
/// most one position past the end.
pub proof fn lemma_row_within_text(s: Seq<char>, row: int)
    requires
        0 <= row < line_lens(s).len(),
    ensures
        cumulative(line_lens(s), row) + line_lens(s)[row] <= s.len(),
        row + 1 < line_lens(s).len() ==> cumulative(line_lens(s), row) + line_lens(s)[row] < s.len(),
{
    let l = line_lens(s);
    lemma_line_lens_total(s);
    lemma_cumulative_mono(l, row, l.len() as int);
    if row + 1 < l.len() {
        lemma_cumulative_mono(l, row + 1, l.len() as int);
    }
}

/// Inserting a character other than a separator at `(row, col)` makes line
/// `row` one longer and leaves every other line as it is.
pub proof fn lemma_insert_line_lens(s: Seq<char>, row: int, col: int, c: char)
    requires
        c != '\n',
        in_bounds(line_lens(s), row, col),
    ensures
        line_lens(s.insert(cumulative(line_lens(s), row) + col, c)) == line_lens(s).update(
            row,
            line_lens(s)[row] + 1,
        ),
    decreases s.len(),
{
    let l = line_lens(s);
    let p = cumulative(l, row) + col;
    lemma_row_within_text(s, row);
    lemma_line_lens_total(s);
    let t = s.insert(p, c);
    assert(t.len() > 0);
    if p == s.len() {
        assert(row == l.len() - 1);
        assert(t.drop_last() =~= s);
        assert(t.last() == c);
        assert(line_lens(t) =~= l.update(row, l[row] + 1));
    } else {
        let s0 = s.drop_last();
        let l0 = line_lens(s0);
        lemma_line_lens_nonempty(s0);
        lemma_line_lens_total(s0);
        let t0 = s0.insert(p, c);
        assert(t.drop_last() =~= t0);
        assert(t.last() == s.last());
        if s.last() == '\n' {
            assert(l =~= l0.push(0nat));
            if row == l0.len() {
                assert(cumulative(l, row) == cumulative(l0, row)) by {
                    lemma_cumulative_prefix(l0, l, row);
                }
                assert(false);
            }
            lemma_cumulative_prefix(l0, l, row);
            lemma_insert_line_lens(s0, row, col, c);
            lemma_line_lens_nonempty(t0);
            assert(line_lens(t) =~= l.update(row, l[row] + 1));
        } else {
            let k = l0.len() - 1;
            assert(l =~= l0.update(k, l0[k] + 1));
            lemma_cumulative_prefix(l0, l, row);
            lemma_insert_line_lens(s0, row, col, c);
            lemma_line_lens_nonempty(t0);
            assert(line_lens(t) =~= l.update(row, l[row] + 1));
        }
    }
}

/// The editor's state seen as plain values.
pub struct EditorModel {
    pub text: Seq<char>,
    pub lens: Seq<nat>,
    pub row: int,
    pub col: int,
    pub lower: int,
    pub upper: int,
}

impl EditorModel {
    /// The line cache describes the text, the caret is on it, and its row is
    /// inside the window.
    pub open spec fn consistent(self) -> bool {
        &&& self.lens == line_lens(self.text)
        &&& in_bounds(self.lens, self.row, self.col)
        &&& 0 <= self.lower <= self.row < self.upper
    }

    /// Offset in the text of the caret.
    pub open spec fn offset(self) -> int {
        cumulative(self.lens, self.row) + self.col
    }

    /// State after moving the caret in direction `d`, the window following.
    pub open spec fn after_move(self, d: Direction) -> EditorModel {
        let (row, col) = moved(d, self.lens, self.row, self.col);
        let (lower, upper) = follow_of(self.lower, self.upper, row);
        EditorModel { text: self.text, lens: self.lens, row, col, lower, upper }
    }

    /// State after inserting `c` at the caret.
    pub open spec fn after_insert(self, c: char) -> EditorModel {
        EditorModel {
            text: self.text.insert(self.offset(), c),
            lens: self.lens.update(self.row, self.lens[self.row] + 1),
            row: self.row,
            col: self.col + 1,
            lower: self.lower,
            upper: self.upper,
        }
    }

    /// Whether `c` is inserted when typed: separators are not, nor anything
    /// once the text is as long as offsets can count.
    pub open spec fn accepts(self, c: char) -> bool {
        c != '\n' && self.text.len() + 2 <= usize::MAX
    }

    /// State after handling event `e`.
    pub open spec fn after_event(self, e: Event) -> EditorModel {
        match e {
            Event::Quit => self,
            Event::Move(d) => self.after_move(d),
            Event::Insert(c) => if self.accepts(c) {
                self.after_insert(c)
            } else {
                self
            },
        }
    }

    /// State after handling each of `es` in turn.
    pub open spec fn after_events(self, es: Seq<Event>) -> EditorModel
        decreases es.len(),
    {
        if es.len() == 0 {
            self
        } else {
            self.after_event(es[0]).after_events(es.drop_first())
        }
    }
}

/// Handling one event keeps the state consistent.
pub proof fn lemma_event_keeps_consistent(m: EditorModel, e: Event)
    requires
        m.consistent(),
    ensures
        m.after_event(e).consistent(),
{
    match e {
        Event::Quit => {},
        Event::Move(d) => {
            crate::cursor::lemma_moved_in_bounds(d, m.lens, m.row, m.col);
            let next = moved(d, m.lens, m.row, m.col).0;
            crate::window::lemma_follow_keeps_row(m.lower, m.upper, m.row, next);
        },
        Event::Insert(c) => {
            if m.accepts(c) {
                lemma_insert_line_lens(m.text, m.row, m.col, c);
            }
        },
    }
}

/// Whatever events come, the line cache keeps describing the text, the caret
/// stays on it, and the caret's row stays inside the window.
pub proof fn lemma_events_keep_cursor_visible(m: EditorModel, es: Seq<Event>)
    requires
        m.consistent(),
    ensures
        m.after_events(es).consistent(),
        m.after_events(es).lower <= m.after_events(es).row < m.after_events(es).upper,
    decreases es.len(),
{
    if es.len() > 0 {
        lemma_event_keeps_consistent(m, es[0]);
        lemma_events_keep_cursor_visible(m.after_event(es[0]), es.drop_first());
    }
}

/// Cells of line `r`, drawn on screen row `r - lower`.
pub open spec fn row_cells(m: EditorModel, r: int) -> Seq<(usize, usize, char)> {
    Seq::new(
        m.lens[r],
        |j: int| ((r - m.lower) as usize, j as usize, m.text[cumulative(m.lens, r) + j]),
    )
}

/// Cells of lines `lower..r`, line after line.
pub open spec fn cells_upto(m: EditorModel, r: int) -> Seq<(usize, usize, char)>
    decreases r - m.lower,
{
    if r <= m.lower {
        Seq::empty()
    } else {
        cells_upto(m, r - 1) + row_cells(m, r - 1)
    }
}

/// A full redraw: every character of the lines in the window, as
/// `(screen row, column, character)`.
pub open spec fn frame_of(m: EditorModel) -> Seq<(usize, usize, char)> {
    cells_upto(m, if m.upper < m.lens.len() { m.upper } else { m.lens.len() as int })
}

/// An input to the editor.
#[derive(Clone, Copy, PartialEq, Eq, Structural, Debug)]
pub enum Event {
    Quit,
    Move(Direction),
    Insert(char),
}

impl Event {
    /// The event of a typed character: `q` quits, any other is inserted.
    pub fn from_char(c: char) -> (r: Event)
        ensures
            r == (if c == 'q' {
                Event::Quit
            } else {
                Event::Insert(c)
            }),
    {
        if c == 'q' {
            Event::Quit
        } else {
            Event::Insert(c)
        }
    }
}

/// The text being edited, its line cache, the caret and the visible window.
pub struct Editor {
    buffer: Vec<char>,
    stats: Stats,
    cursor: Cursor,
    window: Window,
}

impl View for Editor {
    type V = EditorModel;

    closed spec fn view(&self) -> EditorModel {
        EditorModel {
            text: self.buffer@,
            lens: self.stats@,
            row: self.cursor.row as int,
            col: self.cursor.col as int,
            lower: self.window.lower_bound as int,
            upper: self.window.upper_bound as int,
        }
    }
}

impl Editor {
    /// The line cache is well formed and the state is consistent.
    pub closed spec fn wf(&self) -> bool {
        &&& self.stats.wf()
        &&& self@.consistent()
    }

    /// Opens `text` with the caret at `(0, 0)` and the first `height` rows
    /// visible.
    pub fn new(text: &str, width: usize, height: usize) -> (r: Self)
        requires
            height > 0,
            text@.len() + 2 <= usize::MAX,
        ensures
            r.wf(),
            r@.consistent(),
            r@ == (EditorModel {
                text: text@,
                lens: line_lens(text@),
                row: 0,
                col: 0,
                lower: 0,
                upper: height as int,
            }),
    {
        broadcast use vstd::string::axiom_spec_iter;

        let mut buffer: Vec<char> = Vec::new();
        for c in it: text.chars()
            invariant
                it.seq() == text@,
                buffer@ == text@.take(it.index()),
        {
            buffer.push(c);
            assert(buffer@ =~= text@.take(it.index() + 1));
        }
        assert(buffer@ =~= text@);
        let mut stats = Stats::default();
        stats.read(text);
        assert(stats@ =~= line_lens(text@));
        proof {
            lemma_line_lens_nonempty(text@);
        }
        Editor { buffer, stats, cursor: Cursor::new(width), window: Window::new(height) }
    }

    /// Offset in the text of the caret, from the line offsets.
    fn cursor_to_pos(&self) -> (r: usize)
        requires
            self.wf(),
        ensures
            r == self@.offset(),
            r <= self@.text.len(),
    {
        proof {
            self.stats.lemma_wf_bounds();
            lemma_line_lens_total(self.buffer@);
            lemma_row_within_text(self.buffer@, self.cursor.row as int);
        }
        self.stats.row_start(self.cursor.row) + self.cursor.col
    }

    fn get_current_row_len(&self) -> (r: usize)
        requires
            self.wf(),
        ensures
            r == self@.lens[self@.row],
    {
        self.stats.get_row_len(self.cursor.row)
    }

    fn update_current_row_len(&mut self)
        requires
            old(self).stats.wf(),
            old(self).cursor.row < old(self).stats@.len(),
            old(self).stats.total() + 1 <= usize::MAX,
        ensures
            final(self).stats.wf(),
            final(self).stats@ == old(self).stats@.update(
                old(self).cursor.row as int,
                old(self).stats@[old(self).cursor.row as int] + 1,
            ),
            final(self).stats.total() == old(self).stats.total() + 1,
            final(self).buffer == old(self).buffer,
            final(self).cursor == old(self).cursor,
            final(self).window == old(self).window,
    {
        self.stats.update_row_len(self.cursor.row);
    }

    /// Inserts `character` at the caret; its line grows by one and the caret
    /// ends just after the new character.
    pub fn insert_character(&mut self, character: char)
        requires
            old(self).wf(),
            character != '\n',
            old(self)@.text.len() + 2 <= usize::MAX,
        ensures
            final(self).wf(),
            final(self)@.consistent(),
            final(self)@ == old(self)@.after_insert(character),
    {
        let ghost old_text = self.buffer@;
        let pos = self.cursor_to_pos();
        self.buffer.insert(pos, character);
        proof {
            lemma_line_lens_total(old_text);
            lemma_insert_line_lens(
                old_text,
                self.cursor.row as int,
                self.cursor.col as int,
                character,
            );
        }
        self.update_current_row_len();
        self.cursor.moveit(&Direction::Right, &self.stats);
        self.window.follow(self.cursor.row);
    }

    /// Moves the caret one step in direction `arrow`, then slides the window
    /// to follow it.
    pub fn move_cursor(&mut self, arrow: Direction)
        requires
            old(self).wf(),
        ensures
            final(self).wf(),
            final(self)@.consistent(),
            final(self)@ == old(self)@.after_move(arrow),
    {
        proof {
            self.stats.lemma_wf_bounds();
            crate::cursor::lemma_moved_in_bounds(
                arrow,
                self.stats@,
                self.cursor.row as int,
                self.cursor.col as int,
            );
        }
        self.cursor.moveit(&arrow, &self.stats);
        proof {
            crate::window::lemma_follow_keeps_row(
                old(self)@.lower,
                old(self)@.upper,
                old(self)@.row,
                self.cursor.row as int,
            );
        }
        self.window.follow(self.cursor.row);
    }

    /// Handles one event; returns `false` on `Quit`.
    pub fn handle(&mut self, event: Event) -> (r: bool)
        requires
            old(self).wf(),
        ensures
            final(self).wf(),
            final(self)@.consistent(),
            final(self)@ == old(self)@.after_event(event),
            r == !(event is Quit),
    {
        match event {
            Event::Quit => false,
            Event::Move(d) => {
                self.move_cursor(d);
                true
            },
            Event::Insert(c) => {
                proof {
                    self.stats.lemma_wf_bounds();
                    lemma_line_lens_total(self.buffer@);
                }
                if c != '\n' && self.buffer.len() <= usize::MAX - 2 {
                    self.insert_character(c);
                }
                true
            },
        }
    }

    /// Where the caret goes on screen: its row within the window, its column.
    pub fn caret(&self) -> (r: (usize, usize))
        requires
            self.wf(),
        ensures
            r.0 == self@.row - self@.lower,
            r.1 == self@.col,
    {
        (self.cursor.row - self.window.lower_bound, self.cursor.col)
    }

    /// A full redraw of the window.
    pub fn frame(&self) -> (r: Vec<(usize, usize, char)>)
        requires
            self.wf(),
        ensures
            r@ == frame_of(self@),
    {
        let ghost m = self@;
        let rows = self.stats.rows_num();
        let lower = self.window.lower_bound;
        let end = if self.window.upper_bound < rows {
            self.window.upper_bound
        } else {
            rows
        };
        let mut out: Vec<(usize, usize, char)> = Vec::new();
        proof {
            self.stats.lemma_wf_bounds();
            lemma_line_lens_total(m.text);
        }
        let mut r: usize = lower;
        while r < end
            invariant
                self.wf(),
                m == self@,
                lower == m.lower,
                end <= m.lens.len(),
                m.text.len() < usize::MAX,
                lower <= r <= end,
                out@ == cells_upto(m, r as int),
            decreases end - r,
        {
            let start = self.stats.row_start(r);
            let len = self.stats.get_row_len(r);
            proof {
                lemma_row_within_text(m.text, r as int);
            }
            let mut j: usize = 0;
            while j < len
                invariant
                    self.wf(),
                    m == self@,
                    lower == m.lower,
                    lower <= r < end <= m.lens.len(),
                    start == cumulative(m.lens, r as int),
                    len == m.lens[r as int],
                    start + len <= m.text.len() < usize::MAX,
                    j <= len,
                    out@ == cells_upto(m, r as int) + row_cells(m, r as int).take(j as int),
                decreases len - j,
            {
                out.push((r - lower, j, self.buffer[start + j]));
                assert(out@ =~= cells_upto(m, r as int) + row_cells(m, r as int).take(j + 1));
                j = j + 1;
            }
            assert(row_cells(m, r as int).take(len as int) =~= row_cells(m, r as int));
            r = r + 1;
        }
        out
    }

    /// The text as it stands.
    pub fn text(&self) -> (r: Vec<char>)
        ensures
            r@ == self@.text,
    {
        self.buffer.clone()
    }

    /// The line cache.
    pub fn stats(&self) -> (r: &Stats)
        ensures
            r@ == self@.lens,
    {
        &self.stats
    }

    /// The caret's `(row, col)`.
    pub fn cursor(&self) -> (r: (usize, usize))
        ensures
            r.0 == self@.row,
            r.1 == self@.col,
    {
        self.cursor.tuple()
    }

    /// The visible rows, `(lower_bound, upper_bound)`.
    pub fn window(&self) -> (r: (usize, usize))
        ensures
            r.0 == self@.lower,
            r.1 == self@.upper,
    {
        (self.window.lower_bound, self.window.upper_bound)
    }
}

} // verus!
