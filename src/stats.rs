use vstd::prelude::*;

verus! {

/// Lengths of the lines of `s`, split at each `'\n'`; a text that ends with
/// a separator has an empty last line, and the empty text has one empty line.
pub open spec fn line_lens(s: Seq<char>) -> Seq<nat>
    decreases s.len(),
{
    if s.len() == 0 {
        seq![0nat]
    } else {
        let p = line_lens(s.drop_last());
        if s.last() == '\n' {
            p.push(0nat)
        } else {
            p.update(p.len() - 1, p.last() + 1)
        }
    }
}

/// Sum of `(len + 1)` over the first `n` lines: the offset at which line `n`
/// starts in the text.
pub open spec fn cumulative(lens: Seq<nat>, n: int) -> nat
    decreases n,
{
    if n <= 0 || lens.len() < n {
        0
    } else {
        cumulative(lens, n - 1) + lens[n - 1] + 1
    }
}

pub proof fn lemma_line_lens_nonempty(s: Seq<char>)
    ensures
        line_lens(s).len() >= 1,
    decreases s.len(),
{
    if s.len() > 0 {
        lemma_line_lens_nonempty(s.drop_last());
    }
}

/// All lines with their separators span the text and one more position.
pub proof fn lemma_line_lens_total(s: Seq<char>)
    ensures
        cumulative(line_lens(s), line_lens(s).len() as int) == s.len() + 1,
    decreases s.len(),
{
    if s.len() > 0 {
        let p = line_lens(s.drop_last());
        lemma_line_lens_nonempty(s.drop_last());
        lemma_line_lens_total(s.drop_last());
        let l = line_lens(s);
        if s.last() == '\n' {
            lemma_cumulative_prefix(p, l, p.len() as int);
            assert(cumulative(l, l.len() as int) == cumulative(l, p.len() as int) + 1);
        } else {
            let k = p.len() - 1;
            lemma_cumulative_prefix(p, l, k);
            assert(cumulative(l, k + 1) == cumulative(l, k) + l[k] + 1);
            assert(cumulative(p, k + 1) == cumulative(p, k) + p[k] + 1);
        }
    } else {
        assert(cumulative(line_lens(s), 0) == 0);
    }
}

/// `cumulative` reads only the lines before `n`.
pub proof fn lemma_cumulative_prefix(a: Seq<nat>, b: Seq<nat>, n: int)
    requires
        0 <= n <= a.len(),
        n <= b.len(),
        forall|i: int| 0 <= i < n ==> a[i] == b[i],
    ensures
        cumulative(a, n) == cumulative(b, n),
    decreases n,
{
    if n > 0 {
        lemma_cumulative_prefix(a, b, n - 1);
    }
}

/// `cumulative` grows with `n`, by at least `lens[i] + 1` past line `i`.
pub proof fn lemma_cumulative_mono(lens: Seq<nat>, i: int, j: int)
    requires
        0 <= i < j <= lens.len(),
    ensures
        cumulative(lens, i) + lens[i] + 1 <= cumulative(lens, j),
    decreases j - i,
{
    if j > i + 1 {
        lemma_cumulative_mono(lens, i, j - 1);
    }
}

/// Each line takes at least its separator's position.
pub proof fn lemma_cumulative_ge(lens: Seq<nat>, n: int)
    requires
        0 <= n <= lens.len(),
    ensures
        cumulative(lens, n) >= n,
    decreases n,
{
    if n > 0 {
        lemma_cumulative_ge(lens, n - 1);
    }
}

/// The offsets locate the lines in the text: every line after the first
/// starts just after a `'\n'`, and no line holds one.
pub proof fn lemma_lines_in_text(s: Seq<char>, row: int)
    requires
        0 <= row < line_lens(s).len(),
    ensures
        row > 0 ==> s[cumulative(line_lens(s), row) - 1] == '\n',
        forall|j: int|
            0 <= j < line_lens(s)[row] ==> #[trigger] s[cumulative(line_lens(s), row) + j] != '\n',
    decreases s.len(),
{
    let l = line_lens(s);
    lemma_line_lens_total(s);
    lemma_cumulative_mono(l, row, l.len() as int);
    if row > 0 {
        lemma_cumulative_ge(l, row);
    }
    if s.len() > 0 {
        let s0 = s.drop_last();
        let l0 = line_lens(s0);
        lemma_line_lens_nonempty(s0);
        lemma_line_lens_total(s0);
        if s.last() == '\n' {
            assert(l =~= l0.push(0nat));
            lemma_cumulative_prefix(l0, l, row);
            if row < l0.len() {
                lemma_cumulative_mono(l0, row, l0.len() as int);
                lemma_lines_in_text(s0, row);
                assert forall|j: int| 0 <= j < l[row] implies #[trigger] s[cumulative(l, row) + j]
                    != '\n' by {
                    assert(s0[cumulative(l0, row) + j] != '\n');
                }
            }
        } else {
            let k = l0.len() - 1;
            assert(l =~= l0.update(k, l0[k] + 1));
            lemma_cumulative_prefix(l0, l, row);
            lemma_cumulative_mono(l0, row, l0.len() as int);
            lemma_lines_in_text(s0, row);
            if row == k {
                assert(cumulative(l0, k + 1) == cumulative(l0, k) + l0[k] + 1);
            }
            assert forall|j: int| 0 <= j < l[row] implies #[trigger] s[cumulative(l, row) + j]
                != '\n' by {
                if j < l0[row] {
                    assert(s0[cumulative(l0, row) + j] != '\n');
                }
            }
        }
    }
}

/// Growing line `row` by one moves every later offset up by one.
pub proof fn lemma_cumulative_shift(lens: Seq<nat>, row: int, n: int)
    requires
        0 <= row < lens.len(),
        0 <= n <= lens.len(),
    ensures
        cumulative(lens.update(row, lens[row] + 1), n) == cumulative(lens, n) + if n > row {
            1nat
        } else {
            0nat
        },
    decreases n,
{
    if n > 0 {
        lemma_cumulative_shift(lens, row, n - 1);
    }
}

/// Per-line length cache of a text, with the offset at which each line ends.
pub struct Stats {
    rows_len: Vec<usize>,
    cummulative_rows_len: Vec<usize>,
}

impl View for Stats {
    type V = Seq<nat>;

    closed spec fn view(&self) -> Seq<nat> {
        self.rows_len@.map_values(|l: usize| l as nat)
    }
}

impl Default for Stats {
    fn default() -> (r: Self)
        ensures
            r.wf(),
            r@ == Seq::<nat>::empty(),
    {
        let r = Stats { rows_len: Vec::new(), cummulative_rows_len: Vec::new() };
        assert(r@ =~= Seq::<nat>::empty());
        r
    }
}

impl Stats {
    /// Both caches have one entry per line, and entry `i` of the offsets is
    /// where line `i + 1` starts.
    pub closed spec fn wf(&self) -> bool {
        &&& self.cummulative_rows_len@.len() == self.rows_len@.len()
        &&& forall|i: int|
            0 <= i < self.rows_len@.len() ==> self.cummulative_rows_len@[i] as nat == cumulative(
                self@,
                i + 1,
            )
        &&& self.total() <= usize::MAX
    }

    /// Offset just past the last line and its separator.
    pub open spec fn total(&self) -> nat {
        cumulative(self@, self@.len() as int)
    }

    /// A well-formed cache fits its counts in `usize`.
    pub proof fn lemma_wf_bounds(&self)
        requires
            self.wf(),
        ensures
            self.total() <= usize::MAX,
            self@.len() <= usize::MAX,
    {
        lemma_cumulative_ge(self@, self@.len() as int);
    }

    /// Appends one line of length `len`.
    fn push_row(&mut self, len: usize)
        requires
            old(self).wf(),
            old(self).total() + len + 1 <= usize::MAX,
        ensures
            final(self).wf(),
            final(self)@ == old(self)@.push(len as nat),
            final(self).total() == old(self).total() + len + 1,
    {
        let ghost before = self@;
        let n = self.rows_len.len();
        let end: usize = if n == 0 {
            0
        } else {
            self.cummulative_rows_len[n - 1]
        };
        self.rows_len.push(len);
        self.cummulative_rows_len.push(end + len + 1);
        proof {
            assert(self@ =~= before.push(len as nat));
            lemma_cumulative_prefix(before, self@, n as int);
            assert forall|i: int| 0 <= i < n implies self.cummulative_rows_len@[i] as nat == cumulative(
                self@,
                i + 1,
            ) by {
                lemma_cumulative_prefix(before, self@, i + 1);
            }
        }
    }

    /// Builds the cache from `buffer`: appends the length of each of its
    /// lines, split at `'\n'`.
    pub fn read(&mut self, buffer: &str)
        requires
            old(self).wf(),
            old(self).total() + buffer@.len() + 1 <= usize::MAX,
        ensures
            final(self).wf(),
            final(self)@ == old(self)@ + line_lens(buffer@),
            final(self).total() == old(self).total() + buffer@.len() + 1,
    {
        broadcast use vstd::string::axiom_spec_iter;

        let ghost base = self@;
        let ghost base_total = self.total();
        let mut cur: usize = 0;
        for c in it: buffer.chars()
            invariant
                self.wf(),
                it.seq() == buffer@,
                base_total + buffer@.len() + 1 <= usize::MAX,
                self.total() + cur == base_total + it.index(),
                self@.push(cur as nat) == base + line_lens(buffer@.take(it.index())),
        {
            let ghost i = it.index();
            let ghost prev = buffer@.take(i);
            assert(buffer@.take(i + 1).drop_last() =~= prev);
            assert(buffer@.take(i + 1).last() == c);
            proof {
                lemma_line_lens_nonempty(prev);
            }
            if c == '\n' {
                self.push_row(cur);
                cur = 0;
                assert(self@.push(cur as nat) =~= base + line_lens(buffer@.take(i + 1)));
            } else {
                let ghost p = line_lens(prev);
                assert(line_lens(buffer@.take(i + 1)) == p.update(p.len() - 1, p.last() + 1));
                assert((base + p).last() == cur);
                assert(p.last() == cur);
                let ghost q = self@.push(cur as nat);
                cur = cur + 1;
                assert(self@.push(cur as nat) =~= q.update(q.len() - 1, cur as nat));
                assert((base + p).update(q.len() - 1, cur as nat) =~= base + p.update(
                    p.len() - 1,
                    p.last() + 1,
                ));
                assert(self@.push(cur as nat) =~= base + line_lens(buffer@.take(i + 1)));
            }
        }
        assert(buffer@.take(buffer@.len() as int) =~= buffer@);
        self.push_row(cur);
    }

    /// Length of the line before `row`, or `0` on the first line.
    pub fn previous_row_len(&self, row: usize) -> (r: usize)
        requires
            row <= self@.len(),
        ensures
            r == if row == 0 {
                0
            } else {
                self@[row - 1]
            },
    {
        if row == 0 {
            0
        } else {
            self.rows_len[row - 1]
        }
    }

    /// Length of line `row`, without its separator.
    pub fn get_row_len(&self, row: usize) -> (r: usize)
        requires
            row < self@.len(),
        ensures
            r == self@[row as int],
    {
        self.rows_len[row]
    }

    /// Offset at which line `row + 1` starts: the sum of `(len + 1)` over
    /// lines `0..=row`.
    pub fn get_cummulative_rows_len(&self, row: usize) -> (r: usize)
        requires
            self.wf(),
            row < self@.len(),
        ensures
            r == cumulative(self@, row + 1),
    {
        self.cummulative_rows_len[row]
    }

    /// Offset at which line `row` starts: the sum of `(len + 1)` over the
    /// lines before it.
    pub fn row_start(&self, row: usize) -> (r: usize)
        requires
            self.wf(),
            row < self@.len(),
        ensures
            r == cumulative(self@, row as int),
    {
        if row == 0 {
            0
        } else {
            self.cummulative_rows_len[row - 1]
        }
    }

    /// Line `row` grew by one character.
    pub fn update_row_len(&mut self, row: usize)
        requires
            old(self).wf(),
            row < old(self)@.len(),
            old(self).total() + 1 <= usize::MAX,
        ensures
            final(self).wf(),
            final(self)@ == old(self)@.update(row as int, old(self)@[row as int] + 1),
            final(self).total() == old(self).total() + 1,
    {
        let ghost before = self@;
        let ghost after = before.update(row as int, before[row as int] + 1);
        let n = self.rows_len.len();
        proof {
            lemma_cumulative_mono(before, row as int, n as int);
        }
        self.rows_len.set(row, self.rows_len[row] + 1);
        assert(self@ =~= after);
        proof {
            lemma_cumulative_shift(before, row as int, n as int);
            assert forall|j: int| 0 <= j < row implies self.cummulative_rows_len@[j] as nat
                == cumulative(after, j + 1) by {
                lemma_cumulative_shift(before, row as int, j + 1);
            }
        }
        let mut i: usize = row;
        while i < n
            invariant
                row <= i <= n,
                n == self.rows_len@.len(),
                n == before.len(),
                row < n,
                after == before.update(row as int, before[row as int] + 1),
                self.cummulative_rows_len@.len() == n,
                self@ == after,
                cumulative(before, n as int) + 1 <= usize::MAX,
                forall|j: int| 0 <= j < i ==> self.cummulative_rows_len@[j] as nat == cumulative(after, j + 1),
                forall|j: int| i <= j < n ==> self.cummulative_rows_len@[j] as nat == cumulative(before, j + 1),
            decreases n - i,
        {
            proof {
                lemma_cumulative_shift(before, row as int, i + 1);
                if i + 1 < n {
                    lemma_cumulative_mono(before, i + 1, n as int);
                }
            }
            let v = self.cummulative_rows_len[i];
            self.cummulative_rows_len.set(i, v + 1);
            i = i + 1;
        }
        proof {
            lemma_cumulative_shift(before, row as int, n as int);
        }
    }

    /// Number of lines.
    pub fn rows_num(&self) -> (r: usize)
        ensures
            r == self@.len(),
    {
        self.rows_len.len()
    }
}

} // verus!
