//! A grid of characters that grows downwards as rows are touched.
use crate::text::chars::string_of;
use crate::text::lines::join_seq;
use vstd::prelude::*;

verus! {

/// Rows of `columns` characters each.
#[derive(Debug, Clone, Default)]
pub struct TextFrame {
    buffers: Vec<Vec<char>>,
    columns: usize,
}

/// A row of blanks.
pub open spec fn blank_row(columns: nat) -> Seq<char> {
    Seq::new(columns, |i: int| ' ')
}

/// The rows with blank rows added so that row `row` exists.
pub open spec fn grown(rows: Seq<Seq<char>>, row: nat, columns: nat) -> Seq<Seq<char>> {
    if row < rows.len() {
        rows
    } else {
        rows + Seq::new((row + 1 - rows.len()) as nat, |i: int| blank_row(columns))
    }
}

/// The character at row `r`, column `c`: a blank where there is none.
pub open spec fn cell(f: Seq<Seq<char>>, r: int, c: int) -> char {
    if 0 <= r < f.len() && 0 <= c < f[r].len() {
        f[r][c]
    } else {
        ' '
    }
}

/// Every row is `cols` characters wide.
pub open spec fn rows_wide(f: Seq<Seq<char>>, cols: nat) -> bool {
    forall|i: int| 0 <= i < f.len() ==> #[trigger] f[i].len() == cols
}

/// Growing a frame adds only blanks.
pub proof fn lemma_grown_cell(f: Seq<Seq<char>>, row: nat, cols: nat, r: int, c: int)
    requires
        rows_wide(f, cols),
        0 <= c < cols,
    ensures
        cell(grown(f, row, cols), r, c) == cell(f, r, c),
        rows_wide(grown(f, row, cols), cols),
        (row as int) < grown(f, row, cols).len(),
{
    let g = grown(f, row, cols);
    if row >= f.len() {
        assert forall|i: int| 0 <= i < g.len() implies #[trigger] g[i].len() == cols by {
            if i >= f.len() {
                assert(g[i] == blank_row(cols));
            }
        }
        if 0 <= r < g.len() && r >= f.len() {
            assert(g[r] == blank_row(cols));
        }
    }
}

/// Setting one character changes no other cell.
pub proof fn lemma_put_cell(
    f: Seq<Seq<char>>,
    row: nat,
    col: nat,
    x: char,
    cols: nat,
    r: int,
    c: int,
)
    requires
        rows_wide(f, cols),
        col < cols,
        0 <= c < cols,
        !(r == row && c == col),
    ensures
        cell(
            grown(f, row, cols).update(row as int, grown(f, row, cols)[row as int].update(col as int, x)),
            r,
            c,
        ) == cell(f, r, c),
{
    lemma_grown_cell(f, row, cols, r, c);
}

/// Writing into a row changes no cell outside the columns written.
pub proof fn lemma_write_cell(
    f: Seq<Seq<char>>,
    row: nat,
    col: nat,
    msg: Seq<char>,
    cols: nat,
    r: int,
    c: int,
)
    requires
        rows_wide(f, cols),
        0 <= c < cols,
        !(r == row && col <= c < col + msg.len()),
    ensures
        cell(
            grown(f, row, cols).update(
                row as int,
                Seq::new(
                    cols,
                    |j: int|
                        if col <= j < col + msg.len() {
                            msg[j - col]
                        } else {
                            grown(f, row, cols)[row as int][j]
                        },
                ),
            ),
            r,
            c,
        ) == cell(f, r, c),
{
    lemma_grown_cell(f, row, cols, r, c);
}

impl View for TextFrame {
    type V = Seq<Seq<char>>;

    /// The rows, top first.
    closed spec fn view(&self) -> Seq<Seq<char>> {
        self.buffers@.map_values(|r: Vec<char>| r@)
    }
}

impl TextFrame {
    /// The width of every row.
    pub closed spec fn columns(&self) -> nat {
        self.columns as nat
    }

    /// Every row is `columns` characters wide.
    pub open spec fn wf(&self) -> bool {
        forall|i: int| 0 <= i < self@.len() ==> #[trigger] self@[i].len() == self.columns()
    }

    /// A frame with no rows yet.
    pub fn new(columns: usize) -> (r: Self)
        ensures
            r.wf(),
            r@ == Seq::<Seq<char>>::empty(),
            r.columns() == columns,
    {
        let r = Self { buffers: Vec::new(), columns };
        assert(r@ =~= Seq::<Seq<char>>::empty());
        r
    }

    /// Adds blank rows until row `row` exists.
    fn grow(&mut self, row: usize)
        requires
            old(self).wf(),
        ensures
            final(self).wf(),
            final(self)@ == grown(old(self)@, row as nat, old(self).columns()),
            final(self).columns() == old(self).columns(),
            row < final(self)@.len(),
    {
        if row >= self.buffers.len() {
            let ghost start = self@;
            while self.buffers.len() <= row
                invariant
                    self.wf(),
                    self.columns() == old(self).columns(),
                    start == old(self)@,
                    start.len() <= self@.len() <= row + 1,
                    self@ == start + Seq::new(
                        (self@.len() - start.len()) as nat,
                        |i: int| blank_row(self.columns()),
                    ),
                decreases row + 1 - self.buffers.len(),
            {
                let blank = vec![' '; self.columns];
                assert(blank@ =~= blank_row(self.columns()));
                let ghost before = self@;
                self.buffers.push(blank);
                assert(self@ =~= before.push(blank_row(self.columns())));
                assert(self@ =~= start + Seq::new(
                    (self@.len() - start.len()) as nat,
                    |i: int| blank_row(self.columns()),
                ));
            }
        }
    }

    /// Row `row`, adding blank rows first where it does not exist yet.
    pub fn row(&mut self, row: usize) -> (r: &mut [char])
        requires
            old(self).wf(),
        ensures
            r@ == grown(old(self)@, row as nat, old(self).columns())[row as int],
            final(self)@ == grown(old(self)@, row as nat, old(self).columns()).update(
                row as int,
                final(r)@,
            ),
            final(self).columns() == old(self).columns(),
    {
        self.grow(row);
        self.buffers[row].as_mut_slice()
    }

    /// Sets the character at `row`, `col`; a column beyond the width changes
    /// nothing.
    pub fn put(&mut self, row: usize, col: usize, x: char)
        requires
            old(self).wf(),
        ensures
            final(self).wf(),
            final(self).columns() == old(self).columns(),
            final(self)@ == if col < old(self).columns() {
                grown(old(self)@, row as nat, old(self).columns()).update(
                    row as int,
                    grown(old(self)@, row as nat, old(self).columns())[row as int].update(
                        col as int,
                        x,
                    ),
                )
            } else {
                old(self)@
            },
    {
        if col < self.columns {
            let r = self.row(row);
            r[col] = x;
        }
    }

    /// Writes `msg` into `row` from column `col` on; characters beyond the
    /// width are dropped, and nothing changes when none fits.
    pub fn write(&mut self, row: usize, col: usize, msg: &str)
        requires
            old(self).wf(),
        ensures
            final(self).wf(),
            final(self).columns() == old(self).columns(),
            final(self)@ == if msg@.len() > 0 && col < old(self).columns() {
                grown(old(self)@, row as nat, old(self).columns()).update(
                    row as int,
                    Seq::new(
                        old(self).columns(),
                        |j: int|
                            if col <= j < col + msg@.len() {
                                msg@[j - col]
                            } else {
                                grown(old(self)@, row as nat, old(self).columns())[row as int][j]
                            },
                    ),
                )
            } else {
                old(self)@
            },
    {
        let cs = crate::text::chars::chars_of(msg);
        let ghost g = grown(old(self)@, row as nat, old(self).columns());
        let ghost cols = old(self).columns();
        for ndx in 0..cs.len()
            invariant
                cs@ == msg@,
                self.wf(),
                self.columns() == cols,
                g == grown(old(self)@, row as nat, cols),
                self@ == if ndx > 0 && col < cols {
                    g.update(
                        row as int,
                        Seq::new(
                            cols,
                            |j: int|
                                if col <= j < col + ndx {
                                    msg@[j - col]
                                } else {
                                    g[row as int][j]
                                },
                        ),
                    )
                } else {
                    old(self)@
                },
        {
            if col < self.columns && ndx < self.columns - col {
                let ghost before = self@;
                let r = self.row(row);
                r[ndx + col] = cs[ndx];
                proof {
                    if ndx == 0 {
                        assert(grown(before, row as nat, cols) =~= g);
                    } else {
                        assert(grown(before, row as nat, cols) =~= before);
                    }
                    let newrow = Seq::new(
                        cols,
                        |j: int|
                            if col <= j < col + ndx + 1 {
                                msg@[j - col]
                            } else {
                                g[row as int][j]
                            },
                    );
                    assert(grown(before, row as nat, cols)[row as int].update(
                        (ndx + col) as int,
                        msg@[ndx as int],
                    ) =~= newrow);
                    assert(self@ =~= g.update(
                        row as int,
                        Seq::new(
                            cols,
                            |j: int|
                                if col <= j < col + ndx + 1 {
                                    msg@[j - col]
                                } else {
                                    g[row as int][j]
                                },
                        ),
                    ));
                }
            } else {
                proof {
                    if ndx > 0 && col < cols {
                        assert(Seq::new(
                            cols,
                            |j: int|
                                if col <= j < col + ndx + 1 {
                                    msg@[j - col]
                                } else {
                                    g[row as int][j]
                                },
                        ) =~= Seq::new(
                            cols,
                            |j: int|
                                if col <= j < col + ndx {
                                    msg@[j - col]
                                } else {
                                    g[row as int][j]
                                },
                        ));
                        assert(self@ =~= g.update(
                            row as int,
                            Seq::new(
                                cols,
                                |j: int|
                                    if col <= j < col + ndx + 1 {
                                        msg@[j - col]
                                    } else {
                                        g[row as int][j]
                                    },
                            ),
                        ));
                    }
                }
            }
        }
    }

    /// The rows as text, joined by newlines.
    pub fn to_string(&self) -> (r: String)
        ensures
            r@ == join_seq(self@, seq!['\n']),
    {
        let mut rows: Vec<String> = Vec::new();
        for i in 0..self.buffers.len()
            invariant
                crate::text::lines::strings_view(rows@) == self@.take(i as int),
        {
            let ghost before = rows@;
            let s = string_of(self.buffers[i].as_slice());
            rows.push(s);
            proof {
                crate::text::lines::lemma_strings_view_push(before, s);
                assert(crate::text::lines::strings_view(rows@) =~= self@.take(i + 1));
            }
        }
        assert(self@.take(self.buffers.len() as int) =~= self@);
        proof {
            reveal_strlit("\n");
            assert("\n"@ =~= seq!['\n']);
        }
        crate::text::lines::join_strings(&rows, "\n")
    }
}

} // verus!
