//! The text picture of a set of traces: a column of signal names, right
//! aligned, beside the waveforms; the time axis on top, labelled `time`.
//! Each waveform takes three rows.
use crate::docs::vcd2svg::draw::{draw_symbols, kept_outside};
use crate::docs::vcd2svg::text_frame::{cell, grown, lemma_write_cell, rows_wide, TextFrame};
use crate::docs::vcd2svg::waveform::{symbols_of, WaveformElement};
use crate::text::lines::strings_view;
use vstd::string::StringSliceAdditionalSpecFns;
use vstd::prelude::*;

verus! {

/// The length in bytes of a text.
pub open spec fn byte_len(s: Seq<char>) -> nat {
    vstd::utf8::encode_utf8(s).len()
}

/// A text has at least as many bytes as characters.
proof fn lemma_bytes_cover_chars(s: Seq<char>)
    ensures
        byte_len(s) >= s.len(),
    decreases s.len(),
{
    if s.len() > 0 {
        lemma_bytes_cover_chars(s.drop_first());
    }
}

/// The width of the name column: the longest name in bytes, and at least
/// four, the width of `time`.
pub open spec fn names_width(names: Seq<Seq<char>>) -> nat
    decreases names.len(),
{
    if names.len() == 0 {
        4
    } else {
        let w = names_width(names.drop_last());
        if byte_len(names.last()) > w {
            byte_len(names.last())
        } else {
            w
        }
    }
}

proof fn lemma_width_floor(names: Seq<Seq<char>>)
    ensures
        4 <= names_width(names),
    decreases names.len(),
{
    if names.len() > 0 {
        lemma_width_floor(names.drop_last());
    }
}

proof fn lemma_names_width(names: Seq<Seq<char>>, k: int)
    requires
        0 <= k < names.len(),
    ensures
        byte_len(names[k]) <= names_width(names),
        4 <= names_width(names),
    decreases names.len(),
{
    lemma_width_floor(names);
    lemma_width_floor(names.drop_last());
    if k < names.len() - 1 {
        lemma_names_width(names.drop_last(), k);
        assert(names.drop_last()[k] == names[k]);
    }
}

/// The width of the name column for these names.
pub fn name_column_width(names: &Vec<String>) -> (r: usize)
    requires
        forall|k: int| 0 <= k < names@.len() ==> byte_len(#[trigger] names@[k]@) <= usize::MAX,
    ensures
        r == names_width(strings_view(names@)),
{
    let mut w: usize = 4;
    for k in 0..names.len()
        invariant
            w == names_width(strings_view(names@).take(k as int)),
            forall|q: int| 0 <= q < names@.len() ==> byte_len(#[trigger] names@[q]@) <= usize::MAX,
    {
        let name = names[k].as_str();
        let n = name.len();
        proof {
            assert(name@ == names@[k as int]@);
            assert(byte_len(names@[k as int]@) <= usize::MAX);
            assert(name.spec_bytes() == vstd::utf8::encode_utf8(name@));
            assert(n == byte_len(names@[k as int]@));
            let s = strings_view(names@).take(k + 1);
            assert(s.drop_last() =~= strings_view(names@).take(k as int));
            assert(s.last() == names@[k as int]@);
        }
        if n > w {
            w = n;
        }
    }
    assert(strings_view(names@).take(names.len() as int) =~= strings_view(names@));
    w
}

/// Outside rows `r0` to `r1`, columns `c0` to `c1` (not included), `n`
/// holds the cells of `o`.
pub open spec fn same_outside(
    o: Seq<Seq<char>>,
    n: Seq<Seq<char>>,
    r0: int,
    r1: int,
    c0: int,
    c1: int,
    cols: nat,
) -> bool {
    forall|r: int, c: int|
        0 <= r && 0 <= c < cols && !(r0 <= r <= r1 && c0 <= c < c1) ==> #[trigger] cell(n, r, c)
            == cell(o, r, c)
}

/// Row `row` shows `text` from column `col` on, as far as the width goes.
pub open spec fn shows_text(f: Seq<Seq<char>>, row: int, col: int, cols: nat, text: Seq<char>) -> bool {
    forall|j: int| 0 <= j < text.len() && col + j < cols ==> #[trigger] cell(f, row, col + j) == text[j]
}

/// Rows `row` to `row + 2` show the symbols of `wave` from column `start`
/// on, as far as the width goes; the middle row of a value element holds
/// its label instead.
pub open spec fn shows_wave(
    f: Seq<Seq<char>>,
    row: int,
    start: int,
    cols: nat,
    wave: Seq<WaveformElement>,
) -> bool {
    forall|j: int|
        0 <= j < wave.len() && start + j < cols ==> {
            &&& #[trigger] cell(f, row, start + j) == symbols_of(wave[j]).0
            &&& cell(f, row + 2, start + j) == symbols_of(wave[j]).2
            &&& !(wave[j] is Value) ==> cell(f, row + 1, start + j) == symbols_of(wave[j]).1
        }
}

proof fn lemma_text_kept(
    o: Seq<Seq<char>>,
    n: Seq<Seq<char>>,
    r0: int,
    r1: int,
    c0: int,
    c1: int,
    cols: nat,
    row: int,
    col: int,
    text: Seq<char>,
)
    requires
        same_outside(o, n, r0, r1, c0, c1, cols),
        shows_text(o, row, col, cols, text),
        row >= 0,
        col >= 0,
        row < r0 || row > r1 || col + text.len() <= c0 || col >= c1,
    ensures
        shows_text(n, row, col, cols, text),
{
    assert forall|j: int| 0 <= j < text.len() && col + j < cols implies #[trigger] cell(
        n,
        row,
        col + j,
    ) == text[j] by {
        assert(cell(n, row, col + j) == cell(o, row, col + j));
    }
}

proof fn lemma_wave_kept(
    o: Seq<Seq<char>>,
    n: Seq<Seq<char>>,
    r0: int,
    r1: int,
    c0: int,
    c1: int,
    cols: nat,
    row: int,
    start: int,
    wave: Seq<WaveformElement>,
)
    requires
        same_outside(o, n, r0, r1, c0, c1, cols),
        shows_wave(o, row, start, cols, wave),
        row >= 0,
        start >= 0,
        row + 2 < r0 || row > r1 || start + wave.len() <= c0 || start >= c1,
    ensures
        shows_wave(n, row, start, cols, wave),
{
    assert forall|j: int| 0 <= j < wave.len() && start + j < cols implies {
        &&& #[trigger] cell(n, row, start + j) == symbols_of(wave[j]).0
        &&& cell(n, row + 2, start + j) == symbols_of(wave[j]).2
        &&& !(wave[j] is Value) ==> cell(n, row + 1, start + j) == symbols_of(wave[j]).1
    } by {
        assert(cell(n, row, start + j) == cell(o, row, start + j));
        assert(cell(n, row + 1, start + j) == cell(o, row + 1, start + j));
        assert(cell(n, row + 2, start + j) == cell(o, row + 2, start + j));
    }
}

/// Writes `msg` with [TextFrame::write], and says what changed.
fn write_framed(frame: &mut TextFrame, row: usize, col: usize, msg: &str)
    requires
        old(frame).wf(),
    ensures
        final(frame).wf(),
        final(frame).columns() == old(frame).columns(),
        same_outside(
            old(frame)@,
            final(frame)@,
            row as int,
            row as int,
            col as int,
            col + msg@.len(),
            old(frame).columns(),
        ),
        shows_text(final(frame)@, row as int, col as int, old(frame).columns(), msg@),
{
    let ghost o = frame@;
    let ghost cols = frame.columns();
    frame.write(row, col, msg);
    proof {
        assert forall|r: int, c: int|
            0 <= r && 0 <= c < cols && !(row <= r <= row && col <= c < col + msg@.len()) implies #[trigger] cell(
            frame@,
            r,
            c,
        ) == cell(o, r, c) by {
            if msg@.len() > 0 && col < cols {
                lemma_write_cell(o, row as nat, col as nat, msg@, cols, r, c);
            }
        }
        assert forall|j: int| 0 <= j < msg@.len() && col + j < cols implies #[trigger] cell(
            frame@,
            row as int,
            col + j,
        ) == msg@[j] by {
            let g = grown(o, row as nat, cols);
            crate::docs::vcd2svg::text_frame::lemma_grown_cell(o, row as nat, cols, 0, 0);
            assert(frame@[row as int].len() == cols);
        }
    }
}

/// Draws a waveform with [draw_symbols], and says what changed.
fn draw_framed(wave: &Vec<WaveformElement>, frame: &mut TextFrame, row: usize, start: usize)
    requires
        old(frame).wf(),
        wave.len() >= 1,
        row + 2 <= usize::MAX,
        start + wave.len() <= usize::MAX,
    ensures
        final(frame).wf(),
        final(frame).columns() == old(frame).columns(),
        same_outside(
            old(frame)@,
            final(frame)@,
            row as int,
            row + 2,
            start as int,
            old(frame).columns() as int,
            old(frame).columns(),
        ),
        shows_wave(final(frame)@, row as int, start as int, old(frame).columns(), wave@),
{
    let ghost o = frame@;
    let ghost cols = frame.columns();
    draw_symbols(wave.as_slice(), frame, row, start);
    proof {
        assert(kept_outside(o, frame@, row as nat, start as nat, (start + wave.len()) as nat, cols));
        assert forall|j: int| 0 <= j < wave@.len() && start + j < cols implies {
            &&& #[trigger] cell(frame@, row as int, start + j) == symbols_of(wave@[j]).0
            &&& cell(frame@, row + 2, start + j) == symbols_of(wave@[j]).2
            &&& !(wave@[j] is Value) ==> cell(frame@, row + 1, start + j) == symbols_of(
                wave@[j],
            ).1
        } by {
            assert(symbols_of(wave@[j]) == symbols_of(wave@[j]));
            assert(frame@.len() > row + 2);
            assert(frame@[row as int].len() == cols);
            assert(frame@[row + 1].len() == cols);
            assert(frame@[row + 2].len() == cols);
        }
    }
}

/// The picture of the traces `max_columns` wide: the time axis `clock` in
/// the top three rows with `time` right aligned in the name column, then,
/// for signal `k`, its name right aligned in row `3k + 4` and its waveform
/// in rows `3k + 3` to `3k + 5`; the waveforms start one column right of
/// the name column.
pub fn draw_traces(
    names: &Vec<String>,
    clock: &Vec<WaveformElement>,
    waves: &Vec<Vec<WaveformElement>>,
    max_columns: usize,
) -> (r: TextFrame)
    requires
        names.len() == waves.len(),
        clock.len() >= 1,
        forall|k: int| 0 <= k < waves@.len() ==> (#[trigger] waves@[k]).len() >= 1,
        forall|k: int| 0 <= k < names@.len() ==> byte_len(#[trigger] names@[k]@) <= usize::MAX,
        names_width(strings_view(names@)) + 1 + clock.len() <= usize::MAX,
        forall|k: int|
            0 <= k < waves@.len() ==> names_width(strings_view(names@)) + 1 + (
            #[trigger] waves@[k]).len() <= usize::MAX,
        3 * names.len() + 6 <= usize::MAX,
    ensures
        r.wf(),
        r.columns() == max_columns,
        shows_text(
            r@,
            1,
            names_width(strings_view(names@)) - 4,
            max_columns as nat,
            "time"@,
        ),
        shows_wave(r@, 0, names_width(strings_view(names@)) + 1int, max_columns as nat, clock@),
        forall|k: int|
            0 <= k < names@.len() ==> shows_text(
                r@,
                3 * k + 4,
                names_width(strings_view(names@)) - byte_len(#[trigger] names@[k]@),
                max_columns as nat,
                names@[k]@,
            ),
        forall|k: int|
            0 <= k < waves@.len() ==> shows_wave(
                r@,
                3 * k + 3,
                names_width(strings_view(names@)) + 1int,
                max_columns as nat,
                #[trigger] waves@[k]@,
            ),
{
    let ghost cols = max_columns as nat;
    let w = name_column_width(names);
    proof {
        reveal_strlit("time");
        lemma_width_floor(strings_view(names@));
        assert forall|q: int| 0 <= q < names@.len() implies byte_len(#[trigger] names@[q]@) <= w by {
            lemma_names_width(strings_view(names@), q);
            assert(strings_view(names@)[q] == names@[q]@);
        }
    }
    let mut frame = TextFrame::new(max_columns);
    draw_framed(clock, &mut frame, 0, w + 1);
    let ghost f0 = frame@;
    write_framed(&mut frame, 1, w - 4, "time");
    proof {
        lemma_wave_kept(f0, frame@, 1, 1, w - 4, w as int, cols, 0, w + 1, clock@);
    }
    for k in 0..names.len()
        invariant
            names.len() == waves.len(),
            frame.wf(),
            frame.columns() == max_columns,
            cols == max_columns,
            w == names_width(strings_view(names@)),
            w >= 4,
            forall|q: int| 0 <= q < waves@.len() ==> (#[trigger] waves@[q]).len() >= 1,
            forall|q: int| 0 <= q < waves@.len() ==> w + 1 + (#[trigger] waves@[q]).len() <= usize::MAX,
            forall|q: int| 0 <= q < names@.len() ==> byte_len(#[trigger] names@[q]@) <= w,
            3 * names.len() + 6 <= usize::MAX,
            shows_text(frame@, 1, w - 4, cols, "time"@),
            shows_wave(frame@, 0, w + 1, cols, clock@),
            forall|q: int|
                0 <= q < k ==> shows_text(
                    frame@,
                    3 * q + 4,
                    w - byte_len(#[trigger] names@[q]@),
                    cols,
                    names@[q]@,
                ),
            forall|q: int| 0 <= q < k ==> shows_wave(frame@, 3 * q + 3, w + 1, cols, #[trigger] waves@[q]@),
    {
        let name = names[k].as_str();
        let n = name.len();
        proof {
            assert(name@ == names@[k as int]@);
            assert(byte_len(names@[k as int]@) <= w);
            assert(vstd::utf8::encode_utf8(name@).len() == n);
            lemma_bytes_cover_chars(name@);
        }
        let ghost a = frame@;
        write_framed(&mut frame, 3 * k + 4, w - n, name);
        let ghost b = frame@;
        proof {
            lemma_text_kept(a, b, 3 * k + 4, 3 * k + 4, (w - n) as int, w - n + name@.len(), cols, 1, w - 4, "time"@);
            lemma_wave_kept(a, b, 3 * k + 4, 3 * k + 4, (w - n) as int, w - n + name@.len(), cols, 0, w + 1, clock@);
            assert forall|q: int| 0 <= q < k implies shows_text(
                b,
                3 * q + 4,
                w - byte_len(#[trigger] names@[q]@),
                cols,
                names@[q]@,
            ) by {
                lemma_text_kept(a, b, 3 * k + 4, 3 * k + 4, (w - n) as int, w - n + name@.len(), cols, 3 * q + 4, w - byte_len(names@[q]@), names@[q]@);
            }
            assert forall|q: int| 0 <= q < k implies shows_wave(b, 3 * q + 3, w + 1, cols, #[trigger] waves@[q]@) by {
                lemma_wave_kept(a, b, 3 * k + 4, 3 * k + 4, (w - n) as int, w - n + name@.len(), cols, 3 * q + 3, w + 1, waves@[q]@);
            }
        }
        draw_framed(&waves[k], &mut frame, 3 * k + 3, w + 1);
        proof {
            let c = frame@;
            let r0 = 3 * k + 3;
            lemma_text_kept(b, c, r0, r0 + 2, w + 1, cols as int, cols, 1, w - 4, "time"@);
            lemma_wave_kept(b, c, r0, r0 + 2, w + 1, cols as int, cols, 0, w + 1, clock@);
            lemma_text_kept(b, c, r0, r0 + 2, w + 1, cols as int, cols, 3 * k + 4, (w - n) as int, name@);
            assert forall|q: int| 0 <= q < k + 1 implies shows_text(
                c,
                3 * q + 4,
                w - byte_len(#[trigger] names@[q]@),
                cols,
                names@[q]@,
            ) by {
                if q < k {
                    lemma_text_kept(b, c, r0, r0 + 2, w + 1, cols as int, cols, 3 * q + 4, w - byte_len(names@[q]@), names@[q]@);
                }
            }
            assert forall|q: int| 0 <= q < k + 1 implies shows_wave(c, 3 * q + 3, w + 1, cols, #[trigger] waves@[q]@) by {
                if q < k {
                    lemma_wave_kept(b, c, r0, r0 + 2, w + 1, cols as int, cols, 3 * q + 3, w + 1, waves@[q]@);
                }
            }
        }
    }
    frame
}

} // verus!
