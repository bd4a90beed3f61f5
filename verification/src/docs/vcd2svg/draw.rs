//! Drawing a row of waveform elements, with value labels, into a text frame.
use crate::docs::vcd2svg::text_frame::{
    cell, grown, lemma_put_cell, lemma_write_cell, rows_wide, TextFrame,
};
use crate::docs::vcd2svg::waveform::{symbols_of, WaveformElement};
use vstd::prelude::*;

verus! {

/// Outside rows `row` to `row + 2` and columns `start_col` to `end_col`
/// (not included), `n` holds the cells of `o`.
pub open spec fn kept_outside(
    o: Seq<Seq<char>>,
    n: Seq<Seq<char>>,
    row: nat,
    start_col: nat,
    end_col: nat,
    cols: nat,
) -> bool {
    forall|r: int, c: int|
        0 <= r && 0 <= c < cols && !(row <= r <= row + 2 && start_col <= c < end_col) ==> #[trigger] cell(
            n,
            r,
            c,
        ) == cell(o, r, c)
}

proof fn lemma_put_keeps(
    o: Seq<Seq<char>>,
    before: Seq<Seq<char>>,
    after: Seq<Seq<char>>,
    prow: nat,
    pcol: nat,
    x: char,
    cols: nat,
    row: nat,
    start_col: nat,
    end_col: nat,
)
    requires
        rows_wide(before, cols),
        after == (if pcol < cols {
            grown(before, prow, cols).update(
                prow as int,
                grown(before, prow, cols)[prow as int].update(pcol as int, x),
            )
        } else {
            before
        }),
        row <= prow <= row + 2,
        start_col <= pcol < end_col,
        kept_outside(o, before, row, start_col, end_col, cols),
    ensures
        kept_outside(o, after, row, start_col, end_col, cols),
{
    assert forall|r: int, c: int|
        0 <= r && 0 <= c < cols && !(row <= r <= row + 2 && start_col <= c < end_col) implies #[trigger] cell(
        after,
        r,
        c,
    ) == cell(o, r, c) by {
        if pcol < cols {
            lemma_put_cell(before, prow, pcol, x, cols, r, c);
        }
    }
}

proof fn lemma_write_keeps(
    o: Seq<Seq<char>>,
    before: Seq<Seq<char>>,
    after: Seq<Seq<char>>,
    wrow: nat,
    wcol: nat,
    msg: Seq<char>,
    cols: nat,
    row: nat,
    start_col: nat,
    end_col: nat,
)
    requires
        rows_wide(before, cols),
        after == (if msg.len() > 0 && wcol < cols {
            grown(before, wrow, cols).update(
                wrow as int,
                Seq::new(
                    cols,
                    |j: int|
                        if wcol <= j < wcol + msg.len() {
                            msg[j - wcol]
                        } else {
                            grown(before, wrow, cols)[wrow as int][j]
                        },
                ),
            )
        } else {
            before
        }),
        row <= wrow <= row + 2,
        start_col <= wcol,
        wcol + msg.len() <= end_col,
        kept_outside(o, before, row, start_col, end_col, cols),
    ensures
        kept_outside(o, after, row, start_col, end_col, cols),
{
    assert forall|r: int, c: int|
        0 <= r && 0 <= c < cols && !(row <= r <= row + 2 && start_col <= c < end_col) implies #[trigger] cell(
        after,
        r,
        c,
    ) == cell(o, r, c) by {
        if msg.len() > 0 && wcol < cols {
            lemma_write_cell(before, wrow, wcol, msg, cols, r, c);
        }
    }
}

/// The elements from `a` to `b` are all values.
pub open spec fn all_values(s: Seq<WaveformElement>, a: int, b: int) -> bool {
    forall|t: int| a <= t <= b ==> (#[trigger] s[t]) is Value
}

/// Positions `p` to `q` (never the first element) are a run of values
/// that cannot be made longer.
pub open spec fn maximal_run(s: Seq<WaveformElement>, p: int, q: int) -> bool {
    &&& 1 <= p <= q < s.len()
    &&& all_values(s, p, q)
    &&& (p == 1 || !(s[p - 1] is Value))
    &&& (q == s.len() - 1 || !(s[q + 1] is Value))
}

/// The middle-row cell at position `i` of a run `width` cells wide that is
/// labelled `label`: the label's character, `…` in the last cell when the
/// label (by its length in bytes) does not fit, and `blank` past the label.
pub open spec fn label_cell(label: Seq<char>, width: int, i: int, blank: char) -> char {
    if i < label.len() {
        if i >= width - 1 && i + 1 < (vstd::utf8::encode_utf8(label).len() as usize) {
            '…'
        } else {
            label[i]
        }
    } else {
        blank
    }
}

/// Two maximal runs that share a position are the same run.
proof fn lemma_runs_unique(s: Seq<WaveformElement>, p: int, q: int, p2: int, q2: int, k: int)
    requires
        maximal_run(s, p, q),
        maximal_run(s, p2, q2),
        p <= k <= q,
        p2 <= k <= q2,
    ensures
        p == p2,
        q == q2,
{
    if p < p2 {
        assert(s[p2 - 1] is Value);
    }
    if p2 < p {
        assert(s[p - 1] is Value);
    }
    if q < q2 {
        assert(s[q + 1] is Value);
    }
    if q2 < q {
        assert(s[q2 + 1] is Value);
    }
}

/// Writing one character into an existing row changes only that cell.
proof fn lemma_write_one(
    before: Seq<Seq<char>>,
    after: Seq<Seq<char>>,
    wrow: nat,
    wcol: nat,
    msg: Seq<char>,
    cols: nat,
)
    requires
        rows_wide(before, cols),
        wrow < before.len(),
        msg.len() == 1,
        wcol < cols,
        after == grown(before, wrow, cols).update(
            wrow as int,
            Seq::new(
                cols,
                |j: int|
                    if wcol <= j < wcol + msg.len() {
                        msg[j - wcol]
                    } else {
                        grown(before, wrow, cols)[wrow as int][j]
                    },
            ),
        ),
    ensures
        after.len() == before.len(),
        rows_wide(after, cols),
        after[wrow as int][wcol as int] == msg[0],
        forall|c: int| 0 <= c < cols && c != wcol ==> #[trigger] after[wrow as int][c] == before[wrow as int][c],
        forall|r: int| 0 <= r < before.len() && r != wrow ==> #[trigger] after[r] == before[r],
{
}

/// Draws the elements in the three rows from `row` on, one column per element
/// from `start_col` on; then writes each run of value elements' last value
/// as a label over the run in the middle row, cut with `…` where it does not
/// fit.  The top and bottom rows hold exactly the elements' symbols; in the
/// middle row each maximal run of values after the first element holds its
/// label as [label_cell] gives it, and every other cell its element's symbol.
pub fn draw_symbols(symbols: &[WaveformElement], frame: &mut TextFrame, row: usize, start_col: usize)
    requires
        old(frame).wf(),
        symbols.len() >= 1,
        row + 2 <= usize::MAX,
        start_col + symbols.len() <= usize::MAX,
    ensures
        final(frame).wf(),
        final(frame).columns() == old(frame).columns(),
        forall|ndx: int|
            0 <= ndx < symbols.len() && start_col + ndx < old(frame).columns() ==> {
                &&& final(frame)@[row as int][start_col + ndx] == (#[trigger] symbols_of(
                    symbols@[ndx],
                )).0
                &&& final(frame)@[row + 2][start_col + ndx] == symbols_of(symbols@[ndx]).2
                &&& !(symbols@[ndx] is Value) ==> final(frame)@[row + 1][start_col + ndx]
                    == symbols_of(symbols@[ndx]).1
            },
        start_col < old(frame).columns() ==> final(frame)@[row + 1][start_col as int] == symbols_of(
            symbols@[0],
        ).1,
        forall|p: int, q: int, k: int|
            #![trigger maximal_run(symbols@, p, q), final(frame)@[row + 1][start_col + k]]
            maximal_run(symbols@, p, q) && p <= k <= q && start_col + k < old(frame).columns()
                ==> final(frame)@[row + 1][start_col + k] == label_cell(
                symbols@[q]->Value_0@,
                q - p + 1,
                k - p,
                symbols_of(symbols@[k]).1,
            ),
        kept_outside(
            old(frame)@,
            final(frame)@,
            row as nat,
            start_col as nat,
            (start_col + symbols.len()) as nat,
            old(frame).columns(),
        ),
        start_col < old(frame).columns() ==> final(frame)@.len() > row + 2,
{
    let n = symbols.len();
    let ghost cols = frame.columns();
    let ghost o = frame@;
    let ghost s = symbols@;
    for ndx in 0..n
        invariant
            n == symbols.len(),
            frame.wf(),
            frame.columns() == cols,
            row + 2 <= usize::MAX,
            start_col + n <= usize::MAX,
            ndx > 0 && start_col < cols ==> frame@.len() > row + 2,
            o == old(frame)@,
            kept_outside(o, frame@, row as nat, start_col as nat, (start_col + n) as nat, cols),
            forall|k: int|
                0 <= k < ndx && start_col + k < cols ==> {
                    &&& frame@[row as int][start_col + k] == (#[trigger] symbols_of(symbols@[k])).0
                    &&& frame@[row + 1][start_col + k] == symbols_of(symbols@[k]).1
                    &&& frame@[row + 2][start_col + k] == symbols_of(symbols@[k]).2
                },
    {
        let symbol = symbols[ndx].to_symbols();
        let ghost f0 = frame@;
        frame.put(row, start_col + ndx, symbol.0);
        proof {
            lemma_put_keeps(o, f0, frame@, row as nat, (start_col + ndx) as nat, symbol.0, cols, row as nat, start_col as nat, (start_col + n) as nat);
        }
        let ghost f1 = frame@;
        frame.put(row + 1, start_col + ndx, symbol.1);
        proof {
            lemma_put_keeps(o, f1, frame@, (row + 1) as nat, (start_col + ndx) as nat, symbol.1, cols, row as nat, start_col as nat, (start_col + n) as nat);
        }
        let ghost f2 = frame@;
        frame.put(row + 2, start_col + ndx, symbol.2);
        proof {
            lemma_put_keeps(o, f2, frame@, (row + 2) as nat, (start_col + ndx) as nat, symbol.2, cols, row as nat, start_col as nat, (start_col + n) as nat);
        }
    }
    let ghost top = frame@[row as int];
    let ghost mid = frame@[row + 1];
    let ghost bottom = frame@[row + 2];
    let mut j: usize = 0;
    while j < n - 1
        invariant
            n == symbols.len(),
            s == symbols@,
            n >= 1,
            j <= n,
            j == 0 || j >= n || !(s[j as int] is Value),
            frame.wf(),
            frame.columns() == cols,
            row + 2 <= usize::MAX,
            start_col + n <= usize::MAX,
            start_col < cols ==> frame@.len() > row + 2,
            start_col < cols ==> frame@[row as int] == top,
            start_col < cols ==> frame@[row + 2] == bottom,
            start_col < cols ==> frame@[row + 1].len() == cols,
            o == old(frame)@,
            kept_outside(o, frame@, row as nat, start_col as nat, (start_col + n) as nat, cols),
            forall|k: int|
                0 <= k < n && start_col + k < cols ==> {
                    &&& top[start_col + k] == (#[trigger] symbols_of(symbols@[k])).0
                    &&& bottom[start_col + k] == symbols_of(symbols@[k]).2
                    &&& mid[start_col + k] == symbols_of(symbols@[k]).1
                },
            forall|k: int|
                0 <= k < n && start_col + k < cols && (!(s[k] is Value) || k == 0 || j < k)
                    ==> frame@[row + 1][start_col + k] == #[trigger] mid[start_col + k],
            forall|p: int, q: int, k: int|
                #![trigger maximal_run(s, p, q), frame@[row + 1][start_col + k]]
                maximal_run(s, p, q) && q < j && p <= k <= q && start_col + k < cols
                    ==> frame@[row + 1][start_col + k] == label_cell(
                    s[q]->Value_0@,
                    q - p + 1,
                    k - p,
                    symbols_of(s[k]).1,
                ),
        decreases n - j,
    {
        let offset = j;
        let mut free_space: usize = 0;
        let mut value: &str = "";
        let mut cur = j;
        let mut stop = false;
        while cur < n - 1 && !stop
            invariant
                n == symbols.len(),
                s == symbols@,
                n >= 1,
                offset < n - 1,
                offset <= cur,
                cur <= n - 1,
                free_space == cur - offset,
                forall|t: int| offset < t <= cur ==> (#[trigger] s[t]) is Value,
                free_space > 0 ==> value@ == s[cur as int]->Value_0@,
                stop ==> cur < n - 1 && !(s[cur + 1] is Value),
            decreases n - cur, (if stop { 0int } else { 1int }),
        {
            match &symbols[cur + 1] {
                WaveformElement::Value(v) => {
                    free_space = free_space + 1;
                    value = v.as_str();
                    cur = cur + 1;
                },
                _ => {
                    stop = true;
                },
            }
        }
        let ghost p0 = offset + 1;
        let ghost q0 = cur as int;
        proof {
            if free_space > 0 {
                assert(maximal_run(s, p0, q0));
            }
        }
        j = cur + 1;
        let cs = crate::text::chars::chars_of(value);
        let byte_len = value.len();
        let ghost label = value@;
        let mut i: usize = 0;
        while i < cs.len() && i < free_space
            invariant
                n == symbols.len(),
                s == symbols@,
                cs@ == label,
                byte_len == (vstd::utf8::encode_utf8(label).len() as usize),
                free_space > 0 ==> label == s[q0]->Value_0@,
                free_space == q0 - offset,
                p0 == offset + 1,
                q0 < n,
                offset < n - 1,
                offset == 0 || !(s[offset as int] is Value),
                free_space > 0 ==> maximal_run(s, p0, q0),
                i <= free_space,
                frame.wf(),
                frame.columns() == cols,
                row + 2 <= usize::MAX,
                start_col + n <= usize::MAX,
                start_col < cols ==> frame@.len() > row + 2,
                start_col < cols ==> frame@[row as int] == top,
                start_col < cols ==> frame@[row + 2] == bottom,
                start_col < cols ==> frame@[row + 1].len() == cols,
                o == old(frame)@,
                kept_outside(o, frame@, row as nat, start_col as nat, (start_col + n) as nat, cols),
                forall|k: int|
                    0 <= k < n && start_col + k < cols && (!(s[k] is Value) || k == 0 || q0 < k || p0 + i <= k)
                        ==> frame@[row + 1][start_col + k] == #[trigger] mid[start_col + k],
                forall|t: int|
                    0 <= t < i && start_col + p0 + t < cols ==> #[trigger] frame@[row + 1][start_col + p0 + t]
                        == label_cell(label, free_space as int, t, symbols_of(s[p0 + t]).1),
                forall|p: int, q: int, k: int|
                    #![trigger maximal_run(s, p, q), frame@[row + 1][start_col + k]]
                    maximal_run(s, p, q) && q < offset && p <= k <= q && start_col + k < cols
                        ==> frame@[row + 1][start_col + k] == label_cell(
                        s[q]->Value_0@,
                        q - p + 1,
                        k - p,
                        symbols_of(s[k]).1,
                    ),
            decreases cs.len() - i,
        {
            let at = start_col + (offset + i + 1);
            let ghost before = frame@;
            let ghost ch: char;
            let ghost msg: Seq<char>;
            if i + 1 >= free_space && i + 1 < byte_len {
                proof {
                    reveal_strlit("…");
                    ch = '…';
                    msg = "…"@;
                    assert(msg =~= seq![ch]);
                }
                frame.write(row + 1, at, "…");
            } else {
                let mut one = String::new();
                crate::text::chars::push_char(&mut one, cs[i]);
                proof {
                    assert(one@ =~= seq![cs@[i as int]]);
                    ch = cs@[i as int];
                    msg = one@;
                }
                frame.write(row + 1, at, one.as_str());
            }
            proof {
                lemma_write_keeps(o, before, frame@, (row + 1) as nat, at as nat, msg, cols, row as nat, start_col as nat, (start_col + n) as nat);
                assert(ch == label_cell(label, free_space as int, i as int, symbols_of(s[p0 + i]).1));
                if (at as nat) < cols {
                    lemma_write_one(before, frame@, (row + 1) as nat, at as nat, msg, cols);
                }
                assert(symbols@[offset + i + 1] is Value);
                assert forall|k: int|
                    0 <= k < n && start_col + k < cols && (!(s[k] is Value) || k == 0 || q0 < k
                        || p0 + i + 1 <= k) implies frame@[row + 1][start_col + k]
                    == #[trigger] mid[start_col + k] by {
                    assert(start_col + k != at);
                    assert(frame@[row + 1][start_col + k] == before[row + 1][start_col + k]);
                }
                assert forall|t: int|
                    0 <= t < i + 1 && start_col + p0 + t < cols implies #[trigger] frame@[row
                    + 1][start_col + p0 + t] == label_cell(label, free_space as int, t, symbols_of(s[p0 + t]).1) by {
                    if t < i {
                        assert(frame@[row + 1][start_col + p0 + t] == before[row + 1][start_col + p0 + t]);
                    }
                }
                assert forall|p: int, q: int, k: int|
                #![trigger maximal_run(s, p, q), frame@[row + 1][start_col + k]]
                    maximal_run(s, p, q) && q < offset && p <= k <= q && start_col + k < cols
                        implies frame@[row + 1][start_col + k] == label_cell(
                        s[q]->Value_0@,
                        q - p + 1,
                        k - p,
                        symbols_of(s[k]).1,
                    ) by {
                    assert(frame@[row + 1][start_col + k] == before[row + 1][start_col + k]);
                }
            }
            i = i + 1;
        }
        proof {
            assert forall|p: int, q: int, k: int|
                #![trigger maximal_run(s, p, q), frame@[row + 1][start_col + k]]
                maximal_run(s, p, q) && q < j && p <= k <= q && start_col + k < cols implies frame@[
                row + 1][start_col + k] == label_cell(
                s[q]->Value_0@,
                q - p + 1,
                k - p,
                symbols_of(s[k]).1,
            ) by {
                if q >= offset {
                    assert(s[q] is Value);
                    assert(q != offset);
                    assert(p0 <= q <= q0);
                    assert(free_space > 0);
                    lemma_runs_unique(s, p, q, p0, q0, q);
                    let t = k - p0;
                    if t >= i {
                        assert(frame@[row + 1][start_col + k] == mid[start_col + k]);
                        assert(t >= cs@.len());
                    } else {
                        assert(frame@[row + 1][start_col + p0 + t] == label_cell(label, free_space as int, t, symbols_of(s[p0 + t]).1));
                    }
                }
            }
        }
    }
    proof {
        assert forall|p: int, q: int, k: int|
                #![trigger maximal_run(symbols@, p, q), frame@[row + 1][start_col + k]]
            maximal_run(symbols@, p, q) && p <= k <= q && start_col + k < cols implies frame@[
            row + 1][start_col + k] == label_cell(
            symbols@[q]->Value_0@,
            q - p + 1,
            k - p,
            symbols_of(symbols@[k]).1,
        ) by {
            assert(s[q] is Value);
            assert(q < j);
        }
    }
}

} // verus!
