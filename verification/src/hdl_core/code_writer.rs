//! An indenting line buffer for generated source code.
use crate::text::chars::push_char;
use crate::text::lines::{split_on_char, split_terminated, strings_view};
use vstd::prelude::*;

verus! {

/// Lines of text, each with an indent level, plus a buffer for assembling
/// the next line piece by piece.
pub struct CodeWriter {
    lines: Vec<(usize, String)>,
    indent: usize,
    buffer: String,
}

/// The indent levels and characters of a list of lines.
pub open spec fn lines_view(v: Seq<(usize, String)>) -> Seq<(usize, Seq<char>)> {
    v.map_values(|p: (usize, String)| (p.0, p.1@))
}

/// Each piece as a line at the given indent level.
pub open spec fn indented(pieces: Seq<Seq<char>>, indent: usize) -> Seq<(usize, Seq<char>)> {
    pieces.map_values(|p: Seq<char>| (indent, p))
}

/// One line as printed: four spaces per indent level, the text, a newline.
pub open spec fn render_line(l: (usize, Seq<char>)) -> Seq<char> {
    Seq::new(4 * l.0 as nat, |i: int| ' ') + l.1 + seq!['\n']
}

/// All lines as printed.
pub open spec fn render(ls: Seq<(usize, Seq<char>)>) -> Seq<char>
    decreases ls.len(),
{
    if ls.len() == 0 {
        Seq::empty()
    } else {
        render(ls.drop_last()) + render_line(ls.last())
    }
}

/// What a writer holds: its lines, its indent level and the text not yet
/// flushed.
pub struct Pen {
    pub lines: Seq<(usize, Seq<char>)>,
    pub indent: usize,
    pub buffer: Seq<char>,
}

impl Pen {
    /// After [CodeWriter::write].
    pub open spec fn write(self, s: Seq<char>) -> Pen {
        Pen { lines: self.lines, indent: self.indent, buffer: self.buffer + s }
    }

    /// After [CodeWriter::flush].
    pub open spec fn flush(self) -> Pen {
        Pen {
            lines: self.lines + indented(split_terminated(self.buffer, '\n'), self.indent),
            indent: self.indent,
            buffer: Seq::empty(),
        }
    }

    /// After [CodeWriter::writeln].
    pub open spec fn writeln(self, s: Seq<char>) -> Pen {
        self.write(s).flush()
    }

    /// After [CodeWriter::add_line].
    pub open spec fn add_line(self, s: Seq<char>) -> Pen {
        Pen { lines: self.lines.push((self.indent, s)), indent: self.indent, buffer: self.buffer }
    }

    /// After [CodeWriter::add].
    pub open spec fn add(self, s: Seq<char>) -> Pen {
        Pen {
            lines: self.lines + indented(split_terminated(s, '\n'), self.indent),
            indent: self.indent,
            buffer: self.buffer,
        }
    }

    /// After [CodeWriter::push].
    pub open spec fn push(self) -> Pen {
        Pen { lines: self.lines, indent: (self.indent + 1) as usize, buffer: self.buffer }
    }

    /// After [CodeWriter::pop].
    pub open spec fn pop(self) -> Pen {
        Pen { lines: self.lines, indent: (self.indent - 1) as usize, buffer: self.buffer }
    }
}

impl CodeWriter {
    /// Everything the writer holds.
    pub open spec fn pen(&self) -> Pen {
        Pen { lines: self.lines(), indent: self.indent(), buffer: self.buffer() }
    }

    /// The lines written so far.
    pub closed spec fn lines(&self) -> Seq<(usize, Seq<char>)> {
        lines_view(self.lines@)
    }

    /// The current indent level.
    pub closed spec fn indent(&self) -> usize {
        self.indent
    }

    /// The text written but not yet flushed.
    pub closed spec fn buffer(&self) -> Seq<char> {
        self.buffer@
    }

    /// An empty writer at indent level zero.
    pub fn new() -> (r: CodeWriter)
        ensures
            r.lines() == Seq::<(usize, Seq<char>)>::empty(),
            r.indent() == 0,
            r.buffer() == Seq::<char>::empty(),
    {
        let r = CodeWriter { lines: Vec::new(), indent: 0, buffer: String::new() };
        assert(r.lines() =~= Seq::<(usize, Seq<char>)>::empty());
        r
    }

    /// One level deeper.
    pub fn push(&mut self)
        requires
            old(self).indent() < usize::MAX,
        ensures
            final(self).indent() == old(self).indent() + 1,
            final(self).lines() == old(self).lines(),
            final(self).buffer() == old(self).buffer(),
    {
        self.indent += 1
    }

    /// One level shallower.
    pub fn pop(&mut self)
        requires
            old(self).indent() > 0,
        ensures
            final(self).indent() == old(self).indent() - 1,
            final(self).lines() == old(self).lines(),
            final(self).buffer() == old(self).buffer(),
    {
        self.indent -= 1
    }

    /// An empty line.
    pub fn next(&mut self)
        ensures
            final(self).lines() == old(self).lines().push((old(self).indent(), Seq::empty())),
            final(self).indent() == old(self).indent(),
            final(self).buffer() == old(self).buffer(),
    {
        proof {
            reveal_strlit("");
            assert(""@ =~= Seq::<char>::empty());
        }
        self.add_line("")
    }

    /// One line of text at the current indent level.
    pub fn add_line(&mut self, val: &str)
        ensures
            final(self).lines() == old(self).lines().push((old(self).indent(), val@)),
            final(self).indent() == old(self).indent(),
            final(self).buffer() == old(self).buffer(),
    {
        self.lines.push((self.indent, val.to_owned()));
        assert(self.lines() =~= old(self).lines().push((old(self).indent(), val@)));
    }

    /// The lines of `val` (ended by newlines; a final newline adds no empty
    /// line) at the current indent level.
    pub fn add(&mut self, val: &str)
        ensures
            final(self).lines() == old(self).lines() + indented(
                split_terminated(val@, '\n'),
                old(self).indent(),
            ),
            final(self).indent() == old(self).indent(),
            final(self).buffer() == old(self).buffer(),
    {
        let pieces = split_on_char(val, '\n');
        proof {
            crate::text::lines::lemma_split_on_len(val@, '\n');
        }
        let n = pieces.len();
        let count = if pieces[n - 1].as_str().is_empty() {
            n - 1
        } else {
            n
        };
        let ghost terms = split_terminated(val@, '\n');
        assert(terms =~= strings_view(pieces@).take(count as int));
        for i in 0..count
            invariant
                count <= pieces.len(),
                terms == strings_view(pieces@).take(count as int),
                self.indent() == old(self).indent(),
                self.buffer() == old(self).buffer(),
                self.lines() == old(self).lines() + indented(terms.take(i as int), self.indent()),
        {
            let ghost before = self.lines();
            self.add_line(pieces[i].as_str());
            assert(indented(terms.take(i + 1), self.indent()) =~= indented(
                terms.take(i as int),
                self.indent(),
            ).push((self.indent(), terms[i as int])));
            assert(self.lines() =~= old(self).lines() + indented(terms.take(i + 1), self.indent()));
        }
        assert(terms.take(count as int) =~= terms);
    }

    /// Appends `val` to the buffer.
    pub fn write(&mut self, val: &str)
        ensures
            final(self).buffer() == old(self).buffer() + val@,
            final(self).lines() == old(self).lines(),
            final(self).indent() == old(self).indent(),
    {
        self.buffer.append(val)
    }

    /// Appends `val` to the buffer, then flushes it.
    pub fn writeln(&mut self, val: &str)
        ensures
            final(self).lines() == old(self).lines() + indented(
                split_terminated(old(self).buffer() + val@, '\n'),
                old(self).indent(),
            ),
            final(self).buffer() == Seq::<char>::empty(),
            final(self).indent() == old(self).indent(),
    {
        self.write(val);
        self.flush();
    }

    /// Adds the buffered text as lines and empties the buffer.
    pub fn flush(&mut self)
        ensures
            final(self).lines() == old(self).lines() + indented(
                split_terminated(old(self).buffer(), '\n'),
                old(self).indent(),
            ),
            final(self).buffer() == Seq::<char>::empty(),
            final(self).indent() == old(self).indent(),
    {
        let line = self.buffer.clone();
        self.add(line.as_str());
        self.buffer = String::new();
    }

    /// All lines, each indented by four spaces per level and ended by a newline.
    pub fn to_string(&self) -> (r: String)
        ensures
            r@ == render(self.lines()),
    {
        let mut buf = String::new();
        for k in 0..self.lines.len()
            invariant
                buf@ == render(self.lines().take(k as int)),
        {
            let indent = self.lines[k].0;
            let ghost start = buf@;
            for j in 0..indent
                invariant
                    buf@ == start + Seq::new(4 * j as nat, |i: int| ' '),
            {
                push_char(&mut buf, ' ');
                push_char(&mut buf, ' ');
                push_char(&mut buf, ' ');
                push_char(&mut buf, ' ');
                assert(buf@ =~= start + Seq::new(4 * (j + 1) as nat, |i: int| ' '));
            }
            buf.append(self.lines[k].1.as_str());
            push_char(&mut buf, '\n');
            proof {
                let ls = self.lines().take(k + 1);
                assert(ls.drop_last() =~= self.lines().take(k as int));
                assert(ls.last() == (indent, self.lines@[k as int].1@));
                assert(buf@ =~= render(ls));
            }
        }
        assert(self.lines().take(self.lines.len() as int) =~= self.lines());
        buf
    }
}

/// Text that holds no newline becomes at most one line, and exactly one
/// when it is not empty.
pub proof fn law_single_line(s: Seq<char>)
    requires
        !s.contains('\n'),
    ensures
        s.len() == 0 ==> split_terminated(s, '\n') == Seq::<Seq<char>>::empty(),
        s.len() > 0 ==> split_terminated(s, '\n') == seq![s],
{
    lemma_split_no_separator(s, '\n');
}

/// Without the separator, splitting gives the whole text as one piece.
pub proof fn lemma_split_no_separator(s: Seq<char>, c: char)
    requires
        !s.contains(c),
    ensures
        crate::text::lines::split_on(s, c) == seq![s],
    decreases s.len(),
{
    if s.len() > 0 {
        assert(!s.drop_last().contains(c)) by {
            if s.drop_last().contains(c) {
                let i = choose|i: int| 0 <= i < s.drop_last().len() && s.drop_last()[i] == c;
                assert(s[i] == c);
            }
        }
        lemma_split_no_separator(s.drop_last(), c);
        assert(s.last() != c) by {
            assert(s[s.len() - 1] == s.last());
        }
        assert(s.drop_last().push(s.last()) =~= s);
        let r = crate::text::lines::split_on(s.drop_last(), c);
        assert(r.update(r.len() - 1, r.last().push(s.last())) =~= seq![s]);
    } else {
        assert(s =~= Seq::<char>::empty());
    }
}

/// Printing is line by line: the print of more lines extends the print of
/// fewer.
pub proof fn law_render_appends(ls: Seq<(usize, Seq<char>)>, l: (usize, Seq<char>))
    ensures
        render(ls.push(l)) == render(ls) + render_line(l),
{
    assert(ls.push(l).drop_last() =~= ls);
}

} // verus!
