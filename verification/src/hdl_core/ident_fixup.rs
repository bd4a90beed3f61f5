//! How the Verilog generator turns the names of a circuit's signals into
//! Verilog identifiers: loop indices are replaced by their values, the
//! path separators `.` and `::` become `$`, the `$next` of a signal's next
//! value is dropped, and an array index expression `[...]` is evaluated
//! with the loop indices and written as `$` and the index.
use crate::hdl_core::ast::{VerilogLink, VerilogLinkDetails};
use crate::hdl_core::code_writer::CodeWriter;
use crate::text::chars::{chars_of, string_of};
use crate::text::decimal::{decimal_digits, decimal_string};
use evalexpr::{ContextWithMutableVariables, HashMapContext, Value};
use regex::Regex;
use vstd::prelude::*;

verus! {

/// A loop index of the code being generated, and its current value.
pub struct LoopVariable {
    pub variable: String,
    pub value: usize,
}

/// The loop indices as names and values.
pub open spec fn loops_view(loops: Seq<LoopVariable>) -> Seq<(Seq<char>, usize)> {
    loops.map_values(|l: LoopVariable| (l.variable@, l.value))
}

/// The loop indices as the expression evaluator's integer variables, in
/// order.
pub open spec fn loop_vars(loops: Seq<(Seq<char>, usize)>) -> Seq<(Seq<char>, i64)> {
    loops.map_values(|l: (Seq<char>, usize)| (l.0, l.1 as i64))
}

/// Named variables as names and values.
pub open spec fn vars_view(vars: Seq<(String, i64)>) -> Seq<(Seq<char>, i64)> {
    vars.map_values(|v: (String, i64)| (v.0@, v.1))
}

/// The text of an expression evaluated with the integer variables `vars`
/// bound in order (a later binding of a name in place of an earlier one),
/// written as the expression evaluator writes its values; `None` when the
/// evaluation fails.
pub uninterp spec fn evaluated(text: Seq<char>, vars: Seq<(Seq<char>, i64)>) -> Option<Seq<char>>;

/// The position of the first `c` in `s` at or after `from`.
pub open spec fn first_at(s: Seq<char>, c: char, from: int) -> Option<int>
    decreases s.len() - from,
{
    if from >= s.len() || from < 0 {
        None
    } else if s[from] == c {
        Some(from)
    } else {
        first_at(s, c, from + 1)
    }
}

/// The first index expression of `s`: the text before its first `[`, the
/// text between that `[` and the first `]` after it, and the text after
/// that `]`; `None` when no `]` follows a `[`.  This is the first match of
/// the pattern `\[([^\]]*)\]`.
pub open spec fn index_split(s: Seq<char>) -> Option<(Seq<char>, Seq<char>, Seq<char>)> {
    match first_at(s, '[', 0) {
        None => None,
        Some(i) => match first_at(s, ']', i + 1) {
            None => None,
            Some(j) => Some((s.take(i), s.subrange(i + 1, j), s.skip(j + 1))),
        },
    }
}

/// The three parts of an optional split, as character sequences.
pub open spec fn split_view(r: Option<(String, String, String)>) -> Option<
    (Seq<char>, Seq<char>, Seq<char>),
> {
    match r {
        None => None,
        Some((a, b, c)) => Some((a@, b@, c@)),
    }
}

/// The regular expression of an index expression: `[`, anything but `]`,
/// and `]`, the inside captured.
pub open spec fn index_pattern() -> Seq<char> {
    "\\[([^\\]]*)\\]"@
}

/// `Regex::captures` on `s` of the regular expression `pattern` compiled
/// by `Regex::new`, the pattern being that of an index expression: the
/// contract claims the first match is the one [index_split] describes.
#[verifier::external_body]
fn find_index(s: &str, pattern: &str) -> (r: Option<(String, String, String)>)
    requires
        pattern@ == index_pattern(),
    ensures
        split_view(r) == index_split(s@),
{
    let re = Regex::new(pattern).unwrap();
    re.captures(s).map(
        |c| {
            let m = c.get(0).unwrap();
            (s[..m.start()].to_string(), c[1].to_string(), s[m.end()..].to_string())
        },
    )
}

/// `evalexpr::eval_with_context` of `text` in a `HashMapContext` that
/// `HashMapContext::new` made and `set_value` filled with the integer
/// variables in order; the value is written with `Display`.  The contract
/// names the result [evaluated] of the text and the variables.
#[verifier::external_body]
fn evaluate(text: &str, vars: &Vec<(String, i64)>) -> (r: Option<String>)
    ensures
        (match r {
            Some(v) => Some(v@),
            None => None,
        }) == evaluated(text@, vars_view(vars@)),
{
    let mut c = HashMapContext::new();
    for (name, value) in vars.iter() {
        let _ = c.set_value(name.clone(), Value::Int(*value));
    }
    match evalexpr::eval_with_context(text, &c) {
        Ok(v) => Some(format!("{}", v)),
        Err(_) => None,
    }
}

/// `s` with each `.` replaced by `$`.
pub open spec fn dots_to_dollars(s: Seq<char>) -> Seq<char> {
    s.map_values(|c: char| if c == '.' { '$' } else { c })
}

/// `s` with each `::`, taken from the left, replaced by `$`.
pub open spec fn colons_to_dollars(s: Seq<char>) -> Seq<char>
    decreases s.len(),
{
    if s.len() < 2 {
        s
    } else if s[0] == ':' && s[1] == ':' {
        seq!['$'] + colons_to_dollars(s.skip(2))
    } else {
        seq![s[0]] + colons_to_dollars(s.skip(1))
    }
}

/// The suffix that marks the next value of a signal.
pub open spec fn next_suffix() -> Seq<char> {
    seq!['$', 'n', 'e', 'x', 't']
}

/// `s` without any number of trailing `$next`.
pub open spec fn trim_next(s: Seq<char>) -> Seq<char>
    decreases s.len(),
{
    if s.len() >= 5 && s.skip(s.len() - 5) == next_suffix() {
        trim_next(s.take(s.len() - 5))
    } else {
        s
    }
}

/// `x` after the loop indices in order: each index whose name `x` is at
/// that point becomes the index's value in decimal.
pub open spec fn substituted(x: Seq<char>, loops: Seq<(Seq<char>, usize)>) -> Seq<char>
    decreases loops.len(),
{
    if loops.len() == 0 {
        x
    } else {
        let y = substituted(x, loops.drop_last());
        if y == loops.last().0 {
            decimal_digits(loops.last().1 as nat)
        } else {
            y
        }
    }
}

/// A name with its loop indices replaced, a leading `.` dropped, `.` and
/// `::` made `$`, and trailing `$next` removed.
pub open spec fn plain_ident(a: Seq<char>, loops: Seq<(Seq<char>, usize)>) -> Seq<char> {
    let x = substituted(a, loops);
    let y = if x.len() > 0 && x[0] == '.' {
        x.skip(1)
    } else {
        x
    };
    trim_next(colons_to_dollars(dots_to_dollars(y)))
}

/// The index expression of `x`, if it has one, can be evaluated.
pub open spec fn index_evaluates(x: Seq<char>, loops: Seq<(Seq<char>, usize)>) -> bool {
    index_split(x) matches Some((_, e, _)) ==> evaluated(e, loop_vars(loops)) is Some
}

/// `x` with its first index expression `[e]` written as `$` and the value
/// of `e`.
pub open spec fn simplified(x: Seq<char>, loops: Seq<(Seq<char>, usize)>) -> Seq<char> {
    match index_split(x) {
        None => x,
        Some((p, e, s)) => p + seq!['$'] + evaluated(e, loop_vars(loops))->0 + s,
    }
}

/// The Verilog identifier for a name.
pub open spec fn fixed_ident(a: Seq<char>, loops: Seq<(Seq<char>, usize)>) -> Seq<char> {
    let x = plain_ident(a, loops);
    if x.contains('[') {
        simplified(x, loops)
    } else {
        x
    }
}

/// `s` with each `.` replaced by `$`.
fn replace_dots(s: &Vec<char>) -> (r: Vec<char>)
    ensures
        r@ == dots_to_dollars(s@),
{
    let mut r: Vec<char> = Vec::new();
    for i in 0..s.len()
        invariant
            r@ == dots_to_dollars(s@.take(i as int)),
    {
        let c = s[i];
        r.push(
            if c == '.' {
                '$'
            } else {
                c
            },
        );
        assert(dots_to_dollars(s@.take(i + 1)) =~= dots_to_dollars(s@.take(i as int)).push(
            if c == '.' {
                '$'
            } else {
                c
            },
        ));
    }
    assert(s@.take(s.len() as int) =~= s@);
    r
}

/// `s` with each `::` replaced by `$`.
fn replace_colons(s: &Vec<char>) -> (r: Vec<char>)
    ensures
        r@ == colons_to_dollars(s@),
{
    let mut r: Vec<char> = Vec::new();
    let n = s.len();
    let mut i: usize = 0;
    assert(s@.skip(0) =~= s@);
    assert(r@ + colons_to_dollars(s@) =~= colons_to_dollars(s@));
    while i < n
        invariant
            n == s.len(),
            i <= n,
            r@ + colons_to_dollars(s@.skip(i as int)) == colons_to_dollars(s@),
        decreases n - i,
    {
        let ghost rest = s@.skip(i as int);
        if i + 1 < n && s[i] == ':' && s[i + 1] == ':' {
            r.push('$');
            proof {
                assert(rest[0] == ':' && rest[1] == ':');
                assert(rest.skip(2) =~= s@.skip(i + 2));
                assert(seq!['$'] + colons_to_dollars(rest.skip(2)) == colons_to_dollars(rest));
            }
            i = i + 2;
        } else {
            r.push(s[i]);
            proof {
                assert(rest[0] == s@[i as int]);
                assert(rest.skip(1) =~= s@.skip(i + 1));
                if rest.len() >= 2 {
                    assert(seq![rest[0]] + colons_to_dollars(rest.skip(1)) == colons_to_dollars(
                        rest,
                    ));
                } else {
                    assert(rest.skip(1).len() == 0);
                    assert(rest =~= seq![rest[0]]);
                }
            }
            i = i + 1;
        }
    }
    assert(s@.skip(n as int) =~= Seq::<char>::empty());
    assert(r@ + Seq::<char>::empty() =~= r@);
    r
}

/// `s` without trailing `$next`.
fn trim_nexts(s: Vec<char>) -> (r: Vec<char>)
    ensures
        r@ == trim_next(s@),
{
    let mut r = s;
    let mut done = false;
    while !done
        invariant
            trim_next(r@) == trim_next(s@),
            done ==> trim_next(r@) == r@,
        decreases r.len() + (if done {
            0int
        } else {
            1
        }),
    {
        let n = r.len();
        if n >= 5 && r[n - 5] == '$' && r[n - 4] == 'n' && r[n - 3] == 'e' && r[n - 2] == 'x' && r[n
            - 1] == 't' {
            assert(r@.skip(n - 5) =~= next_suffix());
            let ghost before = r@;
            r.truncate(n - 5);
            assert(r@ =~= before.take(n - 5));
        } else {
            assert(!(r@.len() >= 5 && r@.skip(n - 5) == next_suffix())) by {
                if r@.len() >= 5 && r@.skip(n - 5) == next_suffix() {
                    assert(r@.skip(n - 5)[0] == r@[n - 5]);
                    assert(r@.skip(n - 5)[1] == r@[n - 4]);
                    assert(r@.skip(n - 5)[2] == r@[n - 3]);
                    assert(r@.skip(n - 5)[3] == r@[n - 2]);
                    assert(r@.skip(n - 5)[4] == r@[n - 1]);
                }
            }
            done = true;
        }
    }
    r
}

/// Whether `s` holds `c`.
fn has_char(s: &Vec<char>, c: char) -> (r: bool)
    ensures
        r == s@.contains(c),
{
    for i in 0..s.len()
        invariant
            forall|k: int| 0 <= k < i ==> s@[k] != c,
    {
        if s[i] == c {
            return true;
        }
    }
    false
}

/// The Verilog code generator: the text written so far, the loop indices
/// in scope (innermost last) and the links collected.
pub struct VerilogCodeGenerator {
    pub io: CodeWriter,
    pub loops: Vec<LoopVariable>,
    pub links: Vec<VerilogLink>,
}

impl VerilogCodeGenerator {
    /// A generator with nothing written, outside any loop.
    pub fn new() -> (g: Self)
        ensures
            g.loops@.len() == 0,
            g.links@.len() == 0,
            g.io.lines().len() == 0,
            g.io.indent() == 0,
            g.io.buffer().len() == 0,
    {
        VerilogCodeGenerator { io: CodeWriter::new(), loops: Vec::new(), links: Vec::new() }
    }

    /// The loop indices as the expression evaluator's variables.
    fn index_vars(&self) -> (vars: Vec<(String, i64)>)
        ensures
            vars_view(vars@) == loop_vars(loops_view(self.loops@)),
    {
        let mut vars: Vec<(String, i64)> = Vec::new();
        for i in 0..self.loops.len()
            invariant
                vars_view(vars@) == loop_vars(loops_view(self.loops@)).take(i as int),
        {
            #[verifier::truncate]
            let value = self.loops[i].value as i64;
            let name = String::from_str(self.loops[i].variable.as_str());
            assert(name@ == self.loops@[i as int].variable@);
            let ghost before = vars@;
            vars.push((name, value));
            proof {
                let lv = loop_vars(loops_view(self.loops@));
                assert(lv[i as int] == (self.loops@[i as int].variable@, value));
                assert(vars@ == before.push((name, value)));
                assert(vars_view(vars@) =~= vars_view(before).push((name@, value)));
                assert(vars_view(vars@) =~= lv.take(i + 1));
            }
        }
        assert(loop_vars(loops_view(self.loops@)).take(self.loops.len() as int) =~= loop_vars(
            loops_view(self.loops@),
        ));
        vars
    }

    /// The name with its first index expression evaluated and written as
    /// `$` and the value.
    pub fn array_index_simplification(&self, a: &str) -> (r: String)
        requires
            index_evaluates(a@, loops_view(self.loops@)),
        ensures
            r@ == simplified(a@, loops_view(self.loops@)),
    {
        match find_index(a, "\\[([^\\]]*)\\]") {
            None => String::from_str(a),
            Some((prefix, expr, suffix)) => {
                let vars = self.index_vars();
                let value = evaluate(expr.as_str(), &vars);
                let mut r = prefix;
                r.append("$");
                proof {
                    reveal_strlit("$");
                }
                match value {
                    Some(v) => {
                        r.append(v.as_str());
                    },
                    None => {},
                }
                r.append(suffix.as_str());
                r
            },
        }
    }

    /// The name with its loop indices replaced, without path separators or
    /// `$next`.
    fn plain(&self, a: &str) -> (r: Vec<char>)
        ensures
            r@ == plain_ident(a@, loops_view(self.loops@)),
    {
        let mut x = String::from_str(a);
        for i in 0..self.loops.len()
            invariant
                x@ == substituted(a@, loops_view(self.loops@).take(i as int)),
        {
            proof {
                assert(loops_view(self.loops@).take(i + 1).drop_last() =~= loops_view(
                    self.loops@,
                ).take(i as int));
            }
            if x == self.loops[i].variable {
                x = decimal_string(self.loops[i].value as u64);
            }
        }
        assert(loops_view(self.loops@).take(self.loops.len() as int) =~= loops_view(
            self.loops@,
        ));
        let mut cs = chars_of(x.as_str());
        if cs.len() > 0 && cs[0] == '.' {
            cs.remove(0);
            assert(cs@ =~= x@.skip(1));
        }
        trim_nexts(replace_colons(&replace_dots(&cs)))
    }

    /// The name with its loop indices replaced, without path separators or
    /// `$next`, its index expression evaluated.
    pub fn ident_fixup(&self, a: &str) -> (r: String)
        requires
            index_evaluates(plain_ident(a@, loops_view(self.loops@)), loops_view(self.loops@)),
        ensures
            r@ == fixed_ident(a@, loops_view(self.loops@)),
    {
        let cs = self.plain(a);
        let y = string_of(cs.as_slice());
        if has_char(&cs, '[') {
            self.array_index_simplification(y.as_str())
        } else {
            y
        }
    }

    /// The names of a link, each made a Verilog identifier.
    pub fn link_fixup(&self, x: &VerilogLinkDetails) -> (r: VerilogLinkDetails)
        requires
            index_evaluates(plain_ident(x.my_name@, loops_view(self.loops@)), loops_view(self.loops@)),
            index_evaluates(
                plain_ident(x.owner_name@, loops_view(self.loops@)),
                loops_view(self.loops@),
            ),
            index_evaluates(
                plain_ident(x.other_name@, loops_view(self.loops@)),
                loops_view(self.loops@),
            ),
        ensures
            r.my_name@ == fixed_ident(x.my_name@, loops_view(self.loops@)),
            r.owner_name@ == fixed_ident(x.owner_name@, loops_view(self.loops@)),
            r.other_name@ == fixed_ident(x.other_name@, loops_view(self.loops@)),
    {
        VerilogLinkDetails {
            my_name: self.ident_fixup(x.my_name.as_str()),
            owner_name: self.ident_fixup(x.owner_name.as_str()),
            other_name: self.ident_fixup(x.other_name.as_str()),
        }
    }

    /// Whether the name's index expression, if any, can be evaluated.
    pub fn index_can_be_evaluated(&self, a: &str) -> (r: bool)
        ensures
            r == index_evaluates(plain_ident(a@, loops_view(self.loops@)), loops_view(self.loops@)),
    {
        let cs = self.plain(a);
        let y = string_of(cs.as_slice());
        match find_index(y.as_str(), "\\[([^\\]]*)\\]") {
            None => true,
            Some((_, expr, _)) => {
                let vars = self.index_vars();
                evaluate(expr.as_str(), &vars).is_some()
            },
        }
    }

    /// The Verilog identifier for a name, or `None` when its index
    /// expression cannot be evaluated.
    pub fn try_ident_fixup(&self, a: &str) -> (r: Option<String>)
        ensures
            r is Some <==> index_evaluates(
                plain_ident(a@, loops_view(self.loops@)),
                loops_view(self.loops@),
            ),
            r matches Some(s) ==> s@ == fixed_ident(a@, loops_view(self.loops@)),
    {
        if self.index_can_be_evaluated(a) {
            Some(self.ident_fixup(a))
        } else {
            None
        }
    }
}

proof fn lemma_colons_keep_no_dots(s: Seq<char>)
    requires
        !s.contains('.'),
    ensures
        !colons_to_dollars(s).contains('.'),
    decreases s.len(),
{
    if s.len() >= 2 {
        if s[0] == ':' && s[1] == ':' {
            assert(!s.skip(2).contains('.')) by {
                if s.skip(2).contains('.') {
                    let k = choose|k: int| 0 <= k < s.skip(2).len() && s.skip(2)[k] == '.';
                    assert(s[k + 2] == '.');
                }
            }
            lemma_colons_keep_no_dots(s.skip(2));
            let r = colons_to_dollars(s.skip(2));
            assert(!(seq!['$'] + r).contains('.')) by {
                if (seq!['$'] + r).contains('.') {
                    let k = choose|k: int| 0 <= k < (seq!['$'] + r).len() && (seq!['$'] + r)[k]
                        == '.';
                    assert(r[k - 1] == '.');
                }
            }
        } else {
            assert(!s.skip(1).contains('.')) by {
                if s.skip(1).contains('.') {
                    let k = choose|k: int| 0 <= k < s.skip(1).len() && s.skip(1)[k] == '.';
                    assert(s[k + 1] == '.');
                }
            }
            lemma_colons_keep_no_dots(s.skip(1));
            let r = colons_to_dollars(s.skip(1));
            assert(s[0] != '.') by {
                assert(s[0] == s[0]);
                if s[0] == '.' {
                    assert(s.contains('.'));
                }
            }
            assert(!(seq![s[0]] + r).contains('.')) by {
                if (seq![s[0]] + r).contains('.') {
                    let k = choose|k: int| 0 <= k < (seq![s[0]] + r).len() && (seq![s[0]] + r)[k]
                        == '.';
                    if k > 0 {
                        assert(r[k - 1] == '.');
                    }
                }
            }
        }
    }
}

proof fn lemma_trim_keeps_no_dots(s: Seq<char>)
    requires
        !s.contains('.'),
    ensures
        !trim_next(s).contains('.'),
    decreases s.len(),
{
    if s.len() >= 5 && s.skip(s.len() - 5) == next_suffix() {
        let t = s.take(s.len() - 5);
        assert(!t.contains('.')) by {
            if t.contains('.') {
                let k = choose|k: int| 0 <= k < t.len() && t[k] == '.';
                assert(s[k] == '.');
            }
        }
        lemma_trim_keeps_no_dots(t);
    }
}

/// Law: the plain form of a name holds no `.`: path separators become
/// `$`, whatever the name and the loop indices.
pub proof fn law_plain_ident_has_no_dots(a: Seq<char>, loops: Seq<(Seq<char>, usize)>)
    ensures
        !plain_ident(a, loops).contains('.'),
{
    let x = substituted(a, loops);
    let y = if x.len() > 0 && x[0] == '.' {
        x.skip(1)
    } else {
        x
    };
    let d = dots_to_dollars(y);
    assert(!d.contains('.')) by {
        if d.contains('.') {
            let k = choose|k: int| 0 <= k < d.len() && d[k] == '.';
            assert(d[k] == (if y[k] == '.' {
                '$'
            } else {
                y[k]
            }));
        }
    }
    lemma_colons_keep_no_dots(d);
    lemma_trim_keeps_no_dots(colons_to_dollars(d));
}

proof fn lemma_trimmed_has_no_next(s: Seq<char>)
    ensures
        !(trim_next(s).len() >= 5 && trim_next(s).skip(trim_next(s).len() - 5) == next_suffix()),
    decreases s.len(),
{
    if s.len() >= 5 && s.skip(s.len() - 5) == next_suffix() {
        lemma_trimmed_has_no_next(s.take(s.len() - 5));
    }
}

/// Law: the plain form of a name does not end in `$next`, whatever the
/// name and the loop indices.
pub proof fn law_plain_ident_has_no_next(a: Seq<char>, loops: Seq<(Seq<char>, usize)>)
    ensures
        !next_suffix().is_suffix_of(plain_ident(a, loops)),
{
    let x = substituted(a, loops);
    let y = if x.len() > 0 && x[0] == '.' {
        x.skip(1)
    } else {
        x
    };
    let c = colons_to_dollars(dots_to_dollars(y));
    lemma_trimmed_has_no_next(c);
    let t = trim_next(c);
    if next_suffix().is_suffix_of(t) {
        assert(t.skip(t.len() - 5) =~= t.subrange(t.len() - 5, t.len() as int));
    }
}

} // verus!
