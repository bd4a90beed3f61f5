//! The check that no module's own logic writes to its input ports.
use crate::hdl_core::ast::{
    VerilogBlock, VerilogBlockOrConditional, VerilogCase, VerilogExpression, VerilogStatement,
};
use crate::hdl_core::atom::AtomKind;
use crate::hdl_core::ident_fixup::next_suffix;
use crate::text::chars::{chars_of, string_of};
use crate::hdl_core::block::Block;
use crate::hdl_core::check_error::{CheckError, PathedName};
use crate::hdl_core::named_path::{path_separator, NamedPath};
use crate::hdl_core::probe::{replay, AtomInfo, Probe, ProbeEvent};
use crate::text::lines::{join_seq, lemma_strings_view_push, strings_view};
use vstd::prelude::*;

verus! {

/// The name of a signal inside the namespaces `ns`: the namespaces and the
/// name joined by `$`.
pub open spec fn qualified_name(ns: Seq<Seq<char>>, name: Seq<char>) -> Seq<char> {
    if join_seq(ns, path_separator()).len() == 0 {
        name
    } else {
        join_seq(ns, path_separator()) + path_separator() + name
    }
}

/// The names among `ps` that also occur in `ws`, in the order of `ps`.
pub open spec fn written_params(ps: Seq<Seq<char>>, ws: Seq<Seq<char>>) -> Seq<Seq<char>>
    decreases ps.len(),
{
    if ps.len() == 0 {
        Seq::empty()
    } else {
        let rest = written_params(ps.drop_last(), ws);
        if ws.contains(ps.last()) {
            rest.push(ps.last())
        } else {
            rest
        }
    }
}

/// The path and name of each reported signal.
pub open spec fn pathed_view(v: Seq<PathedName>) -> Seq<(Seq<char>, Seq<char>)> {
    v.map_values(|p: PathedName| (p.path@, p.name@))
}

/// Collects, per module, its input ports, and reports those that the
/// module's own logic writes.
pub struct CheckInputsNotDriven {
    path: NamedPath,
    namespace: NamedPath,
    input_parameters: Vec<Vec<String>>,
    failures: Vec<PathedName>,
}

/// What the check has gathered: the open path, the open namespaces, the
/// input ports of each open module, and the ports reported.
pub type InputsView = (Seq<Seq<char>>, Seq<Seq<char>>, Seq<Seq<Seq<char>>>, Seq<(Seq<char>, Seq<char>)>);

/// The ports among `ps` that `ws` names, each with the path `path` joined
/// by `$`.
pub open spec fn reported(path: Seq<Seq<char>>, ps: Seq<Seq<char>>, ws: Seq<Seq<char>>) -> Seq<
    (Seq<char>, Seq<char>),
> {
    written_params(ps, ws).map_values(|p: Seq<char>| (join_seq(path, path_separator()), p))
}

/// The last element dropped, where there is one.
pub open spec fn popped<T>(s: Seq<T>) -> Seq<T> {
    if s.len() > 0 {
        s.drop_last()
    } else {
        s
    }
}

/// The check's view after one more step of a walk: a module opens with no
/// ports and no namespace; an input port is noted in the innermost open
/// module under its name qualified by the open namespaces; a module closes
/// reporting its ports that its own logic writes.
pub open spec fn inputs_step(v: InputsView, e: ProbeEvent) -> InputsView {
    match e {
        ProbeEvent::StartScope(n) => (v.0.push(n), Seq::empty(), v.2.push(Seq::empty()), v.3),
        ProbeEvent::StartNamespace(n) => (v.0, v.1.push(n), v.2, v.3),
        ProbeEvent::Atom(n, s) => (
            v.0,
            v.1,
            if s.kind == AtomKind::InputParameter && v.2.len() > 0 {
                v.2.update(v.2.len() - 1, v.2.last().push(qualified_name(v.1, n)))
            } else {
                v.2
            },
            v.3,
        ),
        ProbeEvent::EndNamespace(_) => (v.0, popped(v.1), v.2, v.3),
        ProbeEvent::EndScope(_, w) => (
            popped(v.0),
            v.1,
            popped(v.2),
            if v.2.len() > 0 {
                v.3 + reported(v.0, v.2.last(), w)
            } else {
                v.3
            },
        ),
    }
}

/// The input ports of a circuit that their module's own logic writes, with
/// the path of the module, as a walk under the name `uut` meets them.
pub open spec fn written_inputs<B: Block>(uut: B) -> Seq<(Seq<char>, Seq<char>)> {
    replay::<CheckInputsNotDriven>(
        (
            Seq::<Seq<char>>::empty(),
            Seq::<Seq<char>>::empty(),
            Seq::<Seq<Seq<char>>>::empty(),
            Seq::<(Seq<char>, Seq<char>)>::empty(),
        ),
        uut.walk("uut"@),
    ).3
}

impl View for CheckInputsNotDriven {
    type V = InputsView;

    closed spec fn view(&self) -> InputsView {
        (self.path(), self.namespace(), self.params(), self.failures())
    }
}

impl CheckInputsNotDriven {
    pub closed spec fn path(&self) -> Seq<Seq<char>> {
        self.path@
    }

    pub closed spec fn namespace(&self) -> Seq<Seq<char>> {
        self.namespace@
    }

    /// The input ports of each open module, outermost module first.
    pub closed spec fn params(&self) -> Seq<Seq<Seq<char>>> {
        self.input_parameters@.map_values(|v: Vec<String>| strings_view(v@))
    }

    /// The ports reported so far, with the path of their module.
    pub closed spec fn failures(&self) -> Seq<(Seq<char>, Seq<char>)> {
        pathed_view(self.failures@)
    }

    /// A visitor that has seen nothing yet.
    pub fn new() -> (r: Self)
        ensures
            r.path() == Seq::<Seq<char>>::empty(),
            r.namespace() == Seq::<Seq<char>>::empty(),
            r.params() == Seq::<Seq<Seq<char>>>::empty(),
            r.failures() == Seq::<(Seq<char>, Seq<char>)>::empty(),
    {
        let r = CheckInputsNotDriven {
            path: NamedPath::new(),
            namespace: NamedPath::new(),
            input_parameters: Vec::new(),
            failures: Vec::new(),
        };
        assert(r.params() =~= Seq::<Seq<Seq<char>>>::empty());
        assert(r.failures() =~= Seq::<(Seq<char>, Seq<char>)>::empty());
        r
    }

    /// `Ok` when no written input was found, else the written inputs.
    pub fn result(self) -> (r: Result<(), CheckError>)
        ensures
            self.failures().len() == 0 ==> r is Ok,
            self.failures().len() > 0 ==> (r matches Err(CheckError::WritesToInputs(v))
                && pathed_view(v@) == self.failures()),
    {
        if self.failures.len() == 0 {
            Ok(())
        } else {
            Err(CheckError::WritesToInputs(self.failures))
        }
    }
}

/// True when `ws` holds a string with the characters of `p`.
fn contains_string(ws: &Vec<String>, p: &String) -> (r: bool)
    ensures
        r == strings_view(ws@).contains(p@),
{
    for j in 0..ws.len()
        invariant
            forall|k: int| 0 <= k < j ==> strings_view(ws@)[k] != p@,
    {
        if ws[j] == *p {
            assert(strings_view(ws@)[j as int] == p@);
            return true;
        }
    }
    false
}

impl Probe for CheckInputsNotDriven {
    open spec fn step(v: InputsView, e: ProbeEvent) -> InputsView {
        inputs_step(v, e)
    }

    /// Opens a module: a fresh list of its input ports, and no namespace.
    fn visit_start_scope(&mut self, name: &str)
        ensures
            final(self).params() == old(self).params().push(Seq::empty()),
            final(self).path() == old(self).path().push(name@),
            final(self).namespace() == Seq::<Seq<char>>::empty(),
            final(self).failures() == old(self).failures(),
    {
        let empty: Vec<String> = Vec::new();
        assert(strings_view(empty@) =~= Seq::<Seq<char>>::empty());
        self.input_parameters.push(empty);
        assert(self.params() =~= old(self).params().push(Seq::empty()));
        self.path.push(name);
        self.namespace.reset();
    }

    fn visit_start_namespace(&mut self, name: &str)
        ensures
            final(self).namespace() == old(self).namespace().push(name@),
            final(self).params() == old(self).params(),
            final(self).path() == old(self).path(),
            final(self).failures() == old(self).failures(),
    {
        self.namespace.push(name);
    }

    /// Notes an input port of the innermost open module under its name
    /// qualified by the open namespaces.
    fn visit_atom(&mut self, name: &str, signal: &AtomInfo)
        ensures
            final(self).params() == if signal.kind == AtomKind::InputParameter && old(
                self,
            ).params().len() > 0 {
                old(self).params().update(
                    old(self).params().len() - 1,
                    old(self).params().last().push(qualified_name(old(self).namespace(), name@)),
                )
            } else {
                old(self).params()
            },
            final(self).namespace() == old(self).namespace(),
            final(self).path() == old(self).path(),
            final(self).failures() == old(self).failures(),
    {
        let namespace = self.namespace.flat("$");
        proof {
            reveal_strlit("$");
            assert("$"@ =~= path_separator());
        }
        let full = if namespace.as_str().is_empty() {
            name.to_owned()
        } else {
            let mut f = namespace;
            f.append("$");
            f.append(name);
            f
        };
        assert(full@ == qualified_name(self.namespace(), name@));
        if signal.kind == AtomKind::InputParameter && self.input_parameters.len() > 0 {
            let ghost before = self.input_parameters@;
            let mut top = self.input_parameters.pop().unwrap();
            let ghost top_before = top@;
            top.push(full);
            proof {
                lemma_strings_view_push(top_before, full);
            }
            self.input_parameters.push(top);
            assert(self.params() =~= old(self).params().update(
                old(self).params().len() - 1,
                old(self).params().last().push(qualified_name(old(self).namespace(), name@)),
            ));
        }
    }

    fn visit_end_namespace(&mut self, name: &str)
        ensures
            final(self).namespace() == if old(self).namespace().len() > 0 {
                old(self).namespace().drop_last()
            } else {
                old(self).namespace()
            },
            final(self).params() == old(self).params(),
            final(self).path() == old(self).path(),
            final(self).failures() == old(self).failures(),
    {
        self.namespace.pop();
    }

    /// Closes a module: each of its input ports that `written` names is
    /// reported with the module's path.
    fn visit_end_scope(&mut self, name: &str, written: &Vec<String>)
        ensures
            final(self).failures() == if old(self).params().len() > 0 {
                old(self).failures() + written_params(
                    old(self).params().last(),
                    strings_view(written@),
                ).map_values(
                    |p: Seq<char>| (join_seq(old(self).path(), path_separator()), p),
                )
            } else {
                old(self).failures()
            },
            final(self).params() == if old(self).params().len() > 0 {
                old(self).params().drop_last()
            } else {
                old(self).params()
            },
            final(self).path() == if old(self).path().len() > 0 {
                old(self).path().drop_last()
            } else {
                old(self).path()
            },
            final(self).namespace() == old(self).namespace(),
    {
        if self.input_parameters.len() > 0 {
            let here = self.path.to_string();
            let top = self.input_parameters.len() - 1;
            let ghost ps = old(self).params().last();
            let ghost ws = strings_view(written@);
            let ghost f0 = old(self).failures();
            assert(strings_view(self.input_parameters@[top as int]@) == ps);
            let n = self.input_parameters[top].len();
            for k in 0..n
                invariant
                    top == self.input_parameters@.len() - 1,
                    n == self.input_parameters@[top as int]@.len(),
                    strings_view(self.input_parameters@[top as int]@) == ps,
                    self.input_parameters@ == old(self).input_parameters@,
                    self.path() == old(self).path(),
                    self.namespace() == old(self).namespace(),
                    ws == strings_view(written@),
                    here@ == join_seq(old(self).path(), path_separator()),
                    self.failures() == f0 + written_params(ps.take(k as int), ws).map_values(
                        |p: Seq<char>| (here@, p),
                    ),
            {
                let param = &self.input_parameters[top][k];
                assert(param@ == ps[k as int]);
                assert(ps.take(k + 1).drop_last() =~= ps.take(k as int));
                assert(ps.take(k + 1).last() == ps[k as int]);
                let hit = contains_string(written, param);
                proof {
                    let t = ps.take(k + 1);
                    assert(t.len() == k + 1);
                    assert(t.drop_last() =~= ps.take(k as int));
                    assert(t.last() == ps[k as int]);
                    assert(hit == ws.contains(ps[k as int]));
                    assert(written_params(t, ws) == (if ws.contains(t.last()) {
                        written_params(t.drop_last(), ws).push(t.last())
                    } else {
                        written_params(t.drop_last(), ws)
                    }));
                }
                if hit {
                    let entry = PathedName { path: here.clone(), name: param.clone() };
                    let ghost before = self.failures@;
                    self.failures.push(entry);
                    proof {
                        let old_hits = written_params(ps.take(k as int), ws);
                        let new_hits = written_params(ps.take(k + 1), ws);
                        assert(new_hits == old_hits.push(ps[k as int]));
                        assert(pathed_view(self.failures@) =~= pathed_view(before).push(
                            (here@, ps[k as int]),
                        ));
                        assert(new_hits.map_values(|p: Seq<char>| (here@, p)) =~= old_hits.map_values(
                            |p: Seq<char>| (here@, p),
                        ).push((here@, ps[k as int])));
                    }
                    assert(self.failures() =~= f0 + written_params(
                        ps.take(k + 1),
                        ws,
                    ).map_values(|p: Seq<char>| (here@, p)));
                } else {
                    assert(written_params(ps.take(k + 1), ws) == written_params(
                        ps.take(k as int),
                        ws,
                    ));
                }
            }
            assert(ps.take(n as int) =~= ps);
            self.input_parameters.pop();
            assert(self.params() =~= old(self).params().drop_last());
            assert(self.failures() =~= f0 + reported(old(self).path(), ps, ws));
        }
        self.path.pop();
    }
}

/// Walks the circuit and reports every input port that its module's own
/// logic writes.
pub fn check_inputs_not_written<B: Block>(uut: &B) -> (r: Result<(), CheckError>)
    ensures
        r is Ok <==> written_inputs(*uut).len() == 0,
        written_inputs(*uut).len() > 0 ==> (r matches Err(CheckError::WritesToInputs(v))
            && pathed_view(v@) == written_inputs(*uut)),
{
    let mut visitor = CheckInputsNotDriven::new();
    uut.accept("uut", &mut visitor);
    visitor.result()
}

/// `s` with every `$next`, taken from the left, removed.
pub open spec fn drop_nexts(s: Seq<char>) -> Seq<char>
    decreases s.len(),
{
    if s.len() >= 5 && s.take(5) == next_suffix() {
        drop_nexts(s.skip(5))
    } else if s.len() == 0 {
        s
    } else {
        seq![s[0]] + drop_nexts(s.skip(1))
    }
}

/// The names of the signals in an expression, without `$next`.
pub open spec fn expr_signals(e: VerilogExpression) -> Set<Seq<char>>
    decreases e,
{
    match e {
        VerilogExpression::Signal(s) => set![drop_nexts(s@)],
        VerilogExpression::Literal(_) => Set::empty(),
        VerilogExpression::Cast(a, _) => expr_signals(*a),
        VerilogExpression::Paren(a) => expr_signals(*a),
        VerilogExpression::Binary(a, _, b) => expr_signals(*a).union(expr_signals(*b)),
        VerilogExpression::Unary(_, a) => expr_signals(*a),
        VerilogExpression::Index(a, b) => expr_signals(*a).union(expr_signals(*b)),
        VerilogExpression::Slice(a, _, b) => expr_signals(*a).union(expr_signals(*b)),
        VerilogExpression::IndexReplace(a, b, c) => expr_signals(*a).union(expr_signals(*b)).union(
            expr_signals(*c),
        ),
    }
}

/// The signals written by the first `n` statements of a block: those on the
/// left of an assignment, at any depth.
pub open spec fn walk_writes(b: Seq<VerilogStatement>, n: int) -> Set<Seq<char>>
    decreases b, n,
{
    if n <= 0 || n > b.len() {
        Set::empty()
    } else {
        walk_writes(b, n - 1).union(stmt_writes(b[n - 1]))
    }
}

/// The signals written after `else`.
pub open spec fn else_writes(e: VerilogBlockOrConditional) -> Set<Seq<char>>
    decreases e, 0int,
{
    match e {
        VerilogBlockOrConditional::Block(b) => walk_writes(b@, b@.len() as int),
        VerilogBlockOrConditional::Conditional(s) => stmt_writes(*s),
        VerilogBlockOrConditional::Nothing => Set::empty(),
    }
}

/// The signals written by the first `n` arms of a `case`.
pub open spec fn cases_writes(cs: Seq<VerilogCase>, n: int) -> Set<Seq<char>>
    decreases cs, n,
{
    if n <= 0 || n > cs.len() {
        Set::empty()
    } else {
        cases_writes(cs, n - 1).union(walk_writes(cs[n - 1].block@, cs[n - 1].block@.len() as int))
    }
}

/// The signals a statement writes.
pub open spec fn stmt_writes(s: VerilogStatement) -> Set<Seq<char>>
    decreases s, 0int,
{
    match s {
        VerilogStatement::Assignment(l, _) => expr_signals(l),
        VerilogStatement::SliceAssignment { base, .. } => set![drop_nexts(base@)],
        VerilogStatement::If(c) => walk_writes(c.then_block@, c.then_block@.len() as int).union(
            else_writes(c.otherwise),
        ),
        VerilogStatement::Match(m) => cases_writes(m.cases@, m.cases@.len() as int),
        VerilogStatement::Loop(l) => walk_writes(l.block@, l.block@.len() as int),
        VerilogStatement::Comment(_) => Set::empty(),
        VerilogStatement::Link(_) => Set::empty(),
    }
}

/// A name without `$next`.
fn without_nexts(s: &str) -> (r: String)
    ensures
        r@ == drop_nexts(s@),
{
    let cs = chars_of(s);
    let n = cs.len();
    let mut out: Vec<char> = Vec::new();
    let mut i: usize = 0;
    assert(cs@.skip(0) =~= cs@);
    assert(out@ + drop_nexts(cs@) =~= drop_nexts(cs@));
    while i < n
        invariant
            n == cs@.len(),
            i <= n,
            out@ + drop_nexts(cs@.skip(i as int)) == drop_nexts(cs@),
        decreases n - i,
    {
        let ghost rest = cs@.skip(i as int);
        if n - i >= 5 && cs[i] == '$' && cs[i + 1] == 'n' && cs[i + 2] == 'e' && cs[i + 3] == 'x'
            && cs[i + 4] == 't' {
            proof {
                assert(rest.take(5) =~= next_suffix());
                assert(rest.skip(5) =~= cs@.skip(i + 5));
            }
            i = i + 5;
        } else {
            proof {
                if rest.len() >= 5 && rest.take(5) == next_suffix() {
                    assert(rest.take(5)[0] == cs@[i as int]);
                    assert(rest.take(5)[1] == cs@[i + 1]);
                    assert(rest.take(5)[2] == cs@[i + 2]);
                    assert(rest.take(5)[3] == cs@[i + 3]);
                    assert(rest.take(5)[4] == cs@[i + 4]);
                }
                assert(rest.skip(1) =~= cs@.skip(i + 1));
                assert(out@.push(cs@[i as int]) + drop_nexts(cs@.skip(i + 1)) =~= out@ + (seq![
                    rest[0],
                ] + drop_nexts(rest.skip(1))));
            }
            out.push(cs[i]);
            i = i + 1;
        }
    }
    assert(cs@.skip(n as int) =~= Seq::<char>::empty());
    assert(out@ + Seq::<char>::empty() =~= out@);
    string_of(out.as_slice())
}

/// The names collected so far, each once.
struct WriteCollector {
    written: Vec<String>,
}

impl WriteCollector {
    /// The collected names as a set.
    closed spec fn names(&self) -> Set<Seq<char>> {
        strings_view(self.written@).to_set()
    }

    /// No name occurs twice.
    closed spec fn distinct(&self) -> bool {
        strings_view(self.written@).no_duplicates()
    }

    /// Adds a name unless it is there.
    fn note(&mut self, s: &str)
        requires
            old(self).distinct(),
        ensures
            final(self).distinct(),
            final(self).names() == old(self).names().insert(drop_nexts(s@)),
    {
        let name = without_nexts(s);
        let mut found = false;
        for i in 0..self.written.len()
            invariant
                found == exists|k: int| 0 <= k < i && strings_view(self.written@)[k] == name@,
        {
            proof {
                assert(strings_view(self.written@)[i as int] == self.written@[i as int]@);
            }
            if self.written[i] == name {
                found = true;
            }
        }
        if found {
            assert(self.names().insert(name@) =~= self.names());
        } else {
            let ghost before = strings_view(self.written@);
            proof {
                lemma_strings_view_push(self.written@, name);
            }
            self.written.push(name);
            assert(strings_view(self.written@) == before.push(name@));
            assert(self.names() =~= before.to_set().insert(name@)) by {
                assert forall|x: Seq<char>| self.names().contains(x) <==> before.to_set().insert(
                    name@,
                ).contains(x) by {
                    if x == name@ {
                        assert(strings_view(self.written@)[before.len() as int] == x);
                    }
                    if before.contains(x) {
                        let k = choose|k: int| 0 <= k < before.len() && before[k] == x;
                        assert(strings_view(self.written@)[k] == x);
                    }
                    if strings_view(self.written@).contains(x) {
                        let k = choose|k: int|
                            0 <= k < strings_view(self.written@).len() && strings_view(
                                self.written@,
                            )[k] == x;
                        if k < before.len() {
                            assert(before[k] == x);
                        }
                    }
                }
            }
            assert(strings_view(self.written@).no_duplicates()) by {
                assert forall|a: int, b: int|
                    0 <= a < b < strings_view(self.written@).len() implies strings_view(
                        self.written@,
                    )[a] != strings_view(self.written@)[b] by {
                    if b == before.len() {
                        assert(strings_view(self.written@)[a] == before[a]);
                    } else {
                        assert(strings_view(self.written@)[a] == before[a]);
                        assert(strings_view(self.written@)[b] == before[b]);
                    }
                }
            }
        }
    }

    /// Adds the signals of an expression.
    fn expression(&mut self, e: &VerilogExpression)
        requires
            old(self).distinct(),
        ensures
            final(self).distinct(),
            final(self).names() == old(self).names().union(expr_signals(*e)),
        decreases e,
    {
        let ghost n0 = self.names();
        match e {
            VerilogExpression::Signal(s) => {
                self.note(s.as_str());
                assert(self.names() =~= n0.union(expr_signals(*e)));
            },
            VerilogExpression::Literal(_) => {
                assert(self.names() =~= n0.union(expr_signals(*e)));
            },
            VerilogExpression::Cast(a, _) => {
                self.expression(a);
            },
            VerilogExpression::Paren(a) => {
                self.expression(a);
            },
            VerilogExpression::Binary(a, _, b) => {
                self.expression(a);
                self.expression(b);
                assert(self.names() =~= n0.union(expr_signals(*e)));
            },
            VerilogExpression::Unary(_, a) => {
                self.expression(a);
            },
            VerilogExpression::Index(a, b) => {
                self.expression(a);
                self.expression(b);
                assert(self.names() =~= n0.union(expr_signals(*e)));
            },
            VerilogExpression::Slice(a, _, b) => {
                self.expression(a);
                self.expression(b);
                assert(self.names() =~= n0.union(expr_signals(*e)));
            },
            VerilogExpression::IndexReplace(a, b, c) => {
                self.expression(a);
                self.expression(b);
                self.expression(c);
                assert(self.names() =~= n0.union(expr_signals(*e)));
            },
        }
    }

    /// Adds the signals written by the statements of a block.
    fn block(&mut self, b: &Vec<VerilogStatement>)
        requires
            old(self).distinct(),
        ensures
            final(self).distinct(),
            final(self).names() == old(self).names().union(walk_writes(b@, b@.len() as int)),
        decreases b@, b@.len(),
    {
        let ghost n0 = self.names();
        assert(n0.union(walk_writes(b@, 0)) =~= n0);
        for i in 0..b.len()
            invariant
                self.distinct(),
                self.names() == n0.union(walk_writes(b@, i as int)),
        {
            self.statement(&b[i]);
            assert(self.names() =~= n0.union(walk_writes(b@, i + 1)));
        }
    }

    /// Adds the signals written by the arms of a `case`.
    fn cases(&mut self, cs: &Vec<VerilogCase>)
        requires
            old(self).distinct(),
        ensures
            final(self).distinct(),
            final(self).names() == old(self).names().union(cases_writes(cs@, cs@.len() as int)),
        decreases cs@, cs@.len(),
    {
        let ghost n0 = self.names();
        assert(n0.union(cases_writes(cs@, 0)) =~= n0);
        for i in 0..cs.len()
            invariant
                self.distinct(),
                self.names() == n0.union(cases_writes(cs@, i as int)),
        {
            self.block(&cs[i].block);
            assert(self.names() =~= n0.union(cases_writes(cs@, i + 1)));
        }
    }

    /// Adds the signals written by a statement.
    fn statement(&mut self, s: &VerilogStatement)
        requires
            old(self).distinct(),
        ensures
            final(self).distinct(),
            final(self).names() == old(self).names().union(stmt_writes(*s)),
        decreases s, 0int,
    {
        let ghost n0 = self.names();
        match s {
            VerilogStatement::Assignment(l, _) => {
                self.expression(l);
            },
            VerilogStatement::SliceAssignment { base, .. } => {
                self.note(base.as_str());
                assert(self.names() =~= n0.union(stmt_writes(*s)));
            },
            VerilogStatement::If(c) => {
                self.block(&c.then_block);
                match &c.otherwise {
                    VerilogBlockOrConditional::Block(b) => {
                        self.block(b);
                    },
                    VerilogBlockOrConditional::Conditional(t) => {
                        self.statement(t);
                    },
                    VerilogBlockOrConditional::Nothing => {},
                }
                assert(self.names() =~= n0.union(stmt_writes(*s)));
            },
            VerilogStatement::Match(m) => {
                self.cases(&m.cases);
            },
            VerilogStatement::Loop(l) => {
                self.block(&l.block);
            },
            VerilogStatement::Comment(_) => {
                assert(self.names() =~= n0.union(stmt_writes(*s)));
            },
            VerilogStatement::Link(_) => {
                assert(self.names() =~= n0.union(stmt_writes(*s)));
            },
        }
    }
}

/// The signals that a block of code writes: each name on the left of an
/// assignment, at any depth, without `$next`, once.
pub fn get_write_list(code: &VerilogBlock) -> (r: Vec<String>)
    ensures
        strings_view(r@).to_set() == walk_writes(code@, code@.len() as int),
        strings_view(r@).no_duplicates(),
{
    let mut c = WriteCollector { written: Vec::new() };
    assert(strings_view(c.written@) =~= Seq::<Seq<char>>::empty());
    assert(c.names() =~= Set::<Seq<char>>::empty());
    c.block(code);
    assert(c.names() =~= walk_writes(code@, code@.len() as int));
    c.written
}

} // verus!
