//! The check that every signal of a circuit is driven.
use crate::hdl_core::block::Block;
use crate::hdl_core::check_error::{CheckError, OpenConnection, OpenMap};
use crate::hdl_core::named_path::{path_separator, NamedPath};
use crate::hdl_core::probe::{replay, AtomInfo, Probe, ProbeEvent};
use crate::text::lines::join_seq;
use std::collections::HashMap;
use vstd::prelude::*;

verus! {

/// Collects the signals met during a walk that nothing drives, keyed by id,
/// with the path of the module they were met in.
pub struct CheckConnected {
    path: NamedPath,
    failures: OpenMap,
}

/// Open signals as the path of their module and their name, by id.
pub open spec fn connections_view(m: Map<usize, OpenConnection>) -> Map<usize, (Seq<char>, Seq<char>)> {
    m.map_values(|c: OpenConnection| (c.path@, c.name@))
}

/// What the check has gathered: the open path, and the open signals.
pub type ConnectedView = (Seq<Seq<char>>, Map<usize, (Seq<char>, Seq<char>)>);

/// The check's view after one more step of a walk: modules and namespaces
/// open and close on the path; a signal that nothing drives is recorded by
/// its id, with the path joined by `$` and its name.
pub open spec fn connected_step(v: ConnectedView, e: ProbeEvent) -> ConnectedView {
    match e {
        ProbeEvent::StartScope(n) => (v.0.push(n), v.1),
        ProbeEvent::StartNamespace(n) => (v.0.push(n), v.1),
        ProbeEvent::Atom(n, s) => if s.connected {
            v
        } else {
            (v.0, v.1.insert(s.id, (join_seq(v.0, path_separator()), n)))
        },
        ProbeEvent::EndNamespace(_) => (
            if v.0.len() > 0 {
                v.0.drop_last()
            } else {
                v.0
            },
            v.1,
        ),
        ProbeEvent::EndScope(_, _) => (
            if v.0.len() > 0 {
                v.0.drop_last()
            } else {
                v.0
            },
            v.1,
        ),
    }
}

/// The signals of a circuit that nothing drives, by id, with the path of
/// their module and their name, as a walk under the name `uut` meets them.
pub open spec fn open_signals<B: Block>(uut: B) -> Map<usize, (Seq<char>, Seq<char>)> {
    replay::<CheckConnected>(
        (Seq::<Seq<char>>::empty(), Map::<usize, (Seq<char>, Seq<char>)>::empty()),
        uut.walk("uut"@),
    ).1
}

impl View for CheckConnected {
    type V = ConnectedView;

    closed spec fn view(&self) -> ConnectedView {
        (self.path@, connections_view(self.failures@))
    }
}

impl CheckConnected {
    /// The path of the modules and namespaces currently open.
    pub closed spec fn path(&self) -> Seq<Seq<char>> {
        self.path@
    }

    /// The open signals found so far.
    pub closed spec fn failures(&self) -> Map<usize, OpenConnection> {
        self.failures@
    }

    /// A visitor that has seen nothing yet.
    pub fn new() -> (r: Self)
        ensures
            r.path() == Seq::<Seq<char>>::empty(),
            r.failures() == Map::<usize, OpenConnection>::empty(),
            r@ == (Seq::<Seq<char>>::empty(), Map::<usize, (Seq<char>, Seq<char>)>::empty()),
    {
        let r = CheckConnected { path: NamedPath::new(), failures: HashMap::new() };
        assert(connections_view(r.failures@) =~= Map::<usize, (Seq<char>, Seq<char>)>::empty());
        r
    }

    /// `Ok` when no open signal was found, else the open signals.
    pub fn result(self) -> (r: Result<(), CheckError>)
        ensures
            self.failures().is_empty() ==> r is Ok,
            !self.failures().is_empty() ==> (r matches Err(CheckError::OpenSignal(m)) && m@
                == self.failures()),
    {
        if self.failures.is_empty() {
            Ok(())
        } else {
            Err(CheckError::OpenSignal(self.failures))
        }
    }
}

impl Probe for CheckConnected {
    open spec fn step(v: ConnectedView, e: ProbeEvent) -> ConnectedView {
        connected_step(v, e)
    }

    fn visit_start_scope(&mut self, name: &str)
        ensures
            final(self).path() == old(self).path().push(name@),
            final(self).failures() == old(self).failures(),
    {
        self.path.push(name);
    }

    fn visit_start_namespace(&mut self, name: &str)
        ensures
            final(self).path() == old(self).path().push(name@),
            final(self).failures() == old(self).failures(),
    {
        self.path.push(name);
    }

    /// Records the signal when nothing drives it (a later record for the
    /// same id replaces an earlier one).
    fn visit_atom(&mut self, name: &str, signal: &AtomInfo)
        ensures
            final(self).path() == old(self).path(),
            signal.connected ==> final(self).failures() == old(self).failures(),
            !signal.connected ==> final(self).failures().dom() == old(self).failures().dom().insert(
                signal.id,
            ),
            !signal.connected ==> final(self).failures()[signal.id].path@ == join_seq(
                old(self).path(),
                path_separator(),
            ),
            !signal.connected ==> final(self).failures()[signal.id].name@ == name@,
            !signal.connected ==> forall|k: usize|
                k != signal.id && old(self).failures().contains_key(k) ==> #[trigger] final(self).failures()[k]
                    == old(self).failures()[k],
    {
        if !signal.connected {
            let oc = OpenConnection { path: self.path.to_string(), name: name.to_owned() };
            proof {
                broadcast use vstd::std_specs::hash::group_hash_axioms;
            }
            self.failures.insert(signal.id, oc);
            assert(connections_view(self.failures@) =~= connections_view(old(self).failures@).insert(
                signal.id,
                (join_seq(old(self).path(), path_separator()), name@),
            ));
        }
    }

    fn visit_end_namespace(&mut self, name: &str)
        ensures
            final(self).path() == if old(self).path().len() > 0 {
                old(self).path().drop_last()
            } else {
                old(self).path()
            },
            final(self).failures() == old(self).failures(),
    {
        self.path.pop();
    }

    fn visit_end_scope(&mut self, name: &str, written: &Vec<String>)
        ensures
            final(self).path() == if old(self).path().len() > 0 {
                old(self).path().drop_last()
            } else {
                old(self).path()
            },
            final(self).failures() == old(self).failures(),
    {
        self.path.pop();
    }
}

/// Walks the circuit and reports every signal that nothing drives.
pub fn check_connected<B: Block>(uut: &B) -> (r: Result<(), CheckError>)
    ensures
        r is Ok <==> open_signals(*uut).is_empty(),
        !open_signals(*uut).is_empty() ==> (r matches Err(CheckError::OpenSignal(m))
            && connections_view(m@) == open_signals(*uut)),
{
    let mut visitor = CheckConnected::new();
    uut.accept("uut", &mut visitor);
    visitor.result()
}

} // verus!
