//! Hierarchical names of the modules and signals in a circuit.
use crate::text::lines::{join_seq, join_strings, lemma_strings_view_push, strings_view};
use vstd::prelude::*;

verus! {

/// A path of names from the top of the circuit down, printed joined by `$`.
#[derive(Clone, Debug, Default)]
pub struct NamedPath {
    path: Vec<String>,
    namespace: Vec<String>,
}

/// The separator between the names of a path.
pub open spec fn path_separator() -> Seq<char> {
    seq!['$']
}

impl View for NamedPath {
    type V = Seq<Seq<char>>;

    /// The names, outermost first.
    closed spec fn view(&self) -> Seq<Seq<char>> {
        strings_view(self.path@)
    }
}

impl NamedPath {
    /// The empty path.
    pub fn new() -> (r: NamedPath)
        ensures
            r@ == Seq::<Seq<char>>::empty(),
    {
        let r = NamedPath { path: Vec::new(), namespace: Vec::new() };
        assert(r@ =~= Seq::<Seq<char>>::empty());
        r
    }

    /// Descends into `x`.
    pub fn push(&mut self, x: &str)
        ensures
            final(self)@ == old(self)@.push(x@),
    {
        self.path.push(x.to_owned());
        assert(self@ =~= old(self)@.push(x@));
    }

    /// Goes back up one level; the empty path stays empty.
    pub fn pop(&mut self)
        ensures
            final(self)@ == if old(self)@.len() > 0 {
                old(self)@.drop_last()
            } else {
                old(self)@
            },
    {
        self.path.pop();
        assert(self@ =~= if old(self)@.len() > 0 {
            old(self)@.drop_last()
        } else {
            old(self)@
        });
    }

    /// The path above the last name, joined by `$`.
    pub fn parent(&self) -> (r: String)
        requires
            self@.len() > 0,
        ensures
            r@ == join_seq(self@.drop_last(), path_separator()),
    {
        let mut above: Vec<String> = Vec::new();
        let n = self.path.len() - 1;
        for i in 0..n
            invariant
                n == self.path@.len() - 1,
                strings_view(above@) == strings_view(self.path@).take(i as int),
        {
            let ghost before = above@;
            let name = self.path[i].clone();
            above.push(name);
            proof {
                lemma_strings_view_push(before, name);
                assert(strings_view(above@) =~= strings_view(self.path@).take(i + 1));
            }
        }
        assert(strings_view(above@) =~= self@.drop_last());
        proof {
            reveal_strlit("$");
            assert("$"@ =~= path_separator());
        }
        join_strings(&above, "$")
    }

    /// The last name.
    pub fn last(&self) -> (r: String)
        requires
            self@.len() > 0,
        ensures
            r@ == self@.last(),
    {
        self.path[self.path.len() - 1].clone()
    }

    /// Back to the empty path.
    pub fn reset(&mut self)
        ensures
            final(self)@ == Seq::<Seq<char>>::empty(),
    {
        self.path.clear();
        assert(self@ =~= Seq::<Seq<char>>::empty());
    }

    /// The names joined by `sep`.
    pub fn flat(&self, sep: &str) -> (r: String)
        ensures
            r@ == join_seq(self@, sep@),
    {
        join_strings(&self.path, sep)
    }

    /// The number of names.
    pub fn len(&self) -> (r: usize)
        ensures
            r == self@.len(),
    {
        self.path.len()
    }

    /// The names joined by `$`.
    pub fn to_string(&self) -> (r: String)
        ensures
            r@ == join_seq(self@, path_separator()),
    {
        proof {
            reveal_strlit("$");
            assert("$"@ =~= path_separator());
        }
        join_strings(&self.path, "$")
    }
}

/// Entering a name and leaving it again gives back the path.
pub proof fn law_push_then_pop(path: Seq<Seq<char>>, name: Seq<char>)
    ensures
        path.push(name).drop_last() == path,
{
    assert(path.push(name).drop_last() =~= path);
}

/// After entering a name, the last name is that name and the parent is the
/// path as printed before.
pub proof fn law_parent_of_pushed(path: Seq<Seq<char>>, name: Seq<char>)
    ensures
        path.push(name).last() == name,
        join_seq(path.push(name).drop_last(), path_separator()) == join_seq(
            path,
            path_separator(),
        ),
{
    law_push_then_pop(path, name);
}

/// The printed path is the parent, a `$`, and the last name.
pub proof fn law_print_is_parent_and_last(path: Seq<Seq<char>>)
    requires
        path.len() >= 2,
    ensures
        join_seq(path, path_separator()) == join_seq(path.drop_last(), path_separator())
            + path_separator() + path.last(),
{
}

} // verus!
