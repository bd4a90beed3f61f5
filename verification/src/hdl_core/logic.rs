//! Connecting the two sides of links and joins between interfaces.
use crate::hdl_core::ast::VerilogLink;
use vstd::prelude::*;

verus! {

/// An interface that can be linked to another of its kind.
pub trait LogicLink: Sized {
    /// `after` is this end once connected as the driving end of a link. An
    /// interface that does not define it says nothing of the connection.
    open spec fn connected_as_source(&self, after: Self) -> bool {
        true
    }

    /// `after` is this end once connected as the driven end of a link. An
    /// interface that does not define it says nothing of the connection.
    open spec fn connected_as_dest(&self, after: Self) -> bool {
        true
    }

    fn link(&mut self, other: &mut Self);

    fn link_hdl(&self, my_name: &str, this: &str, that: &str) -> Vec<VerilogLink>;

    fn link_connect_source(&mut self)
        ensures
            old(self).connected_as_source(*final(self)),
    ;

    fn link_connect_dest(&mut self)
        ensures
            old(self).connected_as_dest(*final(self)),
    ;
}

/// Connects both ends of a link: `source` as the driving end, `dest` as the
/// driven one.
pub fn logic_connect_link_fn<L: LogicLink>(source: &mut L, dest: &mut L)
    ensures
        old(source).connected_as_source(*final(source)),
        old(dest).connected_as_dest(*final(dest)),
{
    source.link_connect_source();
    dest.link_connect_dest();
}

/// An interface that can be joined to a matching one.
pub trait LogicJoin: Sized {
    /// `after` is this side once connected for a join. An interface that
    /// does not define it says nothing of the connection.
    open spec fn join_connected(&self, after: Self) -> bool {
        true
    }

    fn join_connect(&mut self)
        ensures
            old(self).join_connected(*final(self)),
    ;

    fn join_hdl(&self, my_name: &str, this: &str, that: &str) -> (r: Vec<VerilogLink>)
        default_ensures
            r@.len() == 0,
    {
        Vec::new()
    }
}

/// Connects both sides of a join.
pub fn logic_connect_join_fn<L: LogicJoin, K: LogicJoin>(source: &mut L, dest: &mut K)
    ensures
        old(source).join_connected(*final(source)),
        old(dest).join_connected(*final(dest)),
{
    source.join_connect();
    dest.join_connect();
}

} // verus!
