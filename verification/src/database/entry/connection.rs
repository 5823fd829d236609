//! Connections: what was made from what.

use crate::metadata::Metadata;
use super::action::Action;
use super::Entry;
use vstd::prelude::*;
use vstd::std_specs::cmp::PartialEqSpecImpl;

verus! {

/// A connection: the action that was taken, the datasets and transforms it
/// took, and those it gave.
#[derive(Debug)]
pub struct Connection {
    pub id: u64,
    pub md: Metadata,
    pub action: Action,
    pub in_data_ids: Vec<u64>,
    pub out_data_ids: Vec<u64>,
    pub in_transform_ids: Vec<u64>,
    pub out_transform_ids: Vec<u64>,
}

/// What a connection is, apart from how it is held in memory.
pub struct ConnectionView {
    pub id: u64,
    pub md: Map<Seq<char>, Seq<char>>,
    pub action: Action,
    pub in_data_ids: Seq<u64>,
    pub out_data_ids: Seq<u64>,
    pub in_transform_ids: Seq<u64>,
    pub out_transform_ids: Seq<u64>,
}

/// Whether two connections record the same action on the same ids, in the
/// same order.
pub open spec fn same_edge(a: ConnectionView, b: ConnectionView) -> bool {
    &&& a.action == b.action
    &&& a.in_data_ids == b.in_data_ids
    &&& a.out_data_ids == b.out_data_ids
    &&& a.in_transform_ids == b.in_transform_ids
    &&& a.out_transform_ids == b.out_transform_ids
}

impl View for Connection {
    type V = ConnectionView;

    open spec fn view(&self) -> ConnectionView {
        ConnectionView {
            id: self.id,
            md: self.md@,
            action: self.action,
            in_data_ids: self.in_data_ids@,
            out_data_ids: self.out_data_ids@,
            in_transform_ids: self.in_transform_ids@,
            out_transform_ids: self.out_transform_ids@,
        }
    }
}

impl Clone for Connection {
    fn clone(&self) -> (r: Connection)
        ensures
            r@ == self@,
    {
        Connection {
            id: self.id,
            md: self.md.clone(),
            action: self.action,
            in_data_ids: self.in_data_ids.clone(),
            out_data_ids: self.out_data_ids.clone(),
            in_transform_ids: self.in_transform_ids.clone(),
            out_transform_ids: self.out_transform_ids.clone(),
        }
    }
}

impl PartialEq for Connection {
    fn eq(&self, other: &Connection) -> (r: bool) {
        let r = self.action == other.action && self.in_data_ids == other.in_data_ids
            && self.out_data_ids == other.out_data_ids && self.in_transform_ids
            == other.in_transform_ids && self.out_transform_ids == other.out_transform_ids;
        proof {
            assert(self.in_data_ids@ == other.in_data_ids@ <==> self.in_data_ids@
                =~= other.in_data_ids@);
            assert(self.out_data_ids@ == other.out_data_ids@ <==> self.out_data_ids@
                =~= other.out_data_ids@);
            assert(self.in_transform_ids@ == other.in_transform_ids@ <==> self.in_transform_ids@
                =~= other.in_transform_ids@);
            assert(self.out_transform_ids@ == other.out_transform_ids@
                <==> self.out_transform_ids@ =~= other.out_transform_ids@);
        }
        r
    }
}

impl PartialEqSpecImpl for Connection {
    open spec fn obeys_eq_spec() -> bool {
        true
    }

    open spec fn eq_spec(&self, other: &Connection) -> bool {
        same_edge(self@, other@)
    }
}

impl Entry for Connection {
    open spec fn spec_id(&self) -> u64 {
        self.id
    }

    fn get_id(&self) -> (id: u64) {
        self.id
    }
}

} // verus!
