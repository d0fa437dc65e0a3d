//! The membership registry: the authoritative set of known nodes.
//!
//! The registry is the single source of truth for who is a member of the
//! cluster. Its view is a finite map from node id to the node's record;
//! the size of that map is the membership that quorums are computed from.

use crate::clock::unix_millis_now;
use crate::table::{filed, lists_in_order, strictly_increasing, IdTable};
use vstd::prelude::*;

verus! {

/// Why a registry operation did not take place.
#[derive(Debug, Clone, Copy, PartialEq, Eq, Structural)]
pub enum RegistryError {
    /// The id names no registered node.
    NotFound,
}

/// How alive a node is believed to be.
#[derive(Debug, Clone, Copy, PartialEq, Eq, Structural)]
pub enum Liveness {
    /// Heartbeats arrive as expected.
    Alive,
    /// Enough heartbeats were missed to doubt the node.
    Suspect,
    /// The node is given up and awaits removal.
    Dead,
}

/// What the registry knows of one node.
#[derive(Debug, PartialEq, Eq)]
pub struct NodeInfo {
    pub node_id: u128,
    /// When the node was last heard of, in milliseconds since the Unix epoch.
    pub last_seen: i64,
    pub role: String,
    pub status: Liveness,
}

impl Clone for NodeInfo {
    fn clone(&self) -> (r: Self)
        ensures
            r == *self,
    {
        NodeInfo {
            node_id: self.node_id,
            last_seen: self.last_seen,
            role: self.role.clone(),
            status: self.status,
        }
    }
}

/// The record that `register` writes for a node seen at `now`.
pub open spec fn fresh_node(node_id: u128, role: String, now: i64) -> NodeInfo {
    NodeInfo { node_id, last_seen: now, role, status: Liveness::Alive }
}

/// The record of a node that was heard of again at `now`.
pub open spec fn touched(info: NodeInfo, now: i64) -> NodeInfo {
    NodeInfo { last_seen: now, status: Liveness::Alive, ..info }
}

/// The record of a node whose liveness was set to `status`.
pub open spec fn with_status(info: NodeInfo, status: Liveness) -> NodeInfo {
    NodeInfo { status, ..info }
}

/// Every record is filed under its own id.
pub open spec fn keyed_by_id(m: Map<u128, NodeInfo>) -> bool {
    forall|k: u128| m.contains_key(k) ==> (#[trigger] m[k]).node_id == k
}

/// The id that a node's record is filed under.
pub open spec fn node_key() -> spec_fn(NodeInfo) -> u128 {
    |n: NodeInfo| n.node_id
}

/// The members that a list of records stands for, by node id: where an
/// id occurs more than once, the last record with it counts.
pub open spec fn members_from(list: Seq<NodeInfo>) -> Map<u128, NodeInfo> {
    filed(list, node_key())
}

/// The set of known nodes, keyed by node id.
pub struct NodeRegistry {
    nodes: IdTable<NodeInfo>,
}

impl View for NodeRegistry {
    type V = Map<u128, NodeInfo>;

    closed spec fn view(&self) -> Map<u128, NodeInfo> {
        self.nodes@
    }
}

impl NodeRegistry {
    /// The representation invariant: the table is in order and every
    /// record is filed under its own id.
    pub closed spec fn wf(&self) -> bool {
        self.nodes.wf() && keyed_by_id(self.nodes@)
    }

    /// The ids of the members in increasing order.
    pub closed spec fn ids(&self) -> Seq<u128> {
        self.nodes.ids()
    }

    /// The records of the members in increasing order of node id.
    pub closed spec fn records(&self) -> Seq<NodeInfo> {
        self.nodes.values()
    }

    /// What a well-formed registry's view is known to satisfy.
    pub proof fn lemma_wf(&self)
        requires
            self.wf(),
        ensures
            self@.dom().finite(),
            keyed_by_id(self@),
            strictly_increasing(self.ids()),
            self.ids().to_set() == self@.dom(),
            self.ids().len() == self@.len(),
            self.records().len() == self.ids().len(),
            forall|i: int|
                0 <= i < self.records().len() ==> (#[trigger] self.records()[i]).node_id
                    == self.ids()[i],
            lists_in_order(self.records(), node_key(), self@),
            members_from(self.records()) == self@,
    {
        self.nodes.lemma_view();
        self.nodes.lemma_values_list(node_key());
    }

    /// A registry without members.
    pub fn new() -> (r: Self)
        ensures
            r.wf(),
            r@ == Map::<u128, NodeInfo>::empty(),
    {
        NodeRegistry { nodes: IdTable::new() }
    }

    /// The number of members.
    pub fn len(&self) -> (n: usize)
        requires
            self.wf(),
        ensures
            n == self@.len(),
    {
        self.nodes.len()
    }

    /// Registers `node_id` with `role` as seen at `now`, or replaces its
    /// record if it is known already.
    pub fn register_node_at(&mut self, node_id: u128, role: String, now: i64)
        requires
            old(self).wf(),
        ensures
            final(self).wf(),
            final(self)@ == old(self)@.insert(node_id, fresh_node(node_id, role, now)),
    {
        let info = NodeInfo { node_id, last_seen: now, role, status: Liveness::Alive };
        self.nodes.insert(node_id, info);
    }

    /// Registers `node_id` with `role` as seen now, or replaces its record
    /// if it is known already. The time is read from the clock, so the
    /// contract leaves `last_seen` open and fixes all the rest.
    pub fn register_node(&mut self, node_id: u128, role: String)
        requires
            old(self).wf(),
        ensures
            final(self).wf(),
            exists|now: i64|
                final(self)@ == old(self)@.insert(
                    node_id,
                    #[trigger] fresh_node(node_id, role, now),
                ),
    {
        let now = unix_millis_now();
        self.register_node_at(node_id, role, now);
    }

    /// Records that `node_id` was heard of at `now`: its `last_seen` is
    /// refreshed and it counts as alive again.
    pub fn update_last_seen_at(&mut self, node_id: u128, now: i64) -> (r: Result<
        (),
        RegistryError,
    >)
        requires
            old(self).wf(),
        ensures
            final(self).wf(),
            r is Ok <==> old(self)@.contains_key(node_id),
            r is Ok ==> final(self)@ == old(self)@.insert(
                node_id,
                touched(old(self)@[node_id], now),
            ),
            r is Err ==> r == Err::<(), RegistryError>(RegistryError::NotFound) && final(self)@
                == old(self)@,
    {
        match self.nodes.remove(node_id) {
            Some(info) => {
                let updated = NodeInfo {
                    node_id: info.node_id,
                    last_seen: now,
                    role: info.role,
                    status: Liveness::Alive,
                };
                self.nodes.insert(node_id, updated);
                assert(old(self)@.remove(node_id).insert(node_id, updated) =~= old(self)@.insert(
                    node_id,
                    updated,
                ));
                Ok(())
            },
            None => {
                assert(old(self)@.remove(node_id) =~= old(self)@);
                Err(RegistryError::NotFound)
            },
        }
    }

    /// Records that `node_id` was heard of just now. The time is read from
    /// the clock, so the contract leaves `last_seen` open.
    pub fn update_last_seen(&mut self, node_id: u128) -> (r: Result<(), RegistryError>)
        requires
            old(self).wf(),
        ensures
            final(self).wf(),
            r is Ok <==> old(self)@.contains_key(node_id),
            r is Ok ==> exists|now: i64|
                final(self)@ == old(self)@.insert(
                    node_id,
                    #[trigger] touched(old(self)@[node_id], now),
                ),
            r is Err ==> r == Err::<(), RegistryError>(RegistryError::NotFound) && final(self)@
                == old(self)@,
    {
        let now = unix_millis_now();
        self.update_last_seen_at(node_id, now)
    }

    /// Sets the liveness of `node_id`.
    pub fn set_status(&mut self, node_id: u128, status: Liveness) -> (r: Result<
        (),
        RegistryError,
    >)
        requires
            old(self).wf(),
        ensures
            final(self).wf(),
            r is Ok <==> old(self)@.contains_key(node_id),
            r is Ok ==> final(self)@ == old(self)@.insert(
                node_id,
                with_status(old(self)@[node_id], status),
            ),
            r is Err ==> r == Err::<(), RegistryError>(RegistryError::NotFound) && final(self)@
                == old(self)@,
    {
        match self.nodes.remove(node_id) {
            Some(info) => {
                let updated = NodeInfo {
                    node_id: info.node_id,
                    last_seen: info.last_seen,
                    role: info.role,
                    status,
                };
                self.nodes.insert(node_id, updated);
                assert(old(self)@.remove(node_id).insert(node_id, updated) =~= old(self)@.insert(
                    node_id,
                    updated,
                ));
                Ok(())
            },
            None => {
                assert(old(self)@.remove(node_id) =~= old(self)@);
                Err(RegistryError::NotFound)
            },
        }
    }

    /// Takes `node_id` out of the membership.
    pub fn remove_node(&mut self, node_id: u128) -> (r: Result<(), RegistryError>)
        requires
            old(self).wf(),
        ensures
            final(self).wf(),
            final(self)@ == old(self)@.remove(node_id),
            r == if old(self)@.contains_key(node_id) {
                Ok::<(), RegistryError>(())
            } else {
                Err::<(), RegistryError>(RegistryError::NotFound)
            },
    {
        match self.nodes.remove(node_id) {
            Some(_) => Ok(()),
            None => Err(RegistryError::NotFound),
        }
    }

    /// Whether `node_id` is a member.
    pub fn contains(&self, node_id: u128) -> (b: bool)
        requires
            self.wf(),
        ensures
            b == self@.contains_key(node_id),
    {
        self.nodes.contains_key(node_id)
    }

    /// The record of `node_id`, if it is a member.
    pub fn get_node_info(&self, node_id: u128) -> (r: Option<NodeInfo>)
        requires
            self.wf(),
        ensures
            r is Some <==> self@.contains_key(node_id),
            r matches Some(info) ==> info == self@[node_id] && info.node_id == node_id,
    {
        match self.nodes.get(node_id) {
            Some(info) => Some(info.clone()),
            None => None,
        }
    }

    /// A snapshot of all members, in increasing order of node id.
    pub fn list_active_nodes(&self) -> (list: Vec<NodeInfo>)
        requires
            self.wf(),
        ensures
            list@ == self.records(),
            list@.len() == self@.len(),
            lists_in_order(list@, node_key(), self@),
            members_from(list@) == self@,
            forall|i: int| 0 <= i < list@.len() ==> (#[trigger] list@[i]).node_id == self.ids()[i],
    {
        proof {
            self.nodes.lemma_view();
        }
        let n = self.nodes.len();
        let mut list: Vec<NodeInfo> = Vec::new();
        let mut i: usize = 0;
        while i < n
            invariant
                self.wf(),
                n == self.nodes.ids().len(),
                n == self.nodes.values().len(),
                i <= n,
                list@.len() == i,
                forall|j: int| 0 <= j < i ==> list@[j] == self.nodes.values()[j],
            decreases n - i,
        {
            let info = self.nodes.value_at(i).clone();
            list.push(info);
            i = i + 1;
        }
        proof {
            assert(list@ =~= self.nodes.values());
            self.lemma_wf();
        }
        list
    }

    /// The registry of the members that `list` stands for, each record
    /// taken as it is.
    pub fn from_records(list: &Vec<NodeInfo>) -> (r: Self)
        ensures
            r.wf(),
            r@ == members_from(list@),
    {
        let mut nodes: IdTable<NodeInfo> = IdTable::new();
        let mut i: usize = 0;
        while i < list.len()
            invariant
                nodes.wf(),
                keyed_by_id(nodes@),
                i <= list@.len(),
                nodes@ == members_from(list@.take(i as int)),
            decreases list@.len() - i,
        {
            proof {
                let next = list@.take(i + 1);
                assert(next.drop_last() =~= list@.take(i as int));
                assert(next.last() == list@[i as int]);
            }
            let info = list[i].clone();
            nodes.insert(info.node_id, info);
            i = i + 1;
        }
        assert(list@.take(i as int) =~= list@);
        NodeRegistry { nodes }
    }
}

} // verus!
