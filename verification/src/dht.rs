//! The table of nodes used for discovery.
//!
//! Storing the table in a database and loading it from one is the
//! caller's work: the table hands out its rows and is built from rows.

use crate::table::{filed, lists_in_order, strictly_increasing, IdTable};
use vstd::prelude::*;

verus! {

/// What the table holds of one node.
#[derive(Debug, PartialEq, Eq)]
pub struct DhtNode {
    pub id: u128,
    pub address: String,
    pub role: String,
}

impl Clone for DhtNode {
    fn clone(&self) -> (r: Self)
        ensures
            r == *self,
    {
        DhtNode { id: self.id, address: self.address.clone(), role: self.role.clone() }
    }
}

/// The id that a node is filed under.
pub open spec fn node_key() -> spec_fn(DhtNode) -> u128 {
    |n: DhtNode| n.id
}

/// The nodes that a list of rows stands for, by node id: where an id
/// occurs more than once, the last row with it counts.
pub open spec fn nodes_from(rows: Seq<DhtNode>) -> Map<u128, DhtNode> {
    filed(rows, node_key())
}

/// Every node is filed under its own id.
pub open spec fn filed_by_node(m: Map<u128, DhtNode>) -> bool {
    forall|k: u128| m.contains_key(k) ==> (#[trigger] m[k]).id == k
}

/// The nodes known for discovery, by node id.
pub struct DHT {
    nodes: IdTable<DhtNode>,
}

impl View for DHT {
    type V = Map<u128, DhtNode>;

    closed spec fn view(&self) -> Map<u128, DhtNode> {
        self.nodes@
    }
}

impl DHT {
    /// The representation invariant.
    pub closed spec fn wf(&self) -> bool {
        self.nodes.wf() && filed_by_node(self.nodes@)
    }

    /// The ids of the nodes in increasing order.
    pub closed spec fn ids(&self) -> Seq<u128> {
        self.nodes.ids()
    }

    /// What a well-formed table's view is known to satisfy.
    pub proof fn lemma_wf(&self)
        requires
            self.wf(),
        ensures
            self@.dom().finite(),
            filed_by_node(self@),
            strictly_increasing(self.ids()),
            self.ids().to_set() == self@.dom(),
            self.ids().len() == self@.len(),
    {
        self.nodes.lemma_view();
    }

    /// A table without nodes.
    pub fn new() -> (r: Self)
        ensures
            r.wf(),
            r@ == Map::<u128, DhtNode>::empty(),
    {
        DHT { nodes: IdTable::new() }
    }

    /// Takes `node_info` in, in place of any node with its id.
    pub fn add_node(&mut self, node_info: DhtNode)
        requires
            old(self).wf(),
        ensures
            final(self).wf(),
            final(self)@ == old(self)@.insert(node_info.id, node_info),
    {
        self.nodes.insert(node_info.id, node_info);
    }

    /// Drops the node with id `node_id`, and says whether there was one.
    pub fn remove_node(&mut self, node_id: u128) -> (removed: bool)
        requires
            old(self).wf(),
        ensures
            final(self).wf(),
            final(self)@ == old(self)@.remove(node_id),
            removed == old(self)@.contains_key(node_id),
    {
        self.nodes.remove(node_id).is_some()
    }

    /// The node with id `node_id`, if it is known.
    pub fn get_node(&self, node_id: u128) -> (r: Option<DhtNode>)
        requires
            self.wf(),
        ensures
            r is Some <==> self@.contains_key(node_id),
            r matches Some(n) ==> n == self@[node_id] && n.id == node_id,
    {
        match self.nodes.get(node_id) {
            Some(n) => Some(n.clone()),
            None => None,
        }
    }

    /// All nodes, in increasing order of id.
    pub fn list_nodes(&self) -> (list: Vec<DhtNode>)
        requires
            self.wf(),
        ensures
            list@.len() == self@.len(),
            lists_in_order(list@, node_key(), self@),
            nodes_from(list@) == self@,
            forall|i: int| 0 <= i < list@.len() ==> (#[trigger] list@[i]).id == self.ids()[i],
    {
        proof {
            self.nodes.lemma_view();
        }
        let n: usize = self.nodes.len();
        let mut list: Vec<DhtNode> = Vec::new();
        let mut i: usize = 0;
        while i < n
            invariant
                self.wf(),
                n == self.nodes.ids().len(),
                n == self.nodes.values().len(),
                i <= n,
                list@.len() == i,
                forall|j: int| 0 <= j < i ==> list@[j] == self.nodes.values()[j],
            decreases n - i,
        {
            let node = self.nodes.value_at(i).clone();
            list.push(node);
            i = i + 1;
        }
        proof {
            assert(list@ =~= self.nodes.values());
            self.nodes.lemma_values_list(node_key());
        }
        list
    }
}

/// The rows to store for `dht`: one for each node, in increasing order of
/// id. Loaded again, they give the same table.
pub fn store_dht_in_db(dht: &DHT) -> (rows: Vec<DhtNode>)
    requires
        dht.wf(),
    ensures
        rows@.len() == dht@.len(),
        lists_in_order(rows@, node_key(), dht@),
        nodes_from(rows@) == dht@,
{
    dht.list_nodes()
}

/// The table that the rows loaded from a database stand for.
pub fn load_dht_from_db(rows: &Vec<DhtNode>) -> (dht: DHT)
    ensures
        dht.wf(),
        dht@ == nodes_from(rows@),
{
    let mut dht = DHT::new();
    let mut i: usize = 0;
    while i < rows.len()
        invariant
            dht.wf(),
            i <= rows@.len(),
            dht@ == nodes_from(rows@.take(i as int)),
        decreases rows@.len() - i,
    {
        proof {
            let next = rows@.take(i + 1);
            assert(next.drop_last() =~= rows@.take(i as int));
            assert(next.last() == rows@[i as int]);
        }
        dht.add_node(rows[i].clone());
        i = i + 1;
    }
    assert(rows@.take(i as int) =~= rows@);
    dht
}

} // verus!
