//! The load balancer: how many tasks each node is believed to hold, and the
//! choice of the least-loaded node for the next one.
//!
//! The view is a finite map from node id to task count. The choice is
//! deterministic: the lowest count wins, and among equal counts the lowest id.

use crate::table::{strictly_increasing, IdTable};
use vstd::prelude::*;

verus! {

/// The load of one node, as reported or as read from the balancer.
#[derive(Debug, Clone, Copy, PartialEq, Eq, Structural)]
pub struct NodeLoadInfo {
    pub node_id: u128,
    pub task_count: usize,
}

/// What became of a completion signal.
#[derive(Debug, Clone, Copy, PartialEq, Eq, Structural)]
pub enum Completion {
    /// One task fewer is counted on the node.
    Released,
    /// The node had no task counted: the count stays at zero. This is an
    /// anomaly that the caller is expected to log.
    AlreadyIdle,
    /// The balancer does not know the node; nothing changed.
    UnknownNode,
}

/// Node `a` is taken before node `b`: it holds fewer tasks, or as many and
/// has the lower id (or is `b` itself).
pub open spec fn before(m: Map<u128, usize>, a: u128, b: u128) -> bool {
    m[a] < m[b] || (m[a] == m[b] && a <= b)
}

/// Node `id` is the one that the next task goes to.
pub open spec fn is_least_loaded(m: Map<u128, usize>, id: u128) -> bool {
    m.contains_key(id) && forall|k: u128| m.contains_key(k) ==> before(m, id, k)
}

/// One more task, held at the largest count that fits.
pub open spec fn one_more(c: usize) -> usize {
    if c < usize::MAX {
        (c + 1) as usize
    } else {
        c
    }
}

/// One task fewer, held at zero.
pub open spec fn one_less(c: usize) -> usize {
    if c > 0 {
        (c - 1) as usize
    } else {
        0
    }
}

/// The counts after a task was given to `id`.
pub open spec fn after_assign(m: Map<u128, usize>, id: u128) -> Map<u128, usize> {
    m.insert(id, one_more(m[id]))
}

/// The counts after a completion was signalled for `id`.
pub open spec fn after_complete(m: Map<u128, usize>, id: u128) -> Map<u128, usize> {
    if m.contains_key(id) {
        m.insert(id, one_less(m[id]))
    } else {
        m
    }
}

/// What a completion signalled for `id` is answered with.
pub open spec fn completion_of(m: Map<u128, usize>, id: u128) -> Completion {
    if !m.contains_key(id) {
        Completion::UnknownNode
    } else if m[id] == 0 {
        Completion::AlreadyIdle
    } else {
        Completion::Released
    }
}

/// The counts after an authoritative report of `count` tasks on `id`.
pub open spec fn after_sync(m: Map<u128, usize>, id: u128, count: usize) -> Map<u128, usize> {
    if m.contains_key(id) {
        m.insert(id, count)
    } else {
        m
    }
}

/// The node that the next task goes to, if there is a node.
pub open spec fn next_node(m: Map<u128, usize>) -> Option<u128> {
    if exists|id: u128| is_least_loaded(m, id) {
        Some(choose|id: u128| is_least_loaded(m, id))
    } else {
        None
    }
}

/// A call on the balancer that changes its counts.
#[derive(Debug, Clone, Copy, PartialEq, Eq, Structural)]
pub enum BalancerCall {
    /// Give the next task to the least-loaded node.
    Assign,
    /// A task on this node is done.
    Complete(u128),
}

/// The counts after `call`.
pub open spec fn after_call(m: Map<u128, usize>, call: BalancerCall) -> Map<u128, usize> {
    match call {
        BalancerCall::Assign => match next_node(m) {
            Some(id) => after_assign(m, id),
            None => m,
        },
        BalancerCall::Complete(id) => after_complete(m, id),
    }
}

/// The counts after a sequence of calls, taken in order.
pub open spec fn after_calls(m: Map<u128, usize>, calls: Seq<BalancerCall>) -> Map<u128, usize>
    decreases calls.len(),
{
    if calls.len() == 0 {
        m
    } else {
        after_call(after_calls(m, calls.drop_last()), calls.last())
    }
}

/// At most one node is the least loaded.
pub proof fn lemma_least_loaded_unique(m: Map<u128, usize>, a: u128, b: u128)
    requires
        is_least_loaded(m, a),
        is_least_loaded(m, b),
    ensures
        a == b,
{
    assert(before(m, a, b));
    assert(before(m, b, a));
}

/// Two tasks in a row go to the same node only if, after the first, no
/// other node holds strictly fewer tasks than it does.
pub proof fn lemma_no_repeat_past_lighter_node(m: Map<u128, usize>, first: u128, second: u128)
    requires
        is_least_loaded(m, first),
        is_least_loaded(after_assign(m, first), second),
    ensures
        first == second ==> forall|k: u128|
            m.contains_key(k) ==> after_assign(m, first)[first] <= #[trigger] after_assign(
                m,
                first,
            )[k],
        (exists|k: u128|
            m.contains_key(k) && after_assign(m, first)[k] < after_assign(m, first)[first])
            ==> first != second,
{
    let m1 = after_assign(m, first);
    if first == second {
        assert forall|k: u128| m.contains_key(k) implies m1[first] <= #[trigger] m1[k] by {
            assert(m1.contains_key(k));
            assert(before(m1, second, k));
        }
    }
}

/// The least-loaded node is the next node, and there is no other.
pub proof fn lemma_next_node(m: Map<u128, usize>, id: u128)
    ensures
        is_least_loaded(m, id) <==> next_node(m) == Some(id),
{
    if is_least_loaded(m, id) {
        let chosen = choose|id: u128| is_least_loaded(m, id);
        lemma_least_loaded_unique(m, id, chosen);
    }
}

/// Whatever sequence of assignments and completions has been made, the
/// nodes are those there were, every count is at least zero, and the
/// next task goes to a node than which none holds fewer tasks: so two
/// tasks in a row go to one node only if no node holds fewer than it does
/// after the first.
pub proof fn lemma_calls_keep_the_balance(m: Map<u128, usize>, calls: Seq<BalancerCall>)
    ensures
        after_calls(m, calls).dom() == m.dom(),
        forall|k: u128| m.contains_key(k) ==> after_calls(m, calls)[k] >= 0,
        next_node(after_calls(m, calls)) matches Some(id) ==> forall|k: u128|
            m.contains_key(k) ==> after_calls(m, calls)[id] <= #[trigger] after_calls(m, calls)[k],
        next_node(after_calls(m, calls)) matches Some(first) ==> (next_node(
            after_calls(m, calls.push(BalancerCall::Assign)),
        ) == Some(first) ==> forall|k: u128|
            m.contains_key(k) ==> after_calls(m, calls.push(BalancerCall::Assign))[first]
                <= #[trigger] after_calls(m, calls.push(BalancerCall::Assign))[k]),
    decreases calls.len(),
{
    let reached = after_calls(m, calls);
    if calls.len() > 0 {
        lemma_calls_keep_the_balance(m, calls.drop_last());
        let before = after_calls(m, calls.drop_last());
        assert(reached.dom() =~= before.dom());
    }
    match next_node(reached) {
        Some(id) => {
            assert(is_least_loaded(reached, id));
            assert forall|k: u128| m.contains_key(k) implies reached[id] <= #[trigger] reached[k] by {
                assert(reached.contains_key(k));
                assert(before(reached, id, k));
            }
            let longer = calls.push(BalancerCall::Assign);
            assert(longer.drop_last() =~= calls);
            assert(longer.last() == BalancerCall::Assign);
            let after = after_calls(m, longer);
            assert(after == after_assign(reached, id));
            assert(after.dom() =~= reached.dom());
            if next_node(after) == Some(id) {
                assert(is_least_loaded(after, id));
                assert forall|k: u128| m.contains_key(k) implies after[id] <= #[trigger] after[k] by {
                    assert(after.contains_key(k));
                    assert(before(after, id, k));
                }
            }
        },
        None => {},
    }
}

/// Completions never take a count below zero, whatever their number: a
/// count is lowered by one while it is positive and stays at zero after.
pub proof fn lemma_complete_floors_at_zero(m: Map<u128, usize>, id: u128)
    requires
        m.contains_key(id),
    ensures
        after_complete(m, id).dom() == m.dom(),
        after_complete(m, id)[id] == if m[id] > 0 {
            m[id] - 1
        } else {
            0
        },
        after_complete(m, id)[id] >= 0,
        forall|k: u128| m.contains_key(k) && k != id ==> after_complete(m, id)[k] == m[k],
{
    assert(after_complete(m, id).dom() =~= m.dom());
}

/// An index below `n` picked at random, or nothing where `n` is zero.
///
/// Calls `rand::seq::IteratorRandom::choose` on the range `0..n` with the
/// thread's generator. The contract states what rand documents of every
/// outcome: `None` if and only if the range is empty, else one of its
/// items. Which one is left open. rand panics when the system cannot seed
/// the generator; no argument can bring that about.
#[verifier::external_body]
fn pick_index(n: usize) -> (r: Option<usize>)
    ensures
        r is None <==> n == 0,
        r matches Some(i) ==> i < n,
{
    rand::seq::IteratorRandom::choose(0..n, &mut rand::thread_rng())
}

/// The task count of every node that tasks can be given to.
pub struct LoadBalancer {
    nodes: IdTable<usize>,
}

impl View for LoadBalancer {
    type V = Map<u128, usize>;

    closed spec fn view(&self) -> Map<u128, usize> {
        self.nodes@
    }
}

impl LoadBalancer {
    /// The representation invariant.
    pub closed spec fn wf(&self) -> bool {
        self.nodes.wf()
    }

    /// The ids of the nodes in increasing order.
    pub closed spec fn ids(&self) -> Seq<u128> {
        self.nodes.ids()
    }

    /// What a well-formed balancer's view is known to satisfy.
    pub proof fn lemma_wf(&self)
        requires
            self.wf(),
        ensures
            self@.dom().finite(),
            strictly_increasing(self.ids()),
            self.ids().to_set() == self@.dom(),
            self.ids().len() == self@.len(),
    {
        self.nodes.lemma_view();
    }

    /// A balancer without nodes.
    pub fn new() -> (r: Self)
        ensures
            r.wf(),
            r@ == Map::<u128, usize>::empty(),
    {
        LoadBalancer { nodes: IdTable::new() }
    }

    /// The number of nodes.
    pub fn len(&self) -> (n: usize)
        requires
            self.wf(),
        ensures
            n == self@.len(),
            n == self.ids().len(),
    {
        self.nodes.len()
    }

    /// Takes `node_id` in with no task counted. A node that is known
    /// already starts again from zero.
    pub fn add_node(&mut self, node_id: u128)
        requires
            old(self).wf(),
        ensures
            final(self).wf(),
            final(self)@ == old(self)@.insert(node_id, 0usize),
    {
        self.nodes.insert(node_id, 0);
    }

    /// Drops `node_id`, and says whether it was known. An unknown node is
    /// no error: membership changes race with the balancer.
    pub fn remove_node(&mut self, node_id: u128) -> (known: bool)
        requires
            old(self).wf(),
        ensures
            final(self).wf(),
            final(self)@ == old(self)@.remove(node_id),
            known == old(self)@.contains_key(node_id),
    {
        self.nodes.remove(node_id).is_some()
    }

    /// The load of `node_id`, if the balancer knows it.
    pub fn load_of(&self, node_id: u128) -> (r: Option<NodeLoadInfo>)
        requires
            self.wf(),
        ensures
            r == if self@.contains_key(node_id) {
                Some(NodeLoadInfo { node_id, task_count: self@[node_id] })
            } else {
                None::<NodeLoadInfo>
            },
    {
        match self.nodes.get(node_id) {
            Some(count) => Some(NodeLoadInfo { node_id, task_count: *count }),
            None => None,
        }
    }

    /// The node that the next task would go to.
    pub fn least_loaded(&self) -> (r: Option<u128>)
        requires
            self.wf(),
        ensures
            r is None <==> self@.len() == 0,
            r matches Some(id) ==> is_least_loaded(self@, id),
            r == next_node(self@),
    {
        proof {
            self.nodes.lemma_view();
        }
        let n: usize = self.nodes.len();
        if n == 0 {
            proof {
                assert(self@.dom() =~= Set::<u128>::empty()) by {
                    assert(self.nodes.ids().len() == 0);
                    assert(self.nodes.ids().to_set() =~= Set::<u128>::empty());
                }
                assert forall|id: u128| !is_least_loaded(self@, id) by {}
            }
            return None;
        }
        let mut best: usize = 0;
        let mut best_count: usize = *self.nodes.value_at(0);
        let mut i: usize = 1;
        while i < n
            invariant
                self.wf(),
                n == self.nodes.ids().len(),
                n == self.nodes.values().len(),
                strictly_increasing(self.nodes.ids()),
                1 <= i <= n,
                best < i,
                best_count == self.nodes.values()[best as int],
                forall|j: int|
                    0 <= j < i ==> best_count < #[trigger] self.nodes.values()[j] || (best_count
                        == self.nodes.values()[j] && best <= j),
            decreases n - i,
        {
            let count: usize = *self.nodes.value_at(i);
            if count < best_count {
                best = i;
                best_count = count;
            }
            i = i + 1;
        }
        let id: u128 = self.nodes.id_at(best);
        proof {
            assert forall|k: u128| self@.contains_key(k) implies before(self@, id, k) by {
                let j = self.nodes.ids().index_of(k);
                assert(self.nodes.ids()[j] == k);
                assert(self@[k] == self.nodes.values()[j]);
                assert(best_count < self.nodes.values()[j] || (best_count
                    == self.nodes.values()[j] && best <= j));
                if best < j {
                    assert(self.nodes.ids()[best as int] < self.nodes.ids()[j]);
                }
            }
        }
        proof {
            lemma_next_node(self@, id);
        }
        Some(id)
    }

    /// Gives the next task to the least-loaded node and counts it there.
    /// Nothing is returned, and nothing changes, where there is no node.
    pub fn assign_task(&mut self) -> (r: Option<u128>)
        requires
            old(self).wf(),
        ensures
            final(self).wf(),
            r is None <==> old(self)@.len() == 0,
            r is None ==> final(self)@ == old(self)@,
            r matches Some(id) ==> is_least_loaded(old(self)@, id) && final(self)@
                == after_assign(old(self)@, id),
            r == next_node(old(self)@),
            final(self)@ == after_call(old(self)@, BalancerCall::Assign),
    {
        match self.least_loaded() {
            Some(id) => {
                let count: usize = match self.nodes.get(id) {
                    Some(c) => *c,
                    None => 0,
                };
                let next: usize = if count < usize::MAX {
                    count + 1
                } else {
                    count
                };
                self.nodes.insert(id, next);
                Some(id)
            },
            None => None,
        }
    }

    /// Takes a completion on `node_id` into account: one task fewer, but
    /// never fewer than none.
    pub fn complete_task(&mut self, node_id: u128) -> (r: Completion)
        requires
            old(self).wf(),
        ensures
            final(self).wf(),
            final(self)@ == after_complete(old(self)@, node_id),
            r == completion_of(old(self)@, node_id),
    {
        let found: Option<usize> = match self.nodes.get(node_id) {
            Some(c) => Some(*c),
            None => None,
        };
        match found {
            Some(count) => {
                if count > 0 {
                    self.nodes.insert(node_id, count - 1);
                    Completion::Released
                } else {
                    assert(self@.insert(node_id, 0usize) =~= self@);
                    Completion::AlreadyIdle
                }
            },
            None => Completion::UnknownNode,
        }
    }

    /// Overwrites the count of a known node with an authoritative report,
    /// and says whether the node was known. A report on an unknown node
    /// changes nothing.
    pub fn sync(&mut self, node_id: u128, task_count: usize) -> (known: bool)
        requires
            old(self).wf(),
        ensures
            final(self).wf(),
            final(self)@ == after_sync(old(self)@, node_id, task_count),
            known == old(self)@.contains_key(node_id),
    {
        if self.nodes.contains_key(node_id) {
            self.nodes.insert(node_id, task_count);
            true
        } else {
            false
        }
    }

    /// The node at position `index` in increasing order of id.
    pub fn node_at(&self, index: usize) -> (r: Option<u128>)
        requires
            self.wf(),
        ensures
            r == if index < self.ids().len() {
                Some(self.ids()[index as int])
            } else {
                None::<u128>
            },
            r matches Some(id) ==> self@.contains_key(id),
    {
        if index < self.nodes.len() {
            Some(self.nodes.id_at(index))
        } else {
            None
        }
    }

    /// Some node, picked at random; nothing where there is no node. Which
    /// node comes out is not determined.
    pub fn random_node(&self) -> (r: Option<u128>)
        requires
            self.wf(),
        ensures
            r is None <==> self@.len() == 0,
            r matches Some(id) ==> self@.contains_key(id),
    {
        match pick_index(self.nodes.len()) {
            Some(index) => self.node_at(index),
            None => None,
        }
    }

    /// The load of every node, in increasing order of node id.
    pub fn loads(&self) -> (list: Vec<NodeLoadInfo>)
        requires
            self.wf(),
        ensures
            list@.len() == self.ids().len(),
            forall|i: int|
                0 <= i < list@.len() ==> (#[trigger] list@[i]).node_id == self.ids()[i]
                    && self@.contains_key(list@[i].node_id) && list@[i].task_count
                    == self@[list@[i].node_id],
    {
        proof {
            self.nodes.lemma_view();
        }
        let n: usize = self.nodes.len();
        let mut list: Vec<NodeLoadInfo> = Vec::new();
        let mut i: usize = 0;
        while i < n
            invariant
                self.wf(),
                n == self.nodes.ids().len(),
                i <= n,
                list@.len() == i,
                forall|j: int|
                    0 <= j < i ==> (#[trigger] list@[j]).node_id == self.nodes.ids()[j]
                        && self@.contains_key(list@[j].node_id) && list@[j].task_count
                        == self@[list@[j].node_id],
            decreases n - i,
        {
            proof {
                self.nodes.lemma_view();
            }
            let node_id: u128 = self.nodes.id_at(i);
            let task_count: usize = *self.nodes.value_at(i);
            list.push(NodeLoadInfo { node_id, task_count });
            i = i + 1;
        }
        list
    }
}

/// Takes a batch of load reports into account, in order: each overwrites
/// the count of its node if the balancer knows the node. Returns how many
/// reports named an unknown node.
pub fn monitor_node_load(load_balancer: &mut LoadBalancer, reports: &Vec<NodeLoadInfo>) -> (unknown:
    usize)
    requires
        old(load_balancer).wf(),
    ensures
        final(load_balancer).wf(),
        final(load_balancer)@ == sync_all(old(load_balancer)@, reports@),
        unknown == unknown_reports(old(load_balancer)@, reports@),
{
    let mut unknown: usize = 0;
    let mut i: usize = 0;
    while i < reports.len()
        invariant
            load_balancer.wf(),
            i <= reports@.len(),
            unknown <= i,
            load_balancer@ == sync_all(old(load_balancer)@, reports@.take(i as int)),
            unknown == unknown_reports(old(load_balancer)@, reports@.take(i as int)),
        decreases reports@.len() - i,
    {
        proof {
            let next = reports@.take(i + 1);
            assert(next.drop_last() =~= reports@.take(i as int));
            assert(next.last() == reports@[i as int]);
        }
        let report = reports[i];
        if !load_balancer.sync(report.node_id, report.task_count) {
            unknown = unknown + 1;
        }
        i = i + 1;
    }
    assert(reports@.take(i as int) =~= reports@);
    unknown
}

/// The counts after a sequence of load reports, taken in order.
pub open spec fn sync_all(m: Map<u128, usize>, reports: Seq<NodeLoadInfo>) -> Map<u128, usize>
    decreases reports.len(),
{
    if reports.len() == 0 {
        m
    } else {
        after_sync(
            sync_all(m, reports.drop_last()),
            reports.last().node_id,
            reports.last().task_count,
        )
    }
}

/// How many of a sequence of load reports name a node that is unknown when
/// the report is taken.
pub open spec fn unknown_reports(m: Map<u128, usize>, reports: Seq<NodeLoadInfo>) -> nat
    decreases reports.len(),
{
    if reports.len() == 0 {
        0
    } else {
        unknown_reports(m, reports.drop_last()) + if sync_all(
            m,
            reports.drop_last(),
        ).contains_key(reports.last().node_id) {
            0nat
        } else {
            1nat
        }
    }
}

} // verus!
