//! The peers a node is connected to, and the decisions of connecting with
//! retries.
//!
//! Opening a connection is the caller's work. The manager decides, from
//! the outcome of each attempt, whether the peer counts as connected,
//! whether another attempt is made, or whether connecting has failed.

use crate::retry::{decision_after, next_attempt, RetryDecision, RetryPolicy};
use vstd::prelude::*;

verus! {

/// An IPv4 address with its port.
#[derive(Debug, Clone, Copy, PartialEq, Eq, Structural)]
pub struct EndpointV4 {
    /// The four bytes of the address as one number, the first byte highest.
    pub ip: u32,
    pub port: u16,
}

/// An IPv6 address with its port, flow information and scope.
#[derive(Debug, Clone, Copy, PartialEq, Eq, Structural)]
pub struct EndpointV6 {
    /// The sixteen bytes of the address as one number, the first byte highest.
    pub ip: u128,
    pub port: u16,
    pub flowinfo: u32,
    pub scope_id: u32,
}

/// The address of a peer: an address of either family, as plain numbers.
/// Two endpoints are the same peer exactly if they agree in every part.
#[derive(Debug, Clone, Copy, PartialEq, Eq, Structural)]
pub enum Endpoint {
    V4(EndpointV4),
    V6(EndpointV6),
}

/// How an attempt to connect ended.
#[derive(Debug, Clone, Copy, PartialEq, Eq, Structural)]
pub enum AttemptOutcome {
    Connected,
    Failed,
    TimedOut,
}

/// Where connecting to a peer stands.
#[derive(Debug, Clone, Copy, PartialEq, Eq, Structural)]
pub enum ConnectProgress {
    /// The peer is connected.
    Connected,
    /// Make attempt `number`, counted from one, after `delay_ms` milliseconds.
    Retry { number: u32, delay_ms: u64 },
    /// All attempts failed.
    Failed,
}

/// Where connecting stands after attempt number `attempt` ended in
/// `outcome`: it is done on success, it goes on while the policy allows
/// another attempt, and it has failed after that.
pub open spec fn progress_after(
    policy: RetryPolicy,
    attempt: u32,
    outcome: AttemptOutcome,
) -> ConnectProgress {
    if outcome == AttemptOutcome::Connected {
        ConnectProgress::Connected
    } else {
        match decision_after(policy, attempt) {
            RetryDecision::Attempt { number, delay_ms } => ConnectProgress::Retry {
                number,
                delay_ms,
            },
            RetryDecision::GiveUp => ConnectProgress::Failed,
        }
    }
}

/// Taking an item out of a list without repetitions takes it out of the
/// set of its items, and leaves a list without repetitions.
pub proof fn lemma_remove_from_distinct(list: Seq<Endpoint>, i: int)
    requires
        list.no_duplicates(),
        0 <= i < list.len(),
    ensures
        list.remove(i).no_duplicates(),
        list.remove(i).to_set() == list.to_set().remove(list[i]),
{
    let rest = list.remove(i);
    assert forall|a: int, b: int| 0 <= a < rest.len() && 0 <= b < rest.len() && a != b implies rest[a]
        != rest[b] by {
        let x = if a < i { a } else { a + 1 };
        let y = if b < i { b } else { b + 1 };
        assert(list[x] != list[y]);
    }
    assert forall|e: Endpoint| rest.to_set().contains(e) <==> list.to_set().remove(
        list[i],
    ).contains(e) by {
        if rest.contains(e) {
            let a = choose|a: int| 0 <= a < rest.len() && rest[a] == e;
            let x = if a < i { a } else { a + 1 };
            assert(list[x] == e);
            assert(x != i);
        }
        if list.contains(e) && e != list[i] {
            let x = choose|x: int| 0 <= x < list.len() && list[x] == e;
            let a = if x < i { x } else { x - 1 };
            assert(rest[a] == e);
        }
    }
    assert(rest.to_set() =~= list.to_set().remove(list[i]));
}

/// Putting a new item at the end of a list without repetitions adds it
/// to the set of its items, and leaves a list without repetitions.
pub proof fn lemma_push_to_distinct(list: Seq<Endpoint>, e: Endpoint)
    requires
        list.no_duplicates(),
        !list.contains(e),
    ensures
        list.push(e).no_duplicates(),
        list.push(e).to_set() == list.to_set().insert(e),
{
    let longer = list.push(e);
    assert forall|a: int, b: int|
        0 <= a < longer.len() && 0 <= b < longer.len() && a != b implies longer[a]
        != longer[b] by {
        if a < list.len() {
            assert(list.contains(longer[a]));
        }
        if b < list.len() {
            assert(list.contains(longer[b]));
        }
    }
    assert forall|x: Endpoint| longer.to_set().contains(x) <==> list.to_set().insert(e).contains(
        x,
    ) by {
        if longer.contains(x) {
            let a = choose|a: int| 0 <= a < longer.len() && longer[a] == x;
            if a < list.len() {
                assert(list[a] == x);
            }
        }
        if list.contains(x) {
            let a = choose|a: int| 0 <= a < list.len() && list[a] == x;
            assert(longer[a] == x);
        }
        assert(longer[list.len() as int] == e);
    }
    assert(longer.to_set() =~= list.to_set().insert(e));
}

/// The set of connected peers.
pub struct NetworkManager {
    connected_nodes: Vec<Endpoint>,
}

impl View for NetworkManager {
    type V = Set<Endpoint>;

    closed spec fn view(&self) -> Set<Endpoint> {
        self.connected_nodes@.to_set()
    }
}

impl NetworkManager {
    /// The representation invariant: no peer is held twice.
    pub closed spec fn wf(&self) -> bool {
        self.connected_nodes@.no_duplicates()
    }

    /// The connected peers in the order in which they were connected.
    pub closed spec fn peers(&self) -> Seq<Endpoint> {
        self.connected_nodes@
    }

    /// What a well-formed manager's view is known to satisfy.
    pub proof fn lemma_wf(&self)
        requires
            self.wf(),
        ensures
            self.peers().no_duplicates(),
            self.peers().to_set() == self@,
            self@.finite(),
            self@.len() == self.peers().len(),
    {
        self.connected_nodes@.unique_seq_to_set();
        vstd::seq_lib::seq_to_set_is_finite(self.connected_nodes@);
    }

    /// A manager without connections.
    pub fn new() -> (r: Self)
        ensures
            r.wf(),
            r@ == Set::<Endpoint>::empty(),
    {
        let r = NetworkManager { connected_nodes: Vec::new() };
        assert(r@ =~= Set::<Endpoint>::empty());
        r
    }

    /// The place of `address` among the connected peers, if it is one.
    fn position(&self, address: Endpoint) -> (r: Option<usize>)
        ensures
            r is Some <==> self@.contains(address),
            r matches Some(i) ==> i < self.peers().len() && self.peers()[i as int] == address,
    {
        let mut i: usize = 0;
        while i < self.connected_nodes.len()
            invariant
                i <= self.connected_nodes@.len(),
                forall|j: int| 0 <= j < i ==> self.connected_nodes@[j] != address,
            decreases self.connected_nodes@.len() - i,
        {
            if self.connected_nodes[i] == address {
                assert(self.connected_nodes@.contains(address));
                return Some(i);
            }
            i = i + 1;
        }
        None
    }

    /// Whether `address` is connected.
    pub fn is_connected(&self, address: Endpoint) -> (b: bool)
        requires
            self.wf(),
        ensures
            b == self@.contains(address),
    {
        self.position(address).is_some()
    }

    /// The number of connected peers.
    pub fn len(&self) -> (n: usize)
        requires
            self.wf(),
        ensures
            n == self@.len(),
    {
        proof {
            self.lemma_wf();
        }
        self.connected_nodes.len()
    }

    /// What is done to connect to a peer before any attempt was made.
    pub fn begin_connect(policy: &RetryPolicy) -> (r: ConnectProgress)
        ensures
            r == match decision_after(*policy, 0) {
                RetryDecision::Attempt { number, delay_ms } => ConnectProgress::Retry {
                    number,
                    delay_ms,
                },
                RetryDecision::GiveUp => ConnectProgress::Failed,
            },
    {
        match next_attempt(policy, 0) {
            RetryDecision::Attempt { number, delay_ms } => ConnectProgress::Retry {
                number,
                delay_ms,
            },
            RetryDecision::GiveUp => ConnectProgress::Failed,
        }
    }

    /// Takes into account that attempt number `attempt` to connect to
    /// `address` ended in `outcome`. On success the peer is connected;
    /// else another attempt is asked for while the policy allows one.
    pub fn connect_to_node(
        &mut self,
        address: Endpoint,
        policy: &RetryPolicy,
        attempt: u32,
        outcome: AttemptOutcome,
    ) -> (r: ConnectProgress)
        requires
            old(self).wf(),
        ensures
            final(self).wf(),
            r == progress_after(*policy, attempt, outcome),
            final(self)@ == if outcome == AttemptOutcome::Connected {
                old(self)@.insert(address)
            } else {
                old(self)@
            },
    {
        match outcome {
            AttemptOutcome::Connected => {
                if self.position(address).is_none() {
                    proof {
                        lemma_push_to_distinct(self.connected_nodes@, address);
                    }
                    self.connected_nodes.push(address);
                } else {
                    assert(self@.insert(address) =~= self@);
                }
                ConnectProgress::Connected
            },
            _ => match next_attempt(policy, attempt) {
                RetryDecision::Attempt { number, delay_ms } => ConnectProgress::Retry {
                    number,
                    delay_ms,
                },
                RetryDecision::GiveUp => ConnectProgress::Failed,
            },
        }
    }

    /// Drops the connection to `address`, and says whether there was one.
    pub fn disconnect_node(&mut self, address: Endpoint) -> (was_connected: bool)
        requires
            old(self).wf(),
        ensures
            final(self).wf(),
            was_connected == old(self)@.contains(address),
            final(self)@ == old(self)@.remove(address),
    {
        match self.position(address) {
            Some(i) => {
                proof {
                    lemma_remove_from_distinct(self.connected_nodes@, i as int);
                }
                self.connected_nodes.remove(i);
                true
            },
            None => {
                assert(self@.remove(address) =~= self@);
                false
            },
        }
    }

    /// The connected peers, each once, in the order in which they were
    /// connected.
    pub fn list_connected_nodes(&self) -> (list: Vec<Endpoint>)
        requires
            self.wf(),
        ensures
            list@ == self.peers(),
            list@.no_duplicates(),
            list@.to_set() == self@,
            list@.len() == self@.len(),
    {
        proof {
            self.lemma_wf();
        }
        let mut list: Vec<Endpoint> = Vec::new();
        let mut i: usize = 0;
        while i < self.connected_nodes.len()
            invariant
                i <= self.connected_nodes@.len(),
                list@.len() == i,
                forall|j: int| 0 <= j < i ==> list@[j] == self.connected_nodes@[j],
            decreases self.connected_nodes@.len() - i,
        {
            list.push(self.connected_nodes[i]);
            i = i + 1;
        }
        assert(list@ =~= self.connected_nodes@);
        list
    }
}

} // verus!
