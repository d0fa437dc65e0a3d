//! Leader election: one node's view of who leads, term by term.
//!
//! A node follows the leader whose claim it accepted first in the current
//! term. A claim for a higher term always wins; a claim for the current
//! term wins only if none was accepted in it yet; a claim for a lower term
//! never wins. A status that claims no leadership never changes whom a
//! follower follows: only a node that leads or campaigns steps down on a
//! higher term. A node without a known leader campaigns in a new term, and
//! becomes leader only when a claim in its own name is delivered to it.

use crate::quorum::{quorum, quorum_size};
use vstd::prelude::*;

verus! {

/// What a node announces of itself, or hears of another.
#[derive(Debug, Clone, Copy, PartialEq, Eq, Structural)]
pub struct NodeStatus {
    pub node_id: u128,
    pub term: u64,
    pub is_leader: bool,
    pub is_candidate: bool,
}

/// The part a node plays in its current term.
#[derive(Debug, Clone, Copy, PartialEq, Eq, Structural)]
pub enum Role {
    Follower,
    Candidate,
    Leader,
}

/// What can happen to a node's election state.
#[derive(Debug, Clone, Copy, PartialEq, Eq, Structural)]
pub enum ElectionEvent {
    /// The election interval has passed.
    Tick,
    /// A status was delivered, the node's own or another's.
    Status(NodeStatus),
    /// The health monitor suspects this node.
    Suspected(u128),
    /// This many of this many members acknowledged the node's candidacy.
    Majority { acks: usize, members: usize },
}

/// The election state of one node.
pub struct ElectionView {
    pub node_id: u128,
    pub term: u64,
    /// The leader followed in `term`, if one is known.
    pub leader: Option<u128>,
    /// Whether the node campaigns in `term`.
    pub candidate: bool,
    /// Whether a leadership claim was accepted in `term`.
    pub decided: bool,
}

/// The state of a node that has seen nothing yet.
pub open spec fn fresh(node_id: u128) -> ElectionView {
    ElectionView { node_id, term: 0, leader: None, candidate: false, decided: false }
}

/// Whether the node itself is the leader it follows.
pub open spec fn leads(v: ElectionView) -> bool {
    v.leader == Some(v.node_id)
}

/// The part the node plays.
pub open spec fn role_of(v: ElectionView) -> Role {
    if leads(v) {
        Role::Leader
    } else if v.candidate {
        Role::Candidate
    } else {
        Role::Follower
    }
}

/// What the fields of a state have to do with each other: a candidate
/// knows no leader, and a leader is known only by an accepted claim.
pub open spec fn consistent(v: ElectionView) -> bool {
    &&& v.candidate ==> v.leader is None && !v.decided
    &&& v.leader is Some ==> v.decided
}

/// The status that the node would announce of itself.
pub open spec fn status_of(v: ElectionView) -> NodeStatus {
    NodeStatus { node_id: v.node_id, term: v.term, is_leader: leads(v), is_candidate: v.candidate }
}

/// The state after the node started a campaign: a new term in which it is
/// a candidate and follows nobody. Terms that no longer fit are not begun.
pub open spec fn after_campaign(v: ElectionView) -> ElectionView {
    if v.term < u64::MAX {
        ElectionView {
            term: (v.term + 1) as u64,
            leader: None,
            candidate: true,
            decided: false,
            ..v
        }
    } else {
        v
    }
}

/// The state after the election interval has passed.
pub open spec fn after_tick(v: ElectionView) -> ElectionView {
    if v.leader is None {
        after_campaign(v)
    } else {
        v
    }
}

/// Whether the node accepts `s` as the claim of its leader.
pub open spec fn accepts(v: ElectionView, s: NodeStatus) -> bool {
    s.is_leader && (s.term > v.term || (s.term == v.term && !v.decided))
}

/// Whether the node steps down on status `s`: it does where it leads or
/// campaigns and the status, though no claim, is of a higher term.
pub open spec fn steps_down(v: ElectionView, s: NodeStatus) -> bool {
    !s.is_leader && s.term > v.term && (leads(v) || v.candidate)
}

/// The state after status `s` was delivered. An accepted claim makes the
/// node follow the claimant in the claim's term. A status that claims no
/// leadership changes only a node that leads or campaigns, which becomes
/// a follower without leader in the higher term: a node that follows
/// another, or nobody, stays as it is.
pub open spec fn after_status(v: ElectionView, s: NodeStatus) -> ElectionView {
    if accepts(v, s) {
        ElectionView {
            term: s.term,
            leader: Some(s.node_id),
            candidate: false,
            decided: true,
            ..v
        }
    } else if steps_down(v, s) {
        ElectionView { term: s.term, leader: None, candidate: false, decided: false, ..v }
    } else {
        v
    }
}

/// The state after node `id` came under suspicion.
pub open spec fn after_suspicion(v: ElectionView, id: u128) -> ElectionView {
    if v.leader == Some(id) {
        ElectionView { leader: None, ..v }
    } else {
        v
    }
}

/// Whether `acks` acknowledgments out of `members` members entitle the
/// node to claim the leadership of its term.
pub open spec fn may_claim(v: ElectionView, acks: usize, members: usize) -> bool {
    v.candidate && acks >= quorum(members as nat)
}

/// The claim that the node makes once it may.
pub open spec fn claim_of(v: ElectionView) -> NodeStatus {
    NodeStatus { node_id: v.node_id, term: v.term, is_leader: true, is_candidate: false }
}

/// The state after `event`.
pub open spec fn after_event(v: ElectionView, event: ElectionEvent) -> ElectionView {
    match event {
        ElectionEvent::Tick => after_tick(v),
        ElectionEvent::Status(s) => after_status(v, s),
        ElectionEvent::Suspected(id) => after_suspicion(v, id),
        ElectionEvent::Majority { acks, members } => v,
    }
}

/// What the node sends out on `event`: its candidacy where a tick starts a
/// campaign, its claim where a majority has acknowledged it.
pub open spec fn announcement(v: ElectionView, event: ElectionEvent) -> Option<NodeStatus> {
    match event {
        ElectionEvent::Tick => if v.leader is None && v.term < u64::MAX {
            Some(status_of(after_campaign(v)))
        } else {
            None
        },
        ElectionEvent::Majority { acks, members } => if may_claim(v, acks, members) {
            Some(claim_of(v))
        } else {
            None
        },
        _ => None,
    }
}

/// The state after a sequence of events, taken in order.
pub open spec fn after_events(v: ElectionView, events: Seq<ElectionEvent>) -> ElectionView
    decreases events.len(),
{
    if events.len() == 0 {
        v
    } else {
        after_event(after_events(v, events.drop_last()), events.last())
    }
}

/// What the node sends out over a sequence of events, in order.
pub open spec fn announcements(v: ElectionView, events: Seq<ElectionEvent>) -> Seq<NodeStatus>
    decreases events.len(),
{
    if events.len() == 0 {
        Seq::empty()
    } else {
        let before = announcements(v, events.drop_last());
        match announcement(after_events(v, events.drop_last()), events.last()) {
            Some(s) => before.push(s),
            None => before,
        }
    }
}

/// The statuses among `events`, in order.
pub open spec fn statuses_in(events: Seq<ElectionEvent>) -> Seq<NodeStatus>
    decreases events.len(),
{
    if events.len() == 0 {
        Seq::empty()
    } else {
        match events.last() {
            ElectionEvent::Status(s) => statuses_in(events.drop_last()).push(s),
            _ => statuses_in(events.drop_last()),
        }
    }
}

/// The node named by the first leadership claim for `term` in `stream`.
pub open spec fn first_claimant(stream: Seq<NodeStatus>, term: u64) -> Option<u128>
    decreases stream.len(),
{
    if stream.len() == 0 {
        None
    } else {
        match first_claimant(stream.drop_last(), term) {
            Some(id) => Some(id),
            None => if stream.last().is_leader && stream.last().term == term {
                Some(stream.last().node_id)
            } else {
                None
            },
        }
    }
}

/// No event breaks the consistency of a state, lowers its term or changes
/// whose state it is.
pub proof fn lemma_event_keeps_consistent(v: ElectionView, event: ElectionEvent)
    requires
        consistent(v),
    ensures
        consistent(after_event(v, event)),
        after_event(v, event).term >= v.term,
        after_event(v, event).node_id == v.node_id,
{
}

/// A leadership claim for a higher term always displaces what the node
/// held before, leader or not: the node moves to that term and follows
/// the claimant. A claim for a lower term changes nothing.
pub proof fn lemma_higher_term_displaces(v: ElectionView, claim: NodeStatus)
    requires
        claim.is_leader,
    ensures
        claim.term > v.term ==> after_status(v, claim).term == claim.term && after_status(
            v,
            claim,
        ).leader == Some(claim.node_id),
        claim.term < v.term ==> after_status(v, claim) == v,
{
}

/// A status that claims no leadership never changes whom a follower
/// follows, nor its term: only a node that leads or campaigns reacts to
/// it, and only where the status is of a higher term.
pub proof fn lemma_status_without_claim(v: ElectionView, s: NodeStatus)
    requires
        consistent(v),
        !s.is_leader,
    ensures
        !leads(v) && !v.candidate ==> after_status(v, s) == v,
        !leads(v) ==> after_status(v, s).leader == v.leader,
        s.term <= v.term ==> after_status(v, s) == v,
        (leads(v) || v.candidate) && s.term > v.term ==> after_status(v, s).term == s.term
            && after_status(v, s).leader is None && !after_status(v, s).candidate,
{
}

/// Within a term the first accepted claim stands: once a claim was
/// accepted, another for the same term changes nothing.
pub proof fn lemma_first_accepted_wins(v: ElectionView, first: NodeStatus, second: NodeStatus)
    requires
        accepts(v, first),
        second.is_leader,
        second.term == first.term,
    ensures
        after_status(after_status(v, first), second) == after_status(v, first),
{
}

/// A claimant that is first in a stream is first in every longer one.
pub proof fn lemma_first_claimant_stable(stream: Seq<NodeStatus>, more: Seq<NodeStatus>, term: u64)
    requires
        first_claimant(stream, term) is Some,
    ensures
        first_claimant(stream + more, term) == first_claimant(stream, term),
    decreases more.len(),
{
    if more.len() == 0 {
        assert(stream + more =~= stream);
    } else {
        lemma_first_claimant_stable(stream, more.drop_last(), term);
        assert((stream + more).drop_last() =~= stream + more.drop_last());
    }
}

/// The first claimant of a stream that is one status longer.
pub proof fn lemma_first_claimant_push(stream: Seq<NodeStatus>, s: NodeStatus, term: u64)
    ensures
        first_claimant(stream.push(s), term) == match first_claimant(stream, term) {
            Some(id) => Some(id),
            None => if s.is_leader && s.term == term {
                Some(s.node_id)
            } else {
                None
            },
        },
{
    assert(stream.push(s).drop_last() =~= stream);
    assert(stream.push(s).last() == s);
}

/// What a node's state has to do with the statuses delivered to it: the
/// leader it follows is the first claimant of its term, no claim for its
/// term was delivered while it is undecided, and none for a later term.
pub proof fn lemma_leader_is_first_claimant(node_id: u128, events: Seq<ElectionEvent>)
    ensures
        consistent(after_events(fresh(node_id), events)),
        after_events(fresh(node_id), events).node_id == node_id,
        after_events(fresh(node_id), events).leader is Some ==> first_claimant(
            statuses_in(events),
            after_events(fresh(node_id), events).term,
        ) == after_events(fresh(node_id), events).leader,
        !after_events(fresh(node_id), events).decided ==> first_claimant(
            statuses_in(events),
            after_events(fresh(node_id), events).term,
        ) is None,
        forall|t: u64|
            t > after_events(fresh(node_id), events).term ==> first_claimant(statuses_in(events), t)
                is None,
    decreases events.len(),
{
    let after = after_events(fresh(node_id), events);
    let delivered = statuses_in(events);
    if events.len() == 0 {
        assert(delivered =~= Seq::<NodeStatus>::empty());
        assert forall|t: u64| first_claimant(delivered, t) is None by {}
    } else {
        let init = events.drop_last();
        let v = after_events(fresh(node_id), init);
        lemma_leader_is_first_claimant(node_id, init);
        let stream = statuses_in(init);
        assert(after == after_event(v, events.last()));
        match events.last() {
            ElectionEvent::Status(s) => {
                assert(delivered == stream.push(s));
                assert forall|t: u64| t > after.term implies first_claimant(delivered, t)
                    is None by {
                    lemma_first_claimant_push(stream, s, t);
                }
                lemma_first_claimant_push(stream, s, after.term);
                lemma_first_claimant_push(stream, s, v.term);
            },
            ElectionEvent::Tick => {
                assert(delivered == stream);
                assert(after == after_tick(v));
            },
            ElectionEvent::Suspected(id) => {
                assert(delivered == stream);
                assert(after == after_suspicion(v, id));
            },
            ElectionEvent::Majority { acks, members } => {
                assert(delivered == stream);
                assert(after == v);
            },
        }
    }
}

/// Nodes that are fed one stream of statuses, each as far as it has got
/// and with ticks, suspicions and acknowledgments of its own in between,
/// never have two leaders in one term: if two of them lead in the same
/// term, they are the same node.
pub proof fn lemma_one_leader_per_term(
    a: u128,
    events_a: Seq<ElectionEvent>,
    b: u128,
    events_b: Seq<ElectionEvent>,
)
    requires
        statuses_in(events_a).is_prefix_of(statuses_in(events_b)) || statuses_in(
            events_b,
        ).is_prefix_of(statuses_in(events_a)),
    ensures
        leads(after_events(fresh(a), events_a)) && leads(after_events(fresh(b), events_b)) && after_events(
            fresh(a),
            events_a,
        ).term == after_events(fresh(b), events_b).term ==> a == b,
{
    let va = after_events(fresh(a), events_a);
    let vb = after_events(fresh(b), events_b);
    lemma_leader_is_first_claimant(a, events_a);
    lemma_leader_is_first_claimant(b, events_b);
    let sa = statuses_in(events_a);
    let sb = statuses_in(events_b);
    if leads(va) && leads(vb) && va.term == vb.term {
        if sa.is_prefix_of(sb) {
            let more = sb.subrange(sa.len() as int, sb.len() as int);
            assert(sa + more =~= sb);
            lemma_first_claimant_stable(sa, more, va.term);
        } else {
            let more = sa.subrange(sb.len() as int, sa.len() as int);
            assert(sb + more =~= sa);
            lemma_first_claimant_stable(sb, more, va.term);
        }
    }
}

/// The election state of one node.
pub struct Election {
    current_leader: Option<u128>,
    node_status: NodeStatus,
    decided: bool,
}

impl View for Election {
    type V = ElectionView;

    closed spec fn view(&self) -> ElectionView {
        ElectionView {
            node_id: self.node_status.node_id,
            term: self.node_status.term,
            leader: self.current_leader,
            candidate: self.node_status.is_candidate,
            decided: self.decided,
        }
    }
}

impl Election {
    /// The representation invariant: the state is consistent, and the
    /// node's own leader flag says whether it is the leader it follows.
    pub closed spec fn wf(&self) -> bool {
        &&& consistent(self@)
        &&& self.node_status.is_leader == leads(self@)
    }

    /// What a well-formed state is known to satisfy.
    pub proof fn lemma_wf(&self)
        requires
            self.wf(),
        ensures
            consistent(self@),
    {
    }

    /// The state of node `node_id` before it has seen anything.
    pub fn new(node_id: u128) -> (r: Self)
        ensures
            r.wf(),
            r@ == fresh(node_id),
    {
        Election {
            current_leader: None,
            node_status: NodeStatus { node_id, term: 0, is_leader: false, is_candidate: false },
            decided: false,
        }
    }

    /// The node whose state this is.
    pub fn node_id(&self) -> (id: u128)
        ensures
            id == self@.node_id,
    {
        self.node_status.node_id
    }

    /// The current term.
    pub fn term(&self) -> (t: u64)
        ensures
            t == self@.term,
    {
        self.node_status.term
    }

    /// The leader followed in the current term, if one is known.
    pub fn current_leader(&self) -> (l: Option<u128>)
        ensures
            l == self@.leader,
    {
        self.current_leader
    }

    /// Whether this node is the leader of the current term.
    pub fn is_leader(&self) -> (b: bool)
        requires
            self.wf(),
        ensures
            b == leads(self@),
            b ==> self@.leader == Some(self@.node_id),
    {
        self.node_status.is_leader
    }

    /// Whether this node campaigns in the current term.
    pub fn is_candidate(&self) -> (b: bool)
        ensures
            b == self@.candidate,
    {
        self.node_status.is_candidate
    }

    /// The part this node plays in the current term.
    pub fn role(&self) -> (r: Role)
        requires
            self.wf(),
        ensures
            r == role_of(self@),
    {
        if self.node_status.is_leader {
            Role::Leader
        } else if self.node_status.is_candidate {
            Role::Candidate
        } else {
            Role::Follower
        }
    }

    /// The status that this node announces of itself.
    pub fn status(&self) -> (s: NodeStatus)
        requires
            self.wf(),
        ensures
            s == status_of(self@),
    {
        self.node_status
    }

    /// Starts a campaign: the node enters the next term as a candidate and
    /// follows nobody. Returns the candidacy to announce, or nothing where
    /// the terms are used up and the state stays as it is.
    pub fn start_election(&mut self) -> (r: Option<NodeStatus>)
        requires
            old(self).wf(),
        ensures
            final(self).wf(),
            final(self)@ == after_campaign(old(self)@),
            r == if old(self)@.term < u64::MAX {
                Some(status_of(after_campaign(old(self)@)))
            } else {
                None::<NodeStatus>
            },
    {
        if self.node_status.term < u64::MAX {
            self.current_leader = None;
            self.decided = false;
            self.node_status = NodeStatus {
                node_id: self.node_status.node_id,
                term: self.node_status.term + 1,
                is_leader: false,
                is_candidate: true,
            };
            Some(self.node_status)
        } else {
            None
        }
    }

    /// Lets the election interval pass: a node that knows no leader starts
    /// a campaign, any other stays as it is.
    pub fn tick(&mut self) -> (r: Option<NodeStatus>)
        requires
            old(self).wf(),
        ensures
            final(self).wf(),
            final(self)@ == after_tick(old(self)@),
            r == announcement(old(self)@, ElectionEvent::Tick),
    {
        if self.current_leader.is_none() {
            self.start_election()
        } else {
            None
        }
    }

    /// Takes a delivered status into account, and says whether it was
    /// accepted as the claim of the node's leader.
    pub fn receive_status(&mut self, status: NodeStatus) -> (accepted: bool)
        requires
            old(self).wf(),
        ensures
            final(self).wf(),
            final(self)@ == after_status(old(self)@, status),
            accepted == accepts(old(self)@, status),
    {
        let term: u64 = self.node_status.term;
        if status.is_leader && (status.term > term || (status.term == term && !self.decided)) {
            self.current_leader = Some(status.node_id);
            self.decided = true;
            self.node_status = NodeStatus {
                node_id: self.node_status.node_id,
                term: status.term,
                is_leader: status.node_id == self.node_status.node_id,
                is_candidate: false,
            };
            true
        } else if !status.is_leader && status.term > term && (self.node_status.is_leader
            || self.node_status.is_candidate) {
            self.current_leader = None;
            self.decided = false;
            self.node_status = NodeStatus {
                node_id: self.node_status.node_id,
                term: status.term,
                is_leader: false,
                is_candidate: false,
            };
            false
        } else {
            false
        }
    }

    /// Takes `leader_id` as the claimant of the current term's leadership:
    /// the same as the delivery of its claim for this term. Says whether
    /// the claim was accepted.
    pub fn set_leader(&mut self, leader_id: u128) -> (accepted: bool)
        requires
            old(self).wf(),
        ensures
            final(self).wf(),
            final(self)@ == after_status(
                old(self)@,
                NodeStatus {
                    node_id: leader_id,
                    term: old(self)@.term,
                    is_leader: true,
                    is_candidate: false,
                },
            ),
            accepted == !old(self)@.decided,
            accepted ==> final(self)@.leader == Some(leader_id),
    {
        let claim = NodeStatus {
            node_id: leader_id,
            term: self.node_status.term,
            is_leader: true,
            is_candidate: false,
        };
        self.receive_status(claim)
    }

    /// Takes into account that node `node_id` is suspected: if it is the
    /// leader followed, the node follows nobody from now on, and its next
    /// tick starts a campaign. Says whether that was the case.
    pub fn node_suspected(&mut self, node_id: u128) -> (was_leader: bool)
        requires
            old(self).wf(),
        ensures
            final(self).wf(),
            final(self)@ == after_suspicion(old(self)@, node_id),
            was_leader == (old(self)@.leader == Some(node_id)),
    {
        let hit: bool = match self.current_leader {
            Some(leader) => leader == node_id,
            None => false,
        };
        if hit {
            self.current_leader = None;
            self.node_status = NodeStatus {
                node_id: self.node_status.node_id,
                term: self.node_status.term,
                is_leader: false,
                is_candidate: self.node_status.is_candidate,
            };
        }
        hit
    }

    /// The claim to announce where `acks` of `members` members have
    /// acknowledged this node's candidacy and that is a majority. The
    /// state is not changed: the node leads once its claim is delivered to
    /// it like to everybody else.
    pub fn claim_leadership(&self, acks: usize, members: usize) -> (r: Option<NodeStatus>)
        requires
            self.wf(),
        ensures
            r == announcement(self@, ElectionEvent::Majority { acks, members }),
    {
        if self.node_status.is_candidate && acks >= quorum_size(members) {
            Some(
                NodeStatus {
                    node_id: self.node_status.node_id,
                    term: self.node_status.term,
                    is_leader: true,
                    is_candidate: false,
                },
            )
        } else {
            None
        }
    }

    /// Takes one event into account, and returns what is to be announced.
    pub fn step(&mut self, event: ElectionEvent) -> (r: Option<NodeStatus>)
        requires
            old(self).wf(),
        ensures
            final(self).wf(),
            final(self)@ == after_event(old(self)@, event),
            r == announcement(old(self)@, event),
    {
        match event {
            ElectionEvent::Tick => self.tick(),
            ElectionEvent::Status(status) => {
                self.receive_status(status);
                None
            },
            ElectionEvent::Suspected(node_id) => {
                self.node_suspected(node_id);
                None
            },
            ElectionEvent::Majority { acks, members } => self.claim_leadership(acks, members),
        }
    }
}

/// Takes a batch of events into account, in order, and returns what is to
/// be announced, in order.
pub fn run_leader_election(election: &mut Election, events: &Vec<ElectionEvent>) -> (out: Vec<
    NodeStatus,
>)
    requires
        old(election).wf(),
    ensures
        final(election).wf(),
        final(election)@ == after_events(old(election)@, events@),
        out@ == announcements(old(election)@, events@),
{
    let mut out: Vec<NodeStatus> = Vec::new();
    let mut i: usize = 0;
    while i < events.len()
        invariant
            election.wf(),
            i <= events@.len(),
            election@ == after_events(old(election)@, events@.take(i as int)),
            out@ == announcements(old(election)@, events@.take(i as int)),
        decreases events@.len() - i,
    {
        proof {
            let next = events@.take(i + 1);
            assert(next.drop_last() =~= events@.take(i as int));
            assert(next.last() == events@[i as int]);
        }
        match election.step(events[i]) {
            Some(status) => {
                out.push(status);
            },
            None => {},
        }
        i = i + 1;
    }
    assert(events@.take(i as int) =~= events@);
    out
}

} // verus!
