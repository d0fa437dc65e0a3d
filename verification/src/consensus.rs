//! The consensus engine: majority agreement over proposals.
//!
//! Each proposal carries the set of nodes that voted for it, so that no
//! node counts twice. A proposal has a quorum when that set is a majority
//! of the current membership, whatever the membership was when the votes
//! were cast; it is committed at most once.

use crate::clock::unix_millis_now;
use crate::node_registry::NodeRegistry;
use crate::quorum::{quorum, quorum_size};
use crate::table::{filed, strictly_increasing, IdTable};
use vstd::prelude::*;

verus! {

/// Why a consensus operation was rejected.
#[derive(Debug, Clone, Copy, PartialEq, Eq, Structural)]
pub enum ConsensusError {
    /// A proposal with this id is registered already.
    DuplicateProposal,
    /// No proposal with this id is registered.
    UnknownProposal,
    /// This voter has voted for this proposal already.
    DuplicateVote,
}

/// A unit of agreement: opaque content, raised by one node in one term.
#[derive(Debug, PartialEq, Eq)]
pub struct ConsensusProposal {
    pub proposal_id: u128,
    pub content: String,
    pub proposer_id: u128,
    pub term: u64,
}

impl Clone for ConsensusProposal {
    fn clone(&self) -> (r: Self)
        ensures
            r == *self,
    {
        ConsensusProposal {
            proposal_id: self.proposal_id,
            content: self.content.clone(),
            proposer_id: self.proposer_id,
            term: self.term,
        }
    }
}

/// What the engine holds of one proposal.
pub struct ProposalView {
    pub proposal: ConsensusProposal,
    /// The nodes that have voted for the proposal.
    pub voters: Set<u128>,
    pub committed: bool,
    /// When the proposal was registered, in milliseconds since the Unix epoch.
    pub created_at: i64,
}

/// The state of the engine: what it holds of each proposal, by proposal id.
pub type Proposals = Map<u128, ProposalView>;

/// A proposal as it is registered at `now`: without votes, not committed.
pub open spec fn registered(proposal: ConsensusProposal, now: i64) -> ProposalView {
    ProposalView { proposal, voters: Set::empty(), committed: false, created_at: now }
}

/// The state after `proposal` was registered at `now`.
pub open spec fn after_propose(m: Proposals, proposal: ConsensusProposal, now: i64) -> Proposals {
    m.insert(proposal.proposal_id, registered(proposal, now))
}

/// The state after `voter` was counted for proposal `id`.
pub open spec fn after_vote(m: Proposals, id: u128, voter: u128) -> Proposals {
    m.insert(id, ProposalView { voters: m[id].voters.insert(voter), ..m[id] })
}

/// The number of distinct voters of proposal `id`.
pub open spec fn tally(m: Proposals, id: u128) -> nat {
    m[id].voters.len()
}

/// Whether proposal `id` is known and has as many distinct voters as `threshold`.
pub open spec fn reaches(m: Proposals, id: u128, threshold: nat) -> bool {
    m.contains_key(id) && tally(m, id) >= threshold
}

/// Whether proposal `id` has the votes of a majority of `members` members.
pub open spec fn has_quorum_of(m: Proposals, id: u128, members: nat) -> bool {
    reaches(m, id, quorum(members))
}

/// What a well-formed state satisfies: every proposal is filed under its
/// own id and has finitely many voters.
pub open spec fn well_formed(m: Proposals) -> bool {
    &&& m.dom().finite()
    &&& forall|k: u128| m.contains_key(k) ==> (#[trigger] m[k]).proposal.proposal_id == k
    &&& forall|k: u128| m.contains_key(k) ==> (#[trigger] m[k]).voters.finite()
}

/// Whether a commit of proposal `id` is due: it is known, not committed
/// yet, and has the votes of a majority of `members` members.
pub open spec fn commits(m: Proposals, id: u128, members: nat) -> bool {
    m.contains_key(id) && !m[id].committed && has_quorum_of(m, id, members)
}

/// The state after proposal `id` was committed.
pub open spec fn after_commit(m: Proposals, id: u128) -> Proposals {
    m.insert(id, ProposalView { committed: true, ..m[id] })
}

/// Whether a proposal has waited for its quorum for `timeout`
/// milliseconds or more at `now`. A committed proposal never expires.
pub open spec fn expired(v: ProposalView, now: i64, timeout: u64) -> bool {
    !v.committed && now - v.created_at >= timeout
}

/// The state without the proposals that have expired at `now`.
pub open spec fn after_sweep(m: Proposals, now: i64, timeout: u64) -> Proposals {
    Map::new(|k: u128| m.contains_key(k) && !expired(m[k], now, timeout), |k: u128| m[k])
}

/// Those of `ids` whose proposal has expired at `now`, in the same order.
pub open spec fn expired_among(ids: Seq<u128>, m: Proposals, now: i64, timeout: u64) -> Seq<u128>
    decreases ids.len(),
{
    if ids.len() == 0 {
        Seq::empty()
    } else if expired(m[ids.last()], now, timeout) {
        expired_among(ids.drop_last(), m, now, timeout).push(ids.last())
    } else {
        expired_among(ids.drop_last(), m, now, timeout)
    }
}

/// What the engine is asked to do.
#[derive(Debug, PartialEq, Eq)]
pub enum ConsensusEvent {
    /// Register this proposal.
    Proposal(ConsensusProposal),
    /// Count this voter for this proposal, and commit it if that is due.
    Vote { proposal_id: u128, voter_id: u128 },
}

/// The state after an attempt to register `proposal`: a taken id changes nothing.
pub open spec fn after_propose_attempt(
    m: Proposals,
    proposal: ConsensusProposal,
    now: i64,
) -> Proposals {
    if m.contains_key(proposal.proposal_id) {
        m
    } else {
        after_propose(m, proposal, now)
    }
}

/// The state after an attempt to count `voter` for proposal `id`: an
/// unknown proposal and a repeated vote change nothing.
pub open spec fn after_vote_attempt(m: Proposals, id: u128, voter: u128) -> Proposals {
    if m.contains_key(id) && !m[id].voters.contains(voter) {
        after_vote(m, id, voter)
    } else {
        m
    }
}

/// The state after proposal `id` was committed if that was due.
pub open spec fn after_commit_attempt(m: Proposals, id: u128, members: nat) -> Proposals {
    if commits(m, id, members) {
        after_commit(m, id)
    } else {
        m
    }
}

/// The state after `event`, with `members` members at `now`.
pub open spec fn after_event(
    m: Proposals,
    event: ConsensusEvent,
    members: nat,
    now: i64,
) -> Proposals {
    match event {
        ConsensusEvent::Proposal(proposal) => after_propose_attempt(m, proposal, now),
        ConsensusEvent::Vote { proposal_id, voter_id } => after_commit_attempt(
            after_vote_attempt(m, proposal_id, voter_id),
            proposal_id,
            members,
        ),
    }
}

/// The proposal that `event` commits, if it commits one.
pub open spec fn committed_by(m: Proposals, event: ConsensusEvent, members: nat) -> Option<
    ConsensusProposal,
> {
    match event {
        ConsensusEvent::Proposal(proposal) => None,
        ConsensusEvent::Vote { proposal_id, voter_id } => if commits(
            after_vote_attempt(m, proposal_id, voter_id),
            proposal_id,
            members,
        ) {
            Some(m[proposal_id].proposal)
        } else {
            None
        },
    }
}

/// The state after a sequence of events, taken in order.
pub open spec fn run_all(
    m: Proposals,
    events: Seq<ConsensusEvent>,
    members: nat,
    now: i64,
) -> Proposals
    decreases events.len(),
{
    if events.len() == 0 {
        m
    } else {
        after_event(run_all(m, events.drop_last(), members, now), events.last(), members, now)
    }
}

/// The proposals that a sequence of events commits, in order.
pub open spec fn commits_of(
    m: Proposals,
    events: Seq<ConsensusEvent>,
    members: nat,
    now: i64,
) -> Seq<ConsensusProposal>
    decreases events.len(),
{
    if events.len() == 0 {
        Seq::empty()
    } else {
        let before = commits_of(m, events.drop_last(), members, now);
        match committed_by(
            run_all(m, events.drop_last(), members, now),
            events.last(),
            members,
        ) {
            Some(p) => before.push(p),
            None => before,
        }
    }
}

/// How many of `committed` have the id `id`.
pub open spec fn times_committed(committed: Seq<ConsensusProposal>, id: u128) -> nat
    decreases committed.len(),
{
    if committed.len() == 0 {
        0
    } else {
        times_committed(committed.drop_last(), id) + if committed.last().proposal_id == id {
            1nat
        } else {
            0nat
        }
    }
}

/// The state after the votes of `voters` for proposal `id` were attempted
/// one after the other, without any commit.
pub open spec fn vote_all(m: Proposals, id: u128, voters: Seq<u128>) -> Proposals
    decreases voters.len(),
{
    if voters.len() == 0 {
        m
    } else {
        after_vote_attempt(vote_all(m, id, voters.drop_last()), id, voters.last())
    }
}

/// The votes of `voters` for proposal `id` as events.
pub open spec fn vote_events(id: u128, voters: Seq<u128>) -> Seq<ConsensusEvent> {
    Seq::new(voters.len(), |i: int| ConsensusEvent::Vote { proposal_id: id, voter_id: voters[i] })
}

/// The items of a sequence are those of its front and its last one.
pub proof fn lemma_to_set_of_front_and_last(s: Seq<u128>)
    requires
        s.len() > 0,
    ensures
        s.to_set() == s.drop_last().to_set().insert(s.last()),
{
    assert forall|a: u128| s.to_set().contains(a) <==> s.drop_last().to_set().insert(
        s.last(),
    ).contains(a) by {
        if s.to_set().contains(a) {
            let i = choose|i: int| 0 <= i < s.len() && s[i] == a;
            if i < s.len() - 1 {
                assert(s.drop_last()[i] == a);
            }
        }
        if s.drop_last().to_set().contains(a) {
            let i = choose|i: int| 0 <= i < s.drop_last().len() && s.drop_last()[i] == a;
            assert(s[i] == a);
        }
        if a == s.last() {
            assert(s[s.len() - 1] == a);
        }
    }
    assert(s.to_set() =~= s.drop_last().to_set().insert(s.last()));
}

/// After any sequence of vote attempts the voters of a proposal are those
/// it had together with those that attempted: no order and no repetition
/// of the attempts is to be seen in the result.
pub proof fn lemma_votes_form_a_set(m: Proposals, id: u128, voters: Seq<u128>)
    requires
        m.contains_key(id),
    ensures
        vote_all(m, id, voters) == m.insert(
            id,
            ProposalView { voters: m[id].voters + voters.to_set(), ..m[id] },
        ),
    decreases voters.len(),
{
    if voters.len() == 0 {
        assert(voters.to_set() =~= Set::<u128>::empty());
        assert(m[id].voters + voters.to_set() =~= m[id].voters);
        assert(m.insert(id, m[id]) =~= m);
    } else {
        let front = voters.drop_last();
        lemma_votes_form_a_set(m, id, front);
        lemma_to_set_of_front_and_last(voters);
        let before = vote_all(m, id, front);
        assert(before[id].voters == m[id].voters + front.to_set());
        assert((m[id].voters + front.to_set()).insert(voters.last()) =~= m[id].voters
            + voters.to_set());
        if before[id].voters.contains(voters.last()) {
            assert(m[id].voters + front.to_set() =~= m[id].voters + voters.to_set());
        }
        assert(vote_all(m, id, voters) =~= m.insert(
            id,
            ProposalView { voters: m[id].voters + voters.to_set(), ..m[id] },
        ));
    }
}

/// Votes for an unknown proposal change nothing.
pub proof fn lemma_votes_for_unknown_proposal(m: Proposals, id: u128, voters: Seq<u128>)
    requires
        !m.contains_key(id),
    ensures
        vote_all(m, id, voters) == m,
    decreases voters.len(),
{
    if voters.len() > 0 {
        lemma_votes_for_unknown_proposal(m, id, voters.drop_last());
    }
}

/// Two sequences of vote attempts by the same set of voters, in any order
/// and with any repetitions, leave the same state: the same tally and,
/// for every membership, the same answer to whether there is a quorum.
pub proof fn lemma_vote_order_is_irrelevant(
    m: Proposals,
    id: u128,
    first: Seq<u128>,
    second: Seq<u128>,
    members: nat,
)
    requires
        first.to_set() == second.to_set(),
    ensures
        vote_all(m, id, first) == vote_all(m, id, second),
        tally(vote_all(m, id, first), id) == tally(vote_all(m, id, second), id),
        has_quorum_of(vote_all(m, id, first), id, members) == has_quorum_of(
            vote_all(m, id, second),
            id,
            members,
        ),
{
    if m.contains_key(id) {
        lemma_votes_form_a_set(m, id, first);
        lemma_votes_form_a_set(m, id, second);
    } else {
        lemma_votes_for_unknown_proposal(m, id, first);
        lemma_votes_for_unknown_proposal(m, id, second);
    }
}

/// A repeated vote is rejected and not counted: the second attempt of a
/// voter leaves the state of the first.
pub proof fn lemma_duplicate_vote_is_not_counted(m: Proposals, id: u128, voter: u128)
    ensures
        after_vote_attempt(after_vote_attempt(m, id, voter), id, voter) == after_vote_attempt(
            m,
            id,
            voter,
        ),
{
}

/// Under the protocol, where every vote is followed by the check for a
/// commit, the votes of a non-empty sequence of attempts leave proposal
/// `id` with the voters it had and those that attempted, and committed if
/// and only if it was committed before or these voters are a majority.
pub proof fn lemma_commit_depends_on_voters_only(
    m: Proposals,
    id: u128,
    voters: Seq<u128>,
    members: nat,
    now: i64,
)
    requires
        m.contains_key(id),
        m[id].voters.finite(),
        voters.len() > 0,
    ensures
        run_all(m, vote_events(id, voters), members, now) == m.insert(
            id,
            ProposalView {
                voters: m[id].voters + voters.to_set(),
                committed: m[id].committed || (m[id].voters + voters.to_set()).len() >= quorum(
                    members,
                ),
                ..m[id]
            },
        ),
    decreases voters.len(),
{
    let events = vote_events(id, voters);
    let front = voters.drop_last();
    assert(events.drop_last() =~= vote_events(id, front));
    assert(events.last() == ConsensusEvent::Vote { proposal_id: id, voter_id: voters.last() });
    lemma_to_set_of_front_and_last(voters);
    vstd::seq_lib::seq_to_set_is_finite(front);
    vstd::seq_lib::seq_to_set_is_finite(voters);
    let all = m[id].voters + voters.to_set();
    let some = m[id].voters + front.to_set();
    assert(some.insert(voters.last()) =~= all);
    let before = run_all(m, vote_events(id, front), members, now);
    if front.len() == 0 {
        assert(before == m);
        assert(front.to_set() =~= Set::<u128>::empty());
        assert(some =~= m[id].voters);
    } else {
        lemma_commit_depends_on_voters_only(m, id, front, members, now);
        vstd::set_lib::lemma_len_subset(some, all);
    }
    assert(before.contains_key(id));
    assert(before[id].voters == some);
    let voted = after_vote_attempt(before, id, voters.last());
    if some.contains(voters.last()) {
        assert(some =~= all);
    }
    assert(voted[id].voters == all);
    assert(run_all(m, events, members, now) =~= m.insert(
        id,
        ProposalView {
            voters: all,
            committed: m[id].committed || all.len() >= quorum(members),
            ..m[id]
        },
    ));
}

/// Whether a proposal ends up committed under the protocol does not
/// depend on the order of the votes nor on repeated attempts, only on who
/// voted.
pub proof fn lemma_commit_decision_is_order_independent(
    m: Proposals,
    id: u128,
    first: Seq<u128>,
    second: Seq<u128>,
    members: nat,
    now: i64,
)
    requires
        m.contains_key(id),
        m[id].voters.finite(),
        first.len() > 0,
        second.len() > 0,
        first.to_set() == second.to_set(),
    ensures
        run_all(m, vote_events(id, first), members, now) == run_all(
            m,
            vote_events(id, second),
            members,
            now,
        ),
{
    lemma_commit_depends_on_voters_only(m, id, first, members, now);
    lemma_commit_depends_on_voters_only(m, id, second, members, now);
}

/// No event takes a proposal away, changes what was proposed or undoes a
/// commit, and none breaks the well-formedness of the state.
pub proof fn lemma_event_keeps_proposals(
    m: Proposals,
    event: ConsensusEvent,
    members: nat,
    now: i64,
    id: u128,
)
    requires
        well_formed(m),
    ensures
        well_formed(after_event(m, event, members, now)),
        m.contains_key(id) ==> after_event(m, event, members, now).contains_key(id)
            && after_event(m, event, members, now)[id].proposal == m[id].proposal && (
        m[id].committed ==> after_event(m, event, members, now)[id].committed),
        committed_by(m, event, members) matches Some(p) ==> p.proposal_id == id ==> (
        m.contains_key(id) && !m[id].committed && after_event(m, event, members, now)[id].committed),
{
    let after = after_event(m, event, members, now);
    match event {
        ConsensusEvent::Proposal(proposal) => {
            assert(after.dom() =~= if m.contains_key(proposal.proposal_id) {
                m.dom()
            } else {
                m.dom().insert(proposal.proposal_id)
            });
        },
        ConsensusEvent::Vote { proposal_id, voter_id } => {
            let voted = after_vote_attempt(m, proposal_id, voter_id);
            assert(voted.dom() =~= m.dom());
            assert(after.dom() =~= m.dom());
        },
    }
}

/// A proposal is committed at most once, whatever events arrive: a
/// sequence of events commits it once at most, not at all if it was
/// committed before, and it is committed after any commit.
pub proof fn lemma_committed_at_most_once(
    m: Proposals,
    events: Seq<ConsensusEvent>,
    members: nat,
    now: i64,
    id: u128,
)
    requires
        well_formed(m),
    ensures
        well_formed(run_all(m, events, members, now)),
        m.contains_key(id) ==> run_all(m, events, members, now).contains_key(id),
        m.contains_key(id) && m[id].committed ==> run_all(m, events, members, now)[id].committed,
        times_committed(commits_of(m, events, members, now), id) <= 1,
        m.contains_key(id) && m[id].committed ==> times_committed(
            commits_of(m, events, members, now),
            id,
        ) == 0,
        times_committed(commits_of(m, events, members, now), id) == 1 ==> run_all(
            m,
            events,
            members,
            now,
        ).contains_key(id) && run_all(m, events, members, now)[id].committed,
    decreases events.len(),
{
    if events.len() > 0 {
        let front = events.drop_last();
        let before = run_all(m, front, members, now);
        lemma_committed_at_most_once(m, front, members, now, id);
        lemma_event_keeps_proposals(before, events.last(), members, now, id);
        let earlier = commits_of(m, front, members, now);
        match committed_by(before, events.last(), members) {
            Some(p) => {
                assert(earlier.push(p).drop_last() =~= earlier);
                assert(earlier.push(p).last() == p);
            },
            None => {},
        }
    }
}

/// A proposal as it is taken in from a snapshot at `now`: committed, and
/// without the votes that committed it.
pub open spec fn committed_record(proposal: ConsensusProposal, now: i64) -> ProposalView {
    ProposalView { proposal, voters: Set::empty(), committed: true, created_at: now }
}

/// The id that a proposal is filed under.
pub open spec fn proposal_key() -> spec_fn(ProposalView) -> u128 {
    |v: ProposalView| v.proposal.proposal_id
}

/// The state that a list of committed proposals stands for when it is
/// taken in at `now`: where an id occurs more than once, the last
/// proposal with it counts.
pub open spec fn restored_from(list: Seq<ConsensusProposal>, now: i64) -> Proposals {
    filed(list.map_values(|p: ConsensusProposal| committed_record(p, now)), proposal_key())
}

struct ProposalRecord {
    proposal: ConsensusProposal,
    voters: IdTable<()>,
    committed: bool,
    created_at: i64,
}

spec fn record_view(r: ProposalRecord) -> ProposalView {
    ProposalView {
        proposal: r.proposal,
        voters: r.voters@.dom(),
        committed: r.committed,
        created_at: r.created_at,
    }
}

spec fn record_wf(k: u128, r: ProposalRecord) -> bool {
    r.voters.wf() && r.proposal.proposal_id == k
}

/// The proposals under vote and the committed ones, with their voters.
pub struct ConsensusState {
    proposals: IdTable<ProposalRecord>,
}

impl View for ConsensusState {
    type V = Proposals;

    closed spec fn view(&self) -> Proposals {
        Map::new(
            |k: u128| self.proposals@.contains_key(k),
            |k: u128| record_view(self.proposals@[k]),
        )
    }
}

impl ConsensusState {
    /// The representation invariant.
    pub closed spec fn wf(&self) -> bool {
        &&& self.proposals.wf()
        &&& forall|k: u128|
            self.proposals@.contains_key(k) ==> record_wf(k, #[trigger] self.proposals@[k])
    }

    /// The ids of the proposals in increasing order.
    pub closed spec fn ids(&self) -> Seq<u128> {
        self.proposals.ids()
    }

    /// What a well-formed engine's view is known to satisfy.
    pub proof fn lemma_wf(&self)
        requires
            self.wf(),
        ensures
            well_formed(self@),
            strictly_increasing(self.ids()),
            self.ids().to_set() == self@.dom(),
            self.ids().len() == self@.len(),
    {
        self.proposals.lemma_view();
        assert(self@.dom() =~= self.proposals@.dom());
        assert forall|k: u128| self@.contains_key(k) implies (#[trigger] self@[k]).voters.finite()
            && self@[k].proposal.proposal_id == k by {
            assert(record_wf(k, self.proposals@[k]));
            self.proposals@[k].voters.lemma_view();
        }
    }

    /// An engine without proposals.
    pub fn new() -> (r: Self)
        ensures
            r.wf(),
            r@ == Map::<u128, ProposalView>::empty(),
    {
        let r = ConsensusState { proposals: IdTable::new() };
        assert(r@ =~= Map::<u128, ProposalView>::empty());
        r
    }

    /// The engine that holds the committed proposals of `list`, taken in
    /// at `now`.
    pub fn restore(list: &Vec<ConsensusProposal>, now: i64) -> (r: Self)
        ensures
            r.wf(),
            r@ == restored_from(list@, now),
    {
        let mut r = ConsensusState::new();
        let mut i: usize = 0;
        while i < list.len()
            invariant
                r.wf(),
                i <= list@.len(),
                r@ == restored_from(list@.take(i as int), now),
            decreases list@.len() - i,
        {
            proof {
                let f = |p: ConsensusProposal| committed_record(p, now);
                let next = list@.take(i + 1).map_values(f);
                assert(next.drop_last() =~= list@.take(i as int).map_values(f));
                assert(next.last() == committed_record(list@[i as int], now));
            }
            let proposal = list[i].clone();
            let id: u128 = proposal.proposal_id;
            let record = ProposalRecord {
                proposal,
                voters: IdTable::new(),
                committed: true,
                created_at: now,
            };
            let ghost before = r@;
            r.proposals.insert(id, record);
            proof {
                assert(record_view(record) == committed_record(list@[i as int], now));
                assert(r@ =~= before.insert(id, committed_record(list@[i as int], now)));
            }
            i = i + 1;
        }
        assert(list@.take(i as int) =~= list@);
        r
    }

    /// The number of proposals held.
    pub fn len(&self) -> (n: usize)
        requires
            self.wf(),
        ensures
            n == self@.len(),
    {
        proof {
            self.lemma_wf();
        }
        self.proposals.len()
    }

    /// Registers `proposal` at `now`, without votes. A proposal whose id is
    /// taken is rejected and nothing changes.
    pub fn add_proposal_at(&mut self, proposal: ConsensusProposal, now: i64) -> (r: Result<
        (),
        ConsensusError,
    >)
        requires
            old(self).wf(),
        ensures
            final(self).wf(),
            r is Ok <==> !old(self)@.contains_key(proposal.proposal_id),
            r is Ok ==> final(self)@ == after_propose(old(self)@, proposal, now),
            r is Err ==> r == Err::<(), ConsensusError>(ConsensusError::DuplicateProposal)
                && final(self)@ == old(self)@,
    {
        let id: u128 = proposal.proposal_id;
        if self.proposals.contains_key(id) {
            Err(ConsensusError::DuplicateProposal)
        } else {
            let record = ProposalRecord {
                proposal,
                voters: IdTable::new(),
                committed: false,
                created_at: now,
            };
            self.proposals.insert(id, record);
            assert(record_view(record) == registered(proposal, now));
            assert(self@ =~= after_propose(old(self)@, proposal, now));
            Ok(())
        }
    }

    /// Registers `proposal` as of now, without votes. The time is read
    /// from the clock, so the contract leaves `created_at` open.
    pub fn add_proposal(&mut self, proposal: ConsensusProposal) -> (r: Result<(), ConsensusError>)
        requires
            old(self).wf(),
        ensures
            final(self).wf(),
            r is Ok <==> !old(self)@.contains_key(proposal.proposal_id),
            r is Ok ==> exists|now: i64|
                final(self)@ == #[trigger] after_propose(old(self)@, proposal, now),
            r is Err ==> r == Err::<(), ConsensusError>(ConsensusError::DuplicateProposal)
                && final(self)@ == old(self)@,
    {
        let now = unix_millis_now();
        self.add_proposal_at(proposal, now)
    }

    /// Counts the vote of `voter_id` for proposal `proposal_id`, and
    /// returns the number of distinct voters that the proposal has then.
    /// A vote for an unknown proposal and a second vote of one voter are
    /// rejected and change nothing.
    pub fn cast_vote(&mut self, proposal_id: u128, voter_id: u128) -> (r: Result<
        usize,
        ConsensusError,
    >)
        requires
            old(self).wf(),
        ensures
            final(self).wf(),
            r is Ok <==> old(self)@.contains_key(proposal_id) && !old(
                self,
            )@[proposal_id].voters.contains(voter_id),
            r matches Ok(n) ==> final(self)@ == after_vote(old(self)@, proposal_id, voter_id) && n
                == tally(final(self)@, proposal_id) && n == tally(old(self)@, proposal_id) + 1,
            r is Err ==> final(self)@ == old(self)@,
            r matches Err(e) ==> e == if old(self)@.contains_key(proposal_id) {
                ConsensusError::DuplicateVote
            } else {
                ConsensusError::UnknownProposal
            },
    {
        match self.proposals.remove(proposal_id) {
            Some(record) => {
                let mut record = record;
                proof {
                    assert(record_wf(proposal_id, record));
                    record.voters.lemma_view();
                }
                let ghost before = record;
                if record.voters.contains_key(voter_id) {
                    self.proposals.insert(proposal_id, record);
                    assert(self.proposals@ =~= old(self).proposals@);
                    assert(self@ =~= old(self)@);
                    Err(ConsensusError::DuplicateVote)
                } else {
                    record.voters.insert(voter_id, ());
                    proof {
                        record.voters.lemma_view();
                        assert(record.voters@.dom() =~= before.voters@.dom().insert(voter_id));
                    }
                    let n: usize = record.voters.len();
                    self.proposals.insert(proposal_id, record);
                    assert(self@ =~= after_vote(old(self)@, proposal_id, voter_id));
                    Ok(n)
                }
            },
            None => {
                assert(self.proposals@ =~= old(self).proposals@);
                assert(self@ =~= old(self)@);
                Err(ConsensusError::UnknownProposal)
            },
        }
    }

    /// The number of distinct voters of proposal `proposal_id`, if it is known.
    pub fn vote_count(&self, proposal_id: u128) -> (r: Option<usize>)
        requires
            self.wf(),
        ensures
            r is Some <==> self@.contains_key(proposal_id),
            r matches Some(n) ==> n == tally(self@, proposal_id),
    {
        match self.proposals.get(proposal_id) {
            Some(record) => {
                proof {
                    assert(record_wf(proposal_id, *record));
                }
                Some(record.voters.len())
            },
            None => None,
        }
    }

    /// Whether `voter_id` has voted for proposal `proposal_id`.
    pub fn has_voted(&self, proposal_id: u128, voter_id: u128) -> (b: bool)
        requires
            self.wf(),
        ensures
            b == (self@.contains_key(proposal_id) && self@[proposal_id].voters.contains(voter_id)),
    {
        match self.proposals.get(proposal_id) {
            Some(record) => {
                proof {
                    assert(record_wf(proposal_id, *record));
                }
                record.voters.contains_key(voter_id)
            },
            None => false,
        }
    }

    /// Whether proposal `proposal_id` is known and has at least
    /// `threshold` distinct voters.
    pub fn has_consensus(&self, proposal_id: u128, threshold: usize) -> (b: bool)
        requires
            self.wf(),
        ensures
            b == reaches(self@, proposal_id, threshold as nat),
    {
        match self.vote_count(proposal_id) {
            Some(n) => n >= threshold,
            None => false,
        }
    }

    /// Whether proposal `proposal_id` is known and has the votes of a
    /// majority of the members that `registry` holds at this moment.
    pub fn has_quorum(&self, proposal_id: u128, registry: &NodeRegistry) -> (b: bool)
        requires
            self.wf(),
            registry.wf(),
        ensures
            b == has_quorum_of(self@, proposal_id, registry@.len()),
            b == (self@.contains_key(proposal_id) && self@[proposal_id].voters.len()
                >= registry@.len() / 2 + 1),
    {
        let threshold: usize = quorum_size(registry.len());
        self.has_consensus(proposal_id, threshold)
    }

    /// Whether proposal `proposal_id` is known and committed.
    pub fn is_committed(&self, proposal_id: u128) -> (b: bool)
        requires
            self.wf(),
        ensures
            b == (self@.contains_key(proposal_id) && self@[proposal_id].committed),
    {
        match self.proposals.get(proposal_id) {
            Some(record) => record.committed,
            None => false,
        }
    }

    /// Commits proposal `proposal_id` if that is due with `members`
    /// members, and hands out the proposal to apply. A proposal that is
    /// unknown, committed already or short of a majority is left alone: so
    /// each proposal is handed out once at most.
    pub fn try_commit(&mut self, proposal_id: u128, members: usize) -> (r: Option<
        ConsensusProposal,
    >)
        requires
            old(self).wf(),
        ensures
            final(self).wf(),
            r is Some <==> commits(old(self)@, proposal_id, members as nat),
            r matches Some(p) ==> p == old(self)@[proposal_id].proposal && p.proposal_id
                == proposal_id && final(self)@ == after_commit(old(self)@, proposal_id),
            r is None ==> final(self)@ == old(self)@,
            final(self)@ == after_commit_attempt(old(self)@, proposal_id, members as nat),
    {
        match self.proposals.remove(proposal_id) {
            Some(record) => {
                let mut record = record;
                proof {
                    assert(record_wf(proposal_id, record));
                }
                let n: usize = record.voters.len();
                if !record.committed && n >= quorum_size(members) {
                    record.committed = true;
                    let proposal = record.proposal.clone();
                    self.proposals.insert(proposal_id, record);
                    assert(self@ =~= after_commit(old(self)@, proposal_id));
                    Some(proposal)
                } else {
                    self.proposals.insert(proposal_id, record);
                    assert(self.proposals@ =~= old(self).proposals@);
                    assert(self@ =~= old(self)@);
                    None
                }
            },
            None => {
                assert(self.proposals@ =~= old(self).proposals@);
                assert(self@ =~= old(self)@);
                None
            },
        }
    }

    /// Commits proposal `proposal_id` if it has the votes of a majority of
    /// the members that `registry` holds at this moment.
    pub fn commit_on_quorum(&mut self, proposal_id: u128, registry: &NodeRegistry) -> (r: Option<
        ConsensusProposal,
    >)
        requires
            old(self).wf(),
            registry.wf(),
        ensures
            final(self).wf(),
            r is Some <==> commits(old(self)@, proposal_id, registry@.len()),
            r matches Some(p) ==> p == old(self)@[proposal_id].proposal,
            final(self)@ == after_commit_attempt(old(self)@, proposal_id, registry@.len()),
    {
        let members: usize = registry.len();
        self.try_commit(proposal_id, members)
    }

    /// Evicts the proposals that have waited for their quorum for
    /// `timeout` milliseconds or more at `now`, and returns their ids in
    /// increasing order. Committed proposals stay.
    pub fn abandon_expired(&mut self, now: i64, timeout: u64) -> (evicted: Vec<u128>)
        requires
            old(self).wf(),
        ensures
            final(self).wf(),
            final(self)@ == after_sweep(old(self)@, now, timeout),
            evicted@ == expired_among(old(self).ids(), old(self)@, now, timeout),
            forall|k: u128|
                evicted@.contains(k) <==> old(self)@.contains_key(k) && expired(
                    old(self)@[k],
                    now,
                    timeout,
                ),
    {
        proof {
            self.proposals.lemma_view();
            lemma_expired_among(self.proposals.ids(), self@, now, timeout);
        }
        let n: usize = self.proposals.len();
        let mut evicted: Vec<u128> = Vec::new();
        let mut i: usize = 0;
        while i < n
            invariant
                self.wf(),
                n == self.proposals.ids().len(),
                i <= n,
                evicted@ == expired_among(self.proposals.ids().take(i as int), self@, now, timeout),
            decreases n - i,
        {
            proof {
                self.proposals.lemma_view();
                let next = self.proposals.ids().take(i + 1);
                assert(next.drop_last() =~= self.proposals.ids().take(i as int));
                assert(next.last() == self.proposals.ids()[i as int]);
            }
            let record = self.proposals.value_at(i);
            let waited: i128 = now as i128 - record.created_at as i128;
            if !record.committed && waited >= timeout as i128 {
                let id: u128 = self.proposals.id_at(i);
                evicted.push(id);
            }
            i = i + 1;
        }
        assert(self.proposals.ids().take(i as int) =~= self.proposals.ids());
        let mut j: usize = 0;
        while j < evicted.len()
            invariant
                self.wf(),
                j <= evicted@.len(),
                forall|k: u128|
                    evicted@.contains(k) <==> old(self)@.contains_key(k) && expired(
                        old(self)@[k],
                        now,
                        timeout,
                    ),
                self.proposals@ == Map::new(
                    |k: u128|
                        old(self).proposals@.contains_key(k) && !evicted@.take(j as int).contains(k),
                    |k: u128| old(self).proposals@[k],
                ),
            decreases evicted@.len() - j,
        {
            let id: u128 = evicted[j];
            proof {
                let next = evicted@.take(j + 1);
                assert(next =~= evicted@.take(j as int).push(id));
                assert forall|k: u128| next.contains(k) <==> evicted@.take(j as int).contains(k)
                    || k == id by {
                    if next.contains(k) {
                        let x = choose|x: int| 0 <= x < next.len() && next[x] == k;
                        if x < j {
                            assert(evicted@.take(j as int)[x] == k);
                        }
                    }
                    if evicted@.take(j as int).contains(k) {
                        let x = choose|x: int|
                            0 <= x < evicted@.take(j as int).len() && evicted@.take(j as int)[x]
                                == k;
                        assert(next[x] == k);
                    }
                    if k == id {
                        assert(next[j as int] == k);
                    }
                }
            }
            self.proposals.remove(id);
            assert(self.proposals@ =~= Map::new(
                |k: u128|
                    old(self).proposals@.contains_key(k) && !evicted@.take(j + 1).contains(k),
                |k: u128| old(self).proposals@[k],
            ));
            j = j + 1;
        }
        assert(evicted@.take(j as int) =~= evicted@);
        assert(self@ =~= after_sweep(old(self)@, now, timeout));
        evicted
    }

    /// The committed proposals, in increasing order of proposal id.
    pub fn committed_proposals(&self) -> (list: Vec<ConsensusProposal>)
        requires
            self.wf(),
        ensures
            list@ == committed_among(self.ids(), self@),
    {
        let n: usize = self.proposals.len();
        let mut list: Vec<ConsensusProposal> = Vec::new();
        let mut i: usize = 0;
        while i < n
            invariant
                self.wf(),
                n == self.proposals.ids().len(),
                i <= n,
                list@ == committed_among(self.proposals.ids().take(i as int), self@),
            decreases n - i,
        {
            proof {
                self.proposals.lemma_view();
                let next = self.proposals.ids().take(i + 1);
                assert(next.drop_last() =~= self.proposals.ids().take(i as int));
                assert(next.last() == self.proposals.ids()[i as int]);
            }
            let record = self.proposals.value_at(i);
            if record.committed {
                list.push(record.proposal.clone());
            }
            i = i + 1;
        }
        assert(self.proposals.ids().take(i as int) =~= self.proposals.ids());
        list
    }

    /// Takes one event into account with `members` members at `now`, and
    /// hands out the proposal to apply if the event commits one.
    pub fn step(&mut self, event: &ConsensusEvent, members: usize, now: i64) -> (r: Option<
        ConsensusProposal,
    >)
        requires
            old(self).wf(),
        ensures
            final(self).wf(),
            final(self)@ == after_event(old(self)@, *event, members as nat, now),
            r == committed_by(old(self)@, *event, members as nat),
    {
        match event {
            ConsensusEvent::Proposal(proposal) => {
                let _ = self.add_proposal_at(proposal.clone(), now);
                None
            },
            ConsensusEvent::Vote { proposal_id, voter_id } => {
                let _ = self.cast_vote(*proposal_id, *voter_id);
                self.try_commit(*proposal_id, members)
            },
        }
    }
}

/// The committed proposals among those with ids `ids`, in the same order.
pub open spec fn committed_among(ids: Seq<u128>, m: Proposals) -> Seq<ConsensusProposal>
    decreases ids.len(),
{
    if ids.len() == 0 {
        Seq::empty()
    } else if m[ids.last()].committed {
        committed_among(ids.drop_last(), m).push(m[ids.last()].proposal)
    } else {
        committed_among(ids.drop_last(), m)
    }
}

/// An id is among the expired of `ids` exactly if it is one of `ids` and
/// its proposal has expired.
pub proof fn lemma_expired_among(ids: Seq<u128>, m: Proposals, now: i64, timeout: u64)
    ensures
        forall|k: u128|
            expired_among(ids, m, now, timeout).contains(k) <==> ids.contains(k) && expired(
                m[k],
                now,
                timeout,
            ),
    decreases ids.len(),
{
    let out = expired_among(ids, m, now, timeout);
    if ids.len() > 0 {
        let front = ids.drop_last();
        let last = ids.last();
        let before = expired_among(front, m, now, timeout);
        lemma_expired_among(front, m, now, timeout);
        assert forall|k: u128| out.contains(k) <==> ids.contains(k) && expired(
            m[k],
            now,
            timeout,
        ) by {
            assert(before.contains(k) <==> front.contains(k) && expired(m[k], now, timeout));
            let last_counts = expired(m[last], now, timeout);
            assert(out == if last_counts {
                before.push(last)
            } else {
                before
            });
            if out.contains(k) {
                let x = choose|x: int| 0 <= x < out.len() && out[x] == k;
                if x < before.len() {
                    assert(before[x] == k);
                } else {
                    assert(k == last);
                }
            }
            if before.contains(k) {
                let x = choose|x: int| 0 <= x < before.len() && before[x] == k;
                assert(out[x] == k);
            }
            if last_counts {
                assert(out[out.len() - 1] == last);
            }
            if front.contains(k) {
                let y = choose|y: int| 0 <= y < front.len() && front[y] == k;
                assert(ids[y] == k);
            }
            if ids.contains(k) {
                let y = choose|y: int| 0 <= y < ids.len() && ids[y] == k;
                if y < front.len() {
                    assert(front[y] == k);
                } else {
                    assert(k == last);
                }
            }
            assert(ids[ids.len() - 1] == last);
        }
    }
}

/// Runs the protocol over a batch of events, in order, against the
/// membership that `registry` holds and at time `now`: proposals are
/// registered, votes are counted, and a proposal is committed by the vote
/// that completes its majority. Returns the proposals to apply, in the
/// order in which they were committed.
pub fn run_consensus_protocol(
    consensus_state: &mut ConsensusState,
    registry: &NodeRegistry,
    events: &Vec<ConsensusEvent>,
    now: i64,
) -> (committed: Vec<ConsensusProposal>)
    requires
        old(consensus_state).wf(),
        registry.wf(),
    ensures
        final(consensus_state).wf(),
        final(consensus_state)@ == run_all(
            old(consensus_state)@,
            events@,
            registry@.len(),
            now,
        ),
        committed@ == commits_of(old(consensus_state)@, events@, registry@.len(), now),
{
    let members: usize = registry.len();
    let mut committed: Vec<ConsensusProposal> = Vec::new();
    let mut i: usize = 0;
    while i < events.len()
        invariant
            consensus_state.wf(),
            i <= events@.len(),
            members == registry@.len(),
            consensus_state@ == run_all(
                old(consensus_state)@,
                events@.take(i as int),
                members as nat,
                now,
            ),
            committed@ == commits_of(
                old(consensus_state)@,
                events@.take(i as int),
                members as nat,
                now,
            ),
        decreases events@.len() - i,
    {
        proof {
            let next = events@.take(i + 1);
            assert(next.drop_last() =~= events@.take(i as int));
            assert(next.last() == events@[i as int]);
        }
        match consensus_state.step(&events[i], members, now) {
            Some(proposal) => {
                committed.push(proposal);
            },
            None => {},
        }
        i = i + 1;
    }
    assert(events@.take(i as int) =~= events@);
    committed
}

} // verus!
