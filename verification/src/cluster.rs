//! The cluster engine: membership, health, election, consensus and
//! scheduling of one coordinator, kept consistent with each other.
//!
//! The registry is the single source of truth for who is a node. The
//! balancer's nodes are always members; a suspicion reaches the registry
//! and the election; a quorum is always taken over the members of the
//! moment.

use crate::consensus::{
    after_commit_attempt, after_propose, after_sweep, after_vote, commits, committed_among,
    expired, restored_from, ConsensusError, ConsensusProposal, ConsensusState, Proposals,
};
use crate::election::{
    after_status, after_suspicion, after_tick, announcement, accepts, Election, ElectionEvent,
    ElectionView, NodeStatus,
};
use crate::health::{
    after_sample, count_in, fires, observe_all, silent_too_long, unhealthy_run, HealthCheck,
    HealthEvent, HealthMonitor,
};
use crate::load_balancer::{after_sync, is_least_loaded, LoadBalancer};
use crate::node_registry::{
    fresh_node, members_from, touched, with_status, Liveness, NodeInfo, NodeRegistry,
    RegistryError,
};
use crate::scheduler::{
    after_offer, after_signal, assignments_from, placement, signal_outcome, Scheduler,
    SchedulerError, SchedulerView, SignalOutcome, Task, TaskAssignment, TaskState,
};
use vstd::prelude::*;

verus! {

/// The state of the engine.
pub struct ClusterView {
    /// The members, by node id.
    pub members: Map<u128, NodeInfo>,
    /// The consecutive unhealthy samples of each node.
    pub failures: Map<u128, u32>,
    pub election: ElectionView,
    pub proposals: Proposals,
    pub scheduler: SchedulerView,
}

/// Why a proposal was not registered.
#[derive(Debug, Clone, Copy, PartialEq, Eq, Structural)]
pub enum ProposeError {
    /// No leader is known: proposals are refused until one is.
    NoLeader,
    /// A proposal with this id is registered already.
    DuplicateProposal,
}

/// The balancer gives tasks to members only.
pub open spec fn workers_are_members(v: ClusterView) -> bool {
    v.scheduler.loads.dom().subset_of(v.members.dom())
}

/// The state after `node_id` was registered with `role` at `now`; a node
/// that takes tasks and is new to the balancer starts there with none.
pub open spec fn after_register(
    v: ClusterView,
    node_id: u128,
    role: String,
    takes_tasks: bool,
    now: i64,
) -> ClusterView {
    ClusterView {
        members: v.members.insert(node_id, fresh_node(node_id, role, now)),
        scheduler: SchedulerView {
            loads: if takes_tasks && !v.scheduler.loads.contains_key(node_id) {
                v.scheduler.loads.insert(node_id, 0usize)
            } else {
                v.scheduler.loads
            },
            ..v.scheduler
        },
        ..v
    }
}

/// The state after `node_id` left: it is no member, takes no tasks, has no
/// failure count, and is not followed as leader any more.
pub open spec fn after_deregister(v: ClusterView, node_id: u128) -> ClusterView {
    ClusterView {
        members: v.members.remove(node_id),
        failures: v.failures.remove(node_id),
        election: after_suspicion(v.election, node_id),
        scheduler: SchedulerView { loads: v.scheduler.loads.remove(node_id), ..v.scheduler },
        ..v
    }
}

/// The members after a sample of a node at `now`: a healthy sample
/// refreshes the member, a sample that raises a suspicion marks it.
pub open spec fn members_after_sample(
    members: Map<u128, NodeInfo>,
    sample: HealthCheck,
    suspected: bool,
    now: i64,
) -> Map<u128, NodeInfo> {
    if !members.contains_key(sample.node_id) {
        members
    } else if sample.is_healthy {
        members.insert(sample.node_id, touched(members[sample.node_id], now))
    } else if suspected {
        members.insert(sample.node_id, with_status(members[sample.node_id], Liveness::Suspect))
    } else {
        members
    }
}

/// The state after a health sample at `now`.
pub open spec fn after_heartbeat(
    v: ClusterView,
    threshold: u32,
    sample: HealthCheck,
    now: i64,
) -> ClusterView {
    let suspected = fires(v.failures, threshold, sample);
    ClusterView {
        members: members_after_sample(v.members, sample, suspected, now),
        failures: after_sample(v.failures, sample),
        election: if suspected {
            after_suspicion(v.election, sample.node_id)
        } else {
            v.election
        },
        ..v
    }
}

/// Whether the check of a member at `now` finds it silent for too long.
pub open spec fn silent(threshold: u32, node: NodeInfo, now: i64, interval: u64) -> bool {
    silent_too_long(node.last_seen, now, interval, threshold)
}

/// Whether the check of a member at `now` raises a suspicion: it does
/// where the member is silent for too long and was not suspected before.
pub open spec fn silence_suspects(
    v: ClusterView,
    threshold: u32,
    node: NodeInfo,
    now: i64,
    interval: u64,
) -> bool {
    silent(threshold, node, now, interval) && count_in(v.failures, node.node_id) < threshold
}

/// The state after the silence of one member was checked at `now`: a
/// silence of `threshold` heartbeat intervals counts as that many
/// unhealthy samples, and a suspicion reaches the registry and the election.
pub open spec fn after_silence_check(
    v: ClusterView,
    threshold: u32,
    node: NodeInfo,
    now: i64,
    interval: u64,
) -> ClusterView {
    let id = node.node_id;
    let suspected = silence_suspects(v, threshold, node, now, interval);
    ClusterView {
        members: if suspected && v.members.contains_key(id) {
            v.members.insert(id, with_status(v.members[id], Liveness::Suspect))
        } else {
            v.members
        },
        failures: if silent(threshold, node, now, interval) {
            observe_all(v.failures, unhealthy_run(id, threshold as nat))
        } else {
            v.failures
        },
        election: if suspected {
            after_suspicion(v.election, id)
        } else {
            v.election
        },
        ..v
    }
}

/// The state after the silence of each of `nodes` was checked, in order.
pub open spec fn after_silence_checks(
    v: ClusterView,
    threshold: u32,
    nodes: Seq<NodeInfo>,
    now: i64,
    interval: u64,
) -> ClusterView
    decreases nodes.len(),
{
    if nodes.len() == 0 {
        v
    } else {
        after_silence_check(
            after_silence_checks(v, threshold, nodes.drop_last(), now, interval),
            threshold,
            nodes.last(),
            now,
            interval,
        )
    }
}

/// The suspicions that the checks of `nodes` raise, in order.
pub open spec fn silence_events(
    v: ClusterView,
    threshold: u32,
    nodes: Seq<NodeInfo>,
    now: i64,
    interval: u64,
) -> Seq<HealthEvent>
    decreases nodes.len(),
{
    if nodes.len() == 0 {
        Seq::empty()
    } else {
        let before = silence_events(v, threshold, nodes.drop_last(), now, interval);
        if silence_suspects(
            after_silence_checks(v, threshold, nodes.drop_last(), now, interval),
            threshold,
            nodes.last(),
            now,
            interval,
        ) {
            before.push(HealthEvent::NodeSuspected(nodes.last().node_id))
        } else {
            before
        }
    }
}

/// What the engine hands to a durability layer: the members, the
/// committed proposals and the assignments, each in increasing order of id.
#[derive(Debug, PartialEq, Eq)]
pub struct Snapshot {
    pub members: Vec<NodeInfo>,
    pub committed: Vec<ConsensusProposal>,
    pub assignments: Vec<TaskAssignment>,
}

/// One coordinator's engine.
pub struct Cluster {
    registry: NodeRegistry,
    health: HealthMonitor,
    election: Election,
    consensus: ConsensusState,
    scheduler: Scheduler,
}

impl View for Cluster {
    type V = ClusterView;

    closed spec fn view(&self) -> ClusterView {
        ClusterView {
            members: self.registry@,
            failures: self.health@,
            election: self.election@,
            proposals: self.consensus@,
            scheduler: self.scheduler@,
        }
    }
}

impl Cluster {
    /// The representation invariant: every part is well formed, and the
    /// balancer's nodes are members.
    pub closed spec fn wf(&self) -> bool {
        &&& self.registry.wf()
        &&& self.health.wf()
        &&& self.election.wf()
        &&& self.consensus.wf()
        &&& self.scheduler.wf()
        &&& workers_are_members(self@)
    }

    /// The number of consecutive unhealthy samples at which a node is suspected.
    pub closed spec fn threshold(&self) -> u32 {
        self.health.threshold()
    }

    /// The records of the members in increasing order of node id.
    pub closed spec fn member_records(&self) -> Seq<NodeInfo> {
        self.registry.records()
    }

    /// The ids of the proposals in increasing order.
    pub closed spec fn proposal_ids(&self) -> Seq<u128> {
        self.consensus.ids()
    }

    /// What a well-formed engine's view is known to satisfy.
    pub proof fn lemma_wf(&self)
        requires
            self.wf(),
        ensures
            workers_are_members(self@),
            self@.members.dom().finite(),
            self@.scheduler.loads.dom().finite(),
            self.threshold() >= 1,
    {
        self.registry.lemma_wf();
        self.scheduler.lemma_wf();
        self.health.lemma_wf();
    }

    /// The engine of coordinator `node_id`, without members, with the
    /// given threshold of unhealthy samples (zero stands for the default).
    pub fn new(node_id: u128, unhealthy_threshold: u32) -> (r: Self)
        ensures
            r.wf(),
            r@.members == Map::<u128, NodeInfo>::empty(),
            r@.failures == Map::<u128, u32>::empty(),
            r@.election == crate::election::fresh(node_id),
            r@.proposals == Map::<u128, crate::consensus::ProposalView>::empty(),
            r@.scheduler.loads == Map::<u128, usize>::empty(),
            r@.scheduler.assignments == Map::<u128, crate::scheduler::TaskAssignment>::empty(),
            r.threshold() == if unhealthy_threshold == 0 {
                crate::health::DEFAULT_UNHEALTHY_THRESHOLD
            } else {
                unhealthy_threshold
            },
    {
        Cluster {
            registry: NodeRegistry::new(),
            health: HealthMonitor::new(unhealthy_threshold),
            election: Election::new(node_id),
            consensus: ConsensusState::new(),
            scheduler: Scheduler::new(LoadBalancer::new()),
        }
    }

    /// The membership registry.
    pub fn registry(&self) -> (r: &NodeRegistry)
        requires
            self.wf(),
        ensures
            r.wf(),
            r@ == self@.members,
    {
        &self.registry
    }

    /// The health monitor.
    pub fn health(&self) -> (r: &HealthMonitor)
        requires
            self.wf(),
        ensures
            r.wf(),
            r@ == self@.failures,
            r.threshold() == self.threshold(),
    {
        &self.health
    }

    /// The election state.
    pub fn election(&self) -> (r: &Election)
        requires
            self.wf(),
        ensures
            r.wf(),
            r@ == self@.election,
    {
        &self.election
    }

    /// The consensus engine.
    pub fn consensus(&self) -> (r: &ConsensusState)
        requires
            self.wf(),
        ensures
            r.wf(),
            r@ == self@.proposals,
    {
        &self.consensus
    }

    /// The scheduler.
    pub fn scheduler(&self) -> (r: &Scheduler)
        requires
            self.wf(),
        ensures
            r.wf(),
            r@ == self@.scheduler,
    {
        &self.scheduler
    }

    /// Registers `node_id` with `role` as seen at `now`. A node that takes
    /// tasks is made known to the balancer, where it keeps the count it
    /// has if it is known there already.
    pub fn register_node(&mut self, node_id: u128, role: String, takes_tasks: bool, now: i64)
        requires
            old(self).wf(),
        ensures
            final(self).wf(),
            final(self).threshold() == old(self).threshold(),
            final(self)@ == after_register(old(self)@, node_id, role, takes_tasks, now),
    {
        self.registry.register_node_at(node_id, role, now);
        if takes_tasks && self.scheduler.load_balancer().load_of(node_id).is_none() {
            self.scheduler.add_node(node_id);
        }
        assert(self@.scheduler =~= after_register(
            old(self)@,
            node_id,
            role,
            takes_tasks,
            now,
        ).scheduler);
    }

    /// Takes `node_id` out of the cluster: out of the membership, the
    /// balancer and the health monitor; if it was the leader followed,
    /// nobody is followed from now on. Fails where it is no member, and
    /// even then nothing of it stays behind.
    pub fn deregister_node(&mut self, node_id: u128) -> (r: Result<(), RegistryError>)
        requires
            old(self).wf(),
        ensures
            final(self).wf(),
            final(self).threshold() == old(self).threshold(),
            final(self)@ == after_deregister(old(self)@, node_id),
            r == if old(self)@.members.contains_key(node_id) {
                Ok::<(), RegistryError>(())
            } else {
                Err::<(), RegistryError>(RegistryError::NotFound)
            },
    {
        let r = self.registry.remove_node(node_id);
        self.scheduler.remove_node(node_id);
        self.health.forget(node_id);
        self.election.node_suspected(node_id);
        assert(self@.scheduler =~= after_deregister(old(self)@, node_id).scheduler);
        r
    }

    /// Takes a health sample into account at `now`. A healthy sample of a
    /// member refreshes it; the sample that brings a node's unhealthy run
    /// to the threshold marks the member as suspected and, if the node is
    /// the leader followed, ends the following, so that the next election
    /// tick starts a campaign.
    pub fn record_heartbeat(&mut self, sample: HealthCheck, now: i64) -> (event: Option<
        HealthEvent,
    >)
        requires
            old(self).wf(),
        ensures
            final(self).wf(),
            final(self).threshold() == old(self).threshold(),
            final(self)@ == after_heartbeat(old(self)@, old(self).threshold(), sample, now),
            event == if fires(old(self)@.failures, old(self).threshold(), sample) {
                Some(HealthEvent::NodeSuspected(sample.node_id))
            } else {
                None::<HealthEvent>
            },
    {
        let event = self.health.observe(sample);
        if sample.is_healthy {
            let _ = self.registry.update_last_seen_at(sample.node_id, now);
        } else if event.is_some() {
            let _ = self.registry.set_status(sample.node_id, Liveness::Suspect);
            self.election.node_suspected(sample.node_id);
        }
        proof {
            self.registry.lemma_wf();
            assert(self@.members.dom() =~= old(self)@.members.dom());
        }
        event
    }

    /// Lets the election interval pass: without a leader the node starts
    /// a campaign, and the candidacy to announce is returned.
    pub fn election_tick(&mut self) -> (r: Option<NodeStatus>)
        requires
            old(self).wf(),
        ensures
            final(self).wf(),
            final(self).threshold() == old(self).threshold(),
            final(self)@ == (ClusterView { election: after_tick(old(self)@.election), ..old(self)@ }),
            r == announcement(old(self)@.election, ElectionEvent::Tick),
    {
        self.election.tick()
    }

    /// Takes a delivered status into account, and says whether it was
    /// accepted as the claim of the leader.
    pub fn receive_status(&mut self, status: NodeStatus) -> (accepted: bool)
        requires
            old(self).wf(),
        ensures
            final(self).wf(),
            final(self).threshold() == old(self).threshold(),
            final(self)@ == (ClusterView {
                election: after_status(old(self)@.election, status),
                ..old(self)@
            }),
            accepted == accepts(old(self)@.election, status),
    {
        self.election.receive_status(status)
    }

    /// The claim to announce where `acks` members have acknowledged this
    /// node's candidacy and that is a majority of the members of the moment.
    pub fn claim_leadership(&self, acks: usize) -> (r: Option<NodeStatus>)
        requires
            self.wf(),
        ensures
            r == if self@.election.candidate && acks >= crate::quorum::quorum(
                self@.members.len(),
            ) {
                Some(crate::election::claim_of(self@.election))
            } else {
                None::<NodeStatus>
            },
    {
        let members: usize = self.registry.len();
        self.election.claim_leadership(acks, members)
    }

    /// Registers `proposal` at `now`. While no leader is known, proposals
    /// are refused.
    pub fn propose(&mut self, proposal: ConsensusProposal, now: i64) -> (r: Result<
        (),
        ProposeError,
    >)
        requires
            old(self).wf(),
        ensures
            final(self).wf(),
            final(self).threshold() == old(self).threshold(),
            r == if old(self)@.election.leader is None {
                Err::<(), ProposeError>(ProposeError::NoLeader)
            } else if old(self)@.proposals.contains_key(proposal.proposal_id) {
                Err::<(), ProposeError>(ProposeError::DuplicateProposal)
            } else {
                Ok::<(), ProposeError>(())
            },
            final(self)@ == if r is Ok {
                ClusterView {
                    proposals: after_propose(old(self)@.proposals, proposal, now),
                    ..old(self)@
                }
            } else {
                old(self)@
            },
    {
        if self.election.current_leader().is_none() {
            return Err(ProposeError::NoLeader);
        }
        match self.consensus.add_proposal_at(proposal, now) {
            Ok(()) => Ok(()),
            Err(_) => Err(ProposeError::DuplicateProposal),
        }
    }

    /// Counts the vote of `voter_id` for proposal `proposal_id`, and
    /// commits the proposal if it then has the votes of a majority of the
    /// members of the moment and was not committed before. Returns the
    /// proposal to apply where this vote committed it.
    pub fn vote(&mut self, proposal_id: u128, voter_id: u128) -> (r: Result<
        Option<ConsensusProposal>,
        ConsensusError,
    >)
        requires
            old(self).wf(),
        ensures
            final(self).wf(),
            final(self).threshold() == old(self).threshold(),
            r is Ok <==> old(self)@.proposals.contains_key(proposal_id) && !old(
                self,
            )@.proposals[proposal_id].voters.contains(voter_id),
            r matches Err(e) ==> final(self)@ == old(self)@ && e == if old(
                self,
            )@.proposals.contains_key(proposal_id) {
                ConsensusError::DuplicateVote
            } else {
                ConsensusError::UnknownProposal
            },
            r matches Ok(applied) ==> final(self)@ == (ClusterView {
                proposals: after_commit_attempt(
                    after_vote(old(self)@.proposals, proposal_id, voter_id),
                    proposal_id,
                    old(self)@.members.len(),
                ),
                ..old(self)@
            }) && (applied is Some <==> commits(
                after_vote(old(self)@.proposals, proposal_id, voter_id),
                proposal_id,
                old(self)@.members.len(),
            )) && (applied matches Some(p) ==> p == old(self)@.proposals[proposal_id].proposal),
    {
        match self.consensus.cast_vote(proposal_id, voter_id) {
            Ok(_) => Ok(self.consensus.commit_on_quorum(proposal_id, &self.registry)),
            Err(e) => Err(e),
        }
    }

    /// Commits proposal `proposal_id` if it is known, not committed yet,
    /// and has the votes of a majority of the members of the moment, and
    /// hands out the proposal to apply. This is how a proposal is
    /// committed whose votes became a majority because members left.
    pub fn commit_on_quorum(&mut self, proposal_id: u128) -> (r: Option<ConsensusProposal>)
        requires
            old(self).wf(),
        ensures
            final(self).wf(),
            final(self).threshold() == old(self).threshold(),
            r is Some <==> commits(old(self)@.proposals, proposal_id, old(self)@.members.len()),
            r matches Some(p) ==> p == old(self)@.proposals[proposal_id].proposal,
            final(self)@ == (ClusterView {
                proposals: after_commit_attempt(
                    old(self)@.proposals,
                    proposal_id,
                    old(self)@.members.len(),
                ),
                ..old(self)@
            }),
    {
        self.consensus.commit_on_quorum(proposal_id, &self.registry)
    }

    /// Places `task` on the least-loaded node that takes tasks, which is
    /// a member, and records the assignment. Where no node takes tasks the
    /// task is refused and nothing changes.
    pub fn schedule_task(&mut self, task: &Task) -> (r: Result<u128, SchedulerError>)
        requires
            old(self).wf(),
        ensures
            final(self).wf(),
            final(self).threshold() == old(self).threshold(),
            r is Err <==> old(self)@.scheduler.loads.len() == 0,
            r is Err ==> r == Err::<u128, SchedulerError>(SchedulerError::NoAvailableNodes)
                && final(self)@ == old(self)@,
            r matches Ok(node_id) ==> old(self)@.members.contains_key(node_id) && is_least_loaded(
                old(self)@.scheduler.loads,
                node_id,
            ),
            r == match placement(old(self)@.scheduler) {
                Some(node_id) => Ok::<u128, SchedulerError>(node_id),
                None => Err::<u128, SchedulerError>(SchedulerError::NoAvailableNodes),
            },
            final(self)@ == (ClusterView {
                scheduler: after_offer(old(self)@.scheduler, *task),
                ..old(self)@
            }),
    {
        let r = self.scheduler.schedule_task(task);
        proof {
            assert(self@.scheduler.loads.dom() =~= old(self)@.scheduler.loads.dom());
        }
        r
    }

    /// Takes into account that task `task_id` was reported done.
    pub fn complete_task(&mut self, task_id: u128) -> (r: SignalOutcome)
        requires
            old(self).wf(),
        ensures
            final(self).wf(),
            final(self).threshold() == old(self).threshold(),
            final(self)@ == (ClusterView {
                scheduler: after_signal(old(self)@.scheduler, task_id, TaskState::Completed),
                ..old(self)@
            }),
            r == signal_outcome(old(self)@.scheduler, task_id),
    {
        let r = self.scheduler.complete_task(task_id);
        proof {
            assert(self@.scheduler.loads.dom() =~= old(self)@.scheduler.loads.dom());
        }
        r
    }

    /// Takes into account that task `task_id` was reported failed.
    pub fn fail_task(&mut self, task_id: u128) -> (r: SignalOutcome)
        requires
            old(self).wf(),
        ensures
            final(self).wf(),
            final(self).threshold() == old(self).threshold(),
            final(self)@ == (ClusterView {
                scheduler: after_signal(old(self)@.scheduler, task_id, TaskState::Failed),
                ..old(self)@
            }),
            r == signal_outcome(old(self)@.scheduler, task_id),
    {
        let r = self.scheduler.fail_task(task_id);
        proof {
            assert(self@.scheduler.loads.dom() =~= old(self)@.scheduler.loads.dom());
        }
        r
    }

    /// Checks the silence of every member at `now`, in increasing order
    /// of node id: a member not heard of for `threshold` heartbeat
    /// intervals or more counts as that many unhealthy samples. Returns
    /// the suspicions raised; each reaches the registry and the election
    /// as with a sample.
    pub fn check_silence(&mut self, now: i64, heartbeat_interval: u64) -> (events: Vec<HealthEvent>)
        requires
            old(self).wf(),
        ensures
            final(self).wf(),
            final(self).threshold() == old(self).threshold(),
            final(self)@ == after_silence_checks(
                old(self)@,
                old(self).threshold(),
                old(self).member_records(),
                now,
                heartbeat_interval,
            ),
            events@ == silence_events(
                old(self)@,
                old(self).threshold(),
                old(self).member_records(),
                now,
                heartbeat_interval,
            ),
    {
        let nodes = self.registry.list_active_nodes();
        let mut events: Vec<HealthEvent> = Vec::new();
        let mut i: usize = 0;
        while i < nodes.len()
            invariant
                self.wf(),
                self.threshold() == old(self).threshold(),
                i <= nodes@.len(),
                self@ == after_silence_checks(
                    old(self)@,
                    old(self).threshold(),
                    nodes@.take(i as int),
                    now,
                    heartbeat_interval,
                ),
                events@ == silence_events(
                    old(self)@,
                    old(self).threshold(),
                    nodes@.take(i as int),
                    now,
                    heartbeat_interval,
                ),
            decreases nodes@.len() - i,
        {
            proof {
                let next = nodes@.take(i + 1);
                assert(next.drop_last() =~= nodes@.take(i as int));
                assert(next.last() == nodes@[i as int]);
            }
            let ghost before = self@;
            let node_id: u128 = nodes[i].node_id;
            let last_seen: i64 = nodes[i].last_seen;
            let event = self.health.observe_silence(node_id, last_seen, now, heartbeat_interval);
            match event {
                Some(e) => {
                    let _ = self.registry.set_status(node_id, Liveness::Suspect);
                    self.election.node_suspected(node_id);
                    events.push(e);
                },
                None => {},
            }
            proof {
                assert(self@.members.dom() =~= before.members.dom());
                assert(self@ == after_silence_check(
                    before,
                    old(self).threshold(),
                    nodes@[i as int],
                    now,
                    heartbeat_interval,
                ));
            }
            i = i + 1;
        }
        assert(nodes@.take(i as int) =~= nodes@);
        events
    }

    /// Makes a member that takes tasks known to the balancer, with no
    /// task counted, unless it is known there. Says whether `node_id` is a
    /// member; for one that is not, nothing changes.
    pub fn enlist_worker(&mut self, node_id: u128) -> (member: bool)
        requires
            old(self).wf(),
        ensures
            final(self).wf(),
            final(self).threshold() == old(self).threshold(),
            member == old(self)@.members.contains_key(node_id),
            final(self)@ == (ClusterView {
                scheduler: SchedulerView {
                    loads: if member && !old(self)@.scheduler.loads.contains_key(node_id) {
                        old(self)@.scheduler.loads.insert(node_id, 0usize)
                    } else {
                        old(self)@.scheduler.loads
                    },
                    ..old(self)@.scheduler
                },
                ..old(self)@
            }),
    {
        let member = self.registry.contains(node_id);
        if member && self.scheduler.load_balancer().load_of(node_id).is_none() {
            self.scheduler.add_node(node_id);
        }
        assert(self@.scheduler =~= (SchedulerView {
            loads: if member && !old(self)@.scheduler.loads.contains_key(node_id) {
                old(self)@.scheduler.loads.insert(node_id, 0usize)
            } else {
                old(self)@.scheduler.loads
            },
            ..old(self)@.scheduler
        }));
        member
    }

    /// Overwrites the task count of a node that takes tasks with an
    /// authoritative report, and says whether the node is one.
    pub fn sync_load(&mut self, node_id: u128, task_count: usize) -> (known: bool)
        requires
            old(self).wf(),
        ensures
            final(self).wf(),
            final(self).threshold() == old(self).threshold(),
            known == old(self)@.scheduler.loads.contains_key(node_id),
            final(self)@ == (ClusterView {
                scheduler: SchedulerView {
                    loads: after_sync(
                        old(self)@.scheduler.loads,
                        node_id,
                        task_count,
                    ),
                    ..old(self)@.scheduler
                },
                ..old(self)@
            }),
    {
        let known = self.scheduler.sync_load(node_id, task_count);
        proof {
            assert(self@.scheduler.loads.dom() =~= old(self)@.scheduler.loads.dom());
            assert(self@.scheduler =~= (SchedulerView {
                loads: after_sync(
                    old(self)@.scheduler.loads,
                    node_id,
                    task_count,
                ),
                ..old(self)@.scheduler
            }));
        }
        known
    }

    /// Evicts the proposals that have waited for their quorum for
    /// `timeout` milliseconds or more at `now`, and returns their ids in
    /// increasing order.
    pub fn abandon_expired(&mut self, now: i64, timeout: u64) -> (evicted: Vec<u128>)
        requires
            old(self).wf(),
        ensures
            final(self).wf(),
            final(self).threshold() == old(self).threshold(),
            final(self)@ == (ClusterView {
                proposals: after_sweep(old(self)@.proposals, now, timeout),
                ..old(self)@
            }),
            forall|k: u128|
                evicted@.contains(k) <==> old(self)@.proposals.contains_key(k) && expired(
                    old(self)@.proposals[k],
                    now,
                    timeout,
                ),
    {
        self.consensus.abandon_expired(now, timeout)
    }

    /// What a durability layer is to keep: the members, the committed
    /// proposals and the assignments. Taken in again by `restore`, the
    /// members and the assignments are those of this engine.
    pub fn snapshot(&self) -> (s: Snapshot)
        requires
            self.wf(),
        ensures
            s.members@ == self.member_records(),
            members_from(s.members@) == self@.members,
            s.committed@ == committed_among(self.proposal_ids(), self@.proposals),
            assignments_from(s.assignments@) == self@.scheduler.assignments,
    {
        Snapshot {
            members: self.registry.list_active_nodes(),
            committed: self.consensus.committed_proposals(),
            assignments: self.scheduler.assignments(),
        }
    }

    /// The engine of coordinator `node_id` that holds what `snapshot`
    /// holds, taken in at `now`: its members and assignments as they are,
    /// its proposals as committed. Nothing else is carried over: no node
    /// takes tasks, no failure is counted, no leader is known.
    pub fn restore(node_id: u128, unhealthy_threshold: u32, snapshot: &Snapshot, now: i64) -> (r:
        Self)
        ensures
            r.wf(),
            r@.members == members_from(snapshot.members@),
            r@.proposals == restored_from(snapshot.committed@, now),
            r@.scheduler.assignments == assignments_from(snapshot.assignments@),
            r@.scheduler.loads == Map::<u128, usize>::empty(),
            r@.failures == Map::<u128, u32>::empty(),
            r@.election == crate::election::fresh(node_id),
            r.threshold() == if unhealthy_threshold == 0 {
                crate::health::DEFAULT_UNHEALTHY_THRESHOLD
            } else {
                unhealthy_threshold
            },
    {
        Cluster {
            registry: NodeRegistry::from_records(&snapshot.members),
            health: HealthMonitor::new(unhealthy_threshold),
            election: Election::new(node_id),
            consensus: ConsensusState::restore(&snapshot.committed, now),
            scheduler: Scheduler::restore(LoadBalancer::new(), &snapshot.assignments),
        }
    }
}

} // verus!
