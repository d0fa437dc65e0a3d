use distributed_neural_network::cluster::{Cluster, ProposeError};
use distributed_neural_network::consensus::{ConsensusError, ConsensusProposal};
use distributed_neural_network::election::NodeStatus;
use distributed_neural_network::health::{HealthCheck, HealthEvent};
use distributed_neural_network::load_balancer::Completion;
use distributed_neural_network::node_registry::{Liveness, RegistryError};
use distributed_neural_network::scheduler::{SchedulerError, SignalOutcome, Task};

fn claim(node_id: u128, term: u64) -> NodeStatus {
    NodeStatus { node_id, term, is_leader: true, is_candidate: false }
}

#[test]
fn scenario_suspected_leader_is_replaced_in_the_next_term() {
    let mut cluster = Cluster::new(1, 3);
    for id in 1..=3u128 {
        cluster.register_node(id, "coordinator".to_string(), false, 0);
    }
    // Node 2 leads term 5.
    assert!(cluster.receive_status(claim(2, 5)));
    assert_eq!(cluster.election().current_leader(), Some(2));
    assert_eq!(cluster.election().term(), 5);
    // Three missed heartbeats.
    let miss = HealthCheck { node_id: 2, is_healthy: false };
    assert_eq!(cluster.record_heartbeat(miss, 1_000), None);
    assert_eq!(cluster.record_heartbeat(miss, 2_000), None);
    assert_eq!(cluster.election().current_leader(), Some(2));
    assert_eq!(cluster.record_heartbeat(miss, 3_000), Some(HealthEvent::NodeSuspected(2)));
    assert_eq!(cluster.registry().get_node_info(2).unwrap().status, Liveness::Suspect);
    assert_eq!(cluster.election().current_leader(), None);
    // The election tick starts term 6.
    let candidacy = cluster.election_tick().unwrap();
    assert_eq!(candidacy.term, 6);
    assert!(candidacy.is_candidate);
    // A late claim of the old term does not bring the old leader back.
    assert!(!cluster.receive_status(claim(2, 5)));
    // The new claim at term 6 overrides.
    assert!(cluster.receive_status(claim(3, 6)));
    assert_eq!(cluster.election().current_leader(), Some(3));
    assert_eq!(cluster.election().term(), 6);
    assert!(!cluster.election().is_leader());
    // No event per sample after the crossing.
    assert_eq!(cluster.record_heartbeat(miss, 4_000), None);
}

#[test]
fn healthy_heartbeat_refreshes_the_member() {
    let mut cluster = Cluster::new(1, 2);
    cluster.register_node(5, "worker".to_string(), true, 100);
    let miss = HealthCheck { node_id: 5, is_healthy: false };
    cluster.record_heartbeat(miss, 200);
    assert_eq!(cluster.record_heartbeat(miss, 300), Some(HealthEvent::NodeSuspected(5)));
    assert_eq!(cluster.registry().get_node_info(5).unwrap().last_seen, 100);
    assert_eq!(cluster.record_heartbeat(HealthCheck { node_id: 5, is_healthy: true }, 400), None);
    let info = cluster.registry().get_node_info(5).unwrap();
    assert_eq!(info.last_seen, 400);
    assert_eq!(info.status, Liveness::Alive);
    assert_eq!(cluster.health().failure_count(5), 0);
    // Samples of a node that is no member are counted but touch no member.
    assert_eq!(cluster.record_heartbeat(HealthCheck { node_id: 9, is_healthy: true }, 500), None);
    assert!(cluster.registry().get_node_info(9).is_none());
}

#[test]
fn balancer_holds_members_only() {
    let mut cluster = Cluster::new(1, 3);
    cluster.register_node(10, "worker".to_string(), true, 0);
    cluster.register_node(11, "worker".to_string(), true, 0);
    cluster.register_node(12, "coordinator".to_string(), false, 0);
    assert_eq!(cluster.scheduler().load_balancer().len(), 2);
    let t1 = Task { task_id: 1, data: "a".to_string() };
    assert_eq!(cluster.schedule_task(&t1), Ok(10));
    // Registering again refreshes the member and keeps its count.
    cluster.register_node(10, "worker".to_string(), true, 50);
    assert_eq!(cluster.scheduler().load_balancer().load_of(10).unwrap().task_count, 1);
    assert_eq!(cluster.deregister_node(10), Ok(()));
    assert_eq!(cluster.deregister_node(10), Err(RegistryError::NotFound));
    assert!(cluster.scheduler().load_balancer().load_of(10).is_none());
    assert!(cluster.registry().get_node_info(10).is_none());
    for load in cluster.scheduler().load_balancer().loads() {
        assert!(cluster.registry().contains(load.node_id));
    }
    // A late completion for the node that left is benign.
    assert_eq!(cluster.complete_task(1), SignalOutcome::Settled(Completion::UnknownNode));
    assert_eq!(cluster.deregister_node(11), Ok(()));
    assert_eq!(
        cluster.schedule_task(&Task { task_id: 2, data: "b".to_string() }),
        Err(SchedulerError::NoAvailableNodes)
    );
    assert_eq!(cluster.fail_task(2), SignalOutcome::UnknownTask);
}

#[test]
fn deregistering_the_leader_ends_the_following() {
    let mut cluster = Cluster::new(1, 3);
    cluster.register_node(2, "coordinator".to_string(), false, 0);
    cluster.receive_status(claim(2, 1));
    assert_eq!(cluster.deregister_node(2), Ok(()));
    assert_eq!(cluster.election().current_leader(), None);
}

#[test]
fn proposals_are_refused_without_a_leader() {
    let mut cluster = Cluster::new(1, 3);
    for id in 1..=3u128 {
        cluster.register_node(id, "coordinator".to_string(), false, 0);
    }
    let p = ConsensusProposal { proposal_id: 7, content: "c".to_string(), proposer_id: 1, term: 1 };
    assert_eq!(cluster.propose(p.clone(), 0), Err(ProposeError::NoLeader));
    assert_eq!(cluster.consensus().len(), 0);
    cluster.receive_status(claim(2, 1));
    assert_eq!(cluster.propose(p.clone(), 0), Ok(()));
    assert_eq!(cluster.propose(p.clone(), 0), Err(ProposeError::DuplicateProposal));
    assert_eq!(cluster.vote(8, 1), Err(ConsensusError::UnknownProposal));
    assert_eq!(cluster.vote(7, 1).unwrap().map(|p| p.proposal_id), None);
    assert_eq!(cluster.vote(7, 1), Err(ConsensusError::DuplicateVote));
    // The second distinct vote completes the majority of three.
    let applied = cluster.vote(7, 2).unwrap().unwrap();
    assert_eq!(applied.proposal_id, 7);
    assert_eq!(applied.content, "c");
    // Committed exactly once.
    assert_eq!(cluster.vote(7, 3).unwrap().map(|p| p.proposal_id), None);
    assert!(cluster.consensus().is_committed(7));
}

#[test]
fn majority_of_the_members_of_the_moment_entitles_to_claim() {
    let mut cluster = Cluster::new(1, 3);
    for id in 1..=5u128 {
        cluster.register_node(id, "coordinator".to_string(), false, 0);
    }
    cluster.election_tick();
    assert_eq!(cluster.claim_leadership(2), None);
    assert_eq!(cluster.claim_leadership(3), Some(claim(1, 1)));
    cluster.deregister_node(4).unwrap();
    cluster.deregister_node(5).unwrap();
    assert_eq!(cluster.claim_leadership(2), Some(claim(1, 1)));
}

#[test]
fn silence_check_suspects_members_not_heard_of() {
    let mut cluster = Cluster::new(1, 3);
    cluster.register_node(10, "worker".to_string(), true, 0);
    cluster.register_node(11, "worker".to_string(), true, 2_500);
    cluster.register_node(12, "coordinator".to_string(), false, 0);
    cluster.receive_status(claim(12, 1));
    // At 3000 ms with heartbeats every 1000 ms: 10 and 12 were silent for three intervals.
    let events = cluster.check_silence(3_000, 1_000);
    assert_eq!(events, vec![HealthEvent::NodeSuspected(10), HealthEvent::NodeSuspected(12)]);
    assert_eq!(cluster.registry().get_node_info(10).unwrap().status, Liveness::Suspect);
    assert_eq!(cluster.registry().get_node_info(11).unwrap().status, Liveness::Alive);
    assert_eq!(cluster.health().failure_count(10), 3);
    assert_eq!(cluster.health().failure_count(11), 0);
    // The silent leader is not followed any more.
    assert_eq!(cluster.election().current_leader(), None);
    // The next check repeats no suspicion.
    assert_eq!(cluster.check_silence(4_000, 1_000), Vec::<HealthEvent>::new());
    // A heartbeat revives the member; a new silence can be suspected anew.
    cluster.record_heartbeat(HealthCheck { node_id: 10, is_healthy: true }, 4_500);
    assert_eq!(cluster.check_silence(5_000, 1_000), Vec::<HealthEvent>::new());
    assert_eq!(
        cluster.check_silence(7_500, 1_000),
        vec![HealthEvent::NodeSuspected(10), HealthEvent::NodeSuspected(11)]
    );
}

#[test]
fn snapshot_restores_members_commits_and_assignments() {
    let mut cluster = Cluster::new(1, 3);
    cluster.register_node(10, "worker".to_string(), true, 100);
    cluster.register_node(11, "worker".to_string(), true, 200);
    cluster.register_node(12, "coordinator".to_string(), false, 300);
    cluster.receive_status(claim(12, 1));
    let p = |id: u128| ConsensusProposal { proposal_id: id, content: format!("c{}", id), proposer_id: 12, term: 1 };
    cluster.propose(p(1), 0).unwrap();
    cluster.propose(p(2), 0).unwrap();
    cluster.vote(1, 10).unwrap();
    assert!(cluster.vote(1, 11).unwrap().is_some());
    cluster.vote(2, 10).unwrap();
    cluster.schedule_task(&Task { task_id: 5, data: "a".to_string() }).unwrap();
    cluster.schedule_task(&Task { task_id: 6, data: "b".to_string() }).unwrap();
    cluster.complete_task(5);

    let snapshot = cluster.snapshot();
    assert_eq!(snapshot.members.len(), 3);
    assert_eq!(snapshot.committed, vec![p(1)]);
    assert_eq!(snapshot.assignments.len(), 2);

    let restored = Cluster::restore(2, 0, &snapshot, 9_000);
    assert_eq!(restored.registry().list_active_nodes(), cluster.registry().list_active_nodes());
    assert_eq!(restored.scheduler().assignments(), cluster.scheduler().assignments());
    assert_eq!(restored.consensus().committed_proposals(), vec![p(1)]);
    assert!(restored.consensus().is_committed(1));
    assert_eq!(restored.consensus().vote_count(2), None);
    assert_eq!(restored.election().node_id(), 2);
    assert_eq!(restored.election().current_leader(), None);
    assert_eq!(restored.health().unhealthy_threshold(), 3);
    assert_eq!(restored.scheduler().load_balancer().len(), 0);
    assert_eq!(restored.snapshot(), snapshot);
}

#[test]
fn restored_engine_takes_workers_and_their_loads_in_again() {
    let mut cluster = Cluster::new(1, 3);
    cluster.register_node(10, "worker".to_string(), true, 100);
    let mut restored = Cluster::restore(1, 3, &cluster.snapshot(), 0);
    assert_eq!(
        restored.schedule_task(&Task { task_id: 1, data: "a".to_string() }),
        Err(SchedulerError::NoAvailableNodes)
    );
    assert!(!restored.enlist_worker(99));
    assert!(!restored.sync_load(10, 4));
    assert!(restored.enlist_worker(10));
    assert!(restored.sync_load(10, 4));
    assert!(restored.enlist_worker(10));
    assert_eq!(restored.scheduler().load_balancer().load_of(10).unwrap().task_count, 4);
    assert_eq!(restored.schedule_task(&Task { task_id: 1, data: "a".to_string() }), Ok(10));
}

#[test]
fn expired_proposals_are_abandoned() {
    let mut cluster = Cluster::new(1, 3);
    cluster.register_node(1, "coordinator".to_string(), false, 0);
    cluster.receive_status(claim(1, 1));
    let p = |id: u128| ConsensusProposal { proposal_id: id, content: String::new(), proposer_id: 1, term: 1 };
    cluster.propose(p(1), 1_000).unwrap();
    cluster.propose(p(2), 4_000).unwrap();
    assert_eq!(cluster.abandon_expired(5_999, 5_000), Vec::<u128>::new());
    assert_eq!(cluster.abandon_expired(6_000, 5_000), vec![1]);
    assert_eq!(cluster.consensus().len(), 1);
}

#[test]
fn a_proposal_commits_when_leaving_members_complete_its_majority() {
    let mut cluster = Cluster::new(1, 3);
    for id in 1..=5u128 {
        cluster.register_node(id, "coordinator".to_string(), false, 0);
    }
    cluster.receive_status(claim(1, 1));
    let p = ConsensusProposal { proposal_id: 7, content: "c".to_string(), proposer_id: 1, term: 1 };
    cluster.propose(p.clone(), 0).unwrap();
    assert_eq!(cluster.vote(7, 1), Ok(None));
    assert_eq!(cluster.vote(7, 2), Ok(None));
    assert_eq!(cluster.commit_on_quorum(7), None);
    // Two members leave: the two votes are a majority of three.
    cluster.deregister_node(4).unwrap();
    cluster.deregister_node(5).unwrap();
    assert_eq!(cluster.commit_on_quorum(7), Some(p));
    assert!(cluster.consensus().is_committed(7));
    // Committed exactly once.
    assert_eq!(cluster.commit_on_quorum(7), None);
    assert_eq!(cluster.commit_on_quorum(8), None);
    // A committed proposal is not abandoned.
    assert_eq!(cluster.abandon_expired(i64::MAX, 0), Vec::<u128>::new());
}
