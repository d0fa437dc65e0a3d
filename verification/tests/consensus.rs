use distributed_neural_network::consensus::{
    run_consensus_protocol, ConsensusError, ConsensusEvent, ConsensusProposal, ConsensusState,
};
use distributed_neural_network::node_registry::NodeRegistry;
use distributed_neural_network::quorum::quorum_size;

fn proposal(id: u128, content: &str) -> ConsensusProposal {
    ConsensusProposal { proposal_id: id, content: content.to_string(), proposer_id: 1, term: 1 }
}

fn registry_of(n: u128) -> NodeRegistry {
    let mut registry = NodeRegistry::new();
    for id in 1..=n {
        registry.register_node_at(id, "coordinator".to_string(), 0);
    }
    registry
}

#[test]
fn quorum_is_floor_of_half_plus_one() {
    assert_eq!(quorum_size(0), 1);
    assert_eq!(quorum_size(1), 1);
    assert_eq!(quorum_size(2), 2);
    assert_eq!(quorum_size(3), 2);
    assert_eq!(quorum_size(4), 3);
    assert_eq!(quorum_size(5), 3);
    assert_eq!(quorum_size(usize::MAX), usize::MAX / 2 + 1);
}

#[test]
fn scenario_three_nodes_two_distinct_votes_have_quorum() {
    let registry = registry_of(3);
    let mut state = ConsensusState::new();
    assert_eq!(state.add_proposal_at(proposal(100, "raise the learning rate"), 0), Ok(()));
    assert!(!state.has_quorum(100, &registry));
    assert_eq!(state.cast_vote(100, 1), Ok(1));
    assert!(!state.has_quorum(100, &registry));
    assert_eq!(state.cast_vote(100, 2), Ok(2));
    assert!(state.has_quorum(100, &registry));
    assert_eq!(quorum_size(registry.len()), 2);
}

#[test]
fn scenario_five_nodes_duplicate_vote_then_third_distinct_vote_commits_once() {
    let registry = registry_of(5);
    let mut state = ConsensusState::new();
    state.add_proposal_at(proposal(200, "retire the old model"), 0).unwrap();
    let (a, b, c) = (1u128, 2u128, 3u128);
    assert_eq!(state.cast_vote(200, a), Ok(1));
    assert_eq!(state.commit_on_quorum(200, &registry), None);
    assert_eq!(state.cast_vote(200, a), Err(ConsensusError::DuplicateVote));
    assert_eq!(state.commit_on_quorum(200, &registry), None);
    assert_eq!(state.cast_vote(200, b), Ok(2));
    assert_eq!(state.vote_count(200), Some(2));
    assert_eq!(state.commit_on_quorum(200, &registry), None);
    assert!(!state.is_committed(200));
    assert_eq!(state.cast_vote(200, c), Ok(3));
    let applied = state.commit_on_quorum(200, &registry).unwrap();
    assert_eq!(applied.proposal_id, 200);
    assert_eq!(applied.content, "retire the old model");
    assert!(state.is_committed(200));
    // Later votes are kept for the books but commit nothing again.
    assert_eq!(state.cast_vote(200, 4), Ok(4));
    assert_eq!(state.commit_on_quorum(200, &registry), None);
    assert!(state.is_committed(200));
}

#[test]
fn propose_rejects_a_taken_id() {
    let mut state = ConsensusState::new();
    assert_eq!(state.add_proposal_at(proposal(1, "first"), 10), Ok(()));
    assert_eq!(state.add_proposal_at(proposal(1, "second"), 20), Err(ConsensusError::DuplicateProposal));
    assert_eq!(state.add_proposal(proposal(1, "third")), Err(ConsensusError::DuplicateProposal));
    assert_eq!(state.add_proposal(proposal(2, "other")), Ok(()));
    assert_eq!(state.len(), 2);
    assert_eq!(state.vote_count(1), Some(0));
}

#[test]
fn vote_on_an_unknown_proposal_is_rejected() {
    let mut state = ConsensusState::new();
    assert_eq!(state.cast_vote(9, 1), Err(ConsensusError::UnknownProposal));
    assert_eq!(state.vote_count(9), None);
    assert!(!state.has_consensus(9, 0));
    assert!(!state.has_voted(9, 1));
    assert!(!state.is_committed(9));
    assert_eq!(state.try_commit(9, 0), None);
}

#[test]
fn decision_does_not_depend_on_order_or_duplicates() {
    let orders: Vec<Vec<u128>> = vec![
        vec![1, 2, 3],
        vec![3, 2, 1],
        vec![2, 2, 1, 3, 1],
        vec![3, 3, 3, 1, 2, 2],
    ];
    for members in 0..8usize {
        let mut outcomes = Vec::new();
        for order in &orders {
            let mut state = ConsensusState::new();
            state.add_proposal_at(proposal(5, "x"), 0).unwrap();
            let mut commits = 0;
            for voter in order {
                let _ = state.cast_vote(5, *voter);
                if state.try_commit(5, members).is_some() {
                    commits += 1;
                }
            }
            assert!(commits <= 1);
            assert_eq!(state.vote_count(5), Some(3));
            outcomes.push((state.is_committed(5), state.has_consensus(5, quorum_size(members))));
        }
        for o in &outcomes {
            assert_eq!(*o, outcomes[0]);
            assert_eq!(o.0, 3 >= members / 2 + 1);
        }
    }
}

#[test]
fn shrinking_membership_can_complete_a_quorum() {
    let mut registry = registry_of(5);
    let mut state = ConsensusState::new();
    state.add_proposal_at(proposal(7, "x"), 0).unwrap();
    state.cast_vote(7, 1).unwrap();
    state.cast_vote(7, 2).unwrap();
    assert!(!state.has_quorum(7, &registry));
    // Two members leave: the votes cast stay, the threshold falls to 2.
    registry.remove_node(4).unwrap();
    registry.remove_node(5).unwrap();
    assert!(state.has_quorum(7, &registry));
    assert_eq!(state.commit_on_quorum(7, &registry).unwrap().proposal_id, 7);
}

#[test]
fn has_consensus_compares_distinct_voters_with_the_threshold() {
    let mut state = ConsensusState::new();
    state.add_proposal_at(proposal(1, "x"), 0).unwrap();
    assert!(state.has_consensus(1, 0));
    assert!(!state.has_consensus(1, 1));
    state.cast_vote(1, 10).unwrap();
    let _ = state.cast_vote(1, 10);
    assert!(state.has_consensus(1, 1));
    assert!(!state.has_consensus(1, 2));
    assert!(state.has_voted(1, 10));
    assert!(!state.has_voted(1, 11));
}

#[test]
fn expired_proposals_are_evicted_and_committed_ones_stay() {
    let mut state = ConsensusState::new();
    state.add_proposal_at(proposal(1, "old pending"), 1_000).unwrap();
    state.add_proposal_at(proposal(2, "old committed"), 1_000).unwrap();
    state.add_proposal_at(proposal(3, "young pending"), 5_000).unwrap();
    state.add_proposal_at(proposal(4, "old pending too"), 2_000).unwrap();
    state.cast_vote(2, 1).unwrap();
    assert!(state.try_commit(2, 1).is_some());
    // Timeout 3000 ms at time 5000: created at or before 2000 has expired.
    assert_eq!(state.abandon_expired(5_000, 3_000), vec![1, 4]);
    assert_eq!(state.len(), 2);
    assert_eq!(state.vote_count(1), None);
    assert_eq!(state.vote_count(3), Some(0));
    assert!(state.is_committed(2));
    assert_eq!(state.abandon_expired(5_000, 3_000), Vec::<u128>::new());
    let committed: Vec<u128> = state.committed_proposals().iter().map(|p| p.proposal_id).collect();
    assert_eq!(committed, vec![2]);
}

#[test]
fn protocol_commits_with_the_vote_that_completes_the_majority() {
    let registry = registry_of(3);
    let mut state = ConsensusState::new();
    let events = vec![
        ConsensusEvent::Proposal(proposal(1, "a")),
        ConsensusEvent::Proposal(proposal(2, "b")),
        ConsensusEvent::Proposal(proposal(1, "again")),
        ConsensusEvent::Vote { proposal_id: 1, voter_id: 10 },
        ConsensusEvent::Vote { proposal_id: 2, voter_id: 10 },
        ConsensusEvent::Vote { proposal_id: 2, voter_id: 10 },
        ConsensusEvent::Vote { proposal_id: 3, voter_id: 10 },
        ConsensusEvent::Vote { proposal_id: 2, voter_id: 11 },
        ConsensusEvent::Vote { proposal_id: 2, voter_id: 12 },
        ConsensusEvent::Vote { proposal_id: 1, voter_id: 11 },
    ];
    let committed = run_consensus_protocol(&mut state, &registry, &events, 42);
    let ids: Vec<u128> = committed.iter().map(|p| p.proposal_id).collect();
    assert_eq!(ids, vec![2, 1]);
    assert_eq!(committed[0].content, "b");
    assert_eq!(committed[1].content, "a");
    assert_eq!(state.vote_count(2), Some(3));
    assert_eq!(state.vote_count(1), Some(2));
}
