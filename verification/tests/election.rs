use distributed_neural_network::election::{
    run_leader_election, Election, ElectionEvent, NodeStatus, Role,
};

fn claim(node_id: u128, term: u64) -> NodeStatus {
    NodeStatus { node_id, term, is_leader: true, is_candidate: false }
}

#[test]
fn fresh_node_is_a_follower_without_leader() {
    let e = Election::new(7);
    assert_eq!(e.node_id(), 7);
    assert_eq!(e.term(), 0);
    assert_eq!(e.current_leader(), None);
    assert!(!e.is_leader());
    assert!(!e.is_candidate());
    assert_eq!(e.role(), Role::Follower);
    assert_eq!(
        e.status(),
        NodeStatus { node_id: 7, term: 0, is_leader: false, is_candidate: false }
    );
}

#[test]
fn tick_without_leader_starts_a_campaign_in_the_next_term() {
    let mut e = Election::new(1);
    let candidacy = e.tick();
    assert_eq!(
        candidacy,
        Some(NodeStatus { node_id: 1, term: 1, is_leader: false, is_candidate: true })
    );
    assert_eq!(e.role(), Role::Candidate);
    assert_eq!(e.term(), 1);
    // Candidacy alone is not leadership.
    assert!(!e.is_leader());
    // No leader heard of: the next tick retries in another term.
    assert_eq!(e.tick().unwrap().term, 2);
}

#[test]
fn tick_with_a_leader_changes_nothing() {
    let mut e = Election::new(1);
    assert!(e.receive_status(claim(2, 3)));
    assert_eq!(e.tick(), None);
    assert_eq!(e.term(), 3);
    assert_eq!(e.current_leader(), Some(2));
}

#[test]
fn claim_is_adopted_only_at_or_above_the_current_term() {
    let mut e = Election::new(1);
    assert!(e.receive_status(claim(2, 5)));
    assert_eq!(e.current_leader(), Some(2));
    assert_eq!(e.term(), 5);
    // Lower term: ignored.
    assert!(!e.receive_status(claim(3, 4)));
    assert_eq!(e.current_leader(), Some(2));
    // Same term, conflicting: first accepted wins.
    assert!(!e.receive_status(claim(3, 5)));
    assert_eq!(e.current_leader(), Some(2));
    // Higher term always displaces.
    assert!(e.receive_status(claim(3, 6)));
    assert_eq!(e.current_leader(), Some(3));
    assert_eq!(e.term(), 6);
}

#[test]
fn a_node_leads_only_when_its_own_claim_is_delivered() {
    let mut e = Election::new(9);
    e.tick();
    assert_eq!(e.claim_leadership(1, 3), None);
    let own = e.claim_leadership(2, 3);
    assert_eq!(own, Some(claim(9, 1)));
    assert!(!e.is_leader());
    assert!(e.receive_status(own.unwrap()));
    assert!(e.is_leader());
    assert_eq!(e.role(), Role::Leader);
    assert_eq!(e.current_leader(), Some(9));
    assert!(!e.is_candidate());
    // A follower cannot claim.
    assert_eq!(e.claim_leadership(3, 3), None);
}

#[test]
fn leader_steps_down_on_a_higher_term() {
    let mut e = Election::new(9);
    e.tick();
    e.receive_status(claim(9, 1));
    assert!(e.is_leader());
    // A candidacy of a higher term, no claim: follower without leader.
    assert!(!e.receive_status(NodeStatus { node_id: 4, term: 2, is_leader: false, is_candidate: true }));
    assert!(!e.is_leader());
    assert_eq!(e.current_leader(), None);
    assert_eq!(e.term(), 2);
    assert_eq!(e.role(), Role::Follower);
}

#[test]
fn set_leader_is_a_claim_for_the_current_term() {
    let mut e = Election::new(1);
    assert!(e.set_leader(1));
    assert!(e.is_leader());
    assert!(!e.set_leader(2));
    assert_eq!(e.current_leader(), Some(1));
}

#[test]
fn suspicion_of_the_leader_ends_the_following() {
    let mut e = Election::new(1);
    e.receive_status(claim(2, 5));
    assert!(!e.node_suspected(3));
    assert_eq!(e.current_leader(), Some(2));
    assert!(e.node_suspected(2));
    assert_eq!(e.current_leader(), None);
    // No re-litigation within the term: another claim for term 5 is refused.
    assert!(!e.receive_status(claim(3, 5)));
    assert_eq!(e.current_leader(), None);
}

#[test]
fn terms_that_are_used_up_are_not_begun() {
    let mut e = Election::new(1);
    e.tick();
    e.receive_status(NodeStatus { node_id: 2, term: u64::MAX, is_leader: false, is_candidate: true });
    assert_eq!(e.term(), u64::MAX);
    assert_eq!(e.start_election(), None);
    assert_eq!(e.tick(), None);
    assert_eq!(e.term(), u64::MAX);
    assert!(!e.is_candidate());
}

#[test]
fn batch_runs_events_in_order() {
    let mut e = Election::new(1);
    let out = run_leader_election(
        &mut e,
        &vec![
            ElectionEvent::Tick,
            ElectionEvent::Majority { acks: 2, members: 3 },
            ElectionEvent::Status(claim(1, 1)),
            ElectionEvent::Tick,
            ElectionEvent::Suspected(1),
            ElectionEvent::Tick,
        ],
    );
    assert_eq!(
        out,
        vec![
            NodeStatus { node_id: 1, term: 1, is_leader: false, is_candidate: true },
            claim(1, 1),
            NodeStatus { node_id: 1, term: 2, is_leader: false, is_candidate: true },
        ]
    );
    assert_eq!(e.term(), 2);
    assert_eq!(e.role(), Role::Candidate);
}

#[test]
fn one_leader_per_term_in_a_simulated_cluster() {
    // Three nodes get the same stream of statuses; each ticks at its own pace.
    let mut nodes = vec![Election::new(1), Election::new(2), Election::new(3)];
    nodes[0].tick();
    nodes[1].tick();
    let stream = vec![claim(1, 1), claim(2, 1), claim(3, 2), claim(1, 2), claim(2, 3)];
    for status in stream {
        for node in nodes.iter_mut() {
            node.receive_status(status);
        }
        let leaders: Vec<(u64, u128)> = nodes
            .iter()
            .filter(|n| n.is_leader())
            .map(|n| (n.term(), n.node_id()))
            .collect();
        for a in &leaders {
            for b in &leaders {
                if a.0 == b.0 {
                    assert_eq!(a.1, b.1);
                }
            }
        }
        // All follow the same leader.
        assert_eq!(nodes[0].current_leader(), nodes[1].current_leader());
        assert_eq!(nodes[1].current_leader(), nodes[2].current_leader());
    }
    assert_eq!(nodes[0].current_leader(), Some(2));
    assert_eq!(nodes[1].term(), 3);
    assert!(nodes[1].is_leader());
}

#[test]
fn a_status_without_claim_never_changes_whom_a_follower_follows() {
    let mut e = Election::new(1);
    e.receive_status(claim(2, 5));
    for term in [0u64, 5, 6, u64::MAX] {
        for is_candidate in [false, true] {
            let status = NodeStatus { node_id: 3, term, is_leader: false, is_candidate };
            assert!(!e.receive_status(status));
            assert_eq!(e.current_leader(), Some(2));
            assert_eq!(e.term(), 5);
            assert_eq!(e.role(), Role::Follower);
        }
    }
    // Nor does it move a node that follows nobody and does not campaign.
    let mut fresh = Election::new(1);
    fresh.receive_status(NodeStatus { node_id: 3, term: 9, is_leader: false, is_candidate: true });
    assert_eq!(fresh.term(), 0);
    assert_eq!(fresh.current_leader(), None);
    // A candidate steps down on a higher term, and only on a higher one.
    let mut candidate = Election::new(1);
    candidate.tick();
    candidate.receive_status(NodeStatus { node_id: 3, term: 1, is_leader: false, is_candidate: true });
    assert_eq!(candidate.role(), Role::Candidate);
    candidate.receive_status(NodeStatus { node_id: 3, term: 2, is_leader: false, is_candidate: true });
    assert_eq!(candidate.role(), Role::Follower);
    assert_eq!(candidate.term(), 2);
    assert_eq!(candidate.current_leader(), None);
}
