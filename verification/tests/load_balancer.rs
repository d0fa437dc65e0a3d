use distributed_neural_network::load_balancer::{
    monitor_node_load, Completion, LoadBalancer, NodeLoadInfo,
};

#[test]
fn assign_returns_none_without_nodes() {
    let mut lb = LoadBalancer::new();
    assert_eq!(lb.assign_task(), None);
    assert_eq!(lb.least_loaded(), None);
    assert_eq!(lb.random_node(), None);
    assert_eq!(lb.len(), 0);
}

#[test]
fn assign_picks_minimum_and_breaks_ties_by_lowest_id() {
    let mut lb = LoadBalancer::new();
    lb.add_node(30);
    lb.add_node(10);
    lb.add_node(20);
    assert_eq!(lb.assign_task(), Some(10));
    assert_eq!(lb.assign_task(), Some(20));
    assert_eq!(lb.assign_task(), Some(30));
    assert_eq!(lb.assign_task(), Some(10));
    assert_eq!(lb.load_of(10), Some(NodeLoadInfo { node_id: 10, task_count: 2 }));
    assert_eq!(lb.load_of(20), Some(NodeLoadInfo { node_id: 20, task_count: 1 }));
    assert_eq!(lb.load_of(40), None);
}

#[test]
fn assign_never_repeats_while_a_lower_count_exists() {
    let mut lb = LoadBalancer::new();
    for id in 1..=4u128 {
        lb.add_node(id);
    }
    lb.sync(1, 5);
    lb.sync(2, 3);
    lb.sync(3, 3);
    lb.sync(4, 4);
    let mut last: Option<u128> = None;
    for _ in 0..40 {
        let picked = lb.assign_task().unwrap();
        if Some(picked) == last {
            let own = lb.load_of(picked).unwrap().task_count;
            for other in lb.loads() {
                assert!(other.task_count >= own);
            }
        }
        last = Some(picked);
    }
    let total: usize = lb.loads().iter().map(|l| l.task_count).sum();
    assert_eq!(total, 5 + 3 + 3 + 4 + 40);
}

#[test]
fn scenario_three_tasks_then_four_completions_clamps_at_zero() {
    let mut lb = LoadBalancer::new();
    lb.add_node(1);
    assert_eq!(lb.assign_task(), Some(1));
    assert_eq!(lb.assign_task(), Some(1));
    assert_eq!(lb.assign_task(), Some(1));
    assert_eq!(lb.load_of(1).unwrap().task_count, 3);
    assert_eq!(lb.complete_task(1), Completion::Released);
    assert_eq!(lb.complete_task(1), Completion::Released);
    assert_eq!(lb.complete_task(1), Completion::Released);
    assert_eq!(lb.load_of(1).unwrap().task_count, 0);
    // The fourth completion is the anomaly: reported, and the count stays at zero.
    assert_eq!(lb.complete_task(1), Completion::AlreadyIdle);
    assert_eq!(lb.load_of(1).unwrap().task_count, 0);
}

#[test]
fn complete_and_remove_on_unknown_nodes_are_not_fatal() {
    let mut lb = LoadBalancer::new();
    lb.add_node(1);
    assert_eq!(lb.complete_task(2), Completion::UnknownNode);
    assert!(!lb.remove_node(2));
    assert!(lb.remove_node(1));
    assert_eq!(lb.len(), 0);
}

#[test]
fn add_node_seeds_zero_even_for_a_known_node() {
    let mut lb = LoadBalancer::new();
    lb.add_node(1);
    lb.assign_task();
    lb.add_node(1);
    assert_eq!(lb.load_of(1).unwrap().task_count, 0);
}

#[test]
fn sync_overwrites_known_nodes_only() {
    let mut lb = LoadBalancer::new();
    lb.add_node(1);
    assert!(lb.sync(1, 42));
    assert!(!lb.sync(2, 7));
    assert_eq!(lb.load_of(1).unwrap().task_count, 42);
    assert_eq!(lb.load_of(2), None);
    let unknown = monitor_node_load(
        &mut lb,
        &vec![
            NodeLoadInfo { node_id: 1, task_count: 3 },
            NodeLoadInfo { node_id: 9, task_count: 1 },
            NodeLoadInfo { node_id: 1, task_count: 4 },
        ],
    );
    assert_eq!(unknown, 1);
    assert_eq!(lb.load_of(1).unwrap().task_count, 4);
}

#[test]
fn count_saturates_at_the_top() {
    let mut lb = LoadBalancer::new();
    lb.add_node(1);
    lb.sync(1, usize::MAX);
    assert_eq!(lb.assign_task(), Some(1));
    assert_eq!(lb.load_of(1).unwrap().task_count, usize::MAX);
}

#[test]
fn random_node_is_one_of_the_nodes() {
    let mut lb = LoadBalancer::new();
    for id in [5u128, 9, 13] {
        lb.add_node(id);
    }
    let mut seen = [false; 3];
    for _ in 0..200 {
        match lb.random_node() {
            Some(5) => seen[0] = true,
            Some(9) => seen[1] = true,
            Some(13) => seen[2] = true,
            other => panic!("not a node of the balancer: {:?}", other),
        }
    }
    // With 200 draws over three nodes, a generator that was called sees more than one.
    assert!(seen.iter().filter(|s| **s).count() >= 2);
    assert_eq!(lb.node_at(0), Some(5));
    assert_eq!(lb.node_at(2), Some(13));
    assert_eq!(lb.node_at(3), None);
}
