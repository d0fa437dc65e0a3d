use distributed_neural_network::load_balancer::{Completion, LoadBalancer};
use distributed_neural_network::scheduler::{
    new_task, Scheduler, SchedulerError, SignalOutcome, Task, TaskState,
};
use uuid::Uuid;

#[test]
fn test_schedule_task() {
    let mut load_balancer = LoadBalancer::new();
    let node = Uuid::new_v4().as_u128();
    load_balancer.add_node(node);
    let mut scheduler = Scheduler::new(load_balancer);

    let task = Task { task_id: Uuid::new_v4().as_u128(), data: "Test data".to_string() };

    assert_eq!(scheduler.schedule_task(&task.clone()).unwrap(), node);
    let received_task = scheduler.assignment(task.task_id).unwrap();
    assert_eq!(received_task.task_id, task.task_id);
}

#[test]
fn scheduling_without_nodes_fails_and_records_nothing() {
    let mut scheduler = Scheduler::new(LoadBalancer::new());
    let task = Task { task_id: 1, data: "x".to_string() };
    assert_eq!(scheduler.schedule_task(&task), Err(SchedulerError::NoAvailableNodes));
    assert!(scheduler.assignment(1).is_none());
    // The caller still holds the task and offers it again once a node is there.
    scheduler.add_node(5);
    assert_eq!(scheduler.schedule_task(&task), Ok(5));
}

#[test]
fn tasks_go_to_the_least_loaded_node() {
    let mut scheduler = Scheduler::new(LoadBalancer::new());
    scheduler.add_node(2);
    scheduler.add_node(1);
    let placed = scheduler.run_scheduler(&vec![
        Task { task_id: 10, data: "a".to_string() },
        Task { task_id: 11, data: "b".to_string() },
        Task { task_id: 12, data: "c".to_string() },
        Task { task_id: 10, data: "a again".to_string() },
    ]);
    assert_eq!(placed, vec![Some(1), Some(2), Some(1), Some(2)]);
    assert_eq!(scheduler.load_balancer().load_of(1).unwrap().task_count, 2);
    assert_eq!(scheduler.load_balancer().load_of(2).unwrap().task_count, 2);
    // A task offered again is placed again, and its assignment is the new one.
    assert_eq!(scheduler.assignment(10).unwrap().data, "a again");
    assert_eq!(scheduler.assignment(10).unwrap().node_id, 2);
    let ids: Vec<u128> = scheduler.assignments().iter().map(|a| a.task_id).collect();
    assert_eq!(ids, vec![10, 11, 12]);
}

#[test]
fn completion_releases_capacity_once() {
    let mut scheduler = Scheduler::new(LoadBalancer::new());
    scheduler.add_node(1);
    let task = Task { task_id: 10, data: "a".to_string() };
    scheduler.schedule_task(&task).unwrap();
    assert_eq!(scheduler.assignment(10).unwrap().state, TaskState::Assigned);
    assert_eq!(scheduler.complete_task(10), SignalOutcome::Settled(Completion::Released));
    assert_eq!(scheduler.assignment(10).unwrap().state, TaskState::Completed);
    assert_eq!(scheduler.load_balancer().load_of(1).unwrap().task_count, 0);
    // A second completion signal is a no-op, not an error.
    assert_eq!(scheduler.complete_task(10), SignalOutcome::Ignored);
    assert_eq!(scheduler.fail_task(10), SignalOutcome::Ignored);
    assert_eq!(scheduler.assignment(10).unwrap().state, TaskState::Completed);
    assert_eq!(scheduler.load_balancer().load_of(1).unwrap().task_count, 0);
    assert_eq!(scheduler.complete_task(99), SignalOutcome::UnknownTask);
}

#[test]
fn failed_task_is_placed_again_through_the_same_path() {
    let mut scheduler = Scheduler::new(LoadBalancer::new());
    scheduler.add_node(1);
    scheduler.add_node(2);
    let task = Task { task_id: 10, data: "a".to_string() };
    assert_eq!(scheduler.schedule_task(&task), Ok(1));
    assert_eq!(scheduler.schedule_task(&Task { task_id: 11, data: "b".to_string() }), Ok(2));
    assert_eq!(scheduler.fail_task(10), SignalOutcome::Settled(Completion::Released));
    assert_eq!(scheduler.assignment(10).unwrap().state, TaskState::Failed);
    assert_eq!(scheduler.load_balancer().load_of(1).unwrap().task_count, 0);
    assert_eq!(scheduler.schedule_task(&task), Ok(1));
    assert_eq!(scheduler.assignment(10).unwrap().state, TaskState::Assigned);
    assert_eq!(scheduler.load_balancer().load_of(1).unwrap().task_count, 1);
}

#[test]
fn acknowledge_takes_completed_assignments_off_the_record() {
    let mut scheduler = Scheduler::new(LoadBalancer::new());
    scheduler.add_node(1);
    scheduler.schedule_task(&Task { task_id: 10, data: "a".to_string() }).unwrap();
    assert!(!scheduler.acknowledge(10));
    scheduler.complete_task(10);
    assert!(scheduler.acknowledge(10));
    assert!(scheduler.assignment(10).is_none());
    assert!(!scheduler.acknowledge(10));
}

#[test]
fn removing_a_node_keeps_its_assignments_and_tolerates_late_signals() {
    let mut scheduler = Scheduler::new(LoadBalancer::new());
    scheduler.add_node(1);
    scheduler.schedule_task(&Task { task_id: 10, data: "a".to_string() }).unwrap();
    assert!(scheduler.remove_node(1));
    assert!(!scheduler.remove_node(1));
    // The node is gone: the assignment is settled, and the anomaly is handed out.
    assert_eq!(scheduler.complete_task(10), SignalOutcome::Settled(Completion::UnknownNode));
    assert_eq!(scheduler.assignment(10).unwrap().state, TaskState::Completed);
    assert_eq!(scheduler.load_balancer().len(), 0);
}

#[test]
fn a_task_offered_again_without_nodes_is_refused() {
    let mut scheduler = Scheduler::new(LoadBalancer::new());
    scheduler.add_node(1);
    let task = Task { task_id: 10, data: "a".to_string() };
    assert_eq!(scheduler.schedule_task(&task), Ok(1));
    assert!(scheduler.remove_node(1));
    // The balancer holds no node: whatever is on record, the attempt fails.
    assert_eq!(scheduler.schedule_task(&task), Err(SchedulerError::NoAvailableNodes));
    assert_eq!(scheduler.assignment(10).unwrap().node_id, 1);
    assert_eq!(scheduler.run_scheduler(&vec![task.clone()]), vec![None]);
    scheduler.add_node(2);
    assert_eq!(scheduler.schedule_task(&task), Ok(2));
    assert_eq!(scheduler.assignment(10).unwrap().node_id, 2);
}

#[test]
fn a_release_that_finds_no_task_counted_is_handed_out() {
    let mut scheduler = Scheduler::new(LoadBalancer::new());
    scheduler.add_node(1);
    scheduler.schedule_task(&Task { task_id: 10, data: "a".to_string() }).unwrap();
    // An authoritative report says the node holds nothing.
    assert!(scheduler.sync_load(1, 0));
    assert_eq!(scheduler.complete_task(10), SignalOutcome::Settled(Completion::AlreadyIdle));
    assert_eq!(scheduler.load_balancer().load_of(1).unwrap().task_count, 0);
}

#[test]
fn new_tasks_get_random_ids() {
    let a = new_task("Sample task data");
    let b = new_task("Sample task data");
    assert_eq!(a.data, "Sample task data");
    assert_ne!(a.task_id, b.task_id);
    for task in [a, b] {
        let id = Uuid::from_u128(task.task_id);
        assert_eq!(id.get_version_num(), 4);
        assert_eq!(id.get_variant(), uuid::Variant::RFC4122);
    }
}
