use distributed_neural_network::an_node::{
    self, process_task, settle_delivery, DeliveryAction, Handled, ProcessError,
};
use distributed_neural_network::ki_node::{
    self, on_delivery, perform_computation, ResultMessage, TaskMessage, WorkerStep,
};
use distributed_neural_network::load_balancer::LoadBalancer;
use distributed_neural_network::principal::{
    self, assign_role, process_update_request, RoleAssignment, UpdateError, UpdateRequest,
};
use distributed_neural_network::scheduler::Scheduler;

#[test]
fn worker_marks_the_data_as_processed() {
    let task = TaskMessage { task_id: "t-1".to_string(), data: "abc".to_string() };
    assert_eq!(
        perform_computation(task),
        ResultMessage { task_id: "t-1".to_string(), result: "Processed data: abc".to_string() }
    );
    let task = TaskMessage { task_id: "t-2".to_string(), data: String::new() };
    assert_eq!(
        on_delivery(Some(task)),
        WorkerStep::Reply(ResultMessage {
            task_id: "t-2".to_string(),
            result: "Processed data: ".to_string()
        })
    );
    assert_eq!(on_delivery(None), WorkerStep::Stop);
}

#[test]
fn coordinator_acknowledges_what_it_could_read() {
    assert_eq!(settle_delivery(true), DeliveryAction::Ack);
    assert_eq!(settle_delivery(false), DeliveryAction::Nack);
}

#[test]
fn coordinator_places_the_task_of_a_message() {
    let mut scheduler = Scheduler::new(LoadBalancer::new());
    let message = |id: &str| TaskMessage { task_id: id.to_string(), data: "d".to_string() };
    let id = "550e8400-e29b-41d4-a716-446655440000";
    assert_eq!(process_task(&mut scheduler, message(id)), Err(ProcessError::NoAvailableNodes));
    scheduler.add_node(4);
    assert_eq!(process_task(&mut scheduler, message("nope")), Err(ProcessError::InvalidTaskId));
    assert_eq!(process_task(&mut scheduler, message(id)), Ok(4));
    let assignment = scheduler.assignment(0x550e8400_e29b_41d4_a716_446655440000).unwrap();
    assert_eq!(assignment.node_id, 4);
    assert_eq!(assignment.data, "d");
}

#[test]
fn principal_turns_updates_into_proposals() {
    let update = UpdateRequest {
        update_id: "00000000-0000-0000-0000-00000000002a".to_string(),
        content: "new weights".to_string(),
    };
    let proposal = process_update_request(update, 7, 3).unwrap();
    assert_eq!(proposal.proposal_id, 42);
    assert_eq!(proposal.content, "new weights");
    assert_eq!(proposal.proposer_id, 7);
    assert_eq!(proposal.term, 3);
    let bad = UpdateRequest { update_id: "42".to_string(), content: "x".to_string() };
    assert_eq!(process_update_request(bad, 7, 3), Err(UpdateError::InvalidUpdateId));
    assert_eq!(
        assign_role("node-9", "teacher"),
        RoleAssignment { node_id: "node-9".to_string(), role: "teacher".to_string() }
    );
}

#[test]
fn coordinator_acknowledges_or_rejects_each_delivery_of_a_batch() {
    let mut scheduler = Scheduler::new(LoadBalancer::new());
    scheduler.add_node(4);
    let message = |id: &str| Some(TaskMessage { task_id: id.to_string(), data: "d".to_string() });
    let out = an_node::run(
        &mut scheduler,
        &vec![
            message("00000000-0000-0000-0000-000000000001"),
            None,
            message("no uuid"),
            message("00000000-0000-0000-0000-000000000002"),
        ],
    );
    assert_eq!(
        out,
        vec![
            Handled { action: DeliveryAction::Ack, placed: Some(Ok(4)) },
            Handled { action: DeliveryAction::Nack, placed: None },
            Handled { action: DeliveryAction::Ack, placed: Some(Err(ProcessError::InvalidTaskId)) },
            Handled { action: DeliveryAction::Ack, placed: Some(Ok(4)) },
        ]
    );
    assert_eq!(scheduler.load_balancer().load_of(4).unwrap().task_count, 2);
    assert_eq!(scheduler.assignments().len(), 2);
    scheduler.remove_node(4);
    let out = an_node::run(&mut scheduler, &vec![message("00000000-0000-0000-0000-000000000003")]);
    assert_eq!(
        out,
        vec![Handled { action: DeliveryAction::Ack, placed: Some(Err(ProcessError::NoAvailableNodes)) }]
    );
}

#[test]
fn worker_stops_at_the_first_delivery_it_cannot_read() {
    let message = |id: &str, data: &str| Some(TaskMessage { task_id: id.to_string(), data: data.to_string() });
    let results = ki_node::run(&vec![message("a", "1"), message("b", "2"), None, message("c", "3")]);
    assert_eq!(
        results,
        vec![
            ResultMessage { task_id: "a".to_string(), result: "Processed data: 1".to_string() },
            ResultMessage { task_id: "b".to_string(), result: "Processed data: 2".to_string() },
        ]
    );
    assert_eq!(ki_node::run(&vec![]), vec![]);
    assert_eq!(ki_node::run(&vec![message("a", "1")]).len(), 1);
}

#[test]
fn principal_raises_a_proposal_for_each_update_it_can_read() {
    let update = |id: &str| Some(UpdateRequest { update_id: id.to_string(), content: "c".to_string() });
    let out = principal::run(
        &vec![update("00000000-0000-0000-0000-000000000005"), update("five"), None, update("x")],
        9,
        2,
    );
    assert_eq!(out.len(), 2);
    assert_eq!(out[0].as_ref().unwrap().proposal_id, 5);
    assert_eq!(out[0].as_ref().unwrap().proposer_id, 9);
    assert_eq!(out[0].as_ref().unwrap().term, 2);
    assert_eq!(out[1], Err(UpdateError::InvalidUpdateId));
}
