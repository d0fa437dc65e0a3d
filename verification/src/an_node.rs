//! The work of a coordinator node on the deliveries of its task queue.

use crate::ki_node::TaskMessage;
use crate::scheduler::{after_offer, placement, Scheduler, SchedulerView, Task};
use crate::validation::{uuid_value, Validator};
use vstd::prelude::*;

verus! {

/// What is done with a delivery.
#[derive(Debug, Clone, Copy, PartialEq, Eq, Structural)]
pub enum DeliveryAction {
    /// The delivery was taken care of: acknowledge it.
    Ack,
    /// The delivery could not be read: reject it.
    Nack,
}

/// Why a task message was not placed.
#[derive(Debug, Clone, Copy, PartialEq, Eq, Structural)]
pub enum ProcessError {
    /// The id of the task is no UUID.
    InvalidTaskId,
    /// No node is available; the task is to be offered again.
    NoAvailableNodes,
}

/// What is done with a delivery that was read or not: one that was read
/// is acknowledged whatever came of its processing, one that was not is
/// rejected.
pub fn settle_delivery(readable: bool) -> (action: DeliveryAction)
    ensures
        action == if readable {
            DeliveryAction::Ack
        } else {
            DeliveryAction::Nack
        },
{
    if readable {
        DeliveryAction::Ack
    } else {
        DeliveryAction::Nack
    }
}

/// What was done with one delivery.
#[derive(Debug, Clone, Copy, PartialEq, Eq)]
pub struct Handled {
    /// Whether the delivery is acknowledged or rejected.
    pub action: DeliveryAction,
    /// What came of placing the task, where the delivery could be read.
    pub placed: Option<Result<u128, ProcessError>>,
}

/// The task that a message offers, if its id is a UUID.
pub open spec fn offered(message: TaskMessage) -> Option<Task> {
    match uuid_value(message.task_id@) {
        Some(id) => Some(Task { task_id: id, data: message.data }),
        None => None,
    }
}

/// What comes of placing the task of `message`.
pub open spec fn process_outcome(v: SchedulerView, message: TaskMessage) -> Result<
    u128,
    ProcessError,
> {
    match offered(message) {
        None => Err(ProcessError::InvalidTaskId),
        Some(task) => match placement(v) {
            Some(node_id) => Ok(node_id),
            None => Err(ProcessError::NoAvailableNodes),
        },
    }
}

/// The state after the task of `message` was offered.
pub open spec fn after_process(v: SchedulerView, message: TaskMessage) -> SchedulerView {
    match offered(message) {
        None => v,
        Some(task) => after_offer(v, task),
    }
}

/// What is done with a delivery, read as `delivery` or not read at all:
/// one that was read is acknowledged whatever came of placing its task,
/// one that was not is rejected.
pub open spec fn handled(v: SchedulerView, delivery: Option<TaskMessage>) -> Handled {
    match delivery {
        Some(message) => Handled {
            action: DeliveryAction::Ack,
            placed: Some(process_outcome(v, message)),
        },
        None => Handled { action: DeliveryAction::Nack, placed: None },
    }
}

/// The state after a delivery.
pub open spec fn after_delivery(v: SchedulerView, delivery: Option<TaskMessage>) -> SchedulerView {
    match delivery {
        Some(message) => after_process(v, message),
        None => v,
    }
}

/// The state after a sequence of deliveries, taken in order.
pub open spec fn after_deliveries(
    v: SchedulerView,
    deliveries: Seq<Option<TaskMessage>>,
) -> SchedulerView
    decreases deliveries.len(),
{
    if deliveries.len() == 0 {
        v
    } else {
        after_delivery(after_deliveries(v, deliveries.drop_last()), deliveries.last())
    }
}

/// What is done with each of a sequence of deliveries, taken in order.
pub open spec fn handled_all(v: SchedulerView, deliveries: Seq<Option<TaskMessage>>) -> Seq<
    Handled,
>
    decreases deliveries.len(),
{
    if deliveries.len() == 0 {
        Seq::empty()
    } else {
        handled_all(v, deliveries.drop_last()).push(
            handled(after_deliveries(v, deliveries.drop_last()), deliveries.last()),
        )
    }
}

/// Places the task of a message on the least-loaded node, and returns
/// the node to dispatch it to. A message whose task id is no UUID is
/// refused and changes nothing; so is any message while no node is
/// available.
pub fn process_task(scheduler: &mut Scheduler, task: TaskMessage) -> (r: Result<u128, ProcessError>)
    requires
        old(scheduler).wf(),
    ensures
        final(scheduler).wf(),
        r == process_outcome(old(scheduler)@, task),
        final(scheduler)@ == after_process(old(scheduler)@, task),
{
    match Validator::validate_uuid(task.task_id.as_str()) {
        Ok(id) => {
            let offered = Task { task_id: id, data: task.data };
            match scheduler.schedule_task(&offered) {
                Ok(node_id) => Ok(node_id),
                Err(_) => Err(ProcessError::NoAvailableNodes),
            }
        },
        Err(_) => Err(ProcessError::InvalidTaskId),
    }
}

/// Takes a batch of deliveries from the task queue, in order: each is a
/// task message, or nothing where the delivery could not be read. A
/// message's task is placed and the delivery acknowledged whatever came
/// of it; a delivery that could not be read is rejected.
pub fn run(scheduler: &mut Scheduler, deliveries: &Vec<Option<TaskMessage>>) -> (out: Vec<Handled>)
    requires
        old(scheduler).wf(),
    ensures
        final(scheduler).wf(),
        final(scheduler)@ == after_deliveries(old(scheduler)@, deliveries@),
        out@ == handled_all(old(scheduler)@, deliveries@),
        out@.len() == deliveries@.len(),
{
    let mut out: Vec<Handled> = Vec::new();
    let mut i: usize = 0;
    while i < deliveries.len()
        invariant
            scheduler.wf(),
            i <= deliveries@.len(),
            out@.len() == i,
            scheduler@ == after_deliveries(old(scheduler)@, deliveries@.take(i as int)),
            out@ == handled_all(old(scheduler)@, deliveries@.take(i as int)),
        decreases deliveries@.len() - i,
    {
        proof {
            let next = deliveries@.take(i + 1);
            assert(next.drop_last() =~= deliveries@.take(i as int));
            assert(next.last() == deliveries@[i as int]);
        }
        let placed: Option<Result<u128, ProcessError>> = match &deliveries[i] {
            Some(message) => Some(process_task(scheduler, message.clone())),
            None => None,
        };
        let action = settle_delivery(placed.is_some());
        out.push(Handled { action, placed });
        i = i + 1;
    }
    assert(deliveries@.take(i as int) =~= deliveries@);
    out
}

} // verus!
