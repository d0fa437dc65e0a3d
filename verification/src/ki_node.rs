//! The work of a worker node: what it computes for a task and what it
//! does with a delivery.

use vstd::prelude::*;
use vstd::string::StringExecFns;

verus! {

/// A task as it is delivered to a worker.
#[derive(Debug, PartialEq, Eq)]
pub struct TaskMessage {
    pub task_id: String,
    pub data: String,
}

impl Clone for TaskMessage {
    fn clone(&self) -> (r: Self)
        ensures
            r == *self,
    {
        TaskMessage { task_id: self.task_id.clone(), data: self.data.clone() }
    }
}

/// The result that a worker sends back.
#[derive(Debug, PartialEq, Eq)]
pub struct ResultMessage {
    pub task_id: String,
    pub result: String,
}

/// What a worker does with a delivery.
#[derive(Debug, PartialEq, Eq)]
pub enum WorkerStep {
    /// Send this result back, then acknowledge the delivery.
    Reply(ResultMessage),
    /// The delivery holds no task: stop consuming.
    Stop,
}

/// The text of the result computed from `data`.
pub open spec fn processed(data: Seq<char>) -> Seq<char> {
    "Processed data: "@ + data
}

/// Computes the result of `task`: the task's id, and its data marked as
/// processed.
pub fn perform_computation(task: TaskMessage) -> (r: ResultMessage)
    ensures
        r.task_id == task.task_id,
        r.result@ == processed(task.data@),
{
    let mut result = String::from_str("Processed data: ");
    result.append(task.data.as_str());
    ResultMessage { task_id: task.task_id, result }
}

/// What a worker does with a delivery that was read as `parsed`: a task
/// is computed and its result sent back; anything else ends the work.
pub fn on_delivery(parsed: Option<TaskMessage>) -> (step: WorkerStep)
    ensures
        match parsed {
            Some(task) => step matches WorkerStep::Reply(r) && r.task_id == task.task_id
                && r.result@ == processed(task.data@),
            None => step matches WorkerStep::Stop,
        },
{
    match parsed {
        Some(task) => WorkerStep::Reply(perform_computation(task)),
        None => WorkerStep::Stop,
    }
}

/// Takes a batch of deliveries from the task queue, in order: each is a
/// task message, or nothing where the delivery could not be read.
/// Returns the results to send back, one for each delivery up to the
/// first that could not be read: there the worker stops, and what follows
/// is left on the queue.
pub fn run(deliveries: &Vec<Option<TaskMessage>>) -> (results: Vec<ResultMessage>)
    ensures
        results@.len() <= deliveries@.len(),
        results@.len() == deliveries@.len() || deliveries@[results@.len() as int] is None,
        forall|i: int|
            0 <= i < results@.len() ==> ((#[trigger] deliveries@[i]) matches Some(task)
                && results@[i].task_id == task.task_id && results@[i].result@ == processed(
                task.data@,
            )),
{
    let mut results: Vec<ResultMessage> = Vec::new();
    let mut i: usize = 0;
    while i < deliveries.len()
        invariant
            i <= deliveries@.len(),
            results@.len() == i,
            forall|j: int|
                0 <= j < i ==> ((#[trigger] deliveries@[j]) matches Some(task)
                    && results@[j].task_id == task.task_id && results@[j].result@ == processed(
                    task.data@,
                )),
        decreases deliveries@.len() - i,
    {
        let parsed: Option<TaskMessage> = match &deliveries[i] {
            Some(task) => Some(task.clone()),
            None => None,
        };
        match on_delivery(parsed) {
            WorkerStep::Reply(result) => {
                results.push(result);
            },
            WorkerStep::Stop => {
                return results;
            },
        }
        i = i + 1;
    }
    results
}

} // verus!
