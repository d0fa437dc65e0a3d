//! The answers of the task interface.
//!
//! Routing and the exchange of requests and replies is the caller's work.
//! What a request is answered with, and what it does to the tasks, is
//! decided here.

use crate::task_recovery::{Task, TaskRecoveryManager};
use crate::validation::{uuid_value, Validator};
use vstd::prelude::*;

verus! {

/// The answer to a request.
#[derive(Debug, PartialEq, Eq)]
pub enum ApiReply {
    /// The task that was asked for.
    Task(Task),
    /// The task was taken in.
    TaskAdded,
    /// The task is not kept any more.
    TaskDeleted,
    /// The id in the request is no UUID.
    InvalidUuid,
    /// No task with that id is kept.
    TaskNotFound,
}

/// The HTTP status that goes with a reply.
pub open spec fn status_of(reply: ApiReply) -> u16 {
    match reply {
        ApiReply::Task(_) => 200,
        ApiReply::TaskAdded => 201,
        ApiReply::TaskDeleted => 200,
        ApiReply::InvalidUuid => 400,
        ApiReply::TaskNotFound => 404,
    }
}

/// The answer to a request for the task whose id is written `task_id`.
pub open spec fn reply_to_get(tasks: Map<u128, Task>, task_id: Seq<char>) -> ApiReply {
    match uuid_value(task_id) {
        None => ApiReply::InvalidUuid,
        Some(id) => if tasks.contains_key(id) {
            ApiReply::Task(tasks[id])
        } else {
            ApiReply::TaskNotFound
        },
    }
}

/// The tasks after a request to delete the task whose id is written `task_id`.
pub open spec fn tasks_after_delete(tasks: Map<u128, Task>, task_id: Seq<char>) -> Map<u128, Task> {
    match uuid_value(task_id) {
        None => tasks,
        Some(id) => tasks.remove(id),
    }
}

impl ApiReply {
    /// The HTTP status that goes with the reply.
    pub fn status_code(&self) -> (code: u16)
        ensures
            code == status_of(*self),
    {
        match self {
            ApiReply::Task(_) => 200,
            ApiReply::TaskAdded => 201,
            ApiReply::TaskDeleted => 200,
            ApiReply::InvalidUuid => 400,
            ApiReply::TaskNotFound => 404,
        }
    }
}

/// The task interface over the tasks kept for recovery.
pub struct Api {
    task_manager: TaskRecoveryManager,
}

impl View for Api {
    type V = Map<u128, Task>;

    closed spec fn view(&self) -> Map<u128, Task> {
        self.task_manager@
    }
}

impl Api {
    /// The representation invariant.
    pub closed spec fn wf(&self) -> bool {
        self.task_manager.wf()
    }

    /// The interface over `task_manager`.
    pub fn new(task_manager: TaskRecoveryManager) -> (r: Self)
        requires
            task_manager.wf(),
        ensures
            r.wf(),
            r@ == task_manager@,
    {
        Api { task_manager }
    }

    /// The tasks behind the interface.
    pub fn task_manager(&self) -> (m: &TaskRecoveryManager)
        requires
            self.wf(),
        ensures
            m.wf(),
            m@ == self@,
    {
        &self.task_manager
    }

    /// The answer to a request for the task whose id is written
    /// `task_id`: the task, or that it is not kept, or that the id is no UUID.
    pub fn get_task(&self, task_id: &str) -> (reply: ApiReply)
        requires
            self.wf(),
        ensures
            reply == reply_to_get(self@, task_id@),
    {
        match Validator::validate_uuid(task_id) {
            Ok(id) => match self.task_manager.get_task(id) {
                Some(task) => ApiReply::Task(task),
                None => ApiReply::TaskNotFound,
            },
            Err(_) => ApiReply::InvalidUuid,
        }
    }

    /// Takes `new_task` in, in place of any task with its id.
    pub fn add_task(&mut self, new_task: Task) -> (reply: ApiReply)
        requires
            old(self).wf(),
        ensures
            final(self).wf(),
            final(self)@ == old(self)@.insert(new_task.task_id, new_task),
            reply == ApiReply::TaskAdded,
    {
        self.task_manager.add_task(new_task);
        ApiReply::TaskAdded
    }

    /// Drops the task whose id is written `task_id`. A task that is not
    /// kept is deleted as well as one that is; only an id that is no UUID
    /// is refused.
    pub fn delete_task(&mut self, task_id: &str) -> (reply: ApiReply)
        requires
            old(self).wf(),
        ensures
            final(self).wf(),
            final(self)@ == tasks_after_delete(old(self)@, task_id@),
            reply == if uuid_value(task_id@) is Some {
                ApiReply::TaskDeleted
            } else {
                ApiReply::InvalidUuid
            },
    {
        match Validator::validate_uuid(task_id) {
            Ok(id) => {
                self.task_manager.remove_task(id);
                ApiReply::TaskDeleted
            },
            Err(_) => ApiReply::InvalidUuid,
        }
    }
}

} // verus!
