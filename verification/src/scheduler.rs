//! The scheduler: places tasks on the least-loaded node and follows each
//! assignment to its completion or failure.
//!
//! Signals may arrive more than once. A signal for a task that is settled
//! changes nothing, so that capacity is released once per assignment.

use crate::load_balancer::{
    after_assign, after_complete, after_sync, completion_of, is_least_loaded, next_node,
    Completion, LoadBalancer,
};
use crate::table::{filed, lists_in_order, strictly_increasing, IdTable};
use vstd::prelude::*;

verus! {

/// An opaque unit of work.
#[derive(Debug, PartialEq, Eq)]
pub struct Task {
    pub task_id: u128,
    pub data: String,
}

impl Clone for Task {
    fn clone(&self) -> (r: Self)
        ensures
            r == *self,
    {
        Task { task_id: self.task_id, data: self.data.clone() }
    }
}

/// Whether `id` has the shape of a random UUID: version four, in the
/// variant of RFC 9562.
pub open spec fn is_random_uuid(id: u128) -> bool {
    id & 0x0000_0000_0000_f000_c000_0000_0000_0000 == 0x0000_0000_0000_4000_8000_0000_0000_0000
}

/// A fresh random id.
///
/// Calls `uuid::Uuid::new_v4` and `Uuid::as_u128`. Which id comes out is
/// left open; the contract states what the source shows of every one:
/// the version and variant bits are set. uuid panics when the system
/// gives no random bytes; no argument can bring that about.
#[verifier::external_body]
fn random_id() -> (id: u128)
    ensures
        is_random_uuid(id),
{
    uuid::Uuid::new_v4().as_u128()
}

/// A task with `data` under a fresh random id.
pub fn new_task(data: &str) -> (task: Task)
    ensures
        task.data@ == data@,
        is_random_uuid(task.task_id),
{
    Task { task_id: random_id(), data: data.to_owned() }
}

/// Where an assignment stands.
#[derive(Debug, Clone, Copy, PartialEq, Eq, Structural)]
pub enum TaskState {
    /// Accepted, on no node yet.
    Pending,
    /// Handed to a node, outcome unknown.
    Assigned,
    /// The node reported the task done.
    Completed,
    /// The node reported the task failed; it may be placed again.
    Failed,
}

/// A task and the node it was given to.
#[derive(Debug, PartialEq, Eq)]
pub struct TaskAssignment {
    pub task_id: u128,
    pub data: String,
    pub node_id: u128,
    pub state: TaskState,
}

impl Clone for TaskAssignment {
    fn clone(&self) -> (r: Self)
        ensures
            r == *self,
    {
        TaskAssignment {
            task_id: self.task_id,
            data: self.data.clone(),
            node_id: self.node_id,
            state: self.state,
        }
    }
}

/// Why a task was not placed.
#[derive(Debug, Clone, Copy, PartialEq, Eq, Structural)]
pub enum SchedulerError {
    /// No node is registered with the balancer; the caller keeps the task
    /// and offers it again later.
    NoAvailableNodes,
}

/// What became of a completion or failure signal.
#[derive(Debug, Clone, Copy, PartialEq, Eq, Structural)]
pub enum SignalOutcome {
    /// The assignment was settled, and this is what the balancer made of
    /// the release of its node: a release that found no task counted, or
    /// no such node, is an anomaly for the caller to log.
    Settled(Completion),
    /// The assignment was not on a node any more: nothing changed.
    Ignored,
    /// No assignment of that task is known: nothing changed.
    UnknownTask,
}

/// The state of the scheduler.
pub struct SchedulerView {
    /// The task count of each node.
    pub loads: Map<u128, usize>,
    /// The assignments on record, by task id.
    pub assignments: Map<u128, TaskAssignment>,
}

/// The assignment of `task` to `node_id`.
pub open spec fn assigned_to(task: Task, node_id: u128) -> TaskAssignment {
    TaskAssignment { task_id: task.task_id, data: task.data, node_id, state: TaskState::Assigned }
}

/// The state after `task` was placed on `node_id`.
pub open spec fn after_schedule(v: SchedulerView, task: Task, node_id: u128) -> SchedulerView {
    SchedulerView {
        loads: after_assign(v.loads, node_id),
        assignments: v.assignments.insert(task.task_id, assigned_to(task, node_id)),
    }
}

/// Whether a signal for task `task_id` settles its assignment: only one
/// that is on a node can be settled.
pub open spec fn on_a_node(v: SchedulerView, task_id: u128) -> bool {
    v.assignments.contains_key(task_id) && v.assignments[task_id].state == TaskState::Assigned
}

/// The state after the assignment of `task_id` was signalled to have ended
/// in `outcome`.
pub open spec fn after_signal(v: SchedulerView, task_id: u128, outcome: TaskState) -> SchedulerView {
    if on_a_node(v, task_id) {
        SchedulerView {
            loads: after_complete(v.loads, v.assignments[task_id].node_id),
            assignments: v.assignments.insert(
                task_id,
                TaskAssignment { state: outcome, ..v.assignments[task_id] },
            ),
        }
    } else {
        v
    }
}

/// What a signal for `task_id` is answered with.
pub open spec fn signal_outcome(v: SchedulerView, task_id: u128) -> SignalOutcome {
    if !v.assignments.contains_key(task_id) {
        SignalOutcome::UnknownTask
    } else if v.assignments[task_id].state == TaskState::Assigned {
        SignalOutcome::Settled(completion_of(v.loads, v.assignments[task_id].node_id))
    } else {
        SignalOutcome::Ignored
    }
}

/// The id that an assignment is filed under.
pub open spec fn assignment_key() -> spec_fn(TaskAssignment) -> u128 {
    |a: TaskAssignment| a.task_id
}

/// The assignments that a list of them stands for, by task id: where an
/// id occurs more than once, the last assignment with it counts.
pub open spec fn assignments_from(list: Seq<TaskAssignment>) -> Map<u128, TaskAssignment> {
    filed(list, assignment_key())
}

/// Every assignment is filed under its own task id.
pub open spec fn filed_by_task(m: Map<u128, TaskAssignment>) -> bool {
    forall|k: u128| m.contains_key(k) ==> (#[trigger] m[k]).task_id == k
}

/// A second completion signal for one task is a no-op: it leaves the
/// state that the first one left, and the node's count is lowered once.
pub proof fn lemma_completion_is_idempotent(v: SchedulerView, task_id: u128)
    ensures
        after_signal(after_signal(v, task_id, TaskState::Completed), task_id, TaskState::Completed)
            == after_signal(v, task_id, TaskState::Completed),
        !(signal_outcome(after_signal(v, task_id, TaskState::Completed), task_id) is Settled),
{
}

/// The tasks on their nodes, the settled assignments, and the balancer.
pub struct Scheduler {
    load_balancer: LoadBalancer,
    assignments: IdTable<TaskAssignment>,
}

impl View for Scheduler {
    type V = SchedulerView;

    closed spec fn view(&self) -> SchedulerView {
        SchedulerView { loads: self.load_balancer@, assignments: self.assignments@ }
    }
}

impl Scheduler {
    /// The representation invariant.
    pub closed spec fn wf(&self) -> bool {
        &&& self.load_balancer.wf()
        &&& self.assignments.wf()
        &&& filed_by_task(self.assignments@)
    }

    /// The task ids on record, in increasing order.
    pub closed spec fn task_ids(&self) -> Seq<u128> {
        self.assignments.ids()
    }

    /// The assignments on record in increasing order of task id.
    pub closed spec fn records(&self) -> Seq<TaskAssignment> {
        self.assignments.values()
    }

    /// What a well-formed scheduler's view is known to satisfy.
    pub proof fn lemma_wf(&self)
        requires
            self.wf(),
        ensures
            self@.loads.dom().finite(),
            self@.assignments.dom().finite(),
            filed_by_task(self@.assignments),
            strictly_increasing(self.task_ids()),
            self.task_ids().to_set() == self@.assignments.dom(),
            self.records().len() == self.task_ids().len(),
            forall|i: int|
                0 <= i < self.records().len() ==> (#[trigger] self.records()[i]).task_id
                    == self.task_ids()[i],
            lists_in_order(self.records(), assignment_key(), self@.assignments),
            assignments_from(self.records()) == self@.assignments,
    {
        self.load_balancer.lemma_wf();
        self.assignments.lemma_view();
        self.assignments.lemma_values_list(assignment_key());
    }

    /// A scheduler over `load_balancer`, with no assignment on record.
    pub fn new(load_balancer: LoadBalancer) -> (r: Self)
        requires
            load_balancer.wf(),
        ensures
            r.wf(),
            r@.loads == load_balancer@,
            r@.assignments == Map::<u128, TaskAssignment>::empty(),
    {
        Scheduler { load_balancer, assignments: IdTable::new() }
    }

    /// The balancer that the scheduler places tasks with.
    pub fn load_balancer(&self) -> (lb: &LoadBalancer)
        requires
            self.wf(),
        ensures
            lb.wf(),
            lb@ == self@.loads,
    {
        &self.load_balancer
    }

    /// Makes `node_id` available for tasks, with none counted.
    pub fn add_node(&mut self, node_id: u128)
        requires
            old(self).wf(),
        ensures
            final(self).wf(),
            final(self)@.loads == old(self)@.loads.insert(node_id, 0usize),
            final(self)@.assignments == old(self)@.assignments,
    {
        self.load_balancer.add_node(node_id);
    }

    /// Withdraws `node_id` from the nodes that tasks are given to, and
    /// says whether it was one of them. Its assignments stay on record.
    pub fn remove_node(&mut self, node_id: u128) -> (known: bool)
        requires
            old(self).wf(),
        ensures
            final(self).wf(),
            final(self)@.loads == old(self)@.loads.remove(node_id),
            final(self)@.assignments == old(self)@.assignments,
            known == old(self)@.loads.contains_key(node_id),
    {
        self.load_balancer.remove_node(node_id)
    }

    /// Overwrites the task count of a node that takes tasks with an
    /// authoritative report, and says whether the node is one.
    pub fn sync_load(&mut self, node_id: u128, task_count: usize) -> (known: bool)
        requires
            old(self).wf(),
        ensures
            final(self).wf(),
            final(self)@.loads == after_sync(
                old(self)@.loads,
                node_id,
                task_count,
            ),
            final(self)@.assignments == old(self)@.assignments,
            known == old(self)@.loads.contains_key(node_id),
    {
        self.load_balancer.sync(node_id, task_count)
    }

    /// The assignment of task `task_id`, if one is on record.
    pub fn assignment(&self, task_id: u128) -> (r: Option<TaskAssignment>)
        requires
            self.wf(),
        ensures
            r is Some <==> self@.assignments.contains_key(task_id),
            r matches Some(a) ==> a == self@.assignments[task_id] && a.task_id == task_id,
    {
        match self.assignments.get(task_id) {
            Some(a) => Some(a.clone()),
            None => None,
        }
    }

    /// Places `task` on the least-loaded node, records the assignment in
    /// place of any that the task had, and returns the node. Where the
    /// balancer holds no node the task is refused and nothing changes: the
    /// caller keeps the task and offers it again.
    pub fn schedule_task(&mut self, task: &Task) -> (r: Result<u128, SchedulerError>)
        requires
            old(self).wf(),
        ensures
            final(self).wf(),
            r is Err <==> old(self)@.loads.len() == 0,
            r is Err ==> r == Err::<u128, SchedulerError>(SchedulerError::NoAvailableNodes)
                && final(self)@ == old(self)@,
            r matches Ok(node_id) ==> is_least_loaded(old(self)@.loads, node_id) && final(self)@
                == after_schedule(old(self)@, *task, node_id),
            r == match placement(old(self)@) {
                Some(node_id) => Ok::<u128, SchedulerError>(node_id),
                None => Err::<u128, SchedulerError>(SchedulerError::NoAvailableNodes),
            },
            final(self)@ == after_offer(old(self)@, *task),
    {
        match self.load_balancer.assign_task() {
            Some(node_id) => {
                let assignment = TaskAssignment {
                    task_id: task.task_id,
                    data: task.data.clone(),
                    node_id,
                    state: TaskState::Assigned,
                };
                self.assignments.insert(task.task_id, assignment);
                Ok(node_id)
            },
            None => Err(SchedulerError::NoAvailableNodes),
        }
    }

    fn settle(&mut self, task_id: u128, outcome: TaskState) -> (r: SignalOutcome)
        requires
            old(self).wf(),
        ensures
            final(self).wf(),
            final(self)@ == after_signal(old(self)@, task_id, outcome),
            r == signal_outcome(old(self)@, task_id),
    {
        match self.assignments.remove(task_id) {
            Some(a) => {
                let on_node: bool = match a.state {
                    TaskState::Assigned => true,
                    _ => false,
                };
                if on_node {
                    let released = self.load_balancer.complete_task(a.node_id);
                    let settled = TaskAssignment {
                        task_id: a.task_id,
                        data: a.data,
                        node_id: a.node_id,
                        state: outcome,
                    };
                    self.assignments.insert(task_id, settled);
                    assert(self@.assignments =~= old(self)@.assignments.insert(task_id, settled));
                    SignalOutcome::Settled(released)
                } else {
                    self.assignments.insert(task_id, a);
                    assert(self@.assignments =~= old(self)@.assignments);
                    SignalOutcome::Ignored
                }
            },
            None => {
                assert(self@.assignments =~= old(self)@.assignments);
                SignalOutcome::UnknownTask
            },
        }
    }

    /// Takes into account that task `task_id` was reported done: its
    /// assignment is completed and its node has one task fewer. A task
    /// that is not on a node is left as it is. What the balancer made of
    /// the release is handed out with the result.
    pub fn complete_task(&mut self, task_id: u128) -> (r: SignalOutcome)
        requires
            old(self).wf(),
        ensures
            final(self).wf(),
            final(self)@ == after_signal(old(self)@, task_id, TaskState::Completed),
            r == signal_outcome(old(self)@, task_id),
    {
        self.settle(task_id, TaskState::Completed)
    }

    /// Takes into account that task `task_id` was reported failed: its
    /// assignment is failed and its node has one task fewer, and the task
    /// is placed anew when it is offered again. A task that is not on a
    /// node is left as it is. What the balancer made of the release is
    /// handed out with the result.
    pub fn fail_task(&mut self, task_id: u128) -> (r: SignalOutcome)
        requires
            old(self).wf(),
        ensures
            final(self).wf(),
            final(self)@ == after_signal(old(self)@, task_id, TaskState::Failed),
            r == signal_outcome(old(self)@, task_id),
    {
        self.settle(task_id, TaskState::Failed)
    }

    /// Takes the completed assignment of `task_id` off the record, and
    /// says whether there was one. Any other assignment stays.
    pub fn acknowledge(&mut self, task_id: u128) -> (removed: bool)
        requires
            old(self).wf(),
        ensures
            final(self).wf(),
            removed == (old(self)@.assignments.contains_key(task_id) && old(
                self,
            )@.assignments[task_id].state == TaskState::Completed),
            final(self)@.loads == old(self)@.loads,
            final(self)@.assignments == if removed {
                old(self)@.assignments.remove(task_id)
            } else {
                old(self)@.assignments
            },
    {
        let completed: bool = match self.assignments.get(task_id) {
            Some(a) => match a.state {
                TaskState::Completed => true,
                _ => false,
            },
            None => false,
        };
        if completed {
            self.assignments.remove(task_id);
        }
        completed
    }

    /// The assignments on record, in increasing order of task id.
    pub fn assignments(&self) -> (list: Vec<TaskAssignment>)
        requires
            self.wf(),
        ensures
            list@ == self.records(),
            lists_in_order(list@, assignment_key(), self@.assignments),
            assignments_from(list@) == self@.assignments,
            forall|i: int|
                0 <= i < list@.len() ==> (#[trigger] list@[i]).task_id == self.task_ids()[i],
    {
        proof {
            self.assignments.lemma_view();
        }
        let n: usize = self.assignments.len();
        let mut list: Vec<TaskAssignment> = Vec::new();
        let mut i: usize = 0;
        while i < n
            invariant
                self.wf(),
                n == self.assignments.ids().len(),
                n == self.assignments.values().len(),
                i <= n,
                list@.len() == i,
                forall|j: int| 0 <= j < i ==> list@[j] == self.assignments.values()[j],
            decreases n - i,
        {
            let a = self.assignments.value_at(i).clone();
            list.push(a);
            i = i + 1;
        }
        proof {
            assert(list@ =~= self.assignments.values());
            self.lemma_wf();
        }
        list
    }

    /// A scheduler over `load_balancer` with the assignments that `list`
    /// stands for on record, each taken as it is.
    pub fn restore(load_balancer: LoadBalancer, list: &Vec<TaskAssignment>) -> (r: Self)
        requires
            load_balancer.wf(),
        ensures
            r.wf(),
            r@.loads == load_balancer@,
            r@.assignments == assignments_from(list@),
    {
        let mut assignments: IdTable<TaskAssignment> = IdTable::new();
        let mut i: usize = 0;
        while i < list.len()
            invariant
                assignments.wf(),
                filed_by_task(assignments@),
                i <= list@.len(),
                assignments@ == assignments_from(list@.take(i as int)),
            decreases list@.len() - i,
        {
            proof {
                let next = list@.take(i + 1);
                assert(next.drop_last() =~= list@.take(i as int));
                assert(next.last() == list@[i as int]);
            }
            let a = list[i].clone();
            assignments.insert(a.task_id, a);
            i = i + 1;
        }
        assert(list@.take(i as int) =~= list@);
        Scheduler { load_balancer, assignments }
    }

    /// Offers a batch of tasks, in order, and returns for each the node it
    /// went to, or nothing where no node was available: those the caller
    /// keeps and offers again.
    pub fn run_scheduler(&mut self, tasks: &Vec<Task>) -> (placed: Vec<Option<u128>>)
        requires
            old(self).wf(),
        ensures
            final(self).wf(),
            final(self)@ == schedule_all(old(self)@, tasks@),
            placed@ == placements(old(self)@, tasks@),
            placed@.len() == tasks@.len(),
    {
        let mut placed: Vec<Option<u128>> = Vec::new();
        let mut i: usize = 0;
        while i < tasks.len()
            invariant
                self.wf(),
                i <= tasks@.len(),
                placed@.len() == i,
                self@ == schedule_all(old(self)@, tasks@.take(i as int)),
                placed@ == placements(old(self)@, tasks@.take(i as int)),
            decreases tasks@.len() - i,
        {
            proof {
                let next = tasks@.take(i + 1);
                assert(next.drop_last() =~= tasks@.take(i as int));
                assert(next.last() == tasks@[i as int]);
            }
            let r = self.schedule_task(&tasks[i]);
            match r {
                Ok(node_id) => {
                    placed.push(Some(node_id));
                },
                Err(_) => {
                    placed.push(None);
                },
            }
            i = i + 1;
        }
        assert(tasks@.take(i as int) =~= tasks@);
        placed
    }
}

/// The node that a task goes to when it is offered, if there is a node.
pub open spec fn placement(v: SchedulerView) -> Option<u128> {
    next_node(v.loads)
}

/// The state after `task` was offered.
pub open spec fn after_offer(v: SchedulerView, task: Task) -> SchedulerView {
    match next_node(v.loads) {
        Some(node_id) => after_schedule(v, task, node_id),
        None => v,
    }
}

/// The state after a sequence of tasks was offered, in order.
pub open spec fn schedule_all(v: SchedulerView, tasks: Seq<Task>) -> SchedulerView
    decreases tasks.len(),
{
    if tasks.len() == 0 {
        v
    } else {
        after_offer(schedule_all(v, tasks.drop_last()), tasks.last())
    }
}

/// For each of a sequence of tasks offered in order, the node it went
/// to, if any.
pub open spec fn placements(v: SchedulerView, tasks: Seq<Task>) -> Seq<Option<u128>>
    decreases tasks.len(),
{
    if tasks.len() == 0 {
        Seq::empty()
    } else {
        placements(v, tasks.drop_last()).push(
            placement(schedule_all(v, tasks.drop_last())),
        )
    }
}

} // verus!
