//! The tasks that are kept for recovery, and their exchange with a store.
//!
//! The manager holds the tasks in memory. Reading and writing the store is
//! the caller's work: the manager hands out the tasks to persist and takes
//! in the tasks that were recovered.

use crate::table::{filed, lemma_filed_restores, lists_in_order, IdTable};
use vstd::prelude::*;
use vstd::string::StringExecFns;

pub use crate::scheduler::Task;

verus! {

/// The id that a task is filed under.
pub open spec fn task_key() -> spec_fn(Task) -> u128 {
    |t: Task| t.task_id
}

/// The tasks that a list of tasks stands for, by task id: where an id
/// occurs more than once, the last task with it counts.
pub open spec fn tasks_from(list: Seq<Task>) -> Map<u128, Task> {
    filed(list, task_key())
}

/// A list holds the tasks of `m`, each once, in increasing order of id.
pub open spec fn lists(list: Seq<Task>, m: Map<u128, Task>) -> bool {
    lists_in_order(list, task_key(), m)
}

/// What was handed out to persist, taken in again, gives the same tasks.
pub proof fn lemma_recovery_restores(list: Seq<Task>, m: Map<u128, Task>)
    requires
        lists(list, m),
    ensures
        tasks_from(list) == m,
{
    lemma_filed_restores(list, task_key(), m);
}

/// Every task is filed under its own id.
pub open spec fn filed_by_id(m: Map<u128, Task>) -> bool {
    forall|k: u128| m.contains_key(k) ==> (#[trigger] m[k]).task_id == k
}

/// The tasks of `table`, in increasing order of id.
pub(crate) fn listed(table: &IdTable<Task>) -> (list: Vec<Task>)
    requires
        table.wf(),
        filed_by_id(table@),
    ensures
        list@ == table.values(),
        lists(list@, table@),
        tasks_from(list@) == table@,
        list@.len() == table@.len(),
{
    proof {
        table.lemma_view();
    }
    let n: usize = table.len();
    let mut list: Vec<Task> = Vec::new();
    let mut i: usize = 0;
    while i < n
        invariant
            table.wf(),
            n == table.ids().len(),
            n == table.values().len(),
            i <= n,
            list@.len() == i,
            forall|j: int| 0 <= j < i ==> list@[j] == table.values()[j],
        decreases n - i,
    {
        let task = table.value_at(i).clone();
        list.push(task);
        i = i + 1;
    }
    proof {
        assert(list@ =~= table.values());
        table.lemma_values_list(task_key());
    }
    list
}

/// The table of the tasks that `list` stands for.
pub(crate) fn tabled(list: &Vec<Task>) -> (table: IdTable<Task>)
    ensures
        table.wf(),
        filed_by_id(table@),
        table@ == tasks_from(list@),
{
    let mut table: IdTable<Task> = IdTable::new();
    let mut i: usize = 0;
    while i < list.len()
        invariant
            table.wf(),
            filed_by_id(table@),
            i <= list@.len(),
            table@ == tasks_from(list@.take(i as int)),
        decreases list@.len() - i,
    {
        proof {
            let next = list@.take(i + 1);
            assert(next.drop_last() =~= list@.take(i as int));
            assert(next.last() == list@[i as int]);
        }
        let task = list[i].clone();
        table.insert(task.task_id, task);
        i = i + 1;
    }
    assert(list@.take(i as int) =~= list@);
    table
}

/// Whether what was read from the store holds tasks to take in. An empty
/// store holds none: the tasks kept stay as they are and nothing is
/// parsed.
pub fn store_holds_tasks(content: &str) -> (b: bool)
    ensures
        b == (content@.len() > 0),
{
    !content.is_empty()
}

/// The tasks kept for recovery and the name of the file they are stored in.
pub struct TaskRecoveryManager {
    tasks: IdTable<Task>,
    storage_file: String,
}

impl View for TaskRecoveryManager {
    type V = Map<u128, Task>;

    closed spec fn view(&self) -> Map<u128, Task> {
        self.tasks@
    }
}

impl TaskRecoveryManager {
    /// The representation invariant.
    pub closed spec fn wf(&self) -> bool {
        self.tasks.wf() && filed_by_id(self.tasks@)
    }

    /// The name of the storage file.
    pub closed spec fn file(&self) -> Seq<char> {
        self.storage_file@
    }

    /// What a well-formed manager's view is known to satisfy.
    pub proof fn lemma_wf(&self)
        requires
            self.wf(),
        ensures
            self@.dom().finite(),
            filed_by_id(self@),
    {
        self.tasks.lemma_view();
    }

    /// A manager without tasks that stores in `storage_file`.
    pub fn new(storage_file: &str) -> (r: Self)
        ensures
            r.wf(),
            r@ == Map::<u128, Task>::empty(),
            r.file() == storage_file@,
    {
        TaskRecoveryManager { tasks: IdTable::new(), storage_file: String::from_str(storage_file) }
    }

    /// The name of the file that the tasks are stored in.
    pub fn storage_file(&self) -> (name: &String)
        ensures
            name@ == self.file(),
    {
        &self.storage_file
    }

    /// The number of tasks kept.
    pub fn len(&self) -> (n: usize)
        requires
            self.wf(),
        ensures
            n == self@.len(),
    {
        self.tasks.len()
    }

    /// Keeps `task`, in place of any task with its id.
    pub fn add_task(&mut self, task: Task)
        requires
            old(self).wf(),
        ensures
            final(self).wf(),
            final(self).file() == old(self).file(),
            final(self)@ == old(self)@.insert(task.task_id, task),
    {
        self.tasks.insert(task.task_id, task);
    }

    /// Drops the task with id `task_id`, and says whether there was one.
    pub fn remove_task(&mut self, task_id: u128) -> (removed: bool)
        requires
            old(self).wf(),
        ensures
            final(self).wf(),
            final(self).file() == old(self).file(),
            final(self)@ == old(self)@.remove(task_id),
            removed == old(self)@.contains_key(task_id),
    {
        self.tasks.remove(task_id).is_some()
    }

    /// The task with id `task_id`, if it is kept.
    pub fn get_task(&self, task_id: u128) -> (r: Option<Task>)
        requires
            self.wf(),
        ensures
            r is Some <==> self@.contains_key(task_id),
            r matches Some(t) ==> t == self@[task_id] && t.task_id == task_id,
    {
        match self.tasks.get(task_id) {
            Some(t) => Some(t.clone()),
            None => None,
        }
    }

    /// The tasks to persist: all that are kept, in increasing order of id.
    pub fn tasks(&self) -> (list: Vec<Task>)
        requires
            self.wf(),
        ensures
            lists(list@, self@),
            tasks_from(list@) == self@,
    {
        listed(&self.tasks)
    }

    /// Takes in what was read from the store: where the store was empty
    /// the tasks kept stay as they are, else they are replaced by the
    /// tasks that were parsed from it.
    pub fn recover_from_store(&mut self, content: &str, parsed: &Vec<Task>)
        requires
            old(self).wf(),
        ensures
            final(self).wf(),
            final(self).file() == old(self).file(),
            final(self)@ == if content@.len() > 0 {
                tasks_from(parsed@)
            } else {
                old(self)@
            },
    {
        if store_holds_tasks(content) {
            self.recover_tasks(parsed);
        }
    }

    /// Replaces the tasks kept by those that were recovered from the store.
    pub fn recover_tasks(&mut self, recovered: &Vec<Task>)
        requires
            old(self).wf(),
        ensures
            final(self).wf(),
            final(self).file() == old(self).file(),
            final(self)@ == tasks_from(recovered@),
    {
        self.tasks = tabled(recovered);
    }
}

} // verus!
