//! Backups of the tasks: what goes into a backup and where it is written.
//!
//! Writing and reading backup files is the caller's work. The manager
//! names the file of a backup, hands out its content, and takes in the
//! content of a backup that is restored.

use crate::clock::timestamp_now;
use crate::table::IdTable;
use crate::task_recovery::{filed_by_id, listed, lists, tabled, tasks_from};
use vstd::prelude::*;
use vstd::string::StringExecFns;

pub use crate::scheduler::Task;

verus! {

/// A backup to write: the path of its file and the tasks that go into it.
#[derive(Debug, PartialEq, Eq)]
pub struct Backup {
    pub path: String,
    pub tasks: Vec<Task>,
}

/// The path of the backup that is made in `dir` at the time written `stamp`.
pub open spec fn backup_path(dir: Seq<char>, stamp: Seq<char>) -> Seq<char> {
    dir + "/backup_"@ + stamp + ".json"@
}

/// The tasks to back up and the directory that backups are written to.
pub struct BackupManager {
    tasks: IdTable<Task>,
    backup_dir: String,
}

impl View for BackupManager {
    type V = Map<u128, Task>;

    closed spec fn view(&self) -> Map<u128, Task> {
        self.tasks@
    }
}

impl BackupManager {
    /// The representation invariant.
    pub closed spec fn wf(&self) -> bool {
        self.tasks.wf() && filed_by_id(self.tasks@)
    }

    /// The directory that backups are written to.
    pub closed spec fn dir(&self) -> Seq<char> {
        self.backup_dir@
    }

    /// A manager without tasks that writes its backups to `backup_dir`.
    pub fn new(backup_dir: &str) -> (r: Self)
        ensures
            r.wf(),
            r@ == Map::<u128, Task>::empty(),
            r.dir() == backup_dir@,
    {
        BackupManager { tasks: IdTable::new(), backup_dir: String::from_str(backup_dir) }
    }

    /// The directory that backups are written to.
    pub fn backup_dir(&self) -> (name: &String)
        ensures
            name@ == self.dir(),
    {
        &self.backup_dir
    }

    /// Takes `task` in, in place of any task with its id.
    pub fn add_task(&mut self, task: Task)
        requires
            old(self).wf(),
        ensures
            final(self).wf(),
            final(self).dir() == old(self).dir(),
            final(self)@ == old(self)@.insert(task.task_id, task),
    {
        self.tasks.insert(task.task_id, task);
    }

    /// Whether a task with id `task_id` is held.
    pub fn contains_task(&self, task_id: u128) -> (b: bool)
        requires
            self.wf(),
        ensures
            b == self@.contains_key(task_id),
    {
        self.tasks.contains_key(task_id)
    }

    /// Drops all tasks.
    pub fn clear(&mut self)
        requires
            old(self).wf(),
        ensures
            final(self).wf(),
            final(self).dir() == old(self).dir(),
            final(self)@ == Map::<u128, Task>::empty(),
    {
        self.tasks = IdTable::new();
    }

    /// The backup to write at the time written `stamp`: its file lies in
    /// the backup directory and is named after the time, and it holds all
    /// tasks in increasing order of id.
    pub fn create_backup_at(&self, stamp: &str) -> (backup: Backup)
        requires
            self.wf(),
        ensures
            backup.path@ == backup_path(self.dir(), stamp@),
            lists(backup.tasks@, self@),
            tasks_from(backup.tasks@) == self@,
    {
        let mut path = self.backup_dir.clone();
        path.append("/backup_");
        path.append(stamp);
        path.append(".json");
        let tasks = listed(&self.tasks);
        Backup { path, tasks }
    }

    /// The backup to write now. The time is read from the clock, so the
    /// contract leaves the name of the file open and fixes its content.
    pub fn create_backup(&self) -> (backup: Backup)
        requires
            self.wf(),
        ensures
            exists|stamp: Seq<char>| backup.path@ == #[trigger] backup_path(self.dir(), stamp),
            lists(backup.tasks@, self@),
            tasks_from(backup.tasks@) == self@,
    {
        let stamp = timestamp_now();
        self.create_backup_at(stamp.as_str())
    }

    /// Replaces the tasks held by those of a backup that was read.
    pub fn restore_backup(&mut self, recovered: &Vec<Task>)
        requires
            old(self).wf(),
        ensures
            final(self).wf(),
            final(self).dir() == old(self).dir(),
            final(self)@ == tasks_from(recovered@),
    {
        self.tasks = tabled(recovered);
    }
}

} // verus!
