//! Task processing metrics: how many tasks were processed, and how their
//! processing times spread over a fixed scale of bounds.
//!
//! The counts are cumulative, as a histogram's are: the count under a
//! bound is that of all tasks that took no longer than the bound.

use vstd::prelude::*;

verus! {

/// The number of bounds on the scale of processing times.
pub const BUCKETS: usize = 11;

/// The bound at position `i` of the scale, in microseconds: from five
/// milliseconds to ten seconds.
pub open spec fn bound_at(i: int) -> u64 {
    if i == 0 {
        5_000
    } else if i == 1 {
        10_000
    } else if i == 2 {
        25_000
    } else if i == 3 {
        50_000
    } else if i == 4 {
        100_000
    } else if i == 5 {
        250_000
    } else if i == 6 {
        500_000
    } else if i == 7 {
        1_000_000
    } else if i == 8 {
        2_500_000
    } else if i == 9 {
        5_000_000
    } else {
        10_000_000
    }
}

/// `a + b`, held at the largest number that fits.
pub open spec fn capped_sum(a: u64, b: u64) -> u64 {
    if a + b <= u64::MAX {
        (a + b) as u64
    } else {
        u64::MAX
    }
}

/// What the metrics hold.
pub struct MetricsView {
    /// The number of tasks processed.
    pub tasks_processed: u64,
    /// The sum of their processing times, in microseconds.
    pub total_micros: u64,
    /// For each bound of the scale, the number of tasks that took no
    /// longer than it.
    pub buckets: Seq<u64>,
}

/// The metrics before any task.
pub open spec fn no_tasks() -> MetricsView {
    MetricsView { tasks_processed: 0, total_micros: 0, buckets: Seq::new(BUCKETS as nat, |i: int| 0u64) }
}

/// The metrics after one more task, which took `micros` microseconds.
pub open spec fn after_task(v: MetricsView, micros: u64) -> MetricsView {
    MetricsView {
        tasks_processed: capped_sum(v.tasks_processed, 1),
        total_micros: capped_sum(v.total_micros, micros),
        buckets: Seq::new(
            BUCKETS as nat,
            |i: int|
                if micros <= bound_at(i) {
                    capped_sum(v.buckets[i], 1)
                } else {
                    v.buckets[i]
                },
        ),
    }
}

/// The counts are cumulative: none exceeds the one under a higher bound,
/// nor the number of tasks.
pub open spec fn cumulative(v: MetricsView) -> bool {
    &&& v.buckets.len() == BUCKETS
    &&& forall|i: int, j: int| 0 <= i <= j < BUCKETS ==> v.buckets[i] <= v.buckets[j]
    &&& forall|i: int| 0 <= i < BUCKETS ==> v.buckets[i] <= v.tasks_processed
}

/// The bounds of the scale increase.
pub proof fn lemma_bounds_increase(i: int, j: int)
    requires
        0 <= i < j < BUCKETS,
    ensures
        bound_at(i) < bound_at(j),
{
}

/// Taking a task into account keeps the counts cumulative.
pub proof fn lemma_task_keeps_cumulative(v: MetricsView, micros: u64)
    requires
        cumulative(v),
    ensures
        cumulative(after_task(v, micros)),
{
    let w = after_task(v, micros);
    assert forall|i: int, j: int| 0 <= i <= j < BUCKETS implies w.buckets[i] <= w.buckets[j] by {
        if i < j {
            lemma_bounds_increase(i, j);
        }
        assert(v.buckets[i] <= v.buckets[j]);
    }
    assert forall|i: int| 0 <= i < BUCKETS implies w.buckets[i] <= w.tasks_processed by {
        assert(v.buckets[i] <= v.tasks_processed);
    }
}

/// The metrics of the tasks processed so far.
pub struct TaskMetrics {
    tasks_processed: u64,
    total_micros: u64,
    buckets: Vec<u64>,
}

impl View for TaskMetrics {
    type V = MetricsView;

    closed spec fn view(&self) -> MetricsView {
        MetricsView {
            tasks_processed: self.tasks_processed,
            total_micros: self.total_micros,
            buckets: self.buckets@,
        }
    }
}

/// The bound at position `i` of the scale, in microseconds.
fn bound(i: usize) -> (b: u64)
    requires
        i < BUCKETS,
    ensures
        b == bound_at(i as int),
{
    if i == 0 {
        5_000
    } else if i == 1 {
        10_000
    } else if i == 2 {
        25_000
    } else if i == 3 {
        50_000
    } else if i == 4 {
        100_000
    } else if i == 5 {
        250_000
    } else if i == 6 {
        500_000
    } else if i == 7 {
        1_000_000
    } else if i == 8 {
        2_500_000
    } else if i == 9 {
        5_000_000
    } else {
        10_000_000
    }
}

/// The bound at position `i` of the scale, in microseconds, if the scale
/// has that many bounds.
pub fn bucket_bound(i: usize) -> (b: Option<u64>)
    ensures
        b == if i < BUCKETS {
            Some(bound_at(i as int))
        } else {
            None::<u64>
        },
{
    if i < BUCKETS {
        Some(bound(i))
    } else {
        None
    }
}

impl TaskMetrics {
    /// The representation invariant: the counts are cumulative.
    pub closed spec fn wf(&self) -> bool {
        cumulative(self@)
    }

    /// What well-formed metrics are known to satisfy.
    pub proof fn lemma_wf(&self)
        requires
            self.wf(),
        ensures
            cumulative(self@),
    {
    }

    /// Metrics without tasks.
    pub fn new() -> (r: Self)
        ensures
            r.wf(),
            r@ == no_tasks(),
    {
        let mut buckets: Vec<u64> = Vec::new();
        let mut i: usize = 0;
        while i < BUCKETS
            invariant
                i <= BUCKETS,
                buckets@.len() == i,
                forall|j: int| 0 <= j < i ==> buckets@[j] == 0,
            decreases BUCKETS - i,
        {
            buckets.push(0);
            i = i + 1;
        }
        let r = TaskMetrics { tasks_processed: 0, total_micros: 0, buckets };
        assert(r@.buckets =~= no_tasks().buckets);
        r
    }

    /// The number of tasks processed.
    pub fn tasks_processed(&self) -> (n: u64)
        ensures
            n == self@.tasks_processed,
    {
        self.tasks_processed
    }

    /// The sum of the processing times, in microseconds.
    pub fn total_micros(&self) -> (n: u64)
        ensures
            n == self@.total_micros,
    {
        self.total_micros
    }

    /// The number of tasks that took no longer than the bound at position
    /// `i`, if the scale has that many bounds.
    pub fn bucket_count(&self, i: usize) -> (n: Option<u64>)
        requires
            self.wf(),
        ensures
            n == if i < BUCKETS {
                Some(self@.buckets[i as int])
            } else {
                None::<u64>
            },
            n matches Some(c) ==> c <= self@.tasks_processed,
    {
        if i < BUCKETS {
            Some(self.buckets[i])
        } else {
            None
        }
    }
}

/// Takes into account that one more task was processed, in
/// `elapsed_micros` microseconds: the task is counted, its time is added
/// to the total, and it is counted under every bound that it kept.
pub fn log_task_processing(metrics: &mut TaskMetrics, elapsed_micros: u64)
    requires
        old(metrics).wf(),
    ensures
        final(metrics).wf(),
        final(metrics)@ == after_task(old(metrics)@, elapsed_micros),
{
    proof {
        lemma_task_keeps_cumulative(metrics@, elapsed_micros);
    }
    metrics.tasks_processed = metrics.tasks_processed.saturating_add(1);
    metrics.total_micros = metrics.total_micros.saturating_add(elapsed_micros);
    let mut i: usize = 0;
    while i < BUCKETS
        invariant
            i <= BUCKETS,
            metrics.buckets@.len() == BUCKETS,
            old(metrics).buckets@.len() == BUCKETS,
            metrics.tasks_processed == after_task(old(metrics)@, elapsed_micros).tasks_processed,
            metrics.total_micros == after_task(old(metrics)@, elapsed_micros).total_micros,
            forall|j: int|
                0 <= j < i ==> metrics.buckets@[j] == after_task(
                    old(metrics)@,
                    elapsed_micros,
                ).buckets[j],
            forall|j: int| i <= j < BUCKETS ==> metrics.buckets@[j] == old(metrics).buckets@[j],
        decreases BUCKETS - i,
    {
        if elapsed_micros <= bound(i) {
            let count: u64 = metrics.buckets[i];
            metrics.buckets.set(i, count.saturating_add(1));
        }
        i = i + 1;
    }
    assert(metrics@.buckets =~= after_task(old(metrics)@, elapsed_micros).buckets);
}

} // verus!
