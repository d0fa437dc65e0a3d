//! Health monitoring: consecutive missed heartbeats per node, and the
//! edge-triggered suspicion that follows from them.
//!
//! The monitor counts, for each node, the unhealthy samples since its last
//! healthy one. A node is suspected at the very sample that brings its
//! count to the threshold, and not again until a healthy sample has reset
//! the count and a new run has reached the threshold.

use crate::table::IdTable;
use vstd::prelude::*;

verus! {

/// The threshold used where the configured one is zero.
pub const DEFAULT_UNHEALTHY_THRESHOLD: u32 = 3;

/// One health sample of one node.
#[derive(Debug, Clone, Copy, PartialEq, Eq, Structural)]
pub struct HealthCheck {
    pub node_id: u128,
    pub is_healthy: bool,
}

/// What the monitor reports.
#[derive(Debug, Clone, Copy, PartialEq, Eq, Structural)]
pub enum HealthEvent {
    /// The node's run of unhealthy samples has just reached the threshold.
    NodeSuspected(u128),
}

/// The failure count of `id`: zero for a node that was never sampled.
pub open spec fn count_in(m: Map<u128, u32>, id: u128) -> u32 {
    if m.contains_key(id) {
        m[id]
    } else {
        0
    }
}

/// `c` and `n` more failures, held at the largest count that fits.
pub open spec fn add_failures(c: u32, n: int) -> u32 {
    if c + n <= u32::MAX {
        (c + n) as u32
    } else {
        u32::MAX
    }
}

/// The count after one more sample.
pub open spec fn next_count(c: u32, healthy: bool) -> u32 {
    if healthy {
        0
    } else {
        add_failures(c, 1)
    }
}

/// Whether a sample, arriving at count `c`, brings the count to the threshold.
pub open spec fn crosses(c: u32, healthy: bool, threshold: u32) -> bool {
    !healthy && c + 1 == threshold
}

/// The counts after `sample`.
pub open spec fn after_sample(m: Map<u128, u32>, sample: HealthCheck) -> Map<u128, u32> {
    m.insert(sample.node_id, next_count(count_in(m, sample.node_id), sample.is_healthy))
}

/// Whether `sample`, arriving at counts `m`, raises a suspicion.
pub open spec fn fires(m: Map<u128, u32>, threshold: u32, sample: HealthCheck) -> bool {
    crosses(count_in(m, sample.node_id), sample.is_healthy, threshold)
}

/// The counts after a stream of samples, taken in order.
pub open spec fn observe_all(m: Map<u128, u32>, samples: Seq<HealthCheck>) -> Map<u128, u32>
    decreases samples.len(),
{
    if samples.len() == 0 {
        m
    } else {
        after_sample(observe_all(m, samples.drop_last()), samples.last())
    }
}

/// The suspicions that a stream of samples raises, in order.
pub open spec fn events_of(m: Map<u128, u32>, threshold: u32, samples: Seq<HealthCheck>) -> Seq<
    HealthEvent,
>
    decreases samples.len(),
{
    if samples.len() == 0 {
        Seq::empty()
    } else {
        let before = events_of(m, threshold, samples.drop_last());
        if fires(observe_all(m, samples.drop_last()), threshold, samples.last()) {
            before.push(HealthEvent::NodeSuspected(samples.last().node_id))
        } else {
            before
        }
    }
}

/// How many of `samples` are of node `id`.
pub open spec fn samples_of(samples: Seq<HealthCheck>, id: u128) -> nat
    decreases samples.len(),
{
    if samples.len() == 0 {
        0
    } else {
        samples_of(samples.drop_last(), id) + if samples.last().node_id == id {
            1nat
        } else {
            0nat
        }
    }
}

/// How many of `events` suspect node `id`.
pub open spec fn suspicions_of(events: Seq<HealthEvent>, id: u128) -> nat
    decreases events.len(),
{
    if events.len() == 0 {
        0
    } else {
        suspicions_of(events.drop_last(), id) + if events.last() == HealthEvent::NodeSuspected(
            id,
        ) {
            1nat
        } else {
            0nat
        }
    }
}

/// No sample of node `id` in `samples` is healthy.
pub open spec fn no_healthy_sample(samples: Seq<HealthCheck>, id: u128) -> bool {
    forall|i: int| 0 <= i < samples.len() && samples[i].node_id == id ==> !samples[i].is_healthy
}

/// A run of unhealthy samples of one node, however it is interleaved with
/// the samples of other nodes, raises one suspicion of that node if the run
/// takes its count from below the threshold to it or beyond, and none
/// otherwise: never one per sample once the threshold is passed.
pub proof fn lemma_one_suspicion_per_crossing(
    m: Map<u128, u32>,
    threshold: u32,
    samples: Seq<HealthCheck>,
    id: u128,
)
    requires
        threshold >= 1,
        no_healthy_sample(samples, id),
    ensures
        count_in(observe_all(m, samples), id) == add_failures(
            count_in(m, id),
            samples_of(samples, id) as int,
        ),
        suspicions_of(events_of(m, threshold, samples), id) == if count_in(m, id) < threshold
            <= count_in(m, id) + samples_of(samples, id) {
            1nat
        } else {
            0nat
        },
    decreases samples.len(),
{
    if samples.len() > 0 {
        let init = samples.drop_last();
        let x = samples.last();
        assert(no_healthy_sample(init, id)) by {
            assert forall|i: int| 0 <= i < init.len() && init[i].node_id == id implies !init[i].is_healthy by {
                assert(init[i] == samples[i]);
            }
        }
        lemma_one_suspicion_per_crossing(m, threshold, init, id);
        let before = events_of(m, threshold, init);
        let st = observe_all(m, init);
        if fires(st, threshold, x) {
            let e = HealthEvent::NodeSuspected(x.node_id);
            assert(before.push(e).drop_last() =~= before);
            assert(before.push(e).last() == e);
        }
        if x.node_id == id {
            assert(!x.is_healthy);
        }
    }
}

/// A healthy sample of a node ends its run: the count is zero again, so the
/// next run of unhealthy samples can raise a suspicion anew.
pub proof fn lemma_healthy_sample_resets(m: Map<u128, u32>, threshold: u32, sample: HealthCheck)
    requires
        sample.is_healthy,
    ensures
        count_in(after_sample(m, sample), sample.node_id) == 0,
        !fires(m, threshold, sample),
{
}

/// `n` unhealthy samples of node `id` in a row.
pub open spec fn unhealthy_run(id: u128, n: nat) -> Seq<HealthCheck> {
    Seq::new(n, |i: int| HealthCheck { node_id: id, is_healthy: false })
}

/// Whether a node last heard of at `last_seen` has, at `now`, been silent
/// for `threshold` heartbeat intervals or more. Times and the interval are
/// in milliseconds.
pub open spec fn silent_too_long(last_seen: i64, now: i64, interval: u64, threshold: u32) -> bool {
    now - last_seen >= interval * threshold
}

/// What a run of `n` unhealthy samples of one node does: it adds `n` to the
/// node's count, and it raises one suspicion if that takes the count from
/// below the threshold to it or beyond.
pub proof fn lemma_unhealthy_run(m: Map<u128, u32>, threshold: u32, id: u128, n: nat)
    requires
        threshold >= 1,
        n >= 1,
    ensures
        observe_all(m, unhealthy_run(id, n)) == m.insert(
            id,
            add_failures(count_in(m, id), n as int),
        ),
        events_of(m, threshold, unhealthy_run(id, n)) == if count_in(m, id) < threshold
            <= count_in(m, id) + n {
            seq![HealthEvent::NodeSuspected(id)]
        } else {
            Seq::<HealthEvent>::empty()
        },
    decreases n,
{
    let run = unhealthy_run(id, n);
    let init = unhealthy_run(id, (n - 1) as nat);
    assert(run.drop_last() =~= init);
    assert(run.last() == HealthCheck { node_id: id, is_healthy: false });
    if n == 1 {
        assert(init.len() == 0);
        assert(observe_all(m, init) == m);
        assert(events_of(m, threshold, init) =~= Seq::<HealthEvent>::empty());
        assert(Seq::<HealthEvent>::empty().push(HealthEvent::NodeSuspected(id)) =~= seq![
            HealthEvent::NodeSuspected(id),
        ]);
    } else {
        lemma_unhealthy_run(m, threshold, id, (n - 1) as nat);
        let c = count_in(m, id);
        let st = m.insert(id, add_failures(c, n - 1));
        assert(observe_all(m, init) == st);
        assert(after_sample(st, run.last()) =~= m.insert(id, add_failures(c, n as int)));
        assert(Seq::<HealthEvent>::empty().push(HealthEvent::NodeSuspected(id)) =~= seq![
            HealthEvent::NodeSuspected(id),
        ]);
    }
}

/// The per-node failure counters and the threshold that they are held against.
pub struct HealthMonitor {
    unhealthy_threshold: u32,
    failures: IdTable<u32>,
}

impl View for HealthMonitor {
    type V = Map<u128, u32>;

    closed spec fn view(&self) -> Map<u128, u32> {
        self.failures@
    }
}

impl HealthMonitor {
    /// The representation invariant; the threshold is at least one.
    pub closed spec fn wf(&self) -> bool {
        self.failures.wf() && self.unhealthy_threshold >= 1
    }

    /// The number of consecutive unhealthy samples at which a node is suspected.
    pub closed spec fn threshold(&self) -> u32 {
        self.unhealthy_threshold
    }

    /// What a well-formed monitor is known to satisfy.
    pub proof fn lemma_wf(&self)
        requires
            self.wf(),
        ensures
            self.threshold() >= 1,
    {
    }

    /// A monitor without samples. A threshold of zero could never be
    /// reached by counting, so it stands for the default.
    pub fn new(unhealthy_threshold: u32) -> (r: Self)
        ensures
            r.wf(),
            r@ == Map::<u128, u32>::empty(),
            r.threshold() == if unhealthy_threshold == 0 {
                DEFAULT_UNHEALTHY_THRESHOLD
            } else {
                unhealthy_threshold
            },
            r.threshold() >= 1,
    {
        let threshold: u32 = if unhealthy_threshold == 0 {
            DEFAULT_UNHEALTHY_THRESHOLD
        } else {
            unhealthy_threshold
        };
        HealthMonitor { unhealthy_threshold: threshold, failures: IdTable::new() }
    }

    /// The threshold in force.
    pub fn unhealthy_threshold(&self) -> (t: u32)
        requires
            self.wf(),
        ensures
            t == self.threshold(),
            t >= 1,
    {
        self.unhealthy_threshold
    }

    /// The number of unhealthy samples of `node_id` since its last healthy one.
    pub fn failure_count(&self, node_id: u128) -> (c: u32)
        requires
            self.wf(),
        ensures
            c == count_in(self@, node_id),
    {
        match self.failures.get(node_id) {
            Some(c) => *c,
            None => 0,
        }
    }

    /// Takes one sample into account, and reports the suspicion that it raises.
    pub fn observe(&mut self, sample: HealthCheck) -> (event: Option<HealthEvent>)
        requires
            old(self).wf(),
        ensures
            final(self).wf(),
            final(self).threshold() == old(self).threshold(),
            final(self)@ == after_sample(old(self)@, sample),
            event == if fires(old(self)@, old(self).threshold(), sample) {
                Some(HealthEvent::NodeSuspected(sample.node_id))
            } else {
                None::<HealthEvent>
            },
    {
        let count: u32 = self.failure_count(sample.node_id);
        let next: u32 = if sample.is_healthy {
            0
        } else if count < u32::MAX {
            count + 1
        } else {
            count
        };
        let fired: bool = !sample.is_healthy && count < u32::MAX && count + 1
            == self.unhealthy_threshold;
        self.failures.insert(sample.node_id, next);
        if fired {
            Some(HealthEvent::NodeSuspected(sample.node_id))
        } else {
            None
        }
    }

    /// Checks the silence of `node_id`, last heard of at `last_seen`, at time
    /// `now`. A silence of `threshold` heartbeat intervals or more counts as
    /// that many unhealthy samples in a row; a shorter one changes nothing.
    pub fn observe_silence(
        &mut self,
        node_id: u128,
        last_seen: i64,
        now: i64,
        heartbeat_interval: u64,
    ) -> (event: Option<HealthEvent>)
        requires
            old(self).wf(),
        ensures
            final(self).wf(),
            final(self).threshold() == old(self).threshold(),
            final(self)@ == if silent_too_long(
                last_seen,
                now,
                heartbeat_interval,
                old(self).threshold(),
            ) {
                observe_all(old(self)@, unhealthy_run(node_id, old(self).threshold() as nat))
            } else {
                old(self)@
            },
            event == if silent_too_long(last_seen, now, heartbeat_interval, old(self).threshold())
                && count_in(old(self)@, node_id) < old(self).threshold() {
                Some(HealthEvent::NodeSuspected(node_id))
            } else {
                None::<HealthEvent>
            },
            silent_too_long(last_seen, now, heartbeat_interval, old(self).threshold())
                ==> events_of(
                old(self)@,
                old(self).threshold(),
                unhealthy_run(node_id, old(self).threshold() as nat),
            ) == match event {
                Some(e) => seq![e],
                None => Seq::<HealthEvent>::empty(),
            },
    {
        let threshold: u32 = self.unhealthy_threshold;
        let silence: i128 = now as i128 - last_seen as i128;
        assert(0 <= (heartbeat_interval as int) * (threshold as int) <= 0xffff_ffff_ffff_ffff
            * 0xffff_ffff) by (nonlinear_arith)
            requires
                0 <= heartbeat_interval <= 0xffff_ffff_ffff_ffff,
                0 <= threshold <= 0xffff_ffff,
        ;
        let limit: i128 = (heartbeat_interval as i128) * (threshold as i128);
        if silence >= limit {
            let count: u32 = self.failure_count(node_id);
            let next: u32 = if count <= u32::MAX - threshold {
                count + threshold
            } else {
                u32::MAX
            };
            proof {
                lemma_unhealthy_run(self@, threshold, node_id, threshold as nat);
            }
            self.failures.insert(node_id, next);
            if count < threshold {
                Some(HealthEvent::NodeSuspected(node_id))
            } else {
                None
            }
        } else {
            None
        }
    }

    /// Drops the counter of `node_id`, as when the node leaves the cluster.
    pub fn forget(&mut self, node_id: u128)
        requires
            old(self).wf(),
        ensures
            final(self).wf(),
            final(self).threshold() == old(self).threshold(),
            final(self)@ == old(self)@.remove(node_id),
    {
        self.failures.remove(node_id);
    }
}

/// Takes a batch of samples into account, in order, and reports the
/// suspicions that they raise, in order.
pub fn monitor_health(monitor: &mut HealthMonitor, samples: &Vec<HealthCheck>) -> (events: Vec<
    HealthEvent,
>)
    requires
        old(monitor).wf(),
    ensures
        final(monitor).wf(),
        final(monitor).threshold() == old(monitor).threshold(),
        final(monitor)@ == observe_all(old(monitor)@, samples@),
        events@ == events_of(old(monitor)@, old(monitor).threshold(), samples@),
{
    let mut events: Vec<HealthEvent> = Vec::new();
    let mut i: usize = 0;
    while i < samples.len()
        invariant
            monitor.wf(),
            monitor.threshold() == old(monitor).threshold(),
            i <= samples@.len(),
            monitor@ == observe_all(old(monitor)@, samples@.take(i as int)),
            events@ == events_of(old(monitor)@, old(monitor).threshold(), samples@.take(i as int)),
        decreases samples@.len() - i,
    {
        proof {
            let next = samples@.take(i + 1);
            assert(next.drop_last() =~= samples@.take(i as int));
            assert(next.last() == samples@[i as int]);
        }
        let sample = samples[i];
        match monitor.observe(sample) {
            Some(event) => {
                events.push(event);
            },
            None => {},
        }
        i = i + 1;
    }
    assert(samples@.take(i as int) =~= samples@);
    events
}

} // verus!
