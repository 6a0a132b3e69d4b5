//! What an agent reports of its host, and points in time.

use vstd::prelude::*;

verus! {

/// The load of one core.
#[derive(Clone, Copy, PartialEq, Debug)]
pub struct CoreData<F> {
    pub core_id: u32,
    pub usage: F,
}

/// One report of an agent: the load of each core, and the memory in use in GiB.
#[derive(Debug)]
pub struct MetricsRequest<F> {
    pub hostname: String,
    pub cores: Vec<CoreData<F>>,
    pub memory_usage: F,
}

/// The answer to a report.
#[derive(Clone, Copy, PartialEq, Eq, Structural, Debug)]
pub struct MetricsResponse {
    pub success: bool,
}

/// A report as a mathematical value.
pub struct MetricsView<F> {
    pub hostname: Seq<char>,
    pub cores: Seq<CoreData<F>>,
    pub memory_usage: F,
}

impl<F> View for MetricsRequest<F> {
    type V = MetricsView<F>;

    open spec fn view(&self) -> MetricsView<F> {
        MetricsView {
            hostname: self.hostname@,
            cores: self.cores@,
            memory_usage: self.memory_usage,
        }
    }
}

impl<F: Copy> Clone for MetricsRequest<F> {
    fn clone(&self) -> (copy: Self)
        ensures
            copy@ == self@,
            copy.hostname@ == self.hostname@,
            copy.cores@ == self.cores@,
            copy.memory_usage == self.memory_usage,
    {
        let mut cores: Vec<CoreData<F>> = Vec::new();
        let mut i: usize = 0;
        while i < self.cores.len()
            invariant
                i <= self.cores.len(),
                cores@ == self.cores@.take(i as int),
            decreases self.cores.len() - i,
        {
            cores.push(self.cores[i]);
            i += 1;
            assert(cores@ =~= self.cores@.take(i as int));
        }
        assert(cores@ =~= self.cores@);
        MetricsRequest { hostname: self.hostname.clone(), cores, memory_usage: self.memory_usage }
    }
}

/// How many nanoseconds make a second.
pub const NANOS_PER_SECOND: i128 = 1_000_000_000;

/// A point in time: whole seconds since the Unix epoch, and nanoseconds on top of them.
#[derive(Clone, Copy, PartialEq, Eq, Structural, Debug)]
pub struct Timestamp {
    pub secs: i64,
    pub nanos: u64,
}

impl Timestamp {
    /// The time in nanoseconds since the Unix epoch.
    pub open spec fn since_epoch(&self) -> int {
        self.secs * NANOS_PER_SECOND + self.nanos
    }

    /// The time that lies `millis` milliseconds after the second `secs`.
    pub fn from_secs_and_millis(secs: i64, millis: u32) -> (time: Timestamp)
        ensures
            time.secs == secs,
            time.nanos == millis * 1_000_000,
            time.since_epoch() == secs * 1_000_000_000 + millis * 1_000_000,
    {
        Timestamp { secs, nanos: millis as u64 * 1_000_000 }
    }

    /// How many nanoseconds this time lies after `origin`.
    pub fn nanos_after(&self, origin: &Timestamp) -> (nanos: i128)
        ensures
            nanos == self.since_epoch() - origin.since_epoch(),
            nanos == (self.secs - origin.secs) * 1_000_000_000 + self.nanos - origin.nanos,
    {
        (self.secs as i128 - origin.secs as i128) * NANOS_PER_SECOND + (self.nanos as i128
            - origin.nanos as i128)
    }
}

/// A mean load, and when it was measured.
#[derive(Clone, Copy, PartialEq, Debug)]
pub struct Sample<G> {
    pub at: Timestamp,
    pub value: G,
}

/// As a mathematical value a report is what its fields hold: no core is left out.
pub proof fn a_report_is_taken_whole<F>(report: MetricsRequest<F>)
    ensures
        report@.hostname == report.hostname@,
        report@.cores.len() == report.cores@.len(),
        forall|c: int|
            0 <= c < report.cores@.len() ==> (#[trigger] report@.cores[c]) == report.cores@[c],
        report@.memory_usage == report.memory_usage,
{
}

/// The clock starts at the epoch, a second counts a thousand million, and what
/// lies on top of the seconds counts one by one.
pub proof fn time_runs_in_nanoseconds(a: Timestamp, b: Timestamp)
    ensures
        a.secs == 0 && a.nanos == 0 ==> a.since_epoch() == 0,
        a.secs == b.secs ==> a.since_epoch() - b.since_epoch() == a.nanos - b.nanos,
        a.nanos == b.nanos ==> a.since_epoch() - b.since_epoch() == (a.secs - b.secs)
            * 1_000_000_000,
{
}

} // verus!
