//! The collector: what it remembers of the reports that agents send.

use crate::history::{
    bounded, chronological, kept_items_stay_in_order, last_of, none_after, points_of,
    retaining_a_newer_sample_keeps_the_order, retaining_keeps_the_bound, with_sample, History,
    REALTIME_MAX_POINTS,
};
use crate::hosts::HostMap;
use crate::metrics::{MetricsRequest, MetricsResponse, MetricsView, Sample, Timestamp};
use vstd::prelude::*;

verus! {

/// The reports in `state` as mathematical values.
pub open spec fn reports<F>(state: Map<Seq<char>, MetricsRequest<F>>) -> Map<
    Seq<char>,
    MetricsView<F>,
> {
    state.map_values(|report: MetricsRequest<F>| report@)
}

/// Each report stands under the name of its own host.
pub open spec fn keyed<F>(reports: Map<Seq<char>, MetricsView<F>>) -> bool {
    forall|host: Seq<char>| #[trigger]
        reports.contains_key(host) ==> reports[host].hostname == host
}

/// What a collector remembers, as a mathematical value.
#[verifier::ext_equal]
pub struct CollectorView<F, G> {
    pub state: Map<Seq<char>, MetricsView<F>>,
    pub realtime: Map<Seq<char>, Seq<Sample<G>>>,
}

/// A report, when it came in, and the mean load of its cores.
pub struct Arrival<F, G> {
    pub report: MetricsView<F>,
    pub at: Timestamp,
    pub mean: G,
}

impl<F, G> Arrival<F, G> {
    /// What the real-time chart keeps of the report.
    pub open spec fn sample(self) -> Sample<G> {
        Sample { at: self.at, value: self.mean }
    }
}

impl<F, G> CollectorView<F, G> {
    /// Nothing came in so far.
    pub open spec fn empty() -> Self {
        CollectorView { state: Map::empty(), realtime: Map::empty() }
    }

    /// The report replaces the previous one of its host, and its mean joins
    /// the samples of the host.
    pub open spec fn receive(self, arrival: Arrival<F, G>) -> Self {
        CollectorView {
            state: self.state.insert(arrival.report.hostname, arrival.report),
            realtime: with_sample(
                self.realtime,
                arrival.report.hostname,
                arrival.sample(),
                REALTIME_MAX_POINTS as nat,
            ),
        }
    }

    /// All of `log` came in, in this order.
    pub open spec fn receive_all(self, log: Seq<Arrival<F, G>>) -> Self
        decreases log.len(),
    {
        if log.len() == 0 {
            self
        } else {
            self.receive_all(log.drop_last()).receive(log.last())
        }
    }

    /// Each report stands under its host, the hosts with samples are those
    /// with a report, and no host has more samples than the chart shows.
    pub open spec fn consistent(self) -> bool {
        &&& keyed(self.state)
        &&& forall|host: Seq<char>| #[trigger]
            self.state.contains_key(host) <==> self.realtime.contains_key(host)
        &&& bounded(self.realtime, REALTIME_MAX_POINTS as nat)
    }
}

/// The arrivals of `log` that are reports of `host`.
pub open spec fn arrivals_of<F, G>(log: Seq<Arrival<F, G>>, host: Seq<char>) -> Seq<Arrival<F, G>> {
    log.filter(|arrival: Arrival<F, G>| arrival.report.hostname == host)
}

/// A collector that is consistent is so after each report.
pub proof fn receiving_keeps_consistency<F, G>(
    collector: CollectorView<F, G>,
    arrival: Arrival<F, G>,
)
    requires
        collector.consistent(),
    ensures
        collector.receive(arrival).consistent(),
{
    retaining_keeps_the_bound(
        collector.realtime,
        arrival.report.hostname,
        arrival.sample(),
        REALTIME_MAX_POINTS as nat,
    );
}

/// A report of one host changes nothing of another one.
pub proof fn a_report_leaves_other_hosts_alone<F, G>(
    collector: CollectorView<F, G>,
    arrival: Arrival<F, G>,
    host: Seq<char>,
)
    requires
        host != arrival.report.hostname,
    ensures
        collector.receive(arrival).state.contains_key(host) <==> collector.state.contains_key(host),
        collector.state.contains_key(host) ==> collector.receive(arrival).state[host]
            == collector.state[host],
        points_of(collector.receive(arrival).realtime, host) == points_of(
            collector.realtime,
            host,
        ),
{
}

/// After any reports the collector knows exactly the hosts that reported,
/// holds the last report of each, and has kept the last means of each, up to
/// the number that the chart shows, in the order in which they came in.
pub proof fn the_collector_remembers_the_latest<F, G>(log: Seq<Arrival<F, G>>, host: Seq<char>)
    ensures
        ({
            let after = CollectorView::<F, G>::empty().receive_all(log);
            let mine = arrivals_of(log, host);
            &&& after.consistent()
            &&& after.state.contains_key(host) <==> mine.len() > 0
            &&& mine.len() > 0 ==> after.state[host] == mine.last().report
            &&& points_of(after.realtime, host) == last_of(
                mine.map_values(|arrival: Arrival<F, G>| arrival.sample()),
                REALTIME_MAX_POINTS as nat,
            )
        }),
    decreases log.len(),
{
    let sample = |arrival: Arrival<F, G>| arrival.sample();
    let ours = |arrival: Arrival<F, G>| arrival.report.hostname == host;
    let start = CollectorView::<F, G>::empty();
    let mine = arrivals_of(log, host);
    reveal_with_fuel(Seq::filter, 2);
    if log.len() == 0 {
        assert(mine.map_values(sample) =~= Seq::empty());
        assert(points_of(start.receive_all(log).realtime, host) =~= Seq::empty());
    } else {
        let rest = log.drop_last();
        let arrival = log.last();
        the_collector_remembers_the_latest(rest, host);
        receiving_keeps_consistency(start.receive_all(rest), arrival);
        if ours(arrival) {
            let earlier = arrivals_of(rest, host);
            assert(mine =~= earlier.push(arrival));
            let means = earlier.map_values(sample);
            assert(mine.map_values(sample) =~= means.push(arrival.sample()));
            assert(points_of(start.receive_all(log).realtime, host) =~= last_of(
                mine.map_values(sample),
                REALTIME_MAX_POINTS as nat,
            ));
        } else {
            assert(mine =~= arrivals_of(rest, host));
            a_report_leaves_other_hosts_alone(start.receive_all(rest), arrival, host);
        }
    }
}

/// A report is held as it came, under the name of its host. Its mean, with the
/// time at which it came in, ends the samples of the host; of those only the
/// oldest one goes, once there are sixty. Nothing of another host changes.
pub proof fn a_report_is_kept_as_it_came<F, G>(
    collector: CollectorView<F, G>,
    arrival: Arrival<F, G>,
    other: Seq<char>,
)
    requires
        collector.consistent(),
        other != arrival.report.hostname,
    ensures
        ({
            let host = arrival.report.hostname;
            let after = collector.receive(arrival);
            let points = after.realtime[host];
            let before = collector.realtime[host];
            &&& after.state.contains_key(host)
            &&& after.state[host].hostname == host
            &&& after.state[host].cores == arrival.report.cores
            &&& after.state[host].memory_usage == arrival.report.memory_usage
            &&& after.realtime.contains_key(host)
            &&& points.len() > 0
            &&& points[points.len() - 1].at == arrival.at
            &&& points[points.len() - 1].value == arrival.mean
            &&& !collector.realtime.contains_key(host) ==> points.len() == 1
            &&& collector.realtime.contains_key(host) && before.len() < 60 ==> {
                &&& points.len() == before.len() + 1
                &&& forall|k: int|
                    0 <= k < before.len() ==> (#[trigger] points[k]).at == before[k].at
                        && points[k].value == before[k].value
            }
            &&& collector.realtime.contains_key(host) && before.len() == 60 ==> {
                &&& points.len() == 60
                &&& forall|k: int|
                    0 <= k < 59 ==> (#[trigger] points[k]).at == before[k + 1].at
                        && points[k].value == before[k + 1].value
            }
            &&& after.state.contains_key(other) <==> collector.state.contains_key(other)
            &&& collector.state.contains_key(other) ==> after.state[other]
                == collector.state[other]
            &&& after.realtime.contains_key(other) <==> collector.realtime.contains_key(other)
            &&& collector.realtime.contains_key(other) ==> after.realtime[other]
                == collector.realtime[other]
        }),
{
}

/// In a consistent collector the report of a host names that host, and the host
/// has samples, sixty at most; a host without a report has none.
pub proof fn reports_and_samples_belong_together<F, G>(
    collector: CollectorView<F, G>,
    host: Seq<char>,
)
    requires
        collector.consistent(),
    ensures
        collector.state.contains_key(host) ==> collector.state[host].hostname == host
            && collector.realtime.contains_key(host) && collector.realtime[host].len() <= 60,
        !collector.state.contains_key(host) ==> !collector.realtime.contains_key(host),
{
}

/// After any log of arrivals the sample of each arrival stands in front of those
/// that came later of its host, as long as there are fewer than sixty of them.
/// It has exactly the time and the mean of that arrival, and the report of the
/// last arrival is the one that is held.
pub proof fn each_arrival_is_found_again<F, G>(log: Seq<Arrival<F, G>>, i: int)
    requires
        0 <= i < log.len(),
    ensures
        ({
            let host = log[i].report.hostname;
            let after = CollectorView::<F, G>::empty().receive_all(log);
            let points = after.realtime[host];
            let later = log.skip(i + 1).filter(
                |arrival: Arrival<F, G>| arrival.report.hostname == host,
            ).len();
            &&& after.state.contains_key(host)
            &&& after.realtime.contains_key(host)
            &&& later < 60 ==> {
                &&& later < points.len()
                &&& points[points.len() - 1 - later].at == log[i].at
                &&& points[points.len() - 1 - later].value == log[i].mean
            }
            &&& later == 0 ==> {
                &&& after.state[host].hostname == log[i].report.hostname
                &&& after.state[host].cores == log[i].report.cores
                &&& after.state[host].memory_usage == log[i].report.memory_usage
            }
        }),
{
    let host = log[i].report.hostname;
    let ours = |arrival: Arrival<F, G>| arrival.report.hostname == host;
    the_collector_remembers_the_latest(log, host);
    kept_items_stay_in_order(log, ours, i);
}

/// After any log of arrivals each kept sample has exactly the time and the mean
/// of the arrival it came from: the samples of a host are those of its last
/// arrivals, sixty or as many as there were, in the order in which they came.
pub proof fn each_kept_sample_is_that_of_its_arrival<F, G>(
    log: Seq<Arrival<F, G>>,
    host: Seq<char>,
    k: int,
)
    ensures
        ({
            let after = CollectorView::<F, G>::empty().receive_all(log);
            let points = after.realtime[host];
            let mine = log.filter(|arrival: Arrival<F, G>| arrival.report.hostname == host);
            let forgotten = if mine.len() > 60 {
                mine.len() - 60
            } else {
                0
            };
            &&& after.realtime.contains_key(host) <==> mine.len() > 0
            &&& after.state.contains_key(host) <==> mine.len() > 0
            &&& mine.len() > 0 ==> points.len() == mine.len() - forgotten
            &&& mine.len() > 0 && 0 <= k < points.len() ==> points[k].at == mine[forgotten
                + k].at && points[k].value == mine[forgotten + k].mean
        }),
{
    the_collector_remembers_the_latest(log, host);
}

/// Taken as mathematical values, the reports are of the same hosts and hold what
/// they held.
pub proof fn all_reports_are_taken_whole<F>(
    state: Map<Seq<char>, MetricsRequest<F>>,
    host: Seq<char>,
)
    ensures
        reports(state).contains_key(host) <==> state.contains_key(host),
        state.contains_key(host) ==> {
            &&& reports(state)[host].hostname == state[host].hostname@
            &&& reports(state)[host].cores == state[host].cores@
            &&& reports(state)[host].memory_usage == state[host].memory_usage
        },
{
}

/// Of two arrivals of `log` that are reports of `host`, the later one in the
/// list came in no earlier.
pub open spec fn arrivals_in_time_order<F, G>(log: Seq<Arrival<F, G>>, host: Seq<char>) -> bool {
    forall|i: int, j: int|
        0 <= i < j < log.len() && (#[trigger] log[i]).report.hostname == host && (
        #[trigger] log[j]).report.hostname == host ==> log[i].at.since_epoch()
            <= log[j].at.since_epoch()
}

/// Where the clock does not go back between the reports of a host, its samples
/// are in the order of their times, oldest first.
pub proof fn receiving_keeps_the_order_of_times<F, G>(log: Seq<Arrival<F, G>>, host: Seq<char>)
    requires
        arrivals_in_time_order(log, host),
    ensures
        chronological(
            points_of(CollectorView::<F, G>::empty().receive_all(log).realtime, host),
        ),
    decreases log.len(),
{
    if log.len() > 0 {
        let start = CollectorView::<F, G>::empty();
        let rest = log.drop_last();
        let arrival = log.last();
        assert(arrivals_in_time_order(rest, host)) by {
            assert forall|i: int, j: int|
                0 <= i < j < rest.len() && (#[trigger] rest[i]).report.hostname == host && (
                #[trigger] rest[j]).report.hostname == host implies rest[i].at.since_epoch()
                <= rest[j].at.since_epoch() by {
                assert(rest[i] == log[i] && rest[j] == log[j]);
            }
        }
        receiving_keeps_the_order_of_times(rest, host);
        if arrival.report.hostname == host {
            let time = arrival.at.since_epoch();
            assert(log[log.len() - 1] == arrival);
            assert forall|i: int|
                0 <= i < rest.len() && (
                #[trigger] rest[i]).report.hostname == host implies rest[i].at.since_epoch()
                <= time by {
                assert(rest[i] == log[i]);
            }
            lemma_receiving_no_later(rest, host, time);
            retaining_a_newer_sample_keeps_the_order(
                points_of(start.receive_all(rest).realtime, host),
                arrival.sample(),
                REALTIME_MAX_POINTS as nat,
            );
        }
    }
}

proof fn lemma_receiving_no_later<F, G>(log: Seq<Arrival<F, G>>, host: Seq<char>, time: int)
    requires
        forall|i: int|
            0 <= i < log.len() && (
            #[trigger] log[i]).report.hostname == host ==> log[i].at.since_epoch() <= time,
    ensures
        none_after(
            points_of(CollectorView::<F, G>::empty().receive_all(log).realtime, host),
            time,
        ),
    decreases log.len(),
{
    if log.len() > 0 {
        let rest = log.drop_last();
        assert forall|i: int|
            0 <= i < rest.len() && (
            #[trigger] rest[i]).report.hostname == host implies rest[i].at.since_epoch()
            <= time by {
            assert(rest[i] == log[i]);
        }
        lemma_receiving_no_later(rest, host, time);
        assert(log[log.len() - 1] == log.last());
    }
}

/// The latest report of each host, and the means of its reports over the last while.
pub struct MyCollector<F, G> {
    state: HostMap<MetricsRequest<F>>,
    realtime_history: History<G>,
}

impl<F, G> View for MyCollector<F, G> {
    type V = CollectorView<F, G>;

    closed spec fn view(&self) -> CollectorView<F, G> {
        CollectorView { state: reports(self.state@), realtime: self.realtime_history@ }
    }
}

impl<F, G> MyCollector<F, G> {
    /// The collector holds each host once, and is consistent.
    pub closed spec fn wf(&self) -> bool {
        &&& self.state.wf()
        &&& self.realtime_history.wf()
        &&& self@.consistent()
    }

    /// A collector that has received nothing.
    pub fn new() -> (collector: Self)
        ensures
            collector.wf(),
            collector@ == CollectorView::<F, G>::empty(),
    {
        let collector = MyCollector { state: HostMap::new(), realtime_history: History::new() };
        assert(collector@ =~= CollectorView::<F, G>::empty());
        collector
    }

    /// The latest report of each host.
    pub fn state(&self) -> (state: &HostMap<MetricsRequest<F>>)
        requires
            self.wf(),
        ensures
            state.wf(),
            reports(state@) == self@.state,
            keyed(reports(state@)),
    {
        &self.state
    }

    /// The samples of the real-time chart.
    pub fn realtime_history(&self) -> (history: &History<G>)
        requires
            self.wf(),
        ensures
            history.wf(),
            history@ == self@.realtime,
    {
        &self.realtime_history
    }

    /// Takes in a report that came at `now` and whose cores have the mean load
    /// `avg_cpu`. Every report is accepted.
    pub fn send_metrics(
        &mut self,
        req: MetricsRequest<F>,
        now: Timestamp,
        avg_cpu: G,
    ) -> (response: MetricsResponse)
        requires
            old(self).wf(),
        ensures
            final(self).wf(),
            final(self)@ == old(self)@.receive(
                (Arrival { report: req@, at: now, mean: avg_cpu }),
            ),
            final(self)@.consistent(),
            final(self)@.state.contains_key(req.hostname@),
            final(self)@.state[req.hostname@].hostname == req.hostname@,
            final(self)@.state[req.hostname@].cores == req.cores@,
            final(self)@.state[req.hostname@].memory_usage == req.memory_usage,
            final(self)@.realtime.contains_key(req.hostname@),
            final(self)@.realtime[req.hostname@].len() > 0,
            final(self)@.realtime[req.hostname@].last().at == now,
            final(self)@.realtime[req.hostname@].last().value == avg_cpu,
            forall|other: Seq<char>| #[trigger]
                final(self)@.state.contains_key(other) && other != req.hostname@
                    ==> old(self)@.state.contains_key(other) && final(self)@.state[other]
                    == old(self)@.state[other] && final(self)@.realtime[other]
                    == old(self)@.realtime[other],
            response.success,
    {
        let ghost arrival = Arrival { report: req@, at: now, mean: avg_cpu };
        self.realtime_history.record(
            &req.hostname,
            Sample { at: now, value: avg_cpu },
            REALTIME_MAX_POINTS,
        );
        self.state.insert(req.hostname.clone(), req);
        proof {
            receiving_keeps_consistency(old(self)@, arrival);
            assert(self@ =~= old(self)@.receive(arrival));
            assert(self@.realtime.contains_key(arrival.report.hostname));
        }
        MetricsResponse { success: true }
    }
}

} // verus!
