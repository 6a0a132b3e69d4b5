//! The worker that, once a minute, samples every known host and stores what it
//! reported in the database.
//!
//! The worker itself waits for nothing: it is told what happened, and says what
//! is to be done next.

use crate::history::{
    bounded, chronological, last_of, none_after, points_of, retained,
    retaining_a_newer_sample_keeps_the_order, retaining_keeps_the_bound, with_sample, History,
    MINUTE_MAX_POINTS,
};
use crate::collector::keyed;
use crate::hosts::{name_before, HostMap};
use crate::metrics::{MetricsRequest, MetricsView, Sample, Timestamp};
use crate::minute::record_minute;
use vstd::prelude::*;

verus! {

/// What the worker waits for.
pub enum Phase<F> {
    /// The next minute.
    Idle,
    /// The mean load of the cores in a report.
    Measuring(MetricsRequest<F>),
    /// The end of an insertion into the database.
    Inserting(String),
    /// The end of a removal of old rows from the database.
    Pruning(String),
}

/// A phase as a mathematical value.
pub enum PhaseView<F> {
    Idle,
    Measuring(MetricsView<F>),
    Inserting(Seq<char>),
    Pruning(Seq<char>),
}

impl<F> View for Phase<F> {
    type V = PhaseView<F>;

    open spec fn view(&self) -> PhaseView<F> {
        match *self {
            Phase::Idle => PhaseView::Idle,
            Phase::Measuring(report) => PhaseView::Measuring(report@),
            Phase::Inserting(host) => PhaseView::Inserting(host@),
            Phase::Pruning(host) => PhaseView::Pruning(host@),
        }
    }
}

/// What happened.
pub enum Event<F, G> {
    /// A minute has passed; it is `now`, and these are the reports that the
    /// collector holds.
    Tick { now: Timestamp, snapshot: Vec<MetricsRequest<F>> },
    /// The mean load of the cores in the report that was to be measured.
    Measured(G),
    /// The insertion ended, well or not.
    Inserted(bool),
    /// The removal ended, well or not.
    Pruned,
}

/// An event as a mathematical value.
pub enum EventView<F, G> {
    Tick { now: Timestamp, snapshot: Seq<MetricsView<F>> },
    Measured(G),
    Inserted(bool),
    Pruned,
}

impl<F, G> View for Event<F, G> {
    type V = EventView<F, G>;

    open spec fn view(&self) -> EventView<F, G> {
        match *self {
            Event::Tick { now, snapshot } => EventView::Tick {
                now,
                snapshot: views(snapshot@),
            },
            Event::Measured(mean) => EventView::Measured(mean),
            Event::Inserted(ok) => EventView::Inserted(ok),
            Event::Pruned => EventView::Pruned,
        }
    }
}

/// What is to be done.
pub enum Action<F> {
    /// Wait for the next minute.
    Wait,
    /// Take the mean load of the cores in a report.
    Measure(MetricsRequest<F>),
    /// Insert a report into the database.
    Insert(MetricsRequest<F>),
    /// Remove all rows of the host but the latest ones.
    Prune(String),
}

/// An action as a mathematical value.
pub enum ActionView<F> {
    Wait,
    Measure(MetricsView<F>),
    Insert(MetricsView<F>),
    Prune(Seq<char>),
}

impl<F> View for Action<F> {
    type V = ActionView<F>;

    open spec fn view(&self) -> ActionView<F> {
        match *self {
            Action::Wait => ActionView::Wait,
            Action::Measure(report) => ActionView::Measure(report@),
            Action::Insert(report) => ActionView::Insert(report@),
            Action::Prune(host) => ActionView::Prune(host@),
        }
    }
}

/// Reports as mathematical values.
pub open spec fn views<F>(reports: Seq<MetricsRequest<F>>) -> Seq<MetricsView<F>> {
    reports.map_values(|report: MetricsRequest<F>| report@)
}

/// The worker and the history that it fills, as a mathematical value.
#[verifier::ext_equal]
pub struct WorkerView<F, G> {
    pub now: Timestamp,
    pub pending: Seq<MetricsView<F>>,
    pub phase: PhaseView<F>,
    pub history: Map<Seq<char>, Seq<Sample<G>>>,
}

impl<F, G> WorkerView<F, G> {
    /// The next report is taken up; where there is none, the next minute is awaited.
    pub open spec fn advance(self) -> (Self, ActionView<F>) {
        if self.pending.len() == 0 {
            (WorkerView { phase: PhaseView::Idle, ..self }, ActionView::Wait)
        } else {
            (
                WorkerView {
                    pending: self.pending.drop_first(),
                    phase: PhaseView::Measuring(self.pending[0]),
                    ..self
                },
                ActionView::Measure(self.pending[0]),
            )
        }
    }

    /// What follows on an event. One that was not awaited changes nothing.
    pub open spec fn step(self, event: EventView<F, G>) -> (Self, ActionView<F>) {
        match (self.phase, event) {
            (PhaseView::Idle, EventView::Tick { now, snapshot }) => WorkerView {
                now,
                pending: snapshot,
                ..self
            }.advance(),
            (PhaseView::Measuring(report), EventView::Measured(mean)) => (
                WorkerView {
                    phase: PhaseView::Inserting(report.hostname),
                    history: with_sample(
                        self.history,
                        report.hostname,
                        Sample { at: self.now, value: mean },
                        MINUTE_MAX_POINTS as nat,
                    ),
                    ..self
                },
                ActionView::Insert(report),
            ),
            (PhaseView::Inserting(host), EventView::Inserted(ok)) => if ok {
                (WorkerView { phase: PhaseView::Pruning(host), ..self }, ActionView::Prune(host))
            } else {
                self.advance()
            },
            (PhaseView::Pruning(host), EventView::Pruned) => self.advance(),
            _ => (self, ActionView::Wait),
        }
    }
}

/// How a report fares: the mean load of its cores, and whether its insertion
/// into the database ended well.
pub struct Reply<G> {
    pub mean: G,
    pub stored: bool,
}

/// A worker that has said `action`, after each of `replies` was given to it in
/// turn, and all that it has said since.
pub open spec fn served<F, G>(
    worker: WorkerView<F, G>,
    action: ActionView<F>,
    replies: Seq<Reply<G>>,
) -> (WorkerView<F, G>, Seq<ActionView<F>>)
    decreases replies.len(),
{
    if replies.len() == 0 {
        (worker, seq![action])
    } else {
        let reply = replies[0];
        let (measured, insert) = worker.step(EventView::Measured(reply.mean));
        let (inserted, after_insert) = measured.step(EventView::Inserted(reply.stored));
        let (done, next) = if reply.stored {
            inserted.step(EventView::Pruned)
        } else {
            (inserted, after_insert)
        };
        let (end, later) = served(done, next, replies.drop_first());
        (
            end,
            if reply.stored {
                seq![action, insert, after_insert] + later
            } else {
                seq![action, insert] + later
            },
        )
    }
}

/// What is to be done in a minute: each report is measured and inserted, the
/// old rows of its host are removed if and only if the insertion ended well,
/// and at the end the next minute is awaited.
pub open spec fn minute_plan<F, G>(
    snapshot: Seq<MetricsView<F>>,
    replies: Seq<Reply<G>>,
) -> Seq<ActionView<F>>
    decreases snapshot.len(),
{
    if snapshot.len() == 0 {
        seq![ActionView::Wait]
    } else {
        let host = snapshot[0].hostname;
        let later = minute_plan(snapshot.drop_first(), replies.drop_first());
        if replies[0].stored {
            seq![
                ActionView::Measure(snapshot[0]),
                ActionView::Insert(snapshot[0]),
                ActionView::Prune(host),
            ] + later
        } else {
            seq![ActionView::Measure(snapshot[0]), ActionView::Insert(snapshot[0])] + later
        }
    }
}

/// `history` after each report of `snapshot` was sampled at `now`.
pub open spec fn sampled<F, G>(
    history: Map<Seq<char>, Seq<Sample<G>>>,
    snapshot: Seq<MetricsView<F>>,
    replies: Seq<Reply<G>>,
    now: Timestamp,
) -> Map<Seq<char>, Seq<Sample<G>>>
    decreases snapshot.len(),
{
    if snapshot.len() == 0 {
        history
    } else {
        sampled(
            with_sample(
                history,
                snapshot[0].hostname,
                Sample { at: now, value: replies[0].mean },
                MINUTE_MAX_POINTS as nat,
            ),
            snapshot.drop_first(),
            replies.drop_first(),
            now,
        )
    }
}

/// Once a minute has begun, whatever the replies are, the worker does what the
/// plan of the minute says, samples each report, and is then ready for the
/// next minute.
pub proof fn a_minute_goes_by_its_plan<F, G>(
    worker: WorkerView<F, G>,
    now: Timestamp,
    snapshot: Seq<MetricsView<F>>,
    replies: Seq<Reply<G>>,
)
    requires
        worker.phase is Idle,
        replies.len() == snapshot.len(),
    ensures
        ({
            let (begun, first) = worker.step(EventView::Tick { now, snapshot });
            let (end, said) = served(begun, first, replies);
            &&& said == minute_plan(snapshot, replies)
            &&& end.history == sampled(worker.history, snapshot, replies, now)
            &&& end.phase is Idle
            &&& end.pending.len() == 0
        }),
{
    lemma_served(WorkerView { now, pending: snapshot, ..worker }, replies);
}

proof fn lemma_served<F, G>(worker: WorkerView<F, G>, replies: Seq<Reply<G>>)
    requires
        replies.len() == worker.pending.len(),
    ensures
        ({
            let (begun, first) = worker.advance();
            let (end, said) = served(begun, first, replies);
            &&& said == minute_plan(worker.pending, replies)
            &&& end.history == sampled(worker.history, worker.pending, replies, worker.now)
            &&& end.phase is Idle
            &&& end.pending.len() == 0
        }),
    decreases replies.len(),
{
    if replies.len() > 0 {
        let host = worker.pending[0].hostname;
        let reply = replies[0];
        let next = WorkerView {
            pending: worker.pending.drop_first(),
            phase: if reply.stored {
                PhaseView::Pruning(host)
            } else {
                PhaseView::Inserting(host)
            },
            history: with_sample(
                worker.history,
                host,
                Sample { at: worker.now, value: reply.mean },
                MINUTE_MAX_POINTS as nat,
            ),
            ..worker
        };
        lemma_served(next, replies.drop_first());
    }
}

/// In a minute each host of the snapshot gets one sample, its own mean at the
/// time of the minute, and the samples of all other hosts stay as they were.
pub proof fn a_minute_samples_each_host_once<F, G>(
    history: Map<Seq<char>, Seq<Sample<G>>>,
    snapshot: Seq<MetricsView<F>>,
    replies: Seq<Reply<G>>,
    now: Timestamp,
    host: Seq<char>,
)
    requires
        replies.len() == snapshot.len(),
        forall|i: int, j: int|
            0 <= i < j < snapshot.len() ==> (#[trigger] snapshot[i]).hostname != (
            #[trigger] snapshot[j]).hostname,
    ensures
        forall|i: int|
            0 <= i < snapshot.len() && (#[trigger] snapshot[i]).hostname == host ==> points_of(
                sampled(history, snapshot, replies, now),
                host,
            ) == retained(
                points_of(history, host),
                Sample { at: now, value: replies[i].mean },
                MINUTE_MAX_POINTS as nat,
            ),
        (forall|i: int| 0 <= i < snapshot.len() ==> (#[trigger] snapshot[i]).hostname != host)
            ==> points_of(sampled(history, snapshot, replies, now), host) == points_of(
            history,
            host,
        ),
    decreases snapshot.len(),
{
    if snapshot.len() > 0 {
        let rest = snapshot.drop_first();
        let first = with_sample(
            history,
            snapshot[0].hostname,
            Sample { at: now, value: replies[0].mean },
            MINUTE_MAX_POINTS as nat,
        );
        assert forall|i: int, j: int| 0 <= i < j < rest.len() implies (#[trigger] rest[i]).hostname
            != (#[trigger] rest[j]).hostname by {
            assert(snapshot[i + 1].hostname != snapshot[j + 1].hostname);
        }
        a_minute_samples_each_host_once(first, rest, replies.drop_first(), now, host);
        assert(forall|i: int| 0 <= i < rest.len() ==> rest[i] == #[trigger] snapshot[i + 1]);
        assert forall|i: int|
            0 <= i < snapshot.len() && (#[trigger] snapshot[i]).hostname == host implies points_of(
            sampled(history, snapshot, replies, now),
            host,
        ) == retained(
            points_of(history, host),
            Sample { at: now, value: replies[i].mean },
            MINUTE_MAX_POINTS as nat,
        ) by {
            if i > 0 {
                assert(rest[i - 1] == snapshot[i]);
                assert(snapshot[0].hostname != snapshot[i].hostname);
            } else {
                assert forall|k: int| 0 <= k < rest.len() implies (#[trigger] rest[k]).hostname
                    != host by {
                    assert(snapshot[0].hostname != snapshot[k + 1].hostname);
                }
            }
        }
        if forall|i: int| 0 <= i < snapshot.len() ==> (#[trigger] snapshot[i]).hostname != host {
            assert(snapshot[0].hostname != host);
            assert forall|k: int| 0 <= k < rest.len() implies (#[trigger] rest[k]).hostname
                != host by {
                assert(snapshot[k + 1].hostname != host);
            }
        }
    }
}

/// A minute leaves no host with more samples than the minute chart keeps.
pub proof fn a_minute_keeps_the_bound<F, G>(
    history: Map<Seq<char>, Seq<Sample<G>>>,
    snapshot: Seq<MetricsView<F>>,
    replies: Seq<Reply<G>>,
    now: Timestamp,
)
    requires
        bounded(history, MINUTE_MAX_POINTS as nat),
    ensures
        bounded(sampled(history, snapshot, replies, now), MINUTE_MAX_POINTS as nat),
    decreases snapshot.len(),
{
    if snapshot.len() > 0 {
        let host = snapshot[0].hostname;
        let sample = Sample { at: now, value: replies[0].mean };
        retaining_keeps_the_bound(history, host, sample, MINUTE_MAX_POINTS as nat);
        a_minute_keeps_the_bound(
            with_sample(history, host, sample, MINUTE_MAX_POINTS as nat),
            snapshot.drop_first(),
            replies.drop_first(),
            now,
        );
    }
}

/// A minute that went by: when it was, the reports of which it made a sample,
/// and how each of them fared.
pub struct Minute<F, G> {
    pub now: Timestamp,
    pub snapshot: Seq<MetricsView<F>>,
    pub replies: Seq<Reply<G>>,
}

impl<F, G> Minute<F, G> {
    /// There is a reply for each report, and no two reports are of one host.
    pub open spec fn valid(self) -> bool {
        &&& self.replies.len() == self.snapshot.len()
        &&& forall|i: int, j: int|
            0 <= i < j < self.snapshot.len() ==> (#[trigger] self.snapshot[i]).hostname != (
            #[trigger] self.snapshot[j]).hostname
    }

    /// The sample of `host` in this minute, if there is one.
    pub open spec fn samples_of(self, host: Seq<char>) -> Seq<Sample<G>> {
        if exists|i: int|
            0 <= i < self.snapshot.len() && (#[trigger] self.snapshot[i]).hostname == host {
            let i = choose|i: int|
                0 <= i < self.snapshot.len() && (#[trigger] self.snapshot[i]).hostname == host;
            seq![Sample { at: self.now, value: self.replies[i].mean }]
        } else {
            Seq::empty()
        }
    }
}

/// `history` after all of `minutes` went by.
pub open spec fn after_minutes<F, G>(
    history: Map<Seq<char>, Seq<Sample<G>>>,
    minutes: Seq<Minute<F, G>>,
) -> Map<Seq<char>, Seq<Sample<G>>>
    decreases minutes.len(),
{
    if minutes.len() == 0 {
        history
    } else {
        let last = minutes.last();
        sampled(
            after_minutes(history, minutes.drop_last()),
            last.snapshot,
            last.replies,
            last.now,
        )
    }
}

/// The samples of `host` in all of `minutes`.
pub open spec fn all_samples_of<F, G>(minutes: Seq<Minute<F, G>>, host: Seq<char>) -> Seq<Sample<G>>
    decreases minutes.len(),
{
    if minutes.len() == 0 {
        Seq::empty()
    } else {
        all_samples_of(minutes.drop_last(), host) + minutes.last().samples_of(host)
    }
}

/// However many minutes go by, the history holds the last samples of each host,
/// up to the number that the minute chart keeps, in the order in which they were taken.
pub proof fn minutes_keep_the_latest_samples<F, G>(
    history: Map<Seq<char>, Seq<Sample<G>>>,
    minutes: Seq<Minute<F, G>>,
    host: Seq<char>,
)
    requires
        bounded(history, MINUTE_MAX_POINTS as nat),
        forall|i: int| 0 <= i < minutes.len() ==> (#[trigger] minutes[i]).valid(),
    ensures
        points_of(after_minutes(history, minutes), host) == last_of(
            points_of(history, host) + all_samples_of(minutes, host),
            MINUTE_MAX_POINTS as nat,
        ),
    decreases minutes.len(),
{
    let max = MINUTE_MAX_POINTS as nat;
    let start = points_of(history, host);
    if minutes.len() == 0 {
        assert(start + all_samples_of(minutes, host) =~= start);
    } else {
        let rest = minutes.drop_last();
        let last = minutes.last();
        assert(last.valid());
        minutes_keep_the_latest_samples(history, rest, host);
        a_minute_samples_each_host_once(
            after_minutes(history, rest),
            last.snapshot,
            last.replies,
            last.now,
            host,
        );
        let earlier = start + all_samples_of(rest, host);
        assert(start + all_samples_of(minutes, host) =~= earlier + last.samples_of(host));
        if exists|i: int|
            0 <= i < last.snapshot.len() && (#[trigger] last.snapshot[i]).hostname == host {
            let i = choose|i: int|
                0 <= i < last.snapshot.len() && (#[trigger] last.snapshot[i]).hostname == host;
            let sample = Sample { at: last.now, value: last.replies[i].mean };
            assert(last.samples_of(host) == seq![sample]);
            assert(points_of(after_minutes(history, minutes), host) == retained(
                last_of(earlier, max),
                sample,
                max,
            ));
            assert(retained(last_of(earlier, max), sample, max) =~= last_of(
                earlier + seq![sample],
                max,
            ));
        } else {
            assert(earlier + last.samples_of(host) =~= earlier);
        }
    }
}

/// Minutes that follow one another in time, none of them earlier than the
/// samples that a host has, keep its samples in the order of their times,
/// oldest first.
pub proof fn minutes_keep_the_order_of_times<F, G>(
    history: Map<Seq<char>, Seq<Sample<G>>>,
    minutes: Seq<Minute<F, G>>,
    host: Seq<char>,
)
    requires
        chronological(points_of(history, host)),
        forall|i: int|
            0 <= i < minutes.len() ==> (#[trigger] minutes[i]).valid() && none_after(
                points_of(history, host),
                minutes[i].now.since_epoch(),
            ),
        forall|i: int, j: int|
            0 <= i < j < minutes.len() ==> (#[trigger] minutes[i]).now.since_epoch() <= (
            #[trigger] minutes[j]).now.since_epoch(),
    ensures
        chronological(points_of(after_minutes(history, minutes), host)),
        minutes.len() > 0 ==> none_after(
            points_of(after_minutes(history, minutes), host),
            minutes.last().now.since_epoch(),
        ),
    decreases minutes.len(),
{
    if minutes.len() > 0 {
        let rest = minutes.drop_last();
        let last = minutes.last();
        assert(minutes[minutes.len() - 1] == last);
        assert(last.valid());
        minutes_keep_the_order_of_times(history, rest, host);
        let before = points_of(after_minutes(history, rest), host);
        assert(none_after(before, last.now.since_epoch())) by {
            if rest.len() > 0 {
                assert(minutes[rest.len() - 1] == rest.last());
            }
        }
        a_minute_samples_each_host_once(
            after_minutes(history, rest),
            last.snapshot,
            last.replies,
            last.now,
            host,
        );
        if exists|i: int|
            0 <= i < last.snapshot.len() && (#[trigger] last.snapshot[i]).hostname == host {
            let i = choose|i: int|
                0 <= i < last.snapshot.len() && (#[trigger] last.snapshot[i]).hostname == host;
            retaining_a_newer_sample_keeps_the_order(
                before,
                Sample { at: last.now, value: last.replies[i].mean },
                MINUTE_MAX_POINTS as nat,
            );
        }
    }
}

/// Copies the latest report of each host, in the order of the hosts.
pub fn snapshot<F: Copy>(state: &HostMap<MetricsRequest<F>>) -> (reports: Vec<MetricsRequest<F>>)
    requires
        state.wf(),
    ensures
        reports@.len() == state.names().len(),
        forall|i: int|
            0 <= i < reports@.len() ==> (#[trigger] reports@[i])@ == state@[state.names()[i]]@,
        keyed(crate::collector::reports(state@)) ==> forall|i: int, j: int|
            0 <= i < j < reports@.len() ==> name_before(
                (#[trigger] reports@[i]).hostname@,
                (#[trigger] reports@[j]).hostname@,
            ),
{
    let mut reports: Vec<MetricsRequest<F>> = Vec::new();
    let mut i: usize = 0;
    while i < state.len()
        invariant
            state.wf(),
            i <= state.names().len(),
            reports@.len() == i,
            forall|j: int|
                0 <= j < i ==> (#[trigger] reports@[j])@ == state@[state.names()[j]]@,
        decreases state.names().len() - i,
    {
        reports.push(state.value_at(i).clone());
        i += 1;
    }
    proof {
        state.names_are_the_domain();
        let latest = crate::collector::reports(state@);
        if keyed(latest) {
            assert forall|k: int| 0 <= k < reports@.len() implies (
            #[trigger] reports@[k]).hostname@ == state.names()[k] by {
                let host = state.names()[k];
                assert(state.names().contains(host));
                assert(latest.contains_key(host));
                assert(reports@[k]@ == latest[host]);
            }
        }
    }
    reports
}

/// The history of the minute chart, the reports that are still to be stored in
/// this minute, and what is awaited.
pub struct Worker<F, G> {
    now: Timestamp,
    pending: Vec<MetricsRequest<F>>,
    phase: Phase<F>,
    minute_history: History<G>,
}

impl<F, G> View for Worker<F, G> {
    type V = WorkerView<F, G>;

    closed spec fn view(&self) -> WorkerView<F, G> {
        WorkerView {
            now: self.now,
            pending: views(self.pending@),
            phase: self.phase@,
            history: self.minute_history@,
        }
    }
}

impl<F, G> Worker<F, G> {
    /// The history holds each host once.
    pub closed spec fn wf(&self) -> bool {
        self.minute_history.wf()
    }

    /// A worker that goes on with `minute_history` and waits for its first minute.
    pub fn new(minute_history: History<G>) -> (worker: Self)
        requires
            minute_history.wf(),
        ensures
            worker.wf(),
            worker@.phase is Idle,
            worker@.pending.len() == 0,
            worker@.history == minute_history@,
    {
        Worker {
            now: Timestamp { secs: 0, nanos: 0 },
            pending: Vec::new(),
            phase: Phase::Idle,
            minute_history,
        }
    }

    /// The history of the minute chart.
    pub fn minute_history(&self) -> (history: &History<G>)
        requires
            self.wf(),
        ensures
            history.wf(),
            history@ == self@.history,
    {
        &self.minute_history
    }

}

impl<F: Copy, G> Worker<F, G> {
    /// Takes up the next report.
    fn advance(&mut self) -> (action: Action<F>)
        requires
            old(self).wf(),
        ensures
            final(self).wf(),
            (final(self)@, action@) == old(self)@.advance(),
    {
        if self.pending.len() == 0 {
            self.phase = Phase::Idle;
            proof {
                assert(self@ =~= old(self)@.advance().0);
            }
            Action::Wait
        } else {
            let report = self.pending.remove(0);
            self.phase = Phase::Measuring(report.clone());
            proof {
                assert(self@ =~= old(self)@.advance().0);
            }
            Action::Measure(report)
        }
    }

    /// Takes in what happened, and says what is to be done.
    pub fn step(&mut self, event: Event<F, G>) -> (action: Action<F>)
        requires
            old(self).wf(),
        ensures
            final(self).wf(),
            (final(self)@, action@) == old(self)@.step(event@),
    {
        match (&self.phase, event) {
            (Phase::Idle, Event::Tick { now, snapshot }) => {
                self.now = now;
                self.pending = snapshot;
                self.advance()
            },
            (Phase::Measuring(report), Event::Measured(mean)) => {
                let report: MetricsRequest<F> = report.clone();
                record_minute(&mut self.minute_history, &report.hostname, self.now, mean);
                self.phase = Phase::Inserting(report.hostname.clone());
                proof {
                    assert(self@ =~= old(self)@.step(event@).0);
                }
                Action::Insert(report)
            },
            (Phase::Inserting(host), Event::Inserted(ok)) => if ok {
                let host: String = host.clone();
                self.phase = Phase::Pruning(host.clone());
                proof {
                    assert(self@ =~= old(self)@.step(event@).0);
                }
                Action::Prune(host)
            } else {
                self.advance()
            },
            (Phase::Pruning(_), Event::Pruned) => self.advance(),
            _ => Action::Wait,
        }
    }
}

/// When a minute begins, the worker keeps its time, takes up the first report of
/// the snapshot, and keeps all the others in their order; without a report it
/// goes on waiting. The history stays as it is.
pub proof fn a_minute_begins_with_its_first_report<F, G>(
    worker: WorkerView<F, G>,
    now: Timestamp,
    snapshot: Seq<MetricsView<F>>,
)
    requires
        worker.phase is Idle,
    ensures
        ({
            let (after, action) = worker.step(EventView::Tick { now, snapshot });
            &&& after.now == now
            &&& after.history == worker.history
            &&& snapshot.len() == 0 ==> action is Wait && after.phase is Idle
                && after.pending.len() == 0
            &&& snapshot.len() > 0 ==> {
                &&& action == ActionView::Measure(snapshot[0])
                &&& after.phase == PhaseView::<F>::Measuring(snapshot[0])
                &&& after.pending.len() == snapshot.len() - 1
                &&& forall|k: int|
                    0 <= k < snapshot.len() - 1 ==> #[trigger] after.pending[k] == snapshot[k + 1]
            }
        }),
{
}

/// A measured report is to be inserted. Its mean, at the time of the minute, ends
/// the samples of its host, of which only the oldest one goes, once there are
/// twenty. Nothing of another host changes, and the other reports wait on.
pub proof fn a_measured_report_is_sampled_and_inserted<F, G>(
    worker: WorkerView<F, G>,
    report: MetricsView<F>,
    mean: G,
    other: Seq<char>,
)
    requires
        worker.phase == PhaseView::<F>::Measuring(report),
        other != report.hostname,
    ensures
        ({
            let (after, action) = worker.step(EventView::Measured(mean));
            let host = report.hostname;
            let before = worker.history[host];
            let points = after.history[host];
            &&& action == ActionView::Insert(report)
            &&& after.phase == PhaseView::<F>::Inserting(host)
            &&& after.now == worker.now
            &&& after.pending == worker.pending
            &&& after.history.contains_key(host)
            &&& points.len() > 0
            &&& points[points.len() - 1].at == worker.now
            &&& points[points.len() - 1].value == mean
            &&& !worker.history.contains_key(host) ==> points.len() == 1
            &&& worker.history.contains_key(host) && before.len() < 20 ==> {
                &&& points.len() == before.len() + 1
                &&& forall|k: int| 0 <= k < before.len() ==> #[trigger] points[k] == before[k]
            }
            &&& worker.history.contains_key(host) && before.len() >= 20 ==> {
                &&& points.len() == before.len()
                &&& forall|k: int|
                    0 <= k < before.len() - 1 ==> #[trigger] points[k] == before[k + 1]
            }
            &&& after.history.contains_key(other) <==> worker.history.contains_key(other)
            &&& worker.history.contains_key(other) ==> after.history[other]
                == worker.history[other]
        }),
{
}

/// After an insertion that ended well the old rows of the host are to be removed,
/// and nothing else changes.
pub proof fn a_stored_report_makes_room<F, G>(worker: WorkerView<F, G>, host: Seq<char>)
    requires
        worker.phase == PhaseView::<F>::Inserting(host),
    ensures
        ({
            let (after, action) = worker.step(EventView::Inserted(true));
            &&& action == ActionView::<F>::Prune(host)
            &&& after.phase == PhaseView::<F>::Pruning(host)
            &&& after.now == worker.now
            &&& after.pending == worker.pending
            &&& after.history == worker.history
        }),
{
}

/// After an insertion that failed, and after a removal, the next report is taken
/// up; where none is left, the next minute is awaited. The history stays as it is.
pub proof fn the_next_report_is_taken_up<F, G>(
    worker: WorkerView<F, G>,
    event: EventView<F, G>,
    host: Seq<char>,
)
    requires
        (worker.phase == PhaseView::<F>::Inserting(host) && event == EventView::<F, G>::Inserted(
            false,
        )) || (worker.phase == PhaseView::<F>::Pruning(host) && event is Pruned),
    ensures
        ({
            let (after, action) = worker.step(event);
            &&& after.now == worker.now
            &&& after.history == worker.history
            &&& worker.pending.len() == 0 ==> action is Wait && after.phase is Idle
                && after.pending.len() == 0
            &&& worker.pending.len() > 0 ==> {
                &&& action == ActionView::Measure(worker.pending[0])
                &&& after.phase == PhaseView::<F>::Measuring(worker.pending[0])
                &&& after.pending.len() == worker.pending.len() - 1
                &&& forall|k: int|
                    0 <= k < worker.pending.len() - 1 ==> #[trigger] after.pending[k]
                        == worker.pending[k + 1]
            }
        }),
{
}

/// An event that is not awaited changes nothing, and nothing is to be done on it.
pub proof fn what_is_not_awaited_changes_nothing<F, G>(
    worker: WorkerView<F, G>,
    event: EventView<F, G>,
)
    requires
        !(worker.phase is Idle && event is Tick),
        !(worker.phase is Measuring && event is Measured),
        !(worker.phase is Inserting && event is Inserted),
        !(worker.phase is Pruning && event is Pruned),
    ensures
        worker.step(event).0 == worker,
        worker.step(event).1 is Wait,
{
}

/// As a mathematical value an event has the time, the reports and the outcome
/// that it holds: no report is left out.
pub proof fn an_event_is_taken_whole<F, G>(event: Event<F, G>)
    ensures
        event matches Event::Tick { now, snapshot } ==> {
            &&& event@ is Tick
            &&& event@->now == now
            &&& event@->snapshot.len() == snapshot@.len()
            &&& forall|i: int|
                0 <= i < snapshot@.len() ==> {
                    &&& (#[trigger] event@->snapshot[i]).hostname == snapshot@[i].hostname@
                    &&& event@->snapshot[i].cores == snapshot@[i].cores@
                    &&& event@->snapshot[i].memory_usage == snapshot@[i].memory_usage
                }
        },
        event matches Event::Measured(mean) ==> event@ == EventView::<F, G>::Measured(mean),
        event matches Event::Inserted(ok) ==> event@ == EventView::<F, G>::Inserted(ok),
        event is Pruned ==> event@ is Pruned,
{
}

/// As a mathematical value a phase is the same one, with the report or the host
/// that it holds.
pub proof fn a_phase_is_taken_whole<F>(phase: Phase<F>)
    ensures
        phase is Idle ==> phase@ is Idle,
        phase matches Phase::Measuring(report) ==> {
            &&& phase@ is Measuring
            &&& phase@->Measuring_0.hostname == report.hostname@
            &&& phase@->Measuring_0.cores == report.cores@
            &&& phase@->Measuring_0.memory_usage == report.memory_usage
        },
        phase matches Phase::Inserting(host) ==> phase@ is Inserting && phase@->Inserting_0
            == host@,
        phase matches Phase::Pruning(host) ==> phase@ is Pruning && phase@->Pruning_0 == host@,
{
}

/// As a mathematical value an action is the same one, with the report or the host
/// that it holds.
pub proof fn an_action_is_taken_whole<F>(action: Action<F>)
    ensures
        action is Wait ==> action@ is Wait,
        action matches Action::Measure(report) ==> {
            &&& action@ is Measure
            &&& action@->Measure_0.hostname == report.hostname@
            &&& action@->Measure_0.cores == report.cores@
            &&& action@->Measure_0.memory_usage == report.memory_usage
        },
        action matches Action::Insert(report) ==> {
            &&& action@ is Insert
            &&& action@->Insert_0.hostname == report.hostname@
            &&& action@->Insert_0.cores == report.cores@
            &&& action@->Insert_0.memory_usage == report.memory_usage
        },
        action matches Action::Prune(host) ==> action@ is Prune && action@->Prune_0 == host@,
{
}

/// In a minute the reports are served one after the other, none left out: before
/// a report come two actions for each earlier one, and a third for each of those
/// that was stored. The report is measured, then inserted, and the old rows of
/// its host are removed if it was stored. At the end stands the wait.
pub proof fn every_report_of_a_minute_is_served<F, G>(
    worker: WorkerView<F, G>,
    now: Timestamp,
    snapshot: Seq<MetricsView<F>>,
    replies: Seq<Reply<G>>,
    i: int,
)
    requires
        worker.phase is Idle,
        replies.len() == snapshot.len(),
        0 <= i < snapshot.len(),
    ensures
        ({
            let (begun, first) = worker.step(EventView::Tick { now, snapshot });
            let said = served(begun, first, replies).1;
            let stored = |reply: Reply<G>| reply.stored;
            let at = 2 * i + replies.take(i).filter(stored).len();
            &&& said.len() == 2 * snapshot.len() + replies.filter(stored).len() + 1
            &&& at + 2 < said.len()
            &&& said[at] == ActionView::Measure(snapshot[i])
            &&& said[at + 1] == ActionView::Insert(snapshot[i])
            &&& replies[i].stored ==> said[at + 2] == ActionView::<F>::Prune(snapshot[i].hostname)
            &&& said[said.len() - 1] is Wait
        }),
{
    a_minute_goes_by_its_plan(worker, now, snapshot, replies);
    lemma_plan_places(snapshot, replies, i);
}

proof fn lemma_plan_places<F, G>(
    snapshot: Seq<MetricsView<F>>,
    replies: Seq<Reply<G>>,
    i: int,
)
    requires
        replies.len() == snapshot.len(),
    ensures
        ({
            let said = minute_plan(snapshot, replies);
            let stored = |reply: Reply<G>| reply.stored;
            let at = 2 * i + replies.take(i).filter(stored).len();
            &&& said.len() == 2 * snapshot.len() + replies.filter(stored).len() + 1
            &&& said[said.len() - 1] is Wait
            &&& 0 <= i < snapshot.len() ==> {
                &&& at + 2 < said.len()
                &&& said[at] == ActionView::Measure(snapshot[i])
                &&& said[at + 1] == ActionView::Insert(snapshot[i])
                &&& replies[i].stored ==> said[at + 2] == ActionView::<F>::Prune(
                    snapshot[i].hostname,
                )
            }
        }),
    decreases snapshot.len(),
{
    let stored = |reply: Reply<G>| reply.stored;
    reveal_with_fuel(Seq::filter, 2);
    if snapshot.len() > 0 {
        let rest = snapshot.drop_first();
        let others = replies.drop_first();
        let one = seq![replies[0]];
        lemma_plan_places(rest, others, i - 1);
        assert(replies =~= one + others);
        Seq::filter_distributes_over_add(one, others, stored);
        assert(one.drop_last() =~= Seq::empty());
        assert(one.filter(stored).len() == if replies[0].stored {
            1nat
        } else {
            0
        });
        if i == 0 {
            assert(replies.take(0) =~= Seq::empty());
            lemma_plan_places(rest, others, 0);
        } else if 0 < i < snapshot.len() {
            assert(replies.take(i) =~= one + others.take(i - 1));
            Seq::filter_distributes_over_add(one, others.take(i - 1), stored);
        }
    }
}

} // verus!
