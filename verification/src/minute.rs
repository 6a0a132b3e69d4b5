//! The minute chart's history: how it is filled from the rows of the database at
//! the start, and how each minute adds to it.

use crate::history::{
    bounded, chronological, kept_items_stay_in_order, none_after, points_of, with_appended,
    with_sample, History, MINUTE_MAX_POINTS,
};
use crate::metrics::{Sample, Timestamp};
use vstd::prelude::*;

verus! {

/// A row of the database: a host, when it was stored, in seconds since the Unix
/// epoch and milliseconds on top of them, and the mean load of its cores.
pub struct HistoryRow<G> {
    pub hostname: String,
    pub created_secs: i64,
    pub created_millis: u32,
    pub avg_cpu: G,
}

/// A row as a mathematical value.
pub struct RowView<G> {
    pub hostname: Seq<char>,
    pub sample: Sample<G>,
}

impl<G> View for HistoryRow<G> {
    type V = RowView<G>;

    open spec fn view(&self) -> RowView<G> {
        RowView {
            hostname: self.hostname@,
            sample: Sample {
                at: Timestamp {
                    secs: self.created_secs,
                    nanos: (self.created_millis * 1_000_000) as u64,
                },
                value: self.avg_cpu,
            },
        }
    }
}

/// `history` after `rows` were appended to it in turn.
pub open spec fn with_rows<G>(
    history: Map<Seq<char>, Seq<Sample<G>>>,
    rows: Seq<RowView<G>>,
) -> Map<Seq<char>, Seq<Sample<G>>>
    decreases rows.len(),
{
    if rows.len() == 0 {
        history
    } else {
        with_appended(
            with_rows(history, rows.drop_last()),
            rows.last().hostname,
            rows.last().sample,
        )
    }
}

/// The samples in those of `rows` that are about `host`, in their order.
pub open spec fn samples_of<G>(rows: Seq<RowView<G>>, host: Seq<char>) -> Seq<Sample<G>> {
    rows.filter(|row: RowView<G>| row.hostname == host).map_values(|row: RowView<G>| row.sample)
}

/// Loading gives each host the samples of its own rows, in their order, behind
/// those that it had.
pub proof fn loading_sorts_the_rows_by_host<G>(
    history: Map<Seq<char>, Seq<Sample<G>>>,
    rows: Seq<RowView<G>>,
    host: Seq<char>,
)
    ensures
        points_of(with_rows(history, rows), host) == points_of(history, host) + samples_of(
            rows,
            host,
        ),
        with_rows(history, rows).contains_key(host) <==> history.contains_key(host) || samples_of(
            rows,
            host,
        ).len() > 0,
    decreases rows.len(),
{
    reveal_with_fuel(Seq::filter, 2);
    let ours = |row: RowView<G>| row.hostname == host;
    if rows.len() == 0 {
        assert(points_of(history, host) + samples_of(rows, host) =~= points_of(history, host));
    } else {
        let rest = rows.drop_last();
        let row = rows.last();
        loading_sorts_the_rows_by_host(history, rest, host);
        if ours(row) {
            assert(rows.filter(ours) =~= rest.filter(ours).push(row));
            assert(samples_of(rows, host) =~= samples_of(rest, host).push(row.sample));
            assert(points_of(with_rows(history, rows), host) =~= points_of(history, host)
                + samples_of(rows, host));
        } else {
            assert(samples_of(rows, host) =~= samples_of(rest, host));
        }
    }
}

/// A row as a mathematical value has the host, the time and the mean load that
/// its fields hold.
pub proof fn a_row_is_taken_whole<G>(row: HistoryRow<G>)
    ensures
        row@.hostname == row.hostname@,
        row@.sample.at.secs == row.created_secs,
        row@.sample.at.nanos == row.created_millis * 1_000_000,
        row@.sample.value == row.avg_cpu,
{
}

/// Every row is found again. Its sample stands in the history of its host behind
/// those that the host had and those of the earlier rows about it, with its time
/// and its value, and nothing that the host had is gone.
pub proof fn every_row_is_found_again<G>(
    history: Map<Seq<char>, Seq<Sample<G>>>,
    rows: Seq<RowView<G>>,
    i: int,
)
    requires
        0 <= i < rows.len(),
    ensures
        ({
            let host = rows[i].hostname;
            let ours = |row: RowView<G>| row.hostname == host;
            let after = with_rows(history, rows);
            let had = if history.contains_key(host) {
                history[host].len()
            } else {
                0
            };
            let at = (had + rows.take(i).filter(ours).len()) as int;
            &&& after.contains_key(host)
            &&& after[host].len() == had + rows.filter(ours).len()
            &&& at < after[host].len()
            &&& after[host][at].at == rows[i].sample.at
            &&& after[host][at].value == rows[i].sample.value
            &&& forall|k: int| 0 <= k < had ==> #[trigger] after[host][k] == history[host][k]
        }),
{
    let host = rows[i].hostname;
    let ours = |row: RowView<G>| row.hostname == host;
    loading_sorts_the_rows_by_host(history, rows, host);
    kept_items_stay_in_order(rows, ours, i);
    let mine = samples_of(rows, host);
    assert(mine.len() == rows.filter(ours).len());
    assert(mine[rows.take(i).filter(ours).len() as int] == rows[i].sample);
}

/// A host that no row is about keeps what it had, and is not known if it was not.
pub proof fn hosts_without_rows_stay_as_they_were<G>(
    history: Map<Seq<char>, Seq<Sample<G>>>,
    rows: Seq<RowView<G>>,
    host: Seq<char>,
)
    requires
        forall|i: int| 0 <= i < rows.len() ==> (#[trigger] rows[i]).hostname != host,
    ensures
        with_rows(history, rows).contains_key(host) <==> history.contains_key(host),
        history.contains_key(host) ==> with_rows(history, rows)[host] == history[host],
    decreases rows.len(),
{
    if rows.len() > 0 {
        let rest = rows.drop_last();
        assert forall|i: int| 0 <= i < rest.len() implies (#[trigger] rest[i]).hostname != host by {
            assert(rest[i] == rows[i]);
        }
        hosts_without_rows_stay_as_they_were(history, rest, host);
        assert(rows[rows.len() - 1].hostname != host);
    }
}

/// A history that starts from rows of which each host has no more than the
/// minute chart keeps, is within the bound that each minute then keeps.
pub proof fn loading_few_rows_keeps_the_bound<G>(rows: Seq<RowView<G>>)
    requires
        forall|host: Seq<char>| (#[trigger] samples_of(rows, host)).len() <= MINUTE_MAX_POINTS,
    ensures
        bounded(with_rows(Map::<Seq<char>, Seq<Sample<G>>>::empty(), rows), MINUTE_MAX_POINTS as nat),
{
    let start = Map::<Seq<char>, Seq<Sample<G>>>::empty();
    assert forall|host: Seq<char>| #[trigger]
        with_rows(start, rows).contains_key(host) implies with_rows(start, rows)[host].len()
        <= MINUTE_MAX_POINTS by {
        loading_sorts_the_rows_by_host(start, rows, host);
        assert(samples_of(rows, host).len() <= MINUTE_MAX_POINTS);
    }
}

/// Of two of `rows` that are about `host`, the later one in the list is no older.
pub open spec fn rows_in_time_order<G>(rows: Seq<RowView<G>>, host: Seq<char>) -> bool {
    forall|i: int, j: int|
        0 <= i < j < rows.len() && (#[trigger] rows[i]).hostname == host && (
        #[trigger] rows[j]).hostname == host ==> rows[i].sample.at.since_epoch()
            <= rows[j].sample.at.since_epoch()
}

/// Rows that are in the order of their times for a host, and no older than the
/// samples that it has, leave its samples in the order of their times, oldest
/// first. From an empty history on that is so of all rows in time order.
pub proof fn loading_keeps_the_order_of_times<G>(
    history: Map<Seq<char>, Seq<Sample<G>>>,
    rows: Seq<RowView<G>>,
    host: Seq<char>,
)
    requires
        chronological(points_of(history, host)),
        rows_in_time_order(rows, host),
        forall|i: int|
            0 <= i < rows.len() && (#[trigger] rows[i]).hostname == host ==> none_after(
                points_of(history, host),
                rows[i].sample.at.since_epoch(),
            ),
    ensures
        chronological(points_of(with_rows(history, rows), host)),
    decreases rows.len(),
{
    if rows.len() > 0 {
        let rest = rows.drop_last();
        let row = rows.last();
        assert forall|i: int|
            0 <= i < rest.len() && (#[trigger] rest[i]).hostname == host implies none_after(
            points_of(history, host),
            rest[i].sample.at.since_epoch(),
        ) by {
            assert(rest[i] == rows[i]);
        }
        assert(rows_in_time_order(rest, host)) by {
            assert forall|i: int, j: int|
                0 <= i < j < rest.len() && (#[trigger] rest[i]).hostname == host && (
                #[trigger] rest[j]).hostname == host implies rest[i].sample.at.since_epoch()
                <= rest[j].sample.at.since_epoch() by {
                assert(rest[i] == rows[i] && rest[j] == rows[j]);
            }
        }
        loading_keeps_the_order_of_times(history, rest, host);
        if row.hostname == host {
            let time = row.sample.at.since_epoch();
            assert(rows[rows.len() - 1].hostname == host);
            assert forall|i: int|
                0 <= i < rest.len() && (
                #[trigger] rest[i]).hostname == host implies rest[i].sample.at.since_epoch()
                <= time by {
                assert(rest[i] == rows[i]);
            }
            lemma_loading_no_later(history, rest, host, time);
        }
    }
}

proof fn lemma_loading_no_later<G>(
    history: Map<Seq<char>, Seq<Sample<G>>>,
    rows: Seq<RowView<G>>,
    host: Seq<char>,
    time: int,
)
    requires
        none_after(points_of(history, host), time),
        forall|i: int|
            0 <= i < rows.len() && (
            #[trigger] rows[i]).hostname == host ==> rows[i].sample.at.since_epoch() <= time,
    ensures
        none_after(points_of(with_rows(history, rows), host), time),
    decreases rows.len(),
{
    if rows.len() > 0 {
        let rest = rows.drop_last();
        assert forall|i: int| 0 <= i < rest.len() && (#[trigger] rest[i]).hostname == host implies
            rest[i].sample.at.since_epoch() <= time by {
            assert(rest[i] == rows[i]);
        }
        lemma_loading_no_later(history, rest, host, time);
        assert(rows[rows.len() - 1] == rows.last());
    }
}

/// Appends the rows that the database held to the history of the minute chart.
pub fn load_initial_history<G: Copy>(minute_history: &mut History<G>, rows: &Vec<HistoryRow<G>>)
    requires
        old(minute_history).wf(),
    ensures
        final(minute_history).wf(),
        final(minute_history)@ == with_rows(
            old(minute_history)@,
            rows@.map_values(|row: HistoryRow<G>| row@),
        ),
{
    let ghost start = minute_history@;
    let ghost views = rows@.map_values(|row: HistoryRow<G>| row@);
    let mut i: usize = 0;
    assert(views.take(0) =~= Seq::empty());
    while i < rows.len()
        invariant
            i <= rows.len(),
            views == rows@.map_values(|row: HistoryRow<G>| row@),
            minute_history.wf(),
            minute_history@ == with_rows(start, views.take(i as int)),
        decreases rows.len() - i,
    {
        let row = &rows[i];
        let at = Timestamp::from_secs_and_millis(row.created_secs, row.created_millis);
        minute_history.append(&row.hostname, Sample { at, value: row.avg_cpu });
        i += 1;
        proof {
            let upto = views.take(i as int);
            assert(upto.drop_last() =~= views.take(i - 1));
            assert(upto.last() == row@);
        }
    }
    assert(views.take(i as int) =~= views);
}

/// Adds what was measured of `host` in this minute to the history of the minute chart.
pub fn record_minute<G>(
    minute_history: &mut History<G>,
    host: &String,
    now: Timestamp,
    avg_cpu: G,
)
    requires
        old(minute_history).wf(),
    ensures
        final(minute_history).wf(),
        final(minute_history)@ == with_sample(
            old(minute_history)@,
            host@,
            (Sample { at: now, value: avg_cpu }),
            MINUTE_MAX_POINTS as nat,
        ),
        final(minute_history)@.contains_key(host@),
        final(minute_history)@[host@].len() > 0,
        final(minute_history)@[host@].last().at == now,
        final(minute_history)@[host@].last().value == avg_cpu,
        !old(minute_history)@.contains_key(host@) ==> final(minute_history)@[host@].len() == 1,
        old(minute_history)@.contains_key(host@) && old(minute_history)@[host@].len() < 20
            ==> final(minute_history)@[host@].len() == old(minute_history)@[host@].len() + 1,
        old(minute_history)@.contains_key(host@) && old(minute_history)@[host@].len() >= 20
            ==> final(minute_history)@[host@].len() == old(minute_history)@[host@].len(),
{
    minute_history.record(host, Sample { at: now, value: avg_cpu }, MINUTE_MAX_POINTS);
}

} // verus!
