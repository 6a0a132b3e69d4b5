//! What the dashboard shows, worked out of what the collector and the worker hold.

use crate::collector::{keyed, reports, CollectorView};
use crate::history::{chronological, History, REALTIME_MAX_POINTS};
use crate::hosts::{
    ascending, ascending_list_is_determined_by_its_names, name_before, name_order_is_irreflexive,
    HostMap,
};
use crate::metrics::{CoreData, MetricsRequest, MetricsView, Sample, Timestamp, NANOS_PER_SECOND};
use vstd::prelude::*;

verus! {

/// A colour of the terminal.
#[derive(Clone, Copy, PartialEq, Eq, Structural, Debug)]
pub enum Color {
    Rgb(u8, u8, u8),
    Cyan,
    Magenta,
    White,
    Gray,
    DarkGray,
}

/// The colour of the host at place `i`: four neon ones, over and over.
pub open spec fn neon(i: int) -> Color {
    if i % 4 == 0 {
        Color::Rgb(173, 255, 47)
    } else if i % 4 == 1 {
        Color::Rgb(255, 0, 255)
    } else if i % 4 == 2 {
        Color::Rgb(0, 255, 255)
    } else {
        Color::Rgb(157, 0, 255)
    }
}

/// The colour of the host at place `i`.
pub fn neon_color(i: usize) -> (color: Color)
    ensures
        color == neon(i as int),
{
    match i % 4 {
        0 => Color::Rgb(173, 255, 47),
        1 => Color::Rgb(255, 0, 255),
        2 => Color::Rgb(0, 255, 255),
        _ => Color::Rgb(157, 0, 255),
    }
}

/// A host on the page of hosts.
#[derive(Debug)]
pub struct HostRow<M> {
    pub color: Color,
    pub hostname: String,
    pub memory_gb: M,
    pub cores: Vec<(u32, M)>,
}

/// The line of a host in a chart: where each point stands on the horizontal
/// axis, and its value.
#[derive(Debug)]
pub struct ChartSeries<G> {
    pub color: Color,
    pub label: String,
    pub points: Vec<(i128, G)>,
}

/// Everything that is drawn. The points of the real-time chart lie so many
/// nanoseconds after the chart's left edge; those of the minute chart are
/// numbered.
#[derive(Debug)]
pub struct RenderState<F, G> {
    pub hosts: Vec<HostRow<F>>,
    pub realtime: Vec<ChartSeries<G>>,
    /// The right edge of the real-time chart, in seconds.
    pub realtime_max_x: usize,
    pub minute: Vec<ChartSeries<G>>,
    /// The right edge of the minute chart.
    pub minute_max_x: usize,
}

/// The names of `rows`.
pub open spec fn row_names<M>(rows: Seq<HostRow<M>>) -> Seq<Seq<char>> {
    rows.map_values(|row: HostRow<M>| row.hostname@)
}

/// The labels of `series`.
pub open spec fn labels<G>(series: Seq<ChartSeries<G>>) -> Seq<Seq<char>> {
    series.map_values(|line: ChartSeries<G>| line.label@)
}

/// The rows are the hosts of `state` in ascending order, each with its colour
/// and what it last reported.
pub open spec fn shows_hosts<F>(
    rows: Seq<HostRow<F>>,
    state: Map<Seq<char>, MetricsView<F>>,
) -> bool {
    &&& ascending(row_names(rows))
    &&& forall|host: Seq<char>|
        #![trigger state.contains_key(host)]
        #![trigger row_names(rows).contains(host)]
        state.contains_key(host) <==> row_names(rows).contains(host)
    &&& forall|i: int|
        0 <= i < rows.len() ==> {
            let report = state[(#[trigger] rows[i]).hostname@];
            &&& rows[i].color == neon(i)
            &&& rows[i].memory_gb == report.memory_usage
            &&& rows[i].cores@ == report.cores.map_values(
                |core: CoreData<F>| (core.core_id, core.usage),
            )
        }
}

/// There is a point for each sample, with its value, where `place` puts it by
/// its number and the sample itself.
pub open spec fn placed<G>(
    points: Seq<(i128, G)>,
    samples: Seq<Sample<G>>,
    place: spec_fn(int, Sample<G>) -> int,
) -> bool {
    &&& points.len() == samples.len()
    &&& forall|k: int|
        0 <= k < points.len() ==> (#[trigger] points[k]).0 == place(k, samples[k]) && points[k].1
            == samples[k].value
}

/// The series are the hosts of `history` in ascending order, each with its
/// colour and its samples where `place` puts them.
pub open spec fn shows_history<G>(
    series: Seq<ChartSeries<G>>,
    history: Map<Seq<char>, Seq<Sample<G>>>,
    place: spec_fn(int, Sample<G>) -> int,
) -> bool {
    &&& ascending(labels(series))
    &&& forall|host: Seq<char>|
        #![trigger history.contains_key(host)]
        #![trigger labels(series).contains(host)]
        history.contains_key(host) <==> labels(series).contains(host)
    &&& forall|i: int|
        0 <= i < series.len() ==> {
            let samples = history[(#[trigger] series[i]).label@];
            &&& series[i].color == neon(i)
            &&& placed(series[i].points@, samples, place)
        }
}

/// Where a sample stands in the real-time chart at `now`: so many nanoseconds
/// after the left edge, which lies [`REALTIME_MAX_POINTS`] seconds in the past.
pub open spec fn realtime_place(at: Timestamp, now: Timestamp) -> int {
    at.since_epoch() - now.since_epoch() + REALTIME_MAX_POINTS * NANOS_PER_SECOND
}

/// `max_x` is the number of the last point of the longest series, and at least 1.
pub open spec fn right_edge<G>(series: Seq<ChartSeries<G>>, max_x: int) -> bool {
    &&& max_x >= 1
    &&& forall|i: int| 0 <= i < series.len() ==> (#[trigger] series[i]).points@.len() <= max_x + 1
    &&& max_x == 1 || exists|i: int|
        0 <= i < series.len() && (#[trigger] series[i]).points@.len() == max_x + 1
}

/// What the page of hosts shows depends on the latest reports alone, not on the
/// order in which the hosts became known.
pub proof fn the_page_of_hosts_is_determined<F>(
    a: Seq<HostRow<F>>,
    b: Seq<HostRow<F>>,
    state: Map<Seq<char>, MetricsView<F>>,
)
    requires
        shows_hosts(a, state),
        shows_hosts(b, state),
    ensures
        a.len() == b.len(),
        forall|i: int|
            0 <= i < a.len() ==> {
                &&& (#[trigger] a[i]).hostname@ == b[i].hostname@
                &&& a[i].color == b[i].color
                &&& a[i].memory_gb == b[i].memory_gb
                &&& a[i].cores@ == b[i].cores@
            },
{
    assert forall|host: Seq<char>|
        row_names(a).contains(host) <==> row_names(b).contains(host) by {
        assert(state.contains_key(host) <==> row_names(a).contains(host));
    }
    ascending_list_is_determined_by_its_names(row_names(a), row_names(b));
    assert forall|i: int| 0 <= i < a.len() implies (#[trigger] a[i]).hostname@ == b[i].hostname@ by {
        assert(row_names(a)[i] == row_names(b)[i]);
    }
}

/// What a chart shows depends on the samples alone, not on the order in which
/// the hosts became known.
pub proof fn a_chart_is_determined<G>(
    a: Seq<ChartSeries<G>>,
    b: Seq<ChartSeries<G>>,
    history: Map<Seq<char>, Seq<Sample<G>>>,
    place: spec_fn(int, Sample<G>) -> int,
)
    requires
        shows_history(a, history, place),
        shows_history(b, history, place),
    ensures
        a.len() == b.len(),
        forall|i: int|
            0 <= i < a.len() ==> {
                &&& (#[trigger] a[i]).label@ == b[i].label@
                &&& a[i].color == b[i].color
                &&& a[i].points@ == b[i].points@
            },
{
    assert forall|host: Seq<char>| labels(a).contains(host) <==> labels(b).contains(host) by {
        assert(history.contains_key(host) <==> labels(a).contains(host));
    }
    ascending_list_is_determined_by_its_names(labels(a), labels(b));
    assert forall|i: int| 0 <= i < a.len() implies {
        &&& (#[trigger] a[i]).label@ == b[i].label@
        &&& a[i].points@ == b[i].points@
    } by {
        assert(labels(a)[i] == labels(b)[i]);
        assert(placed(a[i].points@, history[a[i].label@], place));
        assert(placed(b[i].points@, history[b[i].label@], place));
        assert forall|k: int| 0 <= k < a[i].points@.len() implies a[i].points@[k]
            == b[i].points@[k] by {
            assert(a[i].points@[k].0 == b[i].points@[k].0);
        }
        assert(a[i].points@ =~= b[i].points@);
    }
}

/// A host has the same colour on the page of hosts and in the real-time chart.
pub proof fn a_host_has_one_colour<F, G>(
    rows: Seq<HostRow<F>>,
    series: Seq<ChartSeries<G>>,
    collector: CollectorView<F, G>,
    place: spec_fn(int, Sample<G>) -> int,
)
    requires
        collector.consistent(),
        shows_hosts(rows, collector.state),
        shows_history(series, collector.realtime, place),
    ensures
        rows.len() == series.len(),
        forall|i: int|
            0 <= i < rows.len() ==> (#[trigger] rows[i]).hostname@ == series[i].label@
                && rows[i].color == series[i].color,
{
    assert forall|host: Seq<char>|
        row_names(rows).contains(host) <==> labels(series).contains(host) by {
        assert(collector.state.contains_key(host) <==> row_names(rows).contains(host));
        assert(collector.realtime.contains_key(host) <==> labels(series).contains(host));
    }
    ascending_list_is_determined_by_its_names(row_names(rows), labels(series));
    assert forall|i: int| 0 <= i < rows.len() implies (#[trigger] rows[i]).hostname@
        == series[i].label@ && rows[i].color == series[i].color by {
        assert(row_names(rows)[i] == labels(series)[i]);
    }
}

/// Every sample of every host has its point. The line of a host has as many
/// points as the host has samples, point `k` carries the value of sample `k`,
/// and so the newest sample is the last point of its line. Every line is that
/// of a host, no host has two lines, and each point stands where it is put.
pub proof fn every_sample_has_its_point<G>(
    series: Seq<ChartSeries<G>>,
    history: Map<Seq<char>, Seq<Sample<G>>>,
    place: spec_fn(int, Sample<G>) -> int,
)
    requires
        shows_history(series, history, place),
    ensures
        forall|host: Seq<char>| #[trigger]
            history.contains_key(host) ==> exists|i: int|
                0 <= i < series.len() && (#[trigger] series[i]).label@ == host,
        forall|i: int|
            0 <= i < series.len() ==> {
                let samples = history[(#[trigger] series[i]).label@];
                &&& history.contains_key(series[i].label@)
                &&& series[i].points@.len() == samples.len()
                &&& samples.len() > 0 ==> series[i].points@[series[i].points@.len() - 1].1
                    == samples[samples.len() - 1].value
            },
        forall|i: int, k: int|
            0 <= i < series.len() && 0 <= k < series[i].points@.len() ==> {
                let sample = history[series[i].label@][k];
                &&& (#[trigger] series[i].points@[k]).0 == place(k, sample)
                &&& series[i].points@[k].1 == sample.value
            },
        forall|i: int, j: int|
            0 <= i < j < series.len() ==> (#[trigger] series[i]).label@ != (
            #[trigger] series[j]).label@ && name_before(series[i].label@, series[j].label@),
{
    assert forall|host: Seq<char>| #[trigger] history.contains_key(host) implies exists|i: int|
        0 <= i < series.len() && (#[trigger] series[i]).label@ == host by {
        assert(labels(series).contains(host));
        let i = choose|i: int| 0 <= i < labels(series).len() && labels(series)[i] == host;
        assert(series[i].label@ == host);
    }
    assert forall|i: int| 0 <= i < series.len() implies {
        let samples = history[(#[trigger] series[i]).label@];
        &&& history.contains_key(series[i].label@)
        &&& series[i].points@.len() == samples.len()
        &&& samples.len() > 0 ==> series[i].points@[series[i].points@.len() - 1].1
            == samples[samples.len() - 1].value
    } by {
        assert(labels(series)[i] == series[i].label@);
        assert(labels(series).contains(series[i].label@));
        assert(placed(series[i].points@, history[series[i].label@], place));
    }
    assert forall|i: int, k: int|
        0 <= i < series.len() && 0 <= k < series[i].points@.len() implies {
        let sample = history[series[i].label@][k];
        &&& (#[trigger] series[i].points@[k]).0 == place(k, sample)
        &&& series[i].points@[k].1 == sample.value
    } by {
        assert(placed(series[i].points@, history[series[i].label@], place));
    }
    assert forall|i: int, j: int| 0 <= i < j < series.len() implies (
    #[trigger] series[i]).label@ != (#[trigger] series[j]).label@ && name_before(
        series[i].label@,
        series[j].label@,
    ) by {
        assert(name_before(labels(series)[i], labels(series)[j]));
        name_order_is_irreflexive(series[i].label@);
    }
}

/// Every host that has reported has its row, with its memory and each of its
/// cores: as many as it reported, in their order, each with its number and its
/// load. Every row is that of a host, and no host has two.
pub proof fn every_host_has_its_row<F>(
    rows: Seq<HostRow<F>>,
    state: Map<Seq<char>, MetricsView<F>>,
)
    requires
        shows_hosts(rows, state),
    ensures
        forall|host: Seq<char>| #[trigger]
            state.contains_key(host) ==> exists|i: int|
                0 <= i < rows.len() && (#[trigger] rows[i]).hostname@ == host,
        forall|i: int|
            0 <= i < rows.len() ==> {
                let report = state[(#[trigger] rows[i]).hostname@];
                &&& state.contains_key(rows[i].hostname@)
                &&& rows[i].memory_gb == report.memory_usage
                &&& rows[i].cores@.len() == report.cores.len()
            },
        forall|i: int, c: int|
            0 <= i < rows.len() && 0 <= c < rows[i].cores@.len() ==> {
                let report = state[rows[i].hostname@];
                &&& (#[trigger] rows[i].cores@[c]).0 == report.cores[c].core_id
                &&& rows[i].cores@[c].1 == report.cores[c].usage
            },
        forall|i: int, j: int|
            0 <= i < j < rows.len() ==> (#[trigger] rows[i]).hostname@ != (
            #[trigger] rows[j]).hostname@ && name_before(rows[i].hostname@, rows[j].hostname@),
{
    assert forall|host: Seq<char>| #[trigger] state.contains_key(host) implies exists|i: int|
        0 <= i < rows.len() && (#[trigger] rows[i]).hostname@ == host by {
        assert(row_names(rows).contains(host));
        let i = choose|i: int| 0 <= i < row_names(rows).len() && row_names(rows)[i] == host;
        assert(rows[i].hostname@ == host);
    }
    assert forall|i: int| 0 <= i < rows.len() implies {
        let report = state[(#[trigger] rows[i]).hostname@];
        &&& state.contains_key(rows[i].hostname@)
        &&& rows[i].memory_gb == report.memory_usage
        &&& rows[i].cores@.len() == report.cores.len()
    } by {
        assert(row_names(rows)[i] == rows[i].hostname@);
        assert(row_names(rows).contains(rows[i].hostname@));
    }
    assert forall|i: int, j: int| 0 <= i < j < rows.len() implies (
    #[trigger] rows[i]).hostname@ != (#[trigger] rows[j]).hostname@ && name_before(
        rows[i].hostname@,
        rows[j].hostname@,
    ) by {
        assert(name_before(row_names(rows)[i], row_names(rows)[j]));
        name_order_is_irreflexive(rows[i].hostname@);
    }
}

/// The four colours come in one order and over and over, on the page of hosts and
/// in a chart alike.
pub proof fn colours_come_round<F, G>(
    rows: Seq<HostRow<F>>,
    state: Map<Seq<char>, MetricsView<F>>,
    series: Seq<ChartSeries<G>>,
    history: Map<Seq<char>, Seq<Sample<G>>>,
    place: spec_fn(int, Sample<G>) -> int,
    round: int,
)
    requires
        shows_hosts(rows, state),
        shows_history(series, history, place),
        round >= 0,
    ensures
        neon(4 * round) == Color::Rgb(173, 255, 47),
        neon(4 * round + 1) == Color::Rgb(255, 0, 255),
        neon(4 * round + 2) == Color::Rgb(0, 255, 255),
        neon(4 * round + 3) == Color::Rgb(157, 0, 255),
        forall|i: int| 0 <= i < rows.len() ==> (#[trigger] rows[i]).color == neon(i),
        forall|i: int| 0 <= i < series.len() ==> (#[trigger] series[i]).color == neon(i),
{
}

/// In the real-time chart a sample stands to the right of the left edge by sixty
/// seconds less its age.
pub proof fn a_sample_moves_left_as_it_ages(at: Timestamp, now: Timestamp)
    ensures
        realtime_place(at, now) == 60_000_000_000 - ((now.secs - at.secs) * 1_000_000_000 + (
        now.nanos - at.nanos)),
{
}

/// The right edge of the minute chart is the number of the newest sample of the
/// host that has most of them, and 1 where no host has more than two.
pub proof fn the_minute_chart_is_as_wide_as_its_longest_line<G>(
    series: Seq<ChartSeries<G>>,
    history: Map<Seq<char>, Seq<Sample<G>>>,
    place: spec_fn(int, Sample<G>) -> int,
    max_x: int,
)
    requires
        shows_history(series, history, place),
        right_edge(series, max_x),
    ensures
        max_x >= 1,
        forall|host: Seq<char>| #[trigger]
            history.contains_key(host) ==> history[host].len() - 1 <= max_x,
        max_x > 1 ==> exists|host: Seq<char>| #[trigger]
            history.contains_key(host) && history[host].len() - 1 == max_x,
{
    every_sample_has_its_point(series, history, place);
    assert forall|host: Seq<char>| #[trigger]
        history.contains_key(host) implies history[host].len() - 1 <= max_x by {
        let i = choose|i: int| 0 <= i < series.len() && (#[trigger] series[i]).label@ == host;
        assert(series[i].points@.len() <= max_x + 1);
    }
    if max_x > 1 {
        let i = choose|i: int|
            0 <= i < series.len() && (#[trigger] series[i]).points@.len() == max_x + 1;
        assert(history.contains_key(series[i].label@));
    }
}

/// A sample lies within the real-time chart if and only if it is no older than
/// the chart is wide and does not lie in the future. One taken now lies on the
/// right edge, and of two samples the later one lies further to the right.
pub proof fn the_chart_shows_the_last_while(a: Timestamp, b: Timestamp, now: Timestamp)
    ensures
        ({
            let width = REALTIME_MAX_POINTS * NANOS_PER_SECOND;
            &&& 0 <= realtime_place(a, now) <= width <==> now.since_epoch() - width
                <= a.since_epoch() <= now.since_epoch()
            &&& realtime_place(now, now) == width
            &&& realtime_place(a, now) < realtime_place(b, now) <==> a.since_epoch()
                < b.since_epoch()
        }),
{
}

/// As time goes by, a sample moves to the left at the pace of the clock.
pub proof fn samples_move_to_the_left(at: Timestamp, earlier: Timestamp, later: Timestamp)
    ensures
        realtime_place(at, earlier) - realtime_place(at, later) == later.since_epoch()
            - earlier.since_epoch(),
{
}

/// All points of the minute chart lie between its edges.
pub proof fn minute_points_lie_within_the_chart<G>(
    series: Seq<ChartSeries<G>>,
    history: Map<Seq<char>, Seq<Sample<G>>>,
    max_x: int,
    i: int,
    k: int,
)
    requires
        shows_history(series, history, |k: int, sample: Sample<G>| k),
        right_edge(series, max_x),
        0 <= i < series.len(),
        0 <= k < series[i].points@.len(),
    ensures
        0 <= series[i].points@[k].0 <= max_x,
{
}

/// Samples in the order of their times run from left to right in the real-time chart.
pub proof fn realtime_points_run_from_old_to_new<G>(
    points: Seq<(i128, G)>,
    samples: Seq<Sample<G>>,
    now: Timestamp,
    i: int,
    j: int,
)
    requires
        placed(points, samples, |k: int, sample: Sample<G>| realtime_place(sample.at, now)),
        chronological(samples),
        0 <= i <= j < points.len(),
    ensures
        points[i].0 <= points[j].0,
{
    if i < j {
        assert(samples[i].at.since_epoch() <= samples[j].at.since_epoch());
    }
}

/// Of samples in the order of their times, the ones further to the left in the
/// minute chart are no newer.
pub proof fn minute_points_run_from_old_to_new<G>(
    points: Seq<(i128, G)>,
    samples: Seq<Sample<G>>,
    i: int,
    j: int,
)
    requires
        placed(points, samples, |k: int, sample: Sample<G>| k),
        chronological(samples),
        0 <= i < points.len(),
        0 <= j < points.len(),
        points[i].0 < points[j].0,
    ensures
        samples[i].at.since_epoch() <= samples[j].at.since_epoch(),
{
}

/// The rows of the page of hosts.
fn host_rows<F: Copy>(state: &HostMap<MetricsRequest<F>>) -> (rows: Vec<HostRow<F>>)
    requires
        state.wf(),
        keyed(reports(state@)),
    ensures
        shows_hosts(rows@, reports(state@)),
{
    let mut rows: Vec<HostRow<F>> = Vec::new();
    let mut i: usize = 0;
    proof {
        state.names_are_the_domain();
    }
    while i < state.len()
        invariant
            state.wf(),
            keyed(reports(state@)),
            forall|host: Seq<char>| #[trigger]
                state@.contains_key(host) <==> state.names().contains(host),
            i <= state.names().len(),
            rows@.len() == i,
            forall|k: int|
                0 <= k < i ==> {
                    let report = reports(state@)[state.names()[k]];
                    &&& (#[trigger] rows@[k]).hostname@ == state.names()[k]
                    &&& rows@[k].color == neon(k)
                    &&& rows@[k].memory_gb == report.memory_usage
                    &&& rows@[k].cores@ == report.cores.map_values(
                        |core: CoreData<F>| (core.core_id, core.usage),
                    )
                },
        decreases state.names().len() - i,
    {
        let report = state.value_at(i);
        let mut cores: Vec<(u32, F)> = Vec::new();
        let mut c: usize = 0;
        while c < report.cores.len()
            invariant
                c <= report.cores.len(),
                cores@.len() == c,
                forall|k: int|
                    0 <= k < c ==> #[trigger] cores@[k] == (
                        report.cores@[k].core_id,
                        report.cores@[k].usage,
                    ),
            decreases report.cores.len() - c,
        {
            cores.push((report.cores[c].core_id, report.cores[c].usage));
            c += 1;
        }
        proof {
            let host = state.names()[i as int];
            assert(state.names().contains(host));
            assert(reports(state@).contains_key(host));
            assert(reports(state@)[host] == report@);
            assert(cores@ =~= report@.cores.map_values(
                |core: CoreData<F>| (core.core_id, core.usage),
            ));
        }
        rows.push(
            HostRow {
                color: neon_color(i),
                hostname: report.hostname.clone(),
                memory_gb: report.memory_usage,
                cores,
            },
        );
        i += 1;
    }
    proof {
        assert(row_names(rows@) =~= state.names());
    }
    rows
}

/// The series of the real-time chart at `now`.
fn realtime_series<G: Copy>(history: &History<G>, now: &Timestamp) -> (series: Vec<ChartSeries<G>>)
    requires
        history.wf(),
    ensures
        shows_history(
            series@,
            history@,
            |k: int, sample: Sample<G>| realtime_place(sample.at, *now),
        ),
        forall|i: int|
            0 <= i < series@.len() ==> history@.contains_key(
                (#[trigger] series@[i]).label@,
            ) && series@[i].points@.len() == history@[series@[i].label@].len(),
        forall|i: int, k: int|
            0 <= i < series@.len() && 0 <= k < series@[i].points@.len()
                ==> (#[trigger] series@[i].points@[k]).1
                == history@[series@[i].label@][k].value,
        forall|host: Seq<char>| #[trigger]
            history@.contains_key(host) ==> exists|i: int|
                0 <= i < series@.len() && (#[trigger] series@[i]).label@ == host,
{
    let ghost place = |k: int, sample: Sample<G>| realtime_place(sample.at, *now);
    let mut series: Vec<ChartSeries<G>> = Vec::new();
    let mut i: usize = 0;
    proof {
        history.names_are_the_domain();
    }
    while i < history.len()
        invariant
            history.wf(),
            place == (|k: int, sample: Sample<G>| realtime_place(sample.at, *now)),
            i <= history.names().len(),
            series@.len() == i,
            forall|j: int|
                0 <= j < i ==> {
                    &&& (#[trigger] series@[j]).label@ == history.names()[j]
                    &&& series@[j].color == neon(j)
                    &&& placed(series@[j].points@, history@[history.names()[j]], place)
                },
        decreases history.names().len() - i,
    {
        let samples = history.points_at(i);
        let mut points: Vec<(i128, G)> = Vec::new();
        let mut s: usize = 0;
        while s < samples.len()
            invariant
                s <= samples.len(),
                points@.len() == s,
                forall|k: int|
                    0 <= k < s ==> (#[trigger] points@[k]).0 == realtime_place(
                        samples@[k].at,
                        *now,
                    ) && points@[k].1 == samples@[k].value,
            decreases samples.len() - s,
        {
            let after_now: i128 = samples[s].at.nanos_after(now);
            points.push(
                (after_now + REALTIME_MAX_POINTS as i128 * NANOS_PER_SECOND, samples[s].value),
            );
            s += 1;
        }
        series.push(
            ChartSeries { color: neon_color(i), label: history.host_at(i).clone(), points },
        );
        i += 1;
    }
    assert(labels(series@) =~= history.names());
    proof {
        every_sample_has_its_point(series@, history@, place);
    }
    series
}

/// The series of the minute chart, and its right edge.
fn minute_series<G: Copy>(history: &History<G>) -> (drawn: (Vec<ChartSeries<G>>, usize))
    requires
        history.wf(),
    ensures
        shows_history(drawn.0@, history@, |k: int, sample: Sample<G>| k),
        right_edge(drawn.0@, drawn.1 as int),
        forall|i: int|
            0 <= i < drawn.0@.len() ==> history@.contains_key(
                (#[trigger] drawn.0@[i]).label@,
            ) && drawn.0@[i].points@.len() == history@[drawn.0@[i].label@].len(),
        forall|i: int, k: int|
            0 <= i < drawn.0@.len() && 0 <= k < drawn.0@[i].points@.len()
                ==> (#[trigger] drawn.0@[i].points@[k]).1
                == history@[drawn.0@[i].label@][k].value,
        forall|host: Seq<char>| #[trigger]
            history@.contains_key(host) ==> exists|i: int|
                0 <= i < drawn.0@.len() && (#[trigger] drawn.0@[i]).label@ == host,
{
    let ghost place = |k: int, sample: Sample<G>| k;
    let mut series: Vec<ChartSeries<G>> = Vec::new();
    let mut max_x: usize = 1;
    let mut i: usize = 0;
    proof {
        history.names_are_the_domain();
    }
    while i < history.len()
        invariant
            history.wf(),
            place == (|k: int, sample: Sample<G>| k),
            i <= history.names().len(),
            series@.len() == i,
            right_edge(series@, max_x as int),
            forall|j: int|
                0 <= j < i ==> {
                    &&& (#[trigger] series@[j]).label@ == history.names()[j]
                    &&& series@[j].color == neon(j)
                    &&& placed(series@[j].points@, history@[history.names()[j]], place)
                },
        decreases history.names().len() - i,
    {
        let samples = history.points_at(i);
        let mut points: Vec<(i128, G)> = Vec::new();
        let mut s: usize = 0;
        while s < samples.len()
            invariant
                s <= samples.len(),
                points@.len() == s,
                forall|k: int|
                    0 <= k < s ==> (#[trigger] points@[k]).0 == k && points@[k].1
                        == samples@[k].value,
            decreases samples.len() - s,
        {
            points.push((s as i128, samples[s].value));
            s += 1;
        }
        let ghost before = series@;
        let ghost edge = max_x;
        if points.len() > 0 && points.len() - 1 > max_x {
            max_x = points.len() - 1;
        }
        series.push(
            ChartSeries { color: neon_color(i), label: history.host_at(i).clone(), points },
        );
        proof {
            assert(series@[i as int].points@.len() <= max_x + 1);
            assert forall|j: int| 0 <= j < series@.len() implies (
            #[trigger] series@[j]).points@.len() <= max_x + 1 by {
                if j < i {
                    assert(series@[j] == before[j]);
                }
            }
            if max_x == edge && max_x != 1 {
                let j = choose|j: int|
                    0 <= j < before.len() && (#[trigger] before[j]).points@.len() == max_x + 1;
                assert(series@[j] == before[j]);
            }
        }
        i += 1;
    }
    assert(labels(series@) =~= history.names());
    proof {
        every_sample_has_its_point(series@, history@, place);
    }
    (series, max_x)
}

impl<F, G> RenderState<F, G> {
    /// Nothing to draw.
    pub fn empty() -> (drawn: Self)
        ensures
            drawn.hosts@.len() == 0,
            drawn.realtime@.len() == 0,
            drawn.realtime_max_x == REALTIME_MAX_POINTS,
            drawn.realtime_max_x == 60,
            drawn.minute@.len() == 0,
            drawn.minute_max_x == 1,
    {
        RenderState {
            hosts: Vec::new(),
            realtime: Vec::new(),
            realtime_max_x: REALTIME_MAX_POINTS,
            minute: Vec::new(),
            minute_max_x: 1,
        }
    }
}

impl<F: Copy, G: Copy> RenderState<F, G> {
    /// What is to be drawn at `now`.
    pub fn refresh(
        state: &HostMap<MetricsRequest<F>>,
        realtime_history: &History<G>,
        minute_history: &History<G>,
        now: &Timestamp,
    ) -> (drawn: Self)
        requires
            state.wf(),
            keyed(reports(state@)),
            realtime_history.wf(),
            minute_history.wf(),
        ensures
            shows_hosts(drawn.hosts@, reports(state@)),
            shows_history(
                drawn.realtime@,
                realtime_history@,
                |k: int, sample: Sample<G>| realtime_place(sample.at, *now),
            ),
            drawn.realtime_max_x == REALTIME_MAX_POINTS,
            drawn.realtime_max_x == 60,
            shows_history(
                drawn.minute@,
                minute_history@,
                |k: int, sample: Sample<G>| k,
            ),
            right_edge(drawn.minute@, drawn.minute_max_x as int),
            forall|i: int|
                0 <= i < drawn.realtime@.len() ==> realtime_history@.contains_key(
                    (#[trigger] drawn.realtime@[i]).label@,
                ) && drawn.realtime@[i].points@.len()
                    == realtime_history@[drawn.realtime@[i].label@].len(),
            forall|i: int, k: int|
                0 <= i < drawn.realtime@.len() && 0 <= k < drawn.realtime@[i].points@.len()
                    ==> (#[trigger] drawn.realtime@[i].points@[k]).1
                    == realtime_history@[drawn.realtime@[i].label@][k].value,
            forall|host: Seq<char>| #[trigger]
                realtime_history@.contains_key(host) ==> exists|i: int|
                    0 <= i < drawn.realtime@.len() && (#[trigger] drawn.realtime@[i]).label@
                        == host,
            forall|i: int, k: int|
                0 <= i < drawn.realtime@.len() && 0 <= k < drawn.realtime@[i].points@.len() ==> (
                #[trigger] drawn.realtime@[i].points@[k]).0 == {
                    let at = realtime_history@[drawn.realtime@[i].label@][k].at;
                    (at.secs - now.secs) * 1_000_000_000 + at.nanos - now.nanos + 60_000_000_000
                },
            forall|i: int|
                0 <= i < drawn.minute@.len() ==> minute_history@.contains_key(
                    (#[trigger] drawn.minute@[i]).label@,
                ) && drawn.minute@[i].points@.len()
                    == minute_history@[drawn.minute@[i].label@].len(),
            forall|i: int, k: int|
                0 <= i < drawn.minute@.len() && 0 <= k < drawn.minute@[i].points@.len()
                    ==> (#[trigger] drawn.minute@[i].points@[k]).1
                    == minute_history@[drawn.minute@[i].label@][k].value,
            forall|host: Seq<char>| #[trigger]
                minute_history@.contains_key(host) ==> exists|i: int|
                    0 <= i < drawn.minute@.len() && (#[trigger] drawn.minute@[i]).label@ == host,
            forall|i: int, k: int|
                0 <= i < drawn.minute@.len() && 0 <= k < drawn.minute@[i].points@.len() ==> (
                #[trigger] drawn.minute@[i].points@[k]).0 == k,
            forall|host: Seq<char>| #[trigger]
                state@.contains_key(host) ==> exists|i: int|
                    0 <= i < drawn.hosts@.len() && (#[trigger] drawn.hosts@[i]).hostname@ == host,
            forall|i: int|
                0 <= i < drawn.hosts@.len() ==> {
                    let report = state@[(#[trigger] drawn.hosts@[i]).hostname@];
                    &&& state@.contains_key(drawn.hosts@[i].hostname@)
                    &&& drawn.hosts@[i].memory_gb == report.memory_usage
                    &&& drawn.hosts@[i].cores@.len() == report.cores@.len()
                },
            forall|i: int, c: int|
                0 <= i < drawn.hosts@.len() && 0 <= c < drawn.hosts@[i].cores@.len() ==> {
                    let report = state@[drawn.hosts@[i].hostname@];
                    &&& (#[trigger] drawn.hosts@[i].cores@[c]).0 == report.cores@[c].core_id
                    &&& drawn.hosts@[i].cores@[c].1 == report.cores@[c].usage
                },
    {
        let hosts = host_rows(state);
        let realtime = realtime_series(realtime_history, now);
        let (minute, minute_max_x) = minute_series(minute_history);
        proof {
            every_host_has_its_row(hosts@, reports(state@));
            assert forall|host: Seq<char>| #[trigger]
                state@.contains_key(host) implies exists|i: int|
                0 <= i < hosts@.len() && (#[trigger] hosts@[i]).hostname@ == host by {
                assert(reports(state@).contains_key(host));
            }
        }
        RenderState {
            hosts,
            realtime,
            realtime_max_x: REALTIME_MAX_POINTS,
            minute,
            minute_max_x,
        }
    }
}

} // verus!
