//! The samples that are kept of each host, at most so many.

use crate::hosts::HostMap;
use crate::metrics::Sample;
use vstd::prelude::*;

verus! {

/// How many samples of a host the real-time chart keeps.
pub const REALTIME_MAX_POINTS: usize = 60;

/// How many samples of a host the minute chart keeps.
pub const MINUTE_MAX_POINTS: usize = 20;

/// `points` with `sample` at its end, and without its first one where that
/// makes more than `max`.
pub open spec fn retained<S>(points: Seq<S>, sample: S, max: nat) -> Seq<S> {
    let longer = points.push(sample);
    if longer.len() > max {
        longer.drop_first()
    } else {
        longer
    }
}

/// `points` after each sample of `log` was retained in turn.
pub open spec fn replayed<S>(points: Seq<S>, log: Seq<S>, max: nat) -> Seq<S>
    decreases log.len(),
{
    if log.len() == 0 {
        points
    } else {
        retained(replayed(points, log.drop_last(), max), log.last(), max)
    }
}

/// The last `max` items of `all`, or all of them where there are fewer.
pub open spec fn last_of<S>(all: Seq<S>, max: nat) -> Seq<S> {
    if all.len() <= max {
        all
    } else {
        all.skip(all.len() - max)
    }
}

/// Whatever was retained, in whatever number, what is kept is the last `max`
/// samples, in the order in which they came.
pub proof fn replaying_keeps_the_last_ones<S>(points: Seq<S>, log: Seq<S>, max: nat)
    requires
        points.len() <= max,
    ensures
        replayed(points, log, max) == last_of(points + log, max),
    decreases log.len(),
{
    if log.len() == 0 {
        assert(points + log =~= points);
    } else {
        let rest = log.drop_last();
        replaying_keeps_the_last_ones(points, rest, max);
        assert(points + log =~= (points + rest).push(log.last()));
        assert(replayed(points, log, max) =~= last_of(points + log, max));
    }
}

/// The samples of `points` are in the order of their times.
pub open spec fn chronological<G>(points: Seq<Sample<G>>) -> bool {
    forall|i: int, j: int|
        0 <= i < j < points.len() ==> (#[trigger] points[i]).at.since_epoch() <= (
        #[trigger] points[j]).at.since_epoch()
}

/// A sample that is no older than those before it leaves them in the order of their times.
pub proof fn retaining_a_newer_sample_keeps_the_order<G>(
    points: Seq<Sample<G>>,
    sample: Sample<G>,
    max: nat,
)
    requires
        chronological(points),
        points.len() > 0 ==> points.last().at.since_epoch() <= sample.at.since_epoch(),
    ensures
        chronological(retained(points, sample, max)),
{
}

/// None of `points` is later than `time`, in nanoseconds since the Unix epoch.
pub open spec fn none_after<G>(points: Seq<Sample<G>>, time: int) -> bool {
    forall|i: int|
        0 <= i < points.len() ==> (#[trigger] points[i]).at.since_epoch() <= time
}

/// The samples of each host, in the order in which they came.
pub struct History<G> {
    map: HostMap<Vec<Sample<G>>>,
}

impl<G> View for History<G> {
    type V = Map<Seq<char>, Seq<Sample<G>>>;

    closed spec fn view(&self) -> Map<Seq<char>, Seq<Sample<G>>> {
        self.map@.map_values(|points: Vec<Sample<G>>| points@)
    }
}

/// What `history` holds of `host`: nothing where it does not know the host.
pub open spec fn points_of<G>(history: Map<Seq<char>, Seq<Sample<G>>>, host: Seq<char>) -> Seq<
    Sample<G>,
> {
    if history.contains_key(host) {
        history[host]
    } else {
        Seq::empty()
    }
}

/// `history` after `sample` of `host` was retained.
pub open spec fn with_sample<G>(
    history: Map<Seq<char>, Seq<Sample<G>>>,
    host: Seq<char>,
    sample: Sample<G>,
    max: nat,
) -> Map<Seq<char>, Seq<Sample<G>>> {
    history.insert(host, retained(points_of(history, host), sample, max))
}

/// `history` after `sample` was put at the end of those of `host`.
pub open spec fn with_appended<G>(
    history: Map<Seq<char>, Seq<Sample<G>>>,
    host: Seq<char>,
    sample: Sample<G>,
) -> Map<Seq<char>, Seq<Sample<G>>> {
    history.insert(host, points_of(history, host).push(sample))
}

/// No host has more than `max` samples.
pub open spec fn bounded<G>(history: Map<Seq<char>, Seq<Sample<G>>>, max: nat) -> bool {
    forall|host: Seq<char>| #[trigger]
        history.contains_key(host) ==> history[host].len() <= max
}

/// A history that holds at most `max` samples of each host does so after each
/// further sample.
pub proof fn retaining_keeps_the_bound<G>(
    history: Map<Seq<char>, Seq<Sample<G>>>,
    host: Seq<char>,
    sample: Sample<G>,
    max: nat,
)
    requires
        bounded(history, max),
    ensures
        bounded(with_sample(history, host, sample, max), max),
{
}

/// Samples of one host do not touch those of another one, so in whichever
/// order two hosts are sampled the history is the same.
pub proof fn samples_of_two_hosts_commute<G>(
    history: Map<Seq<char>, Seq<Sample<G>>>,
    a: Seq<char>,
    x: Sample<G>,
    b: Seq<char>,
    y: Sample<G>,
    max: nat,
)
    requires
        a != b,
    ensures
        with_sample(with_sample(history, a, x, max), b, y, max) == with_sample(
            with_sample(history, b, y, max),
            a,
            x,
            max,
        ),
{
    assert(with_sample(with_sample(history, a, x, max), b, y, max) =~= with_sample(
        with_sample(history, b, y, max),
        a,
        x,
        max,
    ));
}

impl<G> History<G> {
    /// The hosts in ascending order.
    pub closed spec fn names(&self) -> Seq<Seq<char>> {
        self.map.names()
    }

    /// The history holds each host once.
    pub closed spec fn wf(&self) -> bool {
        self.map.wf()
    }

    /// The hosts of a well-formed history ascend, each of them once.
    pub proof fn names_are_the_domain(&self)
        requires
            self.wf(),
        ensures
            crate::hosts::ascending(self.names()),
            forall|k: Seq<char>| #[trigger] self@.contains_key(k) <==> self.names().contains(k),
    {
        self.map.names_are_the_domain();
    }

    /// A history without hosts.
    pub fn new() -> (history: Self)
        ensures
            history.wf(),
            history@ == Map::<Seq<char>, Seq<Sample<G>>>::empty(),
    {
        let history = History { map: HostMap::new() };
        assert(history@ =~= Map::<Seq<char>, Seq<Sample<G>>>::empty());
        history
    }

    /// How many hosts the history knows.
    pub fn len(&self) -> (n: usize)
        requires
            self.wf(),
        ensures
            n == self.names().len(),
    {
        self.map.len()
    }

    /// The `i`-th host.
    pub fn host_at(&self, i: usize) -> (name: &String)
        requires
            self.wf(),
            i < self.names().len(),
        ensures
            name@ == self.names()[i as int],
            self@.contains_key(name@),
    {
        self.map.name_at(i)
    }

    /// The samples of the `i`-th host.
    pub fn points_at(&self, i: usize) -> (points: &Vec<Sample<G>>)
        requires
            self.wf(),
            i < self.names().len(),
        ensures
            points@ == self@[self.names()[i as int]],
    {
        proof {
            self.map.names_are_the_domain();
            assert(self.map.names().contains(self.names()[i as int]));
        }
        self.map.value_at(i)
    }

    /// The samples of `host`, if the history knows it.
    pub fn get(&self, host: &str) -> (points: Option<&Vec<Sample<G>>>)
        requires
            self.wf(),
        ensures
            points is Some <==> self@.contains_key(host@),
            points is Some ==> (*points->0)@ == self@[host@],
    {
        self.map.get(host)
    }

    /// Adds `sample` to those of `host`, and forgets the oldest one where that
    /// makes more than `max`.
    pub fn record(&mut self, host: &String, sample: Sample<G>, max: usize)
        requires
            old(self).wf(),
        ensures
            final(self).wf(),
            final(self)@ == with_sample(old(self)@, host@, sample, max as nat),
    {
        let mut points: Vec<Sample<G>> = match self.map.remove(host.as_str()) {
            Some(points) => points,
            None => Vec::new(),
        };
        points.push(sample);
        if points.len() > max {
            points.remove(0);
        }
        let ghost kept = points@;
        self.map.insert(host.clone(), points);
        proof {
            assert(kept =~= retained(points_of(old(self)@, host@), sample, max as nat));
            assert(self@ =~= with_sample(old(self)@, host@, sample, max as nat));
        }
    }

    /// Puts `sample` at the end of those of `host`.
    pub fn append(&mut self, host: &String, sample: Sample<G>)
        requires
            old(self).wf(),
        ensures
            final(self).wf(),
            final(self)@ == with_appended(old(self)@, host@, sample),
    {
        let mut points: Vec<Sample<G>> = match self.map.remove(host.as_str()) {
            Some(points) => points,
            None => Vec::new(),
        };
        points.push(sample);
        self.map.insert(host.clone(), points);
        proof {
            assert(self@ =~= with_appended(old(self)@, host@, sample));
        }
    }
}

/// What is retained is what was there and the new sample behind it; where there
/// is no room left, all samples move up by one and only the oldest one goes.
pub proof fn retaining_forgets_only_the_oldest<S>(points: Seq<S>, sample: S, max: nat)
    ensures
        ({
            let kept = retained(points, sample, max);
            &&& kept.len() > 0 ==> kept[kept.len() - 1] == sample
            &&& points.len() < max ==> {
                &&& kept.len() == points.len() + 1
                &&& forall|k: int| 0 <= k < points.len() ==> #[trigger] kept[k] == points[k]
            }
            &&& points.len() >= max ==> {
                &&& kept.len() == points.len()
                &&& forall|k: int|
                    0 <= k < points.len() - 1 ==> #[trigger] kept[k] == points[k + 1]
            }
        }),
{
}

/// The last items of a list are a tail of it: counted from the end, each stands
/// where it stood, and there are `max` of them unless the list is shorter.
pub proof fn the_last_items_are_a_tail<S>(all: Seq<S>, max: nat, k: int)
    ensures
        last_of(all, max).len() == if all.len() < max {
            all.len()
        } else {
            max
        },
        0 <= k < last_of(all, max).len() ==> last_of(all, max)[last_of(all, max).len() - 1 - k]
            == all[all.len() - 1 - k],
{
}

/// What is held of a known host is its entry, and of an unknown one nothing.
pub proof fn unknown_hosts_have_no_samples<G>(
    history: Map<Seq<char>, Seq<Sample<G>>>,
    host: Seq<char>,
)
    ensures
        history.contains_key(host) ==> points_of(history, host) == history[host],
        !history.contains_key(host) ==> points_of(history, host).len() == 0,
{
}

/// A sample makes its host known, ends the samples of that host, and is found
/// in no other one's.
pub proof fn a_sample_joins_its_host_alone<G>(
    history: Map<Seq<char>, Seq<Sample<G>>>,
    host: Seq<char>,
    sample: Sample<G>,
    max: nat,
    other: Seq<char>,
)
    requires
        other != host,
    ensures
        ({
            let after = with_sample(history, host, sample, max);
            &&& after.contains_key(host)
            &&& after[host].len() > 0 ==> {
                &&& after[host][after[host].len() - 1].at == sample.at
                &&& after[host][after[host].len() - 1].value == sample.value
            }
            &&& !history.contains_key(host) && max > 0 ==> after[host].len() == 1
            &&& !history.contains_key(host) && max == 0 ==> after[host].len() == 0
            &&& history.contains_key(host) && history[host].len() < max ==> {
                &&& after[host].len() == history[host].len() + 1
                &&& forall|k: int|
                    0 <= k < history[host].len() ==> #[trigger] after[host][k] == history[host][k]
            }
            &&& history.contains_key(host) && history[host].len() >= max ==> {
                &&& after[host].len() == history[host].len()
                &&& forall|k: int|
                    0 <= k < history[host].len() - 1 ==> #[trigger] after[host][k]
                        == history[host][k + 1]
            }
            &&& after.contains_key(other) <==> history.contains_key(other)
            &&& history.contains_key(other) ==> after[other] == history[other]
        }),
{
    retaining_forgets_only_the_oldest(points_of(history, host), sample, max);
}

/// An appended sample stands behind all samples of its host, none of which goes,
/// and changes nothing of another host.
pub proof fn appending_forgets_nothing<G>(
    history: Map<Seq<char>, Seq<Sample<G>>>,
    host: Seq<char>,
    sample: Sample<G>,
    other: Seq<char>,
)
    requires
        other != host,
    ensures
        ({
            let after = with_appended(history, host, sample);
            &&& after.contains_key(host)
            &&& after[host].len() > 0
            &&& after[host][after[host].len() - 1].at == sample.at
            &&& after[host][after[host].len() - 1].value == sample.value
            &&& !history.contains_key(host) ==> after[host].len() == 1
            &&& history.contains_key(host) ==> {
                &&& after[host].len() == history[host].len() + 1
                &&& forall|k: int|
                    0 <= k < history[host].len() ==> #[trigger] after[host][k] == history[host][k]
            }
            &&& after.contains_key(other) <==> history.contains_key(other)
            &&& history.contains_key(other) ==> after[other] == history[other]
        }),
{
}

/// An item that `keep` keeps of a list stands, among all that are kept, behind
/// as many as are kept of what comes before it, and in front of as many as are
/// kept of what comes after it.
pub proof fn kept_items_stay_in_order<S>(all: Seq<S>, keep: spec_fn(S) -> bool, i: int)
    requires
        0 <= i < all.len(),
        keep(all[i]),
    ensures
        all.filter(keep).len() == all.take(i).filter(keep).len() + 1 + all.skip(i + 1).filter(
            keep,
        ).len(),
        all.filter(keep)[all.take(i).filter(keep).len() as int] == all[i],
{
    let before = all.take(i);
    let after = all.skip(i + 1);
    reveal(Seq::filter);
    assert(all =~= before.push(all[i]) + after);
    assert(before.push(all[i]).drop_last() =~= before);
    Seq::filter_distributes_over_add(before.push(all[i]), after, keep);
}

} // verus!
