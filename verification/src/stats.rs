//! Counting events, and keeping what was counted as series over the last
//! minutes, hours and days. Time is handed in by the caller, in nanoseconds
//! since the Unix epoch.

use vstd::prelude::*;
use vstd::string::*;
use std::collections::VecDeque;
use crate::text::has_prefix;

verus! {

/// The nanoseconds of one second.
pub const NANOS_PER_SECOND: i64 = 1_000_000_000;

/// The resolution of a series.
#[derive(Debug, Clone, Copy, PartialEq, Eq, Structural)]
pub enum TimeSeriesUnit {
    Minutely,
    Hourly,
    Daily,
}

impl TimeSeriesUnit {
    /// How many intervals a series of this resolution keeps.
    pub open spec fn length(self) -> nat {
        match self {
            TimeSeriesUnit::Minutely => 60,
            TimeSeriesUnit::Hourly => 24,
            TimeSeriesUnit::Daily => 30,
        }
    }

    /// How many intervals a series of this resolution keeps.
    pub fn len(&self) -> (r: usize)
        ensures
            r == self.length(),
    {
        match self {
            TimeSeriesUnit::Minutely => 60,
            TimeSeriesUnit::Hourly => 24,
            TimeSeriesUnit::Daily => 30,
        }
    }
}

/// The sum of two counts, which starts again from zero beyond the largest
/// count.
pub open spec fn wrapped_sum(a: u64, b: u64) -> u64 {
    vstd::wrapping::u64_specs::wrapping_add(a, b)
}

/// What a [`TimeSeriesData`] stands for: the counts of the latest intervals,
/// newest first, when the newest interval began, how many intervals are
/// kept and how long one lasts, in seconds.
pub struct SeriesView {
    pub data: Seq<u64>,
    pub last: Option<i64>,
    pub capacity: nat,
    pub interval_secs: int,
}

/// `data` with `val` as its newest count, cut to the `capacity` newest.
pub open spec fn pushed(data: Seq<u64>, val: u64, capacity: nat) -> Seq<u64> {
    let all = seq![val] + data;
    if all.len() > capacity {
        all.take(capacity as int)
    } else {
        all
    }
}

/// The counts after the intervals without data between `t` and `now` got a
/// zero each: one for each step while more than two steps lie between.
pub open spec fn filled_data(data: Seq<u64>, t: int, now: int, step: int, capacity: nat) -> Seq<u64>
    decreases now - t,
{
    if step > 0 && now - t > 2 * step {
        filled_data(pushed(data, 0, capacity), t + step, now, step, capacity)
    } else {
        data
    }
}

/// The start of the interval that is reached from `t` by whole steps while
/// more than two steps lie between it and `now`.
pub open spec fn filled_time(t: int, now: int, step: int) -> int
    decreases now - t,
{
    if step > 0 && now - t > 2 * step {
        filled_time(t + step, now, step)
    } else {
        t
    }
}

/// The series after the count `val` came in at the time `now`. The first
/// count opens the first interval. Later, after the gap is filled, the count
/// opens a new interval if more than one step has passed, and is added to
/// the newest interval otherwise.
pub open spec fn added(s: SeriesView, val: u64, now: i64) -> SeriesView {
    match s.last {
        None => SeriesView { data: pushed(s.data, val, s.capacity), last: Some(now), ..s },
        Some(start) => {
            let step = s.interval_secs * NANOS_PER_SECOND;
            let data = filled_data(s.data, start as int, now as int, step, s.capacity);
            let t = filled_time(start as int, now as int, step);
            if now - t > step {
                SeriesView {
                    data: pushed(data, val, s.capacity),
                    last: Some((t + step) as i64),
                    ..s
                }
            } else {
                SeriesView { data: data.update(0, wrapped_sum(data[0], val)), ..s }
            }
        },
    }
}

/// Whether a series can take counts: it keeps at least one interval of at
/// least one second, and holds a count once an interval has begun.
pub open spec fn series_wf(s: SeriesView) -> bool {
    &&& s.capacity >= 1
    &&& s.interval_secs >= 1
    &&& s.last is Some ==> s.data.len() >= 1
}

/// The counts of the latest intervals at one resolution.
#[derive(Debug)]
pub struct TimeSeriesData {
    data: VecDeque<u64>,
    last_interval_start: Option<i64>,
    capacity: usize,
    interval_secs: i64,
}

impl View for TimeSeriesData {
    type V = SeriesView;

    closed spec fn view(&self) -> SeriesView {
        SeriesView {
            data: self.data@,
            last: self.last_interval_start,
            capacity: self.capacity as nat,
            interval_secs: self.interval_secs as int,
        }
    }
}

impl TimeSeriesData {
    #[verifier::type_invariant]
    spec fn can_take_counts(&self) -> bool {
        series_wf(self@)
    }

    /// An empty series that keeps `capacity` intervals of `interval_secs`
    /// seconds each.
    fn new(capacity: usize, interval_secs: i64) -> (r: TimeSeriesData)
        requires
            capacity >= 1,
            interval_secs >= 1,
        ensures
            r@ == (SeriesView {
                data: Seq::empty(),
                last: None,
                capacity: capacity as nat,
                interval_secs: interval_secs as int,
            }),
    {
        TimeSeriesData {
            data: VecDeque::new(),
            last_interval_start: None,
            capacity,
            interval_secs,
        }
    }

    /// The series with the given state, if it can take counts.
    pub fn restore(
        data: Vec<u64>,
        last_interval_start: Option<i64>,
        capacity: usize,
        interval_secs: i64,
    ) -> (r: Option<TimeSeriesData>)
        ensures
            match r {
                Some(series) => series@ == (SeriesView {
                    data: data@,
                    last: last_interval_start,
                    capacity: capacity as nat,
                    interval_secs: interval_secs as int,
                }),
                None => !series_wf(
                    SeriesView {
                        data: data@,
                        last: last_interval_start,
                        capacity: capacity as nat,
                        interval_secs: interval_secs as int,
                    },
                ),
            },
    {
        if capacity < 1 || interval_secs < 1 {
            return None;
        }
        if last_interval_start.is_some() && data.len() == 0 {
            return None;
        }
        let mut queue: VecDeque<u64> = VecDeque::new();
        let mut i: usize = 0;
        while i < data.len()
            invariant
                i <= data.len(),
                queue@ == data@.take(i as int),
            decreases data.len() - i,
        {
            queue.push_back(data[i]);
            assert(queue@ =~= data@.take(i + 1));
            i += 1;
        }
        assert(data@.take(data.len() as int) =~= data@);
        Some(TimeSeriesData { data: queue, last_interval_start, capacity, interval_secs })
    }

    /// When the newest interval began.
    pub fn last_interval_start(&self) -> (r: Option<i64>)
        ensures
            r == self@.last,
    {
        self.last_interval_start
    }

    /// How many intervals are kept.
    pub fn capacity(&self) -> (r: usize)
        ensures
            r == self@.capacity,
            series_wf(self@),
    {
        proof {
            use_type_invariant(self);
        }
        self.capacity
    }

    /// How long an interval lasts, in seconds.
    pub fn interval_secs(&self) -> (r: i64)
        ensures
            r == self@.interval_secs,
    {
        self.interval_secs
    }

    /// The sum of the counts, which starts again from zero beyond the
    /// largest count.
    pub fn sum(&self) -> (r: u64)
        ensures
            r == wrapped_total(self@.data),
    {
        let mut total: u64 = 0;
        let mut i: usize = 0;
        assert(self.data@.take(0) =~= Seq::<u64>::empty());
        while i < self.data.len()
            invariant
                i <= self.data.len(),
                total == wrapped_total(self.data@.take(i as int)),
            decreases self.data.len() - i,
        {
            assert(self.data@.take(i + 1).drop_last() =~= self.data@.take(i as int));
            total = total.wrapping_add(self.data[i]);
            i += 1;
        }
        assert(self.data@.take(self.data.len() as int) =~= self.data@);
        total
    }

    /// The counts, newest first.
    pub fn get_data(&self) -> (r: Vec<u64>)
        ensures
            r@ == self@.data,
    {
        let mut out: Vec<u64> = Vec::new();
        let mut i: usize = 0;
        while i < self.data.len()
            invariant
                i <= self.data.len(),
                out@ == self.data@.take(i as int),
            decreases self.data.len() - i,
        {
            out.push(self.data[i]);
            assert(out@ =~= self.data@.take(i + 1));
            i += 1;
        }
        assert(self.data@.take(self.data.len() as int) =~= self.data@);
        out
    }

    /// Takes the count `val` at the time `now`.
    pub fn add_data(&mut self, val: u64, now: i64)
        ensures
            final(self)@ == added(old(self)@, val, now),
    {
        proof {
            use_type_invariant(&*self);
            lemma_added_wf(self@, val, now);
        }
        let ghost before = self@;
        let capacity = self.capacity;
        let interval_secs = self.interval_secs;
        let started = self.last_interval_start;
        // while the counts are out of the series, no interval has begun
        self.last_interval_start = None;
        let mut data: VecDeque<u64> = VecDeque::new();
        core::mem::swap(&mut self.data, &mut data);
        let last = match started {
            None => {
                push_capped(&mut data, val, capacity);
                now
            },
            Some(start) => shift_counts(&mut data, start, val, now, capacity, interval_secs),
        };
        core::mem::swap(&mut self.data, &mut data);
        self.last_interval_start = Some(last);
        assert(self@ == added(before, val, now));
    }
}

/// Puts `val` in front of `data` and drops counts from the back until no
/// more than `capacity` are left.
fn push_capped(data: &mut VecDeque<u64>, val: u64, capacity: usize)
    ensures
        final(data)@ == pushed(old(data)@, val, capacity as nat),
{
    data.push_front(val);
    let ghost all = data@;
    while data.len() > capacity
        invariant
            all == seq![val] + old(data)@,
            data@ == all.take(data@.len() as int),
            data@.len() <= all.len(),
            all.len() > capacity ==> data@.len() >= capacity,
            all.len() <= capacity ==> data@.len() == all.len(),
        decreases data@.len(),
    {
        let ghost before = data@;
        data.pop_back();
        assert(data@ =~= all.take(before.len() - 1));
    }
    assert(all.take(all.len() as int) =~= all);
}

/// Takes the count `val` at the time `now` into the counts `data` of a
/// series whose newest interval began at `start`, and hands back when the
/// newest interval begins now.
fn shift_counts(
    data: &mut VecDeque<u64>,
    start: i64,
    val: u64,
    now: i64,
    capacity: usize,
    interval_secs: i64,
) -> (last: i64)
    requires
        capacity >= 1,
        interval_secs >= 1,
        old(data)@.len() >= 1,
    ensures
        (SeriesView {
            data: final(data)@,
            last: Some(last),
            capacity: capacity as nat,
            interval_secs: interval_secs as int,
        }) == added(
            SeriesView {
                data: old(data)@,
                last: Some(start),
                capacity: capacity as nat,
                interval_secs: interval_secs as int,
            },
            val,
            now,
        ),
{
    let interval: i128 = (interval_secs as i128) * 1_000_000_000;
    let mut t: i128 = start as i128;
    let ghost step = interval_secs * NANOS_PER_SECOND;
    while (now as i128) - t > 2 * interval
        invariant
            interval == step,
            step > 0,
            interval <= 9_223_372_036_854_775_807 * 1_000_000_000,
            start <= t,
            t <= now || t == start,
            capacity >= 1,
            data@.len() >= 1,
            filled_data(data@, t as int, now as int, step, capacity as nat) == filled_data(
                old(data)@,
                start as int,
                now as int,
                step,
                capacity as nat,
            ),
            filled_time(t as int, now as int, step) == filled_time(start as int, now as int, step),
        decreases now - t,
    {
        push_capped(data, 0, capacity);
        t = t + interval;
    }
    if (now as i128) - t > interval {
        push_capped(data, val, capacity);
        t = t + interval;
        t as i64
    } else {
        let front = data.pop_front().unwrap();
        let ghost rest = data@;
        data.push_front(front.wrapping_add(val));
        assert(data@ =~= (seq![front] + rest).update(0, wrapped_sum(front, val)));
        assert(seq![front] + rest =~= filled_data(
            old(data)@,
            start as int,
            now as int,
            step,
            capacity as nat,
        ));
        start
    }
}

/// The sum of `counts`, which starts again from zero beyond the largest
/// count.
pub open spec fn wrapped_total(counts: Seq<u64>) -> u64
    decreases counts.len(),
{
    if counts.len() == 0 {
        0
    } else {
        wrapped_sum(wrapped_total(counts.drop_last()), counts.last())
    }
}

/// What a [`TimeSeries`] stands for.
pub struct TimeSeriesView {
    pub minutely: SeriesView,
    pub hourly: SeriesView,
    pub daily: SeriesView,
}

/// An empty series of `capacity` intervals of `interval_secs` seconds.
pub open spec fn empty_series(capacity: nat, interval_secs: int) -> SeriesView {
    SeriesView { data: Seq::empty(), last: None, capacity, interval_secs }
}

/// The series of a counter that has not been shifted yet: the last 60
/// minutes, 24 hours and 30 days.
pub open spec fn fresh_series() -> TimeSeriesView {
    TimeSeriesView {
        minutely: empty_series(60, 60),
        hourly: empty_series(24, 3600),
        daily: empty_series(30, 86400),
    }
}

/// The series after the count `n` came in at the time `now`.
pub open spec fn series_added(s: TimeSeriesView, n: u64, now: i64) -> TimeSeriesView {
    TimeSeriesView {
        minutely: added(s.minutely, n, now),
        hourly: added(s.hourly, n, now),
        daily: added(s.daily, n, now),
    }
}

/// The counts of a series at the resolution `unit`, newest first.
pub open spec fn unit_data(s: TimeSeriesView, unit: TimeSeriesUnit) -> Seq<u64> {
    match unit {
        TimeSeriesUnit::Minutely => s.minutely.data,
        TimeSeriesUnit::Hourly => s.hourly.data,
        TimeSeriesUnit::Daily => s.daily.data,
    }
}

/// The counts of one counter over the last minutes, hours and days.
#[derive(Debug)]
pub struct TimeSeries {
    minutely: TimeSeriesData,
    hourly: TimeSeriesData,
    daily: TimeSeriesData,
}

impl View for TimeSeries {
    type V = TimeSeriesView;

    closed spec fn view(&self) -> TimeSeriesView {
        TimeSeriesView { minutely: self.minutely@, hourly: self.hourly@, daily: self.daily@ }
    }
}

impl TimeSeries {
    /// The series of a counter that has not been shifted yet.
    pub fn new() -> (r: TimeSeries)
        ensures
            r@ == fresh_series(),
    {
        TimeSeries {
            minutely: TimeSeriesData::new(60, 60),
            hourly: TimeSeriesData::new(24, 3600),
            daily: TimeSeriesData::new(30, 86400),
        }
    }

    /// The three series as one.
    pub fn restore(minutely: TimeSeriesData, hourly: TimeSeriesData, daily: TimeSeriesData) -> (r:
        TimeSeries)
        ensures
            r@ == (TimeSeriesView { minutely: minutely@, hourly: hourly@, daily: daily@ }),
    {
        TimeSeries { minutely, hourly, daily }
    }

    /// The series over the last minutes.
    pub fn minutely(&self) -> (r: &TimeSeriesData)
        ensures
            r@ == self@.minutely,
    {
        &self.minutely
    }

    /// The series over the last hours.
    pub fn hourly(&self) -> (r: &TimeSeriesData)
        ensures
            r@ == self@.hourly,
    {
        &self.hourly
    }

    /// The series over the last days.
    pub fn daily(&self) -> (r: &TimeSeriesData)
        ensures
            r@ == self@.daily,
    {
        &self.daily
    }

    /// Takes the count `n` at the time `now` into each of the three series.
    pub fn add_data(&mut self, n: u64, now: i64)
        ensures
            final(self)@ == series_added(old(self)@, n, now),
    {
        self.minutely.add_data(n, now);
        self.hourly.add_data(n, now);
        self.daily.add_data(n, now);
    }

    /// The counts per minute, newest first.
    pub fn get_minutely(&self) -> (r: Vec<u64>)
        ensures
            r@ == self@.minutely.data,
    {
        self.minutely.get_data()
    }

    /// The counts per hour, newest first.
    pub fn get_hourly(&self) -> (r: Vec<u64>)
        ensures
            r@ == self@.hourly.data,
    {
        self.hourly.get_data()
    }

    /// The counts per day, newest first.
    pub fn get_daily(&self) -> (r: Vec<u64>)
        ensures
            r@ == self@.daily.data,
    {
        self.daily.get_data()
    }

    /// The counts at the resolution `unit`, newest first.
    pub fn get_by_unit(&self, unit: &TimeSeriesUnit) -> (r: Vec<u64>)
        ensures
            r@ == unit_data(self@, *unit),
    {
        match unit {
            TimeSeriesUnit::Minutely => self.get_minutely(),
            TimeSeriesUnit::Hourly => self.get_hourly(),
            TimeSeriesUnit::Daily => self.get_daily(),
        }
    }
}

/// Counters by name, in the order in which the names first came.
pub type Counters = Seq<(Seq<char>, u64)>;

/// Series by the name of their counter.
pub type SeriesByName = Seq<(Seq<char>, TimeSeriesView)>;

/// What a [`Stats`] stands for.
pub struct StatsView {
    pub counters: Counters,
    pub series: SeriesByName,
    pub last_tick: i64,
}

/// Whether no name occurs twice in `pairs`.
pub open spec fn distinct_keys<V>(pairs: Seq<(Seq<char>, V)>) -> bool {
    forall|i: int, j: int|
        0 <= i < j < pairs.len() ==> (#[trigger] pairs[i]).0 != (#[trigger] pairs[j]).0
}

/// Whether `pairs` holds the name `key`.
pub open spec fn has_key<V>(pairs: Seq<(Seq<char>, V)>, key: Seq<char>) -> bool {
    exists|i: int| 0 <= i < pairs.len() && (#[trigger] pairs[i]).0 == key
}

/// A position at which `pairs` holds `key`, where it holds it.
pub open spec fn key_position<V>(pairs: Seq<(Seq<char>, V)>, key: Seq<char>) -> int {
    choose|i: int| 0 <= i < pairs.len() && (#[trigger] pairs[i]).0 == key
}

/// With distinct names, a name is held at one position only.
pub proof fn lemma_key_position<V>(pairs: Seq<(Seq<char>, V)>, key: Seq<char>, i: int)
    requires
        distinct_keys(pairs),
        0 <= i < pairs.len(),
        pairs[i].0 == key,
    ensures
        has_key(pairs, key),
        key_position(pairs, key) == i,
{
    let k = key_position(pairs, key);
    assert(0 <= k < pairs.len() && pairs[k].0 == key);
    if k < i {
        assert(pairs[k].0 != pairs[i].0);
    }
    if i < k {
        assert(pairs[i].0 != pairs[k].0);
    }
}

/// The counters after one more event `name`: its counter is one higher, or
/// is new and stands at one.
pub open spec fn accounted(counters: Counters, name: Seq<char>) -> Counters {
    if has_key(counters, name) {
        let i = key_position(counters, name);
        counters.update(i, (name, wrapped_sum(counters[i].1, 1)))
    } else {
        counters.push((name, 1))
    }
}

/// The counters whose name begins with `pref`, in order.
pub open spec fn prefixed(counters: Counters, pref: Seq<char>) -> Counters
    decreases counters.len(),
{
    if counters.len() == 0 {
        Seq::empty()
    } else if pref.is_prefix_of(counters.last().0) {
        prefixed(counters.drop_last(), pref).push(counters.last())
    } else {
        prefixed(counters.drop_last(), pref)
    }
}

/// The sum of the counters whose name begins with `pref`.
pub open spec fn prefix_total(counters: Counters, pref: Seq<char>) -> u64
    decreases counters.len(),
{
    if counters.len() == 0 {
        0
    } else if pref.is_prefix_of(counters.last().0) {
        wrapped_sum(prefix_total(counters.drop_last(), pref), counters.last().1)
    } else {
        prefix_total(counters.drop_last(), pref)
    }
}

/// The minute of the hour of the time `t`, in universal time.
pub open spec fn minute_of(t: i64) -> int {
    (t as int / (60 * NANOS_PER_SECOND)) % 60
}

/// The series after the count of the counter `key` was shifted into them at
/// the time `now`: into the counter's series, or into new ones.
pub open spec fn shifted_one(series: SeriesByName, key: Seq<char>, count: u64, now: i64) -> SeriesByName {
    if has_key(series, key) {
        let i = key_position(series, key);
        series.update(i, (key, series_added(series[i].1, count, now)))
    } else {
        series.push((key, series_added(fresh_series(), count, now)))
    }
}

/// The series after the counts of `counters` were shifted into them, in
/// order.
pub open spec fn shifted(series: SeriesByName, counters: Counters, now: i64) -> SeriesByName
    decreases counters.len(),
{
    if counters.len() == 0 {
        series
    } else {
        shifted_one(
            shifted(series, counters.drop_last(), now),
            counters.last().0,
            counters.last().1,
            now,
        )
    }
}

/// The counters, each at zero.
pub open spec fn zeroed(counters: Counters) -> Counters {
    Seq::new(counters.len(), |i: int| (counters[i].0, 0u64))
}

/// The statistics after a tick at the time `now`: nothing changes within
/// the minute of the last tick; otherwise every counter is shifted into its
/// series and starts again from zero.
pub open spec fn ticked(s: StatsView, now: i64) -> StatsView {
    if minute_of(s.last_tick) == minute_of(now) {
        s
    } else {
        StatsView {
            counters: zeroed(s.counters),
            series: shifted(s.series, s.counters, now),
            last_tick: now,
        }
    }
}

/// `acc` with the counts of `data` added position by position, as far as
/// both reach.
pub open spec fn merged(acc: Seq<u64>, data: Seq<u64>) -> Seq<u64> {
    Seq::new(
        acc.len(),
        |i: int|
            if i < data.len() {
                wrapped_sum(acc[i], data[i])
            } else {
                acc[i]
            },
    )
}

/// `start` with the counts, at the resolution `unit`, of every series whose
/// name begins with `pref` added to it.
pub open spec fn series_totals(
    series: SeriesByName,
    pref: Seq<char>,
    unit: TimeSeriesUnit,
    start: Seq<u64>,
) -> Seq<u64>
    decreases series.len(),
{
    if series.len() == 0 {
        start
    } else if pref.is_prefix_of(series.last().0) {
        merged(series_totals(series.drop_last(), pref, unit, start), unit_data(series.last().1, unit))
    } else {
        series_totals(series.drop_last(), pref, unit, start)
    }
}

/// The counts of the events whose name begins with `pref` over the latest
/// intervals: first what was counted since the last tick together with the
/// newest interval, then the earlier intervals.
pub open spec fn time_series(s: StatsView, pref: Seq<char>, unit: TimeSeriesUnit) -> Seq<u64> {
    series_totals(
        s.series,
        pref,
        unit,
        Seq::new(
            unit.length(),
            |i: int|
                if i == 0 {
                    prefix_total(s.counters, pref)
                } else {
                    0u64
                },
        ),
    )
}

/// Whether no counter and no series occurs twice.
pub open spec fn stats_wf(s: StatsView) -> bool {
    distinct_keys(s.counters) && distinct_keys(s.series)
}

/// The counters of the events and their series.
#[derive(Debug)]
pub struct Stats {
    counters: Vec<(String, u64)>,
    series_map: Vec<(String, TimeSeries)>,
    last_tick: i64,
}

impl View for Stats {
    type V = StatsView;

    closed spec fn view(&self) -> StatsView {
        StatsView {
            counters: counter_views(self.counters@),
            series: series_views(self.series_map@),
            last_tick: self.last_tick,
        }
    }
}

/// The minute of the hour of the time `t`, in universal time.
pub fn minute(t: i64) -> (r: u8)
    ensures
        r == minute_of(t),
{
    // a whole number of hours that brings every time above zero
    let shift: i128 = 2_562_048 * 3_600_000_000_000;
    let moved: i128 = (t as i128) + shift;
    let minutes: i128 = moved / 60_000_000_000;
    let r = minutes % 60;
    assert(r == minute_of(t)) by {
        let d: int = 60 * NANOS_PER_SECOND as int;
        assert(d == 60_000_000_000);
        assert(shift == d * 153_722_880);
        lemma_shifted_division(t as int, d, 153_722_880);
        assert((t as int + shift) / d == t as int / d + 153_722_880);
        assert(153_722_880int == 60 * 2_562_048);
        lemma_shifted_remainder(t as int / d, 2_562_048);
    }
    r as u8
}

/// Adding a multiple of the divisor adds the multiple to the quotient.
proof fn lemma_shifted_division(t: int, d: int, k: int)
    requires
        d > 0,
    ensures
        (t + d * k) / d == t / d + k,
{
    vstd::arithmetic::div_mod::lemma_div_multiples_vanish_fancy(t / d + k, t % d, d);
    vstd::arithmetic::div_mod::lemma_fundamental_div_mod(t, d);
    vstd::arithmetic::div_mod::lemma_mod_bound(t, d);
    assert(d * (t / d + k) + t % d == t + d * k) by (nonlinear_arith)
        requires
            t == d * (t / d) + t % d,
    ;
}

/// Adding whole hours leaves the minute of the hour as it was.
proof fn lemma_shifted_remainder(m: int, k: int)
    ensures
        (m + 60 * k) % 60 == m % 60,
{
    vstd::arithmetic::div_mod::lemma_mod_multiples_vanish(k, m, 60);
    assert(60 * k + m == m + 60 * k);
}

/// The views of named counts, in order.
pub open spec fn counter_views(counters: Seq<(String, u64)>) -> Counters {
    Seq::new(counters.len(), |i: int| (counters[i].0@, counters[i].1))
}

/// The views of named series, in order.
pub open spec fn series_views(series: Seq<(String, TimeSeries)>) -> SeriesByName {
    Seq::new(series.len(), |i: int| (series[i].0@, series[i].1@))
}

/// The position of `key` among the counters.
fn find_counter(list: &Vec<(String, u64)>, key: &str) -> (r: Option<usize>)
    ensures
        match r {
            Some(i) => i < list@.len() && counter_views(list@)[i as int].0 == key@,
            None => !has_key(counter_views(list@), key@),
        },
{
    let mut i: usize = 0;
    while i < list.len()
        invariant
            i <= list.len(),
            forall|j: int| 0 <= j < i ==> (#[trigger] counter_views(list@)[j]).0 != key@,
        decreases list.len() - i,
    {
        if list[i].0.as_str().eq(key) {
            return Some(i);
        }
        i += 1;
    }
    None
}

/// The position of `key` among the series.
fn find_series(list: &Vec<(String, TimeSeries)>, key: &str) -> (r: Option<usize>)
    ensures
        match r {
            Some(i) => i < list@.len() && series_views(list@)[i as int].0 == key@,
            None => !has_key(series_views(list@), key@),
        },
{
    let mut i: usize = 0;
    while i < list.len()
        invariant
            i <= list.len(),
            forall|j: int| 0 <= j < i ==> (#[trigger] series_views(list@)[j]).0 != key@,
        decreases list.len() - i,
    {
        if list[i].0.as_str().eq(key) {
            return Some(i);
        }
        i += 1;
    }
    None
}

/// Counting one more event keeps the names of the counters distinct.
pub proof fn lemma_accounted_distinct(counters: Counters, name: Seq<char>)
    requires
        distinct_keys(counters),
    ensures
        distinct_keys(accounted(counters, name)),
{
    let after = accounted(counters, name);
    assert forall|a: int, b: int| 0 <= a < b < after.len() implies (#[trigger] after[a]).0 != (
    #[trigger] after[b]).0 by {
        if has_key(counters, name) {
            let k = key_position(counters, name);
            assert(0 <= k < counters.len() && counters[k].0 == name);
            assert(after[a].0 == counters[a].0);
            assert(after[b].0 == counters[b].0);
        } else {
            if b == counters.len() {
                assert(counters[a].0 != name);
            } else {
                assert(after[a].0 == counters[a].0);
                assert(after[b].0 == counters[b].0);
            }
        }
    }
}

/// Shifting a count into the series keeps their names distinct.
pub proof fn lemma_shifted_one_distinct(series: SeriesByName, key: Seq<char>, count: u64, now: i64)
    requires
        distinct_keys(series),
    ensures
        distinct_keys(shifted_one(series, key, count, now)),
{
    let after = shifted_one(series, key, count, now);
    assert forall|a: int, b: int| 0 <= a < b < after.len() implies (#[trigger] after[a]).0 != (
    #[trigger] after[b]).0 by {
        if has_key(series, key) {
            let k = key_position(series, key);
            assert(0 <= k < series.len() && series[k].0 == key);
            assert(after[a].0 == series[a].0);
            assert(after[b].0 == series[b].0);
        } else {
            if b == series.len() {
                assert(series[a].0 != key);
            } else {
                assert(after[a].0 == series[a].0);
                assert(after[b].0 == series[b].0);
            }
        }
    }
}

/// A series that can take counts still can after it took one.
pub proof fn lemma_added_wf(s: SeriesView, val: u64, now: i64)
    requires
        series_wf(s),
    ensures
        series_wf(added(s, val, now)),
{
    match s.last {
        None => {},
        Some(start) => {
            let step = s.interval_secs * NANOS_PER_SECOND;
            lemma_filled_keeps_data(s.data, start as int, now as int, step, s.capacity);
        },
    }
}

/// Filling a gap leaves at least one count in a series that held one.
pub proof fn lemma_filled_keeps_data(data: Seq<u64>, t: int, now: int, step: int, capacity: nat)
    requires
        capacity >= 1,
        data.len() >= 1,
    ensures
        filled_data(data, t, now, step, capacity).len() >= 1,
    decreases now - t,
{
    if step > 0 && now - t > 2 * step {
        lemma_filled_keeps_data(pushed(data, 0, capacity), t + step, now, step, capacity);
    }
}

/// Whether no name occurs twice among the counters.
fn distinct_counters(list: &Vec<(String, u64)>) -> (r: bool)
    ensures
        r == distinct_keys(counter_views(list@)),
{
    let ghost cv = counter_views(list@);
    let mut i: usize = 0;
    while i < list.len()
        invariant
            i <= list.len(),
            cv == counter_views(list@),
            forall|a: int, b: int| 0 <= a < b < i ==> (#[trigger] cv[a]).0 != (#[trigger] cv[b]).0,
        decreases list.len() - i,
    {
        let mut j: usize = 0;
        while j < i
            invariant
                j <= i < list.len(),
                cv == counter_views(list@),
                forall|a: int| 0 <= a < j ==> (#[trigger] cv[a]).0 != cv[i as int].0,
            decreases i - j,
        {
            if list[j].0.as_str().eq(list[i].0.as_str()) {
                assert(cv[j as int].0 == cv[i as int].0);
                return false;
            }
            j += 1;
        }
        i += 1;
    }
    true
}

/// Whether no name occurs twice among the series.
fn distinct_series(list: &Vec<(String, TimeSeries)>) -> (r: bool)
    ensures
        r == distinct_keys(series_views(list@)),
{
    let ghost sv = series_views(list@);
    let mut i: usize = 0;
    while i < list.len()
        invariant
            i <= list.len(),
            sv == series_views(list@),
            forall|a: int, b: int| 0 <= a < b < i ==> (#[trigger] sv[a]).0 != (#[trigger] sv[b]).0,
        decreases list.len() - i,
    {
        let mut j: usize = 0;
        while j < i
            invariant
                j <= i < list.len(),
                sv == series_views(list@),
                forall|a: int| 0 <= a < j ==> (#[trigger] sv[a]).0 != sv[i as int].0,
            decreases i - j,
        {
            if list[j].0.as_str().eq(list[i].0.as_str()) {
                assert(sv[j as int].0 == sv[i as int].0);
                return false;
            }
            j += 1;
        }
        i += 1;
    }
    true
}

/// Shifts the count `count` of the counter `key` into its series among
/// `series`.
fn shift_into(series: &mut Vec<(String, TimeSeries)>, key: &str, count: u64, now: i64)
    requires
        distinct_keys(series_views(old(series)@)),
    ensures
        series_views(final(series)@) == shifted_one(series_views(old(series)@), key@, count, now),
{
    let ghost before = series_views(series@);
    match find_series(series, key) {
        Some(i) => {
            proof {
                lemma_key_position(before, key@, i as int);
            }
            let (name, mut one) = series.remove(i);
            one.add_data(count, now);
            series.insert(i, (name, one));
            assert(series_views(series@) =~= shifted_one(before, key@, count, now));
        },
        None => {
            let mut one = TimeSeries::new();
            one.add_data(count, now);
            series.push((key.to_owned(), one));
            assert(series_views(series@) =~= shifted_one(before, key@, count, now));
        },
    }
}

impl Stats {
    #[verifier::type_invariant]
    spec fn in_order(&self) -> bool {
        stats_wf(self@)
    }

    /// Statistics without counters, last ticked at the time `now`.
    pub fn new(now: i64) -> (r: Stats)
        ensures
            r@ == (StatsView { counters: Seq::empty(), series: Seq::empty(), last_tick: now }),
    {
        let counters: Vec<(String, u64)> = Vec::new();
        let series_map: Vec<(String, TimeSeries)> = Vec::new();
        assert(counter_views(counters@) =~= Seq::empty());
        assert(series_views(series_map@) =~= Seq::empty());
        Stats { counters, series_map, last_tick: now }
    }

    /// The statistics with the given state, if no counter and no series
    /// occurs twice in it.
    pub fn restore(
        counters: Vec<(String, u64)>,
        series_map: Vec<(String, TimeSeries)>,
        last_tick: i64,
    ) -> (r: Option<Stats>)
        ensures
            match r {
                Some(stats) => stats@ == (StatsView {
                    counters: counter_views(counters@),
                    series: series_views(series_map@),
                    last_tick,
                }),
                None => !stats_wf(
                    StatsView {
                        counters: counter_views(counters@),
                        series: series_views(series_map@),
                        last_tick,
                    },
                ),
            },
    {
        if distinct_counters(&counters) && distinct_series(&series_map) {
            Some(Stats { counters, series_map, last_tick })
        } else {
            None
        }
    }

    /// The counters, in the order in which their names first came.
    pub fn counters(&self) -> (r: &Vec<(String, u64)>)
        ensures
            counter_views(r@) == self@.counters,
            stats_wf(self@),
    {
        proof {
            use_type_invariant(self);
        }
        &self.counters
    }

    /// The series, by the name of their counter.
    pub fn series(&self) -> (r: &Vec<(String, TimeSeries)>)
        ensures
            series_views(r@) == self@.series,
    {
        &self.series_map
    }

    /// The time of the last tick that shifted the counters.
    pub fn last_tick(&self) -> (r: i64)
        ensures
            r == self@.last_tick,
    {
        self.last_tick
    }

    /// Counts one more event `evt`.
    pub fn account(&mut self, evt: &str)
        ensures
            final(self)@ == (StatsView {
                counters: accounted(old(self)@.counters, evt@),
                ..old(self)@
            }),
    {
        proof {
            use_type_invariant(&*self);
        }
        let ghost before = self@.counters;
        proof {
            lemma_accounted_distinct(before, evt@);
        }
        let mut counters: Vec<(String, u64)> = Vec::new();
        assert(counter_views(counters@) =~= Seq::empty());
        core::mem::swap(&mut self.counters, &mut counters);
        match find_counter(&counters, evt) {
            Some(i) => {
                proof {
                    lemma_key_position(before, evt@, i as int);
                }
                let (name, count) = counters.remove(i);
                counters.insert(i, (name, count.wrapping_add(1)));
                assert(counter_views(counters@) =~= accounted(before, evt@));
            },
            None => {
                counters.push((evt.to_owned(), 1));
                assert(counter_views(counters@) =~= accounted(before, evt@));
            },
        }
        self.counters = counters;
    }

    /// The counters whose name begins with `pref`.
    pub fn get_by_prefix(&self, pref: &str) -> (r: Vec<(String, u64)>)
        ensures
            counter_views(r@) == prefixed(self@.counters, pref@),
    {
        let ghost all = self@.counters;
        let mut ret: Vec<(String, u64)> = Vec::new();
        let mut i: usize = 0;
        assert(all.take(0) =~= Seq::<(Seq<char>, u64)>::empty());
        assert(counter_views(ret@) =~= Seq::<(Seq<char>, u64)>::empty());
        while i < self.counters.len()
            invariant
                i <= self.counters.len(),
                all == counter_views(self.counters@),
                counter_views(ret@) == prefixed(all.take(i as int), pref@),
            decreases self.counters.len() - i,
        {
            proof {
                assert(all.take(i + 1).drop_last() =~= all.take(i as int));
                assert(all.take(i + 1).last() == all[i as int]);
            }
            if has_prefix(self.counters[i].0.as_str(), pref) {
                let ghost before = counter_views(ret@);
                ret.push((self.counters[i].0.clone(), self.counters[i].1));
                assert(counter_views(ret@) =~= before.push(all[i as int]));
            }
            i += 1;
        }
        assert(all.take(self.counters.len() as int) =~= all);
        ret
    }

    /// The sum of the counters whose name begins with `pref`.
    fn total_by_prefix(&self, pref: &str) -> (r: u64)
        ensures
            r == prefix_total(self@.counters, pref@),
    {
        let ghost all = self@.counters;
        let mut total: u64 = 0;
        let mut i: usize = 0;
        assert(all.take(0) =~= Seq::<(Seq<char>, u64)>::empty());
        while i < self.counters.len()
            invariant
                i <= self.counters.len(),
                all == counter_views(self.counters@),
                total == prefix_total(all.take(i as int), pref@),
            decreases self.counters.len() - i,
        {
            proof {
                assert(all.take(i + 1).drop_last() =~= all.take(i as int));
                assert(all.take(i + 1).last() == all[i as int]);
            }
            if has_prefix(self.counters[i].0.as_str(), pref) {
                total = total.wrapping_add(self.counters[i].1);
            }
            i += 1;
        }
        assert(all.take(self.counters.len() as int) =~= all);
        total
    }

    /// Shifts the counters into their series, unless the minute is still
    /// that of the last tick.
    pub fn tick(&mut self, now: i64)
        ensures
            final(self)@ == ticked(old(self)@, now),
    {
        proof {
            use_type_invariant(&*self);
        }
        if minute(self.last_tick) == minute(now) {
            return ;
        }
        let ghost before = self@.counters;
        let ghost series_before = self@.series;
        let mut counters: Vec<(String, u64)> = Vec::new();
        let mut series: Vec<(String, TimeSeries)> = Vec::new();
        assert(counter_views(counters@) =~= Seq::empty());
        assert(series_views(series@) =~= Seq::empty());
        core::mem::swap(&mut self.counters, &mut counters);
        core::mem::swap(&mut self.series_map, &mut series);
        let n = counters.len();
        let mut i: usize = 0;
        assert(before.take(0) =~= Seq::<(Seq<char>, u64)>::empty());
        while i < n
            invariant
                i <= n,
                n == before.len(),
                n == counters@.len(),
                distinct_keys(before),
                forall|j: int|
                    0 <= j < n ==> (#[trigger] counter_views(counters@)[j]).0 == before[j].0,
                forall|j: int| 0 <= j < i ==> (#[trigger] counter_views(counters@)[j]).1 == 0,
                forall|j: int|
                    i <= j < n ==> (#[trigger] counter_views(counters@)[j]).1 == before[j].1,
                series_views(series@) == shifted(series_before, before.take(i as int), now),
                distinct_keys(series_views(series@)),
            decreases n - i,
        {
            proof {
                assert(before.take(i + 1).drop_last() =~= before.take(i as int));
                assert(before.take(i + 1).last() == before[i as int]);
                lemma_shifted_one_distinct(
                    series_views(series@),
                    before[i as int].0,
                    before[i as int].1,
                    now,
                );
            }
            let ghost mid = counter_views(counters@);
            let (name, count) = counters.remove(i);
            assert(name@ == mid[i as int].0 && count == mid[i as int].1);
            assert(counter_views(counters@) =~= mid.remove(i as int));
            shift_into(&mut series, name.as_str(), count, now);
            counters.insert(i, (name, 0));
            assert(counter_views(counters@) =~= mid.update(i as int, (mid[i as int].0, 0u64)));
            i += 1;
        }
        assert(before.take(n as int) =~= before);
        assert(counter_views(counters@) =~= zeroed(before));
        assert(distinct_keys(zeroed(before))) by {
            assert forall|a: int, b: int| 0 <= a < b < zeroed(before).len() implies (
            #[trigger] zeroed(before)[a]).0 != (#[trigger] zeroed(before)[b]).0 by {
                assert(before[a].0 != before[b].0);
            }
        }
        self.counters = counters;
        self.series_map = series;
        self.last_tick = now;
    }

    /// The counts of the events whose name begins with `pref` over the
    /// latest intervals of the resolution `unit`.
    pub fn time_series_by_prefix(&self, pref: &str, unit: &TimeSeriesUnit) -> (r: Vec<u64>)
        ensures
            r@ == time_series(self@, pref@, *unit),
    {
        let n = unit.len();
        let total = self.total_by_prefix(pref);
        let mut ret: Vec<u64> = Vec::new();
        ret.push(total);
        while ret.len() < n
            invariant
                1 <= ret@.len() <= n,
                ret@[0] == total,
                forall|j: int| 1 <= j < ret@.len() ==> ret@[j] == 0,
            decreases n - ret@.len(),
        {
            ret.push(0);
        }
        let ghost start = Seq::new(
            unit.length(),
            |i: int|
                if i == 0 {
                    prefix_total(self@.counters, pref@)
                } else {
                    0u64
                },
        );
        assert(ret@ =~= start);
        let ghost all = self@.series;
        let mut k: usize = 0;
        assert(all.take(0) =~= Seq::<(Seq<char>, TimeSeriesView)>::empty());
        while k < self.series_map.len()
            invariant
                k <= self.series_map.len(),
                all == series_views(self.series_map@),
                ret@.len() == n,
                ret@ == series_totals(all.take(k as int), pref@, *unit, start),
            decreases self.series_map.len() - k,
        {
            proof {
                assert(all.take(k + 1).drop_last() =~= all.take(k as int));
                assert(all.take(k + 1).last() == all[k as int]);
            }
            if has_prefix(self.series_map[k].0.as_str(), pref) {
                let ts = self.series_map[k].1.get_by_unit(unit);
                let ghost acc = ret@;
                let mut i: usize = 0;
                while i < ts.len() && i < n
                    invariant
                        i <= n,
                        i <= ts@.len(),
                        ret@.len() == n,
                        acc.len() == n,
                        forall|j: int|
                            0 <= j < i && j < ts@.len() ==> ret@[j] == wrapped_sum(acc[j], ts@[j]),
                        forall|j: int| i <= j < n ==> ret@[j] == acc[j],
                    decreases n - i,
                {
                    let sum = ret[i].wrapping_add(ts[i]);
                    ret.set(i, sum);
                    i += 1;
                }
                assert(ret@ =~= merged(acc, ts@));
            }
            k += 1;
        }
        assert(all.take(self.series_map.len() as int) =~= all);
        ret
    }
}

} // verus!
