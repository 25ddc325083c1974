use oct::http::query_unit;
use oct::stats::{minute, Stats, TimeSeries, TimeSeriesData, TimeSeriesUnit, NANOS_PER_SECOND};

const S: i64 = NANOS_PER_SECOND;
const T0: i64 = 1_700_000_000 * S;

#[test]
fn stats_test() {
    let now = T0;
    let mut stats = Stats::new(now - 61 * S);
    stats.account("hello.world");
    stats.tick(now);
    let d = stats.time_series_by_prefix("hello.", &TimeSeriesUnit::Minutely);
    assert_eq!(d.len(), 60);
    assert_eq!(d[0], 1);
    let d = stats.time_series_by_prefix("hello.", &TimeSeriesUnit::Hourly);
    assert_eq!(d.len(), 24);
    assert_eq!(d[0], 1);
    stats.account("hello.world");
    let d = stats.time_series_by_prefix("hello.", &TimeSeriesUnit::Daily);
    assert_eq!(d.len(), 30);
    assert_eq!(d[0], 2);
}

#[test]
fn units() {
    assert_eq!(TimeSeriesUnit::Minutely.len(), 60);
    assert_eq!(TimeSeriesUnit::Hourly.len(), 24);
    assert_eq!(TimeSeriesUnit::Daily.len(), 30);
    assert_eq!(query_unit(None), TimeSeriesUnit::Hourly);
    assert_eq!(query_unit(Some("hour")), TimeSeriesUnit::Hourly);
    assert_eq!(query_unit(Some("day")), TimeSeriesUnit::Daily);
    assert_eq!(query_unit(Some("minute")), TimeSeriesUnit::Minutely);
    assert_eq!(query_unit(Some("")), TimeSeriesUnit::Minutely);
    assert_eq!(query_unit(Some("Hour")), TimeSeriesUnit::Minutely);
}

#[test]
fn minutes_of_the_hour() {
    assert_eq!(minute(0), 0);
    assert_eq!(minute(59 * S), 0);
    assert_eq!(minute(60 * S), 1);
    assert_eq!(minute(3599 * S), 59);
    assert_eq!(minute(3600 * S), 0);
    assert_eq!(minute(60 * S - 1), 0);
    // 2023-11-14 22:13:20 UTC
    assert_eq!(minute(T0), 13);
    // before the epoch the minutes still run forward
    assert_eq!(minute(-1), 59);
    assert_eq!(minute(-60 * S), 59);
    assert_eq!(minute(-60 * S - 1), 58);
    assert_eq!(minute(-3600 * S), 0);
    assert_eq!(minute(i64::MAX), ((i64::MAX / (60 * S)) % 60) as u8);
    assert_eq!(minute(i64::MIN), (i64::MIN.div_euclid(60 * S).rem_euclid(60)) as u8);
}

#[test]
fn a_series_takes_counts() {
    let mut ts = TimeSeries::new();
    assert_eq!(ts.get_minutely(), Vec::<u64>::new());
    assert_eq!(ts.minutely().capacity(), 60);
    assert_eq!(ts.hourly().capacity(), 24);
    assert_eq!(ts.daily().capacity(), 30);
    assert_eq!(ts.minutely().interval_secs(), 60);
    assert_eq!(ts.hourly().interval_secs(), 3600);
    assert_eq!(ts.daily().interval_secs(), 86400);
    assert_eq!(ts.minutely().last_interval_start(), None);
    // the first count opens the first interval
    ts.add_data(5, T0);
    assert_eq!(ts.get_minutely(), vec![5]);
    assert_eq!(ts.minutely().last_interval_start(), Some(T0));
    // within the interval the count is added to the newest
    ts.add_data(3, T0 + 30 * S);
    assert_eq!(ts.get_minutely(), vec![8]);
    ts.add_data(1, T0 + 60 * S);
    assert_eq!(ts.get_minutely(), vec![9]);
    assert_eq!(ts.minutely().last_interval_start(), Some(T0));
    // after more than one interval a new one opens, one step on
    ts.add_data(2, T0 + 61 * S);
    assert_eq!(ts.get_minutely(), vec![2, 9]);
    assert_eq!(ts.minutely().last_interval_start(), Some(T0 + 60 * S));
    assert_eq!(ts.get_hourly(), vec![11]);
    assert_eq!(ts.get_daily(), vec![11]);
    assert_eq!(ts.hourly().last_interval_start(), Some(T0));
    // a gap is filled with zeros
    ts.add_data(7, T0 + 400 * S);
    assert_eq!(ts.get_minutely(), vec![7, 0, 0, 0, 0, 2, 9]);
    assert_eq!(ts.minutely().last_interval_start(), Some(T0 + 360 * S));
    assert_eq!(ts.get_by_unit(&TimeSeriesUnit::Minutely), ts.get_minutely());
    assert_eq!(ts.get_by_unit(&TimeSeriesUnit::Hourly), vec![18]);
    assert_eq!(ts.get_by_unit(&TimeSeriesUnit::Daily), vec![18]);
    assert_eq!(ts.minutely().sum(), 18);
    // a count from before the newest interval is added to it
    ts.add_data(1, T0);
    assert_eq!(ts.get_minutely(), vec![8, 0, 0, 0, 0, 2, 9]);
}

#[test]
fn a_series_keeps_its_capacity() {
    let mut ts = TimeSeries::new();
    for i in 0..100 {
        ts.add_data(i as u64 + 1, T0 + i * 61 * S);
    }
    let data = ts.get_minutely();
    assert_eq!(data.len(), 60);
    assert_eq!(data[0], 100);
    assert_eq!(data[38], 62);
    // the one interval that went by without a count
    assert_eq!(data[39], 0);
    assert_eq!(data[40], 61);
    assert_eq!(data[59], 42);
    assert_eq!(ts.get_hourly().len(), 2);
    let mut hours = TimeSeries::new();
    hours.add_data(1, T0);
    hours.add_data(1, T0 + 100 * 3600 * S);
    assert_eq!(hours.get_hourly().len(), 24);
    assert_eq!(hours.get_hourly()[0], 1);
    assert_eq!(hours.get_hourly()[1], 0);
    assert_eq!(hours.get_minutely().len(), 60);
    assert_eq!(hours.get_daily(), vec![1, 0, 0, 0, 1]);
}

#[test]
fn counts_wrap() {
    let mut ts = TimeSeries::new();
    ts.add_data(u64::MAX, T0);
    ts.add_data(2, T0 + 1);
    assert_eq!(ts.get_minutely(), vec![1]);
    let d = TimeSeriesData::restore(vec![u64::MAX, 3], Some(0), 5, 1).unwrap();
    assert_eq!(d.sum(), 2);
}

#[test]
fn restoring_a_series() {
    assert!(TimeSeriesData::restore(vec![], None, 1, 1).is_some());
    assert!(TimeSeriesData::restore(vec![], None, 0, 1).is_none());
    assert!(TimeSeriesData::restore(vec![], None, 1, 0).is_none());
    assert!(TimeSeriesData::restore(vec![], None, 1, -5).is_none());
    assert!(TimeSeriesData::restore(vec![], Some(3), 1, 1).is_none());
    let d = TimeSeriesData::restore(vec![1, 2, 3], Some(3), 2, 10).unwrap();
    assert_eq!(d.get_data(), vec![1, 2, 3]);
    assert_eq!(d.capacity(), 2);
    assert_eq!(d.interval_secs(), 10);
    assert_eq!(d.last_interval_start(), Some(3));
    let mut d = d;
    // the next new interval cuts the series down to its capacity
    d.add_data(9, 3 + 11 * S);
    assert_eq!(d.get_data(), vec![9, 1]);
    let series = TimeSeries::restore(
        TimeSeriesData::restore(vec![4], Some(0), 60, 60).unwrap(),
        TimeSeriesData::restore(vec![5], Some(0), 24, 3600).unwrap(),
        TimeSeriesData::restore(vec![], None, 30, 86400).unwrap(),
    );
    assert_eq!(series.get_minutely(), vec![4]);
    assert_eq!(series.get_hourly(), vec![5]);
    assert_eq!(series.get_daily(), Vec::<u64>::new());
}

#[test]
fn counting_events() {
    let mut stats = Stats::new(T0);
    assert_eq!(stats.last_tick(), T0);
    stats.account("api.A.todos.GET");
    stats.account("api.B.todos.GET");
    stats.account("api.A.todos.GET");
    stats.account("api.A.g.POST");
    assert_eq!(
        stats.counters(),
        &vec![
            ("api.A.todos.GET".to_string(), 2u64),
            ("api.B.todos.GET".to_string(), 1),
            ("api.A.g.POST".to_string(), 1),
        ]
    );
    assert_eq!(
        stats.get_by_prefix("api.A."),
        vec![("api.A.todos.GET".to_string(), 2u64), ("api.A.g.POST".to_string(), 1)]
    );
    assert_eq!(stats.get_by_prefix("api.C."), vec![]);
    assert_eq!(stats.get_by_prefix("").len(), 3);
    let d = stats.time_series_by_prefix("api.A.", &TimeSeriesUnit::Minutely);
    assert_eq!(d[0], 3);
    assert!(d[1..].iter().all(|x| *x == 0));
}

#[test]
fn ticks() {
    let mut stats = Stats::new(T0);
    stats.account("a.x");
    stats.account("a.y");
    stats.account("a.y");
    stats.account("b.z");
    // within the minute of the last tick nothing moves
    stats.tick(T0 + 10 * S);
    assert_eq!(stats.last_tick(), T0);
    assert_eq!(stats.series().len(), 0);
    // an hour later the minute is the same again
    stats.tick(T0 + 3600 * S);
    assert_eq!(stats.series().len(), 0);
    stats.tick(T0 + 64 * S);
    assert_eq!(stats.last_tick(), T0 + 64 * S);
    assert_eq!(
        stats.counters(),
        &vec![("a.x".to_string(), 0u64), ("a.y".to_string(), 0), ("b.z".to_string(), 0)]
    );
    assert_eq!(stats.series().len(), 3);
    assert_eq!(stats.series()[1].0, "a.y");
    assert_eq!(stats.series()[1].1.get_minutely(), vec![2]);
    assert_eq!(stats.time_series_by_prefix("a.", &TimeSeriesUnit::Minutely)[0], 3);
    assert_eq!(stats.time_series_by_prefix("b.", &TimeSeriesUnit::Hourly)[0], 1);
    assert_eq!(stats.time_series_by_prefix("c.", &TimeSeriesUnit::Daily), vec![0; 30]);
    stats.account("a.x");
    stats.tick(T0 + 128 * S);
    let d = stats.time_series_by_prefix("a.", &TimeSeriesUnit::Minutely);
    assert_eq!(&d[..3], &[1, 3, 0]);
    let d = stats.time_series_by_prefix("a.", &TimeSeriesUnit::Hourly);
    assert_eq!(&d[..2], &[4, 0]);
    stats.account("a.x");
    let d = stats.time_series_by_prefix("a.", &TimeSeriesUnit::Minutely);
    assert_eq!(&d[..3], &[2, 3, 0]);
}

#[test]
fn restoring_statistics() {
    let series = || {
        let mut s = TimeSeries::new();
        s.add_data(1, T0);
        s
    };
    let stats = Stats::restore(
        vec![("a".to_string(), 1), ("b".to_string(), 2)],
        vec![("a".to_string(), series())],
        T0,
    )
    .unwrap();
    assert_eq!(stats.counters().len(), 2);
    assert_eq!(stats.series().len(), 1);
    assert_eq!(stats.last_tick(), T0);
    assert!(Stats::restore(vec![], vec![], 0).is_some());
    assert!(Stats::restore(
        vec![("a".to_string(), 1), ("b".to_string(), 2), ("a".to_string(), 3)],
        vec![],
        T0
    )
    .is_none());
    assert!(Stats::restore(
        vec![],
        vec![("a".to_string(), series()), ("a".to_string(), series())],
        T0
    )
    .is_none());
}
