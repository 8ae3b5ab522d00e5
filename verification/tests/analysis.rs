use pattern_database::analysis::{
    chunk_output, describe_method, ChunkSeries, OnBadChunk, describe_plan, find_place, first_point, is_whole, next_window, plan_point,
    plan_range, point_window, window_points, AnalysisResult, Place, PointFailure, PointPlan, PointSearch, SearchStep,
};
use pattern_database::cache::{clone_correlation, key_of, key_of_pair, measurements_key, point_key, DatabaseCache};
use pattern_database::correlation::{error_rates, keyed_rates, Correlation, Correlations, Distance, ErrorRates, KeyedRate, SignalType};
use pattern_database::decimal::Decimal;
use pattern_database::ids::{
    AspectId, CorrelationID, DatasetId, DictionaryId, EventID, MeasurementId, PatternID, SubjectId,
};
use pattern_database::measurement::{Measurement, Point};
use pattern_database::resolution::{Resolution, Spline};
use pattern_database::sql::SqlValue;
use pattern_database::store::measurements::{
    batch_capture_new_measurements, capture_new_measurement, extend_known_range, extent_of, mark_dirty_regions,
    new_tx_ids, CompressedRange, DirtyReason,
};
use pattern_database::store::readings::{boundary_measurements, is_cached_query};
use pattern_database::measurement::InputMeasurement;
use pattern_database::table::Table;
use pattern_database::time::Timestamp;

fn decimal(text: &str) -> Decimal {
    Decimal::parse(text).unwrap()
}

fn at(seconds: i64) -> Timestamp {
    Timestamp { seconds, nanos: 0 }
}

fn point(seconds: i64, value: &str) -> Point {
    Point { timestamp: at(seconds), value: decimal(value) }
}

fn measurement(seconds: i64, value: &str) -> Measurement {
    Measurement { id: MeasurementId::new(), dataset_id: DatasetId::new(), timestamp: at(seconds), value: decimal(value) }
}

#[test]
fn an_instant_is_found_among_points() {
    let points = vec![point(10, "1"), point(20, "2"), point(30, "3")];
    assert_eq!(find_place(&points, &at(20)), Place::At(1));
    assert_eq!(find_place(&points, &at(25)), Place::Before(2));
    assert_eq!(find_place(&points, &at(5)), Place::Before(0));
    assert_eq!(find_place(&points, &at(35)), Place::Before(3));
}

#[test]
fn a_value_is_computed_from_the_points_around_it() {
    assert_eq!(plan_point(3, Place::At(1), Spline::Cubic), Ok(PointPlan::Exact(1)));
    assert_eq!(plan_point(3, Place::Before(0), Spline::Linear), Ok(PointPlan::Backward));
    assert_eq!(plan_point(3, Place::Before(3), Spline::Linear), Ok(PointPlan::Forward(1)));
    assert_eq!(plan_point(3, Place::Before(2), Spline::Linear), Ok(PointPlan::Linear(1)));
    assert_eq!(plan_point(3, Place::Before(1), Spline::Quadratic), Ok(PointPlan::Quadratic(0)));
    assert_eq!(plan_point(6, Place::Before(3), Spline::Cubic), Ok(PointPlan::Cubic(1)));
    assert_eq!(plan_point(5, Place::Before(2), Spline::Polynomial(3, None)), Ok(PointPlan::Fallback(1)));
    assert_eq!(plan_point(0, Place::Before(0), Spline::Linear), Err(PointFailure::NoMeasurements));
    assert_eq!(plan_point(1, Place::Before(0), Spline::Linear), Err(PointFailure::TooFewToExtrapolate));
    assert_eq!(plan_point(2, Place::Before(1), Spline::Quadratic), Err(PointFailure::TooFewForQuadratic));
    assert_eq!(plan_point(3, Place::Before(1), Spline::Cubic), Err(PointFailure::TooFewForCubic));
    assert_eq!(
        plan_point(3, Place::Before(1), Spline::Polynomial(7, None)).unwrap_err().error().message(),
        "Insufficient measurements for polynomial interpolation of degree 7"
    );
}

#[test]
fn how_a_value_came_about_is_told() {
    assert_eq!(describe_plan("Linear", PointPlan::Backward), "Linear (backward extrapolation)");
    assert_eq!(describe_plan("Cubic", PointPlan::Cubic(0)), "Cubic");
    let known = vec![measurement(10, "1"), measurement(20, "2")];
    assert_eq!(describe_method("Linear", &at(30), &known), "Linear (forward extrapolation)");
    assert_eq!(describe_method("Linear", &at(15), &known), "Linear");
    assert_eq!(describe_method("Linear", &at(15), &vec![measurement(10, "1")]), "Linear (insufficient data)");
    let (from, to) = point_window(&at(1_000), Resolution::Seconds);
    assert_eq!((from, to), (at(900), at(1_100)));
}

#[test]
fn measurements_are_searched_page_by_page() {
    let mut search = PointSearch::start();
    assert_eq!(search.absorb(&Vec::new(), &at(5), 2), SearchStep::Exhausted(true));
    let mut search = PointSearch::start();
    let page = vec![measurement(1, "1")];
    assert_eq!(search.absorb(&page, &at(5), 2), SearchStep::Continue);
    assert_eq!(search.absorb(&Vec::new(), &at(5), 2), SearchStep::Exhausted(false));
    assert_eq!(first_point(&Vec::new(), &at(5)).timestamp, at(5));
}

#[test]
fn the_chunks_of_a_range_reach_its_end() {
    let start = at(0);
    let end = at(3_000_000);
    let plan = plan_range(&start, &end, Resolution::Seconds, Spline::Cubic);
    assert_eq!(plan.expected, 3_000_001);
    assert!(!is_whole(&plan));
    assert_eq!(plan.overlap, 3_000_000_000);
    let mut current = start;
    let mut windows = 0;
    while let Some(window) = next_window(&plan, &start, &end, &current) {
        assert_eq!(window.start, current);
        assert!(!current.before(&window.fetch_start));
        assert!(!window.fetch_end.before(&window.end));
        current = window.end;
        windows += 1;
    }
    assert_eq!(current, end);
    assert!(windows >= plan.chunk_count);
}

#[test]
fn a_chunk_hands_out_its_points_or_a_zero() {
    let start = at(0);
    let end = at(3_000_000);
    let plan = plan_range(&start, &end, Resolution::Seconds, Spline::Linear);
    let window = next_window(&plan, &start, &end, &start).unwrap();
    let points = vec![point(0, "1"), point(2_999_999, "2")];
    assert_eq!(window_points(&points, &window).len(), 1);
    let zero = chunk_output(Vec::new(), &window);
    assert_eq!(zero[0].timestamp, window.end);
    assert!(zero[0].value.is_zero());
    assert_eq!(chunk_output(vec![point(1, "5")], &window).len(), 1);
}

#[test]
fn a_series_of_chunks_ends_at_a_failure_or_stays() {
    let (start, end) = (at(0), at(3_000_000));
    let plan = plan_range(&start, &end, Resolution::Seconds, Spline::Linear);
    let mut series = ChunkSeries::new(plan, start, end, OnBadChunk::End);
    let window = series.next().unwrap();
    assert_eq!(series.absorb(&window, Ok(vec![point(0, "5")])).unwrap().len(), 1);
    assert_eq!(series.current, window.end);
    let window = series.next().unwrap();
    assert_eq!(series.absorb(&window, Ok(Vec::new())).unwrap()[0].timestamp, window.end);
    let window = series.next().unwrap();
    assert_eq!(series.absorb(&window, Err("no device".to_string())).unwrap_err(), "no device");
    assert!(series.next().is_none());
    let mut series = ChunkSeries::new(plan, start, end, OnBadChunk::Again);
    let window = series.next().unwrap();
    assert!(series.absorb(&window, Err("no device".to_string())).is_err());
    assert_eq!(series.next(), Some(window));
}

#[test]
fn what_is_stored_in_the_cache_is_found_until_it_is_too_old() {
    let mut cache = DatabaseCache::new(0);
    assert_eq!(cache.max_entries, 100);
    cache.store("key", vec![measurement(1, "5")], 1_000);
    let found: Option<Vec<Measurement>> = cache.get("key", 1_001);
    assert_eq!(found.unwrap()[0].value.text(), "5");
    let other: Option<AnalysisResult> = cache.get("key", 1_001);
    assert!(other.is_none());
    let late: Option<Vec<Measurement>> = cache.get("key", 1_001 + cache.ttl);
    assert!(late.is_none());
    assert!(cache.entries.is_empty());
}

#[test]
fn the_least_used_entries_go_first() {
    let mut cache = DatabaseCache::new(0);
    for i in 0..100u64 {
        cache.store(&format!("k{i}"), vec![measurement(1, "1")], i);
    }
    let _: Option<Vec<Measurement>> = cache.get("k0", 200);
    cache.store("new", vec![measurement(1, "1")], 201);
    assert_eq!(cache.entries.len(), 91);
    assert!(cache.entries.contains_key(&"k0".to_string()));
    assert!(!cache.entries.contains_key(&"k1".to_string()));
    cache.invalidate("k0");
    assert!(!cache.entries.contains_key(&"k0".to_string()));
    cache.cleanup_expired(1_000_000_000_000);
    assert!(cache.entries.is_empty());
}

#[test]
fn keys_tell_what_is_kept() {
    let id = AspectId { value: 0 };
    let nil = "00000000-0000-0000-0000-000000000000";
    assert_eq!(key_of("events", 0), format!("events_{nil}"));
    assert_eq!(key_of_pair("event", 0, 0), format!("event_{nil}_{nil}"));
    assert_eq!(measurements_key(&id, 50), format!("aspect_measurements_{nil}_50"));
    assert_eq!(
        point_key(&id, &at(7), Resolution::Hours, "Linear"),
        format!("point_{nil}_7_0_Hours_Linear")
    );
}

fn correlation(event: EventID, pattern: PatternID) -> Correlation {
    Correlation::new(
        None,
        DictionaryId::new(),
        SubjectId::new(),
        &AspectId::new(),
        pattern,
        event,
        ErrorRates::new(),
        Vec::new(),
    )
}

#[test]
fn correlations_are_found_by_event_and_pattern() {
    let (event, other) = (EventID::new(), EventID::new());
    let (first, second) = (PatternID::new(), PatternID::new());
    let mut all = Correlations::new();
    all.insert(event, first, correlation(event, first));
    all.insert(event, second, correlation(event, second));
    all.insert(other, first, correlation(other, first));
    assert_eq!(all.len(), 3);
    assert_eq!(all.count_for_event(&event), 2);
    assert_eq!(all.get_for_event(&event).len(), 2);
    let id = *all.get(&other, &first).unwrap().id();
    assert!(all.get_by_id(&id).is_some());
    assert!(all.get_by_id(&CorrelationID::new()).is_none());
    assert!(all.remove(&event, &first).is_some());
    assert!(all.get(&event, &first).is_none());
    assert_eq!(all.values().len(), 2);
}

#[test]
fn signals_are_read_back_from_their_keys() {
    let signal = SignalType::Custom("rise (fast)".to_string());
    assert_eq!(signal.text(), "Custom(rise (fast))");
    assert_eq!(SignalType::parse(&signal.text()).unwrap().name(), "rise (fast)");
    assert_eq!(SignalType::parse("Rise").unwrap_err().message(), "Invalid SignalType key: Rise");
    let rate = |key: &str| KeyedRate { key: key.to_string(), rate: Distance::new(decimal("1"), Resolution::Days) };
    assert_eq!(error_rates(vec![rate("Custom(a)"), rate("Custom(b)"), rate("Custom(a)")]).unwrap().len(), 2);
    assert!(error_rates(vec![rate("Custom(a)"), rate("x")]).is_err());
    let rates = error_rates(vec![rate("Custom(a)"), rate("Custom(b)")]).unwrap();
    let keyed = keyed_rates(&rates);
    assert_eq!((keyed[0].key.as_str(), keyed[1].key.as_str()), ("Custom(a)", "Custom(b)"));
    assert_eq!(error_rates(keyed).unwrap().get(&"b".to_string()).unwrap().units(), Resolution::Days);
}

#[test]
fn a_rate_is_set_for_its_signal() {
    let mut c = correlation(EventID::new(), PatternID::new());
    c.set_error_rate(SignalType::Custom("a".to_string()), Distance::new(decimal("2"), Resolution::Hours));
    let found = c.get_error_rate(&SignalType::Custom("a".to_string())).unwrap();
    assert_eq!(found.value().text(), "2");
    assert!(c.get_error_rate(&SignalType::Custom("b".to_string())).is_none());
}

fn input(millis: i64, value: &str) -> InputMeasurement {
    InputMeasurement { timestamp: Timestamp::from_millis(millis).unwrap(), value: decimal(value) }
}

#[test]
fn only_new_measurements_are_captured() {
    let inputs = vec![input(1, "1"), input(2, "2"), input(2, "3"), input(3, "4")];
    let ids = new_tx_ids(4);
    let written = batch_capture_new_measurements(&vec![3], &DatasetId::new(), &inputs, &ids);
    assert_eq!(written.places, vec![0, 1]);
    assert_eq!(written.statements.len(), 2);
    assert!(matches!(written.statements[1].params[2], SqlValue::Integer(2)));
    assert!(matches!(&written.statements[1].params[3], SqlValue::Text(s) if s == "2"));
    let refused = capture_new_measurement(&ids[0], &DatasetId::new(), &inputs[0], true);
    assert_eq!(
        refused.unwrap_err().message(),
        "Database error: A measurement exists already at 1"
    );
}

#[test]
fn the_known_range_covers_what_has_come() {
    let inputs = vec![input(5_000, "1"), input(2_000, "1"), input(9_000, "1")];
    let (from, to) = extent_of(&inputs);
    assert_eq!((from, to), (at(2), at(9)));
    assert_eq!(extend_known_range(None, None, from, to), (at(2), at(9)));
    assert_eq!(extend_known_range(Some(at(1)), Some(at(5)), from, to), (at(1), at(9)));
}

#[test]
fn touched_ranges_are_marked() {
    assert!(mark_dirty_regions(&Vec::new(), 1, DirtyReason::Batch).is_empty());
    let marks = mark_dirty_regions(&vec![CompressedRange { start: 1, end: 2 }], 7, DirtyReason::Measurement);
    assert!(marks[0]
        .params
        .iter()
        .any(|v| matches!(v, SqlValue::Text(s) if s == "New measurement inserted into compressed range")));
}

#[test]
fn the_ends_of_a_series_are_joined_in_order_and_once() {
    let both = measurement(2, "2");
    let first = vec![measurement(1, "1"), both.clone()];
    let last = vec![measurement(3, "3"), both];
    let joined = boundary_measurements(first, last);
    let seconds: Vec<i64> = joined.iter().map(|m| m.timestamp.seconds).collect();
    assert_eq!(seconds, vec![1, 2, 3]);
    assert!(!is_cached_query(Some(at(1)), None, 10));
}

#[test]
fn a_correlation_is_kept_until_it_is_forgotten() {
    let aspect = AspectId::new();
    let mut rates: ErrorRates = Table::new();
    rates.insert("gap".to_string(), Distance::new(Decimal::from_i64(3), Resolution::Days));
    let (dictionary, subject) = (DictionaryId::new(), SubjectId::new());
    let (pattern, event) = (PatternID::new(), EventID::new());
    let given = Correlation::new(None, dictionary, subject, &aspect, pattern, event, rates, Vec::new());
    let key = key_of_pair("correlation", aspect.value, given.id().value);
    assert_eq!(key, format!("correlation_{}_{}", aspect.text(), given.id().text()));
    let mut cache = DatabaseCache::new(0);
    cache.store(&key, clone_correlation(&given), 1);
    let kept: Option<Correlation> = cache.get(&key, 2);
    let kept = kept.unwrap();
    assert_eq!((kept.id(), kept.event_id()), (given.id(), given.event_id()));
    assert_eq!(kept.error_rate().get(&"gap".to_string()).unwrap().value().text(), "3");
    let other: Option<Vec<Measurement>> = cache.get(&key, 3);
    assert!(other.is_none());
    cache.invalidate(&key);
    let gone: Option<Correlation> = cache.get(&key, 4);
    assert!(gone.is_none());
}
