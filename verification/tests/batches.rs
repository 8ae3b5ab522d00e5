use pattern_database::batch::Batch;
use pattern_database::batches::{admit_batches, Batches};
use pattern_database::decimal::{Comparison, Decimal};
use pattern_database::ids::{AspectId, DatabaseId};
use pattern_database::measurement::{Analysis, BatchedMeasurement, Point, Trend};
use pattern_database::queue::batches::{
    after_dequeue_by_hash, after_dequeue_by_id, cleanup_processed_batches, dequeue_by_id, parse_queued_row,
    DequeueAction,
};
use pattern_database::queue::{cutoff, rows_counted, rows_matched};
use pattern_database::registry::DatabaseInfo;
use pattern_database::resolution::Resolution;
use pattern_database::sql::SqlValue;
use pattern_database::stats::{exact_count, exact_number, ratio_parts, BatchStats, EventStats, PatternStats};
use pattern_database::store::batches::insert_batch_chunk;
use pattern_database::time::Timestamp;

fn decimal(text: &str) -> Decimal {
    Decimal::parse(text).unwrap()
}

fn info() -> DatabaseInfo {
    DatabaseInfo::new("market".to_string(), "data/market".to_string())
}

fn points(values: &[&str]) -> Vec<Point> {
    values
        .iter()
        .enumerate()
        .map(|(i, v)| Point { timestamp: Timestamp { seconds: 100 + i as i64, nanos: 0 }, value: decimal(v) })
        .collect()
}

fn batch(values: &[&str]) -> Batch {
    let measurements: Vec<BatchedMeasurement> = points(values).into_iter().map(BatchedMeasurement::new).collect();
    Batch::new(measurements.len(), measurements, Resolution::Seconds, AspectId::new(), info())
}

fn same(d: &Decimal, text: &str) -> bool {
    d.compare(&decimal(text)) == Comparison::Equal
}

#[test]
fn vectors_lie_at_their_instants() {
    let mut b = batch(&["1", "5", "2"]);
    b.initialize_measurement_vectors().unwrap();
    let locations = b.get_vector_locations().unwrap();
    let amplitudes = b.get_vector_amplitudes().unwrap();
    assert!(same(&locations[0], "100") && same(&locations[2], "102"));
    assert!(same(&amplitudes[1], "5"));
}

#[test]
fn distances_run_from_nothing_to_one() {
    let mut b = batch(&["1", "5", "2"]);
    b.initialize_measurement_vectors().unwrap();
    b.initialize_distances().unwrap();
    let distance = |i: usize| b.measurements()[i].distance.as_ref().unwrap();
    assert!(same(&distance(0).positive, "0") && same(&distance(0).negative, "1"));
    assert!(same(&distance(1).positive, "0.5") && same(&distance(1).negative, "0.5"));
    assert!(same(&distance(2).positive, "1") && same(&distance(2).negative, "0"));
}

#[test]
fn a_leveled_batch_begins_and_ends_at_nothing() {
    let mut b = batch(&["1", "5", "2"]);
    b.initialize_measurement_vectors().unwrap();
    b.initialize_distances().unwrap();
    b.level_transform().unwrap();
    let amplitudes = b.get_vector_amplitudes().unwrap();
    assert!(same(&amplitudes[0], "0"));
    assert!(same(&amplitudes[1], "3.5"));
    assert!(same(&amplitudes[2], "0"));
}

#[test]
fn the_origin_is_moved_and_the_trend_simplified() {
    let mut b = batch(&["0", "1", "2", "1", "0"]);
    b.initialize_measurement_vectors().unwrap();
    b.initialize_distances().unwrap();
    b.level_transform().unwrap();
    b.transpose_origin().unwrap();
    assert!(same(&b.get_vector_locations().unwrap()[0], "0"));
    b.simplify_transformation().unwrap();
    let locations = b.get_vector_locations().unwrap();
    assert_eq!(locations.len(), 3);
    assert!(same(&locations[1], "2") && same(&locations[2], "4"));
    b.relative_analysis().unwrap();
    let relative = b.measurements()[1].analysis.as_ref().unwrap().relative().unwrap();
    assert!(same(&relative.vector.location, "0.5"));
    assert!(same(&relative.vector.amplitude, "1"));
    assert!(same(&relative.max_x, "4") && same(&relative.max_y, "2"));
}

#[test]
fn a_batch_is_processed_as_a_whole() {
    let mut b = batch(&["0", "1", "2", "1", "0"]);
    b.initialize_measurement_vectors().unwrap();
    b.initialize_distances().unwrap();
    b.process().unwrap();
    assert_eq!(b.measurements().len(), 3);
    assert_eq!(b.size(), 5);
}

#[test]
fn batches_that_cannot_be_analysed_are_refused() {
    let mut empty = batch(&[]);
    assert_eq!(
        empty.level_transform().unwrap_err().message(),
        "Batch is empty, cannot perform level transform"
    );
    assert_eq!(
        empty.relative_analysis().unwrap_err().message(),
        "Batch is empty, cannot perform relative analysis"
    );
    let mut bare = batch(&["1", "2"]);
    bare.set_measurements(points(&["1", "2"]).into_iter().map(BatchedMeasurement::new).collect());
    assert_eq!(
        bare.relative_analysis().unwrap_err().message(),
        "No valid locations or amplitudes found in measurements"
    );
    assert!(bare.level_transform().is_err());
    assert_eq!(
        empty.simplify_transformation().unwrap_err().message(),
        "Batch is empty, cannot perform simplification"
    );
    assert_eq!(bare.simplify_transformation().unwrap_err().message(), "Previous measurement vector not set");
    assert_eq!(bare.measurements().len(), 2);
    let mut half = batch(&["1", "2"]);
    half.initialize_measurement_vectors().unwrap();
    half.simplify_transformation().unwrap();
    assert_eq!(half.measurements().len(), 2);
    let first = half.measurements()[0].clone();
    let second = BatchedMeasurement::new(half.measurements()[1].point.clone());
    half.set_measurements(vec![first, second]);
    assert_eq!(half.simplify_transformation().unwrap_err().message(), "Current measurement vector not set");
    assert_eq!(half.measurements().len(), 2);
    let mut flat = batch(&["3", "3", "3"]);
    flat.initialize_measurement_vectors().unwrap();
    flat.initialize_distances().unwrap();
    assert_eq!(
        flat.process().unwrap_err().message(),
        "Cannot perform relative analysis: max_x or max_y is zero"
    );
}

#[test]
fn there_is_a_batch_for_every_window() {
    let series = points(&["1", "2", "4", "3", "5"]);
    let batches = Batches::new(&series, Resolution::Seconds, AspectId::new(), &info(), 3);
    assert_eq!(batches.len(), 3);
    assert!(same(&batches.get(2).unwrap().measurements()[0].point.value, "4"));
    assert!(Batches::new(&series, Resolution::Seconds, AspectId::new(), &info(), 6).is_empty());
    assert!(Batches::new(&series, Resolution::Seconds, AspectId::new(), &info(), 0).is_empty());
    let limited = Batches::new_with_limited_data(series, Resolution::Seconds, AspectId::new(), &info(), 3, 4);
    assert_eq!(limited.len(), 2);
}

#[test]
fn all_batches_are_shaped() {
    let series = points(&["1", "2", "4", "3", "5"]);
    let mut batches = Batches::new(&series, Resolution::Seconds, AspectId::new(), &info(), 4);
    batches.process_batches().unwrap();
    for b in &batches.batches {
        assert!(same(&b.get_vector_locations().unwrap()[0], "0"));
        assert!(same(&b.get_vector_amplitudes().unwrap()[0], "0"));
    }
    assert!(Batches::existing(Vec::new()).first().is_none());
}

#[test]
fn a_series_is_cut_no_finer_than_it_is() {
    let t = Timestamp { seconds: 1, nanos: 0 };
    let message = |r: Result<(Timestamp, Timestamp), pattern_database::error::Error>| r.unwrap_err().message();
    assert_eq!(message(admit_batches(None, Some(t), None, Resolution::Hours)), "No earliest measurement found");
    assert_eq!(message(admit_batches(Some(t), None, None, Resolution::Hours)), "No latest measurement found");
    assert_eq!(message(admit_batches(Some(t), Some(t), None, Resolution::Hours)), "No aspect resolution found");
    assert_eq!(
        message(admit_batches(Some(t), Some(t), Some(Resolution::Days), Resolution::Hours)),
        "Resolution is less than minimum resolution for aspect"
    );
    assert_eq!(admit_batches(Some(t), Some(t), Some(Resolution::Hours), Resolution::Days).unwrap(), (t, t));
}

#[test]
fn trends_are_kept_by_index() {
    let trend = |s: &str| Trend { slope: decimal(s) };
    let mut analysis = Analysis::new(Some(vec![trend("1"), trend("2"), trend("3")]), None);
    analysis.remove_index(1);
    analysis.remove_index(9);
    assert_eq!(analysis.trend().unwrap().len(), 2);
    assert_eq!(analysis.get_slope(1).unwrap().text(), "3");
    assert!(analysis.get_trend(2).is_none());
}

#[test]
fn counts_are_read_by_status() {
    let row = |status: &str, count: i64| vec![SqlValue::Text(status.to_string()), SqlValue::Integer(count)];
    let rows = vec![row("processed", 3), row("unprocessed", 5), row("other", 9)];
    let stats = BatchStats::of_rows(&rows).unwrap();
    assert_eq!(stats.total_count(), 8);
    assert_eq!(stats.processed_parts().unwrap(), Some((3, 8)));
    assert_eq!(EventStats::of_rows(&rows).unwrap().total_count(), 8);
    assert_eq!(PatternStats::of_rows(&rows).unwrap().total_count(), 8);
    assert_eq!(BatchStats::default().processed_parts().unwrap(), None);
    let bad = vec![row("processed", -3)];
    assert!(BatchStats::of_rows(&bad).unwrap_err().message().contains("Failed to parse count: "));
}

#[test]
fn counts_are_exact_or_refused() {
    assert_eq!(exact_count(9_007_199_254_740_992).unwrap(), 9_007_199_254_740_992);
    assert!(exact_count(9_007_199_254_740_993).is_err());
    assert_eq!(exact_number(-7).unwrap(), -7);
    assert!(exact_number(i64::MIN).is_err());
    assert_eq!(ratio_parts(1, 0).unwrap(), None);
    assert_eq!(ratio_parts(1, 4).unwrap(), Some((1, 4)));
}

#[test]
fn a_batch_is_dequeued_by_its_hash_where_its_id_is_unknown() {
    let owner = DatabaseId::new();
    let mut b = batch(&["1", "2"]);
    assert!(dequeue_by_id(&b).sql.contains("WHERE id = ?"));
    assert!(matches!(after_dequeue_by_id(&b, &owner, Ok(1)), DequeueAction::Done));
    assert!(matches!(after_dequeue_by_id(&b, &owner, Ok(0)), DequeueAction::Fail(_)));
    b.set_batch_hash(Some("abc".to_string()));
    match after_dequeue_by_id(&b, &owner, Ok(0)) {
        DequeueAction::Execute(s) => assert!(matches!(&s.params[0], SqlValue::Text(h) if h == "abc")),
        _ => panic!("the hash is tried"),
    }
    assert!(matches!(after_dequeue_by_hash(Ok(1)), DequeueAction::Done));
    assert!(matches!(after_dequeue_by_hash(Err("x".to_string())), DequeueAction::Fail(_)));
}

#[test]
fn queued_batches_are_read() {
    let b = batch(&["1"]);
    let row = vec![
        SqlValue::Text(b.batch_id.text()),
        SqlValue::Integer(1),
        SqlValue::Text("seconds".to_string()),
        SqlValue::Text("[]".to_string()),
        SqlValue::Text("abc".to_string()),
    ];
    let read = parse_queued_row(&row, Ok(Vec::new())).unwrap().batch(AspectId::new(), info());
    assert_eq!(read.batch_id, b.batch_id);
    assert_eq!(read.metadata.resolution, Resolution::Seconds);
    assert_eq!(
        parse_queued_row(&row, Err("bad".to_string())).unwrap_err().message(),
        "Database error: Failed to deserialize measurements: bad"
    );
}

#[test]
fn days_are_counted_back() {
    let now = Timestamp { seconds: 1_000_000, nanos: 7 };
    assert_eq!(cutoff(&now, 2), Timestamp { seconds: 1_000_000 - 2 * 86_400, nanos: 7 });
    let step = cleanup_processed_batches(&AspectId::new(), &DatabaseId::new(), &now, 1);
    assert!(matches!(step.statement.params[2], SqlValue::Integer(n) if n > 0));
    assert!(rows_matched(0, "none").is_err());
    assert_eq!(rows_counted(12, true).unwrap(), 12);
}

#[test]
fn a_chunk_of_batches_is_written_one_by_one() {
    let chunk = vec![batch(&["1", "2"]), batch(&["3", "4"])];
    let script = insert_batch_chunk(&chunk, &DatabaseId::new(), &vec![5, 6]);
    assert_eq!(script.steps.len(), 2);
    assert!(script.stop.is_none());
    assert_eq!(script.steps[0].statement.params.len(), 9);
}
