use pattern_database::aspect::Schema;
use pattern_database::batch::Batch;
use pattern_database::catalog::{list_all_query, list_aspects_query, schema_query, store_declaration, AspectKey, CatalogStore};
use pattern_database::correlation::{Correlation, Distance, ErrorRates};
use pattern_database::decimal::{Decimal, OPERAND_SCALE_LIMIT};
use pattern_database::dictionary::{DictionaryConstraints, DictionaryMetadata, Steps};
use pattern_database::error::Error;
use pattern_database::event::{Event, Manifestation, Manifestations};
use pattern_database::ids::{
    AspectId, CorrelationID, DatabaseId, DatasetId, DictionaryId, EventID, ManifestationId, MeasurementId, PatternID,
    SubjectId, TxId,
};
use pattern_database::measurement::{BatchedMeasurement, InputMeasurement, Measurement, MeasurementVector, Point, Relative};
use pattern_database::pattern::{Occurrence, Pattern};
use pattern_database::registry::DatabaseInfo;
use pattern_database::resolution::{Resolution, Spline};
use pattern_database::queue::batches::{cleanup_processed_batches, get_processed_batches_queue};
use pattern_database::queue::events::{
    dequeue_processed_event, event_dequeued, get_processed_events_queue, mark_event_processed, store_event,
};
use pattern_database::sql::{statement, SqlValue, Statement};
use pattern_database::store::batches::{
    batch_query, batches_query, bulk_remove_batches, insert_processed_batch, insert_unprocessed_batch,
    move_batches_to_processed, parse_batch_row, BatchStatus,
};
use pattern_database::store::correlations::{
    correlation_queries, delete_correlation_from_dictionary, get_correlation_by_id_from_dictionary,
    get_correlations_from_dictionary, insert_correlation, page_ids, page_query, parse_dictionary_row,
    remove_correlation, store_correlation_in_dictionary, update_correlation, update_correlation_in_dictionary,
};
use pattern_database::store::dictionaries::{
    all_metadata_query, constraint_query, metadata_query, new_dictionary, parse_constraint_row, parse_metadata_row,
    set_dictionary_metadata,
};
use pattern_database::store::events::{
    clear_staged_events, event_ids_query, event_query, insert_staged_event, manifestations_query,
    parse_event_id_row, remove_staged_event, EventStage,
};
use pattern_database::store::measurements::{
    average_of, batch_capture_measurements, capture_measurement, capture_measurement_chunk, existing_measurement,
    new_tx_ids, read_stored_value, replace_measurements_in_range, settle,
};
use pattern_database::store::metadata::{
    all_subjects_query, aspect_count_query, creation_time_query, database_id_query, db_name_query, get_aspect_by_name,
    get_aspect_resolution, get_subject_by_name, get_subject_name_query, insert_database, known_earliest_query,
    known_latest_query, list_aspects, list_subjects, metadata_tables, parse_aspect_rows, parse_count,
    parse_millis_row, parse_resolution_row, parse_subject_row, parse_subject_rows, record_transaction,
    subject_aspects_query, subject_count_query, track_aspect, track_subject, update_aspect_timestamps,
};
use pattern_database::store::observations::{
    known_range_query, observe_measurement, own_table_definitions, parse_known_range, track_own_table,
    update_known_range,
};
use pattern_database::store::occurrences::parse_patterned_row;
use pattern_database::store::patterns::{
    insert_pattern_into_dictionary, pattern_queries, remove_pattern, Figures,
};
use pattern_database::store::reader::{Reader, ReaderOutcome, ReaderStep};
use pattern_database::store::readings::{
    boundary_measurements, cursor_after, first_measurements_query, last_measurements_query, measurements_count, measurements_count_query, next_page,
    parse_measurement_row, sorted_measurements,
};
use pattern_database::store::whole::{
    get_correlation, get_dictionary_pattern, get_processed_event, get_unprocessed_event,
};
use pattern_database::table::Table;
use pattern_database::time::Timestamp;
use pattern_database::transaction::{after_statement, first_action, Action, Step};

fn run<T>(work: impl std::future::Future<Output = T>) -> T {
    tokio::runtime::Builder::new_current_thread().enable_all().build().unwrap().block_on(work)
}

fn bound(v: &SqlValue) -> turso::Value {
    match v {
        SqlValue::Null => turso::Value::Null,
        SqlValue::Integer(n) => turso::Value::Integer(*n),
        SqlValue::Real(s) => turso::Value::Real(s.parse().unwrap()),
        SqlValue::Text(s) => turso::Value::Text(s.clone()),
        SqlValue::Blob(b) => turso::Value::Blob(b.clone()),
    }
}

fn read(v: turso::Value) -> SqlValue {
    match v {
        turso::Value::Null => SqlValue::Null,
        turso::Value::Integer(n) => SqlValue::Integer(n),
        turso::Value::Real(x) => SqlValue::Real(x.to_string()),
        turso::Value::Text(s) => SqlValue::Text(s),
        turso::Value::Blob(b) => SqlValue::Blob(b),
    }
}

async fn execute(conn: &turso::Connection, s: &Statement) -> Result<u64, String> {
    let params: Vec<turso::Value> = s.params.iter().map(bound).collect();
    conn.execute(&s.sql, params).await.map_err(|e| e.to_string())
}

async fn rows(conn: &turso::Connection, s: &Statement) -> Vec<Vec<SqlValue>> {
    let params: Vec<turso::Value> = s.params.iter().map(bound).collect();
    let mut found = conn.query(&s.sql, params).await.unwrap();
    let mut rows = Vec::new();
    while let Some(row) = found.next().await.unwrap() {
        rows.push((0..row.column_count()).map(|i| read(row.get_value(i).unwrap())).collect());
    }
    rows
}

/// Carries out the steps of a transaction.
async fn carry_out(conn: &turso::Connection, steps: &Vec<Step>) {
    let mut action = first_action(steps);
    loop {
        match action {
            Action::Execute(i) => {
                let outcome = execute(conn, &steps[i].statement).await;
                action = after_statement(steps, i, outcome);
            }
            Action::Commit => return,
            Action::RollBack(message) => panic!("{message}"),
            Action::Fail(e) => panic!("{}", e.message()),
        }
    }
}

async fn database(schema: Schema) -> turso::Connection {
    let conn = turso::Builder::new_local(":memory:").build().await.unwrap().connect().unwrap();
    for table in schema.tables() {
        let none: Vec<turso::Value> = Vec::new();
        let outcome = conn.execute(table.sql, none).await;
        assert!(table.is_optional || outcome.is_ok(), "{}: {outcome:?}", table.sql);
    }
    conn
}

async fn empty() -> turso::Connection {
    turso::Builder::new_local(":memory:").build().await.unwrap().connect().unwrap()
}

fn decimal(text: &str) -> Decimal {
    Decimal::parse(text).unwrap()
}

fn at(millis: i64) -> Timestamp {
    Timestamp::from_millis(millis).unwrap()
}

fn input(millis: i64, value: &str) -> InputMeasurement {
    InputMeasurement { timestamp: at(millis), value: decimal(value) }
}

fn read_measurements(found: &Vec<Vec<SqlValue>>) -> Vec<Measurement> {
    found.iter().map(|row| parse_measurement_row(row).unwrap()).collect()
}

fn values(measurements: &Vec<Measurement>) -> Vec<(i64, String)> {
    measurements.iter().map(|m| (m.timestamp.millis(), m.value.text())).collect()
}

#[test]
fn measurements_are_read_back() {
    run(async {
        let conn = database(Schema::Measurements).await;
        let dataset = DatasetId::new();
        let chunk = vec![input(1_000, "1.5"), input(2_000, "-2.25"), input(3_000, "1000")];
        let ids = new_tx_ids(3);
        carry_out(&conn, &capture_measurement_chunk(&dataset, &chunk, &ids)).await;
        let page = read_measurements(&rows(&conn, &next_page(None, None, None)).await);
        assert_eq!(
            values(&page),
            vec![(1_000, "1.5".to_string()), (2_000, "-2.25".to_string()), (3_000, "1000".to_string())]
        );
        assert_eq!(page[1].dataset_id, dataset);
        assert_eq!(page[1].id.value, ids[1].value);
        let between = rows(&conn, &next_page(None, Some(at(2_000)), Some(at(2_500)))).await;
        assert_eq!(between.len(), 1);
        let cursor = cursor_after(None, &page);
        assert_eq!(cursor, Some(3_000));
        assert!(rows(&conn, &next_page(cursor, None, None)).await.is_empty());
        let count = rows(&conn, &measurements_count_query()).await;
        assert_eq!(measurements_count(count.first()).unwrap(), 3);
    });
}

#[test]
fn a_measurement_at_a_taken_instant_is_averaged() {
    run(async {
        let conn = database(Schema::Measurements).await;
        let dataset = DatasetId::new();
        let first = capture_measurement(&TxId::new(), &dataset, &input(5_000, "10"), None);
        execute(&conn, &first).await.unwrap();
        let found = rows(&conn, &existing_measurement(&at(5_000))).await;
        let stored = read_stored_value(&found).unwrap();
        let second = capture_measurement(&TxId::new(), &dataset, &input(5_000, "13"), stored.as_ref());
        execute(&conn, &second).await.unwrap();
        let page = read_measurements(&rows(&conn, &next_page(None, None, None)).await);
        assert_eq!(values(&page), vec![(5_000, "11.5".to_string())]);
        assert!(read_stored_value(&rows(&conn, &existing_measurement(&at(6_000))).await).unwrap().is_none());
    });
}

#[test]
fn a_stored_value_that_cannot_be_averaged_is_told_of() {
    let refused = |value: SqlValue| read_stored_value(&vec![vec![value]]).unwrap_err().message();
    assert_eq!(refused(SqlValue::Integer(3)), "Database error: Value is not text");
    assert!(refused(SqlValue::Text("much".to_string())).starts_with("Database error: Invalid value format: "));
    let told = "An average has too many digits behind the point";
    assert_eq!(refused(SqlValue::Text("1E-1000000001".to_string())), told);
}

#[test]
fn measurements_that_come_together_are_settled_and_stored() {
    run(async {
        let conn = database(Schema::Measurements).await;
        let dataset = DatasetId::new();
        let taken = capture_measurement(&TxId::new(), &dataset, &input(1_000, "4"), None);
        execute(&conn, &taken).await.unwrap();
        let mut existing: Table<i64, Decimal> = Table::new();
        existing.insert(1_000, decimal("4"));
        let inputs = vec![input(1_000, "8"), input(2_000, "3"), input(2_000, "5")];
        let settled = settle(&existing, &inputs).unwrap();
        let ids = new_tx_ids(settled.len());
        let script = batch_capture_measurements(&existing, &settled, &dataset, &ids, inputs.len());
        carry_out(&conn, &script.inserts).await;
        carry_out(&conn, &script.updates).await;
        let page = read_measurements(&rows(&conn, &next_page(None, None, None)).await);
        assert_eq!(values(&page), vec![(1_000, "6".to_string()), (2_000, "4".to_string())]);
    });
}

#[test]
fn an_average_that_is_too_fine_is_not_averaged_again() {
    let fine = |digit: u8| Decimal { mantissa: vec![digit], scale: OPERAND_SCALE_LIMIT };
    let input = |digit: u8| InputMeasurement { timestamp: at(1_000), value: fine(digit) };
    let settled = settle(&Table::new(), &vec![input(1), input(2)]).unwrap();
    assert_eq!(settled.get(&1_000).unwrap().value.text(), "1.5E-1000000000");
    let refused = settle(&Table::new(), &vec![input(1), input(2), input(3)]).unwrap_err();
    assert_eq!(refused.message(), "An average has too many digits behind the point");
    assert_eq!(settle(&Table::new(), &vec![input(1), input(3), input(2)]).unwrap().len(), 1);
    let captured = capture_measurement(&TxId::new(), &DatasetId::new(), &input(1), Some(&fine(2)));
    assert!(matches!(&captured.params[0], SqlValue::Text(s) if s == "1.5E-1000000000"));
}

#[test]
fn an_average_is_the_half_of_the_sum() {
    let average = |a: &str, b: &str| average_of(&decimal(a), &decimal(b)).text();
    assert_eq!(average("1", "2"), "1.5");
    assert_eq!(average("-1.25", "0.5"), "-0.375");
    assert_eq!(average("2", "2"), "2");
    assert_eq!(average(&"9".repeat(98), "0"), format!("4{}.5", "9".repeat(97)));
}

#[test]
fn dequeuing_a_processed_event_leaves_the_others() {
    run(async {
        let conn = empty().await;
        let table = "CREATE TABLE events (id TEXT, database_id TEXT, name TEXT, manifestations TEXT, \
                     status TEXT DEFAULT 'unprocessed', created_at INTEGER, processed_at INTEGER)";
        execute(&conn, &statement(table, Vec::new())).await.unwrap();
        let owner = DatabaseId::new();
        let (first, second, third) = (event(), event(), event());
        for e in [&first, &second, &third] {
            carry_out(&conn, &vec![store_event(e, &owner, "{}", 1)]).await;
        }
        for e in [&first, &second] {
            carry_out(&conn, &vec![mark_event_processed(&e.id, 2)]).await;
        }
        let met = execute(&conn, &dequeue_processed_event(&first.id).statement).await.unwrap();
        event_dequeued(met).unwrap();
        let listed = rows(&conn, &get_processed_events_queue(&owner)).await;
        assert_eq!(listed.len(), 1);
        assert!(matches!(&listed[0][0], SqlValue::Text(s) if *s == second.id.text()));
        let met = execute(&conn, &dequeue_processed_event(&third.id).statement).await.unwrap();
        assert_eq!(
            event_dequeued(met).unwrap_err().message(),
            "No matching processed event found to dequeue"
        );
        let left = rows(&conn, &statement("SELECT id FROM events", Vec::new())).await;
        assert_eq!(left.len(), 2);
    });
}

#[test]
fn a_range_of_measurements_is_replaced() {
    run(async {
        let conn = database(Schema::Measurements).await;
        let dataset = DatasetId::new();
        let chunk = vec![input(1_000, "1"), input(2_000, "2"), input(3_000, "3")];
        carry_out(&conn, &capture_measurement_chunk(&dataset, &chunk, &new_tx_ids(3))).await;
        let fresh = vec![input(1_500, "9")];
        let steps = replace_measurements_in_range(&dataset, &at(1_000), &at(2_000), &fresh, &new_tx_ids(1));
        carry_out(&conn, &steps).await;
        let page = read_measurements(&rows(&conn, &next_page(None, None, None)).await);
        assert_eq!(values(&page), vec![(1_500, "9".to_string()), (3_000, "3".to_string())]);
    });
}

fn batch(aspect: AspectId) -> Batch {
    let point = |millis: i64, value: &str| {
        BatchedMeasurement::new(Point { timestamp: at(millis), value: decimal(value) })
    };
    Batch::new(
        2,
        vec![point(1_000, "1"), point(2_000, "2")],
        Resolution::Seconds,
        aspect,
        DatabaseInfo::new("market".to_string(), "/data/market".to_string()),
    )
}

#[test]
fn batches_are_read_back() {
    run(async {
        let conn = database(Schema::Batches).await;
        let aspect = AspectId::new();
        let owner = DatabaseId::new();
        let written = batch(aspect);
        let step = insert_unprocessed_batch(&aspect, &owner, &written, "[]", 17).unwrap();
        carry_out(&conn, &vec![step]).await;
        let found = rows(&conn, &batch_query(&written.batch_id)).await;
        let got = parse_batch_row(&found[0], Ok(Vec::new()), "market", "/data/market").unwrap();
        assert_eq!(got.batch_id, written.batch_id);
        assert_eq!(got.metadata.aspect, aspect);
        assert_eq!(got.size(), 2);
        assert_eq!(got.metadata.resolution, Resolution::Seconds);
        assert_eq!(got.batch_hash().unwrap(), "d751713988987e9331980363e24189ce");
        assert_eq!(rows(&conn, &batches_query(&aspect, &owner)).await.len(), 1);
        let refused = parse_batch_row(&found[0], Err("no".to_string()), "market", "/data/market");
        assert_eq!(
            refused.unwrap_err().message(),
            "Database error: Failed to parse batch measurements JSON: no"
        );
    });
}

#[test]
fn moved_batches_leave_one_queue_for_the_other() {
    run(async {
        let waiting = database(Schema::Batches).await;
        let done = database(Schema::Batches).await;
        let aspect = AspectId::new();
        let owner = DatabaseId::new();
        let batches: Vec<Batch> = (0..3).map(|_| batch(aspect)).collect();
        for b in &batches {
            let step = insert_unprocessed_batch(&aspect, &owner, b, "[]", 1).unwrap();
            carry_out(&waiting, &vec![step]).await;
        }
        let texts = vec!["[]".to_string(); 3];
        let moved = move_batches_to_processed(&aspect, &owner, &batches, &texts, 2);
        for step in moved.inserts {
            carry_out(&done, &vec![step]).await;
        }
        for step in moved.deletes {
            carry_out(&waiting, &vec![step]).await;
        }
        assert_eq!(rows(&done, &batches_query(&aspect, &owner)).await.len(), 3);
        assert!(rows(&waiting, &batches_query(&aspect, &owner)).await.is_empty());
        let ids = vec![batches[0].batch_id, batches[2].batch_id];
        carry_out(&done, &bulk_remove_batches(&ids, BatchStatus::Processed)).await;
        let left = rows(&done, &batches_query(&aspect, &owner)).await;
        assert_eq!(left.len(), 1);
        let again = insert_processed_batch(&aspect, &owner, &batches[0], "[1]", 3).unwrap();
        carry_out(&done, &vec![again]).await;
        assert_eq!(rows(&done, &batches_query(&aspect, &owner)).await.len(), 2);
    });
}

fn occurrence(aspect: AspectId, pattern_id: PatternID, from: i64, to: i64) -> Occurrence {
    Occurrence {
        aspect,
        resolution: Resolution::Minutes,
        size: 4,
        database_info: DatabaseInfo::new("market".to_string(), "/data/market".to_string()),
        pattern_id,
        beginning: at(from),
        end: at(to),
    }
}

fn relative(location: &str, amplitude: &str) -> Relative {
    Relative {
        vector: MeasurementVector { location: decimal(location), amplitude: decimal(amplitude) },
        max_x: decimal("1"),
        max_y: decimal("2"),
    }
}

fn figures() -> Figures {
    Figures {
        sum: decimal("3"),
        abs_sum: decimal("5"),
        max: decimal("4"),
        min: decimal("-1"),
        abs_max: decimal("4"),
        avg: decimal("1.5"),
        abs_avg: decimal("2.5"),
    }
}

#[test]
fn patterns_of_a_dictionary_are_read_back() {
    run(async {
        let conn = database(Schema::Dictionary).await;
        let aspect = AspectId::new();
        let id = PatternID::new();
        let pattern = Pattern::new(
            id,
            vec![occurrence(aspect, id, 60_000, 120_000), occurrence(aspect, id, 180_000, 240_000)],
            vec![relative("0", "-1"), relative("1", "4")],
        );
        let infos = vec!["{}".to_string(), "{}".to_string()];
        let texts = vec!["first".to_string(), "second".to_string()];
        let script = insert_pattern_into_dictionary(&aspect, &pattern, &figures(), &infos, &texts);
        assert!(script.stop.is_none());
        carry_out(&conn, &script.steps).await;
        let queries = pattern_queries(&id);
        let heads = rows(&conn, &queries[0]).await;
        let stretches = rows(&conn, &queries[1]).await;
        let relatives = rows(&conn, &queries[2]).await;
        assert_eq!((stretches.len(), relatives.len()), (2, 2));
        assert!(matches!(&relatives[1][2], SqlValue::Text(s) if s == "second"));
        let market = || DatabaseInfo::new("market".to_string(), "/data/market".to_string());
        let values = vec![Ok(relative("0", "-1")), Ok(relative("1", "4"))];
        let infos = vec![Ok(market()), Ok(market())];
        let got = get_dictionary_pattern(&id, &heads, &stretches, infos, &relatives, values).unwrap();
        assert_eq!(got.id, id);
        assert_eq!(got.occurrences[1].beginning, at(180_000));
        assert_eq!(got.occurrences[1].aspect, aspect);
        assert_eq!(got.relatives[1].vector.amplitude.text(), "4");
        let values = vec![Ok(relative("0", "-1")), Err("no value".to_string())];
        let infos = vec![Ok(market()), Ok(market())];
        let refused = get_dictionary_pattern(&id, &heads, &stretches, infos, &relatives, values).unwrap_err();
        assert_eq!(refused.message(), "Database error: Failed to parse relative JSON: no value");
        let missing = get_dictionary_pattern(&id, &Vec::new(), &Vec::new(), Vec::new(), &Vec::new(), Vec::new());
        assert_eq!(missing.unwrap_err().message(), format!("Pattern with ID {} not found", id.text()));
        carry_out(&conn, &vec![remove_pattern(&id)]).await;
        assert!(rows(&conn, &queries[0]).await.is_empty());
    });
}

fn correlation(aspect: &AspectId) -> Correlation {
    let pattern_id = PatternID::new();
    let occurrences = vec![
        occurrence(*aspect, pattern_id, 60_000, 120_000),
        occurrence(*aspect, pattern_id, 180_000, 240_000),
    ];
    Correlation::new(
        None,
        DictionaryId::new(),
        SubjectId::new(),
        aspect,
        pattern_id,
        EventID::new(),
        ErrorRates::new(),
        occurrences,
    )
}

async fn read_correlation(conn: &turso::Connection, id: &CorrelationID) -> Result<Correlation, Error> {
    let queries = correlation_queries(id);
    let heads = rows(conn, &queries[0]).await;
    let rates = rows(conn, &queries[1]).await;
    let stretches = rows(conn, &queries[2]).await;
    let market = || DatabaseInfo::new("market".to_string(), "/data/market".to_string());
    let infos = stretches.iter().map(|_| Ok(market())).collect();
    get_correlation(id, &heads, &rates, &stretches, infos)
}

#[test]
fn correlations_are_read_back() {
    run(async {
        let conn = database(Schema::Correlations).await;
        let aspect = AspectId::new();
        let mut written = correlation(&aspect);
        written.set_average_distance(Some(Distance::new(decimal("2.5"), Resolution::Hours)));
        written.error_rate.insert("gap".to_string(), Distance::new(decimal("0.75"), Resolution::Days));
        written.error_rate.insert("fade".to_string(), Distance::new(decimal("3"), Resolution::Minutes));
        let infos = vec!["{}".to_string(), "{}".to_string()];
        let script = insert_correlation(&written, &infos, 5, 6);
        assert!(script.stop.is_none());
        carry_out(&conn, &script.steps).await;
        let got = read_correlation(&conn, written.id()).await.unwrap();
        assert_eq!(got.id(), written.id());
        assert_eq!(got.dictionary_id(), written.dictionary_id());
        assert_eq!(got.subject_id(), written.subject_id());
        assert_eq!(got.event_id(), written.event_id());
        assert_eq!(got.average_distance().unwrap().value().text(), "2.5");
        assert_eq!(got.average_distance().unwrap().units(), Resolution::Hours);
        assert_eq!(got.error_rate().len(), 2);
        assert_eq!(got.error_rate().get(&"gap".to_string()).unwrap().value().text(), "0.75");
        assert_eq!(got.error_rate().get(&"fade".to_string()).unwrap().units(), Resolution::Minutes);
        assert_eq!(got.occurrences().len(), 2);
        assert_eq!(got.occurrences()[0].beginning, at(60_000));
        assert_eq!(got.occurrences()[1].end, at(240_000));
        let ids: Vec<SqlValue> =
            rows(&conn, &page_query(0)).await.into_iter().map(|mut row| row.remove(0)).collect();
        assert_eq!(page_ids(&ids), vec![*written.id()]);

        let other = correlation(&aspect);
        carry_out(&conn, &insert_correlation(&other, &infos, 5, 6).steps).await;
        written.occurrences[1].end = at(250_017);
        written.error_rate.insert("gap".to_string(), Distance::new(decimal("0.5"), Resolution::Days));
        written.error_rate.remove(&"fade".to_string());
        let script = update_correlation(&written, &infos, 7);
        assert!(script.stop.is_none());
        carry_out(&conn, &script.steps).await;
        let got = read_correlation(&conn, written.id()).await.unwrap();
        assert_eq!(got.error_rate().len(), 1);
        assert_eq!(got.error_rate().get(&"gap".to_string()).unwrap().value().text(), "0.5");
        assert_eq!(got.occurrences().len(), 2);
        for (read, given) in got.occurrences().iter().zip(written.occurrences()) {
            assert_eq!((read.beginning, read.end), (given.beginning, given.end));
        }
        assert_eq!(rows(&conn, &correlation_queries(written.id())[0]).await.len(), 1);
        let kept = read_correlation(&conn, other.id()).await.unwrap();
        assert_eq!(kept.occurrences()[0].beginning, other.occurrences()[0].beginning);
        assert_eq!(kept.occurrences().len(), 2);
        carry_out(&conn, &remove_correlation(written.id())).await;
        assert!(rows(&conn, &correlation_queries(written.id())[2]).await.is_empty());
        let missing = read_correlation(&conn, written.id()).await.unwrap_err();
        assert_eq!(missing.message(), format!("Correlation with ID {} not found", written.id().text()));
    });
}

#[test]
fn correlations_in_a_dictionary_are_replaced() {
    run(async {
        let conn = database(Schema::Correlations).await;
        let aspect = AspectId::new();
        let (first, second) = (correlation(&aspect), correlation(&aspect));
        for c in [&first, &second] {
            execute(&conn, &store_correlation_in_dictionary(c, "{}", "[]", 3)).await.unwrap();
        }
        carry_out(&conn, &update_correlation_in_dictionary(&first, "{\"a\":1}", "[1]", 4)).await;
        let found = rows(&conn, &get_correlation_by_id_from_dictionary(first.id())).await;
        assert_eq!(found.len(), 1);
        assert!(matches!(&found[0][4], SqlValue::Text(s) if s == "{\"a\":1}"));
        assert!(matches!(&found[0][5], SqlValue::Text(s) if s == "[1]"));
        let read = parse_dictionary_row(&found[0], Ok(Vec::new()), Ok(Vec::new()), *first.subject_id(), &aspect);
        assert_eq!(read.unwrap().id(), first.id());
        let all = rows(&conn, &get_correlations_from_dictionary()).await;
        assert_eq!(all.len(), 2);
        let kept = rows(&conn, &get_correlation_by_id_from_dictionary(second.id())).await;
        assert!(matches!(&kept[0][5], SqlValue::Text(s) if s == "[]"));
        carry_out(&conn, &vec![delete_correlation_from_dictionary(first.id())]).await;
        assert!(rows(&conn, &get_correlation_by_id_from_dictionary(first.id())).await.is_empty());
    });
}

#[test]
fn what_is_known_of_a_dictionary_is_set_anew() {
    run(async {
        let conn = empty().await;
        let known = |description: &str| DictionaryMetadata {
            id: DictionaryId::new(),
            name: "shapes".to_string(),
            description: description.to_string(),
            constraints: DictionaryConstraints::new(None, None),
        };
        let (first, second, other) = (known("some"), known("all"), known("none"));
        carry_out(&conn, &set_dictionary_metadata("others", &other, 1)).await;
        carry_out(&conn, &set_dictionary_metadata("shapes", &first, 2)).await;
        carry_out(&conn, &set_dictionary_metadata("shapes", &second, 3)).await;
        let found = rows(&conn, &metadata_query("shapes")).await;
        assert_eq!(found.len(), 1);
        let head = parse_metadata_row(&found[0]).unwrap();
        assert_eq!((head.id, head.name.as_str(), head.description.as_str()), (second.id, "shapes", "all"));
        let all = rows(&conn, &all_metadata_query()).await;
        assert_eq!(all.len(), 2);
        assert_eq!(parse_metadata_row(&rows(&conn, &metadata_query("others")).await[0]).unwrap().id, other.id);
    });
}

fn event() -> Event {
    let mut manifestations: Manifestations = Table::new();
    let id = ManifestationId::new();
    manifestations.insert(id.value, Manifestation::with_id(id, DatasetId::new(), at(1_000), at(9_000)));
    Event::new(None, "storm".to_string(), Some("wind".to_string()), Some(manifestations))
}

#[test]
fn events_are_read_back() {
    run(async {
        for stage in [EventStage::Unprocessed, EventStage::Processed] {
            let conn = database(Schema::Events).await;
            let written = event();
            let get = |heads: &Vec<Vec<SqlValue>>, manifestations: &Vec<Vec<SqlValue>>| match stage {
                EventStage::Unprocessed => get_unprocessed_event(&written.id, heads, manifestations),
                EventStage::Processed => get_processed_event(&written.id, heads, manifestations),
            };
            carry_out(&conn, &insert_staged_event(&written, stage, 12)).await;
            let found = rows(&conn, &event_query(&written.id)).await;
            let manifestations = rows(&conn, &manifestations_query(&written.id)).await;
            let got = get(&found, &manifestations).unwrap();
            assert_eq!(got.manifestations.len(), 1);
            assert_eq!(got.id, written.id);
            assert_eq!(got.name, "storm");
            assert_eq!(got.description.unwrap(), "wind");
            let key = written.manifestations.entries[0].key;
            assert_eq!(got.manifestations.get(&key).unwrap().end, at(9_000));
            let kind = match stage {
                EventStage::Unprocessed => "Unprocessed",
                EventStage::Processed => "Processed",
            };
            let missing = get(&Vec::new(), &Vec::new()).unwrap_err();
            assert_eq!(missing.message(), format!("{kind} Event with ID {} not found", written.id.text()));
            let ids = rows(&conn, &event_ids_query()).await;
            assert_eq!(parse_event_id_row(&ids[0], stage).unwrap(), written.id);
            carry_out(&conn, &remove_staged_event(&written.id, stage)).await;
            assert!(rows(&conn, &event_ids_query()).await.is_empty());
            carry_out(&conn, &insert_staged_event(&written, stage, 13)).await;
            carry_out(&conn, &clear_staged_events(stage)).await;
            assert!(rows(&conn, &manifestations_query(&written.id)).await.is_empty());
        }
    });
}

#[test]
fn the_constraints_of_a_new_dictionary_are_stored() {
    run(async {
        let conn = database(Schema::Dictionary).await;
        let id = DictionaryId::new();
        let constraints = DictionaryConstraints::new(Some(Steps::new(12, Spline::Cubic)), None);
        carry_out(&conn, &new_dictionary(&id, "shapes", "all", &constraints, "", 3)).await;
        let found = rows(&conn, &constraint_query(&id)).await;
        assert_eq!(found.len(), 1);
        let steps = parse_constraint_row(&found[0]).unwrap().steps.unwrap();
        assert_eq!(steps.count(), 12);
        assert_eq!(*steps.interpolation(), Spline::Cubic);
        let known = rows(&conn, &metadata_query("shapes")).await;
        assert_eq!(parse_metadata_row(&known[0]).unwrap().id, id);
        let bare = DictionaryId::new();
        let none = DictionaryConstraints::new(None, None);
        carry_out(&conn, &new_dictionary(&bare, "bare", "all", &none, "", 3)).await;
        let found = rows(&conn, &constraint_query(&bare)).await;
        assert!(parse_constraint_row(&found[0]).unwrap().steps.is_none());
        let negative = vec![SqlValue::Integer(-2), SqlValue::Text("Cubic".to_string())];
        assert!(parse_constraint_row(&negative).unwrap_err().message().contains("Invalid steps count format: "));
        let bad = vec![SqlValue::Blob(vec![1]), SqlValue::Null];
        assert_eq!(parse_constraint_row(&bad).unwrap_err().message(), "Database error: Steps count is not text");
    });
}

#[test]
fn processed_batches_are_listed_by_age_and_cleaned_up() {
    run(async {
        let conn = database(Schema::Batches).await;
        let (aspect, owner) = (AspectId::new(), DatabaseId::new());
        let day = 86_400_000;
        let mut ids = Vec::new();
        for written_at in [5 * day, 2 * day, 9 * day] {
            let b = batch(aspect);
            ids.push(b.batch_id);
            carry_out(&conn, &vec![insert_processed_batch(&aspect, &owner, &b, "[]", written_at).unwrap()]).await;
        }
        let listed = rows(&conn, &get_processed_batches_queue(&aspect, &owner)).await;
        let texts: Vec<&SqlValue> = listed.iter().map(|row| &row[0]).collect();
        for (text, id) in texts.iter().zip([ids[1], ids[0], ids[2]]) {
            assert!(matches!(text, SqlValue::Text(s) if *s == id.text()));
        }
        let step = cleanup_processed_batches(&aspect, &owner, &at(10 * day), 4);
        assert_eq!(execute(&conn, &step.statement).await.unwrap(), 2);
        assert_eq!(rows(&conn, &get_processed_batches_queue(&aspect, &owner)).await.len(), 1);
    });
}

#[test]
fn a_database_knows_its_subjects_and_aspects() {
    run(async {
        let conn = empty().await;
        for table in metadata_tables() {
            execute(&conn, &table).await.unwrap();
        }
        let owner = DatabaseId::new();
        execute(&conn, &insert_database(&owner, "market", 1, "/data/market/metadata.db")).await.unwrap();
        let name = rows(&conn, &db_name_query()).await;
        assert!(matches!(&name[0][0], SqlValue::Text(s) if s == "market"));
        let subject = SubjectId::new();
        carry_out(&conn, &vec![track_subject(&subject, &owner, "BTCUSD", 2)]).await;
        let subjects = parse_subject_rows(&rows(&conn, &list_subjects(&owner)).await).unwrap();
        assert_eq!(subjects.len(), 1);
        assert_eq!(subjects[0].id, subject);
        let found = rows(&conn, &get_subject_name_query(&subject)).await;
        assert!(matches!(&found[0][0], SqlValue::Text(s) if s == "BTCUSD"));
        let aspect = AspectId::new();
        let added = track_aspect(&Vec::new(), &aspect, &subject, "BTCUSD", &owner, "price", "\"Hours\"", 3);
        execute(&conn, &added.unwrap()).await.unwrap();
        let found = rows(&conn, &list_aspects(&subject)).await;
        let aspects = parse_aspect_rows(&found, vec![Ok(Resolution::Hours)]).unwrap();
        assert_eq!(aspects[0].id, aspect);
        carry_out(&conn, &vec![record_transaction(&TxId::new(), "added", 4)]).await;

        let known = rows(&conn, &known_range_query(&aspect)).await;
        assert_eq!(parse_known_range(known.first()).unwrap(), (None, None));
        carry_out(&conn, &vec![update_known_range(&aspect, &at(1_000), &at(8_000))]).await;
        let known = rows(&conn, &known_range_query(&aspect)).await;
        assert_eq!(parse_known_range(known.first()).unwrap(), (Some(at(1_000)), Some(at(8_000))));
        execute(&conn, &update_aspect_timestamps(&aspect, &at(0), &at(1_000))).await.unwrap();
        let known = rows(&conn, &known_range_query(&aspect)).await;
        assert!(matches!(&known[0][1], SqlValue::Text(s) if s == "1970-01-01T00:00:01+00:00"));
    });
}

#[test]
fn stretches_of_patterns_are_read_back() {
    let aspect = AspectId::new();
    let id = PatternID::new();
    let row = vec![
        SqlValue::Text(id.text()),
        SqlValue::Text(aspect.text()),
        SqlValue::Text("minutes".to_string()),
        SqlValue::Integer(4),
        SqlValue::Text("{}".to_string()),
        SqlValue::Integer(60_000),
        SqlValue::Integer(120_000),
    ];
    let info = DatabaseInfo::new("market".to_string(), "/data/market".to_string());
    let got = parse_patterned_row(&row, Ok(info)).unwrap();
    assert_eq!(got.pattern_id, id);
    assert_eq!(got.aspect, aspect);
    assert_eq!(got.beginning, at(60_000));
    assert_eq!(got.end, at(120_000));
}

#[test]
fn schemas_are_stored_by_their_place() {
    run(async {
        let conn = empty().await;
        execute(&conn, &pattern_database::catalog::aspect_schema_table()).await.unwrap();
        let key = AspectKey {
            database: "market".to_string(),
            subject: "BTCUSD".to_string(),
            aspect: "price".to_string(),
        };
        carry_out(&conn, &vec![store_declaration(&key, "F64", &decimal("0.5"), "Seconds")]).await;
        carry_out(&conn, &vec![store_declaration(&key, "F32", &decimal("0.25"), "Millis")]).await;
        let found = rows(&conn, &schema_query("market", "BTCUSD", "price")).await;
        assert_eq!(found.len(), 1);
        assert!(matches!(&found[0][1], SqlValue::Text(s) if s == "0.25"));
        assert_eq!(rows(&conn, &list_aspects_query("market", "BTCUSD")).await.len(), 1);
        assert_eq!(rows(&conn, &list_all_query()).await[0].len(), 3);
    });
}

async fn names(conn: &turso::Connection, s: &Statement) -> Vec<String> {
    rows(conn, s)
        .await
        .into_iter()
        .map(|mut row| match row.remove(0) {
            SqlValue::Text(s) => s,
            other => panic!("{other:?}"),
        })
        .collect()
}

#[test]
fn catalog_reopens_and_sees_prior_registrations() {
    run(async {
        let db = turso::Builder::new_local(":memory:").build().await.unwrap();
        let conn = db.connect().unwrap();
        for table in CatalogStore::tables() {
            execute(&conn, &table).await.unwrap();
        }
        let mut first = CatalogStore::open_in_memory();
        carry_out(&conn, &vec![first.register_database("d")]).await;
        carry_out(&conn, &vec![first.register_subject("d", "s").unwrap()]).await;
        drop(first);

        let databases = names(&conn, &CatalogStore::list_databases_query()).await;
        let mut subjects = Vec::new();
        for database in &databases {
            subjects.push(names(&conn, &CatalogStore::list_subjects_query(database)).await);
        }
        let reopened = CatalogStore::open(&databases, &subjects);
        assert_eq!(reopened.list_databases(), vec!["d".to_string()]);
        assert_eq!(reopened.list_subjects("d"), vec!["s".to_string()]);
        assert_eq!(rows(&conn, &CatalogStore::database_exists_query("d")).await.len(), 1);
        assert_eq!(rows(&conn, &CatalogStore::subject_exists_query("d", "x")).await.len(), 0);
    });
}

#[test]
fn every_measurement_is_read_once() {
    run(async {
        let conn = database(Schema::Measurements).await;
        let dataset_id = DatasetId::new();
        let inputs: Vec<InputMeasurement> = (0..5).map(|i| input(1_000 * i, "1.5")).collect();
        carry_out(&conn, &capture_measurement_chunk(&dataset_id, &inputs, &new_tx_ids(5))).await;
        let mut reader = Reader::new(Some(at(1_000)), None);
        let mut read_instants = Vec::new();
        loop {
            match reader.next() {
                ReaderStep::Hand(m) => read_instants.push(m.timestamp.millis()),
                ReaderStep::Fetch(s) => {
                    let page = rows(&conn, &s).await.into_iter().map(Ok).collect();
                    match reader.absorb(Ok(page)) {
                        ReaderOutcome::Hand(m) => read_instants.push(m.timestamp.millis()),
                        ReaderOutcome::Fail(e) => panic!("{}", e.message()),
                        ReaderOutcome::End => break,
                    }
                }
            }
        }
        assert_eq!(read_instants, vec![1_000, 2_000, 3_000, 4_000]);
        let first = read_measurements(&rows(&conn, &first_measurements_query()).await);
        let last = read_measurements(&rows(&conn, &last_measurements_query()).await);
        let found = values(&boundary_measurements(first, last));
        assert_eq!(found.iter().map(|m| m.0).collect::<Vec<i64>>(), vec![0, 1_000, 3_000, 4_000]);
    });
}

#[test]
fn measurements_of_one_instant_stay_in_their_order() {
    let written = |millis: i64, value: &str| Measurement {
        id: MeasurementId::new(),
        dataset_id: DatasetId::new(),
        timestamp: at(millis),
        value: decimal(value),
    };
    let mixed = vec![written(30, "1"), written(10, "2"), written(30, "3"), written(20, "4"), written(10, "5")];
    let sorted = sorted_measurements(&mixed);
    let values: Vec<String> = sorted.iter().map(|m| m.value.text()).collect();
    assert_eq!(values, vec!["2", "5", "4", "1", "3"]);
}

fn measurement_row(millis: i64, value: &str) -> Vec<SqlValue> {
    vec![
        SqlValue::Text(TxId::new().text()),
        SqlValue::Text(DatasetId::new().text()),
        SqlValue::Integer(millis),
        SqlValue::Text(value.to_string()),
    ]
}

#[test]
fn a_page_with_a_bad_row_is_passed_over() {
    let mut reader = Reader::new(None, None);
    let page = vec![
        Ok(measurement_row(10, "1")),
        Ok(measurement_row(20, "2")),
        Err("the disk is gone".to_string()),
        Ok(measurement_row(30, "3")),
    ];
    match reader.absorb(Ok(page)) {
        ReaderOutcome::Fail(e) => {
            assert_eq!(e.message(), "Database error: Failed to read measurement row: the disk is gone")
        }
        other => panic!("{other:?}"),
    }
    match reader.next() {
        ReaderStep::Fetch(s) => assert!(s.params.iter().any(|v| matches!(v, SqlValue::Integer(20)))),
        other => panic!("{other:?}"),
    }
    match reader.absorb(Err("no such table".to_string())) {
        ReaderOutcome::Fail(e) => {
            assert_eq!(e.message(), "Database error: Failed to query measurements: no such table")
        }
        other => panic!("{other:?}"),
    }
    assert!(matches!(reader.absorb(Ok(Vec::new())), ReaderOutcome::End));
}

#[test]
fn an_aspect_can_have_a_table_of_its_own() {
    run(async {
        let conn = empty().await;
        for s in metadata_tables() {
            execute(&conn, &s).await.unwrap();
        }
        let (aspect, subject, database_id) = (AspectId::new(), SubjectId::new(), DatabaseId::new());
        execute(&conn, &insert_database(&database_id, "plant", 77, "/data/plant/metadata.db")).await.unwrap();
        carry_out(&conn, &vec![track_subject(&subject, &database_id, "pump", 78)]).await;
        carry_out(&conn, &own_table_definitions("out flow-1")).await;
        let step = track_own_table(&aspect, &subject, &database_id, "out flow-1", Resolution::Minutes, 79);
        carry_out(&conn, &vec![step]).await;
        let step = observe_measurement("out_flow_1", &TxId::new(), &input(5, "2.5"));
        assert_eq!(step.statement.sql, "INSERT INTO out_flow_1 (id, timestamp, value) VALUES (?, ?, ?)");
        carry_out(&conn, &vec![step]).await;

        let found = rows(&conn, &database_id_query("plant")).await;
        assert!(matches!(&found[0][0], SqlValue::Text(s) if *s == database_id.text()));
        let found = rows(&conn, &creation_time_query("plant")).await;
        assert!(matches!(found[0][0], SqlValue::Integer(77)));
        let found = rows(&conn, &get_subject_by_name("pump")).await;
        assert_eq!(parse_subject_row(&found[0]).unwrap().id, subject);
        assert_eq!(rows(&conn, &all_subjects_query()).await.len(), 1);
        assert_eq!(parse_count(rows(&conn, &subject_count_query()).await.first()).unwrap(), 1);
        assert_eq!(parse_count(rows(&conn, &aspect_count_query()).await.first()).unwrap(), 1);
        let found = rows(&conn, &subject_aspects_query(&subject)).await;
        assert!(matches!(&found[0][2], SqlValue::Text(s) if s == "out_flow_1"));
        let found = rows(&conn, &get_aspect_by_name("out flow-1")).await;
        assert!(matches!(&found[0][4], SqlValue::Text(s) if s == "pump"));
        let found = rows(&conn, &get_aspect_resolution(&aspect)).await;
        assert_eq!(parse_resolution_row(&found[0]).unwrap(), Some(Resolution::Minutes));
        let found = rows(&conn, &known_earliest_query(&aspect)).await;
        assert_eq!(parse_millis_row(&found[0]), None);
        carry_out(&conn, &vec![update_known_range(&aspect, &at(3), &at(9))]).await;
        assert_eq!(parse_millis_row(&rows(&conn, &known_earliest_query(&aspect)).await[0]), Some(at(3)));
        assert_eq!(parse_millis_row(&rows(&conn, &known_latest_query(&aspect)).await[0]), Some(at(9)));
    });
}
