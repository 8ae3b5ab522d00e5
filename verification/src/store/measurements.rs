//! Measurements: how they are captured, queued for batches, replaced and read.
use crate::columns::{database_error, not_text, or, tells};
use crate::decimal::{
    abs_int,
    decimal_parse,
    decimal_text,
    whole,
    Decimal,
    DecimalView,
    OPERAND_SCALE_LIMIT,
};
use crate::error::Error;
use crate::ids::{is_random_uuid, uuid_text, AspectId, DatasetId, TxId};
use crate::measurement::{InputMeasurement, Measurement, PointView};
use crate::sql::{
    bulk,
    bulk_statements,
    row_views,
    statement,
    statement_views,
    text_column,
    text_value,
    value_views,
    SqlValue,
    SqlView,
    Statement,
    StatementView,
};
use crate::table::{lemma_entry_found, Entry, Table};
use crate::text::{i64_text, int_text, join};
use crate::time::Timestamp;
use crate::transaction::{step, step_views, OnFailure, Step, StepView};
use std::collections::HashSet;
use vstd::arithmetic::power::{lemma_pow1, pow};
use vstd::prelude::*;

verus! {

/// The number of rows that are written at once.
pub const CHUNK_SIZE: usize = 500;

pub open spec fn all_valid(s: Seq<Timestamp>) -> bool {
    forall|i: int| 0 <= i < s.len() ==> (#[trigger] s[i]).is_valid()
}

/// Statements as steps with the same complaint.
pub open spec fn steps_of(
    s: Seq<StatementView>,
    complaint: Seq<char>,
    on_failure: OnFailure,
) -> Seq<StepView> {
    Seq::new(s.len(), |i: int| StepView { statement: s[i], complaint, on_failure })
}

/// Statements as steps with the same complaint.
pub fn as_steps(statements: Vec<Statement>, complaint: &str, on_failure: OnFailure) -> (r: Vec<Step>)
    ensures
        step_views(r@) == steps_of(statement_views(statements@), complaint@, on_failure),
{
    let ghost given = statements@;
    let mut rest = statements;
    let n: usize = rest.len();
    let mut r: Vec<Step> = Vec::new();
    while rest.len() > 0
        invariant
            rest.len() <= n,
            n == given.len(),
            r.len() == n - rest.len(),
            rest@ == given.skip(n - rest.len()),
            forall|k: int|
                0 <= k < r.len() ==> (#[trigger] r@[k])@ == (StepView {
                    statement: given[k]@,
                    complaint: complaint@,
                    on_failure,
                }),
        decreases rest.len(),
    {
        let ghost at = n - rest.len();
        let next = rest.remove(0);
        proof {
            assert(next == given[at]);
            assert(rest@ =~= given.skip(at + 1));
        }
        r.push(step(next, complaint, on_failure));
    }
    assert(step_views(r@) =~= steps_of(statement_views(given), complaint@, on_failure));
    r
}

/// The row that queues an instant of an aspect.
pub open spec fn queue_row(aspect: u128, t: Timestamp, queued_at: int) -> Seq<SqlView> {
    seq![
        SqlView::Text(uuid_text(aspect)),
        SqlView::Text(int_text(t.spec_millis())),
        SqlView::Text(int_text(queued_at)),
    ]
}

/// The steps of [`enqueue_unbatched_measurements`].
pub open spec fn spec_enqueue_unbatched_measurements(
    aspect_id: &AspectId,
    data_timestamps: &Vec<Timestamp>,
    queued_at: i64,
) -> Seq<StepView> {
    steps_of(
        bulk(
            "INSERT OR IGNORE INTO unbatched_measurements (aspect_id, data_timestamp, queued_at) VALUES "@,
            "(?, ?, ?)"@,
            ""@,
            seq![],
            Seq::new(
                data_timestamps@.len(),
                |i: int| queue_row(aspect_id.value, data_timestamps@[i], queued_at as int),
            ),
            CHUNK_SIZE as nat,
        ),
        "Failed to enqueue unbatched measurements: "@,
        OnFailure::RollBack,
    )
}

/// Queues instants of an aspect for batches. An instant that is queued already stays queued once.
pub fn enqueue_unbatched_measurements(
    aspect_id: &AspectId,
    data_timestamps: &Vec<Timestamp>,
    queued_at: i64,
) -> (r: Vec<Step>)
    requires
        all_valid(data_timestamps@),
    ensures
        step_views(r@) == spec_enqueue_unbatched_measurements(
            aspect_id,
            data_timestamps,
            queued_at,
        ),
{
    let aspect = aspect_id.text();
    let queued = i64_text(queued_at);
    let mut rows: Vec<Vec<SqlValue>> = Vec::new();
    let mut i: usize = 0;
    while i < data_timestamps.len()
        invariant
            i <= data_timestamps.len(),
            rows.len() == i,
            all_valid(data_timestamps@),
            aspect@ == uuid_text(aspect_id.value),
            queued@ == int_text(queued_at as int),
            forall|k: int|
                0 <= k < i ==> value_views((#[trigger] rows@[k])@) == queue_row(
                    aspect_id.value,
                    data_timestamps@[k],
                    queued_at as int,
                ),
        decreases data_timestamps.len() - i,
    {
        let mut row: Vec<SqlValue> = Vec::new();
        row.push(text_value(aspect.as_str()));
        row.push(SqlValue::Text(i64_text(data_timestamps[i].millis())));
        row.push(text_value(queued.as_str()));
        assert(value_views(row@) =~= queue_row(
            aspect_id.value,
            data_timestamps@[i as int],
            queued_at as int,
        ));
        rows.push(row);
        i += 1;
    }
    let none: Vec<SqlValue> = Vec::new();
    assert(value_views(none@) =~= Seq::<SqlView>::empty());
    assert(row_views(rows@) =~= Seq::new(
        data_timestamps@.len(),
        |i: int| queue_row(aspect_id.value, data_timestamps@[i], queued_at as int),
    ));
    let statements = bulk_statements(
        "INSERT OR IGNORE INTO unbatched_measurements (aspect_id, data_timestamp, queued_at) VALUES ",
        "(?, ?, ?)",
        "",
        &none,
        &rows,
        CHUNK_SIZE,
    );
    as_steps(statements, "Failed to enqueue unbatched measurements: ", OnFailure::RollBack)
}

/// The row of one instant, in milliseconds, as text.
pub open spec fn millis_row(t: Timestamp) -> Seq<SqlView> {
    seq![SqlView::Text(int_text(t.spec_millis()))]
}

/// The steps of [`dequeue_unbatched_measurements`].
pub open spec fn spec_dequeue_unbatched_measurements(
    aspect_id: &AspectId,
    data_timestamps: &Vec<Timestamp>,
) -> Seq<StepView> {
    steps_of(
        bulk(
            "DELETE FROM unbatched_measurements WHERE aspect_id = ? AND data_timestamp IN ("@,
            "?"@,
            ")"@,
            seq![SqlView::Text(uuid_text(aspect_id.value))],
            Seq::new(data_timestamps@.len(), |i: int| millis_row(data_timestamps@[i])),
            CHUNK_SIZE as nat,
        ),
        "Failed to dequeue unbatched measurements: "@,
        OnFailure::RollBack,
    )
}

/// Takes instants of an aspect out of the queue.
pub fn dequeue_unbatched_measurements(aspect_id: &AspectId, data_timestamps: &Vec<Timestamp>) -> (r:
    Vec<Step>)
    requires
        all_valid(data_timestamps@),
    ensures
        step_views(r@) == spec_dequeue_unbatched_measurements(aspect_id, data_timestamps),
{
    let mut rows: Vec<Vec<SqlValue>> = Vec::new();
    let mut i: usize = 0;
    while i < data_timestamps.len()
        invariant
            i <= data_timestamps.len(),
            rows.len() == i,
            all_valid(data_timestamps@),
            forall|k: int|
                0 <= k < i ==> value_views((#[trigger] rows@[k])@) == millis_row(
                    data_timestamps@[k],
                ),
        decreases data_timestamps.len() - i,
    {
        let mut row: Vec<SqlValue> = Vec::new();
        row.push(SqlValue::Text(i64_text(data_timestamps[i].millis())));
        assert(value_views(row@) =~= millis_row(data_timestamps@[i as int]));
        rows.push(row);
        i += 1;
    }
    let mut lead: Vec<SqlValue> = Vec::new();
    lead.push(SqlValue::Text(aspect_id.text()));
    assert(value_views(lead@) =~= seq![SqlView::Text(uuid_text(aspect_id.value))]);
    assert(row_views(rows@) =~= Seq::new(
        data_timestamps@.len(),
        |i: int| millis_row(data_timestamps@[i]),
    ));
    let statements = bulk_statements(
        "DELETE FROM unbatched_measurements WHERE aspect_id = ? AND data_timestamp IN (",
        "?",
        ")",
        &lead,
        &rows,
        CHUNK_SIZE,
    );
    as_steps(statements, "Failed to dequeue unbatched measurements: ", OnFailure::RollBack)
}

/// The step of [`clear_unbatched_measurements`].
pub open spec fn spec_clear_unbatched_measurements(aspect_id: &AspectId) -> StepView {
    StepView {
        statement: StatementView {
            sql: "DELETE FROM unbatched_measurements WHERE aspect_id = ?"@,
            params: seq![SqlView::Text(uuid_text(aspect_id.value))],
        },
        complaint: "Failed to clear unbatched measurements: "@,
        on_failure: OnFailure::RollBack,
    }
}

/// Empties the queue of an aspect.
pub fn clear_unbatched_measurements(aspect_id: &AspectId) -> (r: Step)
    ensures
        r@ == spec_clear_unbatched_measurements(aspect_id),
{
    let mut params: Vec<SqlValue> = Vec::new();
    params.push(SqlValue::Text(aspect_id.text()));
    assert(value_views(params@) =~= seq![SqlView::Text(uuid_text(aspect_id.value))]);
    step(
        statement("DELETE FROM unbatched_measurements WHERE aspect_id = ?", params),
        "Failed to clear unbatched measurements: ",
        OnFailure::RollBack,
    )
}

/// The average of two values.
pub open spec fn average(a: DecimalView, b: DecimalView) -> DecimalView {
    a.plus(b).over(whole(2))
}

/// The values at the instants of an aspect, after one more has been captured: where there is one
/// already, the average of the two is stored.
pub open spec fn captured(stored: Map<int, DecimalView>, m: PointView) -> Map<int, DecimalView> {
    let t = m.timestamp.spec_millis();
    if stored.dom().contains(t) {
        stored.insert(t, average(stored[t], m.value))
    } else {
        stored.insert(t, m.value)
    }
}

/// The values at the instants of an aspect, after several have been captured in turn.
pub open spec fn all_captured(stored: Map<int, DecimalView>, s: Seq<PointView>) -> Map<
    int,
    DecimalView,
>
    decreases s.len(),
{
    if s.len() == 0 {
        stored
    } else {
        captured(all_captured(stored, s.drop_last()), s.last())
    }
}

pub open spec fn input_views(s: Seq<InputMeasurement>) -> Seq<PointView> {
    Seq::new(s.len(), |i: int| s[i]@)
}

/// The row of a measurement, with its instant and its value as texts.
pub open spec fn measurement_row(id: u128, dataset: u128, millis: int, value: DecimalView) -> Seq<
    SqlView,
> {
    seq![
        SqlView::Text(uuid_text(id)),
        SqlView::Text(uuid_text(dataset)),
        SqlView::Text(int_text(millis)),
        SqlView::Text(decimal_text(value.mantissa, value.scale)),
    ]
}

/// The statement that stores one more measurement.
pub open spec fn insert_one(id: u128, dataset: u128, millis: int, value: DecimalView) -> StatementView {
    StatementView {
        sql: "INSERT INTO measurements (id, dataset_id, timestamp, value) VALUES (?, ?, ?, ?)"@,
        params: seq![
            SqlView::Text(uuid_text(id)),
            SqlView::Text(uuid_text(dataset)),
            SqlView::Integer(millis),
            SqlView::Text(decimal_text(value.mantissa, value.scale)),
        ],
    }
}

/// The statement that gives the measurement at an instant another value.
pub open spec fn update_one(millis: int, value: DecimalView) -> StatementView {
    StatementView {
        sql: "UPDATE measurements SET value = ? WHERE timestamp = ?"@,
        params: seq![
            SqlView::Text(decimal_text(value.mantissa, value.scale)),
            SqlView::Integer(millis),
        ],
    }
}

fn insert_statement(id: u128, dataset_id: &DatasetId, millis: i64, value: &Decimal) -> (r: Statement)
    requires
        value@.is_operand(),
    ensures
        r@ == insert_one(id, dataset_id.value, millis as int, value@),
{
    let mut params: Vec<SqlValue> = Vec::new();
    params.push(SqlValue::Text(crate::ids::text_of(id)));
    params.push(SqlValue::Text(dataset_id.text()));
    params.push(SqlValue::Integer(millis));
    params.push(SqlValue::Text(value.text()));
    assert(value_views(params@) =~= insert_one(
        id,
        dataset_id.value,
        millis as int,
        value@,
    ).params);
    statement(
        "INSERT INTO measurements (id, dataset_id, timestamp, value) VALUES (?, ?, ?, ?)",
        params,
    )
}

fn update_statement(millis: i64, value: &Decimal) -> (r: Statement)
    requires
        value@.has_text(),
    ensures
        r@ == update_one(millis as int, value@),
{
    let mut params: Vec<SqlValue> = Vec::new();
    params.push(SqlValue::Text(value.text()));
    params.push(SqlValue::Integer(millis));
    assert(value_views(params@) =~= update_one(millis as int, value@).params);
    statement("UPDATE measurements SET value = ? WHERE timestamp = ?", params)
}

/// Whether a value is the half of the sum of two others.
pub open spec fn is_half_of_sum(value: DecimalView, a: DecimalView, b: DecimalView) -> bool {
    value.times(whole(2)).same_value(a.plus(b))
}

/// The average of two values. It is exact where their sum has fewer than a hundred digits, and is
/// rounded to a hundred digits else.
pub fn average_of(a: &Decimal, b: &Decimal) -> (r: Decimal)
    requires
        a@.is_operand(),
        b@.is_operand(),
    ensures
        r@ == average(a@, b@),
        r@.has_text(),
        abs_int(a@.plus(b@).mantissa) < pow(10, 99) ==> is_half_of_sum(r@, a@, b@),
{
    let sum = a.plus(b);
    let two = Decimal::from_i64(2);
    proof {
        lemma_pow1(10);
        assert(abs_int(two@.mantissa) < pow(10, 1));
    }
    sum.over(&two)
}

/// Captures a measurement at an instant that has the given value already, if it has one: the
/// average of the two is stored then.
pub fn capture_measurement(
    tx_id: &TxId,
    dataset_id: &DatasetId,
    input: &InputMeasurement,
    existing: Option<&Decimal>,
) -> (r: Statement)
    requires
        input.timestamp.is_valid(),
        input.value@.is_operand(),
        existing matches Some(v) ==> v@.is_operand(),
    ensures
        r@ == match existing {
            None => insert_one(
                tx_id.value,
                dataset_id.value,
                input.timestamp.spec_millis(),
                input.value@,
            ),
            Some(v) => update_one(input.timestamp.spec_millis(), average(v@, input.value@)),
        },
        existing matches Some(v) ==> average(v@, input.value@).has_text() && (abs_int(
            v@.plus(input.value@).mantissa,
        ) < pow(10, 99) ==> is_half_of_sum(average(v@, input.value@), v@, input.value@)),
{
    let millis = input.timestamp.millis();
    match existing {
        None => insert_statement(tx_id.value, dataset_id, millis, &input.value),
        Some(value) => {
            let settled = average_of(value, &input.value);
            update_statement(millis, &settled)
        },
    }
}

/// Captures a measurement at an instant that has none yet; where it has one, that is an error.
pub fn capture_new_measurement(
    tx_id: &TxId,
    dataset_id: &DatasetId,
    input: &InputMeasurement,
    exists_already: bool,
) -> (r: Result<Statement, Error>)
    requires
        input.timestamp.is_valid(),
        input.value@.is_operand(),
    ensures
        match r {
            Ok(s) => !exists_already && s@ == insert_one(
                tx_id.value,
                dataset_id.value,
                input.timestamp.spec_millis(),
                input.value@,
            ),
            Err(e) => exists_already && e is DatabaseError && e.spec_message() == "Database error: "@
                + ("A measurement exists already at "@ + int_text(input.timestamp.spec_millis())),
        },
{
    let millis = input.timestamp.millis();
    if exists_already {
        Err(
            Error::DatabaseError(
                join("A measurement exists already at ", i64_text(millis).as_str()),
            ),
        )
    } else {
        Ok(insert_statement(tx_id.value, dataset_id, millis, &input.value))
    }
}

/// Whether the measurement at a place is the first at its instant, where the instants that have a
/// measurement already are given.
pub open spec fn is_new(existing: Seq<i64>, s: Seq<InputMeasurement>, i: int) -> bool {
    &&& !existing.contains(s[i].timestamp.spec_millis() as i64)
    &&& forall|j: int|
        0 <= j < i ==> (#[trigger] s[j]).timestamp.spec_millis() != s[i].timestamp.spec_millis()
}

/// The statements for the new ones among the first `n` measurements, in order.
pub open spec fn new_inserts(
    existing: Seq<i64>,
    s: Seq<InputMeasurement>,
    dataset: u128,
    tx_ids: Seq<TxId>,
    n: int,
) -> Seq<StatementView>
    decreases n,
{
    if n <= 0 {
        seq![]
    } else {
        let rest = new_inserts(existing, s, dataset, tx_ids, n - 1);
        if is_new(existing, s, n - 1) {
            rest.push(
                insert_one(
                    tx_ids[n - 1].value,
                    dataset,
                    s[n - 1].timestamp.spec_millis(),
                    s[n - 1].value@,
                ),
            )
        } else {
            rest
        }
    }
}

/// The places of the new ones among the first `n` measurements, in order.
pub open spec fn new_places(existing: Seq<i64>, s: Seq<InputMeasurement>, n: int) -> Seq<int>
    decreases n,
{
    if n <= 0 {
        seq![]
    } else if is_new(existing, s, n - 1) {
        new_places(existing, s, n - 1).push(n - 1)
    } else {
        new_places(existing, s, n - 1)
    }
}

/// The measurements that are captured of some, by their places among them, each with its statement.
#[derive(Debug)]
pub struct NewCaptures {
    pub places: Vec<usize>,
    pub statements: Vec<Statement>,
}

pub open spec fn place_values(s: Seq<usize>) -> Seq<int> {
    Seq::new(s.len(), |i: int| s[i] as int)
}

/// Captures the measurements at instants that have none yet, and skips the others: those at an
/// instant that has a measurement already, or that has one from earlier in the list.
pub fn batch_capture_new_measurements(
    existing: &Vec<i64>,
    dataset_id: &DatasetId,
    inputs: &Vec<InputMeasurement>,
    tx_ids: &Vec<TxId>,
) -> (r: NewCaptures)
    requires
        all_writable(inputs@),
        tx_ids.len() == inputs.len(),
    ensures
        statement_views(r.statements@) == new_inserts(
            existing@,
            inputs@,
            dataset_id.value,
            tx_ids@,
            inputs@.len() as int,
        ),
        place_values(r.places@) == new_places(existing@, inputs@, inputs@.len() as int),
        r.places@.len() == r.statements@.len(),
        forall|k: int| 0 <= k < r.places@.len() ==> (#[trigger] r.places@[k]) < inputs@.len(),
{
    broadcast use vstd::std_specs::hash::group_hash_axioms;

    let mut taken: HashSet<i64> = HashSet::new();
    let mut k: usize = 0;
    while k < existing.len()
        invariant
            k <= existing.len(),
            forall|t: i64| #[trigger]
                taken@.contains(t) <==> exists|j: int| 0 <= j < k && existing@[j] == t,
        decreases existing.len() - k,
    {
        let ghost before = taken@;
        taken.insert(existing[k]);
        assert forall|t: i64| #[trigger] taken@.contains(t) implies exists|j: int|
            0 <= j < k + 1 && existing@[j] == t by {
            if t == existing@[k as int] {
                assert(existing@[k as int] == t);
            } else {
                assert(before.contains(t));
            }
        }
        k += 1;
    }
    let mut r: Vec<Statement> = Vec::new();
    assert(statement_views(r@) =~= new_inserts(existing@, inputs@, dataset_id.value, tx_ids@, 0));
    let mut places: Vec<usize> = Vec::new();
    assert(place_values(places@) =~= new_places(existing@, inputs@, 0));
    let mut i: usize = 0;
    while i < inputs.len()
        invariant
            i <= inputs.len(),
            all_writable(inputs@),
            tx_ids.len() == inputs.len(),
            forall|t: i64| #[trigger]
                taken@.contains(t) <==> existing@.contains(t) || exists|j: int|
                    0 <= j < i && (#[trigger] inputs@[j]).timestamp.spec_millis() == t,
            statement_views(r@) == new_inserts(
                existing@,
                inputs@,
                dataset_id.value,
                tx_ids@,
                i as int,
            ),
            place_values(places@) == new_places(existing@, inputs@, i as int),
            places@.len() == r@.len(),
            forall|k: int| 0 <= k < places@.len() ==> (#[trigger] places@[k]) < i,
        decreases inputs.len() - i,
    {
        let millis: i64 = inputs[i].timestamp.millis();
        let ghost before = taken@;
        assert(before.contains(millis) <==> !is_new(existing@, inputs@, i as int));
        if !taken.contains(&millis) {
            let ghost written = statement_views(r@);
            r.push(insert_statement(tx_ids[i].value, dataset_id, millis, &inputs[i].value));
            taken.insert(millis);
            let ghost placed = place_values(places@);
            places.push(i);
            assert(place_values(places@) =~= placed.push(i as int));
            assert(statement_views(r@) =~= written.push(r@.last()@));
        }
        assert forall|t: i64| #[trigger] taken@.contains(t) <==> existing@.contains(t) || exists|
            j: int,
        | 0 <= j < i + 1 && (#[trigger] inputs@[j]).timestamp.spec_millis() == t by {
            if t == millis {
                assert(inputs@[i as int].timestamp.spec_millis() == t);
            } else if before.contains(t) {
                assert(taken@.contains(t));
            }
        }
        i += 1;
    }
    NewCaptures { places, statements: r }
}

/// Captures a chunk of measurements one after the other, each in a transaction of its own. The
/// identifiers of the chunk begin at a place among those of all.
pub fn capture_new_measurement_chunk(
    dataset_id: &DatasetId,
    chunk: &Vec<InputMeasurement>,
    all_tx_ids: &Vec<TxId>,
    tx_id_offset: usize,
) -> (r: Vec<Step>)
    requires
        all_writable(chunk@),
        tx_id_offset + chunk@.len() <= all_tx_ids@.len(),
    ensures
        step_views(r@) == Seq::new(
            chunk@.len(),
            |i: int|
                StepView {
                    statement: insert_one(
                        all_tx_ids@[tx_id_offset + i].value,
                        dataset_id.value,
                        chunk@[i].timestamp.spec_millis(),
                        chunk@[i].value@,
                    ),
                    complaint: "Failed to insert in chunk: "@,
                    on_failure: OnFailure::RollBack,
                },
        ),
{
    let mut r: Vec<Step> = Vec::new();
    let mut i: usize = 0;
    let known = all_tx_ids.len();
    while i < chunk.len()
        invariant
            i <= chunk.len(),
            all_writable(chunk@),
            known == all_tx_ids.len(),
            tx_id_offset + chunk@.len() <= known,
            r.len() == i,
            forall|k: int|
                0 <= k < i ==> (#[trigger] r@[k])@ == (StepView {
                    statement: insert_one(
                        all_tx_ids@[tx_id_offset + k].value,
                        dataset_id.value,
                        chunk@[k].timestamp.spec_millis(),
                        chunk@[k].value@,
                    ),
                    complaint: "Failed to insert in chunk: "@,
                    on_failure: OnFailure::RollBack,
                }),
        decreases chunk.len() - i,
    {
        let tx_id = &all_tx_ids[tx_id_offset + i];
        let insert = insert_statement(
            tx_id.value,
            dataset_id,
            chunk[i].timestamp.millis(),
            &chunk[i].value,
        );
        r.push(step(insert, "Failed to insert in chunk: ", OnFailure::RollBack));
        i += 1;
    }
    r
}

/// The statement of [`existing_measurement`].
pub open spec fn spec_existing_measurement(timestamp: &Timestamp) -> StatementView {
    StatementView {
        sql: "SELECT value FROM measurements WHERE timestamp = ? LIMIT 1"@,
        params: seq![SqlView::Integer(timestamp.spec_millis())],
    }
}

/// The statement that looks up the value at an instant.
pub fn existing_measurement(timestamp: &Timestamp) -> (r: Statement)
    requires
        timestamp.is_valid(),
    ensures
        r@ == spec_existing_measurement(timestamp),
{
    let mut params: Vec<SqlValue> = Vec::new();
    params.push(SqlValue::Integer(timestamp.millis()));
    assert(value_views(params@) =~= seq![SqlView::Integer(timestamp.spec_millis())]);
    statement("SELECT value FROM measurements WHERE timestamp = ? LIMIT 1", params)
}

/// What is told of the rows that were looked up for the value at an instant.
pub open spec fn stored_value_error(found: Seq<Seq<SqlView>>) -> Option<Seq<char>> {
    if found.len() == 0 {
        None
    } else {
        or(
            not_text(found[0][0], "Value is not text"@),
            match decimal_parse(found[0][0]->Text_0) {
                Err(e) => Some(database_error("Invalid value format: "@ + e)),
                Ok(d) => if (DecimalView { mantissa: d.0, scale: d.1 }).is_operand() {
                    None
                } else {
                    Some(too_fine())
                },
            },
        )
    }
}

/// The value that was looked up at an instant, if it has one, or what is wrong with it. A value that
/// was stored is read back.
pub fn read_stored_value(found: &Vec<Vec<SqlValue>>) -> (r: Result<Option<Decimal>, Error>)
    requires
        forall|i: int| 0 <= i < found.len() ==> (#[trigger] found@[i]).len() == 1,
    ensures
        match r {
            Ok(None) => found@.len() == 0,
            Ok(Some(d)) => {
                &&& found@.len() > 0
                &&& stored_value_error(row_views(found@)) is None
                &&& decimal_parse(row_views(found@)[0][0]->Text_0) == Ok::<(int, int), Seq<char>>(
                    (d@.mantissa, d@.scale),
                )
                &&& d@.is_operand()
            },
            Err(e) => tells(e, stored_value_error(row_views(found@))),
        },
        forall|mantissa: int, scale: int|
            found@.len() > 0 && row_views(found@)[0][0] == SqlView::Text(
                #[trigger] decimal_text(mantissa, scale),
            ) && (DecimalView { mantissa, scale }).is_operand() ==> (r matches Ok(Some(d))
                && d@.same_value((DecimalView { mantissa, scale }))),
{
    if found.len() == 0 {
        return Ok(None);
    }
    assert(found@[0].len() == 1);
    assert(row_views(found@)[0] == value_views(found@[0]@));
    assert(row_views(found@)[0][0] == found@[0]@[0]@);
    let text = match text_column(&found[0], 0, "Value is not text") {
        Ok(s) => s,
        Err(e) => {
            return Err(e);
        },
    };
    match Decimal::parse(text.as_str()) {
        Ok(d) => {
            if d.scale > OPERAND_SCALE_LIMIT || d.scale < -OPERAND_SCALE_LIMIT {
                Err(Error::Message("An average has too many digits behind the point".to_owned()))
            } else {
                Ok(Some(d))
            }
        },
        Err(e) => Err(Error::DatabaseError(join("Invalid value format: ", e.as_str()))),
    }
}

/// The value that an instant gets, and the first of the measurements captured for it.
#[derive(Debug)]
pub struct Settled {
    pub first: usize,
    pub value: Decimal,
}

/// The values that are stored at some instants, by milliseconds.
pub open spec fn stored_values(table: Map<i64, Decimal>) -> Map<int, DecimalView> {
    Map::new(
        |t: int| i64::MIN <= t <= i64::MAX && table.dom().contains(t as i64),
        |t: int| table[t as i64]@,
    )
}

/// Whether the measurement at a place can be averaged with the value that its instant has once those
/// before it were captured in turn, if it has one.
pub open spec fn settles(stored: Map<int, DecimalView>, s: Seq<InputMeasurement>, i: int) -> bool {
    let before = all_captured(stored, input_views(s).take(i));
    let t = s[i].timestamp.spec_millis();
    before.dom().contains(t) ==> before[t].is_operand()
}

/// Whether the first measurements can all be averaged with what their instants have.
pub open spec fn all_settle(
    stored: Map<int, DecimalView>,
    s: Seq<InputMeasurement>,
    n: int,
) -> bool {
    forall|i: int| 0 <= i < n ==> #[trigger] settles(stored, s, i)
}

/// What is told of an average with more digits behind the point than can be averaged again.
pub open spec fn too_fine() -> Seq<char> {
    "An average has too many digits behind the point"@
}

/// Whether the values at the instants settled so far are those after a number of captures.
pub open spec fn settled_so_far(
    stored: Map<int, DecimalView>,
    s: Seq<InputMeasurement>,
    n: int,
    settled: Map<i64, Settled>,
) -> bool {
    let after = all_captured(stored, input_views(s).take(n));
    &&& forall|t: int| #[trigger]
        after.dom().contains(t) <==> stored.dom().contains(t) || (i64::MIN <= t <= i64::MAX
            && settled.dom().contains(t as i64))
    &&& forall|t: i64| #[trigger]
        settled.dom().contains(t) ==> {
            &&& settled[t].value@ == after[t as int]
            &&& 0 <= settled[t].first < n
            &&& s[settled[t].first as int].timestamp.spec_millis() == t
            &&& forall|k: int|
                0 <= k < settled[t].first ==> (#[trigger] s[k]).timestamp.spec_millis() != t
            &&& settled[t].value@.has_text()
        }
    &&& forall|t: int| #[trigger]
        stored.dom().contains(t) && !(i64::MIN <= t <= i64::MAX && settled.dom().contains(
            t as i64,
        )) ==> after[t] == stored[t]
    &&& forall|k: int|
        0 <= k < n ==> settled.dom().contains((#[trigger] s[k]).timestamp.spec_millis() as i64)
}

/// Settles the values at the instants of measurements that are captured together: each is averaged
/// with the value that its instant has, be it stored or from an earlier one of them. It is an error
/// where an average that is to be averaged again has more digits behind the point than can be worked
/// with.
pub fn settle(existing: &Table<i64, Decimal>, inputs: &Vec<InputMeasurement>) -> (r: Result<
    Table<i64, Settled>,
    Error,
>)
    requires
        existing.is_valid(),
        all_writable(inputs@),
        forall|t: i64| #[trigger]
            existing@.dom().contains(t) ==> existing@[t]@.is_operand(),
    ensures
        r is Ok <==> all_settle(stored_values(existing@), inputs@, inputs@.len() as int),
        match r {
            Ok(settled) => settled.is_valid() && settled_so_far(
                stored_values(existing@),
                inputs@,
                inputs@.len() as int,
                settled@,
            ),
            Err(e) => e is Message && e.spec_message() == too_fine(),
        },
{
    let ghost stored = stored_values(existing@);
    let mut settled: Table<i64, Settled> = Table::new();
    let mut i: usize = 0;
    assert(input_views(inputs@).take(0) =~= Seq::<PointView>::empty());
    while i < inputs.len()
        invariant
            i <= inputs.len(),
            existing.is_valid(),
            all_writable(inputs@),
            forall|t: i64| #[trigger]
                existing@.dom().contains(t) ==> existing@[t]@.is_operand(),
            stored == stored_values(existing@),
            settled.is_valid(),
            settled_so_far(stored, inputs@, i as int, settled@),
            all_settle(stored, inputs@, i as int),
        decreases inputs.len() - i,
    {
        let input = &inputs[i];
        let t: i64 = input.timestamp.millis();
        let ghost views = input_views(inputs@);
        let ghost before = settled@;
        let ghost so_far = all_captured(stored, views.take(i as int));
        proof {
            assert(views.take(i + 1).drop_last() =~= views.take(i as int));
            assert(views.take(i + 1).last() == input@);
            assert(so_far.dom().contains(t as int) || !so_far.dom().contains(t as int));
            assert(stored.dom().contains(t as int) || !stored.dom().contains(t as int));
        }
        proof {
            assert(all_captured(stored, views.take(i + 1)) == captured(so_far, input@));
        }
        let next = match settled.find(&t) {
            Some(at) => {
                let held = &settled.entries[at].value;
                assert(*held == before[t]);
                assert(so_far.dom().contains(t as int) && so_far[t as int] == held.value@);
                if held.value.scale > OPERAND_SCALE_LIMIT || held.value.scale < -OPERAND_SCALE_LIMIT {
                    assert(!settles(stored, inputs@, i as int));
                    return Err(
                        Error::Message("An average has too many digits behind the point".to_owned()),
                    );
                }
                Settled { first: held.first, value: average_of(&held.value, &input.value) }
            },
            None => match existing.get(&t) {
                Some(value) => Settled { first: i, value: average_of(value, &input.value) },
                None => Settled { first: i, value: input.value.clone() },
            },
        };
        assert(settles(stored, inputs@, i as int));
        let ghost settled_value = next;
        settled.insert(t, next);
        proof {
            let after = all_captured(stored, views.take(i + 1));
            assert(after == captured(so_far, input@));
            assert(settled@ == before.insert(t, settled_value));
            assert(settled_value.value@ == after[t as int]);
            assert forall|u: i64| #[trigger] settled@.dom().contains(u) implies {
                &&& settled@[u].value@ == after[u as int]
                &&& 0 <= settled@[u].first < i + 1
                &&& inputs@[settled@[u].first as int].timestamp.spec_millis() == u
                &&& forall|k: int|
                    0 <= k < settled@[u].first ==> (#[trigger] inputs@[k]).timestamp.spec_millis()
                        != u
                &&& settled@[u].value@.has_text()
            } by {
                if u != t {
                    assert(before.dom().contains(u));
                } else if !before.dom().contains(t) {
                    assert forall|k: int| 0 <= k < settled@[u].first implies (
                    #[trigger] inputs@[k]).timestamp.spec_millis() != u by {
                        assert(before.dom().contains(
                            inputs@[k].timestamp.spec_millis() as i64,
                        ));
                    }
                }
            }
            assert forall|u: int| #[trigger] after.dom().contains(u) <==> stored.dom().contains(u)
                || (i64::MIN <= u <= i64::MAX && settled@.dom().contains(u as i64)) by {
                assert(so_far.dom().contains(u) <==> stored.dom().contains(u) || (i64::MIN <= u
                    <= i64::MAX && before.dom().contains(u as i64)));
            }
            assert forall|k: int| 0 <= k < i + 1 implies settled@.dom().contains(
                (#[trigger] inputs@[k]).timestamp.spec_millis() as i64,
            ) by {
                if k < i {
                    assert(before.dom().contains(inputs@[k].timestamp.spec_millis() as i64));
                }
            }
        }
        i += 1;
    }
    Ok(settled)
}

/// The rows of the instants that have no value yet.
pub open spec fn new_rows(
    entries: Seq<Entry<i64, Settled>>,
    existing: Set<i64>,
    dataset: u128,
    tx_ids: Seq<TxId>,
) -> Seq<Seq<SqlView>>
    decreases entries.len(),
{
    if entries.len() == 0 {
        seq![]
    } else {
        let e = entries.last();
        let rest = new_rows(entries.drop_last(), existing, dataset, tx_ids);
        if existing.contains(e.key) {
            rest
        } else {
            rest.push(
                measurement_row(
                    tx_ids[e.value.first as int].value,
                    dataset,
                    e.key as int,
                    e.value.value@,
                ),
            )
        }
    }
}

/// The statements for the instants that have a value already.
pub open spec fn changed_values(entries: Seq<Entry<i64, Settled>>, existing: Set<i64>) -> Seq<
    StatementView,
>
    decreases entries.len(),
{
    if entries.len() == 0 {
        seq![]
    } else {
        let e = entries.last();
        let rest = changed_values(entries.drop_last(), existing);
        if existing.contains(e.key) {
            rest.push(update_one(e.key as int, e.value.value@))
        } else {
            rest
        }
    }
}

/// The number of measurements that are written at once, of so many.
pub open spec fn capture_chunk(total: nat) -> nat {
    if total > 100_000 {
        5_000
    } else {
        2_500
    }
}

pub const MEASUREMENTS_INSERT: &'static str =
    "INSERT INTO measurements (id, dataset_id, timestamp, value) VALUES ";

/// The statements that store settled values: one for each chunk of new instants, each a transaction
/// of its own, and one for each instant that has a value already.
#[derive(Debug)]
pub struct CaptureScript {
    pub inserts: Vec<Step>,
    pub updates: Vec<Step>,
}

/// Captures measurements together. Of the instants that some of them have, the stored values are
/// given.
pub fn batch_capture_measurements(
    existing: &Table<i64, Decimal>,
    settled: &Table<i64, Settled>,
    dataset_id: &DatasetId,
    tx_ids: &Vec<TxId>,
    total: usize,
) -> (r: CaptureScript)
    requires
        existing.is_valid(),
        settled.is_valid(),
        forall|t: i64| #[trigger]
            settled@.dom().contains(t) ==> settled@[t].first < tx_ids.len()
                && settled@[t].value@.has_text(),
    ensures
        step_views(r.inserts@) == steps_of(
            bulk(
                MEASUREMENTS_INSERT@,
                "(?, ?, ?, ?)"@,
                ""@,
                seq![],
                new_rows(settled.entries@, existing@.dom(), dataset_id.value, tx_ids@),
                capture_chunk(total as nat),
            ),
            "Failed to bulk insert measurements: "@,
            OnFailure::Leave,
        ),
        step_views(r.updates@) == steps_of(
            changed_values(settled.entries@, existing@.dom()),
            "SQL execution failure 1: "@,
            OnFailure::RollBack,
        ),
{
    let ghost entries = settled.entries@;
    let ghost known = existing@.dom();
    let mut rows: Vec<Vec<SqlValue>> = Vec::new();
    let mut changes: Vec<Statement> = Vec::new();
    let mut i: usize = 0;
    assert(entries.take(0) =~= Seq::<Entry<i64, Settled>>::empty());
    assert(row_views(rows@) =~= new_rows(entries.take(0), known, dataset_id.value, tx_ids@));
    assert(statement_views(changes@) =~= changed_values(entries.take(0), known));
    while i < settled.entries.len()
        invariant
            i <= settled.entries.len(),
            entries == settled.entries@,
            known == existing@.dom(),
            existing.is_valid(),
            settled.is_valid(),
            forall|t: i64| #[trigger]
                settled@.dom().contains(t) ==> settled@[t].first < tx_ids.len()
                    && settled@[t].value@.has_text(),
            row_views(rows@) == new_rows(
                entries.take(i as int),
                known,
                dataset_id.value,
                tx_ids@,
            ),
            statement_views(changes@) == changed_values(entries.take(i as int), known),
        decreases settled.entries.len() - i,
    {
        let entry = &settled.entries[i];
        proof {
            lemma_entry_found(settled.entries@, i as int);
            assert(settled@.dom().contains(entry.key));
            assert(entries.take(i + 1).drop_last() =~= entries.take(i as int));
        }
        if existing.contains_key(&entry.key) {
            let ghost before = changes@;
            changes.push(update_statement(entry.key, &entry.value.value));
            assert(statement_views(changes@) =~= statement_views(before).push(
                update_one(entry.key as int, entry.value.value@),
            ));
        } else {
            let ghost before = rows@;
            let mut row: Vec<SqlValue> = Vec::new();
            row.push(SqlValue::Text(tx_ids[entry.value.first].text()));
            row.push(SqlValue::Text(dataset_id.text()));
            row.push(SqlValue::Text(i64_text(entry.key)));
            row.push(SqlValue::Text(entry.value.value.text()));
            assert(value_views(row@) =~= measurement_row(
                tx_ids@[entry.value.first as int].value,
                dataset_id.value,
                entry.key as int,
                entry.value.value@,
            ));
            let ghost made = value_views(row@);
            rows.push(row);
            assert(row_views(rows@) =~= row_views(before).push(made));
        }
        i += 1;
    }
    assert(entries.take(entries.len() as int) =~= entries);
    let size: usize = if total > 100_000 {
        5_000
    } else {
        2_500
    };
    let none: Vec<SqlValue> = Vec::new();
    assert(value_views(none@) =~= Seq::<SqlView>::empty());
    let inserts = bulk_statements(MEASUREMENTS_INSERT, "(?, ?, ?, ?)", "", &none, &rows, size);
    CaptureScript {
        inserts: as_steps(inserts, "Failed to bulk insert measurements: ", OnFailure::Leave),
        updates: as_steps(changes, "SQL execution failure 1: ", OnFailure::RollBack),
    }
}

/// New identifiers, one for each of so many measurements.
pub fn new_tx_ids(count: usize) -> (r: Vec<TxId>)
    ensures
        r@.len() == count,
        forall|i: int| 0 <= i < r@.len() ==> is_random_uuid((#[trigger] r@[i]).value),
{
    let mut r: Vec<TxId> = Vec::new();
    while r.len() < count
        invariant
            r.len() <= count,
            forall|i: int| 0 <= i < r@.len() ==> is_random_uuid((#[trigger] r@[i]).value),
        decreases count - r.len(),
    {
        r.push(TxId::new());
    }
    r
}

/// The rows of measurements that are written together.
pub open spec fn input_rows(s: Seq<InputMeasurement>, dataset: u128, tx_ids: Seq<TxId>) -> Seq<
    Seq<SqlView>,
> {
    Seq::new(
        s.len(),
        |i: int|
            measurement_row(
                tx_ids[i].value,
                dataset,
                s[i].timestamp.spec_millis(),
                s[i].value@,
            ),
    )
}

/// Whether measurements can be written.
pub open spec fn all_writable(s: Seq<InputMeasurement>) -> bool {
    forall|i: int|
        0 <= i < s.len() ==> (#[trigger] s[i]).timestamp.is_valid() && s[i].value@.is_operand()
}

fn rows_of(inputs: &Vec<InputMeasurement>, dataset_id: &DatasetId, tx_ids: &Vec<TxId>) -> (r: Vec<
    Vec<SqlValue>,
>)
    requires
        all_writable(inputs@),
        tx_ids.len() == inputs.len(),
    ensures
        row_views(r@) == input_rows(inputs@, dataset_id.value, tx_ids@),
{
    let mut rows: Vec<Vec<SqlValue>> = Vec::new();
    let mut i: usize = 0;
    while i < inputs.len()
        invariant
            i <= inputs.len(),
            rows.len() == i,
            all_writable(inputs@),
            tx_ids.len() == inputs.len(),
            forall|k: int|
                0 <= k < i ==> value_views((#[trigger] rows@[k])@) == input_rows(
                    inputs@,
                    dataset_id.value,
                    tx_ids@,
                )[k],
        decreases inputs.len() - i,
    {
        let mut row: Vec<SqlValue> = Vec::new();
        row.push(SqlValue::Text(tx_ids[i].text()));
        row.push(SqlValue::Text(dataset_id.text()));
        row.push(SqlValue::Text(i64_text(inputs[i].timestamp.millis())));
        row.push(SqlValue::Text(inputs[i].value.text()));
        assert(value_views(row@) =~= input_rows(inputs@, dataset_id.value, tx_ids@)[i as int]);
        rows.push(row);
        i += 1;
    }
    assert(row_views(rows@) =~= input_rows(inputs@, dataset_id.value, tx_ids@));
    rows
}

/// Stores a chunk of measurements with one statement; none at all where there is no measurement.
pub fn capture_measurement_chunk(
    dataset_id: &DatasetId,
    chunk: &Vec<InputMeasurement>,
    tx_ids: &Vec<TxId>,
) -> (r: Vec<Step>)
    requires
        all_writable(chunk@),
        tx_ids.len() == chunk.len(),
    ensures
        step_views(r@) == steps_of(
            bulk(
                MEASUREMENTS_INSERT@,
                "(?, ?, ?, ?)"@,
                ""@,
                seq![],
                input_rows(chunk@, dataset_id.value, tx_ids@),
                if chunk@.len() > 0 {
                    chunk@.len()
                } else {
                    1
                },
            ),
            "Failed to bulk insert measurements: "@,
            OnFailure::Leave,
        ),
{
    let rows = rows_of(chunk, dataset_id, tx_ids);
    let size: usize = if chunk.len() > 0 {
        chunk.len()
    } else {
        1
    };
    let none: Vec<SqlValue> = Vec::new();
    assert(value_views(none@) =~= Seq::<SqlView>::empty());
    let inserts = bulk_statements(MEASUREMENTS_INSERT, "(?, ?, ?, ?)", "", &none, &rows, size);
    as_steps(inserts, "Failed to bulk insert measurements: ", OnFailure::Leave)
}

/// The step that deletes the measurements of a range of time, both ends included.
pub open spec fn delete_range(start: Timestamp, end: Timestamp) -> StepView {
    StepView {
        statement: StatementView {
            sql: "DELETE FROM measurements WHERE timestamp >= ? AND timestamp <= ?"@,
            params: seq![
                SqlView::Integer(start.spec_millis()),
                SqlView::Integer(end.spec_millis()),
            ],
        },
        complaint: "Failed to delete measurements in range: "@,
        on_failure: OnFailure::RollBack,
    }
}

/// Replaces the measurements of a range of time by others, in one transaction.
pub fn replace_measurements_in_range(
    dataset_id: &DatasetId,
    start: &Timestamp,
    end: &Timestamp,
    new_measurements: &Vec<InputMeasurement>,
    tx_ids: &Vec<TxId>,
) -> (r: Vec<Step>)
    requires
        start.is_valid(),
        end.is_valid(),
        all_writable(new_measurements@),
        tx_ids.len() == new_measurements.len(),
    ensures
        step_views(r@) == seq![delete_range(*start, *end)] + steps_of(
            bulk(
                MEASUREMENTS_INSERT@,
                "(?, ?, ?, ?)"@,
                ""@,
                seq![],
                input_rows(new_measurements@, dataset_id.value, tx_ids@),
                CHUNK_SIZE as nat,
            ),
            "Failed to insert compressed measurements: "@,
            OnFailure::RollBack,
        ),
{
    let mut params: Vec<SqlValue> = Vec::new();
    params.push(SqlValue::Integer(start.millis()));
    params.push(SqlValue::Integer(end.millis()));
    assert(value_views(params@) =~= delete_range(*start, *end).statement.params);
    let mut steps: Vec<Step> = Vec::new();
    steps.push(
        step(
            statement(
                "DELETE FROM measurements WHERE timestamp >= ? AND timestamp <= ?",
                params,
            ),
            "Failed to delete measurements in range: ",
            OnFailure::RollBack,
        ),
    );
    let ghost first = steps@;
    let rows = rows_of(new_measurements, dataset_id, tx_ids);
    let none: Vec<SqlValue> = Vec::new();
    assert(value_views(none@) =~= Seq::<SqlView>::empty());
    let inserts = bulk_statements(
        MEASUREMENTS_INSERT,
        "(?, ?, ?, ?)",
        "",
        &none,
        &rows,
        CHUNK_SIZE,
    );
    let mut more = as_steps(
        inserts,
        "Failed to insert compressed measurements: ",
        OnFailure::RollBack,
    );
    let ghost second = more@;
    steps.append(&mut more);
    assert(step_views(steps@) =~= step_views(first) + step_views(second));
    assert(step_views(first) =~= seq![delete_range(*start, *end)]);
    steps
}

/// Whether the cached measurements of an aspect are dropped after a replacement: only where it wrote
/// something.
pub fn replacement_invalidates(new_measurements: &Vec<InputMeasurement>) -> (r: bool)
    ensures
        r == (new_measurements@.len() > 0),
{
    new_measurements.len() > 0
}

/// A range of time that has been compressed, in milliseconds.
#[derive(Debug, Clone, Copy, PartialEq, Eq, Structural)]
pub struct CompressedRange {
    pub start: i64,
    pub end: i64,
}

/// The statement of [`compressed_range_at`].
pub open spec fn spec_compressed_range_at(timestamp: &Timestamp) -> StatementView {
    StatementView {
        sql: "SELECT time_range_start, time_range_end FROM compression_tier_results WHERE time_range_start <= ? AND time_range_end >= ? LIMIT 1"@,
        params: seq![
            SqlView::Integer(timestamp.spec_millis()),
            SqlView::Integer(timestamp.spec_millis()),
        ],
    }
}

/// The query for a compressed range that an instant falls in.
pub fn compressed_range_at(timestamp: &Timestamp) -> (r: Statement)
    requires
        timestamp.is_valid(),
    ensures
        r@ == spec_compressed_range_at(timestamp),
{
    let mut params: Vec<SqlValue> = Vec::new();
    params.push(SqlValue::Integer(timestamp.millis()));
    params.push(SqlValue::Integer(timestamp.millis()));
    assert(value_views(params@) =~= seq![
        SqlView::Integer(timestamp.spec_millis()),
        SqlView::Integer(timestamp.spec_millis()),
    ]);
    statement(
        "SELECT time_range_start, time_range_end FROM compression_tier_results WHERE time_range_start <= ? AND time_range_end >= ? LIMIT 1",
        params,
    )
}

/// The statement of [`compressed_ranges_within`].
pub open spec fn spec_compressed_ranges_within(
    min_timestamp: &Timestamp,
    max_timestamp: &Timestamp,
) -> StatementView {
    StatementView {
        sql: "SELECT DISTINCT time_range_start, time_range_end FROM compression_tier_results WHERE time_range_start <= ? AND time_range_end >= ?"@,
        params: seq![
            SqlView::Integer(max_timestamp.spec_millis()),
            SqlView::Integer(min_timestamp.spec_millis()),
        ],
    }
}

/// The query for the compressed ranges that overlap a range of time.
pub fn compressed_ranges_within(min_timestamp: &Timestamp, max_timestamp: &Timestamp) -> (r:
    Statement)
    requires
        min_timestamp.is_valid(),
        max_timestamp.is_valid(),
    ensures
        r@ == spec_compressed_ranges_within(min_timestamp, max_timestamp),
{
    let mut params: Vec<SqlValue> = Vec::new();
    params.push(SqlValue::Integer(max_timestamp.millis()));
    params.push(SqlValue::Integer(min_timestamp.millis()));
    assert(value_views(params@) =~= seq![
        SqlView::Integer(max_timestamp.spec_millis()),
        SqlView::Integer(min_timestamp.spec_millis()),
    ]);
    statement(
        "SELECT DISTINCT time_range_start, time_range_end FROM compression_tier_results WHERE time_range_start <= ? AND time_range_end >= ?",
        params,
    )
}

/// An integer, or zero for any other value.
pub open spec fn integer_or_zero(v: SqlView) -> int {
    match v {
        SqlView::Integer(n) => n,
        _ => 0,
    }
}

fn integer_or_none(v: &SqlValue) -> (r: i64)
    ensures
        r == integer_or_zero(v@),
{
    match v {
        SqlValue::Integer(n) => *n,
        _ => 0,
    }
}

/// The compressed range in a row; an end that is no integer counts as zero.
pub fn compressed_range_of_row(row: &Vec<SqlValue>) -> (r: CompressedRange)
    requires
        row.len() >= 2,
    ensures
        r.start == integer_or_zero(row@[0]@),
        r.end == integer_or_zero(row@[1]@),
{
    CompressedRange { start: integer_or_none(&row[0]), end: integer_or_none(&row[1]) }
}

/// The statement that marks a compressed range as dirty.
pub open spec fn dirty_region(range: CompressedRange, now: int, reason: Seq<char>) -> StatementView {
    StatementView {
        sql: "INSERT INTO dirty_regions (region_start, region_end, marked_at, reason) VALUES (?, ?, ?, ?)"@,
        params: seq![
            SqlView::Integer(range.start as int),
            SqlView::Integer(range.end as int),
            SqlView::Integer(now),
            SqlView::Text(reason),
        ],
    }
}

/// The statement that counts the dirty regions anew.
pub open spec fn dirty_count() -> StatementView {
    StatementView {
        sql: "UPDATE compression_state SET dirty_regions_count = (SELECT COUNT(*) FROM dirty_regions) WHERE id = 1"@,
        params: seq![],
    }
}

/// Why a compressed range is dirty.
#[derive(Debug, Clone, Copy, PartialEq, Eq, Structural)]
pub enum DirtyReason {
    Measurement,
    Batch,
}

impl DirtyReason {
    pub open spec fn spec_text(self) -> Seq<char> {
        match self {
            DirtyReason::Measurement => "New measurement inserted into compressed range"@,
            DirtyReason::Batch => "Batch insert overlapped with compressed range"@,
        }
    }

    pub fn text(self) -> (r: &'static str)
        ensures
            r@ == self.spec_text(),
    {
        match self {
            DirtyReason::Measurement => "New measurement inserted into compressed range",
            DirtyReason::Batch => "Batch insert overlapped with compressed range",
        }
    }
}

/// Marks compressed ranges as dirty and counts the dirty regions anew; nothing is done where there
/// is no range.
pub fn mark_dirty_regions(ranges: &Vec<CompressedRange>, now: i64, reason: DirtyReason) -> (r: Vec<
    Statement,
>)
    ensures
        statement_views(r@) == if ranges@.len() == 0 {
            seq![]
        } else {
            Seq::new(
                ranges@.len(),
                |i: int| dirty_region(ranges@[i], now as int, reason.spec_text()),
            ).push(dirty_count())
        },
{
    let mut r: Vec<Statement> = Vec::new();
    if ranges.len() == 0 {
        assert(statement_views(r@) =~= Seq::<StatementView>::empty());
        return r;
    }
    let mut i: usize = 0;
    while i < ranges.len()
        invariant
            i <= ranges.len(),
            r.len() == i,
            forall|k: int|
                0 <= k < i ==> (#[trigger] r@[k])@ == dirty_region(
                    ranges@[k],
                    now as int,
                    reason.spec_text(),
                ),
        decreases ranges.len() - i,
    {
        let mut params: Vec<SqlValue> = Vec::new();
        params.push(SqlValue::Integer(ranges[i].start));
        params.push(SqlValue::Integer(ranges[i].end));
        params.push(SqlValue::Integer(now));
        params.push(text_value(reason.text()));
        assert(value_views(params@) =~= dirty_region(
            ranges@[i as int],
            now as int,
            reason.spec_text(),
        ).params);
        r.push(
            statement(
                "INSERT INTO dirty_regions (region_start, region_end, marked_at, reason) VALUES (?, ?, ?, ?)",
                params,
            ),
        );
        i += 1;
    }
    let none: Vec<SqlValue> = Vec::new();
    assert(value_views(none@) =~= Seq::<SqlView>::empty());
    r.push(
        statement(
            "UPDATE compression_state SET dirty_regions_count = (SELECT COUNT(*) FROM dirty_regions) WHERE id = 1",
            none,
        ),
    );
    assert(statement_views(r@) =~= Seq::new(
        ranges@.len(),
        |i: int| dirty_region(ranges@[i], now as int, reason.spec_text()),
    ).push(dirty_count()));
    r
}

/// Whether an instant is the earliest of those of measurements.
pub open spec fn is_earliest(s: Seq<InputMeasurement>, t: Timestamp) -> bool {
    &&& exists|i: int| 0 <= i < s.len() && (#[trigger] s[i]).timestamp == t
    &&& forall|i: int| 0 <= i < s.len() ==> t.total() <= (#[trigger] s[i]).timestamp.total()
}

/// Whether an instant is the latest of those of measurements.
pub open spec fn is_latest(s: Seq<InputMeasurement>, t: Timestamp) -> bool {
    &&& exists|i: int| 0 <= i < s.len() && (#[trigger] s[i]).timestamp == t
    &&& forall|i: int| 0 <= i < s.len() ==> (#[trigger] s[i]).timestamp.total() <= t.total()
}

/// The earliest and the latest instant of measurements.
pub fn extent_of(inputs: &Vec<InputMeasurement>) -> (r: (Timestamp, Timestamp))
    requires
        inputs.len() > 0,
        forall|i: int| 0 <= i < inputs.len() ==> (#[trigger] inputs@[i]).timestamp.is_valid(),
    ensures
        r.0.is_valid(),
        r.1.is_valid(),
        is_earliest(inputs@, r.0),
        is_latest(inputs@, r.1),
{
    let mut earliest = inputs[0].timestamp;
    let mut latest = inputs[0].timestamp;
    let mut i: usize = 1;
    while i < inputs.len()
        invariant
            1 <= i <= inputs.len(),
            forall|k: int| 0 <= k < inputs.len() ==> (#[trigger] inputs@[k]).timestamp.is_valid(),
            earliest.is_valid(),
            latest.is_valid(),
            exists|k: int| 0 <= k < i && (#[trigger] inputs@[k]).timestamp == earliest,
            exists|k: int| 0 <= k < i && (#[trigger] inputs@[k]).timestamp == latest,
            forall|k: int|
                0 <= k < i ==> earliest.total() <= (#[trigger] inputs@[k]).timestamp.total(),
            forall|k: int|
                0 <= k < i ==> (#[trigger] inputs@[k]).timestamp.total() <= latest.total(),
        decreases inputs.len() - i,
    {
        let t = inputs[i].timestamp;
        earliest = earliest.earlier(t);
        latest = latest.later(t);
        i += 1;
    }
    (earliest, latest)
}

/// The instants that an aspect knows as its first and last, after measurements from one instant to
/// another have come.
pub open spec fn extended(
    earliest: Option<Timestamp>,
    latest: Option<Timestamp>,
    from: Timestamp,
    to: Timestamp,
) -> (Timestamp, Timestamp) {
    (
        match earliest {
            Some(t) => if from.total() < t.total() {
                from
            } else {
                t
            },
            None => from,
        },
        match latest {
            Some(t) => if t.total() < to.total() {
                to
            } else {
                t
            },
            None => to,
        },
    )
}

/// The instants that an aspect knows as its first and last, after measurements from one instant to
/// another have come.
pub fn extend_known_range(
    earliest: Option<Timestamp>,
    latest: Option<Timestamp>,
    from: Timestamp,
    to: Timestamp,
) -> (r: (Timestamp, Timestamp))
    requires
        from.is_valid(),
        to.is_valid(),
        earliest matches Some(t) ==> t.is_valid(),
        latest matches Some(t) ==> t.is_valid(),
    ensures
        r == extended(earliest, latest, from, to),
{
    let first = match earliest {
        Some(t) => t.earlier(from),
        None => from,
    };
    let last = match latest {
        Some(t) => t.later(to),
        None => to,
    };
    (first, last)
}

/// Capturing measurements gives a value to their instants, and to no other that had none.
pub proof fn law_captured_instants(stored: Map<int, DecimalView>, s: Seq<PointView>, t: int)
    ensures
        all_captured(stored, s).dom().contains(t) <==> stored.dom().contains(t) || exists|i: int|
            0 <= i < s.len() && (#[trigger] s[i]).timestamp.spec_millis() == t,
    decreases s.len(),
{
    if s.len() > 0 {
        law_captured_instants(stored, s.drop_last(), t);
        if s.last().timestamp.spec_millis() == t {
            assert(s[s.len() - 1].timestamp.spec_millis() == t);
        }
        if exists|i: int| 0 <= i < s.len() && (#[trigger] s[i]).timestamp.spec_millis() == t {
            let i = choose|i: int|
                0 <= i < s.len() && (#[trigger] s[i]).timestamp.spec_millis() == t;
            if i < s.len() - 1 {
                assert(s.drop_last()[i].timestamp.spec_millis() == t);
            }
        }
        if exists|i: int|
            0 <= i < s.drop_last().len() && (#[trigger] s.drop_last()[i]).timestamp.spec_millis()
                == t {
            let i = choose|i: int|
                0 <= i < s.drop_last().len() && (
                #[trigger] s.drop_last()[i]).timestamp.spec_millis() == t;
            assert(s[i].timestamp.spec_millis() == t);
        }
    }
}

/// Capturing measurements leaves the values at all other instants as they are.
pub proof fn law_other_instants_keep_their_values(
    stored: Map<int, DecimalView>,
    s: Seq<PointView>,
    t: int,
)
    requires
        stored.dom().contains(t),
        forall|i: int| 0 <= i < s.len() ==> (#[trigger] s[i]).timestamp.spec_millis() != t,
    ensures
        all_captured(stored, s)[t] == stored[t],
    decreases s.len(),
{
    if s.len() > 0 {
        assert forall|i: int| 0 <= i < s.drop_last().len() implies (
        #[trigger] s.drop_last()[i]).timestamp.spec_millis() != t by {
            assert(s[i].timestamp.spec_millis() != t);
        }
        law_other_instants_keep_their_values(stored, s.drop_last(), t);
        assert(s[s.len() - 1].timestamp.spec_millis() != t);
    }
}

/// Of measurements that are captured where there are none yet, exactly the new ones are written.
pub proof fn law_exactly_the_new_are_written(
    existing: Seq<i64>,
    s: Seq<InputMeasurement>,
    dataset: u128,
    tx_ids: Seq<TxId>,
    n: int,
    written: StatementView,
)
    requires
        0 <= n <= s.len(),
    ensures
        new_inserts(existing, s, dataset, tx_ids, n).contains(written) <==> exists|i: int|
            #![trigger s[i]]
            0 <= i < n && is_new(existing, s, i) && written == insert_one(
                tx_ids[i].value,
                dataset,
                s[i].timestamp.spec_millis(),
                s[i].value@,
            ),
    decreases n,
{
    let all = new_inserts(existing, s, dataset, tx_ids, n);
    if n > 0 {
        law_exactly_the_new_are_written(existing, s, dataset, tx_ids, n - 1, written);
        let rest = new_inserts(existing, s, dataset, tx_ids, n - 1);
        let last = insert_one(
            tx_ids[n - 1].value,
            dataset,
            s[n - 1].timestamp.spec_millis(),
            s[n - 1].value@,
        );
        if is_new(existing, s, n - 1) {
            assert(all == rest.push(last));
            if all.contains(written) {
                let k = choose|k: int| 0 <= k < all.len() && all[k] == written;
                if k < rest.len() {
                    assert(rest[k] == written);
                    assert(rest.contains(written));
                } else {
                    assert(s[n - 1] == s[n - 1]);
                }
            }
            if rest.contains(written) {
                let k = choose|k: int| 0 <= k < rest.len() && rest[k] == written;
                assert(all[k] == written);
            }
            assert(all[rest.len() as int] == last);
        }
    }
}

}
