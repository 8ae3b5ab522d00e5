//! Observations: the table of an aspect's own, measurements that are written to it, and the range of
//! time that an aspect knows of.
use crate::columns::database_error;
use crate::decimal::{decimal_text, DecimalView};
use crate::error::Error;
use crate::ids::{uuid_text, AspectId, DatabaseId, SubjectId, TxId};
use crate::measurement::InputMeasurement;
use crate::queue::one_id;
use crate::resolution::Resolution;
use crate::sql::{
    no_values,
    statement,
    text_value,
    value_views,
    SqlValue,
    SqlView,
    Statement,
    StatementView,
};
use crate::store::measurements::{all_writable, extended};
use crate::store::metadata::{
    alphanumeric,
    millis_in,
    millis_read,
    sanitize_table_name,
    underscored,
};
use crate::text::{i64_text, int_text, join};
use crate::time::Timestamp;
use crate::transaction::{step, step_views, OnFailure, Step, StepView};
use vstd::prelude::*;

verus! {

/// The name of the table of an aspect that has one of its own.
pub open spec fn own_table(name: Seq<char>) -> Seq<char> {
    underscored(name, |c: char| !(alphanumeric(c) || c == '_'))
}

/// How the table of an aspect is made, with its index.
pub open spec fn own_table_steps(table: Seq<char>) -> Seq<StepView> {
    seq![
        StepView {
            statement: StatementView {
                sql: "CREATE TABLE IF NOT EXISTS "@ + table
                    + " (id TEXT PRIMARY KEY, timestamp TEXT NOT NULL, value TEXT NOT NULL)"@,
                params: seq![],
            },
            complaint: "Failed to create aspect table: "@,
            on_failure: OnFailure::Leave,
        },
        StepView {
            statement: StatementView {
                sql: "CREATE INDEX IF NOT EXISTS idx_"@ + table + "_timestamp ON "@ + table
                    + " (timestamp)"@,
                params: seq![],
            },
            complaint: "Failed to create index for aspect table: "@,
            on_failure: OnFailure::Leave,
        },
    ]
}

/// How the table of an aspect is made among the data of its subject, with its index.
pub fn own_table_definitions(name: &str) -> (r: Vec<Step>)
    ensures
        step_views(r@) == own_table_steps(own_table(name@)),
{
    let table = sanitize_table_name(name);
    let mut sql = join("CREATE TABLE IF NOT EXISTS ", table.as_str());
    sql.append(" (id TEXT PRIMARY KEY, timestamp TEXT NOT NULL, value TEXT NOT NULL)");
    let mut index = join("CREATE INDEX IF NOT EXISTS idx_", table.as_str());
    index.append("_timestamp ON ");
    index.append(table.as_str());
    index.append(" (timestamp)");
    let mut r: Vec<Step> = Vec::new();
    r.push(
        step(
            statement(sql.as_str(), no_values()),
            "Failed to create aspect table: ",
            OnFailure::Leave,
        ),
    );
    r.push(
        step(
            statement(index.as_str(), no_values()),
            "Failed to create index for aspect table: ",
            OnFailure::Leave,
        ),
    );
    assert(step_views(r@) =~= own_table_steps(own_table(name@)));
    r
}

/// The step of [`track_own_table`].
pub open spec fn spec_track_own_table(
    id: &AspectId,
    subject_id: &SubjectId,
    database_id: &DatabaseId,
    name: &str,
    resolution: Resolution,
    created_at: i64,
) -> StepView {
    StepView {
        statement: StatementView {
            sql: "INSERT INTO aspects (id, subject_id, database_id, name, table_name, resolution, created_at, earliest_measurement, latest_measurement) VALUES (?, ?, ?, ?, ?, ?, ?, NULL, NULL)"@,
            params: seq![
                SqlView::Text(uuid_text(id.value)),
                SqlView::Text(uuid_text(subject_id.value)),
                SqlView::Text(uuid_text(database_id.value)),
                SqlView::Text(name@),
                SqlView::Text(own_table(name@)),
                SqlView::Text(resolution.spec_name()),
                SqlView::Text(int_text(created_at as int)),
            ],
        },
        complaint: "Failed to insert aspect metadata: "@,
        on_failure: OnFailure::Leave,
    }
}

/// How an aspect with a table of its own is written to the metadata: nothing is known yet of when it
/// was measured.
pub fn track_own_table(
    id: &AspectId,
    subject_id: &SubjectId,
    database_id: &DatabaseId,
    name: &str,
    resolution: Resolution,
    created_at: i64,
) -> (r: Step)
    ensures
        r@ == spec_track_own_table(id, subject_id, database_id, name, resolution, created_at),
{
    let mut params: Vec<SqlValue> = Vec::new();
    params.push(SqlValue::Text(id.text()));
    params.push(SqlValue::Text(subject_id.text()));
    params.push(SqlValue::Text(database_id.text()));
    params.push(text_value(name));
    params.push(SqlValue::Text(sanitize_table_name(name)));
    params.push(SqlValue::Text(resolution.name()));
    params.push(SqlValue::Text(i64_text(created_at)));
    assert(value_views(params@) =~= seq![
        SqlView::Text(uuid_text(id.value)),
        SqlView::Text(uuid_text(subject_id.value)),
        SqlView::Text(uuid_text(database_id.value)),
        SqlView::Text(name@),
        SqlView::Text(own_table(name@)),
        SqlView::Text(resolution.spec_name()),
        SqlView::Text(int_text(created_at as int)),
    ]);
    step(
        statement(
            "INSERT INTO aspects (id, subject_id, database_id, name, table_name, resolution, created_at, earliest_measurement, latest_measurement) VALUES (?, ?, ?, ?, ?, ?, ?, NULL, NULL)",
            params,
        ),
        "Failed to insert aspect metadata: ",
        OnFailure::Leave,
    )
}

/// The statement that writes an observation to a table.
pub open spec fn observation(
    table_name: Seq<char>,
    id: u128,
    millis: int,
    value: DecimalView,
) -> StatementView {
    StatementView {
        sql: "INSERT INTO "@ + table_name + " (id, timestamp, value) VALUES (?, ?, ?)"@,
        params: seq![
            SqlView::Text(uuid_text(id)),
            SqlView::Text(int_text(millis)),
            SqlView::Text(decimal_text(value.mantissa, value.scale)),
        ],
    }
}

fn observation_statement(table_name: &str, tx_id: &TxId, input: &InputMeasurement) -> (r: Statement)
    requires
        input.timestamp.is_valid(),
        input.value@.is_operand(),
    ensures
        r@ == observation(
            table_name@,
            tx_id.value,
            input.timestamp.spec_millis(),
            input.value@,
        ),
{
    let mut sql = join("INSERT INTO ", table_name);
    sql.append(" (id, timestamp, value) VALUES (?, ?, ?)");
    let mut params: Vec<SqlValue> = Vec::new();
    params.push(SqlValue::Text(tx_id.text()));
    params.push(SqlValue::Text(i64_text(input.timestamp.millis())));
    params.push(SqlValue::Text(input.value.text()));
    assert(value_views(params@) =~= observation(
        table_name@,
        tx_id.value,
        input.timestamp.spec_millis(),
        input.value@,
    ).params);
    statement(sql.as_str(), params)
}

/// How an observation is written.
pub fn observe_measurement(table_name: &str, tx_id: &TxId, measurement: &InputMeasurement) -> (r:
    Step)
    requires
        measurement.timestamp.is_valid(),
        measurement.value@.is_operand(),
    ensures
        r@ == (StepView {
            statement: observation(
                table_name@,
                tx_id.value,
                measurement.timestamp.spec_millis(),
                measurement.value@,
            ),
            complaint: "Failed to insert measurement: "@,
            on_failure: OnFailure::Leave,
        }),
{
    step(
        observation_statement(table_name, tx_id, measurement),
        "Failed to insert measurement: ",
        OnFailure::Leave,
    )
}

/// How observations are written.
pub open spec fn observation_steps(
    table_name: Seq<char>,
    tx_ids: Seq<TxId>,
    s: Seq<InputMeasurement>,
) -> Seq<StepView> {
    Seq::new(
        s.len(),
        |i: int|
            StepView {
                statement: observation(
                    table_name,
                    tx_ids[i].value,
                    s[i].timestamp.spec_millis(),
                    s[i].value@,
                ),
                complaint: "Failed to insert batch measurement: "@,
                on_failure: OnFailure::Leave,
            },
    )
}

/// How observations are written, all in one transaction.
pub fn observe_measurements_batch(
    table_name: &str,
    tx_ids: &Vec<TxId>,
    measurements: &Vec<InputMeasurement>,
) -> (r: Vec<Step>)
    requires
        all_writable(measurements@),
        tx_ids.len() == measurements.len(),
    ensures
        step_views(r@) == observation_steps(table_name@, tx_ids@, measurements@),
{
    let mut r: Vec<Step> = Vec::new();
    let mut i: usize = 0;
    while i < measurements.len()
        invariant
            i <= measurements.len(),
            all_writable(measurements@),
            tx_ids.len() == measurements.len(),
            r.len() == i,
            forall|k: int|
                0 <= k < i ==> (#[trigger] r@[k])@ == observation_steps(
                    table_name@,
                    tx_ids@,
                    measurements@,
                )[k],
        decreases measurements.len() - i,
    {
        r.push(
            step(
                observation_statement(table_name, &tx_ids[i], &measurements[i]),
                "Failed to insert batch measurement: ",
                OnFailure::Leave,
            ),
        );
        i += 1;
    }
    assert(step_views(r@) =~= observation_steps(table_name@, tx_ids@, measurements@));
    r
}

/// The statement of [`known_range_query`].
pub open spec fn spec_known_range_query(aspect_id: &AspectId) -> StatementView {
    StatementView {
        sql: "SELECT earliest_measurement, latest_measurement FROM aspects WHERE id = ?"@,
        params: seq![SqlView::Text(uuid_text(aspect_id.value))],
    }
}

/// The query for the range of time that an aspect knows of.
pub fn known_range_query(aspect_id: &AspectId) -> (r: Statement)
    ensures
        r@ == spec_known_range_query(aspect_id),
{
    statement(
        "SELECT earliest_measurement, latest_measurement FROM aspects WHERE id = ?",
        one_id(aspect_id.value),
    )
}

/// Whether an instant is what a value is read as.
pub open spec fn is_read(t: Option<Timestamp>, value: SqlView) -> bool {
    match t {
        Some(t) => t.is_valid() && millis_read(value) == Some(t.spec_millis()) && t.total()
            == t.spec_millis() * 1_000_000,
        None => millis_read(value) is None,
    }
}

/// The range of time that an aspect knows of, in a row; what is no text of milliseconds is nothing,
/// and without a row there is no such aspect.
pub fn parse_known_range(row: Option<&Vec<SqlValue>>) -> (r: Result<
    (Option<Timestamp>, Option<Timestamp>),
    Error,
>)
    requires
        row matches Some(row) ==> row.len() == 2,
    ensures
        match row {
            Some(row) => r is Ok && is_read(r->Ok_0.0, row@[0]@) && is_read(r->Ok_0.1, row@[1]@),
            None => r is Err && r->Err_0 is DatabaseError && r->Err_0.spec_message()
                == database_error("Aspect metadata not found"@),
        },
{
    match row {
        Some(row) => Ok((millis_in(&row[0]), millis_in(&row[1]))),
        None => Err(Error::DatabaseError("Aspect metadata not found".to_owned())),
    }
}

/// The step of [`update_known_range`].
pub open spec fn spec_update_known_range(
    aspect_id: &AspectId,
    earliest: &Timestamp,
    latest: &Timestamp,
) -> StepView {
    StepView {
        statement: StatementView {
            sql: "UPDATE aspects SET earliest_measurement = ?, latest_measurement = ? WHERE id = ?"@,
            params: seq![
                SqlView::Text(int_text(earliest.spec_millis())),
                SqlView::Text(int_text(latest.spec_millis())),
                SqlView::Text(uuid_text(aspect_id.value)),
            ],
        },
        complaint: "Failed to update aspect metadata: "@,
        on_failure: OnFailure::Leave,
    }
}

/// How the range of time that an aspect knows of is written.
pub fn update_known_range(aspect_id: &AspectId, earliest: &Timestamp, latest: &Timestamp) -> (r: Step)
    requires
        earliest.is_valid(),
        latest.is_valid(),
    ensures
        r@ == spec_update_known_range(aspect_id, earliest, latest),
{
    let mut params: Vec<SqlValue> = Vec::new();
    params.push(SqlValue::Text(i64_text(earliest.millis())));
    params.push(SqlValue::Text(i64_text(latest.millis())));
    params.push(text_value(aspect_id.text().as_str()));
    assert(value_views(params@) =~= seq![
        SqlView::Text(int_text(earliest.spec_millis())),
        SqlView::Text(int_text(latest.spec_millis())),
        SqlView::Text(uuid_text(aspect_id.value)),
    ]);
    step(
        statement(
            "UPDATE aspects SET earliest_measurement = ?, latest_measurement = ? WHERE id = ?",
            params,
        ),
        "Failed to update aspect metadata: ",
        OnFailure::Leave,
    )
}

/// The range of time that an aspect knows of covers what it knew before and what has come, and no
/// more: each of its ends is one of theirs.
pub proof fn law_known_range_covers(
    earliest: Option<Timestamp>,
    latest: Option<Timestamp>,
    from: Timestamp,
    to: Timestamp,
)
    ensures
        extended(earliest, latest, from, to).0.total() <= from.total(),
        to.total() <= extended(earliest, latest, from, to).1.total(),
        earliest matches Some(t) ==> extended(earliest, latest, from, to).0.total() <= t.total(),
        latest matches Some(t) ==> t.total() <= extended(earliest, latest, from, to).1.total(),
        extended(earliest, latest, from, to).0 == from || earliest == Some(
            extended(earliest, latest, from, to).0,
        ),
        extended(earliest, latest, from, to).1 == to || latest == Some(
            extended(earliest, latest, from, to).1,
        ),
{
}

}
