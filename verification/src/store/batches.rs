//! Batches: how they are written, moved, taken out and read.
use crate::batch::{Batch, BatchMetatdata};
use crate::columns::{
    database_error,
    i64_of_usize,
    i64_range_refusal,
    named_resolution,
    not_integer,
    not_resolution,
    not_text,
    not_uuid,
    optional_text_column,
    or,
    refusal,
    resolution_field,
    tells,
    uuid_field,
};
use crate::error::{failure, Error};
use crate::ids::{is_random_uuid, uuid_parse, uuid_text, AspectId, BatchId, DatabaseId};
use crate::measurement::BatchedMeasurement;
use crate::names::name_views;
use crate::queue::{one_id, owner_columns, owner_values};
use crate::registry::DatabaseInfo;
use crate::sql::{
    bulk,
    bulk_statements,
    integer_column,
    row_views,
    statement,
    text_column,
    text_value,
    value_views,
    SqlValue,
    SqlView,
    Statement,
    StatementView,
};
use crate::store::measurements::{as_steps, steps_of};
use crate::text::{i64_text, int_text, join};
use crate::time::Timestamp;
use crate::transaction::{
    rolled_back,
    rolling_back,
    step_views,
    OnFailure,
    Script,
    ScriptView,
    Step,
    StepView,
};
use vstd::prelude::*;

verus! {

/// The number of batches that are written at once.
pub const INSERTED_AT_ONCE: usize = 100;

/// The number of batches that are taken out at once.
pub const REMOVED_AT_ONCE: usize = 500;

/// The MD5 digest of a text, in hexadecimal digits.
pub uninterp spec fn md5_text(text: Seq<char>) -> Seq<char>;

/// `md5::compute` of `md5` on the bytes of a text, written with `{:x}`: two digits for each of the
/// sixteen bytes of the digest, which is named.
#[verifier::external_body]
fn md5_of(text: &str) -> (r: String)
    ensures
        r@ == md5_text(text@),
        r@.len() == 32,
{
    format!("{:x}", md5::compute(text))
}

/// Where a batch stands.
#[derive(Debug, Clone, Copy, PartialEq, Eq, Structural)]
pub enum BatchStatus {
    Unprocessed,
    Processed,
}

impl BatchStatus {
    pub open spec fn spec_text(self) -> Seq<char> {
        match self {
            BatchStatus::Unprocessed => "unprocessed"@,
            BatchStatus::Processed => "processed"@,
        }
    }

    /// The name of the status.
    pub fn text(&self) -> (r: String)
        ensures
            r@ == self.spec_text(),
    {
        match self {
            BatchStatus::Unprocessed => "unprocessed".to_owned(),
            BatchStatus::Processed => "processed".to_owned(),
        }
    }

    /// What is told when a batch cannot be written.
    pub open spec fn insert_complaint(self) -> Seq<char> {
        match self {
            BatchStatus::Unprocessed => "Failed to insert unprocessed batch: "@,
            BatchStatus::Processed => "Failed to insert processed batch: "@,
        }
    }

    /// What is told when a batch cannot be taken out.
    pub open spec fn remove_complaint(self) -> Seq<char> {
        match self {
            BatchStatus::Unprocessed => "Failed to remove unprocessed batch: "@,
            BatchStatus::Processed => "Failed to remove processed batch: "@,
        }
    }

    /// What is told when batches cannot be taken out at once.
    pub open spec fn bulk_complaint(self) -> Seq<char> {
        match self {
            BatchStatus::Unprocessed => "Failed to bulk delete unprocessed batches: "@,
            BatchStatus::Processed => "Failed to bulk delete processed batches: "@,
        }
    }

    /// What is told when all batches cannot be taken out.
    pub open spec fn clear_complaint(self) -> Seq<char> {
        match self {
            BatchStatus::Unprocessed => "Failed to clear unprocessed batches: "@,
            BatchStatus::Processed => "Failed to clear processed batches: "@,
        }
    }

    /// What is told when old batches cannot be taken out.
    pub open spec fn cleanup_complaint(self) -> Seq<char> {
        match self {
            BatchStatus::Unprocessed => "Failed to cleanup unprocessed batches: "@,
            BatchStatus::Processed => "Failed to cleanup processed batches: "@,
        }
    }
}

/// The first seven columns of a batch, in which it is read back.
pub open spec fn batch_columns(
    batch: Batch,
    aspect: u128,
    database: u128,
    measurements: Seq<char>,
) -> Seq<SqlView> {
    seq![
        SqlView::Text(uuid_text(batch.batch_id.value)),
        SqlView::Text(uuid_text(aspect)),
        SqlView::Text(uuid_text(database)),
        SqlView::Integer(batch.metadata.size as int),
        SqlView::Text(batch.metadata.resolution.spec_text()),
        SqlView::Text(measurements),
        SqlView::Text(md5_text(measurements)),
    ]
}

/// The step of [`insert_batch`].
pub open spec fn spec_insert_batch(
    aspect_id: &AspectId,
    database_id: &DatabaseId,
    batch: &Batch,
    measurements: &str,
    status: BatchStatus,
    now: i64,
) -> StepView {
    rolled_back(
        "INSERT INTO batches (id, aspect_id, database_id, size, resolution, measurements, batch_hash, status, created_at) VALUES (?, ?, ?, ?, ?, ?, ?, ?, ?)"@,
        batch_columns(*batch, aspect_id.value, database_id.value, measurements@) + seq![
            SqlView::Text(status.spec_text()),
            SqlView::Integer(now as int),
        ],
        status.insert_complaint(),
    )
}

/// How a batch is written; its measurements are given as a text. A size that does not fit into the
/// column is an error.
fn insert_batch(
    aspect_id: &AspectId,
    database_id: &DatabaseId,
    batch: &Batch,
    measurements: &str,
    status: BatchStatus,
    now: i64,
) -> (r: Result<Step, Error>)
    ensures
        match r {
            Ok(s) => batch.metadata.size <= i64::MAX && s@ == spec_insert_batch(
                aspect_id,
                database_id,
                batch,
                measurements,
                status,
                now,
            ),
            Err(e) => batch.metadata.size > i64::MAX && e is Message && e.spec_message()
                == "Batch size conversion error: "@ + i64_range_refusal(batch.metadata.size),
        },
{
    let hash = md5_of(measurements);
    let size: i64 = match i64_of_usize(batch.metadata.size) {
        Ok(n) => n,
        Err(e) => {
            return Err(Error::Message(join("Batch size conversion error: ", e.as_str())));
        },
    };
    let mut params: Vec<SqlValue> = Vec::new();
    params.push(text_value(batch.batch_id.text().as_str()));
    params.push(text_value(aspect_id.text().as_str()));
    params.push(text_value(database_id.text().as_str()));
    params.push(SqlValue::Integer(size));
    params.push(text_value(batch.metadata.resolution.text().as_str()));
    params.push(text_value(measurements));
    params.push(text_value(hash.as_str()));
    params.push(text_value(status.text().as_str()));
    params.push(SqlValue::Integer(now));
    assert(value_views(params@) =~= batch_columns(
        *batch,
        aspect_id.value,
        database_id.value,
        measurements@,
    ) + seq![SqlView::Text(status.spec_text()), SqlView::Integer(now as int)]);
    let complaint = match status {
        BatchStatus::Unprocessed => "Failed to insert unprocessed batch: ",
        BatchStatus::Processed => "Failed to insert processed batch: ",
    };
    Ok(
        rolling_back(
            "INSERT INTO batches (id, aspect_id, database_id, size, resolution, measurements, batch_hash, status, created_at) VALUES (?, ?, ?, ?, ?, ?, ?, ?, ?)",
            params,
            complaint,
        ),
    )
}

/// The step of [`insert_unprocessed_batch`].
pub open spec fn spec_insert_unprocessed_batch(
    aspect_id: &AspectId,
    database_id: &DatabaseId,
    batch: &Batch,
    measurements: &str,
    now: i64,
) -> StepView {
    rolled_back(
        "INSERT INTO batches (id, aspect_id, database_id, size, resolution, measurements, batch_hash, status, created_at) VALUES (?, ?, ?, ?, ?, ?, ?, ?, ?)"@,
        batch_columns(*batch, aspect_id.value, database_id.value, measurements@) + seq![
            SqlView::Text("unprocessed"@),
            SqlView::Integer(now as int),
        ],
        "Failed to insert unprocessed batch: "@,
    )
}

/// How a batch that waits to be processed is written; its measurements are given as a text. A size
/// that does not fit into the column is an error.
pub fn insert_unprocessed_batch(
    aspect_id: &AspectId,
    database_id: &DatabaseId,
    batch: &Batch,
    measurements: &str,
    now: i64,
) -> (r: Result<Step, Error>)
    ensures
        match r {
            Ok(s) => batch.metadata.size <= i64::MAX && s@ == spec_insert_unprocessed_batch(
                aspect_id,
                database_id,
                batch,
                measurements,
                now,
            ),
            Err(e) => batch.metadata.size > i64::MAX && e is Message && e.spec_message()
                == "Batch size conversion error: "@ + i64_range_refusal(batch.metadata.size),
        },
{
    insert_batch(aspect_id, database_id, batch, measurements, BatchStatus::Unprocessed, now)
}

/// The step of [`insert_processed_batch`].
pub open spec fn spec_insert_processed_batch(
    aspect_id: &AspectId,
    database_id: &DatabaseId,
    batch: &Batch,
    measurements: &str,
    now: i64,
) -> StepView {
    rolled_back(
        "INSERT INTO batches (id, aspect_id, database_id, size, resolution, measurements, batch_hash, status, created_at) VALUES (?, ?, ?, ?, ?, ?, ?, ?, ?)"@,
        batch_columns(*batch, aspect_id.value, database_id.value, measurements@) + seq![
            SqlView::Text("processed"@),
            SqlView::Integer(now as int),
        ],
        "Failed to insert processed batch: "@,
    )
}

/// How a processed batch is written; its measurements are given as a text. A size that does not fit
/// into the column is an error.
pub fn insert_processed_batch(
    aspect_id: &AspectId,
    database_id: &DatabaseId,
    batch: &Batch,
    measurements: &str,
    now: i64,
) -> (r: Result<Step, Error>)
    ensures
        match r {
            Ok(s) => batch.metadata.size <= i64::MAX && s@ == spec_insert_processed_batch(
                aspect_id,
                database_id,
                batch,
                measurements,
                now,
            ),
            Err(e) => batch.metadata.size > i64::MAX && e is Message && e.spec_message()
                == "Batch size conversion error: "@ + i64_range_refusal(batch.metadata.size),
        },
{
    insert_batch(aspect_id, database_id, batch, measurements, BatchStatus::Processed, now)
}

/// The step of [`remove_batch`].
pub open spec fn spec_remove_batch(batch_id: &BatchId, status: BatchStatus) -> StepView {
    rolled_back(
        "DELETE FROM batches WHERE id = ?"@,
        seq![SqlView::Text(uuid_text(batch_id.value))],
        status.remove_complaint(),
    )
}

/// How a batch is taken out.
pub fn remove_batch(batch_id: &BatchId, status: BatchStatus) -> (r: Step)
    ensures
        r@ == spec_remove_batch(batch_id, status),
{
    let complaint = match status {
        BatchStatus::Unprocessed => "Failed to remove unprocessed batch: ",
        BatchStatus::Processed => "Failed to remove processed batch: ",
    };
    rolling_back("DELETE FROM batches WHERE id = ?", one_id(batch_id.value), complaint)
}

/// The step of [`clear_batches`].
pub open spec fn spec_clear_batches(status: BatchStatus) -> StepView {
    rolled_back("DELETE FROM batches"@, seq![], status.clear_complaint())
}

/// How all batches are taken out.
pub fn clear_batches(status: BatchStatus) -> (r: Step)
    ensures
        r@ == spec_clear_batches(status),
{
    let complaint = match status {
        BatchStatus::Unprocessed => "Failed to clear unprocessed batches: ",
        BatchStatus::Processed => "Failed to clear processed batches: ",
    };
    let params: Vec<SqlValue> = Vec::new();
    assert(value_views(params@) =~= Seq::<SqlView>::empty());
    rolling_back("DELETE FROM batches", params, complaint)
}

/// The step of [`cleanup_batches`].
pub open spec fn spec_cleanup_batches(older_than: &Timestamp, status: BatchStatus) -> StepView {
    rolled_back(
        "DELETE FROM batches WHERE created_at < ?"@,
        seq![SqlView::Integer(older_than.spec_millis())],
        status.cleanup_complaint(),
    )
}

/// How batches that were written before an instant are taken out.
pub fn cleanup_batches(older_than: &Timestamp, status: BatchStatus) -> (r: Step)
    requires
        older_than.is_valid(),
    ensures
        r@ == spec_cleanup_batches(older_than, status),
{
    let complaint = match status {
        BatchStatus::Unprocessed => "Failed to cleanup unprocessed batches: ",
        BatchStatus::Processed => "Failed to cleanup processed batches: ",
    };
    let mut params: Vec<SqlValue> = Vec::new();
    params.push(SqlValue::Integer(older_than.millis()));
    assert(value_views(params@) =~= seq![SqlView::Integer(older_than.spec_millis())]);
    rolling_back("DELETE FROM batches WHERE created_at < ?", params, complaint)
}

/// The rows of identifiers.
pub open spec fn id_rows(ids: Seq<BatchId>) -> Seq<Seq<SqlView>> {
    Seq::new(ids.len(), |i: int| seq![SqlView::Text(uuid_text(ids[i].value))])
}

/// The steps of [`bulk_remove_batches`].
pub open spec fn spec_bulk_remove_batches(
    batch_ids: &Vec<BatchId>,
    status: BatchStatus,
) -> Seq<StepView> {
    steps_of(
        bulk(
            "DELETE FROM batches WHERE id IN ("@,
            "?"@,
            ")"@,
            seq![],
            id_rows(batch_ids@),
            REMOVED_AT_ONCE as nat,
        ),
        status.bulk_complaint(),
        OnFailure::Leave,
    )
}

/// How batches are taken out at once.
pub fn bulk_remove_batches(batch_ids: &Vec<BatchId>, status: BatchStatus) -> (r: Vec<Step>)
    ensures
        step_views(r@) == spec_bulk_remove_batches(batch_ids, status),
{
    let mut rows: Vec<Vec<SqlValue>> = Vec::new();
    let mut i: usize = 0;
    while i < batch_ids.len()
        invariant
            i <= batch_ids.len(),
            rows.len() == i,
            forall|k: int|
                0 <= k < i ==> value_views((#[trigger] rows@[k])@) == id_rows(batch_ids@)[k],
        decreases batch_ids.len() - i,
    {
        rows.push(one_id(batch_ids[i].value));
        i += 1;
    }
    assert(row_views(rows@) =~= id_rows(batch_ids@));
    let lead: Vec<SqlValue> = Vec::new();
    assert(value_views(lead@) =~= Seq::<SqlView>::empty());
    let complaint = match status {
        BatchStatus::Unprocessed => "Failed to bulk delete unprocessed batches: ",
        BatchStatus::Processed => "Failed to bulk delete processed batches: ",
    };
    as_steps(
        bulk_statements(
            "DELETE FROM batches WHERE id IN (",
            "?",
            ")",
            &lead,
            &rows,
            REMOVED_AT_ONCE,
        ),
        complaint,
        OnFailure::Leave,
    )
}

/// The row of a batch that is written among others, all as texts; a size that does not fit is
/// written as none.
pub open spec fn text_row(
    batch: Batch,
    aspect: u128,
    database: u128,
    measurements: Seq<char>,
    now: int,
) -> Seq<SqlView> {
    seq![
        SqlView::Text(uuid_text(batch.batch_id.value)),
        SqlView::Text(uuid_text(aspect)),
        SqlView::Text(uuid_text(database)),
        SqlView::Text(
            int_text(
                if batch.metadata.size <= i64::MAX {
                    batch.metadata.size as int
                } else {
                    0
                },
            ),
        ),
        SqlView::Text(batch.metadata.resolution.spec_text()),
        SqlView::Text(measurements),
        SqlView::Text(md5_text(measurements)),
        SqlView::Text("processed"@),
        SqlView::Text(int_text(now)),
    ]
}

fn text_values(
    batch: &Batch,
    aspect_id: &AspectId,
    database_id: &DatabaseId,
    measurements: &str,
    now: i64,
) -> (r: Vec<SqlValue>)
    ensures
        value_views(r@) == text_row(
            *batch,
            aspect_id.value,
            database_id.value,
            measurements@,
            now as int,
        ),
{
    let size: i64 = match i64_of_usize(batch.metadata.size) {
        Ok(n) => n,
        Err(_) => 0,
    };
    let mut r: Vec<SqlValue> = Vec::new();
    r.push(text_value(batch.batch_id.text().as_str()));
    r.push(text_value(aspect_id.text().as_str()));
    r.push(text_value(database_id.text().as_str()));
    r.push(text_value(i64_text(size).as_str()));
    r.push(text_value(batch.metadata.resolution.text().as_str()));
    r.push(text_value(measurements));
    r.push(text_value(md5_of(measurements).as_str()));
    r.push(text_value("processed"));
    r.push(text_value(i64_text(now).as_str()));
    assert(value_views(r@) =~= text_row(
        *batch,
        aspect_id.value,
        database_id.value,
        measurements@,
        now as int,
    ));
    r
}

/// The rows of batches that are written at once.
pub open spec fn text_rows(
    batches: Seq<Batch>,
    aspect: u128,
    database: u128,
    measurements: Seq<Seq<char>>,
    now: int,
) -> Seq<Seq<SqlView>> {
    Seq::new(
        batches.len(),
        |i: int| text_row(batches[i], aspect, database, measurements[i], now),
    )
}

/// The steps of [`bulk_insert_processed_batches`].
pub open spec fn spec_bulk_insert_processed_batches(
    aspect_id: &AspectId,
    database_id: &DatabaseId,
    batches: &Vec<Batch>,
    measurements: &Vec<String>,
    now: i64,
) -> Seq<StepView> {
    steps_of(
        bulk(
            "INSERT INTO batches (id, aspect_id, database_id, size, resolution, measurements, batch_hash, status, created_at) VALUES "@,
            "(?, ?, ?, ?, ?, ?, ?, ?, ?)"@,
            ""@,
            seq![],
            text_rows(
                batches@,
                aspect_id.value,
                database_id.value,
                name_views(measurements@),
                now as int,
            ),
            INSERTED_AT_ONCE as nat,
        ),
        "Failed to bulk insert processed batches: "@,
        OnFailure::Leave,
    )
}

/// How processed batches are written at once; the measurements of each are given as a text.
pub fn bulk_insert_processed_batches(
    aspect_id: &AspectId,
    database_id: &DatabaseId,
    batches: &Vec<Batch>,
    measurements: &Vec<String>,
    now: i64,
) -> (r: Vec<Step>)
    requires
        measurements.len() == batches.len(),
    ensures
        step_views(r@) == spec_bulk_insert_processed_batches(
            aspect_id,
            database_id,
            batches,
            measurements,
            now,
        ),
{
    let ghost wanted = text_rows(
        batches@,
        aspect_id.value,
        database_id.value,
        name_views(measurements@),
        now as int,
    );
    let mut rows: Vec<Vec<SqlValue>> = Vec::new();
    let mut i: usize = 0;
    while i < batches.len()
        invariant
            i <= batches.len(),
            measurements.len() == batches.len(),
            rows.len() == i,
            wanted == text_rows(
                batches@,
                aspect_id.value,
                database_id.value,
                name_views(measurements@),
                now as int,
            ),
            forall|k: int| 0 <= k < i ==> value_views((#[trigger] rows@[k])@) == wanted[k],
        decreases batches.len() - i,
    {
        assert(name_views(measurements@)[i as int] == measurements@[i as int]@);
        rows.push(
            text_values(&batches[i], aspect_id, database_id, measurements[i].as_str(), now),
        );
        i += 1;
    }
    assert(row_views(rows@) =~= wanted);
    let lead: Vec<SqlValue> = Vec::new();
    assert(value_views(lead@) =~= Seq::<SqlView>::empty());
    as_steps(
        bulk_statements(
            "INSERT INTO batches (id, aspect_id, database_id, size, resolution, measurements, batch_hash, status, created_at) VALUES ",
            "(?, ?, ?, ?, ?, ?, ?, ?, ?)",
            "",
            &lead,
            &rows,
            INSERTED_AT_ONCE,
        ),
        "Failed to bulk insert processed batches: ",
        OnFailure::Leave,
    )
}

/// How batches are moved to the processed ones.
#[derive(Debug)]
pub struct BatchMove {
    /// What is done among the processed batches, first.
    pub inserts: Vec<Step>,
    /// What is done among the unprocessed batches, when that has been committed.
    pub deletes: Vec<Step>,
}

pub open spec fn ids_of(batches: Seq<Batch>) -> Seq<BatchId> {
    Seq::new(batches.len(), |i: int| batches[i].batch_id)
}

/// How batches are moved to the processed ones: they are written there, and then they are taken out
/// here.
pub fn move_batches_to_processed(
    aspect_id: &AspectId,
    database_id: &DatabaseId,
    batches: &Vec<Batch>,
    measurements: &Vec<String>,
    now: i64,
) -> (r: BatchMove)
    requires
        measurements.len() == batches.len(),
    ensures
        step_views(r.inserts@) == steps_of(
            bulk(
                "INSERT INTO batches (id, aspect_id, database_id, size, resolution, measurements, batch_hash, status, created_at) VALUES "@,
                "(?, ?, ?, ?, ?, ?, ?, ?, ?)"@,
                ""@,
                seq![],
                text_rows(
                    batches@,
                    aspect_id.value,
                    database_id.value,
                    name_views(measurements@),
                    now as int,
                ),
                INSERTED_AT_ONCE as nat,
            ),
            "Failed to bulk insert processed batches: "@,
            OnFailure::Leave,
        ),
        step_views(r.deletes@) == steps_of(
            bulk(
                "DELETE FROM batches WHERE id IN ("@,
                "?"@,
                ")"@,
                seq![],
                id_rows(ids_of(batches@)),
                REMOVED_AT_ONCE as nat,
            ),
            "Failed to bulk delete unprocessed batches: "@,
            OnFailure::Leave,
        ),
{
    let mut ids: Vec<BatchId> = Vec::new();
    let mut i: usize = 0;
    while i < batches.len()
        invariant
            i <= batches.len(),
            ids.len() == i,
            forall|k: int| 0 <= k < i ==> #[trigger] ids@[k] == batches@[k].batch_id,
        decreases batches.len() - i,
    {
        ids.push(batches[i].batch_id);
        i += 1;
    }
    assert(ids@ =~= ids_of(batches@));
    BatchMove {
        inserts: bulk_insert_processed_batches(aspect_id, database_id, batches, measurements, now),
        deletes: bulk_remove_batches(&ids, BatchStatus::Unprocessed),
    }
}

/// Every batch that is moved is written among the processed ones once, and taken out of the
/// unprocessed ones once, in the same order.
pub proof fn law_moved_batches_are_written_and_removed(
    batches: Seq<Batch>,
    aspect: u128,
    database: u128,
    measurements: Seq<Seq<char>>,
    now: int,
)
    ensures
        crate::sql::concatenated(
            Seq::new(
                crate::sql::chunk_count(batches.len(), INSERTED_AT_ONCE as nat),
                |k: int|
                    crate::sql::chunk(
                        text_rows(batches, aspect, database, measurements, now),
                        INSERTED_AT_ONCE as nat,
                        k,
                    ),
            ),
        ) == text_rows(batches, aspect, database, measurements, now),
        crate::sql::concatenated(
            Seq::new(
                crate::sql::chunk_count(batches.len(), REMOVED_AT_ONCE as nat),
                |k: int|
                    crate::sql::chunk(id_rows(ids_of(batches)), REMOVED_AT_ONCE as nat, k),
            ),
        ) == id_rows(ids_of(batches)),
        forall|i: int|
            0 <= i < batches.len() ==> (#[trigger] text_rows(
                batches,
                aspect,
                database,
                measurements,
                now,
            )[i])[0] == id_rows(ids_of(batches))[i][0],
{
    crate::sql::law_chunks_cover(
        text_rows(batches, aspect, database, measurements, now),
        INSERTED_AT_ONCE as nat,
    );
    crate::sql::law_chunks_cover(id_rows(ids_of(batches)), REMOVED_AT_ONCE as nat);
}

/// What is told of a batch of a chunk that does not fit.
pub open spec fn chunk_refusal(batch: Batch) -> Option<Seq<char>> {
    if batch.metadata.size > i64::MAX {
        Some("Batch size conversion error: "@ + i64_range_refusal(batch.metadata.size))
    } else if batch.measurements.len() > i64::MAX {
        Some(
            "Batch measurements length conversion error: "@ + i64_range_refusal(
                batch.measurements.len(),
            ),
        )
    } else {
        None
    }
}

/// The place of the first batch of a chunk, from a place on, that does not fit.
pub open spec fn first_refused(batches: Seq<Batch>, i: int) -> int
    decreases batches.len() - i,
{
    if i < batches.len() && chunk_refusal(batches[i]) is None {
        first_refused(batches, i + 1)
    } else {
        i
    }
}

proof fn lemma_refused_not_before(batches: Seq<Batch>, i: int)
    ensures
        i <= first_refused(batches, i),
    decreases batches.len() - i,
{
    if i < batches.len() {
        lemma_refused_not_before(batches, i + 1);
    }
}

/// The step that writes a batch of a chunk, without its measurements.
pub open spec fn chunk_step(batch: Batch, database: u128, now: int) -> StepView {
    StepView {
        statement: StatementView {
            sql: "INSERT INTO batches (id, aspect_id, database_id, size, resolution, measurements, batch_hash, status, created_at) VALUES (?, ?, ?, ?, ?, ?, ?, ?, ?)"@,
            params: seq![
                SqlView::Text(uuid_text(batch.batch_id.value)),
                SqlView::Text(uuid_text(batch.metadata.aspect.value)),
                SqlView::Text(uuid_text(database)),
                SqlView::Integer(batch.metadata.size as int),
                SqlView::Text(batch.metadata.resolution.spec_text()),
                SqlView::Text("{}"@),
                SqlView::Text("stub_hash"@),
                SqlView::Text("unprocessed"@),
                SqlView::Integer(now),
            ],
        },
        complaint: "Failed to insert batch chunk: "@,
        on_failure: OnFailure::Tell,
    }
}

/// How the batches of a chunk are written, up to the first that does not fit; the instant of each is
/// given.
pub fn insert_batch_chunk(chunk: &Vec<Batch>, database_id: &DatabaseId, nows: &Vec<i64>) -> (r:
    Script)
    requires
        nows.len() == chunk.len(),
    ensures
        r@ == (ScriptView {
            steps: Seq::new(
                first_refused(chunk@, 0) as nat,
                |i: int| chunk_step(chunk@[i], database_id.value, nows@[i] as int),
            ),
            stop: if first_refused(chunk@, 0) < chunk@.len() {
                failure(chunk_refusal(chunk@[first_refused(chunk@, 0)]))
            } else {
                None
            },
        }),
{
    let ghost wanted = Seq::new(
        first_refused(chunk@, 0) as nat,
        |i: int| chunk_step(chunk@[i], database_id.value, nows@[i] as int),
    );
    let mut steps: Vec<Step> = Vec::new();
    let mut i: usize = 0;
    proof {
        lemma_refused_not_before(chunk@, 0);
    }
    while i < chunk.len()
        invariant
            i <= chunk.len(),
            nows.len() == chunk.len(),
            steps.len() == i,
            i <= first_refused(chunk@, 0),
            first_refused(chunk@, 0) == first_refused(chunk@, i as int),
            wanted == Seq::new(
                first_refused(chunk@, 0) as nat,
                |i: int| chunk_step(chunk@[i], database_id.value, nows@[i] as int),
            ),
            forall|k: int| 0 <= k < i ==> (#[trigger] steps@[k])@ == wanted[k],
        decreases chunk.len() - i,
    {
        let b = &chunk[i];
        let size: i64 = match i64_of_usize(b.metadata.size) {
            Ok(n) => n,
            Err(e) => {
                assert(step_views(steps@) =~= wanted);
                return Script {
                    steps,
                    stop: Some(
                        Error::Message(join("Batch size conversion error: ", e.as_str())),
                    ),
                };
            },
        };
        match i64_of_usize(b.measurements.len()) {
            Ok(_) => {},
            Err(e) => {
                assert(step_views(steps@) =~= wanted);
                return Script {
                    steps,
                    stop: Some(
                        Error::Message(
                            join("Batch measurements length conversion error: ", e.as_str()),
                        ),
                    ),
                };
            },
        }
        proof {
            lemma_refused_not_before(chunk@, i + 1);
        }
        let mut params: Vec<SqlValue> = Vec::new();
        params.push(text_value(b.batch_id.text().as_str()));
        params.push(text_value(b.metadata.aspect.text().as_str()));
        params.push(text_value(database_id.text().as_str()));
        params.push(SqlValue::Integer(size));
        params.push(text_value(b.metadata.resolution.text().as_str()));
        params.push(text_value("{}"));
        params.push(text_value("stub_hash"));
        params.push(text_value("unprocessed"));
        params.push(SqlValue::Integer(nows[i]));
        assert(value_views(params@) =~= chunk_step(
            *b,
            database_id.value,
            nows@[i as int] as int,
        ).statement.params);
        steps.push(
            crate::transaction::step(
                statement(
                    "INSERT INTO batches (id, aspect_id, database_id, size, resolution, measurements, batch_hash, status, created_at) VALUES (?, ?, ?, ?, ?, ?, ?, ?, ?)",
                    params,
                ),
                "Failed to insert batch chunk: ",
                OnFailure::Tell,
            ),
        );
        i += 1;
    }
    assert(step_views(steps@) =~= wanted);
    Script { steps, stop: None }
}

/// The statement of [`batch_query`].
pub open spec fn spec_batch_query(batch_id: &BatchId) -> StatementView {
    StatementView {
        sql: "SELECT id, aspect_id, database_id, size, resolution, measurements, batch_hash FROM batches WHERE id = ?"@,
        params: seq![SqlView::Text(uuid_text(batch_id.value))],
    }
}

/// The query for a batch.
pub fn batch_query(batch_id: &BatchId) -> (r: Statement)
    ensures
        r@ == spec_batch_query(batch_id),
{
    statement(
        "SELECT id, aspect_id, database_id, size, resolution, measurements, batch_hash FROM batches WHERE id = ?",
        one_id(batch_id.value),
    )
}

/// The statement of [`batches_query`].
pub open spec fn spec_batches_query(
    aspect_id: &AspectId,
    database_id: &DatabaseId,
) -> StatementView {
    StatementView {
        sql: "SELECT id, aspect_id, database_id, size, resolution, measurements, batch_hash FROM batches WHERE aspect_id = ? AND database_id = ? ORDER BY created_at ASC"@,
        params: owner_columns(aspect_id.value, database_id.value),
    }
}

/// The query for the batches of an aspect, the oldest first.
pub fn batches_query(aspect_id: &AspectId, database_id: &DatabaseId) -> (r: Statement)
    ensures
        r@ == spec_batches_query(aspect_id, database_id),
{
    statement(
        "SELECT id, aspect_id, database_id, size, resolution, measurements, batch_hash FROM batches WHERE aspect_id = ? AND database_id = ? ORDER BY created_at ASC",
        owner_values(aspect_id, database_id),
    )
}

/// What is wrong with a row of a batch; what its measurements read as is given.
pub open spec fn batch_error(row: Seq<SqlView>, measurements: Option<Seq<char>>) -> Option<Seq<char>> {
    or(
        not_text(row[0], "Batch ID is not text"@),
        or(
            not_uuid(row[0], "Invalid UUID format for batch ID: "@),
            or(
                not_text(row[1], "Aspect ID is not text"@),
                or(
                    not_uuid(row[1], "Invalid UUID format for aspect ID: "@),
                    or(
                        not_integer(row[3], "Size is not an integer"@),
                        or(
                            not_text(row[4], "Resolution is not text"@),
                            or(
                                not_resolution(row[4], "Invalid resolution format: "@),
                                or(
                                    not_text(row[5], "Measurements is not text"@),
                                    match measurements {
                                        Some(e) => Some(
                                            database_error(
                                                "Failed to parse batch measurements JSON: "@ + e,
                                            ),
                                        ),
                                        None => None,
                                    },
                                ),
                            ),
                        ),
                    ),
                ),
            ),
        ),
    )
}

/// The text of a value that is one.
pub open spec fn text_option(value: SqlView) -> Option<Seq<char>> {
    match value {
        SqlView::Text(s) => Some(s),
        _ => None,
    }
}

pub open spec fn string_option(s: Option<String>) -> Option<Seq<char>> {
    match s {
        Some(s) => Some(s@),
        None => None,
    }
}

/// The batch in a row, or the error; what its measurements read as is given, and the name and the
/// path of its database. A negative size is read as its two's complement. A batch that was written
/// is read back.
pub fn parse_batch_row(
    row: &Vec<SqlValue>,
    measurements: Result<Vec<BatchedMeasurement>, String>,
    db_name: &str,
    db_path: &str,
) -> (r: Result<Batch, Error>)
    requires
        row.len() == 7,
    ensures
        ({
            let views = value_views(row@);
            match r {
                Ok(b) => {
                    &&& batch_error(views, refusal(measurements)) is None
                    &&& uuid_parse(views[0]->Text_0) == Ok::<u128, Seq<char>>(b.batch_id.value)
                    &&& uuid_parse(views[1]->Text_0) == Ok::<u128, Seq<char>>(
                        b.metadata.aspect.value,
                    )
                    &&& b.metadata.size == (views[3]->Integer_0 as i64) as usize
                    &&& named_resolution(views[4]->Text_0) == Some(b.metadata.resolution)
                    &&& measurements is Ok
                    &&& b.measurements == measurements->Ok_0
                    &&& string_option(b.batch_hash) == text_option(views[6])
                    &&& is_random_uuid(b.metadata.database_info.id.value)
                    &&& b.metadata.database_info.name@ == db_name@
                    &&& b.metadata.database_info.path@ == db_path@
                    &&& b.metadata.database_info.subjects@.len() == 0
                    &&& b.metadata.database_info.metadata_path is None
                },
                Err(e) => tells(e, batch_error(views, refusal(measurements))),
            }
        }),
        forall|written: Batch, aspect: u128, database: u128, text: Seq<char>|
            value_views(row@) == #[trigger] batch_columns(written, aspect, database, text)
                && written.metadata.size <= i64::MAX && measurements is Ok ==> r is Ok
                && r->Ok_0.batch_id == written.batch_id && r->Ok_0.metadata.aspect.value == aspect
                && r->Ok_0.metadata.size == written.metadata.size && r->Ok_0.metadata.resolution
                == written.metadata.resolution && string_option(r->Ok_0.batch_hash) == Some(
                md5_text(text),
            ),
{
    let ghost views = value_views(row@);
    assert(forall|i: int| 0 <= i < 7 ==> #[trigger] views[i] == row@[i]@);
    let id = match text_column(row, 0, "Batch ID is not text") {
        Ok(s) => s,
        Err(e) => {
            return Err(e);
        },
    };
    let id: u128 = match uuid_field(&id, "Invalid UUID format for batch ID: ") {
        Ok(id) => id,
        Err(e) => {
            return Err(e);
        },
    };
    let aspect = match text_column(row, 1, "Aspect ID is not text") {
        Ok(s) => s,
        Err(e) => {
            return Err(e);
        },
    };
    let aspect: u128 = match uuid_field(&aspect, "Invalid UUID format for aspect ID: ") {
        Ok(id) => id,
        Err(e) => {
            return Err(e);
        },
    };
    let size: i64 = match integer_column(row, 3, "Size is not an integer") {
        Ok(n) => n,
        Err(e) => {
            return Err(e);
        },
    };
    let resolution = match text_column(row, 4, "Resolution is not text") {
        Ok(s) => s,
        Err(e) => {
            return Err(e);
        },
    };
    let resolution = match resolution_field(&resolution, "Invalid resolution format: ") {
        Ok(resolution) => resolution,
        Err(e) => {
            return Err(e);
        },
    };
    match text_column(row, 5, "Measurements is not text") {
        Ok(_) => {},
        Err(e) => {
            return Err(e);
        },
    }
    let measurements = match measurements {
        Ok(m) => m,
        Err(e) => {
            return Err(
                Error::DatabaseError(
                    join("Failed to parse batch measurements JSON: ", e.as_str()),
                ),
            );
        },
    };
    let batch_hash = optional_text_column(row, 6);
    let metadata = BatchMetatdata {
        aspect: AspectId { value: aspect },
        resolution,
        size: #[verifier::truncate] (size as usize),
        database_info: DatabaseInfo::new(db_name.to_owned(), db_path.to_owned()),
    };
    proof {
        assert forall|written: Batch, aspect: u128, database: u128, text: Seq<char>|
            views == #[trigger] batch_columns(written, aspect, database, text)
                && written.metadata.size <= i64::MAX implies metadata.size
            == written.metadata.size by {
            assert(views[3] == SqlView::Integer(written.metadata.size as int));
            assert(size == written.metadata.size);
        }
    }
    Ok(Batch { metadata, measurements, batch_id: BatchId { value: id }, batch_hash })
}

/// The place of the batch with an identifier.
pub fn find_batch(batches: &Vec<Batch>, batch_id: &BatchId) -> (r: Option<usize>)
    ensures
        match r {
            Some(i) => i < batches.len() && batches@[i as int].batch_id == *batch_id && forall|k: int|

                0 <= k < i ==> (#[trigger] batches@[k]).batch_id != *batch_id,
            None => forall|k: int|
                0 <= k < batches.len() ==> (#[trigger] batches@[k]).batch_id != *batch_id,
        },
{
    let mut i: usize = 0;
    while i < batches.len()
        invariant
            i <= batches.len(),
            forall|k: int| 0 <= k < i ==> (#[trigger] batches@[k]).batch_id != *batch_id,
        decreases batches.len() - i,
    {
        if batches[i].batch_id.value == batch_id.value {
            return Some(i);
        }
        i += 1;
    }
    None
}

}
