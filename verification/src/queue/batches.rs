//! The queue of batches.
use crate::batch::{is_tractable, location_range, prepared, Batch, BatchMetatdata};
use crate::columns::{
    any_text_column,
    bad_json,
    database_error,
    named_resolution,
    no_text,
    or,
    refusal,
    tells,
    text_in,
};
use crate::error::Error;
use crate::ids::{uuid_parse, uuid_text, AspectId, BatchId, DatabaseId};
use crate::measurement::{batched_views, BatchedMeasurement};
use crate::queue::model::{lasts, left_rows, lemma_deleted, lemma_lasts, met_rows};
use crate::queue::{cutoff, one_id, owner_columns, owner_values, DAY_SECONDS};
use crate::registry::DatabaseInfo;
use crate::resolution::Resolution;
use crate::sql::{statement, text_value, value_views, SqlValue, SqlView, Statement, StatementView};
use crate::text::{join, parse_usize, unsigned_of, usize_refusal};
use crate::time::{Timestamp, MAX_SECONDS, MIN_SECONDS};
use crate::transaction::{step, OnFailure, Step, StepView};
use vstd::prelude::*;

verus! {

/// The statement of [`get_unprocessed_batch_stats`].
pub open spec fn spec_get_unprocessed_batch_stats(
    aspect_id: &AspectId,
    database_id: &DatabaseId,
) -> StatementView {
    StatementView {
        sql: "SELECT status, COUNT(*) as count FROM batches WHERE aspect_id = ? AND database_id = ? GROUP BY status"@,
        params: owner_columns(aspect_id.value, database_id.value),
    }
}

/// The query for the counts of the batches of an aspect by their status.
pub fn get_unprocessed_batch_stats(aspect_id: &AspectId, database_id: &DatabaseId) -> (r: Statement)
    ensures
        r@ == spec_get_unprocessed_batch_stats(aspect_id, database_id),
{
    statement(
        "SELECT status, COUNT(*) as count FROM batches WHERE aspect_id = ? AND database_id = ? GROUP BY status",
        owner_values(aspect_id, database_id),
    )
}

/// The step that takes the processed batches of an aspect out that were written among them before an
/// instant.
pub open spec fn cleanup_step(aspect: u128, database: u128, before: int) -> StepView {
    StepView {
        statement: StatementView {
            sql: "DELETE FROM batches WHERE aspect_id = ? AND database_id = ? AND status = 'processed' AND created_at < ?"@,
            params: owner_columns(aspect, database).push(SqlView::Integer(before)),
        },
        complaint: "Failed to cleanup processed batches: "@,
        on_failure: OnFailure::Leave,
    }
}

/// How processed batches that are older than a number of days are taken out.
pub fn cleanup_processed_batches(
    aspect_id: &AspectId,
    database_id: &DatabaseId,
    now: &Timestamp,
    older_than_days: i64,
) -> (r: Step)
    requires
        now.is_valid(),
        MIN_SECONDS <= now.seconds - older_than_days * DAY_SECONDS <= MAX_SECONDS,
    ensures
        r@ == cleanup_step(
            aspect_id.value,
            database_id.value,
            now.spec_millis() - older_than_days * 86_400_000,
        ),
{
    let limit = cutoff(now, older_than_days);
    let mut params = owner_values(aspect_id, database_id);
    let ghost before = params@;
    params.push(SqlValue::Integer(limit.millis()));
    assert(value_views(params@) =~= value_views(before).push(SqlView::Integer(limit.spec_millis())));
    step(
        statement(
            "DELETE FROM batches WHERE aspect_id = ? AND database_id = ? AND status = 'processed' AND created_at < ?",
            params,
        ),
        "Failed to cleanup processed batches: ",
        OnFailure::Leave,
    )
}

/// The step that takes all processed batches of an aspect out.
pub open spec fn all_processed_step(aspect: u128, database: u128, complaint: Seq<char>) -> StepView {
    StepView {
        statement: StatementView {
            sql: "DELETE FROM batches WHERE aspect_id = ? AND database_id = ? AND status = 'processed'"@,
            params: owner_columns(aspect, database),
        },
        complaint,
        on_failure: OnFailure::Leave,
    }
}

/// How all processed batches of an aspect are taken out.
pub fn cleanup_all_processed_batches(aspect_id: &AspectId, database_id: &DatabaseId) -> (r: Step)
    ensures
        r@ == all_processed_step(
            aspect_id.value,
            database_id.value,
            "Failed to cleanup all processed batches: "@,
        ),
{
    step(
        statement(
            "DELETE FROM batches WHERE aspect_id = ? AND database_id = ? AND status = 'processed'",
            owner_values(aspect_id, database_id),
        ),
        "Failed to cleanup all processed batches: ",
        OnFailure::Leave,
    )
}

/// How the queue of the processed batches of an aspect is emptied.
pub fn clear_processed_batches_queue(aspect_id: &AspectId, database_id: &DatabaseId) -> (r: Step)
    ensures
        r@ == all_processed_step(
            aspect_id.value,
            database_id.value,
            "Failed to clear processed batches queue: "@,
        ),
{
    step(
        statement(
            "DELETE FROM batches WHERE aspect_id = ? AND database_id = ? AND status = 'processed'",
            owner_values(aspect_id, database_id),
        ),
        "Failed to clear processed batches queue: ",
        OnFailure::Leave,
    )
}

/// The statement of [`get_processed_batches_queue`].
pub open spec fn spec_get_processed_batches_queue(
    aspect_id: &AspectId,
    database_id: &DatabaseId,
) -> StatementView {
    StatementView {
        sql: "SELECT id, size, resolution, measurements, batch_hash FROM batches WHERE aspect_id = ? AND database_id = ? AND status = 'processed' ORDER BY created_at ASC"@,
        params: owner_columns(aspect_id.value, database_id.value),
    }
}

/// The query for the processed batches of an aspect, the oldest first.
pub fn get_processed_batches_queue(aspect_id: &AspectId, database_id: &DatabaseId) -> (r: Statement)
    ensures
        r@ == spec_get_processed_batches_queue(aspect_id, database_id),
{
    statement(
        "SELECT id, size, resolution, measurements, batch_hash FROM batches WHERE aspect_id = ? AND database_id = ? AND status = 'processed' ORDER BY created_at ASC",
        owner_values(aspect_id, database_id),
    )
}

/// A batch as it stands in the queue.
#[derive(Debug)]
pub struct QueuedBatch {
    pub batch_id: BatchId,
    pub size: usize,
    pub resolution: Resolution,
    pub measurements: Vec<BatchedMeasurement>,
    pub batch_hash: String,
}

/// An error of the database, where there is one.
pub open spec fn wrapped(e: Option<Seq<char>>) -> Option<Seq<char>> {
    match e {
        Some(s) => Some(database_error(s)),
        None => None,
    }
}

/// What is wrong with a row of the queue; what its measurements read as is given.
pub open spec fn queued_error(row: Seq<SqlView>, measurements: Option<Seq<char>>) -> Option<
    Seq<char>,
> {
    or(
        no_text(row[0], "Batch ID"@),
        or(
            match uuid_parse(text_in(row[0])) {
                Ok(_) => None,
                Err(e) => Some(database_error("Failed to parse batch ID UUID: "@ + e)),
            },
            or(
                no_text(row[1], "Size"@),
                or(
                    no_text(row[2], "Resolution"@),
                    or(
                        no_text(row[3], "Measurements"@),
                        or(
                            no_text(row[4], "Batch Hash"@),
                            or(
                                match unsigned_of(text_in(row[1]), usize::MAX as nat) {
                                    Some(_) => None,
                                    None => Some(
                                        database_error(
                                            "Failed to parse batch size: "@ + usize_refusal(
                                                text_in(row[1]),
                                            ),
                                        ),
                                    ),
                                },
                                or(
                                    wrapped(
                                        bad_json(
                                            "Failed to deserialize measurements: "@,
                                            measurements,
                                        ),
                                    ),
                                    match named_resolution(text_in(row[2])) {
                                        Some(_) => None,
                                        None => Some(
                                            "Conversion error: Invalid resolution string: "@
                                                + text_in(row[2]),
                                        ),
                                    },
                                ),
                            ),
                        ),
                    ),
                ),
            ),
        ),
    )
}

/// The batch in a row of the queue, or the error; what its measurements read as is given.
pub fn parse_queued_row(
    row: &Vec<SqlValue>,
    measurements: Result<Vec<BatchedMeasurement>, String>,
) -> (r: Result<QueuedBatch, Error>)
    requires
        row.len() == 5,
    ensures
        ({
            let views = value_views(row@);
            match r {
                Ok(b) => {
                    &&& queued_error(views, refusal(measurements)) is None
                    &&& uuid_parse(text_in(views[0])) == Ok::<u128, Seq<char>>(b.batch_id.value)
                    &&& unsigned_of(text_in(views[1]), usize::MAX as nat) == Some(b.size as nat)
                    &&& named_resolution(text_in(views[2])) == Some(b.resolution)
                    &&& measurements is Ok
                    &&& b.measurements == measurements->Ok_0
                    &&& b.batch_hash@ == text_in(views[4])
                },
                Err(e) => tells(e, queued_error(views, refusal(measurements))),
            }
        }),
{
    let ghost views = value_views(row@);
    assert(forall|i: int| 0 <= i < 5 ==> #[trigger] views[i] == row@[i]@);
    let id = match any_text_column(row, 0, "Batch ID") {
        Ok(s) => s,
        Err(e) => {
            return Err(e);
        },
    };
    let batch_id = match BatchId::parse(id.as_str()) {
        Ok(id) => id,
        Err(e) => {
            return Err(
                Error::DatabaseError(join("Failed to parse batch ID UUID: ", e.as_str())),
            );
        },
    };
    let size = match any_text_column(row, 1, "Size") {
        Ok(s) => s,
        Err(e) => {
            return Err(e);
        },
    };
    let resolution = match any_text_column(row, 2, "Resolution") {
        Ok(s) => s,
        Err(e) => {
            return Err(e);
        },
    };
    match any_text_column(row, 3, "Measurements") {
        Ok(_) => {},
        Err(e) => {
            return Err(e);
        },
    }
    let batch_hash = match any_text_column(row, 4, "Batch Hash") {
        Ok(s) => s,
        Err(e) => {
            return Err(e);
        },
    };
    let size: usize = match parse_usize(size.as_str()) {
        Ok(n) => n,
        Err(e) => {
            return Err(
                Error::DatabaseError(join("Failed to parse batch size: ", e.as_str())),
            );
        },
    };
    let measurements = match measurements {
        Ok(m) => m,
        Err(e) => {
            return Err(
                Error::DatabaseError(join("Failed to deserialize measurements: ", e.as_str())),
            );
        },
    };
    let resolution = match Resolution::parse(resolution.as_str()) {
        Ok(resolution) => {
            proof {
                crate::columns::lemma_named_resolution(resolution);
            }
            resolution
        },
        Err(e) => {
            return Err(Error::Message(e));
        },
    };
    Ok(QueuedBatch { batch_id, size, resolution, measurements, batch_hash })
}

impl QueuedBatch {
    /// The batch that stands in the queue, of an aspect of a database.
    pub fn batch(self, aspect: AspectId, database_info: DatabaseInfo) -> (r: Batch)
        requires
            self.measurements.len() == self.size,
            self.size > 0,
            is_tractable(batched_views(self.measurements@)),
            location_range(batched_views(self.measurements@)).mantissa != 0,
        ensures
            r.metadata == (BatchMetatdata {
                aspect,
                resolution: self.resolution,
                size: self.size,
                database_info,
            }),
            r.batch_id == self.batch_id,
            r.batch_hash == Some(self.batch_hash),
            r.ms() == prepared(batched_views(self.measurements@)),
    {
        let mut r = Batch::new(
            self.size,
            self.measurements,
            self.resolution,
            aspect,
            database_info,
        );
        r.set_batch_hash(Some(self.batch_hash));
        r.set_batch_id(self.batch_id);
        r
    }
}

/// The statement of [`dequeue_by_id`].
pub open spec fn spec_dequeue_by_id(batch: &Batch) -> StatementView {
    StatementView {
        sql: "DELETE FROM batches WHERE id = ?"@,
        params: seq![SqlView::Text(uuid_text(batch.batch_id.value))],
    }
}

/// The statement that takes a processed batch out by its identifier.
pub fn dequeue_by_id(batch: &Batch) -> (r: Statement)
    ensures
        r@ == spec_dequeue_by_id(batch),
{
    statement("DELETE FROM batches WHERE id = ?", one_id(batch.batch_id.value))
}

/// What is done next to take a processed batch out of the queue.
#[derive(Debug)]
pub enum DequeueAction {
    Done,
    /// Another statement is executed.
    Execute(Statement),
    Fail(Error),
}

/// The statement that takes a processed batch out by its hash.
pub open spec fn dequeue_by_hash(hash: Seq<char>, aspect: u128, database: u128) -> StatementView {
    StatementView {
        sql: "DELETE FROM batches WHERE batch_hash = ? AND aspect_id = ? AND database_id = ?"@,
        params: seq![SqlView::Text(hash)] + owner_columns(aspect, database),
    }
}

/// What is done after a processed batch was tried to be taken out by its identifier: where that met
/// no row, it is tried by its hash.
pub fn after_dequeue_by_id(batch: &Batch, database_id: &DatabaseId, outcome: Result<u64, String>) -> (r:
    DequeueAction)
    ensures
        match outcome {
            Err(e) => {
                &&& r matches DequeueAction::Fail(told)
                &&& told is DatabaseError
                &&& told.spec_message() == database_error(
                    "Failed to dequeue processed batch by ID: "@ + e@,
                )
            },
            Ok(rows) => if rows > 0 {
                r is Done
            } else {
                match batch.batch_hash {
                    Some(hash) => r matches DequeueAction::Execute(s) && s@ == dequeue_by_hash(
                        hash@,
                        batch.metadata.aspect.value,
                        database_id.value,
                    ),
                    None => r matches DequeueAction::Fail(told) && told is Message
                        && told.spec_message()
                        == "No matching processed batch found to dequeue"@,
                }
            },
        },
{
    match outcome {
        Err(e) => DequeueAction::Fail(
            Error::DatabaseError(join("Failed to dequeue processed batch by ID: ", e.as_str())),
        ),
        Ok(rows) => {
            if rows > 0 {
                return DequeueAction::Done;
            }
            match &batch.batch_hash {
                Some(hash) => {
                    let mut params: Vec<SqlValue> = Vec::new();
                    params.push(text_value(hash.as_str()));
                    params.push(text_value(batch.metadata.aspect.text().as_str()));
                    params.push(text_value(database_id.text().as_str()));
                    assert(value_views(params@) =~= seq![SqlView::Text(hash@)] + owner_columns(
                        batch.metadata.aspect.value,
                        database_id.value,
                    ));
                    DequeueAction::Execute(
                        statement(
                            "DELETE FROM batches WHERE batch_hash = ? AND aspect_id = ? AND database_id = ?",
                            params,
                        ),
                    )
                },
                None => DequeueAction::Fail(
                    Error::Message("No matching processed batch found to dequeue".to_owned()),
                ),
            }
        },
    }
}

/// What is done after a processed batch was tried to be taken out by its hash.
pub fn after_dequeue_by_hash(outcome: Result<u64, String>) -> (r: DequeueAction)
    ensures
        match outcome {
            Err(e) => {
                &&& r matches DequeueAction::Fail(told)
                &&& told is DatabaseError
                &&& told.spec_message() == database_error(
                    "Failed to dequeue processed batch by hash: "@ + e@,
                )
            },
            Ok(rows) => if rows > 0 {
                r is Done
            } else {
                r matches DequeueAction::Fail(told) && told is Message && told.spec_message()
                    == "No matching processed batch found to dequeue"@
            },
        },
{
    match outcome {
        Err(e) => DequeueAction::Fail(
            Error::DatabaseError(join("Failed to dequeue processed batch by hash: ", e.as_str())),
        ),
        Ok(rows) => {
            if rows > 0 {
                DequeueAction::Done
            } else {
                DequeueAction::Fail(
                    Error::Message("No matching processed batch found to dequeue".to_owned()),
                )
            }
        },
    }
}

/// A row of the processed batches.
pub struct StoredBatch {
    pub id: Seq<char>,
    pub hash: Seq<char>,
    pub aspect: Seq<char>,
    pub database: Seq<char>,
    pub status: Seq<char>,
    pub created_at: int,
}

impl StoredBatch {
    /// Whether the statement that takes outdated batches out meets the row.
    pub open spec fn is_outdated(self, aspect: u128, database: u128, before: int) -> bool {
        &&& self.aspect == uuid_text(aspect)
        &&& self.database == uuid_text(database)
        &&& self.status == "processed"@
        &&& self.created_at < before
    }

    /// Whether the statement that goes by the identifier meets the row.
    pub open spec fn is_by_id(self, id: u128) -> bool {
        self.id == uuid_text(id)
    }

    /// Whether the statement that goes by the hash meets the row.
    pub open spec fn is_by_hash(self, hash: Seq<char>, aspect: u128, database: u128) -> bool {
        self.hash == hash && self.aspect == uuid_text(aspect) && self.database == uuid_text(
            database,
        )
    }
}

/// Whether taking a batch out takes a row out: one with its identifier, or, where none has that, one
/// with its hash.
pub open spec fn is_taken_out(
    stored: Seq<StoredBatch>,
    row: StoredBatch,
    id: u128,
    hash: Option<Seq<char>>,
    aspect: u128,
    database: u128,
) -> bool {
    if met_rows(stored, |row: StoredBatch| row.is_by_id(id)).len() > 0 {
        row.is_by_id(id)
    } else {
        hash is Some && row.is_by_hash(hash->0, aspect, database)
    }
}

/// What is left of the processed batches after one was taken out, where no statement fails.
pub open spec fn after_dequeue(
    stored: Seq<StoredBatch>,
    id: u128,
    hash: Option<Seq<char>>,
    aspect: u128,
    database: u128,
) -> Seq<StoredBatch> {
    if met_rows(stored, |row: StoredBatch| row.is_by_id(id)).len() > 0 {
        left_rows(stored, |row: StoredBatch| row.is_by_id(id))
    } else {
        match hash {
            Some(hash) => left_rows(
                stored,
                |row: StoredBatch| row.is_by_hash(hash, aspect, database),
            ),
            None => stored,
        }
    }
}

/// Whether taking a batch out is done, where no statement fails.
pub open spec fn is_dequeued(
    stored: Seq<StoredBatch>,
    id: u128,
    hash: Option<Seq<char>>,
    aspect: u128,
    database: u128,
) -> bool {
    ||| met_rows(stored, |row: StoredBatch| row.is_by_id(id)).len() > 0
    ||| hash is Some && met_rows(
        stored,
        |row: StoredBatch| row.is_by_hash(hash->0, aspect, database),
    ).len() > 0
}

/// Taking a processed batch out is done if and only if there is one with its identifier or with its
/// hash. The others stay; where it is not done, all do.
pub proof fn law_dequeuing_takes_out_that_batch_alone(
    stored: Seq<StoredBatch>,
    id: u128,
    hash: Option<Seq<char>>,
    aspect: u128,
    database: u128,
)
    ensures
        is_dequeued(stored, id, hash, aspect, database) <==> exists|row: StoredBatch| #[trigger]
            stored.contains(row) && (row.is_by_id(id) || hash is Some && row.is_by_hash(
                hash->0,
                aspect,
                database,
            )),
        forall|row: StoredBatch| #[trigger]
            after_dequeue(stored, id, hash, aspect, database).contains(row) <==> stored.contains(
                row,
            ) && !is_taken_out(stored, row, id, hash, aspect, database),
        !is_dequeued(stored, id, hash, aspect, database) ==> after_dequeue(
            stored,
            id,
            hash,
            aspect,
            database,
        ) == stored,
{
    let by_id = |row: StoredBatch| row.is_by_id(id);
    lemma_deleted(stored, by_id);
    let by_hash = |row: StoredBatch| row.is_by_hash(hash->0, aspect, database);
    lemma_deleted(stored, by_hash);
    let after = after_dequeue(stored, id, hash, aspect, database);
    assert forall|row: StoredBatch| #[trigger] after.contains(row) <==> stored.contains(row)
        && !is_taken_out(stored, row, id, hash, aspect, database) by {
        assert(left_rows(stored, by_id).contains(row) <==> stored.contains(row) && !by_id(row));
        assert(left_rows(stored, by_hash).contains(row) <==> stored.contains(row) && !by_hash(row));
    }
    if exists|row: StoredBatch| #[trigger]
        stored.contains(row) && (row.is_by_id(id) || hash is Some && row.is_by_hash(
            hash->0,
            aspect,
            database,
        )) {
        let row = choose|row: StoredBatch| #[trigger]
            stored.contains(row) && (row.is_by_id(id) || hash is Some && row.is_by_hash(
                hash->0,
                aspect,
                database,
            ));
        assert(stored.contains(row) && (by_id(row) || by_hash(row)));
    }
}

/// What is left of the processed batches after outdated ones were to be taken out.
pub open spec fn after_cleanup(
    stored: Seq<StoredBatch>,
    aspect: u128,
    database: u128,
    before: int,
    outcome: Option<Seq<char>>,
    commit: Option<Seq<char>>,
) -> Seq<StoredBatch> {
    if lasts(cleanup_step(aspect, database, before), outcome, commit) {
        left_rows(stored, |row: StoredBatch| row.is_outdated(aspect, database, before))
    } else {
        stored
    }
}

/// Cleaning up takes out the processed batches of the aspect that are older than the instant, and
/// nothing else. Where it fails, all stay.
pub proof fn law_cleanup_takes_out_what_is_outdated(
    stored: Seq<StoredBatch>,
    aspect: u128,
    database: u128,
    before: int,
    outcome: Option<Seq<char>>,
    commit: Option<Seq<char>>,
)
    ensures
        outcome is None && commit is None ==> forall|row: StoredBatch| #[trigger]
            after_cleanup(stored, aspect, database, before, outcome, commit).contains(row)
                <==> stored.contains(row) && !row.is_outdated(aspect, database, before),
        outcome is Some || commit is Some ==> after_cleanup(
            stored,
            aspect,
            database,
            before,
            outcome,
            commit,
        ) == stored,
{
    let meets = |row: StoredBatch| row.is_outdated(aspect, database, before);
    lemma_lasts(cleanup_step(aspect, database, before), outcome, commit);
    lemma_deleted(stored, meets);
    if outcome is None && commit is None {
        assert forall|row: StoredBatch| #[trigger]
            after_cleanup(stored, aspect, database, before, outcome, commit).contains(row)
            <==> stored.contains(row) && !row.is_outdated(aspect, database, before) by {
            assert(left_rows(stored, meets).contains(row) <==> stored.contains(row) && !meets(row));
        }
    }
}

}
