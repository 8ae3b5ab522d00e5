//! What the statements on the stored batches read, add, change and take away.
use crate::batch::Batch;
use crate::ids::{uuid_text, AspectId, BatchId, DatabaseId};
use crate::laws::statements::{
    addition_text,
    columns_text,
    conditions_text,
    is_met,
    listed_text,
    only,
    puts,
    reading_text,
    removal_text,
    values_put,
    values_taken,
    values_text,
    Conditions,
    Fields,
    Listed,
    Operand,
    Row,
    Sign,
};
use crate::sql::SqlView;
use crate::store::batches::{
    chunk_step,
    md5_text,
    spec_batch_query,
    spec_batches_query,
    spec_cleanup_batches,
    spec_clear_batches,
    spec_insert_batch,
    spec_insert_processed_batch,
    spec_insert_unprocessed_batch,
    spec_remove_batch,
    BatchStatus,
};
use crate::time::Timestamp;
use vstd::prelude::*;

verus! {

/// The statement of `insert_batch` adds a row to `batches`, with each value in the column that is
/// meant for it.
pub proof fn law_insert_batch_adds(
    aspect_id: &AspectId,
    database_id: &DatabaseId,
    batch: &Batch,
    measurements: &str,
    status: BatchStatus,
    now: i64,
)
    ensures
        ({
            let fields = Fields::Only("id"@, Operand::Given)
                .and("aspect_id"@, Operand::Given)
                .and("database_id"@, Operand::Given)
                .and("size"@, Operand::Given)
                .and("resolution"@, Operand::Given)
                .and("measurements"@, Operand::Given)
                .and("batch_hash"@, Operand::Given)
                .and("status"@, Operand::Given)
                .and("created_at"@, Operand::Given);
            let s = spec_insert_batch(aspect_id, database_id, batch, measurements, status, now).statement;
            &&& s.sql == addition_text("INSERT INTO "@, "batches"@, fields)
            &&& s.params.len() == 9
            &&& puts(fields, s.params, "id"@, SqlView::Text(uuid_text(batch.batch_id.value)))
            &&& puts(fields, s.params, "aspect_id"@, SqlView::Text(uuid_text(aspect_id.value)))
            &&& puts(fields, s.params, "database_id"@, SqlView::Text(uuid_text(database_id.value)))
            &&& puts(fields, s.params, "size"@, SqlView::Integer(batch.metadata.size as int))
            &&& puts(fields, s.params, "resolution"@, SqlView::Text(batch.metadata.resolution.spec_text()))
            &&& puts(fields, s.params, "measurements"@, SqlView::Text(measurements@))
            &&& puts(fields, s.params, "batch_hash"@, SqlView::Text(md5_text(measurements@)))
            &&& puts(fields, s.params, "status"@, SqlView::Text(status.spec_text()))
            &&& puts(fields, s.params, "created_at"@, SqlView::Integer(now as int))
        }),
{
    reveal_with_fuel(columns_text, 10);
    reveal_with_fuel(values_text, 10);
    reveal_with_fuel(puts, 10);
    reveal_with_fuel(values_put, 10);
    reveal_strlit(" (");
    reveal_strlit(")");
    reveal_strlit(") VALUES (");
    reveal_strlit(", ");
    reveal_strlit("?");
    reveal_strlit("INSERT INTO ");
    reveal_strlit("INSERT INTO batches (id, aspect_id, database_id, size, resolution, measurements, batch_hash, status, created_at) VALUES (?, ?, ?, ?, ?, ?, ?, ?, ?)");
    reveal_strlit("aspect_id");
    reveal_strlit("batch_hash");
    reveal_strlit("batches");
    reveal_strlit("created_at");
    reveal_strlit("database_id");
    reveal_strlit("id");
    reveal_strlit("measurements");
    reveal_strlit("resolution");
    reveal_strlit("size");
    reveal_strlit("status");
    let fields = Fields::Only("id"@, Operand::Given)
        .and("aspect_id"@, Operand::Given)
        .and("database_id"@, Operand::Given)
        .and("size"@, Operand::Given)
        .and("resolution"@, Operand::Given)
        .and("measurements"@, Operand::Given)
        .and("batch_hash"@, Operand::Given)
        .and("status"@, Operand::Given)
        .and("created_at"@, Operand::Given);
    let s = spec_insert_batch(aspect_id, database_id, batch, measurements, status, now).statement;
    assert(s.sql =~= addition_text("INSERT INTO "@, "batches"@, fields));
}

/// The statement of `insert_unprocessed_batch` adds a row to `batches`, with each value in the
/// column that is meant for it.
pub proof fn law_insert_unprocessed_batch_adds(
    aspect_id: &AspectId,
    database_id: &DatabaseId,
    batch: &Batch,
    measurements: &str,
    now: i64,
)
    ensures
        ({
            let fields = Fields::Only("id"@, Operand::Given)
                .and("aspect_id"@, Operand::Given)
                .and("database_id"@, Operand::Given)
                .and("size"@, Operand::Given)
                .and("resolution"@, Operand::Given)
                .and("measurements"@, Operand::Given)
                .and("batch_hash"@, Operand::Given)
                .and("status"@, Operand::Given)
                .and("created_at"@, Operand::Given);
            let s = spec_insert_unprocessed_batch(aspect_id, database_id, batch, measurements, now).statement;
            &&& s.sql == addition_text("INSERT INTO "@, "batches"@, fields)
            &&& s.params.len() == 9
            &&& puts(fields, s.params, "id"@, SqlView::Text(uuid_text(batch.batch_id.value)))
            &&& puts(fields, s.params, "aspect_id"@, SqlView::Text(uuid_text(aspect_id.value)))
            &&& puts(fields, s.params, "database_id"@, SqlView::Text(uuid_text(database_id.value)))
            &&& puts(fields, s.params, "size"@, SqlView::Integer(batch.metadata.size as int))
            &&& puts(fields, s.params, "resolution"@, SqlView::Text(batch.metadata.resolution.spec_text()))
            &&& puts(fields, s.params, "measurements"@, SqlView::Text(measurements@))
            &&& puts(fields, s.params, "batch_hash"@, SqlView::Text(md5_text(measurements@)))
            &&& puts(fields, s.params, "status"@, SqlView::Text("unprocessed"@))
            &&& puts(fields, s.params, "created_at"@, SqlView::Integer(now as int))
        }),
{
    reveal_with_fuel(columns_text, 10);
    reveal_with_fuel(values_text, 10);
    reveal_with_fuel(puts, 10);
    reveal_with_fuel(values_put, 10);
    reveal_strlit(" (");
    reveal_strlit(")");
    reveal_strlit(") VALUES (");
    reveal_strlit(", ");
    reveal_strlit("?");
    reveal_strlit("INSERT INTO ");
    reveal_strlit("INSERT INTO batches (id, aspect_id, database_id, size, resolution, measurements, batch_hash, status, created_at) VALUES (?, ?, ?, ?, ?, ?, ?, ?, ?)");
    reveal_strlit("aspect_id");
    reveal_strlit("batch_hash");
    reveal_strlit("batches");
    reveal_strlit("created_at");
    reveal_strlit("database_id");
    reveal_strlit("id");
    reveal_strlit("measurements");
    reveal_strlit("resolution");
    reveal_strlit("size");
    reveal_strlit("status");
    let fields = Fields::Only("id"@, Operand::Given)
        .and("aspect_id"@, Operand::Given)
        .and("database_id"@, Operand::Given)
        .and("size"@, Operand::Given)
        .and("resolution"@, Operand::Given)
        .and("measurements"@, Operand::Given)
        .and("batch_hash"@, Operand::Given)
        .and("status"@, Operand::Given)
        .and("created_at"@, Operand::Given);
    let s = spec_insert_unprocessed_batch(aspect_id, database_id, batch, measurements, now).statement;
    assert(s.sql =~= addition_text("INSERT INTO "@, "batches"@, fields));
}

/// The statement of `insert_processed_batch` adds a row to `batches`, with each value in the column
/// that is meant for it.
pub proof fn law_insert_processed_batch_adds(
    aspect_id: &AspectId,
    database_id: &DatabaseId,
    batch: &Batch,
    measurements: &str,
    now: i64,
)
    ensures
        ({
            let fields = Fields::Only("id"@, Operand::Given)
                .and("aspect_id"@, Operand::Given)
                .and("database_id"@, Operand::Given)
                .and("size"@, Operand::Given)
                .and("resolution"@, Operand::Given)
                .and("measurements"@, Operand::Given)
                .and("batch_hash"@, Operand::Given)
                .and("status"@, Operand::Given)
                .and("created_at"@, Operand::Given);
            let s = spec_insert_processed_batch(aspect_id, database_id, batch, measurements, now).statement;
            &&& s.sql == addition_text("INSERT INTO "@, "batches"@, fields)
            &&& s.params.len() == 9
            &&& puts(fields, s.params, "id"@, SqlView::Text(uuid_text(batch.batch_id.value)))
            &&& puts(fields, s.params, "aspect_id"@, SqlView::Text(uuid_text(aspect_id.value)))
            &&& puts(fields, s.params, "database_id"@, SqlView::Text(uuid_text(database_id.value)))
            &&& puts(fields, s.params, "size"@, SqlView::Integer(batch.metadata.size as int))
            &&& puts(fields, s.params, "resolution"@, SqlView::Text(batch.metadata.resolution.spec_text()))
            &&& puts(fields, s.params, "measurements"@, SqlView::Text(measurements@))
            &&& puts(fields, s.params, "batch_hash"@, SqlView::Text(md5_text(measurements@)))
            &&& puts(fields, s.params, "status"@, SqlView::Text("processed"@))
            &&& puts(fields, s.params, "created_at"@, SqlView::Integer(now as int))
        }),
{
    reveal_with_fuel(columns_text, 10);
    reveal_with_fuel(values_text, 10);
    reveal_with_fuel(puts, 10);
    reveal_with_fuel(values_put, 10);
    reveal_strlit(" (");
    reveal_strlit(")");
    reveal_strlit(") VALUES (");
    reveal_strlit(", ");
    reveal_strlit("?");
    reveal_strlit("INSERT INTO ");
    reveal_strlit("INSERT INTO batches (id, aspect_id, database_id, size, resolution, measurements, batch_hash, status, created_at) VALUES (?, ?, ?, ?, ?, ?, ?, ?, ?)");
    reveal_strlit("aspect_id");
    reveal_strlit("batch_hash");
    reveal_strlit("batches");
    reveal_strlit("created_at");
    reveal_strlit("database_id");
    reveal_strlit("id");
    reveal_strlit("measurements");
    reveal_strlit("resolution");
    reveal_strlit("size");
    reveal_strlit("status");
    let fields = Fields::Only("id"@, Operand::Given)
        .and("aspect_id"@, Operand::Given)
        .and("database_id"@, Operand::Given)
        .and("size"@, Operand::Given)
        .and("resolution"@, Operand::Given)
        .and("measurements"@, Operand::Given)
        .and("batch_hash"@, Operand::Given)
        .and("status"@, Operand::Given)
        .and("created_at"@, Operand::Given);
    let s = spec_insert_processed_batch(aspect_id, database_id, batch, measurements, now).statement;
    assert(s.sql =~= addition_text("INSERT INTO "@, "batches"@, fields));
}

/// The statement of `remove_batch` takes exactly those rows of `batches` away that are meant.
pub proof fn law_remove_batch_removes(batch_id: &BatchId, status: BatchStatus, row: Row)
    ensures
        ({
            let met = only("id"@, Sign::Is);
            let s = spec_remove_batch(batch_id, status).statement;
            &&& s.sql == removal_text("batches"@, met)
            &&& s.params.len() == 1
            &&& is_met(met, s.params, 0, row) <==> row["id"@] == SqlView::Text(uuid_text(batch_id.value))
        }),
{
    reveal_with_fuel(conditions_text, 3);
    reveal_with_fuel(is_met, 3);
    reveal_with_fuel(values_taken, 3);
    reveal_strlit("");
    reveal_strlit(" = ");
    reveal_strlit(" WHERE ");
    reveal_strlit("?");
    reveal_strlit("DELETE FROM ");
    reveal_strlit("DELETE FROM batches WHERE id = ?");
    reveal_strlit("batches");
    reveal_strlit("id");
    let met = only("id"@, Sign::Is);
    let s = spec_remove_batch(batch_id, status).statement;
    assert(s.sql =~= removal_text("batches"@, met));
}

/// The statement of `clear_batches` takes every row of `batches` away.
pub proof fn law_clear_batches_removes(status: BatchStatus)
    ensures
        ({
            let met = Conditions::Always;
            let s = spec_clear_batches(status).statement;
            &&& s.sql == removal_text("batches"@, met)
            &&& s.params.len() == 0
        }),
{
    reveal_with_fuel(conditions_text, 2);
    reveal_strlit("");
    reveal_strlit("DELETE FROM ");
    reveal_strlit("DELETE FROM batches");
    reveal_strlit("batches");
    let met = Conditions::Always;
    let s = spec_clear_batches(status).statement;
    assert(s.sql =~= removal_text("batches"@, met));
}

/// The statement of `cleanup_batches` takes exactly those rows of `batches` away that are meant.
pub proof fn law_cleanup_batches_removes(older_than: &Timestamp, status: BatchStatus, row: Row)
    ensures
        ({
            let met = only("created_at"@, Sign::Below);
            let s = spec_cleanup_batches(older_than, status).statement;
            &&& s.sql == removal_text("batches"@, met)
            &&& s.params.len() == 1
            &&& is_met(met, s.params, 0, row) <==> {
                &&& row["created_at"@] is Integer
                &&& row["created_at"@]->Integer_0 < older_than.spec_millis()
            }
        }),
{
    reveal_with_fuel(conditions_text, 3);
    reveal_with_fuel(is_met, 3);
    reveal_with_fuel(values_taken, 3);
    reveal_strlit("");
    reveal_strlit(" < ");
    reveal_strlit(" WHERE ");
    reveal_strlit("?");
    reveal_strlit("DELETE FROM ");
    reveal_strlit("DELETE FROM batches WHERE created_at < ?");
    reveal_strlit("batches");
    reveal_strlit("created_at");
    let met = only("created_at"@, Sign::Below);
    let s = spec_cleanup_batches(older_than, status).statement;
    assert(s.sql =~= removal_text("batches"@, met));
}

/// The statement of `chunk_step` adds a row to `batches`, with each value in the column that is
/// meant for it.
pub proof fn law_chunk_step_adds(batch: Batch, database: u128, now: int)
    ensures
        ({
            let fields = Fields::Only("id"@, Operand::Given)
                .and("aspect_id"@, Operand::Given)
                .and("database_id"@, Operand::Given)
                .and("size"@, Operand::Given)
                .and("resolution"@, Operand::Given)
                .and("measurements"@, Operand::Given)
                .and("batch_hash"@, Operand::Given)
                .and("status"@, Operand::Given)
                .and("created_at"@, Operand::Given);
            let s = chunk_step(batch, database, now).statement;
            &&& s.sql == addition_text("INSERT INTO "@, "batches"@, fields)
            &&& s.params.len() == 9
            &&& puts(fields, s.params, "id"@, SqlView::Text(uuid_text(batch.batch_id.value)))
            &&& puts(fields, s.params, "aspect_id"@, SqlView::Text(uuid_text(batch.metadata.aspect.value)))
            &&& puts(fields, s.params, "database_id"@, SqlView::Text(uuid_text(database)))
            &&& puts(fields, s.params, "size"@, SqlView::Integer(batch.metadata.size as int))
            &&& puts(fields, s.params, "resolution"@, SqlView::Text(batch.metadata.resolution.spec_text()))
            &&& puts(fields, s.params, "measurements"@, SqlView::Text("{}"@))
            &&& puts(fields, s.params, "batch_hash"@, SqlView::Text("stub_hash"@))
            &&& puts(fields, s.params, "status"@, SqlView::Text("unprocessed"@))
            &&& puts(fields, s.params, "created_at"@, SqlView::Integer(now))
        }),
{
    reveal_with_fuel(columns_text, 10);
    reveal_with_fuel(values_text, 10);
    reveal_with_fuel(puts, 10);
    reveal_with_fuel(values_put, 10);
    reveal_strlit(" (");
    reveal_strlit(")");
    reveal_strlit(") VALUES (");
    reveal_strlit(", ");
    reveal_strlit("?");
    reveal_strlit("INSERT INTO ");
    reveal_strlit("INSERT INTO batches (id, aspect_id, database_id, size, resolution, measurements, batch_hash, status, created_at) VALUES (?, ?, ?, ?, ?, ?, ?, ?, ?)");
    reveal_strlit("aspect_id");
    reveal_strlit("batch_hash");
    reveal_strlit("batches");
    reveal_strlit("created_at");
    reveal_strlit("database_id");
    reveal_strlit("id");
    reveal_strlit("measurements");
    reveal_strlit("resolution");
    reveal_strlit("size");
    reveal_strlit("status");
    let fields = Fields::Only("id"@, Operand::Given)
        .and("aspect_id"@, Operand::Given)
        .and("database_id"@, Operand::Given)
        .and("size"@, Operand::Given)
        .and("resolution"@, Operand::Given)
        .and("measurements"@, Operand::Given)
        .and("batch_hash"@, Operand::Given)
        .and("status"@, Operand::Given)
        .and("created_at"@, Operand::Given);
    let s = chunk_step(batch, database, now).statement;
    assert(s.sql =~= addition_text("INSERT INTO "@, "batches"@, fields));
}

/// The statement of `batch_query` reads `id`, `aspect_id`, `database_id`, `size`, `resolution`,
/// `measurements` and `batch_hash` of exactly those rows of `batches` that are asked for.
pub proof fn law_batch_query_reads(batch_id: &BatchId, row: Row)
    ensures
        ({
            let met = only("id"@, Sign::Is);
            let columns = Listed::Only("id"@)
                .and("aspect_id"@)
                .and("database_id"@)
                .and("size"@)
                .and("resolution"@)
                .and("measurements"@)
                .and("batch_hash"@);
            let s = spec_batch_query(batch_id);
            &&& s.sql == reading_text(columns, "batches"@, met)
            &&& s.params.len() == 1
            &&& is_met(met, s.params, 0, row) <==> row["id"@] == SqlView::Text(uuid_text(batch_id.value))
        }),
{
    reveal_with_fuel(listed_text, 8);
    reveal_with_fuel(conditions_text, 3);
    reveal_with_fuel(is_met, 3);
    reveal_with_fuel(values_taken, 3);
    reveal_strlit("");
    reveal_strlit(" = ");
    reveal_strlit(" FROM ");
    reveal_strlit(" WHERE ");
    reveal_strlit(", ");
    reveal_strlit("?");
    reveal_strlit("SELECT ");
    reveal_strlit("SELECT id, aspect_id, database_id, size, resolution, measurements, batch_hash FROM batches WHERE id = ?");
    reveal_strlit("aspect_id");
    reveal_strlit("batch_hash");
    reveal_strlit("batches");
    reveal_strlit("database_id");
    reveal_strlit("id");
    reveal_strlit("measurements");
    reveal_strlit("resolution");
    reveal_strlit("size");
    let met = only("id"@, Sign::Is);
    let columns = Listed::Only("id"@)
        .and("aspect_id"@)
        .and("database_id"@)
        .and("size"@)
        .and("resolution"@)
        .and("measurements"@)
        .and("batch_hash"@);
    let s = spec_batch_query(batch_id);
    assert(s.sql =~= reading_text(columns, "batches"@, met));
}

/// The statement of `batches_query` reads `id`, `aspect_id`, `database_id`, `size`, `resolution`,
/// `measurements` and `batch_hash` of exactly those rows of `batches` that are asked for, the first
/// by `created_at` first.
pub proof fn law_batches_query_reads(aspect_id: &AspectId, database_id: &DatabaseId, row: Row)
    ensures
        ({
            let met = only("aspect_id"@, Sign::Is).and("database_id"@, Sign::Is);
            let columns = Listed::Only("id"@)
                .and("aspect_id"@)
                .and("database_id"@)
                .and("size"@)
                .and("resolution"@)
                .and("measurements"@)
                .and("batch_hash"@);
            let s = spec_batches_query(aspect_id, database_id);
            &&& s.sql == reading_text(columns, "batches"@, met) + " ORDER BY created_at ASC"@
            &&& s.params.len() == 2
            &&& is_met(met, s.params, 0, row) <==> {
                &&& row["aspect_id"@] == SqlView::Text(uuid_text(aspect_id.value))
                &&& row["database_id"@] == SqlView::Text(uuid_text(database_id.value))
            }
        }),
{
    reveal_with_fuel(listed_text, 8);
    reveal_with_fuel(conditions_text, 4);
    reveal_with_fuel(is_met, 4);
    reveal_with_fuel(values_taken, 4);
    reveal_strlit("");
    reveal_strlit(" = ");
    reveal_strlit(" AND ");
    reveal_strlit(" FROM ");
    reveal_strlit(" ORDER BY created_at ASC");
    reveal_strlit(" WHERE ");
    reveal_strlit(", ");
    reveal_strlit("?");
    reveal_strlit("SELECT ");
    reveal_strlit("SELECT id, aspect_id, database_id, size, resolution, measurements, batch_hash FROM batches WHERE aspect_id = ? AND database_id = ? ORDER BY created_at ASC");
    reveal_strlit("aspect_id");
    reveal_strlit("batch_hash");
    reveal_strlit("batches");
    reveal_strlit("database_id");
    reveal_strlit("id");
    reveal_strlit("measurements");
    reveal_strlit("resolution");
    reveal_strlit("size");
    let met = only("aspect_id"@, Sign::Is).and("database_id"@, Sign::Is);
    let columns = Listed::Only("id"@)
        .and("aspect_id"@)
        .and("database_id"@)
        .and("size"@)
        .and("resolution"@)
        .and("measurements"@)
        .and("batch_hash"@);
    let s = spec_batches_query(aspect_id, database_id);
    assert(s.sql =~= reading_text(columns, "batches"@, met) + " ORDER BY created_at ASC"@);
}

}
