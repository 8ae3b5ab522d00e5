//! What the statements on the queue of batches read, add, change and take away.
use crate::batch::Batch;
use crate::ids::{uuid_text, AspectId, DatabaseId};
use crate::laws::statements::{
    conditions_text,
    is_met,
    listed_text,
    only,
    reading_text,
    removal_text,
    values_taken,
    Listed,
    Row,
    Sign,
};
use crate::queue::batches::{
    all_processed_step,
    cleanup_step,
    dequeue_by_hash,
    spec_dequeue_by_id,
    spec_get_processed_batches_queue,
    spec_get_unprocessed_batch_stats,
};
use crate::sql::SqlView;
use vstd::prelude::*;

verus! {

/// The statement of `get_unprocessed_batch_stats` reads `status` and `COUNT(*) as count` of exactly
/// those rows of `batches` that are asked for, counted by their `status`.
pub proof fn law_get_unprocessed_batch_stats_reads(
    aspect_id: &AspectId,
    database_id: &DatabaseId,
    row: Row,
)
    ensures
        ({
            let met = only("aspect_id"@, Sign::Is).and("database_id"@, Sign::Is);
            let columns = Listed::Only("status"@).and("COUNT(*) as count"@);
            let s = spec_get_unprocessed_batch_stats(aspect_id, database_id);
            &&& s.sql == reading_text(columns, "batches"@, met) + " GROUP BY status"@
            &&& s.params.len() == 2
            &&& is_met(met, s.params, 0, row) <==> {
                &&& row["aspect_id"@] == SqlView::Text(uuid_text(aspect_id.value))
                &&& row["database_id"@] == SqlView::Text(uuid_text(database_id.value))
            }
        }),
{
    reveal_with_fuel(listed_text, 3);
    reveal_with_fuel(conditions_text, 4);
    reveal_with_fuel(is_met, 4);
    reveal_with_fuel(values_taken, 4);
    reveal_strlit("");
    reveal_strlit(" = ");
    reveal_strlit(" AND ");
    reveal_strlit(" FROM ");
    reveal_strlit(" GROUP BY status");
    reveal_strlit(" WHERE ");
    reveal_strlit(", ");
    reveal_strlit("?");
    reveal_strlit("COUNT(*) as count");
    reveal_strlit("SELECT ");
    reveal_strlit("SELECT status, COUNT(*) as count FROM batches WHERE aspect_id = ? AND database_id = ? GROUP BY status");
    reveal_strlit("aspect_id");
    reveal_strlit("batches");
    reveal_strlit("database_id");
    reveal_strlit("status");
    let met = only("aspect_id"@, Sign::Is).and("database_id"@, Sign::Is);
    let columns = Listed::Only("status"@).and("COUNT(*) as count"@);
    let s = spec_get_unprocessed_batch_stats(aspect_id, database_id);
    assert(s.sql =~= reading_text(columns, "batches"@, met) + " GROUP BY status"@);
}

/// The statement of `cleanup_step` takes exactly those rows of `batches` away that are meant.
pub proof fn law_cleanup_step_removes(aspect: u128, database: u128, before: int, row: Row)
    ensures
        ({
            let met = only("aspect_id"@, Sign::Is)
                .and("database_id"@, Sign::Is)
                .and_word("status"@, "processed"@)
                .and("created_at"@, Sign::Below);
            let s = cleanup_step(aspect, database, before).statement;
            &&& s.sql == removal_text("batches"@, met)
            &&& s.params.len() == 3
            &&& is_met(met, s.params, 0, row) <==> {
                &&& row["aspect_id"@] == SqlView::Text(uuid_text(aspect))
                &&& row["database_id"@] == SqlView::Text(uuid_text(database))
                &&& row["status"@] == SqlView::Text("processed"@)
                &&& row["created_at"@] is Integer
                &&& row["created_at"@]->Integer_0 < before
            }
        }),
{
    reveal_with_fuel(conditions_text, 6);
    reveal_with_fuel(is_met, 6);
    reveal_with_fuel(values_taken, 6);
    reveal_strlit("");
    reveal_strlit(" < ");
    reveal_strlit(" = ");
    reveal_strlit(" AND ");
    reveal_strlit(" WHERE ");
    reveal_strlit("'");
    reveal_strlit("?");
    reveal_strlit("DELETE FROM ");
    reveal_strlit("DELETE FROM batches WHERE aspect_id = ? AND database_id = ? AND status = 'processed' AND created_at < ?");
    reveal_strlit("aspect_id");
    reveal_strlit("batches");
    reveal_strlit("created_at");
    reveal_strlit("database_id");
    reveal_strlit("processed");
    reveal_strlit("status");
    let met = only("aspect_id"@, Sign::Is)
        .and("database_id"@, Sign::Is)
        .and_word("status"@, "processed"@)
        .and("created_at"@, Sign::Below);
    let s = cleanup_step(aspect, database, before).statement;
    assert(s.sql =~= removal_text("batches"@, met));
}

/// The statement of `all_processed_step` takes exactly those rows of `batches` away that are meant.
pub proof fn law_all_processed_step_removes(
    aspect: u128,
    database: u128,
    complaint: Seq<char>,
    row: Row,
)
    ensures
        ({
            let met = only("aspect_id"@, Sign::Is)
                .and("database_id"@, Sign::Is)
                .and_word("status"@, "processed"@);
            let s = all_processed_step(aspect, database, complaint).statement;
            &&& s.sql == removal_text("batches"@, met)
            &&& s.params.len() == 2
            &&& is_met(met, s.params, 0, row) <==> {
                &&& row["aspect_id"@] == SqlView::Text(uuid_text(aspect))
                &&& row["database_id"@] == SqlView::Text(uuid_text(database))
                &&& row["status"@] == SqlView::Text("processed"@)
            }
        }),
{
    reveal_with_fuel(conditions_text, 5);
    reveal_with_fuel(is_met, 5);
    reveal_with_fuel(values_taken, 5);
    reveal_strlit("");
    reveal_strlit(" = ");
    reveal_strlit(" AND ");
    reveal_strlit(" WHERE ");
    reveal_strlit("'");
    reveal_strlit("?");
    reveal_strlit("DELETE FROM ");
    reveal_strlit("DELETE FROM batches WHERE aspect_id = ? AND database_id = ? AND status = 'processed'");
    reveal_strlit("aspect_id");
    reveal_strlit("batches");
    reveal_strlit("database_id");
    reveal_strlit("processed");
    reveal_strlit("status");
    let met = only("aspect_id"@, Sign::Is).and("database_id"@, Sign::Is).and_word("status"@, "processed"@);
    let s = all_processed_step(aspect, database, complaint).statement;
    assert(s.sql =~= removal_text("batches"@, met));
}

/// The statement of `get_processed_batches_queue` reads `id`, `size`, `resolution`, `measurements`
/// and `batch_hash` of exactly those rows of `batches` that are asked for, the first by
/// `created_at` first.
pub proof fn law_get_processed_batches_queue_reads(
    aspect_id: &AspectId,
    database_id: &DatabaseId,
    row: Row,
)
    ensures
        ({
            let met = only("aspect_id"@, Sign::Is)
                .and("database_id"@, Sign::Is)
                .and_word("status"@, "processed"@);
            let columns = Listed::Only("id"@)
                .and("size"@)
                .and("resolution"@)
                .and("measurements"@)
                .and("batch_hash"@);
            let s = spec_get_processed_batches_queue(aspect_id, database_id);
            &&& s.sql == reading_text(columns, "batches"@, met) + " ORDER BY created_at ASC"@
            &&& s.params.len() == 2
            &&& is_met(met, s.params, 0, row) <==> {
                &&& row["aspect_id"@] == SqlView::Text(uuid_text(aspect_id.value))
                &&& row["database_id"@] == SqlView::Text(uuid_text(database_id.value))
                &&& row["status"@] == SqlView::Text("processed"@)
            }
        }),
{
    reveal_with_fuel(listed_text, 6);
    reveal_with_fuel(conditions_text, 5);
    reveal_with_fuel(is_met, 5);
    reveal_with_fuel(values_taken, 5);
    reveal_strlit("");
    reveal_strlit(" = ");
    reveal_strlit(" AND ");
    reveal_strlit(" FROM ");
    reveal_strlit(" ORDER BY created_at ASC");
    reveal_strlit(" WHERE ");
    reveal_strlit("'");
    reveal_strlit(", ");
    reveal_strlit("?");
    reveal_strlit("SELECT ");
    reveal_strlit("SELECT id, size, resolution, measurements, batch_hash FROM batches WHERE aspect_id = ? AND database_id = ? AND status = 'processed' ORDER BY created_at ASC");
    reveal_strlit("aspect_id");
    reveal_strlit("batch_hash");
    reveal_strlit("batches");
    reveal_strlit("database_id");
    reveal_strlit("id");
    reveal_strlit("measurements");
    reveal_strlit("processed");
    reveal_strlit("resolution");
    reveal_strlit("size");
    reveal_strlit("status");
    let met = only("aspect_id"@, Sign::Is).and("database_id"@, Sign::Is).and_word("status"@, "processed"@);
    let columns = Listed::Only("id"@).and("size"@).and("resolution"@).and("measurements"@).and("batch_hash"@);
    let s = spec_get_processed_batches_queue(aspect_id, database_id);
    assert(s.sql =~= reading_text(columns, "batches"@, met) + " ORDER BY created_at ASC"@);
}

/// The statement of `dequeue_by_id` takes exactly those rows of `batches` away that are meant.
pub proof fn law_dequeue_by_id_removes(batch: &Batch, row: Row)
    ensures
        ({
            let met = only("id"@, Sign::Is);
            let s = spec_dequeue_by_id(batch);
            &&& s.sql == removal_text("batches"@, met)
            &&& s.params.len() == 1
            &&& is_met(met, s.params, 0, row) <==> row["id"@] == SqlView::Text(uuid_text(batch.batch_id.value))
        }),
{
    reveal_with_fuel(conditions_text, 3);
    reveal_with_fuel(is_met, 3);
    reveal_with_fuel(values_taken, 3);
    reveal_strlit("");
    reveal_strlit(" = ");
    reveal_strlit(" WHERE ");
    reveal_strlit("?");
    reveal_strlit("DELETE FROM ");
    reveal_strlit("DELETE FROM batches WHERE id = ?");
    reveal_strlit("batches");
    reveal_strlit("id");
    let met = only("id"@, Sign::Is);
    let s = spec_dequeue_by_id(batch);
    assert(s.sql =~= removal_text("batches"@, met));
}

/// The statement of `dequeue_by_hash` takes exactly those rows of `batches` away that are meant.
pub proof fn law_dequeue_by_hash_removes(hash: Seq<char>, aspect: u128, database: u128, row: Row)
    ensures
        ({
            let met = only("batch_hash"@, Sign::Is)
                .and("aspect_id"@, Sign::Is)
                .and("database_id"@, Sign::Is);
            let s = dequeue_by_hash(hash, aspect, database);
            &&& s.sql == removal_text("batches"@, met)
            &&& s.params.len() == 3
            &&& is_met(met, s.params, 0, row) <==> {
                &&& row["batch_hash"@] == SqlView::Text(hash)
                &&& row["aspect_id"@] == SqlView::Text(uuid_text(aspect))
                &&& row["database_id"@] == SqlView::Text(uuid_text(database))
            }
        }),
{
    reveal_with_fuel(conditions_text, 5);
    reveal_with_fuel(is_met, 5);
    reveal_with_fuel(values_taken, 5);
    reveal_strlit("");
    reveal_strlit(" = ");
    reveal_strlit(" AND ");
    reveal_strlit(" WHERE ");
    reveal_strlit("?");
    reveal_strlit("DELETE FROM ");
    reveal_strlit("DELETE FROM batches WHERE batch_hash = ? AND aspect_id = ? AND database_id = ?");
    reveal_strlit("aspect_id");
    reveal_strlit("batch_hash");
    reveal_strlit("batches");
    reveal_strlit("database_id");
    let met = only("batch_hash"@, Sign::Is).and("aspect_id"@, Sign::Is).and("database_id"@, Sign::Is);
    let s = dequeue_by_hash(hash, aspect, database);
    assert(s.sql =~= removal_text("batches"@, met));
}

}
