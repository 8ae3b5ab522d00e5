//! What the statements on the queues meet: the rows that the models of the queues say they do.
use crate::laws::statements::{
    change_text,
    is_met,
    only,
    puts,
    removal_text,
    Fields,
    Operand,
    Row,
    Sign,
};
use crate::laws::stored::{queue_batches, queue_events, queue_patterns};
use crate::queue::batches::StoredBatch;
use crate::queue::model::QueuedRow;
use crate::queue::{batches, events, patterns};
use crate::sql::SqlView;
use vstd::prelude::*;

verus! {

/// Whether a row is that of something in a queue.
pub open spec fn is_row_of(row: Row, q: QueuedRow) -> bool {
    &&& row["id"@] == SqlView::Text(q.id)
    &&& row["database_id"@] == SqlView::Text(q.database)
    &&& row["status"@] == SqlView::Text(q.status)
    &&& row["processed_at"@] == match q.processed_at {
        Some(n) => SqlView::Integer(n),
        None => SqlView::Null,
    }
    &&& row["aspect_id"@] == match q.aspect {
        Some(a) => SqlView::Text(a),
        None => SqlView::Null,
    }
}

/// Whether a row is that of a batch among the processed ones.
pub open spec fn is_row_of_batch(row: Row, b: StoredBatch) -> bool {
    &&& row["id"@] == SqlView::Text(b.id)
    &&& row["batch_hash"@] == SqlView::Text(b.hash)
    &&& row["aspect_id"@] == SqlView::Text(b.aspect)
    &&& row["database_id"@] == SqlView::Text(b.database)
    &&& row["status"@] == SqlView::Text(b.status)
    &&& row["created_at"@] == SqlView::Integer(b.created_at)
}

/// The fields that mark something as processed.
pub open spec fn marking() -> Fields {
    Fields::Only("status"@, Operand::Word("processed"@)).and("processed_at"@, Operand::Given)
}

/// The statements that take an event out, mark one as processed and clean events up meet the rows
/// that the model of the queue says they do, and marking puts into a row what the model says.
pub proof fn law_statements_on_events_meet_what_they_should(
    q: QueuedRow,
    row: Row,
    id: u128,
    database: u128,
    time: int,
)
    requires
        is_row_of(row, q),
    ensures
        ({
            let met = only("id"@, Sign::Is).and_word("status"@, "processed"@);
            let s = events::dequeue_step(id).statement;
            s.sql == removal_text("events"@, met) && (is_met(met, s.params, 0, row)
                <==> events::is_dequeued(q, id))
        }),
        ({
            let met = only("id"@, Sign::Is).and_word("status"@, "unprocessed"@);
            let s = events::mark_step(id, time).statement;
            &&& s.sql == change_text("events"@, marking(), met)
            &&& is_met(met, s.params, 1, row) <==> events::is_to_mark(q, id)
            &&& puts(marking(), s.params, "status"@, SqlView::Text(q.marked(time).status))
            &&& puts(marking(), s.params, "processed_at"@, SqlView::Integer(
                q.marked(time).processed_at->0,
            ))
        }),
        ({
            let met = only("database_id"@, Sign::Is).and_word("status"@, "processed"@).and(
                "processed_at"@,
                Sign::Below,
            );
            let s = events::cleanup_step(database, time).statement;
            s.sql == removal_text("events"@, met) && (is_met(met, s.params, 0, row)
                <==> events::is_outdated(q, database, time))
        }),
{
    queue_events::law_dequeue_step_removes(id, row);
    queue_events::law_mark_step_changes(id, time, row);
    queue_events::law_cleanup_step_removes(database, time, row);
}

/// The statements that take a pattern out, mark one as processed and clean patterns up meet the rows
/// that the model of the queue says they do, and marking puts into a row what the model says.
pub proof fn law_statements_on_patterns_meet_what_they_should(
    q: QueuedRow,
    row: Row,
    id: u128,
    aspect: u128,
    database: u128,
    time: int,
)
    requires
        is_row_of(row, q),
    ensures
        ({
            let met = only("id"@, Sign::Is).and_word("status"@, "processed"@);
            let s = patterns::dequeue_step(id).statement;
            s.sql == removal_text("patterns"@, met) && (is_met(met, s.params, 0, row)
                <==> patterns::is_dequeued(q, id))
        }),
        ({
            let met = only("id"@, Sign::Is).and_word("status"@, "unprocessed"@);
            let s = patterns::mark_step(id, time).statement;
            &&& s.sql == change_text("patterns"@, marking(), met)
            &&& is_met(met, s.params, 1, row) <==> patterns::is_to_mark(q, id)
            &&& puts(marking(), s.params, "status"@, SqlView::Text(q.marked(time).status))
            &&& puts(marking(), s.params, "processed_at"@, SqlView::Integer(
                q.marked(time).processed_at->0,
            ))
        }),
        ({
            let met = only("aspect_id"@, Sign::Is).and("database_id"@, Sign::Is).and_word(
                "status"@,
                "processed"@,
            ).and("processed_at"@, Sign::Below);
            let s = patterns::cleanup_step(aspect, database, time).statement;
            s.sql == removal_text("patterns"@, met) && (is_met(met, s.params, 0, row)
                <==> patterns::is_outdated(q, aspect, database, time))
        }),
{
    queue_patterns::law_dequeue_step_removes(id, row);
    queue_patterns::law_mark_step_changes(id, time, row);
    queue_patterns::law_cleanup_step_removes(aspect, database, time, row);
}

/// The statements that take a batch out by its hash and clean batches up meet the rows that the
/// model of the queue says they do.
pub proof fn law_statements_on_batches_meet_what_they_should(
    b: StoredBatch,
    row: Row,
    hash: Seq<char>,
    aspect: u128,
    database: u128,
    time: int,
)
    requires
        is_row_of_batch(row, b),
    ensures
        ({
            let met = only("batch_hash"@, Sign::Is).and("aspect_id"@, Sign::Is).and(
                "database_id"@,
                Sign::Is,
            );
            let s = batches::dequeue_by_hash(hash, aspect, database);
            s.sql == removal_text("batches"@, met) && (is_met(met, s.params, 0, row)
                <==> b.is_by_hash(hash, aspect, database))
        }),
        ({
            let met = only("aspect_id"@, Sign::Is).and("database_id"@, Sign::Is).and_word(
                "status"@,
                "processed"@,
            ).and("created_at"@, Sign::Below);
            let s = batches::cleanup_step(aspect, database, time).statement;
            s.sql == removal_text("batches"@, met) && (is_met(met, s.params, 0, row)
                <==> b.is_outdated(aspect, database, time))
        }),
{
    queue_batches::law_dequeue_by_hash_removes(hash, aspect, database, row);
    queue_batches::law_cleanup_step_removes(aspect, database, time, row);
}

/// The statement that takes a batch out by its identifier meets the rows that the model of the queue
/// says it does.
pub proof fn law_a_batch_is_taken_out_by_its_identifier(
    b: StoredBatch,
    row: Row,
    batch: &crate::batch::Batch,
)
    requires
        is_row_of_batch(row, b),
    ensures
        ({
            let met = only("id"@, Sign::Is);
            let s = batches::spec_dequeue_by_id(batch);
            s.sql == removal_text("batches"@, met) && (is_met(met, s.params, 0, row) <==> b.is_by_id(
                batch.batch_id.value,
            ))
        }),
{
    queue_batches::law_dequeue_by_id_removes(batch, row);
}

}
