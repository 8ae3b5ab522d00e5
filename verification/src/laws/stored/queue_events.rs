//! What the statements on the queue of events read, add, change and take away.
use crate::event::Event;
use crate::ids::{uuid_text, DatabaseId};
use crate::laws::statements::{
    addition_text,
    change_text,
    columns_text,
    conditions_text,
    is_met,
    listed_text,
    only,
    puts,
    reading_text,
    removal_text,
    settings_text,
    values_put,
    values_taken,
    values_text,
    Fields,
    Listed,
    Operand,
    Row,
    Sign,
};
use crate::queue::events::{
    cleanup_step,
    dequeue_step,
    mark_step,
    processed_step,
    spec_cleanup_all_processed_events,
    spec_clear_all_events,
    spec_clear_processed_events_queue,
    spec_get_event_stats,
    spec_get_processed_events_queue,
    spec_get_unprocessed_events,
    spec_store_event,
};
use crate::sql::SqlView;
use vstd::prelude::*;

verus! {

/// The statement of `store_event` adds a row to `events`, with each value in the column that is
/// meant for it.
pub proof fn law_store_event_adds(
    event: &Event,
    database_id: &DatabaseId,
    manifestations: &str,
    now: i64,
)
    ensures
        ({
            let fields = Fields::Only("id"@, Operand::Given)
                .and("database_id"@, Operand::Given)
                .and("name"@, Operand::Given)
                .and("manifestations"@, Operand::Given)
                .and("created_at"@, Operand::Given);
            let s = spec_store_event(event, database_id, manifestations, now).statement;
            &&& s.sql == addition_text("INSERT INTO "@, "events"@, fields)
            &&& s.params.len() == 5
            &&& puts(fields, s.params, "id"@, SqlView::Text(uuid_text(event.id.value)))
            &&& puts(fields, s.params, "database_id"@, SqlView::Text(uuid_text(database_id.value)))
            &&& puts(fields, s.params, "name"@, SqlView::Text(event.name@))
            &&& puts(fields, s.params, "manifestations"@, SqlView::Text(manifestations@))
            &&& puts(fields, s.params, "created_at"@, SqlView::Integer(now as int))
        }),
{
    reveal_with_fuel(columns_text, 6);
    reveal_with_fuel(values_text, 6);
    reveal_with_fuel(puts, 6);
    reveal_with_fuel(values_put, 6);
    reveal_strlit(" (");
    reveal_strlit(")");
    reveal_strlit(") VALUES (");
    reveal_strlit(", ");
    reveal_strlit("?");
    reveal_strlit("INSERT INTO ");
    reveal_strlit("INSERT INTO events (id, database_id, name, manifestations, created_at) VALUES (?, ?, ?, ?, ?)");
    reveal_strlit("created_at");
    reveal_strlit("database_id");
    reveal_strlit("events");
    reveal_strlit("id");
    reveal_strlit("manifestations");
    reveal_strlit("name");
    let fields = Fields::Only("id"@, Operand::Given)
        .and("database_id"@, Operand::Given)
        .and("name"@, Operand::Given)
        .and("manifestations"@, Operand::Given)
        .and("created_at"@, Operand::Given);
    let s = spec_store_event(event, database_id, manifestations, now).statement;
    assert(s.sql =~= addition_text("INSERT INTO "@, "events"@, fields));
}

/// The statement of `processed_step` adds a row to `events`, with each value in the column that is
/// meant for it.
pub proof fn law_processed_step_adds(
    id: u128,
    database: u128,
    name: Seq<char>,
    manifestations: Seq<char>,
    now: int,
)
    ensures
        ({
            let fields = Fields::Only("id"@, Operand::Given)
                .and("database_id"@, Operand::Given)
                .and("name"@, Operand::Given)
                .and("manifestations"@, Operand::Given)
                .and("status"@, Operand::Word("processed"@))
                .and("created_at"@, Operand::Given);
            let s = processed_step(id, database, name, manifestations, now).statement;
            &&& s.sql == addition_text("INSERT INTO "@, "events"@, fields)
            &&& s.params.len() == 5
            &&& puts(fields, s.params, "id"@, SqlView::Text(uuid_text(id)))
            &&& puts(fields, s.params, "database_id"@, SqlView::Text(uuid_text(database)))
            &&& puts(fields, s.params, "name"@, SqlView::Text(name))
            &&& puts(fields, s.params, "manifestations"@, SqlView::Text(manifestations))
            &&& puts(fields, s.params, "status"@, SqlView::Text("processed"@))
            &&& puts(fields, s.params, "created_at"@, SqlView::Integer(now))
        }),
{
    reveal_with_fuel(columns_text, 7);
    reveal_with_fuel(values_text, 7);
    reveal_with_fuel(puts, 7);
    reveal_with_fuel(values_put, 7);
    reveal_strlit(" (");
    reveal_strlit("'");
    reveal_strlit(")");
    reveal_strlit(") VALUES (");
    reveal_strlit(", ");
    reveal_strlit("?");
    reveal_strlit("INSERT INTO ");
    reveal_strlit("INSERT INTO events (id, database_id, name, manifestations, status, created_at) VALUES (?, ?, ?, ?, 'processed', ?)");
    reveal_strlit("created_at");
    reveal_strlit("database_id");
    reveal_strlit("events");
    reveal_strlit("id");
    reveal_strlit("manifestations");
    reveal_strlit("name");
    reveal_strlit("processed");
    reveal_strlit("status");
    let fields = Fields::Only("id"@, Operand::Given)
        .and("database_id"@, Operand::Given)
        .and("name"@, Operand::Given)
        .and("manifestations"@, Operand::Given)
        .and("status"@, Operand::Word("processed"@))
        .and("created_at"@, Operand::Given);
    let s = processed_step(id, database, name, manifestations, now).statement;
    assert(s.sql =~= addition_text("INSERT INTO "@, "events"@, fields));
}

/// The statement of `get_unprocessed_events` reads `id`, `name` and `manifestations` of exactly
/// those rows of `events` that are asked for, the first by `created_at` first.
pub proof fn law_get_unprocessed_events_reads(database_id: &DatabaseId, row: Row)
    ensures
        ({
            let met = only("database_id"@, Sign::Is).and_word("status"@, "unprocessed"@);
            let columns = Listed::Only("id"@).and("name"@).and("manifestations"@);
            let s = spec_get_unprocessed_events(database_id);
            &&& s.sql == reading_text(columns, "events"@, met) + " ORDER BY created_at"@
            &&& s.params.len() == 1
            &&& is_met(met, s.params, 0, row) <==> {
                &&& row["database_id"@] == SqlView::Text(uuid_text(database_id.value))
                &&& row["status"@] == SqlView::Text("unprocessed"@)
            }
        }),
{
    reveal_with_fuel(listed_text, 4);
    reveal_with_fuel(conditions_text, 4);
    reveal_with_fuel(is_met, 4);
    reveal_with_fuel(values_taken, 4);
    reveal_strlit("");
    reveal_strlit(" = ");
    reveal_strlit(" AND ");
    reveal_strlit(" FROM ");
    reveal_strlit(" ORDER BY created_at");
    reveal_strlit(" WHERE ");
    reveal_strlit("'");
    reveal_strlit(", ");
    reveal_strlit("?");
    reveal_strlit("SELECT ");
    reveal_strlit("SELECT id, name, manifestations FROM events WHERE database_id = ? AND status = 'unprocessed' ORDER BY created_at");
    reveal_strlit("database_id");
    reveal_strlit("events");
    reveal_strlit("id");
    reveal_strlit("manifestations");
    reveal_strlit("name");
    reveal_strlit("status");
    reveal_strlit("unprocessed");
    let met = only("database_id"@, Sign::Is).and_word("status"@, "unprocessed"@);
    let columns = Listed::Only("id"@).and("name"@).and("manifestations"@);
    let s = spec_get_unprocessed_events(database_id);
    assert(s.sql =~= reading_text(columns, "events"@, met) + " ORDER BY created_at"@);
}

/// The statement of `get_processed_events_queue` reads `id`, `name` and `manifestations` of exactly
/// those rows of `events` that are asked for, the first by `processed_at` first.
pub proof fn law_get_processed_events_queue_reads(database_id: &DatabaseId, row: Row)
    ensures
        ({
            let met = only("database_id"@, Sign::Is).and_word("status"@, "processed"@);
            let columns = Listed::Only("id"@).and("name"@).and("manifestations"@);
            let s = spec_get_processed_events_queue(database_id);
            &&& s.sql == reading_text(columns, "events"@, met) + " ORDER BY processed_at ASC"@
            &&& s.params.len() == 1
            &&& is_met(met, s.params, 0, row) <==> {
                &&& row["database_id"@] == SqlView::Text(uuid_text(database_id.value))
                &&& row["status"@] == SqlView::Text("processed"@)
            }
        }),
{
    reveal_with_fuel(listed_text, 4);
    reveal_with_fuel(conditions_text, 4);
    reveal_with_fuel(is_met, 4);
    reveal_with_fuel(values_taken, 4);
    reveal_strlit("");
    reveal_strlit(" = ");
    reveal_strlit(" AND ");
    reveal_strlit(" FROM ");
    reveal_strlit(" ORDER BY processed_at ASC");
    reveal_strlit(" WHERE ");
    reveal_strlit("'");
    reveal_strlit(", ");
    reveal_strlit("?");
    reveal_strlit("SELECT ");
    reveal_strlit("SELECT id, name, manifestations FROM events WHERE database_id = ? AND status = 'processed' ORDER BY processed_at ASC");
    reveal_strlit("database_id");
    reveal_strlit("events");
    reveal_strlit("id");
    reveal_strlit("manifestations");
    reveal_strlit("name");
    reveal_strlit("processed");
    reveal_strlit("status");
    let met = only("database_id"@, Sign::Is).and_word("status"@, "processed"@);
    let columns = Listed::Only("id"@).and("name"@).and("manifestations"@);
    let s = spec_get_processed_events_queue(database_id);
    assert(s.sql =~= reading_text(columns, "events"@, met) + " ORDER BY processed_at ASC"@);
}

/// The statement of `get_event_stats` reads `status` and `COUNT(*) as count` of exactly those rows
/// of `events` that are asked for, counted by their `status`.
pub proof fn law_get_event_stats_reads(database_id: &DatabaseId, row: Row)
    ensures
        ({
            let met = only("database_id"@, Sign::Is);
            let columns = Listed::Only("status"@).and("COUNT(*) as count"@);
            let s = spec_get_event_stats(database_id);
            &&& s.sql == reading_text(columns, "events"@, met) + " GROUP BY status"@
            &&& s.params.len() == 1
            &&& is_met(met, s.params, 0, row) <==> row["database_id"@] == SqlView::Text(uuid_text(database_id.value))
        }),
{
    reveal_with_fuel(listed_text, 3);
    reveal_with_fuel(conditions_text, 3);
    reveal_with_fuel(is_met, 3);
    reveal_with_fuel(values_taken, 3);
    reveal_strlit("");
    reveal_strlit(" = ");
    reveal_strlit(" FROM ");
    reveal_strlit(" GROUP BY status");
    reveal_strlit(" WHERE ");
    reveal_strlit(", ");
    reveal_strlit("?");
    reveal_strlit("COUNT(*) as count");
    reveal_strlit("SELECT ");
    reveal_strlit("SELECT status, COUNT(*) as count FROM events WHERE database_id = ? GROUP BY status");
    reveal_strlit("database_id");
    reveal_strlit("events");
    reveal_strlit("status");
    let met = only("database_id"@, Sign::Is);
    let columns = Listed::Only("status"@).and("COUNT(*) as count"@);
    let s = spec_get_event_stats(database_id);
    assert(s.sql =~= reading_text(columns, "events"@, met) + " GROUP BY status"@);
}

/// The statement of `mark_step` puts what is given into `status` and `processed_at` of exactly
/// those rows of `events` that are meant.
pub proof fn law_mark_step_changes(id: u128, now: int, row: Row)
    ensures
        ({
            let fields = Fields::Only("status"@, Operand::Word("processed"@))
                .and("processed_at"@, Operand::Given);
            let met = only("id"@, Sign::Is).and_word("status"@, "unprocessed"@);
            let s = mark_step(id, now).statement;
            &&& s.sql == change_text("events"@, fields, met)
            &&& s.params.len() == 2
            &&& puts(fields, s.params, "status"@, SqlView::Text("processed"@))
            &&& puts(fields, s.params, "processed_at"@, SqlView::Integer(now))
            &&& is_met(met, s.params, 1, row) <==> {
                &&& row["id"@] == SqlView::Text(uuid_text(id))
                &&& row["status"@] == SqlView::Text("unprocessed"@)
            }
        }),
{
    reveal_with_fuel(settings_text, 3);
    reveal_with_fuel(puts, 3);
    reveal_with_fuel(values_put, 3);
    reveal_with_fuel(conditions_text, 4);
    reveal_with_fuel(is_met, 4);
    reveal_with_fuel(values_taken, 4);
    reveal_strlit("");
    reveal_strlit(" = ");
    reveal_strlit(" AND ");
    reveal_strlit(" SET ");
    reveal_strlit(" WHERE ");
    reveal_strlit("'");
    reveal_strlit(", ");
    reveal_strlit("?");
    reveal_strlit("UPDATE ");
    reveal_strlit("UPDATE events SET status = 'processed', processed_at = ? WHERE id = ? AND status = 'unprocessed'");
    reveal_strlit("events");
    reveal_strlit("id");
    reveal_strlit("processed");
    reveal_strlit("processed_at");
    reveal_strlit("status");
    reveal_strlit("unprocessed");
    let fields = Fields::Only("status"@, Operand::Word("processed"@)).and("processed_at"@, Operand::Given);
    let met = only("id"@, Sign::Is).and_word("status"@, "unprocessed"@);
    let s = mark_step(id, now).statement;
    assert(s.sql =~= change_text("events"@, fields, met));
}

/// The statement of `cleanup_step` takes exactly those rows of `events` away that are meant.
pub proof fn law_cleanup_step_removes(database: u128, before: int, row: Row)
    ensures
        ({
            let met = only("database_id"@, Sign::Is)
                .and_word("status"@, "processed"@)
                .and("processed_at"@, Sign::Below);
            let s = cleanup_step(database, before).statement;
            &&& s.sql == removal_text("events"@, met)
            &&& s.params.len() == 2
            &&& is_met(met, s.params, 0, row) <==> {
                &&& row["database_id"@] == SqlView::Text(uuid_text(database))
                &&& row["status"@] == SqlView::Text("processed"@)
                &&& row["processed_at"@] is Integer
                &&& row["processed_at"@]->Integer_0 < before
            }
        }),
{
    reveal_with_fuel(conditions_text, 5);
    reveal_with_fuel(is_met, 5);
    reveal_with_fuel(values_taken, 5);
    reveal_strlit("");
    reveal_strlit(" < ");
    reveal_strlit(" = ");
    reveal_strlit(" AND ");
    reveal_strlit(" WHERE ");
    reveal_strlit("'");
    reveal_strlit("?");
    reveal_strlit("DELETE FROM ");
    reveal_strlit("DELETE FROM events WHERE database_id = ? AND status = 'processed' AND processed_at < ?");
    reveal_strlit("database_id");
    reveal_strlit("events");
    reveal_strlit("processed");
    reveal_strlit("processed_at");
    reveal_strlit("status");
    let met = only("database_id"@, Sign::Is)
        .and_word("status"@, "processed"@)
        .and("processed_at"@, Sign::Below);
    let s = cleanup_step(database, before).statement;
    assert(s.sql =~= removal_text("events"@, met));
}

/// The statement of `cleanup_all_processed_events` takes exactly those rows of `events` away that
/// are meant.
pub proof fn law_cleanup_all_processed_events_removes(database_id: &DatabaseId, row: Row)
    ensures
        ({
            let met = only("database_id"@, Sign::Is).and_word("status"@, "processed"@);
            let s = spec_cleanup_all_processed_events(database_id).statement;
            &&& s.sql == removal_text("events"@, met)
            &&& s.params.len() == 1
            &&& is_met(met, s.params, 0, row) <==> {
                &&& row["database_id"@] == SqlView::Text(uuid_text(database_id.value))
                &&& row["status"@] == SqlView::Text("processed"@)
            }
        }),
{
    reveal_with_fuel(conditions_text, 4);
    reveal_with_fuel(is_met, 4);
    reveal_with_fuel(values_taken, 4);
    reveal_strlit("");
    reveal_strlit(" = ");
    reveal_strlit(" AND ");
    reveal_strlit(" WHERE ");
    reveal_strlit("'");
    reveal_strlit("?");
    reveal_strlit("DELETE FROM ");
    reveal_strlit("DELETE FROM events WHERE database_id = ? AND status = 'processed'");
    reveal_strlit("database_id");
    reveal_strlit("events");
    reveal_strlit("processed");
    reveal_strlit("status");
    let met = only("database_id"@, Sign::Is).and_word("status"@, "processed"@);
    let s = spec_cleanup_all_processed_events(database_id).statement;
    assert(s.sql =~= removal_text("events"@, met));
}

/// The statement of `clear_processed_events_queue` takes exactly those rows of `events` away that
/// are meant.
pub proof fn law_clear_processed_events_queue_removes(database_id: &DatabaseId, row: Row)
    ensures
        ({
            let met = only("database_id"@, Sign::Is).and_word("status"@, "processed"@);
            let s = spec_clear_processed_events_queue(database_id).statement;
            &&& s.sql == removal_text("events"@, met)
            &&& s.params.len() == 1
            &&& is_met(met, s.params, 0, row) <==> {
                &&& row["database_id"@] == SqlView::Text(uuid_text(database_id.value))
                &&& row["status"@] == SqlView::Text("processed"@)
            }
        }),
{
    reveal_with_fuel(conditions_text, 4);
    reveal_with_fuel(is_met, 4);
    reveal_with_fuel(values_taken, 4);
    reveal_strlit("");
    reveal_strlit(" = ");
    reveal_strlit(" AND ");
    reveal_strlit(" WHERE ");
    reveal_strlit("'");
    reveal_strlit("?");
    reveal_strlit("DELETE FROM ");
    reveal_strlit("DELETE FROM events WHERE database_id = ? AND status = 'processed'");
    reveal_strlit("database_id");
    reveal_strlit("events");
    reveal_strlit("processed");
    reveal_strlit("status");
    let met = only("database_id"@, Sign::Is).and_word("status"@, "processed"@);
    let s = spec_clear_processed_events_queue(database_id).statement;
    assert(s.sql =~= removal_text("events"@, met));
}

/// The statement of `clear_all_events` takes exactly those rows of `events` away that are meant.
pub proof fn law_clear_all_events_removes(database_id: &DatabaseId, row: Row)
    ensures
        ({
            let met = only("database_id"@, Sign::Is);
            let s = spec_clear_all_events(database_id).statement;
            &&& s.sql == removal_text("events"@, met)
            &&& s.params.len() == 1
            &&& is_met(met, s.params, 0, row) <==> row["database_id"@] == SqlView::Text(uuid_text(database_id.value))
        }),
{
    reveal_with_fuel(conditions_text, 3);
    reveal_with_fuel(is_met, 3);
    reveal_with_fuel(values_taken, 3);
    reveal_strlit("");
    reveal_strlit(" = ");
    reveal_strlit(" WHERE ");
    reveal_strlit("?");
    reveal_strlit("DELETE FROM ");
    reveal_strlit("DELETE FROM events WHERE database_id = ?");
    reveal_strlit("database_id");
    reveal_strlit("events");
    let met = only("database_id"@, Sign::Is);
    let s = spec_clear_all_events(database_id).statement;
    assert(s.sql =~= removal_text("events"@, met));
}

/// The statement of `dequeue_step` takes exactly those rows of `events` away that are meant.
pub proof fn law_dequeue_step_removes(id: u128, row: Row)
    ensures
        ({
            let met = only("id"@, Sign::Is).and_word("status"@, "processed"@);
            let s = dequeue_step(id).statement;
            &&& s.sql == removal_text("events"@, met)
            &&& s.params.len() == 1
            &&& is_met(met, s.params, 0, row) <==> {
                &&& row["id"@] == SqlView::Text(uuid_text(id))
                &&& row["status"@] == SqlView::Text("processed"@)
            }
        }),
{
    reveal_with_fuel(conditions_text, 4);
    reveal_with_fuel(is_met, 4);
    reveal_with_fuel(values_taken, 4);
    reveal_strlit("");
    reveal_strlit(" = ");
    reveal_strlit(" AND ");
    reveal_strlit(" WHERE ");
    reveal_strlit("'");
    reveal_strlit("?");
    reveal_strlit("DELETE FROM ");
    reveal_strlit("DELETE FROM events WHERE id = ? AND status = 'processed'");
    reveal_strlit("events");
    reveal_strlit("id");
    reveal_strlit("processed");
    reveal_strlit("status");
    let met = only("id"@, Sign::Is).and_word("status"@, "processed"@);
    let s = dequeue_step(id).statement;
    assert(s.sql =~= removal_text("events"@, met));
}

}
