//! What the statements on the stored events read, add, change and take away.
use crate::event::Event;
use crate::ids::{uuid_text, DatabaseId, EventID};
use crate::laws::statements::{
    addition_text,
    columns_text,
    conditions_text,
    is_met,
    listed_text,
    only,
    puts,
    reading_text,
    removal_text,
    values_put,
    values_taken,
    values_text,
    Conditions,
    Fields,
    Listed,
    Operand,
    Row,
    Sign,
};
use crate::sql::SqlView;
use crate::store::events::{
    described,
    event_step,
    manifestation_steps,
    spec_cleanup_staged_events,
    spec_clear_events,
    spec_clear_staged_events,
    spec_event_ids_query,
    spec_event_query,
    spec_insert_event,
    spec_manifestations_query,
    spec_remove_event,
    spec_remove_staged_event,
    EventStage,
};
use crate::time::Timestamp;
use vstd::prelude::*;

verus! {

/// The statement of `insert_event` adds a row to `events`, with each value in the column that is
/// meant for it.
pub proof fn law_insert_event_adds(
    event: &Event,
    database_id: &DatabaseId,
    manifestations: &str,
    now: i64,
)
    ensures
        ({
            let fields = Fields::Only("id"@, Operand::Given)
                .and("database_id"@, Operand::Given)
                .and("name"@, Operand::Given)
                .and("manifestations"@, Operand::Given)
                .and("created_at"@, Operand::Given);
            let s = spec_insert_event(event, database_id, manifestations, now).statement;
            &&& s.sql == addition_text("INSERT INTO "@, "events"@, fields)
            &&& s.params.len() == 5
            &&& puts(fields, s.params, "id"@, SqlView::Text(uuid_text(event.id.value)))
            &&& puts(fields, s.params, "database_id"@, SqlView::Text(uuid_text(database_id.value)))
            &&& puts(fields, s.params, "name"@, SqlView::Text(event.name@))
            &&& puts(fields, s.params, "manifestations"@, SqlView::Text(manifestations@))
            &&& puts(fields, s.params, "created_at"@, SqlView::Integer(now as int))
        }),
{
    reveal_with_fuel(columns_text, 6);
    reveal_with_fuel(values_text, 6);
    reveal_with_fuel(puts, 6);
    reveal_with_fuel(values_put, 6);
    reveal_strlit(" (");
    reveal_strlit(")");
    reveal_strlit(") VALUES (");
    reveal_strlit(", ");
    reveal_strlit("?");
    reveal_strlit("INSERT INTO ");
    reveal_strlit("INSERT INTO events (id, database_id, name, manifestations, created_at) VALUES (?, ?, ?, ?, ?)");
    reveal_strlit("created_at");
    reveal_strlit("database_id");
    reveal_strlit("events");
    reveal_strlit("id");
    reveal_strlit("manifestations");
    reveal_strlit("name");
    let fields = Fields::Only("id"@, Operand::Given)
        .and("database_id"@, Operand::Given)
        .and("name"@, Operand::Given)
        .and("manifestations"@, Operand::Given)
        .and("created_at"@, Operand::Given);
    let s = spec_insert_event(event, database_id, manifestations, now).statement;
    assert(s.sql =~= addition_text("INSERT INTO "@, "events"@, fields));
}

/// The statement of `remove_event` takes exactly those rows of `events` away that are meant.
pub proof fn law_remove_event_removes(event_id: &EventID, row: Row)
    ensures
        ({
            let met = only("id"@, Sign::Is);
            let s = spec_remove_event(event_id).statement;
            &&& s.sql == removal_text("events"@, met)
            &&& s.params.len() == 1
            &&& is_met(met, s.params, 0, row) <==> row["id"@] == SqlView::Text(uuid_text(event_id.value))
        }),
{
    reveal_with_fuel(conditions_text, 3);
    reveal_with_fuel(is_met, 3);
    reveal_with_fuel(values_taken, 3);
    reveal_strlit("");
    reveal_strlit(" = ");
    reveal_strlit(" WHERE ");
    reveal_strlit("?");
    reveal_strlit("DELETE FROM ");
    reveal_strlit("DELETE FROM events WHERE id = ?");
    reveal_strlit("events");
    reveal_strlit("id");
    let met = only("id"@, Sign::Is);
    let s = spec_remove_event(event_id).statement;
    assert(s.sql =~= removal_text("events"@, met));
}

/// The statement of `clear_events` takes every row of `events` away.
pub proof fn law_clear_events_removes()
    ensures
        ({
            let met = Conditions::Always;
            let s = spec_clear_events().statement;
            &&& s.sql == removal_text("events"@, met)
            &&& s.params.len() == 0
        }),
{
    reveal_with_fuel(conditions_text, 2);
    reveal_strlit("");
    reveal_strlit("DELETE FROM ");
    reveal_strlit("DELETE FROM events");
    reveal_strlit("events");
    let met = Conditions::Always;
    let s = spec_clear_events().statement;
    assert(s.sql =~= removal_text("events"@, met));
}

/// A step of `manifestation_steps` adds a row to `event_manifestations`, with each value in the
/// column that is meant for it.
pub proof fn law_manifestation_steps_adds(event: Event, stage: EventStage, i: int)
    requires
        0 <= i < event.manifestations.entries@.len(),
    ensures
        ({
            let fields = Fields::Only("id"@, Operand::Given)
                .and("event_id"@, Operand::Given)
                .and("dataset_id"@, Operand::Given)
                .and("start_timestamp"@, Operand::Given)
                .and("end_timestamp"@, Operand::Given);
            let s = manifestation_steps(event, stage)[i].statement;
            &&& s.sql == addition_text("INSERT INTO "@, "event_manifestations"@, fields)
            &&& s.params.len() == 5
            &&& puts(fields, s.params, "id"@, SqlView::Text(uuid_text((event.manifestations.entries@[i]).key)))
            &&& puts(fields, s.params, "event_id"@, SqlView::Text(uuid_text(event.id.value)))
            &&& puts(fields, s.params, "dataset_id"@, SqlView::Text(uuid_text((event.manifestations.entries@[i]).value.dataset_id.value)))
            &&& puts(fields, s.params, "start_timestamp"@, SqlView::Integer((event.manifestations.entries@[i]).value.start.spec_millis()))
            &&& puts(fields, s.params, "end_timestamp"@, SqlView::Integer((event.manifestations.entries@[i]).value.end.spec_millis()))
        }),
{
    reveal_with_fuel(columns_text, 6);
    reveal_with_fuel(values_text, 6);
    reveal_with_fuel(puts, 6);
    reveal_with_fuel(values_put, 6);
    reveal_strlit(" (");
    reveal_strlit(")");
    reveal_strlit(") VALUES (");
    reveal_strlit(", ");
    reveal_strlit("?");
    reveal_strlit("INSERT INTO ");
    reveal_strlit("INSERT INTO event_manifestations (id, event_id, dataset_id, start_timestamp, end_timestamp) VALUES (?, ?, ?, ?, ?)");
    reveal_strlit("dataset_id");
    reveal_strlit("end_timestamp");
    reveal_strlit("event_id");
    reveal_strlit("event_manifestations");
    reveal_strlit("id");
    reveal_strlit("start_timestamp");
    let fields = Fields::Only("id"@, Operand::Given)
        .and("event_id"@, Operand::Given)
        .and("dataset_id"@, Operand::Given)
        .and("start_timestamp"@, Operand::Given)
        .and("end_timestamp"@, Operand::Given);
    let s = manifestation_steps(event, stage)[i].statement;
    assert(s.sql =~= addition_text("INSERT INTO "@, "event_manifestations"@, fields));
}

/// The statement of `event_step` adds a row to `events`, with each value in the column that is
/// meant for it.
pub proof fn law_event_step_adds(event: Event, stage: EventStage, now: int)
    ensures
        ({
            let fields = Fields::Only("id"@, Operand::Given)
                .and("name"@, Operand::Given)
                .and("description"@, Operand::Given)
                .and("created_at"@, Operand::Given);
            let s = event_step(event, stage, now).statement;
            &&& s.sql == addition_text("INSERT INTO "@, "events"@, fields)
            &&& s.params.len() == 4
            &&& puts(fields, s.params, "id"@, SqlView::Text(uuid_text(event.id.value)))
            &&& puts(fields, s.params, "name"@, SqlView::Text(event.name@))
            &&& puts(fields, s.params, "description"@, SqlView::Text(described(event.description)))
            &&& puts(fields, s.params, "created_at"@, SqlView::Integer(now))
        }),
{
    reveal_with_fuel(columns_text, 5);
    reveal_with_fuel(values_text, 5);
    reveal_with_fuel(puts, 5);
    reveal_with_fuel(values_put, 5);
    reveal_strlit(" (");
    reveal_strlit(")");
    reveal_strlit(") VALUES (");
    reveal_strlit(", ");
    reveal_strlit("?");
    reveal_strlit("INSERT INTO ");
    reveal_strlit("INSERT INTO events (id, name, description, created_at) VALUES (?, ?, ?, ?)");
    reveal_strlit("created_at");
    reveal_strlit("description");
    reveal_strlit("events");
    reveal_strlit("id");
    reveal_strlit("name");
    let fields = Fields::Only("id"@, Operand::Given)
        .and("name"@, Operand::Given)
        .and("description"@, Operand::Given)
        .and("created_at"@, Operand::Given);
    let s = event_step(event, stage, now).statement;
    assert(s.sql =~= addition_text("INSERT INTO "@, "events"@, fields));
}

/// The first step of `remove_staged_event` takes exactly those rows of `event_manifestations` away
/// that are meant.
pub proof fn law_remove_staged_event_removes_first(event_id: &EventID, stage: EventStage, row: Row)
    ensures
        ({
            let met = only("event_id"@, Sign::Is);
            let s = spec_remove_staged_event(event_id, stage)[0].statement;
            &&& s.sql == removal_text("event_manifestations"@, met)
            &&& s.params.len() == 1
            &&& is_met(met, s.params, 0, row) <==> row["event_id"@] == SqlView::Text(uuid_text(event_id.value))
        }),
{
    reveal_with_fuel(conditions_text, 3);
    reveal_with_fuel(is_met, 3);
    reveal_with_fuel(values_taken, 3);
    reveal_strlit("");
    reveal_strlit(" = ");
    reveal_strlit(" WHERE ");
    reveal_strlit("?");
    reveal_strlit("DELETE FROM ");
    reveal_strlit("DELETE FROM event_manifestations WHERE event_id = ?");
    reveal_strlit("event_id");
    reveal_strlit("event_manifestations");
    let met = only("event_id"@, Sign::Is);
    let s = spec_remove_staged_event(event_id, stage)[0].statement;
    assert(s.sql =~= removal_text("event_manifestations"@, met));
}

/// The second step of `remove_staged_event` takes exactly those rows of `events` away that are
/// meant.
pub proof fn law_remove_staged_event_removes_second(event_id: &EventID, stage: EventStage, row: Row)
    ensures
        ({
            let met = only("id"@, Sign::Is);
            let s = spec_remove_staged_event(event_id, stage)[1].statement;
            &&& s.sql == removal_text("events"@, met)
            &&& s.params.len() == 1
            &&& is_met(met, s.params, 0, row) <==> row["id"@] == SqlView::Text(uuid_text(event_id.value))
        }),
{
    reveal_with_fuel(conditions_text, 3);
    reveal_with_fuel(is_met, 3);
    reveal_with_fuel(values_taken, 3);
    reveal_strlit("");
    reveal_strlit(" = ");
    reveal_strlit(" WHERE ");
    reveal_strlit("?");
    reveal_strlit("DELETE FROM ");
    reveal_strlit("DELETE FROM events WHERE id = ?");
    reveal_strlit("events");
    reveal_strlit("id");
    let met = only("id"@, Sign::Is);
    let s = spec_remove_staged_event(event_id, stage)[1].statement;
    assert(s.sql =~= removal_text("events"@, met));
}

/// The first step of `clear_staged_events` takes every row of `event_manifestations` away.
pub proof fn law_clear_staged_events_removes_first(stage: EventStage)
    ensures
        ({
            let met = Conditions::Always;
            let s = spec_clear_staged_events(stage)[0].statement;
            &&& s.sql == removal_text("event_manifestations"@, met)
            &&& s.params.len() == 0
        }),
{
    reveal_with_fuel(conditions_text, 2);
    reveal_strlit("");
    reveal_strlit("DELETE FROM ");
    reveal_strlit("DELETE FROM event_manifestations");
    reveal_strlit("event_manifestations");
    let met = Conditions::Always;
    let s = spec_clear_staged_events(stage)[0].statement;
    assert(s.sql =~= removal_text("event_manifestations"@, met));
}

/// The second step of `clear_staged_events` takes every row of `events` away.
pub proof fn law_clear_staged_events_removes_second(stage: EventStage)
    ensures
        ({
            let met = Conditions::Always;
            let s = spec_clear_staged_events(stage)[1].statement;
            &&& s.sql == removal_text("events"@, met)
            &&& s.params.len() == 0
        }),
{
    reveal_with_fuel(conditions_text, 2);
    reveal_strlit("");
    reveal_strlit("DELETE FROM ");
    reveal_strlit("DELETE FROM events");
    reveal_strlit("events");
    let met = Conditions::Always;
    let s = spec_clear_staged_events(stage)[1].statement;
    assert(s.sql =~= removal_text("events"@, met));
}

/// The statement of `cleanup_staged_events` takes exactly those rows of `events` away that are
/// meant.
pub proof fn law_cleanup_staged_events_removes(older_than: &Timestamp, stage: EventStage, row: Row)
    ensures
        ({
            let met = only("created_at"@, Sign::Below);
            let s = spec_cleanup_staged_events(older_than, stage).statement;
            &&& s.sql == removal_text("events"@, met)
            &&& s.params.len() == 1
            &&& is_met(met, s.params, 0, row) <==> {
                &&& row["created_at"@] is Integer
                &&& row["created_at"@]->Integer_0 < older_than.spec_millis()
            }
        }),
{
    reveal_with_fuel(conditions_text, 3);
    reveal_with_fuel(is_met, 3);
    reveal_with_fuel(values_taken, 3);
    reveal_strlit("");
    reveal_strlit(" < ");
    reveal_strlit(" WHERE ");
    reveal_strlit("?");
    reveal_strlit("DELETE FROM ");
    reveal_strlit("DELETE FROM events WHERE created_at < ?");
    reveal_strlit("created_at");
    reveal_strlit("events");
    let met = only("created_at"@, Sign::Below);
    let s = spec_cleanup_staged_events(older_than, stage).statement;
    assert(s.sql =~= removal_text("events"@, met));
}

/// The statement of `event_query` reads `id`, `name` and `description` of exactly those rows of
/// `events` that are asked for.
pub proof fn law_event_query_reads(event_id: &EventID, row: Row)
    ensures
        ({
            let met = only("id"@, Sign::Is);
            let columns = Listed::Only("id"@).and("name"@).and("description"@);
            let s = spec_event_query(event_id);
            &&& s.sql == reading_text(columns, "events"@, met)
            &&& s.params.len() == 1
            &&& is_met(met, s.params, 0, row) <==> row["id"@] == SqlView::Text(uuid_text(event_id.value))
        }),
{
    reveal_with_fuel(listed_text, 4);
    reveal_with_fuel(conditions_text, 3);
    reveal_with_fuel(is_met, 3);
    reveal_with_fuel(values_taken, 3);
    reveal_strlit("");
    reveal_strlit(" = ");
    reveal_strlit(" FROM ");
    reveal_strlit(" WHERE ");
    reveal_strlit(", ");
    reveal_strlit("?");
    reveal_strlit("SELECT ");
    reveal_strlit("SELECT id, name, description FROM events WHERE id = ?");
    reveal_strlit("description");
    reveal_strlit("events");
    reveal_strlit("id");
    reveal_strlit("name");
    let met = only("id"@, Sign::Is);
    let columns = Listed::Only("id"@).and("name"@).and("description"@);
    let s = spec_event_query(event_id);
    assert(s.sql =~= reading_text(columns, "events"@, met));
}

/// The statement of `event_ids_query` reads `id` of every row of `events`.
pub proof fn law_event_ids_query_reads()
    ensures
        ({
            let met = Conditions::Always;
            let columns = Listed::Only("id"@);
            let s = spec_event_ids_query();
            &&& s.sql == reading_text(columns, "events"@, met)
            &&& s.params.len() == 0
        }),
{
    reveal_with_fuel(listed_text, 2);
    reveal_with_fuel(conditions_text, 2);
    reveal_strlit("");
    reveal_strlit(" FROM ");
    reveal_strlit("SELECT ");
    reveal_strlit("SELECT id FROM events");
    reveal_strlit("events");
    reveal_strlit("id");
    let met = Conditions::Always;
    let columns = Listed::Only("id"@);
    let s = spec_event_ids_query();
    assert(s.sql =~= reading_text(columns, "events"@, met));
}

/// The statement of `manifestations_query` reads `id`, `event_id`, `dataset_id`, `start_timestamp`
/// and `end_timestamp` of exactly those rows of `event_manifestations` that are asked for.
pub proof fn law_manifestations_query_reads(event_id: &EventID, row: Row)
    ensures
        ({
            let met = only("event_id"@, Sign::Is);
            let columns = Listed::Only("id"@)
                .and("event_id"@)
                .and("dataset_id"@)
                .and("start_timestamp"@)
                .and("end_timestamp"@);
            let s = spec_manifestations_query(event_id);
            &&& s.sql == reading_text(columns, "event_manifestations"@, met)
            &&& s.params.len() == 1
            &&& is_met(met, s.params, 0, row) <==> row["event_id"@] == SqlView::Text(uuid_text(event_id.value))
        }),
{
    reveal_with_fuel(listed_text, 6);
    reveal_with_fuel(conditions_text, 3);
    reveal_with_fuel(is_met, 3);
    reveal_with_fuel(values_taken, 3);
    reveal_strlit("");
    reveal_strlit(" = ");
    reveal_strlit(" FROM ");
    reveal_strlit(" WHERE ");
    reveal_strlit(", ");
    reveal_strlit("?");
    reveal_strlit("SELECT ");
    reveal_strlit("SELECT id, event_id, dataset_id, start_timestamp, end_timestamp FROM event_manifestations WHERE event_id = ?");
    reveal_strlit("dataset_id");
    reveal_strlit("end_timestamp");
    reveal_strlit("event_id");
    reveal_strlit("event_manifestations");
    reveal_strlit("id");
    reveal_strlit("start_timestamp");
    let met = only("event_id"@, Sign::Is);
    let columns = Listed::Only("id"@)
        .and("event_id"@)
        .and("dataset_id"@)
        .and("start_timestamp"@)
        .and("end_timestamp"@);
    let s = spec_manifestations_query(event_id);
    assert(s.sql =~= reading_text(columns, "event_manifestations"@, met));
}

}
