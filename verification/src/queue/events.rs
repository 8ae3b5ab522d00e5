//! The queue of events.
use crate::columns::{
    any_text_column,
    bad_json,
    bad_uuid,
    no_text,
    or,
    plain_uuid,
    refusal,
    tells,
    text_in,
};
use crate::error::Error;
use crate::event::{Event, Manifestations};
use crate::ids::{uuid_parse, uuid_text, DatabaseId, EventID};
use crate::names::name_views;
use crate::queue::model::{
    lasts,
    left_rows,
    lemma_deleted,
    lemma_lasts,
    lemma_picked,
    marked_rows,
    met_rows,
    told,
    QueuedRow,
};
use crate::queue::{cutoff, one_id, rows_matched, DAY_SECONDS};
use crate::sql::{
    chunk,
    chunk_count,
    statement,
    text_value,
    value_views,
    SqlValue,
    SqlView,
    Statement,
    StatementView,
};
use crate::text::join;
use crate::time::{Timestamp, MAX_SECONDS, MIN_SECONDS};
use crate::transaction::{
    in_transactions,
    rolled_back,
    rolling_back,
    step,
    step_views,
    transaction_views,
    OnFailure,
    Step,
    StepView,
};
use vstd::prelude::*;

verus! {

/// The number of events that are written in one transaction.
pub const EVENT_CHUNK_SIZE: usize = 100;

/// The columns of an event.
pub open spec fn event_columns(
    id: u128,
    database: u128,
    name: Seq<char>,
    manifestations: Seq<char>,
    now: int,
) -> Seq<SqlView> {
    seq![
        SqlView::Text(uuid_text(id)),
        SqlView::Text(uuid_text(database)),
        SqlView::Text(name),
        SqlView::Text(manifestations),
        SqlView::Integer(now),
    ]
}

fn event_values(event: &Event, database_id: &DatabaseId, manifestations: &str, now: i64) -> (r: Vec<
    SqlValue,
>)
    ensures
        value_views(r@) == event_columns(
            event.id.value,
            database_id.value,
            event.name@,
            manifestations@,
            now as int,
        ),
{
    let mut r: Vec<SqlValue> = Vec::new();
    r.push(text_value(event.id.text().as_str()));
    r.push(text_value(database_id.text().as_str()));
    r.push(text_value(event.name.as_str()));
    r.push(text_value(manifestations));
    r.push(SqlValue::Integer(now));
    assert(value_views(r@) =~= event_columns(
        event.id.value,
        database_id.value,
        event.name@,
        manifestations@,
        now as int,
    ));
    r
}

/// The step of [`store_event`].
pub open spec fn spec_store_event(
    event: &Event,
    database_id: &DatabaseId,
    manifestations: &str,
    now: i64,
) -> StepView {
    rolled_back(
        "INSERT INTO events (id, database_id, name, manifestations, created_at) VALUES (?, ?, ?, ?, ?)"@,
        event_columns(
            event.id.value,
            database_id.value,
            event.name@,
            manifestations@,
            now as int,
        ),
        "Failed to insert event: "@,
    )
}

/// How an event is put into the queue; its manifestations are given as a text.
pub fn store_event(event: &Event, database_id: &DatabaseId, manifestations: &str, now: i64) -> (r:
    Step)
    ensures
        r@ == spec_store_event(event, database_id, manifestations, now),
{
    rolling_back(
        "INSERT INTO events (id, database_id, name, manifestations, created_at) VALUES (?, ?, ?, ?, ?)",
        event_values(event, database_id, manifestations, now),
        "Failed to insert event: ",
    )
}

/// The step that writes a processed event among others.
pub open spec fn processed_step(
    id: u128,
    database: u128,
    name: Seq<char>,
    manifestations: Seq<char>,
    now: int,
) -> StepView {
    StepView {
        statement: StatementView {
            sql: "INSERT INTO events (id, database_id, name, manifestations, status, created_at) VALUES (?, ?, ?, ?, 'processed', ?)"@,
            params: event_columns(id, database, name, manifestations, now),
        },
        complaint: "Failed to insert event in transaction: "@,
        on_failure: OnFailure::RollBackQuietly,
    }
}

/// The steps that write processed events; the instant of each is given.
pub open spec fn processed_steps(
    events: Seq<Event>,
    database: u128,
    manifestations: Seq<Seq<char>>,
    nows: Seq<i64>,
) -> Seq<StepView> {
    Seq::new(
        events.len(),
        |i: int|
            processed_step(
                events[i].id.value,
                database,
                events[i].name@,
                manifestations[i],
                nows[i] as int,
            ),
    )
}

/// How processed events are written: in several transactions, one after the other.
pub fn store_events(
    events: &Vec<Event>,
    database_id: &DatabaseId,
    manifestations: &Vec<String>,
    nows: &Vec<i64>,
) -> (r: Vec<Vec<Step>>)
    requires
        manifestations.len() == events.len(),
        nows.len() == events.len(),
    ensures
        transaction_views(r@) == Seq::new(
            chunk_count(events@.len(), EVENT_CHUNK_SIZE as nat),
            |k: int|
                chunk(
                    processed_steps(
                        events@,
                        database_id.value,
                        name_views(manifestations@),
                        nows@,
                    ),
                    EVENT_CHUNK_SIZE as nat,
                    k,
                ),
        ),
{
    let ghost wanted = processed_steps(
        events@,
        database_id.value,
        name_views(manifestations@),
        nows@,
    );
    let mut steps: Vec<Step> = Vec::new();
    let mut i: usize = 0;
    while i < events.len()
        invariant
            i <= events.len(),
            manifestations.len() == events.len(),
            nows.len() == events.len(),
            steps.len() == i,
            wanted == processed_steps(
                events@,
                database_id.value,
                name_views(manifestations@),
                nows@,
            ),
            forall|k: int| 0 <= k < i ==> (#[trigger] steps@[k])@ == wanted[k],
        decreases events.len() - i,
    {
        let params = event_values(
            &events[i],
            database_id,
            manifestations[i].as_str(),
            nows[i],
        );
        assert(name_views(manifestations@)[i as int] == manifestations@[i as int]@);
        steps.push(
            step(
                statement(
                    "INSERT INTO events (id, database_id, name, manifestations, status, created_at) VALUES (?, ?, ?, ?, 'processed', ?)",
                    params,
                ),
                "Failed to insert event in transaction: ",
                OnFailure::RollBackQuietly,
            ),
        );
        i += 1;
    }
    assert(step_views(steps@) =~= wanted);
    in_transactions(steps, EVENT_CHUNK_SIZE)
}

fn of_database(sql: &str, database_id: &DatabaseId) -> (r: Statement)
    ensures
        r@ == (StatementView {
            sql: sql@,
            params: seq![SqlView::Text(uuid_text(database_id.value))],
        }),
{
    statement(sql, one_id(database_id.value))
}

/// The statement of [`get_unprocessed_events`].
pub open spec fn spec_get_unprocessed_events(database_id: &DatabaseId) -> StatementView {
    StatementView {
        sql: "SELECT id, name, manifestations FROM events WHERE database_id = ? AND status = 'unprocessed' ORDER BY created_at"@,
        params: seq![SqlView::Text(uuid_text(database_id.value))],
    }
}

/// The query for the events that wait to be processed, the oldest first.
pub fn get_unprocessed_events(database_id: &DatabaseId) -> (r: Statement)
    ensures
        r@ == spec_get_unprocessed_events(database_id),
{
    of_database(
        "SELECT id, name, manifestations FROM events WHERE database_id = ? AND status = 'unprocessed' ORDER BY created_at",
        database_id,
    )
}

/// The statement of [`get_processed_events_queue`].
pub open spec fn spec_get_processed_events_queue(database_id: &DatabaseId) -> StatementView {
    StatementView {
        sql: "SELECT id, name, manifestations FROM events WHERE database_id = ? AND status = 'processed' ORDER BY processed_at ASC"@,
        params: seq![SqlView::Text(uuid_text(database_id.value))],
    }
}

/// The query for the processed events, the oldest first.
pub fn get_processed_events_queue(database_id: &DatabaseId) -> (r: Statement)
    ensures
        r@ == spec_get_processed_events_queue(database_id),
{
    of_database(
        "SELECT id, name, manifestations FROM events WHERE database_id = ? AND status = 'processed' ORDER BY processed_at ASC",
        database_id,
    )
}

/// The statement of [`get_event_stats`].
pub open spec fn spec_get_event_stats(database_id: &DatabaseId) -> StatementView {
    StatementView {
        sql: "SELECT status, COUNT(*) as count FROM events WHERE database_id = ? GROUP BY status"@,
        params: seq![SqlView::Text(uuid_text(database_id.value))],
    }
}

/// The query for the counts of the events by their status.
pub fn get_event_stats(database_id: &DatabaseId) -> (r: Statement)
    ensures
        r@ == spec_get_event_stats(database_id),
{
    of_database(
        "SELECT status, COUNT(*) as count FROM events WHERE database_id = ? GROUP BY status",
        database_id,
    )
}

/// What is wrong with a row of the queue; what its manifestations read as is given.
pub open spec fn queued_error(row: Seq<SqlView>, manifestations: Option<Seq<char>>) -> Option<
    Seq<char>,
> {
    or(
        no_text(row[0], "Event ID"@),
        or(
            no_text(row[1], "Event name"@),
            or(
                no_text(row[2], "Manifestations"@),
                or(
                    bad_uuid(text_in(row[0])),
                    bad_json("Failed to deserialize manifestations: "@, manifestations),
                ),
            ),
        ),
    )
}

/// The event in a row of the queue, or the error; what its manifestations read as is given. An event
/// that was put into the queue is read back, without its description.
pub fn parse_queued_row(row: &Vec<SqlValue>, manifestations: Result<Manifestations, String>) -> (r:
    Result<Event, Error>)
    requires
        row.len() == 3,
        manifestations matches Ok(m) ==> m.is_valid(),
    ensures
        ({
            let views = value_views(row@);
            match r {
                Ok(event) => {
                    &&& queued_error(views, refusal(manifestations)) is None
                    &&& uuid_parse(text_in(views[0])) == Ok::<u128, Seq<char>>(event.id.value)
                    &&& event.name@ == text_in(views[1])
                    &&& event.description is None
                    &&& manifestations is Ok
                    &&& event.manifestations == manifestations->Ok_0
                },
                Err(e) => tells(e, queued_error(views, refusal(manifestations))),
            }
        }),
        forall|id: u128, database: u128, name: Seq<char>, text: Seq<char>, now: int|
            value_views(row@) == (#[trigger] event_columns(id, database, name, text, now)).remove(
                1,
            ).take(3) && manifestations is Ok ==> r is Ok && r->Ok_0.id.value == id
                && r->Ok_0.name@ == name,
{
    let ghost views = value_views(row@);
    assert(views[0] == row@[0]@ && views[1] == row@[1]@ && views[2] == row@[2]@);
    proof {
        assert forall|id: u128, database: u128, name: Seq<char>, text: Seq<char>, now: int|
            views == (#[trigger] event_columns(id, database, name, text, now)).remove(1).take(
                3,
            ) implies views[0] == SqlView::Text(uuid_text(id)) && views[1] == SqlView::Text(name)
            && views[2] is Text by {
            let columns = event_columns(id, database, name, text, now);
            assert(columns.remove(1)[0] == columns[0]);
            assert(columns.remove(1)[1] == columns[2]);
            assert(columns.remove(1)[2] == columns[3]);
        }
    }
    let id = match any_text_column(row, 0, "Event ID") {
        Ok(s) => s,
        Err(e) => {
            return Err(e);
        },
    };
    let name = match any_text_column(row, 1, "Event name") {
        Ok(s) => s,
        Err(e) => {
            return Err(e);
        },
    };
    match any_text_column(row, 2, "Manifestations") {
        Ok(_) => {},
        Err(e) => {
            return Err(e);
        },
    }
    let id: u128 = match plain_uuid(&id) {
        Ok(id) => id,
        Err(e) => {
            return Err(e);
        },
    };
    let manifestations = match manifestations {
        Ok(m) => m,
        Err(e) => {
            return Err(
                Error::Message(join("Failed to deserialize manifestations: ", e.as_str())),
            );
        },
    };
    Ok(Event::new(Some(EventID { value: id }), name, None, Some(manifestations)))
}

/// The step that marks an event as processed.
pub open spec fn mark_step(id: u128, now: int) -> StepView {
    rolled_back(
        "UPDATE events SET status = 'processed', processed_at = ? WHERE id = ? AND status = 'unprocessed'"@,
        seq![SqlView::Integer(now), SqlView::Text(uuid_text(id))],
        "Failed to mark event as processed: "@,
    )
}

/// How an event is marked as processed.
pub fn mark_event_processed(event_id: &EventID, now: i64) -> (r: Step)
    ensures
        r@ == mark_step(event_id.value, now as int),
{
    let mut params: Vec<SqlValue> = Vec::new();
    params.push(SqlValue::Integer(now));
    params.push(text_value(event_id.text().as_str()));
    assert(value_views(params@) =~= seq![
        SqlView::Integer(now as int),
        SqlView::Text(uuid_text(event_id.value)),
    ]);
    rolling_back(
        "UPDATE events SET status = 'processed', processed_at = ? WHERE id = ? AND status = 'unprocessed'",
        params,
        "Failed to mark event as processed: ",
    )
}

/// What is told of marking an event as processed, by the number of rows that were met.
pub open spec fn mark_failure(rows: int) -> Option<Seq<char>> {
    if rows == 0 {
        Some("No matching unprocessed event found to mark as processed"@)
    } else {
        None
    }
}

/// Whether an event was marked as processed, by the number of rows that were met.
pub fn event_marked(rows: u64) -> (r: Result<(), Error>)
    ensures
        match r {
            Ok(_) => mark_failure(rows as int) is None,
            Err(e) => e is Message && tells(e, mark_failure(rows as int)),
        },
{
    rows_matched(rows, "No matching unprocessed event found to mark as processed")
}

/// The step that takes out the processed events of a database that were processed before an instant.
pub open spec fn cleanup_step(database: u128, before: int) -> StepView {
    rolled_back(
        "DELETE FROM events WHERE database_id = ? AND status = 'processed' AND processed_at < ?"@,
        seq![SqlView::Text(uuid_text(database)), SqlView::Integer(before)],
        "Failed to cleanup processed events: "@,
    )
}

/// How processed events that are older than a number of days are taken out.
pub fn cleanup_processed_events(database_id: &DatabaseId, now: &Timestamp, older_than_days: i64) -> (r:
    Step)
    requires
        now.is_valid(),
        MIN_SECONDS <= now.seconds - older_than_days * DAY_SECONDS <= MAX_SECONDS,
    ensures
        r@ == cleanup_step(
            database_id.value,
            now.spec_millis() - older_than_days * 86_400_000,
        ),
{
    let limit = cutoff(now, older_than_days);
    let mut params: Vec<SqlValue> = Vec::new();
    params.push(text_value(database_id.text().as_str()));
    params.push(SqlValue::Integer(limit.millis()));
    assert(value_views(params@) =~= seq![
        SqlView::Text(uuid_text(database_id.value)),
        SqlView::Integer(limit.spec_millis()),
    ]);
    rolling_back(
        "DELETE FROM events WHERE database_id = ? AND status = 'processed' AND processed_at < ?",
        params,
        "Failed to cleanup processed events: ",
    )
}

/// The step of [`cleanup_all_processed_events`].
pub open spec fn spec_cleanup_all_processed_events(database_id: &DatabaseId) -> StepView {
    rolled_back(
        "DELETE FROM events WHERE database_id = ? AND status = 'processed'"@,
        seq![SqlView::Text(uuid_text(database_id.value))],
        "Failed to cleanup all processed events: "@,
    )
}

/// How all processed events are taken out.
pub fn cleanup_all_processed_events(database_id: &DatabaseId) -> (r: Step)
    ensures
        r@ == spec_cleanup_all_processed_events(database_id),
{
    rolling_back(
        "DELETE FROM events WHERE database_id = ? AND status = 'processed'",
        one_id(database_id.value),
        "Failed to cleanup all processed events: ",
    )
}

/// The step of [`clear_processed_events_queue`].
pub open spec fn spec_clear_processed_events_queue(database_id: &DatabaseId) -> StepView {
    rolled_back(
        "DELETE FROM events WHERE database_id = ? AND status = 'processed'"@,
        seq![SqlView::Text(uuid_text(database_id.value))],
        "Failed to clear processed events queue: "@,
    )
}

/// How the queue of the processed events is emptied.
pub fn clear_processed_events_queue(database_id: &DatabaseId) -> (r: Step)
    ensures
        r@ == spec_clear_processed_events_queue(database_id),
{
    rolling_back(
        "DELETE FROM events WHERE database_id = ? AND status = 'processed'",
        one_id(database_id.value),
        "Failed to clear processed events queue: ",
    )
}

/// The step of [`clear_all_events`].
pub open spec fn spec_clear_all_events(database_id: &DatabaseId) -> StepView {
    rolled_back(
        "DELETE FROM events WHERE database_id = ?"@,
        seq![SqlView::Text(uuid_text(database_id.value))],
        "Failed to clear all events: "@,
    )
}

/// How all events are taken out, processed or not.
pub fn clear_all_events(database_id: &DatabaseId) -> (r: Step)
    ensures
        r@ == spec_clear_all_events(database_id),
{
    rolling_back(
        "DELETE FROM events WHERE database_id = ?",
        one_id(database_id.value),
        "Failed to clear all events: ",
    )
}

/// The step that takes a processed event out of the queue.
pub open spec fn dequeue_step(id: u128) -> StepView {
    rolled_back(
        "DELETE FROM events WHERE id = ? AND status = 'processed'"@,
        seq![SqlView::Text(uuid_text(id))],
        "Failed to dequeue processed event: "@,
    )
}

/// How a processed event is taken out of the queue.
pub fn dequeue_processed_event(event_id: &EventID) -> (r: Step)
    ensures
        r@ == dequeue_step(event_id.value),
{
    rolling_back(
        "DELETE FROM events WHERE id = ? AND status = 'processed'",
        one_id(event_id.value),
        "Failed to dequeue processed event: ",
    )
}

/// What is told of taking a processed event out, by the number of rows that were met.
pub open spec fn dequeue_failure(rows: int) -> Option<Seq<char>> {
    if rows == 0 {
        Some("No matching processed event found to dequeue"@)
    } else {
        None
    }
}

/// Whether a processed event was taken out, by the number of rows that were met.
pub fn event_dequeued(rows: u64) -> (r: Result<(), Error>)
    ensures
        match r {
            Ok(_) => dequeue_failure(rows as int) is None,
            Err(e) => e is Message && tells(e, dequeue_failure(rows as int)),
        },
{
    rows_matched(rows, "No matching processed event found to dequeue")
}

/// Whether the step that takes an event out meets a row.
pub open spec fn is_dequeued(row: QueuedRow, id: u128) -> bool {
    row.has_id(id) && row.is_processed()
}

/// What the queue holds after an event was to be taken out.
pub open spec fn after_dequeuing(
    stored: Seq<QueuedRow>,
    id: u128,
    outcome: Option<Seq<char>>,
    commit: Option<Seq<char>>,
) -> Seq<QueuedRow> {
    if lasts(dequeue_step(id), outcome, commit) {
        left_rows(stored, |row: QueuedRow| is_dequeued(row, id))
    } else {
        stored
    }
}

/// What is told after an event was to be taken out.
pub open spec fn dequeuing_told(
    stored: Seq<QueuedRow>,
    id: u128,
    outcome: Option<Seq<char>>,
    commit: Option<Seq<char>>,
) -> Option<Seq<char>> {
    let met = met_rows(stored, |row: QueuedRow| is_dequeued(row, id)).len();
    told(dequeue_step(id), outcome, commit, dequeue_failure(met as int))
}

/// The rows that the query for the processed events of a database finds.
pub open spec fn listed(stored: Seq<QueuedRow>, database: u128) -> Seq<QueuedRow> {
    stored.filter(|row: QueuedRow| row.is_of(database) && row.is_processed())
}

/// Taking a processed event out succeeds, where the step and the commit do, if and only if the queue
/// holds a processed event with the identifier. If it succeeds, the queue of no database lists the
/// event any more, and of the other events none is lost, added or moved; if it fails, the queue is as
/// it was.
pub proof fn law_dequeuing_takes_out_that_event_alone(
    stored: Seq<QueuedRow>,
    id: u128,
    outcome: Option<Seq<char>>,
    commit: Option<Seq<char>>,
)
    ensures
        dequeuing_told(stored, id, outcome, commit) is None <==> outcome is None && commit is None
            && exists|row: QueuedRow| #[trigger] stored.contains(row) && is_dequeued(row, id),
        dequeuing_told(stored, id, outcome, commit) is Some ==> after_dequeuing(
            stored,
            id,
            outcome,
            commit,
        ) == stored,
        dequeuing_told(stored, id, outcome, commit) is None ==> {
            let after = after_dequeuing(stored, id, outcome, commit);
            &&& after == stored.filter(|row: QueuedRow| !is_dequeued(row, id))
            &&& forall|row: QueuedRow| #[trigger]
                after.contains(row) <==> stored.contains(row) && !is_dequeued(row, id)
            &&& forall|database: u128, row: QueuedRow| #[trigger]
                listed(after, database).contains(row) ==> !row.has_id(id)
        },
{
    let meets = |row: QueuedRow| is_dequeued(row, id);
    lemma_lasts(dequeue_step(id), outcome, commit);
    lemma_deleted(stored, meets);
    let after = after_dequeuing(stored, id, outcome, commit);
    if dequeuing_told(stored, id, outcome, commit) is None {
        assert(met_rows(stored, meets).len() > 0);
        assert forall|row: QueuedRow| #[trigger] after.contains(row) <==> stored.contains(row)
            && !is_dequeued(row, id) by {
            assert(left_rows(stored, meets).contains(row) <==> stored.contains(row) && !meets(row));
        }
        assert((|row: QueuedRow| !meets(row)) =~= (|row: QueuedRow| !is_dequeued(row, id)));
        assert forall|database: u128, row: QueuedRow| #[trigger]
            listed(after, database).contains(row) implies !row.has_id(id) by {
            lemma_picked(after, |row: QueuedRow| row.is_of(database) && row.is_processed());
            assert(after.contains(row));
        }
    }
    if exists|row: QueuedRow| #[trigger] stored.contains(row) && is_dequeued(row, id) {
        let row = choose|row: QueuedRow| #[trigger] stored.contains(row) && is_dequeued(row, id);
        assert(stored.contains(row) && meets(row));
    }
}

/// Whether the step that marks an event as processed meets a row.
pub open spec fn is_to_mark(row: QueuedRow, id: u128) -> bool {
    row.has_id(id) && row.is_unprocessed()
}

/// What the queue holds after an event was to be marked as processed.
pub open spec fn after_marking(
    stored: Seq<QueuedRow>,
    id: u128,
    now: int,
    outcome: Option<Seq<char>>,
    commit: Option<Seq<char>>,
) -> Seq<QueuedRow> {
    if lasts(mark_step(id, now), outcome, commit) {
        marked_rows(stored, |row: QueuedRow| is_to_mark(row, id), now)
    } else {
        stored
    }
}

/// What is told after an event was to be marked as processed.
pub open spec fn marking_told(
    stored: Seq<QueuedRow>,
    id: u128,
    now: int,
    outcome: Option<Seq<char>>,
    commit: Option<Seq<char>>,
) -> Option<Seq<char>> {
    let met = met_rows(stored, |row: QueuedRow| is_to_mark(row, id)).len();
    told(mark_step(id, now), outcome, commit, mark_failure(met as int))
}

/// Marking an event as processed succeeds, where the step and the commit do, if and only if the queue
/// holds an unprocessed event with the identifier. If it succeeds, that event is processed at the
/// instant, and every other row is as it was; if it fails, all are.
pub proof fn law_marking_changes_that_event_alone(
    stored: Seq<QueuedRow>,
    id: u128,
    now: int,
    outcome: Option<Seq<char>>,
    commit: Option<Seq<char>>,
)
    ensures
        marking_told(stored, id, now, outcome, commit) is None <==> outcome is None
            && commit is None && exists|row: QueuedRow| #[trigger]
            stored.contains(row) && is_to_mark(row, id),
        marking_told(stored, id, now, outcome, commit) is Some ==> after_marking(
            stored,
            id,
            now,
            outcome,
            commit,
        ) == stored,
        marking_told(stored, id, now, outcome, commit) is None ==> {
            let after = after_marking(stored, id, now, outcome, commit);
            &&& after.len() == stored.len()
            &&& forall|i: int|
                0 <= i < stored.len() ==> #[trigger] after[i] == if is_to_mark(stored[i], id) {
                    stored[i].marked(now)
                } else {
                    stored[i]
                }
            &&& forall|row: QueuedRow| #[trigger] after.contains(row) ==> !is_to_mark(row, id)
        },
{
    let meets = |row: QueuedRow| is_to_mark(row, id);
    lemma_lasts(mark_step(id, now), outcome, commit);
    lemma_picked(stored, meets);
    let after = after_marking(stored, id, now, outcome, commit);
    if marking_told(stored, id, now, outcome, commit) is None {
        reveal_strlit("processed");
        reveal_strlit("unprocessed");
        assert("processed"@.len() != "unprocessed"@.len());
        assert forall|row: QueuedRow| #[trigger] after.contains(row) implies !is_to_mark(
            row,
            id,
        ) by {
            let i = choose|i: int| 0 <= i < after.len() && after[i] == row;
            assert(after[i] == if meets(stored[i]) {
                stored[i].marked(now)
            } else {
                stored[i]
            });
        }
    } else if outcome is None && commit is None {
        assert(met_rows(stored, meets).len() == 0);
        assert forall|i: int| 0 <= i < stored.len() implies #[trigger] after[i] == stored[i] by {
            assert(stored.contains(stored[i]));
            assert(!meets(stored[i]));
        }
        assert(after =~= stored);
    }
    if exists|row: QueuedRow| #[trigger] stored.contains(row) && is_to_mark(row, id) {
        let row = choose|row: QueuedRow| #[trigger] stored.contains(row) && is_to_mark(row, id);
        assert(stored.contains(row) && meets(row));
    }
}

/// Whether the step that takes processed events out that were processed before an instant meets a
/// row.
pub open spec fn is_outdated(row: QueuedRow, database: u128, before: int) -> bool {
    row.is_of(database) && row.is_processed() && row.processed_at is Some && row.processed_at->0
        < before
}

/// What the queue holds after outdated events were to be taken out.
pub open spec fn after_cleanup(
    stored: Seq<QueuedRow>,
    database: u128,
    before: int,
    outcome: Option<Seq<char>>,
    commit: Option<Seq<char>>,
) -> Seq<QueuedRow> {
    if lasts(cleanup_step(database, before), outcome, commit) {
        left_rows(stored, |row: QueuedRow| is_outdated(row, database, before))
    } else {
        stored
    }
}

/// Cleaning the queue up takes out what was processed before the instant, and nothing else: every
/// unprocessed event, every younger one and every one of another database stays. Where it fails, all
/// stay.
pub proof fn law_cleanup_takes_out_what_is_outdated(
    stored: Seq<QueuedRow>,
    database: u128,
    before: int,
    outcome: Option<Seq<char>>,
    commit: Option<Seq<char>>,
)
    ensures
        outcome is None && commit is None ==> forall|row: QueuedRow| #[trigger]
            after_cleanup(stored, database, before, outcome, commit).contains(row)
                <==> stored.contains(row) && !is_outdated(row, database, before),
        outcome is Some || commit is Some ==> after_cleanup(
            stored,
            database,
            before,
            outcome,
            commit,
        ) == stored,
{
    let meets = |row: QueuedRow| is_outdated(row, database, before);
    lemma_lasts(cleanup_step(database, before), outcome, commit);
    lemma_deleted(stored, meets);
    if outcome is None && commit is None {
        assert forall|row: QueuedRow| #[trigger]
            after_cleanup(stored, database, before, outcome, commit).contains(row)
            <==> stored.contains(row) && !is_outdated(row, database, before) by {
            assert(left_rows(stored, meets).contains(row) <==> stored.contains(row) && !meets(row));
        }
    }
}

}
