//! Events: how they are written, taken out and read.
use crate::columns::{
    instant_field,
    not_instant,
    not_integer,
    not_text,
    not_uuid,
    or,
    tells,
    uuid_field,
};
use crate::error::Error;
use crate::event::{Event, Manifestation, Manifestations};
use crate::ids::{uuid_parse, uuid_text, DatabaseId, DatasetId, EventID, ManifestationId};
use crate::queue::events::event_columns;
use crate::queue::one_id;
use crate::sql::{
    integer_column,
    row_views,
    statement,
    text_column,
    text_value,
    value_views,
    SqlValue,
    SqlView,
    Statement,
    StatementView,
};
use crate::table::{Entry, Table};
use crate::time::Timestamp;
use crate::transaction::{rolled_back, rolling_back, step, step_views, OnFailure, Step, StepView};
use vstd::prelude::*;

verus! {

/// A step after whose failure the transaction is rolled back, whatever comes of that.
pub open spec fn quietly_rolled_back(sql: Seq<char>, params: Seq<SqlView>, complaint: Seq<char>) -> StepView {
    StepView {
        statement: StatementView { sql, params },
        complaint,
        on_failure: OnFailure::RollBackQuietly,
    }
}

fn rolling_back_quietly(sql: &str, params: Vec<SqlValue>, complaint: &str) -> (r: Step)
    ensures
        r@ == quietly_rolled_back(sql@, value_views(params@), complaint@),
{
    step(statement(sql, params), complaint, OnFailure::RollBackQuietly)
}

/// The step of [`insert_event`].
pub open spec fn spec_insert_event(
    event: &Event,
    database_id: &DatabaseId,
    manifestations: &str,
    now: i64,
) -> StepView {
    quietly_rolled_back(
        "INSERT INTO events (id, database_id, name, manifestations, created_at) VALUES (?, ?, ?, ?, ?)"@,
        event_columns(
            event.id.value,
            database_id.value,
            event.name@,
            manifestations@,
            now as int,
        ),
        "Failed to insert event: "@,
    )
}

/// How an event of an aspect is written; its manifestations are given as a text.
pub fn insert_event(event: &Event, database_id: &DatabaseId, manifestations: &str, now: i64) -> (r:
    Step)
    ensures
        r@ == spec_insert_event(event, database_id, manifestations, now),
{
    let stored = crate::queue::events::store_event(event, database_id, manifestations, now);
    Step {
        statement: stored.statement,
        complaint: stored.complaint,
        on_failure: OnFailure::RollBackQuietly,
    }
}

/// The step of [`remove_event`].
pub open spec fn spec_remove_event(event_id: &EventID) -> StepView {
    rolled_back(
        "DELETE FROM events WHERE id = ?"@,
        seq![SqlView::Text(uuid_text(event_id.value))],
        "Failed to remove event: "@,
    )
}

/// How an event is taken out.
pub fn remove_event(event_id: &EventID) -> (r: Step)
    ensures
        r@ == spec_remove_event(event_id),
{
    rolling_back(
        "DELETE FROM events WHERE id = ?",
        one_id(event_id.value),
        "Failed to remove event: ",
    )
}

/// The step of [`clear_events`].
pub open spec fn spec_clear_events() -> StepView {
    rolled_back("DELETE FROM events"@, seq![], "Failed to clear events: "@)
}

/// How all events are taken out.
pub fn clear_events() -> (r: Step)
    ensures
        r@ == spec_clear_events(),
{
    let params: Vec<SqlValue> = Vec::new();
    assert(value_views(params@) =~= Seq::<SqlView>::empty());
    rolling_back("DELETE FROM events", params, "Failed to clear events: ")
}

/// Where an event stands.
#[derive(Debug, Clone, Copy, PartialEq, Eq, Structural)]
pub enum EventStage {
    Unprocessed,
    Processed,
}

impl EventStage {
    pub open spec fn insert_complaint(self) -> Seq<char> {
        match self {
            EventStage::Unprocessed => "Failed to insert unprocessed event: "@,
            EventStage::Processed => "Failed to insert processed event: "@,
        }
    }

    pub open spec fn manifestation_complaint(self) -> Seq<char> {
        match self {
            EventStage::Unprocessed => "Failed to insert unprocessed event manifestation: "@,
            EventStage::Processed => "Failed to insert processed event manifestation: "@,
        }
    }

    pub open spec fn delete_complaint(self) -> Seq<char> {
        match self {
            EventStage::Unprocessed => "Failed to delete unprocessed event manifestations: "@,
            EventStage::Processed => "Failed to delete processed event manifestations: "@,
        }
    }

    pub open spec fn remove_complaint(self) -> Seq<char> {
        match self {
            EventStage::Unprocessed => "Failed to remove unprocessed event: "@,
            EventStage::Processed => "Failed to remove processed event: "@,
        }
    }

    pub open spec fn clear_manifestations_complaint(self) -> Seq<char> {
        match self {
            EventStage::Unprocessed => "Failed to clear unprocessed event manifestations: "@,
            EventStage::Processed => "Failed to clear processed event manifestations: "@,
        }
    }

    pub open spec fn clear_complaint(self) -> Seq<char> {
        match self {
            EventStage::Unprocessed => "Failed to clear unprocessed events: "@,
            EventStage::Processed => "Failed to clear processed events: "@,
        }
    }

    pub open spec fn cleanup_complaint(self) -> Seq<char> {
        match self {
            EventStage::Unprocessed => "Failed to cleanup unprocessed events: "@,
            EventStage::Processed => "Failed to cleanup processed events: "@,
        }
    }
}

/// The description of an event; without one it is empty.
pub open spec fn described(description: Option<String>) -> Seq<char> {
    match description {
        Some(s) => s@,
        None => seq![],
    }
}

/// The columns of an event in which it is read back.
pub open spec fn head_columns(event: Event) -> Seq<SqlView> {
    seq![
        SqlView::Text(uuid_text(event.id.value)),
        SqlView::Text(event.name@),
        SqlView::Text(described(event.description)),
    ]
}

/// The columns of a manifestation.
pub open spec fn manifestation_columns(event: u128, entry: Entry<u128, Manifestation>) -> Seq<SqlView> {
    seq![
        SqlView::Text(uuid_text(entry.key)),
        SqlView::Text(uuid_text(event)),
        SqlView::Text(uuid_text(entry.value.dataset_id.value)),
        SqlView::Integer(entry.value.start.spec_millis()),
        SqlView::Integer(entry.value.end.spec_millis()),
    ]
}

/// The steps that write the manifestations of an event.
pub open spec fn manifestation_steps(event: Event, stage: EventStage) -> Seq<StepView> {
    Seq::new(
        event.manifestations.entries@.len(),
        |i: int|
            quietly_rolled_back(
                "INSERT INTO event_manifestations (id, event_id, dataset_id, start_timestamp, end_timestamp) VALUES (?, ?, ?, ?, ?)"@,
                manifestation_columns(event.id.value, event.manifestations.entries@[i]),
                stage.manifestation_complaint(),
            ),
    )
}

pub open spec fn is_timed(event: Event) -> bool {
    forall|i: int|
        0 <= i < event.manifestations.entries@.len() ==> (
        #[trigger] event.manifestations.entries@[i]).value.start.is_valid()
            && event.manifestations.entries@[i].value.end.is_valid()
}

/// The step that writes an event itself, among those of a stage.
pub open spec fn event_step(event: Event, stage: EventStage, now: int) -> StepView {
    quietly_rolled_back(
        "INSERT INTO events (id, name, description, created_at) VALUES (?, ?, ?, ?)"@,
        head_columns(event).push(SqlView::Integer(now)),
        stage.insert_complaint(),
    )
}

/// How an event is written with its manifestations, among those of a stage.
pub fn insert_staged_event(event: &Event, stage: EventStage, now: i64) -> (r: Vec<Step>)
    requires
        is_timed(*event),
    ensures
        step_views(r@) == seq![event_step(*event, stage, now as int)] + manifestation_steps(
            *event,
            stage,
        ),
{
    let ghost wanted = manifestation_steps(*event, stage);
    let id = event.id.text();
    let description = match &event.description {
        Some(s) => s.clone(),
        None => {
            let none = String::new();
            assert(none@ =~= Seq::<char>::empty());
            none
        },
    };
    let mut params: Vec<SqlValue> = Vec::new();
    params.push(text_value(id.as_str()));
    params.push(text_value(event.name.as_str()));
    params.push(text_value(description.as_str()));
    params.push(SqlValue::Integer(now));
    assert(value_views(params@) =~= head_columns(*event).push(SqlView::Integer(now as int)));
    let complaint = match stage {
        EventStage::Unprocessed => "Failed to insert unprocessed event: ",
        EventStage::Processed => "Failed to insert processed event: ",
    };
    let mut r: Vec<Step> = Vec::new();
    r.push(
        rolling_back_quietly(
            "INSERT INTO events (id, name, description, created_at) VALUES (?, ?, ?, ?)",
            params,
            complaint,
        ),
    );
    let ghost head = r@[0]@;
    assert(step_views(r@) =~= seq![head] + wanted.take(0));
    let complaint = match stage {
        EventStage::Unprocessed => "Failed to insert unprocessed event manifestation: ",
        EventStage::Processed => "Failed to insert processed event manifestation: ",
    };
    let mut i: usize = 0;
    while i < event.manifestations.entries.len()
        invariant
            i <= event.manifestations.entries.len(),
            is_timed(*event),
            id@ == uuid_text(event.id.value),
            complaint@ == stage.manifestation_complaint(),
            wanted == manifestation_steps(*event, stage),
            step_views(r@) == seq![head] + wanted.take(i as int),
        decreases event.manifestations.entries.len() - i,
    {
        let ghost before = r@;
        let entry = &event.manifestations.entries[i];
        assert(entry.value.start.is_valid() && entry.value.end.is_valid());
        let mut params: Vec<SqlValue> = Vec::new();
        params.push(text_value(crate::ids::text_of(entry.key).as_str()));
        params.push(text_value(id.as_str()));
        params.push(text_value(entry.value.dataset_id.text().as_str()));
        params.push(SqlValue::Integer(entry.value.start.millis()));
        params.push(SqlValue::Integer(entry.value.end.millis()));
        assert(value_views(params@) =~= manifestation_columns(event.id.value, *entry));
        r.push(
            rolling_back_quietly(
                "INSERT INTO event_manifestations (id, event_id, dataset_id, start_timestamp, end_timestamp) VALUES (?, ?, ?, ?, ?)",
                params,
                complaint,
            ),
        );
        proof {
            assert(step_views(r@) =~= step_views(before).push(wanted[i as int]));
            assert(wanted.take(i + 1) =~= wanted.take(i as int).push(wanted[i as int]));
            assert(step_views(r@) =~= seq![head] + wanted.take(i + 1));
        }
        i += 1;
    }
    assert(wanted.take(i as int) =~= wanted);
    r
}

/// The steps of [`remove_staged_event`].
pub open spec fn spec_remove_staged_event(event_id: &EventID, stage: EventStage) -> Seq<StepView> {
    seq![
        rolled_back(
            "DELETE FROM event_manifestations WHERE event_id = ?"@,
            seq![SqlView::Text(uuid_text(event_id.value))],
            stage.delete_complaint(),
        ),
        rolled_back(
            "DELETE FROM events WHERE id = ?"@,
            seq![SqlView::Text(uuid_text(event_id.value))],
            stage.remove_complaint(),
        ),
    ]
}

/// How an event of a stage is taken out: its manifestations first.
pub fn remove_staged_event(event_id: &EventID, stage: EventStage) -> (r: Vec<Step>)
    ensures
        step_views(r@) == spec_remove_staged_event(event_id, stage),
{
    let (first, second) = match stage {
        EventStage::Unprocessed => (
            "Failed to delete unprocessed event manifestations: ",
            "Failed to remove unprocessed event: ",
        ),
        EventStage::Processed => (
            "Failed to delete processed event manifestations: ",
            "Failed to remove processed event: ",
        ),
    };
    let mut r: Vec<Step> = Vec::new();
    r.push(
        rolling_back(
            "DELETE FROM event_manifestations WHERE event_id = ?",
            one_id(event_id.value),
            first,
        ),
    );
    r.push(rolling_back("DELETE FROM events WHERE id = ?", one_id(event_id.value), second));
    assert(step_views(r@) =~= seq![r@[0]@, r@[1]@]);
    r
}

/// The steps of [`clear_staged_events`].
pub open spec fn spec_clear_staged_events(stage: EventStage) -> Seq<StepView> {
    seq![
        rolled_back(
            "DELETE FROM event_manifestations"@,
            seq![],
            stage.clear_manifestations_complaint(),
        ),
        rolled_back("DELETE FROM events"@, seq![], stage.clear_complaint()),
    ]
}

/// How all events of a stage are taken out: their manifestations first.
pub fn clear_staged_events(stage: EventStage) -> (r: Vec<Step>)
    ensures
        step_views(r@) == spec_clear_staged_events(stage),
{
    let (first, second) = match stage {
        EventStage::Unprocessed => (
            "Failed to clear unprocessed event manifestations: ",
            "Failed to clear unprocessed events: ",
        ),
        EventStage::Processed => (
            "Failed to clear processed event manifestations: ",
            "Failed to clear processed events: ",
        ),
    };
    let none: Vec<SqlValue> = Vec::new();
    let nothing: Vec<SqlValue> = Vec::new();
    assert(value_views(none@) =~= Seq::<SqlView>::empty());
    assert(value_views(nothing@) =~= Seq::<SqlView>::empty());
    let mut r: Vec<Step> = Vec::new();
    r.push(rolling_back("DELETE FROM event_manifestations", none, first));
    r.push(rolling_back("DELETE FROM events", nothing, second));
    assert(step_views(r@) =~= seq![r@[0]@, r@[1]@]);
    r
}

/// The step of [`cleanup_staged_events`].
pub open spec fn spec_cleanup_staged_events(older_than: &Timestamp, stage: EventStage) -> StepView {
    rolled_back(
        "DELETE FROM events WHERE created_at < ?"@,
        seq![SqlView::Integer(older_than.spec_millis())],
        stage.cleanup_complaint(),
    )
}

/// How events of a stage that were written before an instant are taken out.
pub fn cleanup_staged_events(older_than: &Timestamp, stage: EventStage) -> (r: Step)
    requires
        older_than.is_valid(),
    ensures
        r@ == spec_cleanup_staged_events(older_than, stage),
{
    let complaint = match stage {
        EventStage::Unprocessed => "Failed to cleanup unprocessed events: ",
        EventStage::Processed => "Failed to cleanup processed events: ",
    };
    let mut params: Vec<SqlValue> = Vec::new();
    params.push(SqlValue::Integer(older_than.millis()));
    assert(value_views(params@) =~= seq![SqlView::Integer(older_than.spec_millis())]);
    rolling_back("DELETE FROM events WHERE created_at < ?", params, complaint)
}

/// The statement of [`event_query`].
pub open spec fn spec_event_query(event_id: &EventID) -> StatementView {
    StatementView {
        sql: "SELECT id, name, description FROM events WHERE id = ?"@,
        params: seq![SqlView::Text(uuid_text(event_id.value))],
    }
}

/// The query for an event of a stage, in the database of the stage.
pub fn event_query(event_id: &EventID) -> (r: Statement)
    ensures
        r@ == spec_event_query(event_id),
{
    statement("SELECT id, name, description FROM events WHERE id = ?", one_id(event_id.value))
}

/// The statement of [`event_ids_query`].
pub open spec fn spec_event_ids_query() -> StatementView {
    StatementView { sql: "SELECT id FROM events"@, params: seq![] }
}

/// The query for the identifiers of the events of a stage, in the database of the stage.
pub fn event_ids_query() -> (r: Statement)
    ensures
        r@ == spec_event_ids_query(),
{
    let none: Vec<SqlValue> = Vec::new();
    assert(value_views(none@) =~= Seq::<SqlView>::empty());
    statement("SELECT id FROM events", none)
}

/// What is wrong with a row of an identifier of an event of a stage.
pub open spec fn event_id_error(row: Seq<SqlView>, stage: EventStage) -> Option<Seq<char>> {
    match stage {
        EventStage::Unprocessed => or(
            not_text(row[0], "Unprocessed Event ID is not text"@),
            not_uuid(row[0], "Invalid UUID format for unprocessed event ID: "@),
        ),
        EventStage::Processed => or(
            not_text(row[0], "Processed Event ID is not text"@),
            not_uuid(row[0], "Invalid UUID format for processed event ID: "@),
        ),
    }
}

/// The identifier of an event of a stage in a row, or the error.
pub fn parse_event_id_row(row: &Vec<SqlValue>, stage: EventStage) -> (r: Result<EventID, Error>)
    requires
        row.len() == 1,
    ensures
        match r {
            Ok(id) => event_id_error(value_views(row@), stage) is None && uuid_parse(
                value_views(row@)[0]->Text_0,
            ) == Ok::<u128, Seq<char>>(id.value),
            Err(e) => tells(e, event_id_error(value_views(row@), stage)),
        },
        forall|id: u128|
            row@[0]@ == SqlView::Text(#[trigger] uuid_text(id)) ==> r is Ok && r->Ok_0.value == id,
{
    assert(value_views(row@)[0] == row@[0]@);
    let complaint = match stage {
        EventStage::Unprocessed => "Unprocessed Event ID is not text",
        EventStage::Processed => "Processed Event ID is not text",
    };
    let text = match text_column(row, 0, complaint) {
        Ok(s) => s,
        Err(e) => {
            return Err(e);
        },
    };
    let complaint = match stage {
        EventStage::Unprocessed => "Invalid UUID format for unprocessed event ID: ",
        EventStage::Processed => "Invalid UUID format for processed event ID: ",
    };
    match uuid_field(&text, complaint) {
        Ok(id) => Ok(EventID { value: id }),
        Err(e) => Err(e),
    }
}

/// The statement of [`manifestations_query`].
pub open spec fn spec_manifestations_query(event_id: &EventID) -> StatementView {
    StatementView {
        sql: "SELECT id, event_id, dataset_id, start_timestamp, end_timestamp FROM event_manifestations WHERE event_id = ?"@,
        params: seq![SqlView::Text(uuid_text(event_id.value))],
    }
}

/// The query for the manifestations of an event.
pub fn manifestations_query(event_id: &EventID) -> (r: Statement)
    ensures
        r@ == spec_manifestations_query(event_id),
{
    statement(
        "SELECT id, event_id, dataset_id, start_timestamp, end_timestamp FROM event_manifestations WHERE event_id = ?",
        one_id(event_id.value),
    )
}

/// What is wrong with a row of an event.
pub open spec fn head_error(row: Seq<SqlView>) -> Option<Seq<char>> {
    or(
        not_text(row[0], "Event ID is not text"@),
        or(
            not_text(row[1], "Event name is not text"@),
            or(
                not_text(row[2], "Event description is not text"@),
                not_uuid(row[0], "Invalid UUID format for event ID: "@),
            ),
        ),
    )
}

/// The event in a row with the manifestations that were read, or the error. An event that was
/// written is read back; one without a description has an empty one then.
pub fn parse_event_row(row: &Vec<SqlValue>, manifestations: Option<Manifestations>) -> (r: Result<
    Event,
    Error,
>)
    requires
        row.len() == 3,
        manifestations matches Some(m) ==> m.is_valid(),
    ensures
        ({
            let views = value_views(row@);
            match r {
                Ok(event) => {
                    &&& head_error(views) is None
                    &&& uuid_parse(views[0]->Text_0) == Ok::<u128, Seq<char>>(event.id.value)
                    &&& event.name@ == views[1]->Text_0
                    &&& event.description is Some
                    &&& event.description->0@ == views[2]->Text_0
                    &&& event.is_valid()
                    &&& manifestations matches Some(m) ==> event.manifestations == m
                    &&& manifestations is None ==> event.manifestations@ == Map::<
                        u128,
                        Manifestation,
                    >::empty()
                },
                Err(e) => tells(e, head_error(views)),
            }
        }),
        forall|written: Event|
            value_views(row@) == #[trigger] head_columns(written) ==> r is Ok && r->Ok_0.id
                == written.id && r->Ok_0.name@ == written.name@ && r->Ok_0.description is Some
                && r->Ok_0.description->0@ == described(written.description),
{
    let ghost views = value_views(row@);
    assert(views[0] == row@[0]@ && views[1] == row@[1]@ && views[2] == row@[2]@);
    let id = match text_column(row, 0, "Event ID is not text") {
        Ok(s) => s,
        Err(e) => {
            return Err(e);
        },
    };
    let name = match text_column(row, 1, "Event name is not text") {
        Ok(s) => s,
        Err(e) => {
            return Err(e);
        },
    };
    let description = match text_column(row, 2, "Event description is not text") {
        Ok(s) => s,
        Err(e) => {
            return Err(e);
        },
    };
    let id: u128 = match uuid_field(&id, "Invalid UUID format for event ID: ") {
        Ok(id) => id,
        Err(e) => {
            return Err(e);
        },
    };
    Ok(Event::new(Some(EventID { value: id }), name, Some(description), manifestations))
}

/// What is wrong with a row of a manifestation.
pub open spec fn manifestation_error(row: Seq<SqlView>) -> Option<Seq<char>> {
    or(
        not_text(row[0], "Manifestation ID is not text"@),
        or(
            not_text(row[1], "Manifestation Event ID is not text"@),
            or(
                not_text(row[2], "Manifestation Dataset ID is not text"@),
                or(
                    not_integer(row[3], "Manifestation Start Timestamp is not integer"@),
                    or(
                        not_integer(row[4], "Manifestation End Timestamp is not integer"@),
                        or(
                            not_uuid(row[0], "Invalid UUID format for manifestation ID: "@),
                            or(
                                not_uuid(
                                    row[1],
                                    "Invalid UUID format for manifestation Event ID: "@,
                                ),
                                or(
                                    not_uuid(
                                        row[2],
                                        "Invalid UUID format for manifestation Dataset ID: "@,
                                    ),
                                    or(
                                        not_instant(
                                            row[3],
                                            "Invalid manifestation start timestamp"@,
                                        ),
                                        not_instant(
                                            row[4],
                                            "Invalid manifestation end timestamp"@,
                                        ),
                                    ),
                                ),
                            ),
                        ),
                    ),
                ),
            ),
        ),
    )
}

/// Whether a manifestation stands in a row.
pub open spec fn shows(m: Manifestation, row: Seq<SqlView>) -> bool {
    &&& uuid_parse(row[0]->Text_0) == Ok::<u128, Seq<char>>(m.id.value)
    &&& uuid_parse(row[2]->Text_0) == Ok::<u128, Seq<char>>(m.dataset_id.value)
    &&& m.start.is_valid()
    &&& m.start.total() == row[3]->Integer_0 * 1_000_000
    &&& m.end.is_valid()
    &&& m.end.total() == row[4]->Integer_0 * 1_000_000
}

/// The manifestation in a row, or the error. A manifestation that was written is read back, with its
/// instants to the millisecond.
pub fn parse_manifestation_row(row: &Vec<SqlValue>) -> (r: Result<Manifestation, Error>)
    requires
        row.len() == 5,
    ensures
        match r {
            Ok(m) => manifestation_error(value_views(row@)) is None && shows(m, value_views(row@)),
            Err(e) => tells(e, manifestation_error(value_views(row@))),
        },
        forall|event: u128, written: Entry<u128, Manifestation>|
            value_views(row@) == #[trigger] manifestation_columns(event, written)
                && written.value.start.is_valid() && written.value.end.is_valid() ==> r is Ok
                && r->Ok_0.id.value == written.key && r->Ok_0.dataset_id
                == written.value.dataset_id && r->Ok_0.start.spec_millis()
                == written.value.start.spec_millis() && r->Ok_0.end.spec_millis()
                == written.value.end.spec_millis(),
{
    let ghost views = value_views(row@);
    assert(forall|i: int| 0 <= i < 5 ==> #[trigger] views[i] == row@[i]@);
    let id = match text_column(row, 0, "Manifestation ID is not text") {
        Ok(s) => s,
        Err(e) => {
            return Err(e);
        },
    };
    let event = match text_column(row, 1, "Manifestation Event ID is not text") {
        Ok(s) => s,
        Err(e) => {
            return Err(e);
        },
    };
    let dataset = match text_column(row, 2, "Manifestation Dataset ID is not text") {
        Ok(s) => s,
        Err(e) => {
            return Err(e);
        },
    };
    let start: i64 = match integer_column(
        row,
        3,
        "Manifestation Start Timestamp is not integer",
    ) {
        Ok(n) => n,
        Err(e) => {
            return Err(e);
        },
    };
    let end: i64 = match integer_column(row, 4, "Manifestation End Timestamp is not integer") {
        Ok(n) => n,
        Err(e) => {
            return Err(e);
        },
    };
    let id: u128 = match uuid_field(&id, "Invalid UUID format for manifestation ID: ") {
        Ok(id) => id,
        Err(e) => {
            return Err(e);
        },
    };
    match uuid_field(&event, "Invalid UUID format for manifestation Event ID: ") {
        Ok(_) => {},
        Err(e) => {
            return Err(e);
        },
    }
    let dataset: u128 = match uuid_field(
        &dataset,
        "Invalid UUID format for manifestation Dataset ID: ",
    ) {
        Ok(id) => id,
        Err(e) => {
            return Err(e);
        },
    };
    let start = match instant_field(start, "Invalid manifestation start timestamp") {
        Ok(t) => t,
        Err(e) => {
            return Err(e);
        },
    };
    let end = match instant_field(end, "Invalid manifestation end timestamp") {
        Ok(t) => t,
        Err(e) => {
            return Err(e);
        },
    };
    Ok(
        Manifestation::with_id(
            ManifestationId { value: id },
            DatasetId { value: dataset },
            start,
            end,
        ),
    )
}

/// Whether manifestations by their identifiers are those in rows: of two rows with the same
/// identifier the later counts.
pub open spec fn are_those_in(m: Map<u128, Manifestation>, rows: Seq<Seq<SqlView>>) -> bool
    decreases rows.len(),
{
    if rows.len() == 0 {
        m == Map::<u128, Manifestation>::empty()
    } else {
        exists|before: Map<u128, Manifestation>, last: Manifestation|
            #![trigger before.insert(last.id.value, last)]
            are_those_in(before, rows.drop_last()) && shows(last, rows.last()) && m
                == before.insert(last.id.value, last)
    }
}

/// Whether a manifestation reads like another under an identifier: with its instants to the
/// millisecond.
pub open spec fn manifestation_reads_like(m: Manifestation, id: u128, written: Manifestation) -> bool {
    &&& m.id.value == id
    &&& m.dataset_id == written.dataset_id
    &&& m.start.spec_millis() == written.start.spec_millis()
    &&& m.end.spec_millis() == written.end.spec_millis()
}

/// Whether a row, if a manifestation was written to it, holds that manifestation.
pub open spec fn manifestation_reads_back(row: Seq<SqlView>) -> bool {
    forall|event: u128, written: Entry<u128, Manifestation>|
        row == #[trigger] manifestation_columns(event, written) && written.value.start.is_valid()
            && written.value.end.is_valid() ==> manifestation_error(row) is None && forall|
            m: Manifestation,
        | #[trigger]
            shows(m, row) ==> manifestation_reads_like(m, written.key, written.value)
}

/// Whether the first row that cannot be read stands at a place.
pub open spec fn is_first_bad_row(rows: Seq<Seq<SqlView>>, i: int) -> bool {
    &&& 0 <= i < rows.len()
    &&& manifestation_error(rows[i]) is Some
    &&& forall|k: int| 0 <= k < i ==> manifestation_error(#[trigger] rows[k]) is None
}

/// What stands in a row is the same manifestation, whoever reads it.
proof fn lemma_shown_alike(m: Manifestation, row: Seq<SqlView>)
    requires
        shows(m, row),
    ensures
        forall|other: Manifestation| #[trigger]
            shows(other, row) ==> manifestation_reads_like(other, m.id.value, m),
{
    assert forall|other: Manifestation| #[trigger] shows(other, row) implies other.start
        .spec_millis() == m.start.spec_millis() && other.end.spec_millis() == m.end.spec_millis() by {
        assert(other.start.total() == m.start.total());
        assert(other.end.total() == m.end.total());
    }
}

/// The manifestations in rows, or what is wrong with the first row that cannot be read.
/// Manifestations that were written are read back.
pub fn read_manifestations(rows: &Vec<Vec<SqlValue>>) -> (r: Result<Manifestations, Error>)
    requires
        forall|i: int| 0 <= i < rows.len() ==> (#[trigger] rows@[i]).len() == 5,
    ensures
        ({
            let views = row_views(rows@);
            match r {
                Ok(m) => {
                    &&& m.is_valid()
                    &&& are_those_in(m@, views)
                    &&& forall|i: int|
                        0 <= i < views.len() ==> manifestation_error(#[trigger] views[i]) is None
                            && manifestation_reads_back(views[i])
                },
                Err(e) => exists|i: int| #[trigger]
                    is_first_bad_row(views, i) && tells(e, manifestation_error(views[i]))
                        && manifestation_reads_back(views[i]),
            }
        }),
{
    let ghost views = row_views(rows@);
    let mut found: Manifestations = Table::new();
    let mut i: usize = 0;
    assert(views.take(0) =~= Seq::<Seq<SqlView>>::empty());
    while i < rows.len()
        invariant
            i <= rows.len(),
            forall|i: int| 0 <= i < rows.len() ==> (#[trigger] rows@[i]).len() == 5,
            views == row_views(rows@),
            found.is_valid(),
            are_those_in(found@, views.take(i as int)),
            forall|k: int|
                0 <= k < i ==> manifestation_error(#[trigger] views[k]) is None
                    && manifestation_reads_back(views[k]),
        decreases rows.len() - i,
    {
        assert(rows@[i as int].len() == 5);
        assert(views[i as int] == value_views(rows@[i as int]@));
        match parse_manifestation_row(&rows[i]) {
            Ok(m) => {
                let ghost before = found@;
                found.insert(m.id.value, m);
                proof {
                    lemma_shown_alike(m, views[i as int]);
                    let rest = views.take(i + 1);
                    assert(rest.drop_last() =~= views.take(i as int));
                    assert(rest.last() == views[i as int]);
                    assert(found@ =~= before.insert(m.id.value, m));
                }
            },
            Err(e) => {
                assert(is_first_bad_row(views, i as int));
                return Err(e);
            },
        }
        i += 1;
    }
    assert(views.take(i as int) =~= views);
    Ok(found)
}

}
