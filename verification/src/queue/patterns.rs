//! The queue of patterns.
use crate::columns::{any_text_column, bad_json, bad_uuid, no_text, or, refusal, tells, text_in};
use crate::error::Error;
use crate::ids::{uuid_parse, uuid_text, AspectId, DatabaseId, PatternID};
use crate::measurement::Relative;
use crate::pattern::{Occurrence, Pattern};
use crate::queue::model::{
    lasts,
    left_rows,
    lemma_deleted,
    lemma_lasts,
    lemma_picked,
    marked_rows,
    met_rows,
    told,
    QueuedRow,
};
use crate::queue::{cutoff, one_id, owner_columns, owner_values, rows_matched, DAY_SECONDS};
use crate::sql::{
    chunk,
    chunk_count,
    statement,
    text_value,
    value_views,
    SqlValue,
    SqlView,
    Statement,
    StatementView,
};
use crate::text::join;
use crate::time::{Timestamp, MAX_SECONDS, MIN_SECONDS};
use crate::transaction::{
    in_transactions,
    rolled_back,
    rolling_back,
    step,
    step_views,
    transaction_views,
    OnFailure,
    Step,
    StepView,
};
use vstd::prelude::*;

verus! {

/// The number of patterns that are written in one transaction.
pub const PATTERN_CHUNK_SIZE: usize = 100;

/// The columns of a pattern.
pub open spec fn pattern_columns(
    id: u128,
    aspect: u128,
    database: u128,
    occurrences: Seq<char>,
    relatives: Seq<char>,
    now: int,
) -> Seq<SqlView> {
    seq![
        SqlView::Text(uuid_text(id)),
        SqlView::Text(uuid_text(aspect)),
        SqlView::Text(uuid_text(database)),
        SqlView::Text(occurrences),
        SqlView::Text(relatives),
        SqlView::Integer(now),
    ]
}

fn pattern_values(
    id: &PatternID,
    aspect: u128,
    database_id: &DatabaseId,
    occurrences: &str,
    relatives: &str,
    now: i64,
) -> (r: Vec<SqlValue>)
    ensures
        value_views(r@) == pattern_columns(
            id.value,
            aspect,
            database_id.value,
            occurrences@,
            relatives@,
            now as int,
        ),
{
    let mut r: Vec<SqlValue> = Vec::new();
    r.push(text_value(id.text().as_str()));
    r.push(text_value(crate::ids::text_of(aspect).as_str()));
    r.push(text_value(database_id.text().as_str()));
    r.push(text_value(occurrences));
    r.push(text_value(relatives));
    r.push(SqlValue::Integer(now));
    assert(value_views(r@) =~= pattern_columns(
        id.value,
        aspect,
        database_id.value,
        occurrences@,
        relatives@,
        now as int,
    ));
    r
}

/// The step of [`store_pattern`].
pub open spec fn spec_store_pattern(
    pattern: &Pattern,
    database_id: &DatabaseId,
    occurrences: &str,
    relatives: &str,
    now: i64,
) -> StepView {
    rolled_back(
        "INSERT INTO patterns (id, aspect_id, database_id, occurrences, relatives, created_at) VALUES (?, ?, ?, ?, ?, ?)"@,
        pattern_columns(
            pattern.id.value,
            pattern.occurrences@[0].database_info.id.value,
            database_id.value,
            occurrences@,
            relatives@,
            now as int,
        ),
        "Failed to insert pattern: "@,
    )
}

/// How a pattern is put into the queue; its stretches and its relatives are given as texts. In the
/// place of the aspect stands the database of the first stretch.
pub fn store_pattern(
    pattern: &Pattern,
    database_id: &DatabaseId,
    occurrences: &str,
    relatives: &str,
    now: i64,
) -> (r: Step)
    requires
        pattern.occurrences.len() > 0,
    ensures
        r@ == spec_store_pattern(pattern, database_id, occurrences, relatives, now),
{
    rolling_back(
        "INSERT INTO patterns (id, aspect_id, database_id, occurrences, relatives, created_at) VALUES (?, ?, ?, ?, ?, ?)",
        pattern_values(
            &pattern.id,
            pattern.occurrences[0].database_info.id.value,
            database_id,
            occurrences,
            relatives,
            now,
        ),
        "Failed to insert pattern: ",
    )
}

/// A pattern with its stretches and its relatives as texts, and when it is written.
#[derive(Debug)]
pub struct WrittenPattern {
    pub id: PatternID,
    pub occurrences: String,
    pub relatives: String,
    pub now: i64,
}

/// The steps that write processed patterns.
pub open spec fn processed_steps(patterns: Seq<WrittenPattern>, aspect: u128, database: u128) -> Seq<
    StepView,
> {
    Seq::new(
        patterns.len(),
        |i: int|
            StepView {
                statement: StatementView {
                    sql: "INSERT INTO patterns (id, aspect_id, database_id, occurrences, relatives, status, created_at) VALUES (?, ?, ?, ?, ?, 'processed', ?)"@,
                    params: pattern_columns(
                        patterns[i].id.value,
                        aspect,
                        database,
                        patterns[i].occurrences@,
                        patterns[i].relatives@,
                        patterns[i].now as int,
                    ),
                },
                complaint: "Failed to insert pattern in transaction: "@,
                on_failure: OnFailure::RollBackQuietly,
            },
    )
}

/// How processed patterns are written: in several transactions, one after the other.
pub fn store_patterns(
    patterns: &Vec<WrittenPattern>,
    aspect_id: &AspectId,
    database_id: &DatabaseId,
) -> (r: Vec<Vec<Step>>)
    ensures
        transaction_views(r@) == Seq::new(
            chunk_count(patterns@.len(), PATTERN_CHUNK_SIZE as nat),
            |k: int|
                chunk(
                    processed_steps(patterns@, aspect_id.value, database_id.value),
                    PATTERN_CHUNK_SIZE as nat,
                    k,
                ),
        ),
{
    let ghost wanted = processed_steps(patterns@, aspect_id.value, database_id.value);
    let mut steps: Vec<Step> = Vec::new();
    let mut i: usize = 0;
    while i < patterns.len()
        invariant
            i <= patterns.len(),
            steps.len() == i,
            wanted == processed_steps(patterns@, aspect_id.value, database_id.value),
            forall|k: int| 0 <= k < i ==> (#[trigger] steps@[k])@ == wanted[k],
        decreases patterns.len() - i,
    {
        let p = &patterns[i];
        let params = pattern_values(
            &p.id,
            aspect_id.value,
            database_id,
            p.occurrences.as_str(),
            p.relatives.as_str(),
            p.now,
        );
        steps.push(
            step(
                statement(
                    "INSERT INTO patterns (id, aspect_id, database_id, occurrences, relatives, status, created_at) VALUES (?, ?, ?, ?, ?, 'processed', ?)",
                    params,
                ),
                "Failed to insert pattern in transaction: ",
                OnFailure::RollBackQuietly,
            ),
        );
        i += 1;
    }
    assert(step_views(steps@) =~= wanted);
    in_transactions(steps, PATTERN_CHUNK_SIZE)
}

/// The statement of [`get_unprocessed_patterns`].
pub open spec fn spec_get_unprocessed_patterns(
    aspect_id: &AspectId,
    database_id: &DatabaseId,
) -> StatementView {
    StatementView {
        sql: "SELECT id, occurrences, relatives FROM patterns WHERE aspect_id = ? AND database_id = ? AND status = 'unprocessed' ORDER BY created_at"@,
        params: owner_columns(aspect_id.value, database_id.value),
    }
}

/// The query for the patterns of an aspect that wait to be processed, the oldest first.
pub fn get_unprocessed_patterns(aspect_id: &AspectId, database_id: &DatabaseId) -> (r: Statement)
    ensures
        r@ == spec_get_unprocessed_patterns(aspect_id, database_id),
{
    statement(
        "SELECT id, occurrences, relatives FROM patterns WHERE aspect_id = ? AND database_id = ? AND status = 'unprocessed' ORDER BY created_at",
        owner_values(aspect_id, database_id),
    )
}

/// The statement of [`get_processed_patterns_queue`].
pub open spec fn spec_get_processed_patterns_queue(
    aspect_id: &AspectId,
    database_id: &DatabaseId,
) -> StatementView {
    StatementView {
        sql: "SELECT id, occurrences, relatives FROM patterns WHERE aspect_id = ? AND database_id = ? AND status = 'processed' ORDER BY processed_at ASC"@,
        params: owner_columns(aspect_id.value, database_id.value),
    }
}

/// The query for the processed patterns of an aspect, the oldest first.
pub fn get_processed_patterns_queue(aspect_id: &AspectId, database_id: &DatabaseId) -> (r: Statement)
    ensures
        r@ == spec_get_processed_patterns_queue(aspect_id, database_id),
{
    statement(
        "SELECT id, occurrences, relatives FROM patterns WHERE aspect_id = ? AND database_id = ? AND status = 'processed' ORDER BY processed_at ASC",
        owner_values(aspect_id, database_id),
    )
}

/// The statement of [`get_pattern_stats`].
pub open spec fn spec_get_pattern_stats(
    aspect_id: &AspectId,
    database_id: &DatabaseId,
) -> StatementView {
    StatementView {
        sql: "SELECT status, COUNT(*) as count FROM patterns WHERE aspect_id = ? AND database_id = ? GROUP BY status"@,
        params: owner_columns(aspect_id.value, database_id.value),
    }
}

/// The query for the counts of the patterns of an aspect by their status.
pub fn get_pattern_stats(aspect_id: &AspectId, database_id: &DatabaseId) -> (r: Statement)
    ensures
        r@ == spec_get_pattern_stats(aspect_id, database_id),
{
    statement(
        "SELECT status, COUNT(*) as count FROM patterns WHERE aspect_id = ? AND database_id = ? GROUP BY status",
        owner_values(aspect_id, database_id),
    )
}

/// The columns of a pattern in which it is read back.
pub open spec fn read_columns(id: u128, occurrences: Seq<char>, relatives: Seq<char>) -> Seq<SqlView> {
    seq![SqlView::Text(uuid_text(id)), SqlView::Text(occurrences), SqlView::Text(relatives)]
}

/// What is told of an identifier that is no UUID, where what is said before it is given.
pub open spec fn bad_id(complaint: Seq<char>, text: Seq<char>) -> Option<Seq<char>> {
    match bad_uuid(text) {
        Some(e) => Some(complaint + e),
        None => None,
    }
}

/// What is wrong with a row of a pattern; what its stretches and its relatives read as is given.
pub open spec fn queued_error(
    row: Seq<SqlView>,
    complaint: Seq<char>,
    occurrences: Option<Seq<char>>,
    relatives: Option<Seq<char>>,
) -> Option<Seq<char>> {
    or(
        no_text(row[0], "Pattern ID"@),
        or(
            no_text(row[1], "Occurrences"@),
            or(
                no_text(row[2], "Relatives"@),
                or(
                    bad_id(complaint, text_in(row[0])),
                    or(
                        bad_json("Failed to deserialize occurrences: "@, occurrences),
                        bad_json("Failed to deserialize relatives: "@, relatives),
                    ),
                ),
            ),
        ),
    )
}

/// The pattern in a row, or the error; what its stretches and its relatives read as is given. What is
/// said before an error about its identifier is given too. A pattern that was written is read back.
pub fn parse_queued_row(
    row: &Vec<SqlValue>,
    complaint: &str,
    occurrences: Result<Vec<Occurrence>, String>,
    relatives: Result<Vec<Relative>, String>,
) -> (r: Result<Pattern, Error>)
    requires
        row.len() == 3,
    ensures
        ({
            let views = value_views(row@);
            let wrong = queued_error(views, complaint@, refusal(occurrences), refusal(relatives));
            match r {
                Ok(p) => {
                    &&& wrong is None
                    &&& uuid_parse(text_in(views[0])) == Ok::<u128, Seq<char>>(p.id.value)
                    &&& occurrences is Ok
                    &&& p.occurrences == occurrences->Ok_0
                    &&& relatives is Ok
                    &&& p.relatives == relatives->Ok_0
                },
                Err(e) => e is Message && tells(e, wrong),
            }
        }),
        forall|id: u128, a: Seq<char>, b: Seq<char>|
            value_views(row@) == #[trigger] read_columns(id, a, b) && occurrences is Ok
                && relatives is Ok ==> r is Ok && r->Ok_0.id.value == id,
{
    let ghost views = value_views(row@);
    assert(views[0] == row@[0]@ && views[1] == row@[1]@ && views[2] == row@[2]@);
    let id = match any_text_column(row, 0, "Pattern ID") {
        Ok(s) => s,
        Err(e) => {
            return Err(e);
        },
    };
    match any_text_column(row, 1, "Occurrences") {
        Ok(_) => {},
        Err(e) => {
            return Err(e);
        },
    }
    match any_text_column(row, 2, "Relatives") {
        Ok(_) => {},
        Err(e) => {
            return Err(e);
        },
    }
    let id = match PatternID::parse(id.as_str()) {
        Ok(id) => id,
        Err(e) => {
            return Err(Error::Message(join(complaint, e.as_str())));
        },
    };
    let occurrences = match occurrences {
        Ok(o) => o,
        Err(e) => {
            return Err(
                Error::Message(join("Failed to deserialize occurrences: ", e.as_str())),
            );
        },
    };
    let relatives = match relatives {
        Ok(o) => o,
        Err(e) => {
            return Err(Error::Message(join("Failed to deserialize relatives: ", e.as_str())));
        },
    };
    Ok(Pattern::new(id, occurrences, relatives))
}

/// The step that marks a pattern as processed.
pub open spec fn mark_step(id: u128, now: int) -> StepView {
    rolled_back(
        "UPDATE patterns SET status = 'processed', processed_at = ? WHERE id = ? AND status = 'unprocessed'"@,
        seq![SqlView::Integer(now), SqlView::Text(uuid_text(id))],
        "Failed to update pattern status: "@,
    )
}

/// How a pattern is marked as processed.
pub fn mark_pattern_processed(pattern_id: &PatternID, now: i64) -> (r: Step)
    ensures
        r@ == mark_step(pattern_id.value, now as int),
{
    let mut params: Vec<SqlValue> = Vec::new();
    params.push(SqlValue::Integer(now));
    params.push(text_value(pattern_id.text().as_str()));
    assert(value_views(params@) =~= seq![
        SqlView::Integer(now as int),
        SqlView::Text(uuid_text(pattern_id.value)),
    ]);
    rolling_back(
        "UPDATE patterns SET status = 'processed', processed_at = ? WHERE id = ? AND status = 'unprocessed'",
        params,
        "Failed to update pattern status: ",
    )
}

/// What is told of marking a pattern as processed, by the number of rows that were met.
pub open spec fn mark_failure(rows: int) -> Option<Seq<char>> {
    if rows == 0 {
        Some("No matching unprocessed pattern found to mark as processed"@)
    } else {
        None
    }
}

/// Whether a pattern was marked as processed, by the number of rows that were met.
pub fn pattern_marked(rows: u64) -> (r: Result<(), Error>)
    ensures
        match r {
            Ok(_) => mark_failure(rows as int) is None,
            Err(e) => e is Message && tells(e, mark_failure(rows as int)),
        },
{
    rows_matched(rows, "No matching unprocessed pattern found to mark as processed")
}

/// The step that takes out the processed patterns of an aspect that were processed before an instant.
pub open spec fn cleanup_step(aspect: u128, database: u128, before: int) -> StepView {
    rolled_back(
        "DELETE FROM patterns WHERE aspect_id = ? AND database_id = ? AND status = 'processed' AND processed_at < ?"@,
        owner_columns(aspect, database).push(SqlView::Integer(before)),
        "Failed to cleanup processed patterns: "@,
    )
}

/// How processed patterns of an aspect that are older than a number of days are taken out.
pub fn cleanup_processed_patterns(
    aspect_id: &AspectId,
    database_id: &DatabaseId,
    now: &Timestamp,
    older_than_days: i64,
) -> (r: Step)
    requires
        now.is_valid(),
        MIN_SECONDS <= now.seconds - older_than_days * DAY_SECONDS <= MAX_SECONDS,
    ensures
        r@ == cleanup_step(
            aspect_id.value,
            database_id.value,
            now.spec_millis() - older_than_days * 86_400_000,
        ),
{
    let limit = cutoff(now, older_than_days);
    let mut params = owner_values(aspect_id, database_id);
    let ghost before = params@;
    params.push(SqlValue::Integer(limit.millis()));
    assert(value_views(params@) =~= value_views(before).push(SqlView::Integer(limit.spec_millis())));
    rolling_back(
        "DELETE FROM patterns WHERE aspect_id = ? AND database_id = ? AND status = 'processed' AND processed_at < ?",
        params,
        "Failed to cleanup processed patterns: ",
    )
}

/// The step of [`cleanup_all_processed_patterns`].
pub open spec fn spec_cleanup_all_processed_patterns(
    aspect_id: &AspectId,
    database_id: &DatabaseId,
) -> StepView {
    rolled_back(
        "DELETE FROM patterns WHERE aspect_id = ? AND database_id = ? AND status = 'processed'"@,
        owner_columns(aspect_id.value, database_id.value),
        "Failed to cleanup all processed patterns: "@,
    )
}

/// How all processed patterns of an aspect are taken out.
pub fn cleanup_all_processed_patterns(aspect_id: &AspectId, database_id: &DatabaseId) -> (r: Step)
    ensures
        r@ == spec_cleanup_all_processed_patterns(aspect_id, database_id),
{
    rolling_back(
        "DELETE FROM patterns WHERE aspect_id = ? AND database_id = ? AND status = 'processed'",
        owner_values(aspect_id, database_id),
        "Failed to cleanup all processed patterns: ",
    )
}

/// The step of [`clear_processed_patterns_queue`].
pub open spec fn spec_clear_processed_patterns_queue(
    aspect_id: &AspectId,
    database_id: &DatabaseId,
) -> StepView {
    rolled_back(
        "DELETE FROM patterns WHERE aspect_id = ? AND database_id = ? AND status = 'processed'"@,
        owner_columns(aspect_id.value, database_id.value),
        "Failed to clear processed patterns queue: "@,
    )
}

/// How the queue of the processed patterns of an aspect is emptied.
pub fn clear_processed_patterns_queue(aspect_id: &AspectId, database_id: &DatabaseId) -> (r: Step)
    ensures
        r@ == spec_clear_processed_patterns_queue(aspect_id, database_id),
{
    rolling_back(
        "DELETE FROM patterns WHERE aspect_id = ? AND database_id = ? AND status = 'processed'",
        owner_values(aspect_id, database_id),
        "Failed to clear processed patterns queue: ",
    )
}

/// The step that takes a processed pattern out of the queue.
pub open spec fn dequeue_step(id: u128) -> StepView {
    rolled_back(
        "DELETE FROM patterns WHERE id = ? AND status = 'processed'"@,
        seq![SqlView::Text(uuid_text(id))],
        "Failed to dequeue processed pattern: "@,
    )
}

/// How a processed pattern is taken out of the queue.
pub fn dequeue_processed_pattern(pattern_id: &PatternID) -> (r: Step)
    ensures
        r@ == dequeue_step(pattern_id.value),
{
    rolling_back(
        "DELETE FROM patterns WHERE id = ? AND status = 'processed'",
        one_id(pattern_id.value),
        "Failed to dequeue processed pattern: ",
    )
}

/// What is told of taking a processed pattern out, by the number of rows that were met.
pub open spec fn dequeue_failure(rows: int) -> Option<Seq<char>> {
    if rows == 0 {
        Some("No matching processed pattern found to dequeue"@)
    } else {
        None
    }
}

/// Whether a processed pattern was taken out, by the number of rows that were met.
pub fn pattern_dequeued(rows: u64) -> (r: Result<(), Error>)
    ensures
        match r {
            Ok(_) => dequeue_failure(rows as int) is None,
            Err(e) => e is Message && tells(e, dequeue_failure(rows as int)),
        },
{
    rows_matched(rows, "No matching processed pattern found to dequeue")
}

/// Whether the step that takes a pattern out meets a row.
pub open spec fn is_dequeued(row: QueuedRow, id: u128) -> bool {
    row.has_id(id) && row.is_processed()
}

/// What the queue holds after a pattern was to be taken out.
pub open spec fn after_dequeuing(
    stored: Seq<QueuedRow>,
    id: u128,
    outcome: Option<Seq<char>>,
    commit: Option<Seq<char>>,
) -> Seq<QueuedRow> {
    if lasts(dequeue_step(id), outcome, commit) {
        left_rows(stored, |row: QueuedRow| is_dequeued(row, id))
    } else {
        stored
    }
}

/// What is told after a pattern was to be taken out.
pub open spec fn dequeuing_told(
    stored: Seq<QueuedRow>,
    id: u128,
    outcome: Option<Seq<char>>,
    commit: Option<Seq<char>>,
) -> Option<Seq<char>> {
    let met = met_rows(stored, |row: QueuedRow| is_dequeued(row, id)).len();
    told(dequeue_step(id), outcome, commit, dequeue_failure(met as int))
}

/// The rows that the query for the processed patterns of an aspect finds.
pub open spec fn listed(stored: Seq<QueuedRow>, aspect: u128, database: u128) -> Seq<QueuedRow> {
    stored.filter(
        |row: QueuedRow| row.is_about(aspect) && row.is_of(database) && row.is_processed(),
    )
}

/// Taking a processed pattern out succeeds, where the step and the commit do, if and only if the queue
/// holds a processed pattern with the identifier. If it succeeds, the queue of no aspect lists the
/// pattern any more, and of the other patterns none is lost, added or moved; if it fails, the queue is
/// as it was.
pub proof fn law_dequeuing_takes_out_that_pattern_alone(
    stored: Seq<QueuedRow>,
    id: u128,
    outcome: Option<Seq<char>>,
    commit: Option<Seq<char>>,
)
    ensures
        dequeuing_told(stored, id, outcome, commit) is None <==> outcome is None && commit is None
            && exists|row: QueuedRow| #[trigger] stored.contains(row) && is_dequeued(row, id),
        dequeuing_told(stored, id, outcome, commit) is Some ==> after_dequeuing(
            stored,
            id,
            outcome,
            commit,
        ) == stored,
        dequeuing_told(stored, id, outcome, commit) is None ==> {
            let after = after_dequeuing(stored, id, outcome, commit);
            &&& after == stored.filter(|row: QueuedRow| !is_dequeued(row, id))
            &&& forall|row: QueuedRow| #[trigger]
                after.contains(row) <==> stored.contains(row) && !is_dequeued(row, id)
            &&& forall|aspect: u128, database: u128, row: QueuedRow| #[trigger]
                listed(after, aspect, database).contains(row) ==> !row.has_id(id)
        },
{
    let meets = |row: QueuedRow| is_dequeued(row, id);
    lemma_lasts(dequeue_step(id), outcome, commit);
    lemma_deleted(stored, meets);
    let after = after_dequeuing(stored, id, outcome, commit);
    if dequeuing_told(stored, id, outcome, commit) is None {
        assert(met_rows(stored, meets).len() > 0);
        assert forall|row: QueuedRow| #[trigger] after.contains(row) <==> stored.contains(row)
            && !is_dequeued(row, id) by {
            assert(left_rows(stored, meets).contains(row) <==> stored.contains(row) && !meets(row));
        }
        assert((|row: QueuedRow| !meets(row)) =~= (|row: QueuedRow| !is_dequeued(row, id)));
        assert forall|aspect: u128, database: u128, row: QueuedRow| #[trigger]
            listed(after, aspect, database).contains(row) implies !row.has_id(id) by {
            lemma_picked(
                after,
                |row: QueuedRow| row.is_about(aspect) && row.is_of(database) && row.is_processed(),
            );
            assert(after.contains(row));
        }
    }
    if exists|row: QueuedRow| #[trigger] stored.contains(row) && is_dequeued(row, id) {
        let row = choose|row: QueuedRow| #[trigger] stored.contains(row) && is_dequeued(row, id);
        assert(stored.contains(row) && meets(row));
    }
}

/// Whether the step that marks a pattern as processed meets a row.
pub open spec fn is_to_mark(row: QueuedRow, id: u128) -> bool {
    row.has_id(id) && row.is_unprocessed()
}

/// What the queue holds after a pattern was to be marked as processed.
pub open spec fn after_marking(
    stored: Seq<QueuedRow>,
    id: u128,
    now: int,
    outcome: Option<Seq<char>>,
    commit: Option<Seq<char>>,
) -> Seq<QueuedRow> {
    if lasts(mark_step(id, now), outcome, commit) {
        marked_rows(stored, |row: QueuedRow| is_to_mark(row, id), now)
    } else {
        stored
    }
}

/// What is told after a pattern was to be marked as processed.
pub open spec fn marking_told(
    stored: Seq<QueuedRow>,
    id: u128,
    now: int,
    outcome: Option<Seq<char>>,
    commit: Option<Seq<char>>,
) -> Option<Seq<char>> {
    let met = met_rows(stored, |row: QueuedRow| is_to_mark(row, id)).len();
    told(mark_step(id, now), outcome, commit, mark_failure(met as int))
}

/// Marking a pattern as processed succeeds, where the step and the commit do, if and only if the queue
/// holds an unprocessed pattern with the identifier. If it succeeds, that pattern is processed at the
/// instant, and every other row is as it was; if it fails, all are.
pub proof fn law_marking_changes_that_pattern_alone(
    stored: Seq<QueuedRow>,
    id: u128,
    now: int,
    outcome: Option<Seq<char>>,
    commit: Option<Seq<char>>,
)
    ensures
        marking_told(stored, id, now, outcome, commit) is None <==> outcome is None
            && commit is None && exists|row: QueuedRow| #[trigger]
            stored.contains(row) && is_to_mark(row, id),
        marking_told(stored, id, now, outcome, commit) is Some ==> after_marking(
            stored,
            id,
            now,
            outcome,
            commit,
        ) == stored,
        marking_told(stored, id, now, outcome, commit) is None ==> {
            let after = after_marking(stored, id, now, outcome, commit);
            &&& after.len() == stored.len()
            &&& forall|i: int|
                0 <= i < stored.len() ==> #[trigger] after[i] == if is_to_mark(stored[i], id) {
                    stored[i].marked(now)
                } else {
                    stored[i]
                }
            &&& forall|row: QueuedRow| #[trigger] after.contains(row) ==> !is_to_mark(row, id)
        },
{
    let meets = |row: QueuedRow| is_to_mark(row, id);
    lemma_lasts(mark_step(id, now), outcome, commit);
    lemma_picked(stored, meets);
    let after = after_marking(stored, id, now, outcome, commit);
    if marking_told(stored, id, now, outcome, commit) is None {
        reveal_strlit("processed");
        reveal_strlit("unprocessed");
        assert("processed"@.len() != "unprocessed"@.len());
        assert forall|row: QueuedRow| #[trigger] after.contains(row) implies !is_to_mark(
            row,
            id,
        ) by {
            let i = choose|i: int| 0 <= i < after.len() && after[i] == row;
            assert(after[i] == if meets(stored[i]) {
                stored[i].marked(now)
            } else {
                stored[i]
            });
        }
    } else if outcome is None && commit is None {
        assert(met_rows(stored, meets).len() == 0);
        assert forall|i: int| 0 <= i < stored.len() implies #[trigger] after[i] == stored[i] by {
            assert(stored.contains(stored[i]));
            assert(!meets(stored[i]));
        }
        assert(after =~= stored);
    }
    if exists|row: QueuedRow| #[trigger] stored.contains(row) && is_to_mark(row, id) {
        let row = choose|row: QueuedRow| #[trigger] stored.contains(row) && is_to_mark(row, id);
        assert(stored.contains(row) && meets(row));
    }
}

/// Whether the step that takes processed patterns out that were processed before an instant meets a
/// row.
pub open spec fn is_outdated(row: QueuedRow, aspect: u128, database: u128, before: int) -> bool {
    row.is_about(aspect) && row.is_of(database) && row.is_processed() && row.processed_at is Some
        && row.processed_at->0 < before
}

/// What the queue holds after outdated patterns were to be taken out.
pub open spec fn after_cleanup(
    stored: Seq<QueuedRow>,
    aspect: u128,
    database: u128,
    before: int,
    outcome: Option<Seq<char>>,
    commit: Option<Seq<char>>,
) -> Seq<QueuedRow> {
    if lasts(cleanup_step(aspect, database, before), outcome, commit) {
        left_rows(stored, |row: QueuedRow| is_outdated(row, aspect, database, before))
    } else {
        stored
    }
}

/// Cleaning the queue up takes out what was processed before the instant, and nothing else: every
/// unprocessed pattern, every younger one and every one of another aspect or database stays. Where it
/// fails, all stay.
pub proof fn law_cleanup_takes_out_what_is_outdated(
    stored: Seq<QueuedRow>,
    aspect: u128,
    database: u128,
    before: int,
    outcome: Option<Seq<char>>,
    commit: Option<Seq<char>>,
)
    ensures
        outcome is None && commit is None ==> forall|row: QueuedRow| #[trigger]
            after_cleanup(stored, aspect, database, before, outcome, commit).contains(row)
                <==> stored.contains(row) && !is_outdated(row, aspect, database, before),
        outcome is Some || commit is Some ==> after_cleanup(
            stored,
            aspect,
            database,
            before,
            outcome,
            commit,
        ) == stored,
{
    let meets = |row: QueuedRow| is_outdated(row, aspect, database, before);
    lemma_lasts(cleanup_step(aspect, database, before), outcome, commit);
    lemma_deleted(stored, meets);
    if outcome is None && commit is None {
        assert forall|row: QueuedRow| #[trigger]
            after_cleanup(stored, aspect, database, before, outcome, commit).contains(row)
            <==> stored.contains(row) && !is_outdated(row, aspect, database, before) by {
            assert(left_rows(stored, meets).contains(row) <==> stored.contains(row) && !meets(row));
        }
    }
}

}
