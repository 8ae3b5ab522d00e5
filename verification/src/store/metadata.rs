//! What a database knows of itself: its transactions, its subjects and their aspects.
use crate::columns::{
    any_text_column,
    bad_json,
    bad_uuid,
    no_text,
    or,
    plain_uuid,
    refusal,
    tells,
    text_in,
};
use crate::error::Error;
use crate::ids::{uuid_parse, uuid_text, AspectId, DatabaseId, SubjectId, TxId};
use crate::names::name_views;
use crate::queue::one_id;
use crate::resolution::Resolution;
use crate::sql::{
    no_values,
    one_text,
    row_views,
    statement,
    statement_views,
    text_value,
    value_views,
    SqlValue,
    SqlView,
    Statement,
    StatementView,
};
use crate::text::{
    from_chars,
    i64_text,
    int_text,
    join,
    parse_i64,
    parse_usize,
    same_text,
    signed_of,
    to_chars,
    unsigned_of,
    usize_refusal,
};
use crate::time::{rfc3339_parse, rfc3339_text, Timestamp, MAX_SECONDS, MIN_SECONDS};
use crate::transaction::{rolled_back, rolling_back, step, OnFailure, Step, StepView};
use vstd::prelude::*;

verus! {

/// How a statement that fails is told of.
pub open spec fn failure_text(within: Seq<char>, e: Seq<char>) -> Seq<char> {
    "SQL execution failure"@ + within + ": `"@ + e + "`"@
}

/// The error for a statement that failed; where it failed is given, with ` in ` before it, or is
/// left empty.
pub fn execution_failure(within: &str, e: &str) -> (r: Error)
    ensures
        r is Message,
        r.spec_message() == failure_text(within@, e@),
{
    let mut message = join("SQL execution failure", within);
    message.append(": `");
    message.append(e);
    message.append("`");
    Error::Message(message)
}

/// The step of [`record_transaction`].
pub open spec fn spec_record_transaction(id: &TxId, message: &str, created_at: i64) -> StepView {
    rolled_back(
        "INSERT INTO transactions (id, message, created_at) VALUES (?, ?, ?) ON CONFLICT(id) DO NOTHING"@,
        seq![
            SqlView::Text(uuid_text(id.value)),
            SqlView::Text(message@),
            SqlView::Integer(created_at as int),
        ],
        "Failed to log transaction "@ + uuid_text(id.value) + ": "@,
    )
}

/// How a transaction is logged.
pub fn record_transaction(id: &TxId, message: &str, created_at: i64) -> (r: Step)
    ensures
        r@ == spec_record_transaction(id, message, created_at),
{
    let text = id.text();
    let mut complaint = join("Failed to log transaction ", text.as_str());
    complaint.append(": ");
    let mut params: Vec<SqlValue> = Vec::new();
    params.push(text_value(text.as_str()));
    params.push(text_value(message));
    params.push(SqlValue::Integer(created_at));
    assert(value_views(params@) =~= seq![
        SqlView::Text(uuid_text(id.value)),
        SqlView::Text(message@),
        SqlView::Integer(created_at as int),
    ]);
    rolling_back(
        "INSERT INTO transactions (id, message, created_at) VALUES (?, ?, ?) ON CONFLICT(id) DO NOTHING",
        params,
        complaint.as_str(),
    )
}

/// What is logged of something that was done for an aspect.
pub fn done_for_aspect(what: &str, aspect_id: &AspectId) -> (r: String)
    ensures
        r@ == what@ + " for aspect "@ + uuid_text(aspect_id.value),
{
    let mut r = join(what, " for aspect ");
    r.append(aspect_id.text().as_str());
    r
}

pub open spec fn bare(sql: Seq<char>) -> StatementView {
    StatementView { sql, params: seq![] }
}

fn bare_statement(sql: &str) -> (r: Statement)
    ensures
        r@ == bare(sql@),
{
    let none: Vec<SqlValue> = Vec::new();
    assert(value_views(none@) =~= Seq::<SqlView>::empty());
    statement(sql, none)
}

/// The one text that is asked for, by how reading it went: without a row that is told, and a failure
/// is told by its text alone.
pub fn only_text(row: Option<Result<String, String>>, missing: &str) -> (r: Result<String, Error>)
    ensures
        match row {
            Some(Ok(s)) => r is Ok && r->Ok_0 == s,
            Some(Err(e)) => r is Err && r->Err_0 is Message && r->Err_0.spec_message() == e@,
            None => r is Err && r->Err_0 is Message && r->Err_0.spec_message() == missing@,
        },
{
    match row {
        Some(Ok(s)) => Ok(s),
        Some(Err(e)) => Err(Error::Message(e)),
        None => Err(Error::Message(missing.to_owned())),
    }
}

/// The statement of [`db_name_query`].
pub open spec fn spec_db_name_query() -> StatementView {
    bare("SELECT name FROM database LIMIT 1"@)
}

/// The query for the name of a database.
pub fn db_name_query() -> (r: Statement)
    ensures
        r@ == spec_db_name_query(),
{
    bare_statement("SELECT name FROM database LIMIT 1")
}

/// The name of a database, by how reading it went.
pub fn db_name(row: Option<Result<String, String>>) -> (r: Result<String, Error>)
    ensures
        match row {
            Some(Ok(s)) => r is Ok && r->Ok_0 == s,
            Some(Err(e)) => r is Err && r->Err_0 is Message && r->Err_0.spec_message() == e@,
            None => r is Err && r->Err_0 is Message && r->Err_0.spec_message()
                == "Database name not found in metadata"@,
        },
{
    only_text(row, "Database name not found in metadata")
}

/// The statement of [`db_metadata_path_query`].
pub open spec fn spec_db_metadata_path_query() -> StatementView {
    bare("SELECT metadata_path FROM database LIMIT 1"@)
}

/// The query for the path of the metadata of a database.
pub fn db_metadata_path_query() -> (r: Statement)
    ensures
        r@ == spec_db_metadata_path_query(),
{
    bare_statement("SELECT metadata_path FROM database LIMIT 1")
}

/// The path of the metadata of a database, by how reading it went.
pub fn db_metadata_path(row: Option<Result<String, String>>) -> (r: Result<String, Error>)
    ensures
        match row {
            Some(Ok(s)) => r is Ok && r->Ok_0 == s,
            Some(Err(e)) => r is Err && r->Err_0 is Message && r->Err_0.spec_message() == e@,
            None => r is Err && r->Err_0 is Message && r->Err_0.spec_message()
                == "Database metadata path not found in metadata"@,
        },
{
    only_text(row, "Database metadata path not found in metadata")
}

/// The statement of [`get_database_metadata_path_query`].
pub open spec fn spec_get_database_metadata_path_query() -> StatementView {
    bare("SELECT metadata_path FROM database"@)
}

/// The query for the path of the metadata that an aspect belongs to.
pub fn get_database_metadata_path_query() -> (r: Statement)
    ensures
        r@ == spec_get_database_metadata_path_query(),
{
    bare_statement("SELECT metadata_path FROM database")
}

/// The path of the metadata that an aspect belongs to, by how reading it went.
pub fn get_database_metadata_path(row: Option<Result<String, String>>) -> (r: Result<String, Error>)
    ensures
        match row {
            Some(Ok(s)) => r is Ok && r->Ok_0 == s,
            Some(Err(e)) => r is Err && r->Err_0 is Message && r->Err_0.spec_message() == e@,
            None => r is Err && r->Err_0 is Message && r->Err_0.spec_message()
                == "Database metadata not found"@,
        },
{
    only_text(row, "Database metadata not found")
}

/// The statement of [`get_subject_name_query`].
pub open spec fn spec_get_subject_name_query(subject_id: &SubjectId) -> StatementView {
    StatementView {
        sql: "SELECT name FROM subjects WHERE id = ?"@,
        params: seq![SqlView::Text(uuid_text(subject_id.value))],
    }
}

/// The query for the name of a subject.
pub fn get_subject_name_query(subject_id: &SubjectId) -> (r: Statement)
    ensures
        r@ == spec_get_subject_name_query(subject_id),
{
    statement("SELECT name FROM subjects WHERE id = ?", one_id(subject_id.value))
}

/// The name of a subject, by how the query and reading it went.
pub fn get_subject_name(outcome: Result<Option<Result<String, String>>, String>) -> (r: Result<
    String,
    Error,
>)
    ensures
        match outcome {
            Ok(Some(Ok(s))) => r is Ok && r->Ok_0 == s,
            Ok(Some(Err(e))) => r is Err && r->Err_0 is Message && r->Err_0.spec_message() == e@,
            Ok(None) => r is Err && r->Err_0 is Message && r->Err_0.spec_message()
                == "Subject not found"@,
            Err(e) => r is Err && r->Err_0 is Message && r->Err_0.spec_message() == failure_text(
                " 3: in get_subject_name"@,
                e@,
            ),
        },
{
    match outcome {
        Ok(row) => only_text(row, "Subject not found"),
        Err(e) => Err(execution_failure(" 3: in get_subject_name", e.as_str())),
    }
}

/// The statements that make the tables of a new database, each in a transaction of its own.
pub fn metadata_tables() -> (r: Vec<Statement>)
    ensures
        statement_views(r@) == seq![
            bare(
                "CREATE TABLE IF NOT EXISTS transactions (id TEXT PRIMARY KEY, message TEXT NOT NULL, created_at INTEGER NOT NULL)"@,
            ),
            bare(
                "CREATE TABLE IF NOT EXISTS database (id TEXT PRIMARY KEY, name TEXT NOT NULL, created_at INTEGER NOT NULL, metadata_path TEXT NOT NULL)"@,
            ),
            bare(
                "CREATE TABLE IF NOT EXISTS subjects (id TEXT PRIMARY KEY, database_id TEXT NOT NULL, name TEXT NOT NULL, created_at INTEGER NOT NULL)"@,
            ),
            bare(
                "CREATE TABLE IF NOT EXISTS aspects (id TEXT PRIMARY KEY, subject_id TEXT NOT NULL, database_id TEXT NOT NULL, name TEXT NOT NULL, table_name TEXT NOT NULL, resolution TEXT NOT NULL, created_at INTEGER NOT NULL, earliest_measurement TEXT, latest_measurement TEXT)"@,
            ),
        ],
{
    let mut r: Vec<Statement> = Vec::new();
    r.push(
        bare_statement(
            "CREATE TABLE IF NOT EXISTS transactions (id TEXT PRIMARY KEY, message TEXT NOT NULL, created_at INTEGER NOT NULL)",
        ),
    );
    r.push(
        bare_statement(
            "CREATE TABLE IF NOT EXISTS database (id TEXT PRIMARY KEY, name TEXT NOT NULL, created_at INTEGER NOT NULL, metadata_path TEXT NOT NULL)",
        ),
    );
    r.push(
        bare_statement(
            "CREATE TABLE IF NOT EXISTS subjects (id TEXT PRIMARY KEY, database_id TEXT NOT NULL, name TEXT NOT NULL, created_at INTEGER NOT NULL)",
        ),
    );
    r.push(
        bare_statement(
            "CREATE TABLE IF NOT EXISTS aspects (id TEXT PRIMARY KEY, subject_id TEXT NOT NULL, database_id TEXT NOT NULL, name TEXT NOT NULL, table_name TEXT NOT NULL, resolution TEXT NOT NULL, created_at INTEGER NOT NULL, earliest_measurement TEXT, latest_measurement TEXT)",
        ),
    );
    assert(statement_views(r@) =~= seq![r@[0]@, r@[1]@, r@[2]@, r@[3]@]);
    r
}

/// The statement of [`insert_database`].
pub open spec fn spec_insert_database(
    id: &DatabaseId,
    name: &str,
    created_at: i64,
    metadata_path: &str,
) -> StatementView {
    StatementView {
        sql: "INSERT INTO database (id, name, created_at, metadata_path) VALUES (?, ?, ?, ?)"@,
        params: seq![
            SqlView::Text(uuid_text(id.value)),
            SqlView::Text(name@),
            SqlView::Integer(created_at as int),
            SqlView::Text(metadata_path@),
        ],
    }
}

/// The statement that writes a new database.
pub fn insert_database(id: &DatabaseId, name: &str, created_at: i64, metadata_path: &str) -> (r:
    Statement)
    ensures
        r@ == spec_insert_database(id, name, created_at, metadata_path),
{
    let mut params: Vec<SqlValue> = Vec::new();
    params.push(text_value(id.text().as_str()));
    params.push(text_value(name));
    params.push(SqlValue::Integer(created_at));
    params.push(text_value(metadata_path));
    assert(value_views(params@) =~= seq![
        SqlView::Text(uuid_text(id.value)),
        SqlView::Text(name@),
        SqlView::Integer(created_at as int),
        SqlView::Text(metadata_path@),
    ]);
    statement(
        "INSERT INTO database (id, name, created_at, metadata_path) VALUES (?, ?, ?, ?)",
        params,
    )
}

/// The columns of a subject in which it is read back.
pub open spec fn subject_columns(id: u128, name: Seq<char>, database: u128) -> Seq<SqlView> {
    seq![
        SqlView::Text(uuid_text(id)),
        SqlView::Text(name),
        SqlView::Text(uuid_text(database)),
    ]
}

/// The statement of [`observe_subject`].
pub open spec fn spec_observe_subject(
    name: &str,
    id: &SubjectId,
    database_id: &DatabaseId,
    created_at: i64,
) -> StatementView {
    StatementView {
        sql: "INSERT INTO subjects (id, name, database_id, created_at) VALUES (?, ?, ?, ?)"@,
        params: subject_columns(id.value, name@, database_id.value).push(
            SqlView::Integer(created_at as int),
        ),
    }
}

/// The statement that writes a new subject, or an error where there is one of that name.
pub fn observe_subject(
    name: &str,
    exists_already: bool,
    id: &SubjectId,
    database_id: &DatabaseId,
    created_at: i64,
) -> (r: Result<Statement, Error>)
    ensures
        match r {
            Ok(s) => !exists_already && s@ == spec_observe_subject(
                name,
                id,
                database_id,
                created_at,
            ),
            Err(e) => exists_already && e is Message && e.spec_message() == "Subject '"@ + name@
                + "' already exists"@,
        },
{
    if exists_already {
        let mut message = join("Subject '", name);
        message.append("' already exists");
        return Err(Error::Message(message));
    }
    let mut params: Vec<SqlValue> = Vec::new();
    params.push(text_value(id.text().as_str()));
    params.push(text_value(name));
    params.push(text_value(database_id.text().as_str()));
    params.push(SqlValue::Integer(created_at));
    assert(value_views(params@) =~= subject_columns(id.value, name@, database_id.value).push(
        SqlView::Integer(created_at as int),
    ));
    Ok(
        statement(
            "INSERT INTO subjects (id, name, database_id, created_at) VALUES (?, ?, ?, ?)",
            params,
        ),
    )
}

/// The step of [`track_subject`].
pub open spec fn spec_track_subject(
    id: &SubjectId,
    database_id: &DatabaseId,
    name: &str,
    created_at: i64,
) -> StepView {
    StepView {
        statement: StatementView {
            sql: "INSERT INTO subjects (id, database_id, name, created_at) VALUES (?, ?, ?, ?)"@,
            params: seq![
                SqlView::Text(uuid_text(id.value)),
                SqlView::Text(uuid_text(database_id.value)),
                SqlView::Text(name@),
                SqlView::Text(int_text(created_at as int)),
            ],
        },
        complaint: "Failed to insert subject: "@,
        on_failure: OnFailure::Leave,
    }
}

/// How a subject with a database file of its own is written.
pub fn track_subject(id: &SubjectId, database_id: &DatabaseId, name: &str, created_at: i64) -> (r:
    Step)
    ensures
        r@ == spec_track_subject(id, database_id, name, created_at),
{
    let mut params: Vec<SqlValue> = Vec::new();
    params.push(text_value(id.text().as_str()));
    params.push(text_value(database_id.text().as_str()));
    params.push(text_value(name));
    params.push(text_value(i64_text(created_at).as_str()));
    assert(value_views(params@) =~= seq![
        SqlView::Text(uuid_text(id.value)),
        SqlView::Text(uuid_text(database_id.value)),
        SqlView::Text(name@),
        SqlView::Text(int_text(created_at as int)),
    ]);
    step(
        statement(
            "INSERT INTO subjects (id, database_id, name, created_at) VALUES (?, ?, ?, ?)",
            params,
        ),
        "Failed to insert subject: ",
        OnFailure::Leave,
    )
}

/// The statement of [`remove_subject`].
pub open spec fn spec_remove_subject(id: &SubjectId) -> StatementView {
    StatementView {
        sql: "DELETE FROM subjects WHERE id = ?"@,
        params: seq![SqlView::Text(uuid_text(id.value))],
    }
}

/// The statement that takes a subject out.
pub fn remove_subject(id: &SubjectId) -> (r: Statement)
    ensures
        r@ == spec_remove_subject(id),
{
    statement("DELETE FROM subjects WHERE id = ?", one_id(id.value))
}

/// The statement of [`get_subject`].
pub open spec fn spec_get_subject(id: &SubjectId) -> StatementView {
    StatementView {
        sql: "SELECT id, name, database_id FROM subjects WHERE id = ?"@,
        params: seq![SqlView::Text(uuid_text(id.value))],
    }
}

/// The query for a subject.
pub fn get_subject(id: &SubjectId) -> (r: Statement)
    ensures
        r@ == spec_get_subject(id),
{
    statement("SELECT id, name, database_id FROM subjects WHERE id = ?", one_id(id.value))
}

/// The statement of [`list_subjects`].
pub open spec fn spec_list_subjects(database_id: &DatabaseId) -> StatementView {
    StatementView {
        sql: "SELECT id, name, database_id FROM subjects WHERE database_id = ?"@,
        params: seq![SqlView::Text(uuid_text(database_id.value))],
    }
}

/// The query for the subjects of a database.
pub fn list_subjects(database_id: &DatabaseId) -> (r: Statement)
    ensures
        r@ == spec_list_subjects(database_id),
{
    statement(
        "SELECT id, name, database_id FROM subjects WHERE database_id = ?",
        one_id(database_id.value),
    )
}

/// What is wrong with the texts in a row of a subject.
pub open spec fn subject_text_error(row: Seq<SqlView>) -> Option<Seq<char>> {
    or(
        no_text(row[0], "Subject ID"@),
        or(no_text(row[1], "Subject name"@), no_text(row[2], "Database ID"@)),
    )
}

/// What is wrong with the identifiers in a row of a subject.
pub open spec fn subject_id_error(row: Seq<SqlView>) -> Option<Seq<char>> {
    or(bad_uuid(text_in(row[0])), bad_uuid(text_in(row[2])))
}

/// A subject as it stands in a row.
#[derive(Debug)]
pub struct SubjectRow {
    pub id: SubjectId,
    pub name: String,
    pub database_id: DatabaseId,
}

/// Whether a subject stands in a row.
pub open spec fn is_subject_in(s: SubjectRow, row: Seq<SqlView>) -> bool {
    &&& subject_text_error(row) is None
    &&& subject_id_error(row) is None
    &&& uuid_parse(text_in(row[0])) == Ok::<u128, Seq<char>>(s.id.value)
    &&& s.name@ == text_in(row[1])
    &&& uuid_parse(text_in(row[2])) == Ok::<u128, Seq<char>>(s.database_id.value)
}

/// The subject in a row, or the error. A subject that was written is read back.
pub fn parse_subject_row(row: &Vec<SqlValue>) -> (r: Result<SubjectRow, Error>)
    requires
        row.len() == 3,
    ensures
        match r {
            Ok(s) => is_subject_in(s, value_views(row@)),
            Err(e) => e is Message && tells(
                e,
                or(subject_text_error(value_views(row@)), subject_id_error(value_views(row@))),
            ),
        },
        forall|id: u128, name: Seq<char>, database: u128|
            value_views(row@) == #[trigger] subject_columns(id, name, database) ==> r is Ok
                && r->Ok_0.id.value == id && r->Ok_0.name@ == name && r->Ok_0.database_id.value
                == database,
{
    let ghost views = value_views(row@);
    assert(views[0] == row@[0]@ && views[1] == row@[1]@ && views[2] == row@[2]@);
    let id = match any_text_column(row, 0, "Subject ID") {
        Ok(s) => s,
        Err(e) => {
            return Err(e);
        },
    };
    let name = match any_text_column(row, 1, "Subject name") {
        Ok(s) => s,
        Err(e) => {
            return Err(e);
        },
    };
    let database = match any_text_column(row, 2, "Database ID") {
        Ok(s) => s,
        Err(e) => {
            return Err(e);
        },
    };
    let id: u128 = match plain_uuid(&id) {
        Ok(id) => id,
        Err(e) => {
            return Err(e);
        },
    };
    let database: u128 = match plain_uuid(&database) {
        Ok(id) => id,
        Err(e) => {
            return Err(e);
        },
    };
    Ok(
        SubjectRow {
            id: SubjectId { value: id },
            name,
            database_id: DatabaseId { value: database },
        },
    )
}

/// The first place in a sequence at which something is told.
pub open spec fn is_first_told(s: Seq<Option<Seq<char>>>, i: int) -> bool {
    &&& 0 <= i < s.len()
    &&& s[i] is Some
    &&& forall|k: int| 0 <= k < i ==> (#[trigger] s[k]) is None
}

pub open spec fn subject_text_errors(rows: Seq<Seq<SqlView>>) -> Seq<Option<Seq<char>>> {
    Seq::new(rows.len(), |i: int| subject_text_error(rows[i]))
}

pub open spec fn subject_id_errors(rows: Seq<Seq<SqlView>>) -> Seq<Option<Seq<char>>> {
    Seq::new(rows.len(), |i: int| subject_id_error(rows[i]))
}

/// Whether an error tells of the first row with a wrong text or, where there is none, of the first
/// with a wrong identifier.
pub open spec fn tells_of_rows(
    e: Error,
    texts: Seq<Option<Seq<char>>>,
    ids: Seq<Option<Seq<char>>>,
) -> bool {
    if exists|i: int| #[trigger] is_first_told(texts, i) {
        exists|i: int| #[trigger] is_first_told(texts, i) && tells(e, texts[i])
    } else {
        exists|i: int| #[trigger] is_first_told(ids, i) && tells(e, ids[i])
    }
}

/// The subjects in rows, or the error: all texts are looked at before the identifiers.
pub fn parse_subject_rows(rows: &Vec<Vec<SqlValue>>) -> (r: Result<Vec<SubjectRow>, Error>)
    requires
        forall|i: int| 0 <= i < rows.len() ==> (#[trigger] rows@[i]).len() == 3,
    ensures
        ({
            let views = row_views(rows@);
            match r {
                Ok(subjects) => {
                    &&& subjects.len() == views.len()
                    &&& forall|i: int|
                        0 <= i < subjects.len() ==> is_subject_in(
                            #[trigger] subjects@[i],
                            views[i],
                        )
                },
                Err(e) => tells_of_rows(e, subject_text_errors(views), subject_id_errors(views)),
            }
        }),
{
    let ghost views = row_views(rows@);
    let ghost texts = subject_text_errors(views);
    let ghost ids = subject_id_errors(views);
    let mut i: usize = 0;
    while i < rows.len()
        invariant
            i <= rows.len(),
            forall|i: int| 0 <= i < rows.len() ==> (#[trigger] rows@[i]).len() == 3,
            views == row_views(rows@),
            texts == subject_text_errors(views),
            ids == subject_id_errors(views),
            forall|k: int| 0 <= k < i ==> (#[trigger] texts[k]) is None,
        decreases rows.len() - i,
    {
        let row = &rows[i];
        assert(row.len() == 3);
        assert(views[i as int][0] == row@[0]@ && views[i as int][1] == row@[1]@
            && views[i as int][2] == row@[2]@);
        assert(texts[i as int] == subject_text_error(views[i as int]));
        match any_text_column(row, 0, "Subject ID") {
            Ok(_) => {},
            Err(e) => {
                assert(is_first_told(texts, i as int));
                return Err(e);
            },
        }
        match any_text_column(row, 1, "Subject name") {
            Ok(_) => {},
            Err(e) => {
                assert(is_first_told(texts, i as int));
                return Err(e);
            },
        }
        match any_text_column(row, 2, "Database ID") {
            Ok(_) => {},
            Err(e) => {
                assert(is_first_told(texts, i as int));
                return Err(e);
            },
        }
        i += 1;
    }
    assert(!exists|k: int| #[trigger] is_first_told(texts, k));
    let mut r: Vec<SubjectRow> = Vec::new();
    let mut j: usize = 0;
    while j < rows.len()
        invariant
            j <= rows.len(),
            forall|i: int| 0 <= i < rows.len() ==> (#[trigger] rows@[i]).len() == 3,
            views == row_views(rows@),
            texts == subject_text_errors(views),
            ids == subject_id_errors(views),
            forall|k: int| 0 <= k < rows.len() ==> (#[trigger] texts[k]) is None,
            !exists|k: int| #[trigger] is_first_told(texts, k),
            r.len() == j,
            forall|k: int| 0 <= k < j ==> (#[trigger] ids[k]) is None,
            forall|k: int| 0 <= k < j ==> is_subject_in(#[trigger] r@[k], views[k]),
        decreases rows.len() - j,
    {
        assert(rows@[j as int].len() == 3);
        assert(views[j as int] == value_views(rows@[j as int]@));
        assert(texts[j as int] is None);
        match parse_subject_row(&rows[j]) {
            Ok(s) => {
                assert(ids[j as int] is None);
                r.push(s);
            },
            Err(e) => {
                assert(ids[j as int] == subject_id_error(views[j as int]));
                assert(is_first_told(ids, j as int) && tells(e, ids[j as int]));
                return Err(e);
            },
        }
        j += 1;
    }
    Ok(r)
}

/// What is wrong with the texts in a row of an aspect.
pub open spec fn aspect_text_error(row: Seq<SqlView>) -> Option<Seq<char>> {
    or(
        no_text(row[0], "Aspect ID"@),
        or(
            no_text(row[1], "Aspect name"@),
            or(no_text(row[2], "Subject ID"@), no_text(row[3], "Resolution"@)),
        ),
    )
}

/// What is wrong with the identifiers and the resolution in a row of an aspect.
pub open spec fn aspect_value_error(row: Seq<SqlView>, resolution: Option<Seq<char>>) -> Option<
    Seq<char>,
> {
    or(
        bad_uuid(text_in(row[0])),
        or(bad_uuid(text_in(row[2])), bad_json(seq![], resolution)),
    )
}

/// An aspect as it stands in a row.
#[derive(Debug)]
pub struct AspectRow {
    pub id: AspectId,
    pub name: String,
    pub subject_id: SubjectId,
    pub resolution: Resolution,
}

/// The columns of an aspect in which it is read back.
pub open spec fn aspect_columns(id: u128, name: Seq<char>, subject: u128, resolution: Seq<char>) -> Seq<
    SqlView,
> {
    seq![
        SqlView::Text(uuid_text(id)),
        SqlView::Text(name),
        SqlView::Text(uuid_text(subject)),
        SqlView::Text(resolution),
    ]
}

/// The aspect in a row, or the error; what its resolution reads as is given. An aspect that was
/// written is read back.
pub fn parse_aspect_row(row: &Vec<SqlValue>, resolution: Result<Resolution, String>) -> (r: Result<
    AspectRow,
    Error,
>)
    requires
        row.len() == 4,
    ensures
        ({
            let views = value_views(row@);
            let wrong = or(
                aspect_text_error(views),
                aspect_value_error(views, refusal(resolution)),
            );
            match r {
                Ok(a) => {
                    &&& wrong is None
                    &&& uuid_parse(text_in(views[0])) == Ok::<u128, Seq<char>>(a.id.value)
                    &&& a.name@ == text_in(views[1])
                    &&& uuid_parse(text_in(views[2])) == Ok::<u128, Seq<char>>(a.subject_id.value)
                    &&& resolution == Ok::<Resolution, String>(a.resolution)
                },
                Err(e) => e is Message && tells(e, wrong),
            }
        }),
        forall|id: u128, name: Seq<char>, subject: u128, text: Seq<char>|
            value_views(row@) == #[trigger] aspect_columns(id, name, subject, text)
                && resolution is Ok ==> r is Ok && r->Ok_0.id.value == id && r->Ok_0.name@ == name
                && r->Ok_0.subject_id.value == subject,
{
    let ghost views = value_views(row@);
    assert(forall|i: int| 0 <= i < 4 ==> #[trigger] views[i] == row@[i]@);
    let id = match any_text_column(row, 0, "Aspect ID") {
        Ok(s) => s,
        Err(e) => {
            return Err(e);
        },
    };
    let name = match any_text_column(row, 1, "Aspect name") {
        Ok(s) => s,
        Err(e) => {
            return Err(e);
        },
    };
    let subject = match any_text_column(row, 2, "Subject ID") {
        Ok(s) => s,
        Err(e) => {
            return Err(e);
        },
    };
    match any_text_column(row, 3, "Resolution") {
        Ok(_) => {},
        Err(e) => {
            return Err(e);
        },
    }
    let id: u128 = match plain_uuid(&id) {
        Ok(id) => id,
        Err(e) => {
            return Err(e);
        },
    };
    let subject: u128 = match plain_uuid(&subject) {
        Ok(id) => id,
        Err(e) => {
            return Err(e);
        },
    };
    match resolution {
        Ok(resolution) => Ok(
            AspectRow {
                id: AspectId { value: id },
                name,
                subject_id: SubjectId { value: subject },
                resolution,
            },
        ),
        Err(e) => {
            assert(Seq::<char>::empty() + e@ =~= e@);
            Err(Error::Message(e))
        },
    }
}

pub open spec fn aspect_text_errors(rows: Seq<Seq<SqlView>>) -> Seq<Option<Seq<char>>> {
    Seq::new(rows.len(), |i: int| aspect_text_error(rows[i]))
}

pub open spec fn aspect_value_errors(
    rows: Seq<Seq<SqlView>>,
    resolutions: Seq<Result<Resolution, String>>,
) -> Seq<Option<Seq<char>>> {
    Seq::new(rows.len(), |i: int| aspect_value_error(rows[i], refusal(resolutions[i])))
}

/// Whether an aspect stands in a row.
pub open spec fn is_aspect_in(
    a: AspectRow,
    row: Seq<SqlView>,
    resolution: Result<Resolution, String>,
) -> bool {
    &&& aspect_text_error(row) is None
    &&& aspect_value_error(row, refusal(resolution)) is None
    &&& uuid_parse(text_in(row[0])) == Ok::<u128, Seq<char>>(a.id.value)
    &&& a.name@ == text_in(row[1])
    &&& uuid_parse(text_in(row[2])) == Ok::<u128, Seq<char>>(a.subject_id.value)
    &&& resolution == Ok::<Resolution, String>(a.resolution)
}

/// The aspects in rows, or the error: all texts are looked at before anything else. What the
/// resolution of each reads as is given.
pub fn parse_aspect_rows(
    rows: &Vec<Vec<SqlValue>>,
    resolutions: Vec<Result<Resolution, String>>,
) -> (r: Result<Vec<AspectRow>, Error>)
    requires
        resolutions.len() == rows.len(),
        forall|i: int| 0 <= i < rows.len() ==> (#[trigger] rows@[i]).len() == 4,
    ensures
        ({
            let views = row_views(rows@);
            match r {
                Ok(aspects) => {
                    &&& aspects.len() == views.len()
                    &&& forall|i: int|
                        0 <= i < aspects.len() ==> is_aspect_in(
                            #[trigger] aspects@[i],
                            views[i],
                            resolutions@[i],
                        )
                },
                Err(e) => tells_of_rows(
                    e,
                    aspect_text_errors(views),
                    aspect_value_errors(views, resolutions@),
                ),
            }
        }),
{
    let ghost views = row_views(rows@);
    let ghost given = resolutions@;
    let ghost texts = aspect_text_errors(views);
    let ghost values = aspect_value_errors(views, given);
    let mut i: usize = 0;
    while i < rows.len()
        invariant
            i <= rows.len(),
            forall|i: int| 0 <= i < rows.len() ==> (#[trigger] rows@[i]).len() == 4,
            views == row_views(rows@),
            texts == aspect_text_errors(views),
            values == aspect_value_errors(views, given),
            given == resolutions@,
            forall|k: int| 0 <= k < i ==> (#[trigger] texts[k]) is None,
        decreases rows.len() - i,
    {
        let row = &rows[i];
        assert(row.len() == 4);
        assert(views[i as int][0] == row@[0]@ && views[i as int][1] == row@[1]@
            && views[i as int][2] == row@[2]@ && views[i as int][3] == row@[3]@);
        assert(texts[i as int] == aspect_text_error(views[i as int]));
        match any_text_column(row, 0, "Aspect ID") {
            Ok(_) => {},
            Err(e) => {
                assert(is_first_told(texts, i as int));
                return Err(e);
            },
        }
        match any_text_column(row, 1, "Aspect name") {
            Ok(_) => {},
            Err(e) => {
                assert(is_first_told(texts, i as int));
                return Err(e);
            },
        }
        match any_text_column(row, 2, "Subject ID") {
            Ok(_) => {},
            Err(e) => {
                assert(is_first_told(texts, i as int));
                return Err(e);
            },
        }
        match any_text_column(row, 3, "Resolution") {
            Ok(_) => {},
            Err(e) => {
                assert(is_first_told(texts, i as int));
                return Err(e);
            },
        }
        i += 1;
    }
    assert(!exists|k: int| #[trigger] is_first_told(texts, k));
    let mut rest = resolutions;
    let mut r: Vec<AspectRow> = Vec::new();
    let mut j: usize = 0;
    assert(rest@ =~= given.skip(0));
    while j < rows.len()
        invariant
            j <= rows.len(),
            forall|i: int| 0 <= i < rows.len() ==> (#[trigger] rows@[i]).len() == 4,
            views == row_views(rows@),
            texts == aspect_text_errors(views),
            values == aspect_value_errors(views, given),
            given == resolutions@,
            given.len() == rows.len(),
            rest@ == given.skip(j as int),
            forall|k: int| 0 <= k < rows.len() ==> (#[trigger] texts[k]) is None,
            !exists|k: int| #[trigger] is_first_told(texts, k),
            r.len() == j,
            forall|k: int| 0 <= k < j ==> (#[trigger] values[k]) is None,
            forall|k: int| 0 <= k < j ==> is_aspect_in(#[trigger] r@[k], views[k], given[k]),
        decreases rows.len() - j,
    {
        assert(rows@[j as int].len() == 4);
        assert(views[j as int] == value_views(rows@[j as int]@));
        assert(texts[j as int] is None);
        let resolution = rest.remove(0);
        proof {
            assert(resolution == given[j as int]);
            assert(rest@ =~= given.skip(j + 1));
        }
        match parse_aspect_row(&rows[j], resolution) {
            Ok(a) => {
                assert(values[j as int] is None);
                r.push(a);
            },
            Err(e) => {
                assert(values[j as int] == aspect_value_error(
                    views[j as int],
                    refusal(given[j as int]),
                ));
                assert(is_first_told(values, j as int) && tells(e, values[j as int]));
                return Err(e);
            },
        }
        j += 1;
    }
    Ok(r)
}

/// The statement of [`get_aspect`].
pub open spec fn spec_get_aspect(id: &AspectId) -> StatementView {
    StatementView {
        sql: "SELECT a.id, a.name, a.subject_id, a.resolution, s.name AS subject_name FROM aspects a JOIN subjects s ON s.id = a.subject_id WHERE a.id = ?"@,
        params: seq![SqlView::Text(uuid_text(id.value))],
    }
}

/// The query for an aspect.
pub fn get_aspect(id: &AspectId) -> (r: Statement)
    ensures
        r@ == spec_get_aspect(id),
{
    statement(
        "SELECT a.id, a.name, a.subject_id, a.resolution, s.name AS subject_name FROM aspects a JOIN subjects s ON s.id = a.subject_id WHERE a.id = ?",
        one_id(id.value),
    )
}

/// The statement of [`list_aspects`].
pub open spec fn spec_list_aspects(subject_id: &SubjectId) -> StatementView {
    StatementView {
        sql: "SELECT id, name, subject_id, resolution FROM aspects WHERE subject_id = ?"@,
        params: seq![SqlView::Text(uuid_text(subject_id.value))],
    }
}

/// The query for the aspects of a subject.
pub fn list_aspects(subject_id: &SubjectId) -> (r: Statement)
    ensures
        r@ == spec_list_aspects(subject_id),
{
    statement(
        "SELECT id, name, subject_id, resolution FROM aspects WHERE subject_id = ?",
        one_id(subject_id.value),
    )
}

/// A text with some characters replaced by underscores.
pub open spec fn underscored(s: Seq<char>, is_replaced: spec_fn(char) -> bool) -> Seq<char> {
    Seq::new(
        s.len(),
        |i: int|
            if is_replaced(s[i]) {
                '_'
            } else {
                s[i]
            },
    )
}

/// The name of the table of an aspect: by its subject and its name, without spaces and hyphens.
pub open spec fn table_name_of(subject: u128, name: Seq<char>) -> Seq<char> {
    "aspect_"@ + underscored(uuid_text(subject), |c: char| c == '-') + "_"@ + underscored(
        name,
        |c: char| c == ' ' || c == '-',
    )
}

fn without_hyphens(s: &str, and_spaces: bool) -> (r: String)
    ensures
        r@ == underscored(s@, |c: char| c == '-' || (and_spaces && c == ' ')),
{
    let chars = to_chars(s);
    let mut out: Vec<char> = Vec::new();
    let mut i: usize = 0;
    while i < chars.len()
        invariant
            i <= chars.len(),
            chars@ == s@,
            out.len() == i,
            forall|k: int|
                0 <= k < i ==> #[trigger] out@[k] == (if s@[k] == '-' || (and_spaces && s@[k]
                    == ' ') {
                    '_'
                } else {
                    s@[k]
                }),
        decreases chars.len() - i,
    {
        let c = chars[i];
        if c == '-' || (and_spaces && c == ' ') {
            out.push('_');
        } else {
            out.push(c);
        }
        i += 1;
    }
    let r = from_chars(&out);
    assert(r@ =~= underscored(s@, |c: char| c == '-' || (and_spaces && c == ' ')));
    r
}

/// The name of the table of an aspect.
pub fn table_name(subject_id: &SubjectId, name: &str) -> (r: String)
    ensures
        r@ == table_name_of(subject_id.value, name@),
{
    let subject = without_hyphens(subject_id.text().as_str(), false);
    let own = without_hyphens(name, true);
    let mut r = join("aspect_", subject.as_str());
    r.append("_");
    r.append(own.as_str());
    proof {
        assert(subject@ =~= underscored(uuid_text(subject_id.value), |c: char| c == '-'));
        assert(own@ =~= underscored(name@, |c: char| c == ' ' || c == '-'));
    }
    r
}

/// The statement of [`track_aspect`].
pub open spec fn spec_track_aspect(
    id: &AspectId,
    subject_id: &SubjectId,
    database_id: &DatabaseId,
    name: &str,
    resolution: &str,
    created_at: i64,
) -> StatementView {
    StatementView {
        sql: "INSERT INTO aspects (id, name, subject_id, database_id, table_name, resolution, created_at) VALUES (?, ?, ?, ?, ?, ?, ?)"@,
        params: seq![
            SqlView::Text(uuid_text(id.value)),
            SqlView::Text(name@),
            SqlView::Text(uuid_text(subject_id.value)),
            SqlView::Text(uuid_text(database_id.value)),
            SqlView::Text(table_name_of(subject_id.value, name@)),
            SqlView::Text(resolution@),
            SqlView::Integer(created_at as int),
        ],
    }
}

/// The statement that writes a new aspect of a subject, or an error where the subject has one of that
/// name; the names of its aspects and the text of its resolution are given.
pub fn track_aspect(
    existing: &Vec<String>,
    id: &AspectId,
    subject_id: &SubjectId,
    subject_name: &str,
    database_id: &DatabaseId,
    name: &str,
    resolution: &str,
    created_at: i64,
) -> (r: Result<Statement, Error>)
    ensures
        match r {
            Ok(s) => !name_views(existing@).contains(name@) && s@ == spec_track_aspect(
                id,
                subject_id,
                database_id,
                name,
                resolution,
                created_at,
            ),
            Err(e) => name_views(existing@).contains(name@) && e is Message && e.spec_message()
                == "Aspect '"@ + name@ + "' already exists for subject '"@ + subject_name@ + "'"@,
        },
{
    let mut i: usize = 0;
    while i < existing.len()
        invariant
            i <= existing.len(),
            forall|k: int| 0 <= k < i ==> (#[trigger] existing@[k])@ != name@,
        decreases existing.len() - i,
    {
        if same_text(existing[i].as_str(), name) {
            assert(name_views(existing@)[i as int] == name@);
            let mut message = join("Aspect '", name);
            message.append("' already exists for subject '");
            message.append(subject_name);
            message.append("'");
            return Err(Error::Message(message));
        }
        i += 1;
    }
    assert(!name_views(existing@).contains(name@)) by {
        assert forall|k: int| 0 <= k < name_views(existing@).len() implies name_views(existing@)[k]
            != name@ by {
            assert(existing@[k]@ != name@);
        }
    }
    let mut params: Vec<SqlValue> = Vec::new();
    params.push(text_value(id.text().as_str()));
    params.push(text_value(name));
    params.push(text_value(subject_id.text().as_str()));
    params.push(text_value(database_id.text().as_str()));
    params.push(text_value(table_name(subject_id, name).as_str()));
    params.push(text_value(resolution));
    params.push(SqlValue::Integer(created_at));
    assert(value_views(params@) =~= seq![
        SqlView::Text(uuid_text(id.value)),
        SqlView::Text(name@),
        SqlView::Text(uuid_text(subject_id.value)),
        SqlView::Text(uuid_text(database_id.value)),
        SqlView::Text(table_name_of(subject_id.value, name@)),
        SqlView::Text(resolution@),
        SqlView::Integer(created_at as int),
    ]);
    Ok(
        statement(
            "INSERT INTO aspects (id, name, subject_id, database_id, table_name, resolution, created_at) VALUES (?, ?, ?, ?, ?, ?, ?)",
            params,
        ),
    )
}

/// Whether a character is a letter or a digit in the sense of Unicode.
pub uninterp spec fn alphanumeric(c: char) -> bool;

/// `char::is_alphanumeric` of std: of the ASCII characters the letters and the digits; which others
/// are, is told only by name.
#[verifier::external_body]
fn is_alphanumeric(c: char) -> (r: bool)
    ensures
        r == alphanumeric(c),
        (c as u32) < 128 ==> r == (('0' <= c && c <= '9') || ('A' <= c && c <= 'Z') || ('a' <= c
            && c <= 'z')),
{
    c.is_alphanumeric()
}

/// A name in which every character but letters, digits and underscores is an underscore.
pub fn sanitize_table_name(name: &str) -> (r: String)
    ensures
        r@ == underscored(name@, |c: char| !(alphanumeric(c) || c == '_')),
{
    let chars = to_chars(name);
    let mut out: Vec<char> = Vec::new();
    let mut i: usize = 0;
    while i < chars.len()
        invariant
            i <= chars.len(),
            chars@ == name@,
            out.len() == i,
            forall|k: int|
                0 <= k < i ==> #[trigger] out@[k] == (if alphanumeric(name@[k]) || name@[k] == '_' {
                    name@[k]
                } else {
                    '_'
                }),
        decreases chars.len() - i,
    {
        let c = chars[i];
        if is_alphanumeric(c) || c == '_' {
            out.push(c);
        } else {
            out.push('_');
        }
        i += 1;
    }
    let r = from_chars(&out);
    assert(r@ =~= underscored(name@, |c: char| !(alphanumeric(c) || c == '_')));
    r
}

/// A sanitized name is one already.
pub proof fn law_sanitizing_twice_is_once(name: Seq<char>)
    ensures
        ({
            let once = underscored(name, |c: char| !(alphanumeric(c) || c == '_'));
            underscored(once, |c: char| !(alphanumeric(c) || c == '_')) == once
        }),
{
    let once = underscored(name, |c: char| !(alphanumeric(c) || c == '_'));
    assert(underscored(once, |c: char| !(alphanumeric(c) || c == '_')) =~= once);
}

/// What is wrong with a row of an instant after RFC 3339.
pub open spec fn instant_error(row: Seq<SqlView>, field: Seq<char>) -> Option<Seq<char>> {
    or(
        no_text(row[0], field),
        if text_in(row[0]).len() == 0 {
            None
        } else {
            match rfc3339_parse(text_in(row[0])) {
                Ok(_) => None,
                Err(e) => Some(e),
            }
        },
    )
}

/// The instant in a row, or the error; an empty text is none.
pub fn parse_instant_row(row: &Vec<SqlValue>, field: &str) -> (r: Result<Option<Timestamp>, Error>)
    requires
        row.len() == 1,
    ensures
        ({
            let views = value_views(row@);
            match r {
                Ok(None) => instant_error(views, field@) is None && text_in(views[0]).len() == 0,
                Ok(Some(t)) => instant_error(views, field@) is None && text_in(views[0]).len() > 0
                    && rfc3339_parse(text_in(views[0])) == Ok::<(i64, u32), Seq<char>>(
                    (t.seconds, t.nanos),
                ),
                Err(e) => e is Message && tells(e, instant_error(views, field@)),
            }
        }),
{
    let ghost views = value_views(row@);
    assert(views[0] == row@[0]@);
    let text = match any_text_column(row, 0, field) {
        Ok(s) => s,
        Err(e) => {
            return Err(e);
        },
    };
    proof {
        reveal_strlit("");
        assert(text@.len() == 0 ==> text@ =~= ""@);
    }
    if same_text(text.as_str(), "") {
        return Ok(None);
    }
    match Timestamp::parse_rfc3339(text.as_str()) {
        Ok(t) => Ok(Some(t)),
        Err(e) => Err(Error::Message(e)),
    }
}

/// The instant of a text of milliseconds; another value is none.
pub open spec fn millis_read(value: SqlView) -> Option<int> {
    match value {
        SqlView::Text(s) => match signed_of(s, i64::MIN as int, i64::MAX as int) {
            Some(n) => if MIN_SECONDS <= n / 1000 <= MAX_SECONDS {
                Some(n)
            } else {
                None
            },
            None => None,
        },
        _ => None,
    }
}

/// The instant of a text of milliseconds; another value is none.
pub fn millis_in(value: &SqlValue) -> (r: Option<Timestamp>)
    ensures
        match r {
            Some(t) => t.is_valid() && millis_read(value@) == Some(t.spec_millis()) && t.total()
                == t.spec_millis() * 1_000_000,
            None => millis_read(value@) is None,
        },
{
    match value {
        SqlValue::Text(s) => match parse_i64(s.as_str()) {
            Ok(n) => Timestamp::from_millis(n),
            Err(_) => None,
        },
        _ => None,
    }
}

/// The instant of the text of milliseconds in a row; another value is none.
pub fn parse_millis_row(row: &Vec<SqlValue>) -> (r: Option<Timestamp>)
    requires
        row.len() == 1,
    ensures
        match r {
            Some(t) => t.is_valid() && millis_read(row@[0]@) == Some(t.spec_millis()) && t.total()
                == t.spec_millis() * 1_000_000,
            None => millis_read(row@[0]@) is None,
        },
{
    millis_in(&row[0])
}

/// The resolution in a row by its capitalised name; a value that is no text is none, and another
/// text is an error.
pub fn parse_resolution_row(row: &Vec<SqlValue>) -> (r: Result<Option<Resolution>, Error>)
    requires
        row.len() == 1,
    ensures
        match r {
            Ok(None) => !(row@[0]@ is Text),
            Ok(Some(resolution)) => row@[0]@ == SqlView::Text(resolution.spec_name()),
            Err(e) => {
                &&& row@[0]@ is Text
                &&& forall|resolution: Resolution|
                    row@[0]@->Text_0 != #[trigger] resolution.spec_name()
                &&& e matches Error::DatabaseError(s)
                &&& s@ == "Invalid resolution value: "@ + row@[0]@->Text_0
            },
        },
{
    match &row[0] {
        SqlValue::Text(s) => match Resolution::parse_name(s.as_str()) {
            Ok(resolution) => Ok(Some(resolution)),
            Err(e) => Err(e),
        },
        _ => Ok(None),
    }
}

/// The statement of [`update_aspect_timestamps`].
pub open spec fn spec_update_aspect_timestamps(
    aspect_id: &AspectId,
    earliest: &Timestamp,
    latest: &Timestamp,
) -> StatementView {
    StatementView {
        sql: "UPDATE aspects SET earliest_measurement = ?, latest_measurement = ? WHERE id = ?"@,
        params: seq![
            SqlView::Text(rfc3339_text(earliest.seconds, earliest.nanos)),
            SqlView::Text(rfc3339_text(latest.seconds, latest.nanos)),
            SqlView::Text(uuid_text(aspect_id.value)),
        ],
    }
}

/// The statement that writes the instants of the earliest and the latest measurement of an aspect.
pub fn update_aspect_timestamps(aspect_id: &AspectId, earliest: &Timestamp, latest: &Timestamp) -> (r:
    Statement)
    requires
        earliest.is_valid(),
        latest.is_valid(),
    ensures
        r@ == spec_update_aspect_timestamps(aspect_id, earliest, latest),
{
    let mut params: Vec<SqlValue> = Vec::new();
    params.push(text_value(earliest.rfc3339().as_str()));
    params.push(text_value(latest.rfc3339().as_str()));
    params.push(text_value(aspect_id.text().as_str()));
    assert(value_views(params@) =~= seq![
        SqlView::Text(rfc3339_text(earliest.seconds, earliest.nanos)),
        SqlView::Text(rfc3339_text(latest.seconds, latest.nanos)),
        SqlView::Text(uuid_text(aspect_id.value)),
    ]);
    statement(
        "UPDATE aspects SET earliest_measurement = ?, latest_measurement = ? WHERE id = ?",
        params,
    )
}

/// What is wrong with a row of a count.
pub open spec fn count_error(row: Seq<SqlView>) -> Option<Seq<char>> {
    or(
        no_text(row[0], "Count"@),
        match unsigned_of(text_in(row[0]), usize::MAX as nat) {
            Some(_) => None,
            None => Some(usize_refusal(text_in(row[0]))),
        },
    )
}

/// The count in a row, or the error; without a row there is nothing.
pub fn parse_count(row: Option<&Vec<SqlValue>>) -> (r: Result<usize, Error>)
    requires
        row matches Some(row) ==> row.len() == 1,
    ensures
        match row {
            None => r == Ok::<usize, Error>(0),
            Some(row) => match r {
                Ok(n) => count_error(value_views(row@)) is None && unsigned_of(
                    text_in(value_views(row@)[0]),
                    usize::MAX as nat,
                ) == Some(n as nat),
                Err(e) => e is Message && tells(e, count_error(value_views(row@))),
            },
        },
{
    match row {
        None => Ok(0),
        Some(row) => {
            assert(value_views(row@)[0] == row@[0]@);
            let text = match any_text_column(row, 0, "Count") {
                Ok(s) => s,
                Err(e) => {
                    return Err(e);
                },
            };
            match parse_usize(text.as_str()) {
                Ok(n) => Ok(n),
                Err(e) => Err(Error::Message(e)),
            }
        },
    }
}

/// The statement of [`database_id_query`].
pub open spec fn spec_database_id_query(name: &str) -> StatementView {
    StatementView {
        sql: "SELECT id FROM database WHERE name = ?"@,
        params: seq![SqlView::Text(name@)],
    }
}

/// The query for the identifier of a database.
pub fn database_id_query(name: &str) -> (r: Statement)
    ensures
        r@ == spec_database_id_query(name),
{
    statement("SELECT id FROM database WHERE name = ?", one_text(name))
}

/// The statement of [`creation_time_query`].
pub open spec fn spec_creation_time_query(name: &str) -> StatementView {
    StatementView {
        sql: "SELECT created_at FROM database WHERE name = ?"@,
        params: seq![SqlView::Text(name@)],
    }
}

/// The query for when a database was made.
pub fn creation_time_query(name: &str) -> (r: Statement)
    ensures
        r@ == spec_creation_time_query(name),
{
    statement("SELECT created_at FROM database WHERE name = ?", one_text(name))
}

/// The statement of [`all_subjects_query`].
pub open spec fn spec_all_subjects_query() -> StatementView {
    StatementView {
        sql: "SELECT id, database_id, name, created_at FROM subjects"@,
        params: seq![],
    }
}

/// The query for every subject.
pub fn all_subjects_query() -> (r: Statement)
    ensures
        r@ == spec_all_subjects_query(),
{
    statement("SELECT id, database_id, name, created_at FROM subjects", no_values())
}

/// The statement of [`get_subject_by_name`].
pub open spec fn spec_get_subject_by_name(name: &str) -> StatementView {
    StatementView {
        sql: "SELECT id, name, database_id FROM subjects WHERE name = ?"@,
        params: seq![SqlView::Text(name@)],
    }
}

/// The query for a subject by its name.
pub fn get_subject_by_name(name: &str) -> (r: Statement)
    ensures
        r@ == spec_get_subject_by_name(name),
{
    statement("SELECT id, name, database_id FROM subjects WHERE name = ?", one_text(name))
}

/// The statement of [`subject_count_query`].
pub open spec fn spec_subject_count_query() -> StatementView {
    StatementView {
        sql: "SELECT COUNT(*) as count FROM subjects"@,
        params: seq![],
    }
}

/// The query for the number of subjects.
pub fn subject_count_query() -> (r: Statement)
    ensures
        r@ == spec_subject_count_query(),
{
    statement("SELECT COUNT(*) as count FROM subjects", no_values())
}

/// The statement of [`subject_aspects_query`].
pub open spec fn spec_subject_aspects_query(subject_id: &SubjectId) -> StatementView {
    StatementView {
        sql: "SELECT id, name, table_name, resolution FROM aspects WHERE subject_id = ?"@,
        params: seq![SqlView::Text(uuid_text(subject_id.value))],
    }
}

/// The query for the aspects of a subject, with their tables.
pub fn subject_aspects_query(subject_id: &SubjectId) -> (r: Statement)
    ensures
        r@ == spec_subject_aspects_query(subject_id),
{
    statement(
        "SELECT id, name, table_name, resolution FROM aspects WHERE subject_id = ?",
        one_id(subject_id.value),
    )
}

/// The statement of [`get_aspect_by_name`].
pub open spec fn spec_get_aspect_by_name(name: &str) -> StatementView {
    StatementView {
        sql: "SELECT a.id, a.name, a.subject_id, a.resolution, s.name AS subject_name FROM aspects a JOIN subjects s ON s.id = a.subject_id WHERE a.name = ?"@,
        params: seq![SqlView::Text(name@)],
    }
}

/// The query for an aspect by its name.
pub fn get_aspect_by_name(name: &str) -> (r: Statement)
    ensures
        r@ == spec_get_aspect_by_name(name),
{
    statement(
        "SELECT a.id, a.name, a.subject_id, a.resolution, s.name AS subject_name FROM aspects a JOIN subjects s ON s.id = a.subject_id WHERE a.name = ?",
        one_text(name),
    )
}

/// The statement of [`aspect_count_query`].
pub open spec fn spec_aspect_count_query() -> StatementView {
    StatementView {
        sql: "SELECT COUNT(*) as count FROM aspects"@,
        params: seq![],
    }
}

/// The query for the number of aspects.
pub fn aspect_count_query() -> (r: Statement)
    ensures
        r@ == spec_aspect_count_query(),
{
    statement("SELECT COUNT(*) as count FROM aspects", no_values())
}

/// The statement of [`get_earliest_measurement`].
pub open spec fn spec_get_earliest_measurement(aspect_id: &AspectId) -> StatementView {
    StatementView {
        sql: "SELECT MIN(timestamp) FROM measurements WHERE aspect_id = ?"@,
        params: seq![SqlView::Text(uuid_text(aspect_id.value))],
    }
}

/// The query for the earliest measurement of an aspect.
pub fn get_earliest_measurement(aspect_id: &AspectId) -> (r: Statement)
    ensures
        r@ == spec_get_earliest_measurement(aspect_id),
{
    statement(
        "SELECT MIN(timestamp) FROM measurements WHERE aspect_id = ?",
        one_id(aspect_id.value),
    )
}

/// The statement of [`get_latest_measurement`].
pub open spec fn spec_get_latest_measurement(aspect_id: &AspectId) -> StatementView {
    StatementView {
        sql: "SELECT MAX(timestamp) FROM measurements WHERE aspect_id = ?"@,
        params: seq![SqlView::Text(uuid_text(aspect_id.value))],
    }
}

/// The query for the latest measurement of an aspect.
pub fn get_latest_measurement(aspect_id: &AspectId) -> (r: Statement)
    ensures
        r@ == spec_get_latest_measurement(aspect_id),
{
    statement(
        "SELECT MAX(timestamp) FROM measurements WHERE aspect_id = ?",
        one_id(aspect_id.value),
    )
}

/// The statement of [`known_earliest_query`].
pub open spec fn spec_known_earliest_query(aspect_id: &AspectId) -> StatementView {
    StatementView {
        sql: "SELECT earliest_measurement FROM aspects WHERE id = ?"@,
        params: seq![SqlView::Text(uuid_text(aspect_id.value))],
    }
}

/// The query for the earliest measurement that an aspect knows of.
pub fn known_earliest_query(aspect_id: &AspectId) -> (r: Statement)
    ensures
        r@ == spec_known_earliest_query(aspect_id),
{
    statement("SELECT earliest_measurement FROM aspects WHERE id = ?", one_id(aspect_id.value))
}

/// The statement of [`known_latest_query`].
pub open spec fn spec_known_latest_query(aspect_id: &AspectId) -> StatementView {
    StatementView {
        sql: "SELECT latest_measurement FROM aspects WHERE id = ?"@,
        params: seq![SqlView::Text(uuid_text(aspect_id.value))],
    }
}

/// The query for the latest measurement that an aspect knows of.
pub fn known_latest_query(aspect_id: &AspectId) -> (r: Statement)
    ensures
        r@ == spec_known_latest_query(aspect_id),
{
    statement("SELECT latest_measurement FROM aspects WHERE id = ?", one_id(aspect_id.value))
}

/// The statement of [`get_aspect_resolution`].
pub open spec fn spec_get_aspect_resolution(aspect_id: &AspectId) -> StatementView {
    StatementView {
        sql: "SELECT resolution FROM aspects WHERE id = ?"@,
        params: seq![SqlView::Text(uuid_text(aspect_id.value))],
    }
}

/// The query for the resolution of an aspect.
pub fn get_aspect_resolution(aspect_id: &AspectId) -> (r: Statement)
    ensures
        r@ == spec_get_aspect_resolution(aspect_id),
{
    statement("SELECT resolution FROM aspects WHERE id = ?", one_id(aspect_id.value))
}

}
