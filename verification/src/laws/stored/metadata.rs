//! What the statements on the stored metadata read, add, change and take away.
use crate::ids::{uuid_text, AspectId, DatabaseId, SubjectId, TxId};
use crate::laws::statements::{
    addition_text,
    change_text,
    columns_text,
    conditions_text,
    is_met,
    listed_text,
    only,
    puts,
    reading_text,
    removal_text,
    settings_text,
    values_put,
    values_taken,
    values_text,
    Conditions,
    Fields,
    Listed,
    Operand,
    Row,
    Sign,
};
use crate::sql::SqlView;
use crate::store::metadata::{
    spec_all_subjects_query,
    spec_aspect_count_query,
    spec_creation_time_query,
    spec_database_id_query,
    spec_db_metadata_path_query,
    spec_db_name_query,
    spec_get_aspect,
    spec_get_aspect_by_name,
    spec_get_aspect_resolution,
    spec_get_database_metadata_path_query,
    spec_get_earliest_measurement,
    spec_get_latest_measurement,
    spec_get_subject,
    spec_get_subject_by_name,
    spec_get_subject_name_query,
    spec_insert_database,
    spec_known_earliest_query,
    spec_known_latest_query,
    spec_list_aspects,
    spec_list_subjects,
    spec_observe_subject,
    spec_record_transaction,
    spec_remove_subject,
    spec_subject_aspects_query,
    spec_subject_count_query,
    spec_track_aspect,
    spec_track_subject,
    spec_update_aspect_timestamps,
    table_name_of,
};
use crate::text::int_text;
use crate::time::{rfc3339_text, Timestamp};
use vstd::prelude::*;

verus! {

/// The statement of `record_transaction` adds a row to `transactions`, with each value in the
/// column that is meant for it.
pub proof fn law_record_transaction_adds(id: &TxId, message: &str, created_at: i64)
    ensures
        ({
            let fields = Fields::Only("id"@, Operand::Given)
                .and("message"@, Operand::Given)
                .and("created_at"@, Operand::Given);
            let s = spec_record_transaction(id, message, created_at).statement;
            &&& s.sql == addition_text("INSERT INTO "@, "transactions"@, fields) + " ON CONFLICT(id) DO NOTHING"@
            &&& s.params.len() == 3
            &&& puts(fields, s.params, "id"@, SqlView::Text(uuid_text(id.value)))
            &&& puts(fields, s.params, "message"@, SqlView::Text(message@))
            &&& puts(fields, s.params, "created_at"@, SqlView::Integer(created_at as int))
        }),
{
    reveal_with_fuel(columns_text, 4);
    reveal_with_fuel(values_text, 4);
    reveal_with_fuel(puts, 4);
    reveal_with_fuel(values_put, 4);
    reveal_strlit(" (");
    reveal_strlit(" ON CONFLICT(id) DO NOTHING");
    reveal_strlit(")");
    reveal_strlit(") VALUES (");
    reveal_strlit(", ");
    reveal_strlit("?");
    reveal_strlit("INSERT INTO ");
    reveal_strlit("INSERT INTO transactions (id, message, created_at) VALUES (?, ?, ?) ON CONFLICT(id) DO NOTHING");
    reveal_strlit("created_at");
    reveal_strlit("id");
    reveal_strlit("message");
    reveal_strlit("transactions");
    let fields = Fields::Only("id"@, Operand::Given)
        .and("message"@, Operand::Given)
        .and("created_at"@, Operand::Given);
    let s = spec_record_transaction(id, message, created_at).statement;
    assert(s.sql =~= addition_text("INSERT INTO "@, "transactions"@, fields) + " ON CONFLICT(id) DO NOTHING"@);
}

/// The statement of `db_name_query` reads `name` of every row of `database`, and no more than one.
pub proof fn law_db_name_query_reads()
    ensures
        ({
            let met = Conditions::Always;
            let columns = Listed::Only("name"@);
            let s = spec_db_name_query();
            &&& s.sql == reading_text(columns, "database"@, met) + " LIMIT 1"@
            &&& s.params.len() == 0
        }),
{
    reveal_with_fuel(listed_text, 2);
    reveal_with_fuel(conditions_text, 2);
    reveal_strlit("");
    reveal_strlit(" FROM ");
    reveal_strlit(" LIMIT 1");
    reveal_strlit("SELECT ");
    reveal_strlit("SELECT name FROM database LIMIT 1");
    reveal_strlit("database");
    reveal_strlit("name");
    let met = Conditions::Always;
    let columns = Listed::Only("name"@);
    let s = spec_db_name_query();
    assert(s.sql =~= reading_text(columns, "database"@, met) + " LIMIT 1"@);
}

/// The statement of `db_metadata_path_query` reads `metadata_path` of every row of `database`, and
/// no more than one.
pub proof fn law_db_metadata_path_query_reads()
    ensures
        ({
            let met = Conditions::Always;
            let columns = Listed::Only("metadata_path"@);
            let s = spec_db_metadata_path_query();
            &&& s.sql == reading_text(columns, "database"@, met) + " LIMIT 1"@
            &&& s.params.len() == 0
        }),
{
    reveal_with_fuel(listed_text, 2);
    reveal_with_fuel(conditions_text, 2);
    reveal_strlit("");
    reveal_strlit(" FROM ");
    reveal_strlit(" LIMIT 1");
    reveal_strlit("SELECT ");
    reveal_strlit("SELECT metadata_path FROM database LIMIT 1");
    reveal_strlit("database");
    reveal_strlit("metadata_path");
    let met = Conditions::Always;
    let columns = Listed::Only("metadata_path"@);
    let s = spec_db_metadata_path_query();
    assert(s.sql =~= reading_text(columns, "database"@, met) + " LIMIT 1"@);
}

/// The statement of `get_database_metadata_path_query` reads `metadata_path` of every row of
/// `database`.
pub proof fn law_get_database_metadata_path_query_reads()
    ensures
        ({
            let met = Conditions::Always;
            let columns = Listed::Only("metadata_path"@);
            let s = spec_get_database_metadata_path_query();
            &&& s.sql == reading_text(columns, "database"@, met)
            &&& s.params.len() == 0
        }),
{
    reveal_with_fuel(listed_text, 2);
    reveal_with_fuel(conditions_text, 2);
    reveal_strlit("");
    reveal_strlit(" FROM ");
    reveal_strlit("SELECT ");
    reveal_strlit("SELECT metadata_path FROM database");
    reveal_strlit("database");
    reveal_strlit("metadata_path");
    let met = Conditions::Always;
    let columns = Listed::Only("metadata_path"@);
    let s = spec_get_database_metadata_path_query();
    assert(s.sql =~= reading_text(columns, "database"@, met));
}

/// The statement of `get_subject_name_query` reads `name` of exactly those rows of `subjects` that
/// are asked for.
pub proof fn law_get_subject_name_query_reads(subject_id: &SubjectId, row: Row)
    ensures
        ({
            let met = only("id"@, Sign::Is);
            let columns = Listed::Only("name"@);
            let s = spec_get_subject_name_query(subject_id);
            &&& s.sql == reading_text(columns, "subjects"@, met)
            &&& s.params.len() == 1
            &&& is_met(met, s.params, 0, row) <==> row["id"@] == SqlView::Text(uuid_text(subject_id.value))
        }),
{
    reveal_with_fuel(listed_text, 2);
    reveal_with_fuel(conditions_text, 3);
    reveal_with_fuel(is_met, 3);
    reveal_with_fuel(values_taken, 3);
    reveal_strlit("");
    reveal_strlit(" = ");
    reveal_strlit(" FROM ");
    reveal_strlit(" WHERE ");
    reveal_strlit("?");
    reveal_strlit("SELECT ");
    reveal_strlit("SELECT name FROM subjects WHERE id = ?");
    reveal_strlit("id");
    reveal_strlit("name");
    reveal_strlit("subjects");
    let met = only("id"@, Sign::Is);
    let columns = Listed::Only("name"@);
    let s = spec_get_subject_name_query(subject_id);
    assert(s.sql =~= reading_text(columns, "subjects"@, met));
}

/// The statement of `insert_database` adds a row to `database`, with each value in the column that
/// is meant for it.
pub proof fn law_insert_database_adds(
    id: &DatabaseId,
    name: &str,
    created_at: i64,
    metadata_path: &str,
)
    ensures
        ({
            let fields = Fields::Only("id"@, Operand::Given)
                .and("name"@, Operand::Given)
                .and("created_at"@, Operand::Given)
                .and("metadata_path"@, Operand::Given);
            let s = spec_insert_database(id, name, created_at, metadata_path);
            &&& s.sql == addition_text("INSERT INTO "@, "database"@, fields)
            &&& s.params.len() == 4
            &&& puts(fields, s.params, "id"@, SqlView::Text(uuid_text(id.value)))
            &&& puts(fields, s.params, "name"@, SqlView::Text(name@))
            &&& puts(fields, s.params, "created_at"@, SqlView::Integer(created_at as int))
            &&& puts(fields, s.params, "metadata_path"@, SqlView::Text(metadata_path@))
        }),
{
    reveal_with_fuel(columns_text, 5);
    reveal_with_fuel(values_text, 5);
    reveal_with_fuel(puts, 5);
    reveal_with_fuel(values_put, 5);
    reveal_strlit(" (");
    reveal_strlit(")");
    reveal_strlit(") VALUES (");
    reveal_strlit(", ");
    reveal_strlit("?");
    reveal_strlit("INSERT INTO ");
    reveal_strlit("INSERT INTO database (id, name, created_at, metadata_path) VALUES (?, ?, ?, ?)");
    reveal_strlit("created_at");
    reveal_strlit("database");
    reveal_strlit("id");
    reveal_strlit("metadata_path");
    reveal_strlit("name");
    let fields = Fields::Only("id"@, Operand::Given)
        .and("name"@, Operand::Given)
        .and("created_at"@, Operand::Given)
        .and("metadata_path"@, Operand::Given);
    let s = spec_insert_database(id, name, created_at, metadata_path);
    assert(s.sql =~= addition_text("INSERT INTO "@, "database"@, fields));
}

/// The statement of `observe_subject` adds a row to `subjects`, with each value in the column that
/// is meant for it.
pub proof fn law_observe_subject_adds(
    name: &str,
    id: &SubjectId,
    database_id: &DatabaseId,
    created_at: i64,
)
    ensures
        ({
            let fields = Fields::Only("id"@, Operand::Given)
                .and("name"@, Operand::Given)
                .and("database_id"@, Operand::Given)
                .and("created_at"@, Operand::Given);
            let s = spec_observe_subject(name, id, database_id, created_at);
            &&& s.sql == addition_text("INSERT INTO "@, "subjects"@, fields)
            &&& s.params.len() == 4
            &&& puts(fields, s.params, "id"@, SqlView::Text(uuid_text(id.value)))
            &&& puts(fields, s.params, "name"@, SqlView::Text(name@))
            &&& puts(fields, s.params, "database_id"@, SqlView::Text(uuid_text(database_id.value)))
            &&& puts(fields, s.params, "created_at"@, SqlView::Integer(created_at as int))
        }),
{
    reveal_with_fuel(columns_text, 5);
    reveal_with_fuel(values_text, 5);
    reveal_with_fuel(puts, 5);
    reveal_with_fuel(values_put, 5);
    reveal_strlit(" (");
    reveal_strlit(")");
    reveal_strlit(") VALUES (");
    reveal_strlit(", ");
    reveal_strlit("?");
    reveal_strlit("INSERT INTO ");
    reveal_strlit("INSERT INTO subjects (id, name, database_id, created_at) VALUES (?, ?, ?, ?)");
    reveal_strlit("created_at");
    reveal_strlit("database_id");
    reveal_strlit("id");
    reveal_strlit("name");
    reveal_strlit("subjects");
    let fields = Fields::Only("id"@, Operand::Given)
        .and("name"@, Operand::Given)
        .and("database_id"@, Operand::Given)
        .and("created_at"@, Operand::Given);
    let s = spec_observe_subject(name, id, database_id, created_at);
    assert(s.sql =~= addition_text("INSERT INTO "@, "subjects"@, fields));
}

/// The statement of `track_subject` adds a row to `subjects`, with each value in the column that is
/// meant for it.
pub proof fn law_track_subject_adds(
    id: &SubjectId,
    database_id: &DatabaseId,
    name: &str,
    created_at: i64,
)
    ensures
        ({
            let fields = Fields::Only("id"@, Operand::Given)
                .and("database_id"@, Operand::Given)
                .and("name"@, Operand::Given)
                .and("created_at"@, Operand::Given);
            let s = spec_track_subject(id, database_id, name, created_at).statement;
            &&& s.sql == addition_text("INSERT INTO "@, "subjects"@, fields)
            &&& s.params.len() == 4
            &&& puts(fields, s.params, "id"@, SqlView::Text(uuid_text(id.value)))
            &&& puts(fields, s.params, "database_id"@, SqlView::Text(uuid_text(database_id.value)))
            &&& puts(fields, s.params, "name"@, SqlView::Text(name@))
            &&& puts(fields, s.params, "created_at"@, SqlView::Text(int_text(created_at as int)))
        }),
{
    reveal_with_fuel(columns_text, 5);
    reveal_with_fuel(values_text, 5);
    reveal_with_fuel(puts, 5);
    reveal_with_fuel(values_put, 5);
    reveal_strlit(" (");
    reveal_strlit(")");
    reveal_strlit(") VALUES (");
    reveal_strlit(", ");
    reveal_strlit("?");
    reveal_strlit("INSERT INTO ");
    reveal_strlit("INSERT INTO subjects (id, database_id, name, created_at) VALUES (?, ?, ?, ?)");
    reveal_strlit("created_at");
    reveal_strlit("database_id");
    reveal_strlit("id");
    reveal_strlit("name");
    reveal_strlit("subjects");
    let fields = Fields::Only("id"@, Operand::Given)
        .and("database_id"@, Operand::Given)
        .and("name"@, Operand::Given)
        .and("created_at"@, Operand::Given);
    let s = spec_track_subject(id, database_id, name, created_at).statement;
    assert(s.sql =~= addition_text("INSERT INTO "@, "subjects"@, fields));
}

/// The statement of `remove_subject` takes exactly those rows of `subjects` away that are meant.
pub proof fn law_remove_subject_removes(id: &SubjectId, row: Row)
    ensures
        ({
            let met = only("id"@, Sign::Is);
            let s = spec_remove_subject(id);
            &&& s.sql == removal_text("subjects"@, met)
            &&& s.params.len() == 1
            &&& is_met(met, s.params, 0, row) <==> row["id"@] == SqlView::Text(uuid_text(id.value))
        }),
{
    reveal_with_fuel(conditions_text, 3);
    reveal_with_fuel(is_met, 3);
    reveal_with_fuel(values_taken, 3);
    reveal_strlit("");
    reveal_strlit(" = ");
    reveal_strlit(" WHERE ");
    reveal_strlit("?");
    reveal_strlit("DELETE FROM ");
    reveal_strlit("DELETE FROM subjects WHERE id = ?");
    reveal_strlit("id");
    reveal_strlit("subjects");
    let met = only("id"@, Sign::Is);
    let s = spec_remove_subject(id);
    assert(s.sql =~= removal_text("subjects"@, met));
}

/// The statement of `get_subject` reads `id`, `name` and `database_id` of exactly those rows of
/// `subjects` that are asked for.
pub proof fn law_get_subject_reads(id: &SubjectId, row: Row)
    ensures
        ({
            let met = only("id"@, Sign::Is);
            let columns = Listed::Only("id"@).and("name"@).and("database_id"@);
            let s = spec_get_subject(id);
            &&& s.sql == reading_text(columns, "subjects"@, met)
            &&& s.params.len() == 1
            &&& is_met(met, s.params, 0, row) <==> row["id"@] == SqlView::Text(uuid_text(id.value))
        }),
{
    reveal_with_fuel(listed_text, 4);
    reveal_with_fuel(conditions_text, 3);
    reveal_with_fuel(is_met, 3);
    reveal_with_fuel(values_taken, 3);
    reveal_strlit("");
    reveal_strlit(" = ");
    reveal_strlit(" FROM ");
    reveal_strlit(" WHERE ");
    reveal_strlit(", ");
    reveal_strlit("?");
    reveal_strlit("SELECT ");
    reveal_strlit("SELECT id, name, database_id FROM subjects WHERE id = ?");
    reveal_strlit("database_id");
    reveal_strlit("id");
    reveal_strlit("name");
    reveal_strlit("subjects");
    let met = only("id"@, Sign::Is);
    let columns = Listed::Only("id"@).and("name"@).and("database_id"@);
    let s = spec_get_subject(id);
    assert(s.sql =~= reading_text(columns, "subjects"@, met));
}

/// The statement of `list_subjects` reads `id`, `name` and `database_id` of exactly those rows of
/// `subjects` that are asked for.
pub proof fn law_list_subjects_reads(database_id: &DatabaseId, row: Row)
    ensures
        ({
            let met = only("database_id"@, Sign::Is);
            let columns = Listed::Only("id"@).and("name"@).and("database_id"@);
            let s = spec_list_subjects(database_id);
            &&& s.sql == reading_text(columns, "subjects"@, met)
            &&& s.params.len() == 1
            &&& is_met(met, s.params, 0, row) <==> row["database_id"@] == SqlView::Text(uuid_text(database_id.value))
        }),
{
    reveal_with_fuel(listed_text, 4);
    reveal_with_fuel(conditions_text, 3);
    reveal_with_fuel(is_met, 3);
    reveal_with_fuel(values_taken, 3);
    reveal_strlit("");
    reveal_strlit(" = ");
    reveal_strlit(" FROM ");
    reveal_strlit(" WHERE ");
    reveal_strlit(", ");
    reveal_strlit("?");
    reveal_strlit("SELECT ");
    reveal_strlit("SELECT id, name, database_id FROM subjects WHERE database_id = ?");
    reveal_strlit("database_id");
    reveal_strlit("id");
    reveal_strlit("name");
    reveal_strlit("subjects");
    let met = only("database_id"@, Sign::Is);
    let columns = Listed::Only("id"@).and("name"@).and("database_id"@);
    let s = spec_list_subjects(database_id);
    assert(s.sql =~= reading_text(columns, "subjects"@, met));
}

/// The statement of `get_aspect` reads `a.id`, `a.name`, `a.subject_id`, `a.resolution` and `s.name
/// AS subject_name` of exactly those rows of `aspects a JOIN subjects s ON s.id = a.subject_id`
/// that are asked for.
pub proof fn law_get_aspect_reads(id: &AspectId, row: Row)
    ensures
        ({
            let met = only("a.id"@, Sign::Is);
            let columns = Listed::Only("a.id"@)
                .and("a.name"@)
                .and("a.subject_id"@)
                .and("a.resolution"@)
                .and("s.name AS subject_name"@);
            let s = spec_get_aspect(id);
            &&& s.sql == reading_text(columns, "aspects a JOIN subjects s ON s.id = a.subject_id"@, met)
            &&& s.params.len() == 1
            &&& is_met(met, s.params, 0, row) <==> row["a.id"@] == SqlView::Text(uuid_text(id.value))
        }),
{
    reveal_with_fuel(listed_text, 6);
    reveal_with_fuel(conditions_text, 3);
    reveal_with_fuel(is_met, 3);
    reveal_with_fuel(values_taken, 3);
    reveal_strlit("");
    reveal_strlit(" = ");
    reveal_strlit(" FROM ");
    reveal_strlit(" WHERE ");
    reveal_strlit(", ");
    reveal_strlit("?");
    reveal_strlit("SELECT ");
    reveal_strlit("SELECT a.id, a.name, a.subject_id, a.resolution, s.name AS subject_name FROM aspects a JOIN subjects s ON s.id = a.subject_id WHERE a.id = ?");
    reveal_strlit("a.id");
    reveal_strlit("a.name");
    reveal_strlit("a.resolution");
    reveal_strlit("a.subject_id");
    reveal_strlit("aspects a JOIN subjects s ON s.id = a.subject_id");
    reveal_strlit("s.name AS subject_name");
    let met = only("a.id"@, Sign::Is);
    let columns = Listed::Only("a.id"@)
        .and("a.name"@)
        .and("a.subject_id"@)
        .and("a.resolution"@)
        .and("s.name AS subject_name"@);
    let s = spec_get_aspect(id);
    assert(s.sql =~= reading_text(columns, "aspects a JOIN subjects s ON s.id = a.subject_id"@, met));
}

/// The statement of `list_aspects` reads `id`, `name`, `subject_id` and `resolution` of exactly
/// those rows of `aspects` that are asked for.
pub proof fn law_list_aspects_reads(subject_id: &SubjectId, row: Row)
    ensures
        ({
            let met = only("subject_id"@, Sign::Is);
            let columns = Listed::Only("id"@).and("name"@).and("subject_id"@).and("resolution"@);
            let s = spec_list_aspects(subject_id);
            &&& s.sql == reading_text(columns, "aspects"@, met)
            &&& s.params.len() == 1
            &&& is_met(met, s.params, 0, row) <==> row["subject_id"@] == SqlView::Text(uuid_text(subject_id.value))
        }),
{
    reveal_with_fuel(listed_text, 5);
    reveal_with_fuel(conditions_text, 3);
    reveal_with_fuel(is_met, 3);
    reveal_with_fuel(values_taken, 3);
    reveal_strlit("");
    reveal_strlit(" = ");
    reveal_strlit(" FROM ");
    reveal_strlit(" WHERE ");
    reveal_strlit(", ");
    reveal_strlit("?");
    reveal_strlit("SELECT ");
    reveal_strlit("SELECT id, name, subject_id, resolution FROM aspects WHERE subject_id = ?");
    reveal_strlit("aspects");
    reveal_strlit("id");
    reveal_strlit("name");
    reveal_strlit("resolution");
    reveal_strlit("subject_id");
    let met = only("subject_id"@, Sign::Is);
    let columns = Listed::Only("id"@).and("name"@).and("subject_id"@).and("resolution"@);
    let s = spec_list_aspects(subject_id);
    assert(s.sql =~= reading_text(columns, "aspects"@, met));
}

/// The statement of `track_aspect` adds a row to `aspects`, with each value in the column that is
/// meant for it.
pub proof fn law_track_aspect_adds(
    id: &AspectId,
    subject_id: &SubjectId,
    database_id: &DatabaseId,
    name: &str,
    resolution: &str,
    created_at: i64,
)
    ensures
        ({
            let fields = Fields::Only("id"@, Operand::Given)
                .and("name"@, Operand::Given)
                .and("subject_id"@, Operand::Given)
                .and("database_id"@, Operand::Given)
                .and("table_name"@, Operand::Given)
                .and("resolution"@, Operand::Given)
                .and("created_at"@, Operand::Given);
            let s = spec_track_aspect(id, subject_id, database_id, name, resolution, created_at);
            &&& s.sql == addition_text("INSERT INTO "@, "aspects"@, fields)
            &&& s.params.len() == 7
            &&& puts(fields, s.params, "id"@, SqlView::Text(uuid_text(id.value)))
            &&& puts(fields, s.params, "name"@, SqlView::Text(name@))
            &&& puts(fields, s.params, "subject_id"@, SqlView::Text(uuid_text(subject_id.value)))
            &&& puts(fields, s.params, "database_id"@, SqlView::Text(uuid_text(database_id.value)))
            &&& puts(fields, s.params, "table_name"@, SqlView::Text(table_name_of(subject_id.value, name@)))
            &&& puts(fields, s.params, "resolution"@, SqlView::Text(resolution@))
            &&& puts(fields, s.params, "created_at"@, SqlView::Integer(created_at as int))
        }),
{
    reveal_with_fuel(columns_text, 8);
    reveal_with_fuel(values_text, 8);
    reveal_with_fuel(puts, 8);
    reveal_with_fuel(values_put, 8);
    reveal_strlit(" (");
    reveal_strlit(")");
    reveal_strlit(") VALUES (");
    reveal_strlit(", ");
    reveal_strlit("?");
    reveal_strlit("INSERT INTO ");
    reveal_strlit("INSERT INTO aspects (id, name, subject_id, database_id, table_name, resolution, created_at) VALUES (?, ?, ?, ?, ?, ?, ?)");
    reveal_strlit("aspects");
    reveal_strlit("created_at");
    reveal_strlit("database_id");
    reveal_strlit("id");
    reveal_strlit("name");
    reveal_strlit("resolution");
    reveal_strlit("subject_id");
    reveal_strlit("table_name");
    let fields = Fields::Only("id"@, Operand::Given)
        .and("name"@, Operand::Given)
        .and("subject_id"@, Operand::Given)
        .and("database_id"@, Operand::Given)
        .and("table_name"@, Operand::Given)
        .and("resolution"@, Operand::Given)
        .and("created_at"@, Operand::Given);
    let s = spec_track_aspect(id, subject_id, database_id, name, resolution, created_at);
    assert(s.sql =~= addition_text("INSERT INTO "@, "aspects"@, fields));
}

/// The statement of `update_aspect_timestamps` puts what is given into `earliest_measurement` and
/// `latest_measurement` of exactly those rows of `aspects` that are meant.
pub proof fn law_update_aspect_timestamps_changes(
    aspect_id: &AspectId,
    earliest: &Timestamp,
    latest: &Timestamp,
    row: Row,
)
    ensures
        ({
            let fields = Fields::Only("earliest_measurement"@, Operand::Given)
                .and("latest_measurement"@, Operand::Given);
            let met = only("id"@, Sign::Is);
            let s = spec_update_aspect_timestamps(aspect_id, earliest, latest);
            &&& s.sql == change_text("aspects"@, fields, met)
            &&& s.params.len() == 3
            &&& puts(fields, s.params, "earliest_measurement"@, SqlView::Text(rfc3339_text(earliest.seconds, earliest.nanos)))
            &&& puts(fields, s.params, "latest_measurement"@, SqlView::Text(rfc3339_text(latest.seconds, latest.nanos)))
            &&& is_met(met, s.params, 2, row) <==> row["id"@] == SqlView::Text(uuid_text(aspect_id.value))
        }),
{
    reveal_with_fuel(settings_text, 3);
    reveal_with_fuel(puts, 3);
    reveal_with_fuel(values_put, 3);
    reveal_with_fuel(conditions_text, 3);
    reveal_with_fuel(is_met, 3);
    reveal_with_fuel(values_taken, 3);
    reveal_strlit("");
    reveal_strlit(" = ");
    reveal_strlit(" SET ");
    reveal_strlit(" WHERE ");
    reveal_strlit(", ");
    reveal_strlit("?");
    reveal_strlit("UPDATE ");
    reveal_strlit("UPDATE aspects SET earliest_measurement = ?, latest_measurement = ? WHERE id = ?");
    reveal_strlit("aspects");
    reveal_strlit("earliest_measurement");
    reveal_strlit("id");
    reveal_strlit("latest_measurement");
    let fields = Fields::Only("earliest_measurement"@, Operand::Given)
        .and("latest_measurement"@, Operand::Given);
    let met = only("id"@, Sign::Is);
    let s = spec_update_aspect_timestamps(aspect_id, earliest, latest);
    assert(s.sql =~= change_text("aspects"@, fields, met));
}

/// The statement of `database_id_query` reads `id` of exactly those rows of `database` that are
/// asked for.
pub proof fn law_database_id_query_reads(name: &str, row: Row)
    ensures
        ({
            let met = only("name"@, Sign::Is);
            let columns = Listed::Only("id"@);
            let s = spec_database_id_query(name);
            &&& s.sql == reading_text(columns, "database"@, met)
            &&& s.params.len() == 1
            &&& is_met(met, s.params, 0, row) <==> row["name"@] == SqlView::Text(name@)
        }),
{
    reveal_with_fuel(listed_text, 2);
    reveal_with_fuel(conditions_text, 3);
    reveal_with_fuel(is_met, 3);
    reveal_with_fuel(values_taken, 3);
    reveal_strlit("");
    reveal_strlit(" = ");
    reveal_strlit(" FROM ");
    reveal_strlit(" WHERE ");
    reveal_strlit("?");
    reveal_strlit("SELECT ");
    reveal_strlit("SELECT id FROM database WHERE name = ?");
    reveal_strlit("database");
    reveal_strlit("id");
    reveal_strlit("name");
    let met = only("name"@, Sign::Is);
    let columns = Listed::Only("id"@);
    let s = spec_database_id_query(name);
    assert(s.sql =~= reading_text(columns, "database"@, met));
}

/// The statement of `creation_time_query` reads `created_at` of exactly those rows of `database`
/// that are asked for.
pub proof fn law_creation_time_query_reads(name: &str, row: Row)
    ensures
        ({
            let met = only("name"@, Sign::Is);
            let columns = Listed::Only("created_at"@);
            let s = spec_creation_time_query(name);
            &&& s.sql == reading_text(columns, "database"@, met)
            &&& s.params.len() == 1
            &&& is_met(met, s.params, 0, row) <==> row["name"@] == SqlView::Text(name@)
        }),
{
    reveal_with_fuel(listed_text, 2);
    reveal_with_fuel(conditions_text, 3);
    reveal_with_fuel(is_met, 3);
    reveal_with_fuel(values_taken, 3);
    reveal_strlit("");
    reveal_strlit(" = ");
    reveal_strlit(" FROM ");
    reveal_strlit(" WHERE ");
    reveal_strlit("?");
    reveal_strlit("SELECT ");
    reveal_strlit("SELECT created_at FROM database WHERE name = ?");
    reveal_strlit("created_at");
    reveal_strlit("database");
    reveal_strlit("name");
    let met = only("name"@, Sign::Is);
    let columns = Listed::Only("created_at"@);
    let s = spec_creation_time_query(name);
    assert(s.sql =~= reading_text(columns, "database"@, met));
}

/// The statement of `all_subjects_query` reads `id`, `database_id`, `name` and `created_at` of
/// every row of `subjects`.
pub proof fn law_all_subjects_query_reads()
    ensures
        ({
            let met = Conditions::Always;
            let columns = Listed::Only("id"@).and("database_id"@).and("name"@).and("created_at"@);
            let s = spec_all_subjects_query();
            &&& s.sql == reading_text(columns, "subjects"@, met)
            &&& s.params.len() == 0
        }),
{
    reveal_with_fuel(listed_text, 5);
    reveal_with_fuel(conditions_text, 2);
    reveal_strlit("");
    reveal_strlit(" FROM ");
    reveal_strlit(", ");
    reveal_strlit("SELECT ");
    reveal_strlit("SELECT id, database_id, name, created_at FROM subjects");
    reveal_strlit("created_at");
    reveal_strlit("database_id");
    reveal_strlit("id");
    reveal_strlit("name");
    reveal_strlit("subjects");
    let met = Conditions::Always;
    let columns = Listed::Only("id"@).and("database_id"@).and("name"@).and("created_at"@);
    let s = spec_all_subjects_query();
    assert(s.sql =~= reading_text(columns, "subjects"@, met));
}

/// The statement of `get_subject_by_name` reads `id`, `name` and `database_id` of exactly those
/// rows of `subjects` that are asked for.
pub proof fn law_get_subject_by_name_reads(name: &str, row: Row)
    ensures
        ({
            let met = only("name"@, Sign::Is);
            let columns = Listed::Only("id"@).and("name"@).and("database_id"@);
            let s = spec_get_subject_by_name(name);
            &&& s.sql == reading_text(columns, "subjects"@, met)
            &&& s.params.len() == 1
            &&& is_met(met, s.params, 0, row) <==> row["name"@] == SqlView::Text(name@)
        }),
{
    reveal_with_fuel(listed_text, 4);
    reveal_with_fuel(conditions_text, 3);
    reveal_with_fuel(is_met, 3);
    reveal_with_fuel(values_taken, 3);
    reveal_strlit("");
    reveal_strlit(" = ");
    reveal_strlit(" FROM ");
    reveal_strlit(" WHERE ");
    reveal_strlit(", ");
    reveal_strlit("?");
    reveal_strlit("SELECT ");
    reveal_strlit("SELECT id, name, database_id FROM subjects WHERE name = ?");
    reveal_strlit("database_id");
    reveal_strlit("id");
    reveal_strlit("name");
    reveal_strlit("subjects");
    let met = only("name"@, Sign::Is);
    let columns = Listed::Only("id"@).and("name"@).and("database_id"@);
    let s = spec_get_subject_by_name(name);
    assert(s.sql =~= reading_text(columns, "subjects"@, met));
}

/// The statement of `subject_count_query` reads `COUNT(*) as count` of every row of `subjects`.
pub proof fn law_subject_count_query_reads()
    ensures
        ({
            let met = Conditions::Always;
            let columns = Listed::Only("COUNT(*) as count"@);
            let s = spec_subject_count_query();
            &&& s.sql == reading_text(columns, "subjects"@, met)
            &&& s.params.len() == 0
        }),
{
    reveal_with_fuel(listed_text, 2);
    reveal_with_fuel(conditions_text, 2);
    reveal_strlit("");
    reveal_strlit(" FROM ");
    reveal_strlit("COUNT(*) as count");
    reveal_strlit("SELECT ");
    reveal_strlit("SELECT COUNT(*) as count FROM subjects");
    reveal_strlit("subjects");
    let met = Conditions::Always;
    let columns = Listed::Only("COUNT(*) as count"@);
    let s = spec_subject_count_query();
    assert(s.sql =~= reading_text(columns, "subjects"@, met));
}

/// The statement of `subject_aspects_query` reads `id`, `name`, `table_name` and `resolution` of
/// exactly those rows of `aspects` that are asked for.
pub proof fn law_subject_aspects_query_reads(subject_id: &SubjectId, row: Row)
    ensures
        ({
            let met = only("subject_id"@, Sign::Is);
            let columns = Listed::Only("id"@).and("name"@).and("table_name"@).and("resolution"@);
            let s = spec_subject_aspects_query(subject_id);
            &&& s.sql == reading_text(columns, "aspects"@, met)
            &&& s.params.len() == 1
            &&& is_met(met, s.params, 0, row) <==> row["subject_id"@] == SqlView::Text(uuid_text(subject_id.value))
        }),
{
    reveal_with_fuel(listed_text, 5);
    reveal_with_fuel(conditions_text, 3);
    reveal_with_fuel(is_met, 3);
    reveal_with_fuel(values_taken, 3);
    reveal_strlit("");
    reveal_strlit(" = ");
    reveal_strlit(" FROM ");
    reveal_strlit(" WHERE ");
    reveal_strlit(", ");
    reveal_strlit("?");
    reveal_strlit("SELECT ");
    reveal_strlit("SELECT id, name, table_name, resolution FROM aspects WHERE subject_id = ?");
    reveal_strlit("aspects");
    reveal_strlit("id");
    reveal_strlit("name");
    reveal_strlit("resolution");
    reveal_strlit("subject_id");
    reveal_strlit("table_name");
    let met = only("subject_id"@, Sign::Is);
    let columns = Listed::Only("id"@).and("name"@).and("table_name"@).and("resolution"@);
    let s = spec_subject_aspects_query(subject_id);
    assert(s.sql =~= reading_text(columns, "aspects"@, met));
}

/// The statement of `get_aspect_by_name` reads `a.id`, `a.name`, `a.subject_id`, `a.resolution` and
/// `s.name AS subject_name` of exactly those rows of `aspects a JOIN subjects s ON s.id =
/// a.subject_id` that are asked for.
pub proof fn law_get_aspect_by_name_reads(name: &str, row: Row)
    ensures
        ({
            let met = only("a.name"@, Sign::Is);
            let columns = Listed::Only("a.id"@)
                .and("a.name"@)
                .and("a.subject_id"@)
                .and("a.resolution"@)
                .and("s.name AS subject_name"@);
            let s = spec_get_aspect_by_name(name);
            &&& s.sql == reading_text(columns, "aspects a JOIN subjects s ON s.id = a.subject_id"@, met)
            &&& s.params.len() == 1
            &&& is_met(met, s.params, 0, row) <==> row["a.name"@] == SqlView::Text(name@)
        }),
{
    reveal_with_fuel(listed_text, 6);
    reveal_with_fuel(conditions_text, 3);
    reveal_with_fuel(is_met, 3);
    reveal_with_fuel(values_taken, 3);
    reveal_strlit("");
    reveal_strlit(" = ");
    reveal_strlit(" FROM ");
    reveal_strlit(" WHERE ");
    reveal_strlit(", ");
    reveal_strlit("?");
    reveal_strlit("SELECT ");
    reveal_strlit("SELECT a.id, a.name, a.subject_id, a.resolution, s.name AS subject_name FROM aspects a JOIN subjects s ON s.id = a.subject_id WHERE a.name = ?");
    reveal_strlit("a.id");
    reveal_strlit("a.name");
    reveal_strlit("a.resolution");
    reveal_strlit("a.subject_id");
    reveal_strlit("aspects a JOIN subjects s ON s.id = a.subject_id");
    reveal_strlit("s.name AS subject_name");
    let met = only("a.name"@, Sign::Is);
    let columns = Listed::Only("a.id"@)
        .and("a.name"@)
        .and("a.subject_id"@)
        .and("a.resolution"@)
        .and("s.name AS subject_name"@);
    let s = spec_get_aspect_by_name(name);
    assert(s.sql =~= reading_text(columns, "aspects a JOIN subjects s ON s.id = a.subject_id"@, met));
}

/// The statement of `aspect_count_query` reads `COUNT(*) as count` of every row of `aspects`.
pub proof fn law_aspect_count_query_reads()
    ensures
        ({
            let met = Conditions::Always;
            let columns = Listed::Only("COUNT(*) as count"@);
            let s = spec_aspect_count_query();
            &&& s.sql == reading_text(columns, "aspects"@, met)
            &&& s.params.len() == 0
        }),
{
    reveal_with_fuel(listed_text, 2);
    reveal_with_fuel(conditions_text, 2);
    reveal_strlit("");
    reveal_strlit(" FROM ");
    reveal_strlit("COUNT(*) as count");
    reveal_strlit("SELECT ");
    reveal_strlit("SELECT COUNT(*) as count FROM aspects");
    reveal_strlit("aspects");
    let met = Conditions::Always;
    let columns = Listed::Only("COUNT(*) as count"@);
    let s = spec_aspect_count_query();
    assert(s.sql =~= reading_text(columns, "aspects"@, met));
}

/// The statement of `get_earliest_measurement` reads `MIN(timestamp)` of exactly those rows of
/// `measurements` that are asked for.
pub proof fn law_get_earliest_measurement_reads(aspect_id: &AspectId, row: Row)
    ensures
        ({
            let met = only("aspect_id"@, Sign::Is);
            let columns = Listed::Only("MIN(timestamp)"@);
            let s = spec_get_earliest_measurement(aspect_id);
            &&& s.sql == reading_text(columns, "measurements"@, met)
            &&& s.params.len() == 1
            &&& is_met(met, s.params, 0, row) <==> row["aspect_id"@] == SqlView::Text(uuid_text(aspect_id.value))
        }),
{
    reveal_with_fuel(listed_text, 2);
    reveal_with_fuel(conditions_text, 3);
    reveal_with_fuel(is_met, 3);
    reveal_with_fuel(values_taken, 3);
    reveal_strlit("");
    reveal_strlit(" = ");
    reveal_strlit(" FROM ");
    reveal_strlit(" WHERE ");
    reveal_strlit("?");
    reveal_strlit("MIN(timestamp)");
    reveal_strlit("SELECT ");
    reveal_strlit("SELECT MIN(timestamp) FROM measurements WHERE aspect_id = ?");
    reveal_strlit("aspect_id");
    reveal_strlit("measurements");
    let met = only("aspect_id"@, Sign::Is);
    let columns = Listed::Only("MIN(timestamp)"@);
    let s = spec_get_earliest_measurement(aspect_id);
    assert(s.sql =~= reading_text(columns, "measurements"@, met));
}

/// The statement of `get_latest_measurement` reads `MAX(timestamp)` of exactly those rows of
/// `measurements` that are asked for.
pub proof fn law_get_latest_measurement_reads(aspect_id: &AspectId, row: Row)
    ensures
        ({
            let met = only("aspect_id"@, Sign::Is);
            let columns = Listed::Only("MAX(timestamp)"@);
            let s = spec_get_latest_measurement(aspect_id);
            &&& s.sql == reading_text(columns, "measurements"@, met)
            &&& s.params.len() == 1
            &&& is_met(met, s.params, 0, row) <==> row["aspect_id"@] == SqlView::Text(uuid_text(aspect_id.value))
        }),
{
    reveal_with_fuel(listed_text, 2);
    reveal_with_fuel(conditions_text, 3);
    reveal_with_fuel(is_met, 3);
    reveal_with_fuel(values_taken, 3);
    reveal_strlit("");
    reveal_strlit(" = ");
    reveal_strlit(" FROM ");
    reveal_strlit(" WHERE ");
    reveal_strlit("?");
    reveal_strlit("MAX(timestamp)");
    reveal_strlit("SELECT ");
    reveal_strlit("SELECT MAX(timestamp) FROM measurements WHERE aspect_id = ?");
    reveal_strlit("aspect_id");
    reveal_strlit("measurements");
    let met = only("aspect_id"@, Sign::Is);
    let columns = Listed::Only("MAX(timestamp)"@);
    let s = spec_get_latest_measurement(aspect_id);
    assert(s.sql =~= reading_text(columns, "measurements"@, met));
}

/// The statement of `known_earliest_query` reads `earliest_measurement` of exactly those rows of
/// `aspects` that are asked for.
pub proof fn law_known_earliest_query_reads(aspect_id: &AspectId, row: Row)
    ensures
        ({
            let met = only("id"@, Sign::Is);
            let columns = Listed::Only("earliest_measurement"@);
            let s = spec_known_earliest_query(aspect_id);
            &&& s.sql == reading_text(columns, "aspects"@, met)
            &&& s.params.len() == 1
            &&& is_met(met, s.params, 0, row) <==> row["id"@] == SqlView::Text(uuid_text(aspect_id.value))
        }),
{
    reveal_with_fuel(listed_text, 2);
    reveal_with_fuel(conditions_text, 3);
    reveal_with_fuel(is_met, 3);
    reveal_with_fuel(values_taken, 3);
    reveal_strlit("");
    reveal_strlit(" = ");
    reveal_strlit(" FROM ");
    reveal_strlit(" WHERE ");
    reveal_strlit("?");
    reveal_strlit("SELECT ");
    reveal_strlit("SELECT earliest_measurement FROM aspects WHERE id = ?");
    reveal_strlit("aspects");
    reveal_strlit("earliest_measurement");
    reveal_strlit("id");
    let met = only("id"@, Sign::Is);
    let columns = Listed::Only("earliest_measurement"@);
    let s = spec_known_earliest_query(aspect_id);
    assert(s.sql =~= reading_text(columns, "aspects"@, met));
}

/// The statement of `known_latest_query` reads `latest_measurement` of exactly those rows of
/// `aspects` that are asked for.
pub proof fn law_known_latest_query_reads(aspect_id: &AspectId, row: Row)
    ensures
        ({
            let met = only("id"@, Sign::Is);
            let columns = Listed::Only("latest_measurement"@);
            let s = spec_known_latest_query(aspect_id);
            &&& s.sql == reading_text(columns, "aspects"@, met)
            &&& s.params.len() == 1
            &&& is_met(met, s.params, 0, row) <==> row["id"@] == SqlView::Text(uuid_text(aspect_id.value))
        }),
{
    reveal_with_fuel(listed_text, 2);
    reveal_with_fuel(conditions_text, 3);
    reveal_with_fuel(is_met, 3);
    reveal_with_fuel(values_taken, 3);
    reveal_strlit("");
    reveal_strlit(" = ");
    reveal_strlit(" FROM ");
    reveal_strlit(" WHERE ");
    reveal_strlit("?");
    reveal_strlit("SELECT ");
    reveal_strlit("SELECT latest_measurement FROM aspects WHERE id = ?");
    reveal_strlit("aspects");
    reveal_strlit("id");
    reveal_strlit("latest_measurement");
    let met = only("id"@, Sign::Is);
    let columns = Listed::Only("latest_measurement"@);
    let s = spec_known_latest_query(aspect_id);
    assert(s.sql =~= reading_text(columns, "aspects"@, met));
}

/// The statement of `get_aspect_resolution` reads `resolution` of exactly those rows of `aspects`
/// that are asked for.
pub proof fn law_get_aspect_resolution_reads(aspect_id: &AspectId, row: Row)
    ensures
        ({
            let met = only("id"@, Sign::Is);
            let columns = Listed::Only("resolution"@);
            let s = spec_get_aspect_resolution(aspect_id);
            &&& s.sql == reading_text(columns, "aspects"@, met)
            &&& s.params.len() == 1
            &&& is_met(met, s.params, 0, row) <==> row["id"@] == SqlView::Text(uuid_text(aspect_id.value))
        }),
{
    reveal_with_fuel(listed_text, 2);
    reveal_with_fuel(conditions_text, 3);
    reveal_with_fuel(is_met, 3);
    reveal_with_fuel(values_taken, 3);
    reveal_strlit("");
    reveal_strlit(" = ");
    reveal_strlit(" FROM ");
    reveal_strlit(" WHERE ");
    reveal_strlit("?");
    reveal_strlit("SELECT ");
    reveal_strlit("SELECT resolution FROM aspects WHERE id = ?");
    reveal_strlit("aspects");
    reveal_strlit("id");
    reveal_strlit("resolution");
    let met = only("id"@, Sign::Is);
    let columns = Listed::Only("resolution"@);
    let s = spec_get_aspect_resolution(aspect_id);
    assert(s.sql =~= reading_text(columns, "aspects"@, met));
}

}
