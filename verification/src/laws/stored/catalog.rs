//! What the statements on the catalogs read, add, change and take away.
use crate::catalog::{
    spec_list_all_query,
    spec_list_aspects_query,
    spec_schema_query,
    spec_store_declaration,
    AspectKey,
    CatalogStore,
};
use crate::decimal::{decimal_plain_text, Decimal};
use crate::laws::statements::{
    addition_text,
    columns_text,
    conditions_text,
    is_met,
    listed_text,
    only,
    puts,
    reading_text,
    removal_text,
    values_put,
    values_taken,
    values_text,
    Conditions,
    Fields,
    Listed,
    Operand,
    Row,
    Sign,
};
use crate::sql::SqlView;
use crate::store::metadata::spec_remove_subject;
use vstd::prelude::*;

verus! {

/// The statement of `list_databases_query` reads `name` of every row of `databases`, the first by
/// `name` first.
pub proof fn law_list_databases_query_reads()
    ensures
        ({
            let met = Conditions::Always;
            let columns = Listed::Only("name"@);
            let s = CatalogStore::spec_list_databases_query();
            &&& s.sql == reading_text(columns, "databases"@, met) + " ORDER BY name"@
            &&& s.params.len() == 0
        }),
{
    reveal_with_fuel(listed_text, 2);
    reveal_with_fuel(conditions_text, 2);
    reveal_strlit("");
    reveal_strlit(" FROM ");
    reveal_strlit(" ORDER BY name");
    reveal_strlit("SELECT ");
    reveal_strlit("SELECT name FROM databases ORDER BY name");
    reveal_strlit("databases");
    reveal_strlit("name");
    let met = Conditions::Always;
    let columns = Listed::Only("name"@);
    let s = CatalogStore::spec_list_databases_query();
    assert(s.sql =~= reading_text(columns, "databases"@, met) + " ORDER BY name"@);
}

/// The statement of `list_subjects_query` reads `subject` of exactly those rows of `subjects` that
/// are asked for, the first by `subject` first.
pub proof fn law_list_subjects_query_reads(database: &str, row: Row)
    ensures
        ({
            let met = only("database"@, Sign::Is);
            let columns = Listed::Only("subject"@);
            let s = CatalogStore::spec_list_subjects_query(database);
            &&& s.sql == reading_text(columns, "subjects"@, met) + " ORDER BY subject"@
            &&& s.params.len() == 1
            &&& is_met(met, s.params, 0, row) <==> row["database"@] == SqlView::Text(database@)
        }),
{
    reveal_with_fuel(listed_text, 2);
    reveal_with_fuel(conditions_text, 3);
    reveal_with_fuel(is_met, 3);
    reveal_with_fuel(values_taken, 3);
    reveal_strlit("");
    reveal_strlit(" = ");
    reveal_strlit(" FROM ");
    reveal_strlit(" ORDER BY subject");
    reveal_strlit(" WHERE ");
    reveal_strlit("?");
    reveal_strlit("SELECT ");
    reveal_strlit("SELECT subject FROM subjects WHERE database = ? ORDER BY subject");
    reveal_strlit("database");
    reveal_strlit("subject");
    reveal_strlit("subjects");
    let met = only("database"@, Sign::Is);
    let columns = Listed::Only("subject"@);
    let s = CatalogStore::spec_list_subjects_query(database);
    assert(s.sql =~= reading_text(columns, "subjects"@, met) + " ORDER BY subject"@);
}

/// The statement of `database_exists_query` reads `1` of exactly those rows of `databases` that are
/// asked for.
pub proof fn law_database_exists_query_reads(name: &str, row: Row)
    ensures
        ({
            let met = only("name"@, Sign::Is);
            let columns = Listed::Only("1"@);
            let s = CatalogStore::spec_database_exists_query(name);
            &&& s.sql == reading_text(columns, "databases"@, met)
            &&& s.params.len() == 1
            &&& is_met(met, s.params, 0, row) <==> row["name"@] == SqlView::Text(name@)
        }),
{
    reveal_with_fuel(listed_text, 2);
    reveal_with_fuel(conditions_text, 3);
    reveal_with_fuel(is_met, 3);
    reveal_with_fuel(values_taken, 3);
    reveal_strlit("");
    reveal_strlit(" = ");
    reveal_strlit(" FROM ");
    reveal_strlit(" WHERE ");
    reveal_strlit("1");
    reveal_strlit("?");
    reveal_strlit("SELECT ");
    reveal_strlit("SELECT 1 FROM databases WHERE name = ?");
    reveal_strlit("databases");
    reveal_strlit("name");
    let met = only("name"@, Sign::Is);
    let columns = Listed::Only("1"@);
    let s = CatalogStore::spec_database_exists_query(name);
    assert(s.sql =~= reading_text(columns, "databases"@, met));
}

/// The statement of `subject_exists_query` reads `1` of exactly those rows of `subjects` that are
/// asked for.
pub proof fn law_subject_exists_query_reads(database: &str, subject: &str, row: Row)
    ensures
        ({
            let met = only("database"@, Sign::Is).and("subject"@, Sign::Is);
            let columns = Listed::Only("1"@);
            let s = CatalogStore::spec_subject_exists_query(database, subject);
            &&& s.sql == reading_text(columns, "subjects"@, met)
            &&& s.params.len() == 2
            &&& is_met(met, s.params, 0, row) <==> {
                &&& row["database"@] == SqlView::Text(database@)
                &&& row["subject"@] == SqlView::Text(subject@)
            }
        }),
{
    reveal_with_fuel(listed_text, 2);
    reveal_with_fuel(conditions_text, 4);
    reveal_with_fuel(is_met, 4);
    reveal_with_fuel(values_taken, 4);
    reveal_strlit("");
    reveal_strlit(" = ");
    reveal_strlit(" AND ");
    reveal_strlit(" FROM ");
    reveal_strlit(" WHERE ");
    reveal_strlit("1");
    reveal_strlit("?");
    reveal_strlit("SELECT ");
    reveal_strlit("SELECT 1 FROM subjects WHERE database = ? AND subject = ?");
    reveal_strlit("database");
    reveal_strlit("subject");
    reveal_strlit("subjects");
    let met = only("database"@, Sign::Is).and("subject"@, Sign::Is);
    let columns = Listed::Only("1"@);
    let s = CatalogStore::spec_subject_exists_query(database, subject);
    assert(s.sql =~= reading_text(columns, "subjects"@, met));
}

/// The statement of `register_database` adds a row to `databases`, with each value in the column
/// that is meant for it.
pub proof fn law_register_database_adds(name: &str)
    ensures
        ({
            let fields = Fields::Only("name"@, Operand::Given);
            let s = CatalogStore::spec_register_database(name).statement;
            &&& s.sql == addition_text("INSERT OR IGNORE INTO "@, "databases"@, fields)
            &&& s.params.len() == 1
            &&& puts(fields, s.params, "name"@, SqlView::Text(name@))
        }),
{
    reveal_with_fuel(columns_text, 2);
    reveal_with_fuel(values_text, 2);
    reveal_with_fuel(puts, 2);
    reveal_with_fuel(values_put, 2);
    reveal_strlit(" (");
    reveal_strlit(")");
    reveal_strlit(") VALUES (");
    reveal_strlit("?");
    reveal_strlit("INSERT OR IGNORE INTO ");
    reveal_strlit("INSERT OR IGNORE INTO databases (name) VALUES (?)");
    reveal_strlit("databases");
    reveal_strlit("name");
    let fields = Fields::Only("name"@, Operand::Given);
    let s = CatalogStore::spec_register_database(name).statement;
    assert(s.sql =~= addition_text("INSERT OR IGNORE INTO "@, "databases"@, fields));
}

/// The statement of `register_subject` adds a row to `subjects`, with each value in the column that
/// is meant for it.
pub proof fn law_register_subject_adds(database: &str, subject: &str)
    ensures
        ({
            let fields = Fields::Only("database"@, Operand::Given).and("subject"@, Operand::Given);
            let s = CatalogStore::spec_register_subject(database, subject).statement;
            &&& s.sql == addition_text("INSERT OR IGNORE INTO "@, "subjects"@, fields)
            &&& s.params.len() == 2
            &&& puts(fields, s.params, "database"@, SqlView::Text(database@))
            &&& puts(fields, s.params, "subject"@, SqlView::Text(subject@))
        }),
{
    reveal_with_fuel(columns_text, 3);
    reveal_with_fuel(values_text, 3);
    reveal_with_fuel(puts, 3);
    reveal_with_fuel(values_put, 3);
    reveal_strlit(" (");
    reveal_strlit(")");
    reveal_strlit(") VALUES (");
    reveal_strlit(", ");
    reveal_strlit("?");
    reveal_strlit("INSERT OR IGNORE INTO ");
    reveal_strlit("INSERT OR IGNORE INTO subjects (database, subject) VALUES (?, ?)");
    reveal_strlit("database");
    reveal_strlit("subject");
    reveal_strlit("subjects");
    let fields = Fields::Only("database"@, Operand::Given).and("subject"@, Operand::Given);
    let s = CatalogStore::spec_register_subject(database, subject).statement;
    assert(s.sql =~= addition_text("INSERT OR IGNORE INTO "@, "subjects"@, fields));
}

/// The statement of `remove_subject` takes exactly those rows of `subjects` away that are meant.
pub proof fn law_remove_subject_removes(database: &str, subject: &str, row: Row)
    ensures
        ({
            let met = only("database"@, Sign::Is).and("subject"@, Sign::Is);
            let s = CatalogStore::spec_remove_subject(database, subject).statement;
            &&& s.sql == removal_text("subjects"@, met)
            &&& s.params.len() == 2
            &&& is_met(met, s.params, 0, row) <==> {
                &&& row["database"@] == SqlView::Text(database@)
                &&& row["subject"@] == SqlView::Text(subject@)
            }
        }),
{
    reveal_with_fuel(conditions_text, 4);
    reveal_with_fuel(is_met, 4);
    reveal_with_fuel(values_taken, 4);
    reveal_strlit("");
    reveal_strlit(" = ");
    reveal_strlit(" AND ");
    reveal_strlit(" WHERE ");
    reveal_strlit("?");
    reveal_strlit("DELETE FROM ");
    reveal_strlit("DELETE FROM subjects WHERE database = ? AND subject = ?");
    reveal_strlit("database");
    reveal_strlit("subject");
    reveal_strlit("subjects");
    let met = only("database"@, Sign::Is).and("subject"@, Sign::Is);
    let s = CatalogStore::spec_remove_subject(database, subject).statement;
    assert(s.sql =~= removal_text("subjects"@, met));
}

/// The first step of `remove_database` takes exactly those rows of `subjects` away that are meant.
pub proof fn law_remove_database_removes_first(name: &str, row: Row)
    ensures
        ({
            let met = only("database"@, Sign::Is);
            let s = CatalogStore::spec_remove_database(name)[0].statement;
            &&& s.sql == removal_text("subjects"@, met)
            &&& s.params.len() == 1
            &&& is_met(met, s.params, 0, row) <==> row["database"@] == SqlView::Text(name@)
        }),
{
    reveal_with_fuel(conditions_text, 3);
    reveal_with_fuel(is_met, 3);
    reveal_with_fuel(values_taken, 3);
    reveal_strlit("");
    reveal_strlit(" = ");
    reveal_strlit(" WHERE ");
    reveal_strlit("?");
    reveal_strlit("DELETE FROM ");
    reveal_strlit("DELETE FROM subjects WHERE database = ?");
    reveal_strlit("database");
    reveal_strlit("subjects");
    let met = only("database"@, Sign::Is);
    let s = CatalogStore::spec_remove_database(name)[0].statement;
    assert(s.sql =~= removal_text("subjects"@, met));
}

/// The second step of `remove_database` takes exactly those rows of `databases` away that are
/// meant.
pub proof fn law_remove_database_removes_second(name: &str, row: Row)
    ensures
        ({
            let met = only("name"@, Sign::Is);
            let s = CatalogStore::spec_remove_database(name)[1].statement;
            &&& s.sql == removal_text("databases"@, met)
            &&& s.params.len() == 1
            &&& is_met(met, s.params, 0, row) <==> row["name"@] == SqlView::Text(name@)
        }),
{
    reveal_with_fuel(conditions_text, 3);
    reveal_with_fuel(is_met, 3);
    reveal_with_fuel(values_taken, 3);
    reveal_strlit("");
    reveal_strlit(" = ");
    reveal_strlit(" WHERE ");
    reveal_strlit("?");
    reveal_strlit("DELETE FROM ");
    reveal_strlit("DELETE FROM databases WHERE name = ?");
    reveal_strlit("databases");
    reveal_strlit("name");
    let met = only("name"@, Sign::Is);
    let s = CatalogStore::spec_remove_database(name)[1].statement;
    assert(s.sql =~= removal_text("databases"@, met));
}

/// The statement of `schema_query` reads `physical_type`, `value_tolerance` and `timestamp_unit` of
/// exactly those rows of `aspect_schema` that are asked for.
pub proof fn law_schema_query_reads(database: &str, subject: &str, aspect: &str, row: Row)
    ensures
        ({
            let met = only("database"@, Sign::Is).and("subject"@, Sign::Is).and("aspect"@, Sign::Is);
            let columns = Listed::Only("physical_type"@).and("value_tolerance"@).and("timestamp_unit"@);
            let s = spec_schema_query(database, subject, aspect);
            &&& s.sql == reading_text(columns, "aspect_schema"@, met)
            &&& s.params.len() == 3
            &&& is_met(met, s.params, 0, row) <==> {
                &&& row["database"@] == SqlView::Text(database@)
                &&& row["subject"@] == SqlView::Text(subject@)
                &&& row["aspect"@] == SqlView::Text(aspect@)
            }
        }),
{
    reveal_with_fuel(listed_text, 4);
    reveal_with_fuel(conditions_text, 5);
    reveal_with_fuel(is_met, 5);
    reveal_with_fuel(values_taken, 5);
    reveal_strlit("");
    reveal_strlit(" = ");
    reveal_strlit(" AND ");
    reveal_strlit(" FROM ");
    reveal_strlit(" WHERE ");
    reveal_strlit(", ");
    reveal_strlit("?");
    reveal_strlit("SELECT ");
    reveal_strlit("SELECT physical_type, value_tolerance, timestamp_unit FROM aspect_schema WHERE database = ? AND subject = ? AND aspect = ?");
    reveal_strlit("aspect");
    reveal_strlit("aspect_schema");
    reveal_strlit("database");
    reveal_strlit("physical_type");
    reveal_strlit("subject");
    reveal_strlit("timestamp_unit");
    reveal_strlit("value_tolerance");
    let met = only("database"@, Sign::Is).and("subject"@, Sign::Is).and("aspect"@, Sign::Is);
    let columns = Listed::Only("physical_type"@).and("value_tolerance"@).and("timestamp_unit"@);
    let s = spec_schema_query(database, subject, aspect);
    assert(s.sql =~= reading_text(columns, "aspect_schema"@, met));
}

/// The statement of `list_aspects_query` reads `aspect` of exactly those rows of `aspect_schema`
/// that are asked for, the first by `aspect` first.
pub proof fn law_list_aspects_query_reads(database: &str, subject: &str, row: Row)
    ensures
        ({
            let met = only("database"@, Sign::Is).and("subject"@, Sign::Is);
            let columns = Listed::Only("aspect"@);
            let s = spec_list_aspects_query(database, subject);
            &&& s.sql == reading_text(columns, "aspect_schema"@, met) + " ORDER BY aspect"@
            &&& s.params.len() == 2
            &&& is_met(met, s.params, 0, row) <==> {
                &&& row["database"@] == SqlView::Text(database@)
                &&& row["subject"@] == SqlView::Text(subject@)
            }
        }),
{
    reveal_with_fuel(listed_text, 2);
    reveal_with_fuel(conditions_text, 4);
    reveal_with_fuel(is_met, 4);
    reveal_with_fuel(values_taken, 4);
    reveal_strlit("");
    reveal_strlit(" = ");
    reveal_strlit(" AND ");
    reveal_strlit(" FROM ");
    reveal_strlit(" ORDER BY aspect");
    reveal_strlit(" WHERE ");
    reveal_strlit("?");
    reveal_strlit("SELECT ");
    reveal_strlit("SELECT aspect FROM aspect_schema WHERE database = ? AND subject = ? ORDER BY aspect");
    reveal_strlit("aspect");
    reveal_strlit("aspect_schema");
    reveal_strlit("database");
    reveal_strlit("subject");
    let met = only("database"@, Sign::Is).and("subject"@, Sign::Is);
    let columns = Listed::Only("aspect"@);
    let s = spec_list_aspects_query(database, subject);
    assert(s.sql =~= reading_text(columns, "aspect_schema"@, met) + " ORDER BY aspect"@);
}

/// The statement of `list_all_query` reads `database`, `subject` and `aspect` of every row of
/// `aspect_schema`, the first by `database, subject, aspect` first.
pub proof fn law_list_all_query_reads()
    ensures
        ({
            let met = Conditions::Always;
            let columns = Listed::Only("database"@).and("subject"@).and("aspect"@);
            let s = spec_list_all_query();
            &&& s.sql == reading_text(columns, "aspect_schema"@, met) + " ORDER BY database, subject, aspect"@
            &&& s.params.len() == 0
        }),
{
    reveal_with_fuel(listed_text, 4);
    reveal_with_fuel(conditions_text, 2);
    reveal_strlit("");
    reveal_strlit(" FROM ");
    reveal_strlit(" ORDER BY database, subject, aspect");
    reveal_strlit(", ");
    reveal_strlit("SELECT ");
    reveal_strlit("SELECT database, subject, aspect FROM aspect_schema ORDER BY database, subject, aspect");
    reveal_strlit("aspect");
    reveal_strlit("aspect_schema");
    reveal_strlit("database");
    reveal_strlit("subject");
    let met = Conditions::Always;
    let columns = Listed::Only("database"@).and("subject"@).and("aspect"@);
    let s = spec_list_all_query();
    assert(s.sql =~= reading_text(columns, "aspect_schema"@, met) + " ORDER BY database, subject, aspect"@);
}

/// The statement of `store_declaration` adds a row to `aspect_schema`, with each value in the
/// column that is meant for it.
pub proof fn law_store_declaration_adds(
    key: &AspectKey,
    physical_type: &str,
    tolerance: &Decimal,
    timestamp_unit: &str,
)
    ensures
        ({
            let fields = Fields::Only("database"@, Operand::Given)
                .and("subject"@, Operand::Given)
                .and("aspect"@, Operand::Given)
                .and("physical_type"@, Operand::Given)
                .and("value_tolerance"@, Operand::Given)
                .and("timestamp_unit"@, Operand::Given);
            let s = spec_store_declaration(key, physical_type, tolerance, timestamp_unit).statement;
            &&& s.sql == addition_text("INSERT OR REPLACE INTO "@, "aspect_schema"@, fields)
            &&& s.params.len() == 6
            &&& puts(fields, s.params, "database"@, SqlView::Text(key@.database))
            &&& puts(fields, s.params, "subject"@, SqlView::Text(key@.subject))
            &&& puts(fields, s.params, "aspect"@, SqlView::Text(key@.aspect))
            &&& puts(fields, s.params, "physical_type"@, SqlView::Text(physical_type@))
            &&& puts(fields, s.params, "value_tolerance"@, SqlView::Text(crate::decimal::decimal_plain_text(tolerance@.mantissa, tolerance@.scale)))
            &&& puts(fields, s.params, "timestamp_unit"@, SqlView::Text(timestamp_unit@))
        }),
{
    reveal_with_fuel(columns_text, 7);
    reveal_with_fuel(values_text, 7);
    reveal_with_fuel(puts, 7);
    reveal_with_fuel(values_put, 7);
    reveal_strlit(" (");
    reveal_strlit(")");
    reveal_strlit(") VALUES (");
    reveal_strlit(", ");
    reveal_strlit("?");
    reveal_strlit("INSERT OR REPLACE INTO ");
    reveal_strlit("INSERT OR REPLACE INTO aspect_schema (database, subject, aspect, physical_type, value_tolerance, timestamp_unit) VALUES (?, ?, ?, ?, ?, ?)");
    reveal_strlit("aspect");
    reveal_strlit("aspect_schema");
    reveal_strlit("database");
    reveal_strlit("physical_type");
    reveal_strlit("subject");
    reveal_strlit("timestamp_unit");
    reveal_strlit("value_tolerance");
    let fields = Fields::Only("database"@, Operand::Given)
        .and("subject"@, Operand::Given)
        .and("aspect"@, Operand::Given)
        .and("physical_type"@, Operand::Given)
        .and("value_tolerance"@, Operand::Given)
        .and("timestamp_unit"@, Operand::Given);
    let s = spec_store_declaration(key, physical_type, tolerance, timestamp_unit).statement;
    assert(s.sql =~= addition_text("INSERT OR REPLACE INTO "@, "aspect_schema"@, fields));
}

}
