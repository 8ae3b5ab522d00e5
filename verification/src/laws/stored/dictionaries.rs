//! What the statements on the stored dictionaries read, add, change and take away.
use crate::decimal::decimal_text;
use crate::dictionary::DictionaryConstraints;
use crate::ids::{uuid_text, AspectId, DatabaseId, DictionaryId};
use crate::laws::statements::{
    addition_text,
    change_text,
    columns_text,
    conditions_text,
    is_met,
    listed_text,
    only,
    puts,
    reading_text,
    removal_text,
    settings_text,
    values_put,
    values_taken,
    values_text,
    Conditions,
    Fields,
    Listed,
    Operand,
    Row,
    Sign,
};
use crate::pattern::Pattern;
use crate::queue::patterns::WrittenPattern;
use crate::resolution::spline_text;
use crate::sql::SqlView;
use crate::store::dictionaries::{
    forget_step,
    know_step,
    pattern_steps,
    spec_after_insert,
    spec_all_metadata_query,
    spec_constraint_query,
    spec_get_patterns_from_dictionary,
    spec_list_dictionaries,
    spec_metadata_query,
    spec_new_dictionary,
    spec_store_dictionary_metadata,
    spec_store_pattern_in_dictionary,
    spec_stored_dictionary_query,
    variability_step,
};
use crate::text::nat_text;
use crate::variability::VariabilityView;
use vstd::prelude::*;

verus! {

/// The statement of `forget_step` takes exactly those rows of `dictionary_metadata` away that are
/// meant.
pub proof fn law_forget_step_removes(name: Seq<char>, row: Row)
    ensures
        ({
            let met = only("name"@, Sign::Is);
            let s = forget_step(name).statement;
            &&& s.sql == removal_text("dictionary_metadata"@, met)
            &&& s.params.len() == 1
            &&& is_met(met, s.params, 0, row) <==> row["name"@] == SqlView::Text(name)
        }),
{
    reveal_with_fuel(conditions_text, 3);
    reveal_with_fuel(is_met, 3);
    reveal_with_fuel(values_taken, 3);
    reveal_strlit("");
    reveal_strlit(" = ");
    reveal_strlit(" WHERE ");
    reveal_strlit("?");
    reveal_strlit("DELETE FROM ");
    reveal_strlit("DELETE FROM dictionary_metadata WHERE name = ?");
    reveal_strlit("dictionary_metadata");
    reveal_strlit("name");
    let met = only("name"@, Sign::Is);
    let s = forget_step(name).statement;
    assert(s.sql =~= removal_text("dictionary_metadata"@, met));
}

/// The statement of `know_step` adds a row to `dictionary_metadata`, with each value in the column
/// that is meant for it.
pub proof fn law_know_step_adds(id: u128, name: Seq<char>, description: Seq<char>, now: int)
    ensures
        ({
            let fields = Fields::Only("id"@, Operand::Given)
                .and("name"@, Operand::Given)
                .and("description"@, Operand::Given)
                .and("created_at"@, Operand::Given);
            let s = know_step(id, name, description, now).statement;
            &&& s.sql == addition_text("INSERT INTO "@, "dictionary_metadata"@, fields)
            &&& s.params.len() == 4
            &&& puts(fields, s.params, "id"@, SqlView::Text(uuid_text(id)))
            &&& puts(fields, s.params, "name"@, SqlView::Text(name))
            &&& puts(fields, s.params, "description"@, SqlView::Text(description))
            &&& puts(fields, s.params, "created_at"@, SqlView::Integer(now))
        }),
{
    reveal_with_fuel(columns_text, 5);
    reveal_with_fuel(values_text, 5);
    reveal_with_fuel(puts, 5);
    reveal_with_fuel(values_put, 5);
    reveal_strlit(" (");
    reveal_strlit(")");
    reveal_strlit(") VALUES (");
    reveal_strlit(", ");
    reveal_strlit("?");
    reveal_strlit("INSERT INTO ");
    reveal_strlit("INSERT INTO dictionary_metadata (id, name, description, created_at) VALUES (?, ?, ?, ?)");
    reveal_strlit("created_at");
    reveal_strlit("description");
    reveal_strlit("dictionary_metadata");
    reveal_strlit("id");
    reveal_strlit("name");
    let fields = Fields::Only("id"@, Operand::Given)
        .and("name"@, Operand::Given)
        .and("description"@, Operand::Given)
        .and("created_at"@, Operand::Given);
    let s = know_step(id, name, description, now).statement;
    assert(s.sql =~= addition_text("INSERT INTO "@, "dictionary_metadata"@, fields));
}

/// The statement of `variability_step` adds a row to `dictionary_variabilities`, with each value in
/// the column that is meant for it.
pub proof fn law_variability_step_adds(id: u128, v: VariabilityView)
    ensures
        ({
            let fields = Fields::Only("dictionary_id"@, Operand::Given)
                .and("variability_type"@, Operand::Given)
                .and("variability_value"@, Operand::Given);
            let s = variability_step(id, v).statement;
            &&& s.sql == addition_text("INSERT INTO "@, "dictionary_variabilities"@, fields)
            &&& s.params.len() == 3
            &&& puts(fields, s.params, "dictionary_id"@, SqlView::Text(uuid_text(id)))
            &&& puts(fields, s.params, "variability_type"@, SqlView::Text(v.kind.spec_name()))
            &&& puts(fields, s.params, "variability_value"@, SqlView::Text(decimal_text(v.value.mantissa, v.value.scale)))
        }),
{
    reveal_with_fuel(columns_text, 4);
    reveal_with_fuel(values_text, 4);
    reveal_with_fuel(puts, 4);
    reveal_with_fuel(values_put, 4);
    reveal_strlit(" (");
    reveal_strlit(")");
    reveal_strlit(") VALUES (");
    reveal_strlit(", ");
    reveal_strlit("?");
    reveal_strlit("INSERT INTO ");
    reveal_strlit("INSERT INTO dictionary_variabilities (dictionary_id, variability_type, variability_value) VALUES (?, ?, ?)");
    reveal_strlit("dictionary_id");
    reveal_strlit("dictionary_variabilities");
    reveal_strlit("variability_type");
    reveal_strlit("variability_value");
    let fields = Fields::Only("dictionary_id"@, Operand::Given)
        .and("variability_type"@, Operand::Given)
        .and("variability_value"@, Operand::Given);
    let s = variability_step(id, v).statement;
    assert(s.sql =~= addition_text("INSERT INTO "@, "dictionary_variabilities"@, fields));
}

/// The first step of `new_dictionary` adds a row to `dictionary_metadata`, with each value in the
/// column that is meant for it.
pub proof fn law_new_dictionary_adds_first(
    id: &DictionaryId,
    name: &str,
    description: &str,
    constraints: &DictionaryConstraints,
    factor: &str,
    now: i64,
)
    ensures
        ({
            let fields = Fields::Only("id"@, Operand::Given)
                .and("name"@, Operand::Given)
                .and("description"@, Operand::Given)
                .and("created_at"@, Operand::Given);
            let s = spec_new_dictionary(id, name, description, constraints, factor, now)[0].statement;
            &&& s.sql == addition_text("INSERT INTO "@, "dictionary_metadata"@, fields)
            &&& s.params.len() == 4
            &&& puts(fields, s.params, "id"@, SqlView::Text(uuid_text(id.value)))
            &&& puts(fields, s.params, "name"@, SqlView::Text(name@))
            &&& puts(fields, s.params, "description"@, SqlView::Text(description@))
            &&& puts(fields, s.params, "created_at"@, SqlView::Integer(now as int))
        }),
{
    reveal_with_fuel(columns_text, 5);
    reveal_with_fuel(values_text, 5);
    reveal_with_fuel(puts, 5);
    reveal_with_fuel(values_put, 5);
    reveal_strlit(" (");
    reveal_strlit(")");
    reveal_strlit(") VALUES (");
    reveal_strlit(", ");
    reveal_strlit("?");
    reveal_strlit("INSERT INTO ");
    reveal_strlit("INSERT INTO dictionary_metadata (id, name, description, created_at) VALUES (?, ?, ?, ?)");
    reveal_strlit("created_at");
    reveal_strlit("description");
    reveal_strlit("dictionary_metadata");
    reveal_strlit("id");
    reveal_strlit("name");
    let fields = Fields::Only("id"@, Operand::Given)
        .and("name"@, Operand::Given)
        .and("description"@, Operand::Given)
        .and("created_at"@, Operand::Given);
    let s = spec_new_dictionary(id, name, description, constraints, factor, now)[0].statement;
    assert(s.sql =~= addition_text("INSERT INTO "@, "dictionary_metadata"@, fields));
}

/// The second step of `new_dictionary` adds a row to `dictionary_constraints`, with each value in
/// the column that is meant for it.
pub proof fn law_new_dictionary_adds_second(
    id: &DictionaryId,
    name: &str,
    description: &str,
    constraints: &DictionaryConstraints,
    factor: &str,
    now: i64,
)
    ensures
        ({
            let fields = Fields::Only("dictionary_id"@, Operand::Given)
                .and("steps_count"@, Operand::Given)
                .and("steps_interpolation"@, Operand::Given);
            let s = spec_new_dictionary(id, name, description, constraints, factor, now)[1].statement;
            &&& s.sql == addition_text("INSERT INTO "@, "dictionary_constraints"@, fields)
            &&& s.params.len() == 3
            &&& puts(fields, s.params, "dictionary_id"@, SqlView::Text(uuid_text(id.value)))
            &&& puts(fields, s.params, "steps_count"@, match constraints@.steps { Some(steps) => SqlView::Text(nat_text(steps.count as nat)), None => SqlView::Null })
            &&& puts(fields, s.params, "steps_interpolation"@, match constraints@.steps { Some(steps) => SqlView::Text(spline_text(steps.interpolation, factor@)), None => SqlView::Null })
        }),
{
    reveal_with_fuel(columns_text, 4);
    reveal_with_fuel(values_text, 4);
    reveal_with_fuel(puts, 4);
    reveal_with_fuel(values_put, 4);
    reveal_strlit(" (");
    reveal_strlit(")");
    reveal_strlit(") VALUES (");
    reveal_strlit(", ");
    reveal_strlit("?");
    reveal_strlit("INSERT INTO ");
    reveal_strlit("INSERT INTO dictionary_constraints (dictionary_id, steps_count, steps_interpolation) VALUES (?, ?, ?)");
    reveal_strlit("dictionary_constraints");
    reveal_strlit("dictionary_id");
    reveal_strlit("steps_count");
    reveal_strlit("steps_interpolation");
    let fields = Fields::Only("dictionary_id"@, Operand::Given)
        .and("steps_count"@, Operand::Given)
        .and("steps_interpolation"@, Operand::Given);
    let s = spec_new_dictionary(id, name, description, constraints, factor, now)[1].statement;
    assert(s.sql =~= addition_text("INSERT INTO "@, "dictionary_constraints"@, fields));
}

/// The statement of `metadata_query` reads `id`, `name`, `description` and `created_at` of exactly
/// those rows of `dictionary_metadata` that are asked for.
pub proof fn law_metadata_query_reads(dictionary_name: &str, row: Row)
    ensures
        ({
            let met = only("name"@, Sign::Is);
            let columns = Listed::Only("id"@).and("name"@).and("description"@).and("created_at"@);
            let s = spec_metadata_query(dictionary_name);
            &&& s.sql == reading_text(columns, "dictionary_metadata"@, met)
            &&& s.params.len() == 1
            &&& is_met(met, s.params, 0, row) <==> row["name"@] == SqlView::Text(dictionary_name@)
        }),
{
    reveal_with_fuel(listed_text, 5);
    reveal_with_fuel(conditions_text, 3);
    reveal_with_fuel(is_met, 3);
    reveal_with_fuel(values_taken, 3);
    reveal_strlit("");
    reveal_strlit(" = ");
    reveal_strlit(" FROM ");
    reveal_strlit(" WHERE ");
    reveal_strlit(", ");
    reveal_strlit("?");
    reveal_strlit("SELECT ");
    reveal_strlit("SELECT id, name, description, created_at FROM dictionary_metadata WHERE name = ?");
    reveal_strlit("created_at");
    reveal_strlit("description");
    reveal_strlit("dictionary_metadata");
    reveal_strlit("id");
    reveal_strlit("name");
    let met = only("name"@, Sign::Is);
    let columns = Listed::Only("id"@).and("name"@).and("description"@).and("created_at"@);
    let s = spec_metadata_query(dictionary_name);
    assert(s.sql =~= reading_text(columns, "dictionary_metadata"@, met));
}

/// The statement of `constraint_query` reads `steps_count` and `steps_interpolation` of exactly
/// those rows of `dictionary_constraints` that are asked for.
pub proof fn law_constraint_query_reads(id: &DictionaryId, row: Row)
    ensures
        ({
            let met = only("dictionary_id"@, Sign::Is);
            let columns = Listed::Only("steps_count"@).and("steps_interpolation"@);
            let s = spec_constraint_query(id);
            &&& s.sql == reading_text(columns, "dictionary_constraints"@, met)
            &&& s.params.len() == 1
            &&& is_met(met, s.params, 0, row) <==> row["dictionary_id"@] == SqlView::Text(uuid_text(id.value))
        }),
{
    reveal_with_fuel(listed_text, 3);
    reveal_with_fuel(conditions_text, 3);
    reveal_with_fuel(is_met, 3);
    reveal_with_fuel(values_taken, 3);
    reveal_strlit("");
    reveal_strlit(" = ");
    reveal_strlit(" FROM ");
    reveal_strlit(" WHERE ");
    reveal_strlit(", ");
    reveal_strlit("?");
    reveal_strlit("SELECT ");
    reveal_strlit("SELECT steps_count, steps_interpolation FROM dictionary_constraints WHERE dictionary_id = ?");
    reveal_strlit("dictionary_constraints");
    reveal_strlit("dictionary_id");
    reveal_strlit("steps_count");
    reveal_strlit("steps_interpolation");
    let met = only("dictionary_id"@, Sign::Is);
    let columns = Listed::Only("steps_count"@).and("steps_interpolation"@);
    let s = spec_constraint_query(id);
    assert(s.sql =~= reading_text(columns, "dictionary_constraints"@, met));
}

/// The statement of `store_pattern_in_dictionary` adds a row to `patterns`, with each value in the
/// column that is meant for it.
pub proof fn law_store_pattern_in_dictionary_adds(
    pattern: &Pattern,
    written: &WrittenPattern,
    database_id: &DatabaseId,
    dictionary_name: &str,
)
    ensures
        ({
            let fields = Fields::Only("id"@, Operand::Given)
                .and("aspect_id"@, Operand::Given)
                .and("database_id"@, Operand::Given)
                .and("dictionary_name"@, Operand::Given)
                .and("occurrences"@, Operand::Given)
                .and("relatives"@, Operand::Given)
                .and("created_at"@, Operand::Given);
            let s = spec_store_pattern_in_dictionary(pattern, written, database_id, dictionary_name).statement;
            &&& s.sql == addition_text("INSERT INTO "@, "patterns"@, fields)
            &&& s.params.len() == 7
            &&& puts(fields, s.params, "id"@, SqlView::Text(uuid_text(pattern.id.value)))
            &&& puts(fields, s.params, "aspect_id"@, SqlView::Text(uuid_text(pattern.occurrences@[0].database_info.id.value)))
            &&& puts(fields, s.params, "database_id"@, SqlView::Text(uuid_text(database_id.value)))
            &&& puts(fields, s.params, "dictionary_name"@, SqlView::Text(dictionary_name@))
            &&& puts(fields, s.params, "occurrences"@, SqlView::Text(written.occurrences@))
            &&& puts(fields, s.params, "relatives"@, SqlView::Text(written.relatives@))
            &&& puts(fields, s.params, "created_at"@, SqlView::Integer(written.now as int))
        }),
{
    reveal_with_fuel(columns_text, 8);
    reveal_with_fuel(values_text, 8);
    reveal_with_fuel(puts, 8);
    reveal_with_fuel(values_put, 8);
    reveal_strlit(" (");
    reveal_strlit(")");
    reveal_strlit(") VALUES (");
    reveal_strlit(", ");
    reveal_strlit("?");
    reveal_strlit("INSERT INTO ");
    reveal_strlit("INSERT INTO patterns (id, aspect_id, database_id, dictionary_name, occurrences, relatives, created_at) VALUES (?, ?, ?, ?, ?, ?, ?)");
    reveal_strlit("aspect_id");
    reveal_strlit("created_at");
    reveal_strlit("database_id");
    reveal_strlit("dictionary_name");
    reveal_strlit("id");
    reveal_strlit("occurrences");
    reveal_strlit("patterns");
    reveal_strlit("relatives");
    let fields = Fields::Only("id"@, Operand::Given)
        .and("aspect_id"@, Operand::Given)
        .and("database_id"@, Operand::Given)
        .and("dictionary_name"@, Operand::Given)
        .and("occurrences"@, Operand::Given)
        .and("relatives"@, Operand::Given)
        .and("created_at"@, Operand::Given);
    let s = spec_store_pattern_in_dictionary(pattern, written, database_id, dictionary_name).statement;
    assert(s.sql =~= addition_text("INSERT INTO "@, "patterns"@, fields));
}

/// A step of `pattern_steps` adds a row to `patterns`, with each value in the column that is meant
/// for it.
pub proof fn law_pattern_steps_adds(
    patterns: Seq<WrittenPattern>,
    aspect: u128,
    database: u128,
    dictionary: Seq<char>,
    i: int,
)
    requires
        0 <= i < patterns.len(),
    ensures
        ({
            let fields = Fields::Only("id"@, Operand::Given)
                .and("aspect_id"@, Operand::Given)
                .and("database_id"@, Operand::Given)
                .and("dictionary_name"@, Operand::Given)
                .and("occurrences"@, Operand::Given)
                .and("relatives"@, Operand::Given)
                .and("created_at"@, Operand::Given);
            let s = pattern_steps(patterns, aspect, database, dictionary)[i].statement;
            &&& s.sql == addition_text("INSERT INTO "@, "patterns"@, fields)
            &&& s.params.len() == 7
            &&& puts(fields, s.params, "id"@, SqlView::Text(uuid_text(patterns[i].id.value)))
            &&& puts(fields, s.params, "aspect_id"@, SqlView::Text(uuid_text(aspect)))
            &&& puts(fields, s.params, "database_id"@, SqlView::Text(uuid_text(database)))
            &&& puts(fields, s.params, "dictionary_name"@, SqlView::Text(dictionary))
            &&& puts(fields, s.params, "occurrences"@, SqlView::Text(patterns[i].occurrences@))
            &&& puts(fields, s.params, "relatives"@, SqlView::Text(patterns[i].relatives@))
            &&& puts(fields, s.params, "created_at"@, SqlView::Integer(patterns[i].now as int))
        }),
{
    reveal_with_fuel(columns_text, 8);
    reveal_with_fuel(values_text, 8);
    reveal_with_fuel(puts, 8);
    reveal_with_fuel(values_put, 8);
    reveal_strlit(" (");
    reveal_strlit(")");
    reveal_strlit(") VALUES (");
    reveal_strlit(", ");
    reveal_strlit("?");
    reveal_strlit("INSERT INTO ");
    reveal_strlit("INSERT INTO patterns (id, aspect_id, database_id, dictionary_name, occurrences, relatives, created_at) VALUES (?, ?, ?, ?, ?, ?, ?)");
    reveal_strlit("aspect_id");
    reveal_strlit("created_at");
    reveal_strlit("database_id");
    reveal_strlit("dictionary_name");
    reveal_strlit("id");
    reveal_strlit("occurrences");
    reveal_strlit("patterns");
    reveal_strlit("relatives");
    let fields = Fields::Only("id"@, Operand::Given)
        .and("aspect_id"@, Operand::Given)
        .and("database_id"@, Operand::Given)
        .and("dictionary_name"@, Operand::Given)
        .and("occurrences"@, Operand::Given)
        .and("relatives"@, Operand::Given)
        .and("created_at"@, Operand::Given);
    let s = pattern_steps(patterns, aspect, database, dictionary)[i].statement;
    assert(s.sql =~= addition_text("INSERT INTO "@, "patterns"@, fields));
}

/// The statement of `get_patterns_from_dictionary` reads `id`, `occurrences` and `relatives` of
/// exactly those rows of `patterns` that are asked for, the first by `created_at` first.
pub proof fn law_get_patterns_from_dictionary_reads(
    dictionary_name: &str,
    aspect_id: &AspectId,
    database_id: &DatabaseId,
    row: Row,
)
    ensures
        ({
            let met = only("dictionary_name"@, Sign::Is)
                .and("aspect_id"@, Sign::Is)
                .and("database_id"@, Sign::Is);
            let columns = Listed::Only("id"@).and("occurrences"@).and("relatives"@);
            let s = spec_get_patterns_from_dictionary(dictionary_name, aspect_id, database_id);
            &&& s.sql == reading_text(columns, "patterns"@, met) + " ORDER BY created_at"@
            &&& s.params.len() == 3
            &&& is_met(met, s.params, 0, row) <==> {
                &&& row["dictionary_name"@] == SqlView::Text(dictionary_name@)
                &&& row["aspect_id"@] == SqlView::Text(uuid_text(aspect_id.value))
                &&& row["database_id"@] == SqlView::Text(uuid_text(database_id.value))
            }
        }),
{
    reveal_with_fuel(listed_text, 4);
    reveal_with_fuel(conditions_text, 5);
    reveal_with_fuel(is_met, 5);
    reveal_with_fuel(values_taken, 5);
    reveal_strlit("");
    reveal_strlit(" = ");
    reveal_strlit(" AND ");
    reveal_strlit(" FROM ");
    reveal_strlit(" ORDER BY created_at");
    reveal_strlit(" WHERE ");
    reveal_strlit(", ");
    reveal_strlit("?");
    reveal_strlit("SELECT ");
    reveal_strlit("SELECT id, occurrences, relatives FROM patterns WHERE dictionary_name = ? AND aspect_id = ? AND database_id = ? ORDER BY created_at");
    reveal_strlit("aspect_id");
    reveal_strlit("database_id");
    reveal_strlit("dictionary_name");
    reveal_strlit("id");
    reveal_strlit("occurrences");
    reveal_strlit("patterns");
    reveal_strlit("relatives");
    let met = only("dictionary_name"@, Sign::Is).and("aspect_id"@, Sign::Is).and("database_id"@, Sign::Is);
    let columns = Listed::Only("id"@).and("occurrences"@).and("relatives"@);
    let s = spec_get_patterns_from_dictionary(dictionary_name, aspect_id, database_id);
    assert(s.sql =~= reading_text(columns, "patterns"@, met) + " ORDER BY created_at"@);
}

/// The statement of `store_dictionary_metadata` adds a row to `dictionaries`, with each value in
/// the column that is meant for it.
pub proof fn law_store_dictionary_metadata_adds(
    name: &str,
    description: &str,
    constraints: &str,
    now: i64,
)
    ensures
        ({
            let fields = Fields::Only("name"@, Operand::Given)
                .and("description"@, Operand::Given)
                .and("constraints"@, Operand::Given)
                .and("created_at"@, Operand::Given)
                .and("updated_at"@, Operand::Given);
            let s = spec_store_dictionary_metadata(name, description, constraints, now);
            &&& s.sql == addition_text("INSERT INTO "@, "dictionaries"@, fields)
            &&& s.params.len() == 5
            &&& puts(fields, s.params, "name"@, SqlView::Text(name@))
            &&& puts(fields, s.params, "description"@, SqlView::Text(description@))
            &&& puts(fields, s.params, "constraints"@, SqlView::Text(constraints@))
            &&& puts(fields, s.params, "created_at"@, SqlView::Integer(now as int))
            &&& puts(fields, s.params, "updated_at"@, SqlView::Integer(now as int))
        }),
{
    reveal_with_fuel(columns_text, 6);
    reveal_with_fuel(values_text, 6);
    reveal_with_fuel(puts, 6);
    reveal_with_fuel(values_put, 6);
    reveal_strlit(" (");
    reveal_strlit(")");
    reveal_strlit(") VALUES (");
    reveal_strlit(", ");
    reveal_strlit("?");
    reveal_strlit("INSERT INTO ");
    reveal_strlit("INSERT INTO dictionaries (name, description, constraints, created_at, updated_at) VALUES (?, ?, ?, ?, ?)");
    reveal_strlit("constraints");
    reveal_strlit("created_at");
    reveal_strlit("description");
    reveal_strlit("dictionaries");
    reveal_strlit("name");
    reveal_strlit("updated_at");
    let fields = Fields::Only("name"@, Operand::Given)
        .and("description"@, Operand::Given)
        .and("constraints"@, Operand::Given)
        .and("created_at"@, Operand::Given)
        .and("updated_at"@, Operand::Given);
    let s = spec_store_dictionary_metadata(name, description, constraints, now);
    assert(s.sql =~= addition_text("INSERT INTO "@, "dictionaries"@, fields));
}

/// The statement of `after_insert` puts what is given into `description`, `constraints` and
/// `updated_at` of exactly those rows of `dictionaries` that are meant.
pub proof fn law_after_insert_changes(
    name: &str,
    description: &str,
    constraints: &str,
    now: i64,
    row: Row,
)
    ensures
        ({
            let fields = Fields::Only("description"@, Operand::Given)
                .and("constraints"@, Operand::Given)
                .and("updated_at"@, Operand::Given);
            let met = only("name"@, Sign::Is);
            let s = spec_after_insert(name, description, constraints, now);
            &&& s.sql == change_text("dictionaries"@, fields, met)
            &&& s.params.len() == 4
            &&& puts(fields, s.params, "description"@, SqlView::Text(description@))
            &&& puts(fields, s.params, "constraints"@, SqlView::Text(constraints@))
            &&& puts(fields, s.params, "updated_at"@, SqlView::Integer(now as int))
            &&& is_met(met, s.params, 3, row) <==> row["name"@] == SqlView::Text(name@)
        }),
{
    reveal_with_fuel(settings_text, 4);
    reveal_with_fuel(puts, 4);
    reveal_with_fuel(values_put, 4);
    reveal_with_fuel(conditions_text, 3);
    reveal_with_fuel(is_met, 3);
    reveal_with_fuel(values_taken, 3);
    reveal_strlit("");
    reveal_strlit(" = ");
    reveal_strlit(" SET ");
    reveal_strlit(" WHERE ");
    reveal_strlit(", ");
    reveal_strlit("?");
    reveal_strlit("UPDATE ");
    reveal_strlit("UPDATE dictionaries SET description = ?, constraints = ?, updated_at = ? WHERE name = ?");
    reveal_strlit("constraints");
    reveal_strlit("description");
    reveal_strlit("dictionaries");
    reveal_strlit("name");
    reveal_strlit("updated_at");
    let fields = Fields::Only("description"@, Operand::Given)
        .and("constraints"@, Operand::Given)
        .and("updated_at"@, Operand::Given);
    let met = only("name"@, Sign::Is);
    let s = spec_after_insert(name, description, constraints, now);
    assert(s.sql =~= change_text("dictionaries"@, fields, met));
}

/// The statement of `stored_dictionary_query` reads `description` and `constraints` of exactly
/// those rows of `dictionaries` that are asked for.
pub proof fn law_stored_dictionary_query_reads(name: &str, row: Row)
    ensures
        ({
            let met = only("name"@, Sign::Is);
            let columns = Listed::Only("description"@).and("constraints"@);
            let s = spec_stored_dictionary_query(name);
            &&& s.sql == reading_text(columns, "dictionaries"@, met)
            &&& s.params.len() == 1
            &&& is_met(met, s.params, 0, row) <==> row["name"@] == SqlView::Text(name@)
        }),
{
    reveal_with_fuel(listed_text, 3);
    reveal_with_fuel(conditions_text, 3);
    reveal_with_fuel(is_met, 3);
    reveal_with_fuel(values_taken, 3);
    reveal_strlit("");
    reveal_strlit(" = ");
    reveal_strlit(" FROM ");
    reveal_strlit(" WHERE ");
    reveal_strlit(", ");
    reveal_strlit("?");
    reveal_strlit("SELECT ");
    reveal_strlit("SELECT description, constraints FROM dictionaries WHERE name = ?");
    reveal_strlit("constraints");
    reveal_strlit("description");
    reveal_strlit("dictionaries");
    reveal_strlit("name");
    let met = only("name"@, Sign::Is);
    let columns = Listed::Only("description"@).and("constraints"@);
    let s = spec_stored_dictionary_query(name);
    assert(s.sql =~= reading_text(columns, "dictionaries"@, met));
}

/// The statement of `list_dictionaries` reads `name` of every row of `dictionaries`, the first by
/// `name` first.
pub proof fn law_list_dictionaries_reads()
    ensures
        ({
            let met = Conditions::Always;
            let columns = Listed::Only("name"@);
            let s = spec_list_dictionaries();
            &&& s.sql == reading_text(columns, "dictionaries"@, met) + " ORDER BY name"@
            &&& s.params.len() == 0
        }),
{
    reveal_with_fuel(listed_text, 2);
    reveal_with_fuel(conditions_text, 2);
    reveal_strlit("");
    reveal_strlit(" FROM ");
    reveal_strlit(" ORDER BY name");
    reveal_strlit("SELECT ");
    reveal_strlit("SELECT name FROM dictionaries ORDER BY name");
    reveal_strlit("dictionaries");
    reveal_strlit("name");
    let met = Conditions::Always;
    let columns = Listed::Only("name"@);
    let s = spec_list_dictionaries();
    assert(s.sql =~= reading_text(columns, "dictionaries"@, met) + " ORDER BY name"@);
}

/// The statement of `all_metadata_query` reads `id`, `name`, `description` and `created_at` of
/// every row of `dictionary_metadata`.
pub proof fn law_all_metadata_query_reads()
    ensures
        ({
            let met = Conditions::Always;
            let columns = Listed::Only("id"@).and("name"@).and("description"@).and("created_at"@);
            let s = spec_all_metadata_query();
            &&& s.sql == reading_text(columns, "dictionary_metadata"@, met)
            &&& s.params.len() == 0
        }),
{
    reveal_with_fuel(listed_text, 5);
    reveal_with_fuel(conditions_text, 2);
    reveal_strlit("");
    reveal_strlit(" FROM ");
    reveal_strlit(", ");
    reveal_strlit("SELECT ");
    reveal_strlit("SELECT id, name, description, created_at FROM dictionary_metadata");
    reveal_strlit("created_at");
    reveal_strlit("description");
    reveal_strlit("dictionary_metadata");
    reveal_strlit("id");
    reveal_strlit("name");
    let met = Conditions::Always;
    let columns = Listed::Only("id"@).and("name"@).and("description"@).and("created_at"@);
    let s = spec_all_metadata_query();
    assert(s.sql =~= reading_text(columns, "dictionary_metadata"@, met));
}

}
