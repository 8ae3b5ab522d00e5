//! What the statements on the stored correlations read, add, change and take away.
use crate::correlation::{signal_key, Correlation, Distance};
use crate::decimal::decimal_text;
use crate::ids::{uuid_text, CorrelationID};
use crate::laws::statements::{
    addition_text,
    change_text,
    columns_text,
    conditions_text,
    is_met,
    listed_text,
    only,
    puts,
    reading_text,
    removal_text,
    settings_text,
    values_put,
    values_taken,
    values_text,
    Conditions,
    Fields,
    Listed,
    Operand,
    Row,
    Sign,
};
use crate::pattern::OccurrenceView;
use crate::sql::SqlView;
use crate::store::correlations::{
    clear_step,
    delete_rates_step,
    delete_stretches_step,
    insert_step,
    rate_step,
    rewrite_step,
    spec_correlation_queries,
    spec_delete_correlation_from_dictionary,
    spec_get_correlation_by_id_from_dictionary,
    spec_get_correlations_from_dictionary,
    spec_page_query,
    spec_remove_correlation,
    spec_store_correlation_in_dictionary,
    stretch_step,
    update_step,
};
use crate::table::Entry;
use vstd::prelude::*;

verus! {

/// The statement of `rate_step` adds a row to `correlation_error_rates`, with each value in the
/// column that is meant for it.
pub proof fn law_rate_step_adds(correlation: u128, entry: Entry<String, Distance>)
    ensures
        ({
            let fields = Fields::Only("correlation_id"@, Operand::Given)
                .and("signal_type"@, Operand::Given)
                .and("error_rate_value"@, Operand::Given)
                .and("error_rate_units"@, Operand::Given);
            let s = rate_step(correlation, entry).statement;
            &&& s.sql == addition_text("INSERT INTO "@, "correlation_error_rates"@, fields)
            &&& s.params.len() == 4
            &&& puts(fields, s.params, "correlation_id"@, SqlView::Text(uuid_text(correlation)))
            &&& puts(fields, s.params, "signal_type"@, SqlView::Text(signal_key(entry.key@)))
            &&& puts(fields, s.params, "error_rate_value"@, SqlView::Text(decimal_text(entry.value.value@.mantissa, entry.value.value@.scale)))
            &&& puts(fields, s.params, "error_rate_units"@, SqlView::Text(entry.value.units.spec_text()))
        }),
{
    reveal_with_fuel(columns_text, 5);
    reveal_with_fuel(values_text, 5);
    reveal_with_fuel(puts, 5);
    reveal_with_fuel(values_put, 5);
    reveal_strlit(" (");
    reveal_strlit(")");
    reveal_strlit(") VALUES (");
    reveal_strlit(", ");
    reveal_strlit("?");
    reveal_strlit("INSERT INTO ");
    reveal_strlit("INSERT INTO correlation_error_rates (correlation_id, signal_type, error_rate_value, error_rate_units) VALUES (?, ?, ?, ?)");
    reveal_strlit("correlation_error_rates");
    reveal_strlit("correlation_id");
    reveal_strlit("error_rate_units");
    reveal_strlit("error_rate_value");
    reveal_strlit("signal_type");
    let fields = Fields::Only("correlation_id"@, Operand::Given)
        .and("signal_type"@, Operand::Given)
        .and("error_rate_value"@, Operand::Given)
        .and("error_rate_units"@, Operand::Given);
    let s = rate_step(correlation, entry).statement;
    assert(s.sql =~= addition_text("INSERT INTO "@, "correlation_error_rates"@, fields));
}

/// The statement of `stretch_step` adds a row to `correlation_occurrences`, with each value in the
/// column that is meant for it.
pub proof fn law_stretch_step_adds(
    correlation: u128,
    index: int,
    o: OccurrenceView,
    info: Seq<char>,
)
    ensures
        ({
            let fields = Fields::Only("correlation_id"@, Operand::Given)
                .and("occurrence_index"@, Operand::Given)
                .and("aspect_id"@, Operand::Given)
                .and("resolution"@, Operand::Given)
                .and("size"@, Operand::Given)
                .and("database_info"@, Operand::Given)
                .and("pattern_id"@, Operand::Given)
                .and("beginning_timestamp"@, Operand::Given)
                .and("end_timestamp"@, Operand::Given);
            let s = stretch_step(correlation, index, o, info).statement;
            &&& s.sql == addition_text("INSERT INTO "@, "correlation_occurrences"@, fields)
            &&& s.params.len() == 9
            &&& puts(fields, s.params, "correlation_id"@, SqlView::Text(uuid_text(correlation)))
            &&& puts(fields, s.params, "occurrence_index"@, SqlView::Integer(index))
            &&& puts(fields, s.params, "aspect_id"@, SqlView::Text(uuid_text(o.aspect.value)))
            &&& puts(fields, s.params, "resolution"@, SqlView::Text(o.resolution.spec_text()))
            &&& puts(fields, s.params, "size"@, SqlView::Integer(o.size as int))
            &&& puts(fields, s.params, "database_info"@, SqlView::Text(info))
            &&& puts(fields, s.params, "pattern_id"@, SqlView::Text(uuid_text(o.pattern_id.value)))
            &&& puts(fields, s.params, "beginning_timestamp"@, SqlView::Integer(o.beginning.spec_millis()))
            &&& puts(fields, s.params, "end_timestamp"@, SqlView::Integer(o.end.spec_millis()))
        }),
{
    reveal_with_fuel(columns_text, 10);
    reveal_with_fuel(values_text, 10);
    reveal_with_fuel(puts, 10);
    reveal_with_fuel(values_put, 10);
    reveal_strlit(" (");
    reveal_strlit(")");
    reveal_strlit(") VALUES (");
    reveal_strlit(", ");
    reveal_strlit("?");
    reveal_strlit("INSERT INTO ");
    reveal_strlit("INSERT INTO correlation_occurrences (correlation_id, occurrence_index, aspect_id, resolution, size, database_info, pattern_id, beginning_timestamp, end_timestamp) VALUES (?, ?, ?, ?, ?, ?, ?, ?, ?)");
    reveal_strlit("aspect_id");
    reveal_strlit("beginning_timestamp");
    reveal_strlit("correlation_id");
    reveal_strlit("correlation_occurrences");
    reveal_strlit("database_info");
    reveal_strlit("end_timestamp");
    reveal_strlit("occurrence_index");
    reveal_strlit("pattern_id");
    reveal_strlit("resolution");
    reveal_strlit("size");
    let fields = Fields::Only("correlation_id"@, Operand::Given)
        .and("occurrence_index"@, Operand::Given)
        .and("aspect_id"@, Operand::Given)
        .and("resolution"@, Operand::Given)
        .and("size"@, Operand::Given)
        .and("database_info"@, Operand::Given)
        .and("pattern_id"@, Operand::Given)
        .and("beginning_timestamp"@, Operand::Given)
        .and("end_timestamp"@, Operand::Given);
    let s = stretch_step(correlation, index, o, info).statement;
    assert(s.sql =~= addition_text("INSERT INTO "@, "correlation_occurrences"@, fields));
}

/// The statement of `insert_step` adds a row to `correlations`, with each value in the column that
/// is meant for it.
pub proof fn law_insert_step_adds(c: Correlation, created_at: int, updated_at: int)
    ensures
        ({
            let fields = Fields::Only("id"@, Operand::Given)
                .and("dictionary_id"@, Operand::Given)
                .and("subject_id"@, Operand::Given)
                .and("aspect_id"@, Operand::Given)
                .and("pattern_id"@, Operand::Given)
                .and("event_id"@, Operand::Given)
                .and("average_distance_value"@, Operand::Given)
                .and("average_distance_units"@, Operand::Given)
                .and("created_at"@, Operand::Given)
                .and("updated_at"@, Operand::Given);
            let s = insert_step(c, created_at, updated_at).statement;
            &&& s.sql == addition_text("INSERT INTO "@, "correlations"@, fields)
            &&& s.params.len() == 10
            &&& puts(fields, s.params, "id"@, SqlView::Text(uuid_text(c.id.value)))
            &&& puts(fields, s.params, "dictionary_id"@, SqlView::Text(uuid_text(c.dictionary_id.value)))
            &&& puts(fields, s.params, "subject_id"@, SqlView::Text(uuid_text(c.subject_id.value)))
            &&& puts(fields, s.params, "aspect_id"@, SqlView::Text(uuid_text(c.aspect_id.value)))
            &&& puts(fields, s.params, "pattern_id"@, SqlView::Text(uuid_text(c.pattern_id.value)))
            &&& puts(fields, s.params, "event_id"@, SqlView::Text(uuid_text(c.event_id.value)))
            &&& puts(fields, s.params, "average_distance_value"@, match c.average_distance { Some(d) => SqlView::Text(decimal_text(d.value@.mantissa, d.value@.scale)), None => SqlView::Null })
            &&& puts(fields, s.params, "average_distance_units"@, match c.average_distance { Some(d) => SqlView::Text(d.units.spec_text()), None => SqlView::Null })
            &&& puts(fields, s.params, "created_at"@, SqlView::Integer(created_at))
            &&& puts(fields, s.params, "updated_at"@, SqlView::Integer(updated_at))
        }),
{
    reveal_with_fuel(columns_text, 11);
    reveal_with_fuel(values_text, 11);
    reveal_with_fuel(puts, 11);
    reveal_with_fuel(values_put, 11);
    reveal_strlit(" (");
    reveal_strlit(")");
    reveal_strlit(") VALUES (");
    reveal_strlit(", ");
    reveal_strlit("?");
    reveal_strlit("INSERT INTO ");
    reveal_strlit("INSERT INTO correlations (id, dictionary_id, subject_id, aspect_id, pattern_id, event_id, average_distance_value, average_distance_units, created_at, updated_at) VALUES (?, ?, ?, ?, ?, ?, ?, ?, ?, ?)");
    reveal_strlit("aspect_id");
    reveal_strlit("average_distance_units");
    reveal_strlit("average_distance_value");
    reveal_strlit("correlations");
    reveal_strlit("created_at");
    reveal_strlit("dictionary_id");
    reveal_strlit("event_id");
    reveal_strlit("id");
    reveal_strlit("pattern_id");
    reveal_strlit("subject_id");
    reveal_strlit("updated_at");
    let fields = Fields::Only("id"@, Operand::Given)
        .and("dictionary_id"@, Operand::Given)
        .and("subject_id"@, Operand::Given)
        .and("aspect_id"@, Operand::Given)
        .and("pattern_id"@, Operand::Given)
        .and("event_id"@, Operand::Given)
        .and("average_distance_value"@, Operand::Given)
        .and("average_distance_units"@, Operand::Given)
        .and("created_at"@, Operand::Given)
        .and("updated_at"@, Operand::Given);
    let s = insert_step(c, created_at, updated_at).statement;
    assert(s.sql =~= addition_text("INSERT INTO "@, "correlations"@, fields));
}

/// The statement of `update_step` puts what is given into `dictionary_id`, `subject_id`,
/// `aspect_id`, `pattern_id`, `event_id`, `average_distance_value`, `average_distance_units` and
/// `updated_at` of exactly those rows of `correlations` that are meant.
pub proof fn law_update_step_changes(c: Correlation, updated_at: int, row: Row)
    ensures
        ({
            let fields = Fields::Only("dictionary_id"@, Operand::Given)
                .and("subject_id"@, Operand::Given)
                .and("aspect_id"@, Operand::Given)
                .and("pattern_id"@, Operand::Given)
                .and("event_id"@, Operand::Given)
                .and("average_distance_value"@, Operand::Given)
                .and("average_distance_units"@, Operand::Given)
                .and("updated_at"@, Operand::Given);
            let met = only("id"@, Sign::Is);
            let s = update_step(c, updated_at).statement;
            &&& s.sql == change_text("correlations"@, fields, met)
            &&& s.params.len() == 9
            &&& puts(fields, s.params, "dictionary_id"@, SqlView::Text(uuid_text(c.dictionary_id.value)))
            &&& puts(fields, s.params, "subject_id"@, SqlView::Text(uuid_text(c.subject_id.value)))
            &&& puts(fields, s.params, "aspect_id"@, SqlView::Text(uuid_text(c.aspect_id.value)))
            &&& puts(fields, s.params, "pattern_id"@, SqlView::Text(uuid_text(c.pattern_id.value)))
            &&& puts(fields, s.params, "event_id"@, SqlView::Text(uuid_text(c.event_id.value)))
            &&& puts(fields, s.params, "average_distance_value"@, match c.average_distance { Some(d) => SqlView::Text(decimal_text(d.value@.mantissa, d.value@.scale)), None => SqlView::Null })
            &&& puts(fields, s.params, "average_distance_units"@, match c.average_distance { Some(d) => SqlView::Text(d.units.spec_text()), None => SqlView::Null })
            &&& puts(fields, s.params, "updated_at"@, SqlView::Integer(updated_at))
            &&& is_met(met, s.params, 8, row) <==> row["id"@] == SqlView::Text(uuid_text(c.id.value))
        }),
{
    reveal_with_fuel(settings_text, 9);
    reveal_with_fuel(puts, 9);
    reveal_with_fuel(values_put, 9);
    reveal_with_fuel(conditions_text, 3);
    reveal_with_fuel(is_met, 3);
    reveal_with_fuel(values_taken, 3);
    reveal_strlit("");
    reveal_strlit(" = ");
    reveal_strlit(" SET ");
    reveal_strlit(" WHERE ");
    reveal_strlit(", ");
    reveal_strlit("?");
    reveal_strlit("UPDATE ");
    reveal_strlit("UPDATE correlations SET dictionary_id = ?, subject_id = ?, aspect_id = ?, pattern_id = ?, event_id = ?, average_distance_value = ?, average_distance_units = ?, updated_at = ? WHERE id = ?");
    reveal_strlit("aspect_id");
    reveal_strlit("average_distance_units");
    reveal_strlit("average_distance_value");
    reveal_strlit("correlations");
    reveal_strlit("dictionary_id");
    reveal_strlit("event_id");
    reveal_strlit("id");
    reveal_strlit("pattern_id");
    reveal_strlit("subject_id");
    reveal_strlit("updated_at");
    let fields = Fields::Only("dictionary_id"@, Operand::Given)
        .and("subject_id"@, Operand::Given)
        .and("aspect_id"@, Operand::Given)
        .and("pattern_id"@, Operand::Given)
        .and("event_id"@, Operand::Given)
        .and("average_distance_value"@, Operand::Given)
        .and("average_distance_units"@, Operand::Given)
        .and("updated_at"@, Operand::Given);
    let met = only("id"@, Sign::Is);
    let s = update_step(c, updated_at).statement;
    assert(s.sql =~= change_text("correlations"@, fields, met));
}

/// The statement of `delete_rates_step` takes exactly those rows of `correlation_error_rates` away
/// that are meant.
pub proof fn law_delete_rates_step_removes(id: u128, row: Row)
    ensures
        ({
            let met = only("correlation_id"@, Sign::Is);
            let s = delete_rates_step(id).statement;
            &&& s.sql == removal_text("correlation_error_rates"@, met)
            &&& s.params.len() == 1
            &&& is_met(met, s.params, 0, row) <==> row["correlation_id"@] == SqlView::Text(uuid_text(id))
        }),
{
    reveal_with_fuel(conditions_text, 3);
    reveal_with_fuel(is_met, 3);
    reveal_with_fuel(values_taken, 3);
    reveal_strlit("");
    reveal_strlit(" = ");
    reveal_strlit(" WHERE ");
    reveal_strlit("?");
    reveal_strlit("DELETE FROM ");
    reveal_strlit("DELETE FROM correlation_error_rates WHERE correlation_id = ?");
    reveal_strlit("correlation_error_rates");
    reveal_strlit("correlation_id");
    let met = only("correlation_id"@, Sign::Is);
    let s = delete_rates_step(id).statement;
    assert(s.sql =~= removal_text("correlation_error_rates"@, met));
}

/// The statement of `delete_stretches_step` takes exactly those rows of `correlation_occurrences`
/// away that are meant.
pub proof fn law_delete_stretches_step_removes(id: u128, row: Row)
    ensures
        ({
            let met = only("correlation_id"@, Sign::Is);
            let s = delete_stretches_step(id).statement;
            &&& s.sql == removal_text("correlation_occurrences"@, met)
            &&& s.params.len() == 1
            &&& is_met(met, s.params, 0, row) <==> row["correlation_id"@] == SqlView::Text(uuid_text(id))
        }),
{
    reveal_with_fuel(conditions_text, 3);
    reveal_with_fuel(is_met, 3);
    reveal_with_fuel(values_taken, 3);
    reveal_strlit("");
    reveal_strlit(" = ");
    reveal_strlit(" WHERE ");
    reveal_strlit("?");
    reveal_strlit("DELETE FROM ");
    reveal_strlit("DELETE FROM correlation_occurrences WHERE correlation_id = ?");
    reveal_strlit("correlation_id");
    reveal_strlit("correlation_occurrences");
    let met = only("correlation_id"@, Sign::Is);
    let s = delete_stretches_step(id).statement;
    assert(s.sql =~= removal_text("correlation_occurrences"@, met));
}

/// The third step of `remove_correlation` takes exactly those rows of `correlations` away that are
/// meant.
pub proof fn law_remove_correlation_removes_third(correlation_id: &CorrelationID, row: Row)
    ensures
        ({
            let met = only("id"@, Sign::Is);
            let s = spec_remove_correlation(correlation_id)[2].statement;
            &&& s.sql == removal_text("correlations"@, met)
            &&& s.params.len() == 1
            &&& is_met(met, s.params, 0, row) <==> row["id"@] == SqlView::Text(uuid_text(correlation_id.value))
        }),
{
    reveal_with_fuel(conditions_text, 3);
    reveal_with_fuel(is_met, 3);
    reveal_with_fuel(values_taken, 3);
    reveal_strlit("");
    reveal_strlit(" = ");
    reveal_strlit(" WHERE ");
    reveal_strlit("?");
    reveal_strlit("DELETE FROM ");
    reveal_strlit("DELETE FROM correlations WHERE id = ?");
    reveal_strlit("correlations");
    reveal_strlit("id");
    let met = only("id"@, Sign::Is);
    let s = spec_remove_correlation(correlation_id)[2].statement;
    assert(s.sql =~= removal_text("correlations"@, met));
}

/// The first step of `correlation_queries` reads `id`, `dictionary_id`, `subject_id`, `aspect_id`,
/// `pattern_id`, `event_id`, `average_distance_value` and `average_distance_units` of exactly those
/// rows of `correlations` that are asked for.
pub proof fn law_correlation_queries_reads_first(correlation_id: &CorrelationID, row: Row)
    ensures
        ({
            let met = only("id"@, Sign::Is);
            let columns = Listed::Only("id"@)
                .and("dictionary_id"@)
                .and("subject_id"@)
                .and("aspect_id"@)
                .and("pattern_id"@)
                .and("event_id"@)
                .and("average_distance_value"@)
                .and("average_distance_units"@);
            let s = spec_correlation_queries(correlation_id)[0];
            &&& s.sql == reading_text(columns, "correlations"@, met)
            &&& s.params.len() == 1
            &&& is_met(met, s.params, 0, row) <==> row["id"@] == SqlView::Text(uuid_text(correlation_id.value))
        }),
{
    reveal_with_fuel(listed_text, 9);
    reveal_with_fuel(conditions_text, 3);
    reveal_with_fuel(is_met, 3);
    reveal_with_fuel(values_taken, 3);
    reveal_strlit("");
    reveal_strlit(" = ");
    reveal_strlit(" FROM ");
    reveal_strlit(" WHERE ");
    reveal_strlit(", ");
    reveal_strlit("?");
    reveal_strlit("SELECT ");
    reveal_strlit("SELECT id, dictionary_id, subject_id, aspect_id, pattern_id, event_id, average_distance_value, average_distance_units FROM correlations WHERE id = ?");
    reveal_strlit("aspect_id");
    reveal_strlit("average_distance_units");
    reveal_strlit("average_distance_value");
    reveal_strlit("correlations");
    reveal_strlit("dictionary_id");
    reveal_strlit("event_id");
    reveal_strlit("id");
    reveal_strlit("pattern_id");
    reveal_strlit("subject_id");
    let met = only("id"@, Sign::Is);
    let columns = Listed::Only("id"@)
        .and("dictionary_id"@)
        .and("subject_id"@)
        .and("aspect_id"@)
        .and("pattern_id"@)
        .and("event_id"@)
        .and("average_distance_value"@)
        .and("average_distance_units"@);
    let s = spec_correlation_queries(correlation_id)[0];
    assert(s.sql =~= reading_text(columns, "correlations"@, met));
}

/// The second step of `correlation_queries` reads `signal_type`, `error_rate_value` and
/// `error_rate_units` of exactly those rows of `correlation_error_rates` that are asked for.
pub proof fn law_correlation_queries_reads_second(correlation_id: &CorrelationID, row: Row)
    ensures
        ({
            let met = only("correlation_id"@, Sign::Is);
            let columns = Listed::Only("signal_type"@).and("error_rate_value"@).and("error_rate_units"@);
            let s = spec_correlation_queries(correlation_id)[1];
            &&& s.sql == reading_text(columns, "correlation_error_rates"@, met)
            &&& s.params.len() == 1
            &&& is_met(met, s.params, 0, row) <==> row["correlation_id"@] == SqlView::Text(uuid_text(correlation_id.value))
        }),
{
    reveal_with_fuel(listed_text, 4);
    reveal_with_fuel(conditions_text, 3);
    reveal_with_fuel(is_met, 3);
    reveal_with_fuel(values_taken, 3);
    reveal_strlit("");
    reveal_strlit(" = ");
    reveal_strlit(" FROM ");
    reveal_strlit(" WHERE ");
    reveal_strlit(", ");
    reveal_strlit("?");
    reveal_strlit("SELECT ");
    reveal_strlit("SELECT signal_type, error_rate_value, error_rate_units FROM correlation_error_rates WHERE correlation_id = ?");
    reveal_strlit("correlation_error_rates");
    reveal_strlit("correlation_id");
    reveal_strlit("error_rate_units");
    reveal_strlit("error_rate_value");
    reveal_strlit("signal_type");
    let met = only("correlation_id"@, Sign::Is);
    let columns = Listed::Only("signal_type"@).and("error_rate_value"@).and("error_rate_units"@);
    let s = spec_correlation_queries(correlation_id)[1];
    assert(s.sql =~= reading_text(columns, "correlation_error_rates"@, met));
}

/// The third step of `correlation_queries` reads `correlation_id`, `occurrence_index`, `aspect_id`,
/// `resolution`, `size`, `database_info`, `pattern_id`, `beginning_timestamp` and `end_timestamp`
/// of exactly those rows of `correlation_occurrences` that are asked for.
pub proof fn law_correlation_queries_reads_third(correlation_id: &CorrelationID, row: Row)
    ensures
        ({
            let met = only("correlation_id"@, Sign::Is);
            let columns = Listed::Only("correlation_id"@)
                .and("occurrence_index"@)
                .and("aspect_id"@)
                .and("resolution"@)
                .and("size"@)
                .and("database_info"@)
                .and("pattern_id"@)
                .and("beginning_timestamp"@)
                .and("end_timestamp"@);
            let s = spec_correlation_queries(correlation_id)[2];
            &&& s.sql == reading_text(columns, "correlation_occurrences"@, met)
            &&& s.params.len() == 1
            &&& is_met(met, s.params, 0, row) <==> row["correlation_id"@] == SqlView::Text(uuid_text(correlation_id.value))
        }),
{
    reveal_with_fuel(listed_text, 10);
    reveal_with_fuel(conditions_text, 3);
    reveal_with_fuel(is_met, 3);
    reveal_with_fuel(values_taken, 3);
    reveal_strlit("");
    reveal_strlit(" = ");
    reveal_strlit(" FROM ");
    reveal_strlit(" WHERE ");
    reveal_strlit(", ");
    reveal_strlit("?");
    reveal_strlit("SELECT ");
    reveal_strlit("SELECT correlation_id, occurrence_index, aspect_id, resolution, size, database_info, pattern_id, beginning_timestamp, end_timestamp FROM correlation_occurrences WHERE correlation_id = ?");
    reveal_strlit("aspect_id");
    reveal_strlit("beginning_timestamp");
    reveal_strlit("correlation_id");
    reveal_strlit("correlation_occurrences");
    reveal_strlit("database_info");
    reveal_strlit("end_timestamp");
    reveal_strlit("occurrence_index");
    reveal_strlit("pattern_id");
    reveal_strlit("resolution");
    reveal_strlit("size");
    let met = only("correlation_id"@, Sign::Is);
    let columns = Listed::Only("correlation_id"@)
        .and("occurrence_index"@)
        .and("aspect_id"@)
        .and("resolution"@)
        .and("size"@)
        .and("database_info"@)
        .and("pattern_id"@)
        .and("beginning_timestamp"@)
        .and("end_timestamp"@);
    let s = spec_correlation_queries(correlation_id)[2];
    assert(s.sql =~= reading_text(columns, "correlation_occurrences"@, met));
}

/// The statement of `page_query` reads `id` of every row of `correlations`.
pub proof fn law_page_query_reads(offset: i64)
    ensures
        ({
            let met = Conditions::Always;
            let columns = Listed::Only("id"@);
            let s = spec_page_query(offset);
            &&& s.sql == reading_text(columns, "correlations"@, met) + " LIMIT ? OFFSET ?"@
            &&& s.params.len() == 2
        }),
{
    reveal_with_fuel(listed_text, 2);
    reveal_with_fuel(conditions_text, 2);
    reveal_strlit("");
    reveal_strlit(" FROM ");
    reveal_strlit(" LIMIT ? OFFSET ?");
    reveal_strlit("SELECT ");
    reveal_strlit("SELECT id FROM correlations LIMIT ? OFFSET ?");
    reveal_strlit("correlations");
    reveal_strlit("id");
    let met = Conditions::Always;
    let columns = Listed::Only("id"@);
    let s = spec_page_query(offset);
    assert(s.sql =~= reading_text(columns, "correlations"@, met) + " LIMIT ? OFFSET ?"@);
}

/// The statement of `store_correlation_in_dictionary` adds a row to `correlations`, with each value
/// in the column that is meant for it.
pub proof fn law_store_correlation_in_dictionary_adds(
    correlation: &Correlation,
    error_rates: &str,
    occurrences: &str,
    now: i64,
)
    ensures
        ({
            let fields = Fields::Only("id"@, Operand::Given)
                .and("dictionary_id"@, Operand::Given)
                .and("pattern_id"@, Operand::Given)
                .and("event_id"@, Operand::Given)
                .and("error_rates"@, Operand::Given)
                .and("occurrences"@, Operand::Given)
                .and("subject_id"@, Operand::Given)
                .and("aspect_id"@, Operand::Given)
                .and("created_at"@, Operand::Given)
                .and("updated_at"@, Operand::Given);
            let s = spec_store_correlation_in_dictionary(correlation, error_rates, occurrences, now);
            &&& s.sql == addition_text("INSERT INTO "@, "correlations"@, fields)
            &&& s.params.len() == 10
            &&& puts(fields, s.params, "id"@, SqlView::Text(uuid_text(correlation.id.value)))
            &&& puts(fields, s.params, "dictionary_id"@, SqlView::Text(uuid_text(correlation.dictionary_id.value)))
            &&& puts(fields, s.params, "pattern_id"@, SqlView::Text(uuid_text(correlation.pattern_id.value)))
            &&& puts(fields, s.params, "event_id"@, SqlView::Text(uuid_text(correlation.event_id.value)))
            &&& puts(fields, s.params, "error_rates"@, SqlView::Text(error_rates@))
            &&& puts(fields, s.params, "occurrences"@, SqlView::Text(occurrences@))
            &&& puts(fields, s.params, "subject_id"@, SqlView::Text(uuid_text(correlation.subject_id.value)))
            &&& puts(fields, s.params, "aspect_id"@, SqlView::Text(uuid_text(correlation.aspect_id.value)))
            &&& puts(fields, s.params, "created_at"@, SqlView::Integer(now as int))
            &&& puts(fields, s.params, "updated_at"@, SqlView::Integer(now as int))
        }),
{
    reveal_with_fuel(columns_text, 11);
    reveal_with_fuel(values_text, 11);
    reveal_with_fuel(puts, 11);
    reveal_with_fuel(values_put, 11);
    reveal_strlit(" (");
    reveal_strlit(")");
    reveal_strlit(") VALUES (");
    reveal_strlit(", ");
    reveal_strlit("?");
    reveal_strlit("INSERT INTO ");
    reveal_strlit("INSERT INTO correlations (id, dictionary_id, pattern_id, event_id, error_rates, occurrences, subject_id, aspect_id, created_at, updated_at) VALUES (?, ?, ?, ?, ?, ?, ?, ?, ?, ?)");
    reveal_strlit("aspect_id");
    reveal_strlit("correlations");
    reveal_strlit("created_at");
    reveal_strlit("dictionary_id");
    reveal_strlit("error_rates");
    reveal_strlit("event_id");
    reveal_strlit("id");
    reveal_strlit("occurrences");
    reveal_strlit("pattern_id");
    reveal_strlit("subject_id");
    reveal_strlit("updated_at");
    let fields = Fields::Only("id"@, Operand::Given)
        .and("dictionary_id"@, Operand::Given)
        .and("pattern_id"@, Operand::Given)
        .and("event_id"@, Operand::Given)
        .and("error_rates"@, Operand::Given)
        .and("occurrences"@, Operand::Given)
        .and("subject_id"@, Operand::Given)
        .and("aspect_id"@, Operand::Given)
        .and("created_at"@, Operand::Given)
        .and("updated_at"@, Operand::Given);
    let s = spec_store_correlation_in_dictionary(correlation, error_rates, occurrences, now);
    assert(s.sql =~= addition_text("INSERT INTO "@, "correlations"@, fields));
}

/// The statement of `clear_step` takes exactly those rows of `correlations` away that are meant.
pub proof fn law_clear_step_removes(id: u128, row: Row)
    ensures
        ({
            let met = only("id"@, Sign::Is);
            let s = clear_step(id).statement;
            &&& s.sql == removal_text("correlations"@, met)
            &&& s.params.len() == 1
            &&& is_met(met, s.params, 0, row) <==> row["id"@] == SqlView::Text(uuid_text(id))
        }),
{
    reveal_with_fuel(conditions_text, 3);
    reveal_with_fuel(is_met, 3);
    reveal_with_fuel(values_taken, 3);
    reveal_strlit("");
    reveal_strlit(" = ");
    reveal_strlit(" WHERE ");
    reveal_strlit("?");
    reveal_strlit("DELETE FROM ");
    reveal_strlit("DELETE FROM correlations WHERE id = ?");
    reveal_strlit("correlations");
    reveal_strlit("id");
    let met = only("id"@, Sign::Is);
    let s = clear_step(id).statement;
    assert(s.sql =~= removal_text("correlations"@, met));
}

/// The statement of `rewrite_step` adds a row to `correlations`, with each value in the column that
/// is meant for it.
pub proof fn law_rewrite_step_adds(
    c: Correlation,
    error_rates: Seq<char>,
    occurrences: Seq<char>,
    now: int,
)
    ensures
        ({
            let fields = Fields::Only("id"@, Operand::Given)
                .and("dictionary_id"@, Operand::Given)
                .and("pattern_id"@, Operand::Given)
                .and("event_id"@, Operand::Given)
                .and("error_rates"@, Operand::Given)
                .and("occurrences"@, Operand::Given)
                .and("subject_id"@, Operand::Given)
                .and("aspect_id"@, Operand::Given)
                .and("created_at"@, Operand::Given)
                .and("updated_at"@, Operand::Given);
            let s = rewrite_step(c, error_rates, occurrences, now).statement;
            &&& s.sql == addition_text("INSERT INTO "@, "correlations"@, fields)
            &&& s.params.len() == 10
            &&& puts(fields, s.params, "id"@, SqlView::Text(uuid_text(c.id.value)))
            &&& puts(fields, s.params, "dictionary_id"@, SqlView::Text(uuid_text(c.dictionary_id.value)))
            &&& puts(fields, s.params, "pattern_id"@, SqlView::Text(uuid_text(c.pattern_id.value)))
            &&& puts(fields, s.params, "event_id"@, SqlView::Text(uuid_text(c.event_id.value)))
            &&& puts(fields, s.params, "error_rates"@, SqlView::Text(error_rates))
            &&& puts(fields, s.params, "occurrences"@, SqlView::Text(occurrences))
            &&& puts(fields, s.params, "subject_id"@, SqlView::Text(uuid_text(c.subject_id.value)))
            &&& puts(fields, s.params, "aspect_id"@, SqlView::Text(uuid_text(c.aspect_id.value)))
            &&& puts(fields, s.params, "created_at"@, SqlView::Integer(now))
            &&& puts(fields, s.params, "updated_at"@, SqlView::Integer(now))
        }),
{
    reveal_with_fuel(columns_text, 11);
    reveal_with_fuel(values_text, 11);
    reveal_with_fuel(puts, 11);
    reveal_with_fuel(values_put, 11);
    reveal_strlit(" (");
    reveal_strlit(")");
    reveal_strlit(") VALUES (");
    reveal_strlit(", ");
    reveal_strlit("?");
    reveal_strlit("INSERT INTO ");
    reveal_strlit("INSERT INTO correlations (id, dictionary_id, pattern_id, event_id, error_rates, occurrences, subject_id, aspect_id, created_at, updated_at) VALUES (?, ?, ?, ?, ?, ?, ?, ?, ?, ?)");
    reveal_strlit("aspect_id");
    reveal_strlit("correlations");
    reveal_strlit("created_at");
    reveal_strlit("dictionary_id");
    reveal_strlit("error_rates");
    reveal_strlit("event_id");
    reveal_strlit("id");
    reveal_strlit("occurrences");
    reveal_strlit("pattern_id");
    reveal_strlit("subject_id");
    reveal_strlit("updated_at");
    let fields = Fields::Only("id"@, Operand::Given)
        .and("dictionary_id"@, Operand::Given)
        .and("pattern_id"@, Operand::Given)
        .and("event_id"@, Operand::Given)
        .and("error_rates"@, Operand::Given)
        .and("occurrences"@, Operand::Given)
        .and("subject_id"@, Operand::Given)
        .and("aspect_id"@, Operand::Given)
        .and("created_at"@, Operand::Given)
        .and("updated_at"@, Operand::Given);
    let s = rewrite_step(c, error_rates, occurrences, now).statement;
    assert(s.sql =~= addition_text("INSERT INTO "@, "correlations"@, fields));
}

/// The statement of `delete_correlation_from_dictionary` takes exactly those rows of `correlations`
/// away that are meant.
pub proof fn law_delete_correlation_from_dictionary_removes(
    correlation_id: &CorrelationID,
    row: Row,
)
    ensures
        ({
            let met = only("id"@, Sign::Is);
            let s = spec_delete_correlation_from_dictionary(correlation_id).statement;
            &&& s.sql == removal_text("correlations"@, met)
            &&& s.params.len() == 1
            &&& is_met(met, s.params, 0, row) <==> row["id"@] == SqlView::Text(uuid_text(correlation_id.value))
        }),
{
    reveal_with_fuel(conditions_text, 3);
    reveal_with_fuel(is_met, 3);
    reveal_with_fuel(values_taken, 3);
    reveal_strlit("");
    reveal_strlit(" = ");
    reveal_strlit(" WHERE ");
    reveal_strlit("?");
    reveal_strlit("DELETE FROM ");
    reveal_strlit("DELETE FROM correlations WHERE id = ?");
    reveal_strlit("correlations");
    reveal_strlit("id");
    let met = only("id"@, Sign::Is);
    let s = spec_delete_correlation_from_dictionary(correlation_id).statement;
    assert(s.sql =~= removal_text("correlations"@, met));
}

/// The statement of `get_correlations_from_dictionary` reads `id`, `dictionary_id`, `pattern_id`,
/// `event_id`, `error_rates` and `occurrences` of every row of `correlations`, the last by
/// `updated_at` first.
pub proof fn law_get_correlations_from_dictionary_reads()
    ensures
        ({
            let met = Conditions::Always;
            let columns = Listed::Only("id"@)
                .and("dictionary_id"@)
                .and("pattern_id"@)
                .and("event_id"@)
                .and("error_rates"@)
                .and("occurrences"@);
            let s = spec_get_correlations_from_dictionary();
            &&& s.sql == reading_text(columns, "correlations"@, met) + " ORDER BY updated_at DESC"@
            &&& s.params.len() == 0
        }),
{
    reveal_with_fuel(listed_text, 7);
    reveal_with_fuel(conditions_text, 2);
    reveal_strlit("");
    reveal_strlit(" FROM ");
    reveal_strlit(" ORDER BY updated_at DESC");
    reveal_strlit(", ");
    reveal_strlit("SELECT ");
    reveal_strlit("SELECT id, dictionary_id, pattern_id, event_id, error_rates, occurrences FROM correlations ORDER BY updated_at DESC");
    reveal_strlit("correlations");
    reveal_strlit("dictionary_id");
    reveal_strlit("error_rates");
    reveal_strlit("event_id");
    reveal_strlit("id");
    reveal_strlit("occurrences");
    reveal_strlit("pattern_id");
    let met = Conditions::Always;
    let columns = Listed::Only("id"@)
        .and("dictionary_id"@)
        .and("pattern_id"@)
        .and("event_id"@)
        .and("error_rates"@)
        .and("occurrences"@);
    let s = spec_get_correlations_from_dictionary();
    assert(s.sql =~= reading_text(columns, "correlations"@, met) + " ORDER BY updated_at DESC"@);
}

/// The statement of `get_correlation_by_id_from_dictionary` reads `id`, `dictionary_id`,
/// `pattern_id`, `event_id`, `error_rates` and `occurrences` of exactly those rows of
/// `correlations` that are asked for, and no more than one.
pub proof fn law_get_correlation_by_id_from_dictionary_reads(
    correlation_id: &CorrelationID,
    row: Row,
)
    ensures
        ({
            let met = only("id"@, Sign::Is);
            let columns = Listed::Only("id"@)
                .and("dictionary_id"@)
                .and("pattern_id"@)
                .and("event_id"@)
                .and("error_rates"@)
                .and("occurrences"@);
            let s = spec_get_correlation_by_id_from_dictionary(correlation_id);
            &&& s.sql == reading_text(columns, "correlations"@, met) + " LIMIT 1"@
            &&& s.params.len() == 1
            &&& is_met(met, s.params, 0, row) <==> row["id"@] == SqlView::Text(uuid_text(correlation_id.value))
        }),
{
    reveal_with_fuel(listed_text, 7);
    reveal_with_fuel(conditions_text, 3);
    reveal_with_fuel(is_met, 3);
    reveal_with_fuel(values_taken, 3);
    reveal_strlit("");
    reveal_strlit(" = ");
    reveal_strlit(" FROM ");
    reveal_strlit(" LIMIT 1");
    reveal_strlit(" WHERE ");
    reveal_strlit(", ");
    reveal_strlit("?");
    reveal_strlit("SELECT ");
    reveal_strlit("SELECT id, dictionary_id, pattern_id, event_id, error_rates, occurrences FROM correlations WHERE id = ? LIMIT 1");
    reveal_strlit("correlations");
    reveal_strlit("dictionary_id");
    reveal_strlit("error_rates");
    reveal_strlit("event_id");
    reveal_strlit("id");
    reveal_strlit("occurrences");
    reveal_strlit("pattern_id");
    let met = only("id"@, Sign::Is);
    let columns = Listed::Only("id"@)
        .and("dictionary_id"@)
        .and("pattern_id"@)
        .and("event_id"@)
        .and("error_rates"@)
        .and("occurrences"@);
    let s = spec_get_correlation_by_id_from_dictionary(correlation_id);
    assert(s.sql =~= reading_text(columns, "correlations"@, met) + " LIMIT 1"@);
}

}
