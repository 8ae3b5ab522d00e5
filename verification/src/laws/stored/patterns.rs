//! What the statements on the stored patterns read, add, change and take away.
use crate::decimal::decimal_text;
use crate::ids::{uuid_text, PatternID};
use crate::laws::statements::{
    addition_text,
    columns_text,
    conditions_text,
    is_met,
    listed_text,
    only,
    puts,
    reading_text,
    removal_text,
    values_put,
    values_taken,
    values_text,
    Conditions,
    Fields,
    Listed,
    Operand,
    Row,
    Sign,
};
use crate::measurement::RelativeView;
use crate::sql::SqlView;
use crate::store::patterns::{
    decimal_column,
    figures_step,
    relative_step,
    relative_text_step,
    spec_clear_patterns,
    spec_pattern_queries,
    spec_patterns_query,
    spec_remove_pattern,
    Figures,
};
use vstd::prelude::*;

verus! {

/// The statement of `figures_step` adds a row to `patterns`, with each value in the column that is
/// meant for it.
pub proof fn law_figures_step_adds(pattern: u128, figures: Figures, complaint: Seq<char>)
    ensures
        ({
            let fields = Fields::Only("id"@, Operand::Given)
                .and("sum_value"@, Operand::Given)
                .and("abs_sum_value"@, Operand::Given)
                .and("max_value"@, Operand::Given)
                .and("min_value"@, Operand::Given)
                .and("abs_max_value"@, Operand::Given)
                .and("avg_value"@, Operand::Given)
                .and("abs_avg_value"@, Operand::Given);
            let s = figures_step(pattern, figures, complaint).statement;
            &&& s.sql == addition_text("INSERT INTO "@, "patterns"@, fields)
            &&& s.params.len() == 8
            &&& puts(fields, s.params, "id"@, SqlView::Text(uuid_text(pattern)))
            &&& puts(fields, s.params, "sum_value"@, SqlView::Text(decimal_text(figures.sum@.mantissa, figures.sum@.scale)))
            &&& puts(fields, s.params, "abs_sum_value"@, SqlView::Text(decimal_text(figures.abs_sum@.mantissa, figures.abs_sum@.scale)))
            &&& puts(fields, s.params, "max_value"@, SqlView::Text(decimal_text(figures.max@.mantissa, figures.max@.scale)))
            &&& puts(fields, s.params, "min_value"@, SqlView::Text(decimal_text(figures.min@.mantissa, figures.min@.scale)))
            &&& puts(fields, s.params, "abs_max_value"@, SqlView::Text(decimal_text(figures.abs_max@.mantissa, figures.abs_max@.scale)))
            &&& puts(fields, s.params, "avg_value"@, SqlView::Text(decimal_text(figures.avg@.mantissa, figures.avg@.scale)))
            &&& puts(fields, s.params, "abs_avg_value"@, SqlView::Text(decimal_text(figures.abs_avg@.mantissa, figures.abs_avg@.scale)))
        }),
{
    reveal_with_fuel(columns_text, 9);
    reveal_with_fuel(values_text, 9);
    reveal_with_fuel(puts, 9);
    reveal_with_fuel(values_put, 9);
    reveal_strlit(" (");
    reveal_strlit(")");
    reveal_strlit(") VALUES (");
    reveal_strlit(", ");
    reveal_strlit("?");
    reveal_strlit("INSERT INTO ");
    reveal_strlit("INSERT INTO patterns (id, sum_value, abs_sum_value, max_value, min_value, abs_max_value, avg_value, abs_avg_value) VALUES (?, ?, ?, ?, ?, ?, ?, ?)");
    reveal_strlit("abs_avg_value");
    reveal_strlit("abs_max_value");
    reveal_strlit("abs_sum_value");
    reveal_strlit("avg_value");
    reveal_strlit("id");
    reveal_strlit("max_value");
    reveal_strlit("min_value");
    reveal_strlit("patterns");
    reveal_strlit("sum_value");
    let fields = Fields::Only("id"@, Operand::Given)
        .and("sum_value"@, Operand::Given)
        .and("abs_sum_value"@, Operand::Given)
        .and("max_value"@, Operand::Given)
        .and("min_value"@, Operand::Given)
        .and("abs_max_value"@, Operand::Given)
        .and("avg_value"@, Operand::Given)
        .and("abs_avg_value"@, Operand::Given);
    let s = figures_step(pattern, figures, complaint).statement;
    assert(s.sql =~= addition_text("INSERT INTO "@, "patterns"@, fields));
}

/// The statement of `relative_step` adds a row to `pattern_relatives`, with each value in the
/// column that is meant for it.
pub proof fn law_relative_step_adds(pattern: u128, index: int, relative: RelativeView)
    ensures
        ({
            let fields = Fields::Only("pattern_id"@, Operand::Given)
                .and("relative_index"@, Operand::Given)
                .and("vector_location"@, Operand::Given)
                .and("vector_amplitude"@, Operand::Given)
                .and("max_x"@, Operand::Given)
                .and("max_y"@, Operand::Given);
            let s = relative_step(pattern, index, relative).statement;
            &&& s.sql == addition_text("INSERT INTO "@, "pattern_relatives"@, fields)
            &&& s.params.len() == 6
            &&& puts(fields, s.params, "pattern_id"@, SqlView::Text(uuid_text(pattern)))
            &&& puts(fields, s.params, "relative_index"@, SqlView::Integer(index))
            &&& puts(fields, s.params, "vector_location"@, decimal_column(relative.vector.location))
            &&& puts(fields, s.params, "vector_amplitude"@, decimal_column(relative.vector.amplitude))
            &&& puts(fields, s.params, "max_x"@, decimal_column(relative.max_x))
            &&& puts(fields, s.params, "max_y"@, decimal_column(relative.max_y))
        }),
{
    reveal_with_fuel(columns_text, 7);
    reveal_with_fuel(values_text, 7);
    reveal_with_fuel(puts, 7);
    reveal_with_fuel(values_put, 7);
    reveal_strlit(" (");
    reveal_strlit(")");
    reveal_strlit(") VALUES (");
    reveal_strlit(", ");
    reveal_strlit("?");
    reveal_strlit("INSERT INTO ");
    reveal_strlit("INSERT INTO pattern_relatives (pattern_id, relative_index, vector_location, vector_amplitude, max_x, max_y) VALUES (?, ?, ?, ?, ?, ?)");
    reveal_strlit("max_x");
    reveal_strlit("max_y");
    reveal_strlit("pattern_id");
    reveal_strlit("pattern_relatives");
    reveal_strlit("relative_index");
    reveal_strlit("vector_amplitude");
    reveal_strlit("vector_location");
    let fields = Fields::Only("pattern_id"@, Operand::Given)
        .and("relative_index"@, Operand::Given)
        .and("vector_location"@, Operand::Given)
        .and("vector_amplitude"@, Operand::Given)
        .and("max_x"@, Operand::Given)
        .and("max_y"@, Operand::Given);
    let s = relative_step(pattern, index, relative).statement;
    assert(s.sql =~= addition_text("INSERT INTO "@, "pattern_relatives"@, fields));
}

/// The statement of `relative_text_step` adds a row to `pattern_relatives`, with each value in the
/// column that is meant for it.
pub proof fn law_relative_text_step_adds(pattern: u128, index: int, relative: Seq<char>)
    ensures
        ({
            let fields = Fields::Only("pattern_id"@, Operand::Given)
                .and("relative_index"@, Operand::Given)
                .and("relative_value"@, Operand::Given);
            let s = relative_text_step(pattern, index, relative).statement;
            &&& s.sql == addition_text("INSERT INTO "@, "pattern_relatives"@, fields)
            &&& s.params.len() == 3
            &&& puts(fields, s.params, "pattern_id"@, SqlView::Text(uuid_text(pattern)))
            &&& puts(fields, s.params, "relative_index"@, SqlView::Integer(index))
            &&& puts(fields, s.params, "relative_value"@, SqlView::Text(relative))
        }),
{
    reveal_with_fuel(columns_text, 4);
    reveal_with_fuel(values_text, 4);
    reveal_with_fuel(puts, 4);
    reveal_with_fuel(values_put, 4);
    reveal_strlit(" (");
    reveal_strlit(")");
    reveal_strlit(") VALUES (");
    reveal_strlit(", ");
    reveal_strlit("?");
    reveal_strlit("INSERT INTO ");
    reveal_strlit("INSERT INTO pattern_relatives (pattern_id, relative_index, relative_value) VALUES (?, ?, ?)");
    reveal_strlit("pattern_id");
    reveal_strlit("pattern_relatives");
    reveal_strlit("relative_index");
    reveal_strlit("relative_value");
    let fields = Fields::Only("pattern_id"@, Operand::Given)
        .and("relative_index"@, Operand::Given)
        .and("relative_value"@, Operand::Given);
    let s = relative_text_step(pattern, index, relative).statement;
    assert(s.sql =~= addition_text("INSERT INTO "@, "pattern_relatives"@, fields));
}

/// The statement of `remove_pattern` takes exactly those rows of `patterns` away that are meant.
pub proof fn law_remove_pattern_removes(pattern: &PatternID, row: Row)
    ensures
        ({
            let met = only("id"@, Sign::Is);
            let s = spec_remove_pattern(pattern).statement;
            &&& s.sql == removal_text("patterns"@, met)
            &&& s.params.len() == 1
            &&& is_met(met, s.params, 0, row) <==> row["id"@] == SqlView::Text(uuid_text(pattern.value))
        }),
{
    reveal_with_fuel(conditions_text, 3);
    reveal_with_fuel(is_met, 3);
    reveal_with_fuel(values_taken, 3);
    reveal_strlit("");
    reveal_strlit(" = ");
    reveal_strlit(" WHERE ");
    reveal_strlit("?");
    reveal_strlit("DELETE FROM ");
    reveal_strlit("DELETE FROM patterns WHERE id = ?");
    reveal_strlit("id");
    reveal_strlit("patterns");
    let met = only("id"@, Sign::Is);
    let s = spec_remove_pattern(pattern).statement;
    assert(s.sql =~= removal_text("patterns"@, met));
}

/// The statement of `clear_patterns` takes every row of `patterns` away.
pub proof fn law_clear_patterns_removes()
    ensures
        ({
            let met = Conditions::Always;
            let s = spec_clear_patterns().statement;
            &&& s.sql == removal_text("patterns"@, met)
            &&& s.params.len() == 0
        }),
{
    reveal_with_fuel(conditions_text, 2);
    reveal_strlit("");
    reveal_strlit("DELETE FROM ");
    reveal_strlit("DELETE FROM patterns");
    reveal_strlit("patterns");
    let met = Conditions::Always;
    let s = spec_clear_patterns().statement;
    assert(s.sql =~= removal_text("patterns"@, met));
}

/// The first step of `pattern_queries` reads `id`, `sum_value`, `abs_sum_value`, `max_value`,
/// `min_value`, `abs_max_value`, `avg_value` and `abs_avg_value` of exactly those rows of
/// `patterns` that are asked for.
pub proof fn law_pattern_queries_reads_first(pattern_id: &PatternID, row: Row)
    ensures
        ({
            let met = only("id"@, Sign::Is);
            let columns = Listed::Only("id"@)
                .and("sum_value"@)
                .and("abs_sum_value"@)
                .and("max_value"@)
                .and("min_value"@)
                .and("abs_max_value"@)
                .and("avg_value"@)
                .and("abs_avg_value"@);
            let s = spec_pattern_queries(pattern_id)[0];
            &&& s.sql == reading_text(columns, "patterns"@, met)
            &&& s.params.len() == 1
            &&& is_met(met, s.params, 0, row) <==> row["id"@] == SqlView::Text(uuid_text(pattern_id.value))
        }),
{
    reveal_with_fuel(listed_text, 9);
    reveal_with_fuel(conditions_text, 3);
    reveal_with_fuel(is_met, 3);
    reveal_with_fuel(values_taken, 3);
    reveal_strlit("");
    reveal_strlit(" = ");
    reveal_strlit(" FROM ");
    reveal_strlit(" WHERE ");
    reveal_strlit(", ");
    reveal_strlit("?");
    reveal_strlit("SELECT ");
    reveal_strlit("SELECT id, sum_value, abs_sum_value, max_value, min_value, abs_max_value, avg_value, abs_avg_value FROM patterns WHERE id = ?");
    reveal_strlit("abs_avg_value");
    reveal_strlit("abs_max_value");
    reveal_strlit("abs_sum_value");
    reveal_strlit("avg_value");
    reveal_strlit("id");
    reveal_strlit("max_value");
    reveal_strlit("min_value");
    reveal_strlit("patterns");
    reveal_strlit("sum_value");
    let met = only("id"@, Sign::Is);
    let columns = Listed::Only("id"@)
        .and("sum_value"@)
        .and("abs_sum_value"@)
        .and("max_value"@)
        .and("min_value"@)
        .and("abs_max_value"@)
        .and("avg_value"@)
        .and("abs_avg_value"@);
    let s = spec_pattern_queries(pattern_id)[0];
    assert(s.sql =~= reading_text(columns, "patterns"@, met));
}

/// The second step of `pattern_queries` reads `pattern_id`, `aspect_id`, `resolution`, `size`,
/// `database_info`, `beginning_timestamp` and `end_timestamp` of exactly those rows of
/// `pattern_occurrences` that are asked for.
pub proof fn law_pattern_queries_reads_second(pattern_id: &PatternID, row: Row)
    ensures
        ({
            let met = only("pattern_id"@, Sign::Is);
            let columns = Listed::Only("pattern_id"@)
                .and("aspect_id"@)
                .and("resolution"@)
                .and("size"@)
                .and("database_info"@)
                .and("beginning_timestamp"@)
                .and("end_timestamp"@);
            let s = spec_pattern_queries(pattern_id)[1];
            &&& s.sql == reading_text(columns, "pattern_occurrences"@, met)
            &&& s.params.len() == 1
            &&& is_met(met, s.params, 0, row) <==> row["pattern_id"@] == SqlView::Text(uuid_text(pattern_id.value))
        }),
{
    reveal_with_fuel(listed_text, 8);
    reveal_with_fuel(conditions_text, 3);
    reveal_with_fuel(is_met, 3);
    reveal_with_fuel(values_taken, 3);
    reveal_strlit("");
    reveal_strlit(" = ");
    reveal_strlit(" FROM ");
    reveal_strlit(" WHERE ");
    reveal_strlit(", ");
    reveal_strlit("?");
    reveal_strlit("SELECT ");
    reveal_strlit("SELECT pattern_id, aspect_id, resolution, size, database_info, beginning_timestamp, end_timestamp FROM pattern_occurrences WHERE pattern_id = ?");
    reveal_strlit("aspect_id");
    reveal_strlit("beginning_timestamp");
    reveal_strlit("database_info");
    reveal_strlit("end_timestamp");
    reveal_strlit("pattern_id");
    reveal_strlit("pattern_occurrences");
    reveal_strlit("resolution");
    reveal_strlit("size");
    let met = only("pattern_id"@, Sign::Is);
    let columns = Listed::Only("pattern_id"@)
        .and("aspect_id"@)
        .and("resolution"@)
        .and("size"@)
        .and("database_info"@)
        .and("beginning_timestamp"@)
        .and("end_timestamp"@);
    let s = spec_pattern_queries(pattern_id)[1];
    assert(s.sql =~= reading_text(columns, "pattern_occurrences"@, met));
}

/// The third step of `pattern_queries` reads `pattern_id`, `relative_index` and `relative_value` of
/// exactly those rows of `pattern_relatives` that are asked for, the first by `relative_index`
/// first.
pub proof fn law_pattern_queries_reads_third(pattern_id: &PatternID, row: Row)
    ensures
        ({
            let met = only("pattern_id"@, Sign::Is);
            let columns = Listed::Only("pattern_id"@).and("relative_index"@).and("relative_value"@);
            let s = spec_pattern_queries(pattern_id)[2];
            &&& s.sql == reading_text(columns, "pattern_relatives"@, met) + " ORDER BY relative_index ASC"@
            &&& s.params.len() == 1
            &&& is_met(met, s.params, 0, row) <==> row["pattern_id"@] == SqlView::Text(uuid_text(pattern_id.value))
        }),
{
    reveal_with_fuel(listed_text, 4);
    reveal_with_fuel(conditions_text, 3);
    reveal_with_fuel(is_met, 3);
    reveal_with_fuel(values_taken, 3);
    reveal_strlit("");
    reveal_strlit(" = ");
    reveal_strlit(" FROM ");
    reveal_strlit(" ORDER BY relative_index ASC");
    reveal_strlit(" WHERE ");
    reveal_strlit(", ");
    reveal_strlit("?");
    reveal_strlit("SELECT ");
    reveal_strlit("SELECT pattern_id, relative_index, relative_value FROM pattern_relatives WHERE pattern_id = ? ORDER BY relative_index ASC");
    reveal_strlit("pattern_id");
    reveal_strlit("pattern_relatives");
    reveal_strlit("relative_index");
    reveal_strlit("relative_value");
    let met = only("pattern_id"@, Sign::Is);
    let columns = Listed::Only("pattern_id"@).and("relative_index"@).and("relative_value"@);
    let s = spec_pattern_queries(pattern_id)[2];
    assert(s.sql =~= reading_text(columns, "pattern_relatives"@, met) + " ORDER BY relative_index ASC"@);
}

/// The statement of `patterns_query` reads `id`, `sum_value`, `abs_sum_value`, `max_value`,
/// `min_value`, `abs_max_value`, `avg_value` and `abs_avg_value` of every row of `patterns`.
pub proof fn law_patterns_query_reads()
    ensures
        ({
            let met = Conditions::Always;
            let columns = Listed::Only("id"@)
                .and("sum_value"@)
                .and("abs_sum_value"@)
                .and("max_value"@)
                .and("min_value"@)
                .and("abs_max_value"@)
                .and("avg_value"@)
                .and("abs_avg_value"@);
            let s = spec_patterns_query();
            &&& s.sql == reading_text(columns, "patterns"@, met)
            &&& s.params.len() == 0
        }),
{
    reveal_with_fuel(listed_text, 9);
    reveal_with_fuel(conditions_text, 2);
    reveal_strlit("");
    reveal_strlit(" FROM ");
    reveal_strlit(", ");
    reveal_strlit("SELECT ");
    reveal_strlit("SELECT id, sum_value, abs_sum_value, max_value, min_value, abs_max_value, avg_value, abs_avg_value FROM patterns");
    reveal_strlit("abs_avg_value");
    reveal_strlit("abs_max_value");
    reveal_strlit("abs_sum_value");
    reveal_strlit("avg_value");
    reveal_strlit("id");
    reveal_strlit("max_value");
    reveal_strlit("min_value");
    reveal_strlit("patterns");
    reveal_strlit("sum_value");
    let met = Conditions::Always;
    let columns = Listed::Only("id"@)
        .and("sum_value"@)
        .and("abs_sum_value"@)
        .and("max_value"@)
        .and("min_value"@)
        .and("abs_max_value"@)
        .and("avg_value"@)
        .and("abs_avg_value"@);
    let s = spec_patterns_query();
    assert(s.sql =~= reading_text(columns, "patterns"@, met));
}

}
