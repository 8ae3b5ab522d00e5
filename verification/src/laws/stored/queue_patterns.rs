//! What the statements on the queue of patterns read, add, change and take away.
use crate::ids::{uuid_text, AspectId, DatabaseId};
use crate::laws::statements::{
    addition_text,
    change_text,
    columns_text,
    conditions_text,
    is_met,
    listed_text,
    only,
    puts,
    reading_text,
    removal_text,
    settings_text,
    values_put,
    values_taken,
    values_text,
    Fields,
    Listed,
    Operand,
    Row,
    Sign,
};
use crate::pattern::Pattern;
use crate::queue::patterns::{
    cleanup_step,
    dequeue_step,
    mark_step,
    processed_steps,
    spec_cleanup_all_processed_patterns,
    spec_clear_processed_patterns_queue,
    spec_get_pattern_stats,
    spec_get_processed_patterns_queue,
    spec_get_unprocessed_patterns,
    spec_store_pattern,
    WrittenPattern,
};
use crate::sql::SqlView;
use vstd::prelude::*;

verus! {

/// The statement of `store_pattern` adds a row to `patterns`, with each value in the column that is
/// meant for it.
pub proof fn law_store_pattern_adds(
    pattern: &Pattern,
    database_id: &DatabaseId,
    occurrences: &str,
    relatives: &str,
    now: i64,
)
    ensures
        ({
            let fields = Fields::Only("id"@, Operand::Given)
                .and("aspect_id"@, Operand::Given)
                .and("database_id"@, Operand::Given)
                .and("occurrences"@, Operand::Given)
                .and("relatives"@, Operand::Given)
                .and("created_at"@, Operand::Given);
            let s = spec_store_pattern(pattern, database_id, occurrences, relatives, now).statement;
            &&& s.sql == addition_text("INSERT INTO "@, "patterns"@, fields)
            &&& s.params.len() == 6
            &&& puts(fields, s.params, "id"@, SqlView::Text(uuid_text(pattern.id.value)))
            &&& puts(fields, s.params, "aspect_id"@, SqlView::Text(uuid_text(pattern.occurrences@[0].database_info.id.value)))
            &&& puts(fields, s.params, "database_id"@, SqlView::Text(uuid_text(database_id.value)))
            &&& puts(fields, s.params, "occurrences"@, SqlView::Text(occurrences@))
            &&& puts(fields, s.params, "relatives"@, SqlView::Text(relatives@))
            &&& puts(fields, s.params, "created_at"@, SqlView::Integer(now as int))
        }),
{
    reveal_with_fuel(columns_text, 7);
    reveal_with_fuel(values_text, 7);
    reveal_with_fuel(puts, 7);
    reveal_with_fuel(values_put, 7);
    reveal_strlit(" (");
    reveal_strlit(")");
    reveal_strlit(") VALUES (");
    reveal_strlit(", ");
    reveal_strlit("?");
    reveal_strlit("INSERT INTO ");
    reveal_strlit("INSERT INTO patterns (id, aspect_id, database_id, occurrences, relatives, created_at) VALUES (?, ?, ?, ?, ?, ?)");
    reveal_strlit("aspect_id");
    reveal_strlit("created_at");
    reveal_strlit("database_id");
    reveal_strlit("id");
    reveal_strlit("occurrences");
    reveal_strlit("patterns");
    reveal_strlit("relatives");
    let fields = Fields::Only("id"@, Operand::Given)
        .and("aspect_id"@, Operand::Given)
        .and("database_id"@, Operand::Given)
        .and("occurrences"@, Operand::Given)
        .and("relatives"@, Operand::Given)
        .and("created_at"@, Operand::Given);
    let s = spec_store_pattern(pattern, database_id, occurrences, relatives, now).statement;
    assert(s.sql =~= addition_text("INSERT INTO "@, "patterns"@, fields));
}

/// A step of `processed_steps` adds a row to `patterns`, with each value in the column that is
/// meant for it.
pub proof fn law_processed_steps_adds(
    patterns: Seq<WrittenPattern>,
    aspect: u128,
    database: u128,
    i: int,
)
    requires
        0 <= i < patterns.len(),
    ensures
        ({
            let fields = Fields::Only("id"@, Operand::Given)
                .and("aspect_id"@, Operand::Given)
                .and("database_id"@, Operand::Given)
                .and("occurrences"@, Operand::Given)
                .and("relatives"@, Operand::Given)
                .and("status"@, Operand::Word("processed"@))
                .and("created_at"@, Operand::Given);
            let s = processed_steps(patterns, aspect, database)[i].statement;
            &&& s.sql == addition_text("INSERT INTO "@, "patterns"@, fields)
            &&& s.params.len() == 6
            &&& puts(fields, s.params, "id"@, SqlView::Text(uuid_text(patterns[i].id.value)))
            &&& puts(fields, s.params, "aspect_id"@, SqlView::Text(uuid_text(aspect)))
            &&& puts(fields, s.params, "database_id"@, SqlView::Text(uuid_text(database)))
            &&& puts(fields, s.params, "occurrences"@, SqlView::Text(patterns[i].occurrences@))
            &&& puts(fields, s.params, "relatives"@, SqlView::Text(patterns[i].relatives@))
            &&& puts(fields, s.params, "status"@, SqlView::Text("processed"@))
            &&& puts(fields, s.params, "created_at"@, SqlView::Integer(patterns[i].now as int))
        }),
{
    reveal_with_fuel(columns_text, 8);
    reveal_with_fuel(values_text, 8);
    reveal_with_fuel(puts, 8);
    reveal_with_fuel(values_put, 8);
    reveal_strlit(" (");
    reveal_strlit("'");
    reveal_strlit(")");
    reveal_strlit(") VALUES (");
    reveal_strlit(", ");
    reveal_strlit("?");
    reveal_strlit("INSERT INTO ");
    reveal_strlit("INSERT INTO patterns (id, aspect_id, database_id, occurrences, relatives, status, created_at) VALUES (?, ?, ?, ?, ?, 'processed', ?)");
    reveal_strlit("aspect_id");
    reveal_strlit("created_at");
    reveal_strlit("database_id");
    reveal_strlit("id");
    reveal_strlit("occurrences");
    reveal_strlit("patterns");
    reveal_strlit("processed");
    reveal_strlit("relatives");
    reveal_strlit("status");
    let fields = Fields::Only("id"@, Operand::Given)
        .and("aspect_id"@, Operand::Given)
        .and("database_id"@, Operand::Given)
        .and("occurrences"@, Operand::Given)
        .and("relatives"@, Operand::Given)
        .and("status"@, Operand::Word("processed"@))
        .and("created_at"@, Operand::Given);
    let s = processed_steps(patterns, aspect, database)[i].statement;
    assert(s.sql =~= addition_text("INSERT INTO "@, "patterns"@, fields));
}

/// The statement of `get_unprocessed_patterns` reads `id`, `occurrences` and `relatives` of exactly
/// those rows of `patterns` that are asked for, the first by `created_at` first.
pub proof fn law_get_unprocessed_patterns_reads(
    aspect_id: &AspectId,
    database_id: &DatabaseId,
    row: Row,
)
    ensures
        ({
            let met = only("aspect_id"@, Sign::Is)
                .and("database_id"@, Sign::Is)
                .and_word("status"@, "unprocessed"@);
            let columns = Listed::Only("id"@).and("occurrences"@).and("relatives"@);
            let s = spec_get_unprocessed_patterns(aspect_id, database_id);
            &&& s.sql == reading_text(columns, "patterns"@, met) + " ORDER BY created_at"@
            &&& s.params.len() == 2
            &&& is_met(met, s.params, 0, row) <==> {
                &&& row["aspect_id"@] == SqlView::Text(uuid_text(aspect_id.value))
                &&& row["database_id"@] == SqlView::Text(uuid_text(database_id.value))
                &&& row["status"@] == SqlView::Text("unprocessed"@)
            }
        }),
{
    reveal_with_fuel(listed_text, 4);
    reveal_with_fuel(conditions_text, 5);
    reveal_with_fuel(is_met, 5);
    reveal_with_fuel(values_taken, 5);
    reveal_strlit("");
    reveal_strlit(" = ");
    reveal_strlit(" AND ");
    reveal_strlit(" FROM ");
    reveal_strlit(" ORDER BY created_at");
    reveal_strlit(" WHERE ");
    reveal_strlit("'");
    reveal_strlit(", ");
    reveal_strlit("?");
    reveal_strlit("SELECT ");
    reveal_strlit("SELECT id, occurrences, relatives FROM patterns WHERE aspect_id = ? AND database_id = ? AND status = 'unprocessed' ORDER BY created_at");
    reveal_strlit("aspect_id");
    reveal_strlit("database_id");
    reveal_strlit("id");
    reveal_strlit("occurrences");
    reveal_strlit("patterns");
    reveal_strlit("relatives");
    reveal_strlit("status");
    reveal_strlit("unprocessed");
    let met = only("aspect_id"@, Sign::Is)
        .and("database_id"@, Sign::Is)
        .and_word("status"@, "unprocessed"@);
    let columns = Listed::Only("id"@).and("occurrences"@).and("relatives"@);
    let s = spec_get_unprocessed_patterns(aspect_id, database_id);
    assert(s.sql =~= reading_text(columns, "patterns"@, met) + " ORDER BY created_at"@);
}

/// The statement of `get_processed_patterns_queue` reads `id`, `occurrences` and `relatives` of
/// exactly those rows of `patterns` that are asked for, the first by `processed_at` first.
pub proof fn law_get_processed_patterns_queue_reads(
    aspect_id: &AspectId,
    database_id: &DatabaseId,
    row: Row,
)
    ensures
        ({
            let met = only("aspect_id"@, Sign::Is)
                .and("database_id"@, Sign::Is)
                .and_word("status"@, "processed"@);
            let columns = Listed::Only("id"@).and("occurrences"@).and("relatives"@);
            let s = spec_get_processed_patterns_queue(aspect_id, database_id);
            &&& s.sql == reading_text(columns, "patterns"@, met) + " ORDER BY processed_at ASC"@
            &&& s.params.len() == 2
            &&& is_met(met, s.params, 0, row) <==> {
                &&& row["aspect_id"@] == SqlView::Text(uuid_text(aspect_id.value))
                &&& row["database_id"@] == SqlView::Text(uuid_text(database_id.value))
                &&& row["status"@] == SqlView::Text("processed"@)
            }
        }),
{
    reveal_with_fuel(listed_text, 4);
    reveal_with_fuel(conditions_text, 5);
    reveal_with_fuel(is_met, 5);
    reveal_with_fuel(values_taken, 5);
    reveal_strlit("");
    reveal_strlit(" = ");
    reveal_strlit(" AND ");
    reveal_strlit(" FROM ");
    reveal_strlit(" ORDER BY processed_at ASC");
    reveal_strlit(" WHERE ");
    reveal_strlit("'");
    reveal_strlit(", ");
    reveal_strlit("?");
    reveal_strlit("SELECT ");
    reveal_strlit("SELECT id, occurrences, relatives FROM patterns WHERE aspect_id = ? AND database_id = ? AND status = 'processed' ORDER BY processed_at ASC");
    reveal_strlit("aspect_id");
    reveal_strlit("database_id");
    reveal_strlit("id");
    reveal_strlit("occurrences");
    reveal_strlit("patterns");
    reveal_strlit("processed");
    reveal_strlit("relatives");
    reveal_strlit("status");
    let met = only("aspect_id"@, Sign::Is).and("database_id"@, Sign::Is).and_word("status"@, "processed"@);
    let columns = Listed::Only("id"@).and("occurrences"@).and("relatives"@);
    let s = spec_get_processed_patterns_queue(aspect_id, database_id);
    assert(s.sql =~= reading_text(columns, "patterns"@, met) + " ORDER BY processed_at ASC"@);
}

/// The statement of `get_pattern_stats` reads `status` and `COUNT(*) as count` of exactly those
/// rows of `patterns` that are asked for, counted by their `status`.
pub proof fn law_get_pattern_stats_reads(aspect_id: &AspectId, database_id: &DatabaseId, row: Row)
    ensures
        ({
            let met = only("aspect_id"@, Sign::Is).and("database_id"@, Sign::Is);
            let columns = Listed::Only("status"@).and("COUNT(*) as count"@);
            let s = spec_get_pattern_stats(aspect_id, database_id);
            &&& s.sql == reading_text(columns, "patterns"@, met) + " GROUP BY status"@
            &&& s.params.len() == 2
            &&& is_met(met, s.params, 0, row) <==> {
                &&& row["aspect_id"@] == SqlView::Text(uuid_text(aspect_id.value))
                &&& row["database_id"@] == SqlView::Text(uuid_text(database_id.value))
            }
        }),
{
    reveal_with_fuel(listed_text, 3);
    reveal_with_fuel(conditions_text, 4);
    reveal_with_fuel(is_met, 4);
    reveal_with_fuel(values_taken, 4);
    reveal_strlit("");
    reveal_strlit(" = ");
    reveal_strlit(" AND ");
    reveal_strlit(" FROM ");
    reveal_strlit(" GROUP BY status");
    reveal_strlit(" WHERE ");
    reveal_strlit(", ");
    reveal_strlit("?");
    reveal_strlit("COUNT(*) as count");
    reveal_strlit("SELECT ");
    reveal_strlit("SELECT status, COUNT(*) as count FROM patterns WHERE aspect_id = ? AND database_id = ? GROUP BY status");
    reveal_strlit("aspect_id");
    reveal_strlit("database_id");
    reveal_strlit("patterns");
    reveal_strlit("status");
    let met = only("aspect_id"@, Sign::Is).and("database_id"@, Sign::Is);
    let columns = Listed::Only("status"@).and("COUNT(*) as count"@);
    let s = spec_get_pattern_stats(aspect_id, database_id);
    assert(s.sql =~= reading_text(columns, "patterns"@, met) + " GROUP BY status"@);
}

/// The statement of `mark_step` puts what is given into `status` and `processed_at` of exactly
/// those rows of `patterns` that are meant.
pub proof fn law_mark_step_changes(id: u128, now: int, row: Row)
    ensures
        ({
            let fields = Fields::Only("status"@, Operand::Word("processed"@))
                .and("processed_at"@, Operand::Given);
            let met = only("id"@, Sign::Is).and_word("status"@, "unprocessed"@);
            let s = mark_step(id, now).statement;
            &&& s.sql == change_text("patterns"@, fields, met)
            &&& s.params.len() == 2
            &&& puts(fields, s.params, "status"@, SqlView::Text("processed"@))
            &&& puts(fields, s.params, "processed_at"@, SqlView::Integer(now))
            &&& is_met(met, s.params, 1, row) <==> {
                &&& row["id"@] == SqlView::Text(uuid_text(id))
                &&& row["status"@] == SqlView::Text("unprocessed"@)
            }
        }),
{
    reveal_with_fuel(settings_text, 3);
    reveal_with_fuel(puts, 3);
    reveal_with_fuel(values_put, 3);
    reveal_with_fuel(conditions_text, 4);
    reveal_with_fuel(is_met, 4);
    reveal_with_fuel(values_taken, 4);
    reveal_strlit("");
    reveal_strlit(" = ");
    reveal_strlit(" AND ");
    reveal_strlit(" SET ");
    reveal_strlit(" WHERE ");
    reveal_strlit("'");
    reveal_strlit(", ");
    reveal_strlit("?");
    reveal_strlit("UPDATE ");
    reveal_strlit("UPDATE patterns SET status = 'processed', processed_at = ? WHERE id = ? AND status = 'unprocessed'");
    reveal_strlit("id");
    reveal_strlit("patterns");
    reveal_strlit("processed");
    reveal_strlit("processed_at");
    reveal_strlit("status");
    reveal_strlit("unprocessed");
    let fields = Fields::Only("status"@, Operand::Word("processed"@)).and("processed_at"@, Operand::Given);
    let met = only("id"@, Sign::Is).and_word("status"@, "unprocessed"@);
    let s = mark_step(id, now).statement;
    assert(s.sql =~= change_text("patterns"@, fields, met));
}

/// The statement of `cleanup_step` takes exactly those rows of `patterns` away that are meant.
pub proof fn law_cleanup_step_removes(aspect: u128, database: u128, before: int, row: Row)
    ensures
        ({
            let met = only("aspect_id"@, Sign::Is)
                .and("database_id"@, Sign::Is)
                .and_word("status"@, "processed"@)
                .and("processed_at"@, Sign::Below);
            let s = cleanup_step(aspect, database, before).statement;
            &&& s.sql == removal_text("patterns"@, met)
            &&& s.params.len() == 3
            &&& is_met(met, s.params, 0, row) <==> {
                &&& row["aspect_id"@] == SqlView::Text(uuid_text(aspect))
                &&& row["database_id"@] == SqlView::Text(uuid_text(database))
                &&& row["status"@] == SqlView::Text("processed"@)
                &&& row["processed_at"@] is Integer
                &&& row["processed_at"@]->Integer_0 < before
            }
        }),
{
    reveal_with_fuel(conditions_text, 6);
    reveal_with_fuel(is_met, 6);
    reveal_with_fuel(values_taken, 6);
    reveal_strlit("");
    reveal_strlit(" < ");
    reveal_strlit(" = ");
    reveal_strlit(" AND ");
    reveal_strlit(" WHERE ");
    reveal_strlit("'");
    reveal_strlit("?");
    reveal_strlit("DELETE FROM ");
    reveal_strlit("DELETE FROM patterns WHERE aspect_id = ? AND database_id = ? AND status = 'processed' AND processed_at < ?");
    reveal_strlit("aspect_id");
    reveal_strlit("database_id");
    reveal_strlit("patterns");
    reveal_strlit("processed");
    reveal_strlit("processed_at");
    reveal_strlit("status");
    let met = only("aspect_id"@, Sign::Is)
        .and("database_id"@, Sign::Is)
        .and_word("status"@, "processed"@)
        .and("processed_at"@, Sign::Below);
    let s = cleanup_step(aspect, database, before).statement;
    assert(s.sql =~= removal_text("patterns"@, met));
}

/// The statement of `cleanup_all_processed_patterns` takes exactly those rows of `patterns` away
/// that are meant.
pub proof fn law_cleanup_all_processed_patterns_removes(
    aspect_id: &AspectId,
    database_id: &DatabaseId,
    row: Row,
)
    ensures
        ({
            let met = only("aspect_id"@, Sign::Is)
                .and("database_id"@, Sign::Is)
                .and_word("status"@, "processed"@);
            let s = spec_cleanup_all_processed_patterns(aspect_id, database_id).statement;
            &&& s.sql == removal_text("patterns"@, met)
            &&& s.params.len() == 2
            &&& is_met(met, s.params, 0, row) <==> {
                &&& row["aspect_id"@] == SqlView::Text(uuid_text(aspect_id.value))
                &&& row["database_id"@] == SqlView::Text(uuid_text(database_id.value))
                &&& row["status"@] == SqlView::Text("processed"@)
            }
        }),
{
    reveal_with_fuel(conditions_text, 5);
    reveal_with_fuel(is_met, 5);
    reveal_with_fuel(values_taken, 5);
    reveal_strlit("");
    reveal_strlit(" = ");
    reveal_strlit(" AND ");
    reveal_strlit(" WHERE ");
    reveal_strlit("'");
    reveal_strlit("?");
    reveal_strlit("DELETE FROM ");
    reveal_strlit("DELETE FROM patterns WHERE aspect_id = ? AND database_id = ? AND status = 'processed'");
    reveal_strlit("aspect_id");
    reveal_strlit("database_id");
    reveal_strlit("patterns");
    reveal_strlit("processed");
    reveal_strlit("status");
    let met = only("aspect_id"@, Sign::Is).and("database_id"@, Sign::Is).and_word("status"@, "processed"@);
    let s = spec_cleanup_all_processed_patterns(aspect_id, database_id).statement;
    assert(s.sql =~= removal_text("patterns"@, met));
}

/// The statement of `clear_processed_patterns_queue` takes exactly those rows of `patterns` away
/// that are meant.
pub proof fn law_clear_processed_patterns_queue_removes(
    aspect_id: &AspectId,
    database_id: &DatabaseId,
    row: Row,
)
    ensures
        ({
            let met = only("aspect_id"@, Sign::Is)
                .and("database_id"@, Sign::Is)
                .and_word("status"@, "processed"@);
            let s = spec_clear_processed_patterns_queue(aspect_id, database_id).statement;
            &&& s.sql == removal_text("patterns"@, met)
            &&& s.params.len() == 2
            &&& is_met(met, s.params, 0, row) <==> {
                &&& row["aspect_id"@] == SqlView::Text(uuid_text(aspect_id.value))
                &&& row["database_id"@] == SqlView::Text(uuid_text(database_id.value))
                &&& row["status"@] == SqlView::Text("processed"@)
            }
        }),
{
    reveal_with_fuel(conditions_text, 5);
    reveal_with_fuel(is_met, 5);
    reveal_with_fuel(values_taken, 5);
    reveal_strlit("");
    reveal_strlit(" = ");
    reveal_strlit(" AND ");
    reveal_strlit(" WHERE ");
    reveal_strlit("'");
    reveal_strlit("?");
    reveal_strlit("DELETE FROM ");
    reveal_strlit("DELETE FROM patterns WHERE aspect_id = ? AND database_id = ? AND status = 'processed'");
    reveal_strlit("aspect_id");
    reveal_strlit("database_id");
    reveal_strlit("patterns");
    reveal_strlit("processed");
    reveal_strlit("status");
    let met = only("aspect_id"@, Sign::Is).and("database_id"@, Sign::Is).and_word("status"@, "processed"@);
    let s = spec_clear_processed_patterns_queue(aspect_id, database_id).statement;
    assert(s.sql =~= removal_text("patterns"@, met));
}

/// The statement of `dequeue_step` takes exactly those rows of `patterns` away that are meant.
pub proof fn law_dequeue_step_removes(id: u128, row: Row)
    ensures
        ({
            let met = only("id"@, Sign::Is).and_word("status"@, "processed"@);
            let s = dequeue_step(id).statement;
            &&& s.sql == removal_text("patterns"@, met)
            &&& s.params.len() == 1
            &&& is_met(met, s.params, 0, row) <==> {
                &&& row["id"@] == SqlView::Text(uuid_text(id))
                &&& row["status"@] == SqlView::Text("processed"@)
            }
        }),
{
    reveal_with_fuel(conditions_text, 4);
    reveal_with_fuel(is_met, 4);
    reveal_with_fuel(values_taken, 4);
    reveal_strlit("");
    reveal_strlit(" = ");
    reveal_strlit(" AND ");
    reveal_strlit(" WHERE ");
    reveal_strlit("'");
    reveal_strlit("?");
    reveal_strlit("DELETE FROM ");
    reveal_strlit("DELETE FROM patterns WHERE id = ? AND status = 'processed'");
    reveal_strlit("id");
    reveal_strlit("patterns");
    reveal_strlit("processed");
    reveal_strlit("status");
    let met = only("id"@, Sign::Is).and_word("status"@, "processed"@);
    let s = dequeue_step(id).statement;
    assert(s.sql =~= removal_text("patterns"@, met));
}

}
