//! What the statements on the stored observations read, add, change and take away.
use crate::ids::{uuid_text, AspectId, DatabaseId, SubjectId};
use crate::laws::statements::{
    addition_text,
    change_text,
    columns_text,
    conditions_text,
    is_met,
    listed_text,
    only,
    puts,
    reading_text,
    settings_text,
    values_put,
    values_taken,
    values_text,
    Fields,
    Listed,
    Operand,
    Row,
    Sign,
};
use crate::resolution::Resolution;
use crate::sql::SqlView;
use crate::store::observations::{
    own_table,
    spec_known_range_query,
    spec_track_own_table,
    spec_update_known_range,
};
use crate::text::int_text;
use crate::time::Timestamp;
use vstd::prelude::*;

verus! {

/// The statement of `track_own_table` adds a row to `aspects`, with each value in the column that
/// is meant for it.
pub proof fn law_track_own_table_adds(
    id: &AspectId,
    subject_id: &SubjectId,
    database_id: &DatabaseId,
    name: &str,
    resolution: Resolution,
    created_at: i64,
)
    ensures
        ({
            let fields = Fields::Only("id"@, Operand::Given)
                .and("subject_id"@, Operand::Given)
                .and("database_id"@, Operand::Given)
                .and("name"@, Operand::Given)
                .and("table_name"@, Operand::Given)
                .and("resolution"@, Operand::Given)
                .and("created_at"@, Operand::Given)
                .and("earliest_measurement"@, Operand::Nothing)
                .and("latest_measurement"@, Operand::Nothing);
            let s = spec_track_own_table(id, subject_id, database_id, name, resolution, created_at).statement;
            &&& s.sql == addition_text("INSERT INTO "@, "aspects"@, fields)
            &&& s.params.len() == 7
            &&& puts(fields, s.params, "id"@, SqlView::Text(uuid_text(id.value)))
            &&& puts(fields, s.params, "subject_id"@, SqlView::Text(uuid_text(subject_id.value)))
            &&& puts(fields, s.params, "database_id"@, SqlView::Text(uuid_text(database_id.value)))
            &&& puts(fields, s.params, "name"@, SqlView::Text(name@))
            &&& puts(fields, s.params, "table_name"@, SqlView::Text(own_table(name@)))
            &&& puts(fields, s.params, "resolution"@, SqlView::Text(resolution.spec_name()))
            &&& puts(fields, s.params, "created_at"@, SqlView::Text(int_text(created_at as int)))
            &&& puts(fields, s.params, "earliest_measurement"@, SqlView::Null)
            &&& puts(fields, s.params, "latest_measurement"@, SqlView::Null)
        }),
{
    reveal_with_fuel(columns_text, 10);
    reveal_with_fuel(values_text, 10);
    reveal_with_fuel(puts, 10);
    reveal_with_fuel(values_put, 10);
    reveal_strlit(" (");
    reveal_strlit(")");
    reveal_strlit(") VALUES (");
    reveal_strlit(", ");
    reveal_strlit("?");
    reveal_strlit("INSERT INTO ");
    reveal_strlit("INSERT INTO aspects (id, subject_id, database_id, name, table_name, resolution, created_at, earliest_measurement, latest_measurement) VALUES (?, ?, ?, ?, ?, ?, ?, NULL, NULL)");
    reveal_strlit("NULL");
    reveal_strlit("aspects");
    reveal_strlit("created_at");
    reveal_strlit("database_id");
    reveal_strlit("earliest_measurement");
    reveal_strlit("id");
    reveal_strlit("latest_measurement");
    reveal_strlit("name");
    reveal_strlit("resolution");
    reveal_strlit("subject_id");
    reveal_strlit("table_name");
    let fields = Fields::Only("id"@, Operand::Given)
        .and("subject_id"@, Operand::Given)
        .and("database_id"@, Operand::Given)
        .and("name"@, Operand::Given)
        .and("table_name"@, Operand::Given)
        .and("resolution"@, Operand::Given)
        .and("created_at"@, Operand::Given)
        .and("earliest_measurement"@, Operand::Nothing)
        .and("latest_measurement"@, Operand::Nothing);
    let s = spec_track_own_table(id, subject_id, database_id, name, resolution, created_at).statement;
    assert(s.sql =~= addition_text("INSERT INTO "@, "aspects"@, fields));
}

/// The statement of `known_range_query` reads `earliest_measurement` and `latest_measurement` of
/// exactly those rows of `aspects` that are asked for.
pub proof fn law_known_range_query_reads(aspect_id: &AspectId, row: Row)
    ensures
        ({
            let met = only("id"@, Sign::Is);
            let columns = Listed::Only("earliest_measurement"@).and("latest_measurement"@);
            let s = spec_known_range_query(aspect_id);
            &&& s.sql == reading_text(columns, "aspects"@, met)
            &&& s.params.len() == 1
            &&& is_met(met, s.params, 0, row) <==> row["id"@] == SqlView::Text(uuid_text(aspect_id.value))
        }),
{
    reveal_with_fuel(listed_text, 3);
    reveal_with_fuel(conditions_text, 3);
    reveal_with_fuel(is_met, 3);
    reveal_with_fuel(values_taken, 3);
    reveal_strlit("");
    reveal_strlit(" = ");
    reveal_strlit(" FROM ");
    reveal_strlit(" WHERE ");
    reveal_strlit(", ");
    reveal_strlit("?");
    reveal_strlit("SELECT ");
    reveal_strlit("SELECT earliest_measurement, latest_measurement FROM aspects WHERE id = ?");
    reveal_strlit("aspects");
    reveal_strlit("earliest_measurement");
    reveal_strlit("id");
    reveal_strlit("latest_measurement");
    let met = only("id"@, Sign::Is);
    let columns = Listed::Only("earliest_measurement"@).and("latest_measurement"@);
    let s = spec_known_range_query(aspect_id);
    assert(s.sql =~= reading_text(columns, "aspects"@, met));
}

/// The statement of `update_known_range` puts what is given into `earliest_measurement` and
/// `latest_measurement` of exactly those rows of `aspects` that are meant.
pub proof fn law_update_known_range_changes(
    aspect_id: &AspectId,
    earliest: &Timestamp,
    latest: &Timestamp,
    row: Row,
)
    ensures
        ({
            let fields = Fields::Only("earliest_measurement"@, Operand::Given)
                .and("latest_measurement"@, Operand::Given);
            let met = only("id"@, Sign::Is);
            let s = spec_update_known_range(aspect_id, earliest, latest).statement;
            &&& s.sql == change_text("aspects"@, fields, met)
            &&& s.params.len() == 3
            &&& puts(fields, s.params, "earliest_measurement"@, SqlView::Text(int_text(earliest.spec_millis())))
            &&& puts(fields, s.params, "latest_measurement"@, SqlView::Text(int_text(latest.spec_millis())))
            &&& is_met(met, s.params, 2, row) <==> row["id"@] == SqlView::Text(uuid_text(aspect_id.value))
        }),
{
    reveal_with_fuel(settings_text, 3);
    reveal_with_fuel(puts, 3);
    reveal_with_fuel(values_put, 3);
    reveal_with_fuel(conditions_text, 3);
    reveal_with_fuel(is_met, 3);
    reveal_with_fuel(values_taken, 3);
    reveal_strlit("");
    reveal_strlit(" = ");
    reveal_strlit(" SET ");
    reveal_strlit(" WHERE ");
    reveal_strlit(", ");
    reveal_strlit("?");
    reveal_strlit("UPDATE ");
    reveal_strlit("UPDATE aspects SET earliest_measurement = ?, latest_measurement = ? WHERE id = ?");
    reveal_strlit("aspects");
    reveal_strlit("earliest_measurement");
    reveal_strlit("id");
    reveal_strlit("latest_measurement");
    let fields = Fields::Only("earliest_measurement"@, Operand::Given)
        .and("latest_measurement"@, Operand::Given);
    let met = only("id"@, Sign::Is);
    let s = spec_update_known_range(aspect_id, earliest, latest).statement;
    assert(s.sql =~= change_text("aspects"@, fields, met));
}

}
