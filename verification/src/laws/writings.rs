//! What statements write whose text is put together from parts, and what they ask for.
use crate::backup::spec_tables_query;
use crate::decimal::{decimal_text, DecimalView};
use crate::ids::uuid_text;
use crate::laws::statements::{
    addition_text,
    columns_text,
    conditions_text,
    listed_text,
    puts,
    reading_text,
    values_put,
    values_text,
    Conditions,
    Fields,
    Listed,
    Operand,
};
use crate::pattern::OccurrenceView;
use crate::sql::SqlView;
use crate::store::measurements::dirty_count;
use crate::store::metadata::{table_name_of, underscored};
use crate::store::observations::{observation, own_table, own_table_steps};
use crate::store::patterns::stretch_step;
use crate::text::int_text;
use vstd::prelude::*;

verus! {

/// An observation is added to the table of its aspect, with each value in the column that is meant
/// for it.
pub proof fn law_observations_are_added_as_they_are(
    table_name: Seq<char>,
    id: u128,
    millis: int,
    value: DecimalView,
)
    ensures
        ({
            let fields = Fields::Only("id"@, Operand::Given).and("timestamp"@, Operand::Given).and(
                "value"@,
                Operand::Given,
            );
            let s = observation(table_name, id, millis, value);
            &&& s.sql == addition_text("INSERT INTO "@, table_name, fields)
            &&& s.params.len() == 3
            &&& puts(fields, s.params, "id"@, SqlView::Text(uuid_text(id)))
            &&& puts(fields, s.params, "timestamp"@, SqlView::Text(int_text(millis)))
            &&& puts(
                fields,
                s.params,
                "value"@,
                SqlView::Text(decimal_text(value.mantissa, value.scale)),
            )
        }),
{
    reveal_with_fuel(columns_text, 4);
    reveal_with_fuel(values_text, 4);
    reveal_with_fuel(puts, 4);
    reveal_with_fuel(values_put, 4);
    reveal_strlit("INSERT INTO ");
    reveal_strlit(" (id, timestamp, value) VALUES (?, ?, ?)");
    reveal_strlit(" (");
    reveal_strlit(") VALUES (");
    reveal_strlit(")");
    reveal_strlit(", ");
    reveal_strlit("?");
    reveal_strlit("id");
    reveal_strlit("timestamp");
    reveal_strlit("value");
    let fields = Fields::Only("id"@, Operand::Given).and("timestamp"@, Operand::Given).and(
        "value"@,
        Operand::Given,
    );
    let s = observation(table_name, id, millis, value);
    assert(s.sql =~= addition_text("INSERT INTO "@, table_name, fields));
}

/// The table of an aspect that has one of its own has the columns that observations are written to,
/// and an index by their instants.
pub proof fn law_own_tables_hold_observations(table: Seq<char>)
    ensures
        own_table_steps(table).len() == 2,
        own_table_steps(table)[0].statement.sql == "CREATE TABLE IF NOT EXISTS "@ + table + " ("@
            + listed_text(
            Listed::Only("id TEXT PRIMARY KEY"@).and("timestamp TEXT NOT NULL"@).and(
                "value TEXT NOT NULL"@,
            ),
        ) + ")"@,
        own_table_steps(table)[1].statement.sql == "CREATE INDEX IF NOT EXISTS "@ + ("idx_"@ + table
            + "_timestamp"@) + " ON "@ + table + " (timestamp)"@,
{
    reveal_with_fuel(listed_text, 4);
    reveal_strlit(" (id TEXT PRIMARY KEY, timestamp TEXT NOT NULL, value TEXT NOT NULL)");
    reveal_strlit(" (");
    reveal_strlit("id TEXT PRIMARY KEY");
    reveal_strlit("timestamp TEXT NOT NULL");
    reveal_strlit("value TEXT NOT NULL");
    reveal_strlit(", ");
    reveal_strlit(")");
    reveal_strlit("CREATE INDEX IF NOT EXISTS idx_");
    reveal_strlit("CREATE INDEX IF NOT EXISTS ");
    reveal_strlit("idx_");
    reveal_strlit("_timestamp ON ");
    reveal_strlit("_timestamp");
    reveal_strlit(" ON ");
    assert(own_table_steps(table)[0].statement.sql =~= "CREATE TABLE IF NOT EXISTS "@ + table
        + " ("@ + listed_text(
        Listed::Only("id TEXT PRIMARY KEY"@).and("timestamp TEXT NOT NULL"@).and(
            "value TEXT NOT NULL"@,
        ),
    ) + ")"@);
    assert(own_table_steps(table)[1].statement.sql =~= "CREATE INDEX IF NOT EXISTS "@ + ("idx_"@
        + table + "_timestamp"@) + " ON "@ + table + " (timestamp)"@);
}

/// A name keeps its length and every character but those that are replaced, which become
/// underscores; the table of an aspect is named after the subject and the name of the aspect.
pub proof fn law_table_names_are_made_from_names(
    subject: u128,
    name: Seq<char>,
    i: int,
)
    requires
        0 <= i < name.len(),
    ensures
        own_table(name).len() == name.len(),
        own_table(name)[i] == '_' || own_table(name)[i] == name[i],
        table_name_of(subject, name).len() == 8 + uuid_text(subject).len() + name.len(),
        table_name_of(subject, name)[8 + uuid_text(subject).len() + i] == if name[i] == ' '
            || name[i] == '-' {
            '_'
        } else {
            name[i]
        },
{
    reveal_strlit("aspect_");
    reveal_strlit("_");
    let tail = underscored(name, |c: char| c == ' ' || c == '-');
    let middle = underscored(uuid_text(subject), |c: char| c == '-');
    assert(table_name_of(subject, name)[8 + middle.len() + i] == tail[i]);
}

/// A stretch of a pattern is added with each value in the column that is meant for it; in a
/// dictionary its place is written too.
pub proof fn law_stretches_of_patterns_are_added_as_they_are(
    pattern: u128,
    aspect: u128,
    is_placed: bool,
    index: int,
    o: OccurrenceView,
    info: Seq<char>,
) -> (fields: Fields)
    ensures
        ({
            let s = stretch_step(pattern, aspect, is_placed, index, o, info).statement;
            &&& s.sql == addition_text("INSERT INTO "@, "pattern_occurrences"@, fields)
            &&& s.params.len() == values_put(fields)
            &&& puts(fields, s.params, "pattern_id"@, SqlView::Text(uuid_text(pattern)))
            &&& is_placed ==> puts(fields, s.params, "occurrence_index"@, SqlView::Integer(index))
            &&& puts(fields, s.params, "aspect_id"@, SqlView::Text(uuid_text(aspect)))
            &&& puts(fields, s.params, "resolution"@, SqlView::Text(o.resolution.spec_text()))
            &&& puts(fields, s.params, "size"@, SqlView::Integer(o.size as int))
            &&& puts(fields, s.params, "database_info"@, SqlView::Text(info))
            &&& puts(
                fields,
                s.params,
                "beginning_timestamp"@,
                SqlView::Integer(o.beginning.spec_millis()),
            )
            &&& puts(fields, s.params, "end_timestamp"@, SqlView::Integer(o.end.spec_millis()))
        }),
{
    reveal_with_fuel(columns_text, 9);
    reveal_with_fuel(values_text, 9);
    reveal_with_fuel(puts, 9);
    reveal_with_fuel(values_put, 9);
    reveal_strlit("INSERT INTO pattern_occurrences (pattern_id, occurrence_index, aspect_id, resolution, size, database_info, beginning_timestamp, end_timestamp) VALUES (?, ?, ?, ?, ?, ?, ?, ?)");
    reveal_strlit("INSERT INTO pattern_occurrences (pattern_id, aspect_id, resolution, size, database_info, beginning_timestamp, end_timestamp) VALUES (?, ?, ?, ?, ?, ?, ?)");
    reveal_strlit("INSERT INTO ");
    reveal_strlit("pattern_occurrences");
    reveal_strlit(" (");
    reveal_strlit(") VALUES (");
    reveal_strlit(")");
    reveal_strlit(", ");
    reveal_strlit("?");
    reveal_strlit("pattern_id");
    reveal_strlit("occurrence_index");
    reveal_strlit("aspect_id");
    reveal_strlit("resolution");
    reveal_strlit("size");
    reveal_strlit("database_info");
    reveal_strlit("beginning_timestamp");
    reveal_strlit("end_timestamp");
    let s = stretch_step(pattern, aspect, is_placed, index, o, info).statement;
    let first = Fields::Only("pattern_id"@, Operand::Given);
    let start = if is_placed {
        first.and("occurrence_index"@, Operand::Given)
    } else {
        first
    };
    let fields = start.and("aspect_id"@, Operand::Given).and("resolution"@, Operand::Given).and(
        "size"@,
        Operand::Given,
    ).and("database_info"@, Operand::Given).and("beginning_timestamp"@, Operand::Given).and(
        "end_timestamp"@,
        Operand::Given,
    );
    if is_placed {
        assert(s.sql =~= addition_text("INSERT INTO "@, "pattern_occurrences"@, fields));
    } else {
        assert(s.sql =~= addition_text("INSERT INTO "@, "pattern_occurrences"@, fields));
    }
    fields
}

/// The query for the tables of a database asks for the names of what is a table, in their order.
pub proof fn law_tables_are_asked_for_by_name()
    ensures
        spec_tables_query() == reading_text(
            Listed::Only("name"@),
            "sqlite_master"@,
            Conditions::Always.and_word("type"@, "table"@),
        ) + " ORDER BY name"@,
{
    reveal_with_fuel(listed_text, 2);
    reveal_with_fuel(conditions_text, 3);
    reveal_strlit("SELECT name FROM sqlite_master WHERE type = 'table' ORDER BY name");
    reveal_strlit("SELECT ");
    reveal_strlit("name");
    reveal_strlit(" FROM ");
    reveal_strlit("sqlite_master");
    reveal_strlit("");
    reveal_strlit(" WHERE ");
    reveal_strlit("type");
    reveal_strlit(" = ");
    reveal_strlit("'");
    reveal_strlit("table");
    reveal_strlit(" ORDER BY name");
    assert(spec_tables_query() =~= reading_text(
        Listed::Only("name"@),
        "sqlite_master"@,
        Conditions::Always.and_word("type"@, "table"@),
    ) + " ORDER BY name"@);
}

/// The number of regions to be compressed anew is counted from the regions themselves.
pub proof fn law_dirty_regions_are_counted()
    ensures
        dirty_count().sql == "UPDATE "@ + "compression_state"@ + " SET "@ + "dirty_regions_count"@
            + " = ("@ + reading_text(
            Listed::Only("COUNT(*)"@),
            "dirty_regions"@,
            Conditions::Always,
        ) + ")"@ + conditions_text(Conditions::Always.and_one("id"@)),
        dirty_count().params.len() == 0,
{
    reveal_with_fuel(listed_text, 2);
    reveal_with_fuel(conditions_text, 3);
    reveal_strlit("UPDATE compression_state SET dirty_regions_count = (SELECT COUNT(*) FROM dirty_regions) WHERE id = 1");
    reveal_strlit("UPDATE ");
    reveal_strlit("compression_state");
    reveal_strlit(" SET ");
    reveal_strlit("dirty_regions_count");
    reveal_strlit(" = (");
    reveal_strlit("SELECT ");
    reveal_strlit("COUNT(*)");
    reveal_strlit(" FROM ");
    reveal_strlit("dirty_regions");
    reveal_strlit("");
    reveal_strlit(")");
    reveal_strlit(" WHERE ");
    reveal_strlit("id");
    reveal_strlit(" = ");
    reveal_strlit("1");
    assert(dirty_count().sql =~= "UPDATE "@ + "compression_state"@ + " SET "@
        + "dirty_regions_count"@ + " = ("@ + reading_text(
        Listed::Only("COUNT(*)"@),
        "dirty_regions"@,
        Conditions::Always,
    ) + ")"@ + conditions_text(Conditions::Always.and_one("id"@)));
}

}
