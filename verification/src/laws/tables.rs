//! Which columns the tables of an aspect have.
use crate::aspect::{AspectInfo, Schema};
use crate::store::tables::{
    needed,
    tried,
    BATCHES,
    CORRELATIONS,
    CORRELATION_ASPECT,
    CORRELATION_DISTANCE,
    CORRELATION_OCCURRENCES,
    CORRELATION_RATES,
    CORRELATION_STRETCHES,
    CORRELATION_SUBJECT,
    CORRELATION_UNITS,
    DICTIONARY_CONSTRAINTS,
    DICTIONARY_METADATA,
    DICTIONARY_PATTERNS,
    DICTIONARY_VARIABILITIES,
    ERROR_RATES,
    EVENTS,
    MANIFESTATIONS,
    MEASUREMENTS,
    MEASUREMENTS_INDEX,
    PATTERNS,
    PATTERN_OCCURRENCES,
    PATTERN_RELATIVES,
    SPLIT_RELATIVES,
    UNNUMBERED_OCCURRENCES,
};
use vstd::prelude::*;

verus! {

/// The columns of a table, each with its kind.
pub enum Columns {
    Only(Seq<char>, Seq<char>),
    And(Box<Columns>, Seq<char>, Seq<char>),
}

impl Columns {
    pub open spec fn and(self, column: Seq<char>, kind: Seq<char>) -> Columns {
        Columns::And(Box::new(self), column, kind)
    }
}

/// The columns with their kinds, with commas between them.
pub open spec fn definitions_text(columns: Columns) -> Seq<char>
    decreases columns,
{
    match columns {
        Columns::Only(column, kind) => column + " "@ + kind,
        Columns::And(rest, column, kind) => definitions_text(*rest) + ", "@ + column + " "@ + kind,
    }
}

/// The text that makes a table where there is none.
pub open spec fn creation_text(table: Seq<char>, columns: Columns) -> Seq<char> {
    "CREATE TABLE IF NOT EXISTS "@ + table + " ("@ + definitions_text(columns) + ")"@
}

/// Whether a table has a column of a kind.
pub open spec fn has_column(columns: Columns, column: Seq<char>, kind: Seq<char>) -> bool
    decreases columns,
{
    match columns {
        Columns::Only(c, k) => c == column && k == kind,
        Columns::And(rest, c, k) => c == column && k == kind || has_column(*rest, column, kind),
    }
}

/// The table of measurements has a column for each part of a row, of the kind that is written there.
pub proof fn law_measurements_have_their_columns() -> (columns: Columns)
    ensures
        MEASUREMENTS@ == creation_text("measurements"@, columns),
        has_column(columns, "id"@, "TEXT NOT NULL"@),
        has_column(columns, "dataset_id"@, "TEXT NOT NULL"@),
        has_column(columns, "timestamp"@, "INTEGER NOT NULL"@),
        has_column(columns, "value"@, "TEXT NOT NULL"@),
{
    reveal_with_fuel(definitions_text, 5);
    reveal_with_fuel(has_column, 5);
    reveal_strlit(" ");
    reveal_strlit(" (");
    reveal_strlit(")");
    reveal_strlit(", ");
    reveal_strlit("CREATE TABLE IF NOT EXISTS ");
    reveal_strlit("CREATE TABLE IF NOT EXISTS measurements (id TEXT NOT NULL, dataset_id TEXT NOT NULL, timestamp INTEGER NOT NULL, value TEXT NOT NULL)");
    reveal_strlit("INTEGER NOT NULL");
    reveal_strlit("TEXT NOT NULL");
    reveal_strlit("dataset_id");
    reveal_strlit("id");
    reveal_strlit("measurements");
    reveal_strlit("timestamp");
    reveal_strlit("value");
    let columns = Columns::Only("id"@, "TEXT NOT NULL"@)
        .and("dataset_id"@, "TEXT NOT NULL"@)
        .and("timestamp"@, "INTEGER NOT NULL"@)
        .and("value"@, "TEXT NOT NULL"@);
    assert(MEASUREMENTS@ =~= creation_text("measurements"@, columns));
    columns
}

/// The table of batches has a column for each part of a row, of the kind that is written there.
pub proof fn law_batches_have_their_columns() -> (columns: Columns)
    ensures
        BATCHES@ == creation_text("batches"@, columns),
        has_column(columns, "id"@, "TEXT NOT NULL"@),
        has_column(columns, "aspect_id"@, "TEXT NOT NULL"@),
        has_column(columns, "database_id"@, "TEXT NOT NULL"@),
        has_column(columns, "size"@, "INTEGER NOT NULL"@),
        has_column(columns, "resolution"@, "TEXT NOT NULL"@),
        has_column(columns, "measurements"@, "TEXT NOT NULL"@),
        has_column(columns, "batch_hash"@, "TEXT"@),
        has_column(columns, "status"@, "TEXT NOT NULL DEFAULT 'pending'"@),
        has_column(columns, "created_at"@, "INTEGER NOT NULL"@),
        has_column(columns, "updated_at"@, "INTEGER NOT NULL DEFAULT (strftime('%s', 'now') * 1000)"@),
{
    reveal_with_fuel(definitions_text, 11);
    reveal_with_fuel(has_column, 11);
    reveal_strlit(" ");
    reveal_strlit(" (");
    reveal_strlit(")");
    reveal_strlit(", ");
    reveal_strlit("CREATE TABLE IF NOT EXISTS ");
    reveal_strlit("CREATE TABLE IF NOT EXISTS batches (id TEXT NOT NULL, aspect_id TEXT NOT NULL, database_id TEXT NOT NULL, size INTEGER NOT NULL, resolution TEXT NOT NULL, measurements TEXT NOT NULL, batch_hash TEXT, status TEXT NOT NULL DEFAULT 'pending', created_at INTEGER NOT NULL, updated_at INTEGER NOT NULL DEFAULT (strftime('%s', 'now') * 1000))");
    reveal_strlit("INTEGER NOT NULL");
    reveal_strlit("INTEGER NOT NULL DEFAULT (strftime('%s', 'now') * 1000)");
    reveal_strlit("TEXT");
    reveal_strlit("TEXT NOT NULL");
    reveal_strlit("TEXT NOT NULL DEFAULT 'pending'");
    reveal_strlit("aspect_id");
    reveal_strlit("batch_hash");
    reveal_strlit("batches");
    reveal_strlit("created_at");
    reveal_strlit("database_id");
    reveal_strlit("id");
    reveal_strlit("measurements");
    reveal_strlit("resolution");
    reveal_strlit("size");
    reveal_strlit("status");
    reveal_strlit("updated_at");
    let columns = Columns::Only("id"@, "TEXT NOT NULL"@)
        .and("aspect_id"@, "TEXT NOT NULL"@)
        .and("database_id"@, "TEXT NOT NULL"@)
        .and("size"@, "INTEGER NOT NULL"@)
        .and("resolution"@, "TEXT NOT NULL"@)
        .and("measurements"@, "TEXT NOT NULL"@)
        .and("batch_hash"@, "TEXT"@)
        .and("status"@, "TEXT NOT NULL DEFAULT 'pending'"@)
        .and("created_at"@, "INTEGER NOT NULL"@)
        .and("updated_at"@, "INTEGER NOT NULL DEFAULT (strftime('%s', 'now') * 1000)"@);
    assert(BATCHES@ =~= creation_text("batches"@, columns));
    columns
}

/// The table of patterns has a column for each part of a row, of the kind that is written there.
pub proof fn law_patterns_have_their_columns() -> (columns: Columns)
    ensures
        PATTERNS@ == creation_text("patterns"@, columns),
        has_column(columns, "id"@, "TEXT NOT NULL"@),
        has_column(columns, "sum_value"@, "TEXT NOT NULL"@),
        has_column(columns, "abs_sum_value"@, "TEXT NOT NULL"@),
        has_column(columns, "max_value"@, "TEXT NOT NULL"@),
        has_column(columns, "min_value"@, "TEXT NOT NULL"@),
        has_column(columns, "abs_max_value"@, "TEXT NOT NULL"@),
        has_column(columns, "avg_value"@, "TEXT NOT NULL"@),
        has_column(columns, "abs_avg_value"@, "TEXT NOT NULL"@),
{
    reveal_with_fuel(definitions_text, 9);
    reveal_with_fuel(has_column, 9);
    reveal_strlit(" ");
    reveal_strlit(" (");
    reveal_strlit(")");
    reveal_strlit(", ");
    reveal_strlit("CREATE TABLE IF NOT EXISTS ");
    reveal_strlit("CREATE TABLE IF NOT EXISTS patterns (id TEXT NOT NULL, sum_value TEXT NOT NULL, abs_sum_value TEXT NOT NULL, max_value TEXT NOT NULL, min_value TEXT NOT NULL, abs_max_value TEXT NOT NULL, avg_value TEXT NOT NULL, abs_avg_value TEXT NOT NULL)");
    reveal_strlit("TEXT NOT NULL");
    reveal_strlit("abs_avg_value");
    reveal_strlit("abs_max_value");
    reveal_strlit("abs_sum_value");
    reveal_strlit("avg_value");
    reveal_strlit("id");
    reveal_strlit("max_value");
    reveal_strlit("min_value");
    reveal_strlit("patterns");
    reveal_strlit("sum_value");
    let columns = Columns::Only("id"@, "TEXT NOT NULL"@)
        .and("sum_value"@, "TEXT NOT NULL"@)
        .and("abs_sum_value"@, "TEXT NOT NULL"@)
        .and("max_value"@, "TEXT NOT NULL"@)
        .and("min_value"@, "TEXT NOT NULL"@)
        .and("abs_max_value"@, "TEXT NOT NULL"@)
        .and("avg_value"@, "TEXT NOT NULL"@)
        .and("abs_avg_value"@, "TEXT NOT NULL"@);
    assert(PATTERNS@ =~= creation_text("patterns"@, columns));
    columns
}

/// The table of the stretches of patterns has a column for each part of a row, of the kind that is written there.
pub proof fn law_pattern_occurrences_have_their_columns() -> (columns: Columns)
    ensures
        PATTERN_OCCURRENCES@ == creation_text("pattern_occurrences"@, columns),
        has_column(columns, "id"@, "INTEGER PRIMARY KEY AUTOINCREMENT"@),
        has_column(columns, "pattern_id"@, "TEXT NOT NULL"@),
        has_column(columns, "occurrence_index"@, "INTEGER NOT NULL"@),
        has_column(columns, "aspect_id"@, "TEXT NOT NULL"@),
        has_column(columns, "resolution"@, "TEXT NOT NULL"@),
        has_column(columns, "size"@, "INTEGER NOT NULL"@),
        has_column(columns, "database_info"@, "TEXT NOT NULL"@),
        has_column(columns, "beginning_timestamp"@, "INTEGER NOT NULL"@),
        has_column(columns, "end_timestamp"@, "INTEGER NOT NULL"@),
{
    reveal_with_fuel(definitions_text, 10);
    reveal_with_fuel(has_column, 10);
    reveal_strlit(" ");
    reveal_strlit(" (");
    reveal_strlit(")");
    reveal_strlit(", ");
    reveal_strlit("CREATE TABLE IF NOT EXISTS ");
    reveal_strlit("CREATE TABLE IF NOT EXISTS pattern_occurrences (id INTEGER PRIMARY KEY AUTOINCREMENT, pattern_id TEXT NOT NULL, occurrence_index INTEGER NOT NULL, aspect_id TEXT NOT NULL, resolution TEXT NOT NULL, size INTEGER NOT NULL, database_info TEXT NOT NULL, beginning_timestamp INTEGER NOT NULL, end_timestamp INTEGER NOT NULL)");
    reveal_strlit("INTEGER NOT NULL");
    reveal_strlit("INTEGER PRIMARY KEY AUTOINCREMENT");
    reveal_strlit("TEXT NOT NULL");
    reveal_strlit("aspect_id");
    reveal_strlit("beginning_timestamp");
    reveal_strlit("database_info");
    reveal_strlit("end_timestamp");
    reveal_strlit("id");
    reveal_strlit("occurrence_index");
    reveal_strlit("pattern_id");
    reveal_strlit("pattern_occurrences");
    reveal_strlit("resolution");
    reveal_strlit("size");
    let columns = Columns::Only("id"@, "INTEGER PRIMARY KEY AUTOINCREMENT"@)
        .and("pattern_id"@, "TEXT NOT NULL"@)
        .and("occurrence_index"@, "INTEGER NOT NULL"@)
        .and("aspect_id"@, "TEXT NOT NULL"@)
        .and("resolution"@, "TEXT NOT NULL"@)
        .and("size"@, "INTEGER NOT NULL"@)
        .and("database_info"@, "TEXT NOT NULL"@)
        .and("beginning_timestamp"@, "INTEGER NOT NULL"@)
        .and("end_timestamp"@, "INTEGER NOT NULL"@);
    assert(PATTERN_OCCURRENCES@ =~= creation_text("pattern_occurrences"@, columns));
    columns
}

/// The table of the relatives of patterns has a column for each part of a row, of the kind that is written there.
pub proof fn law_pattern_relatives_have_their_columns() -> (columns: Columns)
    ensures
        PATTERN_RELATIVES@ == creation_text("pattern_relatives"@, columns),
        has_column(columns, "id"@, "INTEGER PRIMARY KEY AUTOINCREMENT"@),
        has_column(columns, "pattern_id"@, "TEXT NOT NULL"@),
        has_column(columns, "relative_index"@, "INTEGER NOT NULL"@),
        has_column(columns, "relative_value"@, "TEXT NOT NULL"@),
{
    reveal_with_fuel(definitions_text, 5);
    reveal_with_fuel(has_column, 5);
    reveal_strlit(" ");
    reveal_strlit(" (");
    reveal_strlit(")");
    reveal_strlit(", ");
    reveal_strlit("CREATE TABLE IF NOT EXISTS ");
    reveal_strlit("CREATE TABLE IF NOT EXISTS pattern_relatives (id INTEGER PRIMARY KEY AUTOINCREMENT, pattern_id TEXT NOT NULL, relative_index INTEGER NOT NULL, relative_value TEXT NOT NULL)");
    reveal_strlit("INTEGER NOT NULL");
    reveal_strlit("INTEGER PRIMARY KEY AUTOINCREMENT");
    reveal_strlit("TEXT NOT NULL");
    reveal_strlit("id");
    reveal_strlit("pattern_id");
    reveal_strlit("pattern_relatives");
    reveal_strlit("relative_index");
    reveal_strlit("relative_value");
    let columns = Columns::Only("id"@, "INTEGER PRIMARY KEY AUTOINCREMENT"@)
        .and("pattern_id"@, "TEXT NOT NULL"@)
        .and("relative_index"@, "INTEGER NOT NULL"@)
        .and("relative_value"@, "TEXT NOT NULL"@);
    assert(PATTERN_RELATIVES@ =~= creation_text("pattern_relatives"@, columns));
    columns
}

/// The table of stretches of patterns without their places has a column for each part of a row, of the kind that is written there.
pub proof fn law_unnumbered_occurrences_have_their_columns() -> (columns: Columns)
    ensures
        UNNUMBERED_OCCURRENCES@ == creation_text("pattern_occurrences"@, columns),
        has_column(columns, "id"@, "INTEGER PRIMARY KEY AUTOINCREMENT"@),
        has_column(columns, "pattern_id"@, "TEXT NOT NULL"@),
        has_column(columns, "aspect_id"@, "TEXT NOT NULL"@),
        has_column(columns, "resolution"@, "TEXT NOT NULL"@),
        has_column(columns, "size"@, "INTEGER NOT NULL"@),
        has_column(columns, "database_info"@, "TEXT NOT NULL"@),
        has_column(columns, "beginning_timestamp"@, "INTEGER NOT NULL"@),
        has_column(columns, "end_timestamp"@, "INTEGER NOT NULL"@),
{
    reveal_with_fuel(definitions_text, 9);
    reveal_with_fuel(has_column, 9);
    reveal_strlit(" ");
    reveal_strlit(" (");
    reveal_strlit(")");
    reveal_strlit(", ");
    reveal_strlit("CREATE TABLE IF NOT EXISTS ");
    reveal_strlit("CREATE TABLE IF NOT EXISTS pattern_occurrences (id INTEGER PRIMARY KEY AUTOINCREMENT, pattern_id TEXT NOT NULL, aspect_id TEXT NOT NULL, resolution TEXT NOT NULL, size INTEGER NOT NULL, database_info TEXT NOT NULL, beginning_timestamp INTEGER NOT NULL, end_timestamp INTEGER NOT NULL)");
    reveal_strlit("INTEGER NOT NULL");
    reveal_strlit("INTEGER PRIMARY KEY AUTOINCREMENT");
    reveal_strlit("TEXT NOT NULL");
    reveal_strlit("aspect_id");
    reveal_strlit("beginning_timestamp");
    reveal_strlit("database_info");
    reveal_strlit("end_timestamp");
    reveal_strlit("id");
    reveal_strlit("pattern_id");
    reveal_strlit("pattern_occurrences");
    reveal_strlit("resolution");
    reveal_strlit("size");
    let columns = Columns::Only("id"@, "INTEGER PRIMARY KEY AUTOINCREMENT"@)
        .and("pattern_id"@, "TEXT NOT NULL"@)
        .and("aspect_id"@, "TEXT NOT NULL"@)
        .and("resolution"@, "TEXT NOT NULL"@)
        .and("size"@, "INTEGER NOT NULL"@)
        .and("database_info"@, "TEXT NOT NULL"@)
        .and("beginning_timestamp"@, "INTEGER NOT NULL"@)
        .and("end_timestamp"@, "INTEGER NOT NULL"@);
    assert(UNNUMBERED_OCCURRENCES@ =~= creation_text("pattern_occurrences"@, columns));
    columns
}

/// The table of the relatives of patterns, number by number has a column for each part of a row, of the kind that is written there.
pub proof fn law_split_relatives_have_their_columns() -> (columns: Columns)
    ensures
        SPLIT_RELATIVES@ == creation_text("pattern_relatives"@, columns),
        has_column(columns, "id"@, "INTEGER PRIMARY KEY AUTOINCREMENT"@),
        has_column(columns, "pattern_id"@, "TEXT NOT NULL"@),
        has_column(columns, "relative_index"@, "INTEGER NOT NULL"@),
        has_column(columns, "vector_location"@, "TEXT NOT NULL"@),
        has_column(columns, "vector_amplitude"@, "TEXT NOT NULL"@),
        has_column(columns, "max_x"@, "TEXT NOT NULL"@),
        has_column(columns, "max_y"@, "TEXT NOT NULL"@),
{
    reveal_with_fuel(definitions_text, 8);
    reveal_with_fuel(has_column, 8);
    reveal_strlit(" ");
    reveal_strlit(" (");
    reveal_strlit(")");
    reveal_strlit(", ");
    reveal_strlit("CREATE TABLE IF NOT EXISTS ");
    reveal_strlit("CREATE TABLE IF NOT EXISTS pattern_relatives (id INTEGER PRIMARY KEY AUTOINCREMENT, pattern_id TEXT NOT NULL, relative_index INTEGER NOT NULL, vector_location TEXT NOT NULL, vector_amplitude TEXT NOT NULL, max_x TEXT NOT NULL, max_y TEXT NOT NULL)");
    reveal_strlit("INTEGER NOT NULL");
    reveal_strlit("INTEGER PRIMARY KEY AUTOINCREMENT");
    reveal_strlit("TEXT NOT NULL");
    reveal_strlit("id");
    reveal_strlit("max_x");
    reveal_strlit("max_y");
    reveal_strlit("pattern_id");
    reveal_strlit("pattern_relatives");
    reveal_strlit("relative_index");
    reveal_strlit("vector_amplitude");
    reveal_strlit("vector_location");
    let columns = Columns::Only("id"@, "INTEGER PRIMARY KEY AUTOINCREMENT"@)
        .and("pattern_id"@, "TEXT NOT NULL"@)
        .and("relative_index"@, "INTEGER NOT NULL"@)
        .and("vector_location"@, "TEXT NOT NULL"@)
        .and("vector_amplitude"@, "TEXT NOT NULL"@)
        .and("max_x"@, "TEXT NOT NULL"@)
        .and("max_y"@, "TEXT NOT NULL"@);
    assert(SPLIT_RELATIVES@ =~= creation_text("pattern_relatives"@, columns));
    columns
}

/// The table of events has a column for each part of a row, of the kind that is written there.
pub proof fn law_events_have_their_columns() -> (columns: Columns)
    ensures
        EVENTS@ == creation_text("events"@, columns),
        has_column(columns, "id"@, "TEXT NOT NULL"@),
        has_column(columns, "name"@, "TEXT NOT NULL"@),
        has_column(columns, "description"@, "TEXT"@),
        has_column(columns, "created_at"@, "INTEGER NOT NULL"@),
{
    reveal_with_fuel(definitions_text, 5);
    reveal_with_fuel(has_column, 5);
    reveal_strlit(" ");
    reveal_strlit(" (");
    reveal_strlit(")");
    reveal_strlit(", ");
    reveal_strlit("CREATE TABLE IF NOT EXISTS ");
    reveal_strlit("CREATE TABLE IF NOT EXISTS events (id TEXT NOT NULL, name TEXT NOT NULL, description TEXT, created_at INTEGER NOT NULL)");
    reveal_strlit("INTEGER NOT NULL");
    reveal_strlit("TEXT");
    reveal_strlit("TEXT NOT NULL");
    reveal_strlit("created_at");
    reveal_strlit("description");
    reveal_strlit("events");
    reveal_strlit("id");
    reveal_strlit("name");
    let columns = Columns::Only("id"@, "TEXT NOT NULL"@)
        .and("name"@, "TEXT NOT NULL"@)
        .and("description"@, "TEXT"@)
        .and("created_at"@, "INTEGER NOT NULL"@);
    assert(EVENTS@ =~= creation_text("events"@, columns));
    columns
}

/// The table of manifestations has a column for each part of a row, of the kind that is written there.
pub proof fn law_manifestations_have_their_columns() -> (columns: Columns)
    ensures
        MANIFESTATIONS@ == creation_text("event_manifestations"@, columns),
        has_column(columns, "id"@, "TEXT NOT NULL"@),
        has_column(columns, "event_id"@, "TEXT NOT NULL"@),
        has_column(columns, "dataset_id"@, "TEXT NOT NULL"@),
        has_column(columns, "start_timestamp"@, "INTEGER NOT NULL"@),
        has_column(columns, "end_timestamp"@, "INTEGER NOT NULL"@),
{
    reveal_with_fuel(definitions_text, 6);
    reveal_with_fuel(has_column, 6);
    reveal_strlit(" ");
    reveal_strlit(" (");
    reveal_strlit(")");
    reveal_strlit(", ");
    reveal_strlit("CREATE TABLE IF NOT EXISTS ");
    reveal_strlit("CREATE TABLE IF NOT EXISTS event_manifestations (id TEXT NOT NULL, event_id TEXT NOT NULL, dataset_id TEXT NOT NULL, start_timestamp INTEGER NOT NULL, end_timestamp INTEGER NOT NULL)");
    reveal_strlit("INTEGER NOT NULL");
    reveal_strlit("TEXT NOT NULL");
    reveal_strlit("dataset_id");
    reveal_strlit("end_timestamp");
    reveal_strlit("event_id");
    reveal_strlit("event_manifestations");
    reveal_strlit("id");
    reveal_strlit("start_timestamp");
    let columns = Columns::Only("id"@, "TEXT NOT NULL"@)
        .and("event_id"@, "TEXT NOT NULL"@)
        .and("dataset_id"@, "TEXT NOT NULL"@)
        .and("start_timestamp"@, "INTEGER NOT NULL"@)
        .and("end_timestamp"@, "INTEGER NOT NULL"@);
    assert(MANIFESTATIONS@ =~= creation_text("event_manifestations"@, columns));
    columns
}

/// The table of correlations has a column for each part of a row, of the kind that is written there.
pub proof fn law_correlations_have_their_columns() -> (columns: Columns)
    ensures
        CORRELATIONS@ == creation_text("correlations"@, columns),
        has_column(columns, "id"@, "TEXT NOT NULL"@),
        has_column(columns, "dictionary_id"@, "TEXT NOT NULL"@),
        has_column(columns, "subject_id"@, "TEXT NOT NULL"@),
        has_column(columns, "aspect_id"@, "TEXT NOT NULL"@),
        has_column(columns, "pattern_id"@, "TEXT NOT NULL"@),
        has_column(columns, "event_id"@, "TEXT NOT NULL"@),
        has_column(columns, "created_at"@, "INTEGER NOT NULL"@),
        has_column(columns, "updated_at"@, "INTEGER NOT NULL"@),
{
    reveal_with_fuel(definitions_text, 9);
    reveal_with_fuel(has_column, 9);
    reveal_strlit(" ");
    reveal_strlit(" (");
    reveal_strlit(")");
    reveal_strlit(", ");
    reveal_strlit("CREATE TABLE IF NOT EXISTS ");
    reveal_strlit("CREATE TABLE IF NOT EXISTS correlations (id TEXT NOT NULL, dictionary_id TEXT NOT NULL, subject_id TEXT NOT NULL, aspect_id TEXT NOT NULL, pattern_id TEXT NOT NULL, event_id TEXT NOT NULL, created_at INTEGER NOT NULL, updated_at INTEGER NOT NULL)");
    reveal_strlit("INTEGER NOT NULL");
    reveal_strlit("TEXT NOT NULL");
    reveal_strlit("aspect_id");
    reveal_strlit("correlations");
    reveal_strlit("created_at");
    reveal_strlit("dictionary_id");
    reveal_strlit("event_id");
    reveal_strlit("id");
    reveal_strlit("pattern_id");
    reveal_strlit("subject_id");
    reveal_strlit("updated_at");
    let columns = Columns::Only("id"@, "TEXT NOT NULL"@)
        .and("dictionary_id"@, "TEXT NOT NULL"@)
        .and("subject_id"@, "TEXT NOT NULL"@)
        .and("aspect_id"@, "TEXT NOT NULL"@)
        .and("pattern_id"@, "TEXT NOT NULL"@)
        .and("event_id"@, "TEXT NOT NULL"@)
        .and("created_at"@, "INTEGER NOT NULL"@)
        .and("updated_at"@, "INTEGER NOT NULL"@);
    assert(CORRELATIONS@ =~= creation_text("correlations"@, columns));
    columns
}

/// The table of the rates of correlations has a column for each part of a row, of the kind that is written there.
pub proof fn law_error_rates_have_their_columns() -> (columns: Columns)
    ensures
        ERROR_RATES@ == creation_text("correlation_error_rates"@, columns),
        has_column(columns, "id"@, "INTEGER PRIMARY KEY AUTOINCREMENT"@),
        has_column(columns, "correlation_id"@, "TEXT NOT NULL"@),
        has_column(columns, "signal_type"@, "TEXT NOT NULL"@),
        has_column(columns, "error_rate_value"@, "TEXT NOT NULL"@),
        has_column(columns, "error_rate_units"@, "TEXT NOT NULL"@),
{
    reveal_with_fuel(definitions_text, 6);
    reveal_with_fuel(has_column, 6);
    reveal_strlit(" ");
    reveal_strlit(" (");
    reveal_strlit(")");
    reveal_strlit(", ");
    reveal_strlit("CREATE TABLE IF NOT EXISTS ");
    reveal_strlit("CREATE TABLE IF NOT EXISTS correlation_error_rates (id INTEGER PRIMARY KEY AUTOINCREMENT, correlation_id TEXT NOT NULL, signal_type TEXT NOT NULL, error_rate_value TEXT NOT NULL, error_rate_units TEXT NOT NULL)");
    reveal_strlit("INTEGER PRIMARY KEY AUTOINCREMENT");
    reveal_strlit("TEXT NOT NULL");
    reveal_strlit("correlation_error_rates");
    reveal_strlit("correlation_id");
    reveal_strlit("error_rate_units");
    reveal_strlit("error_rate_value");
    reveal_strlit("id");
    reveal_strlit("signal_type");
    let columns = Columns::Only("id"@, "INTEGER PRIMARY KEY AUTOINCREMENT"@)
        .and("correlation_id"@, "TEXT NOT NULL"@)
        .and("signal_type"@, "TEXT NOT NULL"@)
        .and("error_rate_value"@, "TEXT NOT NULL"@)
        .and("error_rate_units"@, "TEXT NOT NULL"@);
    assert(ERROR_RATES@ =~= creation_text("correlation_error_rates"@, columns));
    columns
}

/// The table of the stretches of correlations has a column for each part of a row, of the kind that is written there.
pub proof fn law_correlation_occurrences_have_their_columns() -> (columns: Columns)
    ensures
        CORRELATION_OCCURRENCES@ == creation_text("correlation_occurrences"@, columns),
        has_column(columns, "id"@, "INTEGER PRIMARY KEY AUTOINCREMENT"@),
        has_column(columns, "correlation_id"@, "TEXT NOT NULL"@),
        has_column(columns, "occurrence_index"@, "INTEGER NOT NULL"@),
        has_column(columns, "aspect_id"@, "TEXT NOT NULL"@),
        has_column(columns, "resolution"@, "TEXT NOT NULL"@),
        has_column(columns, "size"@, "INTEGER NOT NULL"@),
        has_column(columns, "database_info"@, "TEXT NOT NULL"@),
        has_column(columns, "pattern_id"@, "TEXT NOT NULL"@),
        has_column(columns, "beginning_timestamp"@, "INTEGER NOT NULL"@),
        has_column(columns, "end_timestamp"@, "INTEGER NOT NULL"@),
{
    reveal_with_fuel(definitions_text, 11);
    reveal_with_fuel(has_column, 11);
    reveal_strlit(" ");
    reveal_strlit(" (");
    reveal_strlit(")");
    reveal_strlit(", ");
    reveal_strlit("CREATE TABLE IF NOT EXISTS ");
    reveal_strlit("CREATE TABLE IF NOT EXISTS correlation_occurrences (id INTEGER PRIMARY KEY AUTOINCREMENT, correlation_id TEXT NOT NULL, occurrence_index INTEGER NOT NULL, aspect_id TEXT NOT NULL, resolution TEXT NOT NULL, size INTEGER NOT NULL, database_info TEXT NOT NULL, pattern_id TEXT NOT NULL, beginning_timestamp INTEGER NOT NULL, end_timestamp INTEGER NOT NULL)");
    reveal_strlit("INTEGER NOT NULL");
    reveal_strlit("INTEGER PRIMARY KEY AUTOINCREMENT");
    reveal_strlit("TEXT NOT NULL");
    reveal_strlit("aspect_id");
    reveal_strlit("beginning_timestamp");
    reveal_strlit("correlation_id");
    reveal_strlit("correlation_occurrences");
    reveal_strlit("database_info");
    reveal_strlit("end_timestamp");
    reveal_strlit("id");
    reveal_strlit("occurrence_index");
    reveal_strlit("pattern_id");
    reveal_strlit("resolution");
    reveal_strlit("size");
    let columns = Columns::Only("id"@, "INTEGER PRIMARY KEY AUTOINCREMENT"@)
        .and("correlation_id"@, "TEXT NOT NULL"@)
        .and("occurrence_index"@, "INTEGER NOT NULL"@)
        .and("aspect_id"@, "TEXT NOT NULL"@)
        .and("resolution"@, "TEXT NOT NULL"@)
        .and("size"@, "INTEGER NOT NULL"@)
        .and("database_info"@, "TEXT NOT NULL"@)
        .and("pattern_id"@, "TEXT NOT NULL"@)
        .and("beginning_timestamp"@, "INTEGER NOT NULL"@)
        .and("end_timestamp"@, "INTEGER NOT NULL"@);
    assert(CORRELATION_OCCURRENCES@ =~= creation_text("correlation_occurrences"@, columns));
    columns
}

/// The table of what is known of dictionaries has a column for each part of a row, of the kind that is written there.
pub proof fn law_dictionary_metadata_have_their_columns() -> (columns: Columns)
    ensures
        DICTIONARY_METADATA@ == creation_text("dictionary_metadata"@, columns),
        has_column(columns, "id"@, "TEXT NOT NULL"@),
        has_column(columns, "name"@, "TEXT NOT NULL"@),
        has_column(columns, "description"@, "TEXT"@),
        has_column(columns, "created_at"@, "INTEGER NOT NULL"@),
{
    reveal_with_fuel(definitions_text, 5);
    reveal_with_fuel(has_column, 5);
    reveal_strlit(" ");
    reveal_strlit(" (");
    reveal_strlit(")");
    reveal_strlit(", ");
    reveal_strlit("CREATE TABLE IF NOT EXISTS ");
    reveal_strlit("CREATE TABLE IF NOT EXISTS dictionary_metadata (id TEXT NOT NULL, name TEXT NOT NULL, description TEXT, created_at INTEGER NOT NULL)");
    reveal_strlit("INTEGER NOT NULL");
    reveal_strlit("TEXT");
    reveal_strlit("TEXT NOT NULL");
    reveal_strlit("created_at");
    reveal_strlit("description");
    reveal_strlit("dictionary_metadata");
    reveal_strlit("id");
    reveal_strlit("name");
    let columns = Columns::Only("id"@, "TEXT NOT NULL"@)
        .and("name"@, "TEXT NOT NULL"@)
        .and("description"@, "TEXT"@)
        .and("created_at"@, "INTEGER NOT NULL"@);
    assert(DICTIONARY_METADATA@ =~= creation_text("dictionary_metadata"@, columns));
    columns
}

/// The table of the constraints of dictionaries has a column for each part of a row, of the kind that is written there.
pub proof fn law_dictionary_constraints_have_their_columns() -> (columns: Columns)
    ensures
        DICTIONARY_CONSTRAINTS@ == creation_text("dictionary_constraints"@, columns),
        has_column(columns, "id"@, "INTEGER PRIMARY KEY AUTOINCREMENT"@),
        has_column(columns, "dictionary_id"@, "TEXT NOT NULL"@),
        has_column(columns, "steps_count"@, "INTEGER"@),
        has_column(columns, "steps_interpolation"@, "TEXT"@),
{
    reveal_with_fuel(definitions_text, 5);
    reveal_with_fuel(has_column, 5);
    reveal_strlit(" ");
    reveal_strlit(" (");
    reveal_strlit(")");
    reveal_strlit(", ");
    reveal_strlit("CREATE TABLE IF NOT EXISTS ");
    reveal_strlit("CREATE TABLE IF NOT EXISTS dictionary_constraints (id INTEGER PRIMARY KEY AUTOINCREMENT, dictionary_id TEXT NOT NULL, steps_count INTEGER, steps_interpolation TEXT)");
    reveal_strlit("INTEGER");
    reveal_strlit("INTEGER PRIMARY KEY AUTOINCREMENT");
    reveal_strlit("TEXT");
    reveal_strlit("TEXT NOT NULL");
    reveal_strlit("dictionary_constraints");
    reveal_strlit("dictionary_id");
    reveal_strlit("id");
    reveal_strlit("steps_count");
    reveal_strlit("steps_interpolation");
    let columns = Columns::Only("id"@, "INTEGER PRIMARY KEY AUTOINCREMENT"@)
        .and("dictionary_id"@, "TEXT NOT NULL"@)
        .and("steps_count"@, "INTEGER"@)
        .and("steps_interpolation"@, "TEXT"@);
    assert(DICTIONARY_CONSTRAINTS@ =~= creation_text("dictionary_constraints"@, columns));
    columns
}

/// The table of the bounds of dictionaries has a column for each part of a row, of the kind that is written there.
pub proof fn law_dictionary_variabilities_have_their_columns() -> (columns: Columns)
    ensures
        DICTIONARY_VARIABILITIES@ == creation_text("dictionary_variabilities"@, columns),
        has_column(columns, "id"@, "INTEGER PRIMARY KEY AUTOINCREMENT"@),
        has_column(columns, "dictionary_id"@, "TEXT NOT NULL"@),
        has_column(columns, "variability_type"@, "TEXT NOT NULL"@),
        has_column(columns, "variability_value"@, "TEXT NOT NULL"@),
{
    reveal_with_fuel(definitions_text, 5);
    reveal_with_fuel(has_column, 5);
    reveal_strlit(" ");
    reveal_strlit(" (");
    reveal_strlit(")");
    reveal_strlit(", ");
    reveal_strlit("CREATE TABLE IF NOT EXISTS ");
    reveal_strlit("CREATE TABLE IF NOT EXISTS dictionary_variabilities (id INTEGER PRIMARY KEY AUTOINCREMENT, dictionary_id TEXT NOT NULL, variability_type TEXT NOT NULL, variability_value TEXT NOT NULL)");
    reveal_strlit("INTEGER PRIMARY KEY AUTOINCREMENT");
    reveal_strlit("TEXT NOT NULL");
    reveal_strlit("dictionary_id");
    reveal_strlit("dictionary_variabilities");
    reveal_strlit("id");
    reveal_strlit("variability_type");
    reveal_strlit("variability_value");
    let columns = Columns::Only("id"@, "INTEGER PRIMARY KEY AUTOINCREMENT"@)
        .and("dictionary_id"@, "TEXT NOT NULL"@)
        .and("variability_type"@, "TEXT NOT NULL"@)
        .and("variability_value"@, "TEXT NOT NULL"@);
    assert(DICTIONARY_VARIABILITIES@ =~= creation_text("dictionary_variabilities"@, columns));
    columns
}

/// The table of the patterns of dictionaries has a column for each part of a row, of the kind that is written there.
pub proof fn law_dictionary_patterns_have_their_columns() -> (columns: Columns)
    ensures
        DICTIONARY_PATTERNS@ == creation_text("dictionary_patterns"@, columns),
        has_column(columns, "id"@, "INTEGER PRIMARY KEY AUTOINCREMENT"@),
        has_column(columns, "dictionary_id"@, "TEXT NOT NULL"@),
        has_column(columns, "pattern_id"@, "TEXT NOT NULL"@),
        has_column(columns, "added_at"@, "INTEGER NOT NULL"@),
{
    reveal_with_fuel(definitions_text, 5);
    reveal_with_fuel(has_column, 5);
    reveal_strlit(" ");
    reveal_strlit(" (");
    reveal_strlit(")");
    reveal_strlit(", ");
    reveal_strlit("CREATE TABLE IF NOT EXISTS ");
    reveal_strlit("CREATE TABLE IF NOT EXISTS dictionary_patterns (id INTEGER PRIMARY KEY AUTOINCREMENT, dictionary_id TEXT NOT NULL, pattern_id TEXT NOT NULL, added_at INTEGER NOT NULL)");
    reveal_strlit("INTEGER NOT NULL");
    reveal_strlit("INTEGER PRIMARY KEY AUTOINCREMENT");
    reveal_strlit("TEXT NOT NULL");
    reveal_strlit("added_at");
    reveal_strlit("dictionary_id");
    reveal_strlit("dictionary_patterns");
    reveal_strlit("id");
    reveal_strlit("pattern_id");
    let columns = Columns::Only("id"@, "INTEGER PRIMARY KEY AUTOINCREMENT"@)
        .and("dictionary_id"@, "TEXT NOT NULL"@)
        .and("pattern_id"@, "TEXT NOT NULL"@)
        .and("added_at"@, "INTEGER NOT NULL"@);
    assert(DICTIONARY_PATTERNS@ =~= creation_text("dictionary_patterns"@, columns));
    columns
}

/// Every file is given the tables that the statements on it use: measurements with their index,
/// batches, patterns with their stretches and relatives, events with their manifestations,
/// correlations with their rates and stretches, and dictionaries with all that belongs to them.
pub proof fn law_files_have_their_tables()
    ensures
        Schema::Measurements.spec_tables() == seq![needed(MEASUREMENTS), tried(MEASUREMENTS_INDEX)],
        Schema::Batches.spec_tables() == seq![needed(BATCHES)],
        Schema::Patterns.spec_tables().len() == 3,
        Schema::Patterns.spec_tables().contains(needed(PATTERNS)),
        Schema::Patterns.spec_tables().contains(needed(PATTERN_OCCURRENCES)),
        Schema::Patterns.spec_tables().contains(needed(PATTERN_RELATIVES)),
        Schema::Events.spec_tables().len() == 2,
        Schema::Events.spec_tables().contains(needed(EVENTS)),
        Schema::Events.spec_tables().contains(needed(MANIFESTATIONS)),
        Schema::Correlations.spec_tables().len() == 9,
        Schema::Correlations.spec_tables()[0] == needed(CORRELATIONS),
        Schema::Correlations.spec_tables().contains(tried(CORRELATION_SUBJECT)),
        Schema::Correlations.spec_tables().contains(tried(CORRELATION_ASPECT)),
        Schema::Correlations.spec_tables().contains(tried(CORRELATION_DISTANCE)),
        Schema::Correlations.spec_tables().contains(tried(CORRELATION_UNITS)),
        Schema::Correlations.spec_tables().contains(tried(CORRELATION_RATES)),
        Schema::Correlations.spec_tables().contains(tried(CORRELATION_STRETCHES)),
        Schema::Correlations.spec_tables().contains(needed(ERROR_RATES)),
        Schema::Correlations.spec_tables().contains(needed(CORRELATION_OCCURRENCES)),
        Schema::Dictionary.spec_tables().len() == 7,
        Schema::Dictionary.spec_tables().contains(needed(DICTIONARY_METADATA)),
        Schema::Dictionary.spec_tables().contains(needed(DICTIONARY_CONSTRAINTS)),
        Schema::Dictionary.spec_tables().contains(needed(DICTIONARY_VARIABILITIES)),
        Schema::Dictionary.spec_tables().contains(needed(DICTIONARY_PATTERNS)),
        Schema::Dictionary.spec_tables().contains(needed(PATTERNS)),
        Schema::Dictionary.spec_tables().contains(needed(PATTERN_OCCURRENCES)),
        Schema::Dictionary.spec_tables().contains(needed(PATTERN_RELATIVES)),
{
    let p = Schema::Patterns.spec_tables();
    assert(p[0] == needed(PATTERNS) && p[1] == needed(PATTERN_OCCURRENCES) && p[2] == needed(
        PATTERN_RELATIVES,
    ));
    let e = Schema::Events.spec_tables();
    assert(e[0] == needed(EVENTS) && e[1] == needed(MANIFESTATIONS));
    let c = Schema::Correlations.spec_tables();
    assert(c[1] == tried(CORRELATION_SUBJECT) && c[2] == tried(CORRELATION_ASPECT));
    assert(c[3] == tried(CORRELATION_DISTANCE) && c[4] == tried(CORRELATION_UNITS));
    assert(c[5] == tried(CORRELATION_RATES) && c[6] == tried(CORRELATION_STRETCHES));
    assert(c[7] == needed(ERROR_RATES) && c[8] == needed(CORRELATION_OCCURRENCES));
    let d = Schema::Dictionary.spec_tables();
    assert(d[0] == needed(DICTIONARY_METADATA) && d[1] == needed(DICTIONARY_CONSTRAINTS));
    assert(d[2] == needed(DICTIONARY_VARIABILITIES) && d[3] == needed(DICTIONARY_PATTERNS));
    assert(d[4] == needed(PATTERNS) && d[5] == needed(PATTERN_OCCURRENCES) && d[6] == needed(
        PATTERN_RELATIVES,
    ));
}

/// A table that was made before a column came up gets it: the text names the table and the column.
pub proof fn law_missing_columns_are_added()
    ensures
        CORRELATION_SUBJECT@ == addition_of_column("correlations"@, "subject_id"@, "TEXT"@),
        CORRELATION_ASPECT@ == addition_of_column("correlations"@, "aspect_id"@, "TEXT"@),
        CORRELATION_DISTANCE@ == addition_of_column(
            "correlations"@,
            "average_distance_value"@,
            "TEXT"@,
        ),
        CORRELATION_UNITS@ == addition_of_column(
            "correlations"@,
            "average_distance_units"@,
            "TEXT"@,
        ),
        CORRELATION_RATES@ == addition_of_column("correlations"@, "error_rates"@, "TEXT"@),
        CORRELATION_STRETCHES@ == addition_of_column("correlations"@, "occurrences"@, "TEXT"@),
{
    reveal_strlit("ALTER TABLE ");
    reveal_strlit(" ADD COLUMN ");
    reveal_strlit(" ");
    reveal_strlit("TEXT");
    reveal_strlit("correlations");
    reveal_strlit("subject_id");
    reveal_strlit("aspect_id");
    reveal_strlit("average_distance_value");
    reveal_strlit("average_distance_units");
    reveal_strlit("error_rates");
    reveal_strlit("occurrences");
    reveal_strlit("ALTER TABLE correlations ADD COLUMN subject_id TEXT");
    reveal_strlit("ALTER TABLE correlations ADD COLUMN aspect_id TEXT");
    reveal_strlit("ALTER TABLE correlations ADD COLUMN average_distance_value TEXT");
    reveal_strlit("ALTER TABLE correlations ADD COLUMN average_distance_units TEXT");
    reveal_strlit("ALTER TABLE correlations ADD COLUMN error_rates TEXT");
    reveal_strlit("ALTER TABLE correlations ADD COLUMN occurrences TEXT");
    assert(CORRELATION_SUBJECT@ =~= addition_of_column("correlations"@, "subject_id"@, "TEXT"@));
    assert(CORRELATION_ASPECT@ =~= addition_of_column("correlations"@, "aspect_id"@, "TEXT"@));
    assert(CORRELATION_DISTANCE@ =~= addition_of_column(
        "correlations"@,
        "average_distance_value"@,
        "TEXT"@,
    ));
    assert(CORRELATION_UNITS@ =~= addition_of_column(
        "correlations"@,
        "average_distance_units"@,
        "TEXT"@,
    ));
    assert(CORRELATION_RATES@ =~= addition_of_column("correlations"@, "error_rates"@, "TEXT"@));
    assert(CORRELATION_STRETCHES@ =~= addition_of_column("correlations"@, "occurrences"@, "TEXT"@));
}

/// The text that adds a column to a table.
pub open spec fn addition_of_column(
    table: Seq<char>,
    column: Seq<char>,
    kind: Seq<char>,
) -> Seq<char> {
    "ALTER TABLE "@ + table + " ADD COLUMN "@ + column + " "@ + kind
}

/// The files of an aspect are all different ones.
pub proof fn law_files_of_an_aspect_differ(info: AspectInfo, database_dir: Seq<char>)
    requires
        info.lies_below(database_dir),
    ensures
        seq![
            info.measurements_path@,
            info.unprocessed_batches_path@,
            info.processed_batches_path@,
            info.patterns_path@,
            info.unprocessed_events_path@,
            info.processed_events_path@,
            info.correlations_path@,
        ].no_duplicates(),
{
    reveal_strlit("/measurements.db");
    reveal_strlit("/unprocessed_batches.db");
    reveal_strlit("/processed_batches.db");
    reveal_strlit("/patterns.db");
    reveal_strlit("/unprocessed_events.db");
    reveal_strlit("/processed_events.db");
    reveal_strlit("/correlations.db");
    let n = info.path@.len() as int;
    assert(info.measurements_path@[n + 1] == 'm');
    assert(info.correlations_path@[n + 1] == 'c');
    assert(info.measurements_path@ != info.correlations_path@);
    let files = seq![
        info.measurements_path@,
        info.unprocessed_batches_path@,
        info.processed_batches_path@,
        info.patterns_path@,
        info.unprocessed_events_path@,
        info.processed_events_path@,
        info.correlations_path@,
    ];
    assert(files[0].len() == n + 16);
    assert(files[1].len() == n + 23);
    assert(files[2].len() == n + 21);
    assert(files[3].len() == n + 12);
    assert(files[4].len() == n + 22);
    assert(files[5].len() == n + 20);
    assert(files[6].len() == n + 16);
    assert(files.no_duplicates());
}

}
