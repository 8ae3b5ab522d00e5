//! The tables that the databases of an aspect are given.
use crate::aspect::{Aspect, Schema};
use crate::error::Error;
use vstd::prelude::*;

verus! {

/// The table of measurements.
pub const MEASUREMENTS: &'static str = "CREATE TABLE IF NOT EXISTS measurements (id TEXT NOT NULL, dataset_id TEXT NOT NULL, timestamp INTEGER NOT NULL, value TEXT NOT NULL)";

/// The index by which ranges of measurements are found; not every database can have it.
pub const MEASUREMENTS_INDEX: &'static str = "CREATE INDEX IF NOT EXISTS idx_measurements_timestamp ON measurements(timestamp)";

/// The table of batches.
pub const BATCHES: &'static str = "CREATE TABLE IF NOT EXISTS batches (id TEXT NOT NULL, aspect_id TEXT NOT NULL, database_id TEXT NOT NULL, size INTEGER NOT NULL, resolution TEXT NOT NULL, measurements TEXT NOT NULL, batch_hash TEXT, status TEXT NOT NULL DEFAULT 'pending', created_at INTEGER NOT NULL, updated_at INTEGER NOT NULL DEFAULT (strftime('%s', 'now') * 1000))";

/// The table of patterns, with their figures.
pub const PATTERNS: &'static str = "CREATE TABLE IF NOT EXISTS patterns (id TEXT NOT NULL, sum_value TEXT NOT NULL, abs_sum_value TEXT NOT NULL, max_value TEXT NOT NULL, min_value TEXT NOT NULL, abs_max_value TEXT NOT NULL, avg_value TEXT NOT NULL, abs_avg_value TEXT NOT NULL)";

/// The table of the occurrences of patterns, which are numbered.
pub const PATTERN_OCCURRENCES: &'static str = "CREATE TABLE IF NOT EXISTS pattern_occurrences (id INTEGER PRIMARY KEY AUTOINCREMENT, pattern_id TEXT NOT NULL, occurrence_index INTEGER NOT NULL, aspect_id TEXT NOT NULL, resolution TEXT NOT NULL, size INTEGER NOT NULL, database_info TEXT NOT NULL, beginning_timestamp INTEGER NOT NULL, end_timestamp INTEGER NOT NULL)";

/// The table of the relatives of patterns, one text each.
pub const PATTERN_RELATIVES: &'static str = "CREATE TABLE IF NOT EXISTS pattern_relatives (id INTEGER PRIMARY KEY AUTOINCREMENT, pattern_id TEXT NOT NULL, relative_index INTEGER NOT NULL, relative_value TEXT NOT NULL)";

/// The table of the occurrences of patterns, which are not numbered.
pub const UNNUMBERED_OCCURRENCES: &'static str = "CREATE TABLE IF NOT EXISTS pattern_occurrences (id INTEGER PRIMARY KEY AUTOINCREMENT, pattern_id TEXT NOT NULL, aspect_id TEXT NOT NULL, resolution TEXT NOT NULL, size INTEGER NOT NULL, database_info TEXT NOT NULL, beginning_timestamp INTEGER NOT NULL, end_timestamp INTEGER NOT NULL)";

/// The table of the relatives of patterns, by their parts.
pub const SPLIT_RELATIVES: &'static str = "CREATE TABLE IF NOT EXISTS pattern_relatives (id INTEGER PRIMARY KEY AUTOINCREMENT, pattern_id TEXT NOT NULL, relative_index INTEGER NOT NULL, vector_location TEXT NOT NULL, vector_amplitude TEXT NOT NULL, max_x TEXT NOT NULL, max_y TEXT NOT NULL)";

/// The table of events.
pub const EVENTS: &'static str = "CREATE TABLE IF NOT EXISTS events (id TEXT NOT NULL, name TEXT NOT NULL, description TEXT, created_at INTEGER NOT NULL)";

/// The table of the manifestations of events.
pub const MANIFESTATIONS: &'static str = "CREATE TABLE IF NOT EXISTS event_manifestations (id TEXT NOT NULL, event_id TEXT NOT NULL, dataset_id TEXT NOT NULL, start_timestamp INTEGER NOT NULL, end_timestamp INTEGER NOT NULL)";

/// The table of correlations.
pub const CORRELATIONS: &'static str = "CREATE TABLE IF NOT EXISTS correlations (id TEXT NOT NULL, dictionary_id TEXT NOT NULL, subject_id TEXT NOT NULL, aspect_id TEXT NOT NULL, pattern_id TEXT NOT NULL, event_id TEXT NOT NULL, created_at INTEGER NOT NULL, updated_at INTEGER NOT NULL)";

/// A column that an older table of correlations lacks.
pub const CORRELATION_SUBJECT: &'static str = "ALTER TABLE correlations ADD COLUMN subject_id TEXT";

/// A column that an older table of correlations lacks.
pub const CORRELATION_ASPECT: &'static str = "ALTER TABLE correlations ADD COLUMN aspect_id TEXT";

/// A column that the table of correlations is made without.
pub const CORRELATION_DISTANCE: &'static str = "ALTER TABLE correlations ADD COLUMN average_distance_value TEXT";

/// A column that the table of correlations is made without.
pub const CORRELATION_UNITS: &'static str = "ALTER TABLE correlations ADD COLUMN average_distance_units TEXT";

/// The column of the rates of correlations that are written into a dictionary.
pub const CORRELATION_RATES: &'static str = "ALTER TABLE correlations ADD COLUMN error_rates TEXT";

/// The column of the stretches of correlations that are written into a dictionary.
pub const CORRELATION_STRETCHES: &'static str = "ALTER TABLE correlations ADD COLUMN occurrences TEXT";

/// The table of the error rates of correlations.
pub const ERROR_RATES: &'static str = "CREATE TABLE IF NOT EXISTS correlation_error_rates (id INTEGER PRIMARY KEY AUTOINCREMENT, correlation_id TEXT NOT NULL, signal_type TEXT NOT NULL, error_rate_value TEXT NOT NULL, error_rate_units TEXT NOT NULL)";

/// The table of the occurrences of correlations.
pub const CORRELATION_OCCURRENCES: &'static str = "CREATE TABLE IF NOT EXISTS correlation_occurrences (id INTEGER PRIMARY KEY AUTOINCREMENT, correlation_id TEXT NOT NULL, occurrence_index INTEGER NOT NULL, aspect_id TEXT NOT NULL, resolution TEXT NOT NULL, size INTEGER NOT NULL, database_info TEXT NOT NULL, pattern_id TEXT NOT NULL, beginning_timestamp INTEGER NOT NULL, end_timestamp INTEGER NOT NULL)";

/// The table of what is known of dictionaries.
pub const DICTIONARY_METADATA: &'static str = "CREATE TABLE IF NOT EXISTS dictionary_metadata (id TEXT NOT NULL, name TEXT NOT NULL, description TEXT, created_at INTEGER NOT NULL)";

/// The table of the constraints of dictionaries.
pub const DICTIONARY_CONSTRAINTS: &'static str = "CREATE TABLE IF NOT EXISTS dictionary_constraints (id INTEGER PRIMARY KEY AUTOINCREMENT, dictionary_id TEXT NOT NULL, steps_count INTEGER, steps_interpolation TEXT)";

/// The table of the bounds of dictionaries.
pub const DICTIONARY_VARIABILITIES: &'static str = "CREATE TABLE IF NOT EXISTS dictionary_variabilities (id INTEGER PRIMARY KEY AUTOINCREMENT, dictionary_id TEXT NOT NULL, variability_type TEXT NOT NULL, variability_value TEXT NOT NULL)";

/// The table of the patterns of dictionaries.
pub const DICTIONARY_PATTERNS: &'static str = "CREATE TABLE IF NOT EXISTS dictionary_patterns (id INTEGER PRIMARY KEY AUTOINCREMENT, dictionary_id TEXT NOT NULL, pattern_id TEXT NOT NULL, added_at INTEGER NOT NULL)";

/// A statement that makes a table or changes one.
#[derive(Debug)]
pub struct Definition {
    pub sql: &'static str,
    /// Whether a failure is passed over.
    pub is_optional: bool,
}

pub struct DefinitionView {
    pub sql: Seq<char>,
    pub is_optional: bool,
}

impl View for Definition {
    type V = DefinitionView;

    open spec fn view(&self) -> DefinitionView {
        DefinitionView { sql: self.sql@, is_optional: self.is_optional }
    }
}

pub open spec fn definition_views(s: Seq<Definition>) -> Seq<DefinitionView> {
    Seq::new(s.len(), |i: int| s[i]@)
}

/// A statement that has to succeed.
pub open spec fn needed(sql: &str) -> DefinitionView {
    DefinitionView { sql: sql@, is_optional: false }
}

/// A statement whose failure is passed over.
pub open spec fn tried(sql: &str) -> DefinitionView {
    DefinitionView { sql: sql@, is_optional: true }
}

/// What comes of a statement, by how it went: a failure is told by its text alone, or passed over.
pub fn after_definition(definition: &Definition, outcome: Result<(), String>) -> (r: Result<
    (),
    Error,
>)
    ensures
        match outcome {
            Err(e) if !definition.is_optional => r is Err && r->Err_0 is Message
                && r->Err_0.spec_message() == e@,
            _ => r == Ok::<(), Error>(()),
        },
{
    match outcome {
        Ok(_) => Ok(()),
        Err(e) => {
            if definition.is_optional {
                Ok(())
            } else {
                Err(Error::Message(e))
            }
        },
    }
}

impl Aspect {
    /// The tables of a database of measurements.
    pub fn wireframe_measurements_tables() -> (r: Vec<Definition>)
        ensures
            definition_views(r@) == seq![
                needed(MEASUREMENTS),
                tried(MEASUREMENTS_INDEX),
            ],
    {
        let mut r: Vec<Definition> = Vec::new();
        r.push(Definition { sql: MEASUREMENTS, is_optional: false });
        r.push(Definition { sql: MEASUREMENTS_INDEX, is_optional: true });
        assert(definition_views(r@) =~= seq![
                needed(MEASUREMENTS),
                tried(MEASUREMENTS_INDEX),
        ]);
        r
    }

    /// The tables of a database of batches.
    pub fn wireframe_batches_tables() -> (r: Vec<Definition>)
        ensures
            definition_views(r@) == seq![
                needed(BATCHES),
            ],
    {
        let mut r: Vec<Definition> = Vec::new();
        r.push(Definition { sql: BATCHES, is_optional: false });
        assert(definition_views(r@) =~= seq![
                needed(BATCHES),
        ]);
        r
    }

    /// The tables of a database of patterns, with relatives by their parts.
    pub fn wireframe_patterns_tables() -> (r: Vec<Definition>)
        ensures
            definition_views(r@) == seq![
                needed(PATTERNS),
                needed(UNNUMBERED_OCCURRENCES),
                needed(SPLIT_RELATIVES),
            ],
    {
        let mut r: Vec<Definition> = Vec::new();
        r.push(Definition { sql: PATTERNS, is_optional: false });
        r.push(Definition { sql: UNNUMBERED_OCCURRENCES, is_optional: false });
        r.push(Definition { sql: SPLIT_RELATIVES, is_optional: false });
        assert(definition_views(r@) =~= seq![
                needed(PATTERNS),
                needed(UNNUMBERED_OCCURRENCES),
                needed(SPLIT_RELATIVES),
        ]);
        r
    }

    /// The tables of a database of patterns, with numbered occurrences and a text for each relative:
    /// the ones that patterns are written to.
    pub fn wireframe_patterns_tables_direct() -> (r: Vec<Definition>)
        ensures
            definition_views(r@) == seq![
                needed(PATTERNS),
                needed(PATTERN_OCCURRENCES),
                needed(PATTERN_RELATIVES),
            ],
    {
        let mut r: Vec<Definition> = Vec::new();
        r.push(Definition { sql: PATTERNS, is_optional: false });
        r.push(Definition { sql: PATTERN_OCCURRENCES, is_optional: false });
        r.push(Definition { sql: PATTERN_RELATIVES, is_optional: false });
        assert(definition_views(r@) =~= seq![
                needed(PATTERNS),
                needed(PATTERN_OCCURRENCES),
                needed(PATTERN_RELATIVES),
        ]);
        r
    }

    /// The tables of a database of events.
    pub fn wireframe_events_tables() -> (r: Vec<Definition>)
        ensures
            definition_views(r@) == seq![
                needed(EVENTS),
                needed(MANIFESTATIONS),
            ],
    {
        let mut r: Vec<Definition> = Vec::new();
        r.push(Definition { sql: EVENTS, is_optional: false });
        r.push(Definition { sql: MANIFESTATIONS, is_optional: false });
        assert(definition_views(r@) =~= seq![
                needed(EVENTS),
                needed(MANIFESTATIONS),
        ]);
        r
    }

    /// The tables of a database of correlations. The columns that may be missing are added where they
    /// can be.
    pub fn wireframe_correlations_tables() -> (r: Vec<Definition>)
        ensures
            definition_views(r@) == seq![
                needed(CORRELATIONS),
                tried(CORRELATION_SUBJECT),
                tried(CORRELATION_ASPECT),
                tried(CORRELATION_DISTANCE),
                tried(CORRELATION_UNITS),
                tried(CORRELATION_RATES),
                tried(CORRELATION_STRETCHES),
                needed(ERROR_RATES),
                needed(CORRELATION_OCCURRENCES),
            ],
    {
        let mut r: Vec<Definition> = Vec::new();
        r.push(Definition { sql: CORRELATIONS, is_optional: false });
        r.push(Definition { sql: CORRELATION_SUBJECT, is_optional: true });
        r.push(Definition { sql: CORRELATION_ASPECT, is_optional: true });
        r.push(Definition { sql: CORRELATION_DISTANCE, is_optional: true });
        r.push(Definition { sql: CORRELATION_UNITS, is_optional: true });
        r.push(Definition { sql: CORRELATION_RATES, is_optional: true });
        r.push(Definition { sql: CORRELATION_STRETCHES, is_optional: true });
        r.push(Definition { sql: ERROR_RATES, is_optional: false });
        r.push(Definition { sql: CORRELATION_OCCURRENCES, is_optional: false });
        assert(definition_views(r@) =~= seq![
                needed(CORRELATIONS),
                tried(CORRELATION_SUBJECT),
                tried(CORRELATION_ASPECT),
                tried(CORRELATION_DISTANCE),
                tried(CORRELATION_UNITS),
                tried(CORRELATION_RATES),
                tried(CORRELATION_STRETCHES),
                needed(ERROR_RATES),
                needed(CORRELATION_OCCURRENCES),
        ]);
        r
    }

    /// The tables of a dictionary, without those of its patterns themselves.
    pub fn wireframe_dictionary_tables() -> (r: Vec<Definition>)
        ensures
            definition_views(r@) == seq![
                needed(DICTIONARY_METADATA),
                needed(DICTIONARY_CONSTRAINTS),
                needed(DICTIONARY_VARIABILITIES),
                needed(DICTIONARY_PATTERNS),
            ],
    {
        let mut r: Vec<Definition> = Vec::new();
        r.push(Definition { sql: DICTIONARY_METADATA, is_optional: false });
        r.push(Definition { sql: DICTIONARY_CONSTRAINTS, is_optional: false });
        r.push(Definition { sql: DICTIONARY_VARIABILITIES, is_optional: false });
        r.push(Definition { sql: DICTIONARY_PATTERNS, is_optional: false });
        assert(definition_views(r@) =~= seq![
                needed(DICTIONARY_METADATA),
                needed(DICTIONARY_CONSTRAINTS),
                needed(DICTIONARY_VARIABILITIES),
                needed(DICTIONARY_PATTERNS),
        ]);
        r
    }

    /// The tables of a dictionary, with those of its patterns themselves.
    pub fn wireframe_dictionary_tables_direct() -> (r: Vec<Definition>)
        ensures
            definition_views(r@) == seq![
                needed(DICTIONARY_METADATA),
                needed(DICTIONARY_CONSTRAINTS),
                needed(DICTIONARY_VARIABILITIES),
                needed(DICTIONARY_PATTERNS),
                needed(PATTERNS),
                needed(PATTERN_OCCURRENCES),
                needed(PATTERN_RELATIVES),
            ],
    {
        let mut r: Vec<Definition> = Vec::new();
        r.push(Definition { sql: DICTIONARY_METADATA, is_optional: false });
        r.push(Definition { sql: DICTIONARY_CONSTRAINTS, is_optional: false });
        r.push(Definition { sql: DICTIONARY_VARIABILITIES, is_optional: false });
        r.push(Definition { sql: DICTIONARY_PATTERNS, is_optional: false });
        r.push(Definition { sql: PATTERNS, is_optional: false });
        r.push(Definition { sql: PATTERN_OCCURRENCES, is_optional: false });
        r.push(Definition { sql: PATTERN_RELATIVES, is_optional: false });
        assert(definition_views(r@) =~= seq![
                needed(DICTIONARY_METADATA),
                needed(DICTIONARY_CONSTRAINTS),
                needed(DICTIONARY_VARIABILITIES),
                needed(DICTIONARY_PATTERNS),
                needed(PATTERNS),
                needed(PATTERN_OCCURRENCES),
                needed(PATTERN_RELATIVES),
        ]);
        r
    }
}

impl Schema {
    /// The tables that a database of the schema is given.
    pub open spec fn spec_tables(self) -> Seq<DefinitionView> {
        match self {
            Schema::Measurements => seq![needed(MEASUREMENTS), tried(MEASUREMENTS_INDEX)],
            Schema::Batches => seq![needed(BATCHES)],
            Schema::Patterns => seq![
                needed(PATTERNS),
                needed(PATTERN_OCCURRENCES),
                needed(PATTERN_RELATIVES),
            ],
            Schema::Events => seq![needed(EVENTS), needed(MANIFESTATIONS)],
            Schema::Correlations => seq![
                needed(CORRELATIONS),
                tried(CORRELATION_SUBJECT),
                tried(CORRELATION_ASPECT),
                tried(CORRELATION_DISTANCE),
                tried(CORRELATION_UNITS),
                tried(CORRELATION_RATES),
                tried(CORRELATION_STRETCHES),
                needed(ERROR_RATES),
                needed(CORRELATION_OCCURRENCES),
            ],
            Schema::Dictionary => seq![
                needed(DICTIONARY_METADATA),
                needed(DICTIONARY_CONSTRAINTS),
                needed(DICTIONARY_VARIABILITIES),
                needed(DICTIONARY_PATTERNS),
                needed(PATTERNS),
                needed(PATTERN_OCCURRENCES),
                needed(PATTERN_RELATIVES),
            ],
        }
    }

    /// The tables that a database of the schema is given.
    pub fn tables(self) -> (r: Vec<Definition>)
        ensures
            definition_views(r@) == self.spec_tables(),
    {
        match self {
            Schema::Measurements => Aspect::wireframe_measurements_tables(),
            Schema::Batches => Aspect::wireframe_batches_tables(),
            Schema::Patterns => Aspect::wireframe_patterns_tables_direct(),
            Schema::Events => Aspect::wireframe_events_tables(),
            Schema::Correlations => Aspect::wireframe_correlations_tables(),
            Schema::Dictionary => Aspect::wireframe_dictionary_tables_direct(),
        }
    }
}

}
