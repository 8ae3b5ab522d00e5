//! How the processing of an aspect is set up, how far it has come, and what takes part in it.
use crate::columns::{database_error, i64_of_usize, i64_range_refusal, size_field};
use crate::error::Error;
use crate::resolution::Spline;
use crate::sql::{
    no_values,
    one_text,
    statement,
    text_value,
    value_views,
    SqlValue,
    SqlView,
    Statement,
    StatementView,
};
use crate::text::join;
use crate::time::{Timestamp, MAX_SECONDS, MIN_SECONDS};
use crate::transaction::{step, step_views, OnFailure, Step, StepView};
use vstd::prelude::*;

verus! {

/// How the processing of an aspect is set up.
#[derive(Debug, Clone, Copy, PartialEq, Eq, Structural)]
pub struct PipelineConfig {
    pub spline_method: Spline,
    pub batch_size: usize,
}

/// How far the processing of an aspect has come.
#[derive(Debug, Clone, Copy, PartialEq, Eq, Structural)]
pub struct PipelineState {
    pub last_run: Option<Timestamp>,
    pub run_count: u64,
    pub version: u32,
}

/// A step of whose failure the transaction is left as it is.
pub open spec fn left(sql: Seq<char>, params: Seq<SqlView>, complaint: Seq<char>) -> StepView {
    StepView {
        statement: StatementView { sql, params },
        complaint,
        on_failure: OnFailure::Leave,
    }
}

fn leaving(sql: &str, params: Vec<SqlValue>, complaint: &str) -> (r: Step)
    ensures
        r@ == left(sql@, value_views(params@), complaint@),
{
    step(statement(sql, params), complaint, OnFailure::Leave)
}

/// The step of [`update_pipeline_config`].
pub open spec fn spec_update_pipeline_config(
    config: &PipelineConfig,
    spline_method: &str,
    now: i64,
) -> StepView {
    left(
        "UPDATE pipeline_config SET spline_method = ?, batch_size = ?, updated_at = ? WHERE id = 1"@,
        seq![
            SqlView::Text(spline_method@),
            SqlView::Integer(config.batch_size as int),
            SqlView::Integer(now as int),
        ],
        "Failed to update pipeline config: "@,
    )
}

/// How the set-up that is there is replaced; the text of its method is given. A batch size that does
/// not fit into the column is an error.
pub fn update_pipeline_config(config: &PipelineConfig, spline_method: &str, now: i64) -> (r: Result<
    Step,
    Error,
>)
    ensures
        match r {
            Ok(s) => config.batch_size <= i64::MAX && s@ == spec_update_pipeline_config(
                config,
                spline_method,
                now,
            ),
            Err(e) => config.batch_size > i64::MAX && e is DatabaseError && e.spec_message()
                == database_error("Batch size too large: "@ + i64_range_refusal(config.batch_size)),
        },
{
    let size: i64 = match i64_of_usize(config.batch_size) {
        Ok(n) => n,
        Err(e) => {
            return Err(Error::DatabaseError(join("Batch size too large: ", e.as_str())));
        },
    };
    let mut params: Vec<SqlValue> = Vec::new();
    params.push(text_value(spline_method));
    params.push(SqlValue::Integer(size));
    params.push(SqlValue::Integer(now));
    assert(value_views(params@) =~= seq![
        SqlView::Text(spline_method@),
        SqlView::Integer(config.batch_size as int),
        SqlView::Integer(now as int),
    ]);
    Ok(
        leaving(
            "UPDATE pipeline_config SET spline_method = ?, batch_size = ?, updated_at = ? WHERE id = 1",
            params,
            "Failed to update pipeline config: ",
        ),
    )
}

/// The step of [`insert_pipeline_config`].
pub open spec fn spec_insert_pipeline_config(
    config: &PipelineConfig,
    spline_method: &str,
    now: i64,
) -> StepView {
    left(
        "INSERT INTO pipeline_config (id, spline_method, batch_size, created_at, updated_at) VALUES (1, ?, ?, ?, ?)"@,
        seq![
            SqlView::Text(spline_method@),
            SqlView::Integer(config.batch_size as int),
            SqlView::Integer(now as int),
            SqlView::Integer(now as int),
        ],
        "Failed to insert pipeline config: "@,
    )
}

/// How the set-up is written, where none was there to be replaced.
pub fn insert_pipeline_config(
    config: &PipelineConfig,
    spline_method: &str,
    now: i64,
    rows_updated: u64,
) -> (r: Option<Step>)
    requires
        config.batch_size <= i64::MAX,
    ensures
        match r {
            Some(s) => rows_updated == 0 && s@ == spec_insert_pipeline_config(
                config,
                spline_method,
                now,
            ),
            None => rows_updated > 0,
        },
{
    if rows_updated > 0 {
        return None;
    }
    let mut params: Vec<SqlValue> = Vec::new();
    params.push(text_value(spline_method));
    params.push(SqlValue::Integer(config.batch_size as i64));
    params.push(SqlValue::Integer(now));
    params.push(SqlValue::Integer(now));
    assert(value_views(params@) =~= seq![
        SqlView::Text(spline_method@),
        SqlView::Integer(config.batch_size as int),
        SqlView::Integer(now as int),
        SqlView::Integer(now as int),
    ]);
    Some(
        leaving(
            "INSERT INTO pipeline_config (id, spline_method, batch_size, created_at, updated_at) VALUES (1, ?, ?, ?, ?)",
            params,
            "Failed to insert pipeline config: ",
        ),
    )
}

/// What std says of a count of runs that is no `i64`.
pub uninterp spec fn run_count_refusal(n: u64) -> Seq<char>;

/// `i64::try_from` of std for a `u64`: the same number where it fits; else std's text of the error,
/// which is named.
#[verifier::external_body]
fn i64_of_u64(n: u64) -> (r: Result<i64, String>)
    ensures
        match r {
            Ok(m) => m == n,
            Err(e) => n > i64::MAX && e@ == run_count_refusal(n),
        },
{
    match i64::try_from(n) {
        Ok(m) => Ok(m),
        Err(e) => Err(e.to_string()),
    }
}

/// The columns of a state.
pub open spec fn state_columns(state: PipelineState) -> Seq<SqlView> {
    seq![
        match state.last_run {
            Some(t) => SqlView::Integer(t.spec_millis()),
            None => SqlView::Null,
        },
        SqlView::Integer(state.run_count as int),
        SqlView::Integer(state.version as int),
    ]
}

fn state_values(state: &PipelineState, run_count: i64) -> (r: Vec<SqlValue>)
    requires
        run_count == state.run_count,
        state.last_run matches Some(t) ==> t.is_valid(),
    ensures
        value_views(r@) == state_columns(*state),
{
    let mut r: Vec<SqlValue> = Vec::new();
    match &state.last_run {
        Some(t) => {
            r.push(SqlValue::Integer(t.millis()));
        },
        None => {
            r.push(SqlValue::Null);
        },
    }
    r.push(SqlValue::Integer(run_count));
    r.push(SqlValue::Integer(state.version as i64));
    assert(value_views(r@) =~= state_columns(*state));
    r
}

/// The step of [`update_pipeline_state`].
pub open spec fn spec_update_pipeline_state(state: &PipelineState) -> StepView {
    left(
        "UPDATE pipeline_state SET last_run = ?, run_count = ?, version = ? WHERE id = 1"@,
        state_columns(*state),
        "Failed to update pipeline state: "@,
    )
}

/// How the state that is there is replaced. A count of runs that does not fit into the column is an
/// error.
pub fn update_pipeline_state(state: &PipelineState) -> (r: Result<Step, Error>)
    requires
        state.last_run matches Some(t) ==> t.is_valid(),
    ensures
        match r {
            Ok(s) => state.run_count <= i64::MAX && s@ == spec_update_pipeline_state(state),
            Err(e) => state.run_count > i64::MAX && e is DatabaseError && e.spec_message()
                == database_error("Run count too large: "@ + run_count_refusal(state.run_count)),
        },
{
    match i64_of_u64(state.run_count) {
        Ok(n) => Ok(
            leaving(
                "UPDATE pipeline_state SET last_run = ?, run_count = ?, version = ? WHERE id = 1",
                state_values(state, n),
                "Failed to update pipeline state: ",
            ),
        ),
        Err(e) => Err(Error::DatabaseError(join("Run count too large: ", e.as_str()))),
    }
}

/// The step of [`insert_pipeline_state`].
pub open spec fn spec_insert_pipeline_state(state: &PipelineState) -> StepView {
    left(
        "INSERT INTO pipeline_state (id, last_run, run_count, version) VALUES (1, ?, ?, ?)"@,
        state_columns(*state),
        "Failed to insert pipeline state: "@,
    )
}

/// How the state is written, where none was there to be replaced.
pub fn insert_pipeline_state(state: &PipelineState, rows_updated: u64) -> (r: Option<Step>)
    requires
        state.last_run matches Some(t) ==> t.is_valid(),
        state.run_count <= i64::MAX,
    ensures
        match r {
            Some(s) => rows_updated == 0 && s@ == spec_insert_pipeline_state(state),
            None => rows_updated > 0,
        },
{
    if rows_updated > 0 {
        return None;
    }
    Some(
        leaving(
            "INSERT INTO pipeline_state (id, last_run, run_count, version) VALUES (1, ?, ?, ?)",
            state_values(state, state.run_count as i64),
            "Failed to insert pipeline state: ",
        ),
    )
}

/// The steps of [`delete_pipeline`].
pub open spec fn spec_delete_pipeline() -> Seq<StepView> {
    seq![
        left(
            "DELETE FROM pipeline_config WHERE id = 1"@,
            seq![],
            "Failed to delete pipeline config: "@,
        ),
        left(
            "DELETE FROM pipeline_state WHERE id = 1"@,
            seq![],
            "Failed to delete pipeline state: "@,
        ),
        left(
            "DELETE FROM pipeline_dictionaries"@,
            seq![],
            "Failed to delete pipeline dictionaries: "@,
        ),
        left(
            "DELETE FROM pipeline_detectors"@,
            seq![],
            "Failed to delete pipeline detectors: "@,
        ),
    ]
}

/// How everything of the processing of an aspect is taken out.
pub fn delete_pipeline() -> (r: Vec<Step>)
    ensures
        step_views(r@) == spec_delete_pipeline(),
{
    let mut r: Vec<Step> = Vec::new();
    r.push(
        leaving(
            "DELETE FROM pipeline_config WHERE id = 1",
            no_values(),
            "Failed to delete pipeline config: ",
        ),
    );
    r.push(
        leaving(
            "DELETE FROM pipeline_state WHERE id = 1",
            no_values(),
            "Failed to delete pipeline state: ",
        ),
    );
    r.push(
        leaving(
            "DELETE FROM pipeline_dictionaries",
            no_values(),
            "Failed to delete pipeline dictionaries: ",
        ),
    );
    r.push(
        leaving(
            "DELETE FROM pipeline_detectors",
            no_values(),
            "Failed to delete pipeline detectors: ",
        ),
    );
    assert(step_views(r@) =~= seq![r@[0]@, r@[1]@, r@[2]@, r@[3]@]);
    r
}

/// The statement of [`dictionary_query`].
pub open spec fn spec_dictionary_query(dictionary_name: &str) -> StatementView {
    StatementView {
        sql: "SELECT 1 FROM pipeline_dictionaries WHERE dictionary_name = ? LIMIT 1"@,
        params: seq![SqlView::Text(dictionary_name@)],
    }
}

/// The query for whether a dictionary takes part.
pub fn dictionary_query(dictionary_name: &str) -> (r: Statement)
    ensures
        r@ == spec_dictionary_query(dictionary_name),
{
    statement(
        "SELECT 1 FROM pipeline_dictionaries WHERE dictionary_name = ? LIMIT 1",
        one_text(dictionary_name),
    )
}

/// The step of [`add_pipeline_dictionary`].
pub open spec fn spec_add_pipeline_dictionary(dictionary_name: &str, now: i64) -> StepView {
    left(
        "INSERT INTO pipeline_dictionaries (dictionary_name, added_at) VALUES (?, ?)"@,
        seq![SqlView::Text(dictionary_name@), SqlView::Integer(now as int)],
        "Failed to add dictionary: "@,
    )
}

/// How a dictionary is added, where it does not take part yet.
pub fn add_pipeline_dictionary(dictionary_name: &str, takes_part: bool, now: i64) -> (r: Option<Step>)
    ensures
        match r {
            Some(s) => !takes_part && s@ == spec_add_pipeline_dictionary(dictionary_name, now),
            None => takes_part,
        },
{
    if takes_part {
        return None;
    }
    let mut params: Vec<SqlValue> = Vec::new();
    params.push(text_value(dictionary_name));
    params.push(SqlValue::Integer(now));
    assert(value_views(params@) =~= seq![
        SqlView::Text(dictionary_name@),
        SqlView::Integer(now as int),
    ]);
    Some(
        leaving(
            "INSERT INTO pipeline_dictionaries (dictionary_name, added_at) VALUES (?, ?)",
            params,
            "Failed to add dictionary: ",
        ),
    )
}

/// The step of [`remove_pipeline_dictionary`].
pub open spec fn spec_remove_pipeline_dictionary(dictionary_name: &str) -> StepView {
    left(
        "DELETE FROM pipeline_dictionaries WHERE dictionary_name = ?"@,
        seq![SqlView::Text(dictionary_name@)],
        "Failed to remove dictionary: "@,
    )
}

/// How a dictionary is taken out.
pub fn remove_pipeline_dictionary(dictionary_name: &str) -> (r: Step)
    ensures
        r@ == spec_remove_pipeline_dictionary(dictionary_name),
{
    leaving(
        "DELETE FROM pipeline_dictionaries WHERE dictionary_name = ?",
        one_text(dictionary_name),
        "Failed to remove dictionary: ",
    )
}

/// The step of [`clear_pipeline_dictionaries`].
pub open spec fn spec_clear_pipeline_dictionaries() -> StepView {
    left(
        "DELETE FROM pipeline_dictionaries"@,
        seq![],
        "Failed to clear dictionaries: "@,
    )
}

/// How all dictionaries are taken out.
pub fn clear_pipeline_dictionaries() -> (r: Step)
    ensures
        r@ == spec_clear_pipeline_dictionaries(),
{
    leaving("DELETE FROM pipeline_dictionaries", no_values(), "Failed to clear dictionaries: ")
}

/// What is known of a detector; its kind is written as a text, and one that cannot be read counts as
/// custom, which is written as none.
#[derive(Debug)]
pub struct DetectorMetadata {
    pub detector_id: String,
    pub name: String,
    pub description: Option<String>,
    pub detector_type: Option<String>,
    pub config_json: Option<String>,
}

pub open spec fn optional_column(s: Option<String>) -> SqlView {
    match s {
        Some(s) => SqlView::Text(s@),
        None => SqlView::Null,
    }
}

fn optional_value(s: &Option<String>) -> (r: SqlValue)
    ensures
        r@ == optional_column(*s),
{
    match s {
        Some(s) => text_value(s.as_str()),
        None => SqlValue::Null,
    }
}

/// The steps of [`add_pipeline_detector`].
pub open spec fn spec_add_pipeline_detector(
    metadata: &DetectorMetadata,
    detector_type: &str,
    now: i64,
) -> Seq<StepView> {
    seq![
        left(
            "DELETE FROM pipeline_detectors WHERE detector_id = ?"@,
            seq![SqlView::Text(metadata.detector_id@)],
            "Failed to delete detector: "@,
        ),
        left(
            "INSERT INTO pipeline_detectors (detector_id, detector_name, description, detector_type, config_json, added_at) VALUES (?, ?, ?, ?, ?, ?)"@,
            seq![
                SqlView::Text(metadata.detector_id@),
                SqlView::Text(metadata.name@),
                optional_column(metadata.description),
                SqlView::Text(detector_type@),
                optional_column(metadata.config_json),
                SqlView::Integer(now as int),
            ],
            "Failed to insert detector: "@,
        ),
    ]
}

/// How a detector is added, in place of one with the same identifier; the text of its kind is given.
pub fn add_pipeline_detector(metadata: &DetectorMetadata, detector_type: &str, now: i64) -> (r: Vec<
    Step,
>)
    ensures
        step_views(r@) == spec_add_pipeline_detector(metadata, detector_type, now),
{
    let mut r: Vec<Step> = Vec::new();
    r.push(
        leaving(
            "DELETE FROM pipeline_detectors WHERE detector_id = ?",
            one_text(metadata.detector_id.as_str()),
            "Failed to delete detector: ",
        ),
    );
    let mut params: Vec<SqlValue> = Vec::new();
    params.push(text_value(metadata.detector_id.as_str()));
    params.push(text_value(metadata.name.as_str()));
    params.push(optional_value(&metadata.description));
    params.push(text_value(detector_type));
    params.push(optional_value(&metadata.config_json));
    params.push(SqlValue::Integer(now));
    assert(value_views(params@) =~= seq![
        SqlView::Text(metadata.detector_id@),
        SqlView::Text(metadata.name@),
        optional_column(metadata.description),
        SqlView::Text(detector_type@),
        optional_column(metadata.config_json),
        SqlView::Integer(now as int),
    ]);
    r.push(
        leaving(
            "INSERT INTO pipeline_detectors (detector_id, detector_name, description, detector_type, config_json, added_at) VALUES (?, ?, ?, ?, ?, ?)",
            params,
            "Failed to insert detector: ",
        ),
    );
    assert(step_views(r@) =~= seq![r@[0]@, r@[1]@]);
    r
}

/// The step of [`remove_pipeline_detector`].
pub open spec fn spec_remove_pipeline_detector(detector_id: &str) -> StepView {
    left(
        "DELETE FROM pipeline_detectors WHERE detector_id = ?"@,
        seq![SqlView::Text(detector_id@)],
        "Failed to remove detector: "@,
    )
}

/// How a detector is taken out.
pub fn remove_pipeline_detector(detector_id: &str) -> (r: Step)
    ensures
        r@ == spec_remove_pipeline_detector(detector_id),
{
    leaving(
        "DELETE FROM pipeline_detectors WHERE detector_id = ?",
        one_text(detector_id),
        "Failed to remove detector: ",
    )
}

/// The step of [`clear_pipeline_detectors`].
pub open spec fn spec_clear_pipeline_detectors() -> StepView {
    left("DELETE FROM pipeline_detectors"@, seq![], "Failed to clear detectors: "@)
}

/// How all detectors are taken out.
pub fn clear_pipeline_detectors() -> (r: Step)
    ensures
        r@ == spec_clear_pipeline_detectors(),
{
    leaving("DELETE FROM pipeline_detectors", no_values(), "Failed to clear detectors: ")
}

/// What is wrong with a result, behind what is said before it.
pub open spec fn told<T>(complaint: Seq<char>, r: Result<T, String>) -> Option<Seq<char>> {
    match r {
        Ok(_) => None,
        Err(e) => Some(database_error(complaint + e@)),
    }
}

/// What is wrong with the columns of a set-up.
pub open spec fn config_error(
    spline: Result<String, String>,
    batch_size: Result<i64, String>,
    method: Result<Spline, String>,
) -> Option<Seq<char>> {
    crate::columns::or(
        told("Failed to get spline: "@, spline),
        crate::columns::or(
            told("Failed to get batch_size: "@, batch_size),
            crate::columns::or(
                told("Failed to deserialize spline: "@, method),
                crate::columns::not_size(
                    SqlView::Integer(batch_size->Ok_0 as int),
                    "Invalid batch size: "@,
                ),
            ),
        ),
    )
}

/// The set-up that its columns hold, or the error; what the text of its method reads as is given.
pub fn load_pipeline_config(
    spline: Result<String, String>,
    batch_size: Result<i64, String>,
    method: Result<Spline, String>,
) -> (r: Result<PipelineConfig, Error>)
    ensures
        match r {
            Ok(c) => {
                &&& config_error(spline, batch_size, method) is None
                &&& method == Ok::<Spline, String>(c.spline_method)
                &&& c.batch_size == batch_size->Ok_0
            },
            Err(e) => e is DatabaseError && crate::columns::tells(
                e,
                config_error(spline, batch_size, method),
            ),
        },
        spline is Ok && method is Ok && batch_size is Ok && 0 <= batch_size->Ok_0 <= usize::MAX
            ==> r is Ok,
{
    match spline {
        Ok(_) => {},
        Err(e) => {
            return Err(Error::DatabaseError(join("Failed to get spline: ", e.as_str())));
        },
    }
    let size: i64 = match batch_size {
        Ok(n) => n,
        Err(e) => {
            return Err(Error::DatabaseError(join("Failed to get batch_size: ", e.as_str())));
        },
    };
    let spline_method = match method {
        Ok(m) => m,
        Err(e) => {
            return Err(Error::DatabaseError(join("Failed to deserialize spline: ", e.as_str())));
        },
    };
    match size_field(size, "Invalid batch size: ") {
        Ok(batch_size) => Ok(PipelineConfig { spline_method, batch_size }),
        Err(e) => Err(e),
    }
}

/// What is wrong with the columns of a state.
pub open spec fn state_error(run_count: Result<i64, String>, version: Result<i64, String>) -> Option<
    Seq<char>,
> {
    crate::columns::or(
        told("Failed to get run_count: "@, run_count),
        told("Failed to get version: "@, version),
    )
}

/// The state that its columns hold, or the error: a last run that is no instant is none, a negative
/// count of runs is none, and a version that does not fit is the current one.
pub fn load_pipeline_state(
    last_run: Option<i64>,
    run_count: Result<i64, String>,
    version: Result<i64, String>,
    current_version: u32,
) -> (r: Result<PipelineState, Error>)
    ensures
        match r {
            Ok(s) => {
                &&& state_error(run_count, version) is None
                &&& s.run_count == if run_count->Ok_0 >= 0 {
                    run_count->Ok_0 as int
                } else {
                    0
                }
                &&& s.version == if 0 <= version->Ok_0 <= u32::MAX {
                    version->Ok_0 as int
                } else {
                    current_version as int
                }
                &&& match s.last_run {
                    Some(t) => t.is_valid() && last_run == Some(t.spec_millis() as i64) && t.total()
                        == t.spec_millis() * 1_000_000,
                    None => last_run matches Some(n) ==> !(MIN_SECONDS <= n as int / 1000
                        <= MAX_SECONDS),
                }
            },
            Err(e) => e is DatabaseError && crate::columns::tells(
                e,
                state_error(run_count, version),
            ),
        },
        forall|written: PipelineState|
            #![trigger state_columns(written)]
            run_count is Ok && version is Ok && run_count->Ok_0 == written.run_count && version->Ok_0
                == written.version && last_run == (match written.last_run {
                Some(t) => Some(t.spec_millis() as i64),
                None => None,
            }) && (written.last_run matches Some(t) ==> t.is_valid()) ==> r is Ok
                && r->Ok_0.run_count == written.run_count && r->Ok_0.version == written.version && (
            match (r->Ok_0.last_run, written.last_run) {
                (Some(t), Some(w)) => t.spec_millis() == w.spec_millis(),
                (None, None) => true,
                _ => false,
            }),
{
    let runs: i64 = match run_count {
        Ok(n) => n,
        Err(e) => {
            return Err(Error::DatabaseError(join("Failed to get run_count: ", e.as_str())));
        },
    };
    let stored: i64 = match version {
        Ok(n) => n,
        Err(e) => {
            return Err(Error::DatabaseError(join("Failed to get version: ", e.as_str())));
        },
    };
    let last_run = match last_run {
        Some(n) => Timestamp::from_millis(n),
        None => None,
    };
    let run_count: u64 = if runs >= 0 {
        runs as u64
    } else {
        0
    };
    let version: u32 = if 0 <= stored && stored <= u32::MAX as i64 {
        stored as u32
    } else {
        current_version
    };
    Ok(PipelineState { last_run, run_count, version })
}

/// The detector that its columns hold, or the error; whether its kind can be read is given.
pub fn load_pipeline_detector(
    id: Result<String, String>,
    name: Result<String, String>,
    description: Option<String>,
    detector_type: Result<String, String>,
    is_known_type: bool,
    config_json: Option<String>,
) -> (r: Result<DetectorMetadata, Error>)
    ensures
        ({
            let wrong = crate::columns::or(
                told("Failed to get id: "@, id),
                crate::columns::or(
                    told("Failed to get name: "@, name),
                    told("Failed to get type: "@, detector_type),
                ),
            );
            match r {
                Ok(d) => {
                    &&& wrong is None
                    &&& id == Ok::<String, String>(d.detector_id)
                    &&& name == Ok::<String, String>(d.name)
                    &&& d.description == description
                    &&& d.detector_type == if is_known_type {
                        Some(detector_type->Ok_0)
                    } else {
                        None
                    }
                    &&& d.config_json == config_json
                },
                Err(e) => e is DatabaseError && crate::columns::tells(e, wrong),
            }
        }),
{
    let detector_id = match id {
        Ok(s) => s,
        Err(e) => {
            return Err(Error::DatabaseError(join("Failed to get id: ", e.as_str())));
        },
    };
    let name = match name {
        Ok(s) => s,
        Err(e) => {
            return Err(Error::DatabaseError(join("Failed to get name: ", e.as_str())));
        },
    };
    let kind = match detector_type {
        Ok(s) => s,
        Err(e) => {
            return Err(Error::DatabaseError(join("Failed to get type: ", e.as_str())));
        },
    };
    let detector_type = if is_known_type {
        Some(kind)
    } else {
        None
    };
    Ok(DetectorMetadata { detector_id, name, description, detector_type, config_json })
}

/// The statement of [`pipeline_config_query`].
pub open spec fn spec_pipeline_config_query() -> StatementView {
    StatementView {
        sql: "SELECT spline_method, batch_size FROM pipeline_config WHERE id = 1"@,
        params: seq![],
    }
}

/// The query for how the data of an aspect is processed.
pub fn pipeline_config_query() -> (r: Statement)
    ensures
        r@ == spec_pipeline_config_query(),
{
    statement("SELECT spline_method, batch_size FROM pipeline_config WHERE id = 1", no_values())
}

/// The statement of [`pipeline_state_query`].
pub open spec fn spec_pipeline_state_query() -> StatementView {
    StatementView {
        sql: "SELECT last_run, run_count, version FROM pipeline_state WHERE id = 1"@,
        params: seq![],
    }
}

/// The query for how far the processing of an aspect has come.
pub fn pipeline_state_query() -> (r: Statement)
    ensures
        r@ == spec_pipeline_state_query(),
{
    statement("SELECT last_run, run_count, version FROM pipeline_state WHERE id = 1", no_values())
}

/// The statement of [`pipeline_dictionaries_query`].
pub open spec fn spec_pipeline_dictionaries_query() -> StatementView {
    StatementView {
        sql: "SELECT dictionary_name FROM pipeline_dictionaries ORDER BY added_at ASC"@,
        params: seq![],
    }
}

/// The query for the dictionaries that take part, in the order in which they were added.
pub fn pipeline_dictionaries_query() -> (r: Statement)
    ensures
        r@ == spec_pipeline_dictionaries_query(),
{
    statement(
        "SELECT dictionary_name FROM pipeline_dictionaries ORDER BY added_at ASC",
        no_values(),
    )
}

/// The statement of [`pipeline_detectors_query`].
pub open spec fn spec_pipeline_detectors_query() -> StatementView {
    StatementView {
        sql: "SELECT detector_id, detector_name, description, detector_type, config_json FROM pipeline_detectors ORDER BY added_at ASC"@,
        params: seq![],
    }
}

/// The query for the detectors, in the order in which they were added.
pub fn pipeline_detectors_query() -> (r: Statement)
    ensures
        r@ == spec_pipeline_detectors_query(),
{
    statement(
        "SELECT detector_id, detector_name, description, detector_type, config_json FROM pipeline_detectors ORDER BY added_at ASC",
        no_values(),
    )
}

/// The statement of [`pipeline_detector_query`].
pub open spec fn spec_pipeline_detector_query(detector_id: &str) -> StatementView {
    StatementView {
        sql: "SELECT detector_id, detector_name, description, detector_type, config_json FROM pipeline_detectors WHERE detector_id = ?"@,
        params: seq![SqlView::Text(detector_id@)],
    }
}

/// The query for a detector.
pub fn pipeline_detector_query(detector_id: &str) -> (r: Statement)
    ensures
        r@ == spec_pipeline_detector_query(detector_id),
{
    statement(
        "SELECT detector_id, detector_name, description, detector_type, config_json FROM pipeline_detectors WHERE detector_id = ?",
        one_text(detector_id),
    )
}

/// The statement of [`pipeline_exists_query`].
pub open spec fn spec_pipeline_exists_query() -> StatementView {
    StatementView {
        sql: "SELECT 1 FROM pipeline_config WHERE id = 1 LIMIT 1"@,
        params: seq![],
    }
}

/// The query for whether it is said how the data of an aspect is processed.
pub fn pipeline_exists_query() -> (r: Statement)
    ensures
        r@ == spec_pipeline_exists_query(),
{
    statement("SELECT 1 FROM pipeline_config WHERE id = 1 LIMIT 1", no_values())
}

}
