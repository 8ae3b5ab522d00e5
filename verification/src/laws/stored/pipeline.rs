//! What the statements on the pipeline read, add, change and take away.
use crate::laws::statements::{
    addition_text,
    change_text,
    columns_text,
    conditions_text,
    is_met,
    listed_text,
    only,
    puts,
    reading_text,
    removal_text,
    settings_text,
    values_put,
    values_taken,
    values_text,
    Conditions,
    Fields,
    Listed,
    Operand,
    Row,
    Sign,
};
use crate::pipeline::{
    optional_column,
    spec_add_pipeline_detector,
    spec_add_pipeline_dictionary,
    spec_clear_pipeline_detectors,
    spec_clear_pipeline_dictionaries,
    spec_delete_pipeline,
    spec_dictionary_query,
    spec_insert_pipeline_config,
    spec_insert_pipeline_state,
    spec_pipeline_config_query,
    spec_pipeline_detector_query,
    spec_pipeline_detectors_query,
    spec_pipeline_dictionaries_query,
    spec_pipeline_exists_query,
    spec_pipeline_state_query,
    spec_remove_pipeline_detector,
    spec_remove_pipeline_dictionary,
    spec_update_pipeline_config,
    spec_update_pipeline_state,
    DetectorMetadata,
    PipelineConfig,
    PipelineState,
};
use crate::sql::SqlView;
use vstd::prelude::*;

verus! {

/// The statement of `update_pipeline_config` puts what is given into `spline_method`, `batch_size`
/// and `updated_at` of exactly those rows of `pipeline_config` that are meant.
pub proof fn law_update_pipeline_config_changes(
    config: &PipelineConfig,
    spline_method: &str,
    now: i64,
    row: Row,
)
    ensures
        ({
            let fields = Fields::Only("spline_method"@, Operand::Given)
                .and("batch_size"@, Operand::Given)
                .and("updated_at"@, Operand::Given);
            let met = Conditions::Always.and_one("id"@);
            let s = spec_update_pipeline_config(config, spline_method, now).statement;
            &&& s.sql == change_text("pipeline_config"@, fields, met)
            &&& s.params.len() == 3
            &&& puts(fields, s.params, "spline_method"@, SqlView::Text(spline_method@))
            &&& puts(fields, s.params, "batch_size"@, SqlView::Integer(config.batch_size as int))
            &&& puts(fields, s.params, "updated_at"@, SqlView::Integer(now as int))
            &&& is_met(met, s.params, 3, row) <==> row["id"@] == SqlView::Integer(1)
        }),
{
    reveal_with_fuel(settings_text, 4);
    reveal_with_fuel(puts, 4);
    reveal_with_fuel(values_put, 4);
    reveal_with_fuel(conditions_text, 3);
    reveal_with_fuel(is_met, 3);
    reveal_with_fuel(values_taken, 3);
    reveal_strlit("");
    reveal_strlit(" = ");
    reveal_strlit(" SET ");
    reveal_strlit(" WHERE ");
    reveal_strlit(", ");
    reveal_strlit("1");
    reveal_strlit("?");
    reveal_strlit("UPDATE ");
    reveal_strlit("UPDATE pipeline_config SET spline_method = ?, batch_size = ?, updated_at = ? WHERE id = 1");
    reveal_strlit("batch_size");
    reveal_strlit("id");
    reveal_strlit("pipeline_config");
    reveal_strlit("spline_method");
    reveal_strlit("updated_at");
    let fields = Fields::Only("spline_method"@, Operand::Given)
        .and("batch_size"@, Operand::Given)
        .and("updated_at"@, Operand::Given);
    let met = Conditions::Always.and_one("id"@);
    let s = spec_update_pipeline_config(config, spline_method, now).statement;
    assert(s.sql =~= change_text("pipeline_config"@, fields, met));
}

/// The statement of `insert_pipeline_config` adds a row to `pipeline_config`, with each value in
/// the column that is meant for it.
pub proof fn law_insert_pipeline_config_adds(config: &PipelineConfig, spline_method: &str, now: i64)
    ensures
        ({
            let fields = Fields::Only("id"@, Operand::One)
                .and("spline_method"@, Operand::Given)
                .and("batch_size"@, Operand::Given)
                .and("created_at"@, Operand::Given)
                .and("updated_at"@, Operand::Given);
            let s = spec_insert_pipeline_config(config, spline_method, now).statement;
            &&& s.sql == addition_text("INSERT INTO "@, "pipeline_config"@, fields)
            &&& s.params.len() == 4
            &&& puts(fields, s.params, "id"@, SqlView::Integer(1))
            &&& puts(fields, s.params, "spline_method"@, SqlView::Text(spline_method@))
            &&& puts(fields, s.params, "batch_size"@, SqlView::Integer(config.batch_size as int))
            &&& puts(fields, s.params, "created_at"@, SqlView::Integer(now as int))
            &&& puts(fields, s.params, "updated_at"@, SqlView::Integer(now as int))
        }),
{
    reveal_with_fuel(columns_text, 6);
    reveal_with_fuel(values_text, 6);
    reveal_with_fuel(puts, 6);
    reveal_with_fuel(values_put, 6);
    reveal_strlit(" (");
    reveal_strlit(")");
    reveal_strlit(") VALUES (");
    reveal_strlit(", ");
    reveal_strlit("1");
    reveal_strlit("?");
    reveal_strlit("INSERT INTO ");
    reveal_strlit("INSERT INTO pipeline_config (id, spline_method, batch_size, created_at, updated_at) VALUES (1, ?, ?, ?, ?)");
    reveal_strlit("batch_size");
    reveal_strlit("created_at");
    reveal_strlit("id");
    reveal_strlit("pipeline_config");
    reveal_strlit("spline_method");
    reveal_strlit("updated_at");
    let fields = Fields::Only("id"@, Operand::One)
        .and("spline_method"@, Operand::Given)
        .and("batch_size"@, Operand::Given)
        .and("created_at"@, Operand::Given)
        .and("updated_at"@, Operand::Given);
    let s = spec_insert_pipeline_config(config, spline_method, now).statement;
    assert(s.sql =~= addition_text("INSERT INTO "@, "pipeline_config"@, fields));
}

/// The statement of `update_pipeline_state` puts what is given into `last_run`, `run_count` and
/// `version` of exactly those rows of `pipeline_state` that are meant.
pub proof fn law_update_pipeline_state_changes(state: &PipelineState, row: Row)
    ensures
        ({
            let fields = Fields::Only("last_run"@, Operand::Given)
                .and("run_count"@, Operand::Given)
                .and("version"@, Operand::Given);
            let met = Conditions::Always.and_one("id"@);
            let s = spec_update_pipeline_state(state).statement;
            &&& s.sql == change_text("pipeline_state"@, fields, met)
            &&& s.params.len() == 3
            &&& puts(fields, s.params, "last_run"@, match state.last_run { Some(t) => SqlView::Integer(t.spec_millis()), None => SqlView::Null, })
            &&& puts(fields, s.params, "run_count"@, SqlView::Integer(state.run_count as int))
            &&& puts(fields, s.params, "version"@, SqlView::Integer(state.version as int))
            &&& is_met(met, s.params, 3, row) <==> row["id"@] == SqlView::Integer(1)
        }),
{
    reveal_with_fuel(settings_text, 4);
    reveal_with_fuel(puts, 4);
    reveal_with_fuel(values_put, 4);
    reveal_with_fuel(conditions_text, 3);
    reveal_with_fuel(is_met, 3);
    reveal_with_fuel(values_taken, 3);
    reveal_strlit("");
    reveal_strlit(" = ");
    reveal_strlit(" SET ");
    reveal_strlit(" WHERE ");
    reveal_strlit(", ");
    reveal_strlit("1");
    reveal_strlit("?");
    reveal_strlit("UPDATE ");
    reveal_strlit("UPDATE pipeline_state SET last_run = ?, run_count = ?, version = ? WHERE id = 1");
    reveal_strlit("id");
    reveal_strlit("last_run");
    reveal_strlit("pipeline_state");
    reveal_strlit("run_count");
    reveal_strlit("version");
    let fields = Fields::Only("last_run"@, Operand::Given)
        .and("run_count"@, Operand::Given)
        .and("version"@, Operand::Given);
    let met = Conditions::Always.and_one("id"@);
    let s = spec_update_pipeline_state(state).statement;
    assert(s.sql =~= change_text("pipeline_state"@, fields, met));
}

/// The statement of `insert_pipeline_state` adds a row to `pipeline_state`, with each value in the
/// column that is meant for it.
pub proof fn law_insert_pipeline_state_adds(state: &PipelineState)
    ensures
        ({
            let fields = Fields::Only("id"@, Operand::One)
                .and("last_run"@, Operand::Given)
                .and("run_count"@, Operand::Given)
                .and("version"@, Operand::Given);
            let s = spec_insert_pipeline_state(state).statement;
            &&& s.sql == addition_text("INSERT INTO "@, "pipeline_state"@, fields)
            &&& s.params.len() == 3
            &&& puts(fields, s.params, "id"@, SqlView::Integer(1))
            &&& puts(fields, s.params, "last_run"@, match state.last_run { Some(t) => SqlView::Integer(t.spec_millis()), None => SqlView::Null, })
            &&& puts(fields, s.params, "run_count"@, SqlView::Integer(state.run_count as int))
            &&& puts(fields, s.params, "version"@, SqlView::Integer(state.version as int))
        }),
{
    reveal_with_fuel(columns_text, 5);
    reveal_with_fuel(values_text, 5);
    reveal_with_fuel(puts, 5);
    reveal_with_fuel(values_put, 5);
    reveal_strlit(" (");
    reveal_strlit(")");
    reveal_strlit(") VALUES (");
    reveal_strlit(", ");
    reveal_strlit("1");
    reveal_strlit("?");
    reveal_strlit("INSERT INTO ");
    reveal_strlit("INSERT INTO pipeline_state (id, last_run, run_count, version) VALUES (1, ?, ?, ?)");
    reveal_strlit("id");
    reveal_strlit("last_run");
    reveal_strlit("pipeline_state");
    reveal_strlit("run_count");
    reveal_strlit("version");
    let fields = Fields::Only("id"@, Operand::One)
        .and("last_run"@, Operand::Given)
        .and("run_count"@, Operand::Given)
        .and("version"@, Operand::Given);
    let s = spec_insert_pipeline_state(state).statement;
    assert(s.sql =~= addition_text("INSERT INTO "@, "pipeline_state"@, fields));
}

/// The first step of `delete_pipeline` takes exactly those rows of `pipeline_config` away that are
/// meant.
pub proof fn law_delete_pipeline_removes_first(row: Row)
    ensures
        ({
            let met = Conditions::Always.and_one("id"@);
            let s = spec_delete_pipeline()[0].statement;
            &&& s.sql == removal_text("pipeline_config"@, met)
            &&& s.params.len() == 0
            &&& is_met(met, s.params, 0, row) <==> row["id"@] == SqlView::Integer(1)
        }),
{
    reveal_with_fuel(conditions_text, 3);
    reveal_with_fuel(is_met, 3);
    reveal_with_fuel(values_taken, 3);
    reveal_strlit("");
    reveal_strlit(" = ");
    reveal_strlit(" WHERE ");
    reveal_strlit("1");
    reveal_strlit("DELETE FROM ");
    reveal_strlit("DELETE FROM pipeline_config WHERE id = 1");
    reveal_strlit("id");
    reveal_strlit("pipeline_config");
    let met = Conditions::Always.and_one("id"@);
    let s = spec_delete_pipeline()[0].statement;
    assert(s.sql =~= removal_text("pipeline_config"@, met));
}

/// The second step of `delete_pipeline` takes exactly those rows of `pipeline_state` away that are
/// meant.
pub proof fn law_delete_pipeline_removes_second(row: Row)
    ensures
        ({
            let met = Conditions::Always.and_one("id"@);
            let s = spec_delete_pipeline()[1].statement;
            &&& s.sql == removal_text("pipeline_state"@, met)
            &&& s.params.len() == 0
            &&& is_met(met, s.params, 0, row) <==> row["id"@] == SqlView::Integer(1)
        }),
{
    reveal_with_fuel(conditions_text, 3);
    reveal_with_fuel(is_met, 3);
    reveal_with_fuel(values_taken, 3);
    reveal_strlit("");
    reveal_strlit(" = ");
    reveal_strlit(" WHERE ");
    reveal_strlit("1");
    reveal_strlit("DELETE FROM ");
    reveal_strlit("DELETE FROM pipeline_state WHERE id = 1");
    reveal_strlit("id");
    reveal_strlit("pipeline_state");
    let met = Conditions::Always.and_one("id"@);
    let s = spec_delete_pipeline()[1].statement;
    assert(s.sql =~= removal_text("pipeline_state"@, met));
}

/// The third step of `delete_pipeline` takes every row of `pipeline_dictionaries` away.
pub proof fn law_delete_pipeline_removes_third()
    ensures
        ({
            let met = Conditions::Always;
            let s = spec_delete_pipeline()[2].statement;
            &&& s.sql == removal_text("pipeline_dictionaries"@, met)
            &&& s.params.len() == 0
        }),
{
    reveal_with_fuel(conditions_text, 2);
    reveal_strlit("");
    reveal_strlit("DELETE FROM ");
    reveal_strlit("DELETE FROM pipeline_dictionaries");
    reveal_strlit("pipeline_dictionaries");
    let met = Conditions::Always;
    let s = spec_delete_pipeline()[2].statement;
    assert(s.sql =~= removal_text("pipeline_dictionaries"@, met));
}

/// The fourth step of `delete_pipeline` takes every row of `pipeline_detectors` away.
pub proof fn law_delete_pipeline_removes_fourth()
    ensures
        ({
            let met = Conditions::Always;
            let s = spec_delete_pipeline()[3].statement;
            &&& s.sql == removal_text("pipeline_detectors"@, met)
            &&& s.params.len() == 0
        }),
{
    reveal_with_fuel(conditions_text, 2);
    reveal_strlit("");
    reveal_strlit("DELETE FROM ");
    reveal_strlit("DELETE FROM pipeline_detectors");
    reveal_strlit("pipeline_detectors");
    let met = Conditions::Always;
    let s = spec_delete_pipeline()[3].statement;
    assert(s.sql =~= removal_text("pipeline_detectors"@, met));
}

/// The statement of `dictionary_query` reads `1` of exactly those rows of `pipeline_dictionaries`
/// that are asked for, and no more than one.
pub proof fn law_dictionary_query_reads(dictionary_name: &str, row: Row)
    ensures
        ({
            let met = only("dictionary_name"@, Sign::Is);
            let columns = Listed::Only("1"@);
            let s = spec_dictionary_query(dictionary_name);
            &&& s.sql == reading_text(columns, "pipeline_dictionaries"@, met) + " LIMIT 1"@
            &&& s.params.len() == 1
            &&& is_met(met, s.params, 0, row) <==> row["dictionary_name"@] == SqlView::Text(dictionary_name@)
        }),
{
    reveal_with_fuel(listed_text, 2);
    reveal_with_fuel(conditions_text, 3);
    reveal_with_fuel(is_met, 3);
    reveal_with_fuel(values_taken, 3);
    reveal_strlit("");
    reveal_strlit(" = ");
    reveal_strlit(" FROM ");
    reveal_strlit(" LIMIT 1");
    reveal_strlit(" WHERE ");
    reveal_strlit("1");
    reveal_strlit("?");
    reveal_strlit("SELECT ");
    reveal_strlit("SELECT 1 FROM pipeline_dictionaries WHERE dictionary_name = ? LIMIT 1");
    reveal_strlit("dictionary_name");
    reveal_strlit("pipeline_dictionaries");
    let met = only("dictionary_name"@, Sign::Is);
    let columns = Listed::Only("1"@);
    let s = spec_dictionary_query(dictionary_name);
    assert(s.sql =~= reading_text(columns, "pipeline_dictionaries"@, met) + " LIMIT 1"@);
}

/// The statement of `add_pipeline_dictionary` adds a row to `pipeline_dictionaries`, with each
/// value in the column that is meant for it.
pub proof fn law_add_pipeline_dictionary_adds(dictionary_name: &str, now: i64)
    ensures
        ({
            let fields = Fields::Only("dictionary_name"@, Operand::Given).and("added_at"@, Operand::Given);
            let s = spec_add_pipeline_dictionary(dictionary_name, now).statement;
            &&& s.sql == addition_text("INSERT INTO "@, "pipeline_dictionaries"@, fields)
            &&& s.params.len() == 2
            &&& puts(fields, s.params, "dictionary_name"@, SqlView::Text(dictionary_name@))
            &&& puts(fields, s.params, "added_at"@, SqlView::Integer(now as int))
        }),
{
    reveal_with_fuel(columns_text, 3);
    reveal_with_fuel(values_text, 3);
    reveal_with_fuel(puts, 3);
    reveal_with_fuel(values_put, 3);
    reveal_strlit(" (");
    reveal_strlit(")");
    reveal_strlit(") VALUES (");
    reveal_strlit(", ");
    reveal_strlit("?");
    reveal_strlit("INSERT INTO ");
    reveal_strlit("INSERT INTO pipeline_dictionaries (dictionary_name, added_at) VALUES (?, ?)");
    reveal_strlit("added_at");
    reveal_strlit("dictionary_name");
    reveal_strlit("pipeline_dictionaries");
    let fields = Fields::Only("dictionary_name"@, Operand::Given).and("added_at"@, Operand::Given);
    let s = spec_add_pipeline_dictionary(dictionary_name, now).statement;
    assert(s.sql =~= addition_text("INSERT INTO "@, "pipeline_dictionaries"@, fields));
}

/// The statement of `remove_pipeline_dictionary` takes exactly those rows of
/// `pipeline_dictionaries` away that are meant.
pub proof fn law_remove_pipeline_dictionary_removes(dictionary_name: &str, row: Row)
    ensures
        ({
            let met = only("dictionary_name"@, Sign::Is);
            let s = spec_remove_pipeline_dictionary(dictionary_name).statement;
            &&& s.sql == removal_text("pipeline_dictionaries"@, met)
            &&& s.params.len() == 1
            &&& is_met(met, s.params, 0, row) <==> row["dictionary_name"@] == SqlView::Text(dictionary_name@)
        }),
{
    reveal_with_fuel(conditions_text, 3);
    reveal_with_fuel(is_met, 3);
    reveal_with_fuel(values_taken, 3);
    reveal_strlit("");
    reveal_strlit(" = ");
    reveal_strlit(" WHERE ");
    reveal_strlit("?");
    reveal_strlit("DELETE FROM ");
    reveal_strlit("DELETE FROM pipeline_dictionaries WHERE dictionary_name = ?");
    reveal_strlit("dictionary_name");
    reveal_strlit("pipeline_dictionaries");
    let met = only("dictionary_name"@, Sign::Is);
    let s = spec_remove_pipeline_dictionary(dictionary_name).statement;
    assert(s.sql =~= removal_text("pipeline_dictionaries"@, met));
}

/// The statement of `clear_pipeline_dictionaries` takes every row of `pipeline_dictionaries` away.
pub proof fn law_clear_pipeline_dictionaries_removes()
    ensures
        ({
            let met = Conditions::Always;
            let s = spec_clear_pipeline_dictionaries().statement;
            &&& s.sql == removal_text("pipeline_dictionaries"@, met)
            &&& s.params.len() == 0
        }),
{
    reveal_with_fuel(conditions_text, 2);
    reveal_strlit("");
    reveal_strlit("DELETE FROM ");
    reveal_strlit("DELETE FROM pipeline_dictionaries");
    reveal_strlit("pipeline_dictionaries");
    let met = Conditions::Always;
    let s = spec_clear_pipeline_dictionaries().statement;
    assert(s.sql =~= removal_text("pipeline_dictionaries"@, met));
}

/// The first step of `add_pipeline_detector` takes exactly those rows of `pipeline_detectors` away
/// that are meant.
pub proof fn law_add_pipeline_detector_removes_first(
    metadata: &DetectorMetadata,
    detector_type: &str,
    now: i64,
    row: Row,
)
    ensures
        ({
            let met = only("detector_id"@, Sign::Is);
            let s = spec_add_pipeline_detector(metadata, detector_type, now)[0].statement;
            &&& s.sql == removal_text("pipeline_detectors"@, met)
            &&& s.params.len() == 1
            &&& is_met(met, s.params, 0, row) <==> row["detector_id"@] == SqlView::Text(metadata.detector_id@)
        }),
{
    reveal_with_fuel(conditions_text, 3);
    reveal_with_fuel(is_met, 3);
    reveal_with_fuel(values_taken, 3);
    reveal_strlit("");
    reveal_strlit(" = ");
    reveal_strlit(" WHERE ");
    reveal_strlit("?");
    reveal_strlit("DELETE FROM ");
    reveal_strlit("DELETE FROM pipeline_detectors WHERE detector_id = ?");
    reveal_strlit("detector_id");
    reveal_strlit("pipeline_detectors");
    let met = only("detector_id"@, Sign::Is);
    let s = spec_add_pipeline_detector(metadata, detector_type, now)[0].statement;
    assert(s.sql =~= removal_text("pipeline_detectors"@, met));
}

/// The second step of `add_pipeline_detector` adds a row to `pipeline_detectors`, with each value
/// in the column that is meant for it.
pub proof fn law_add_pipeline_detector_adds_second(
    metadata: &DetectorMetadata,
    detector_type: &str,
    now: i64,
)
    ensures
        ({
            let fields = Fields::Only("detector_id"@, Operand::Given)
                .and("detector_name"@, Operand::Given)
                .and("description"@, Operand::Given)
                .and("detector_type"@, Operand::Given)
                .and("config_json"@, Operand::Given)
                .and("added_at"@, Operand::Given);
            let s = spec_add_pipeline_detector(metadata, detector_type, now)[1].statement;
            &&& s.sql == addition_text("INSERT INTO "@, "pipeline_detectors"@, fields)
            &&& s.params.len() == 6
            &&& puts(fields, s.params, "detector_id"@, SqlView::Text(metadata.detector_id@))
            &&& puts(fields, s.params, "detector_name"@, SqlView::Text(metadata.name@))
            &&& puts(fields, s.params, "description"@, optional_column(metadata.description))
            &&& puts(fields, s.params, "detector_type"@, SqlView::Text(detector_type@))
            &&& puts(fields, s.params, "config_json"@, optional_column(metadata.config_json))
            &&& puts(fields, s.params, "added_at"@, SqlView::Integer(now as int))
        }),
{
    reveal_with_fuel(columns_text, 7);
    reveal_with_fuel(values_text, 7);
    reveal_with_fuel(puts, 7);
    reveal_with_fuel(values_put, 7);
    reveal_strlit(" (");
    reveal_strlit(")");
    reveal_strlit(") VALUES (");
    reveal_strlit(", ");
    reveal_strlit("?");
    reveal_strlit("INSERT INTO ");
    reveal_strlit("INSERT INTO pipeline_detectors (detector_id, detector_name, description, detector_type, config_json, added_at) VALUES (?, ?, ?, ?, ?, ?)");
    reveal_strlit("added_at");
    reveal_strlit("config_json");
    reveal_strlit("description");
    reveal_strlit("detector_id");
    reveal_strlit("detector_name");
    reveal_strlit("detector_type");
    reveal_strlit("pipeline_detectors");
    let fields = Fields::Only("detector_id"@, Operand::Given)
        .and("detector_name"@, Operand::Given)
        .and("description"@, Operand::Given)
        .and("detector_type"@, Operand::Given)
        .and("config_json"@, Operand::Given)
        .and("added_at"@, Operand::Given);
    let s = spec_add_pipeline_detector(metadata, detector_type, now)[1].statement;
    assert(s.sql =~= addition_text("INSERT INTO "@, "pipeline_detectors"@, fields));
}

/// The statement of `remove_pipeline_detector` takes exactly those rows of `pipeline_detectors`
/// away that are meant.
pub proof fn law_remove_pipeline_detector_removes(detector_id: &str, row: Row)
    ensures
        ({
            let met = only("detector_id"@, Sign::Is);
            let s = spec_remove_pipeline_detector(detector_id).statement;
            &&& s.sql == removal_text("pipeline_detectors"@, met)
            &&& s.params.len() == 1
            &&& is_met(met, s.params, 0, row) <==> row["detector_id"@] == SqlView::Text(detector_id@)
        }),
{
    reveal_with_fuel(conditions_text, 3);
    reveal_with_fuel(is_met, 3);
    reveal_with_fuel(values_taken, 3);
    reveal_strlit("");
    reveal_strlit(" = ");
    reveal_strlit(" WHERE ");
    reveal_strlit("?");
    reveal_strlit("DELETE FROM ");
    reveal_strlit("DELETE FROM pipeline_detectors WHERE detector_id = ?");
    reveal_strlit("detector_id");
    reveal_strlit("pipeline_detectors");
    let met = only("detector_id"@, Sign::Is);
    let s = spec_remove_pipeline_detector(detector_id).statement;
    assert(s.sql =~= removal_text("pipeline_detectors"@, met));
}

/// The statement of `clear_pipeline_detectors` takes every row of `pipeline_detectors` away.
pub proof fn law_clear_pipeline_detectors_removes()
    ensures
        ({
            let met = Conditions::Always;
            let s = spec_clear_pipeline_detectors().statement;
            &&& s.sql == removal_text("pipeline_detectors"@, met)
            &&& s.params.len() == 0
        }),
{
    reveal_with_fuel(conditions_text, 2);
    reveal_strlit("");
    reveal_strlit("DELETE FROM ");
    reveal_strlit("DELETE FROM pipeline_detectors");
    reveal_strlit("pipeline_detectors");
    let met = Conditions::Always;
    let s = spec_clear_pipeline_detectors().statement;
    assert(s.sql =~= removal_text("pipeline_detectors"@, met));
}

/// The statement of `pipeline_config_query` reads `spline_method` and `batch_size` of exactly those
/// rows of `pipeline_config` that are asked for.
pub proof fn law_pipeline_config_query_reads(row: Row)
    ensures
        ({
            let met = Conditions::Always.and_one("id"@);
            let columns = Listed::Only("spline_method"@).and("batch_size"@);
            let s = spec_pipeline_config_query();
            &&& s.sql == reading_text(columns, "pipeline_config"@, met)
            &&& s.params.len() == 0
            &&& is_met(met, s.params, 0, row) <==> row["id"@] == SqlView::Integer(1)
        }),
{
    reveal_with_fuel(listed_text, 3);
    reveal_with_fuel(conditions_text, 3);
    reveal_with_fuel(is_met, 3);
    reveal_with_fuel(values_taken, 3);
    reveal_strlit("");
    reveal_strlit(" = ");
    reveal_strlit(" FROM ");
    reveal_strlit(" WHERE ");
    reveal_strlit(", ");
    reveal_strlit("1");
    reveal_strlit("SELECT ");
    reveal_strlit("SELECT spline_method, batch_size FROM pipeline_config WHERE id = 1");
    reveal_strlit("batch_size");
    reveal_strlit("id");
    reveal_strlit("pipeline_config");
    reveal_strlit("spline_method");
    let met = Conditions::Always.and_one("id"@);
    let columns = Listed::Only("spline_method"@).and("batch_size"@);
    let s = spec_pipeline_config_query();
    assert(s.sql =~= reading_text(columns, "pipeline_config"@, met));
}

/// The statement of `pipeline_state_query` reads `last_run`, `run_count` and `version` of exactly
/// those rows of `pipeline_state` that are asked for.
pub proof fn law_pipeline_state_query_reads(row: Row)
    ensures
        ({
            let met = Conditions::Always.and_one("id"@);
            let columns = Listed::Only("last_run"@).and("run_count"@).and("version"@);
            let s = spec_pipeline_state_query();
            &&& s.sql == reading_text(columns, "pipeline_state"@, met)
            &&& s.params.len() == 0
            &&& is_met(met, s.params, 0, row) <==> row["id"@] == SqlView::Integer(1)
        }),
{
    reveal_with_fuel(listed_text, 4);
    reveal_with_fuel(conditions_text, 3);
    reveal_with_fuel(is_met, 3);
    reveal_with_fuel(values_taken, 3);
    reveal_strlit("");
    reveal_strlit(" = ");
    reveal_strlit(" FROM ");
    reveal_strlit(" WHERE ");
    reveal_strlit(", ");
    reveal_strlit("1");
    reveal_strlit("SELECT ");
    reveal_strlit("SELECT last_run, run_count, version FROM pipeline_state WHERE id = 1");
    reveal_strlit("id");
    reveal_strlit("last_run");
    reveal_strlit("pipeline_state");
    reveal_strlit("run_count");
    reveal_strlit("version");
    let met = Conditions::Always.and_one("id"@);
    let columns = Listed::Only("last_run"@).and("run_count"@).and("version"@);
    let s = spec_pipeline_state_query();
    assert(s.sql =~= reading_text(columns, "pipeline_state"@, met));
}

/// The statement of `pipeline_dictionaries_query` reads `dictionary_name` of every row of
/// `pipeline_dictionaries`, the first by `added_at` first.
pub proof fn law_pipeline_dictionaries_query_reads()
    ensures
        ({
            let met = Conditions::Always;
            let columns = Listed::Only("dictionary_name"@);
            let s = spec_pipeline_dictionaries_query();
            &&& s.sql == reading_text(columns, "pipeline_dictionaries"@, met) + " ORDER BY added_at ASC"@
            &&& s.params.len() == 0
        }),
{
    reveal_with_fuel(listed_text, 2);
    reveal_with_fuel(conditions_text, 2);
    reveal_strlit("");
    reveal_strlit(" FROM ");
    reveal_strlit(" ORDER BY added_at ASC");
    reveal_strlit("SELECT ");
    reveal_strlit("SELECT dictionary_name FROM pipeline_dictionaries ORDER BY added_at ASC");
    reveal_strlit("dictionary_name");
    reveal_strlit("pipeline_dictionaries");
    let met = Conditions::Always;
    let columns = Listed::Only("dictionary_name"@);
    let s = spec_pipeline_dictionaries_query();
    assert(s.sql =~= reading_text(columns, "pipeline_dictionaries"@, met) + " ORDER BY added_at ASC"@);
}

/// The statement of `pipeline_detectors_query` reads `detector_id`, `detector_name`, `description`,
/// `detector_type` and `config_json` of every row of `pipeline_detectors`, the first by `added_at`
/// first.
pub proof fn law_pipeline_detectors_query_reads()
    ensures
        ({
            let met = Conditions::Always;
            let columns = Listed::Only("detector_id"@)
                .and("detector_name"@)
                .and("description"@)
                .and("detector_type"@)
                .and("config_json"@);
            let s = spec_pipeline_detectors_query();
            &&& s.sql == reading_text(columns, "pipeline_detectors"@, met) + " ORDER BY added_at ASC"@
            &&& s.params.len() == 0
        }),
{
    reveal_with_fuel(listed_text, 6);
    reveal_with_fuel(conditions_text, 2);
    reveal_strlit("");
    reveal_strlit(" FROM ");
    reveal_strlit(" ORDER BY added_at ASC");
    reveal_strlit(", ");
    reveal_strlit("SELECT ");
    reveal_strlit("SELECT detector_id, detector_name, description, detector_type, config_json FROM pipeline_detectors ORDER BY added_at ASC");
    reveal_strlit("config_json");
    reveal_strlit("description");
    reveal_strlit("detector_id");
    reveal_strlit("detector_name");
    reveal_strlit("detector_type");
    reveal_strlit("pipeline_detectors");
    let met = Conditions::Always;
    let columns = Listed::Only("detector_id"@)
        .and("detector_name"@)
        .and("description"@)
        .and("detector_type"@)
        .and("config_json"@);
    let s = spec_pipeline_detectors_query();
    assert(s.sql =~= reading_text(columns, "pipeline_detectors"@, met) + " ORDER BY added_at ASC"@);
}

/// The statement of `pipeline_detector_query` reads `detector_id`, `detector_name`, `description`,
/// `detector_type` and `config_json` of exactly those rows of `pipeline_detectors` that are asked
/// for.
pub proof fn law_pipeline_detector_query_reads(detector_id: &str, row: Row)
    ensures
        ({
            let met = only("detector_id"@, Sign::Is);
            let columns = Listed::Only("detector_id"@)
                .and("detector_name"@)
                .and("description"@)
                .and("detector_type"@)
                .and("config_json"@);
            let s = spec_pipeline_detector_query(detector_id);
            &&& s.sql == reading_text(columns, "pipeline_detectors"@, met)
            &&& s.params.len() == 1
            &&& is_met(met, s.params, 0, row) <==> row["detector_id"@] == SqlView::Text(detector_id@)
        }),
{
    reveal_with_fuel(listed_text, 6);
    reveal_with_fuel(conditions_text, 3);
    reveal_with_fuel(is_met, 3);
    reveal_with_fuel(values_taken, 3);
    reveal_strlit("");
    reveal_strlit(" = ");
    reveal_strlit(" FROM ");
    reveal_strlit(" WHERE ");
    reveal_strlit(", ");
    reveal_strlit("?");
    reveal_strlit("SELECT ");
    reveal_strlit("SELECT detector_id, detector_name, description, detector_type, config_json FROM pipeline_detectors WHERE detector_id = ?");
    reveal_strlit("config_json");
    reveal_strlit("description");
    reveal_strlit("detector_id");
    reveal_strlit("detector_name");
    reveal_strlit("detector_type");
    reveal_strlit("pipeline_detectors");
    let met = only("detector_id"@, Sign::Is);
    let columns = Listed::Only("detector_id"@)
        .and("detector_name"@)
        .and("description"@)
        .and("detector_type"@)
        .and("config_json"@);
    let s = spec_pipeline_detector_query(detector_id);
    assert(s.sql =~= reading_text(columns, "pipeline_detectors"@, met));
}

/// The statement of `pipeline_exists_query` reads `1` of exactly those rows of `pipeline_config`
/// that are asked for, and no more than one.
pub proof fn law_pipeline_exists_query_reads(row: Row)
    ensures
        ({
            let met = Conditions::Always.and_one("id"@);
            let columns = Listed::Only("1"@);
            let s = spec_pipeline_exists_query();
            &&& s.sql == reading_text(columns, "pipeline_config"@, met) + " LIMIT 1"@
            &&& s.params.len() == 0
            &&& is_met(met, s.params, 0, row) <==> row["id"@] == SqlView::Integer(1)
        }),
{
    reveal_with_fuel(listed_text, 2);
    reveal_with_fuel(conditions_text, 3);
    reveal_with_fuel(is_met, 3);
    reveal_with_fuel(values_taken, 3);
    reveal_strlit("");
    reveal_strlit(" = ");
    reveal_strlit(" FROM ");
    reveal_strlit(" LIMIT 1");
    reveal_strlit(" WHERE ");
    reveal_strlit("1");
    reveal_strlit("SELECT ");
    reveal_strlit("SELECT 1 FROM pipeline_config WHERE id = 1 LIMIT 1");
    reveal_strlit("id");
    reveal_strlit("pipeline_config");
    let met = Conditions::Always.and_one("id"@);
    let columns = Listed::Only("1"@);
    let s = spec_pipeline_exists_query();
    assert(s.sql =~= reading_text(columns, "pipeline_config"@, met) + " LIMIT 1"@);
}

}
