//! Correlations: how they are written, replaced, taken out and read.
use crate::columns::{
    any_text_column,
    bad_json,
    bad_uuid,
    decimal_field,
    i64_of_usize,
    named_resolution,
    no_text,
    not_decimal,
    not_resolution,
    not_text,
    not_uuid,
    optional_text_column,
    or,
    plain_uuid,
    refusal,
    resolution_field,
    tells,
    text_in,
    uuid_field,
};
use crate::correlation::{
    error_rates,
    is_first_bad_key,
    rates_of,
    signal_key,
    signal_name,
    Correlation,
    Distance,
    DistanceView,
    ErrorRates,
    KeyedRate,
    SignalType,
};
use crate::decimal::{decimal_parse, decimal_text, DecimalView};
use crate::error::{failure, Error};
use crate::ids::{
    uuid_parse,
    uuid_text,
    AspectId,
    CorrelationID,
    DictionaryId,
    EventID,
    PatternID,
    SubjectId,
};
use crate::names::name_views;
use crate::pattern::{occurrence_views, Occurrence, OccurrenceView};
use crate::queue::one_id;
use crate::sql::{
    no_values,
    statement,
    text_column,
    text_value,
    value_views,
    SqlValue,
    SqlView,
    Statement,
    StatementView,
};
use crate::store::occurrences::{
    all_timed,
    correlated_row,
    first_unfit,
    lemma_not_before,
    unfit_message,
    PlacedOccurrence,
};
use crate::table::{Entry, Table};
use crate::text::join;
use crate::transaction::{
    rolled_back,
    rolling_back,
    step_views,
    Action,
    ActionView,
    Script,
    ScriptView,
    Step,
    StepView,
};
use vstd::prelude::*;

verus! {

/// The columns of an average distance.
pub open spec fn distance_columns(d: Option<Distance>) -> Seq<SqlView> {
    match d {
        Some(d) => seq![
            SqlView::Text(decimal_text(d.value@.mantissa, d.value@.scale)),
            SqlView::Text(d.units.spec_text()),
        ],
        None => seq![SqlView::Null, SqlView::Null],
    }
}

/// The columns that refer to what a correlation is about.
pub open spec fn reference_columns(c: Correlation) -> Seq<SqlView> {
    seq![
        SqlView::Text(uuid_text(c.dictionary_id.value)),
        SqlView::Text(uuid_text(c.subject_id.value)),
        SqlView::Text(uuid_text(c.aspect_id.value)),
        SqlView::Text(uuid_text(c.pattern_id.value)),
        SqlView::Text(uuid_text(c.event_id.value)),
    ]
}

/// The columns of a correlation in which it is read back.
pub open spec fn correlation_columns(c: Correlation) -> Seq<SqlView> {
    seq![SqlView::Text(uuid_text(c.id.value))] + reference_columns(c) + distance_columns(
        c.average_distance,
    )
}

/// Whether the numbers of a correlation can be written.
pub open spec fn is_writable(c: Correlation) -> bool {
    &&& c.average_distance matches Some(d) ==> d.value@.is_operand()
    &&& all_timed(occurrence_views(c.occurrences@))
    &&& forall|i: int|
        0 <= i < c.error_rate.entries@.len() ==> (
        #[trigger] c.error_rate.entries@[i]).value.value@.is_operand()
}

/// The step that writes a rate of a correlation.
pub open spec fn rate_step(correlation: u128, entry: Entry<String, Distance>) -> StepView {
    rolled_back(
        "INSERT INTO correlation_error_rates (correlation_id, signal_type, error_rate_value, error_rate_units) VALUES (?, ?, ?, ?)"@,
        seq![SqlView::Text(uuid_text(correlation))] + rate_columns(entry),
        "Failed to insert correlation error rate: "@,
    )
}

/// The columns of a rate in which it is read back.
pub open spec fn rate_columns(entry: Entry<String, Distance>) -> Seq<SqlView> {
    seq![
        SqlView::Text(signal_key(entry.key@)),
        SqlView::Text(decimal_text(entry.value.value@.mantissa, entry.value.value@.scale)),
        SqlView::Text(entry.value.units.spec_text()),
    ]
}

/// The steps that write the rates of a correlation.
pub open spec fn rate_steps(c: Correlation) -> Seq<StepView> {
    Seq::new(c.error_rate.entries@.len(), |i: int| rate_step(c.id.value, c.error_rate.entries@[i]))
}

/// The step that writes a stretch of a correlation.
pub open spec fn stretch_step(
    correlation: u128,
    index: int,
    o: OccurrenceView,
    info: Seq<char>,
) -> StepView {
    rolled_back(
        "INSERT INTO correlation_occurrences (correlation_id, occurrence_index, aspect_id, resolution, size, database_info, pattern_id, beginning_timestamp, end_timestamp) VALUES (?, ?, ?, ?, ?, ?, ?, ?, ?)"@,
        correlated_row(correlation, index, o, info),
        "Failed to insert correlation occurrence: "@,
    )
}

/// The steps that write the stretches of a correlation, up to the first that does not fit.
pub open spec fn stretch_steps(c: Correlation, infos: Seq<Seq<char>>) -> Seq<StepView> {
    Seq::new(
        first_unfit(occurrence_views(c.occurrences@), true, 0) as nat,
        |i: int|
            stretch_step(
                c.id.value,
                i,
                occurrence_views(c.occurrences@)[i],
                infos[i],
            ),
    )
}

fn write_rates(correlation: &Correlation, steps: &mut Vec<Step>)
    requires
        is_writable(*correlation),
    ensures
        step_views(final(steps)@) == step_views(old(steps)@) + rate_steps(*correlation),
{
    let ghost before = step_views(steps@);
    let ghost wanted = rate_steps(*correlation);
    let id = correlation.id.text();
    let mut i: usize = 0;
    assert(before =~= before + wanted.take(0));
    while i < correlation.error_rate.entries.len()
        invariant
            i <= correlation.error_rate.entries.len(),
            is_writable(*correlation),
            id@ == uuid_text(correlation.id.value),
            wanted == rate_steps(*correlation),
            step_views(steps@) == before + wanted.take(i as int),
        decreases correlation.error_rate.entries.len() - i,
    {
        let ghost written = steps@;
        let entry = &correlation.error_rate.entries[i];
        assert(entry.value.value@.is_operand());
        let signal = SignalType::Custom(entry.key.clone());
        let mut params: Vec<SqlValue> = Vec::new();
        params.push(text_value(id.as_str()));
        params.push(text_value(signal.text().as_str()));
        params.push(text_value(entry.value.value.text().as_str()));
        params.push(text_value(entry.value.units.text().as_str()));
        proof {
            assert(value_views(params@) =~= seq![SqlView::Text(uuid_text(correlation.id.value))]
                + rate_columns(*entry));
        }
        steps.push(
            rolling_back(
                "INSERT INTO correlation_error_rates (correlation_id, signal_type, error_rate_value, error_rate_units) VALUES (?, ?, ?, ?)",
                params,
                "Failed to insert correlation error rate: ",
            ),
        );
        proof {
            assert(step_views(steps@) =~= step_views(written).push(wanted[i as int]));
            assert(wanted.take(i + 1) =~= wanted.take(i as int).push(wanted[i as int]));
            assert(step_views(steps@) =~= before + wanted.take(i + 1));
        }
        i += 1;
    }
    assert(wanted.take(i as int) =~= wanted);
}

/// Writes the stretches, and tells of the first that does not fit.
fn write_stretches(
    correlation: &Correlation,
    infos: &Vec<String>,
    steps: &mut Vec<Step>,
) -> (r: Option<Error>)
    requires
        is_writable(*correlation),
        infos.len() == correlation.occurrences.len(),
    ensures
        step_views(final(steps)@) == step_views(old(steps)@) + stretch_steps(
            *correlation,
            name_views(infos@),
        ),
        match r {
            Some(e) => e is Message && tells(
                e,
                unfit_message(occurrence_views(correlation.occurrences@), true),
            ),
            None => unfit_message(occurrence_views(correlation.occurrences@), true) is None,
        },
{
    let ghost views = occurrence_views(correlation.occurrences@);
    let ghost before = step_views(steps@);
    let ghost wanted = stretch_steps(*correlation, name_views(infos@));
    let id = correlation.id.text();
    let mut i: usize = 0;
    assert(before =~= before + wanted.take(0));
    proof {
        lemma_not_before(views, true, 0);
    }
    while i < correlation.occurrences.len()
        invariant
            i <= correlation.occurrences.len(),
            infos.len() == correlation.occurrences.len(),
            is_writable(*correlation),
            id@ == uuid_text(correlation.id.value),
            views == occurrence_views(correlation.occurrences@),
            wanted == stretch_steps(*correlation, name_views(infos@)),
            first_unfit(views, true, 0) == first_unfit(views, true, i as int),
            i <= first_unfit(views, true, 0),
            step_views(steps@) == before + wanted.take(i as int),
            before == step_views(old(steps)@),
        decreases correlation.occurrences.len() - i,
    {
        let ghost written = steps@;
        let occurrence = &correlation.occurrences[i];
        assert(views[i as int] == occurrence@);
        let index: i64 = match i64_of_usize(i) {
            Ok(n) => n,
            Err(_) => {
                assert(wanted.take(i as int) =~= wanted);
                return Some(Error::Message("Occurrence index too large for i64".to_owned()));
            },
        };
        let size: i64 = match i64_of_usize(occurrence.size) {
            Ok(n) => n,
            Err(_) => {
                assert(wanted.take(i as int) =~= wanted);
                return Some(Error::Message("Occurrence size too large for i64".to_owned()));
            },
        };
        proof {
            lemma_not_before(views, true, i + 1);
        }
        let mut params: Vec<SqlValue> = Vec::new();
        params.push(text_value(id.as_str()));
        params.push(SqlValue::Integer(index));
        params.push(text_value(occurrence.aspect.text().as_str()));
        params.push(text_value(occurrence.resolution.text().as_str()));
        params.push(SqlValue::Integer(size));
        params.push(text_value(infos[i].as_str()));
        params.push(text_value(occurrence.pattern_id.text().as_str()));
        params.push(SqlValue::Integer(occurrence.beginning.millis()));
        params.push(SqlValue::Integer(occurrence.end.millis()));
        proof {
            assert(value_views(params@) =~= correlated_row(
                correlation.id.value,
                i as int,
                occurrence@,
                infos@[i as int]@,
            ));
            assert(name_views(infos@)[i as int] == infos@[i as int]@);
        }
        steps.push(
            rolling_back(
                "INSERT INTO correlation_occurrences (correlation_id, occurrence_index, aspect_id, resolution, size, database_info, pattern_id, beginning_timestamp, end_timestamp) VALUES (?, ?, ?, ?, ?, ?, ?, ?, ?)",
                params,
                "Failed to insert correlation occurrence: ",
            ),
        );
        proof {
            assert(step_views(steps@) =~= step_views(written).push(wanted[i as int]));
            assert(wanted.take(i + 1) =~= wanted.take(i as int).push(wanted[i as int]));
            assert(step_views(steps@) =~= before + wanted.take(i + 1));
        }
        i += 1;
    }
    assert(wanted.take(i as int) =~= wanted);
    None
}

fn reference_values(c: &Correlation, params: &mut Vec<SqlValue>)
    ensures
        value_views(final(params)@) == value_views(old(params)@) + reference_columns(*c),
{
    params.push(text_value(c.dictionary_id.text().as_str()));
    params.push(text_value(c.subject_id.text().as_str()));
    params.push(text_value(c.aspect_id.text().as_str()));
    params.push(text_value(c.pattern_id.text().as_str()));
    params.push(text_value(c.event_id.text().as_str()));
    assert(value_views(params@) =~= value_views(old(params)@) + reference_columns(*c));
}

fn distance_values(c: &Correlation, params: &mut Vec<SqlValue>)
    requires
        is_writable(*c),
    ensures
        value_views(final(params)@) == value_views(old(params)@) + distance_columns(
            c.average_distance,
        ),
{
    match &c.average_distance {
        Some(d) => {
            params.push(text_value(d.value.text().as_str()));
            params.push(text_value(d.units.text().as_str()));
        },
        None => {
            params.push(SqlValue::Null);
            params.push(SqlValue::Null);
        },
    }
    assert(value_views(params@) =~= value_views(old(params)@) + distance_columns(
        c.average_distance,
    ));
}

/// The step that writes a correlation itself.
pub open spec fn insert_step(c: Correlation, created_at: int, updated_at: int) -> StepView {
    rolled_back(
        "INSERT INTO correlations (id, dictionary_id, subject_id, aspect_id, pattern_id, event_id, average_distance_value, average_distance_units, created_at, updated_at) VALUES (?, ?, ?, ?, ?, ?, ?, ?, ?, ?)"@,
        correlation_columns(c) + seq![SqlView::Integer(created_at), SqlView::Integer(updated_at)],
        "Failed to insert correlation: "@,
    )
}

/// How a correlation is written, with its rates and then its stretches; the description of the
/// database of each stretch is given.
pub fn insert_correlation(
    correlation: &Correlation,
    infos: &Vec<String>,
    created_at: i64,
    updated_at: i64,
) -> (r: Script)
    requires
        is_writable(*correlation),
        infos.len() == correlation.occurrences.len(),
    ensures
        r@ == (ScriptView {
            steps: seq![insert_step(*correlation, created_at as int, updated_at as int)]
                + rate_steps(*correlation) + stretch_steps(
                *correlation,
                name_views(infos@),
            ),
            stop: failure(unfit_message(occurrence_views(correlation.occurrences@), true)),
        }),
{
    let mut params: Vec<SqlValue> = Vec::new();
    params.push(text_value(correlation.id.text().as_str()));
    assert(value_views(params@) =~= seq![SqlView::Text(uuid_text(correlation.id.value))]);
    reference_values(correlation, &mut params);
    distance_values(correlation, &mut params);
    params.push(SqlValue::Integer(created_at));
    params.push(SqlValue::Integer(updated_at));
    assert(value_views(params@) =~= correlation_columns(*correlation) + seq![
        SqlView::Integer(created_at as int),
        SqlView::Integer(updated_at as int),
    ]);
    let mut steps: Vec<Step> = Vec::new();
    steps.push(
        rolling_back(
            "INSERT INTO correlations (id, dictionary_id, subject_id, aspect_id, pattern_id, event_id, average_distance_value, average_distance_units, created_at, updated_at) VALUES (?, ?, ?, ?, ?, ?, ?, ?, ?, ?)",
            params,
            "Failed to insert correlation: ",
        ),
    );
    assert(step_views(steps@) =~= seq![
        insert_step(*correlation, created_at as int, updated_at as int),
    ]);
    write_rates(correlation, &mut steps);
    let stop = write_stretches(correlation, infos, &mut steps);
    Script { steps, stop }
}

/// The step that replaces a correlation itself.
pub open spec fn update_step(c: Correlation, updated_at: int) -> StepView {
    rolled_back(
        "UPDATE correlations SET dictionary_id = ?, subject_id = ?, aspect_id = ?, pattern_id = ?, event_id = ?, average_distance_value = ?, average_distance_units = ?, updated_at = ? WHERE id = ?"@,
        reference_columns(c) + distance_columns(c.average_distance) + seq![
            SqlView::Integer(updated_at),
            SqlView::Text(uuid_text(c.id.value)),
        ],
        "Failed to update correlation: "@,
    )
}

/// The step that takes the rates of a correlation out.
pub open spec fn delete_rates_step(id: u128) -> StepView {
    rolled_back(
        "DELETE FROM correlation_error_rates WHERE correlation_id = ?"@,
        seq![SqlView::Text(uuid_text(id))],
        "Failed to delete correlation error rates: "@,
    )
}

/// The step that takes the stretches of a correlation out.
pub open spec fn delete_stretches_step(id: u128) -> StepView {
    rolled_back(
        "DELETE FROM correlation_occurrences WHERE correlation_id = ?"@,
        seq![SqlView::Text(uuid_text(id))],
        "Failed to delete correlation occurrences: "@,
    )
}

fn by_id(id: &CorrelationID, sql: &str, complaint: &str) -> (r: Step)
    ensures
        r@ == rolled_back(sql@, seq![SqlView::Text(uuid_text(id.value))], complaint@),
{
    let mut params: Vec<SqlValue> = Vec::new();
    params.push(text_value(id.text().as_str()));
    assert(value_views(params@) =~= seq![SqlView::Text(uuid_text(id.value))]);
    rolling_back(sql, params, complaint)
}

fn delete_rates(id: &CorrelationID) -> (r: Step)
    ensures
        r@ == delete_rates_step(id.value),
{
    by_id(
        id,
        "DELETE FROM correlation_error_rates WHERE correlation_id = ?",
        "Failed to delete correlation error rates: ",
    )
}

fn delete_stretches(id: &CorrelationID) -> (r: Step)
    ensures
        r@ == delete_stretches_step(id.value),
{
    by_id(
        id,
        "DELETE FROM correlation_occurrences WHERE correlation_id = ?",
        "Failed to delete correlation occurrences: ",
    )
}

/// How a correlation is replaced: its rates and its stretches are taken out and written anew.
pub fn update_correlation(correlation: &Correlation, infos: &Vec<String>, updated_at: i64) -> (r:
    Script)
    requires
        is_writable(*correlation),
        infos.len() == correlation.occurrences.len(),
    ensures
        r@ == (ScriptView {
            steps: seq![
                update_step(*correlation, updated_at as int),
                delete_rates_step(correlation.id.value),
            ] + rate_steps(*correlation) + seq![delete_stretches_step(correlation.id.value)]
                + stretch_steps(*correlation, name_views(infos@)),
            stop: failure(unfit_message(occurrence_views(correlation.occurrences@), true)),
        }),
{
    let mut params: Vec<SqlValue> = Vec::new();
    assert(value_views(params@) =~= Seq::<SqlView>::empty());
    reference_values(correlation, &mut params);
    distance_values(correlation, &mut params);
    params.push(SqlValue::Integer(updated_at));
    params.push(text_value(correlation.id.text().as_str()));
    assert(value_views(params@) =~= update_step(*correlation, updated_at as int).statement.params);
    let mut steps: Vec<Step> = Vec::new();
    steps.push(
        rolling_back(
            "UPDATE correlations SET dictionary_id = ?, subject_id = ?, aspect_id = ?, pattern_id = ?, event_id = ?, average_distance_value = ?, average_distance_units = ?, updated_at = ? WHERE id = ?",
            params,
            "Failed to update correlation: ",
        ),
    );
    steps.push(delete_rates(&correlation.id));
    assert(step_views(steps@) =~= seq![
        update_step(*correlation, updated_at as int),
        delete_rates_step(correlation.id.value),
    ]);
    write_rates(correlation, &mut steps);
    let ghost rated = steps@;
    steps.push(delete_stretches(&correlation.id));
    assert(step_views(steps@) =~= step_views(rated) + seq![
        delete_stretches_step(correlation.id.value),
    ]);
    let stop = write_stretches(correlation, infos, &mut steps);
    Script { steps, stop }
}

/// The steps of [`remove_correlation`].
pub open spec fn spec_remove_correlation(correlation_id: &CorrelationID) -> Seq<StepView> {
    seq![
        delete_rates_step(correlation_id.value),
        delete_stretches_step(correlation_id.value),
        rolled_back(
            "DELETE FROM correlations WHERE id = ?"@,
            seq![SqlView::Text(uuid_text(correlation_id.value))],
            "Failed to remove correlation: "@,
        ),
    ]
}

/// How a correlation is taken out: its rates and its stretches first.
pub fn remove_correlation(correlation_id: &CorrelationID) -> (r: Vec<Step>)
    ensures
        step_views(r@) == spec_remove_correlation(correlation_id),
{
    let mut r: Vec<Step> = Vec::new();
    r.push(delete_rates(correlation_id));
    r.push(delete_stretches(correlation_id));
    r.push(
        by_id(
            correlation_id,
            "DELETE FROM correlations WHERE id = ?",
            "Failed to remove correlation: ",
        ),
    );
    assert(step_views(r@) =~= seq![r@[0]@, r@[1]@, r@[2]@]);
    r
}

/// A correlation without its rates and its stretches.
#[derive(Debug)]
pub struct CorrelationHead {
    pub id: CorrelationID,
    pub dictionary_id: DictionaryId,
    pub subject_id: SubjectId,
    pub aspect_id: AspectId,
    pub pattern_id: PatternID,
    pub event_id: EventID,
    pub average_distance: Option<Distance>,
}

/// What is wrong with a row of a correlation.
pub open spec fn head_error(row: Seq<SqlView>) -> Option<Seq<char>> {
    or(
        not_text(row[0], "Correlation ID is not text"@),
        or(
            not_text(row[1], "Dictionary ID is not text"@),
            or(
                not_text(row[2], "Subject ID is not text"@),
                or(
                    not_text(row[3], "Aspect ID is not text"@),
                    or(
                        not_text(row[4], "Pattern ID is not text"@),
                        or(not_text(row[5], "Event ID is not text"@), head_id_error(row)),
                    ),
                ),
            ),
        ),
    )
}

/// What is wrong with the identifiers in a row of a correlation.
pub open spec fn head_id_error(row: Seq<SqlView>) -> Option<Seq<char>> {
    or(
        not_uuid(row[0], "Invalid UUID format for correlation ID: "@),
        or(
            not_uuid(row[1], "Invalid UUID format for dictionary ID: "@),
            or(
                not_uuid(row[2], "Invalid UUID format for subject ID: "@),
                or(
                    not_uuid(row[3], "Invalid UUID format for aspect ID: "@),
                    or(
                        not_uuid(row[4], "Invalid UUID format for pattern ID: "@),
                        not_uuid(row[5], "Invalid UUID format for event ID: "@),
                    ),
                ),
            ),
        ),
    )
}

/// The average distance that two columns hold; columns that cannot be read hold none.
pub open spec fn distance_read(value: SqlView, units: SqlView) -> Option<DistanceView> {
    if value is Text && units is Text && decimal_parse(value->Text_0) is Ok && named_resolution(
        units->Text_0,
    ) is Some {
        Some(
            DistanceView {
                value: DecimalView {
                    mantissa: decimal_parse(value->Text_0)->Ok_0.0,
                    scale: decimal_parse(value->Text_0)->Ok_0.1,
                },
                units: named_resolution(units->Text_0)->0,
            },
        )
    } else {
        None
    }
}

pub open spec fn distance_view(d: Option<Distance>) -> Option<DistanceView> {
    match d {
        Some(d) => Some(d@),
        None => None,
    }
}

/// Whether a distance reads like another.
pub open spec fn distance_reads_like(d: Option<Distance>, written: Option<Distance>) -> bool {
    match (d, written) {
        (Some(d), Some(w)) => d.value@.same_value(w.value@) && d.units == w.units,
        (None, None) => true,
        _ => false,
    }
}

fn read_distance(row: &Vec<SqlValue>) -> (r: Option<Distance>)
    requires
        row.len() == 8,
    ensures
        distance_view(r) == distance_read(row@[6]@, row@[7]@),
        forall|written: Option<Distance>|
            seq![row@[6]@, row@[7]@] == #[trigger] distance_columns(written) && (
            written matches Some(d) ==> d.value@.is_operand()) ==> distance_reads_like(r, written),
{
    let value = match optional_text_column(row, 6) {
        Some(s) => s,
        None => {
            assert(forall|written: Option<Distance>|
                seq![row@[6]@, row@[7]@] == #[trigger] distance_columns(written)
                    ==> distance_columns(written)[0] == row@[6]@);
            return None;
        },
    };
    let units = match optional_text_column(row, 7) {
        Some(s) => s,
        None => {
            assert(forall|written: Option<Distance>|
                seq![row@[6]@, row@[7]@] == #[trigger] distance_columns(written)
                    ==> distance_columns(written)[1] == row@[7]@);
            return None;
        },
    };
    let number = decimal_field(&value, "");
    let unit = resolution_field(&units, "");
    proof {
        assert forall|written: Option<Distance>|
            seq![row@[6]@, row@[7]@] == #[trigger] distance_columns(written) && (
            written matches Some(d) ==> d.value@.is_operand()) implies number is Ok && unit is Ok
            && written is Some && number->Ok_0@.same_value(written->0.value@) && unit->Ok_0
            == written->0.units by {
            assert(distance_columns(written)[0] == row@[6]@);
            assert(distance_columns(written)[1] == row@[7]@);
            let d = written->0;
            assert(value@ == decimal_text(d.value@.mantissa, d.value@.scale));
            assert(d.value@ == (DecimalView { mantissa: d.value@.mantissa, scale: d.value@.scale }));
            assert(units@ == d.units.spec_text());
        }
    }
    match (number, unit) {
        (Ok(value), Ok(units)) => Some(Distance::new(value, units)),
        _ => None,
    }
}

/// Whether a head reads like a correlation.
pub open spec fn head_reads_like(h: CorrelationHead, c: Correlation) -> bool {
    &&& h.id == c.id
    &&& h.dictionary_id == c.dictionary_id
    &&& h.subject_id == c.subject_id
    &&& h.aspect_id == c.aspect_id
    &&& h.pattern_id == c.pattern_id
    &&& h.event_id == c.event_id
    &&& distance_reads_like(h.average_distance, c.average_distance)
}

/// The columns of a correlation, one by one.
proof fn lemma_correlation_columns(c: Correlation)
    ensures
        correlation_columns(c).len() == 8,
        correlation_columns(c)[0] == SqlView::Text(uuid_text(c.id.value)),
        correlation_columns(c)[1] == SqlView::Text(uuid_text(c.dictionary_id.value)),
        correlation_columns(c)[2] == SqlView::Text(uuid_text(c.subject_id.value)),
        correlation_columns(c)[3] == SqlView::Text(uuid_text(c.aspect_id.value)),
        correlation_columns(c)[4] == SqlView::Text(uuid_text(c.pattern_id.value)),
        correlation_columns(c)[5] == SqlView::Text(uuid_text(c.event_id.value)),
        seq![correlation_columns(c)[6], correlation_columns(c)[7]] == distance_columns(
            c.average_distance,
        ),
{
    assert(seq![correlation_columns(c)[6], correlation_columns(c)[7]] =~= distance_columns(
        c.average_distance,
    ));
}

/// The correlation in a row, without its rates and its stretches, or the error. A correlation that
/// was written is read back.
pub fn parse_correlation_row(row: &Vec<SqlValue>) -> (r: Result<CorrelationHead, Error>)
    requires
        row.len() == 8,
    ensures
        ({
            let views = value_views(row@);
            match r {
                Ok(h) => {
                    &&& head_error(views) is None
                    &&& uuid_parse(views[0]->Text_0) == Ok::<u128, Seq<char>>(h.id.value)
                    &&& uuid_parse(views[1]->Text_0) == Ok::<u128, Seq<char>>(h.dictionary_id.value)
                    &&& uuid_parse(views[2]->Text_0) == Ok::<u128, Seq<char>>(h.subject_id.value)
                    &&& uuid_parse(views[3]->Text_0) == Ok::<u128, Seq<char>>(h.aspect_id.value)
                    &&& uuid_parse(views[4]->Text_0) == Ok::<u128, Seq<char>>(h.pattern_id.value)
                    &&& uuid_parse(views[5]->Text_0) == Ok::<u128, Seq<char>>(h.event_id.value)
                    &&& distance_view(h.average_distance) == distance_read(views[6], views[7])
                },
                Err(e) => tells(e, head_error(views)),
            }
        }),
        forall|written: Correlation|
            value_views(row@) == #[trigger] correlation_columns(written) && (
            written.average_distance matches Some(d) ==> d.value@.is_operand()) ==> r is Ok
                && head_reads_like(r->Ok_0, written),
{
    let ghost views = value_views(row@);
    assert(forall|i: int| 0 <= i < 8 ==> #[trigger] views[i] == row@[i]@);
    proof {
        assert forall|written: Correlation| views == #[trigger] correlation_columns(written) implies
            views[0] == SqlView::Text(uuid_text(written.id.value)) && views[1] == SqlView::Text(
            uuid_text(written.dictionary_id.value),
        ) && views[2] == SqlView::Text(uuid_text(written.subject_id.value)) && views[3]
            == SqlView::Text(uuid_text(written.aspect_id.value)) && views[4] == SqlView::Text(
            uuid_text(written.pattern_id.value),
        ) && views[5] == SqlView::Text(uuid_text(written.event_id.value)) && seq![
            row@[6]@,
            row@[7]@,
        ] == distance_columns(written.average_distance) by {
            lemma_correlation_columns(written);
        }
    }
    let id = match text_column(row, 0, "Correlation ID is not text") {
        Ok(s) => s,
        Err(e) => {
            return Err(e);
        },
    };
    let dictionary = match text_column(row, 1, "Dictionary ID is not text") {
        Ok(s) => s,
        Err(e) => {
            return Err(e);
        },
    };
    let subject = match text_column(row, 2, "Subject ID is not text") {
        Ok(s) => s,
        Err(e) => {
            return Err(e);
        },
    };
    let aspect = match text_column(row, 3, "Aspect ID is not text") {
        Ok(s) => s,
        Err(e) => {
            return Err(e);
        },
    };
    let pattern = match text_column(row, 4, "Pattern ID is not text") {
        Ok(s) => s,
        Err(e) => {
            return Err(e);
        },
    };
    let event = match text_column(row, 5, "Event ID is not text") {
        Ok(s) => s,
        Err(e) => {
            return Err(e);
        },
    };
    let average_distance = read_distance(row);
    let id: u128 = match uuid_field(&id, "Invalid UUID format for correlation ID: ") {
        Ok(id) => id,
        Err(e) => {
            return Err(e);
        },
    };
    let dictionary: u128 = match uuid_field(
        &dictionary,
        "Invalid UUID format for dictionary ID: ",
    ) {
        Ok(id) => id,
        Err(e) => {
            return Err(e);
        },
    };
    let subject: u128 = match uuid_field(&subject, "Invalid UUID format for subject ID: ") {
        Ok(id) => id,
        Err(e) => {
            return Err(e);
        },
    };
    let aspect: u128 = match uuid_field(&aspect, "Invalid UUID format for aspect ID: ") {
        Ok(id) => id,
        Err(e) => {
            return Err(e);
        },
    };
    let pattern: u128 = match uuid_field(&pattern, "Invalid UUID format for pattern ID: ") {
        Ok(id) => id,
        Err(e) => {
            return Err(e);
        },
    };
    let event: u128 = match uuid_field(&event, "Invalid UUID format for event ID: ") {
        Ok(id) => id,
        Err(e) => {
            return Err(e);
        },
    };
    Ok(
        CorrelationHead {
            id: CorrelationID { value: id },
            dictionary_id: DictionaryId { value: dictionary },
            subject_id: SubjectId { value: subject },
            aspect_id: AspectId { value: aspect },
            pattern_id: PatternID { value: pattern },
            event_id: EventID { value: event },
            average_distance,
        },
    )
}

/// What is wrong with a row of a rate.
pub open spec fn rate_error(row: Seq<SqlView>) -> Option<Seq<char>> {
    or(
        not_text(row[0], "Error rate signal type is not text"@),
        or(
            not_text(row[1], "Error rate value is not text"@),
            or(
                not_decimal(row[1], "Invalid error rate value format: "@),
                or(
                    not_text(row[2], "Error rate units is not text"@),
                    or(
                        not_resolution(row[2], "Invalid error rate units format: "@),
                        match signal_name(row[0]->Text_0) {
                            Some(_) => None,
                            None => Some(
                                crate::columns::database_error(
                                    "Invalid error type format: "@ + (
                                    "Invalid SignalType key: "@ + row[0]->Text_0),
                                ),
                            ),
                        },
                    ),
                ),
            ),
        ),
    )
}

/// The rate in a row with its kind of signal.
pub open spec fn rate_read(row: Seq<SqlView>) -> (Seq<char>, DistanceView) {
    (signal_name(row[0]->Text_0)->0, distance_read(row[1], row[2])->0)
}

/// A rate with the name of its kind of signal.
#[derive(Debug)]
pub struct NamedRate {
    pub name: String,
    pub rate: Distance,
}

/// The rate in a row, or the error. A rate that was written is read back.
pub fn parse_rate_row(row: &Vec<SqlValue>) -> (r: Result<NamedRate, Error>)
    requires
        row.len() == 3,
    ensures
        match r {
            Ok(n) => rate_error(value_views(row@)) is None && (n.name@, n.rate@) == rate_read(
                value_views(row@),
            ),
            Err(e) => tells(e, rate_error(value_views(row@))),
        },
        forall|written: Entry<String, Distance>|
            value_views(row@) == #[trigger] rate_columns(written)
                && written.value.value@.is_operand() ==> r is Ok && r->Ok_0.name@ == written.key@
                && r->Ok_0.rate.value@.same_value(written.value.value@) && r->Ok_0.rate.units
                == written.value.units,
{
    let ghost views = value_views(row@);
    assert(views[0] == row@[0]@ && views[1] == row@[1]@ && views[2] == row@[2]@);
    proof {
        assert forall|written: Entry<String, Distance>|
            views == #[trigger] rate_columns(written) implies signal_name(
            rate_columns(written)[0]->Text_0,
        ) == Some(written.key@) && row@[0]@ == rate_columns(written)[0] && row@[1]@
            == rate_columns(written)[1] && row@[2]@ == rate_columns(written)[2]
            && written.value.value@ == (DecimalView {
            mantissa: written.value.value@.mantissa,
            scale: written.value.value@.scale,
        }) by {
            crate::correlation::law_signal_key_is_read_back(written.key@);
        }
    }
    let key = match text_column(row, 0, "Error rate signal type is not text") {
        Ok(s) => s,
        Err(e) => {
            return Err(e);
        },
    };
    let value = match text_column(row, 1, "Error rate value is not text") {
        Ok(s) => s,
        Err(e) => {
            return Err(e);
        },
    };
    let value = match decimal_field(&value, "Invalid error rate value format: ") {
        Ok(d) => d,
        Err(e) => {
            return Err(e);
        },
    };
    let units = match text_column(row, 2, "Error rate units is not text") {
        Ok(s) => s,
        Err(e) => {
            return Err(e);
        },
    };
    let units = match resolution_field(&units, "Invalid error rate units format: ") {
        Ok(u) => u,
        Err(e) => {
            return Err(e);
        },
    };
    match SignalType::parse(key.as_str()) {
        Ok(signal) => Ok(NamedRate { name: signal.name(), rate: Distance::new(value, units) }),
        Err(e) => Err(
            Error::DatabaseError(join("Invalid error type format: ", e.message().as_str())),
        ),
    }
}

/// The rates by name, from rows: of two of the same kind of signal the later counts.
pub open spec fn rates_read(rows: Seq<Seq<SqlView>>) -> Map<Seq<char>, DistanceView>
    decreases rows.len(),
{
    if rows.len() == 0 {
        Map::empty()
    } else {
        rates_read(rows.drop_last()).insert(rate_read(rows.last()).0, rate_read(rows.last()).1)
    }
}

/// The rates by name, as views.
pub open spec fn rate_views(rates: Map<Seq<char>, Distance>) -> Map<Seq<char>, DistanceView> {
    Map::new(|k: Seq<char>| rates.dom().contains(k), |k: Seq<char>| rates[k]@)
}

/// Whether a rate reads like another.
pub open spec fn rate_reads_like(rate: DistanceView, written: DistanceView) -> bool {
    rate.value.same_value(written.value) && rate.units == written.units
}

/// Whether a row, if a rate was written to it, holds that rate.
pub open spec fn rate_reads_back(row: Seq<SqlView>) -> bool {
    forall|written: Entry<String, Distance>|
        row == #[trigger] rate_columns(written) && written.value.value@.is_operand() ==> rate_error(
            row,
        ) is None && rate_read(row).0 == written.key@ && rate_reads_like(
            rate_read(row).1,
            written.value@,
        )
}

/// Whether the first row that cannot be read stands at a place.
pub open spec fn is_first_bad_row(rows: Seq<Seq<SqlView>>, i: int) -> bool {
    &&& 0 <= i < rows.len()
    &&& rate_error(rows[i]) is Some
    &&& forall|k: int| 0 <= k < i ==> rate_error(#[trigger] rows[k]) is None
}

/// The rates in rows, or what is wrong with the first row that cannot be read. Rates that were
/// written are read back.
pub fn read_rates(rows: &Vec<Vec<SqlValue>>) -> (r: Result<ErrorRates, Error>)
    requires
        forall|i: int| 0 <= i < rows.len() ==> (#[trigger] rows@[i]).len() == 3,
    ensures
        ({
            let views = crate::sql::row_views(rows@);
            match r {
                Ok(rates) => {
                    &&& rates.is_valid()
                    &&& rate_views(rates@) == rates_read(views)
                    &&& forall|i: int|
                        0 <= i < views.len() ==> rate_error(#[trigger] views[i]) is None
                            && rate_reads_back(views[i])
                },
                Err(e) => exists|i: int| #[trigger]
                    is_first_bad_row(views, i) && tells(e, rate_error(views[i]))
                        && rate_reads_back(views[i]),
            }
        }),
{
    let ghost views = crate::sql::row_views(rows@);
    let mut rates: ErrorRates = Table::new();
    let mut i: usize = 0;
    assert(views.take(0) =~= Seq::<Seq<SqlView>>::empty());
    assert(rate_views(rates@) =~= rates_read(views.take(0)));
    while i < rows.len()
        invariant
            i <= rows.len(),
            forall|i: int| 0 <= i < rows.len() ==> (#[trigger] rows@[i]).len() == 3,
            views == crate::sql::row_views(rows@),
            rates.is_valid(),
            rate_views(rates@) == rates_read(views.take(i as int)),
            forall|k: int|
                0 <= k < i ==> rate_error(#[trigger] views[k]) is None && rate_reads_back(views[k]),
        decreases rows.len() - i,
    {
        assert(rows@[i as int].len() == 3);
        assert(views[i as int] == value_views(rows@[i as int]@));
        match parse_rate_row(&rows[i]) {
            Ok(named) => {
                let ghost before = rates@;
                let ghost name = named.name@;
                let ghost rate = named.rate@;
                rates.insert(named.name, named.rate);
                proof {
                    assert(views.take(i + 1).drop_last() =~= views.take(i as int));
                    assert(rate_views(rates@) =~= rate_views(before).insert(name, rate));
                }
            },
            Err(e) => {
                assert(is_first_bad_row(views, i as int));
                return Err(e);
            },
        }
        i += 1;
    }
    assert(views.take(i as int) =~= views);
    Ok(rates)
}

/// The stretches by their places: of two with the same place the later counts.
pub open spec fn by_place(placed: Seq<PlacedOccurrence>) -> Map<int, OccurrenceView>
    decreases placed.len(),
{
    if placed.len() == 0 {
        Map::empty()
    } else {
        by_place(placed.drop_last()).insert(placed.last().index as int, placed.last().occurrence@)
    }
}

pub open spec fn is_ascending(s: Seq<int>) -> bool {
    forall|i: int, j: int| 0 <= i < j < s.len() ==> (#[trigger] s[i]) < (#[trigger] s[j])
}

/// Whether stretches stand at places, in the order of the places.
pub open spec fn stand_at(
    stretches: Seq<OccurrenceView>,
    places: Seq<int>,
    found: Map<int, OccurrenceView>,
) -> bool {
    &&& is_ascending(places)
    &&& stretches.len() == places.len()
    &&& forall|i: int|
        0 <= i < places.len() ==> found.dom().contains(#[trigger] places[i]) && stretches[i]
            == found[places[i]]
    &&& forall|p: int| #[trigger] found.dom().contains(p) ==> places.contains(p)
}

/// Whether an order names each of a number of places once.
pub open spec fn is_order(order: Seq<int>, n: nat) -> bool {
    &&& order.len() == n
    &&& order.no_duplicates()
    &&& forall|i: int| 0 <= i < n ==> 0 <= #[trigger] order[i] < n
    &&& forall|p: int| 0 <= p < n ==> #[trigger] order.contains(p)
}

/// Whether stretches are those that stand in rows, in the order of their places.
pub open spec fn is_ordered(placed: Seq<PlacedOccurrence>, stretches: Seq<OccurrenceView>) -> bool {
    exists|places: Seq<int>| #[trigger] stand_at(stretches, places, by_place(placed))
}

/// The places of stretches.
pub open spec fn places_of(placed: Seq<PlacedOccurrence>) -> Seq<int> {
    Seq::new(placed.len(), |i: int| placed[i].index as int)
}

pub open spec fn stretches_of(placed: Seq<PlacedOccurrence>) -> Seq<OccurrenceView> {
    Seq::new(placed.len(), |i: int| placed[i].occurrence@)
}

/// Puts a stretch among those in order, in place of one with the same place.
fn put_in_place(kept: &mut Vec<PlacedOccurrence>, next: PlacedOccurrence, Ghost(found): Ghost<
    Map<int, OccurrenceView>,
>)
    requires
        stand_at(stretches_of(old(kept)@), places_of(old(kept)@), found),
    ensures
        stand_at(
            stretches_of(final(kept)@),
            places_of(final(kept)@),
            found.insert(next.index as int, next.occurrence@),
        ),
{
    let ghost before = kept@;
    let ghost places = places_of(before);
    let mut at: usize = 0;
    while at < kept.len() && kept[at].index < next.index
        invariant
            at <= kept.len(),
            kept@ == before,
            forall|k: int| 0 <= k < at ==> (#[trigger] before[k]).index < next.index,
        decreases kept.len() - at,
    {
        at += 1;
    }
    if at < kept.len() && kept[at].index == next.index {
        let _ = kept.remove(at);
        kept.insert(at, next);
        proof {
            let now = places_of(kept@);
            let want = found.insert(next.index as int, next.occurrence@);
            assert(kept@ =~= before.update(at as int, next));
            assert(now =~= places);
            assert forall|i: int| 0 <= i < now.len() implies want.dom().contains(
                #[trigger] now[i],
            ) && stretches_of(kept@)[i] == want[now[i]] by {
                assert(found.dom().contains(places[i]) && stretches_of(before)[i]
                    == found[places[i]]);
                if i < at {
                    assert(places[i] < places[at as int]);
                } else if i > at {
                    assert(places[at as int] < places[i]);
                }
            }
            assert forall|p: int| #[trigger] want.dom().contains(p) implies now.contains(p) by {
                if p == next.index {
                    assert(now[at as int] == p);
                } else {
                    assert(found.dom().contains(p));
                }
            }
        }
    } else {
        kept.insert(at, next);
        proof {
            let now = places_of(kept@);
            assert(kept@ =~= before.insert(at as int, next));
            assert forall|i: int, j: int| 0 <= i < j < now.len() implies (#[trigger] now[i]) < (
            #[trigger] now[j]) by {
                let a = if i < at {
                    i
                } else {
                    i - 1
                };
                let b = if j < at {
                    j
                } else {
                    j - 1
                };
                if i != at && j != at {
                    assert(places[a] < places[b]);
                } else if i == at {
                    if at < before.len() && b != at {
                        assert(places[at as int] < places[b]);
                    }
                } else {
                    assert(before[i].index < next.index);
                }
            }
            let want = found.insert(next.index as int, next.occurrence@);
            assert forall|p: int| #[trigger] want.dom().contains(p) implies now.contains(p) by {
                if p == next.index {
                    assert(now[at as int] == p);
                } else {
                    assert(found.dom().contains(p));
                    let k = choose|k: int| 0 <= k < places.len() && places[k] == p;
                    if k < at {
                        assert(now[k] == p);
                    } else {
                        assert(now[k + 1] == p);
                    }
                }
            }
            assert forall|i: int| 0 <= i < now.len() implies want.dom().contains(
                #[trigger] now[i],
            ) && stretches_of(kept@)[i] == want[now[i]] by {
                if i < at {
                    assert(kept@[i] == before[i] && now[i] == places[i]);
                    assert(before[i].index < next.index);
                    assert(found.dom().contains(places[i]) && stretches_of(before)[i]
                        == found[places[i]]);
                } else if i > at {
                    let j = i - 1;
                    assert(kept@[i] == before[j] && now[i] == places[j]);
                    assert(found.dom().contains(places[j]) && stretches_of(before)[j]
                        == found[places[j]]);
                    assert(places[at as int] > next.index);
                    if j != at {
                        assert(places[at as int] < places[j]);
                    }
                } else {
                    assert(kept@[i] == next);
                }
            }
        }
    }
}

/// The stretches in rows, in the order of their places; of two with the same place the later
/// counts.
pub fn ordered_occurrences(placed: Vec<PlacedOccurrence>) -> (r: Vec<Occurrence>)
    ensures
        is_ordered(placed@, occurrence_views(r@)),
{
    let ghost given = placed@;
    let mut rest = placed;
    let n: usize = rest.len();
    let mut kept: Vec<PlacedOccurrence> = Vec::new();
    let mut i: usize = 0;
    assert(given.take(0) =~= Seq::<PlacedOccurrence>::empty());
    assert(stand_at(stretches_of(kept@), places_of(kept@), by_place(given.take(0))));
    while i < n
        invariant
            i <= n,
            n == given.len(),
            rest@ == given.skip(i as int),
            stand_at(stretches_of(kept@), places_of(kept@), by_place(given.take(i as int))),
        decreases n - i,
    {
        let next = rest.remove(0);
        proof {
            assert(next == given[i as int]);
            assert(rest@ =~= given.skip(i + 1));
            assert(given.take(i + 1).drop_last() =~= given.take(i as int));
        }
        put_in_place(&mut kept, next, Ghost(by_place(given.take(i as int))));
        i += 1;
    }
    assert(given.take(n as int) =~= given);
    let ghost ordered = kept@;
    let mut r: Vec<Occurrence> = Vec::new();
    let m: usize = kept.len();
    let mut k: usize = 0;
    while k < m
        invariant
            k <= m,
            m == ordered.len(),
            kept@ == ordered.skip(k as int),
            r.len() == k,
            forall|j: int| 0 <= j < k ==> (#[trigger] r@[j])@ == ordered[j].occurrence@,
        decreases m - k,
    {
        let next = kept.remove(0);
        proof {
            assert(next == ordered[k as int]);
            assert(kept@ =~= ordered.skip(k + 1));
        }
        r.push(next.occurrence);
        k += 1;
    }
    assert(occurrence_views(r@) =~= stretches_of(ordered));
    r
}

proof fn lemma_by_place(placed: Seq<PlacedOccurrence>, order: Seq<int>)
    requires
        placed.len() == order.len(),
        forall|i: int| 0 <= i < placed.len() ==> (#[trigger] placed[i]).index == order[i],
        order.no_duplicates(),
    ensures
        forall|p: int| #[trigger] by_place(placed).dom().contains(p) <==> order.contains(p),
        forall|i: int|
            0 <= i < placed.len() ==> by_place(placed)[order[i]]
                == #[trigger] placed[i].occurrence@,
    decreases placed.len(),
{
    if placed.len() > 0 {
        let rest = placed.drop_last();
        let before = order.drop_last();
        assert forall|i: int| 0 <= i < rest.len() implies (#[trigger] rest[i]).index
            == before[i] by {
            assert(rest[i] == placed[i]);
        }
        lemma_by_place(rest, before);
        let n = placed.len() - 1;
        let last = placed[n];
        assert(last.index == order[n]);
        assert forall|p: int| #[trigger] by_place(placed).dom().contains(p) <==> order.contains(
            p,
        ) by {
            assert(by_place(rest).dom().contains(p) <==> before.contains(p));
            if before.contains(p) {
                let k = choose|k: int| 0 <= k < before.len() && before[k] == p;
                assert(order[k] == p);
            }
            if order.contains(p) && p != order[n] {
                let k = choose|k: int| 0 <= k < order.len() && order[k] == p;
                assert(before[k] == p);
            }
        }
        assert forall|i: int| 0 <= i < placed.len() implies by_place(placed)[order[i]]
            == #[trigger] placed[i].occurrence@ by {
            if i < n {
                assert(order[i] != order[n]);
                assert(rest[i].occurrence@ == by_place(rest)[before[i]]);
            }
        }
    }
}

proof fn lemma_ascending_reaches(places: Seq<int>, i: int)
    requires
        is_ascending(places),
        0 <= i < places.len(),
        forall|k: int| 0 <= k < places.len() ==> 0 <= #[trigger] places[k],
    ensures
        i <= places[i],
    decreases i,
{
    if i > 0 {
        lemma_ascending_reaches(places, i - 1);
        assert(places[i - 1] < places[i]);
    }
}

proof fn lemma_places_are(
    stretches: Seq<OccurrenceView>,
    places: Seq<int>,
    found: Map<int, OccurrenceView>,
    n: int,
    i: int,
)
    requires
        stand_at(stretches, places, found),
        forall|p: int| #[trigger] found.dom().contains(p) <==> 0 <= p < n,
        0 <= i < places.len(),
    ensures
        places[i] == i,
    decreases i,
{
    assert forall|k: int| 0 <= k < places.len() implies 0 <= #[trigger] places[k] < n by {
        assert(found.dom().contains(places[k]));
    }
    lemma_ascending_reaches(places, i);
    assert(found.dom().contains(i));
    let k = choose|k: int| 0 <= k < places.len() && places[k] == i;
    if k < i {
        lemma_places_are(stretches, places, found, n, k);
    } else if i < k {
        assert(places[i] < places[k]);
    }
}

/// Stretches are read back in the order in which they were written, in whatever order their rows
/// come.
pub proof fn law_stretches_keep_their_places(
    placed: Seq<PlacedOccurrence>,
    order: Seq<int>,
    stretches: Seq<OccurrenceView>,
)
    requires
        is_order(order, placed.len()),
        forall|i: int| 0 <= i < placed.len() ==> (#[trigger] placed[i]).index == order[i],
        is_ordered(placed, stretches),
    ensures
        stretches.len() == placed.len(),
        forall|i: int|
            0 <= i < placed.len() ==> stretches[order[i]] == #[trigger] placed[i].occurrence@,
{
    lemma_by_place(placed, order);
    let found = by_place(placed);
    let places = choose|places: Seq<int>| #[trigger] stand_at(stretches, places, found);
    assert forall|p: int| #[trigger] found.dom().contains(p) <==> 0 <= p < placed.len() by {
        if order.contains(p) {
            let k = choose|k: int| 0 <= k < order.len() && order[k] == p;
            assert(0 <= order[k] < placed.len());
        }
    }
    assert forall|i: int| 0 <= i < places.len() implies #[trigger] places[i] == i by {
        lemma_places_are(stretches, places, found, placed.len() as int, i);
    }
    if places.len() < placed.len() {
        assert(found.dom().contains(places.len() as int));
        let k = choose|k: int| 0 <= k < places.len() && places[k] == places.len();
        assert(places[k] == k);
    }
    if places.len() > placed.len() {
        assert(found.dom().contains(places[placed.len() as int]));
    }
    assert forall|i: int| 0 <= i < placed.len() implies stretches[order[i]]
        == #[trigger] placed[i].occurrence@ by {
        assert(0 <= order[i] < placed.len());
        assert(places[order[i]] == order[i]);
    }
}

/// A correlation from what was read of it.
pub fn assemble(head: CorrelationHead, error_rate: ErrorRates, occurrences: Vec<Occurrence>) -> (r:
    Correlation)
    ensures
        r == (Correlation {
            id: head.id,
            dictionary_id: head.dictionary_id,
            subject_id: head.subject_id,
            aspect_id: head.aspect_id,
            pattern_id: head.pattern_id,
            event_id: head.event_id,
            error_rate,
            occurrences,
            average_distance: head.average_distance,
        }),
{
    let mut r = Correlation::new(
        Some(head.id),
        head.dictionary_id,
        head.subject_id,
        &head.aspect_id,
        head.pattern_id,
        head.event_id,
        error_rate,
        occurrences,
    );
    r.set_average_distance(head.average_distance);
    r
}

/// The statements of [`correlation_queries`].
pub open spec fn spec_correlation_queries(correlation_id: &CorrelationID) -> Seq<StatementView> {
    seq![
        StatementView {
            sql: "SELECT id, dictionary_id, subject_id, aspect_id, pattern_id, event_id, average_distance_value, average_distance_units FROM correlations WHERE id = ?"@,
            params: seq![SqlView::Text(uuid_text(correlation_id.value))],
        },
        StatementView {
            sql: "SELECT signal_type, error_rate_value, error_rate_units FROM correlation_error_rates WHERE correlation_id = ?"@,
            params: seq![SqlView::Text(uuid_text(correlation_id.value))],
        },
        StatementView {
            sql: "SELECT correlation_id, occurrence_index, aspect_id, resolution, size, database_info, pattern_id, beginning_timestamp, end_timestamp FROM correlation_occurrences WHERE correlation_id = ?"@,
            params: seq![SqlView::Text(uuid_text(correlation_id.value))],
        },
    ]
}

/// The queries for the row, the rates and the stretches of a correlation.
pub fn correlation_queries(correlation_id: &CorrelationID) -> (r: Vec<Statement>)
    ensures
        crate::sql::statement_views(r@) == spec_correlation_queries(correlation_id),
{
    let mut r: Vec<Statement> = Vec::new();
    r.push(
        by_id(
            correlation_id,
            "SELECT id, dictionary_id, subject_id, aspect_id, pattern_id, event_id, average_distance_value, average_distance_units FROM correlations WHERE id = ?",
            "",
        ).statement,
    );
    r.push(
        by_id(
            correlation_id,
            "SELECT signal_type, error_rate_value, error_rate_units FROM correlation_error_rates WHERE correlation_id = ?",
            "",
        ).statement,
    );
    r.push(
        by_id(
            correlation_id,
            "SELECT correlation_id, occurrence_index, aspect_id, resolution, size, database_info, pattern_id, beginning_timestamp, end_timestamp FROM correlation_occurrences WHERE correlation_id = ?",
            "",
        ).statement,
    );
    assert(crate::sql::statement_views(r@) =~= seq![r@[0]@, r@[1]@, r@[2]@]);
    r
}

/// The number of correlations that are looked up at once.
pub const PAGE_SIZE: i64 = 100;

/// The statement of [`page_query`].
pub open spec fn spec_page_query(offset: i64) -> StatementView {
    StatementView {
        sql: "SELECT id FROM correlations LIMIT ? OFFSET ?"@,
        params: seq![SqlView::Integer(PAGE_SIZE as int), SqlView::Integer(offset as int)],
    }
}

/// The query for the identifiers on a page.
pub fn page_query(offset: i64) -> (r: Statement)
    ensures
        r@ == spec_page_query(offset),
{
    let mut params: Vec<SqlValue> = Vec::new();
    params.push(SqlValue::Integer(PAGE_SIZE));
    params.push(SqlValue::Integer(offset));
    assert(value_views(params@) =~= seq![
        SqlView::Integer(PAGE_SIZE as int),
        SqlView::Integer(offset as int),
    ]);
    statement("SELECT id FROM correlations LIMIT ? OFFSET ?", params)
}

/// The identifiers among values, in order; a value that is none is passed over.
pub open spec fn ids_among(values: Seq<SqlView>) -> Seq<u128>
    decreases values.len(),
{
    if values.len() == 0 {
        seq![]
    } else {
        let rest = ids_among(values.drop_last());
        match values.last() {
            SqlView::Text(s) => match uuid_parse(s) {
                Ok(id) => rest.push(id),
                Err(_) => rest,
            },
            _ => rest,
        }
    }
}

pub open spec fn id_values(ids: Seq<CorrelationID>) -> Seq<u128> {
    Seq::new(ids.len(), |i: int| ids[i].value)
}

/// The identifiers on a page, in order; a value that is none is passed over.
pub fn page_ids(values: &Vec<SqlValue>) -> (r: Vec<CorrelationID>)
    ensures
        id_values(r@) == ids_among(value_views(values@)),
        r.len() <= values.len(),
{
    let ghost views = value_views(values@);
    let mut r: Vec<CorrelationID> = Vec::new();
    let mut i: usize = 0;
    assert(views.take(0) =~= Seq::<SqlView>::empty());
    assert(id_values(r@) =~= ids_among(views.take(0)));
    while i < values.len()
        invariant
            i <= values.len(),
            r.len() <= i,
            views == value_views(values@),
            id_values(r@) == ids_among(views.take(i as int)),
        decreases values.len() - i,
    {
        let ghost before = r@;
        assert(views.take(i + 1).drop_last() =~= views.take(i as int));
        assert(views.take(i + 1).last() == values@[i as int]@);
        match &values[i] {
            SqlValue::Text(s) => match CorrelationID::parse(s.as_str()) {
                Ok(id) => {
                    r.push(id);
                    assert(id_values(r@) =~= id_values(before).push(id.value));
                },
                Err(_) => {},
            },
            _ => {},
        }
        i += 1;
    }
    assert(views.take(i as int) =~= views);
    r
}

/// Where the next page begins; after a page without identifiers there is none.
pub fn next_page(offset: i64, ids: &Vec<CorrelationID>) -> (r: Option<i64>)
    requires
        offset + ids.len() <= i64::MAX,
        0 <= offset,
    ensures
        r == if ids.len() == 0 {
            None::<i64>
        } else {
            Some((offset + ids.len()) as i64)
        },
{
    if ids.len() == 0 {
        None
    } else {
        Some(offset + ids.len() as i64)
    }
}

/// The statement of [`store_correlation_in_dictionary`].
pub open spec fn spec_store_correlation_in_dictionary(
    correlation: &Correlation,
    error_rates: &str,
    occurrences: &str,
    now: i64,
) -> StatementView {
    StatementView {
        sql: "INSERT INTO correlations (id, dictionary_id, pattern_id, event_id, error_rates, occurrences, subject_id, aspect_id, created_at, updated_at) VALUES (?, ?, ?, ?, ?, ?, ?, ?, ?, ?)"@,
        params: dictionary_row(*correlation, error_rates@, occurrences@, now as int),
    }
}

/// The statement that writes a correlation into a dictionary, where the rates and the stretches are
/// written as texts.
pub fn store_correlation_in_dictionary(
    correlation: &Correlation,
    error_rates: &str,
    occurrences: &str,
    now: i64,
) -> (r: Statement)
    ensures
        r@ == spec_store_correlation_in_dictionary(correlation, error_rates, occurrences, now),
{
    statement(
        "INSERT INTO correlations (id, dictionary_id, pattern_id, event_id, error_rates, occurrences, subject_id, aspect_id, created_at, updated_at) VALUES (?, ?, ?, ?, ?, ?, ?, ?, ?, ?)",
        dictionary_values(correlation, error_rates, occurrences, now),
    )
}

fn dictionary_values(correlation: &Correlation, error_rates: &str, occurrences: &str, now: i64) -> (r:
    Vec<SqlValue>)
    ensures
        value_views(r@) == dictionary_row(*correlation, error_rates@, occurrences@, now as int),
{
    let mut params: Vec<SqlValue> = Vec::new();
    params.push(text_value(correlation.id.text().as_str()));
    params.push(text_value(correlation.dictionary_id.text().as_str()));
    params.push(text_value(correlation.pattern_id.text().as_str()));
    params.push(text_value(correlation.event_id.text().as_str()));
    params.push(text_value(error_rates));
    params.push(text_value(occurrences));
    params.push(text_value(correlation.subject_id.text().as_str()));
    params.push(text_value(correlation.aspect_id.text().as_str()));
    params.push(SqlValue::Integer(now));
    params.push(SqlValue::Integer(now));
    assert(value_views(params@) =~= dictionary_row(
        *correlation,
        error_rates@,
        occurrences@,
        now as int,
    ));
    params
}

/// The step that takes a correlation out of a dictionary before it is written there anew.
pub open spec fn clear_step(id: u128) -> StepView {
    rolled_back(
        "DELETE FROM correlations WHERE id = ?"@,
        seq![SqlView::Text(uuid_text(id))],
        "Failed to update correlation: "@,
    )
}

/// The step that writes a correlation into a dictionary anew.
pub open spec fn rewrite_step(
    c: Correlation,
    error_rates: Seq<char>,
    occurrences: Seq<char>,
    now: int,
) -> StepView {
    rolled_back(
        "INSERT INTO correlations (id, dictionary_id, pattern_id, event_id, error_rates, occurrences, subject_id, aspect_id, created_at, updated_at) VALUES (?, ?, ?, ?, ?, ?, ?, ?, ?, ?)"@,
        dictionary_row(c, error_rates, occurrences, now),
        "Failed to update correlation: "@,
    )
}

/// How a correlation in a dictionary is replaced, or written where it is not there yet: what stands
/// under its identifier is taken out, and it is written anew, in one transaction.
pub fn update_correlation_in_dictionary(
    correlation: &Correlation,
    error_rates: &str,
    occurrences: &str,
    now: i64,
) -> (r: Vec<Step>)
    ensures
        step_views(r@) == seq![
            clear_step(correlation.id.value),
            rewrite_step(*correlation, error_rates@, occurrences@, now as int),
        ],
{
    let mut r: Vec<Step> = Vec::new();
    r.push(
        by_id(
            &correlation.id,
            "DELETE FROM correlations WHERE id = ?",
            "Failed to update correlation: ",
        ),
    );
    r.push(
        rolling_back(
            "INSERT INTO correlations (id, dictionary_id, pattern_id, event_id, error_rates, occurrences, subject_id, aspect_id, created_at, updated_at) VALUES (?, ?, ?, ?, ?, ?, ?, ?, ?, ?)",
            dictionary_values(correlation, error_rates, occurrences, now),
            "Failed to update correlation: ",
        ),
    );
    assert(step_views(r@) =~= seq![r@[0]@, r@[1]@]);
    r
}

/// All the columns of a correlation in a dictionary.
pub open spec fn dictionary_row(
    c: Correlation,
    error_rates: Seq<char>,
    occurrences: Seq<char>,
    now: int,
) -> Seq<SqlView> {
    dictionary_columns(c, error_rates, occurrences) + seq![
        SqlView::Text(uuid_text(c.subject_id.value)),
        SqlView::Text(uuid_text(c.aspect_id.value)),
        SqlView::Integer(now),
        SqlView::Integer(now),
    ]
}

/// The columns of a correlation in a dictionary in which it is read back.
pub open spec fn dictionary_columns(
    c: Correlation,
    error_rates: Seq<char>,
    occurrences: Seq<char>,
) -> Seq<SqlView> {
    seq![
        SqlView::Text(uuid_text(c.id.value)),
        SqlView::Text(uuid_text(c.dictionary_id.value)),
        SqlView::Text(uuid_text(c.pattern_id.value)),
        SqlView::Text(uuid_text(c.event_id.value)),
        SqlView::Text(error_rates),
        SqlView::Text(occurrences),
    ]
}

/// What is done after the statement that writes a correlation into a dictionary: the cause of a
/// failure is not told.
pub fn after_storing(outcome: Result<u64, String>) -> (r: Action)
    ensures
        r@ == match outcome {
            Ok(_) => ActionView::Commit,
            Err(_) => ActionView::RollBack("Failed to insert correlation"@),
        },
{
    match outcome {
        Ok(_) => Action::Commit,
        Err(_) => Action::RollBack("Failed to insert correlation".to_owned()),
    }
}

/// What is wrong with a row of a correlation in a dictionary.
pub open spec fn dictionary_error(
    row: Seq<SqlView>,
    rates: Result<Vec<KeyedRate>, String>,
    occurrences: Result<Vec<Occurrence>, String>,
    message: Seq<char>,
) -> bool {
    let columns = or(
        no_text(row[0], "Correlation ID"@),
        or(
            no_text(row[1], "Dictionary ID"@),
            or(
                no_text(row[2], "Pattern ID"@),
                or(
                    no_text(row[3], "Event ID"@),
                    or(no_text(row[4], "Error rates"@), no_text(row[5], "Occurrences"@)),
                ),
            ),
        ),
    );
    let ids = or(
        bad_uuid(text_in(row[0])),
        or(
            bad_uuid(text_in(row[1])),
            or(bad_uuid(text_in(row[2])), bad_uuid(text_in(row[3]))),
        ),
    );
    let before = or(
        columns,
        or(ids, bad_json("Failed to deserialize error rates: "@, refusal(rates))),
    );
    if before is Some {
        before == Some(message)
    } else if exists|i: int| #[trigger] is_first_bad_key(rates->Ok_0@, i) {
        exists|i: int| #[trigger]
            is_first_bad_key(rates->Ok_0@, i) && message == "Invalid SignalType key: "@
                + rates->Ok_0@[i].key@
    } else {
        bad_json("Failed to deserialize occurrences: "@, refusal(occurrences)) == Some(message)
    }
}

/// The correlation in a row of a dictionary, or the error; what its rates and its stretches read as
/// is given, and whose it is.
pub fn parse_dictionary_row(
    row: &Vec<SqlValue>,
    rates: Result<Vec<KeyedRate>, String>,
    occurrences: Result<Vec<Occurrence>, String>,
    subject_id: SubjectId,
    aspect_id: &AspectId,
) -> (r: Result<Correlation, Error>)
    requires
        row.len() == 6,
    ensures
        match r {
            Ok(c) => {
                let views = value_views(row@);
                &&& uuid_parse(text_in(views[0])) == Ok::<u128, Seq<char>>(c.id.value)
                &&& uuid_parse(text_in(views[1])) == Ok::<u128, Seq<char>>(c.dictionary_id.value)
                &&& uuid_parse(text_in(views[2])) == Ok::<u128, Seq<char>>(c.pattern_id.value)
                &&& uuid_parse(text_in(views[3])) == Ok::<u128, Seq<char>>(c.event_id.value)
                &&& c.subject_id == subject_id
                &&& c.aspect_id == *aspect_id
                &&& rates is Ok
                &&& c.error_rate.is_valid()
                &&& c.error_rate@ == rates_of(rates->Ok_0@)
                &&& occurrences is Ok
                &&& c.occurrences == occurrences->Ok_0
                &&& c.average_distance is None
                &&& forall|s: Seq<char>| !dictionary_error(views, rates, occurrences, s)
            },
            Err(e) => e is Message && dictionary_error(
                value_views(row@),
                rates,
                occurrences,
                e.spec_message(),
            ),
        },
        forall|written: Correlation, error_text: Seq<char>, occurrence_text: Seq<char>|
            value_views(row@) == #[trigger] dictionary_columns(written, error_text, occurrence_text)
                && rates is Ok && occurrences is Ok && (forall|i: int|
                0 <= i < rates->Ok_0@.len() ==> signal_name((#[trigger] rates->Ok_0@[i]).key@)
                    is Some) ==> r is Ok && r->Ok_0.id == written.id && r->Ok_0.dictionary_id
                == written.dictionary_id && r->Ok_0.pattern_id == written.pattern_id
                && r->Ok_0.event_id == written.event_id,
{
    let ghost views = value_views(row@);
    assert(forall|i: int| 0 <= i < 6 ==> #[trigger] views[i] == row@[i]@);
    let id = match any_text_column(row, 0, "Correlation ID") {
        Ok(s) => s,
        Err(e) => {
            return Err(e);
        },
    };
    let dictionary = match any_text_column(row, 1, "Dictionary ID") {
        Ok(s) => s,
        Err(e) => {
            return Err(e);
        },
    };
    let pattern = match any_text_column(row, 2, "Pattern ID") {
        Ok(s) => s,
        Err(e) => {
            return Err(e);
        },
    };
    let event = match any_text_column(row, 3, "Event ID") {
        Ok(s) => s,
        Err(e) => {
            return Err(e);
        },
    };
    match any_text_column(row, 4, "Error rates") {
        Ok(_) => {},
        Err(e) => {
            return Err(e);
        },
    }
    match any_text_column(row, 5, "Occurrences") {
        Ok(_) => {},
        Err(e) => {
            return Err(e);
        },
    }
    let id: u128 = match plain_uuid(&id) {
        Ok(id) => id,
        Err(e) => {
            return Err(e);
        },
    };
    let dictionary: u128 = match plain_uuid(&dictionary) {
        Ok(id) => id,
        Err(e) => {
            return Err(e);
        },
    };
    let pattern: u128 = match plain_uuid(&pattern) {
        Ok(id) => id,
        Err(e) => {
            return Err(e);
        },
    };
    let event: u128 = match plain_uuid(&event) {
        Ok(id) => id,
        Err(e) => {
            return Err(e);
        },
    };
    let rates = match rates {
        Ok(rates) => rates,
        Err(e) => {
            return Err(
                Error::Message(join("Failed to deserialize error rates: ", e.as_str())),
            );
        },
    };
    let ghost keyed = rates@;
    let error_rates = match error_rates(rates) {
        Ok(table) => table,
        Err(e) => {
            return Err(e);
        },
    };
    assert(!exists|i: int| #[trigger] is_first_bad_key(keyed, i));
    let occurrences = match occurrences {
        Ok(occurrences) => occurrences,
        Err(e) => {
            return Err(
                Error::Message(join("Failed to deserialize occurrences: ", e.as_str())),
            );
        },
    };
    Ok(
        Correlation::new(
            Some(CorrelationID { value: id }),
            DictionaryId { value: dictionary },
            subject_id,
            aspect_id,
            PatternID { value: pattern },
            EventID { value: event },
            error_rates,
            occurrences,
        ),
    )
}

/// The step of [`delete_correlation_from_dictionary`].
pub open spec fn spec_delete_correlation_from_dictionary(
    correlation_id: &CorrelationID,
) -> StepView {
    rolled_back(
        "DELETE FROM correlations WHERE id = ?"@,
        seq![SqlView::Text(uuid_text(correlation_id.value))],
        "Failed to delete correlation: "@,
    )
}

/// How a correlation is taken out of a dictionary.
pub fn delete_correlation_from_dictionary(correlation_id: &CorrelationID) -> (r: Step)
    ensures
        r@ == spec_delete_correlation_from_dictionary(correlation_id),
{
    by_id(
        correlation_id,
        "DELETE FROM correlations WHERE id = ?",
        "Failed to delete correlation: ",
    )
}

/// The statement of [`get_correlations_from_dictionary`].
pub open spec fn spec_get_correlations_from_dictionary() -> StatementView {
    StatementView {
        sql: "SELECT id, dictionary_id, pattern_id, event_id, error_rates, occurrences FROM correlations ORDER BY updated_at DESC"@,
        params: seq![],
    }
}

/// The query for the correlations of a dictionary, the one that was changed last first.
pub fn get_correlations_from_dictionary() -> (r: Statement)
    ensures
        r@ == spec_get_correlations_from_dictionary(),
{
    statement(
        "SELECT id, dictionary_id, pattern_id, event_id, error_rates, occurrences FROM correlations ORDER BY updated_at DESC",
        no_values(),
    )
}

/// The statement of [`get_correlation_by_id_from_dictionary`].
pub open spec fn spec_get_correlation_by_id_from_dictionary(
    correlation_id: &CorrelationID,
) -> StatementView {
    StatementView {
        sql: "SELECT id, dictionary_id, pattern_id, event_id, error_rates, occurrences FROM correlations WHERE id = ? LIMIT 1"@,
        params: seq![SqlView::Text(uuid_text(correlation_id.value))],
    }
}

/// The query for a correlation of a dictionary.
pub fn get_correlation_by_id_from_dictionary(correlation_id: &CorrelationID) -> (r: Statement)
    ensures
        r@ == spec_get_correlation_by_id_from_dictionary(correlation_id),
{
    statement(
        "SELECT id, dictionary_id, pattern_id, event_id, error_rates, occurrences FROM correlations WHERE id = ? LIMIT 1",
        one_id(correlation_id.value),
    )
}

}
