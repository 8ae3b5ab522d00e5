//! Patterns: how they are written and read.
use crate::columns::{
    i64_of_usize,
    not_decimal,
    not_integer,
    not_size,
    not_text,
    not_uuid,
    or,
    refusal,
    size_field,
    tells,
    uuid_field,
};
use crate::decimal::{decimal_text, Decimal, DecimalView};
use crate::error::{failure, Error};
use crate::ids::{uuid_parse, uuid_text, AspectId, PatternID};
use crate::measurement::{Relative, RelativeView};
use crate::names::name_views;
use crate::pattern::{Occurrence, OccurrenceView, Pattern, PatternView};
use crate::sql::{
    integer_column,
    no_values,
    statement,
    statement_views,
    text_column,
    text_value,
    value_views,
    SqlValue,
    SqlView,
    Statement,
    StatementView,
};
use crate::store::occurrences::{
    all_timed,
    first_unfit,
    lemma_not_before,
    patterned_row,
    unfit_message,
};
use crate::text::join;
use crate::transaction::{rolled_back, rolling_back, step_views, Script, ScriptView, Step, StepView};
use vstd::prelude::*;

verus! {

/// The figures of a pattern that are stored beside it.
#[derive(Debug)]
pub struct Figures {
    pub sum: Decimal,
    pub abs_sum: Decimal,
    pub max: Decimal,
    pub min: Decimal,
    pub abs_max: Decimal,
    pub avg: Decimal,
    pub abs_avg: Decimal,
}

pub open spec fn decimal_column(d: DecimalView) -> SqlView {
    SqlView::Text(decimal_text(d.mantissa, d.scale))
}

fn decimal_value(d: &Decimal) -> (r: SqlValue)
    requires
        d@.is_operand(),
    ensures
        r@ == decimal_column(d@),
{
    text_value(d.text().as_str())
}

impl Figures {
    pub open spec fn is_writable(self) -> bool {
        &&& self.sum@.is_operand()
        &&& self.abs_sum@.is_operand()
        &&& self.max@.is_operand()
        &&& self.min@.is_operand()
        &&& self.abs_max@.is_operand()
        &&& self.avg@.is_operand()
        &&& self.abs_avg@.is_operand()
    }

    /// The columns of a pattern with its figures.
    pub open spec fn columns(self, pattern: u128) -> Seq<SqlView> {
        seq![
            SqlView::Text(uuid_text(pattern)),
            decimal_column(self.sum@),
            decimal_column(self.abs_sum@),
            decimal_column(self.max@),
            decimal_column(self.min@),
            decimal_column(self.abs_max@),
            decimal_column(self.avg@),
            decimal_column(self.abs_avg@),
        ]
    }
}

/// The step that writes a pattern itself.
pub open spec fn figures_step(pattern: u128, figures: Figures, complaint: Seq<char>) -> StepView {
    rolled_back(
        "INSERT INTO patterns (id, sum_value, abs_sum_value, max_value, min_value, abs_max_value, avg_value, abs_avg_value) VALUES (?, ?, ?, ?, ?, ?, ?, ?)"@,
        figures.columns(pattern),
        complaint,
    )
}

fn write_figures(pattern: &PatternID, figures: &Figures, complaint: &str) -> (r: Step)
    requires
        figures.is_writable(),
    ensures
        r@ == figures_step(pattern.value, *figures, complaint@),
{
    let mut params: Vec<SqlValue> = Vec::new();
    params.push(text_value(pattern.text().as_str()));
    params.push(decimal_value(&figures.sum));
    params.push(decimal_value(&figures.abs_sum));
    params.push(decimal_value(&figures.max));
    params.push(decimal_value(&figures.min));
    params.push(decimal_value(&figures.abs_max));
    params.push(decimal_value(&figures.avg));
    params.push(decimal_value(&figures.abs_avg));
    assert(value_views(params@) =~= figures.columns(pattern.value));
    rolling_back(
        "INSERT INTO patterns (id, sum_value, abs_sum_value, max_value, min_value, abs_max_value, avg_value, abs_avg_value) VALUES (?, ?, ?, ?, ?, ?, ?, ?)",
        params,
        complaint,
    )
}

/// The step that writes a stretch of a pattern; in a dictionary its place is written too.
pub open spec fn stretch_step(
    pattern: u128,
    aspect: u128,
    is_placed: bool,
    index: int,
    o: OccurrenceView,
    info: Seq<char>,
) -> StepView {
    let row = patterned_row(pattern, aspect, o, info);
    if is_placed {
        rolled_back(
            "INSERT INTO pattern_occurrences (pattern_id, occurrence_index, aspect_id, resolution, size, database_info, beginning_timestamp, end_timestamp) VALUES (?, ?, ?, ?, ?, ?, ?, ?)"@,
            row.insert(1, SqlView::Integer(index)),
            "Failed to insert occurrence: "@,
        )
    } else {
        rolled_back(
            "INSERT INTO pattern_occurrences (pattern_id, aspect_id, resolution, size, database_info, beginning_timestamp, end_timestamp) VALUES (?, ?, ?, ?, ?, ?, ?)"@,
            row,
            "Failed to insert occurrence: "@,
        )
    }
}

/// The steps that write the stretches of a pattern, up to the first that does not fit.
pub open spec fn stretch_steps(
    p: PatternView,
    aspect: u128,
    is_placed: bool,
    infos: Seq<Seq<char>>,
) -> Seq<StepView> {
    Seq::new(
        first_unfit(p.occurrences, is_placed, 0) as nat,
        |i: int|
            stretch_step(p.id.value, aspect, is_placed, i, p.occurrences[i], infos[i]),
    )
}

fn write_stretch(
    pattern_id: &PatternID,
    aspect_id: &AspectId,
    index: Option<i64>,
    occurrence: &Occurrence,
    size: i64,
    info: &str,
) -> (r: Step)
    requires
        size == occurrence.size,
        occurrence.beginning.is_valid(),
        occurrence.end.is_valid(),
    ensures
        r@ == stretch_step(
            pattern_id.value,
            aspect_id.value,
            index is Some,
            match index {
                Some(i) => i as int,
                None => 0,
            },
            occurrence@,
            info@,
        ),
{
    let ghost row = patterned_row(pattern_id.value, aspect_id.value, occurrence@, info@);
    let mut params: Vec<SqlValue> = Vec::new();
    params.push(text_value(pattern_id.text().as_str()));
    match index {
        Some(i) => {
            params.push(SqlValue::Integer(i));
        },
        None => {},
    }
    params.push(text_value(aspect_id.text().as_str()));
    params.push(text_value(occurrence.resolution.text().as_str()));
    params.push(SqlValue::Integer(size));
    params.push(text_value(info));
    params.push(SqlValue::Integer(occurrence.beginning.millis()));
    params.push(SqlValue::Integer(occurrence.end.millis()));
    if index.is_some() {
        assert(value_views(params@) =~= row.insert(1, SqlView::Integer(index->0 as int)));
        rolling_back(
            "INSERT INTO pattern_occurrences (pattern_id, occurrence_index, aspect_id, resolution, size, database_info, beginning_timestamp, end_timestamp) VALUES (?, ?, ?, ?, ?, ?, ?, ?)",
            params,
            "Failed to insert occurrence: ",
        )
    } else {
        assert(value_views(params@) =~= row);
        rolling_back(
            "INSERT INTO pattern_occurrences (pattern_id, aspect_id, resolution, size, database_info, beginning_timestamp, end_timestamp) VALUES (?, ?, ?, ?, ?, ?, ?)",
            params,
            "Failed to insert occurrence: ",
        )
    }
}

/// Writes the stretches, and tells of the first that does not fit.
fn write_stretches(
    pattern: &Pattern,
    aspect_id: &AspectId,
    is_placed: bool,
    infos: &Vec<String>,
    steps: &mut Vec<Step>,
) -> (r: Option<Error>)
    requires
        all_timed(pattern@.occurrences),
        infos.len() == pattern.occurrences.len(),
    ensures
        step_views(final(steps)@) == step_views(old(steps)@) + stretch_steps(
            pattern@,
            aspect_id.value,
            is_placed,
            name_views(infos@),
        ),
        match r {
            Some(e) => e is Message && tells(e, unfit_message(pattern@.occurrences, is_placed)),
            None => unfit_message(pattern@.occurrences, is_placed) is None,
        },
{
    let ghost views = pattern@.occurrences;
    let ghost before = step_views(steps@);
    let ghost wanted = stretch_steps(pattern@, aspect_id.value, is_placed, name_views(infos@));
    let mut i: usize = 0;
    assert(before =~= before + wanted.take(0));
    proof {
        lemma_not_before(views, is_placed, 0);
    }
    while i < pattern.occurrences.len()
        invariant
            i <= pattern.occurrences.len(),
            infos.len() == pattern.occurrences.len(),
            all_timed(views),
            views == pattern@.occurrences,
            wanted == stretch_steps(pattern@, aspect_id.value, is_placed, name_views(infos@)),
            first_unfit(views, is_placed, 0) == first_unfit(views, is_placed, i as int),
            i <= first_unfit(views, is_placed, 0),
            step_views(steps@) == before + wanted.take(i as int),
            before == step_views(old(steps)@),
        decreases pattern.occurrences.len() - i,
    {
        let ghost written = steps@;
        let occurrence = &pattern.occurrences[i];
        assert(views[i as int] == occurrence@);
        let mut index: Option<i64> = None;
        if is_placed {
            match i64_of_usize(i) {
                Ok(n) => {
                    index = Some(n);
                },
                Err(_) => {
                    assert(wanted.take(i as int) =~= wanted);
                    return Some(Error::Message("Occurrence index too large for i64".to_owned()));
                },
            }
        }
        let size: i64 = match i64_of_usize(occurrence.size) {
            Ok(n) => n,
            Err(_) => {
                assert(wanted.take(i as int) =~= wanted);
                return Some(Error::Message("Occurrence size too large for i64".to_owned()));
            },
        };
        proof {
            lemma_not_before(views, is_placed, i + 1);
        }
        let next = write_stretch(
            &pattern.id,
            aspect_id,
            index,
            occurrence,
            size,
            infos[i].as_str(),
        );
        assert(name_views(infos@)[i as int] == infos@[i as int]@);
        assert(next@ == wanted[i as int]);
        steps.push(next);
        proof {
            assert(step_views(steps@) =~= step_views(written).push(wanted[i as int]));
            assert(wanted.take(i + 1) =~= wanted.take(i as int).push(wanted[i as int]));
            assert(step_views(steps@) =~= before + wanted.take(i + 1));
        }
        i += 1;
    }
    assert(wanted.take(i as int) =~= wanted);
    None
}

/// How many of a number of relatives have a place that fits into a column.
pub open spec fn fitting_places(n: nat) -> nat {
    if n <= i64::MAX + 1 {
        n
    } else {
        (i64::MAX + 1) as nat
    }
}

/// What is told where there are too many relatives.
pub open spec fn relatives_message(n: nat) -> Option<Seq<char>> {
    if n <= i64::MAX + 1 {
        None
    } else {
        Some("Relative index too large for i64"@)
    }
}

/// The step that writes a relative of a pattern.
pub open spec fn relative_step(pattern: u128, index: int, relative: RelativeView) -> StepView {
    rolled_back(
        "INSERT INTO pattern_relatives (pattern_id, relative_index, vector_location, vector_amplitude, max_x, max_y) VALUES (?, ?, ?, ?, ?, ?)"@,
        seq![
            SqlView::Text(uuid_text(pattern)),
            SqlView::Integer(index),
            decimal_column(relative.vector.location),
            decimal_column(relative.vector.amplitude),
            decimal_column(relative.max_x),
            decimal_column(relative.max_y),
        ],
        "Failed to insert relative: "@,
    )
}

/// The steps that write the relatives of a pattern.
pub open spec fn relative_steps(p: PatternView) -> Seq<StepView> {
    Seq::new(
        fitting_places(p.relatives.len()),
        |i: int| relative_step(p.id.value, i, p.relatives[i]),
    )
}

pub open spec fn relatives_writable(s: Seq<RelativeView>) -> bool {
    forall|i: int|
        0 <= i < s.len() ==> (#[trigger] s[i]).vector.location.is_operand()
            && s[i].vector.amplitude.is_operand() && s[i].max_x.is_operand()
            && s[i].max_y.is_operand()
}

fn write_relatives(pattern: &Pattern, steps: &mut Vec<Step>) -> (r: Option<Error>)
    requires
        relatives_writable(pattern@.relatives),
    ensures
        step_views(final(steps)@) == step_views(old(steps)@) + relative_steps(pattern@),
        match r {
            Some(e) => e is Message && tells(e, relatives_message(pattern@.relatives.len())),
            None => relatives_message(pattern@.relatives.len()) is None,
        },
{
    let ghost views = pattern@.relatives;
    let ghost before = step_views(steps@);
    let ghost wanted = relative_steps(pattern@);
    let id = pattern.id.text();
    let mut i: usize = 0;
    assert(before =~= before + wanted.take(0));
    while i < pattern.relatives.len()
        invariant
            i <= pattern.relatives.len(),
            relatives_writable(views),
            id@ == uuid_text(pattern.id.value),
            views == pattern@.relatives,
            wanted == relative_steps(pattern@),
            i <= fitting_places(views.len()),
            step_views(steps@) == before + wanted.take(i as int),
            before == step_views(old(steps)@),
        decreases pattern.relatives.len() - i,
    {
        let ghost written = steps@;
        let relative = &pattern.relatives[i];
        assert(views[i as int] == relative@);
        let index: i64 = match i64_of_usize(i) {
            Ok(n) => n,
            Err(_) => {
                assert(wanted.take(i as int) =~= wanted);
                return Some(Error::Message("Relative index too large for i64".to_owned()));
            },
        };
        let mut params: Vec<SqlValue> = Vec::new();
        params.push(text_value(id.as_str()));
        params.push(SqlValue::Integer(index));
        params.push(decimal_value(&relative.vector.location));
        params.push(decimal_value(&relative.vector.amplitude));
        params.push(decimal_value(&relative.max_x));
        params.push(decimal_value(&relative.max_y));
        assert(value_views(params@) =~= relative_step(
            pattern.id.value,
            i as int,
            relative@,
        ).statement.params);
        steps.push(
            rolling_back(
                "INSERT INTO pattern_relatives (pattern_id, relative_index, vector_location, vector_amplitude, max_x, max_y) VALUES (?, ?, ?, ?, ?, ?)",
                params,
                "Failed to insert relative: ",
            ),
        );
        proof {
            assert(step_views(steps@) =~= step_views(written).push(wanted[i as int]));
            assert(wanted.take(i + 1) =~= wanted.take(i as int).push(wanted[i as int]));
            assert(step_views(steps@) =~= before + wanted.take(i + 1));
        }
        i += 1;
    }
    assert(wanted.take(i as int) =~= wanted);
    None
}

/// How a pattern is written for an aspect: its figures, its stretches and its relatives. The
/// description of the database of each stretch is given.
pub fn insert_pattern(
    aspect_id: &AspectId,
    pattern: &Pattern,
    figures: &Figures,
    infos: &Vec<String>,
) -> (r: Script)
    requires
        figures.is_writable(),
        all_timed(pattern@.occurrences),
        relatives_writable(pattern@.relatives),
        infos.len() == pattern.occurrences.len(),
    ensures
        ({
            let unfit = unfit_message(pattern@.occurrences, false);
            r@ == (ScriptView {
                steps: seq![figures_step(pattern.id.value, *figures, "Failed to insert pattern: "@)]
                    + stretch_steps(pattern@, aspect_id.value, false, name_views(infos@))
                    + if unfit is None {
                    relative_steps(pattern@)
                } else {
                    seq![]
                },
                stop: failure(or(unfit, relatives_message(pattern@.relatives.len()))),
            })
        }),
{
    let mut steps: Vec<Step> = Vec::new();
    steps.push(write_figures(&pattern.id, figures, "Failed to insert pattern: "));
    assert(step_views(steps@) =~= seq![
        figures_step(pattern.id.value, *figures, "Failed to insert pattern: "@),
    ]);
    match write_stretches(pattern, aspect_id, false, infos, &mut steps) {
        Some(e) => {
            let r = Script { steps, stop: Some(e) };
            assert(r@.steps =~= r@.steps + Seq::<StepView>::empty());
            r
        },
        None => {
            let stop = write_relatives(pattern, &mut steps);
            Script { steps, stop }
        },
    }
}

/// The step that writes a relative of a pattern of a dictionary.
pub open spec fn relative_text_step(pattern: u128, index: int, relative: Seq<char>) -> StepView {
    rolled_back(
        "INSERT INTO pattern_relatives (pattern_id, relative_index, relative_value) VALUES (?, ?, ?)"@,
        seq![
            SqlView::Text(uuid_text(pattern)),
            SqlView::Integer(index),
            SqlView::Text(relative),
        ],
        "Failed to insert relative: "@,
    )
}

pub open spec fn relative_text_steps(pattern: u128, relatives: Seq<Seq<char>>) -> Seq<StepView> {
    Seq::new(
        fitting_places(relatives.len()),
        |i: int| relative_text_step(pattern, i, relatives[i]),
    )
}

fn write_relative_texts(id: &PatternID, relatives: &Vec<String>, steps: &mut Vec<Step>) -> (r:
    Option<Error>)
    ensures
        step_views(final(steps)@) == step_views(old(steps)@) + relative_text_steps(
            id.value,
            name_views(relatives@),
        ),
        match r {
            Some(e) => e is Message && tells(e, relatives_message(relatives@.len())),
            None => relatives_message(relatives@.len()) is None,
        },
{
    let ghost views = name_views(relatives@);
    let ghost before = step_views(steps@);
    let ghost wanted = relative_text_steps(id.value, views);
    let text = id.text();
    let mut i: usize = 0;
    assert(before =~= before + wanted.take(0));
    while i < relatives.len()
        invariant
            i <= relatives.len(),
            text@ == uuid_text(id.value),
            views == name_views(relatives@),
            wanted == relative_text_steps(id.value, views),
            i <= fitting_places(views.len()),
            step_views(steps@) == before + wanted.take(i as int),
            before == step_views(old(steps)@),
        decreases relatives.len() - i,
    {
        let ghost written = steps@;
        assert(views[i as int] == relatives@[i as int]@);
        let index: i64 = match i64_of_usize(i) {
            Ok(n) => n,
            Err(_) => {
                assert(wanted.take(i as int) =~= wanted);
                return Some(Error::Message("Relative index too large for i64".to_owned()));
            },
        };
        let mut params: Vec<SqlValue> = Vec::new();
        params.push(text_value(text.as_str()));
        params.push(SqlValue::Integer(index));
        params.push(text_value(relatives[i].as_str()));
        assert(value_views(params@) =~= relative_text_step(
            id.value,
            i as int,
            views[i as int],
        ).statement.params);
        steps.push(
            rolling_back(
                "INSERT INTO pattern_relatives (pattern_id, relative_index, relative_value) VALUES (?, ?, ?)",
                params,
                "Failed to insert relative: ",
            ),
        );
        proof {
            assert(step_views(steps@) =~= step_views(written).push(wanted[i as int]));
            assert(wanted.take(i + 1) =~= wanted.take(i as int).push(wanted[i as int]));
            assert(step_views(steps@) =~= before + wanted.take(i + 1));
        }
        i += 1;
    }
    assert(wanted.take(i as int) =~= wanted);
    None
}

/// How a pattern is written into a dictionary: its figures, its stretches with their places and its
/// relatives as texts. The description of the database of each stretch is given.
pub fn insert_pattern_into_dictionary(
    aspect_id: &AspectId,
    pattern: &Pattern,
    figures: &Figures,
    infos: &Vec<String>,
    relatives: &Vec<String>,
) -> (r: Script)
    requires
        figures.is_writable(),
        all_timed(pattern@.occurrences),
        infos.len() == pattern.occurrences.len(),
        relatives.len() == pattern.relatives.len(),
    ensures
        ({
            let unfit = unfit_message(pattern@.occurrences, true);
            r@ == (ScriptView {
                steps: seq![
                    figures_step(
                        pattern.id.value,
                        *figures,
                        "Failed to insert pattern into dictionary: "@,
                    ),
                ] + stretch_steps(pattern@, aspect_id.value, true, name_views(infos@))
                    + if unfit is None {
                    relative_text_steps(pattern.id.value, name_views(relatives@))
                } else {
                    seq![]
                },
                stop: failure(or(unfit, relatives_message(pattern@.relatives.len()))),
            })
        }),
{
    let mut steps: Vec<Step> = Vec::new();
    steps.push(
        write_figures(&pattern.id, figures, "Failed to insert pattern into dictionary: "),
    );
    assert(step_views(steps@) =~= seq![
        figures_step(pattern.id.value, *figures, "Failed to insert pattern into dictionary: "@),
    ]);
    match write_stretches(pattern, aspect_id, true, infos, &mut steps) {
        Some(e) => {
            let r = Script { steps, stop: Some(e) };
            assert(r@.steps =~= r@.steps + Seq::<StepView>::empty());
            r
        },
        None => {
            let stop = write_relative_texts(&pattern.id, relatives, &mut steps);
            Script { steps, stop }
        },
    }
}

/// The step of [`remove_pattern`].
pub open spec fn spec_remove_pattern(pattern: &PatternID) -> StepView {
    rolled_back(
        "DELETE FROM patterns WHERE id = ?"@,
        seq![SqlView::Text(uuid_text(pattern.value))],
        "Failed to remove pattern: "@,
    )
}

/// How a pattern is taken out.
pub fn remove_pattern(pattern: &PatternID) -> (r: Step)
    ensures
        r@ == spec_remove_pattern(pattern),
{
    let mut params: Vec<SqlValue> = Vec::new();
    params.push(text_value(pattern.text().as_str()));
    assert(value_views(params@) =~= seq![SqlView::Text(uuid_text(pattern.value))]);
    rolling_back("DELETE FROM patterns WHERE id = ?", params, "Failed to remove pattern: ")
}

/// The step of [`clear_patterns`].
pub open spec fn spec_clear_patterns() -> StepView {
    rolled_back("DELETE FROM patterns"@, seq![], "Failed to clear patterns: "@)
}

/// How all patterns are taken out.
pub fn clear_patterns() -> (r: Step)
    ensures
        r@ == spec_clear_patterns(),
{
    let params: Vec<SqlValue> = Vec::new();
    assert(value_views(params@) =~= Seq::<SqlView>::empty());
    rolling_back("DELETE FROM patterns", params, "Failed to clear patterns: ")
}

/// What is wrong with a row of a pattern with its figures.
pub open spec fn figures_error(row: Seq<SqlView>) -> Option<Seq<char>> {
    or(
        not_text(row[0], "Pattern ID is not text"@),
        or(
            not_text(row[1], "Sum value is not text"@),
            or(
                not_text(row[2], "Abs sum value is not text"@),
                or(
                    not_text(row[3], "Max value is not text"@),
                    or(
                        not_text(row[4], "Min value is not text"@),
                        or(
                            not_text(row[5], "Abs max value is not text"@),
                            or(
                                not_text(row[6], "Avg value is not text"@),
                                or(
                                    not_text(row[7], "Abs avg value is not text"@),
                                    or(
                                        not_uuid(
                                            row[0],
                                            "Invalid UUID format for pattern ID: "@,
                                        ),
                                        figure_format_error(row),
                                    ),
                                ),
                            ),
                        ),
                    ),
                ),
            ),
        ),
    )
}

/// What is wrong with the numbers in a row of a pattern.
pub open spec fn figure_format_error(row: Seq<SqlView>) -> Option<Seq<char>> {
    or(
        not_decimal(row[1], "Invalid sum value format: "@),
        or(
            not_decimal(row[2], "Invalid abs sum value format: "@),
            or(
                not_decimal(row[3], "Invalid max value format: "@),
                or(
                    not_decimal(row[4], "Invalid min value format: "@),
                    or(
                        not_decimal(row[5], "Invalid abs max value format: "@),
                        or(
                            not_decimal(row[6], "Invalid avg value format: "@),
                            not_decimal(row[7], "Invalid abs avg value format: "@),
                        ),
                    ),
                ),
            ),
        ),
    )
}

fn check_decimal(text: &String, complaint: &str) -> (r: Option<Error>)
    ensures
        match r {
            Some(e) => tells(e, not_decimal(SqlView::Text(text@), complaint@)),
            None => not_decimal(SqlView::Text(text@), complaint@) is None,
        },
        forall|d: DecimalView|
            SqlView::Text(text@) == #[trigger] decimal_column(d) && d.is_operand() ==> r is None,
{
    match crate::columns::decimal_field(text, complaint) {
        Ok(_) => None,
        Err(e) => Some(e),
    }
}

/// The identifier of the pattern in a row, or the error. Every figure has to be a number, though the
/// pattern is rebuilt without them. A pattern that was written is read back.
pub fn parse_pattern_row(row: &Vec<SqlValue>) -> (r: Result<PatternID, Error>)
    requires
        row.len() == 8,
    ensures
        match r {
            Ok(id) => figures_error(value_views(row@)) is None && uuid_parse(
                value_views(row@)[0]->Text_0,
            ) == Ok::<u128, Seq<char>>(id.value),
            Err(e) => tells(e, figures_error(value_views(row@))),
        },
        forall|pattern: u128, figures: Figures|
            value_views(row@) == #[trigger] figures.columns(pattern) && figures.is_writable()
                ==> r is Ok && r->Ok_0.value == pattern,
{
    let ghost views = value_views(row@);
    assert(forall|i: int| 0 <= i < 8 ==> #[trigger] views[i] == row@[i]@);
    let id = match text_column(row, 0, "Pattern ID is not text") {
        Ok(s) => s,
        Err(e) => {
            return Err(e);
        },
    };
    let sum = match text_column(row, 1, "Sum value is not text") {
        Ok(s) => s,
        Err(e) => {
            return Err(e);
        },
    };
    let abs_sum = match text_column(row, 2, "Abs sum value is not text") {
        Ok(s) => s,
        Err(e) => {
            return Err(e);
        },
    };
    let max = match text_column(row, 3, "Max value is not text") {
        Ok(s) => s,
        Err(e) => {
            return Err(e);
        },
    };
    let min = match text_column(row, 4, "Min value is not text") {
        Ok(s) => s,
        Err(e) => {
            return Err(e);
        },
    };
    let abs_max = match text_column(row, 5, "Abs max value is not text") {
        Ok(s) => s,
        Err(e) => {
            return Err(e);
        },
    };
    let avg = match text_column(row, 6, "Avg value is not text") {
        Ok(s) => s,
        Err(e) => {
            return Err(e);
        },
    };
    let abs_avg = match text_column(row, 7, "Abs avg value is not text") {
        Ok(s) => s,
        Err(e) => {
            return Err(e);
        },
    };
    let id = match uuid_field(&id, "Invalid UUID format for pattern ID: ") {
        Ok(id) => PatternID { value: id },
        Err(e) => {
            return Err(e);
        },
    };
    match check_decimal(&sum, "Invalid sum value format: ") {
        Some(e) => {
            return Err(e);
        },
        None => {},
    }
    match check_decimal(&abs_sum, "Invalid abs sum value format: ") {
        Some(e) => {
            return Err(e);
        },
        None => {},
    }
    match check_decimal(&max, "Invalid max value format: ") {
        Some(e) => {
            return Err(e);
        },
        None => {},
    }
    match check_decimal(&min, "Invalid min value format: ") {
        Some(e) => {
            return Err(e);
        },
        None => {},
    }
    match check_decimal(&abs_max, "Invalid abs max value format: ") {
        Some(e) => {
            return Err(e);
        },
        None => {},
    }
    match check_decimal(&avg, "Invalid avg value format: ") {
        Some(e) => {
            return Err(e);
        },
        None => {},
    }
    match check_decimal(&abs_avg, "Invalid abs avg value format: ") {
        Some(e) => {
            return Err(e);
        },
        None => {},
    }
    Ok(id)
}

/// What is wrong with a row of a relative of a pattern of a dictionary.
pub open spec fn relative_error(row: Seq<SqlView>, relative: Option<Seq<char>>) -> Option<Seq<char>> {
    or(
        not_text(row[0], "Relative Pattern ID is not text"@),
        or(
            not_integer(row[1], "Relative Index is not integer"@),
            or(
                not_size(row[1], "Relative index out of range: "@),
                or(
                    not_text(row[2], "Relative Value is not text"@),
                    match relative {
                        Some(e) => Some(
                            crate::columns::database_error("Failed to parse relative JSON: "@ + e),
                        ),
                        None => None,
                    },
                ),
            ),
        ),
    )
}

/// The relative in a row of a pattern of a dictionary, or the error; what its text reads as is
/// given.
pub fn parse_relative_row(row: &Vec<SqlValue>, relative: Result<Relative, String>) -> (r: Result<
    Relative,
    Error,
>)
    requires
        row.len() == 3,
    ensures
        match r {
            Ok(value) => relative_error(value_views(row@), refusal(relative)) is None
                && relative is Ok && value == relative->Ok_0,
            Err(e) => tells(e, relative_error(value_views(row@), refusal(relative))),
        },
        forall|pattern: u128, index: int, text: Seq<char>|
            value_views(row@) == (#[trigger] relative_text_step(
                pattern,
                index,
                text,
            )).statement.params && 0 <= index <= usize::MAX && relative is Ok ==> r is Ok,
{
    let ghost views = value_views(row@);
    assert(views[0] == row@[0]@ && views[1] == row@[1]@ && views[2] == row@[2]@);
    match text_column(row, 0, "Relative Pattern ID is not text") {
        Ok(_) => {},
        Err(e) => {
            return Err(e);
        },
    }
    let index: i64 = match integer_column(row, 1, "Relative Index is not integer") {
        Ok(n) => n,
        Err(e) => {
            return Err(e);
        },
    };
    match size_field(index, "Relative index out of range: ") {
        Ok(_) => {},
        Err(e) => {
            return Err(e);
        },
    }
    match text_column(row, 2, "Relative Value is not text") {
        Ok(_) => {},
        Err(e) => {
            return Err(e);
        },
    }
    match relative {
        Ok(relative) => Ok(relative),
        Err(e) => Err(
            Error::DatabaseError(join("Failed to parse relative JSON: ", e.as_str())),
        ),
    }
}

/// The statements of [`pattern_queries`].
pub open spec fn spec_pattern_queries(pattern_id: &PatternID) -> Seq<StatementView> {
    seq![
        StatementView {
            sql: "SELECT id, sum_value, abs_sum_value, max_value, min_value, abs_max_value, avg_value, abs_avg_value FROM patterns WHERE id = ?"@,
            params: seq![SqlView::Text(uuid_text(pattern_id.value))],
        },
        StatementView {
            sql: "SELECT pattern_id, aspect_id, resolution, size, database_info, beginning_timestamp, end_timestamp FROM pattern_occurrences WHERE pattern_id = ?"@,
            params: seq![SqlView::Text(uuid_text(pattern_id.value))],
        },
        StatementView {
            sql: "SELECT pattern_id, relative_index, relative_value FROM pattern_relatives WHERE pattern_id = ? ORDER BY relative_index ASC"@,
            params: seq![SqlView::Text(uuid_text(pattern_id.value))],
        },
    ]
}

/// The queries for the row, the stretches and the relatives of a pattern of a dictionary.
pub fn pattern_queries(pattern_id: &PatternID) -> (r: Vec<Statement>)
    ensures
        statement_views(r@) == spec_pattern_queries(pattern_id),
{
    let mut r: Vec<Statement> = Vec::new();
    r.push(
        about(
            pattern_id,
            "SELECT id, sum_value, abs_sum_value, max_value, min_value, abs_max_value, avg_value, abs_avg_value FROM patterns WHERE id = ?",
        ),
    );
    r.push(
        about(
            pattern_id,
            "SELECT pattern_id, aspect_id, resolution, size, database_info, beginning_timestamp, end_timestamp FROM pattern_occurrences WHERE pattern_id = ?",
        ),
    );
    r.push(
        about(
            pattern_id,
            "SELECT pattern_id, relative_index, relative_value FROM pattern_relatives WHERE pattern_id = ? ORDER BY relative_index ASC",
        ),
    );
    assert(statement_views(r@) =~= seq![r@[0]@, r@[1]@, r@[2]@]);
    r
}

fn about(pattern_id: &PatternID, sql: &str) -> (r: Statement)
    ensures
        r@ == (StatementView { sql: sql@, params: seq![SqlView::Text(uuid_text(pattern_id.value))] }),
{
    let mut params: Vec<SqlValue> = Vec::new();
    params.push(text_value(pattern_id.text().as_str()));
    assert(value_views(params@) =~= seq![SqlView::Text(uuid_text(pattern_id.value))]);
    statement(sql, params)
}

/// The statement of [`patterns_query`].
pub open spec fn spec_patterns_query() -> StatementView {
    StatementView {
        sql: "SELECT id, sum_value, abs_sum_value, max_value, min_value, abs_max_value, avg_value, abs_avg_value FROM patterns"@,
        params: seq![],
    }
}

/// The query for every pattern.
pub fn patterns_query() -> (r: Statement)
    ensures
        r@ == spec_patterns_query(),
{
    statement(
        "SELECT id, sum_value, abs_sum_value, max_value, min_value, abs_max_value, avg_value, abs_avg_value FROM patterns",
        no_values(),
    )
}

}
