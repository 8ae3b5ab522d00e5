//! Dictionaries: how what is known of them and their patterns is written and read.
use crate::columns::{
    any_text_column,
    bad_json,
    database_error,
    instant_field,
    no_text,
    not_instant,
    not_integer,
    not_text,
    not_uuid,
    or,
    refusal,
    tells,
    text_in,
    uuid_field,
};
use crate::decimal::decimal_text;
use crate::dictionary::{variability_views, DictionaryConstraints, DictionaryMetadata, Steps};
use crate::error::Error;
use crate::ids::{uuid_parse, uuid_text, AspectId, DatabaseId, DictionaryId};
use crate::pattern::Pattern;
use crate::queue::patterns::WrittenPattern;
use crate::resolution::{spline_parse, spline_text, Spline};
use crate::sql::{
    chunk,
    chunk_count,
    integer_column,
    no_values,
    one_text,
    statement,
    text_column,
    text_value,
    value_views,
    SqlValue,
    SqlView,
    Statement,
    StatementView,
};
use crate::text::{
    i64_text,
    int_text,
    join,
    law_digits_are_read_back,
    nat_text,
    parse_usize,
    same_text,
    u64_text,
    unsigned_of,
    usize_refusal,
};
use crate::transaction::{
    in_transactions,
    rolled_back,
    rolling_back,
    step,
    step_views,
    transaction_views,
    OnFailure,
    Step,
    StepView,
};
use crate::variability::VariabilityView;
use vstd::prelude::*;

verus! {

/// A step without values, of whose failure only the cause is told.
pub open spec fn plain_step(sql: Seq<char>) -> StepView {
    StepView {
        statement: StatementView { sql, params: seq![] },
        complaint: ""@,
        on_failure: OnFailure::Tell,
    }
}

fn plain(sql: &str) -> (r: Step)
    ensures
        r@ == plain_step(sql@),
{
    let none: Vec<SqlValue> = Vec::new();
    assert(value_views(none@) =~= Seq::<SqlView>::empty());
    step(statement(sql, none), "", OnFailure::Tell)
}

/// The columns of what is known of a dictionary.
pub open spec fn metadata_columns(
    id: u128,
    name: Seq<char>,
    description: Seq<char>,
    now: int,
) -> Seq<SqlView> {
    seq![
        SqlView::Text(uuid_text(id)),
        SqlView::Text(name),
        SqlView::Text(description),
        SqlView::Integer(now),
    ]
}

/// The step that takes out what was known of a dictionary before.
pub open spec fn forget_step(name: Seq<char>) -> StepView {
    rolled_back(
        "DELETE FROM dictionary_metadata WHERE name = ?"@,
        seq![SqlView::Text(name)],
        "Failed to set dictionary metadata: "@,
    )
}

/// The step that writes what is known of a dictionary.
pub open spec fn know_step(
    id: u128,
    name: Seq<char>,
    description: Seq<char>,
    now: int,
) -> StepView {
    rolled_back(
        "INSERT INTO dictionary_metadata (id, name, description, created_at) VALUES (?, ?, ?, ?)"@,
        metadata_columns(id, name, description, now),
        "Failed to set dictionary metadata: "@,
    )
}

/// How what is known of a dictionary is set, in tables that are made where there are none: what was
/// known under its name is taken out before.
pub fn set_dictionary_metadata(dictionary_name: &str, metadata: &DictionaryMetadata, now: i64) -> (r:
    Vec<Step>)
    ensures
        step_views(r@) == seq![
            plain_step(
                "CREATE TABLE IF NOT EXISTS dictionary_metadata (id TEXT NOT NULL, name TEXT NOT NULL, description TEXT, created_at INTEGER NOT NULL)"@,
            ),
            plain_step(
                "CREATE TABLE IF NOT EXISTS dictionary_constraints (id INTEGER PRIMARY KEY AUTOINCREMENT, dictionary_id TEXT NOT NULL, steps_count INTEGER, steps_interpolation TEXT)"@,
            ),
            plain_step(
                "CREATE TABLE IF NOT EXISTS dictionary_variabilities (id INTEGER PRIMARY KEY AUTOINCREMENT, dictionary_id TEXT NOT NULL, variability_type TEXT NOT NULL, variability_value TEXT NOT NULL)"@,
            ),
            plain_step(
                "CREATE TABLE IF NOT EXISTS dictionary_patterns (id INTEGER PRIMARY KEY AUTOINCREMENT, dictionary_id TEXT NOT NULL, pattern_id TEXT NOT NULL, added_at INTEGER NOT NULL)"@,
            ),
            forget_step(dictionary_name@),
            know_step(metadata.id.value, dictionary_name@, metadata.description@, now as int),
        ],
{
    let mut r: Vec<Step> = Vec::new();
    r.push(
        plain(
            "CREATE TABLE IF NOT EXISTS dictionary_metadata (id TEXT NOT NULL, name TEXT NOT NULL, description TEXT, created_at INTEGER NOT NULL)",
        ),
    );
    r.push(
        plain(
            "CREATE TABLE IF NOT EXISTS dictionary_constraints (id INTEGER PRIMARY KEY AUTOINCREMENT, dictionary_id TEXT NOT NULL, steps_count INTEGER, steps_interpolation TEXT)",
        ),
    );
    r.push(
        plain(
            "CREATE TABLE IF NOT EXISTS dictionary_variabilities (id INTEGER PRIMARY KEY AUTOINCREMENT, dictionary_id TEXT NOT NULL, variability_type TEXT NOT NULL, variability_value TEXT NOT NULL)",
        ),
    );
    r.push(
        plain(
            "CREATE TABLE IF NOT EXISTS dictionary_patterns (id INTEGER PRIMARY KEY AUTOINCREMENT, dictionary_id TEXT NOT NULL, pattern_id TEXT NOT NULL, added_at INTEGER NOT NULL)",
        ),
    );
    r.push(
        rolling_back(
            "DELETE FROM dictionary_metadata WHERE name = ?",
            one_text(dictionary_name),
            "Failed to set dictionary metadata: ",
        ),
    );
    let mut params: Vec<SqlValue> = Vec::new();
    params.push(text_value(metadata.id.text().as_str()));
    params.push(text_value(dictionary_name));
    params.push(text_value(metadata.description.as_str()));
    params.push(SqlValue::Integer(now));
    assert(value_views(params@) =~= metadata_columns(
        metadata.id.value,
        dictionary_name@,
        metadata.description@,
        now as int,
    ));
    r.push(
        rolling_back(
            "INSERT INTO dictionary_metadata (id, name, description, created_at) VALUES (?, ?, ?, ?)",
            params,
            "Failed to set dictionary metadata: ",
        ),
    );
    assert(step_views(r@) =~= seq![r@[0]@, r@[1]@, r@[2]@, r@[3]@, r@[4]@, r@[5]@]);
    r
}

/// A step of whose failure only the cause is told.
pub open spec fn told_step(sql: Seq<char>, params: Seq<SqlView>) -> StepView {
    StepView {
        statement: StatementView { sql, params },
        complaint: ""@,
        on_failure: OnFailure::Tell,
    }
}

/// The columns of the steps of a dictionary.
pub open spec fn constraint_columns(
    id: u128,
    steps: Option<Steps>,
    factor: Seq<char>,
) -> Seq<SqlView> {
    seq![
        SqlView::Text(uuid_text(id)),
        match steps {
            Some(steps) => SqlView::Text(nat_text(steps.count as nat)),
            None => SqlView::Null,
        },
        match steps {
            Some(steps) => SqlView::Text(spline_text(steps.interpolation, factor)),
            None => SqlView::Null,
        },
    ]
}

/// How a bound of a dictionary is written.
pub open spec fn variability_step(id: u128, v: VariabilityView) -> StepView {
    told_step(
        "INSERT INTO dictionary_variabilities (dictionary_id, variability_type, variability_value) VALUES (?, ?, ?)"@,
        seq![
            SqlView::Text(uuid_text(id)),
            SqlView::Text(v.kind.spec_name()),
            SqlView::Text(decimal_text(v.value.mantissa, v.value.scale)),
        ],
    )
}

/// How the bounds of a dictionary are written.
pub open spec fn variability_steps(id: u128, variabilities: Option<Seq<VariabilityView>>) -> Seq<
    StepView,
> {
    match variabilities {
        Some(s) => Seq::new(s.len(), |i: int| variability_step(id, s[i])),
        None => seq![],
    }
}

/// The steps of [`new_dictionary`].
pub open spec fn spec_new_dictionary(
    id: &DictionaryId,
    name: &str,
    description: &str,
    constraints: &DictionaryConstraints,
    factor: &str,
    now: i64,
) -> Seq<StepView> {
    seq![
        told_step(
            "INSERT INTO dictionary_metadata (id, name, description, created_at) VALUES (?, ?, ?, ?)"@,
            metadata_columns(id.value, name@, description@, now as int),
        ),
        told_step(
            "INSERT INTO dictionary_constraints (dictionary_id, steps_count, steps_interpolation) VALUES (?, ?, ?)"@,
            constraint_columns(id.value, constraints@.steps, factor@),
        ),
    ] + variability_steps(id.value, constraints@.variabilities)
}

/// How a new dictionary is written: what is known of it, its steps, and each of its bounds. The text
/// of the factor that bounds its interpolation is looked at only where there is such a factor.
pub fn new_dictionary(
    id: &DictionaryId,
    name: &str,
    description: &str,
    constraints: &DictionaryConstraints,
    factor: &str,
    now: i64,
) -> (r: Vec<Step>)
    requires
        constraints@.variabilities matches Some(s) ==> forall|i: int|
            0 <= i < s.len() ==> (#[trigger] s[i]).value.is_operand(),
    ensures
        step_views(r@) == spec_new_dictionary(id, name, description, constraints, factor, now),
{
    let id_text = id.text();
    let mut r: Vec<Step> = Vec::new();
    let mut params: Vec<SqlValue> = Vec::new();
    params.push(text_value(id_text.as_str()));
    params.push(text_value(name));
    params.push(text_value(description));
    params.push(SqlValue::Integer(now));
    assert(value_views(params@) =~= metadata_columns(id.value, name@, description@, now as int));
    r.push(
        step(
            statement(
                "INSERT INTO dictionary_metadata (id, name, description, created_at) VALUES (?, ?, ?, ?)",
                params,
            ),
            "",
            OnFailure::Tell,
        ),
    );
    let mut params: Vec<SqlValue> = Vec::new();
    params.push(text_value(id_text.as_str()));
    match &constraints.steps {
        Some(steps) => {
            params.push(SqlValue::Text(u64_text(steps.count as u64)));
            params.push(SqlValue::Text(steps.interpolation.text(factor)));
        },
        None => {
            params.push(SqlValue::Null);
            params.push(SqlValue::Null);
        },
    }
    assert(value_views(params@) =~= constraint_columns(id.value, constraints@.steps, factor@));
    r.push(
        step(
            statement(
                "INSERT INTO dictionary_constraints (dictionary_id, steps_count, steps_interpolation) VALUES (?, ?, ?)",
                params,
            ),
            "",
            OnFailure::Tell,
        ),
    );
    let ghost head = step_views(r@);
    assert(head =~= seq![r@[0]@, r@[1]@]);
    match &constraints.variabilities {
        Some(variabilities) => {
            let ghost bounds = variability_views(variabilities@);
            assert(constraints@.variabilities == Some(bounds));
            assert forall|k: int| 0 <= k < bounds.len() implies (
            #[trigger] bounds[k]).value.is_operand() by {
                assert(constraints@.variabilities->Some_0[k] == bounds[k]);
            }
            let mut i: usize = 0;
            assert(step_views(r@) =~= head + variability_steps(id.value, Some(bounds.take(0))));
            while i < variabilities.len()
                invariant
                    i <= variabilities.len(),
                    bounds == variability_views(variabilities@),
                    forall|k: int| 0 <= k < bounds.len() ==> (#[trigger] bounds[k]).value.is_operand(),
                    id_text@ == uuid_text(id.value),
                    step_views(r@) == head + variability_steps(id.value, Some(bounds.take(i as int))),
                decreases variabilities.len() - i,
            {
                let variability = &variabilities[i];
                assert(bounds[i as int] == variability@);
                let mut params: Vec<SqlValue> = Vec::new();
                params.push(text_value(id_text.as_str()));
                params.push(text_value(variability.kind().name()));
                params.push(SqlValue::Text(variability.value().text()));
                assert(value_views(params@) =~= seq![
                    SqlView::Text(uuid_text(id.value)),
                    SqlView::Text(variability@.kind.spec_name()),
                    SqlView::Text(
                        decimal_text(variability@.value.mantissa, variability@.value.scale),
                    ),
                ]);
                let ghost before = step_views(r@);
                r.push(
                    step(
                        statement(
                            "INSERT INTO dictionary_variabilities (dictionary_id, variability_type, variability_value) VALUES (?, ?, ?)",
                            params,
                        ),
                        "",
                        OnFailure::Tell,
                    ),
                );
                assert(step_views(r@) =~= before.push(variability_step(id.value, variability@)));
                assert(variability_steps(id.value, Some(bounds.take(i + 1))) =~= variability_steps(
                    id.value,
                    Some(bounds.take(i as int)),
                ).push(variability_step(id.value, variability@)));
                assert(step_views(r@) =~= head + variability_steps(
                    id.value,
                    Some(bounds.take(i + 1)),
                ));
                i += 1;
            }
            assert(bounds.take(i as int) =~= bounds);
        },
        None => {
            assert(step_views(r@) =~= head + variability_steps(id.value, None));
        },
    }
    r
}

/// What is known of a dictionary but for its constraints.
#[derive(Debug)]
pub struct DictionaryHead {
    pub id: DictionaryId,
    pub name: String,
    pub description: String,
}

/// What is wrong with a row of what is known of a dictionary.
pub open spec fn metadata_error(row: Seq<SqlView>) -> Option<Seq<char>> {
    or(
        not_text(row[0], "Dictionary ID is not text"@),
        or(
            not_text(row[1], "Dictionary name is not text"@),
            or(
                not_text(row[2], "Dictionary description is not text"@),
                or(
                    not_integer(row[3], "Created at is not integer"@),
                    or(
                        not_uuid(row[0], "Invalid UUID format for dictionary ID: "@),
                        not_instant(row[3], "Invalid created at timestamp"@),
                    ),
                ),
            ),
        ),
    )
}

/// What is known of a dictionary in a row, or the error. What was written is read back.
pub fn parse_metadata_row(row: &Vec<SqlValue>) -> (r: Result<DictionaryHead, Error>)
    requires
        row.len() == 4,
    ensures
        ({
            let views = value_views(row@);
            match r {
                Ok(head) => {
                    &&& metadata_error(views) is None
                    &&& uuid_parse(views[0]->Text_0) == Ok::<u128, Seq<char>>(head.id.value)
                    &&& head.name@ == views[1]->Text_0
                    &&& head.description@ == views[2]->Text_0
                },
                Err(e) => tells(e, metadata_error(views)),
            }
        }),
        forall|id: u128, name: Seq<char>, description: Seq<char>, created: int|
            value_views(row@) == #[trigger] metadata_columns(id, name, description, created)
                && not_instant(value_views(row@)[3], seq![]) is None ==> r is Ok
                && r->Ok_0.id.value == id && r->Ok_0.name@ == name && r->Ok_0.description@
                == description,
{
    let ghost views = value_views(row@);
    assert(forall|i: int| 0 <= i < 4 ==> #[trigger] views[i] == row@[i]@);
    proof {
        assert forall|id: u128, name: Seq<char>, description: Seq<char>, created: int|
            views == #[trigger] metadata_columns(id, name, description, created) implies views[0]
            == SqlView::Text(uuid_text(id)) && views[1] == SqlView::Text(name) && views[2]
            == SqlView::Text(description) && views[3] == SqlView::Integer(created) by {
            let columns = metadata_columns(id, name, description, created);
            assert(views[0] == columns[0]);
            assert(views[1] == columns[1]);
            assert(views[2] == columns[2]);
            assert(views[3] == columns[3]);
        }
    }
    let id = match text_column(row, 0, "Dictionary ID is not text") {
        Ok(s) => s,
        Err(e) => {
            return Err(e);
        },
    };
    let name = match text_column(row, 1, "Dictionary name is not text") {
        Ok(s) => s,
        Err(e) => {
            return Err(e);
        },
    };
    let description = match text_column(row, 2, "Dictionary description is not text") {
        Ok(s) => s,
        Err(e) => {
            return Err(e);
        },
    };
    let created: i64 = match integer_column(row, 3, "Created at is not integer") {
        Ok(n) => n,
        Err(e) => {
            return Err(e);
        },
    };
    let id = match uuid_field(&id, "Invalid UUID format for dictionary ID: ") {
        Ok(id) => DictionaryId { value: id },
        Err(e) => {
            return Err(e);
        },
    };
    match instant_field(created, "Invalid created at timestamp") {
        Ok(_) => {},
        Err(e) => {
            return Err(e);
        },
    }
    Ok(DictionaryHead { id, name, description })
}

/// Whether a text says that a dictionary has no steps.
pub open spec fn says_no_steps(count: Seq<char>) -> bool {
    count.len() == 0 || count == "null"@
}

/// The text that stands in a column of the constraints of a dictionary: an integer stands there as
/// its digits, and nothing as an empty text.
pub open spec fn constraint_text(value: SqlView) -> Option<Seq<char>> {
    match value {
        SqlView::Text(s) => Some(s),
        SqlView::Integer(n) => Some(int_text(n)),
        SqlView::Null => Some(Seq::empty()),
        _ => None,
    }
}

/// What is told of a column of the constraints of a dictionary that holds no text.
pub open spec fn no_constraint_text(value: SqlView, complaint: Seq<char>) -> Option<Seq<char>> {
    match constraint_text(value) {
        Some(_) => None,
        None => Some(database_error(complaint)),
    }
}

fn constraint_column(row: &Vec<SqlValue>, i: usize, complaint: &str) -> (r: Result<String, Error>)
    requires
        i < row.len(),
    ensures
        match r {
            Ok(s) => constraint_text(row@[i as int]@) == Some(s@),
            Err(e) => tells(e, no_constraint_text(row@[i as int]@, complaint@)),
        },
{
    match &row[i] {
        SqlValue::Text(s) => Ok(s.clone()),
        SqlValue::Integer(n) => Ok(i64_text(*n)),
        SqlValue::Null => Ok(String::new()),
        _ => Err(Error::DatabaseError(complaint.to_owned())),
    }
}

/// What is wrong with a row of the constraints of a dictionary.
pub open spec fn constraint_error(row: Seq<SqlView>) -> Option<Seq<char>> {
    let count = constraint_text(row[0])->0;
    let interpolation = constraint_text(row[1])->0;
    or(
        no_constraint_text(row[0], "Steps count is not text"@),
        or(
            no_constraint_text(row[1], "Steps interpolation is not text"@),
            if says_no_steps(count) {
                None
            } else {
                or(
                    match unsigned_of(count, usize::MAX as nat) {
                        Some(_) => None,
                        None => Some(
                            database_error("Invalid steps count format: "@ + usize_refusal(count)),
                        ),
                    },
                    match spline_parse(interpolation) {
                        Ok(_) => None,
                        Err(e) => Some(database_error("Invalid interpolation format: "@ + e)),
                    },
                )
            },
        ),
    )
}

/// Whether the steps of a dictionary stand in a row as they are written. The column of their number
/// is one of integers, so that a number written as a text stands there as an integer.
pub open spec fn steps_stand_in(row: Seq<SqlView>, steps: Option<Steps>, factor: Seq<char>) -> bool {
    match steps {
        Some(steps) => {
            &&& row[0] == SqlView::Integer(steps.count as int) || row[0] == SqlView::Text(
                nat_text(steps.count as nat),
            )
            &&& row[1] == SqlView::Text(spline_text(steps.interpolation, factor))
        },
        None => row[0] == SqlView::Null && row[1] == SqlView::Null,
    }
}

/// The steps of a dictionary stand in the columns to which they are written, and still do once their
/// number stands there as an integer.
pub proof fn law_written_steps_stand(id: u128, steps: Option<Steps>, factor: Seq<char>)
    ensures
        steps_stand_in(constraint_columns(id, steps, factor).skip(1), steps, factor),
        steps matches Some(s) ==> steps_stand_in(
            constraint_columns(id, steps, factor).skip(1).update(
                0,
                SqlView::Integer(s.count as int),
            ),
            steps,
            factor,
        ),
{
}

/// The constraints of a dictionary in a row, or the error; it has no variabilities there. Steps that
/// were written are read back, unless a factor bounds their interpolation.
pub fn parse_constraint_row(row: &Vec<SqlValue>) -> (r: Result<DictionaryConstraints, Error>)
    requires
        row.len() == 2,
    ensures
        ({
            let views = value_views(row@);
            let count = constraint_text(views[0])->0;
            let interpolation = constraint_text(views[1])->0;
            match r {
                Ok(c) => {
                    &&& constraint_error(views) is None
                    &&& c.variabilities is None
                    &&& match c.steps {
                        None => says_no_steps(count),
                        Some(steps) => {
                            &&& !says_no_steps(count)
                            &&& unsigned_of(count, usize::MAX as nat) == Some(steps.count as nat)
                            &&& spline_parse(interpolation) == Ok::<Spline, Seq<char>>(
                                steps.interpolation,
                            )
                        },
                    }
                },
                Err(e) => tells(e, constraint_error(views)),
            }
        }),
        forall|steps: Option<Steps>, factor: Seq<char>| #[trigger]
            steps_stand_in(value_views(row@), steps, factor) && (steps matches Some(s)
                ==> !s.interpolation.is_bounded()) ==> r is Ok && r->Ok_0.steps == steps,
{
    let ghost views = value_views(row@);
    assert(views[0] == row@[0]@ && views[1] == row@[1]@);
    let count = match constraint_column(row, 0, "Steps count is not text") {
        Ok(s) => s,
        Err(e) => {
            return Err(e);
        },
    };
    let interpolation = match constraint_column(row, 1, "Steps interpolation is not text") {
        Ok(s) => s,
        Err(e) => {
            return Err(e);
        },
    };
    proof {
        reveal_strlit("");
        reveal_strlit("null");
        assert(""@ =~= Seq::<char>::empty());
        assert(count@.len() == 0 ==> count@ =~= ""@);
        assert forall|steps: Steps, factor: Seq<char>| #[trigger]
            steps_stand_in(views, Some(steps), factor) implies count@ == nat_text(
            steps.count as nat,
        ) && !says_no_steps(count@) && unsigned_of(count@, usize::MAX as nat) == Some(
            steps.count as nat,
        ) && interpolation@ == spline_text(steps.interpolation, factor) by {
            law_digits_are_read_back(steps.count as nat, usize::MAX as nat);
            assert(crate::text::is_digit(nat_text(steps.count as nat)[0]));
            assert("null"@[0] == 'n');
        }
    }
    if same_text(count.as_str(), "") || same_text(count.as_str(), "null") {
        return Ok(DictionaryConstraints::new(None, None));
    }
    let count: usize = match parse_usize(count.as_str()) {
        Ok(n) => n,
        Err(e) => {
            return Err(
                Error::DatabaseError(join("Invalid steps count format: ", e.as_str())),
            );
        },
    };
    let interpolation = match Spline::parse(interpolation.as_str()) {
        Ok(spline) => spline,
        Err(e) => {
            return Err(
                Error::DatabaseError(join("Invalid interpolation format: ", e.as_str())),
            );
        },
    };
    Ok(DictionaryConstraints::new(Some(Steps::new(count, interpolation)), None))
}

/// What is known of a dictionary; without constraints nothing is.
pub fn assemble_metadata(head: DictionaryHead, constraints: Option<DictionaryConstraints>) -> (r:
    Option<DictionaryMetadata>)
    ensures
        match constraints {
            Some(c) => r == Some(
                DictionaryMetadata {
                    id: head.id,
                    name: head.name,
                    description: head.description,
                    constraints: c,
                },
            ),
            None => r is None,
        },
{
    match constraints {
        Some(constraints) => Some(
            DictionaryMetadata {
                id: head.id,
                name: head.name,
                description: head.description,
                constraints,
            },
        ),
        None => None,
    }
}

/// What is known of a dictionary in a list, where its constraints are not looked at.
pub fn listed_metadata(head: DictionaryHead) -> (r: DictionaryMetadata)
    ensures
        r.id == head.id,
        r.name == head.name,
        r.description == head.description,
        r.constraints.steps is None,
        r.constraints.variabilities is None,
{
    DictionaryMetadata {
        id: head.id,
        name: head.name,
        description: head.description,
        constraints: DictionaryConstraints::new(None, None),
    }
}

/// The statement of [`metadata_query`].
pub open spec fn spec_metadata_query(dictionary_name: &str) -> StatementView {
    StatementView {
        sql: "SELECT id, name, description, created_at FROM dictionary_metadata WHERE name = ?"@,
        params: seq![SqlView::Text(dictionary_name@)],
    }
}

/// The query for what is known of a dictionary.
pub fn metadata_query(dictionary_name: &str) -> (r: Statement)
    ensures
        r@ == spec_metadata_query(dictionary_name),
{
    statement(
        "SELECT id, name, description, created_at FROM dictionary_metadata WHERE name = ?",
        one_text(dictionary_name),
    )
}

/// The statement of [`constraint_query`].
pub open spec fn spec_constraint_query(id: &DictionaryId) -> StatementView {
    StatementView {
        sql: "SELECT steps_count, steps_interpolation FROM dictionary_constraints WHERE dictionary_id = ?"@,
        params: seq![SqlView::Text(uuid_text(id.value))],
    }
}

/// The query for the constraints of a dictionary.
pub fn constraint_query(id: &DictionaryId) -> (r: Statement)
    ensures
        r@ == spec_constraint_query(id),
{
    statement(
        "SELECT steps_count, steps_interpolation FROM dictionary_constraints WHERE dictionary_id = ?",
        one_text(id.text().as_str()),
    )
}

/// The steps that make the tables of the patterns of dictionaries.
pub fn pattern_tables() -> (r: Vec<Step>)
    ensures
        step_views(r@) == seq![
            StepView {
                statement: StatementView {
                    sql: "CREATE TABLE IF NOT EXISTS patterns (id TEXT PRIMARY KEY, aspect_id TEXT NOT NULL, database_id TEXT NOT NULL, dictionary_name TEXT NOT NULL, occurrences TEXT NOT NULL, relatives TEXT NOT NULL, created_at INTEGER NOT NULL)"@,
                    params: seq![],
                },
                complaint: "Failed to create patterns table: "@,
                on_failure: OnFailure::Tell,
            },
            StepView {
                statement: StatementView {
                    sql: "CREATE INDEX IF NOT EXISTS idx_patterns_dictionary ON patterns(dictionary_name, aspect_id)"@,
                    params: seq![],
                },
                complaint: "Failed to create patterns index: "@,
                on_failure: OnFailure::Tell,
            },
        ],
{
    let none: Vec<SqlValue> = Vec::new();
    let nothing: Vec<SqlValue> = Vec::new();
    assert(value_views(none@) =~= Seq::<SqlView>::empty());
    assert(value_views(nothing@) =~= Seq::<SqlView>::empty());
    let mut r: Vec<Step> = Vec::new();
    r.push(
        step(
            statement(
                "CREATE TABLE IF NOT EXISTS patterns (id TEXT PRIMARY KEY, aspect_id TEXT NOT NULL, database_id TEXT NOT NULL, dictionary_name TEXT NOT NULL, occurrences TEXT NOT NULL, relatives TEXT NOT NULL, created_at INTEGER NOT NULL)",
                none,
            ),
            "Failed to create patterns table: ",
            OnFailure::Tell,
        ),
    );
    r.push(
        step(
            statement(
                "CREATE INDEX IF NOT EXISTS idx_patterns_dictionary ON patterns(dictionary_name, aspect_id)",
                nothing,
            ),
            "Failed to create patterns index: ",
            OnFailure::Tell,
        ),
    );
    assert(step_views(r@) =~= seq![r@[0]@, r@[1]@]);
    r
}

/// The step that makes the table of dictionaries.
pub fn dictionaries_table() -> (r: Step)
    ensures
        r@ == rolled_back(
            "CREATE TABLE IF NOT EXISTS dictionaries (name TEXT PRIMARY KEY, description TEXT NOT NULL, constraints TEXT NOT NULL, created_at INTEGER NOT NULL, updated_at INTEGER NOT NULL)"@,
            seq![],
            "Failed to create dictionaries table: "@,
        ),
{
    let none: Vec<SqlValue> = Vec::new();
    assert(value_views(none@) =~= Seq::<SqlView>::empty());
    rolling_back(
        "CREATE TABLE IF NOT EXISTS dictionaries (name TEXT PRIMARY KEY, description TEXT NOT NULL, constraints TEXT NOT NULL, created_at INTEGER NOT NULL, updated_at INTEGER NOT NULL)",
        none,
        "Failed to create dictionaries table: ",
    )
}

/// The columns of a pattern of a dictionary.
pub open spec fn pattern_columns(
    id: u128,
    aspect: u128,
    database: u128,
    dictionary: Seq<char>,
    occurrences: Seq<char>,
    relatives: Seq<char>,
    now: int,
) -> Seq<SqlView> {
    seq![
        SqlView::Text(uuid_text(id)),
        SqlView::Text(uuid_text(aspect)),
        SqlView::Text(uuid_text(database)),
        SqlView::Text(dictionary),
        SqlView::Text(occurrences),
        SqlView::Text(relatives),
        SqlView::Integer(now),
    ]
}

fn pattern_values(
    pattern: &WrittenPattern,
    aspect: u128,
    database_id: &DatabaseId,
    dictionary_name: &str,
) -> (r: Vec<SqlValue>)
    ensures
        value_views(r@) == pattern_columns(
            pattern.id.value,
            aspect,
            database_id.value,
            dictionary_name@,
            pattern.occurrences@,
            pattern.relatives@,
            pattern.now as int,
        ),
{
    let mut r: Vec<SqlValue> = Vec::new();
    r.push(text_value(pattern.id.text().as_str()));
    r.push(text_value(crate::ids::text_of(aspect).as_str()));
    r.push(text_value(database_id.text().as_str()));
    r.push(text_value(dictionary_name));
    r.push(text_value(pattern.occurrences.as_str()));
    r.push(text_value(pattern.relatives.as_str()));
    r.push(SqlValue::Integer(pattern.now));
    assert(value_views(r@) =~= pattern_columns(
        pattern.id.value,
        aspect,
        database_id.value,
        dictionary_name@,
        pattern.occurrences@,
        pattern.relatives@,
        pattern.now as int,
    ));
    r
}

/// The step of [`store_pattern_in_dictionary`].
pub open spec fn spec_store_pattern_in_dictionary(
    pattern: &Pattern,
    written: &WrittenPattern,
    database_id: &DatabaseId,
    dictionary_name: &str,
) -> StepView {
    StepView {
        statement: StatementView {
            sql: "INSERT INTO patterns (id, aspect_id, database_id, dictionary_name, occurrences, relatives, created_at) VALUES (?, ?, ?, ?, ?, ?, ?)"@,
            params: pattern_columns(
                pattern.id.value,
                pattern.occurrences@[0].database_info.id.value,
                database_id.value,
                dictionary_name@,
                written.occurrences@,
                written.relatives@,
                written.now as int,
            ),
        },
        complaint: "Failed to insert pattern: "@,
        on_failure: OnFailure::Tell,
    }
}

/// How a pattern is written into a dictionary; its stretches and its relatives are given as texts.
/// In the place of the aspect stands the database of the first stretch.
pub fn store_pattern_in_dictionary(
    pattern: &Pattern,
    written: &WrittenPattern,
    database_id: &DatabaseId,
    dictionary_name: &str,
) -> (r: Step)
    requires
        pattern.occurrences.len() > 0,
        written.id == pattern.id,
    ensures
        r@ == spec_store_pattern_in_dictionary(pattern, written, database_id, dictionary_name),
{
    step(
        statement(
            "INSERT INTO patterns (id, aspect_id, database_id, dictionary_name, occurrences, relatives, created_at) VALUES (?, ?, ?, ?, ?, ?, ?)",
            pattern_values(
                written,
                pattern.occurrences[0].database_info.id.value,
                database_id,
                dictionary_name,
            ),
        ),
        "Failed to insert pattern: ",
        OnFailure::Tell,
    )
}

/// The number of patterns that are written into a dictionary in one transaction.
pub const DICTIONARY_CHUNK_SIZE: usize = 100;

/// The steps that write patterns into a dictionary.
pub open spec fn pattern_steps(
    patterns: Seq<WrittenPattern>,
    aspect: u128,
    database: u128,
    dictionary: Seq<char>,
) -> Seq<StepView> {
    Seq::new(
        patterns.len(),
        |i: int|
            StepView {
                statement: StatementView {
                    sql: "INSERT INTO patterns (id, aspect_id, database_id, dictionary_name, occurrences, relatives, created_at) VALUES (?, ?, ?, ?, ?, ?, ?)"@,
                    params: pattern_columns(
                        patterns[i].id.value,
                        aspect,
                        database,
                        dictionary,
                        patterns[i].occurrences@,
                        patterns[i].relatives@,
                        patterns[i].now as int,
                    ),
                },
                complaint: "Failed to insert pattern in transaction: "@,
                on_failure: OnFailure::RollBackQuietly,
            },
    )
}

/// How patterns are written into a dictionary: in several transactions, one after the other.
pub fn store_patterns_in_dictionary(
    patterns: &Vec<WrittenPattern>,
    aspect_id: &AspectId,
    database_id: &DatabaseId,
    dictionary_name: &str,
) -> (r: Vec<Vec<Step>>)
    ensures
        transaction_views(r@) == Seq::new(
            chunk_count(patterns@.len(), DICTIONARY_CHUNK_SIZE as nat),
            |k: int|
                chunk(
                    pattern_steps(
                        patterns@,
                        aspect_id.value,
                        database_id.value,
                        dictionary_name@,
                    ),
                    DICTIONARY_CHUNK_SIZE as nat,
                    k,
                ),
        ),
{
    let ghost wanted = pattern_steps(
        patterns@,
        aspect_id.value,
        database_id.value,
        dictionary_name@,
    );
    let mut steps: Vec<Step> = Vec::new();
    let mut i: usize = 0;
    while i < patterns.len()
        invariant
            i <= patterns.len(),
            steps.len() == i,
            wanted == pattern_steps(
                patterns@,
                aspect_id.value,
                database_id.value,
                dictionary_name@,
            ),
            forall|k: int| 0 <= k < i ==> (#[trigger] steps@[k])@ == wanted[k],
        decreases patterns.len() - i,
    {
        let params = pattern_values(&patterns[i], aspect_id.value, database_id, dictionary_name);
        steps.push(
            step(
                statement(
                    "INSERT INTO patterns (id, aspect_id, database_id, dictionary_name, occurrences, relatives, created_at) VALUES (?, ?, ?, ?, ?, ?, ?)",
                    params,
                ),
                "Failed to insert pattern in transaction: ",
                OnFailure::RollBackQuietly,
            ),
        );
        i += 1;
    }
    assert(step_views(steps@) =~= wanted);
    in_transactions(steps, DICTIONARY_CHUNK_SIZE)
}

/// The statement of [`get_patterns_from_dictionary`].
pub open spec fn spec_get_patterns_from_dictionary(
    dictionary_name: &str,
    aspect_id: &AspectId,
    database_id: &DatabaseId,
) -> StatementView {
    StatementView {
        sql: "SELECT id, occurrences, relatives FROM patterns WHERE dictionary_name = ? AND aspect_id = ? AND database_id = ? ORDER BY created_at"@,
        params: seq![
            SqlView::Text(dictionary_name@),
            SqlView::Text(uuid_text(aspect_id.value)),
            SqlView::Text(uuid_text(database_id.value)),
        ],
    }
}

/// The query for the patterns of a dictionary, the oldest first.
pub fn get_patterns_from_dictionary(
    dictionary_name: &str,
    aspect_id: &AspectId,
    database_id: &DatabaseId,
) -> (r: Statement)
    ensures
        r@ == spec_get_patterns_from_dictionary(dictionary_name, aspect_id, database_id),
{
    let mut params: Vec<SqlValue> = Vec::new();
    params.push(text_value(dictionary_name));
    params.push(text_value(aspect_id.text().as_str()));
    params.push(text_value(database_id.text().as_str()));
    assert(value_views(params@) =~= seq![
        SqlView::Text(dictionary_name@),
        SqlView::Text(uuid_text(aspect_id.value)),
        SqlView::Text(uuid_text(database_id.value)),
    ]);
    statement(
        "SELECT id, occurrences, relatives FROM patterns WHERE dictionary_name = ? AND aspect_id = ? AND database_id = ? ORDER BY created_at",
        params,
    )
}

/// What is done next to store what is known of a dictionary.
#[derive(Debug)]
pub enum StoreAction {
    Commit,
    /// Another statement is executed.
    Execute(Statement),
    /// The transaction is rolled back, and the failure is told.
    RollBack(String),
}

/// The statement of [`store_dictionary_metadata`].
pub open spec fn spec_store_dictionary_metadata(
    name: &str,
    description: &str,
    constraints: &str,
    now: i64,
) -> StatementView {
    StatementView {
        sql: "INSERT INTO dictionaries (name, description, constraints, created_at, updated_at) VALUES (?, ?, ?, ?, ?)"@,
        params: seq![
            SqlView::Text(name@),
            SqlView::Text(description@),
            SqlView::Text(constraints@),
            SqlView::Integer(now as int),
            SqlView::Integer(now as int),
        ],
    }
}

/// The statement that writes a dictionary; its constraints are given as a text.
pub fn store_dictionary_metadata(name: &str, description: &str, constraints: &str, now: i64) -> (r:
    Statement)
    ensures
        r@ == spec_store_dictionary_metadata(name, description, constraints, now),
{
    let mut params: Vec<SqlValue> = Vec::new();
    params.push(text_value(name));
    params.push(text_value(description));
    params.push(text_value(constraints));
    params.push(SqlValue::Integer(now));
    params.push(SqlValue::Integer(now));
    assert(value_views(params@) =~= seq![
        SqlView::Text(name@),
        SqlView::Text(description@),
        SqlView::Text(constraints@),
        SqlView::Integer(now as int),
        SqlView::Integer(now as int),
    ]);
    statement(
        "INSERT INTO dictionaries (name, description, constraints, created_at, updated_at) VALUES (?, ?, ?, ?, ?)",
        params,
    )
}

/// The statement of [`after_insert`].
pub open spec fn spec_after_insert(
    name: &str,
    description: &str,
    constraints: &str,
    now: i64,
) -> StatementView {
    StatementView {
        sql: "UPDATE dictionaries SET description = ?, constraints = ?, updated_at = ? WHERE name = ?"@,
        params: seq![
            SqlView::Text(description@),
            SqlView::Text(constraints@),
            SqlView::Integer(now as int),
            SqlView::Text(name@),
        ],
    }
}

/// What is done after a dictionary was tried to be written: where that failed, the one that is there
/// is replaced.
pub fn after_insert(
    name: &str,
    description: &str,
    constraints: &str,
    now: i64,
    outcome: Result<u64, String>,
) -> (r: StoreAction)
    ensures
        match outcome {
            Ok(_) => r is Commit,
            Err(_) => r matches StoreAction::Execute(s) && s@ == spec_after_insert(
                name,
                description,
                constraints,
                now,
            ),
        },
{
    match outcome {
        Ok(_) => StoreAction::Commit,
        Err(_) => {
            let mut params: Vec<SqlValue> = Vec::new();
            params.push(text_value(description));
            params.push(text_value(constraints));
            params.push(SqlValue::Integer(now));
            params.push(text_value(name));
            assert(value_views(params@) =~= seq![
                SqlView::Text(description@),
                SqlView::Text(constraints@),
                SqlView::Integer(now as int),
                SqlView::Text(name@),
            ]);
            StoreAction::Execute(
                statement(
                    "UPDATE dictionaries SET description = ?, constraints = ?, updated_at = ? WHERE name = ?",
                    params,
                ),
            )
        },
    }
}

/// What is done after a dictionary was tried to be replaced.
pub fn after_update(outcome: Result<u64, String>) -> (r: StoreAction)
    ensures
        match outcome {
            Ok(_) => r is Commit,
            Err(e) => r matches StoreAction::RollBack(s) && s@
                == "Failed to update dictionary metadata: "@ + e@,
        },
{
    match outcome {
        Ok(_) => StoreAction::Commit,
        Err(e) => StoreAction::RollBack(
            join("Failed to update dictionary metadata: ", e.as_str()),
        ),
    }
}

/// What is wrong with a row of a dictionary; what its constraints read as is given.
pub open spec fn stored_error(row: Seq<SqlView>, constraints: Option<Seq<char>>) -> Option<Seq<char>> {
    or(
        no_text(row[0], "Description"@),
        or(
            no_text(row[1], "Constraints"@),
            bad_json("Failed to deserialize constraints: "@, constraints),
        ),
    )
}

/// The description of the dictionary in a row, or the error; what its constraints read as is given.
pub fn parse_stored_row(row: &Vec<SqlValue>, constraints: Result<(), String>) -> (r: Result<
    String,
    Error,
>)
    requires
        row.len() == 2,
    ensures
        match r {
            Ok(s) => stored_error(value_views(row@), refusal(constraints)) is None && s@ == text_in(
                value_views(row@)[0],
            ),
            Err(e) => e is Message && tells(
                e,
                stored_error(value_views(row@), refusal(constraints)),
            ),
        },
{
    let ghost views = value_views(row@);
    assert(views[0] == row@[0]@ && views[1] == row@[1]@);
    let description = match any_text_column(row, 0, "Description") {
        Ok(s) => s,
        Err(e) => {
            return Err(e);
        },
    };
    match any_text_column(row, 1, "Constraints") {
        Ok(_) => {},
        Err(e) => {
            return Err(e);
        },
    }
    match constraints {
        Ok(_) => Ok(description),
        Err(e) => Err(Error::Message(join("Failed to deserialize constraints: ", e.as_str()))),
    }
}

/// The statement of [`stored_dictionary_query`].
pub open spec fn spec_stored_dictionary_query(name: &str) -> StatementView {
    StatementView {
        sql: "SELECT description, constraints FROM dictionaries WHERE name = ?"@,
        params: seq![SqlView::Text(name@)],
    }
}

/// The query for a dictionary.
pub fn stored_dictionary_query(name: &str) -> (r: Statement)
    ensures
        r@ == spec_stored_dictionary_query(name),
{
    statement("SELECT description, constraints FROM dictionaries WHERE name = ?", one_text(name))
}

/// The statement of [`list_dictionaries`].
pub open spec fn spec_list_dictionaries() -> StatementView {
    StatementView {
        sql: "SELECT name FROM dictionaries ORDER BY name"@,
        params: seq![],
    }
}

/// The query for the names of the dictionaries.
pub fn list_dictionaries() -> (r: Statement)
    ensures
        r@ == spec_list_dictionaries(),
{
    statement("SELECT name FROM dictionaries ORDER BY name", no_values())
}

/// The statement of [`all_metadata_query`].
pub open spec fn spec_all_metadata_query() -> StatementView {
    StatementView {
        sql: "SELECT id, name, description, created_at FROM dictionary_metadata"@,
        params: seq![],
    }
}

/// The query for what is known of every dictionary.
pub fn all_metadata_query() -> (r: Statement)
    ensures
        r@ == spec_all_metadata_query(),
{
    statement(
        "SELECT id, name, description, created_at FROM dictionary_metadata",
        no_values(),
    )
}

}
