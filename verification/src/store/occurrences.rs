//! Where patterns occur: how such stretches are written and read.
use crate::columns::{
    instant_field,
    named_resolution,
    not_instant,
    not_integer,
    not_resolution,
    not_size,
    not_text,
    not_uuid,
    or,
    refusal,
    resolution_field,
    size_field,
    tells,
    uuid_field,
};
use crate::error::Error;
use crate::ids::{uuid_parse, uuid_text, AspectId, PatternID};
use crate::pattern::{Occurrence, OccurrenceView};
use crate::registry::DatabaseInfo;
use crate::sql::{integer_column, text_column, value_views, SqlValue, SqlView};
use vstd::prelude::*;

verus! {

/// The place of the first of a sequence, from a place on, that does not fit into a column: by its
/// place, where places are written, or by its size. Without one it is the end.
pub open spec fn first_unfit(s: Seq<OccurrenceView>, is_placed: bool, i: int) -> int
    decreases s.len() - i,
{
    if i < s.len() && (is_placed ==> i <= i64::MAX) && s[i].size <= i64::MAX {
        first_unfit(s, is_placed, i + 1)
    } else {
        i
    }
}

/// What is told of the first that does not fit.
pub open spec fn unfit_message(s: Seq<OccurrenceView>, is_placed: bool) -> Option<Seq<char>> {
    let at = first_unfit(s, is_placed, 0);
    if at >= s.len() {
        None
    } else if is_placed && at > i64::MAX {
        Some("Occurrence index too large for i64"@)
    } else {
        Some("Occurrence size too large for i64"@)
    }
}

/// The first that does not fit does not stand before the place from which it is looked for.
pub proof fn lemma_not_before(s: Seq<OccurrenceView>, is_placed: bool, i: int)
    ensures
        i <= first_unfit(s, is_placed, i),
    decreases s.len() - i,
{
    if i < s.len() {
        lemma_not_before(s, is_placed, i + 1);
    }
}

pub open spec fn all_timed(s: Seq<OccurrenceView>) -> bool {
    forall|i: int|
        0 <= i < s.len() ==> (#[trigger] s[i]).beginning.is_valid() && s[i].end.is_valid()
}

/// What is wrong with the columns that all stretches have, from the aspect on.
pub open spec fn stretch_error(
    aspect: SqlView,
    resolution: SqlView,
    info: Option<Seq<char>>,
    pattern: SqlView,
    beginning: SqlView,
    end: SqlView,
) -> Option<Seq<char>> {
    or(
        not_uuid(aspect, "Invalid UUID format for occurrence Aspect ID: "@),
        or(
            not_resolution(resolution, "Invalid resolution format: "@),
            or(
                info_error(info),
                or(
                    not_uuid(pattern, "Invalid UUID format for occurrence Pattern ID: "@),
                    or(
                        not_instant(beginning, "Invalid beginning timestamp"@),
                        not_instant(end, "Invalid end timestamp"@),
                    ),
                ),
            ),
        ),
    )
}

/// What is told where the description of a database cannot be read.
pub open spec fn info_error(e: Option<Seq<char>>) -> Option<Seq<char>> {
    match e {
        Some(e) => Some(
            crate::columns::database_error(
                "Failed to parse occurrence database info JSON: "@ + e,
            ),
        ),
        None => None,
    }
}

/// What is wrong with a row of a stretch of a correlation: its place is in the second column, and
/// what its pattern is in the seventh.
pub open spec fn correlated_error(row: Seq<SqlView>, info: Option<Seq<char>>) -> Option<Seq<char>> {
    or(
        not_integer(row[1], "Occurrence Index is not integer"@),
        or(
            not_size(row[1], "Occurrence index out of range: "@),
            or(
                not_text(row[2], "Occurrence Aspect ID is not text"@),
                or(
                    not_text(row[3], "Occurrence Resolution is not text"@),
                    or(
                        not_integer(row[4], "Occurrence Size is not integer"@),
                        or(
                            not_size(row[4], "Occurrence size out of range: "@),
                            or(
                                not_text(row[5], "Occurrence Database Info is not text"@),
                                or(
                                    not_text(row[6], "Occurrence Pattern ID is not text"@),
                                    or(
                                        not_integer(
                                            row[7],
                                            "Occurrence Beginning Timestamp is not integer"@,
                                        ),
                                        or(
                                            not_integer(
                                                row[8],
                                                "Occurrence End Timestamp is not integer"@,
                                            ),
                                            stretch_error(
                                                row[2],
                                                row[3],
                                                info,
                                                row[6],
                                                row[7],
                                                row[8],
                                            ),
                                        ),
                                    ),
                                ),
                            ),
                        ),
                    ),
                ),
            ),
        ),
    )
}

/// Whether a stretch stands in columns.
pub open spec fn stands_in(
    o: OccurrenceView,
    aspect: SqlView,
    resolution: SqlView,
    size: SqlView,
    pattern: SqlView,
    beginning: SqlView,
    end: SqlView,
) -> bool {
    &&& uuid_parse(aspect->Text_0) == Ok::<u128, Seq<char>>(o.aspect.value)
    &&& named_resolution(resolution->Text_0) == Some(o.resolution)
    &&& size->Integer_0 == o.size
    &&& uuid_parse(pattern->Text_0) == Ok::<u128, Seq<char>>(o.pattern_id.value)
    &&& o.beginning.is_valid()
    &&& o.beginning.total() == beginning->Integer_0 * 1_000_000
    &&& o.end.is_valid()
    &&& o.end.total() == end->Integer_0 * 1_000_000
}

/// Whether a stretch reads like another: with its instants to the millisecond.
pub open spec fn stretch_reads_like(o: OccurrenceView, written: OccurrenceView) -> bool {
    &&& o.aspect == written.aspect
    &&& o.resolution == written.resolution
    &&& o.size == written.size
    &&& o.pattern_id == written.pattern_id
    &&& o.beginning.spec_millis() == written.beginning.spec_millis()
    &&& o.end.spec_millis() == written.end.spec_millis()
}

/// A stretch from its columns as they are read.
fn stretch(
    aspect: &String,
    resolution: &String,
    size: usize,
    info: Result<DatabaseInfo, String>,
    pattern: &String,
    beginning: i64,
    end: i64,
) -> (r: Result<Occurrence, Error>)
    ensures
        match r {
            Ok(o) => {
                &&& stretch_error(
                    SqlView::Text(aspect@),
                    SqlView::Text(resolution@),
                    refusal(info),
                    SqlView::Text(pattern@),
                    SqlView::Integer(beginning as int),
                    SqlView::Integer(end as int),
                ) is None
                &&& stands_in(
                    o@,
                    SqlView::Text(aspect@),
                    SqlView::Text(resolution@),
                    SqlView::Integer(size as int),
                    SqlView::Text(pattern@),
                    SqlView::Integer(beginning as int),
                    SqlView::Integer(end as int),
                )
                &&& info is Ok
                &&& o.database_info == info->Ok_0
            },
            Err(e) => tells(
                e,
                stretch_error(
                    SqlView::Text(aspect@),
                    SqlView::Text(resolution@),
                    refusal(info),
                    SqlView::Text(pattern@),
                    SqlView::Integer(beginning as int),
                    SqlView::Integer(end as int),
                ),
            ),
        },
        forall|written: OccurrenceView|
            #![trigger written.beginning.spec_millis()]
            aspect@ == uuid_text(written.aspect.value) && resolution@
                == written.resolution.spec_text() && size == written.size && pattern@ == uuid_text(
                written.pattern_id.value,
            ) && written.beginning.is_valid() && written.end.is_valid() && beginning
                == written.beginning.spec_millis() && end == written.end.spec_millis() && info is Ok
                ==> r is Ok && stretch_reads_like(r->Ok_0@, written),
{
    let aspect = match uuid_field(aspect, "Invalid UUID format for occurrence Aspect ID: ") {
        Ok(id) => AspectId { value: id },
        Err(e) => {
            return Err(e);
        },
    };
    let resolution = match resolution_field(resolution, "Invalid resolution format: ") {
        Ok(resolution) => resolution,
        Err(e) => {
            return Err(e);
        },
    };
    let database_info = match info {
        Ok(info) => info,
        Err(e) => {
            return Err(
                Error::DatabaseError(
                    crate::text::join(
                        "Failed to parse occurrence database info JSON: ",
                        e.as_str(),
                    ),
                ),
            );
        },
    };
    let pattern_id = match uuid_field(
        pattern,
        "Invalid UUID format for occurrence Pattern ID: ",
    ) {
        Ok(id) => PatternID { value: id },
        Err(e) => {
            return Err(e);
        },
    };
    let beginning = match instant_field(beginning, "Invalid beginning timestamp") {
        Ok(t) => t,
        Err(e) => {
            return Err(e);
        },
    };
    let end = match instant_field(end, "Invalid end timestamp") {
        Ok(t) => t,
        Err(e) => {
            return Err(e);
        },
    };
    Ok(Occurrence { aspect, resolution, size, database_info, pattern_id, beginning, end })
}

/// The columns of a stretch of a correlation.
pub open spec fn correlated_row(
    correlation: u128,
    index: int,
    o: OccurrenceView,
    info: Seq<char>,
) -> Seq<SqlView> {
    seq![
        SqlView::Text(uuid_text(correlation)),
        SqlView::Integer(index),
        SqlView::Text(uuid_text(o.aspect.value)),
        SqlView::Text(o.resolution.spec_text()),
        SqlView::Integer(o.size as int),
        SqlView::Text(info),
        SqlView::Text(uuid_text(o.pattern_id.value)),
        SqlView::Integer(o.beginning.spec_millis()),
        SqlView::Integer(o.end.spec_millis()),
    ]
}

/// A stretch of a correlation with its place.
#[derive(Debug)]
pub struct PlacedOccurrence {
    pub index: usize,
    pub occurrence: Occurrence,
}

/// The stretch in a row of a correlation, or the error; what the description of the database reads
/// as is given. A stretch that was written is read back.
pub fn parse_correlated_row(row: &Vec<SqlValue>, info: Result<DatabaseInfo, String>) -> (r: Result<
    PlacedOccurrence,
    Error,
>)
    requires
        row.len() == 9,
    ensures
        ({
            let views = value_views(row@);
            match r {
                Ok(p) => {
                    &&& correlated_error(views, refusal(info)) is None
                    &&& p.index == views[1]->Integer_0
                    &&& stands_in(
                        p.occurrence@,
                        views[2],
                        views[3],
                        views[4],
                        views[6],
                        views[7],
                        views[8],
                    )
                    &&& info is Ok
                    &&& p.occurrence.database_info == info->Ok_0
                },
                Err(e) => tells(e, correlated_error(views, refusal(info))),
            }
        }),
        forall|correlation: u128, index: int, written: OccurrenceView, text: Seq<char>|
            value_views(row@) == #[trigger] correlated_row(
                correlation,
                index,
                written,
                text,
            ) && 0 <= index <= usize::MAX && written.beginning.is_valid()
                && written.end.is_valid() && info is Ok ==> r is Ok && r->Ok_0.index == index
                && stretch_reads_like(r->Ok_0.occurrence@, written),
{
    let ghost views = value_views(row@);
    assert(forall|i: int| 0 <= i < 9 ==> #[trigger] views[i] == row@[i]@);
    let index: i64 = match integer_column(row, 1, "Occurrence Index is not integer") {
        Ok(n) => n,
        Err(e) => {
            return Err(e);
        },
    };
    let index: usize = match size_field(index, "Occurrence index out of range: ") {
        Ok(n) => n,
        Err(e) => {
            return Err(e);
        },
    };
    let aspect = match text_column(row, 2, "Occurrence Aspect ID is not text") {
        Ok(s) => s,
        Err(e) => {
            return Err(e);
        },
    };
    let resolution = match text_column(row, 3, "Occurrence Resolution is not text") {
        Ok(s) => s,
        Err(e) => {
            return Err(e);
        },
    };
    let size: i64 = match integer_column(row, 4, "Occurrence Size is not integer") {
        Ok(n) => n,
        Err(e) => {
            return Err(e);
        },
    };
    let size: usize = match size_field(size, "Occurrence size out of range: ") {
        Ok(n) => n,
        Err(e) => {
            return Err(e);
        },
    };
    match text_column(row, 5, "Occurrence Database Info is not text") {
        Ok(_) => {},
        Err(e) => {
            return Err(e);
        },
    }
    let pattern = match text_column(row, 6, "Occurrence Pattern ID is not text") {
        Ok(s) => s,
        Err(e) => {
            return Err(e);
        },
    };
    let beginning: i64 = match integer_column(
        row,
        7,
        "Occurrence Beginning Timestamp is not integer",
    ) {
        Ok(n) => n,
        Err(e) => {
            return Err(e);
        },
    };
    let end: i64 = match integer_column(row, 8, "Occurrence End Timestamp is not integer") {
        Ok(n) => n,
        Err(e) => {
            return Err(e);
        },
    };
    match stretch(&aspect, &resolution, size, info, &pattern, beginning, end) {
        Ok(occurrence) => Ok(PlacedOccurrence { index, occurrence }),
        Err(e) => Err(e),
    }
}

/// The columns of a stretch of a pattern in which it is read back.
pub open spec fn patterned_row(
    pattern: u128,
    aspect: u128,
    o: OccurrenceView,
    info: Seq<char>,
) -> Seq<SqlView> {
    seq![
        SqlView::Text(uuid_text(pattern)),
        SqlView::Text(uuid_text(aspect)),
        SqlView::Text(o.resolution.spec_text()),
        SqlView::Integer(o.size as int),
        SqlView::Text(info),
        SqlView::Integer(o.beginning.spec_millis()),
        SqlView::Integer(o.end.spec_millis()),
    ]
}

/// What is wrong with a row of a stretch of a pattern: its pattern is in the first column.
pub open spec fn patterned_error(row: Seq<SqlView>, info: Option<Seq<char>>) -> Option<Seq<char>> {
    or(
        not_text(row[0], "Occurrence Pattern ID is not text"@),
        or(
            not_text(row[1], "Occurrence Aspect ID is not text"@),
            or(
                not_text(row[2], "Occurrence Resolution is not text"@),
                or(
                    not_integer(row[3], "Occurrence Size is not integer"@),
                    or(
                        not_size(row[3], "Occurrence size out of range: "@),
                        or(
                            not_text(row[4], "Occurrence Database Info is not text"@),
                            or(
                                not_integer(
                                    row[5],
                                    "Occurrence Beginning Timestamp is not integer"@,
                                ),
                                or(
                                    not_integer(
                                        row[6],
                                        "Occurrence End Timestamp is not integer"@,
                                    ),
                                    or(
                                        not_uuid(
                                            row[0],
                                            "Invalid UUID format for occurrence Pattern ID: "@,
                                        ),
                                        stretch_error(
                                            row[1],
                                            row[2],
                                            info,
                                            row[0],
                                            row[5],
                                            row[6],
                                        ),
                                    ),
                                ),
                            ),
                        ),
                    ),
                ),
            ),
        ),
    )
}

/// The stretch in a row of a pattern, or the error; what the description of the database reads as is
/// given. A stretch that was written is read back.
pub fn parse_patterned_row(row: &Vec<SqlValue>, info: Result<DatabaseInfo, String>) -> (r: Result<
    Occurrence,
    Error,
>)
    requires
        row.len() == 7,
    ensures
        ({
            let views = value_views(row@);
            match r {
                Ok(o) => {
                    &&& patterned_error(views, refusal(info)) is None
                    &&& stands_in(
                        o@,
                        views[1],
                        views[2],
                        views[3],
                        views[0],
                        views[5],
                        views[6],
                    )
                    &&& info is Ok
                    &&& o.database_info == info->Ok_0
                },
                Err(e) => tells(e, patterned_error(views, refusal(info))),
            }
        }),
        forall|written: OccurrenceView, text: Seq<char>|
            value_views(row@) == #[trigger] patterned_row(
                written.pattern_id.value,
                written.aspect.value,
                written,
                text,
            ) && written.beginning.is_valid() && written.end.is_valid() && info is Ok ==> r is Ok
                && stretch_reads_like(r->Ok_0@, written),
{
    let ghost views = value_views(row@);
    assert(forall|i: int| 0 <= i < 7 ==> #[trigger] views[i] == row@[i]@);
    let pattern = match text_column(row, 0, "Occurrence Pattern ID is not text") {
        Ok(s) => s,
        Err(e) => {
            return Err(e);
        },
    };
    let aspect = match text_column(row, 1, "Occurrence Aspect ID is not text") {
        Ok(s) => s,
        Err(e) => {
            return Err(e);
        },
    };
    let resolution = match text_column(row, 2, "Occurrence Resolution is not text") {
        Ok(s) => s,
        Err(e) => {
            return Err(e);
        },
    };
    let size: i64 = match integer_column(row, 3, "Occurrence Size is not integer") {
        Ok(n) => n,
        Err(e) => {
            return Err(e);
        },
    };
    let size: usize = match size_field(size, "Occurrence size out of range: ") {
        Ok(n) => n,
        Err(e) => {
            return Err(e);
        },
    };
    match text_column(row, 4, "Occurrence Database Info is not text") {
        Ok(_) => {},
        Err(e) => {
            return Err(e);
        },
    }
    let beginning: i64 = match integer_column(
        row,
        5,
        "Occurrence Beginning Timestamp is not integer",
    ) {
        Ok(n) => n,
        Err(e) => {
            return Err(e);
        },
    };
    let end: i64 = match integer_column(row, 6, "Occurrence End Timestamp is not integer") {
        Ok(n) => n,
        Err(e) => {
            return Err(e);
        },
    };
    match uuid_field(&pattern, "Invalid UUID format for occurrence Pattern ID: ") {
        Ok(_) => {},
        Err(e) => {
            return Err(e);
        },
    }
    stretch(&aspect, &resolution, size, info, &pattern, beginning, end)
}

}
