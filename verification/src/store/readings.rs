//! How stored measurements are queried and read.
use crate::decimal::{decimal_parse, decimal_text, Decimal};
use crate::error::Error;
use crate::ids::{uuid_parse, uuid_text, DatasetId, MeasurementId};
use crate::measurement::{Measurement, MeasurementView};
use crate::sql::{
    integer_column,
    no_values,
    statement,
    text_column,
    value_views,
    SqlValue,
    SqlView,
    Statement,
    StatementView,
};
use crate::text::{join, parse_usize, unsigned_of, usize_refusal};
use crate::time::{Timestamp, MAX_SECONDS, MIN_SECONDS};
use vstd::prelude::*;

verus! {

/// The number of measurements that are read at once.
pub const PAGE_SIZE: i64 = 1_000_000;

/// The query for the next measurements of a range of time. After the first page the place of the
/// last one, in milliseconds, takes the part of the start.
pub open spec fn page_query(
    cursor: Option<int>,
    start: Option<Timestamp>,
    end: Option<Timestamp>,
) -> StatementView {
    match (cursor, start, end) {
        (None, None, None) => StatementView {
            sql: "SELECT id, dataset_id, timestamp, value FROM measurements ORDER BY timestamp ASC LIMIT ?"@,
            params: seq![SqlView::Integer(PAGE_SIZE as int)],
        },
        (None, Some(s), None) => StatementView {
            sql: "SELECT id, dataset_id, timestamp, value FROM measurements WHERE timestamp >= ? ORDER BY timestamp ASC LIMIT ?"@,
            params: seq![SqlView::Integer(s.spec_millis()), SqlView::Integer(PAGE_SIZE as int)],
        },
        (None, None, Some(e)) => StatementView {
            sql: "SELECT id, dataset_id, timestamp, value FROM measurements WHERE timestamp <= ? ORDER BY timestamp ASC LIMIT ?"@,
            params: seq![SqlView::Integer(e.spec_millis()), SqlView::Integer(PAGE_SIZE as int)],
        },
        (None, Some(s), Some(e)) => StatementView {
            sql: "SELECT id, dataset_id, timestamp, value FROM measurements WHERE timestamp >= ? AND timestamp <= ? ORDER BY timestamp ASC LIMIT ?"@,
            params: seq![
                SqlView::Integer(s.spec_millis()),
                SqlView::Integer(e.spec_millis()),
                SqlView::Integer(PAGE_SIZE as int),
            ],
        },
        (Some(last), _, None) => StatementView {
            sql: "SELECT id, dataset_id, timestamp, value FROM measurements WHERE timestamp > ? ORDER BY timestamp ASC LIMIT ?"@,
            params: seq![SqlView::Integer(last), SqlView::Integer(PAGE_SIZE as int)],
        },
        (Some(last), _, Some(e)) => StatementView {
            sql: "SELECT id, dataset_id, timestamp, value FROM measurements WHERE timestamp > ? AND timestamp <= ? ORDER BY timestamp ASC LIMIT ?"@,
            params: seq![
                SqlView::Integer(last),
                SqlView::Integer(e.spec_millis()),
                SqlView::Integer(PAGE_SIZE as int),
            ],
        },
    }
}

/// The query for the next measurements of a range of time.
pub fn next_page(cursor: Option<i64>, start: Option<Timestamp>, end: Option<Timestamp>) -> (r:
    Statement)
    requires
        start matches Some(t) ==> t.is_valid(),
        end matches Some(t) ==> t.is_valid(),
    ensures
        r@ == page_query(
            match cursor {
                Some(c) => Some(c as int),
                None => None,
            },
            start,
            end,
        ),
{
    let ghost want = page_query(
        match cursor {
            Some(c) => Some(c as int),
            None => None,
        },
        start,
        end,
    );
    let mut params: Vec<SqlValue> = Vec::new();
    match (cursor, start, end) {
        (None, None, None) => {
            params.push(SqlValue::Integer(PAGE_SIZE));
            assert(value_views(params@) =~= want.params);
            statement(
                "SELECT id, dataset_id, timestamp, value FROM measurements ORDER BY timestamp ASC LIMIT ?",
                params,
            )
        },
        (None, Some(s), None) => {
            params.push(SqlValue::Integer(s.millis()));
            params.push(SqlValue::Integer(PAGE_SIZE));
            assert(value_views(params@) =~= want.params);
            statement(
                "SELECT id, dataset_id, timestamp, value FROM measurements WHERE timestamp >= ? ORDER BY timestamp ASC LIMIT ?",
                params,
            )
        },
        (None, None, Some(e)) => {
            params.push(SqlValue::Integer(e.millis()));
            params.push(SqlValue::Integer(PAGE_SIZE));
            assert(value_views(params@) =~= want.params);
            statement(
                "SELECT id, dataset_id, timestamp, value FROM measurements WHERE timestamp <= ? ORDER BY timestamp ASC LIMIT ?",
                params,
            )
        },
        (None, Some(s), Some(e)) => {
            params.push(SqlValue::Integer(s.millis()));
            params.push(SqlValue::Integer(e.millis()));
            params.push(SqlValue::Integer(PAGE_SIZE));
            assert(value_views(params@) =~= want.params);
            statement(
                "SELECT id, dataset_id, timestamp, value FROM measurements WHERE timestamp >= ? AND timestamp <= ? ORDER BY timestamp ASC LIMIT ?",
                params,
            )
        },
        (Some(last), _, None) => {
            params.push(SqlValue::Integer(last));
            params.push(SqlValue::Integer(PAGE_SIZE));
            assert(value_views(params@) =~= want.params);
            statement(
                "SELECT id, dataset_id, timestamp, value FROM measurements WHERE timestamp > ? ORDER BY timestamp ASC LIMIT ?",
                params,
            )
        },
        (Some(last), _, Some(e)) => {
            params.push(SqlValue::Integer(last));
            params.push(SqlValue::Integer(e.millis()));
            params.push(SqlValue::Integer(PAGE_SIZE));
            assert(value_views(params@) =~= want.params);
            statement(
                "SELECT id, dataset_id, timestamp, value FROM measurements WHERE timestamp > ? AND timestamp <= ? ORDER BY timestamp ASC LIMIT ?",
                params,
            )
        },
    }
}

/// The place from which the next page is read: that of the last measurement of a page.
pub fn cursor_after(cursor: Option<i64>, page: &Vec<Measurement>) -> (r: Option<i64>)
    requires
        forall|i: int| 0 <= i < page.len() ==> (#[trigger] page@[i]).timestamp.is_valid(),
    ensures
        page@.len() == 0 ==> r == cursor,
        page@.len() > 0 ==> r is Some && r->0 == page@.last().timestamp.spec_millis(),
{
    if page.len() == 0 {
        cursor
    } else {
        assert(page@.last().timestamp.is_valid());
        Some(page[page.len() - 1].timestamp.millis())
    }
}

/// Whether a query for measurements is looked up in the cache: for all measurements, in small pages.
pub fn is_cached_query(start: Option<Timestamp>, end: Option<Timestamp>, max_per_page: usize) -> (r:
    bool)
    ensures
        r == (max_per_page <= 10_000 && start is None && end is None),
{
    max_per_page <= 10_000 && start.is_none() && end.is_none()
}

/// The row that a measurement is stored in.
pub open spec fn stored_row(m: MeasurementView) -> Seq<SqlView> {
    seq![
        SqlView::Text(uuid_text(m.id.value)),
        SqlView::Text(uuid_text(m.dataset_id.value)),
        SqlView::Integer(m.timestamp.spec_millis()),
        SqlView::Text(decimal_text(m.value.mantissa, m.value.scale)),
    ]
}

/// Whether a measurement reads like another: with its identifiers, its instant to the millisecond,
/// and the same value.
pub open spec fn reads_like(m: MeasurementView, written: MeasurementView) -> bool {
    &&& m.id == written.id
    &&& m.dataset_id == written.dataset_id
    &&& m.timestamp.spec_millis() == written.timestamp.spec_millis()
    &&& m.value.same_value(written.value)
}

/// What is wrong with the first column of a row of a measurement that does not fit.
pub open spec fn measurement_error(row: Seq<SqlView>) -> Option<Seq<char>> {
    if !(row[0] is Text) {
        Some("Database error: "@ + "ID is not text"@)
    } else if !(row[1] is Text) {
        Some("Database error: "@ + "Dataset ID is not text"@)
    } else if !(row[2] is Integer) {
        Some("Database error: "@ + "Timestamp is not integer"@)
    } else if !(row[3] is Text) {
        Some("Database error: "@ + "Value is not text"@)
    } else if uuid_parse(row[0]->Text_0) is Err {
        Some(
            "Invalid ID: "@ + ("Invalid UUID format for measurement ID: "@ + uuid_parse(
                row[0]->Text_0,
            )->Err_0),
        )
    } else if uuid_parse(row[1]->Text_0) is Err {
        Some(
            "Invalid ID: "@ + ("Invalid UUID format for dataset ID: "@ + uuid_parse(
                row[1]->Text_0,
            )->Err_0),
        )
    } else if !(MIN_SECONDS <= row[2]->Integer_0 / 1000 <= MAX_SECONDS) {
        Some("Database error: "@ + "Invalid timestamp"@)
    } else if decimal_parse(row[3]->Text_0) is Err {
        Some(
            "Database error: "@ + ("Invalid value format: "@ + decimal_parse(
                row[3]->Text_0,
            )->Err_0),
        )
    } else {
        None
    }
}

/// The measurement in a row, or the error. A measurement that was written is read back.
pub fn parse_measurement_row(row: &Vec<SqlValue>) -> (r: Result<Measurement, Error>)
    requires
        row.len() == 4,
    ensures
        match r {
            Ok(m) => {
                let views = value_views(row@);
                &&& measurement_error(views) is None
                &&& uuid_parse(views[0]->Text_0) == Ok::<u128, Seq<char>>(m.id.value)
                &&& uuid_parse(views[1]->Text_0) == Ok::<u128, Seq<char>>(m.dataset_id.value)
                &&& m.timestamp.is_valid()
                &&& m.timestamp.total() == views[2]->Integer_0 * 1_000_000
                &&& decimal_parse(views[3]->Text_0) == Ok::<(int, int), Seq<char>>(
                    (m.value@.mantissa, m.value@.scale),
                )
            },
            Err(e) => measurement_error(value_views(row@)) == Some(e.spec_message()),
        },
        forall|written: MeasurementView|
            value_views(row@) == #[trigger] stored_row(written) && written.timestamp.is_valid()
                && written.value.has_text() ==> r is Ok && reads_like(r->Ok_0@, written),
{
    let ghost views = value_views(row@);
    assert(views[0] == row@[0]@ && views[1] == row@[1]@ && views[2] == row@[2]@ && views[3]
        == row@[3]@);
    let id_text = match text_column(row, 0, "ID is not text") {
        Ok(s) => s,
        Err(e) => {
            return Err(e);
        },
    };
    let dataset_text = match text_column(row, 1, "Dataset ID is not text") {
        Ok(s) => s,
        Err(e) => {
            return Err(e);
        },
    };
    let millis: i64 = match integer_column(row, 2, "Timestamp is not integer") {
        Ok(n) => n,
        Err(e) => {
            return Err(e);
        },
    };
    let value_text = match text_column(row, 3, "Value is not text") {
        Ok(s) => s,
        Err(e) => {
            return Err(e);
        },
    };
    let id = match MeasurementId::parse(id_text.as_str()) {
        Ok(id) => id,
        Err(e) => {
            return Err(
                Error::InvalidIdError(
                    join("Invalid UUID format for measurement ID: ", e.as_str()),
                ),
            );
        },
    };
    let dataset_id = match DatasetId::parse(dataset_text.as_str()) {
        Ok(id) => id,
        Err(e) => {
            return Err(
                Error::InvalidIdError(join("Invalid UUID format for dataset ID: ", e.as_str())),
            );
        },
    };
    let timestamp = match Timestamp::from_millis(millis) {
        Some(t) => t,
        None => {
            return Err(Error::DatabaseError("Invalid timestamp".to_owned()));
        },
    };
    let value = match Decimal::parse(value_text.as_str()) {
        Ok(v) => v,
        Err(e) => {
            return Err(Error::DatabaseError(join("Invalid value format: ", e.as_str())));
        },
    };
    Ok(Measurement { id, dataset_id, timestamp, value })
}

/// The statement of [`measurements_count_query`].
pub open spec fn spec_measurements_count_query() -> StatementView {
    StatementView { sql: "SELECT COUNT(*) FROM measurements"@, params: seq![] }
}

/// The query for the number of measurements.
pub fn measurements_count_query() -> (r: Statement)
    ensures
        r@ == spec_measurements_count_query(),
{
    let none: Vec<SqlValue> = Vec::new();
    assert(value_views(none@) =~= Seq::<SqlView>::empty());
    statement("SELECT COUNT(*) FROM measurements", none)
}

/// The number of measurements, by the first row of the query; none without a row. A count is an
/// integer, or a text that writes one.
pub fn measurements_count(row: Option<&Vec<SqlValue>>) -> (r: Result<usize, Error>)
    requires
        row matches Some(v) ==> v.len() >= 1,
    ensures
        match row {
            None => r == Ok::<usize, Error>(0),
            Some(v) => match v@[0]@ {
                SqlView::Integer(n) => if 0 <= n <= usize::MAX {
                    r == Ok::<usize, Error>(n as usize)
                } else {
                    r is Err && r->Err_0 is DatabaseError && r->Err_0.spec_message()
                        == "Database error: "@ + "Count is out of range"@
                },
                SqlView::Text(s) => match unsigned_of(s, usize::MAX as nat) {
                    Some(n) => r == Ok::<usize, Error>(n as usize),
                    None => r is Err && r->Err_0 is DatabaseError && r->Err_0.spec_message()
                        == "Database error: "@ + ("Invalid count format: "@ + usize_refusal(s)),
                },
                _ => r is Err && r->Err_0 is DatabaseError && r->Err_0.spec_message()
                    == "Database error: "@ + "Count is not text"@,
            },
        },
{
    match row {
        None => Ok(0),
        Some(v) => match &v[0] {
            SqlValue::Integer(n) => {
                if *n >= 0 && *n as u64 <= usize::MAX as u64 {
                    Ok(*n as usize)
                } else {
                    Err(Error::DatabaseError("Count is out of range".to_owned()))
                }
            },
            SqlValue::Text(s) => match parse_usize(s.as_str()) {
                Ok(n) => Ok(n),
                Err(e) => Err(Error::DatabaseError(join("Invalid count format: ", e.as_str()))),
            },
            _ => Err(Error::DatabaseError("Count is not text".to_owned())),
        },
    }
}

pub open spec fn measurement_views(s: Seq<Measurement>) -> Seq<MeasurementView> {
    Seq::new(s.len(), |i: int| s[i]@)
}

/// Whether some measurement has the identifier.
pub open spec fn has_id(s: Seq<MeasurementView>, id: MeasurementId) -> bool {
    exists|i: int| 0 <= i < s.len() && (#[trigger] s[i]).id == id
}

/// The first measurements, and then those of the last ones, of which the latest comes first, that
/// are not among them.
pub open spec fn joined_ends(first: Seq<MeasurementView>, last: Seq<MeasurementView>) -> Seq<
    MeasurementView,
>
    decreases last.len(),
{
    if last.len() == 0 {
        first
    } else if has_id(first, last.last().id) {
        joined_ends(first, last.drop_last())
    } else {
        joined_ends(first.push(last.last()), last.drop_last())
    }
}

/// A measurement put behind those that are not later than it.
pub open spec fn put_in_order(s: Seq<MeasurementView>, m: MeasurementView) -> Seq<MeasurementView>
    decreases s.len(),
{
    if s.len() == 0 {
        seq![m]
    } else if m.timestamp.total() < s.last().timestamp.total() {
        put_in_order(s.drop_last(), m).push(s.last())
    } else {
        s.push(m)
    }
}

/// Measurements in the order of their instants; those of one instant stay in the order they had.
pub open spec fn in_order(s: Seq<MeasurementView>) -> Seq<MeasurementView>
    decreases s.len(),
{
    if s.len() == 0 {
        s
    } else {
        put_in_order(in_order(s.drop_last()), s.last())
    }
}

pub open spec fn all_instants_valid(s: Seq<MeasurementView>) -> bool {
    forall|i: int| 0 <= i < s.len() ==> (#[trigger] s[i]).timestamp.is_valid()
}

proof fn lemma_put_in_order(s: Seq<MeasurementView>, m: MeasurementView)
    ensures
        put_in_order(s, m).len() == s.len() + 1,
        put_in_order(s, m).to_multiset() == s.to_multiset().insert(m),
        all_instants_valid(s) && m.timestamp.is_valid() ==> all_instants_valid(put_in_order(s, m)),
    decreases s.len(),
{
    broadcast use vstd::seq_lib::group_to_multiset_ensures;

    if s.len() == 0 {
        assert(seq![m] =~= Seq::<MeasurementView>::empty().push(m));
    } else if m.timestamp.total() < s.last().timestamp.total() {
        lemma_put_in_order(s.drop_last(), m);
        assert(s =~= s.drop_last().push(s.last()));
        assert(put_in_order(s, m).to_multiset() =~= s.to_multiset().insert(m));
        if all_instants_valid(s) && m.timestamp.is_valid() {
            assert forall|i: int| 0 <= i < s.drop_last().len() implies (
            #[trigger] s.drop_last()[i]).timestamp.is_valid() by {
                assert(s[i].timestamp.is_valid());
            }
            assert(s[s.len() - 1].timestamp.is_valid());
        }
    }
}

/// Whether no measurement is followed by an earlier one.
pub open spec fn is_in_order(s: Seq<MeasurementView>) -> bool {
    forall|i: int, j: int|
        0 <= i <= j < s.len() ==> (#[trigger] s[i]).timestamp.total() <= (
        #[trigger] s[j]).timestamp.total()
}

proof fn lemma_put_keeps_order(s: Seq<MeasurementView>, m: MeasurementView)
    requires
        is_in_order(s),
    ensures
        is_in_order(put_in_order(s, m)),
        forall|i: int|
            0 <= i < put_in_order(s, m).len() ==> (#[trigger] put_in_order(
                s,
                m,
            )[i]).timestamp.total() <= if s.len() > 0 && m.timestamp.total()
                < s.last().timestamp.total() {
                s.last().timestamp.total()
            } else {
                m.timestamp.total()
            },
    decreases s.len(),
{
    if s.len() > 0 && m.timestamp.total() < s.last().timestamp.total() {
        lemma_put_keeps_order(s.drop_last(), m);
        lemma_put_in_order(s.drop_last(), m);
    }
}

/// Measurements that are put in order are in order, and are the same measurements.
pub proof fn law_order_keeps_measurements(s: Seq<MeasurementView>)
    ensures
        is_in_order(in_order(s)),
        in_order(s).to_multiset() == s.to_multiset(),
        in_order(s).len() == s.len(),
        all_instants_valid(s) ==> all_instants_valid(in_order(s)),
    decreases s.len(),
{
    broadcast use vstd::seq_lib::group_to_multiset_ensures;

    if s.len() > 0 {
        law_order_keeps_measurements(s.drop_last());
        lemma_put_in_order(in_order(s.drop_last()), s.last());
        lemma_put_keeps_order(in_order(s.drop_last()), s.last());
        assert(s =~= s.drop_last().push(s.last()));
        if all_instants_valid(s) {
            assert forall|i: int| 0 <= i < s.drop_last().len() implies (
            #[trigger] s.drop_last()[i]).timestamp.is_valid() by {
                assert(s[i].timestamp.is_valid());
            }
            assert(s[s.len() - 1].timestamp.is_valid());
        }
    }
}

/// Puts a measurement behind those that are not later than it.
fn insert_in_order(s: &mut Vec<Measurement>, m: Measurement)
    requires
        all_instants_valid(measurement_views(old(s)@)),
        m.timestamp.is_valid(),
    ensures
        measurement_views(final(s)@) == put_in_order(measurement_views(old(s)@), m@),
{
    let ghost before = s@;
    let ghost views = measurement_views(before);
    let mut at: usize = s.len();
    proof {
        assert(views.take(at as int) =~= views);
        assert(views.skip(at as int) =~= Seq::<MeasurementView>::empty());
        assert(put_in_order(views, m@) =~= put_in_order(views.take(at as int), m@) + views.skip(
            at as int,
        ));
        assert forall|i: int| 0 <= i < s.len() implies (#[trigger] s@[i]).timestamp.is_valid() by {
            assert(views[i].timestamp.is_valid());
        }
    }
    while at > 0 && m.timestamp.before(&s[at - 1].timestamp)
        invariant
            at <= s.len(),
            s@ == before,
            views == measurement_views(before),
            all_instants_valid(views),
            m.timestamp.is_valid(),
            forall|i: int| 0 <= i < s.len() ==> (#[trigger] s@[i]).timestamp.is_valid(),
            put_in_order(views, m@) == put_in_order(views.take(at as int), m@) + views.skip(
                at as int,
            ),
        decreases at,
    {
        proof {
            let part = views.take(at as int);
            assert(part.drop_last() =~= views.take(at - 1));
            assert(part.last() == views[at - 1]);
            assert(views.skip(at - 1) =~= seq![views[at - 1]] + views.skip(at as int));
            assert(put_in_order(part, m@) + views.skip(at as int) =~= put_in_order(
                views.take(at - 1),
                m@,
            ) + views.skip(at - 1));
        }
        at -= 1;
    }
    proof {
        let part = views.take(at as int);
        if at > 0 {
            assert(part.last() == views[at - 1]);
        }
        assert(put_in_order(part, m@) =~= part.push(m@));
    }
    s.insert(at, m);
    assert(measurement_views(s@) =~= views.take(at as int).push(m@) + views.skip(at as int));
}

/// The measurements at both ends of all measurements, in the order of their instants: the first
/// ones, and the last ones, of which the latest comes first, without those that are among the first.
pub fn boundary_measurements(first: Vec<Measurement>, last: Vec<Measurement>) -> (r: Vec<
    Measurement,
>)
    requires
        all_instants_valid(measurement_views(first@)),
        all_instants_valid(measurement_views(last@)),
    ensures
        measurement_views(r@) == in_order(
            joined_ends(measurement_views(first@), measurement_views(last@)),
        ),
{
    let ghost want = joined_ends(measurement_views(first@), measurement_views(last@));
    let mut all = first;
    let mut rest = last;
    while rest.len() > 0
        invariant
            all_instants_valid(measurement_views(all@)),
            all_instants_valid(measurement_views(rest@)),
            want == joined_ends(measurement_views(all@), measurement_views(rest@)),
        decreases rest.len(),
    {
        let ghost before = rest@;
        let ghost held = all@;
        let end: usize = rest.len() - 1;
        let latest = rest.remove(end);
        proof {
            assert(measurement_views(before).last() == latest@);
            assert(measurement_views(rest@) =~= measurement_views(before).drop_last());
            assert(measurement_views(before)[before.len() - 1].timestamp.is_valid());
            assert forall|i: int| 0 <= i < rest.len() implies (#[trigger] measurement_views(
                rest@,
            )[i]).timestamp.is_valid() by {
                assert(measurement_views(before)[i].timestamp.is_valid());
            }
        }
        if !contains_id(&all, &latest.id) {
            let ghost view = latest@;
            all.push(latest);
            assert(measurement_views(all@) =~= measurement_views(held).push(view));
        }
    }
    sorted_measurements(&all)
}

/// The measurements in the order of their instants; those of one instant stay in the order they had.
pub fn sorted_measurements(measurements: &Vec<Measurement>) -> (r: Vec<Measurement>)
    requires
        all_instants_valid(measurement_views(measurements@)),
    ensures
        measurement_views(r@) == in_order(measurement_views(measurements@)),
{
    let ghost given = measurement_views(measurements@);
    let mut sorted: Vec<Measurement> = Vec::new();
    let mut i: usize = 0;
    assert(given.take(0) =~= Seq::<MeasurementView>::empty());
    assert(measurement_views(sorted@) =~= in_order(given.take(0)));
    while i < measurements.len()
        invariant
            i <= measurements.len(),
            given == measurement_views(measurements@),
            all_instants_valid(given),
            measurement_views(sorted@) == in_order(given.take(i as int)),
        decreases measurements.len() - i,
    {
        let m = measurements[i].clone();
        proof {
            assert(m@ == given[i as int]);
            assert(given.take(i + 1).drop_last() =~= given.take(i as int));
            assert forall|k: int| 0 <= k < i implies (#[trigger] given.take(
                i as int,
            )[k]).timestamp.is_valid() by {
                assert(given[k].timestamp.is_valid());
            }
            law_order_keeps_measurements(given.take(i as int));
        }
        insert_in_order(&mut sorted, m);
        i += 1;
    }
    assert(given.take(i as int) =~= given);
    sorted
}

fn contains_id(s: &Vec<Measurement>, id: &MeasurementId) -> (r: bool)
    ensures
        r == has_id(measurement_views(s@), *id),
{
    let mut i: usize = 0;
    while i < s.len()
        invariant
            i <= s.len(),
            forall|k: int| 0 <= k < i ==> (#[trigger] measurement_views(s@)[k]).id != *id,
        decreases s.len() - i,
    {
        if s[i].id.value == id.value {
            assert(measurement_views(s@)[i as int].id == *id);
            return true;
        }
        i += 1;
    }
    false
}

/// The statement of [`first_measurements_query`].
pub open spec fn spec_first_measurements_query() -> StatementView {
    StatementView {
        sql: "SELECT id, dataset_id, timestamp, value FROM measurements ORDER BY timestamp ASC LIMIT 2"@,
        params: seq![],
    }
}

/// The query for the first two measurements.
pub fn first_measurements_query() -> (r: Statement)
    ensures
        r@ == spec_first_measurements_query(),
{
    statement(
        "SELECT id, dataset_id, timestamp, value FROM measurements ORDER BY timestamp ASC LIMIT 2",
        no_values(),
    )
}

/// The statement of [`last_measurements_query`].
pub open spec fn spec_last_measurements_query() -> StatementView {
    StatementView {
        sql: "SELECT id, dataset_id, timestamp, value FROM measurements ORDER BY timestamp DESC LIMIT 2"@,
        params: seq![],
    }
}

/// The query for the last two measurements, the last one first.
pub fn last_measurements_query() -> (r: Statement)
    ensures
        r@ == spec_last_measurements_query(),
{
    statement(
        "SELECT id, dataset_id, timestamp, value FROM measurements ORDER BY timestamp DESC LIMIT 2",
        no_values(),
    )
}

}
