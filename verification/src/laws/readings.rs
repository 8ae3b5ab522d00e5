//! Which measurements the queries for pages of them select.
use crate::laws::statements::{
    conditions_text,
    is_met,
    listed_text,
    only,
    reading_text,
    values_taken,
    Conditions,
    Listed,
    Operand,
    Row,
    Sign,
};
use crate::measurement::MeasurementView;
use crate::sql::SqlView;
use crate::store::reader::{is_asked_for, ReaderView};
use crate::store::readings::{page_query, PAGE_SIZE};
use crate::time::Timestamp;
use vstd::prelude::*;

verus! {

/// The columns of a measurement.
pub open spec fn measurement_columns() -> Listed {
    Listed::Only("id"@).and("dataset_id"@).and("timestamp"@).and("value"@)
}

/// The text that reads measurements which meet conditions, the earliest first, and no more than a
/// number of them that goes with it.
pub open spec fn page_text(cs: Conditions) -> Seq<char> {
    reading_text(measurement_columns(), "measurements"@, cs)
        + " ORDER BY timestamp ASC LIMIT ?"@
}

/// Whether all conditions are on the instant.
pub open spec fn on_the_instant(cs: Conditions) -> bool
    decreases cs,
{
    match cs {
        Conditions::Always => true,
        Conditions::And(rest, column, _, operand) => on_the_instant(*rest) && column
            == "timestamp"@ && operand is Given,
    }
}

proof fn lemma_bound_texts()
    ensures
        page_text(Conditions::Always)
            == "SELECT id, dataset_id, timestamp, value FROM measurements ORDER BY timestamp ASC LIMIT ?"@,
        page_text(only("timestamp"@, Sign::AtLeast))
            == "SELECT id, dataset_id, timestamp, value FROM measurements WHERE timestamp >= ? ORDER BY timestamp ASC LIMIT ?"@,
        page_text(only("timestamp"@, Sign::AtMost))
            == "SELECT id, dataset_id, timestamp, value FROM measurements WHERE timestamp <= ? ORDER BY timestamp ASC LIMIT ?"@,
        page_text(only("timestamp"@, Sign::Above))
            == "SELECT id, dataset_id, timestamp, value FROM measurements WHERE timestamp > ? ORDER BY timestamp ASC LIMIT ?"@,
{
    reveal_with_fuel(listed_text, 5);
    reveal_with_fuel(conditions_text, 4);
    reveal_strlit("SELECT id, dataset_id, timestamp, value FROM measurements ORDER BY timestamp ASC LIMIT ?");
    reveal_strlit("SELECT id, dataset_id, timestamp, value FROM measurements WHERE timestamp >= ? ORDER BY timestamp ASC LIMIT ?");
    reveal_strlit("SELECT id, dataset_id, timestamp, value FROM measurements WHERE timestamp <= ? ORDER BY timestamp ASC LIMIT ?");
    reveal_strlit("SELECT id, dataset_id, timestamp, value FROM measurements WHERE timestamp > ? ORDER BY timestamp ASC LIMIT ?");
    reveal_strlit("SELECT ");
    reveal_strlit("id");
    reveal_strlit("dataset_id");
    reveal_strlit("timestamp");
    reveal_strlit("value");
    reveal_strlit(", ");
    reveal_strlit(" FROM ");
    reveal_strlit("measurements");
    reveal_strlit(" WHERE ");
    reveal_strlit(" >= ");
    reveal_strlit(" <= ");
    reveal_strlit(" > ");
    reveal_strlit("?");
    reveal_strlit("");
    reveal_strlit(" ORDER BY timestamp ASC LIMIT ?");
    assert(page_text(Conditions::Always)
        =~= "SELECT id, dataset_id, timestamp, value FROM measurements ORDER BY timestamp ASC LIMIT ?"@);
    assert(page_text(only("timestamp"@, Sign::AtLeast))
        =~= "SELECT id, dataset_id, timestamp, value FROM measurements WHERE timestamp >= ? ORDER BY timestamp ASC LIMIT ?"@);
    assert(page_text(only("timestamp"@, Sign::AtMost))
        =~= "SELECT id, dataset_id, timestamp, value FROM measurements WHERE timestamp <= ? ORDER BY timestamp ASC LIMIT ?"@);
    assert(page_text(only("timestamp"@, Sign::Above))
        =~= "SELECT id, dataset_id, timestamp, value FROM measurements WHERE timestamp > ? ORDER BY timestamp ASC LIMIT ?"@);
}

proof fn lemma_range_texts()
    ensures
        page_text(only("timestamp"@, Sign::AtLeast).and("timestamp"@, Sign::AtMost))
            == "SELECT id, dataset_id, timestamp, value FROM measurements WHERE timestamp >= ? AND timestamp <= ? ORDER BY timestamp ASC LIMIT ?"@,
        page_text(only("timestamp"@, Sign::Above).and("timestamp"@, Sign::AtMost))
            == "SELECT id, dataset_id, timestamp, value FROM measurements WHERE timestamp > ? AND timestamp <= ? ORDER BY timestamp ASC LIMIT ?"@,
{
    reveal_with_fuel(listed_text, 5);
    reveal_with_fuel(conditions_text, 4);
    reveal_strlit("SELECT id, dataset_id, timestamp, value FROM measurements WHERE timestamp >= ? AND timestamp <= ? ORDER BY timestamp ASC LIMIT ?");
    reveal_strlit("SELECT id, dataset_id, timestamp, value FROM measurements WHERE timestamp > ? AND timestamp <= ? ORDER BY timestamp ASC LIMIT ?");
    reveal_strlit("SELECT ");
    reveal_strlit("id");
    reveal_strlit("dataset_id");
    reveal_strlit("timestamp");
    reveal_strlit("value");
    reveal_strlit(", ");
    reveal_strlit(" FROM ");
    reveal_strlit("measurements");
    reveal_strlit(" WHERE ");
    reveal_strlit(" AND ");
    reveal_strlit(" >= ");
    reveal_strlit(" <= ");
    reveal_strlit(" > ");
    reveal_strlit("?");
    reveal_strlit("");
    reveal_strlit(" ORDER BY timestamp ASC LIMIT ?");
    assert(page_text(only("timestamp"@, Sign::AtLeast).and("timestamp"@, Sign::AtMost))
        =~= "SELECT id, dataset_id, timestamp, value FROM measurements WHERE timestamp >= ? AND timestamp <= ? ORDER BY timestamp ASC LIMIT ?"@);
    assert(page_text(only("timestamp"@, Sign::Above).and("timestamp"@, Sign::AtMost))
        =~= "SELECT id, dataset_id, timestamp, value FROM measurements WHERE timestamp > ? AND timestamp <= ? ORDER BY timestamp ASC LIMIT ?"@);
}

/// What a page query selects: its text asks for measurements with conditions on the instant alone,
/// the earliest first and no more than a page of them, and a row meets the conditions exactly where
/// its instant lies behind the cursor, or from the start on where there is none, and not behind the
/// end.
pub proof fn law_a_page_selects_what_is_asked_for(
    cursor: Option<int>,
    start: Option<Timestamp>,
    end: Option<Timestamp>,
    row: Row,
    millis: int,
) -> (cs: Conditions)
    requires
        row["timestamp"@] == SqlView::Integer(millis),
    ensures
        on_the_instant(cs),
        page_query(cursor, start, end).sql == page_text(cs),
        page_query(cursor, start, end).params.len() == values_taken(cs) + 1,
        page_query(cursor, start, end).params.last() == SqlView::Integer(PAGE_SIZE as int),
        is_met(cs, page_query(cursor, start, end).params, 0, row) <==> {
            &&& match cursor {
                Some(c) => c < millis,
                None => start matches Some(s) ==> s.spec_millis() <= millis,
            }
            &&& end matches Some(e) ==> millis <= e.spec_millis()
        },
{
    reveal_with_fuel(is_met, 4);
    reveal_with_fuel(values_taken, 4);
    reveal_with_fuel(on_the_instant, 4);
    lemma_bound_texts();
    lemma_range_texts();
    match (cursor, start, end) {
        (None, None, None) => Conditions::Always,
        (None, Some(_), None) => only("timestamp"@, Sign::AtLeast),
        (None, None, Some(_)) => only("timestamp"@, Sign::AtMost),
        (None, Some(_), Some(_)) => only("timestamp"@, Sign::AtLeast).and(
            "timestamp"@,
            Sign::AtMost,
        ),
        (Some(_), _, None) => only("timestamp"@, Sign::Above),
        (Some(_), _, Some(_)) => only("timestamp"@, Sign::Above).and("timestamp"@, Sign::AtMost),
    }
}

/// What the model of reading takes a page query to ask for is what its conditions select.
pub proof fn law_the_model_of_reading_is_that_of_the_query(
    r: ReaderView,
    m: MeasurementView,
    row: Row,
) -> (cs: Conditions)
    requires
        row["timestamp"@] == SqlView::Integer(m.timestamp.spec_millis()),
    ensures
        on_the_instant(cs),
        page_query(r.cursor, r.start, r.end).sql == page_text(cs),
        is_met(cs, page_query(r.cursor, r.start, r.end).params, 0, row) <==> is_asked_for(r, m),
{
    law_a_page_selects_what_is_asked_for(
        r.cursor,
        r.start,
        r.end,
        row,
        m.timestamp.spec_millis(),
    )
}

}
