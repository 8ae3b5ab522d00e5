//! Reading the measurements of a range of time one after the other, page by page.
use crate::columns::database_error;
use crate::decimal::decimal_parse;
use crate::error::Error;
use crate::ids::uuid_parse;
use crate::measurement::{Measurement, MeasurementView};
use crate::sql::{value_views, SqlValue, SqlView, Statement};
use crate::store::readings::{
    measurement_error,
    measurement_views,
    next_page,
    page_query,
    parse_measurement_row,
    PAGE_SIZE,
};
use crate::text::join;
use crate::time::Timestamp;
use vstd::prelude::*;

verus! {

/// How far the measurements of a range of time have been read.
#[derive(Debug)]
pub struct Reader {
    /// The place of the last measurement that was read, in milliseconds.
    pub cursor: Option<i64>,
    /// What was read and not yet handed out, the last one first.
    pub waiting: Vec<Measurement>,
    pub start: Option<Timestamp>,
    pub end: Option<Timestamp>,
}

#[verifier::ext_equal]
pub struct ReaderView {
    pub cursor: Option<int>,
    /// What was read and not yet handed out, in order.
    pub waiting: Seq<MeasurementView>,
    pub start: Option<Timestamp>,
    pub end: Option<Timestamp>,
}

impl View for Reader {
    type V = ReaderView;

    open spec fn view(&self) -> ReaderView {
        ReaderView {
            cursor: match self.cursor {
                Some(c) => Some(c as int),
                None => None,
            },
            waiting: measurement_views(self.waiting@).reverse(),
            start: self.start,
            end: self.end,
        }
    }
}

/// What comes next.
#[derive(Debug)]
pub enum ReaderStep {
    /// A measurement is handed out.
    Hand(Measurement),
    /// The next page is queried.
    Fetch(Statement),
}

/// What came of a page.
#[derive(Debug)]
pub enum ReaderOutcome {
    /// A measurement is handed out.
    Hand(Measurement),
    /// The failure is handed out.
    Fail(Error),
    /// There is nothing more.
    End,
}

/// Whether a measurement is the one in a row.
pub open spec fn is_measurement_in(m: MeasurementView, row: Seq<SqlView>) -> bool {
    &&& measurement_error(row) is None
    &&& uuid_parse(row[0]->Text_0) == Ok::<u128, Seq<char>>(m.id.value)
    &&& uuid_parse(row[1]->Text_0) == Ok::<u128, Seq<char>>(m.dataset_id.value)
    &&& m.timestamp.is_valid()
    &&& m.timestamp.total() == row[2]->Integer_0 * 1_000_000
    &&& decimal_parse(row[3]->Text_0) == Ok::<(int, int), Seq<char>>(
        (m.value.mantissa, m.value.scale),
    )
}

/// What is wrong with a row of a page, which may not even have been read.
pub open spec fn row_error(row: Result<Vec<SqlValue>, String>) -> Option<Seq<char>> {
    match row {
        Ok(row) => measurement_error(value_views(row@)),
        Err(e) => Some(database_error("Failed to read measurement row: "@ + e@)),
    }
}

/// Whether a place is that of the first row that cannot be read, or behind all where there is none.
pub open spec fn is_first_bad_row(rows: Seq<Result<Vec<SqlValue>, String>>, k: int) -> bool {
    &&& 0 <= k <= rows.len()
    &&& forall|i: int| 0 <= i < k ==> row_error(#[trigger] rows[i]) is None
    &&& k < rows.len() ==> row_error(rows[k]) is Some
}

/// The place that has been reached after the first rows of a page.
pub open spec fn cursor_at(
    rows: Seq<Result<Vec<SqlValue>, String>>,
    k: int,
    cursor: Option<int>,
) -> Option<int> {
    if k == 0 {
        cursor
    } else {
        Some(value_views(rows[k - 1]->Ok_0@)[2]->Integer_0)
    }
}

pub open spec fn rows_are_whole(rows: Seq<Result<Vec<SqlValue>, String>>) -> bool {
    forall|i: int| 0 <= i < rows.len() ==> ((#[trigger] rows[i]) matches Ok(row) ==> row.len() == 4)
}

/// What a page comes to, where its first rows up to a place can be read: all its measurements, in
/// order, or the first error, before which nothing of the page is handed out.
pub open spec fn page_comes_to(
    rows: Seq<Result<Vec<SqlValue>, String>>,
    k: int,
    outcome: ReaderOutcome,
    waiting: Seq<MeasurementView>,
) -> bool {
    if k < rows.len() {
        &&& outcome matches ReaderOutcome::Fail(e)
        &&& Some(e.spec_message()) == row_error(rows[k])
        &&& waiting.len() == 0
    } else if rows.len() == 0 {
        outcome is End && waiting.len() == 0
    } else {
        &&& outcome matches ReaderOutcome::Hand(first)
        &&& is_measurement_in(first@, value_views(rows[0]->Ok_0@))
        &&& waiting.len() == rows.len() - 1
        &&& forall|i: int|
            0 <= i < waiting.len() ==> is_measurement_in(
                #[trigger] waiting[i],
                value_views(rows[i + 1]->Ok_0@),
            )
    }
}

impl Reader {
    /// Nothing has been read yet.
    pub fn new(start: Option<Timestamp>, end: Option<Timestamp>) -> (r: Reader)
        ensures
            r@ == (ReaderView { cursor: None, waiting: seq![], start, end }),
    {
        let r = Reader { cursor: None, waiting: Vec::new(), start, end };
        assert(r@.waiting =~= seq![]);
        r
    }

    /// What comes next: a measurement that was read already, or the query for the next page.
    pub fn next(&mut self) -> (r: ReaderStep)
        requires
            old(self).start matches Some(t) ==> t.is_valid(),
            old(self).end matches Some(t) ==> t.is_valid(),
        ensures
            if old(self)@.waiting.len() > 0 {
                &&& r matches ReaderStep::Hand(m)
                &&& m@ == old(self)@.waiting[0]
                &&& final(self)@ == (ReaderView {
                    waiting: old(self)@.waiting.skip(1),
                    ..old(self)@
                })
            } else {
                &&& r matches ReaderStep::Fetch(s)
                &&& s@ == page_query(old(self)@.cursor, old(self).start, old(self).end)
                &&& final(self)@ == old(self)@
            },
    {
        let ghost before = self.waiting@;
        match self.waiting.pop() {
            Some(m) => {
                proof {
                    let views = measurement_views(before);
                    assert(views.reverse()[0] == m@);
                    assert(measurement_views(self.waiting@) =~= views.drop_last());
                    assert(self@.waiting =~= views.reverse().skip(1));
                }
                ReaderStep::Hand(m)
            },
            None => {
                assert(measurement_views(before).reverse().len() == 0);
                ReaderStep::Fetch(next_page(self.cursor, self.start, self.end))
            },
        }
    }

    /// Takes in the next page, by how its query went and then how reading each of its rows went.
    /// Where a row cannot be read, what came before it is passed over.
    pub fn absorb(&mut self, page: Result<Vec<Result<Vec<SqlValue>, String>>, String>) -> (r:
        ReaderOutcome)
        requires
            old(self)@.waiting.len() == 0,
            page matches Ok(rows) ==> rows_are_whole(rows@),
        ensures
            final(self).start == old(self).start,
            final(self).end == old(self).end,
            match page {
                Err(e) => {
                    &&& r matches ReaderOutcome::Fail(told)
                    &&& told is DatabaseError
                    &&& told.spec_message() == database_error("Failed to query measurements: "@ + e@)
                    &&& final(self)@ == old(self)@
                },
                Ok(rows) => exists|k: int| #[trigger]
                    is_first_bad_row(rows@, k) && final(self)@.cursor == cursor_at(
                        rows@,
                        k,
                        old(self)@.cursor,
                    ) && page_comes_to(rows@, k, r, final(self)@.waiting),
            },
    {
        let rows = match page {
            Ok(rows) => rows,
            Err(e) => {
                return ReaderOutcome::Fail(
                    Error::DatabaseError(join("Failed to query measurements: ", e.as_str())),
                );
            },
        };
        let ghost given = rows@;
        let ghost first_cursor = self@.cursor;
        let mut read: Vec<Measurement> = Vec::new();
        let mut i: usize = 0;
        while i < rows.len()
            invariant
                i <= rows.len(),
                given == rows@,
                page matches Ok(handed) && handed@ == given,
                first_cursor == old(self)@.cursor,
                rows_are_whole(given),
                read.len() == i,
                self.start == old(self).start,
                self.end == old(self).end,
                self.waiting@ == old(self).waiting@,
                self.waiting@.len() == 0,
                self@.cursor == cursor_at(given, i as int, first_cursor),
                forall|k: int|
                    0 <= k < i ==> row_error(#[trigger] given[k]) is None && is_measurement_in(
                        read@[k]@,
                        value_views(given[k]->Ok_0@),
                    ),
            decreases rows.len() - i,
        {
            match &rows[i] {
                Ok(row) => {
                    assert(given[i as int] matches Ok(row) ==> row.len() == 4);
                    match parse_measurement_row(row) {
                        Ok(m) => {
                            self.cursor = Some(m.timestamp.millis());
                            read.push(m);
                        },
                        Err(e) => {
                            assert(is_first_bad_row(given, i as int));
                            assert(self@.waiting.len() == 0);
                            return ReaderOutcome::Fail(e);
                        },
                    }
                },
                Err(e) => {
                    assert(is_first_bad_row(given, i as int));
                    assert(self@.waiting.len() == 0);
                    return ReaderOutcome::Fail(
                        Error::DatabaseError(
                            join("Failed to read measurement row: ", e.as_str()),
                        ),
                    );
                },
            }
            i += 1;
        }
        assert(is_first_bad_row(given, given.len() as int));
        let ghost in_order = measurement_views(read@);
        let mut turned: Vec<Measurement> = Vec::new();
        let total = read.len();
        while read.len() > 0
            invariant
                turned.len() + read.len() == total,
                total == in_order.len(),
                measurement_views(read@) == in_order.take(read.len() as int),
                measurement_views(turned@) == in_order.skip(read.len() as int).reverse(),
            decreases read.len(),
        {
            let ghost before = measurement_views(turned@);
            let ghost left = measurement_views(read@);
            match read.pop() {
                Some(m) => {
                    proof {
                        assert(m@ == left.last());
                        assert(measurement_views(read@) =~= left.drop_last());
                        assert(in_order.skip(read.len() as int) =~= seq![m@] + in_order.skip(
                            read.len() + 1,
                        ));
                    }
                    turned.push(m);
                    assert(measurement_views(turned@) =~= before.push(m@));
                    assert(measurement_views(turned@) =~= in_order.skip(
                        read.len() as int,
                    ).reverse());
                },
                None => {},
            }
        }
        assert(in_order.skip(0) =~= in_order);
        assert(measurement_views(turned@) =~= in_order.reverse());
        let ghost whole = measurement_views(turned@);
        let first = turned.pop();
        self.waiting = turned;
        match first {
            Some(m) => {
                proof {
                    assert(m@ == whole.last());
                    assert(m@ == in_order[0]);
                    assert(measurement_views(self.waiting@) =~= whole.drop_last());
                    assert(self@.waiting =~= in_order.skip(1));
                    assert forall|k: int|
                        0 <= k < self@.waiting.len() implies is_measurement_in(
                        #[trigger] self@.waiting[k],
                        value_views(given[k + 1]->Ok_0@),
                    ) by {
                        assert(row_error(given[k + 1]) is None);
                        assert(self@.waiting[k] == in_order[k + 1]);
                    }
                    assert(row_error(given[0]) is None);
                }
                ReaderOutcome::Hand(m)
            },
            None => {
                assert(measurement_views(self.waiting@).reverse().len() == 0);
                ReaderOutcome::End
            },
        }
    }
}

/// Whether the instants of measurements ascend by milliseconds, so that no two share one.
pub open spec fn ascends(s: Seq<MeasurementView>) -> bool {
    forall|i: int, j: int|
        0 <= i < j < s.len() ==> (#[trigger] s[i]).timestamp.spec_millis() < (
        #[trigger] s[j]).timestamp.spec_millis()
}

/// Whether the query of a reader asks for a measurement: it lies behind the place that has been
/// reached, or from the start on where none has, and not behind the end.
pub open spec fn is_asked_for(r: ReaderView, m: MeasurementView) -> bool {
    let millis = m.timestamp.spec_millis();
    &&& match r.cursor {
        Some(c) => c < millis,
        None => match r.start {
            Some(t) => t.spec_millis() <= millis,
            None => true,
        },
    }
    &&& match r.end {
        Some(t) => millis <= t.spec_millis(),
        None => true,
    }
}

/// Those of the stored measurements, which are in order, that the query of a reader asks for.
pub open spec fn asked_for(r: ReaderView, stored: Seq<MeasurementView>) -> Seq<MeasurementView>
    decreases stored.len(),
{
    if stored.len() == 0 {
        seq![]
    } else {
        let rest = asked_for(r, stored.drop_last());
        if is_asked_for(r, stored.last()) {
            rest.push(stored.last())
        } else {
            rest
        }
    }
}

/// The page that the query of a reader gives.
pub open spec fn page_of(r: ReaderView, stored: Seq<MeasurementView>) -> Seq<MeasurementView> {
    let all = asked_for(r, stored);
    if all.len() <= PAGE_SIZE {
        all
    } else {
        all.take(PAGE_SIZE as int)
    }
}

/// A reader that has taken in a page and handed it out.
pub open spec fn behind(r: ReaderView, page: Seq<MeasurementView>) -> ReaderView {
    ReaderView { cursor: Some(page.last().timestamp.spec_millis()), ..r }
}

/// What a reader hands out in so many pages.
pub open spec fn handed_out(r: ReaderView, stored: Seq<MeasurementView>, pages: nat) -> Seq<
    MeasurementView,
>
    decreases pages,
{
    let page = page_of(r, stored);
    if pages == 0 || page.len() == 0 {
        seq![]
    } else {
        page + handed_out(behind(r, page), stored, (pages - 1) as nat)
    }
}

proof fn lemma_asked_for(r: ReaderView, stored: Seq<MeasurementView>)
    requires
        ascends(stored),
    ensures
        ascends(asked_for(r, stored)),
        forall|i: int|
            0 <= i < asked_for(r, stored).len() ==> is_asked_for(
                r,
                #[trigger] asked_for(r, stored)[i],
            ),
        stored.len() > 0 ==> forall|i: int|
            0 <= i < asked_for(r, stored).len() ==> (
            #[trigger] asked_for(r, stored)[i]).timestamp.spec_millis()
                <= stored.last().timestamp.spec_millis(),
    decreases stored.len(),
{
    if stored.len() > 0 {
        let front = stored.drop_last();
        assert forall|i: int, j: int| 0 <= i < j < front.len() implies (
        #[trigger] front[i]).timestamp.spec_millis() < (
        #[trigger] front[j]).timestamp.spec_millis() by {
            assert(front[i] == stored[i] && front[j] == stored[j]);
        }
        lemma_asked_for(r, front);
        let rest = asked_for(r, front);
        if front.len() > 0 {
            assert(front.last() == stored[stored.len() - 2]);
            assert(front.last().timestamp.spec_millis() < stored.last().timestamp.spec_millis());
        }
    }
}

/// Behind a place, exactly those are asked for that come behind it among those asked for before.
proof fn lemma_asked_for_behind(r: ReaderView, stored: Seq<MeasurementView>, c: int)
    requires
        ascends(stored),
        match r.cursor {
            Some(before) => before <= c,
            None => r.start matches Some(t) ==> t.spec_millis() <= c,
        },
    ensures
        ({
            let all = asked_for(r, stored);
            let later = asked_for((ReaderView { cursor: Some(c), ..r }), stored);
            &&& later.len() <= all.len()
            &&& later == all.skip(all.len() - later.len())
            &&& forall|i: int|
                0 <= i < all.len() - later.len() ==> (#[trigger] all[i]).timestamp.spec_millis()
                    <= c
        }),
    decreases stored.len(),
{
    let moved = ReaderView { cursor: Some(c), ..r };
    let all = asked_for(r, stored);
    let later = asked_for(moved, stored);
    if stored.len() == 0 {
        assert(later =~= all.skip(0));
    } else {
        let front = stored.drop_last();
        assert forall|i: int, j: int| 0 <= i < j < front.len() implies (
        #[trigger] front[i]).timestamp.spec_millis() < (
        #[trigger] front[j]).timestamp.spec_millis() by {
            assert(front[i] == stored[i] && front[j] == stored[j]);
        }
        lemma_asked_for_behind(r, front, c);
        let front_all = asked_for(r, front);
        let front_later = asked_for(moved, front);
        let last = stored.last();
        if is_asked_for(r, last) {
            if c < last.timestamp.spec_millis() {
                assert(is_asked_for(moved, last));
                assert(later =~= all.skip(all.len() - later.len()));
                assert forall|i: int| 0 <= i < all.len() - later.len() implies (
                #[trigger] all[i]).timestamp.spec_millis() <= c by {
                    assert(all[i] == front_all[i]);
                }
            } else {
                assert(!is_asked_for(moved, last));
                lemma_asked_for(moved, front);
                if front_later.len() > 0 {
                    let kept = front_later[0];
                    assert(is_asked_for(moved, kept));
                    assert(front.len() > 0);
                    assert(kept.timestamp.spec_millis() <= front.last().timestamp.spec_millis());
                    assert(front.last() == stored[stored.len() - 2]);
                    assert(false);
                }
                assert(later =~= all.skip(all.len() as int));
                assert forall|i: int| 0 <= i < all.len() implies (
                #[trigger] all[i]).timestamp.spec_millis() <= c by {
                    if i < front_all.len() {
                        assert(all[i] == front_all[i]);
                    }
                }
            }
        } else {
            assert(!is_asked_for(moved, last));
        }
    }
}

/// Reading page by page hands out every stored measurement of the range once, in order, and nothing
/// else, where no two measurements share an instant: as many pages are enough as there are
/// measurements.
pub proof fn law_every_measurement_is_read_once(
    r: ReaderView,
    stored: Seq<MeasurementView>,
    pages: nat,
)
    requires
        ascends(stored),
        pages >= asked_for(r, stored).len(),
    ensures
        handed_out(r, stored, pages) == asked_for(r, stored),
    decreases pages,
{
    let all = asked_for(r, stored);
    let page = page_of(r, stored);
    if page.len() > 0 {
        lemma_asked_for(r, stored);
        let c = page.last().timestamp.spec_millis();
        assert(page.last() == all[page.len() - 1]);
        assert(is_asked_for(r, all[page.len() - 1]));
        lemma_asked_for_behind(r, stored, c);
        let next = behind(r, page);
        let later = asked_for(next, stored);
        let n = all.len() - later.len();
        assert(n == page.len()) by {
            if n > page.len() {
                assert(all[n - 1].timestamp.spec_millis() <= c);
                assert(all[page.len() - 1].timestamp.spec_millis() < all[n
                    - 1].timestamp.spec_millis());
            }
            if n < page.len() {
                lemma_asked_for(next, stored);
                assert(later[page.len() - 1 - n] == all[page.len() - 1]);
                assert(is_asked_for(next, later[page.len() - 1 - n]));
            }
        }
        law_every_measurement_is_read_once(next, stored, (pages - 1) as nat);
        assert(all =~= page + later);
    } else {
        assert(all =~= seq![]);
    }
}

}
