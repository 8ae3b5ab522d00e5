//! How many batches, events and patterns wait to be processed, and how many have been.
use crate::columns::{any_text_column, database_error, no_text, or, tells, text_in};
use crate::error::Error;
use crate::sql::{row_views, SqlValue, SqlView};
use crate::text::{
    i64_text,
    int_text,
    join,
    nat_text,
    parse_usize,
    same_text,
    u64_text,
    unsigned_of,
    usize_refusal,
};
use vstd::prelude::*;

verus! {

/// What is wrong with a row of a status and a count. Where it is an error of the database, that is
/// said before it.
pub open spec fn count_error(row: Seq<SqlView>, is_wrapped: bool) -> Option<Seq<char>> {
    or(
        no_text(row[0], "Status"@),
        or(
            no_text(row[1], "Count"@),
            match unsigned_of(text_in(row[1]), usize::MAX as nat) {
                Some(_) => None,
                None => {
                    let message = "Failed to parse count: "@ + usize_refusal(text_in(row[1]));
                    Some(
                        if is_wrapped {
                            database_error(message)
                        } else {
                            message
                        },
                    )
                },
            },
        ),
    )
}

/// The counts of what is unprocessed and of what is processed, from rows of a status and a count:
/// of two rows with the same status the later counts, and other statuses are passed over.
pub open spec fn counts_read(rows: Seq<Seq<SqlView>>) -> (nat, nat)
    decreases rows.len(),
{
    if rows.len() == 0 {
        (0, 0)
    } else {
        let before = counts_read(rows.drop_last());
        let status = text_in(rows.last()[0]);
        let count = unsigned_of(text_in(rows.last()[1]), usize::MAX as nat)->0;
        if status == "unprocessed"@ {
            (count, before.1)
        } else if status == "processed"@ {
            (before.0, count)
        } else {
            before
        }
    }
}

/// Whether the first row that cannot be read stands at a place.
pub open spec fn is_first_bad_count(rows: Seq<Seq<SqlView>>, is_wrapped: bool, i: int) -> bool {
    &&& 0 <= i < rows.len()
    &&& count_error(rows[i], is_wrapped) is Some
    &&& forall|k: int| 0 <= k < i ==> count_error(#[trigger] rows[k], is_wrapped) is None
}

/// What rows of a status and a count say, or what is wrong with the first that cannot be read.
pub open spec fn counts_are(
    rows: Seq<Seq<SqlView>>,
    is_wrapped: bool,
    counts: Option<(usize, usize)>,
    e: Option<Error>,
) -> bool {
    match counts {
        Some((unprocessed, processed)) => (unprocessed as nat, processed as nat) == counts_read(
            rows,
        ) && forall|i: int|
            0 <= i < rows.len() ==> count_error(#[trigger] rows[i], is_wrapped) is None,
        None => e is Some && exists|i: int| #[trigger]
            is_first_bad_count(rows, is_wrapped, i) && tells(e->0, count_error(rows[i], is_wrapped)),
    }
}

pub open spec fn rows_are_pairs(rows: Seq<Vec<SqlValue>>) -> bool {
    forall|i: int| 0 <= i < rows.len() ==> (#[trigger] rows[i]).len() == 2
}

fn read_counts(rows: &Vec<Vec<SqlValue>>, is_wrapped: bool) -> (r: Result<(usize, usize), Error>)
    requires
        rows_are_pairs(rows@),
    ensures
        match r {
            Ok(counts) => counts_are(row_views(rows@), is_wrapped, Some(counts), None),
            Err(e) => counts_are(row_views(rows@), is_wrapped, None, Some(e)),
        },
{
    let ghost views = row_views(rows@);
    let mut unprocessed: usize = 0;
    let mut processed: usize = 0;
    let mut i: usize = 0;
    assert(views.take(0) =~= Seq::<Seq<SqlView>>::empty());
    while i < rows.len()
        invariant
            i <= rows.len(),
            rows_are_pairs(rows@),
            views == row_views(rows@),
            (unprocessed as nat, processed as nat) == counts_read(views.take(i as int)),
            forall|k: int| 0 <= k < i ==> count_error(#[trigger] views[k], is_wrapped) is None,
        decreases rows.len() - i,
    {
        let row = &rows[i];
        assert(row.len() == 2);
        let ghost view = views[i as int];
        assert(view[0] == row@[0]@ && view[1] == row@[1]@);
        proof {
            assert(views.take(i + 1).drop_last() =~= views.take(i as int));
            assert(views.take(i + 1).last() == view);
        }
        let status = match any_text_column(row, 0, "Status") {
            Ok(s) => s,
            Err(e) => {
                assert(is_first_bad_count(views, is_wrapped, i as int));
                return Err(e);
            },
        };
        let count = match any_text_column(row, 1, "Count") {
            Ok(s) => s,
            Err(e) => {
                assert(is_first_bad_count(views, is_wrapped, i as int));
                return Err(e);
            },
        };
        let count: usize = match parse_usize(count.as_str()) {
            Ok(n) => n,
            Err(e) => {
                assert(is_first_bad_count(views, is_wrapped, i as int));
                let message = join("Failed to parse count: ", e.as_str());
                if is_wrapped {
                    return Err(Error::DatabaseError(message));
                }
                return Err(Error::Message(message));
            },
        };
        if same_text(status.as_str(), "unprocessed") {
            unprocessed = count;
        } else if same_text(status.as_str(), "processed") {
            processed = count;
        }
        i += 1;
    }
    assert(views.take(i as int) =~= views);
    Ok((unprocessed, processed))
}

/// The largest whole number up to which a double-precision number holds every whole number.
pub const MAX_EXACT: u64 = 9_007_199_254_740_992;

/// What is told of a number that a double-precision number does not hold exactly.
pub open spec fn inexact_message(value: Seq<char>) -> Seq<char> {
    "Numeric conversion error: "@ + ("Value "@ + value
        + " exceeds f64 precision limit (max exact integer is "@ + nat_text(MAX_EXACT as nat)
        + ")"@)
}

fn inexact(value: &str) -> (r: Error)
    ensures
        r is NumericConversionError,
        r.spec_message() == inexact_message(value@),
{
    let mut message = join("Value ", value);
    message.append(" exceeds f64 precision limit (max exact integer is ");
    message.append(u64_text(MAX_EXACT).as_str());
    message.append(")");
    Error::NumericConversionError(message)
}

/// A count that a double-precision number holds exactly, or the error.
pub fn exact_count(value: usize) -> (r: Result<u64, Error>)
    ensures
        match r {
            Ok(n) => n == value && value <= MAX_EXACT,
            Err(e) => value > MAX_EXACT && e is NumericConversionError && e.spec_message()
                == inexact_message(nat_text(value as nat)),
        },
{
    let n: u64 = value as u64;
    if n > MAX_EXACT {
        Err(inexact(u64_text(n).as_str()))
    } else {
        Ok(n)
    }
}

/// A number that a double-precision number holds exactly, or the error.
pub fn exact_number(value: i64) -> (r: Result<i64, Error>)
    ensures
        match r {
            Ok(n) => n == value && -MAX_EXACT <= value <= MAX_EXACT,
            Err(e) => !(-MAX_EXACT <= value <= MAX_EXACT) && e is NumericConversionError
                && e.spec_message() == if value == i64::MIN {
                "Numeric conversion error: "@ + ("Value "@ + int_text(value as int)
                    + " cannot be safely negated"@)
            } else {
                inexact_message(int_text(value as int))
            },
        },
{
    if value == i64::MIN {
        let mut message = join("Value ", i64_text(value).as_str());
        message.append(" cannot be safely negated");
        Err(Error::NumericConversionError(message))
    } else if value > 9_007_199_254_740_992 || value < -9_007_199_254_740_992 {
        Err(inexact(i64_text(value).as_str()))
    } else {
        Ok(value)
    }
}

/// Whether a result holds the two numbers of a ratio, or tells why it cannot.
pub open spec fn is_ratio(
    numerator: int,
    denominator: int,
    r: Result<Option<(u64, u64)>, Error>,
) -> bool {
    match r {
        Ok(None) => denominator == 0,
        Ok(Some((n, d))) => denominator != 0 && n == numerator && d == denominator && n
            <= MAX_EXACT && d <= MAX_EXACT,
        Err(e) => {
            &&& denominator != 0
            &&& e is NumericConversionError
            &&& numerator > MAX_EXACT ==> e.spec_message() == inexact_message(
                nat_text(numerator as nat),
            )
            &&& numerator <= MAX_EXACT ==> denominator > MAX_EXACT && e.spec_message()
                == inexact_message(nat_text(denominator as nat))
        },
    }
}

/// Whether a result holds the two numbers of the ratio of what is processed to all, or tells why it
/// cannot.
pub open spec fn is_processed_ratio(
    unprocessed: int,
    processed: int,
    r: Result<Option<(u64, u64)>, Error>,
) -> bool {
    let total = unprocessed + processed;
    match r {
        Ok(None) => total == 0,
        Ok(Some((n, d))) => total != 0 && n == processed && d == total && d
            <= MAX_EXACT,
        Err(e) => {
            &&& total > MAX_EXACT
            &&& e is NumericConversionError
            &&& e.spec_message() == inexact_message(
                nat_text(
                    if processed > MAX_EXACT {
                        processed as nat
                    } else {
                        total as nat
                    },
                ),
            )
        },
    }
}

/// The two numbers of a ratio; a ratio to nothing has none. A number that a double-precision number
/// does not hold exactly is an error.
pub fn ratio_parts(numerator: usize, denominator: usize) -> (r: Result<Option<(u64, u64)>, Error>)
    ensures
        is_ratio(numerator as int, denominator as int, r),
{
    if denominator == 0 {
        return Ok(None);
    }
    let n: u64 = match exact_count(numerator) {
        Ok(n) => n,
        Err(e) => {
            return Err(e);
        },
    };
    let d: u64 = match exact_count(denominator) {
        Ok(d) => d,
        Err(e) => {
            return Err(e);
        },
    };
    Ok(Some((n, d)))
}

/// How many batches of an aspect wait to be processed, and how many have been.
#[derive(Debug, Clone, Copy, PartialEq, Eq, Structural)]
pub struct BatchStats {
    pub unprocessed_count: usize,
    pub processed_count: usize,
}

impl Default for BatchStats {
    fn default() -> (r: BatchStats)
        ensures
            r == (BatchStats { unprocessed_count: 0, processed_count: 0 }),
    {
        BatchStats { unprocessed_count: 0, processed_count: 0 }
    }
}

impl BatchStats {
    /// The counts that rows of a status and a count tell.
    pub fn of_rows(rows: &Vec<Vec<SqlValue>>) -> (r: Result<BatchStats, Error>)
        requires
            rows_are_pairs(rows@),
        ensures
            match r {
                Ok(s) => counts_are(
                    row_views(rows@),
                    true,
                    Some((s.unprocessed_count, s.processed_count)),
                    None,
                ),
                Err(e) => counts_are(row_views(rows@), true, None, Some(e)),
            },
    {
        match read_counts(rows, true) {
            Ok(counts) => Ok(BatchStats { unprocessed_count: counts.0, processed_count: counts.1 }),
            Err(e) => Err(e),
        }
    }

    /// The number of batches.
    pub fn total_count(&self) -> (r: usize)
        requires
            self.unprocessed_count + self.processed_count <= usize::MAX,
        ensures
            r == self.unprocessed_count + self.processed_count,
    {
        self.unprocessed_count + self.processed_count
    }

    /// Whether there are batches that can be cleaned up.
    pub fn needs_cleanup(&self) -> (r: bool)
        ensures
            r == (self.processed_count > 0),
    {
        self.processed_count > 0
    }

    /// The two numbers of the ratio of processed batches to all.
    pub fn processed_parts(&self) -> (r: Result<Option<(u64, u64)>, Error>)
        requires
            self.unprocessed_count + self.processed_count <= usize::MAX,
        ensures
            is_processed_ratio(self.unprocessed_count as int, self.processed_count as int, r),
    {
        ratio_parts(self.processed_count, self.total_count())
    }
}

/// How many events of an aspect wait to be processed, and how many have been.
#[derive(Debug, Clone, Copy, PartialEq, Eq, Structural)]
pub struct EventStats {
    pub unprocessed_count: usize,
    pub processed_count: usize,
}

impl Default for EventStats {
    fn default() -> (r: EventStats)
        ensures
            r == (EventStats { unprocessed_count: 0, processed_count: 0 }),
    {
        EventStats { unprocessed_count: 0, processed_count: 0 }
    }
}

impl EventStats {
    /// The counts that rows of a status and a count tell.
    pub fn of_rows(rows: &Vec<Vec<SqlValue>>) -> (r: Result<EventStats, Error>)
        requires
            rows_are_pairs(rows@),
        ensures
            match r {
                Ok(s) => counts_are(
                    row_views(rows@),
                    false,
                    Some((s.unprocessed_count, s.processed_count)),
                    None,
                ),
                Err(e) => counts_are(row_views(rows@), false, None, Some(e)),
            },
    {
        match read_counts(rows, false) {
            Ok(counts) => Ok(EventStats { unprocessed_count: counts.0, processed_count: counts.1 }),
            Err(e) => Err(e),
        }
    }

    /// The number of events.
    pub fn total_count(&self) -> (r: usize)
        requires
            self.unprocessed_count + self.processed_count <= usize::MAX,
        ensures
            r == self.unprocessed_count + self.processed_count,
    {
        self.unprocessed_count + self.processed_count
    }

    /// Whether there are events that can be cleaned up.
    pub fn needs_cleanup(&self) -> (r: bool)
        ensures
            r == (self.processed_count > 0),
    {
        self.processed_count > 0
    }

    /// The two numbers of the ratio of processed events to all.
    pub fn processed_parts(&self) -> (r: Result<Option<(u64, u64)>, Error>)
        requires
            self.unprocessed_count + self.processed_count <= usize::MAX,
        ensures
            is_processed_ratio(self.unprocessed_count as int, self.processed_count as int, r),
    {
        ratio_parts(self.processed_count, self.total_count())
    }
}

/// How many patterns of an aspect wait to be processed, and how many have been.
#[derive(Debug, Clone, Copy, PartialEq, Eq, Structural)]
pub struct PatternStats {
    pub unprocessed_count: usize,
    pub processed_count: usize,
}

impl Default for PatternStats {
    fn default() -> (r: PatternStats)
        ensures
            r == (PatternStats { unprocessed_count: 0, processed_count: 0 }),
    {
        PatternStats { unprocessed_count: 0, processed_count: 0 }
    }
}

impl PatternStats {
    /// The counts that rows of a status and a count tell.
    pub fn of_rows(rows: &Vec<Vec<SqlValue>>) -> (r: Result<PatternStats, Error>)
        requires
            rows_are_pairs(rows@),
        ensures
            match r {
                Ok(s) => counts_are(
                    row_views(rows@),
                    false,
                    Some((s.unprocessed_count, s.processed_count)),
                    None,
                ),
                Err(e) => counts_are(row_views(rows@), false, None, Some(e)),
            },
    {
        match read_counts(rows, false) {
            Ok(counts) => Ok(PatternStats { unprocessed_count: counts.0, processed_count: counts.1 }),
            Err(e) => Err(e),
        }
    }

    /// The number of patterns.
    pub fn total_count(&self) -> (r: usize)
        requires
            self.unprocessed_count + self.processed_count <= usize::MAX,
        ensures
            r == self.unprocessed_count + self.processed_count,
    {
        self.unprocessed_count + self.processed_count
    }

    /// Whether there are patterns that can be cleaned up.
    pub fn needs_cleanup(&self) -> (r: bool)
        ensures
            r == (self.processed_count > 0),
    {
        self.processed_count > 0
    }

    /// The two numbers of the ratio of processed patterns to all.
    pub fn processed_parts(&self) -> (r: Result<Option<(u64, u64)>, Error>)
        requires
            self.unprocessed_count + self.processed_count <= usize::MAX,
        ensures
            is_processed_ratio(self.unprocessed_count as int, self.processed_count as int, r),
    {
        ratio_parts(self.processed_count, self.total_count())
    }
}
}
