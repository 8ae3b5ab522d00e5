//! The columns of a row, one check after the other: the first that fails is what is told.
use crate::decimal::{decimal_parse, Decimal};
use crate::error::Error;
use crate::ids::{parse_uuid, uuid_parse};
use crate::resolution::Resolution;
use crate::sql::{value_text, value_to_string, SqlValue, SqlView};
use crate::text::join;
use crate::time::{Timestamp, MAX_SECONDS, MIN_SECONDS};
use vstd::prelude::*;

verus! {

/// The earlier of two complaints.
pub open spec fn or(first: Option<Seq<char>>, rest: Option<Seq<char>>) -> Option<Seq<char>> {
    match first {
        Some(s) => Some(s),
        None => rest,
    }
}

/// The text of an error of the database.
pub open spec fn database_error(s: Seq<char>) -> Seq<char> {
    "Database error: "@ + s
}

/// The text of an error about an identifier.
pub open spec fn id_error(s: Seq<char>) -> Seq<char> {
    "Invalid ID: "@ + s
}

/// What is told of a value that is no text.
pub open spec fn not_text(value: SqlView, complaint: Seq<char>) -> Option<Seq<char>> {
    if value is Text {
        None
    } else {
        Some(database_error(complaint))
    }
}

/// What is told of a value that is no integer.
pub open spec fn not_integer(value: SqlView, complaint: Seq<char>) -> Option<Seq<char>> {
    if value is Integer {
        None
    } else {
        Some(database_error(complaint))
    }
}

/// What is told of a text that is no UUID.
pub open spec fn not_uuid(value: SqlView, complaint: Seq<char>) -> Option<Seq<char>> {
    match uuid_parse(value->Text_0) {
        Ok(_) => None,
        Err(e) => Some(id_error(complaint + e)),
    }
}

/// What is told of a text that is no decimal number.
pub open spec fn not_decimal(value: SqlView, complaint: Seq<char>) -> Option<Seq<char>> {
    match decimal_parse(value->Text_0) {
        Ok(_) => None,
        Err(e) => Some(database_error(complaint + e)),
    }
}

/// The resolution that a text names.
pub open spec fn named_resolution(text: Seq<char>) -> Option<Resolution> {
    if exists|r: Resolution| text == #[trigger] r.spec_text() {
        Some(choose|r: Resolution| text == #[trigger] r.spec_text())
    } else {
        None
    }
}

/// What is told of a text that names no resolution.
pub open spec fn not_resolution(value: SqlView, complaint: Seq<char>) -> Option<Seq<char>> {
    match named_resolution(value->Text_0) {
        Some(_) => None,
        None => Some(
            database_error(
                complaint + ("Conversion error: Invalid resolution string: "@ + value->Text_0),
            ),
        ),
    }
}

/// What is told of a number of milliseconds that is no instant.
pub open spec fn not_instant(value: SqlView, complaint: Seq<char>) -> Option<Seq<char>> {
    if MIN_SECONDS <= value->Integer_0 / 1000 <= MAX_SECONDS {
        None
    } else {
        Some(database_error(complaint))
    }
}

/// What std says of a number that is no `usize`.
pub uninterp spec fn usize_range_refusal(n: i64) -> Seq<char>;

/// What std says of a number that is no `i64`.
pub uninterp spec fn i64_range_refusal(n: usize) -> Seq<char>;

/// `usize::try_from` of std for an `i64`: the same number where it fits; else std's text of the
/// error, which is named.
#[verifier::external_body]
fn usize_of_i64(n: i64) -> (r: Result<usize, String>)
    ensures
        match r {
            Ok(m) => m == n,
            Err(e) => !(0 <= n <= usize::MAX) && e@ == usize_range_refusal(n),
        },
{
    match usize::try_from(n) {
        Ok(m) => Ok(m),
        Err(e) => Err(e.to_string()),
    }
}

/// `i64::try_from` of std for a `usize`: the same number where it fits; else std's text of the
/// error, which is named.
#[verifier::external_body]
pub(crate) fn i64_of_usize(n: usize) -> (r: Result<i64, String>)
    ensures
        match r {
            Ok(m) => m == n,
            Err(e) => n > i64::MAX && e@ == i64_range_refusal(n),
        },
{
    match i64::try_from(n) {
        Ok(m) => Ok(m),
        Err(e) => Err(e.to_string()),
    }
}

/// What is told of an integer that is no size.
pub open spec fn not_size(value: SqlView, complaint: Seq<char>) -> Option<Seq<char>> {
    if 0 <= value->Integer_0 <= usize::MAX {
        None
    } else {
        Some(database_error(complaint + usize_range_refusal(value->Integer_0 as i64)))
    }
}

/// Whether an error is told by a text.
pub open spec fn tells(e: Error, message: Option<Seq<char>>) -> bool {
    message == Some(e.spec_message())
}

/// The UUID that a text writes.
pub fn uuid_field(text: &String, complaint: &str) -> (r: Result<u128, Error>)
    ensures
        match r {
            Ok(id) => uuid_parse(text@) == Ok::<u128, Seq<char>>(id),
            Err(e) => tells(e, not_uuid(SqlView::Text(text@), complaint@)),
        },
        forall|value: u128|
            text@ == #[trigger] crate::ids::uuid_text(value) ==> r is Ok && r->Ok_0 == value,
{
    match parse_uuid(text.as_str()) {
        Ok(id) => Ok(id),
        Err(e) => Err(Error::InvalidIdError(join(complaint, e.as_str()))),
    }
}

/// The decimal number that a text writes.
pub fn decimal_field(text: &String, complaint: &str) -> (r: Result<Decimal, Error>)
    ensures
        match r {
            Ok(d) => decimal_parse(text@) == Ok::<(int, int), Seq<char>>((d@.mantissa, d@.scale)),
            Err(e) => tells(e, not_decimal(SqlView::Text(text@), complaint@)),
        },
        forall|mantissa: int, scale: int|
            text@ == #[trigger] crate::decimal::decimal_text(mantissa, scale) && (
            crate::decimal::DecimalView { mantissa, scale }).has_text() ==> r is Ok
                && r->Ok_0@.same_value((crate::decimal::DecimalView { mantissa, scale })),
{
    match Decimal::parse(text.as_str()) {
        Ok(d) => Ok(d),
        Err(e) => Err(Error::DatabaseError(join(complaint, e.as_str()))),
    }
}

/// A resolution is the one that its own name names.
pub proof fn lemma_named_resolution(r: Resolution)
    ensures
        named_resolution(r.spec_text()) == Some(r),
{
    crate::resolution::lemma_resolution_texts();
    let found = choose|other: Resolution| r.spec_text() == #[trigger] other.spec_text();
    assert(r.spec_text() == found.spec_text());
}

/// The resolution that a text names.
pub fn resolution_field(text: &String, complaint: &str) -> (r: Result<Resolution, Error>)
    ensures
        match r {
            Ok(resolution) => named_resolution(text@) == Some(resolution),
            Err(e) => tells(e, not_resolution(SqlView::Text(text@), complaint@)),
        },
        forall|resolution: Resolution|
            text@ == #[trigger] resolution.spec_text() ==> r is Ok && r->Ok_0 == resolution,
{
    match Resolution::parse(text.as_str()) {
        Ok(resolution) => {
            proof {
                lemma_named_resolution(resolution);
            }
            Ok(resolution)
        },
        Err(e) => Err(Error::DatabaseError(join(complaint, e.as_str()))),
    }
}

/// The instant of a number of milliseconds.
pub fn instant_field(millis: i64, complaint: &str) -> (r: Result<Timestamp, Error>)
    ensures
        match r {
            Ok(t) => t.is_valid() && t.spec_millis() == millis && t.total() == millis * 1_000_000,
            Err(e) => tells(e, not_instant(SqlView::Integer(millis as int), complaint@)),
        },
        r is Ok <==> not_instant(SqlView::Integer(millis as int), complaint@) is None,
{
    match Timestamp::from_millis(millis) {
        Some(t) => Ok(t),
        None => Err(Error::DatabaseError(complaint.to_owned())),
    }
}

/// The size that an integer is.
pub fn size_field(n: i64, complaint: &str) -> (r: Result<usize, Error>)
    ensures
        match r {
            Ok(m) => m == n,
            Err(e) => e is DatabaseError && tells(
                e,
                not_size(SqlView::Integer(n as int), complaint@),
            ),
        },
        r is Ok <==> 0 <= n <= usize::MAX,
{
    match usize_of_i64(n) {
        Ok(m) => Ok(m),
        Err(e) => Err(Error::DatabaseError(join(complaint, e.as_str()))),
    }
}

/// The text in a column where there is one.
pub fn optional_text_column(row: &Vec<SqlValue>, i: usize) -> (r: Option<String>)
    requires
        i < row.len(),
    ensures
        match r {
            Some(s) => row@[i as int]@ == SqlView::Text(s@),
            None => !(row@[i as int]@ is Text),
        },
{
    match &row[i] {
        SqlValue::Text(s) => Some(s.clone()),
        _ => None,
    }
}

/// The error where nothing has an identifier.
pub fn not_found(kind: &str, id: u128) -> (r: Error)
    ensures
        r is Message,
        r.spec_message() == kind@ + " with ID "@ + crate::ids::uuid_text(id) + " not found"@,
{
    let mut message = join(kind, " with ID ");
    message.append(crate::ids::text_of(id).as_str());
    message.append(" not found");
    Error::Message(message)
}

/// What is told of a value that has no text.
pub open spec fn no_text(value: SqlView, field: Seq<char>) -> Option<Seq<char>> {
    match value_text(value, field) {
        Ok(_) => None,
        Err(e) => Some(e),
    }
}

/// The text of a value.
pub open spec fn text_in(value: SqlView) -> Seq<char> {
    value_text(value, seq![])->Ok_0
}

/// What is told of a text that is no UUID, where nothing is said before it.
pub open spec fn bad_uuid(text: Seq<char>) -> Option<Seq<char>> {
    match uuid_parse(text) {
        Ok(_) => None,
        Err(e) => Some(e),
    }
}

/// What is told of a text that could not be read, where what comes before is given.
pub open spec fn bad_json(complaint: Seq<char>, e: Option<Seq<char>>) -> Option<Seq<char>> {
    match e {
        Some(e) => Some(complaint + e),
        None => None,
    }
}

/// The error of a result.
pub open spec fn refusal<T>(r: Result<T, String>) -> Option<Seq<char>> {
    match r {
        Ok(_) => None,
        Err(e) => Some(e@),
    }
}

/// The text of a column.
pub fn any_text_column(row: &Vec<SqlValue>, i: usize, field: &str) -> (r: Result<String, Error>)
    requires
        i < row.len(),
    ensures
        match r {
            Ok(s) => no_text(row@[i as int]@, field@) is None && s@ == text_in(row@[i as int]@),
            Err(e) => e is Message && tells(e, no_text(row@[i as int]@, field@)),
        },
        row@[i as int]@ is Text ==> r is Ok && r->Ok_0@ == row@[i as int]@->Text_0,
{
    value_to_string(&row[i], field)
}

/// The UUID that a text writes, where nothing is said before the error.
pub fn plain_uuid(text: &String) -> (r: Result<u128, Error>)
    ensures
        match r {
            Ok(id) => uuid_parse(text@) == Ok::<u128, Seq<char>>(id),
            Err(e) => e is Message && tells(e, bad_uuid(text@)),
        },
        forall|value: u128|
            text@ == #[trigger] crate::ids::uuid_text(value) ==> r is Ok && r->Ok_0 == value,
{
    match parse_uuid(text.as_str()) {
        Ok(id) => Ok(id),
        Err(e) => Err(Error::Message(e)),
    }
}

}
