//! The queues of what waits to be processed and of what has been.
pub mod batches;
pub mod events;
pub mod model;
pub mod patterns;

use crate::error::Error;
use crate::ids::{uuid_text, AspectId, DatabaseId};
use crate::sql::{text_value, value_views, SqlValue, SqlView};
use crate::time::{Timestamp, MAX_SECONDS, MIN_SECONDS};
use vstd::prelude::*;

verus! {

/// The seconds of a day.
pub const DAY_SECONDS: i64 = 86_400;

/// The instant a number of days before another.
pub fn cutoff(now: &Timestamp, days: i64) -> (r: Timestamp)
    requires
        now.is_valid(),
        MIN_SECONDS <= now.seconds - days * DAY_SECONDS <= MAX_SECONDS,
    ensures
        r.is_valid(),
        r.seconds == now.seconds - days * DAY_SECONDS,
        r.nanos == now.nanos,
{
    let seconds: i128 = now.seconds as i128 - days as i128 * 86_400;
    Timestamp { seconds: seconds as i64, nanos: now.nanos }
}

/// An error where a statement met no row.
pub fn rows_matched(rows: u64, message: &str) -> (r: Result<(), Error>)
    ensures
        match r {
            Ok(_) => rows > 0,
            Err(e) => rows == 0 && e is Message && e.spec_message() == message@,
        },
{
    if rows == 0 {
        Err(Error::Message(message.to_owned()))
    } else {
        Ok(())
    }
}

/// The number of rows that a statement met, or an error where it is too large. Where it is an error
/// of the database, that is said before it.
pub fn rows_counted(rows: u64, is_wrapped: bool) -> (r: Result<usize, Error>)
    ensures
        match r {
            Ok(n) => n == rows,
            Err(e) => rows > usize::MAX && e.spec_message() == if is_wrapped {
                crate::columns::database_error("Too many rows affected"@)
            } else {
                "Too many rows affected"@
            },
        },
{
    if rows <= usize::MAX as u64 {
        Ok(rows as usize)
    } else if is_wrapped {
        Err(Error::DatabaseError("Too many rows affected".to_owned()))
    } else {
        Err(Error::Message("Too many rows affected".to_owned()))
    }
}

/// The columns that say whose a row is.
pub open spec fn owner_columns(aspect: u128, database: u128) -> Seq<SqlView> {
    seq![SqlView::Text(uuid_text(aspect)), SqlView::Text(uuid_text(database))]
}

pub(crate) fn owner_values(aspect_id: &AspectId, database_id: &DatabaseId) -> (r: Vec<SqlValue>)
    ensures
        value_views(r@) == owner_columns(aspect_id.value, database_id.value),
{
    let mut r: Vec<SqlValue> = Vec::new();
    r.push(text_value(aspect_id.text().as_str()));
    r.push(text_value(database_id.text().as_str()));
    assert(value_views(r@) =~= owner_columns(aspect_id.value, database_id.value));
    r
}

pub(crate) fn one_id(id: u128) -> (r: Vec<SqlValue>)
    ensures
        value_views(r@) == seq![SqlView::Text(uuid_text(id))],
{
    let mut r: Vec<SqlValue> = Vec::new();
    r.push(text_value(crate::ids::text_of(id).as_str()));
    assert(value_views(r@) =~= seq![SqlView::Text(uuid_text(id))]);
    r
}

}
