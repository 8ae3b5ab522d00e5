//! What the ratios of counts are made of.
use crate::error::Error;
use crate::stats::{inexact_message, is_processed_ratio, is_ratio};
use crate::text::nat_text;
use vstd::prelude::*;

verus! {

/// A ratio to nothing has no numbers. Any other has the two that were given, in their order, where
/// each is at most the fifty-third power of two; else the first that is not is told.
pub proof fn law_a_ratio_has_the_numbers_given(
    n: int,
    d: int,
    r: Result<Option<(u64, u64)>, Error>,
)
    requires
        n >= 0,
        d >= 0,
        is_ratio(n, d, r),
    ensures
        r is Ok <==> d == 0 || n <= 0x20_0000_0000_0000 && d <= 0x20_0000_0000_0000,
        r == Ok::<Option<(u64, u64)>, Error>(None) <==> d == 0,
        r is Ok && d != 0 ==> r == Ok::<Option<(u64, u64)>, Error>(Some((n as u64, d as u64))),
        r is Err ==> r->Err_0 is NumericConversionError,
        r is Err && n > 0x20_0000_0000_0000 ==> r->Err_0.spec_message() == inexact_message(
            nat_text(n as nat),
        ),
        r is Err && n <= 0x20_0000_0000_0000 ==> r->Err_0.spec_message() == inexact_message(
            nat_text(d as nat),
        ),
{
}

/// The ratio of what is processed is that to all: there is none where there is nothing, it is one
/// where nothing waits, and it is what a ratio of these two numbers is.
pub proof fn law_what_is_processed_is_a_part_of_all(
    unprocessed: int,
    processed: int,
    r: Result<Option<(u64, u64)>, Error>,
)
    requires
        unprocessed >= 0,
        processed >= 0,
        is_processed_ratio(unprocessed, processed, r),
    ensures
        is_ratio(processed, unprocessed + processed, r),
        r == Ok::<Option<(u64, u64)>, Error>(None) <==> unprocessed == 0 && processed == 0,
        r is Ok && r->Ok_0 is Some ==> ({
            let (part, all) = r->Ok_0->0;
            part == processed && all - part == unprocessed
        }),
        r is Err ==> unprocessed + processed > 0x20_0000_0000_0000,
{
}

}
