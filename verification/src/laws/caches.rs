//! What a cache has room for, and what it keeps.
use crate::cache::{fresh_entries, room_for, CacheableEntry};
use crate::stats::counts_read;
use crate::columns::text_in;
use crate::sql::SqlView;
use crate::text::unsigned_of;
use vstd::prelude::*;

verus! {

/// There is room for a hundred entries for every whole gigabyte, and for a hundred where there is
/// less than one.
pub proof fn law_room_grows_with_the_memory(available: u64)
    ensures
        room_for(available) >= 100,
        room_for(available) % 100 == 0,
        available >= 0x4000_0000 ==> (room_for(available) / 100) * 0x4000_0000 <= available < (
        room_for(available) / 100 + 1) * 0x4000_0000,
        available < 0x4000_0000 ==> room_for(available) == 100,
{
}

/// Cleaning up keeps every entry that is not older than it may be, as it is, and forgets all
/// others. When an entry was last used makes no difference.
pub proof fn law_entries_are_kept_as_long_as_they_may_be(
    m: Map<Seq<char>, CacheableEntry>,
    now: u64,
    ttl: u64,
    key: Seq<char>,
)
    ensures
        fresh_entries(m, now, ttl).dom().contains(key) <==> m.dom().contains(key) && now
            <= m[key].created_at + ttl,
        fresh_entries(m, now, ttl).dom().contains(key) ==> fresh_entries(m, now, ttl)[key]
            == m[key],
{
}

/// Whether no row from a place on has a status.
pub open spec fn not_from(rows: Seq<Seq<SqlView>>, from: int, status: Seq<char>) -> bool {
    forall|k: int| from <= k < rows.len() ==> text_in((#[trigger] rows[k])[0]) != status
}

proof fn lemma_not_from(rows: Seq<Seq<SqlView>>, from: int, status: Seq<char>)
    requires
        rows.len() > 0,
        from >= 0,
    ensures
        not_from(rows, from, status) ==> not_from(rows.drop_last(), from, status),
        not_from(rows, from, status) && from < rows.len() ==> text_in(rows.last()[0]) != status,
{
    let rest = rows.drop_last();
    assert forall|k: int| from <= k < rest.len() && not_from(rows, from, status) implies text_in(
        (#[trigger] rest[k])[0],
    ) != status by {
        assert(rest[k] == rows[k]);
    }
    if not_from(rows, from, status) && from < rows.len() {
        assert(rows[rows.len() - 1] == rows.last());
    }
}

/// The count of a status is that of the last row with it, and zero where there is none; rows with
/// other statuses make no difference.
pub proof fn law_counts_are_those_of_their_status(rows: Seq<Seq<SqlView>>, i: int)
    requires
        i >= 0,
    ensures
        not_from(rows, 0, "unprocessed"@) ==> counts_read(rows).0 == 0,
        not_from(rows, 0, "processed"@) ==> counts_read(rows).1 == 0,
        i < rows.len() && text_in(rows[i][0]) == "unprocessed"@ && not_from(
            rows,
            i + 1,
            "unprocessed"@,
        ) ==> counts_read(rows).0 == unsigned_of(text_in(rows[i][1]), usize::MAX as nat)->0,
        i < rows.len() && text_in(rows[i][0]) == "processed"@ && not_from(
            rows,
            i + 1,
            "processed"@,
        ) ==> counts_read(rows).1 == unsigned_of(text_in(rows[i][1]), usize::MAX as nat)->0,
    decreases rows.len(),
{
    reveal_strlit("unprocessed");
    reveal_strlit("processed");
    if rows.len() > 0 {
        let rest = rows.drop_last();
        law_counts_are_those_of_their_status(rest, i);
        assert(rows.last() == rows[rows.len() - 1]);
        assert("unprocessed"@.len() != "processed"@.len());
        lemma_not_from(rows, 0, "unprocessed"@);
        lemma_not_from(rows, 0, "processed"@);
        lemma_not_from(rows, i + 1, "unprocessed"@);
        lemma_not_from(rows, i + 1, "processed"@);
        if 0 <= i < rest.len() {
            assert(rest[i] == rows[i]);
        }
    }
}

}
