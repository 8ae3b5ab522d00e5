//! What stands in several tables, read as a whole: correlations, patterns of dictionaries, events.
use crate::columns::{not_found, or, refusal, tells};
use crate::correlation::{Correlation, Distance, ErrorRates};
use crate::error::Error;
use crate::event::{Event, Manifestation, Manifestations};
use crate::ids::{uuid_parse, uuid_text, CorrelationID, EventID, PatternID};
use crate::measurement::Relative;
use crate::pattern::{occurrence_views, Occurrence, OccurrenceView, Pattern};
use crate::registry::DatabaseInfo;
use crate::sql::{row_views, value_views, SqlValue, SqlView};
use crate::store::correlations::{
    assemble,
    correlation_columns,
    distance_read,
    distance_reads_like,
    distance_view,
    head_error,
    is_first_bad_row,
    is_order,
    is_ordered,
    is_writable,
    law_stretches_keep_their_places,
    ordered_occurrences,
    parse_correlation_row,
    rate_columns,
    rate_error,
    rate_read,
    rate_reads_back,
    rate_reads_like,
    rate_views,
    rates_read,
    read_rates,
};
use crate::store::events;
use crate::store::events::{
    are_those_in,
    described,
    head_columns,
    is_timed,
    manifestation_columns,
    manifestation_error,
    manifestation_reads_back,
    manifestation_reads_like,
    parse_event_row,
    read_manifestations,
    shows,
};
use crate::store::occurrences::{
    all_timed,
    correlated_error,
    correlated_row,
    parse_correlated_row,
    parse_patterned_row,
    patterned_error,
    patterned_row,
    stands_in,
    stretch_reads_like,
    PlacedOccurrence,
};
use crate::store::patterns::{
    figures_error,
    parse_pattern_row,
    parse_relative_row,
    relative_error,
    relative_text_step,
    Figures,
};
use crate::table::{distinct_keys, has_key, lemma_entry_found, Entry};
use vstd::prelude::*;

verus! {

/// What is told of the first that something is told of.
pub open spec fn first_told(told: Seq<Option<Seq<char>>>) -> Option<Seq<char>>
    decreases told.len(),
{
    if told.len() == 0 {
        None
    } else {
        or(told[0], first_told(told.skip(1)))
    }
}

proof fn lemma_first_told(told: Seq<Option<Seq<char>>>, i: int)
    requires
        0 <= i < told.len(),
        told[i] is Some,
        forall|k: int| 0 <= k < i ==> #[trigger] told[k] is None,
    ensures
        first_told(told) == told[i],
    decreases i,
{
    if i > 0 {
        assert(told[0] is None);
        assert forall|k: int| 0 <= k < i - 1 implies #[trigger] told.skip(1)[k] is None by {
            assert(told.skip(1)[k] == told[k + 1]);
        }
        lemma_first_told(told.skip(1), i - 1);
    }
}

proof fn lemma_nothing_told(told: Seq<Option<Seq<char>>>)
    requires
        forall|k: int| 0 <= k < told.len() ==> #[trigger] told[k] is None,
    ensures
        first_told(told) is None,
    decreases told.len(),
{
    if told.len() > 0 {
        assert forall|k: int| 0 <= k < told.skip(1).len() implies #[trigger] told.skip(
            1,
        )[k] is None by {
            assert(told.skip(1)[k] == told[k + 1]);
        }
        assert(told[0] is None);
        lemma_nothing_told(told.skip(1));
    }
}

/// What is told where nothing has an identifier.
pub open spec fn missing(kind: Seq<char>, id: u128) -> Seq<char> {
    kind + " with ID "@ + uuid_text(id) + " not found"@
}

/// What is wrong with each row of the rates of a correlation.
pub open spec fn rate_errors(rows: Seq<Seq<SqlView>>) -> Seq<Option<Seq<char>>> {
    Seq::new(rows.len(), |i: int| rate_error(rows[i]))
}

/// What is wrong with each row of the stretches of a correlation.
pub open spec fn correlated_errors(
    rows: Seq<Seq<SqlView>>,
    infos: Seq<Result<DatabaseInfo, String>>,
) -> Seq<Option<Seq<char>>> {
    Seq::new(rows.len(), |i: int| correlated_error(rows[i], refusal(infos[i])))
}

/// What is wrong with the rows of a correlation: its own, those of its rates, those of its stretches.
pub open spec fn correlation_error(
    id: u128,
    heads: Seq<Seq<SqlView>>,
    rates: Seq<Seq<SqlView>>,
    stretches: Seq<Seq<SqlView>>,
    infos: Seq<Result<DatabaseInfo, String>>,
) -> Option<Seq<char>> {
    if heads.len() == 0 {
        Some(missing("Correlation"@, id))
    } else {
        or(
            head_error(heads[0]),
            or(first_told(rate_errors(rates)), first_told(correlated_errors(stretches, infos))),
        )
    }
}

/// Whether a stretch with its place stands in a row.
pub open spec fn is_placed_in(
    p: PlacedOccurrence,
    row: Seq<SqlView>,
    info: Result<DatabaseInfo, String>,
) -> bool {
    &&& p.index == row[1]->Integer_0
    &&& stands_in(p.occurrence@, row[2], row[3], row[4], row[6], row[7], row[8])
    &&& info is Ok
    &&& p.occurrence.database_info == info->Ok_0
}

/// Whether stretches with their places stand in rows.
pub open spec fn are_placed_in(
    placed: Seq<PlacedOccurrence>,
    rows: Seq<Seq<SqlView>>,
    infos: Seq<Result<DatabaseInfo, String>>,
) -> bool {
    &&& placed.len() == rows.len()
    &&& forall|i: int|
        0 <= i < rows.len() ==> is_placed_in(#[trigger] placed[i], rows[i], infos[i])
}

/// Whether a correlation stands in rows.
pub open spec fn correlation_stands_in(
    c: Correlation,
    head: Seq<SqlView>,
    rates: Seq<Seq<SqlView>>,
    stretches: Seq<Seq<SqlView>>,
    infos: Seq<Result<DatabaseInfo, String>>,
) -> bool {
    &&& uuid_parse(head[0]->Text_0) == Ok::<u128, Seq<char>>(c.id.value)
    &&& uuid_parse(head[1]->Text_0) == Ok::<u128, Seq<char>>(c.dictionary_id.value)
    &&& uuid_parse(head[2]->Text_0) == Ok::<u128, Seq<char>>(c.subject_id.value)
    &&& uuid_parse(head[3]->Text_0) == Ok::<u128, Seq<char>>(c.aspect_id.value)
    &&& uuid_parse(head[4]->Text_0) == Ok::<u128, Seq<char>>(c.pattern_id.value)
    &&& uuid_parse(head[5]->Text_0) == Ok::<u128, Seq<char>>(c.event_id.value)
    &&& distance_view(c.average_distance) == distance_read(head[6], head[7])
    &&& c.error_rate.is_valid()
    &&& rate_views(c.error_rate@) == rates_read(rates)
    &&& exists|placed: Seq<PlacedOccurrence>| #[trigger]
        are_placed_in(placed, stretches, infos) && is_ordered(
            placed,
            occurrence_views(c.occurrences@),
        )
}

/// Whether the rows are those to which a correlation was written; those of its rates and those of
/// its stretches may come in any order.
pub open spec fn correlation_was_written(
    written: Correlation,
    heads: Seq<Seq<SqlView>>,
    rates: Seq<Seq<SqlView>>,
    rate_order: Seq<int>,
    stretches: Seq<Seq<SqlView>>,
    stretch_order: Seq<int>,
    texts: Seq<Seq<char>>,
) -> bool {
    let entries = written.error_rate.entries@;
    let occurrences = occurrence_views(written.occurrences@);
    &&& is_writable(written)
    &&& written.error_rate.is_valid()
    &&& heads.len() > 0
    &&& heads[0] == correlation_columns(written)
    &&& rates.len() == entries.len()
    &&& is_order(rate_order, entries.len())
    &&& forall|i: int|
        0 <= i < rates.len() ==> #[trigger] rates[i] == rate_columns(entries[rate_order[i]])
    &&& stretches.len() == occurrences.len()
    &&& is_order(stretch_order, occurrences.len())
    &&& forall|i: int|
        0 <= i < stretches.len() ==> #[trigger] stretches[i] == correlated_row(
            written.id.value,
            stretch_order[i],
            occurrences[stretch_order[i]],
            texts[stretch_order[i]],
        )
}

/// Whether a correlation reads like another: with the same rates by value, and with the same
/// stretches to the millisecond.
pub open spec fn correlation_reads_like(c: Correlation, written: Correlation) -> bool {
    &&& c.id == written.id
    &&& c.dictionary_id == written.dictionary_id
    &&& c.subject_id == written.subject_id
    &&& c.aspect_id == written.aspect_id
    &&& c.pattern_id == written.pattern_id
    &&& c.event_id == written.event_id
    &&& distance_reads_like(c.average_distance, written.average_distance)
    &&& rates_read_like(c.error_rate@, written.error_rate@)
    &&& c.occurrences@.len() == written.occurrences@.len()
    &&& forall|i: int|
        0 <= i < c.occurrences@.len() ==> stretch_reads_like(
            (#[trigger] c.occurrences@[i])@,
            written.occurrences@[i]@,
        )
}

/// Whether rates by name read like others.
pub open spec fn rates_read_like(
    rates: Map<Seq<char>, Distance>,
    written: Map<Seq<char>, Distance>,
) -> bool {
    &&& rates.dom() == written.dom()
    &&& forall|name: Seq<char>| #[trigger]
        rates.dom().contains(name) ==> rate_reads_like(rates[name]@, written[name]@)
}

proof fn lemma_rates_read(
    rows: Seq<Seq<SqlView>>,
    entries: Seq<Entry<String, Distance>>,
    order: Seq<int>,
    n: int,
)
    requires
        0 <= n <= rows.len(),
        rows.len() == entries.len(),
        is_order(order, entries.len()),
        distinct_keys(entries),
        forall|i: int| 0 <= i < entries.len() ==> (#[trigger] entries[i]).value.value@.is_operand(),
        forall|i: int|
            0 <= i < n ==> #[trigger] rows[i] == rate_columns(entries[order[i]])
                && rate_reads_back(rows[i]),
    ensures
        forall|i: int|
            #![trigger order[i]]
            0 <= i < n ==> rates_read(rows.take(n)).dom().contains(entries[order[i]].key@)
                && rate_reads_like(
                rates_read(rows.take(n))[entries[order[i]].key@],
                entries[order[i]].value@,
            ),
        forall|name: Seq<char>| #[trigger]
            rates_read(rows.take(n)).dom().contains(name) ==> exists|i: int|
                0 <= i < n && (#[trigger] entries[order[i]]).key@ == name,
    decreases n,
{
    if n > 0 {
        lemma_rates_read(rows, entries, order, n - 1);
        let before = rates_read(rows.take(n - 1));
        let last = rows[n - 1];
        let entry = entries[order[n - 1]];
        assert(0 <= order[n - 1] < entries.len());
        assert(last == rate_columns(entry));
        assert(rows.take(n).drop_last() =~= rows.take(n - 1));
        assert(rates_read(rows.take(n)) == before.insert(rate_read(last).0, rate_read(last).1));
        assert(rate_read(last).0 == entry.key@);
        assert forall|i: int|
            #![trigger order[i]]
            0 <= i < n implies rates_read(rows.take(n)).dom().contains(entries[order[i]].key@)
            && rate_reads_like(
            rates_read(rows.take(n))[entries[order[i]].key@],
            entries[order[i]].value@,
        ) by {
            if i < n - 1 {
                assert(order[i] != order[n - 1]);
                assert(0 <= order[i] < entries.len());
                if order[i] < order[n - 1] {
                    assert(entries[order[i]].key@ != entry.key@);
                } else {
                    assert(entry.key@ != entries[order[i]].key@);
                }
            }
        }
        assert forall|name: Seq<char>| #[trigger]
            rates_read(rows.take(n)).dom().contains(name) implies exists|i: int|
            0 <= i < n && (#[trigger] entries[order[i]]).key@ == name by {
            if name == entry.key@ {
                assert(entries[order[n - 1]].key@ == name);
            } else {
                assert(before.dom().contains(name));
                let i = choose|i: int|
                    0 <= i < n - 1 && (#[trigger] entries[order[i]]).key@ == name;
                assert(entries[order[i]].key@ == name);
            }
        }
    } else {
        assert(rows.take(0) =~= Seq::<Seq<SqlView>>::empty());
    }
}

/// Rates that were read from all the rows to which rates were written read like those.
proof fn lemma_rates_read_like(
    rates: ErrorRates,
    rows: Seq<Seq<SqlView>>,
    written: ErrorRates,
    order: Seq<int>,
)
    requires
        written.is_valid(),
        rate_views(rates@) == rates_read(rows),
        rows.len() == written.entries@.len(),
        is_order(order, written.entries@.len()),
        forall|i: int|
            0 <= i < written.entries@.len() ==> (
            #[trigger] written.entries@[i]).value.value@.is_operand(),
        forall|i: int|
            0 <= i < rows.len() ==> #[trigger] rows[i] == rate_columns(written.entries@[order[i]])
                && rate_reads_back(rows[i]),
    ensures
        rates_read_like(rates@, written@),
{
    let entries = written.entries@;
    let n = rows.len() as int;
    assert(distinct_keys(entries));
    lemma_rates_read(rows, entries, order, n);
    assert(rows.take(n) =~= rows);
    let read = rates_read(rows);
    assert forall|name: Seq<char>| rates@.dom().contains(name) <==> written@.dom().contains(
        name,
    ) by {
        if rates@.dom().contains(name) {
            assert(rate_views(rates@).dom().contains(name));
            let i = choose|i: int| 0 <= i < n && (#[trigger] entries[order[i]]).key@ == name;
            assert(0 <= order[i] < n);
            lemma_entry_found(entries, order[i]);
        }
        if written@.dom().contains(name) {
            assert(has_key(entries, name));
            let p = choose|p: int| 0 <= p < entries.len() && (#[trigger] entries[p]).key@ == name;
            assert(order.contains(p));
            let i = choose|i: int| 0 <= i < order.len() && order[i] == p;
            assert(read.dom().contains(entries[order[i]].key@));
            assert(rate_views(rates@).dom().contains(name));
        }
    }
    assert(rates@.dom() =~= written@.dom());
    assert forall|name: Seq<char>| #[trigger] rates@.dom().contains(name) implies rate_reads_like(
        rates@[name]@,
        written@[name]@,
    ) by {
        assert(rate_views(rates@).dom().contains(name));
        assert(rate_views(rates@)[name] == rates@[name]@);
        let i = choose|i: int| 0 <= i < n && (#[trigger] entries[order[i]]).key@ == name;
        assert(0 <= order[i] < n);
        lemma_entry_found(entries, order[i]);
    }
}

/// Whether a row, if a stretch was written to it, holds that stretch, with its place.
pub open spec fn stretch_reads_back(p: PlacedOccurrence, row: Seq<SqlView>) -> bool {
    forall|correlation: u128, index: int, written: OccurrenceView, text: Seq<char>|
        row == #[trigger] correlated_row(correlation, index, written, text) && 0
            <= index <= usize::MAX && written.beginning.is_valid() && written.end.is_valid()
            ==> p.index == index && stretch_reads_like(p.occurrence@, written)
}

/// Whether no stretch was written to a row.
pub open spec fn holds_no_stretch(row: Seq<SqlView>) -> bool {
    forall|correlation: u128, index: int, written: OccurrenceView, text: Seq<char>|
        row == #[trigger] correlated_row(correlation, index, written, text) && 0
            <= index <= usize::MAX && written.beginning.is_valid() && written.end.is_valid()
            ==> false
}

/// Whether the first row that cannot be read stands at a place.
pub open spec fn is_first_bad(told: Seq<Option<Seq<char>>>, i: int) -> bool {
    &&& 0 <= i < told.len()
    &&& told[i] is Some
    &&& forall|k: int| 0 <= k < i ==> #[trigger] told[k] is None
}

/// The stretches of a correlation with their places, or what is wrong with the first row that cannot
/// be read. Stretches that were written are read back.
fn read_stretches(rows: &Vec<Vec<SqlValue>>, infos: Vec<Result<DatabaseInfo, String>>) -> (r: Result<
    Vec<PlacedOccurrence>,
    Error,
>)
    requires
        infos.len() == rows.len(),
        forall|i: int| 0 <= i < rows.len() ==> (#[trigger] rows@[i]).len() == 9,
    ensures
        ({
            let views = row_views(rows@);
            let told = correlated_errors(views, infos@);
            match r {
                Ok(placed) => {
                    &&& first_told(told) is None
                    &&& are_placed_in(placed@, views, infos@)
                    &&& forall|i: int|
                        0 <= i < views.len() ==> stretch_reads_back(#[trigger] placed@[i], views[i])
                },
                Err(e) => {
                    &&& tells(e, first_told(told))
                    &&& exists|i: int| #[trigger]
                        is_first_bad(told, i) && (infos@[i] is Ok ==> holds_no_stretch(views[i]))
                },
            }
        }),
{
    let ghost views = row_views(rows@);
    let ghost given = infos@;
    let ghost told = correlated_errors(views, given);
    let mut rest = infos;
    let mut placed: Vec<PlacedOccurrence> = Vec::new();
    let mut i: usize = 0;
    while i < rows.len()
        invariant
            i <= rows.len(),
            given == infos@,
            given.len() == rows.len(),
            rest@ == given.skip(i as int),
            forall|i: int| 0 <= i < rows.len() ==> (#[trigger] rows@[i]).len() == 9,
            views == row_views(rows@),
            told == correlated_errors(views, given),
            placed.len() == i,
            forall|k: int| 0 <= k < i ==> #[trigger] told[k] is None,
            forall|k: int|
                0 <= k < i ==> is_placed_in(#[trigger] placed@[k], views[k], given[k])
                    && stretch_reads_back(placed@[k], views[k]),
        decreases rows.len() - i,
    {
        assert(rows@[i as int].len() == 9);
        assert(views[i as int] == value_views(rows@[i as int]@));
        let info = rest.remove(0);
        proof {
            assert(info == given[i as int]);
            assert(rest@ =~= given.skip(i + 1));
            assert(told[i as int] == correlated_error(views[i as int], refusal(info)));
        }
        match parse_correlated_row(&rows[i], info) {
            Ok(p) => {
                placed.push(p);
            },
            Err(e) => {
                proof {
                    lemma_first_told(told, i as int);
                    assert(is_first_bad(told, i as int));
                }
                return Err(e);
            },
        }
        i += 1;
    }
    proof {
        lemma_nothing_told(told);
    }
    Ok(placed)
}

/// Stretches that were read from all the rows to which stretches were written read like those.
proof fn lemma_stretches_read_like(
    placed: Seq<PlacedOccurrence>,
    rows: Seq<Seq<SqlView>>,
    read: Seq<OccurrenceView>,
    correlation: u128,
    written: Seq<OccurrenceView>,
    order: Seq<int>,
    texts: Seq<Seq<char>>,
)
    requires
        placed.len() == rows.len(),
        rows.len() == written.len(),
        rows.len() <= usize::MAX,
        is_ordered(placed, read),
        is_order(order, written.len()),
        all_timed(written),
        forall|i: int|
            0 <= i < rows.len() ==> #[trigger] rows[i] == correlated_row(
                correlation,
                order[i],
                written[order[i]],
                texts[order[i]],
            ),
        forall|i: int| 0 <= i < rows.len() ==> stretch_reads_back(#[trigger] placed[i], rows[i]),
    ensures
        read.len() == written.len(),
        forall|i: int| 0 <= i < read.len() ==> stretch_reads_like(#[trigger] read[i], written[i]),
{
    assert forall|i: int| 0 <= i < placed.len() implies (#[trigger] placed[i]).index == order[i]
        && stretch_reads_like(placed[i].occurrence@, written[order[i]]) by {
        assert(0 <= order[i] < written.len());
        assert(rows[i] == correlated_row(
            correlation,
            order[i],
            written[order[i]],
            texts[order[i]],
        ));
        assert(stretch_reads_back(placed[i], rows[i]));
    }
    law_stretches_keep_their_places(placed, order, read);
    assert forall|p: int| 0 <= p < read.len() implies stretch_reads_like(
        #[trigger] read[p],
        written[p],
    ) by {
        assert(order.contains(p));
        let i = choose|i: int| 0 <= i < order.len() && order[i] == p;
        assert(read[order[i]] == placed[i].occurrence@);
    }
}

/// The correlation in the rows that its queries find, or what is wrong with them; what the
/// descriptions of the databases read as is given. A correlation that was written is read back.
pub fn get_correlation(
    correlation_id: &CorrelationID,
    heads: &Vec<Vec<SqlValue>>,
    rates: &Vec<Vec<SqlValue>>,
    stretches: &Vec<Vec<SqlValue>>,
    infos: Vec<Result<DatabaseInfo, String>>,
) -> (r: Result<Correlation, Error>)
    requires
        forall|i: int| 0 <= i < heads.len() ==> (#[trigger] heads@[i]).len() == 8,
        forall|i: int| 0 <= i < rates.len() ==> (#[trigger] rates@[i]).len() == 3,
        forall|i: int| 0 <= i < stretches.len() ==> (#[trigger] stretches@[i]).len() == 9,
        infos.len() == stretches.len(),
    ensures
        ({
            let error = correlation_error(
                correlation_id.value,
                row_views(heads@),
                row_views(rates@),
                row_views(stretches@),
                infos@,
            );
            match r {
                Ok(c) => error is None && correlation_stands_in(
                    c,
                    row_views(heads@)[0],
                    row_views(rates@),
                    row_views(stretches@),
                    infos@,
                ),
                Err(e) => tells(e, error),
            }
        }),
        (forall|i: int| 0 <= i < infos.len() ==> #[trigger] infos@[i] is Ok) ==> forall|
            written: Correlation,
            rate_order: Seq<int>,
            stretch_order: Seq<int>,
            texts: Seq<Seq<char>>,
        | #[trigger]
            correlation_was_written(
                written,
                row_views(heads@),
                row_views(rates@),
                rate_order,
                row_views(stretches@),
                stretch_order,
                texts,
            ) ==> r is Ok && correlation_reads_like(r->Ok_0, written),
{
    let ghost head_views = row_views(heads@);
    let ghost rate_rows = row_views(rates@);
    let ghost stretch_rows = row_views(stretches@);
    if heads.len() == 0 {
        return Err(not_found("Correlation", correlation_id.value));
    }
    assert(head_views[0] == value_views(heads@[0]@));
    let head = match parse_correlation_row(&heads[0]) {
        Ok(head) => head,
        Err(e) => {
            return Err(e);
        },
    };
    let error_rate = match read_rates(rates) {
        Ok(error_rate) => error_rate,
        Err(e) => {
            proof {
                let told = rate_errors(rate_rows);
                let i = choose|i: int| #[trigger]
                    is_first_bad_row(rate_rows, i) && tells(e, rate_error(rate_rows[i]))
                        && rate_reads_back(rate_rows[i]);
                assert forall|k: int| 0 <= k < i implies #[trigger] told[k] is None by {
                    assert(rate_error(rate_rows[k]) is None);
                }
                lemma_first_told(told, i);
            }
            return Err(e);
        },
    };
    proof {
        let told = rate_errors(rate_rows);
        assert forall|k: int| 0 <= k < told.len() implies #[trigger] told[k] is None by {
            assert(rate_error(rate_rows[k]) is None);
        }
        lemma_nothing_told(told);
    }
    let placed = match read_stretches(stretches, infos) {
        Ok(placed) => placed,
        Err(e) => {
            return Err(e);
        },
    };
    let ghost found = placed@;
    let occurrences = ordered_occurrences(placed);
    let ghost read = occurrence_views(occurrences@);
    let r = assemble(head, error_rate, occurrences);
    assert(are_placed_in(found, stretch_rows, infos@));
    proof {
        assert forall|
            written: Correlation,
            rate_order: Seq<int>,
            stretch_order: Seq<int>,
            texts: Seq<Seq<char>>,
        | #[trigger]
            correlation_was_written(
                written,
                head_views,
                rate_rows,
                rate_order,
                stretch_rows,
                stretch_order,
                texts,
            ) implies correlation_reads_like(r, written) by {
            lemma_rates_read_like(error_rate, rate_rows, written.error_rate, rate_order);
            lemma_stretches_read_like(
                found,
                stretch_rows,
                read,
                written.id.value,
                occurrence_views(written.occurrences@),
                stretch_order,
                texts,
            );
            assert forall|i: int| 0 <= i < r.occurrences@.len() implies stretch_reads_like(
                (#[trigger] r.occurrences@[i])@,
                written.occurrences@[i]@,
            ) by {
                assert(stretch_reads_like(read[i], occurrence_views(written.occurrences@)[i]));
            }
        }
    }
    Ok(r)
}

/// What is wrong with each row of the manifestations of an event.
pub open spec fn manifestation_errors(rows: Seq<Seq<SqlView>>) -> Seq<Option<Seq<char>>> {
    Seq::new(rows.len(), |i: int| manifestation_error(rows[i]))
}

/// What is wrong with the rows of an event: its own, those of its manifestations.
pub open spec fn event_error(
    kind: Seq<char>,
    id: u128,
    heads: Seq<Seq<SqlView>>,
    manifestations: Seq<Seq<SqlView>>,
) -> Option<Seq<char>> {
    if heads.len() == 0 {
        Some(missing(kind, id))
    } else {
        or(events::head_error(heads[0]), first_told(manifestation_errors(manifestations)))
    }
}

/// Whether an event stands in rows.
pub open spec fn event_stands_in(
    event: Event,
    head: Seq<SqlView>,
    manifestations: Seq<Seq<SqlView>>,
) -> bool {
    &&& event.is_valid()
    &&& uuid_parse(head[0]->Text_0) == Ok::<u128, Seq<char>>(event.id.value)
    &&& event.name@ == head[1]->Text_0
    &&& event.description is Some
    &&& event.description->0@ == head[2]->Text_0
    &&& are_those_in(event.manifestations@, manifestations)
}

/// Whether the rows are those to which an event was written; those of its manifestations may come in
/// any order.
pub open spec fn event_was_written(
    written: Event,
    heads: Seq<Seq<SqlView>>,
    manifestations: Seq<Seq<SqlView>>,
    order: Seq<int>,
) -> bool {
    let entries = written.manifestations.entries@;
    &&& written.is_valid()
    &&& is_timed(written)
    &&& heads.len() > 0
    &&& heads[0] == head_columns(written)
    &&& manifestations.len() == entries.len()
    &&& is_order(order, entries.len())
    &&& forall|i: int|
        0 <= i < manifestations.len() ==> #[trigger] manifestations[i] == manifestation_columns(
            written.id.value,
            entries[order[i]],
        )
}

/// Whether an event reads like another; one without a description has an empty one then.
pub open spec fn event_reads_like(event: Event, written: Event) -> bool {
    &&& event.id == written.id
    &&& event.name@ == written.name@
    &&& event.description is Some
    &&& event.description->0@ == described(written.description)
    &&& manifestations_read_like(event.manifestations@, written.manifestations@)
}

/// Whether manifestations by their identifiers read like others.
pub open spec fn manifestations_read_like(
    m: Map<u128, Manifestation>,
    written: Map<u128, Manifestation>,
) -> bool {
    &&& m.dom() == written.dom()
    &&& forall|id: u128| #[trigger]
        m.dom().contains(id) ==> manifestation_reads_like(m[id], id, written[id])
}

proof fn lemma_manifestations_read(
    m: Map<u128, Manifestation>,
    rows: Seq<Seq<SqlView>>,
    event: u128,
    entries: Seq<Entry<u128, Manifestation>>,
    order: Seq<int>,
    n: int,
)
    requires
        0 <= n <= rows.len(),
        rows.len() == entries.len(),
        is_order(order, entries.len()),
        distinct_keys(entries),
        are_those_in(m, rows.take(n)),
        forall|i: int|
            0 <= i < entries.len() ==> (#[trigger] entries[i]).value.start.is_valid()
                && entries[i].value.end.is_valid(),
        forall|i: int|
            0 <= i < n ==> #[trigger] rows[i] == manifestation_columns(event, entries[order[i]])
                && manifestation_reads_back(rows[i]),
    ensures
        forall|i: int|
            #![trigger order[i]]
            0 <= i < n ==> m.dom().contains(entries[order[i]].key) && manifestation_reads_like(
                m[entries[order[i]].key],
                entries[order[i]].key,
                entries[order[i]].value,
            ),
        forall|id: u128| #[trigger]
            m.dom().contains(id) ==> exists|i: int|
                0 <= i < n && (#[trigger] entries[order[i]]).key == id,
    decreases n,
{
    if n > 0 {
        let (before, last) = choose|before: Map<u128, Manifestation>, last: Manifestation|
            #![trigger before.insert(last.id.value, last)]
            are_those_in(before, rows.take(n).drop_last()) && shows(last, rows.take(n).last()) && m
                == before.insert(last.id.value, last);
        assert(rows.take(n).drop_last() =~= rows.take(n - 1));
        assert(rows.take(n).last() == rows[n - 1]);
        lemma_manifestations_read(before, rows, event, entries, order, n - 1);
        let entry = entries[order[n - 1]];
        assert(0 <= order[n - 1] < entries.len());
        assert(rows[n - 1] == manifestation_columns(event, entry));
        assert(manifestation_reads_like(last, entry.key, entry.value));
        assert forall|i: int|
            #![trigger order[i]]
            0 <= i < n implies m.dom().contains(entries[order[i]].key) && manifestation_reads_like(
            m[entries[order[i]].key],
            entries[order[i]].key,
            entries[order[i]].value,
        ) by {
            if i < n - 1 {
                assert(order[i] != order[n - 1]);
                assert(0 <= order[i] < entries.len());
                if order[i] < order[n - 1] {
                    assert(entries[order[i]].key@ != entry.key@);
                } else {
                    assert(entry.key@ != entries[order[i]].key@);
                }
            }
        }
        assert forall|id: u128| #[trigger] m.dom().contains(id) implies exists|i: int|
            0 <= i < n && (#[trigger] entries[order[i]]).key == id by {
            if id == entry.key {
                assert(entries[order[n - 1]].key == id);
            } else {
                assert(before.dom().contains(id));
                let i = choose|i: int| 0 <= i < n - 1 && (#[trigger] entries[order[i]]).key == id;
                assert(entries[order[i]].key == id);
            }
        }
    } else {
        assert(rows.take(0) =~= Seq::<Seq<SqlView>>::empty());
    }
}

/// Manifestations that were read from all the rows to which manifestations were written read like
/// those.
proof fn lemma_manifestations_read_like(
    m: Manifestations,
    rows: Seq<Seq<SqlView>>,
    event: u128,
    written: Manifestations,
    order: Seq<int>,
)
    requires
        written.is_valid(),
        are_those_in(m@, rows),
        rows.len() == written.entries@.len(),
        is_order(order, written.entries@.len()),
        forall|i: int|
            0 <= i < written.entries@.len() ==> (
            #[trigger] written.entries@[i]).value.start.is_valid()
                && written.entries@[i].value.end.is_valid(),
        forall|i: int|
            0 <= i < rows.len() ==> #[trigger] rows[i] == manifestation_columns(
                event,
                written.entries@[order[i]],
            ) && manifestation_reads_back(rows[i]),
    ensures
        manifestations_read_like(m@, written@),
{
    let entries = written.entries@;
    let n = rows.len() as int;
    assert(distinct_keys(entries));
    assert(rows.take(n) =~= rows);
    lemma_manifestations_read(m@, rows, event, entries, order, n);
    assert forall|id: u128| m@.dom().contains(id) <==> written@.dom().contains(id) by {
        if m@.dom().contains(id) {
            let i = choose|i: int| 0 <= i < n && (#[trigger] entries[order[i]]).key == id;
            assert(0 <= order[i] < n);
            lemma_entry_found(entries, order[i]);
        }
        if written@.dom().contains(id) {
            assert(has_key(entries, id));
            let p = choose|p: int| 0 <= p < entries.len() && (#[trigger] entries[p]).key@ == id;
            assert(order.contains(p));
            let i = choose|i: int| 0 <= i < order.len() && order[i] == p;
            assert(m@.dom().contains(entries[order[i]].key));
        }
    }
    assert(m@.dom() =~= written@.dom());
    assert forall|id: u128| #[trigger] m@.dom().contains(id) implies manifestation_reads_like(
        m@[id],
        id,
        written@[id],
    ) by {
        let i = choose|i: int| 0 <= i < n && (#[trigger] entries[order[i]]).key == id;
        assert(0 <= order[i] < n);
        lemma_entry_found(entries, order[i]);
    }
}

/// The event of some kind in the rows that its queries find, or what is wrong with them. An event
/// that was written is read back.
fn get_event(
    kind: &str,
    event_id: &EventID,
    heads: &Vec<Vec<SqlValue>>,
    manifestations: &Vec<Vec<SqlValue>>,
) -> (r: Result<Event, Error>)
    requires
        forall|i: int| 0 <= i < heads.len() ==> (#[trigger] heads@[i]).len() == 3,
        forall|i: int| 0 <= i < manifestations.len() ==> (#[trigger] manifestations@[i]).len() == 5,
    ensures
        ({
            let error = event_error(
                kind@,
                event_id.value,
                row_views(heads@),
                row_views(manifestations@),
            );
            match r {
                Ok(event) => error is None && event_stands_in(
                    event,
                    row_views(heads@)[0],
                    row_views(manifestations@),
                ),
                Err(e) => tells(e, error),
            }
        }),
        forall|written: Event, order: Seq<int>| #[trigger]
            event_was_written(written, row_views(heads@), row_views(manifestations@), order)
                ==> r is Ok && event_reads_like(r->Ok_0, written),
{
    let ghost head_views = row_views(heads@);
    let ghost rows = row_views(manifestations@);
    let ghost told = manifestation_errors(rows);
    if heads.len() == 0 {
        return Err(not_found(kind, event_id.value));
    }
    assert(head_views[0] == value_views(heads@[0]@));
    let mut event = match parse_event_row(&heads[0], None) {
        Ok(event) => event,
        Err(e) => {
            return Err(e);
        },
    };
    match read_manifestations(manifestations) {
        Ok(found) => {
            proof {
                assert forall|k: int| 0 <= k < told.len() implies #[trigger] told[k] is None by {
                    assert(manifestation_error(rows[k]) is None);
                }
                lemma_nothing_told(told);
                assert forall|written: Event, order: Seq<int>| #[trigger]
                    event_was_written(written, head_views, rows, order) implies
                    manifestations_read_like(found@, written.manifestations@) by {
                    lemma_manifestations_read_like(
                        found,
                        rows,
                        written.id.value,
                        written.manifestations,
                        order,
                    );
                }
            }
            event.manifestations = found;
            Ok(event)
        },
        Err(e) => {
            proof {
                let i = choose|i: int| #[trigger]
                    events::is_first_bad_row(rows, i) && tells(e, manifestation_error(rows[i]))
                        && manifestation_reads_back(rows[i]);
                assert forall|k: int| 0 <= k < i implies #[trigger] told[k] is None by {
                    assert(manifestation_error(rows[k]) is None);
                }
                lemma_first_told(told, i);
            }
            Err(e)
        },
    }
}

/// The unprocessed event in the rows that its queries find, or what is wrong with them. An event
/// that was written is read back.
pub fn get_unprocessed_event(
    event_id: &EventID,
    heads: &Vec<Vec<SqlValue>>,
    manifestations: &Vec<Vec<SqlValue>>,
) -> (r: Result<Event, Error>)
    requires
        forall|i: int| 0 <= i < heads.len() ==> (#[trigger] heads@[i]).len() == 3,
        forall|i: int| 0 <= i < manifestations.len() ==> (#[trigger] manifestations@[i]).len() == 5,
    ensures
        ({
            let error = event_error(
                "Unprocessed Event"@,
                event_id.value,
                row_views(heads@),
                row_views(manifestations@),
            );
            match r {
                Ok(event) => error is None && event_stands_in(
                    event,
                    row_views(heads@)[0],
                    row_views(manifestations@),
                ),
                Err(e) => tells(e, error),
            }
        }),
        forall|written: Event, order: Seq<int>| #[trigger]
            event_was_written(written, row_views(heads@), row_views(manifestations@), order)
                ==> r is Ok && event_reads_like(r->Ok_0, written),
{
    get_event("Unprocessed Event", event_id, heads, manifestations)
}

/// The processed event in the rows that its queries find, or what is wrong with them. An event
/// that was written is read back.
pub fn get_processed_event(
    event_id: &EventID,
    heads: &Vec<Vec<SqlValue>>,
    manifestations: &Vec<Vec<SqlValue>>,
) -> (r: Result<Event, Error>)
    requires
        forall|i: int| 0 <= i < heads.len() ==> (#[trigger] heads@[i]).len() == 3,
        forall|i: int| 0 <= i < manifestations.len() ==> (#[trigger] manifestations@[i]).len() == 5,
    ensures
        ({
            let error = event_error(
                "Processed Event"@,
                event_id.value,
                row_views(heads@),
                row_views(manifestations@),
            );
            match r {
                Ok(event) => error is None && event_stands_in(
                    event,
                    row_views(heads@)[0],
                    row_views(manifestations@),
                ),
                Err(e) => tells(e, error),
            }
        }),
        forall|written: Event, order: Seq<int>| #[trigger]
            event_was_written(written, row_views(heads@), row_views(manifestations@), order)
                ==> r is Ok && event_reads_like(r->Ok_0, written),
{
    get_event("Processed Event", event_id, heads, manifestations)
}

/// What is wrong with each row of the stretches of a pattern.
pub open spec fn patterned_errors(
    rows: Seq<Seq<SqlView>>,
    infos: Seq<Result<DatabaseInfo, String>>,
) -> Seq<Option<Seq<char>>> {
    Seq::new(rows.len(), |i: int| patterned_error(rows[i], refusal(infos[i])))
}

/// What is wrong with each row of the relatives of a pattern.
pub open spec fn relative_errors(
    rows: Seq<Seq<SqlView>>,
    values: Seq<Result<Relative, String>>,
) -> Seq<Option<Seq<char>>> {
    Seq::new(rows.len(), |i: int| relative_error(rows[i], refusal(values[i])))
}

/// What is wrong with the rows of a pattern: its own, those of its stretches, those of its relatives.
pub open spec fn pattern_error(
    id: u128,
    heads: Seq<Seq<SqlView>>,
    stretches: Seq<Seq<SqlView>>,
    infos: Seq<Result<DatabaseInfo, String>>,
    relatives: Seq<Seq<SqlView>>,
    values: Seq<Result<Relative, String>>,
) -> Option<Seq<char>> {
    if heads.len() == 0 {
        Some(missing("Pattern"@, id))
    } else {
        or(
            figures_error(heads[0]),
            or(
                first_told(patterned_errors(stretches, infos)),
                first_told(relative_errors(relatives, values)),
            ),
        )
    }
}

/// Whether a stretch stands in a row of a pattern.
pub open spec fn occurs_in(
    o: Occurrence,
    row: Seq<SqlView>,
    info: Result<DatabaseInfo, String>,
) -> bool {
    &&& stands_in(o@, row[1], row[2], row[3], row[0], row[5], row[6])
    &&& info is Ok
    &&& o.database_info == info->Ok_0
}

/// Whether stretches stand in rows of a pattern.
pub open spec fn occur_in(
    occurrences: Seq<Occurrence>,
    rows: Seq<Seq<SqlView>>,
    infos: Seq<Result<DatabaseInfo, String>>,
) -> bool {
    &&& occurrences.len() == rows.len()
    &&& forall|i: int|
        0 <= i < rows.len() ==> occurs_in(#[trigger] occurrences[i], rows[i], infos[i])
}

/// Whether a relative is the one that was given.
pub open spec fn is_given(relative: Relative, value: Result<Relative, String>) -> bool {
    value is Ok && relative == value->Ok_0
}

/// Whether relatives are those that were given.
pub open spec fn are_given(relatives: Seq<Relative>, values: Seq<Result<Relative, String>>) -> bool {
    &&& relatives.len() == values.len()
    &&& forall|i: int|
        0 <= i < values.len() ==> is_given(#[trigger] relatives[i], values[i])
}

/// Whether the rows are those to which a pattern of an aspect was written; those of its stretches may
/// come in any order. The stretches are of the pattern and of the aspect.
pub open spec fn pattern_was_written(
    written: Pattern,
    figures: Figures,
    aspect: u128,
    heads: Seq<Seq<SqlView>>,
    stretches: Seq<Seq<SqlView>>,
    order: Seq<int>,
    infos: Seq<Seq<char>>,
    relatives: Seq<Seq<SqlView>>,
    texts: Seq<Seq<char>>,
) -> bool {
    let occurrences = written@.occurrences;
    &&& figures.is_writable()
    &&& heads.len() > 0
    &&& heads[0] == figures.columns(written.id.value)
    &&& all_timed(occurrences)
    &&& forall|i: int|
        0 <= i < occurrences.len() ==> (#[trigger] occurrences[i]).pattern_id == written.id
            && occurrences[i].aspect.value == aspect
    &&& stretches.len() == occurrences.len()
    &&& is_order(order, occurrences.len())
    &&& forall|i: int|
        0 <= i < stretches.len() ==> #[trigger] stretches[i] == patterned_row(
            written.id.value,
            aspect,
            occurrences[order[i]],
            infos[order[i]],
        )
    &&& relatives.len() == written.relatives@.len()
    &&& forall|i: int|
        0 <= i < relatives.len() ==> #[trigger] relatives[i] == relative_text_step(
            written.id.value,
            i,
            texts[i],
        ).statement.params
}

/// Whether a pattern reads like another: with its stretches in an order.
pub open spec fn pattern_reads_like(p: Pattern, written: Pattern, order: Seq<int>) -> bool {
    &&& p.id == written.id
    &&& p.occurrences@.len() == written.occurrences@.len()
    &&& forall|i: int|
        0 <= i < p.occurrences@.len() ==> stretch_reads_like(
            (#[trigger] p.occurrences@[i])@,
            written.occurrences@[order[i]]@,
        )
    &&& p.relatives@.len() == written.relatives@.len()
}

/// Whether a row, if a stretch of a pattern was written to it, holds that stretch.
pub open spec fn occurrence_reads_back(o: OccurrenceView, row: Seq<SqlView>) -> bool {
    forall|written: OccurrenceView, text: Seq<char>|
        row == #[trigger] patterned_row(
            written.pattern_id.value,
            written.aspect.value,
            written,
            text,
        ) && written.beginning.is_valid() && written.end.is_valid() ==> stretch_reads_like(
            o,
            written,
        )
}

/// Whether no stretch of a pattern was written to a row.
pub open spec fn holds_no_occurrence(row: Seq<SqlView>) -> bool {
    forall|written: OccurrenceView, text: Seq<char>|
        row == #[trigger] patterned_row(
            written.pattern_id.value,
            written.aspect.value,
            written,
            text,
        ) && written.beginning.is_valid() && written.end.is_valid() ==> false
}

/// The stretches of a pattern, or what is wrong with the first row that cannot be read. Stretches
/// that were written are read back.
fn read_occurrences(rows: &Vec<Vec<SqlValue>>, infos: Vec<Result<DatabaseInfo, String>>) -> (r:
    Result<Vec<Occurrence>, Error>)
    requires
        infos.len() == rows.len(),
        forall|i: int| 0 <= i < rows.len() ==> (#[trigger] rows@[i]).len() == 7,
    ensures
        ({
            let views = row_views(rows@);
            let told = patterned_errors(views, infos@);
            match r {
                Ok(found) => {
                    &&& first_told(told) is None
                    &&& occur_in(found@, views, infos@)
                    &&& forall|i: int|
                        0 <= i < views.len() ==> occurrence_reads_back(
                            (#[trigger] found@[i])@,
                            views[i],
                        )
                },
                Err(e) => {
                    &&& tells(e, first_told(told))
                    &&& exists|i: int| #[trigger]
                        is_first_bad(told, i) && (infos@[i] is Ok ==> holds_no_occurrence(
                            views[i],
                        ))
                },
            }
        }),
{
    let ghost views = row_views(rows@);
    let ghost given = infos@;
    let ghost told = patterned_errors(views, given);
    let mut rest = infos;
    let mut found: Vec<Occurrence> = Vec::new();
    let mut i: usize = 0;
    while i < rows.len()
        invariant
            i <= rows.len(),
            given == infos@,
            given.len() == rows.len(),
            rest@ == given.skip(i as int),
            forall|i: int| 0 <= i < rows.len() ==> (#[trigger] rows@[i]).len() == 7,
            views == row_views(rows@),
            told == patterned_errors(views, given),
            found.len() == i,
            forall|k: int| 0 <= k < i ==> #[trigger] told[k] is None,
            forall|k: int|
                0 <= k < i ==> occurs_in(#[trigger] found@[k], views[k], given[k])
                    && occurrence_reads_back(found@[k]@, views[k]),
        decreases rows.len() - i,
    {
        assert(rows@[i as int].len() == 7);
        assert(views[i as int] == value_views(rows@[i as int]@));
        let info = rest.remove(0);
        proof {
            assert(info == given[i as int]);
            assert(rest@ =~= given.skip(i + 1));
            assert(told[i as int] == patterned_error(views[i as int], refusal(info)));
        }
        match parse_patterned_row(&rows[i], info) {
            Ok(o) => {
                found.push(o);
            },
            Err(e) => {
                proof {
                    lemma_first_told(told, i as int);
                    assert(is_first_bad(told, i as int));
                }
                return Err(e);
            },
        }
        i += 1;
    }
    proof {
        lemma_nothing_told(told);
    }
    Ok(found)
}

/// The relatives of a pattern, or what is wrong with the first row that cannot be read. Relatives
/// that were written are read back.
fn read_relatives(rows: &Vec<Vec<SqlValue>>, values: Vec<Result<Relative, String>>) -> (r: Result<
    Vec<Relative>,
    Error,
>)
    requires
        values.len() == rows.len(),
        forall|i: int| 0 <= i < rows.len() ==> (#[trigger] rows@[i]).len() == 3,
    ensures
        ({
            let views = row_views(rows@);
            let told = relative_errors(views, values@);
            match r {
                Ok(found) => first_told(told) is None && are_given(found@, values@),
                Err(e) => {
                    &&& tells(e, first_told(told))
                    &&& exists|i: int| #[trigger]
                        is_first_bad(told, i) && (values@[i] is Ok ==> forall|
                            pattern: u128,
                            index: int,
                            text: Seq<char>,
                        |
                            views[i] == (#[trigger] relative_text_step(
                                pattern,
                                index,
                                text,
                            )).statement.params && 0 <= index <= usize::MAX ==> false)
                },
            }
        }),
{
    let ghost views = row_views(rows@);
    let ghost given = values@;
    let ghost told = relative_errors(views, given);
    let mut rest = values;
    let mut found: Vec<Relative> = Vec::new();
    let mut i: usize = 0;
    while i < rows.len()
        invariant
            i <= rows.len(),
            given == values@,
            given.len() == rows.len(),
            rest@ == given.skip(i as int),
            forall|i: int| 0 <= i < rows.len() ==> (#[trigger] rows@[i]).len() == 3,
            views == row_views(rows@),
            told == relative_errors(views, given),
            found.len() == i,
            forall|k: int| 0 <= k < i ==> #[trigger] told[k] is None,
            forall|k: int| 0 <= k < i ==> is_given(#[trigger] found@[k], given[k]),
        decreases rows.len() - i,
    {
        assert(rows@[i as int].len() == 3);
        assert(views[i as int] == value_views(rows@[i as int]@));
        let value = rest.remove(0);
        proof {
            assert(value == given[i as int]);
            assert(rest@ =~= given.skip(i + 1));
            assert(told[i as int] == relative_error(views[i as int], refusal(value)));
        }
        match parse_relative_row(&rows[i], value) {
            Ok(relative) => {
                found.push(relative);
            },
            Err(e) => {
                proof {
                    lemma_first_told(told, i as int);
                    assert(is_first_bad(told, i as int));
                }
                return Err(e);
            },
        }
        i += 1;
    }
    proof {
        lemma_nothing_told(told);
    }
    Ok(found)
}

/// The pattern of a dictionary in the rows that its queries find, or what is wrong with them; what
/// the descriptions of the databases and the relatives read as is given. A pattern that was written
/// is read back, with its stretches in the order of their rows.
pub fn get_dictionary_pattern(
    pattern_id: &PatternID,
    heads: &Vec<Vec<SqlValue>>,
    stretches: &Vec<Vec<SqlValue>>,
    infos: Vec<Result<DatabaseInfo, String>>,
    relatives: &Vec<Vec<SqlValue>>,
    values: Vec<Result<Relative, String>>,
) -> (r: Result<Pattern, Error>)
    requires
        forall|i: int| 0 <= i < heads.len() ==> (#[trigger] heads@[i]).len() == 8,
        forall|i: int| 0 <= i < stretches.len() ==> (#[trigger] stretches@[i]).len() == 7,
        forall|i: int| 0 <= i < relatives.len() ==> (#[trigger] relatives@[i]).len() == 3,
        infos.len() == stretches.len(),
        values.len() == relatives.len(),
    ensures
        ({
            let error = pattern_error(
                pattern_id.value,
                row_views(heads@),
                row_views(stretches@),
                infos@,
                row_views(relatives@),
                values@,
            );
            match r {
                Ok(p) => {
                    &&& error is None
                    &&& uuid_parse(row_views(heads@)[0][0]->Text_0) == Ok::<u128, Seq<char>>(
                        p.id.value,
                    )
                    &&& occur_in(p.occurrences@, row_views(stretches@), infos@)
                    &&& are_given(p.relatives@, values@)
                },
                Err(e) => tells(e, error),
            }
        }),
        (forall|i: int| 0 <= i < infos.len() ==> #[trigger] infos@[i] is Ok) && (forall|i: int|
            0 <= i < values.len() ==> #[trigger] values@[i] is Ok) ==> forall|
            written: Pattern,
            figures: Figures,
            aspect: u128,
            order: Seq<int>,
            info_texts: Seq<Seq<char>>,
            texts: Seq<Seq<char>>,
        | #[trigger]
            pattern_was_written(
                written,
                figures,
                aspect,
                row_views(heads@),
                row_views(stretches@),
                order,
                info_texts,
                row_views(relatives@),
                texts,
            ) ==> r is Ok && pattern_reads_like(r->Ok_0, written, order),
{
    let ghost head_views = row_views(heads@);
    let ghost stretch_rows = row_views(stretches@);
    let ghost relative_rows = row_views(relatives@);
    if heads.len() == 0 {
        return Err(not_found("Pattern", pattern_id.value));
    }
    assert(head_views[0] == value_views(heads@[0]@));
    let id = match parse_pattern_row(&heads[0]) {
        Ok(id) => id,
        Err(e) => {
            return Err(e);
        },
    };
    proof {
        assert forall|
            written: Pattern,
            figures: Figures,
            aspect: u128,
            order: Seq<int>,
            info_texts: Seq<Seq<char>>,
            texts: Seq<Seq<char>>,
            i: int,
        |
            #![trigger pattern_was_written(written, figures, aspect, head_views, stretch_rows, order, info_texts, relative_rows, texts), stretch_rows[i]]
            pattern_was_written(
                written,
                figures,
                aspect,
                head_views,
                stretch_rows,
                order,
                info_texts,
                relative_rows,
                texts,
            ) && 0 <= i < stretch_rows.len() implies {
            let o = written.occurrences@[order[i]]@;
            &&& stretch_rows[i] == patterned_row(
                o.pattern_id.value,
                o.aspect.value,
                o,
                info_texts[order[i]],
            )
            &&& o.beginning.is_valid()
            &&& o.end.is_valid()
        } by {
            assert(0 <= order[i] < written@.occurrences.len());
            let o = written@.occurrences[order[i]];
            assert(o == written.occurrences@[order[i]]@);
            assert(o.pattern_id == written.id && o.aspect.value == aspect);
        }
    }
    let occurrences = match read_occurrences(stretches, infos) {
        Ok(occurrences) => occurrences,
        Err(e) => {
            return Err(e);
        },
    };
    let found = match read_relatives(relatives, values) {
        Ok(found) => found,
        Err(e) => {
            return Err(e);
        },
    };
    Ok(Pattern::new(id, occurrences, found))
}

}
