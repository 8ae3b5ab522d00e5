//! What stands in tables after something was written there, replaced or taken out, and what is found
//! there afterwards.
use crate::correlation::Correlation;
use crate::event::Event;
use crate::ids::{law_identifiers_have_texts_of_their_own, uuid_text};
use crate::pattern::{occurrence_views, OccurrenceView};
use crate::sql::SqlView;
use crate::store::correlations::{
    correlation_columns,
    dictionary_columns,
    distance_columns,
    insert_step,
    is_order,
    is_writable,
    rate_columns,
    rate_steps,
    reference_columns,
    rewrite_step,
    stretch_steps,
    update_step,
};
use crate::store::dictionaries::{know_step, metadata_columns};
use crate::store::events::{
    event_step,
    head_columns,
    is_timed,
    manifestation_columns,
    manifestation_steps,
    EventStage,
};
use crate::store::occurrences::{correlated_row, first_unfit, unfit_message};
use crate::store::whole::{correlation_was_written, event_was_written};
use crate::transaction::StepView;
use vstd::prelude::*;

verus! {

/// The rows of a table that have a text in a column.
pub open spec fn rows_with(rows: Seq<Seq<SqlView>>, column: int, key: Seq<char>) -> Seq<
    Seq<SqlView>,
> {
    rows.filter(|row: Seq<SqlView>| row[column] == SqlView::Text(key))
}

/// The rows of a table that do not have a text in a column: what is left once those that have it
/// are deleted.
pub open spec fn rows_without(rows: Seq<Seq<SqlView>>, column: int, key: Seq<char>) -> Seq<
    Seq<SqlView>,
> {
    rows.filter(|row: Seq<SqlView>| row[column] != SqlView::Text(key))
}

/// The rows of a table once those that have a text in a column were changed.
pub open spec fn rows_changed(
    rows: Seq<Seq<SqlView>>,
    column: int,
    key: Seq<char>,
    change: spec_fn(Seq<SqlView>) -> Seq<SqlView>,
) -> Seq<Seq<SqlView>> {
    Seq::new(
        rows.len(),
        |i: int|
            if rows[i][column] == SqlView::Text(key) {
                change(rows[i])
            } else {
                rows[i]
            },
    )
}

/// The rows that steps write.
pub open spec fn written_rows(steps: Seq<StepView>) -> Seq<Seq<SqlView>> {
    Seq::new(steps.len(), |i: int| steps[i].statement.params)
}

/// Whether all rows have a text in a column.
pub open spec fn all_with(rows: Seq<Seq<SqlView>>, column: int, key: Seq<char>) -> bool {
    forall|i: int| 0 <= i < rows.len() ==> (#[trigger] rows[i])[column] == SqlView::Text(key)
}

proof fn lemma_met(rows: Seq<Seq<SqlView>>, column: int, key: Seq<char>)
    ensures
        all_with(rows_with(rows, column, key), column, key),
    decreases rows.len(),
{
    reveal(Seq::filter);
    if rows.len() > 0 {
        lemma_met(rows.drop_last(), column, key);
    }
}

/// Deleting the rows that have a text leaves none of those, and all others.
proof fn lemma_deleted(rows: Seq<Seq<SqlView>>, column: int, key: Seq<char>)
    ensures
        rows_with(rows_without(rows, column, key), column, key).len() == 0,
        forall|other: Seq<char>|
            other != key ==> #[trigger] rows_with(rows_without(rows, column, key), column, other)
                == rows_with(rows, column, other),
    decreases rows.len(),
{
    reveal(Seq::filter);
    if rows.len() > 0 {
        let rest = rows.drop_last();
        lemma_deleted(rest, column, key);
        let left = rows_without(rest, column, key);
        if rows.last()[column] != SqlView::Text(key) {
            assert(rows_without(rows, column, key) == left.push(rows.last()));
            assert(left.push(rows.last()).drop_last() =~= left);
        }
        assert forall|other: Seq<char>| other != key implies #[trigger] rows_with(
            rows_without(rows, column, key),
            column,
            other,
        ) == rows_with(rows, column, other) by {
            assert(rows_with(left, column, other) == rows_with(rest, column, other));
        }
    }
}

/// Rows that all have a text are found by it, after those that had it before, and no other rows are
/// found by another text.
proof fn lemma_added(
    rows: Seq<Seq<SqlView>>,
    new: Seq<Seq<SqlView>>,
    column: int,
    key: Seq<char>,
)
    requires
        all_with(new, column, key),
    ensures
        rows_with(rows + new, column, key) == rows_with(rows, column, key) + new,
        forall|other: Seq<char>|
            other != key ==> #[trigger] rows_with(rows + new, column, other) == rows_with(
                rows,
                column,
                other,
            ),
    decreases new.len(),
{
    reveal(Seq::filter);
    if new.len() == 0 {
        assert(rows + new =~= rows);
        assert(rows_with(rows, column, key) + new =~= rows_with(rows, column, key));
    } else {
        let before = new.drop_last();
        lemma_added(rows, before, column, key);
        assert((rows + new).drop_last() =~= rows + before);
        assert((rows + new).last() == new.last());
        assert(new.last()[column] == SqlView::Text(key));
        assert(rows_with(rows, column, key) + new =~= (rows_with(rows, column, key)
            + before).push(new.last()));
        assert forall|other: Seq<char>| other != key implies #[trigger] rows_with(
            rows + new,
            column,
            other,
        ) == rows_with(rows, column, other) by {
            assert(rows_with(rows + before, column, other) == rows_with(rows, column, other));
        }
    }
}

/// Rows that are deleted and written anew are found as they were written, and no others change.
proof fn lemma_rewritten(
    rows: Seq<Seq<SqlView>>,
    new: Seq<Seq<SqlView>>,
    column: int,
    key: Seq<char>,
)
    requires
        all_with(new, column, key),
    ensures
        rows_with(rows_without(rows, column, key) + new, column, key) == new,
        forall|other: Seq<char>|
            other != key ==> #[trigger] rows_with(
                rows_without(rows, column, key) + new,
                column,
                other,
            ) == rows_with(rows, column, other),
{
    let left = rows_without(rows, column, key);
    lemma_deleted(rows, column, key);
    lemma_added(left, new, column, key);
    assert(rows_with(left, column, key) + new =~= new);
    assert forall|other: Seq<char>| other != key implies #[trigger] rows_with(
        left + new,
        column,
        other,
    ) == rows_with(rows, column, other) by {
        assert(rows_with(left, column, other) == rows_with(rows, column, other));
    }
}

/// Rows that are changed, but not in the column by which they are found, are found as they were
/// changed, and no others change.
proof fn lemma_changed(
    rows: Seq<Seq<SqlView>>,
    column: int,
    key: Seq<char>,
    change: spec_fn(Seq<SqlView>) -> Seq<SqlView>,
)
    requires
        forall|row: Seq<SqlView>| (#[trigger] change(row))[column] == row[column],
    ensures
        rows_with(rows_changed(rows, column, key, change), column, key) == rows_with(
            rows,
            column,
            key,
        ).map_values(change),
        forall|other: Seq<char>|
            other != key ==> #[trigger] rows_with(
                rows_changed(rows, column, key, change),
                column,
                other,
            ) == rows_with(rows, column, other),
    decreases rows.len(),
{
    reveal(Seq::filter);
    let changed = rows_changed(rows, column, key, change);
    if rows.len() > 0 {
        let rest = rows.drop_last();
        lemma_changed(rest, column, key, change);
        let before = rows_changed(rest, column, key, change);
        assert(changed.drop_last() =~= before);
        assert(changed.last()[column] == rows.last()[column]);
        if rows.last()[column] == SqlView::Text(key) {
            assert(rows_with(rows, column, key).map_values(change) =~= rows_with(
                rest,
                column,
                key,
            ).map_values(change).push(change(rows.last())));
        }
        assert forall|other: Seq<char>| other != key implies #[trigger] rows_with(
            changed,
            column,
            other,
        ) == rows_with(rows, column, other) by {
            assert(rows_with(before, column, other) == rows_with(rest, column, other));
        }
    } else {
        assert(rows_with(rows, column, key).map_values(change) =~= rows_with(
            changed,
            column,
            key,
        ));
    }
}

/// The tables of correlations.
pub struct CorrelationRows {
    pub heads: Seq<Seq<SqlView>>,
    pub rates: Seq<Seq<SqlView>>,
    pub stretches: Seq<Seq<SqlView>>,
}

/// The tables once a correlation was inserted.
pub open spec fn after_insert(
    rows: CorrelationRows,
    c: Correlation,
    infos: Seq<Seq<char>>,
    created_at: int,
    updated_at: int,
) -> CorrelationRows {
    CorrelationRows {
        heads: rows.heads + written_rows(seq![insert_step(c, created_at, updated_at)]),
        rates: rows.rates + written_rows(rate_steps(c)),
        stretches: rows.stretches + written_rows(stretch_steps(c, infos)),
    }
}

/// A row of a correlation once the columns that an update sets were set. It keeps its identifier and
/// the instant at which it was created.
pub open spec fn head_set(row: Seq<SqlView>, set: Seq<SqlView>) -> Seq<SqlView> {
    seq![row[0]] + set.take(7) + seq![row[8], set[7]]
}

/// The tables once a correlation was updated: its row is set, its rates and its stretches are
/// deleted and written anew.
pub open spec fn after_update(
    rows: CorrelationRows,
    c: Correlation,
    infos: Seq<Seq<char>>,
    updated_at: int,
) -> CorrelationRows {
    let id = uuid_text(c.id.value);
    let set = update_step(c, updated_at).statement.params;
    CorrelationRows {
        heads: rows_changed(rows.heads, 0, id, |row: Seq<SqlView>| head_set(row, set)),
        rates: rows_without(rows.rates, 0, id) + written_rows(rate_steps(c)),
        stretches: rows_without(rows.stretches, 0, id) + written_rows(stretch_steps(c, infos)),
    }
}

/// The tables once a correlation was removed.
pub open spec fn after_removal(rows: CorrelationRows, id: u128) -> CorrelationRows {
    CorrelationRows {
        heads: rows_without(rows.heads, 0, uuid_text(id)),
        rates: rows_without(rows.rates, 0, uuid_text(id)),
        stretches: rows_without(rows.stretches, 0, uuid_text(id)),
    }
}

/// The rows of a correlation that its query finds, in the columns that it asks for.
pub open spec fn found_heads(rows: CorrelationRows, id: u128) -> Seq<Seq<SqlView>> {
    rows_with(rows.heads, 0, uuid_text(id)).map_values(|row: Seq<SqlView>| row.take(8))
}

/// The rates of a correlation that the query for them finds, in the columns that it asks for.
pub open spec fn found_rates(rows: CorrelationRows, id: u128) -> Seq<Seq<SqlView>> {
    rows_with(rows.rates, 0, uuid_text(id)).map_values(|row: Seq<SqlView>| row.skip(1))
}

/// The stretches of a correlation that the query for them finds, in the columns that it asks for.
pub open spec fn found_stretches(rows: CorrelationRows, id: u128) -> Seq<Seq<SqlView>> {
    rows_with(rows.stretches, 0, uuid_text(id))
}

/// Whether what is found of a correlation is the same in other tables.
pub open spec fn found_alike(a: CorrelationRows, b: CorrelationRows, id: u128) -> bool {
    &&& found_heads(a, id) == found_heads(b, id)
    &&& found_rates(a, id) == found_rates(b, id)
    &&& found_stretches(a, id) == found_stretches(b, id)
}

/// Whether nothing is found of a correlation.
pub open spec fn found_nowhere(rows: CorrelationRows, id: u128) -> bool {
    &&& found_heads(rows, id).len() == 0
    &&& found_rates(rows, id).len() == 0
    &&& found_stretches(rows, id).len() == 0
}

/// The places of so many, one after the other.
pub open spec fn in_order(n: nat) -> Seq<int> {
    Seq::new(n, |i: int| i)
}

proof fn lemma_in_order(n: nat)
    ensures
        is_order(in_order(n), n),
{
    assert forall|p: int| 0 <= p < n implies #[trigger] in_order(n).contains(p) by {
        assert(in_order(n)[p] == p);
    }
}

/// What is written of a correlation beside its own row.
proof fn lemma_parts_written(c: Correlation, infos: Seq<Seq<char>>)
    requires
        unfit_message(occurrence_views(c.occurrences@), true) is None,
    ensures
        all_with(written_rows(rate_steps(c)), 0, uuid_text(c.id.value)),
        all_with(written_rows(stretch_steps(c, infos)), 0, uuid_text(c.id.value)),
        written_rows(rate_steps(c)).len() == c.error_rate.entries@.len(),
        forall|i: int|
            0 <= i < c.error_rate.entries@.len() ==> (#[trigger] written_rows(
                rate_steps(c),
            )[i]).skip(1) == rate_columns(c.error_rate.entries@[i]),
        written_rows(stretch_steps(c, infos)).len() == c.occurrences@.len(),
        forall|i: int|
            0 <= i < c.occurrences@.len() ==> #[trigger] written_rows(stretch_steps(c, infos))[i]
                == correlated_row(c.id.value, i, occurrence_views(c.occurrences@)[i], infos[i]),
{
    let views = occurrence_views(c.occurrences@);
    lemma_fits(views, 0);
    assert forall|i: int| 0 <= i < c.error_rate.entries@.len() implies (#[trigger] written_rows(
        rate_steps(c),
    )[i]).skip(1) == rate_columns(c.error_rate.entries@[i]) by {
        assert(written_rows(rate_steps(c))[i].skip(1) =~= rate_columns(c.error_rate.entries@[i]));
    }
}

/// The first that does not fit does not stand behind the end.
proof fn lemma_fits(s: Seq<OccurrenceView>, i: int)
    requires
        i <= s.len(),
    ensures
        first_unfit(s, true, i) <= s.len(),
    decreases s.len() - i,
{
    if i < s.len() {
        lemma_fits(s, i + 1);
    }
}

/// A correlation is found as it was written where its row holds it, and where its rates and its
/// stretches are those that were written.
proof fn lemma_found_as_written(rows: CorrelationRows, c: Correlation, infos: Seq<Seq<char>>)
    requires
        is_writable(c),
        c.error_rate.is_valid(),
        unfit_message(occurrence_views(c.occurrences@), true) is None,
        found_heads(rows, c.id.value).len() > 0,
        found_heads(rows, c.id.value)[0] == correlation_columns(c),
        rows_with(rows.rates, 0, uuid_text(c.id.value)) == written_rows(rate_steps(c)),
        rows_with(rows.stretches, 0, uuid_text(c.id.value)) == written_rows(
            stretch_steps(c, infos),
        ),
    ensures
        correlation_was_written(
            c,
            found_heads(rows, c.id.value),
            found_rates(rows, c.id.value),
            in_order(c.error_rate.entries@.len()),
            found_stretches(rows, c.id.value),
            in_order(c.occurrences@.len()),
            infos,
        ),
{
    lemma_parts_written(c, infos);
    lemma_in_order(c.error_rate.entries@.len());
    lemma_in_order(c.occurrences@.len());
}

/// A correlation that was inserted where none has its identifier is found as it was written, so that
/// it is read back; what is found of every other correlation stays as it was.
pub proof fn law_inserted_correlation_is_found(
    rows: CorrelationRows,
    c: Correlation,
    infos: Seq<Seq<char>>,
    created_at: int,
    updated_at: int,
    other: u128,
)
    requires
        is_writable(c),
        c.error_rate.is_valid(),
        infos.len() == c.occurrences@.len(),
        unfit_message(occurrence_views(c.occurrences@), true) is None,
        found_nowhere(rows, c.id.value),
    ensures
        ({
            let after = after_insert(rows, c, infos, created_at, updated_at);
            &&& correlation_was_written(
                c,
                found_heads(after, c.id.value),
                found_rates(after, c.id.value),
                in_order(c.error_rate.entries@.len()),
                found_stretches(after, c.id.value),
                in_order(c.occurrences@.len()),
                infos,
            )
            &&& other != c.id.value ==> found_alike(after, rows, other)
        }),
{
    let id = uuid_text(c.id.value);
    let after = after_insert(rows, c, infos, created_at, updated_at);
    let head = written_rows(seq![insert_step(c, created_at, updated_at)]);
    law_identifiers_have_texts_of_their_own(c.id.value, other);
    lemma_parts_written(c, infos);
    assert(head[0] == insert_step(c, created_at, updated_at).statement.params);
    assert(head[0].take(8) =~= correlation_columns(c));
    assert(all_with(head, 0, id));
    lemma_added(rows.heads, head, 0, id);
    lemma_added(rows.rates, written_rows(rate_steps(c)), 0, id);
    lemma_added(rows.stretches, written_rows(stretch_steps(c, infos)), 0, id);
    assert(rows_with(rows.rates, 0, id) + written_rows(rate_steps(c)) =~= written_rows(
        rate_steps(c),
    ));
    assert(rows_with(rows.stretches, 0, id) + written_rows(stretch_steps(c, infos))
        =~= written_rows(stretch_steps(c, infos)));
    assert(found_heads(after, c.id.value)[0] == head[0].take(8));
    lemma_found_as_written(after, c, infos);
}

/// The row of a correlation holds it once its columns were set.
proof fn lemma_head_set(row: Seq<SqlView>, c: Correlation, updated_at: int)
    requires
        row[0] == SqlView::Text(uuid_text(c.id.value)),
    ensures
        head_set(row, update_step(c, updated_at).statement.params).take(8) == correlation_columns(
            c,
        ),
{
    let set = update_step(c, updated_at).statement.params;
    assert(set.take(7) =~= reference_columns(c) + distance_columns(c.average_distance));
    assert(head_set(row, set).take(8) =~= correlation_columns(c));
}

/// A correlation that was updated is found as it was given, so that it is read back: none of its
/// former rates and none of its former stretches is found any more. What is found of every other
/// correlation stays as it was.
pub proof fn law_updated_correlation_is_found(
    rows: CorrelationRows,
    c: Correlation,
    infos: Seq<Seq<char>>,
    updated_at: int,
    other: u128,
)
    requires
        is_writable(c),
        c.error_rate.is_valid(),
        infos.len() == c.occurrences@.len(),
        unfit_message(occurrence_views(c.occurrences@), true) is None,
        found_heads(rows, c.id.value).len() > 0,
    ensures
        ({
            let after = after_update(rows, c, infos, updated_at);
            &&& correlation_was_written(
                c,
                found_heads(after, c.id.value),
                found_rates(after, c.id.value),
                in_order(c.error_rate.entries@.len()),
                found_stretches(after, c.id.value),
                in_order(c.occurrences@.len()),
                infos,
            )
            &&& found_heads(after, c.id.value).len() == found_heads(rows, c.id.value).len()
            &&& other != c.id.value ==> found_alike(after, rows, other)
        }),
{
    let id = uuid_text(c.id.value);
    let after = after_update(rows, c, infos, updated_at);
    let set = update_step(c, updated_at).statement.params;
    let change = |row: Seq<SqlView>| head_set(row, set);
    law_identifiers_have_texts_of_their_own(c.id.value, other);
    lemma_parts_written(c, infos);
    lemma_changed(rows.heads, 0, id, change);
    lemma_rewritten(rows.rates, written_rows(rate_steps(c)), 0, id);
    lemma_rewritten(rows.stretches, written_rows(stretch_steps(c, infos)), 0, id);
    let met = rows_with(rows.heads, 0, id);
    lemma_met(rows.heads, 0, id);
    lemma_head_set(met[0], c, updated_at);
    assert(found_heads(after, c.id.value)[0] == head_set(met[0], set).take(8));
    lemma_found_as_written(after, c, infos);
}

/// Nothing is found of a correlation that was removed; what is found of every other correlation
/// stays as it was.
pub proof fn law_removed_correlation_is_gone(rows: CorrelationRows, id: u128, other: u128)
    ensures
        found_nowhere(after_removal(rows, id), id),
        other != id ==> found_alike(after_removal(rows, id), rows, other),
{
    law_identifiers_have_texts_of_their_own(id, other);
    lemma_deleted(rows.heads, 0, uuid_text(id));
    lemma_deleted(rows.rates, 0, uuid_text(id));
    lemma_deleted(rows.stretches, 0, uuid_text(id));
}

/// The rows of a dictionary once a correlation in it was updated.
pub open spec fn after_dictionary_update(
    rows: Seq<Seq<SqlView>>,
    c: Correlation,
    error_rates: Seq<char>,
    occurrences: Seq<char>,
    now: int,
) -> Seq<Seq<SqlView>> {
    rows_without(rows, 0, uuid_text(c.id.value)) + written_rows(
        seq![rewrite_step(c, error_rates, occurrences, now)],
    )
}

/// The rows of a correlation in a dictionary that its query finds, in the columns that it asks for.
pub open spec fn found_in_dictionary(rows: Seq<Seq<SqlView>>, id: u128) -> Seq<Seq<SqlView>> {
    rows_with(rows, 0, uuid_text(id)).map_values(|row: Seq<SqlView>| row.take(6))
}

proof fn lemma_rewritten_row(
    c: Correlation,
    error_rates: Seq<char>,
    occurrences: Seq<char>,
    now: int,
)
    ensures
        ({
            let new = written_rows(seq![rewrite_step(c, error_rates, occurrences, now)]);
            &&& new.len() == 1
            &&& all_with(new, 0, uuid_text(c.id.value))
            &&& new[0].take(6) == dictionary_columns(c, error_rates, occurrences)
        }),
{
    let new = written_rows(seq![rewrite_step(c, error_rates, occurrences, now)]);
    assert(new[0].take(6) =~= dictionary_columns(c, error_rates, occurrences));
}

/// A correlation that was updated in a dictionary is found there once, as it was given; what is
/// found of every other correlation stays as it was.
pub proof fn law_correlation_updated_in_a_dictionary_is_found(
    rows: Seq<Seq<SqlView>>,
    c: Correlation,
    error_rates: Seq<char>,
    occurrences: Seq<char>,
    now: int,
    other: u128,
)
    ensures
        ({
            let after = after_dictionary_update(rows, c, error_rates, occurrences, now);
            &&& found_in_dictionary(after, c.id.value) == seq![
                dictionary_columns(c, error_rates, occurrences),
            ]
            &&& other != c.id.value ==> found_in_dictionary(after, other) == found_in_dictionary(
                rows,
                other,
            )
        }),
{
    let new = written_rows(seq![rewrite_step(c, error_rates, occurrences, now)]);
    law_identifiers_have_texts_of_their_own(c.id.value, other);
    lemma_rewritten_row(c, error_rates, occurrences, now);
    lemma_rewritten(rows, new, 0, uuid_text(c.id.value));
    let after = after_dictionary_update(rows, c, error_rates, occurrences, now);
    assert(found_in_dictionary(after, c.id.value) =~= seq![
        dictionary_columns(c, error_rates, occurrences),
    ]);
}

/// What is known of dictionaries once what is known of one was set.
pub open spec fn after_setting_metadata(
    rows: Seq<Seq<SqlView>>,
    id: u128,
    name: Seq<char>,
    description: Seq<char>,
    now: int,
) -> Seq<Seq<SqlView>> {
    rows_without(rows, 1, name) + written_rows(seq![know_step(id, name, description, now)])
}

/// What is known under a name, as the query for it finds it.
pub open spec fn found_metadata(rows: Seq<Seq<SqlView>>, name: Seq<char>) -> Seq<Seq<SqlView>> {
    rows_with(rows, 1, name)
}

/// Once what is known of a dictionary was set, that alone is found under its name; what is found
/// under every other name stays as it was.
pub proof fn law_metadata_that_was_set_is_found(
    rows: Seq<Seq<SqlView>>,
    id: u128,
    name: Seq<char>,
    description: Seq<char>,
    now: int,
    other: Seq<char>,
)
    ensures
        ({
            let after = after_setting_metadata(rows, id, name, description, now);
            &&& found_metadata(after, name) == seq![metadata_columns(id, name, description, now)]
            &&& other != name ==> found_metadata(after, other) == found_metadata(rows, other)
        }),
{
    let new = written_rows(seq![know_step(id, name, description, now)]);
    assert(all_with(new, 1, name));
    lemma_rewritten(rows, new, 1, name);
    assert(new =~= seq![metadata_columns(id, name, description, now)]);
}

/// The tables of the events of a stage.
pub struct EventRows {
    pub heads: Seq<Seq<SqlView>>,
    pub manifestations: Seq<Seq<SqlView>>,
}

/// The tables once an event was inserted.
pub open spec fn after_event_insert(rows: EventRows, event: Event, stage: EventStage, now: int) -> EventRows {
    EventRows {
        heads: rows.heads + written_rows(seq![event_step(event, stage, now)]),
        manifestations: rows.manifestations + written_rows(manifestation_steps(event, stage)),
    }
}

/// The tables once an event was removed.
pub open spec fn after_event_removal(rows: EventRows, id: u128) -> EventRows {
    EventRows {
        heads: rows_without(rows.heads, 0, uuid_text(id)),
        manifestations: rows_without(rows.manifestations, 1, uuid_text(id)),
    }
}

/// The rows of an event that its query finds, in the columns that it asks for.
pub open spec fn found_events(rows: EventRows, id: u128) -> Seq<Seq<SqlView>> {
    rows_with(rows.heads, 0, uuid_text(id)).map_values(|row: Seq<SqlView>| row.take(3))
}

/// The manifestations of an event that the query for them finds.
pub open spec fn found_manifestations(rows: EventRows, id: u128) -> Seq<Seq<SqlView>> {
    rows_with(rows.manifestations, 1, uuid_text(id))
}

/// Whether what is found of an event is the same in other tables.
pub open spec fn event_found_alike(a: EventRows, b: EventRows, id: u128) -> bool {
    &&& found_events(a, id) == found_events(b, id)
    &&& found_manifestations(a, id) == found_manifestations(b, id)
}

proof fn lemma_event_written(event: Event, stage: EventStage, now: int)
    ensures
        ({
            let head = written_rows(seq![event_step(event, stage, now)]);
            let manifestations = written_rows(manifestation_steps(event, stage));
            &&& head.len() == 1
            &&& all_with(head, 0, uuid_text(event.id.value))
            &&& head[0].take(3) == head_columns(event)
            &&& all_with(manifestations, 1, uuid_text(event.id.value))
            &&& manifestations.len() == event.manifestations.entries@.len()
            &&& forall|i: int|
                0 <= i < manifestations.len() ==> #[trigger] manifestations[i]
                    == manifestation_columns(event.id.value, event.manifestations.entries@[i])
        }),
{
    let head = written_rows(seq![event_step(event, stage, now)]);
    assert(head[0].take(3) =~= head_columns(event));
}

/// An event that was inserted where none has its identifier is found as it was written, with its
/// manifestations, so that it is read back, be it unprocessed or processed; what is found of every
/// other event stays as it was.
pub proof fn law_inserted_event_is_found(
    rows: EventRows,
    event: Event,
    stage: EventStage,
    now: int,
    other: u128,
)
    requires
        event.is_valid(),
        is_timed(event),
        found_events(rows, event.id.value).len() == 0,
        found_manifestations(rows, event.id.value).len() == 0,
    ensures
        ({
            let after = after_event_insert(rows, event, stage, now);
            &&& event_was_written(
                event,
                found_events(after, event.id.value),
                found_manifestations(after, event.id.value),
                in_order(event.manifestations.entries@.len()),
            )
            &&& other != event.id.value ==> event_found_alike(after, rows, other)
        }),
{
    let id = uuid_text(event.id.value);
    let after = after_event_insert(rows, event, stage, now);
    let head = written_rows(seq![event_step(event, stage, now)]);
    let manifestations = written_rows(manifestation_steps(event, stage));
    law_identifiers_have_texts_of_their_own(event.id.value, other);
    lemma_event_written(event, stage, now);
    lemma_in_order(event.manifestations.entries@.len());
    lemma_added(rows.heads, head, 0, id);
    lemma_added(rows.manifestations, manifestations, 1, id);
    assert(found_manifestations(after, event.id.value) =~= manifestations);
    assert(found_events(after, event.id.value)[0] == head[0].take(3));
}

/// Nothing is found of an event that was removed; what is found of every other event stays as it was.
pub proof fn law_removed_event_is_gone(rows: EventRows, id: u128, other: u128)
    ensures
        found_events(after_event_removal(rows, id), id).len() == 0,
        found_manifestations(after_event_removal(rows, id), id).len() == 0,
        other != id ==> event_found_alike(after_event_removal(rows, id), rows, other),
{
    law_identifiers_have_texts_of_their_own(id, other);
    lemma_deleted(rows.heads, 0, uuid_text(id));
    lemma_deleted(rows.manifestations, 1, uuid_text(id));
}

}
