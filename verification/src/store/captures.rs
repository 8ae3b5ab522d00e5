//! What stands in the table of measurements after some were captured.
use crate::decimal::{
    decimal_text,
    lemma_same_value_transitive,
    lemma_sum_value,
    Decimal,
    DecimalView,
};
use crate::ids::TxId;
use crate::measurement::InputMeasurement;
use crate::sql::{SqlView, StatementView};
use crate::store::measurements::{
    all_captured,
    all_writable,
    average,
    changed_values,
    input_views,
    insert_one,
    is_half_of_sum,
    new_rows,
    settled_so_far,
    stored_values,
    update_one,
    Settled,
};
use crate::table::{distinct_keys, has_key, lemma_entry_found, Entry, Table};
use crate::text::{int_text, law_integers_are_read_back, signed_of};
use vstd::prelude::*;

verus! {

/// A row of the table of measurements.
pub struct KeptMeasurement {
    pub id: SqlView,
    pub dataset: SqlView,
    pub instant: Option<int>,
    pub value: SqlView,
}

/// The instant that stands in the column of instants, which is one of integers: a text that writes
/// an integer stands there as that integer.
pub open spec fn instant_in(v: SqlView) -> Option<int> {
    match v {
        SqlView::Integer(n) => Some(n),
        SqlView::Text(s) => signed_of(s, i64::MIN as int, i64::MAX as int),
        _ => None,
    }
}

/// The row as which the values of an insertion stand in the table.
pub open spec fn kept_row(values: Seq<SqlView>) -> KeptMeasurement {
    KeptMeasurement {
        id: values[0],
        dataset: values[1],
        instant: instant_in(values[2]),
        value: values[3],
    }
}

pub open spec fn kept_rows(rows: Seq<Seq<SqlView>>) -> Seq<KeptMeasurement> {
    Seq::new(rows.len(), |i: int| kept_row(rows[i]))
}

/// The table once rows were inserted.
pub open spec fn after_inserting(kept: Seq<KeptMeasurement>, rows: Seq<Seq<SqlView>>) -> Seq<
    KeptMeasurement,
> {
    kept + kept_rows(rows)
}

/// The table once the rows at an instant were given another value: the first parameter of the
/// statement is the value, the second the instant.
pub open spec fn after_updating(kept: Seq<KeptMeasurement>, params: Seq<SqlView>) -> Seq<
    KeptMeasurement,
> {
    Seq::new(
        kept.len(),
        |i: int|
            if kept[i].instant == instant_in(params[1]) {
                KeptMeasurement { value: params[0], ..kept[i] }
            } else {
                kept[i]
            },
    )
}

/// The table once statements that give other values were carried out in turn.
pub open spec fn after_all_updates(kept: Seq<KeptMeasurement>, statements: Seq<StatementView>) -> Seq<
    KeptMeasurement,
>
    decreases statements.len(),
{
    if statements.len() == 0 {
        kept
    } else {
        after_updating(
            after_all_updates(kept, statements.drop_last()),
            statements.last().params,
        )
    }
}

/// The values that stand in the table at an instant.
pub open spec fn values_at(kept: Seq<KeptMeasurement>, t: int) -> Seq<SqlView> {
    kept.filter(|m: KeptMeasurement| m.instant == Some(t)).map_values(
        |m: KeptMeasurement| m.value,
    )
}

/// A value as it stands in the table.
pub open spec fn stored_text(value: DecimalView) -> SqlView {
    SqlView::Text(decimal_text(value.mantissa, value.scale))
}

/// Whether the table holds exactly the values at their instants, each once.
pub open spec fn holds_exactly(kept: Seq<KeptMeasurement>, values: Map<int, DecimalView>) -> bool {
    forall|t: int| #[trigger]
        values_at(kept, t) == if values.dom().contains(t) {
            seq![stored_text(values[t])]
        } else {
            seq![]
        }
}

proof fn lemma_values_added(kept: Seq<KeptMeasurement>, more: Seq<KeptMeasurement>, t: int)
    ensures
        values_at(kept + more, t) == values_at(kept, t) + values_at(more, t),
{
    let at = |m: KeptMeasurement| m.instant == Some(t);
    Seq::filter_distributes_over_add(kept, more, at);
    assert(values_at(kept + more, t) =~= values_at(kept, t) + values_at(more, t));
}

proof fn lemma_value_pushed(kept: Seq<KeptMeasurement>, m: KeptMeasurement, t: int)
    ensures
        values_at(kept.push(m), t) == if m.instant == Some(t) {
            values_at(kept, t).push(m.value)
        } else {
            values_at(kept, t)
        },
{
    reveal(Seq::filter);
    assert(kept.push(m).drop_last() =~= kept);
    assert(values_at(kept.push(m), t) =~= if m.instant == Some(t) {
        values_at(kept, t).push(m.value)
    } else {
        values_at(kept, t)
    });
}

/// The rows at an instant are given the value, and no others.
proof fn lemma_values_updated(kept: Seq<KeptMeasurement>, params: Seq<SqlView>, u: int, t: int)
    requires
        instant_in(params[1]) == Some(u),
    ensures
        t == u ==> values_at(after_updating(kept, params), t) == Seq::new(
            values_at(kept, t).len(),
            |i: int| params[0],
        ),
        t != u ==> values_at(after_updating(kept, params), t) == values_at(kept, t),
    decreases kept.len(),
{
    let after = after_updating(kept, params);
    if kept.len() > 0 {
        let rest = kept.drop_last();
        lemma_values_updated(rest, params, u, t);
        assert(after.drop_last() =~= after_updating(rest, params));
        assert(kept =~= rest.push(kept.last()));
        assert(after =~= after_updating(rest, params).push(after.last()));
        lemma_value_pushed(rest, kept.last(), t);
        lemma_value_pushed(after_updating(rest, params), after.last(), t);
        if t == u {
            assert(values_at(after, t) =~= Seq::new(
                values_at(kept, t).len(),
                |i: int| params[0],
            ));
        }
    } else {
        reveal(Seq::filter);
        assert(after =~= kept);
        assert(values_at(kept, t).len() == 0);
        assert(values_at(after, t) =~= Seq::new(values_at(kept, t).len(), |i: int| params[0]));
    }
}

/// The row that is inserted for an entry stands at its instant, with its value.
proof fn lemma_row_stands(id: SqlView, dataset: SqlView, t: i64, value: SqlView)
    ensures
        kept_row(seq![id, dataset, SqlView::Text(int_text(t as int)), value]) == (KeptMeasurement {
            id,
            dataset,
            instant: Some(t as int),
            value,
        }),
{
    law_integers_are_read_back(t as int, i64::MIN as int, i64::MAX as int);
}

/// Of the rows that are inserted, the one at an instant holds what the instant gets; there is none
/// at an instant that has a value already, or that gets none.
proof fn lemma_new_values(
    entries: Seq<Entry<i64, Settled>>,
    existing: Set<i64>,
    dataset: u128,
    tx_ids: Seq<TxId>,
    t: int,
)
    requires
        distinct_keys(entries),
    ensures
        ({
            let values = values_at(kept_rows(new_rows(entries, existing, dataset, tx_ids)), t);
            &&& forall|i: int|
                0 <= i < entries.len() && (#[trigger] entries[i]).key == t && !existing.contains(
                    entries[i].key,
                ) ==> values == seq![stored_text(entries[i].value.value@)]
            &&& (forall|i: int|
                0 <= i < entries.len() ==> (#[trigger] entries[i]).key != t || existing.contains(
                    entries[i].key,
                )) ==> values.len() == 0
        }),
    decreases entries.len(),
{
    let rows = new_rows(entries, existing, dataset, tx_ids);
    if entries.len() > 0 {
        let e = entries.last();
        let rest = entries.drop_last();
        let before = new_rows(rest, existing, dataset, tx_ids);
        assert forall|i: int, j: int| 0 <= i < j < rest.len() implies (
        #[trigger] rest[i]).key@ != (#[trigger] rest[j]).key@ by {
            assert(entries[i].key@ != entries[j].key@);
        }
        lemma_new_values(rest, existing, dataset, tx_ids, t);
        let earlier = values_at(kept_rows(before), t);
        if e.key == t {
            assert forall|i: int| 0 <= i < rest.len() implies (#[trigger] rest[i]).key != t
                || existing.contains(rest[i].key) by {
                assert(entries[i].key@ != entries[entries.len() - 1].key@);
            }
            assert(earlier.len() == 0);
        }
        if !existing.contains(e.key) {
            lemma_row_stands(
                rows.last()[0],
                rows.last()[1],
                e.key,
                stored_text(e.value.value@),
            );
            assert(rows.last() =~= seq![
                rows.last()[0],
                rows.last()[1],
                SqlView::Text(int_text(e.key as int)),
                stored_text(e.value.value@),
            ]);
            assert(kept_rows(rows) =~= kept_rows(before).push(kept_row(rows.last())));
            lemma_value_pushed(kept_rows(before), kept_row(rows.last()), t);
        }
        let values = values_at(kept_rows(rows), t);
        assert forall|i: int|
            0 <= i < entries.len() && (#[trigger] entries[i]).key == t && !existing.contains(
                entries[i].key,
            ) implies values == seq![stored_text(entries[i].value.value@)] by {
            if i < rest.len() {
                assert(rest[i] == entries[i]);
                assert(entries[i].key@ != entries[entries.len() - 1].key@);
            } else {
                assert(values =~= seq![stored_text(e.value.value@)]);
            }
        }
        if forall|i: int|
            0 <= i < entries.len() ==> (#[trigger] entries[i]).key != t || existing.contains(
                entries[i].key,
            ) {
            assert forall|i: int| 0 <= i < rest.len() implies (#[trigger] rest[i]).key != t
                || existing.contains(rest[i].key) by {
                assert(rest[i] == entries[i]);
            }
            assert(entries[entries.len() - 1] == e);
        }
    } else {
        reveal(Seq::filter);
        assert(kept_rows(rows).len() == 0);
        assert(values_at(kept_rows(rows), t).len() == 0);
    }
}

/// The statements that give other values do so at the instants that have one already, each the value
/// that its instant gets, and at no others.
proof fn lemma_changed_values(
    kept: Seq<KeptMeasurement>,
    entries: Seq<Entry<i64, Settled>>,
    existing: Set<i64>,
    t: int,
)
    requires
        distinct_keys(entries),
    ensures
        ({
            let after = values_at(after_all_updates(kept, changed_values(entries, existing)), t);
            &&& forall|i: int|
                0 <= i < entries.len() && (#[trigger] entries[i]).key == t && existing.contains(
                    entries[i].key,
                ) ==> after == Seq::new(
                    values_at(kept, t).len(),
                    |k: int| stored_text(entries[i].value.value@),
                )
            &&& (forall|i: int|
                0 <= i < entries.len() ==> (#[trigger] entries[i]).key != t || !existing.contains(
                    entries[i].key,
                )) ==> after == values_at(kept, t)
        }),
    decreases entries.len(),
{
    let changes = changed_values(entries, existing);
    if entries.len() > 0 {
        let e = entries.last();
        let rest = entries.drop_last();
        let before = changed_values(rest, existing);
        assert forall|i: int, j: int| 0 <= i < j < rest.len() implies (
        #[trigger] rest[i]).key@ != (#[trigger] rest[j]).key@ by {
            assert(entries[i].key@ != entries[j].key@);
        }
        lemma_changed_values(kept, rest, existing, t);
        let earlier = after_all_updates(kept, before);
        if e.key == t {
            assert forall|i: int| 0 <= i < rest.len() implies (#[trigger] rest[i]).key != t
                || !existing.contains(rest[i].key) by {
                assert(entries[i].key@ != entries[entries.len() - 1].key@);
            }
            assert(values_at(earlier, t) == values_at(kept, t));
        }
        if existing.contains(e.key) {
            assert(changes.drop_last() =~= before);
            lemma_values_updated(
                earlier,
                update_one(e.key as int, e.value.value@).params,
                e.key as int,
                t,
            );
        }
        let after = values_at(after_all_updates(kept, changes), t);
        assert forall|i: int|
            0 <= i < entries.len() && (#[trigger] entries[i]).key == t && existing.contains(
                entries[i].key,
            ) implies after == Seq::new(
            values_at(kept, t).len(),
            |k: int| stored_text(entries[i].value.value@),
        ) by {
            if i < rest.len() {
                assert(rest[i] == entries[i]);
                assert(entries[i].key@ != entries[entries.len() - 1].key@);
            } else {
                assert(after =~= Seq::new(
                    values_at(kept, t).len(),
                    |k: int| stored_text(entries[i].value.value@),
                ));
            }
        }
        if forall|i: int|
            0 <= i < entries.len() ==> (#[trigger] entries[i]).key != t || !existing.contains(
                entries[i].key,
            ) {
            assert forall|i: int| 0 <= i < rest.len() implies (#[trigger] rest[i]).key != t
                || !existing.contains(rest[i].key) by {
                assert(rest[i] == entries[i]);
            }
            assert(entries[entries.len() - 1] == e);
        }
    }
}

/// Whether one of the measurements is at an instant.
pub open spec fn is_among(inputs: Seq<InputMeasurement>, t: int) -> bool {
    exists|k: int| 0 <= k < inputs.len() && (#[trigger] inputs[k]).timestamp.spec_millis() == t
}

/// The table once measurements were captured together, by what was settled for their instants.
pub open spec fn after_capturing(
    kept: Seq<KeptMeasurement>,
    existing: Set<i64>,
    settled: Seq<Entry<i64, Settled>>,
    dataset: u128,
    tx_ids: Seq<TxId>,
) -> Seq<KeptMeasurement> {
    after_all_updates(
        after_inserting(kept, new_rows(settled, existing, dataset, tx_ids)),
        changed_values(settled, existing),
    )
}

/// Whether the table has one value at each instant of measurements of which a stored value is given,
/// and none at their other instants.
pub open spec fn is_looked_up(
    kept: Seq<KeptMeasurement>,
    existing: Set<i64>,
    inputs: Seq<InputMeasurement>,
) -> bool {
    forall|k: int|
        0 <= k < inputs.len() ==> values_at(
            kept,
            (#[trigger] inputs[k]).timestamp.spec_millis(),
        ).len() == if existing.contains(inputs[k].timestamp.spec_millis() as i64) {
            1nat
        } else {
            0nat
        }
}

/// Measurements that are captured together leave one value at each of their instants: the one that
/// capturing them in turn gives it. At every other instant the table stays as it was.
pub proof fn law_measurements_captured_together_are_kept(
    kept: Seq<KeptMeasurement>,
    existing: Map<i64, Decimal>,
    settled: Table<i64, Settled>,
    inputs: Seq<InputMeasurement>,
    dataset: u128,
    tx_ids: Seq<TxId>,
    t: int,
)
    requires
        settled.is_valid(),
        all_writable(inputs),
        settled_so_far(stored_values(existing), inputs, inputs.len() as int, settled@),
        is_looked_up(kept, existing.dom(), inputs),
    ensures
        ({
            let after = after_capturing(
                kept,
                existing.dom(),
                settled.entries@,
                dataset,
                tx_ids,
            );
            let wanted = all_captured(stored_values(existing), input_views(inputs));
            if is_among(inputs, t) {
                wanted.dom().contains(t) && values_at(after, t) == seq![stored_text(wanted[t])]
            } else {
                values_at(after, t) == values_at(kept, t)
            }
        }),
{
    let entries = settled.entries@;
    let known = existing.dom();
    let rows = new_rows(entries, known, dataset, tx_ids);
    let inserted = after_inserting(kept, rows);
    let after = after_capturing(kept, known, entries, dataset, tx_ids);
    let wanted = all_captured(stored_values(existing), input_views(inputs));
    assert(input_views(inputs).take(inputs.len() as int) =~= input_views(inputs));
    lemma_values_added(kept, kept_rows(rows), t);
    lemma_new_values(entries, known, dataset, tx_ids, t);
    lemma_changed_values(inserted, entries, known, t);
    if is_among(inputs, t) {
        let k = choose|k: int|
            0 <= k < inputs.len() && (#[trigger] inputs[k]).timestamp.spec_millis() == t;
        assert(settled@.dom().contains(inputs[k].timestamp.spec_millis() as i64));
        assert(inputs[k].timestamp.is_valid());
        let key = t as i64;
        assert(has_key(entries, key));
        let i = choose|i: int| 0 <= i < entries.len() && (#[trigger] entries[i]).key@ == key;
        lemma_entry_found(entries, i);
        assert(entries[i].value.value@ == wanted[t]);
        if known.contains(key) {
            assert forall|j: int| 0 <= j < entries.len() implies (#[trigger] entries[j]).key != t
                || known.contains(entries[j].key) by {}
            assert(values_at(kept_rows(rows), t).len() == 0);
            assert(values_at(inserted, t).len() == 1);
            assert(values_at(after, t) =~= seq![stored_text(wanted[t])]);
        } else {
            assert(values_at(kept_rows(rows), t) == seq![stored_text(wanted[t])]);
            assert(values_at(inserted, t) =~= seq![stored_text(wanted[t])]);
            assert forall|j: int| 0 <= j < entries.len() implies (#[trigger] entries[j]).key != t
                || !known.contains(entries[j].key) by {}
        }
    } else {
        assert forall|j: int| 0 <= j < entries.len() implies (#[trigger] entries[j]).key != t by {
            lemma_entry_found(entries, j);
            assert(settled@.dom().contains(entries[j].key));
            let first = settled@[entries[j].key].first as int;
            assert(inputs[first].timestamp.spec_millis() == entries[j].key);
        }
        assert(values_at(inserted, t) =~= values_at(kept, t));
    }
}

/// Where the table holds exactly the given values, it holds exactly those that capturing the
/// measurements in turn gives once they were captured together.
pub proof fn law_captured_values_are_held_exactly(
    kept: Seq<KeptMeasurement>,
    existing: Map<i64, Decimal>,
    settled: Table<i64, Settled>,
    inputs: Seq<InputMeasurement>,
    dataset: u128,
    tx_ids: Seq<TxId>,
)
    requires
        settled.is_valid(),
        all_writable(inputs),
        settled_so_far(stored_values(existing), inputs, inputs.len() as int, settled@),
        holds_exactly(kept, stored_values(existing)),
    ensures
        holds_exactly(
            after_capturing(kept, existing.dom(), settled.entries@, dataset, tx_ids),
            all_captured(stored_values(existing), input_views(inputs)),
        ),
{
    let stored = stored_values(existing);
    let after = after_capturing(kept, existing.dom(), settled.entries@, dataset, tx_ids);
    let wanted = all_captured(stored, input_views(inputs));
    assert(input_views(inputs).take(inputs.len() as int) =~= input_views(inputs));
    assert forall|k: int| 0 <= k < inputs.len() implies values_at(
        kept,
        (#[trigger] inputs[k]).timestamp.spec_millis(),
    ).len() == if existing.dom().contains(inputs[k].timestamp.spec_millis() as i64) {
        1nat
    } else {
        0nat
    } by {
        assert(inputs[k].timestamp.is_valid());
        let t = inputs[k].timestamp.spec_millis();
        assert(stored.dom().contains(t) <==> existing.dom().contains(t as i64));
        assert(values_at(kept, t) == if stored.dom().contains(t) {
            seq![stored_text(stored[t])]
        } else {
            seq![]
        });
    }
    assert forall|t: int| #[trigger] values_at(after, t) == if wanted.dom().contains(t) {
        seq![stored_text(wanted[t])]
    } else {
        seq![]
    } by {
        law_measurements_captured_together_are_kept(
            kept,
            existing,
            settled,
            inputs,
            dataset,
            tx_ids,
            t,
        );
        if !is_among(inputs, t) {
            assert(values_at(kept, t) == if stored.dom().contains(t) {
                seq![stored_text(stored[t])]
            } else {
                seq![]
            });
            assert(!(i64::MIN <= t <= i64::MAX && settled@.dom().contains(t as i64))) by {
                if i64::MIN <= t <= i64::MAX && settled@.dom().contains(t as i64) {
                    let first = settled@[t as i64].first as int;
                    assert(inputs[first].timestamp.spec_millis() == t);
                }
            }
            assert(wanted.dom().contains(t) <==> stored.dom().contains(t));
        }
    }
}

/// A measurement that is captured at an instant without a value is kept there. One that is captured
/// there afterwards leaves one value, the average of the two: of what the first reads as, which has
/// its value, and of the second. Where the average is the half of their sum, it is the half of the
/// sum of the two as they were given. At every other instant the table stays as it was.
pub proof fn law_capturing_twice_keeps_the_average(
    kept: Seq<KeptMeasurement>,
    id: u128,
    dataset: u128,
    t: int,
    first: DecimalView,
    read: DecimalView,
    second: DecimalView,
    other: int,
)
    requires
        values_at(kept, t).len() == 0,
        read.same_value(first),
    ensures
        ({
            let once = after_inserting(kept, seq![insert_one(id, dataset, t, first).params]);
            let twice = after_updating(once, update_one(t, average(read, second)).params);
            &&& values_at(once, t) == seq![stored_text(first)]
            &&& values_at(twice, t) == seq![stored_text(average(read, second))]
            &&& other != t ==> values_at(once, other) == values_at(kept, other) && values_at(
                twice,
                other,
            ) == values_at(kept, other)
        }),
        is_half_of_sum(average(read, second), read, second) ==> is_half_of_sum(
            average(read, second),
            first,
            second,
        ),
{
    let params = insert_one(id, dataset, t, first).params;
    let once = after_inserting(kept, seq![params]);
    let update = update_one(t, average(read, second)).params;
    assert(once =~= kept.push(kept_row(params)));
    lemma_value_pushed(kept, kept_row(params), t);
    lemma_value_pushed(kept, kept_row(params), other);
    assert(values_at(once, t) =~= seq![stored_text(first)]);
    lemma_values_updated(once, update, t, t);
    lemma_values_updated(once, update, t, other);
    assert(values_at(after_updating(once, update), t) =~= seq![
        stored_text(average(read, second)),
    ]);
    if is_half_of_sum(average(read, second), read, second) {
        let doubled = average(read, second).times(crate::decimal::whole(2));
        lemma_sum_value(read, second, first, second);
        lemma_same_value_transitive(doubled, read.plus(second), first.plus(second));
    }
}

}
