//! What is picked out of lists, added up from them, or written of them.
use crate::aspect::{dictionaries_in, DirectoryFile};
use crate::backup::{sum_bytes, sum_counts, user_names, SnapshotReport};
use crate::batch::Batch;
use crate::catalog::CatalogView;
use crate::compression::{compressed, originals, CompressionResult};
use crate::correlation::{of_event, of_event_name, rates_of, signal_name, Correlation, KeyedRate};
use crate::decimal::{whole, DecimalView};
use crate::ids::{uuid_parse, uuid_text, PatternID, TxId};
use crate::laws::dictionaries::divides_evenly;
use crate::measurement::PointView;
use crate::paths::{has_db_extension, without_db};
use crate::pattern::OccurrenceView;
use crate::store::batches::{chunk_refusal, first_refused};
use crate::registry::{aspect_count, named_like, DatabaseInfo, SubjectView};
use crate::sql::{bulk_statement, flat, repeated, SqlValue, SqlView};
use crate::store::correlations::{by_place, ids_among, rate_read, rates_read};
use crate::store::measurements::{
    all_captured,
    captured,
    changed_values,
    measurement_row,
    new_rows,
    update_one,
    Settled,
};
use crate::store::occurrences::{first_unfit, unfit_message, PlacedOccurrence};
use crate::table::{Entry, PairKey};
use crate::text::{doubled, occurs_in, starts_with};
use vstd::prelude::*;

verus! {

/// The correlations of an event are those that are kept for it, each with its pattern, in the order
/// in which they are kept: of one entry it is that entry or nothing, and of entries in a row they
/// follow each other.
pub proof fn law_correlations_of_an_event_are_its_own(
    a: Seq<Entry<PairKey, Correlation>>,
    b: Seq<Entry<PairKey, Correlation>>,
    entry: Entry<PairKey, Correlation>,
    event: u128,
)
    ensures
        of_event(a + b, event) == of_event(a, event) + of_event(b, event),
        entry.key.first == event ==> of_event(seq![entry], event) == seq![
            (PatternID { value: entry.key.second }, entry.value),
        ],
        entry.key.first != event ==> of_event(seq![entry], event).len() == 0,
    decreases b.len(),
{
    reveal_with_fuel(of_event, 2);
    assert(seq![entry].drop_last() =~= Seq::empty());
    if b.len() == 0 {
        assert(a + b =~= a);
        assert(of_event(a, event) + of_event(b, event) =~= of_event(a, event));
    } else {
        law_correlations_of_an_event_are_its_own(a, b.drop_last(), entry, event);
        assert((a + b).drop_last() =~= a + b.drop_last());
        assert((a + b).last() == b.last());
        assert(of_event(a + b, event) =~= of_event(a, event) + of_event(b, event));
    }
}

/// The correlations of an event by the text of its identifier are those by the identifier, for
/// identifiers that are kept.
pub proof fn law_an_event_is_named_by_its_identifier(
    entries: Seq<Entry<PairKey, Correlation>>,
    event: u128,
)
    requires
        forall|i: int|
            0 <= i < entries.len() ==> (uuid_text((#[trigger] entries[i]).key.first) == uuid_text(
                event,
            ) ==> entries[i].key.first == event),
    ensures
        of_event_name(entries, uuid_text(event)) == of_event(entries, event),
    decreases entries.len(),
{
    if entries.len() > 0 {
        let rest = entries.drop_last();
        assert(entries.last() == entries[entries.len() - 1]);
        assert forall|i: int|
            0 <= i < rest.len() && uuid_text((#[trigger] rest[i]).key.first) == uuid_text(
                event,
            ) implies rest[i].key.first == event by {
            assert(rest[i] == entries[i]);
        }
        law_an_event_is_named_by_its_identifier(rest, event);
    }
}

/// Of rates with keys, the one that comes last under a name counts, and no other name is known.
pub proof fn law_the_later_rate_counts(s: Seq<KeyedRate>, keyed: KeyedRate, name: Seq<char>)
    ensures
        rates_of(seq![]).dom().len() == 0,
        rates_of(s.push(keyed)).dom().contains(name) <==> rates_of(s).dom().contains(name)
            || name == signal_name(keyed.key@)->0,
        name == signal_name(keyed.key@)->0 ==> rates_of(s.push(keyed))[name] == keyed.rate,
        name != signal_name(keyed.key@)->0 && rates_of(s).dom().contains(name) ==> rates_of(
            s.push(keyed),
        )[name] == rates_of(s)[name],
{
    assert(s.push(keyed).drop_last() =~= s);
    assert(rates_of(seq![]).dom() =~= Set::empty());
}

/// The tables of the user are all tables but those whose names begin as the names of the engine do,
/// in their order.
pub proof fn law_user_tables_are_all_but_those_of_the_engine(
    a: Seq<SqlValue>,
    b: Seq<SqlValue>,
    value: SqlValue,
    name: Seq<char>,
)
    requires
        value@ == SqlView::Text(name),
    ensures
        user_names(a + b) == user_names(a) + user_names(b),
        starts_with(name, "sqlite_"@) || starts_with(name, "__turso_"@) ==> user_names(
            seq![value],
        ).len() == 0,
        !starts_with(name, "sqlite_"@) && !starts_with(name, "__turso_"@) ==> user_names(
            seq![value],
        ) == seq![name],
    decreases b.len(),
{
    reveal_with_fuel(user_names, 2);
    assert(seq![value].drop_last() =~= Seq::empty());
    if b.len() == 0 {
        assert(a + b =~= a);
        assert(user_names(a) + user_names(b) =~= user_names(a));
    } else {
        law_user_tables_are_all_but_those_of_the_engine(a, b.drop_last(), value, name);
        assert((a + b).drop_last() =~= a + b.drop_last());
        assert((a + b).last() == b.last());
        assert(user_names(a + b) =~= user_names(a) + user_names(b));
    }
}

/// The databases that are found by a part of their name are all whose names hold it, in their order.
pub proof fn law_databases_are_found_by_a_part_of_their_name(
    a: Seq<DatabaseInfo>,
    b: Seq<DatabaseInfo>,
    info: DatabaseInfo,
    pattern: Seq<char>,
)
    ensures
        named_like(a + b, pattern) == named_like(a, pattern) + named_like(b, pattern),
        occurs_in(info.name@, pattern) ==> named_like(seq![info], pattern) == seq![
            (info.id, info.name),
        ],
        !occurs_in(info.name@, pattern) ==> named_like(seq![info], pattern).len() == 0,
    decreases b.len(),
{
    reveal_with_fuel(named_like, 2);
    assert(seq![info].drop_last() =~= Seq::empty());
    if b.len() == 0 {
        assert(a + b =~= a);
        assert(named_like(a, pattern) + named_like(b, pattern) =~= named_like(a, pattern));
    } else {
        law_databases_are_found_by_a_part_of_their_name(a, b.drop_last(), info, pattern);
        assert((a + b).drop_last() =~= a + b.drop_last());
        assert((a + b).last() == b.last());
        assert(named_like(a + b, pattern) =~= named_like(a, pattern) + named_like(b, pattern));
    }
}

/// The counts of two lists together are those of both: no table is left out or counted twice.
pub proof fn law_counts_add_up(a: Seq<i64>, b: Seq<i64>, n: i64)
    ensures
        sum_counts(seq![n]) == n,
        sum_counts(a + b) == sum_counts(a) + sum_counts(b),
    decreases b.len(),
{
    reveal_with_fuel(sum_counts, 2);
    assert(seq![n].drop_last() =~= Seq::empty());
    if b.len() == 0 {
        assert(a + b =~= a);
    } else {
        law_counts_add_up(a, b.drop_last(), n);
        assert((a + b).drop_last() =~= a + b.drop_last());
        assert((a + b).last() == b.last());
    }
}

/// The sizes of two lists of reports together are those of both.
pub proof fn law_sizes_add_up(
    a: Seq<SnapshotReport>,
    b: Seq<SnapshotReport>,
    report: SnapshotReport,
)
    ensures
        sum_bytes(seq![report]) == report.bytes,
        sum_bytes(a + b) == sum_bytes(a) + sum_bytes(b),
    decreases b.len(),
{
    reveal_with_fuel(sum_bytes, 2);
    assert(seq![report].drop_last() =~= Seq::empty());
    if b.len() == 0 {
        assert(a + b =~= a);
    } else {
        law_sizes_add_up(a, b.drop_last(), report);
        assert((a + b).drop_last() =~= a + b.drop_last());
        assert((a + b).last() == b.last());
    }
}

/// The aspects of two lists of subjects together are as many as those of both.
pub proof fn law_aspects_add_up(a: Seq<SubjectView>, b: Seq<SubjectView>, subject: SubjectView)
    ensures
        aspect_count(seq![subject]) == subject.aspects.len(),
        aspect_count(a + b) == aspect_count(a) + aspect_count(b),
    decreases b.len(),
{
    reveal_with_fuel(aspect_count, 2);
    assert(seq![subject].drop_last() =~= Seq::empty());
    if b.len() == 0 {
        assert(a + b =~= a);
    } else {
        law_aspects_add_up(a, b.drop_last(), subject);
        assert((a + b).drop_last() =~= a + b.drop_last());
        assert((a + b).last() == b.last());
    }
}

/// What is registered shows in what is asked for, and nothing else changes: after registering a
/// subject it is there, after removing it or its database it is not, and every other subject is
/// there exactly if it was before.
pub proof fn law_the_catalog_shows_what_was_registered(
    c: CatalogView,
    database: Seq<char>,
    subject: Seq<char>,
    other_database: Seq<char>,
    other: Seq<char>,
)
    requires
        c.is_sound(),
        c.databases.contains(database),
    ensures
        c.with_subject(database, subject).has_subject(database, subject),
        !c.without_subject(database, subject).has_subject(database, subject),
        !c.without_database(database).has_subject(database, other),
        !c.without_database(database).databases.contains(database),
        (other_database, other) != (database, subject) ==> {
            &&& c.with_subject(database, subject).has_subject(other_database, other)
                == c.has_subject(other_database, other)
            &&& c.without_subject(database, subject).has_subject(other_database, other)
                == c.has_subject(other_database, other)
        },
        other_database != database ==> c.without_database(database).has_subject(
            other_database,
            other,
        ) == c.has_subject(other_database, other),
        c.with_subject(database, subject).databases == c.databases,
        c.without_subject(database, subject).databases == c.databases,
{
}

/// A database that is registered anew has no subjects, and all others have those that they had.
pub proof fn law_a_new_database_is_empty(
    c: CatalogView,
    name: Seq<char>,
    database: Seq<char>,
    subject: Seq<char>,
)
    requires
        c.is_sound(),
    ensures
        c.with_database(name).databases.contains(name),
        c.with_database(name).has_subject(database, subject) == c.has_subject(database, subject),
        database != name ==> c.with_database(name).databases.contains(database)
            == c.databases.contains(database),
{
}

/// A statement for several rows binds the leading values first and then those of each row in turn,
/// and repeats the group of places once for each row, with commas between.
pub proof fn law_rows_are_bound_in_turn(
    prefix: Seq<char>,
    group: Seq<char>,
    suffix: Seq<char>,
    lead: Seq<SqlView>,
    rows: Seq<Seq<SqlView>>,
    row: Seq<SqlView>,
)
    ensures
        bulk_statement(prefix, group, suffix, lead, seq![row]).sql == prefix + group + suffix,
        bulk_statement(prefix, group, suffix, lead, seq![row]).params == lead + row,
        rows.len() > 0 ==> bulk_statement(prefix, group, suffix, lead, rows.push(row)).sql.len()
            == bulk_statement(prefix, group, suffix, lead, rows).sql.len() + 2 + group.len(),
        bulk_statement(prefix, group, suffix, lead, rows.push(row)).params == bulk_statement(
            prefix,
            group,
            suffix,
            lead,
            rows,
        ).params + row,
        rows.len() > 0 ==> repeated(group, rows.len() + 1) == repeated(group, rows.len()) + ", "@
            + group,
{
    reveal_with_fuel(flat, 2);
    reveal_strlit(", ");
    assert(seq![row].drop_last() =~= Seq::empty());
    assert(flat(seq![row]) =~= row);
    assert(rows.push(row).drop_last() =~= rows);
    assert(lead + flat(rows.push(row)) =~= (lead + flat(rows)) + row);
}

/// A text that is doubled reads back: every quote stands twice, and every other character once, in
/// their order.
pub proof fn law_doubled_quotes_are_told_apart(s: Seq<char>, c: char, quote: char)
    ensures
        doubled(seq![], quote).len() == 0,
        c == quote ==> doubled(s.push(c), quote) == doubled(s, quote) + seq![quote, quote],
        c != quote ==> doubled(s.push(c), quote) == doubled(s, quote).push(c),
{
    assert(s.push(c).drop_last() =~= s);
    if c == quote {
        assert(doubled(s.push(c), quote) =~= doubled(s, quote) + seq![quote, quote]);
    }
}

/// The measurements before and after a compression are counted over all ranges, each once.
pub proof fn law_compressed_measurements_add_up(
    a: Seq<CompressionResult>,
    b: Seq<CompressionResult>,
    result: CompressionResult,
)
    ensures
        originals(seq![result]) == result.original_count,
        compressed(seq![result]) == result.compressed_count,
        originals(a + b) == originals(a) + originals(b),
        compressed(a + b) == compressed(a) + compressed(b),
    decreases b.len(),
{
    reveal_with_fuel(originals, 2);
    reveal_with_fuel(compressed, 2);
    assert(seq![result].drop_last() =~= Seq::empty());
    if b.len() == 0 {
        assert(a + b =~= a);
    } else {
        law_compressed_measurements_add_up(a, b.drop_last(), result);
        assert((a + b).drop_last() =~= a + b.drop_last());
        assert((a + b).last() == b.last());
    }
}

/// The identifiers among values are all that are texts of one, in their order.
pub proof fn law_identifiers_are_picked_out(a: Seq<SqlView>, b: Seq<SqlView>, v: SqlView)
    ensures
        ids_among(a + b) == ids_among(a) + ids_among(b),
        v is Text && uuid_parse(v->Text_0) is Ok ==> ids_among(seq![v]) == seq![
            uuid_parse(v->Text_0)->Ok_0,
        ],
        !(v is Text && uuid_parse(v->Text_0) is Ok) ==> ids_among(seq![v]).len() == 0,
    decreases b.len(),
{
    reveal_with_fuel(ids_among, 2);
    assert(seq![v].drop_last() =~= Seq::empty());
    if b.len() == 0 {
        assert(a + b =~= a);
        assert(ids_among(a) + ids_among(b) =~= ids_among(a));
    } else {
        law_identifiers_are_picked_out(a, b.drop_last(), v);
        assert((a + b).drop_last() =~= a + b.drop_last());
        assert((a + b).last() == b.last());
        assert(ids_among(a + b) =~= ids_among(a) + ids_among(b));
    }
}

/// The files of a directory whose names end in the extension are its dictionaries, under their names
/// without it; the file that comes last under a name counts, and other files are passed over.
pub proof fn law_dictionaries_are_the_files_with_the_extension(
    files: Seq<DirectoryFile>,
    file: DirectoryFile,
    name: Seq<char>,
)
    ensures
        !has_db_extension(file.name@) ==> dictionaries_in(files.push(file)) == dictionaries_in(
            files,
        ),
        has_db_extension(file.name@) ==> dictionaries_in(files.push(file)).dom().contains(
            without_db(file.name@),
        ) && dictionaries_in(files.push(file))[without_db(file.name@)] == file.path,
        has_db_extension(file.name@) && name != without_db(file.name@) ==> (dictionaries_in(
            files.push(file),
        ).dom().contains(name) <==> dictionaries_in(files).dom().contains(name)) && dictionaries_in(
            files.push(file),
        )[name] == dictionaries_in(files)[name],
{
    assert(files.push(file).drop_last() =~= files);
}

/// The stretches by their places are all of them; of two at one place the later counts.
pub proof fn law_stretches_are_found_by_their_places(
    placed: Seq<PlacedOccurrence>,
    p: PlacedOccurrence,
    index: int,
)
    ensures
        by_place(placed.push(p)).dom().contains(index) <==> by_place(placed).dom().contains(index)
            || index == p.index,
        by_place(placed.push(p))[p.index as int] == p.occurrence@,
        index != p.index ==> by_place(placed.push(p))[index] == by_place(placed)[index],
{
    assert(placed.push(p).drop_last() =~= placed);
}

/// Of rows of rates, the one that comes last for a kind of signal counts.
pub proof fn law_the_later_row_of_a_rate_counts(
    rows: Seq<Seq<SqlView>>,
    row: Seq<SqlView>,
    name: Seq<char>,
)
    ensures
        rates_read(rows.push(row)).dom().contains(name) <==> rates_read(rows).dom().contains(name)
            || name == rate_read(row).0,
        rates_read(rows.push(row))[rate_read(row).0] == rate_read(row).1,
        name != rate_read(row).0 ==> rates_read(rows.push(row))[name] == rates_read(rows)[name],
{
    assert(rows.push(row).drop_last() =~= rows);
}

/// Whether an instant is to be added or changed is decided by whether it has a value already, and
/// by that alone: every settled instant is one or the other, once, with its value.
pub proof fn law_settled_instants_are_added_or_changed(
    entries: Seq<Entry<i64, Settled>>,
    e: Entry<i64, Settled>,
    existing: Set<i64>,
    dataset: u128,
    tx_ids: Seq<TxId>,
)
    ensures
        new_rows(seq![], existing, dataset, tx_ids).len() == 0,
        changed_values(seq![], existing).len() == 0,
        existing.contains(e.key) ==> {
            &&& new_rows(entries.push(e), existing, dataset, tx_ids) == new_rows(
                entries,
                existing,
                dataset,
                tx_ids,
            )
            &&& changed_values(entries.push(e), existing) == changed_values(
                entries,
                existing,
            ).push(update_one(e.key as int, e.value.value@))
        },
        !existing.contains(e.key) ==> {
            &&& new_rows(entries.push(e), existing, dataset, tx_ids) == new_rows(
                entries,
                existing,
                dataset,
                tx_ids,
            ).push(
                measurement_row(
                    tx_ids[e.value.first as int].value,
                    dataset,
                    e.key as int,
                    e.value.value@,
                ),
            )
            &&& changed_values(entries.push(e), existing) == changed_values(entries, existing)
        },
{
    assert(entries.push(e).drop_last() =~= entries);
}

/// Capturing a value at an instant that has one stores half the sum of both, wherever the division
/// comes out even, whichever came first; at any other instant it stores the value as it is. No other
/// instant changes.
pub proof fn law_captures_are_averaged(stored: Map<int, DecimalView>, m: PointView, t: int)
    requires
        stored.dom().contains(m.timestamp.spec_millis()) ==> divides_evenly(
            stored[m.timestamp.spec_millis()].plus(m.value),
            whole(2),
        ),
    ensures
        captured(stored, m).dom().contains(m.timestamp.spec_millis()),
        stored.dom().contains(m.timestamp.spec_millis()) ==> captured(
            stored,
            m,
        )[m.timestamp.spec_millis()].times(whole(2)).same_value(
            stored[m.timestamp.spec_millis()].plus(m.value),
        ),
        !stored.dom().contains(m.timestamp.spec_millis()) ==> captured(
            stored,
            m,
        )[m.timestamp.spec_millis()] == m.value,
        t != m.timestamp.spec_millis() ==> (captured(stored, m).dom().contains(t)
            <==> stored.dom().contains(t)) && captured(stored, m)[t] == stored[t],
{
}

/// Capturing several values is capturing one after the other, in their order.
pub proof fn law_captures_come_in_turn(
    stored: Map<int, DecimalView>,
    s: Seq<PointView>,
    m: PointView,
)
    ensures
        all_captured(stored, seq![]) == stored,
        all_captured(stored, s.push(m)) == captured(all_captured(stored, s), m),
{
    assert(s.push(m).drop_last() =~= s);
}

/// The first stretch that does not fit is the first one: all before it fit, and it does not. A
/// complaint is told exactly where one does not fit.
pub proof fn law_the_first_unfit_stretch_is_found(
    s: Seq<OccurrenceView>,
    is_placed: bool,
    i: int,
    k: int,
)
    requires
        0 <= i <= s.len(),
    ensures
        i <= first_unfit(s, is_placed, i) <= s.len(),
        i <= k < first_unfit(s, is_placed, i) ==> s[k].size <= i64::MAX && (is_placed ==> k
            <= i64::MAX),
        first_unfit(s, is_placed, i) < s.len() ==> !(s[first_unfit(s, is_placed, i)].size
            <= i64::MAX && (is_placed ==> first_unfit(s, is_placed, i) <= i64::MAX)),
        unfit_message(s, is_placed) is None <==> first_unfit(s, is_placed, 0) >= s.len(),
    decreases s.len() - i,
{
    if i < s.len() && (is_placed ==> i <= i64::MAX) && s[i].size <= i64::MAX {
        law_the_first_unfit_stretch_is_found(s, is_placed, i + 1, k);
    }
}

/// The first batch that is refused is the first one: all before it have sizes and numbers of
/// measurements that fit, and it has not.
pub proof fn law_the_first_refused_batch_is_found(batches: Seq<Batch>, i: int, k: int)
    requires
        0 <= i <= batches.len(),
    ensures
        i <= first_refused(batches, i) <= batches.len(),
        i <= k < first_refused(batches, i) ==> batches[k].metadata.size <= i64::MAX
            && batches[k].measurements.len() <= i64::MAX,
        first_refused(batches, i) < batches.len() ==> {
            let b = batches[first_refused(batches, i)];
            b.metadata.size > i64::MAX || b.measurements.len() > i64::MAX
        },
    decreases batches.len() - i,
{
    if i < batches.len() && chunk_refusal(batches[i]) is None {
        law_the_first_refused_batch_is_found(batches, i + 1, k);
    }
}

}
