//! In what order names, keys and measurements stand.
use crate::catalog::{key_before, KeyView};
use crate::measurement::MeasurementView;
use crate::names::{lemma_before_irreflexive, text_before};
use crate::store::readings::{has_id, in_order, joined_ends, put_in_order};
use vstd::prelude::*;

verus! {

/// Of two texts that begin alike, the one with the lower character at the first place where they
/// differ comes first, whatever follows; a text comes before every longer one that begins with it.
pub proof fn law_texts_are_ordered_where_they_differ(
    common: Seq<char>,
    c: char,
    a: Seq<char>,
    d: char,
    b: Seq<char>,
)
    ensures
        c != d ==> (text_before(common + seq![c] + a, common + seq![d] + b) <==> c < d),
        text_before(common, common + seq![c] + a),
        !text_before(common + seq![c] + a, common),
    decreases common.len(),
{
    let x = common + seq![c] + a;
    let y = common + seq![d] + b;
    if common.len() == 0 {
        assert(x[0] == c);
        assert(y[0] == d);
    } else {
        let rest = common.drop_first();
        law_texts_are_ordered_where_they_differ(rest, c, a, d, b);
        assert(x.drop_first() =~= rest + seq![c] + a);
        assert(y.drop_first() =~= rest + seq![d] + b);
        assert(x[0] == common[0] && y[0] == common[0]);
    }
}

/// Aspects stand in the order of their databases, those of one database in the order of their
/// subjects, and those of one subject in the order of their names.
pub proof fn law_aspects_are_ordered_by_their_keys(a: KeyView, b: KeyView)
    ensures
        text_before(a.database, b.database) ==> key_before(a, b),
        a.database == b.database && text_before(a.subject, b.subject) ==> key_before(a, b),
        a.database == b.database && a.subject == b.subject ==> (key_before(a, b) <==> text_before(
            a.aspect,
            b.aspect,
        )),
        key_before(a, b) ==> text_before(a.database, b.database) || a.database == b.database,
{
    lemma_before_irreflexive(a.database);
    lemma_before_irreflexive(a.subject);
}

/// The measurements at an instant.
pub open spec fn at_instant(s: Seq<MeasurementView>, t: int) -> Seq<MeasurementView>
    decreases s.len(),
{
    if s.len() == 0 {
        seq![]
    } else if s.last().timestamp.total() == t {
        at_instant(s.drop_last(), t).push(s.last())
    } else {
        at_instant(s.drop_last(), t)
    }
}

proof fn lemma_put_is_stable(s: Seq<MeasurementView>, m: MeasurementView, t: int)
    requires
        crate::store::readings::is_in_order(s),
    ensures
        at_instant(put_in_order(s, m), t) == if m.timestamp.total() == t {
            at_instant(s, t).push(m)
        } else {
            at_instant(s, t)
        },
    decreases s.len(),
{
    reveal_with_fuel(at_instant, 2);
    if s.len() == 0 {
        assert(seq![m].drop_last() =~= Seq::empty());
    } else if m.timestamp.total() < s.last().timestamp.total() {
        let rest = s.drop_last();
        assert forall|i: int, j: int| 0 <= i <= j < rest.len() implies (
        #[trigger] rest[i]).timestamp.total() <= (#[trigger] rest[j]).timestamp.total() by {
            assert(rest[i] == s[i] && rest[j] == s[j]);
        }
        lemma_put_is_stable(rest, m, t);
        let put = put_in_order(rest, m);
        assert(put.push(s.last()).drop_last() =~= put);
    } else {
        assert(s.push(m).drop_last() =~= s);
    }
}

/// Putting measurements in order leaves those of one instant in the order that they had.
pub proof fn law_order_within_an_instant_is_kept(s: Seq<MeasurementView>, t: int)
    ensures
        at_instant(in_order(s), t) == at_instant(s, t),
    decreases s.len(),
{
    if s.len() > 0 {
        law_order_within_an_instant_is_kept(s.drop_last(), t);
        crate::store::readings::law_order_keeps_measurements(s.drop_last());
        lemma_put_is_stable(in_order(s.drop_last()), s.last(), t);
    }
}

/// Joining the ends keeps the first measurements in front and adds those of the last ones whose
/// identifiers are not there yet: every identifier of either end is there then, and no other.
pub proof fn law_ends_are_joined(
    first: Seq<MeasurementView>,
    last: Seq<MeasurementView>,
    m: MeasurementView,
)
    ensures
        first.is_prefix_of(joined_ends(first, last)),
        first.len() <= joined_ends(first, last).len() <= first.len() + last.len(),
        has_id(joined_ends(first, last), m.id) <==> has_id(first, m.id) || has_id(last, m.id),
    decreases last.len(),
{
    if last.len() > 0 {
        let rest = last.drop_last();
        let l = last.last();
        assert(last[last.len() - 1] == l);
        lemma_has_id(rest, l, m);
        assert(rest.push(l) =~= last);
        if has_id(first, l.id) {
            law_ends_are_joined(first, rest, m);
        } else {
            law_ends_are_joined(first.push(l), rest, m);
            lemma_has_id(first, l, m);
            let joined = joined_ends(first.push(l), rest);
            assert forall|i: int| 0 <= i < first.len() implies first[i] == joined[i] by {
                assert(first.push(l)[i] == first[i]);
            }
            assert(first =~= joined.subrange(0, first.len() as int));
        }
    } else {
        assert(first =~= first.subrange(0, first.len() as int));
    }
}

proof fn lemma_has_id(s: Seq<MeasurementView>, l: MeasurementView, m: MeasurementView)
    ensures
        has_id(s.push(l), m.id) <==> has_id(s, m.id) || l.id == m.id,
{
    let all = s.push(l);
    assert(all[s.len() as int] == l);
    if has_id(s, m.id) {
        let i = choose|i: int| 0 <= i < s.len() && (#[trigger] s[i]).id == m.id;
        assert(all[i].id == m.id);
    }
    if has_id(all, m.id) {
        let i = choose|i: int| 0 <= i < all.len() && (#[trigger] all[i]).id == m.id;
        if i < s.len() {
            assert(s[i].id == m.id);
        }
    }
}

}
