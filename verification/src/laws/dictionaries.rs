//! When patterns count as one, and what importing and merging make of them.
use crate::decimal::{
    lemma_order,
    lemma_product_is_times,
    lemma_product_value,
    lemma_times_keeps_order,
    sum_of,
    whole,
    DecimalView,
};
use crate::dictionary::{
    all_imported,
    at_most,
    average_or_one,
    imported,
    matches_at,
    max_xs,
    max_ys,
    meets,
    percentage,
    similar,
    step_percentages,
    stepped,
    verdict_at,
    verdict_row,
    verdict_table,
    ConstraintsView,
};
use crate::measurement::VectorView;
use crate::pattern::{magnitudes, PatternView};
use crate::store::correlations::is_order;
use crate::text::ends_with;
use crate::variability::{VariabilityKind, VariabilityView};
use vstd::prelude::*;

verus! {

/// Whether two patterns count as one where a single bound is all there is.
pub open spec fn similar_under(
    v: VariabilityView,
    a: Seq<DecimalView>,
    b: Seq<DecimalView>,
    verdict: bool,
) -> bool {
    similar(Some(seq![v]), a, b, seq![verdict])
}

/// A bound that is missed separates two patterns wherever it stands in the list: patterns of as
/// many steps count as one exactly where they do under every bound taken alone.
pub proof fn law_every_bound_counts(
    vs: Seq<VariabilityView>,
    a: Seq<DecimalView>,
    b: Seq<DecimalView>,
    verdicts: Seq<bool>,
)
    ensures
        similar(Some(vs), a, b, verdicts) <==> a.len() == b.len() && (forall|j: int|
            0 <= j < vs.len() ==> #[trigger] similar_under(vs[j], a, b, verdict_at(verdicts, j))),
{
    assert forall|j: int| 0 <= j < vs.len() && a.len() == b.len() implies (similar_under(
        vs[j],
        a,
        b,
        verdict_at(verdicts, j),
    ) <==> meets(#[trigger] vs[j], a, b, verdict_at(verdicts, j))) by {
        lemma_alone(vs[j], a, b, verdict_at(verdicts, j));
    }
    if similar(Some(vs), a, b, verdicts) {
        assert forall|j: int| 0 <= j < vs.len() implies #[trigger] similar_under(
            vs[j],
            a,
            b,
            verdict_at(verdicts, j),
        ) by {
            lemma_bounds(vs, a, b, verdicts, j);
        }
    }
    if a.len() == b.len() && (forall|j: int|
        0 <= j < vs.len() ==> #[trigger] similar_under(vs[j], a, b, verdict_at(verdicts, j))) {
        assert forall|j: int| 0 <= j < vs.len() implies meets(
            #[trigger] vs[j],
            a,
            b,
            verdict_at(verdicts, j),
        ) by {
            assert(similar_under(vs[j], a, b, verdict_at(verdicts, j)));
        }
    }
}

proof fn lemma_bounds(
    vs: Seq<VariabilityView>,
    a: Seq<DecimalView>,
    b: Seq<DecimalView>,
    verdicts: Seq<bool>,
    j: int,
)
    requires
        0 <= j < vs.len(),
    ensures
        similar(Some(vs), a, b, verdicts) ==> meets(vs[j], a, b, verdict_at(verdicts, j)),
{
    let bounds = Some(vs);
    assert(bounds->0[j] == vs[j]);
}

proof fn lemma_alone(
    v: VariabilityView,
    a: Seq<DecimalView>,
    b: Seq<DecimalView>,
    verdict: bool,
)
    ensures
        similar_under(v, a, b, verdict) <==> a.len() == b.len() && meets(v, a, b, verdict),
{
    lemma_bounds(seq![v], a, b, seq![verdict], 0);
    let vs = seq![v];
    assert(vs[0] == v);
    assert(verdict_at(seq![verdict], 0) == verdict);
    if a.len() == b.len() && meets(v, a, b, verdict) {
        assert forall|j: int| 0 <= j < vs.len() implies meets(
            #[trigger] vs[j],
            a,
            b,
            verdict_at(seq![verdict], j),
        ) by {
            assert(j == 0);
        }
    }
}

/// A bound that is missed separates two patterns wherever it stands in the list.
pub proof fn law_a_missed_bound_separates(
    vs: Seq<VariabilityView>,
    a: Seq<DecimalView>,
    b: Seq<DecimalView>,
    verdicts: Seq<bool>,
    j: int,
)
    requires
        0 <= j < vs.len(),
        !similar_under(vs[j], a, b, verdict_at(verdicts, j)),
    ensures
        !similar(Some(vs), a, b, verdicts),
{
    law_every_bound_counts(vs, a, b, verdicts);
}

/// The order of the bounds makes no difference, as long as the verdicts go with them.
pub proof fn law_the_order_of_bounds_is_no_matter(
    vs: Seq<VariabilityView>,
    order: Seq<int>,
    a: Seq<DecimalView>,
    b: Seq<DecimalView>,
    verdicts: Seq<bool>,
)
    requires
        is_order(order, vs.len()),
    ensures
        similar(
            Some(Seq::new(vs.len(), |i: int| vs[order[i]])),
            a,
            b,
            Seq::new(vs.len(), |i: int| verdict_at(verdicts, order[i])),
        ) == similar(Some(vs), a, b, verdicts),
{
    let other = Seq::new(vs.len(), |i: int| vs[order[i]]);
    let told = Seq::new(vs.len(), |i: int| verdict_at(verdicts, order[i]));
    law_every_bound_counts(vs, a, b, verdicts);
    law_every_bound_counts(other, a, b, told);
    if similar(Some(vs), a, b, verdicts) {
        assert forall|i: int| 0 <= i < other.len() implies #[trigger] similar_under(
            other[i],
            a,
            b,
            verdict_at(told, i),
        ) by {
            assert(similar_under(vs[order[i]], a, b, verdict_at(verdicts, order[i])));
        }
    }
    if similar(Some(other), a, b, told) {
        assert forall|j: int| 0 <= j < vs.len() implies #[trigger] similar_under(
            vs[j],
            a,
            b,
            verdict_at(verdicts, j),
        ) by {
            assert(order.contains(j));
            let i = choose|i: int| 0 <= i < order.len() && order[i] == j;
            assert(similar_under(other[i], a, b, verdict_at(told, i)));
        }
    }
}

/// Patterns with different numbers of steps never count as one, nor do any without a list of
/// bounds. An empty list tells none apart that have as many steps.
pub proof fn law_patterns_are_compared_step_by_step(
    vs: Option<Seq<VariabilityView>>,
    a: Seq<DecimalView>,
    b: Seq<DecimalView>,
    verdicts: Seq<bool>,
)
    ensures
        a.len() != b.len() ==> !similar(vs, a, b, verdicts),
        vs is None ==> !similar(vs, a, b, verdicts),
        similar(Some(seq![]), a, b, verdicts) <==> a.len() == b.len(),
{
}

/// One more bound never makes patterns similar that were not.
pub proof fn law_another_bound_only_separates(
    vs: Seq<VariabilityView>,
    v: VariabilityView,
    a: Seq<DecimalView>,
    b: Seq<DecimalView>,
    verdicts: Seq<bool>,
)
    ensures
        similar(Some(vs.push(v)), a, b, verdicts) <==> similar(Some(vs), a, b, verdicts)
            && similar_under(v, a, b, verdict_at(verdicts, vs.len() as int)),
{
    let more = vs.push(v);
    law_every_bound_counts(vs, a, b, verdicts);
    law_every_bound_counts(more, a, b, verdicts);
    if similar(Some(more), a, b, verdicts) {
        assert forall|j: int| 0 <= j < vs.len() implies #[trigger] similar_under(
            vs[j],
            a,
            b,
            verdict_at(verdicts, j),
        ) by {
            assert(similar_under(more[j], a, b, verdict_at(verdicts, j)));
        }
        assert(similar_under(more[vs.len() as int], a, b, verdict_at(verdicts, vs.len() as int)));
    }
    if similar(Some(vs), a, b, verdicts) && similar_under(
        v,
        a,
        b,
        verdict_at(verdicts, vs.len() as int),
    ) {
        assert forall|j: int| 0 <= j < more.len() implies #[trigger] similar_under(
            more[j],
            a,
            b,
            verdict_at(verdicts, j),
        ) by {
            if j < vs.len() {
                assert(similar_under(vs[j], a, b, verdict_at(verdicts, j)));
            }
        }
    }
}

/// A wider bound tells no patterns apart that a narrower one does not.
pub proof fn law_a_wider_bound_holds_more(
    kind: VariabilityKind,
    narrow: DecimalView,
    wide: DecimalView,
    a: Seq<DecimalView>,
    b: Seq<DecimalView>,
    verdict: bool,
)
    requires
        !wide.less_than(narrow),
        similar_under(VariabilityView { kind, value: narrow }, a, b, verdict),
    ensures
        similar_under(VariabilityView { kind, value: wide }, a, b, verdict),
{
    let v = VariabilityView { kind, value: narrow };
    let w = VariabilityView { kind, value: wide };
    lemma_alone(v, a, b, verdict);
    lemma_alone(w, a, b, verdict);
    assert forall|x: DecimalView| at_most(x, narrow) implies #[trigger] at_most(x, wide) by {
        lemma_order(wide, x, narrow);
        lemma_order(x, narrow, wide);
        lemma_order(narrow, wide, x);
        lemma_order(wide, narrow, x);
        lemma_order(x, wide, narrow);
    }
}

/// A bound on the largest difference is met where it is met by every step for itself.
pub proof fn law_the_largest_difference_is_that_of_a_step(
    value: DecimalView,
    a: Seq<DecimalView>,
    b: Seq<DecimalView>,
    verdict: bool,
)
    requires
        a.len() == b.len(),
        a.len() > 0,
    ensures
        similar_under(
            VariabilityView { kind: VariabilityKind::MaximumPercentile, value },
            a,
            b,
            verdict,
        ) <==> (forall|i: int|
            #![trigger a[i]]
            0 <= i < a.len() ==> similar_under(
                VariabilityView { kind: VariabilityKind::MaximumPercentile, value },
                seq![a[i]],
                seq![b[i]],
                verdict,
            )),
{
    let v = VariabilityView { kind: VariabilityKind::MaximumPercentile, value };
    lemma_alone(v, a, b, verdict);
    let all = step_percentages(a, b);
    assert forall|i: int| #![trigger a[i]] 0 <= i < a.len() implies (similar_under(
        v,
        seq![a[i]],
        seq![b[i]],
        verdict,
    ) <==> at_most(all[i], value)) by {
        lemma_alone(v, seq![a[i]], seq![b[i]], verdict);
        let one = step_percentages(seq![a[i]], seq![b[i]]);
        assert(one[0] == all[i]);
    }
    if similar_under(v, a, b, verdict) {
        assert forall|i: int| #![trigger a[i]] 0 <= i < a.len() implies similar_under(
            v,
            seq![a[i]],
            seq![b[i]],
            verdict,
        ) by {
            assert(at_most(all[i], value));
        }
    }
    if forall|i: int|
        #![trigger a[i]]
        0 <= i < a.len() ==> similar_under(v, seq![a[i]], seq![b[i]], verdict) {
        assert forall|i: int| 0 <= i < all.len() implies at_most(#[trigger] all[i], value) by {
            let x = a[i];
            assert(similar_under(v, seq![a[i]], seq![b[i]], verdict));
        }
    }
}

/// Of one step each, any of the plain bounds in percent is the same bound, and a step that differs
/// from nothing differs by ten thousand percent.
pub proof fn law_a_step_from_nothing_is_ten_thousand_percent(
    value: DecimalView,
    x: DecimalView,
    nothing: DecimalView,
    verdict: bool,
)
    requires
        nothing.mantissa == 0,
    ensures
        similar_under(
            VariabilityView { kind: VariabilityKind::MaximumPercentile, value },
            seq![x],
            seq![nothing],
            verdict,
        ) <==> !value.less_than(
            if x.mantissa == 0 {
                whole(0)
            } else {
                whole(10000)
            },
        ),
{
    let v = VariabilityView { kind: VariabilityKind::MaximumPercentile, value };
    lemma_alone(v, seq![x], seq![nothing], verdict);
    let all = step_percentages(seq![x], seq![nothing]);
    assert(all[0] == percentage(x.minus(nothing).magnitude(), nothing.magnitude()));
    assert(all.len() == 1);
    if similar_under(v, seq![x], seq![nothing], verdict) {
        assert(at_most(all[0], value));
    }
}

/// Whether a quotient is exact: times the divisor it is the dividend again.
pub open spec fn divides_evenly(dividend: DecimalView, divisor: DecimalView) -> bool {
    dividend.over(divisor).times(divisor).same_value(dividend)
}

/// A step is within so many percent of another where the hundredfold of the difference is no more
/// than so many times the other, wherever the division comes out even.
pub proof fn law_percent_are_hundredths_of_the_second(
    value: DecimalView,
    x: DecimalView,
    y: DecimalView,
    verdict: bool,
)
    requires
        y.mantissa != 0,
        divides_evenly(x.minus(y).magnitude(), y.magnitude()),
    ensures
        similar_under(
            VariabilityView { kind: VariabilityKind::MaximumPercentile, value },
            seq![x],
            seq![y],
            verdict,
        ) <==> !value.times(y.magnitude()).less_than(x.minus(y).magnitude().times(whole(100))),
{
    let v = VariabilityView { kind: VariabilityKind::MaximumPercentile, value };
    lemma_alone(v, seq![x], seq![y], verdict);
    let all = step_percentages(seq![x], seq![y]);
    assert(all.len() == 1);
    assert(all[0] == percentage(x.minus(y).magnitude(), y.magnitude()));
    lemma_percentage(x.minus(y).magnitude(), y.magnitude(), value);
    if similar_under(v, seq![x], seq![y], verdict) {
        assert(at_most(all[0], value));
    }
}

proof fn lemma_percentage(difference: DecimalView, base: DecimalView, bound: DecimalView)
    requires
        base.mantissa > 0,
        divides_evenly(difference, base),
    ensures
        at_most(percentage(difference, base), bound) <==> !bound.times(base).less_than(
            difference.times(whole(100)),
        ),
{
    let q = difference.over(base);
    let percent = percentage(difference, base);
    let exact = q.times(whole(100));
    lemma_product_is_times(q, whole(100));
    lemma_times_keeps_order(bound, percent, base);
    lemma_product_value(percent, base, exact, base);
    lemma_order(base, base, base);
    let swapped = q.times(base).times(whole(100));
    assert(exact.times(base) == swapped) by {
        assert((q.mantissa * 100) * base.mantissa == (q.mantissa * base.mantissa) * 100)
            by (nonlinear_arith);
    }
    lemma_order(whole(100), whole(100), whole(100));
    lemma_product_value(q.times(base), whole(100), difference, whole(100));
    let left = percent.times(base);
    let right = difference.times(whole(100));
    lemma_order(left, swapped, right);
    lemma_order(right, left, right);
    lemma_order(bound.times(base), left, right);
    lemma_order(bound.times(base), right, left);
}

/// A bound on the average in percent is met where the percentages come to no more than as many
/// times the bound as there are steps, wherever the division comes out even.
pub proof fn law_the_average_is_shared_by_the_steps(
    value: DecimalView,
    a: Seq<DecimalView>,
    b: Seq<DecimalView>,
    percentages: Seq<DecimalView>,
    verdict: bool,
)
    requires
        a.len() == b.len(),
        a.len() > 0,
        percentages.len() == a.len(),
        forall|i: int|
            0 <= i < a.len() ==> #[trigger] percentages[i] == percentage(
                a[i].minus(b[i]).magnitude(),
                b[i].magnitude(),
            ),
        divides_evenly(sum_of(percentages), whole(a.len() as int)),
    ensures
        similar_under(
            VariabilityView { kind: VariabilityKind::AveragePercentile, value },
            a,
            b,
            verdict,
        ) <==> !value.times(whole(a.len() as int)).less_than(sum_of(percentages)),
{
    let v = VariabilityView { kind: VariabilityKind::AveragePercentile, value };
    lemma_alone(v, a, b, verdict);
    assert(step_percentages(a, b) =~= percentages);
    let n = whole(a.len() as int);
    let total = sum_of(percentages);
    let average = total.over(n);
    lemma_times_keeps_order(value, average, n);
    lemma_order(average.times(n), total, total);
    lemma_order(value.times(n), average.times(n), total);
    lemma_order(value.times(n), total, average.times(n));
}

/// A bound on the sums in percent is met where the hundredfold of the difference of the sums is no
/// more than so many times the second sum, wherever that is positive and the division comes out
/// even. What the single steps are makes no difference.
pub proof fn law_sums_are_compared_in_percent(
    value: DecimalView,
    a: Seq<DecimalView>,
    b: Seq<DecimalView>,
    verdict: bool,
)
    requires
        a.len() == b.len(),
        a.len() > 0,
        sum_of(b).mantissa > 0,
        divides_evenly(sum_of(a).minus(sum_of(b)).magnitude(), sum_of(b)),
    ensures
        similar_under(
            VariabilityView { kind: VariabilityKind::SumPercentile, value },
            a,
            b,
            verdict,
        ) <==> !value.times(sum_of(b)).less_than(
            sum_of(a).minus(sum_of(b)).magnitude().times(whole(100)),
        ),
{
    let v = VariabilityView { kind: VariabilityKind::SumPercentile, value };
    lemma_alone(v, a, b, verdict);
    lemma_percentage(sum_of(a).minus(sum_of(b)).magnitude(), sum_of(b), value);
}

/// The bound of the same kind that does not look at the signs of the steps.
pub open spec fn without_signs(kind: VariabilityKind) -> VariabilityKind {
    match kind {
        VariabilityKind::MaximumPercentile => VariabilityKind::AbsoluteMaximumPercentile,
        VariabilityKind::AveragePercentile => VariabilityKind::AbsoluteAveragePercentile,
        VariabilityKind::SumPercentile => VariabilityKind::AbsoluteSumPercentile,
        _ => kind,
    }
}

/// An absolute bound in percent is the plain one on the magnitudes of the steps.
pub proof fn law_absolute_bounds_look_at_magnitudes(
    kind: VariabilityKind,
    value: DecimalView,
    a: Seq<DecimalView>,
    b: Seq<DecimalView>,
    verdict: bool,
)
    requires
        kind is MaximumPercentile || kind is AveragePercentile || kind is SumPercentile,
        a.len() > 0,
    ensures
        similar_under(VariabilityView { kind: without_signs(kind), value }, a, b, verdict)
            == similar_under(
            VariabilityView { kind, value },
            magnitudes(a),
            magnitudes(b),
            verdict,
        ),
{
    lemma_alone(VariabilityView { kind: without_signs(kind), value }, a, b, verdict);
    lemma_alone(VariabilityView { kind, value }, magnitudes(a), magnitudes(b), verdict);
}

/// What the dictionary holds of a pattern after an import, told pattern by pattern: the occurrences
/// of the new pattern are added to every pattern that it is similar to and to no other; it is added
/// itself, at the end, where it is similar to none.
pub proof fn law_an_import_counts_for_every_similar_pattern(
    c: ConstraintsView,
    patterns: Seq<PatternView>,
    new: PatternView,
    verdicts: Seq<Vec<bool>>,
    i: int,
)
    requires
        c.steps is None || new.relatives.len() > 0,
        0 <= i < patterns.len(),
    ensures
        imported(c, patterns, new, verdicts)[i].id == patterns[i].id,
        imported(c, patterns, new, verdicts)[i].relatives == patterns[i].relatives,
        imported(c, patterns, new, verdicts)[i].occurrences == if similar(
            c.variabilities,
            new.amplitudes(),
            patterns[i].amplitudes(),
            verdict_row(verdicts, i),
        ) {
            patterns[i].occurrences + new.occurrences
        } else {
            patterns[i].occurrences
        },
        similar(
            c.variabilities,
            new.amplitudes(),
            patterns[i].amplitudes(),
            verdict_row(verdicts, i),
        ) ==> imported(c, patterns, new, verdicts).len() == patterns.len(),
{
    assert(matches_at(c, patterns, new, verdicts, i) == similar(
        c.variabilities,
        new.amplitudes(),
        patterns[i].amplitudes(),
        verdict_row(verdicts, i),
    ));
}

/// A pattern that is similar to none that the dictionary has is added at the end, as it is.
pub proof fn law_an_unlike_pattern_is_added(
    c: ConstraintsView,
    patterns: Seq<PatternView>,
    new: PatternView,
    verdicts: Seq<Vec<bool>>,
)
    requires
        c.steps is None || new.relatives.len() > 0,
        forall|i: int|
            0 <= i < patterns.len() ==> !similar(
                c.variabilities,
                new.amplitudes(),
                (#[trigger] patterns[i]).amplitudes(),
                verdict_row(verdicts, i),
            ),
    ensures
        imported(c, patterns, new, verdicts) == patterns.push(new),
{
    assert forall|i: int| 0 <= i < patterns.len() implies !#[trigger] matches_at(
        c,
        patterns,
        new,
        verdicts,
        i,
    ) by {
        let p = patterns[i];
    }
}

/// A dictionary that demands a number of steps takes no pattern that has none.
pub proof fn law_an_empty_pattern_is_not_imported(
    c: ConstraintsView,
    patterns: Seq<PatternView>,
    new: PatternView,
    verdicts: Seq<Vec<bool>>,
)
    requires
        c.steps is Some,
        new.relatives.len() == 0,
    ensures
        imported(c, patterns, new, verdicts) == patterns,
{
}

/// Without bounds nothing is similar: every pattern that is imported is added.
pub proof fn law_without_bounds_every_pattern_is_added(
    c: ConstraintsView,
    patterns: Seq<PatternView>,
    new: PatternView,
    verdicts: Seq<Vec<bool>>,
)
    requires
        c.variabilities is None,
        c.steps is None || new.relatives.len() > 0,
    ensures
        imported(c, patterns, new, verdicts) == patterns.push(new),
{
}

/// Merging is importing one pattern after the other, in their order: after the first few, the next
/// one is imported into what they made, with the verdicts that were given for it.
pub proof fn law_merging_is_importing_in_turn(
    c: ConstraintsView,
    patterns: Seq<PatternView>,
    new: Seq<PatternView>,
    verdicts: Seq<Vec<Vec<bool>>>,
    k: int,
)
    requires
        0 <= k < new.len(),
    ensures
        all_imported(c, patterns, new.take(0), verdicts) == patterns,
        all_imported(c, patterns, new.take(k + 1), verdicts) == imported(
            c,
            all_imported(c, patterns, new.take(k), verdicts),
            new[k],
            verdict_table(verdicts, k),
        ),
        all_imported(c, patterns, new.take(new.len() as int), verdicts) == all_imported(
            c,
            patterns,
            new,
            verdicts,
        ),
{
    assert(new.take(k + 1).drop_last() =~= new.take(k));
    assert(new.take(new.len() as int) =~= new);
    assert(new.take(k + 1).last() == new[k]);
}

/// A pattern with one step that is brought to more keeps the amplitude and the extent of the step
/// in all of them, at the places that are given; one with several gets the amplitudes that were
/// interpolated, and the average of the extents for every step.
pub proof fn law_steps_are_made_from_the_pattern(
    pattern: PatternView,
    count: nat,
    samples: Seq<VectorView>,
    i: int,
)
    requires
        0 <= i < count,
        pattern.relatives.len() > 0,
        pattern.relatives.len() != count,
    ensures
        stepped(pattern, count, samples).relatives.len() == count,
        stepped(pattern, count, samples).relatives[i].vector.location == samples[i].location,
        pattern.relatives.len() == 1 ==> {
            let step = stepped(pattern, count, samples).relatives[i];
            &&& step.vector.amplitude == pattern.relatives[0].vector.amplitude
            &&& step.max_x == pattern.relatives[0].max_x
            &&& step.max_y == pattern.relatives[0].max_y
        },
        pattern.relatives.len() > 1 ==> {
            let step = stepped(pattern, count, samples).relatives[i];
            &&& step.vector.amplitude == samples[i].amplitude
            &&& step.max_x == average_or_one(max_xs(pattern.relatives))
            &&& step.max_y == average_or_one(max_ys(pattern.relatives))
        },
        stepped(pattern, count, samples).id == pattern.id,
        stepped(pattern, count, samples).occurrences == pattern.occurrences,
{
}

/// A pattern that has as many steps as are demanded, or none, stays as it is.
pub proof fn law_steps_that_are_right_stay(
    pattern: PatternView,
    count: nat,
    samples: Seq<VectorView>,
)
    requires
        pattern.relatives.len() == 0 || pattern.relatives.len() == count,
    ensures
        stepped(pattern, count, samples) == pattern,
{
}

/// An average of extents times their number is their sum, wherever the division comes out even.
pub proof fn law_the_average_extent_is_shared(s: Seq<DecimalView>)
    requires
        0 < s.len() <= i64::MAX,
        divides_evenly(sum_of(s), whole(s.len() as int)),
    ensures
        average_or_one(s).times(whole(s.len() as int)).same_value(sum_of(s)),
{
}

/// A static bound goes by the verdict that is given for it, and the names of the static bounds are
/// those that end so.
pub proof fn law_static_bounds_go_by_their_verdict(
    v: VariabilityView,
    a: Seq<DecimalView>,
    b: Seq<DecimalView>,
    verdict: bool,
)
    ensures
        v.kind.spec_is_static() ==> (similar_under(v, a, b, verdict) <==> a.len() == b.len()
            && verdict),
        v.kind.spec_is_static() <==> ends_with(v.kind.spec_name(), "Static"@),
        !v.kind.spec_is_static() <==> ends_with(v.kind.spec_name(), "Percentile"@),
{
    lemma_alone(v, a, b, verdict);
    lemma_kind_names(v.kind);
}

proof fn lemma_kind_names(kind: VariabilityKind)
    ensures
        kind.spec_is_static() <==> ends_with(kind.spec_name(), "Static"@),
        !kind.spec_is_static() <==> ends_with(kind.spec_name(), "Percentile"@),
{
    reveal_strlit("Static");
    reveal_strlit("Percentile");
    reveal_strlit("MaximumStatic");
    reveal_strlit("AverageStatic");
    reveal_strlit("AbsoluteMaximumStatic");
    reveal_strlit("AbsoluteAverageStatic");
    reveal_strlit("MaximumPercentile");
    reveal_strlit("AveragePercentile");
    reveal_strlit("AbsoluteMaximumPercentile");
    reveal_strlit("AbsoluteAveragePercentile");
    reveal_strlit("SumStatic");
    reveal_strlit("SumPercentile");
    reveal_strlit("AbsoluteSumStatic");
    reveal_strlit("AbsoluteSumPercentile");
    let name = kind.spec_name();
    let short = name.skip(name.len() - 6);
    let long = name.skip(name.len() - 10);
    if kind.spec_is_static() {
        assert(short =~= "Static"@);
        if ends_with(name, "Percentile"@) {
            assert(long[9] == "Percentile"@[9]);
        }
    } else {
        assert(long =~= "Percentile"@);
        if ends_with(name, "Static"@) {
            assert(short[5] == "Static"@[5]);
        }
    }
}

}
