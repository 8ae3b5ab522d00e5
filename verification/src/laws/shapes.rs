//! What placing, leveling and moving a batch, and relating it to its extent, do to its measurements.
use crate::batch::{
    amplitudes,
    distance_along,
    distanced,
    greatest,
    height,
    is_leveled,
    least,
    leveled_amplitude,
    locations,
    lowered_at_start,
    prepared,
    related,
    relative_failure,
    simplified,
    transposed,
    vectors_of,
    width,
    Batch,
};
use crate::batches::{fresh_window, is_window_batch, shaped};
use crate::decimal::{
    lemma_difference_sign,
    lemma_difference_zero,
    lemma_order,
    lemma_plus_at,
    lemma_plus_nothing,
    lemma_product_value,
    lemma_same_value_at,
    lemma_sum_value,
    max_int,
    whole,
    DecimalView,
};
use crate::ids::AspectId;
use crate::laws::batches::{
    ascend_within,
    height_of,
    law_simplifying_keeps_the_turns,
    place_of,
    runs_forward,
};
use crate::laws::dictionaries::divides_evenly;
use crate::measurement::{BatchedView, PointView, VectorView};
use crate::registry::DatabaseInfo;
use crate::resolution::Resolution;
use vstd::arithmetic::power::pow;
use vstd::prelude::*;

verus! {

/// Whether every measurement has a vector.
pub open spec fn all_placed(ms: Seq<BatchedView>) -> bool {
    forall|i: int| 0 <= i < ms.len() ==> (#[trigger] ms[i]).vector is Some
}

/// Whether two measurements differ in the location of the vector at most.
pub open spec fn same_but_place(a: BatchedView, b: BatchedView) -> bool {
    &&& a.point == b.point
    &&& a.distance == b.distance
    &&& a.analysis == b.analysis
    &&& height_of(a) == height_of(b)
}

/// Whether two measurements differ in the amplitude of the vector at most.
pub open spec fn same_but_height(a: BatchedView, b: BatchedView) -> bool {
    &&& a.point == b.point
    &&& a.distance == b.distance
    &&& a.analysis == b.analysis
    &&& place_of(a) == place_of(b)
}

proof fn lemma_negative_at(a: DecimalView, scale: int)
    requires
        a.scale <= scale,
        0 <= scale,
    ensures
        whole(0).minus(a).aligned(scale) == -a.aligned(scale),
        whole(0).minus(a).scale <= scale,
{
    lemma_plus_at(whole(0), a, scale);
    let p = pow(10, (scale - 0) as nat);
    assert(0 * p == 0);
}

/// Moving a batch to the origin puts its first measurement at zero and keeps all distances between
/// its measurements; nothing else about them changes.
pub proof fn law_moving_keeps_the_distances(ms: Seq<BatchedView>, i: int, j: int)
    requires
        all_placed(ms),
        0 <= i < ms.len(),
        0 <= j < ms.len(),
    ensures
        ({
            let moved = transposed(ms, ms.len() as int);
            &&& moved.len() == ms.len()
            &&& all_placed(moved)
            &&& place_of(moved[0]).mantissa == 0
            &&& place_of(moved[j]).minus(place_of(moved[i])).same_value(
                place_of(ms[j]).minus(place_of(ms[i])),
            )
            &&& same_but_place(moved[i], ms[i])
        }),
{
    let moved = transposed(ms, ms.len() as int);
    let first = place_of(ms[0]);
    let a = place_of(ms[i]);
    let b = place_of(ms[j]);
    let shift = whole(0).minus(first);
    assert(ms[0].location() == first && ms[i].location() == a && ms[j].location() == b);
    let scale = max_int(0, max_int(first.scale, max_int(a.scale, b.scale)));
    lemma_negative_at(first, scale);
    lemma_plus_at(a, shift, scale);
    lemma_plus_at(b, shift, scale);
    lemma_plus_at(b.plus(shift), a.plus(shift), scale);
    lemma_plus_at(b, a, scale);
    lemma_same_value_at(b.plus(shift).minus(a.plus(shift)), b.minus(a), scale);
    lemma_plus_at(first, shift, max_int(0, first.scale));
    lemma_negative_at(first, max_int(0, first.scale));
    let origin = first.plus(shift);
    assert(origin.scale == max_int(first.scale, shift.scale));
    assert(origin.mantissa == 0) by {
        let near = max_int(first.scale, shift.scale);
        lemma_difference_zero(first, first);
        lemma_order(first, first, first);
        if first.mantissa == 0 {
            assert(first.aligned(near) == 0) by {
                let p = pow(10, (near - first.scale) as nat);
                assert(0 * p == 0);
            }
            assert(shift.aligned(near) == 0) by {
                let p = pow(10, (near - shift.scale) as nat);
                assert(0 * p == 0);
            }
        } else {
            assert(shift.scale == first.scale);
            let p = pow(10, (near - first.scale) as nat);
            let m = first.mantissa;
            assert((0 - m) * p == -(m * p)) by (nonlinear_arith);
        }
    }
    assert forall|k: int| 0 <= k < moved.len() implies (#[trigger] moved[k]).vector is Some by {
        let m = ms[k];
    }
}

/// A step that stops at a measurement without a vector has moved those before it and no other.
pub proof fn law_moving_stops_where_it_must(ms: Seq<BatchedView>, k: int, i: int)
    requires
        0 <= k <= i < ms.len(),
    ensures
        transposed(ms, k).len() == ms.len(),
        transposed(ms, k)[i] == ms[i],
{
}

proof fn lemma_negative_product_at(a: DecimalView, b: DecimalView, scale: int)
    requires
        a.times(b).scale <= scale,
        whole(0).minus(a).times(b).scale <= scale,
    ensures
        whole(0).minus(a).times(b).aligned(scale) == -a.times(b).aligned(scale),
{
    let m = a.mantissa;
    let n = b.mantissa;
    if m == 0 {
        let p = pow(10, (scale - a.times(b).scale) as nat);
        let q = pow(10, (scale - whole(0).minus(a).times(b).scale) as nat);
        assert(0 * n == 0);
        assert(0 * p == 0 && 0 * q == 0);
    } else {
        assert(whole(0).minus(a).scale == a.scale);
        assert(whole(0).minus(a).mantissa == -m);
        let p = pow(10, (scale - a.times(b).scale) as nat);
        assert((-m * n) * p == -((m * n) * p)) by (nonlinear_arith);
    }
}

/// Leveling takes the straight line from the first to the last measurement off, and nothing else:
/// with the share of the first amplitude that the distance from the end says, and that of the last
/// which the distance from the start says, every amplitude comes back. Nothing but the amplitudes
/// changes.
pub proof fn law_leveling_takes_a_line_off(
    before: Seq<BatchedView>,
    after: Seq<BatchedView>,
    i: int,
)
    requires
        is_leveled(before, after),
        before.last().distance->0.negative.mantissa == 0,
        0 <= i < before.len(),
    ensures
        after.len() == before.len(),
        same_but_height(after[i], before[i]),
        height_of(after[i]).plus(
            height_of(before[0]).times(before[i].distance->0.negative),
        ).plus(height_of(before.last()).times(before[i].distance->0.positive)).same_value(
            height_of(before[i]),
        ),
{
    let n = before.len() - 1;
    let neg = before[i].distance->0.negative;
    let pos = before[i].distance->0.positive;
    assert(before[i].vector is Some && before[0].vector is Some && before[n].vector is Some);
    let a = height_of(before[i]);
    let a0 = height_of(before[0]);
    let an = height_of(before[n]);
    assert(before[i].amplitude() == a && before[0].amplitude() == a0 && before[n].amplitude()
        == an);
    let end = lowered_at_start(before, n);
    lemma_plus_nothing(an, whole(0).minus(a0), before[n].distance->0.negative);
    assert(end.same_value(an));
    let lowered = lowered_at_start(before, i);
    let exact = leveled_amplitude(before, i);
    let simple = lowered.plus(whole(0).minus(an).times(pos));
    lemma_order(whole(0), whole(0), whole(0));
    lemma_order(pos, pos, pos);
    lemma_order(lowered, lowered, lowered);
    lemma_sum_value(whole(0), end, whole(0), an);
    lemma_product_value(whole(0).minus(end), pos, whole(0).minus(an), pos);
    lemma_sum_value(
        lowered,
        whole(0).minus(end).times(pos),
        lowered,
        whole(0).minus(an).times(pos),
    );
    assert(exact.same_value(simple));
    assert(after[i].amplitude().same_value(leveled_amplitude(before, i)));
    let got = height_of(after[i]);
    assert(got == after[i].amplitude());
    let first_share = a0.times(neg);
    let last_share = an.times(pos);
    lemma_order(got, exact, simple);
    lemma_order(first_share, first_share, first_share);
    lemma_order(last_share, last_share, last_share);
    lemma_sum_value(got, first_share, simple, first_share);
    lemma_sum_value(got.plus(first_share), last_share, simple.plus(first_share), last_share);
    lemma_shares(a, a0, neg, an, pos);
    lemma_order(
        got.plus(first_share).plus(last_share),
        simple.plus(first_share).plus(last_share),
        a,
    );
}

proof fn lemma_shares(
    a: DecimalView,
    a0: DecimalView,
    neg: DecimalView,
    an: DecimalView,
    pos: DecimalView,
)
    ensures
        a.plus(whole(0).minus(a0).times(neg)).plus(whole(0).minus(an).times(pos)).plus(
            a0.times(neg),
        ).plus(an.times(pos)).same_value(a),
{
    let x = whole(0).minus(a0).times(neg);
    let y = whole(0).minus(an).times(pos);
    let u = a0.times(neg);
    let v = an.times(pos);
    let scale = max_int(
        a.scale,
        max_int(max_int(x.scale, y.scale), max_int(u.scale, v.scale)),
    );
    lemma_negative_product_at(a0, neg, scale);
    lemma_negative_product_at(an, pos, scale);
    lemma_plus_at(a, x, scale);
    lemma_plus_at(a.plus(x), y, scale);
    lemma_plus_at(a.plus(x).plus(y), u, scale);
    lemma_plus_at(a.plus(x).plus(y).plus(u), v, scale);
    lemma_same_value_at(a.plus(x).plus(y).plus(u).plus(v), a, scale);
}

/// The distance from the start and that from the end always make up the whole way.
pub proof fn law_distances_make_up_the_way(
    location: DecimalView,
    first: DecimalView,
    range: DecimalView,
)
    ensures
        distance_along(location, first, range).positive.plus(
            distance_along(location, first, range).negative,
        ).same_value(whole(1)),
{
    let d = distance_along(location, first, range);
    let scale = max_int(0, d.positive.scale);
    lemma_plus_at(whole(1), d.positive, scale);
    lemma_plus_at(d.positive, d.negative, scale);
    lemma_same_value_at(d.positive.plus(d.negative), whole(1), scale);
}

/// A distance from the start, times the length of the whole way, is how far the measurement lies
/// behind the first one, wherever the division comes out even. Every measurement gets its distance,
/// and nothing else about it changes.
pub proof fn law_distances_are_shares_of_the_way(ms: Seq<BatchedView>, i: int)
    requires
        all_placed(ms),
        0 <= i < ms.len(),
        divides_evenly(
            place_of(ms[i]).minus(place_of(ms[0])),
            place_of(ms.last()).minus(place_of(ms[0])),
        ),
    ensures
        ({
            let after = distanced(ms, ms.len() as int);
            &&& after.len() == ms.len()
            &&& after[i].point == ms[i].point
            &&& after[i].vector == ms[i].vector
            &&& after[i].analysis == ms[i].analysis
            &&& after[i].distance is Some
            &&& after[i].distance->0.positive.times(
                place_of(ms.last()).minus(place_of(ms[0])),
            ).same_value(place_of(ms[i]).minus(place_of(ms[0])))
            &&& after[i].distance->0.positive.plus(after[i].distance->0.negative).same_value(
                whole(1),
            )
        }),
{
    assert(ms[i].location() == place_of(ms[i]));
    assert(ms[0].location() == place_of(ms[0]));
    assert(ms.last() == ms[ms.len() - 1]);
    assert(ms.last().location() == place_of(ms.last()));
    law_distances_make_up_the_way(
        ms[i].location(),
        ms[0].location(),
        ms.last().location().minus(ms[0].location()),
    );
}

/// A batch from a window of points holds them one after the other, each at the second of its
/// instant and as high as its value, with its distance and not analysed yet; two windows one apart
/// share all points but one each.
pub proof fn law_a_window_holds_its_points(points: Seq<PointView>, start: int, size: int, k: int)
    requires
        0 <= start,
        0 <= k < size,
        start + size <= points.len(),
    ensures
        ({
            let ms = prepared(fresh_window(points, start, size));
            &&& ms.len() == size
            &&& ms[k].point == points[start + k]
            &&& ms[k].vector is Some
            &&& place_of(ms[k]) == whole(points[start + k].timestamp.seconds as int)
            &&& height_of(ms[k]) == points[start + k].value
            &&& ms[k].distance is Some
            &&& ms[k].analysis is None
            &&& k > 0 ==> prepared(fresh_window(points, start + 1, size))[k - 1].point
                == ms[k].point
        }),
{
    let fresh = fresh_window(points, start, size);
    assert(fresh[k].point == points[start + k]);
}

/// The least of numbers is one of them, and none is less.
pub proof fn law_the_least_is_the_least(s: Seq<DecimalView>)
    requires
        s.len() > 0,
    ensures
        s.contains(least(s)),
        forall|i: int| 0 <= i < s.len() ==> !(#[trigger] s[i]).less_than(least(s)),
    decreases s.len(),
{
    if s.len() == 1 {
        assert(s[0] == least(s));
        lemma_order(s[0], s[0], s[0]);
    } else {
        let rest = s.drop_last();
        law_the_least_is_the_least(rest);
        let r = least(rest);
        let k = choose|k: int| 0 <= k < rest.len() && rest[k] == r;
        assert(s[k] == r);
        assert(s[s.len() - 1] == s.last());
        assert forall|i: int| 0 <= i < s.len() implies !(#[trigger] s[i]).less_than(least(s)) by {
            lemma_order(s.last(), s.last(), s.last());
            if i < s.len() - 1 {
                assert(rest[i] == s[i]);
                lemma_order(s[i], s.last(), r);
            }
        }
    }
}

/// The greatest of numbers is one of them, and none is greater.
pub proof fn law_the_greatest_is_the_greatest(s: Seq<DecimalView>)
    requires
        s.len() > 0,
    ensures
        s.contains(greatest(s)),
        forall|i: int| 0 <= i < s.len() ==> !greatest(s).less_than(#[trigger] s[i]),
    decreases s.len(),
{
    if s.len() == 1 {
        assert(s[0] == greatest(s));
        lemma_order(s[0], s[0], s[0]);
    } else {
        let rest = s.drop_last();
        law_the_greatest_is_the_greatest(rest);
        let r = greatest(rest);
        let k = choose|k: int| 0 <= k < rest.len() && rest[k] == r;
        assert(s[k] == r);
        assert(s[s.len() - 1] == s.last());
        assert forall|i: int| 0 <= i < s.len() implies !greatest(s).less_than(#[trigger] s[i]) by {
            lemma_order(s.last(), s.last(), s.last());
            lemma_order(s.last(), r, s[i]);
            if i < s.len() - 1 {
                assert(rest[i] == s[i]);
                lemma_order(r, s.last(), s[i]);
                lemma_order(s.last(), s[i], r);
                lemma_order(s[i], r, s.last());
            }
        }
    }
}

/// The vectors of a batch are those of the measurements that have one, and no others.
pub proof fn law_vectors_are_those_of_the_measurements(ms: Seq<BatchedView>, v: VectorView)
    ensures
        vectors_of(ms).contains(v) <==> exists|i: int|
            0 <= i < ms.len() && (#[trigger] ms[i]).vector == Some(v),
    decreases ms.len(),
{
    if ms.len() > 0 {
        let rest = ms.drop_last();
        law_vectors_are_those_of_the_measurements(rest, v);
        let before = vectors_of(rest);
        let after = vectors_of(ms);
        assert(ms[ms.len() - 1] == ms.last());
        if after.contains(v) {
            let k = choose|k: int| 0 <= k < after.len() && after[k] == v;
            if k < before.len() {
                assert(before[k] == v);
                let i = choose|i: int| 0 <= i < rest.len() && (#[trigger] rest[i]).vector == Some(v);
                assert(ms[i].vector == Some(v));
            } else {
                assert(ms.last().vector == Some(v));
            }
        }
        if exists|i: int| 0 <= i < ms.len() && (#[trigger] ms[i]).vector == Some(v) {
            let i = choose|i: int| 0 <= i < ms.len() && (#[trigger] ms[i]).vector == Some(v);
            if i < ms.len() - 1 {
                assert(rest[i].vector == Some(v));
                assert(before.contains(v));
                let k = choose|k: int| 0 <= k < before.len() && before[k] == v;
                assert(after[k] == v);
            } else {
                assert(after[before.len() as int] == v);
            }
        }
    }
}

proof fn lemma_spread(s: Seq<DecimalView>, i: int, j: int)
    requires
        0 <= i < s.len(),
        0 <= j < s.len(),
    ensures
        !greatest(s).minus(least(s)).less_than(s[j].minus(s[i])),
        greatest(s).minus(least(s)).mantissa == 0 ==> s[i].same_value(s[j]),
{
    law_the_least_is_the_least(s);
    law_the_greatest_is_the_greatest(s);
    let g = greatest(s);
    let l = least(s);
    let x = s[i];
    let y = s[j];
    let scale = max_int(max_int(g.scale, l.scale), max_int(x.scale, y.scale));
    lemma_plus_at(g, l, scale);
    lemma_plus_at(y, x, scale);
    lemma_same_value_at(g.minus(l), y.minus(x), scale);
    lemma_same_value_at(x, l, scale);
    lemma_same_value_at(g, y, scale);
    lemma_same_value_at(g, x, scale);
    lemma_same_value_at(y, l, scale);
    lemma_same_value_at(g, l, scale);
    lemma_same_value_at(x, y, scale);
    lemma_difference_zero(g, l);
}

/// The extent of a batch is the largest difference between two of its vectors: none is larger, and
/// it is the difference of two of them.
pub proof fn law_the_extent_is_the_largest_difference(ms: Seq<BatchedView>, i: int, j: int) -> (r: (
    int,
    int,
    int,
    int,
))
    requires
        0 <= i < ms.len(),
        0 <= j < ms.len(),
        ms[i].vector is Some,
        ms[j].vector is Some,
    ensures
        !width(ms).less_than(place_of(ms[j]).minus(place_of(ms[i]))),
        !height(ms).less_than(height_of(ms[j]).minus(height_of(ms[i]))),
        0 <= r.0 < ms.len() && 0 <= r.1 < ms.len() && ms[r.0].vector is Some && ms[r.1].vector
            is Some,
        width(ms) == place_of(ms[r.0]).minus(place_of(ms[r.1])),
        0 <= r.2 < ms.len() && 0 <= r.3 < ms.len() && ms[r.2].vector is Some && ms[r.3].vector
            is Some,
        height(ms) == height_of(ms[r.2]).minus(height_of(ms[r.3])),
{
    let vs = vectors_of(ms);
    let xs = locations(vs);
    let ys = amplitudes(vs);
    let vi = ms[i].vector->0;
    let vj = ms[j].vector->0;
    law_vectors_are_those_of_the_measurements(ms, vi);
    law_vectors_are_those_of_the_measurements(ms, vj);
    assert(vs.contains(vi) && vs.contains(vj));
    let a = choose|a: int| 0 <= a < vs.len() && vs[a] == vi;
    let b = choose|b: int| 0 <= b < vs.len() && vs[b] == vj;
    assert(xs[a] == vi.location && xs[b] == vj.location);
    assert(ys[a] == vi.amplitude && ys[b] == vj.amplitude);
    lemma_spread(xs, a, b);
    lemma_spread(ys, a, b);
    law_the_least_is_the_least(xs);
    law_the_least_is_the_least(ys);
    law_the_greatest_is_the_greatest(xs);
    law_the_greatest_is_the_greatest(ys);
    let x1 = choose|k: int| 0 <= k < xs.len() && xs[k] == greatest(xs);
    let x0 = choose|k: int| 0 <= k < xs.len() && xs[k] == least(xs);
    let y1 = choose|k: int| 0 <= k < ys.len() && ys[k] == greatest(ys);
    let y0 = choose|k: int| 0 <= k < ys.len() && ys[k] == least(ys);
    (
        lemma_vector_found(ms, x1),
        lemma_vector_found(ms, x0),
        lemma_vector_found(ms, y1),
        lemma_vector_found(ms, y0),
    )
}

proof fn lemma_vector_found(ms: Seq<BatchedView>, k: int) -> (i: int)
    requires
        0 <= k < vectors_of(ms).len(),
    ensures
        0 <= i < ms.len(),
        ms[i].vector == Some(vectors_of(ms)[k]),
{
    let v = vectors_of(ms)[k];
    law_vectors_are_those_of_the_measurements(ms, v);
    choose|i: int| 0 <= i < ms.len() && (#[trigger] ms[i]).vector == Some(v)
}

/// A batch can be related to its extent exactly where it has measurements that lie apart in time
/// and measurements that lie apart in amplitude.
pub proof fn law_relating_needs_an_extent(ms: Seq<BatchedView>)
    requires
        all_placed(ms),
    ensures
        relative_failure(ms) is None <==> {
            &&& exists|i: int, j: int|
                0 <= i < ms.len() && 0 <= j < ms.len() && !place_of(#[trigger] ms[i]).same_value(
                    place_of(#[trigger] ms[j]),
                )
            &&& exists|i: int, j: int|
                0 <= i < ms.len() && 0 <= j < ms.len() && !height_of(#[trigger] ms[i]).same_value(
                    height_of(#[trigger] ms[j]),
                )
        },
{
    if ms.len() > 0 {
        law_vectors_are_those_of_the_measurements(ms, ms[0].vector->0);
        assert(ms[0].vector == Some(ms[0].vector->0));
        assert(vectors_of(ms).len() > 0);
        let r = law_the_extent_is_the_largest_difference(ms, 0, 0);
        lemma_difference_zero(place_of(ms[r.0]), place_of(ms[r.1]));
        lemma_difference_zero(height_of(ms[r.2]), height_of(ms[r.3]));
        assert forall|i: int, j: int| 0 <= i < ms.len() && 0 <= j < ms.len() implies {
            &&& width(ms).mantissa == 0 ==> place_of(#[trigger] ms[i]).same_value(place_of(ms[j]))
            &&& height(ms).mantissa == 0 ==> height_of(ms[i]).same_value(
                height_of(#[trigger] ms[j]),
            )
        } by {
            lemma_no_extent(ms, i, j);
        }
    }
}

proof fn lemma_no_extent(ms: Seq<BatchedView>, i: int, j: int)
    requires
        0 <= i < ms.len(),
        0 <= j < ms.len(),
        ms[i].vector is Some,
        ms[j].vector is Some,
    ensures
        width(ms).mantissa == 0 ==> place_of(ms[i]).same_value(place_of(ms[j])),
        height(ms).mantissa == 0 ==> height_of(ms[i]).same_value(height_of(ms[j])),
{
    let vs = vectors_of(ms);
    let vi = ms[i].vector->0;
    let vj = ms[j].vector->0;
    law_vectors_are_those_of_the_measurements(ms, vi);
    law_vectors_are_those_of_the_measurements(ms, vj);
    assert(ms[i].vector == Some(vi) && ms[j].vector == Some(vj));
    let a = choose|a: int| 0 <= a < vs.len() && vs[a] == vi;
    let b = choose|b: int| 0 <= b < vs.len() && vs[b] == vj;
    assert(locations(vs)[a] == vi.location && locations(vs)[b] == vj.location);
    assert(amplitudes(vs)[a] == vi.amplitude && amplitudes(vs)[b] == vj.amplitude);
    lemma_spread(locations(vs), a, b);
    lemma_spread(amplitudes(vs), a, b);
}

/// A relative vector times the extents is the vector itself, wherever the divisions come out even;
/// the extents go with it, and nothing else about the measurement changes but its analysis.
pub proof fn law_relative_vectors_are_shares_of_the_extent(ms: Seq<BatchedView>, i: int)
    requires
        all_placed(ms),
        0 <= i < ms.len(),
        divides_evenly(place_of(ms[i]), width(ms)),
        divides_evenly(height_of(ms[i]), height(ms)),
    ensures
        ({
            let after = related(ms, ms.len() as int)[i];
            &&& after.analysis is Some
            &&& after.analysis->0.relative is Some
            &&& after.analysis->0.relative->0.vector.location.times(width(ms)).same_value(
                place_of(ms[i]),
            )
            &&& after.analysis->0.relative->0.vector.amplitude.times(height(ms)).same_value(
                height_of(ms[i]),
            )
            &&& after.analysis->0.relative->0.max_x == width(ms)
            &&& after.analysis->0.relative->0.max_y == height(ms)
            &&& after.point == ms[i].point
            &&& after.vector == ms[i].vector
            &&& after.distance == ms[i].distance
        }),
{
    assert(ms[i].location() == place_of(ms[i]));
    assert(ms[i].amplitude() == height_of(ms[i]));
}

/// The batch of a window holds as many measurements as the window has points, the points themselves
/// in their order, and says whose they are.
pub proof fn law_a_window_batch_holds_its_points(
    batch: Batch,
    points: Seq<PointView>,
    start: int,
    size: int,
    resolution: Resolution,
    aspect: AspectId,
    database_info: DatabaseInfo,
    k: int,
)
    requires
        is_window_batch(batch, points, start, size, resolution, aspect, database_info),
        0 <= start,
        0 <= k < size,
        start + size <= points.len(),
    ensures
        batch.ms().len() == size,
        batch.ms()[k].point == points[start + k],
        place_of(batch.ms()[k]) == whole(points[start + k].timestamp.seconds as int),
        height_of(batch.ms()[k]) == points[start + k].value,
        batch.metadata.size == size,
        batch.metadata.aspect == aspect,
        batch.metadata.resolution == resolution,
        batch.metadata.database_info@ == database_info@,
{
    law_a_window_holds_its_points(points, start, size, k);
}

/// Whether each location lies behind the one before it.
pub open spec fn ascends(ms: Seq<BatchedView>) -> bool {
    forall|i: int, j: int|
        0 <= i < j < ms.len() ==> place_of(#[trigger] ms[i]).less_than(place_of(#[trigger] ms[j]))
}

proof fn lemma_moved_ascends(ms: Seq<BatchedView>)
    requires
        all_placed(ms),
        ascends(ms),
        ms.len() > 0,
    ensures
        runs_forward(transposed(ms, ms.len() as int)),
{
    let moved = transposed(ms, ms.len() as int);
    law_moving_keeps_the_distances(ms, 0, 0);
    assert forall|i: int, j: int| 0 <= i < j < moved.len() implies place_of(
        #[trigger] moved[i],
    ).less_than(place_of(#[trigger] moved[j])) by {
        law_moving_keeps_the_distances(ms, i, j);
        assert(place_of(ms[i]).less_than(place_of(ms[j])));
        lemma_difference_sign(place_of(ms[j]), place_of(ms[i]));
        lemma_difference_sign(place_of(moved[j]), place_of(moved[i]));
        let was = place_of(ms[j]).minus(place_of(ms[i]));
        let is = place_of(moved[j]).minus(place_of(moved[i]));
        lemma_positive(is, was);
    }
}

proof fn lemma_positive(a: DecimalView, b: DecimalView)
    requires
        a.same_value(b),
        b.mantissa > 0,
    ensures
        a.mantissa > 0,
{
    let scale = max_int(a.scale, b.scale);
    let p = pow(10, (scale - a.scale) as nat);
    let q = pow(10, (scale - b.scale) as nat);
    let m = a.mantissa;
    let n = b.mantissa;
    vstd::arithmetic::power::lemma_pow_positive(10, (scale - a.scale) as nat);
    vstd::arithmetic::power::lemma_pow_positive(10, (scale - b.scale) as nat);
    assert(m > 0) by (nonlinear_arith)
        requires
            m * p == n * q,
            n > 0,
            p > 0,
            q > 0,
    ;
}

/// Shaping a batch whose measurements ascend keeps its first and its last measurement and puts the
/// first at zero; what it keeps in between are measurements of the batch, in their order, and the
/// batch is still the same one.
pub proof fn law_shaping_keeps_the_ends(before: Batch, after: Batch) -> (places: Seq<int>)
    requires
        shaped(before, after),
        ascends(before.ms()),
    ensures
        after.ms().len() == places.len(),
        ascend_within(places, before.ms().len()),
        places.len() > 0,
        places[0] == 0,
        places.last() == before.ms().len() - 1,
        forall|k: int|
            0 <= k < places.len() ==> (#[trigger] after.ms()[k]).point
                == before.ms()[places[k]].point,
        place_of(after.ms()[0]).mantissa == 0,
        after.metadata == before.metadata,
        after.batch_id == before.batch_id,
{
    let ms = before.ms();
    let level = choose|level: Seq<BatchedView>|
        {
            &&& #[trigger] is_leveled(ms, level)
            &&& after.ms() == simplified(transposed(level, level.len() as int))
        };
    let moved = transposed(level, level.len() as int);
    assert forall|i: int| 0 <= i < level.len() implies (#[trigger] level[i]).vector is Some
        && level[i].point == ms[i].point && place_of(level[i]) == place_of(ms[i]) by {
        assert(ms[i].vector is Some);
        assert(level[i] == ms[i].with_amplitude(level[i].amplitude()));
    }
    assert(ascends(level)) by {
        assert forall|i: int, j: int| 0 <= i < j < level.len() implies place_of(
            #[trigger] level[i],
        ).less_than(place_of(#[trigger] level[j])) by {
            assert(place_of(ms[i]).less_than(place_of(ms[j])));
        }
    }
    lemma_moved_ascends(level);
    law_moving_keeps_the_distances(level, 0, 0);
    let places = law_simplifying_keeps_the_turns(moved);
    assert forall|k: int| 0 <= k < places.len() implies (#[trigger] after.ms()[k]).point
        == ms[places[k]].point by {
        let p = places[k];
        assert(after.ms()[k] == moved[p]);
        law_moving_keeps_the_distances(level, p, p);
        assert(level[p].point == ms[p].point);
    }
    assert(after.ms()[0] == moved[places[0]]);
    places
}

}
