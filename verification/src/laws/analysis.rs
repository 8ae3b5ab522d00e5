//! What values between measurements are computed from, and how ranges of time are cut into chunks.
use crate::analysis::{
    chunk_end,
    chunk_points,
    chunks_for,
    expected_points,
    is_search_step,
    is_sorted,
    is_window,
    lacks_points,
    length_of,
    lies_at,
    overlap_of,
    plan_at,
    plan_note,
    plan_span,
    points_between,
    quotient,
    range_note,
    Place,
    PointFailure,
    PointPlan,
    PointSearch,
    RangePlan,
    SearchStep,
    Window,
    CHUNK_POINTS,
};
use crate::measurement::{Measurement, PointView};
use crate::resolution::{Resolution, Spline};
use crate::time::Timestamp;
use vstd::prelude::*;

verus! {

/// Whether the point at a place is one of those that a plan uses.
pub open spec fn uses(plan: PointPlan, k: int) -> bool {
    match plan {
        PointPlan::Exact(i) => k == i,
        PointPlan::Backward => k == 0 || k == 1,
        PointPlan::Forward(i) => k == i || k == i + 1,
        PointPlan::Linear(i) => k == i || k == i + 1,
        PointPlan::Quadratic(i) => k == i || k == i + 1 || k == i + 2,
        PointPlan::Cubic(i) => k == i || k == i + 1 || k == i + 2 || k == i + 3,
        PointPlan::Fallback(i) => k == i || k == i + 1,
    }
}

/// Whether an instant lies in the last gap and the curve is one through four points: it is drawn
/// through the four points before the instant then.
pub open spec fn is_drawn_from_before(count: nat, i: nat, method: Spline) -> bool {
    method == Spline::Cubic && i > 2 && i + 1 == count
}

/// The points of a plan are as many in a row as its span says.
pub proof fn law_a_span_is_what_is_used(plan: PointPlan, k: int)
    ensures
        uses(plan, k) <==> plan_span(plan).0 <= k < plan_span(plan).0 + plan_span(plan).1,
{
}

/// An instant between two points is enclosed by the points that its value is computed from: both
/// its neighbours are among them. Only the curve through four points leaves out the last point of
/// all, where the instant lies in the last gap; the neighbour before it is still used.
pub proof fn law_an_instant_is_enclosed(count: nat, i: usize, method: Spline)
    requires
        0 < i < count <= usize::MAX,
        !lacks_points(count, Place::Before(i), method),
    ensures
        plan_at(count, Place::Before(i), method) matches Ok(plan) ==> {
            &&& uses(plan, i - 1)
            &&& plan_span(plan).0 <= i - 1
            &&& !is_drawn_from_before(count, i as nat, method) ==> uses(plan, i as int) && i
                < plan_span(plan).0 + plan_span(plan).1
            &&& is_drawn_from_before(count, i as nat, method) ==> (forall|k: int|
                #[trigger] uses(plan, k) <==> i - 4 <= k < i)
        },
{
}

/// Between two points the value comes from the method that was asked for, through as many points as
/// it takes, and it is given exactly where there are enough points.
pub proof fn law_a_method_takes_its_points(count: nat, i: usize, method: Spline)
    requires
        0 < i < count <= usize::MAX,
    ensures
        plan_at(count, Place::Before(i), method) is Ok <==> count >= match method {
            Spline::Linear => 2,
            Spline::Quadratic => 3,
            Spline::Cubic => 4,
            Spline::Polynomial(degree, _) => degree + 1,
        },
        match plan_at(count, Place::Before(i), method) {
            Ok(plan) => match method {
                Spline::Linear => plan is Linear && plan_span(plan).1 == 2,
                Spline::Quadratic => plan is Quadratic && plan_span(plan).1 == 3,
                Spline::Cubic => plan is Cubic && plan_span(plan).1 == 4,
                Spline::Polynomial(_, _) => plan is Fallback && plan_span(plan).1 == 2,
            },
            Err(e) => match method {
                Spline::Linear => false,
                Spline::Quadratic => e is TooFewForQuadratic,
                Spline::Cubic => e is TooFewForCubic,
                Spline::Polynomial(degree, _) => e == PointFailure::TooFewForPolynomial(degree),
            },
        },
{
}

/// A parabola is drawn through the nearest points: the next one behind the instant and the two
/// before it, or, in the first gap, the first three.
pub proof fn law_a_parabola_goes_through_the_nearest(count: nat, i: usize, k: int)
    requires
        0 < i < count <= usize::MAX,
        count >= 3,
    ensures
        plan_at(count, Place::Before(i), Spline::Quadratic) is Ok,
        i >= 2 ==> (uses(plan_at(count, Place::Before(i), Spline::Quadratic)->Ok_0, k) <==> i - 2
            <= k <= i),
        i == 1 ==> (uses(plan_at(count, Place::Before(i), Spline::Quadratic)->Ok_0, k) <==> 0 <= k
            <= 2),
{
}

/// A curve through four points has two of them on either side of the instant, wherever there are
/// two on either side.
pub proof fn law_a_cubic_lies_evenly(count: nat, i: usize, k: int)
    requires
        2 <= i < count - 1,
        count <= usize::MAX,
    ensures
        plan_at(count, Place::Before(i), Spline::Cubic) is Ok,
        uses(plan_at(count, Place::Before(i), Spline::Cubic)->Ok_0, k) <==> i - 2 <= k <= i + 1,
{
}

/// Outside the points the value goes on from the two that are nearest, whatever the method, and
/// two are enough.
pub proof fn law_beyond_the_points_the_nearest_two_count(
    count: nat,
    i: usize,
    method: Spline,
    k: int,
)
    requires
        count <= usize::MAX,
        i == 0 || i >= count,
    ensures
        plan_at(count, Place::Before(i), method) is Ok <==> count >= 2,
        count == 0 ==> plan_at(count, Place::Before(i), method)->Err_0 is NoMeasurements,
        count == 1 ==> plan_at(count, Place::Before(i), method)->Err_0 is TooFewToExtrapolate,
        count >= 2 && i == 0 ==> plan_at(count, Place::Before(i), method)->Ok_0 is Backward && (
        uses(plan_at(count, Place::Before(i), method)->Ok_0, k) <==> 0 <= k < 2),
        count >= 2 && i >= count ==> plan_at(count, Place::Before(i), method)->Ok_0 is Forward && (
        uses(plan_at(count, Place::Before(i), method)->Ok_0, k) <==> count - 2 <= k < count),
{
}

/// At a point the value is that of the point, whatever the method and however few points there are.
pub proof fn law_a_point_stands_for_itself(count: nat, i: usize, method: Spline, k: int)
    requires
        i < count,
    ensures
        plan_at(count, Place::At(i), method) is Ok,
        plan_at(count, Place::At(i), method)->Ok_0 is Exact,
        uses(plan_at(count, Place::At(i), method)->Ok_0, k) <==> k == i,
{
}

/// The value at an instant between the first and the last of the points comes from points on both
/// sides of it in time, or from a point at the very instant.
pub proof fn law_values_come_from_around_the_instant(
    s: Seq<PointView>,
    t: Timestamp,
    place: Place,
    method: Spline,
)
    requires
        s.len() <= usize::MAX,
        is_sorted(s),
        lies_at(s, t, place),
        s.len() > 0,
        s[0].timestamp.total() <= t.total() <= s.last().timestamp.total(),
        !lacks_points(s.len(), place, method),
        place matches Place::Before(i) ==> !is_drawn_from_before(s.len(), i as nat, method),
    ensures
        plan_at(s.len(), place, method) matches Ok(plan) ==> {
            ||| exists|k: int|
                #![trigger s[k]]
                0 <= k < s.len() && uses(plan, k) && s[k].timestamp.total() == t.total() && (forall|
                    other: int,
                | #[trigger]
                    uses(plan, other) ==> other == k)
            ||| exists|a: int, b: int|
                #![trigger s[a], s[b]]
                0 <= a < b < s.len() && uses(plan, a) && uses(plan, b) && s[a].timestamp.total()
                    < t.total() < s[b].timestamp.total()
        },
{
    match place {
        Place::At(i) => {
            assert(s[i as int].timestamp.total() == t.total());
        },
        Place::Before(i) => {
            if i == 0 {
                assert(t.total() < s[0].timestamp.total());
            } else if i == s.len() {
                assert(s.last() == s[s.len() - 1]);
            } else {
                law_an_instant_is_enclosed(s.len(), i, method);
                let a: int = i - 1;
                let b: int = i as int;
                assert(s[a].timestamp.total() < t.total() < s[b].timestamp.total());
            }
        },
    }
}

/// An instant lies at one place among points: where it lies before a point and behind all that come
/// before it, it lies nowhere else.
pub proof fn law_an_instant_has_one_place(s: Seq<PointView>, t: Timestamp, p: Place, q: Place)
    requires
        s.len() <= usize::MAX,
        lies_at(s, t, p),
        lies_at(s, t, q),
    ensures
        p is Before ==> p == q,
        p is At ==> q is At && s[p->At_0 as int].timestamp.total() == s[q->At_0 as int].timestamp.total(),
{
    match (p, q) {
        (Place::At(i), Place::Before(_)) => {
            assert(s[i as int].timestamp.total() == t.total());
        },
        (Place::Before(_), Place::At(j)) => {
            assert(s[j as int].timestamp.total() == t.total());
        },
        (Place::Before(i), Place::Before(j)) => {
            if i < j {
                assert(s[i as int].timestamp.total() < t.total());
            } else if j < i {
                assert(s[j as int].timestamp.total() < t.total());
            }
        },
        _ => {},
    }
}

/// A range of time is expected to hold a point at its start and one more with every whole step.
pub proof fn law_a_range_holds_a_point_with_every_step(length: int, step: int)
    requires
        length >= 0,
        step > 0,
    ensures
        (expected_points(length, step) - 1) * step <= length < expected_points(length, step) * step,
{
    vstd::arithmetic::div_mod::lemma_fundamental_div_mod(length, step);
    let q: int = length / step;
    assert((q + 1) * step == q * step + step && q * step == step * q) by (nonlinear_arith);
}

/// The chunks of a range have room for all its points, and one chunk fewer would not.
pub proof fn law_chunks_have_room(expected: int)
    requires
        expected > 0,
    ensures
        (chunks_for(expected) - 1) * CHUNK_POINTS < expected <= chunks_for(expected) * CHUNK_POINTS,
{
}

/// Chunks share a range out evenly: so many of them fit into it, and not when each is a nanosecond
/// longer.
pub proof fn law_chunks_share_the_range(length: int, count: int)
    requires
        length >= 0,
        count > 0,
    ensures
        count * quotient(length, count) <= length < count * (quotient(length, count) + 1),
{
    vstd::arithmetic::div_mod::lemma_fundamental_div_mod(length, count);
    let q: int = length / count;
    assert(count * (q + 1) == count * q + count) by (nonlinear_arith);
}

/// A chunk ends one chunk length behind its beginning, or at the end of the range where that comes
/// first, so that it is never empty while there is something left.
pub proof fn law_a_chunk_ends_within_the_range(plan: RangePlan, current: int, end: int)
    requires
        current < end,
        plan.chunk_duration > 0,
    ensures
        current < chunk_end(plan, current, end) <= end,
        chunk_end(plan, current, end) - current <= plan.chunk_duration,
        chunk_end(plan, current, end) < end ==> chunk_end(plan, current, end) - current
            == plan.chunk_duration,
{
}

/// The points of a chunk are taken from all instants of the range that lie within the chunk or no
/// farther from it than the overlap.
pub proof fn law_a_window_reaches_as_far_as_the_overlap(
    w: Window,
    plan: RangePlan,
    start: Timestamp,
    end: Timestamp,
    current: Timestamp,
    instant: int,
)
    requires
        is_window(w, plan, start, end, current),
    ensures
        w.fetch_start.total() <= instant <= w.fetch_end.total() <==> {
            &&& start.total() <= instant <= end.total()
            &&& w.start.total() - instant <= plan.overlap
            &&& instant - w.end.total() <= plan.overlap
        },
{
}

/// Of points, those between two instants are kept, all of them and no others.
pub proof fn law_points_between_are_kept(s: Seq<PointView>, from: int, to: int, p: PointView)
    ensures
        points_between(s, from, to).contains(p) <==> s.contains(p) && from <= p.timestamp.total()
            <= to,
    decreases s.len(),
{
    reveal(Seq::filter);
    let keep = |p: PointView| from <= p.timestamp.total() <= to;
    if s.len() == 0 {
    } else {
        law_points_between_are_kept(s.drop_last(), from, to, p);
        let before = points_between(s.drop_last(), from, to);
        assert(s.contains(p) <==> s.drop_last().contains(p) || s.last() == p) by {
            if s.contains(p) && s.last() != p {
                let i = choose|i: int| 0 <= i < s.len() && s[i] == p;
                assert(s.drop_last()[i] == p);
            }
            if s.drop_last().contains(p) {
                let i = choose|i: int| 0 <= i < s.drop_last().len() && s.drop_last()[i] == p;
                assert(s[i] == p);
            }
            if s.last() == p {
                assert(s[s.len() - 1] == p);
            }
        }
        if keep(s.last()) {
            assert(points_between(s, from, to) == before.push(s.last()));
            assert(before.push(s.last()).contains(p) <==> before.contains(p) || s.last() == p) by {
                let after = before.push(s.last());
                if before.contains(p) {
                    let i = choose|i: int| 0 <= i < before.len() && before[i] == p;
                    assert(after[i] == p);
                }
                assert(after[before.len() as int] == s.last());
            }
        } else {
            assert(points_between(s, from, to) == before);
        }
    }
}

/// A chunk always hands out points: those that were interpolated, or one where there are none.
pub proof fn law_a_chunk_hands_out_points(interpolated: Seq<PointView>, end: Timestamp)
    ensures
        chunk_points(interpolated, end).len() > 0,
        interpolated.len() > 0 ==> chunk_points(interpolated, end) == interpolated,
        interpolated.len() == 0 ==> chunk_points(interpolated, end).len() == 1 && chunk_points(
            interpolated,
            end,
        )[0].timestamp == end && chunk_points(interpolated, end)[0].value.mantissa == 0,
{
}

/// The steps of the resolutions are multiples of each other as the units of time are; a month has
/// thirty days and a year 365.
pub proof fn law_steps_are_those_of_the_units()
    ensures
        Resolution::Nanoseconds.spec_step() == 1,
        Resolution::Microseconds.spec_step() == 1000 * Resolution::Nanoseconds.spec_step(),
        Resolution::Milliseconds.spec_step() == 1000 * Resolution::Microseconds.spec_step(),
        Resolution::Seconds.spec_step() == 1000 * Resolution::Milliseconds.spec_step(),
        Resolution::Minutes.spec_step() == 60 * Resolution::Seconds.spec_step(),
        Resolution::Hours.spec_step() == 60 * Resolution::Minutes.spec_step(),
        Resolution::Days.spec_step() == 24 * Resolution::Hours.spec_step(),
        Resolution::Weeks.spec_step() == 7 * Resolution::Days.spec_step(),
        Resolution::Months.spec_step() == 30 * Resolution::Days.spec_step(),
        Resolution::Years.spec_step() == 365 * Resolution::Days.spec_step(),
{
}

/// Neighbouring chunks overlap by one step less than the method needs points, so that the curve
/// over the seam is drawn through the same points from both sides; and as many points as a plan
/// between two points takes are no more than the method needs.
pub proof fn law_chunks_overlap_by_what_the_method_needs(count: nat, i: usize, method: Spline)
    requires
        0 < i < count <= usize::MAX,
        method matches Spline::Polynomial(degree, _) ==> degree >= 1,
    ensures
        method.spec_overlap() == method.spec_points_needed() - 1,
        plan_at(count, Place::Before(i), method) is Ok <==> count >= method.spec_points_needed(),
        plan_at(count, Place::Before(i), method) matches Ok(plan) ==> plan_span(plan).1
            <= method.spec_points_needed(),
{
}

/// How a value came about is told alike by the plan for its instant and by where the instant lies
/// among measurements: nothing between the first and the last of them, and the direction beyond.
pub proof fn law_notes_agree(s: Seq<PointView>, t: Timestamp, place: Place, method: Spline)
    requires
        2 <= s.len() <= usize::MAX,
        is_sorted(s),
        lies_at(s, t, place),
    ensures
        plan_at(s.len(), place, method) matches Ok(plan) ==> !(plan is Fallback) ==> plan_note(plan)
            == range_note(
            s.len(),
            t.total(),
            s[0].timestamp.total(),
            s.last().timestamp.total(),
        ),
{
    assert(s.last() == s[s.len() - 1]);
    match place {
        Place::At(i) => {
            assert(s[0].timestamp.total() <= s[i as int].timestamp.total());
            assert(s[i as int].timestamp.total() <= s[s.len() - 1].timestamp.total());
        },
        Place::Before(i) => {
            if i == 0 {
                assert(t.total() < s[0].timestamp.total());
            } else {
                assert(s[0].timestamp.total() < t.total());
                if i < s.len() {
                    assert(t.total() < s[s.len() - 1].timestamp.total());
                } else {
                    assert(s[s.len() - 1].timestamp.total() < t.total());
                }
            }
        },
    }
}

/// The length of a range is the time between its ends, as long as it can be counted in nanoseconds;
/// the range is cut into chunks that overlap by as many steps as the method needs points behind the
/// first.
pub proof fn law_lengths_and_overlaps(
    start: Timestamp,
    end: Timestamp,
    method: Spline,
    step: int,
)
    ensures
        i64::MIN <= end.total() - start.total() <= i64::MAX ==> length_of(start, end) == end.total()
            - start.total(),
        method.spec_points_needed() - 1 <= i32::MAX ==> overlap_of(method, step) == (
        method.spec_points_needed() - 1) * step,
{
}

/// A search ends on an empty page, where the instant has been met and enough has been read, and
/// after the eleventh page, and nowhere else. It counts all that it has read, and does not forget
/// that the instant was met.
pub proof fn law_a_search_ends_where_it_may(
    s: PointSearch,
    page: Seq<Measurement>,
    time: Timestamp,
    needed: usize,
    after: PointSearch,
    r: SearchStep,
)
    requires
        s.page <= 10,
        is_search_step(s, page, time, needed, after, r),
    ensures
        after.count - s.count == page.len(),
        s.found ==> after.found,
        page.len() > 0 && page[0].timestamp.total() <= time.total()
            <= page.last().timestamp.total() ==> after.found,
        after.found && !s.found ==> page.len() > 0 && page[0].timestamp.total() <= time.total()
            <= page.last().timestamp.total(),
        r is Exhausted <==> page.len() == 0,
        r == SearchStep::Exhausted(true) ==> s.page == 0,
        r == SearchStep::Exhausted(false) ==> s.page > 0,
        r is Stop <==> page.len() > 0 && (after.found && after.count >= needed || s.page == 10),
        r is Continue ==> after.page == s.page + 1,
        r is Exhausted ==> after.page == s.page,
        r is Stop ==> after.page == if after.found && after.count >= needed {
            s.page as int
        } else {
            11
        },
{
}

}
