//! What is interpolated for an instant or a range of time, from which points and in which chunks.
use crate::decimal::{whole, Decimal};
use crate::error::Error;
use crate::measurement::{point_views, Measurement, Point, PointView};
use crate::resolution::{Resolution, Spline};
use crate::text::{join, nat_text, u64_text};
use crate::time::{Timestamp, MAX_SECONDS, MIN_SECONDS};
use vstd::prelude::*;

verus! {

/// What an analysis came to.
#[derive(Debug)]
pub struct AnalysisResult {
    pub timestamp: Timestamp,
    pub value: Decimal,
    pub method: String,
    pub resolution: String,
}

impl AnalysisResult {
    pub fn new(timestamp: Timestamp, value: Decimal, method: String, resolution: String) -> (r:
        AnalysisResult)
        ensures
            r.timestamp == timestamp,
            r.value == value,
            r.method == method,
            r.resolution == resolution,
    {
        AnalysisResult { timestamp, value, method, resolution }
    }

    pub fn timestamp(&self) -> (r: Timestamp)
        ensures
            r == self.timestamp,
    {
        self.timestamp
    }

    pub fn value(&self) -> (r: &Decimal)
        ensures
            *r == self.value,
    {
        &self.value
    }

    pub fn method(&self) -> (r: &str)
        ensures
            r@ == self.method@,
    {
        self.method.as_str()
    }

    pub fn resolution(&self) -> (r: &str)
        ensures
            r@ == self.resolution@,
    {
        self.resolution.as_str()
    }

    /// The point that was analysed.
    pub fn point(&self) -> (r: Point)
        ensures
            r@ == (PointView { timestamp: self.timestamp, value: self.value@ }),
    {
        Point { timestamp: self.timestamp, value: self.value.clone() }
    }
}

/// Whether points are in the order of their instants.
pub open spec fn is_sorted(s: Seq<PointView>) -> bool {
    forall|i: int, j: int|
        0 <= i <= j < s.len() ==> (#[trigger] s[i]).timestamp.total() <= (
        #[trigger] s[j]).timestamp.total()
}

pub open spec fn all_points_valid(s: Seq<PointView>) -> bool {
    forall|i: int| 0 <= i < s.len() ==> (#[trigger] s[i]).timestamp.is_valid()
}

/// Where an instant lies among points: at one of them, or before the point at a place, behind all
/// that come before it.
#[derive(Debug, Clone, Copy, PartialEq, Eq, Structural)]
pub enum Place {
    At(usize),
    Before(usize),
}

/// Whether an instant lies at a place among points.
pub open spec fn lies_at(s: Seq<PointView>, t: Timestamp, place: Place) -> bool {
    match place {
        Place::At(i) => i < s.len() && s[i as int].timestamp.total() == t.total(),
        Place::Before(i) => {
            &&& i <= s.len()
            &&& forall|k: int| 0 <= k < i ==> (#[trigger] s[k]).timestamp.total() < t.total()
            &&& forall|k: int|
                i <= k < s.len() ==> t.total() < (#[trigger] s[k]).timestamp.total()
        },
    }
}

/// Where an instant lies among points that are in order. Of several points at one instant it is
/// left open which is found.
pub fn find_place(points: &Vec<Point>, time: &Timestamp) -> (r: Place)
    requires
        is_sorted(point_views(points@)),
        all_points_valid(point_views(points@)),
        time.is_valid(),
    ensures
        lies_at(point_views(points@), *time, r),
{
    let ghost views = point_views(points@);
    let mut low: usize = 0;
    let mut high: usize = points.len();
    while low < high
        invariant
            low <= high <= points.len(),
            views == point_views(points@),
            is_sorted(views),
            all_points_valid(views),
            time.is_valid(),
            forall|k: int| 0 <= k < low ==> (#[trigger] views[k]).timestamp.total() < time.total(),
            forall|k: int|
                high <= k < views.len() ==> time.total() < (#[trigger] views[k]).timestamp.total(),
        decreases high - low,
    {
        let middle: usize = low + (high - low) / 2;
        assert(views[middle as int] == points@[middle as int]@);
        assert(views[middle as int].timestamp.is_valid());
        if points[middle].timestamp.before(time) {
            assert forall|k: int| 0 <= k <= middle implies (#[trigger] views[k]).timestamp.total()
                < time.total() by {
                assert(views[k].timestamp.total() <= views[middle as int].timestamp.total());
            }
            low = middle + 1;
        } else if time.before(&points[middle].timestamp) {
            assert forall|k: int| middle <= k < views.len() implies time.total() < (
            #[trigger] views[k]).timestamp.total() by {
                assert(views[middle as int].timestamp.total() <= views[k].timestamp.total());
            }
            high = middle;
        } else {
            return Place::At(middle);
        }
    }
    Place::Before(low)
}

/// What the value at an instant is computed from: a point as it is, or points from a place on.
#[derive(Debug, Clone, Copy, PartialEq, Eq, Structural)]
pub enum PointPlan {
    /// The point at a place.
    Exact(usize),
    /// The line through the first two points, before them.
    Backward,
    /// The line through the last two points, of which the first is at a place, behind them.
    Forward(usize),
    /// The line through the point at a place and the next one.
    Linear(usize),
    /// The parabola through three points.
    Quadratic(usize),
    /// The cubic curve through four points.
    Cubic(usize),
    /// The line through two points, in place of a polynomial.
    Fallback(usize),
}

/// Why the value at an instant cannot be computed.
#[derive(Debug, Clone, Copy, PartialEq, Eq, Structural)]
pub enum PointFailure {
    NoMeasurements,
    TooFewToExtrapolate,
    TooFewForQuadratic,
    TooFewForCubic,
    TooFewForPolynomial(usize),
}

impl PointFailure {
    pub open spec fn spec_message(self) -> Seq<char> {
        match self {
            PointFailure::NoMeasurements => "No measurements found for aspect"@,
            PointFailure::TooFewToExtrapolate => "Insufficient measurements for extrapolation"@,
            PointFailure::TooFewForQuadratic =>
                "Insufficient measurements for quadratic interpolation"@,
            PointFailure::TooFewForCubic => "Insufficient measurements for cubic interpolation"@,
            PointFailure::TooFewForPolynomial(degree) =>
                "Insufficient measurements for polynomial interpolation of degree "@ + nat_text(
                degree as nat,
            ),
        }
    }

    /// The error that tells the failure.
    pub fn error(self) -> (r: Error)
        ensures
            r is Message,
            r.spec_message() == self.spec_message(),
    {
        Error::Message(
            match self {
                PointFailure::NoMeasurements => "No measurements found for aspect".to_owned(),
                PointFailure::TooFewToExtrapolate =>
                    "Insufficient measurements for extrapolation".to_owned(),
                PointFailure::TooFewForQuadratic =>
                    "Insufficient measurements for quadratic interpolation".to_owned(),
                PointFailure::TooFewForCubic =>
                    "Insufficient measurements for cubic interpolation".to_owned(),
                PointFailure::TooFewForPolynomial(degree) => join(
                    "Insufficient measurements for polynomial interpolation of degree ",
                    u64_text(degree as u64).as_str(),
                ),
            },
        )
    }
}

/// What the value at a place among so many points is computed from.
pub open spec fn plan_at(count: nat, place: Place, method: Spline) -> Result<
    PointPlan,
    PointFailure,
> {
    if count == 0 {
        Err(PointFailure::NoMeasurements)
    } else {
        match place {
            Place::At(i) => Ok(PointPlan::Exact(i)),
            Place::Before(i) => if i == 0 || i >= count {
                if count < 2 {
                    Err(PointFailure::TooFewToExtrapolate)
                } else if i == 0 {
                    Ok(PointPlan::Backward)
                } else {
                    Ok(PointPlan::Forward((count - 2) as usize))
                }
            } else {
                match method {
                    Spline::Linear => Ok(PointPlan::Linear((i - 1) as usize)),
                    Spline::Quadratic => if count < 3 {
                        Err(PointFailure::TooFewForQuadratic)
                    } else if i == 1 {
                        Ok(PointPlan::Quadratic(0))
                    } else {
                        Ok(PointPlan::Quadratic((i - 2) as usize))
                    },
                    Spline::Cubic => if count < 4 {
                        Err(PointFailure::TooFewForCubic)
                    } else if i <= 2 {
                        Ok(PointPlan::Cubic(0))
                    } else if i >= count - 1 {
                        Ok(PointPlan::Cubic((i - 4) as usize))
                    } else {
                        Ok(PointPlan::Cubic((i - 2) as usize))
                    },
                    Spline::Polynomial(degree, _) => if count < degree + 1 {
                        Err(PointFailure::TooFewForPolynomial(degree))
                    } else {
                        Ok(PointPlan::Fallback((i - 1) as usize))
                    },
                }
            },
        }
    }
}

/// Whether the curve through four points would need one before the first: of four points, the
/// instant lies between the last two.
pub open spec fn lacks_points(count: nat, place: Place, method: Spline) -> bool {
    method == Spline::Cubic && count == 4 && place == Place::Before(3)
}

/// The places of the points that a plan uses: from the first on, so many.
pub open spec fn plan_span(plan: PointPlan) -> (int, int) {
    match plan {
        PointPlan::Exact(i) => (i as int, 1),
        PointPlan::Backward => (0, 2),
        PointPlan::Forward(i) => (i as int, 2),
        PointPlan::Linear(i) => (i as int, 2),
        PointPlan::Quadratic(i) => (i as int, 3),
        PointPlan::Cubic(i) => (i as int, 4),
        PointPlan::Fallback(i) => (i as int, 2),
    }
}

/// What the value at an instant is computed from.
pub fn plan_point(count: usize, place: Place, method: Spline) -> (r: Result<
    PointPlan,
    PointFailure,
>)
    requires
        !lacks_points(count as nat, place, method),
    ensures
        r == plan_at(count as nat, place, method),
{
    if count == 0 {
        return Err(PointFailure::NoMeasurements);
    }
    match place {
        Place::At(i) => Ok(PointPlan::Exact(i)),
        Place::Before(i) => {
            if i == 0 || i >= count {
                if count < 2 {
                    Err(PointFailure::TooFewToExtrapolate)
                } else if i == 0 {
                    Ok(PointPlan::Backward)
                } else {
                    Ok(PointPlan::Forward(count - 2))
                }
            } else {
                match method {
                    Spline::Linear => Ok(PointPlan::Linear(i - 1)),
                    Spline::Quadratic => {
                        if count < 3 {
                            Err(PointFailure::TooFewForQuadratic)
                        } else if i == 1 {
                            Ok(PointPlan::Quadratic(0))
                        } else {
                            Ok(PointPlan::Quadratic(i - 2))
                        }
                    },
                    Spline::Cubic => {
                        if count < 4 {
                            Err(PointFailure::TooFewForCubic)
                        } else if i <= 2 {
                            Ok(PointPlan::Cubic(0))
                        } else if i >= count - 1 {
                            Ok(PointPlan::Cubic(i - 4))
                        } else {
                            Ok(PointPlan::Cubic(i - 2))
                        }
                    },
                    Spline::Polynomial(degree, _) => {
                        if count <= degree {
                            Err(PointFailure::TooFewForPolynomial(degree))
                        } else {
                            Ok(PointPlan::Fallback(i - 1))
                        }
                    },
                }
            }
        },
    }
}

/// A plan uses only points that there are.
pub proof fn law_plan_uses_present_points(count: nat, place: Place, method: Spline)
    requires
        count <= usize::MAX,
        !lacks_points(count, place, method),
        match place {
            Place::At(i) => i < count,
            Place::Before(i) => i <= count,
        },
    ensures
        plan_at(count, place, method) matches Ok(plan) ==> 0 <= plan_span(plan).0 && plan_span(
            plan,
        ).0 + plan_span(plan).1 <= count,
{
}

/// How a value came about, as it is told behind the method.
pub open spec fn plan_note(plan: PointPlan) -> Seq<char> {
    match plan {
        PointPlan::Backward => " (backward extrapolation)"@,
        PointPlan::Forward(_) => " (forward extrapolation)"@,
        PointPlan::Fallback(_) => " (fallback to linear)"@,
        _ => ""@,
    }
}

/// The method, given by its text, and how a value came about with it.
pub fn describe_plan(method: &str, plan: PointPlan) -> (r: String)
    ensures
        r@ == method@ + plan_note(plan),
{
    match plan {
        PointPlan::Backward => join(method, " (backward extrapolation)"),
        PointPlan::Forward(_) => join(method, " (forward extrapolation)"),
        PointPlan::Fallback(_) => join(method, " (fallback to linear)"),
        _ => join(method, ""),
    }
}

/// How a value came about from measurements between two instants.
pub open spec fn range_note(count: nat, time: int, first: int, last: int) -> Seq<char> {
    if count < 2 {
        " (insufficient data)"@
    } else if time < first {
        " (backward extrapolation)"@
    } else if time > last {
        " (forward extrapolation)"@
    } else {
        ""@
    }
}

/// The method, given by its text, and how a value at an instant came about with it from
/// measurements that are in order.
pub fn describe_method(method: &str, time: &Timestamp, measurements: &Vec<Measurement>) -> (r: String)
    requires
        time.is_valid(),
        forall|i: int|
            0 <= i < measurements.len() ==> (#[trigger] measurements@[i]).timestamp.is_valid(),
        measurements.len() > 0,
    ensures
        r@ == method@ + range_note(
            measurements@.len(),
            time.total(),
            measurements@[0].timestamp.total(),
            measurements@.last().timestamp.total(),
        ),
{
    if measurements.len() < 2 {
        return join(method, " (insufficient data)");
    }
    let first = &measurements[0].timestamp;
    let last = &measurements[measurements.len() - 1].timestamp;
    assert(measurements@[0].timestamp.is_valid());
    assert(measurements@.last().timestamp.is_valid());
    if time.before(first) {
        join(method, " (backward extrapolation)")
    } else if last.before(time) {
        join(method, " (forward extrapolation)")
    } else {
        join(method, "")
    }
}

/// The range of time around an instant in which measurements are looked for.
pub fn point_window(time: &Timestamp, resolution: Resolution) -> (r: (Timestamp, Timestamp))
    requires
        time.is_valid(),
        MIN_SECONDS * 1_000_000_000 <= time.total() - 100 * resolution.spec_step(),
        time.total() + 100 * resolution.spec_step() < (MAX_SECONDS + 1) * 1_000_000_000,
    ensures
        r.0.is_valid(),
        r.1.is_valid(),
        r.0.total() == time.total() - 100 * resolution.spec_step(),
        r.1.total() == time.total() + 100 * resolution.spec_step(),
{
    let window: i128 = resolution.step_nanos() as i128 * 100;
    let at: i128 = time.nanoseconds();
    (Timestamp::from_nanoseconds(at - window), Timestamp::from_nanoseconds(at + window))
}

/// How far the search for measurements around an instant has come.
#[derive(Debug, Clone, Copy, PartialEq, Eq, Structural)]
pub struct PointSearch {
    pub page: usize,
    pub found: bool,
    pub count: usize,
}

/// The largest number of a page that is still looked at.
pub const LAST_PAGE: usize = 10;

/// Whether an instant lies between the first and the last measurement of a page.
pub open spec fn covers(page: Seq<Measurement>, t: Timestamp) -> bool {
    &&& page.len() > 0
    &&& page[0].timestamp.total() <= t.total() <= page.last().timestamp.total()
}

/// How a search goes on after a page of measurements, and what it does then.
pub open spec fn is_search_step(
    s: PointSearch,
    page: Seq<Measurement>,
    time: Timestamp,
    needed: usize,
    after: PointSearch,
    r: SearchStep,
) -> bool {
    &&& page.len() == 0 ==> r == SearchStep::Exhausted(s.page == 0) && after == s
    &&& page.len() > 0 ==> {
        &&& after.found == (s.found || covers(page, time))
        &&& after.count == s.count + page.len()
        &&& if after.found && after.count >= needed {
            r == SearchStep::Stop && after.page == s.page
        } else {
            &&& after.page == s.page + 1
            &&& r == if after.page > LAST_PAGE {
                SearchStep::Stop
            } else {
                SearchStep::Continue
            }
        }
    }
}

/// What the search for measurements does after a page.
#[derive(Debug, Clone, Copy, PartialEq, Eq, Structural)]
pub enum SearchStep {
    /// The page was empty: the search ends. The ends of all measurements are looked at where it was
    /// the first page.
    Exhausted(bool),
    /// There are enough measurements, or too many pages: the search ends.
    Stop,
    /// The next page is looked at.
    Continue,
}

impl PointSearch {
    pub fn start() -> (r: PointSearch)
        ensures
            r == (PointSearch { page: 0, found: false, count: 0 }),
    {
        PointSearch { page: 0, found: false, count: 0 }
    }

    /// Takes a page of measurements in, which are in order. The search ends where the instant lies
    /// within a page and there are enough measurements for the method, where a page is empty, and
    /// after the last page that is looked at.
    pub fn absorb(&mut self, page: &Vec<Measurement>, time: &Timestamp, needed: usize) -> (r:
        SearchStep)
        requires
            old(self).page <= LAST_PAGE,
            old(self).count + page.len() <= usize::MAX,
            time.is_valid(),
            forall|i: int| 0 <= i < page.len() ==> (#[trigger] page@[i]).timestamp.is_valid(),
        ensures
            is_search_step(*old(self), page@, *time, needed, *final(self), r),
    {
        if page.len() == 0 {
            return SearchStep::Exhausted(self.page == 0);
        }
        let first = &page[0].timestamp;
        let last = &page[page.len() - 1].timestamp;
        assert(page@[0].timestamp.is_valid());
        assert(page@.last().timestamp.is_valid());
        if !time.before(first) && !last.before(time) {
            self.found = true;
        }
        self.count = self.count + page.len();
        if self.found && self.count >= needed {
            return SearchStep::Stop;
        }
        self.page = self.page + 1;
        if self.page > LAST_PAGE {
            SearchStep::Stop
        } else {
            SearchStep::Continue
        }
    }
}

/// The point at an instant: the first of those that were interpolated, or zero where there is none.
pub fn first_point(interpolated: &Vec<Point>, time: &Timestamp) -> (r: Point)
    ensures
        r@ == if interpolated@.len() > 0 {
            interpolated@[0]@
        } else {
            PointView { timestamp: *time, value: whole(0) }
        },
{
    if interpolated.len() > 0 {
        interpolated[0].clone()
    } else {
        Point { timestamp: *time, value: Decimal::from_i64(0) }
    }
}

/// Division that drops the fraction.
pub open spec fn quotient(a: int, b: int) -> int {
    if a >= 0 {
        a / b
    } else {
        -((-a) / b)
    }
}

/// A length of time in nanoseconds, where it fits, and else the largest that does.
pub open spec fn saturated(ns: int) -> int {
    if i64::MIN <= ns <= i64::MAX {
        ns
    } else {
        i64::MAX as int
    }
}

/// The length of a range of time in nanoseconds.
pub open spec fn length_of(start: Timestamp, end: Timestamp) -> int {
    saturated(end.total() - start.total())
}

/// The number of points that are expected for a range of time.
pub open spec fn expected_points(length: int, step: int) -> int {
    quotient(length, step) + 1
}

/// The number of points in a chunk.
pub const CHUNK_POINTS: i64 = 100_000;

/// The number of points up to which a range is interpolated at once.
pub const WHOLE_LIMIT: i64 = 1_000_000;

/// The number of chunks for so many points.
pub open spec fn chunks_for(expected: int) -> int {
    if expected > 0 {
        (expected + CHUNK_POINTS - 1) / CHUNK_POINTS as int
    } else {
        1
    }
}

/// How a range of time is interpolated: in how many chunks, how long they are and by how much they
/// overlap, in nanoseconds.
#[derive(Debug, Clone, Copy, PartialEq, Eq, Structural)]
pub struct RangePlan {
    pub expected: i64,
    pub chunk_count: i64,
    pub chunk_duration: i64,
    pub overlap: i64,
}

/// The length of time by which chunks overlap. Of a degree beyond `i32` three steps count.
pub open spec fn overlap_of(method: Spline, step: int) -> int {
    if method.spec_overlap() <= i32::MAX {
        method.spec_overlap() * step
    } else {
        3 * step
    }
}

/// How a range of time is interpolated.
pub fn plan_range(start: &Timestamp, end: &Timestamp, resolution: Resolution, method: Spline) -> (r:
    RangePlan)
    requires
        start.is_valid(),
        end.is_valid(),
        expected_points(length_of(*start, *end), resolution.spec_step()) + CHUNK_POINTS - 1
            <= i64::MAX,
        overlap_of(method, resolution.spec_step()) <= i64::MAX,
    ensures
        r.expected == expected_points(length_of(*start, *end), resolution.spec_step()),
        r.chunk_count == chunks_for(r.expected as int),
        r.chunk_count >= 1,
        r.chunk_duration == quotient(length_of(*start, *end), r.chunk_count as int),
        r.overlap == overlap_of(method, resolution.spec_step()),
{
    let difference: i128 = end.nanoseconds() - start.nanoseconds();
    let length: i64 = if difference >= -0x8000_0000_0000_0000 && difference
        <= 0x7fff_ffff_ffff_ffff {
        difference as i64
    } else {
        0x7fff_ffff_ffff_ffff
    };
    let step: i64 = resolution.step_nanos();
    proof {
        lemma_quotient_bounds(length as int, step as int);
    }
    let expected: i64 = divided(length, step) + 1;
    let chunk_count: i64 = if expected > 0 {
        (expected + (CHUNK_POINTS - 1)) / CHUNK_POINTS
    } else {
        1
    };
    let steps: usize = method.overlap();
    let overlap: i64 = if steps as u64 <= 0x7fff_ffff {
        proof {
            assert(0 <= steps * step) by (nonlinear_arith)
                requires
                    steps >= 0,
                    step >= 0,
            ;
        }
        steps as i64 * step
    } else {
        3 * step
    };
    RangePlan { expected, chunk_count, chunk_duration: divided(length, chunk_count), overlap }
}

proof fn lemma_quotient_bounds(a: int, b: int)
    requires
        b >= 1,
    ensures
        a >= 0 ==> 0 <= quotient(a, b) <= a,
        a < 0 ==> a <= quotient(a, b) <= 0,
{
    if a >= 0 {
        vstd::arithmetic::div_mod::lemma_div_nonincreasing(a, b);
        vstd::arithmetic::div_mod::lemma_div_pos_is_pos(a, b);
    } else {
        vstd::arithmetic::div_mod::lemma_div_nonincreasing(-a, b);
        vstd::arithmetic::div_mod::lemma_div_pos_is_pos(-a, b);
    }
}

fn divided(a: i64, b: i64) -> (r: i64)
    requires
        b >= 1,
    ensures
        r == quotient(a as int, b as int),
{
    proof {
        lemma_quotient_bounds(a as int, b as int);
    }
    if a >= 0 {
        a / b
    } else {
        let wide: i128 = -(a as i128);
        (-(wide / b as i128)) as i64
    }
}

/// Whether a range is interpolated at once.
pub fn is_whole(plan: &RangePlan) -> (r: bool)
    ensures
        r == (plan.expected < WHOLE_LIMIT),
{
    plan.expected < WHOLE_LIMIT
}

/// The end of the chunk that begins at an instant.
pub open spec fn chunk_end(plan: RangePlan, current: int, end: int) -> int {
    if current + plan.chunk_duration < end {
        current + plan.chunk_duration
    } else {
        end
    }
}

/// A chunk of a range: what is interpolated, and the wider range that points are taken from.
#[derive(Debug, Clone, Copy, PartialEq, Eq, Structural)]
pub struct Window {
    pub start: Timestamp,
    pub end: Timestamp,
    pub fetch_start: Timestamp,
    pub fetch_end: Timestamp,
}

pub open spec fn max_of(a: int, b: int) -> int {
    if a >= b {
        a
    } else {
        b
    }
}

pub open spec fn min_of(a: int, b: int) -> int {
    if a <= b {
        a
    } else {
        b
    }
}

/// Whether a window is the chunk of a range that begins at an instant.
pub open spec fn is_window(
    w: Window,
    plan: RangePlan,
    start: Timestamp,
    end: Timestamp,
    current: Timestamp,
) -> bool {
    &&& w.start == current
    &&& w.end.is_valid()
    &&& w.end.total() == chunk_end(plan, current.total(), end.total())
    &&& w.fetch_start.is_valid()
    &&& w.fetch_start.total() == max_of(current.total() - plan.overlap, start.total())
    &&& w.fetch_end.is_valid()
    &&& w.fetch_end.total() == min_of(w.end.total() + plan.overlap, end.total())
}

/// The chunk of a range that begins at an instant; none at the end.
pub fn next_window(plan: &RangePlan, start: &Timestamp, end: &Timestamp, current: &Timestamp) -> (r:
    Option<Window>)
    requires
        start.is_valid(),
        end.is_valid(),
        current.is_valid(),
        start.total() <= current.total(),
        plan.chunk_duration >= 0,
        plan.overlap >= 0,
    ensures
        r is None <==> current.total() >= end.total(),
        r matches Some(w) ==> is_window(w, *plan, *start, *end, *current),
{
    if !current.before(end) {
        return None;
    }
    let from: i128 = current.nanoseconds();
    let last: i128 = end.nanoseconds();
    let first: i128 = start.nanoseconds();
    let to: i128 = if from + (plan.chunk_duration as i128) < last {
        from + plan.chunk_duration as i128
    } else {
        last
    };
    let fetch_from: i128 = if from - plan.overlap as i128 >= first {
        from - plan.overlap as i128
    } else {
        first
    };
    let fetch_to: i128 = if to + plan.overlap as i128 <= last {
        to + plan.overlap as i128
    } else {
        last
    };
    Some(
        Window {
            start: *current,
            end: Timestamp::from_nanoseconds(to),
            fetch_start: Timestamp::from_nanoseconds(fetch_from),
            fetch_end: Timestamp::from_nanoseconds(fetch_to),
        },
    )
}

/// The points between two instants, both included.
pub open spec fn points_between(s: Seq<PointView>, from: int, to: int) -> Seq<PointView> {
    s.filter(|p: PointView| from <= p.timestamp.total() <= to)
}

/// The points that the chunk of a window is interpolated from.
pub fn window_points(points: &Vec<Point>, window: &Window) -> (r: Vec<Point>)
    requires
        all_points_valid(point_views(points@)),
        window.fetch_start.is_valid(),
        window.fetch_end.is_valid(),
    ensures
        point_views(r@) == points_between(
            point_views(points@),
            window.fetch_start.total(),
            window.fetch_end.total(),
        ),
{
    let ghost views = point_views(points@);
    let ghost keep = |p: PointView|
        window.fetch_start.total() <= p.timestamp.total() <= window.fetch_end.total();
    let mut r: Vec<Point> = Vec::new();
    let mut i: usize = 0;
    proof {
        reveal(Seq::filter);
        assert(views.take(0) =~= Seq::<PointView>::empty());
        assert(point_views(r@) =~= views.take(0).filter(keep));
    }
    while i < points.len()
        invariant
            i <= points.len(),
            views == point_views(points@),
            all_points_valid(views),
            window.fetch_start.is_valid(),
            window.fetch_end.is_valid(),
            keep == (|p: PointView|
                window.fetch_start.total() <= p.timestamp.total() <= window.fetch_end.total()),
            point_views(r@) == views.take(i as int).filter(keep),
        decreases points.len() - i,
    {
        let ghost before = r@;
        proof {
            reveal(Seq::filter);
            assert(views[i as int] == points@[i as int]@);
            assert(views[i as int].timestamp.is_valid());
            assert(views.take(i + 1).drop_last() =~= views.take(i as int));
        }
        let at = &points[i].timestamp;
        if !at.before(&window.fetch_start) && !window.fetch_end.before(at) {
            r.push(points[i].clone());
            assert(point_views(r@) =~= point_views(before).push(views[i as int]));
        }
        i += 1;
    }
    assert(views.take(views.len() as int) =~= views);
    r
}

/// The points of a chunk that are handed out: those that were interpolated, or a single zero at the
/// end of the chunk where there is none, be it that no points lay in its window.
pub open spec fn chunk_points(interpolated: Seq<PointView>, end: Timestamp) -> Seq<PointView> {
    if interpolated.len() > 0 {
        interpolated
    } else {
        seq![PointView { timestamp: end, value: whole(0) }]
    }
}

/// The points of a chunk that are handed out.
pub fn chunk_output(interpolated: Vec<Point>, window: &Window) -> (r: Vec<Point>)
    ensures
        point_views(r@) == chunk_points(point_views(interpolated@), window.end),
{
    if interpolated.len() > 0 {
        interpolated
    } else {
        let mut r: Vec<Point> = Vec::new();
        r.push(Point { timestamp: window.end, value: Decimal::from_i64(0) });
        assert(point_views(r@) =~= seq![PointView { timestamp: window.end, value: whole(0) }]);
        r
    }
}

/// How a series goes on behind a chunk that could not be interpolated.
#[derive(Debug, Clone, Copy, PartialEq, Eq, Structural)]
pub enum OnBadChunk {
    /// It ends.
    End,
    /// The same chunk is interpolated again.
    Again,
}

/// A range of time that is interpolated chunk by chunk.
#[derive(Debug, Clone, Copy, PartialEq, Eq, Structural)]
pub struct ChunkSeries {
    pub plan: RangePlan,
    pub start: Timestamp,
    pub end: Timestamp,
    pub current: Timestamp,
    pub is_done: bool,
    pub on_bad_chunk: OnBadChunk,
}

impl ChunkSeries {
    pub open spec fn is_valid(self) -> bool {
        &&& self.start.is_valid()
        &&& self.end.is_valid()
        &&& self.current.is_valid()
        &&& self.start.total() <= self.current.total()
        &&& self.plan.chunk_duration >= 0
        &&& self.plan.overlap >= 0
    }

    /// Whether another chunk follows.
    pub open spec fn goes_on(self) -> bool {
        !self.is_done && self.current.total() < self.end.total()
    }

    /// The series of the chunks of a range.
    pub fn new(
        plan: RangePlan,
        start: Timestamp,
        end: Timestamp,
        on_bad_chunk: OnBadChunk,
    ) -> (r: ChunkSeries)
        requires
            start.is_valid(),
            end.is_valid(),
            plan.chunk_duration >= 0,
            plan.overlap >= 0,
        ensures
            r.is_valid(),
            r == (ChunkSeries { plan, start, end, current: start, is_done: false, on_bad_chunk }),
    {
        ChunkSeries { plan, start, end, current: start, is_done: false, on_bad_chunk }
    }

    /// The chunk that is to be interpolated next.
    pub fn next(&self) -> (r: Option<Window>)
        requires
            self.is_valid(),
        ensures
            r is Some <==> self.goes_on(),
            r matches Some(w) ==> is_window(w, self.plan, self.start, self.end, self.current),
    {
        if self.is_done {
            None
        } else {
            next_window(&self.plan, &self.start, &self.end, &self.current)
        }
    }

    /// Takes in how the interpolation of the next chunk went, and gives what is handed out: the points
    /// of the chunk, behind which the series goes on, or the error. After an error it ends, or stays
    /// where it was.
    pub fn absorb(&mut self, window: &Window, outcome: Result<Vec<Point>, String>) -> (r: Result<
        Vec<Point>,
        String,
    >)
        requires
            old(self).is_valid(),
            old(self).goes_on(),
            is_window(
                *window,
                old(self).plan,
                old(self).start,
                old(self).end,
                old(self).current,
            ),
        ensures
            final(self).is_valid(),
            match outcome {
                Ok(interpolated) => {
                    &&& r is Ok
                    &&& point_views(r->Ok_0@) == chunk_points(
                        point_views(interpolated@),
                        window.end,
                    )
                    &&& *final(self) == (ChunkSeries { current: window.end, ..*old(self) })
                },
                Err(e) => {
                    &&& r == Err::<Vec<Point>, String>(e)
                    &&& *final(self) == (ChunkSeries {
                        is_done: old(self).on_bad_chunk == OnBadChunk::End,
                        ..*old(self)
                    })
                },
            },
    {
        match outcome {
            Ok(interpolated) => {
                self.current = window.end;
                Ok(chunk_output(interpolated, window))
            },
            Err(e) => {
                self.is_done = self.on_bad_chunk == OnBadChunk::End;
                Err(e)
            },
        }
    }
}

/// Where the chunk with a number begins.
pub open spec fn chunk_start(plan: RangePlan, start: int, end: int, n: nat) -> int
    decreases n,
{
    if n == 0 {
        start
    } else {
        chunk_end(plan, chunk_start(plan, start, end, (n - 1) as nat), end)
    }
}

/// The chunks of a range follow each other without a gap, and reach its end: the chunk with a number
/// begins so many chunk lengths behind the start, until the end.
pub proof fn law_chunks_reach_the_end(plan: RangePlan, start: int, end: int, n: nat)
    requires
        start <= end,
        plan.chunk_duration > 0,
    ensures
        chunk_start(plan, start, end, n) == min_of(start + n * plan.chunk_duration, end),
        n * plan.chunk_duration >= end - start ==> chunk_start(plan, start, end, n) == end,
    decreases n,
{
    if n == 0 {
        assert(0 * plan.chunk_duration == 0);
    } else {
        let m = (n - 1) as nat;
        law_chunks_reach_the_end(plan, start, end, m);
        assert(n * plan.chunk_duration == m * plan.chunk_duration + plan.chunk_duration)
            by (nonlinear_arith)
            requires
                n == m + 1,
        ;
    }
}

/// A range that is interpolated in chunks has chunks of some length, so that they come to an end.
pub proof fn law_chunks_have_length(plan: RangePlan, length: int, step: int)
    requires
        1 <= step,
        0 <= length <= i64::MAX,
        plan.expected == expected_points(length, step),
        plan.expected >= WHOLE_LIMIT,
        plan.chunk_count == chunks_for(plan.expected as int),
        plan.chunk_duration == quotient(length, plan.chunk_count as int),
    ensures
        plan.chunk_duration > 0,
{
    let e = plan.expected as int;
    let c = plan.chunk_count as int;
    lemma_quotient_bounds(length, step);
    assert(length >= e - 1);
    assert(1 <= c && c <= e - 1) by {
        assert(c == (e + 99_999) / 100_000);
    }
    vstd::arithmetic::div_mod::lemma_div_is_ordered(c, length, c);
    vstd::arithmetic::div_mod::lemma_div_by_self(c);
}

/// The points that a chunk is interpolated from lie around it: its window reaches at least from its
/// beginning to its end.
pub proof fn law_window_holds_chunk(
    w: Window,
    plan: RangePlan,
    start: Timestamp,
    end: Timestamp,
    current: Timestamp,
)
    requires
        is_window(w, plan, start, end, current),
        start.total() <= current.total() < end.total(),
        plan.chunk_duration >= 0,
        plan.overlap >= 0,
    ensures
        start.total() <= w.fetch_start.total() <= w.start.total() <= w.end.total()
            <= w.fetch_end.total() <= end.total(),
{
}

}
