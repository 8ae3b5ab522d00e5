//! What the shaping of a batch comes to.
use crate::batch::{is_turning, simplified, slope_sign, turning_points};
use crate::decimal::{lemma_difference_sign, lemma_order, DecimalSign, DecimalView};
use crate::measurement::BatchedView;
use vstd::prelude::*;

verus! {

/// The amplitude of the vector of a measurement.
pub open spec fn height_of(m: BatchedView) -> DecimalView {
    m.vector->0.amplitude
}

/// The location of the vector of a measurement.
pub open spec fn place_of(m: BatchedView) -> DecimalView {
    m.vector->0.location
}

pub open spec fn rises(a: BatchedView, b: BatchedView) -> bool {
    height_of(a).less_than(height_of(b))
}

pub open spec fn falls(a: BatchedView, b: BatchedView) -> bool {
    height_of(b).less_than(height_of(a))
}

pub open spec fn stays(a: BatchedView, b: BatchedView) -> bool {
    height_of(a).same_value(height_of(b))
}

/// Whether the amplitude goes on behind a measurement as it came to it: up, down, or level.
pub open spec fn goes_on(a: BatchedView, b: BatchedView, c: BatchedView) -> bool {
    ||| rises(a, b) && rises(b, c)
    ||| falls(a, b) && falls(b, c)
    ||| stays(a, b) && stays(b, c)
}

/// Whether the amplitude goes on at a place.
pub open spec fn goes_on_at(ms: Seq<BatchedView>, i: int) -> bool {
    goes_on(ms[i - 1], ms[i], ms[i + 1])
}

/// Whether every measurement has a vector, and each lies behind the one before it.
pub open spec fn runs_forward(ms: Seq<BatchedView>) -> bool {
    &&& forall|i: int| 0 <= i < ms.len() ==> (#[trigger] ms[i]).vector is Some
    &&& forall|i: int, j: int|
        0 <= i < j < ms.len() ==> place_of(#[trigger] ms[i]).less_than(place_of(#[trigger] ms[j]))
}

/// Whether places ascend within so many.
pub open spec fn ascend_within(places: Seq<int>, n: nat) -> bool {
    &&& forall|k: int| 0 <= k < places.len() ==> 0 <= #[trigger] places[k] < n
    &&& forall|k: int, l: int|
        0 <= k < l < places.len() ==> #[trigger] places[k] < #[trigger] places[l]
}

/// Whether a sequence holds those of another that stand at some places, in order.
pub open spec fn stand_at(after: Seq<BatchedView>, before: Seq<BatchedView>, places: Seq<int>) -> bool {
    &&& ascend_within(places, before.len())
    &&& after.len() == places.len()
    &&& forall|k: int| 0 <= k < places.len() ==> #[trigger] after[k] == before[places[k]]
}

/// Whether the amplitudes run in one direction only from one place to another.
pub open spec fn runs_one_way(ms: Seq<BatchedView>, from: int, to: int) -> bool {
    ||| forall|i: int, j: int| from <= i < j <= to ==> rises(#[trigger] ms[i], #[trigger] ms[j])
    ||| forall|i: int, j: int| from <= i < j <= to ==> falls(#[trigger] ms[i], #[trigger] ms[j])
    ||| forall|i: int, j: int| from <= i < j <= to ==> stays(#[trigger] ms[i], #[trigger] ms[j])
}

/// What is known of the places of the measurements that stay.
pub open spec fn are_turns(ms: Seq<BatchedView>, places: Seq<int>) -> bool {
    &&& places.len() > 0
    &&& places[0] == 0
    &&& places.last() == ms.len() - 1
    &&& forall|i: int|
        0 < i < ms.len() - 1 ==> (places.contains(i) <==> !#[trigger] goes_on_at(ms, i))
    &&& forall|k: int|
        #![trigger places[k]]
        0 <= k < places.len() - 1 ==> runs_one_way(ms, places[k], places[k + 1])
}

/// The places of those of the first measurements that stay.
spec fn places_left(ms: Seq<BatchedView>, n: int) -> Seq<int>
    decreases n,
{
    if n <= 0 {
        seq![]
    } else if is_turning(ms, n - 1) {
        places_left(ms, n - 1).push(n - 1)
    } else {
        places_left(ms, n - 1)
    }
}

proof fn lemma_places_left(ms: Seq<BatchedView>, n: int)
    requires
        0 <= n <= ms.len(),
    ensures
        ascend_within(places_left(ms, n), n as nat),
        turning_points(ms, n).len() == places_left(ms, n).len(),
        forall|k: int|
            0 <= k < places_left(ms, n).len() ==> #[trigger] turning_points(ms, n)[k]
                == ms[places_left(ms, n)[k]],
        forall|i: int|
            0 <= i < n ==> (places_left(ms, n).contains(i) <==> #[trigger] is_turning(ms, i)),
    decreases n,
{
    if n > 0 {
        lemma_places_left(ms, n - 1);
        let before = places_left(ms, n - 1);
        let after = places_left(ms, n);
        assert forall|i: int| 0 <= i < n implies (after.contains(i) <==> #[trigger] is_turning(
            ms,
            i,
        )) by {
            if is_turning(ms, n - 1) {
                assert(after[before.len() as int] == n - 1);
                if after.contains(i) {
                    let k = choose|k: int| 0 <= k < after.len() && after[k] == i;
                    if k < before.len() {
                        assert(before[k] == i);
                        assert(before.contains(i));
                    }
                }
                if before.contains(i) {
                    let k = choose|k: int| 0 <= k < before.len() && before[k] == i;
                    assert(after[k] == i);
                }
            }
            if i == n - 1 && before.contains(i) {
                let k = choose|k: int| 0 <= k < before.len() && before[k] == i;
                assert(before[k] < n - 1);
            }
        }
    }
}

/// Behind each other, the slope has the sign of the change of the amplitude.
proof fn lemma_slope(a: BatchedView, b: BatchedView)
    requires
        a.vector is Some,
        b.vector is Some,
        place_of(a).less_than(place_of(b)),
    ensures
        slope_sign(a, b) == DecimalSign::Plus <==> rises(a, b),
        slope_sign(a, b) == DecimalSign::Minus <==> falls(a, b),
        slope_sign(a, b) == DecimalSign::Zero <==> stays(a, b),
{
    lemma_difference_sign(height_of(b), height_of(a));
    lemma_difference_sign(place_of(b), place_of(a));
    lemma_order(place_of(a), place_of(b), place_of(a));
    lemma_order(height_of(a), height_of(b), height_of(a));
}

/// A measurement stays exactly where the amplitude does not go on.
proof fn lemma_turning(ms: Seq<BatchedView>, i: int)
    requires
        runs_forward(ms),
        0 < i < ms.len() - 1,
    ensures
        is_turning(ms, i) <==> !goes_on_at(ms, i),
{
    lemma_slope(ms[i - 1], ms[i]);
    lemma_slope(ms[i], ms[i + 1]);
    lemma_order(height_of(ms[i - 1]), height_of(ms[i]), height_of(ms[i]));
    lemma_order(height_of(ms[i]), height_of(ms[i + 1]), height_of(ms[i]));
}

/// Without a turn between two places, every step goes as the first one does.
proof fn lemma_every_step(ms: Seq<BatchedView>, from: int, to: int, i: int)
    requires
        0 <= from <= i < to < ms.len(),
        forall|i: int|
            from < i < to ==> #[trigger] goes_on_at(ms, i),
    ensures
        rises(ms[from], ms[from + 1]) ==> rises(ms[i], ms[i + 1]),
        falls(ms[from], ms[from + 1]) ==> falls(ms[i], ms[i + 1]),
        stays(ms[from], ms[from + 1]) ==> stays(ms[i], ms[i + 1]),
    decreases i - from,
{
    if i > from {
        lemma_every_step(ms, from, to, i - 1);
        assert(goes_on_at(ms, i));
        lemma_order(height_of(ms[i - 1]), height_of(ms[i]), height_of(ms[i]));
    }
}

spec fn step_rises(ms: Seq<BatchedView>, k: int) -> bool {
    rises(ms[k], ms[k + 1])
}

spec fn step_falls(ms: Seq<BatchedView>, k: int) -> bool {
    falls(ms[k], ms[k + 1])
}

spec fn step_stays(ms: Seq<BatchedView>, k: int) -> bool {
    stays(ms[k], ms[k + 1])
}

proof fn lemma_rises_on(ms: Seq<BatchedView>, i: int, j: int)
    requires
        0 <= i < j < ms.len(),
        forall|k: int| i <= k < j ==> #[trigger] step_rises(ms, k),
    ensures
        rises(ms[i], ms[j]),
    decreases j - i,
{
    assert(step_rises(ms, j - 1));
    if j > i + 1 {
        lemma_rises_on(ms, i, j - 1);
        lemma_order(height_of(ms[i]), height_of(ms[j - 1]), height_of(ms[j]));
    }
}

proof fn lemma_falls_on(ms: Seq<BatchedView>, i: int, j: int)
    requires
        0 <= i < j < ms.len(),
        forall|k: int| i <= k < j ==> #[trigger] step_falls(ms, k),
    ensures
        falls(ms[i], ms[j]),
    decreases j - i,
{
    assert(step_falls(ms, j - 1));
    if j > i + 1 {
        lemma_falls_on(ms, i, j - 1);
        lemma_order(height_of(ms[j]), height_of(ms[j - 1]), height_of(ms[i]));
    }
}

proof fn lemma_stays_on(ms: Seq<BatchedView>, i: int, j: int)
    requires
        0 <= i < j < ms.len(),
        forall|k: int| i <= k < j ==> #[trigger] step_stays(ms, k),
    ensures
        stays(ms[i], ms[j]),
    decreases j - i,
{
    assert(step_stays(ms, j - 1));
    if j > i + 1 {
        lemma_stays_on(ms, i, j - 1);
        lemma_order(height_of(ms[i]), height_of(ms[j - 1]), height_of(ms[j]));
    }
}

/// Without a turn between two places, the amplitudes run in one direction only.
proof fn lemma_one_way(ms: Seq<BatchedView>, from: int, to: int)
    requires
        0 <= from < to < ms.len(),
        forall|i: int|
            from < i < to ==> #[trigger] goes_on_at(ms, i),
    ensures
        runs_one_way(ms, from, to),
{
    lemma_order(height_of(ms[from]), height_of(ms[from + 1]), height_of(ms[from]));
    if rises(ms[from], ms[from + 1]) {
        assert forall|i: int, j: int| from <= i < j <= to implies rises(
            #[trigger] ms[i],
            #[trigger] ms[j],
        ) by {
            assert forall|k: int| i <= k < j implies #[trigger] step_rises(ms, k) by {
                lemma_every_step(ms, from, to, k);
            }
            lemma_rises_on(ms, i, j);
        }
    } else if falls(ms[from], ms[from + 1]) {
        assert forall|i: int, j: int| from <= i < j <= to implies falls(
            #[trigger] ms[i],
            #[trigger] ms[j],
        ) by {
            assert forall|k: int| i <= k < j implies #[trigger] step_falls(ms, k) by {
                lemma_every_step(ms, from, to, k);
            }
            lemma_falls_on(ms, i, j);
        }
    } else {
        assert forall|i: int, j: int| from <= i < j <= to implies stays(
            #[trigger] ms[i],
            #[trigger] ms[j],
        ) by {
            assert forall|k: int| i <= k < j implies #[trigger] step_stays(ms, k) by {
                lemma_every_step(ms, from, to, k);
            }
            lemma_stays_on(ms, i, j);
        }
    }
}

/// Simplifying a batch leaves its turns, and only those. What is left stands in it in order, with the
/// first and the last measurement. In between, a measurement stays exactly where the amplitude does
/// not go on as it came: so every peak and every valley stays. Between two neighbours that are left
/// the amplitudes run in one direction only.
pub proof fn law_simplifying_keeps_the_turns(ms: Seq<BatchedView>) -> (places: Seq<int>)
    requires
        ms.len() > 0,
        runs_forward(ms),
    ensures
        stand_at(simplified(ms), ms, places),
        are_turns(ms, places),
{
    let n = ms.len() as int;
    if n <= 2 {
        let places = Seq::new(ms.len(), |i: int| i);
        assert(places[0] == 0);
        assert forall|k: int| #![trigger places[k]] 0 <= k < places.len() - 1 implies runs_one_way(
            ms,
            places[k],
            places[k + 1],
        ) by {
            lemma_one_way(ms, 0, 1);
        }
        places
    } else {
        let places = places_left(ms, n);
        lemma_places_left(ms, n);
        assert(is_turning(ms, 0) && is_turning(ms, n - 1));
        let first = choose|k: int| 0 <= k < places.len() && places[k] == 0;
        let last = choose|k: int| 0 <= k < places.len() && places[k] == n - 1;
        assert(places[0] == 0) by {
            if first > 0 {
                assert(places[0] < places[first]);
            }
        }
        assert(places.last() == n - 1) by {
            if last < places.len() - 1 {
                assert(places[last] < places[places.len() - 1]);
            }
        }
        assert forall|i: int| 0 < i < n - 1 implies (places.contains(i)
            <==> !#[trigger] goes_on_at(ms, i)) by {
            lemma_turning(ms, i);
            assert(is_turning(ms, i) || !is_turning(ms, i));
        }
        assert forall|k: int| #![trigger places[k]] 0 <= k < places.len() - 1 implies runs_one_way(
            ms,
            places[k],
            places[k + 1],
        ) by {
            let from = places[k];
            let to = places[k + 1];
            assert(from < to);
            assert forall|i: int| from < i < to implies #[trigger] goes_on_at(ms, i) by {
                if places.contains(i) {
                    let l = choose|l: int| 0 <= l < places.len() && places[l] == i;
                    if l <= k {
                        assert(l == k || places[l] < places[k]);
                    } else {
                        assert(l == k + 1 || places[k + 1] < places[l]);
                    }
                }
            }
            lemma_one_way(ms, from, to);
        }
        places
    }
}

/// No turn is lost: a measurement between the ends that lies strictly below both its neighbours, or
/// strictly above both, is among those that are left.
pub proof fn law_no_peak_or_valley_is_lost(ms: Seq<BatchedView>, i: int)
    requires
        runs_forward(ms),
        0 < i < ms.len() - 1,
        rises(ms[i - 1], ms[i]) && falls(ms[i], ms[i + 1]) || falls(ms[i - 1], ms[i]) && rises(
            ms[i],
            ms[i + 1],
        ),
    ensures
        simplified(ms).contains(ms[i]),
{
    let places = law_simplifying_keeps_the_turns(ms);
    lemma_order(height_of(ms[i - 1]), height_of(ms[i]), height_of(ms[i + 1]));
    lemma_order(height_of(ms[i]), height_of(ms[i + 1]), height_of(ms[i]));
    lemma_order(height_of(ms[i]), height_of(ms[i - 1]), height_of(ms[i]));
    assert(!goes_on_at(ms, i));
    assert(places.contains(i));
    let k = choose|k: int| 0 <= k < places.len() && places[k] == i;
    assert(simplified(ms)[k] == ms[i]);
}

}
