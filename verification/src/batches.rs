//! Batches over a time series: every window of a given size.
use crate::batch::{
    is_leveled,
    is_tractable,
    lemma_prepared_for_patterns,
    level_failure,
    location_range,
    prepared,
    simplified,
    tractable,
    transposed,
    Batch,
    INPUT_DIGITS,
    INPUT_SCALE_LIMIT,
};
use crate::decimal::{abs_int, lemma_difference_zero, whole};
use crate::error::Error;
use crate::ids::AspectId;
use crate::measurement::{
    batched_views,
    fresh,
    point_views,
    BatchedMeasurement,
    BatchedView,
    Point,
    PointView,
};
use crate::registry::DatabaseInfo;
use crate::resolution::Resolution;
use crate::time::Timestamp;
use vstd::arithmetic::power::{lemma_pow0, lemma_pow_increases, pow};
use vstd::prelude::*;

verus! {

/// A sequence of batches.
#[derive(Debug)]
pub struct Batches {
    pub batches: Vec<Batch>,
}

/// The points of a window, of which nothing is known yet.
pub open spec fn fresh_window(points: Seq<PointView>, start: int, size: int) -> Seq<BatchedView> {
    Seq::new(size as nat, |i: int| fresh(points[start + i]))
}

/// Whether the windows of a size can become batches: the values are small enough to be computed
/// with, and no window begins and ends in the same second.
pub open spec fn windows_spread(points: Seq<PointView>, size: int) -> bool {
    &&& forall|i: int|
        0 <= i < points.len() ==> (#[trigger] points[i]).value.within(INPUT_SCALE_LIMIT as int)
    &&& forall|i: int|
        0 <= i <= points.len() - size ==> (#[trigger] points[i]).timestamp.seconds
            != points[i + size - 1].timestamp.seconds
}

/// Whether a batch is the one of the window that starts at a point.
pub open spec fn is_window_batch(
    batch: Batch,
    points: Seq<PointView>,
    start: int,
    size: int,
    resolution: Resolution,
    aspect: AspectId,
    database_info: DatabaseInfo,
) -> bool {
    &&& batch.metadata.aspect == aspect
    &&& batch.metadata.resolution == resolution
    &&& batch.metadata.size == size
    &&& batch.metadata.database_info@ == database_info@
    &&& batch.batch_hash is None
    &&& batch.ms() == prepared(fresh_window(points, start, size))
}

proof fn lemma_second_digits(n: i64)
    ensures
        abs_int(n as int) < pow(10, INPUT_DIGITS as nat),
{
    reveal_with_fuel(pow, 20);
    assert(pow(10, 19) == 10_000_000_000_000_000_000);
    lemma_pow_increases(10, 19, INPUT_DIGITS as nat);
}

proof fn lemma_window_ready(points: Seq<PointView>, start: int, size: int)
    requires
        0 < size,
        0 <= start <= points.len() - size,
        windows_spread(points, size),
    ensures
        is_tractable(fresh_window(points, start, size)),
        location_range(fresh_window(points, start, size)).mantissa != 0,
{
    let window = fresh_window(points, start, size);
    assert forall|i: int| 0 <= i < window.len() implies tractable(#[trigger] window[i]) by {
        assert(points[start + i].value.within(INPUT_SCALE_LIMIT as int));
        lemma_second_digits(points[start + i].timestamp.seconds);
    }
    let first = points[start].timestamp.seconds as int;
    let last = points[start + size - 1].timestamp.seconds as int;
    assert(first != last);
    lemma_difference_zero(whole(last), whole(first));
    lemma_pow0(10);
    assert(last * 1 == last && first * 1 == first);
}

/// Whether a series may be cut into batches: its ends and its resolution are known, and the
/// requested resolution is not finer than the one it has.
pub fn admit_batches(
    earliest: Option<Timestamp>,
    latest: Option<Timestamp>,
    minimum: Option<Resolution>,
    resolution: Resolution,
) -> (r: Result<(Timestamp, Timestamp), Error>)
    ensures
        match (earliest, latest, minimum) {
            (None, _, _) => r is Err && r->Err_0.spec_message() == "No earliest measurement found"@,
            (Some(_), None, _) => r is Err && r->Err_0.spec_message()
                == "No latest measurement found"@,
            (Some(_), Some(_), None) => r is Err && r->Err_0.spec_message()
                == "No aspect resolution found"@,
            (Some(start), Some(end), Some(least)) => if resolution.spec_rank() < least.spec_rank() {
                r is Err && r->Err_0.spec_message()
                    == "Resolution is less than minimum resolution for aspect"@
            } else {
                r is Ok && r->Ok_0 == (start, end)
            },
        },
{
    let start = match earliest {
        Some(t) => t,
        None => return Err(Error::Message("No earliest measurement found".to_owned())),
    };
    let end = match latest {
        Some(t) => t,
        None => return Err(Error::Message("No latest measurement found".to_owned())),
    };
    let least = match minimum {
        Some(m) => m,
        None => return Err(Error::Message("No aspect resolution found".to_owned())),
    };
    if resolution.finer_than(&least) {
        return Err(
            Error::Message("Resolution is less than minimum resolution for aspect".to_owned()),
        );
    }
    Ok((start, end))
}

impl Batches {
    pub fn new_from_vec(batches: Vec<Batch>) -> (r: Batches)
        ensures
            r.batches == batches,
    {
        Batches { batches }
    }

    pub fn existing(batches: Vec<Batch>) -> (r: Batches)
        ensures
            r.batches == batches,
    {
        Batches { batches }
    }

    pub fn is_empty(&self) -> (r: bool)
        ensures
            r == (self.batches@.len() == 0),
    {
        self.batches.len() == 0
    }

    pub fn len(&self) -> (r: usize)
        ensures
            r == self.batches@.len(),
    {
        self.batches.len()
    }

    pub fn first(&self) -> (r: Option<&Batch>)
        ensures
            match r {
                Some(batch) => self.batches@.len() > 0 && *batch == self.batches@[0],
                None => self.batches@.len() == 0,
            },
    {
        self.get(0)
    }

    pub fn get(&self, index: usize) -> (r: Option<&Batch>)
        ensures
            match r {
                Some(batch) => index < self.batches@.len() && *batch == self.batches@[index as int],
                None => index >= self.batches@.len(),
            },
    {
        if index < self.batches.len() {
            Some(&self.batches[index])
        } else {
            None
        }
    }

    /// One batch for every window of `batch_size` points, from the first point on. There is none
    /// where the size is zero or larger than the number of points.
    pub fn new(
        points: &Vec<Point>,
        resolution: Resolution,
        aspect: AspectId,
        database_info: &DatabaseInfo,
        batch_size: usize,
    ) -> (r: Batches)
        requires
            0 < batch_size <= points.len() ==> windows_spread(
                point_views(points@),
                batch_size as int,
            ),
        ensures
            batch_size == 0 || points.len() == 0 || batch_size > points.len()
                ==> r.batches@.len() == 0,
            0 < batch_size <= points.len() ==> r.batches@.len() == points.len() - batch_size + 1,
            forall|i: int|
                0 <= i < r.batches@.len() ==> is_window_batch(
                    #[trigger] r.batches@[i],
                    point_views(points@),
                    i,
                    batch_size as int,
                    resolution,
                    aspect,
                    *database_info,
                ),
    {
        let mut batches: Vec<Batch> = Vec::new();
        if batch_size == 0 || points.len() == 0 || batch_size > points.len() {
            return Batches { batches };
        }
        let ghost views = point_views(points@);
        let count: usize = points.len() - batch_size;
        let mut start: usize = 0;
        while start <= count
            invariant
                0 < batch_size <= points.len(),
                count == points.len() - batch_size,
                start <= count + 1,
                views == point_views(points@),
                windows_spread(views, batch_size as int),
                batches.len() == start,
                forall|i: int|
                    0 <= i < start ==> is_window_batch(
                        #[trigger] batches@[i],
                        views,
                        i,
                        batch_size as int,
                        resolution,
                        aspect,
                        *database_info,
                    ),
            decreases count + 1 - start,
        {
            let mut measurements: Vec<BatchedMeasurement> = Vec::new();
            let mut i: usize = 0;
            while i < batch_size
                invariant
                    i <= batch_size,
                    start + batch_size <= points.len(),
                    views == point_views(points@),
                    measurements.len() == i,
                    forall|k: int|
                        0 <= k < i ==> (#[trigger] measurements@[k])@ == fresh(views[start + k]),
                decreases batch_size - i,
            {
                measurements.push(BatchedMeasurement::new(points[start + i].clone()));
                i += 1;
            }
            proof {
                assert(batched_views(measurements@) =~= fresh_window(
                    views,
                    start as int,
                    batch_size as int,
                ));
                lemma_window_ready(views, start as int, batch_size as int);
            }
            let batch = Batch::new(
                batch_size,
                measurements,
                resolution,
                aspect,
                database_info.clone(),
            );
            batches.push(batch);
            start += 1;
        }
        Batches { batches }
    }

    /// The batches over the first `max_points` points.
    pub fn new_with_limited_data(
        points: Vec<Point>,
        resolution: Resolution,
        aspect: AspectId,
        database_info: &DatabaseInfo,
        batch_size: usize,
        max_points: usize,
    ) -> (r: Batches)
        requires
            0 < batch_size <= points.len() ==> windows_spread(
                point_views(points@),
                batch_size as int,
            ),
        ensures
            ({
                let count = if max_points < points.len() {
                    max_points as int
                } else {
                    points.len() as int
                };
                let used = point_views(points@).take(count);
                &&& batch_size == 0 || count == 0 || batch_size > count ==> r.batches@.len() == 0
                &&& 0 < batch_size <= count ==> r.batches@.len() == count - batch_size + 1
                &&& forall|i: int|
                    0 <= i < r.batches@.len() ==> is_window_batch(
                        #[trigger] r.batches@[i],
                        used,
                        i,
                        batch_size as int,
                        resolution,
                        aspect,
                        *database_info,
                    )
            }),
    {
        let mut points = points;
        let ghost given = point_views(points@);
        if points.len() > max_points {
            points.truncate(max_points);
        }
        proof {
            let used = given.take(points.len() as int);
            assert(point_views(points@) =~= used);
            if 0 < batch_size <= points.len() {
                assert forall|i: int| 0 <= i < used.len() implies (#[trigger] used[i]).value.within(
                    INPUT_SCALE_LIMIT as int,
                ) by {
                    assert(given[i].value.within(INPUT_SCALE_LIMIT as int));
                }
                assert forall|i: int| 0 <= i <= used.len() - batch_size implies (
                #[trigger] used[i]).timestamp.seconds != used[i + batch_size
                    - 1].timestamp.seconds by {
                    assert(given[i].timestamp.seconds != given[i + batch_size
                        - 1].timestamp.seconds);
                }
            }
        }
        Batches::new(&points, resolution, aspect, database_info, batch_size)
    }

    /// Brings every batch to level, moves it to the origin and simplifies it. At the first batch
    /// that fails, the ones behind it are left as they are.
    pub fn process_batches(&mut self) -> (r: Result<(), Error>)
        requires
            forall|i: int|
                0 <= i < old(self).batches@.len() ==> is_tractable(
                    (#[trigger] old(self).batches@[i]).ms(),
                ),
        ensures
            final(self).batches@.len() == old(self).batches@.len(),
            match r {
                Ok(_) => forall|i: int|
                    0 <= i < old(self).batches@.len() ==> shaped(
                        old(self).batches@[i],
                        #[trigger] final(self).batches@[i],
                    ),
                Err(e) => exists|k: int|
                    {
                        &&& 0 <= k < old(self).batches@.len()
                        &&& #[trigger] shaped_before(old(self).batches@, final(self).batches@, k)
                        &&& final(self).batches@[k].same_but_measurements(&old(self).batches@[k])
                        &&& level_failure(
                            old(self).batches@[k].ms(),
                            final(self).batches@[k].ms(),
                            e.spec_message(),
                        )
                    },
            },
    {
        let ghost before = self.batches@;
        let mut done: Vec<Batch> = Vec::new();
        let mut rest: Vec<Batch> = Vec::new();
        let mut i: usize = 0;
        let n: usize = self.batches.len();
        std::mem::swap(&mut rest, &mut self.batches);
        while i < n
            invariant
                i <= n,
                n == before.len(),
                done.len() == i,
                rest@ == before.skip(i as int),
                forall|k: int| 0 <= k < n ==> is_tractable((#[trigger] before[k]).ms()),
                forall|k: int| 0 <= k < i ==> shaped(before[k], #[trigger] done@[k]),
                before == old(self).batches@,
            decreases n - i,
        {
            let mut batch = rest.remove(0);
            assert(batch == before[i as int]);
            assert(rest@ == before.skip(i + 1));
            let r = batch.shape();
            done.push(batch);
            match r {
                Ok(_) => (),
                Err(e) => {
                    done.append(&mut rest);
                    assert(done@.len() == n);
                    self.batches = done;
                    assert(shaped_before(before, self.batches@, i as int)) by {
                        assert forall|k: int| i < k < n implies #[trigger] self.batches@[k]
                            == before[k] by {
                            assert(self.batches@[k] == before.skip(i + 1)[k - i - 1]);
                        }
                    }
                    return Err(e);
                },
            }
            i += 1;
        }
        self.batches = done;
        Ok(())
    }
}

/// Whether `after` is `before` brought to level, moved to the origin and simplified.
pub open spec fn shaped(before: Batch, after: Batch) -> bool {
    &&& after.same_but_measurements(&before)
    &&& exists|level: Seq<BatchedView>|
        {
            &&& #[trigger] is_leveled(before.ms(), level)
            &&& after.ms() == simplified(transposed(level, level.len() as int))
        }
}

/// Whether the batches before `k` are shaped and those behind it unchanged.
pub open spec fn shaped_before(before: Seq<Batch>, after: Seq<Batch>, k: int) -> bool {
    &&& forall|i: int| 0 <= i < k ==> shaped(before[i], #[trigger] after[i])
    &&& forall|i: int| k < i < before.len() ==> #[trigger] after[i] == before[i]
}

impl Batch {
    /// Brings the batch to level, moves it to the origin and simplifies it.
    pub fn shape(&mut self) -> (r: Result<(), Error>)
        requires
            is_tractable(old(self).ms()),
        ensures
            final(self).same_but_measurements(old(self)),
            match r {
                Ok(_) => shaped(*old(self), *final(self)),
                Err(e) => level_failure(old(self).ms(), final(self).ms(), e.spec_message()),
            },
    {
        let ghost before = self.ms();
        match self.level_transform() {
            Ok(_) => (),
            Err(e) => return Err(e),
        }
        let ghost level = self.ms();
        proof {
            lemma_prepared_for_patterns(before, level);
        }
        match self.transpose_origin() {
            Ok(_) => (),
            Err(e) => return Err(e),
        }
        match self.simplify_transformation() {
            Ok(_) => (),
            Err(e) => return Err(e),
        }
        assert(is_leveled(before, level));
        Ok(())
    }
}

}
