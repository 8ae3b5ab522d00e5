//! Batches: windows of a time series, brought to a common shape.
use crate::decimal::{
    abs_int,
    all_within,
    decimal_views,
    lemma_cancel,
    lemma_difference_digits,
    lemma_difference_zero,
    lemma_plus_nothing,
    lemma_product_value,
    lemma_same_value_transitive,
    lemma_sum_value,
    lemma_zero_value,
    sign_of,
    sign_product,
    whole,
    Comparison,
    Decimal,
    DecimalSign,
    DecimalView,
    COMPARED_SCALE_LIMIT,
};
use crate::error::Error;
use crate::ids::{is_random_uuid, AspectId, BatchId};
use crate::measurement::{
    batched_views,
    Analysis,
    AnalysisView,
    BatchDistance,
    BatchedMeasurement,
    BatchedView,
    DistanceView,
    MeasurementVector,
    Relative,
    RelativeView,
    VectorView,
};
use crate::registry::DatabaseInfo;
use crate::resolution::Resolution;
use vstd::arithmetic::power::pow;
use vstd::prelude::*;

verus! {

/// The largest scale of a location or an amplitude that a batch starts with. With it, and with
/// `INPUT_DIGITS`, every number up to the end of the level transform can still be compared.
pub const INPUT_SCALE_LIMIT: i64 = 45_000;

/// The largest number of digits of a location that a batch starts with.
pub const INPUT_DIGITS: usize = 47_000;

/// The largest scale of a distance.
pub const DISTANCE_SCALE_LIMIT: i64 = 227_500;

/// The largest scale of an amplitude after the first half of the level transform.
pub const HALF_LEVEL_SCALE_LIMIT: i64 = 272_500;

/// The largest scale of an amplitude after the level transform.
pub const LEVEL_SCALE_LIMIT: i64 = 500_000;

#[derive(Debug)]
pub struct BatchMetatdata {
    pub aspect: AspectId,
    pub resolution: Resolution,
    pub size: usize,
    pub database_info: DatabaseInfo,
}

/// A window of a time series.
#[derive(Debug)]
pub struct Batch {
    pub metadata: BatchMetatdata,
    pub measurements: Vec<BatchedMeasurement>,
    pub batch_id: BatchId,
    pub batch_hash: Option<String>,
}

impl BatchedView {
    /// The amplitude of the vector, or the value of the point where there is no vector.
    pub open spec fn amplitude(self) -> DecimalView {
        match self.vector {
            Some(v) => v.amplitude,
            None => self.point.value,
        }
    }

    /// The location of the vector, or the second of the point where there is no vector.
    pub open spec fn location(self) -> DecimalView {
        match self.vector {
            Some(v) => v.location,
            None => whole(self.point.timestamp.seconds as int),
        }
    }

    /// The measurement with a vector: the one it has, or that of its point.
    pub open spec fn placed(self) -> BatchedView {
        match self.vector {
            Some(_) => self,
            None => BatchedView {
                vector: Some(
                    VectorView { location: self.location(), amplitude: self.amplitude() },
                ),
                ..self
            },
        }
    }

    pub open spec fn with_amplitude(self, amplitude: DecimalView) -> BatchedView {
        BatchedView {
            vector: Some(VectorView { location: self.vector->0.location, amplitude }),
            ..self
        }
    }

    pub open spec fn with_location(self, location: DecimalView) -> BatchedView {
        BatchedView {
            vector: Some(VectorView { location, amplitude: self.vector->0.amplitude }),
            ..self
        }
    }

    pub open spec fn with_distance(self, distance: DistanceView) -> BatchedView {
        BatchedView { distance: Some(distance), ..self }
    }

    pub open spec fn with_relative(self, relative: RelativeView) -> BatchedView {
        BatchedView {
            analysis: Some(
                AnalysisView {
                    trend: match self.analysis {
                        Some(a) => a.trend,
                        None => None,
                    },
                    relative: Some(relative),
                },
            ),
            ..self
        }
    }
}

/// How far along the way from `first` a location lies, in parts of `range`.
pub open spec fn distance_along(
    location: DecimalView,
    first: DecimalView,
    range: DecimalView,
) -> DistanceView {
    let positive = location.minus(first).over(range);
    DistanceView { positive, negative: whole(1).minus(positive) }
}

/// The extent of a batch on the time axis.
pub open spec fn location_range(ms: Seq<BatchedView>) -> DecimalView {
    ms.last().location().minus(ms[0].location())
}

/// Whether `k` is the first measurement without a vector, or the number of measurements where all
/// have one.
pub open spec fn is_first_unplaced(ms: Seq<BatchedView>, k: int) -> bool {
    &&& 0 <= k <= ms.len()
    &&& forall|i: int| 0 <= i < k ==> (#[trigger] ms[i]).vector is Some
    &&& k < ms.len() ==> ms[k].vector is None
}

/// Whether `k` is the first measurement that lacks a distance or a vector, or the number of
/// measurements where none does.
pub open spec fn is_first_incomplete(ms: Seq<BatchedView>, k: int) -> bool {
    &&& 0 <= k <= ms.len()
    &&& forall|i: int|
        0 <= i < k ==> (#[trigger] ms[i]).vector is Some && ms[i].distance is Some
    &&& k < ms.len() ==> ms[k].vector is None || ms[k].distance is None
}

/// The measurements before `k` with their distances.
pub open spec fn distanced(ms: Seq<BatchedView>, k: int) -> Seq<BatchedView> {
    Seq::new(
        ms.len(),
        |i: int|
            if i < k {
                ms[i].with_distance(
                    distance_along(ms[i].location(), ms[0].location(), location_range(ms)),
                )
            } else {
                ms[i]
            },
    )
}

/// The locations before `k` moved so that the first one comes to lie at zero.
pub open spec fn transposed(ms: Seq<BatchedView>, k: int) -> Seq<BatchedView> {
    Seq::new(
        ms.len(),
        |i: int|
            if i < k {
                ms[i].with_location(
                    ms[i].location().plus(whole(0).minus(ms[0].location())),
                )
            } else {
                ms[i]
            },
    )
}

/// The amplitude with the first one taken off in proportion to the distance from the end.
pub open spec fn lowered_at_start(ms: Seq<BatchedView>, i: int) -> DecimalView {
    ms[i].amplitude().plus(
        whole(0).minus(ms[0].amplitude()).times(ms[i].distance->0.negative),
    )
}

/// The amplitude that [`lowered_at_start`] gives, with the last of those taken off in proportion to
/// the distance from the start.
pub open spec fn leveled_amplitude(ms: Seq<BatchedView>, i: int) -> DecimalView {
    lowered_at_start(ms, i).plus(
        whole(0).minus(lowered_at_start(ms, ms.len() - 1)).times(ms[i].distance->0.positive),
    )
}

/// Whether `after` is `before` with the amplitudes before `k` equal to those given, and all else
/// unchanged.
pub open spec fn amplitudes_replaced(
    before: Seq<BatchedView>,
    after: Seq<BatchedView>,
    k: int,
    amplitude: spec_fn(int) -> DecimalView,
) -> bool {
    &&& after.len() == before.len()
    &&& forall|i: int|
        0 <= i < k ==> {
            &&& (#[trigger] after[i]).vector is Some
            &&& after[i] == before[i].with_amplitude(after[i].amplitude())
            &&& after[i].amplitude().same_value(amplitude(i))
        }
    &&& forall|i: int| k <= i < before.len() ==> #[trigger] after[i] == before[i]
}

/// Whether `after` is `before` brought to level.
pub open spec fn is_leveled(before: Seq<BatchedView>, after: Seq<BatchedView>) -> bool {
    &&& before.len() > 0
    &&& is_first_incomplete(before, before.len() as int)
    &&& amplitudes_replaced(
        before,
        after,
        before.len() as int,
        |i: int| leveled_amplitude(before, i),
    )
}

/// The sign of the slope from one measurement to another; none where they share a location.
pub open spec fn slope_sign(from: BatchedView, to: BatchedView) -> DecimalSign {
    if to.location().same_value(from.location()) {
        DecimalSign::Zero
    } else {
        sign_product(
            sign_of(to.amplitude().minus(from.amplitude()).mantissa),
            sign_of(to.location().minus(from.location()).mantissa),
        )
    }
}

/// Whether a measurement stays: the first, the last, and those where the slope changes its sign.
pub open spec fn is_turning(ms: Seq<BatchedView>, i: int) -> bool {
    ||| i == 0
    ||| i == ms.len() - 1
    ||| slope_sign(ms[i - 1], ms[i]) != slope_sign(ms[i], ms[i + 1])
}

/// Those of the first `n` measurements that stay.
pub open spec fn turning_points(ms: Seq<BatchedView>, n: int) -> Seq<BatchedView>
    decreases n,
{
    if n <= 0 {
        seq![]
    } else if is_turning(ms, n - 1) {
        turning_points(ms, n - 1).push(ms[n - 1])
    } else {
        turning_points(ms, n - 1)
    }
}

/// The batch without the measurements at which the trend goes on.
pub open spec fn simplified(ms: Seq<BatchedView>) -> Seq<BatchedView> {
    if ms.len() <= 2 {
        ms
    } else {
        turning_points(ms, ms.len() as int)
    }
}

/// The smallest number; the first of those that are equal.
pub open spec fn least(s: Seq<DecimalView>) -> DecimalView
    decreases s.len(),
{
    if s.len() <= 1 {
        s[0]
    } else {
        let rest = least(s.drop_last());
        if s.last().less_than(rest) {
            s.last()
        } else {
            rest
        }
    }
}

/// The largest number; the last of those that are equal.
pub open spec fn greatest(s: Seq<DecimalView>) -> DecimalView
    decreases s.len(),
{
    if s.len() <= 1 {
        s[0]
    } else {
        let rest = greatest(s.drop_last());
        if s.last().less_than(rest) {
            rest
        } else {
            s.last()
        }
    }
}

/// The vectors of the measurements that have one.
pub open spec fn vectors_of(ms: Seq<BatchedView>) -> Seq<VectorView>
    decreases ms.len(),
{
    if ms.len() == 0 {
        seq![]
    } else {
        match ms.last().vector {
            Some(v) => vectors_of(ms.drop_last()).push(v),
            None => vectors_of(ms.drop_last()),
        }
    }
}

pub open spec fn locations(vs: Seq<VectorView>) -> Seq<DecimalView> {
    Seq::new(vs.len(), |i: int| vs[i].location)
}

pub open spec fn amplitudes(vs: Seq<VectorView>) -> Seq<DecimalView> {
    Seq::new(vs.len(), |i: int| vs[i].amplitude)
}

/// The extent of the vectors on the time axis.
pub open spec fn width(ms: Seq<BatchedView>) -> DecimalView {
    greatest(locations(vectors_of(ms))).minus(least(locations(vectors_of(ms))))
}

/// The extent of the vectors in amplitude.
pub open spec fn height(ms: Seq<BatchedView>) -> DecimalView {
    greatest(amplitudes(vectors_of(ms))).minus(least(amplitudes(vectors_of(ms))))
}

/// The vector of a measurement in parts of the extent of its batch.
pub open spec fn relative_of(m: BatchedView, x: DecimalView, y: DecimalView) -> RelativeView {
    RelativeView {
        vector: VectorView { location: m.location().over(x), amplitude: m.amplitude().over(y) },
        max_x: x,
        max_y: y,
    }
}

/// The measurements before `k` with their relative vectors.
pub open spec fn related(ms: Seq<BatchedView>, k: int) -> Seq<BatchedView> {
    Seq::new(
        ms.len(),
        |i: int|
            if i < k {
                ms[i].with_relative(relative_of(ms[i], width(ms), height(ms)))
            } else {
                ms[i]
            },
    )
}

/// The reason for which a batch cannot be analysed relative to its extent, if there is one.
pub open spec fn relative_failure(ms: Seq<BatchedView>) -> Option<Seq<char>> {
    if ms.len() == 0 {
        Some("Batch is empty, cannot perform relative analysis"@)
    } else if vectors_of(ms).len() == 0 {
        Some("No valid locations or amplitudes found in measurements"@)
    } else if width(ms).mantissa == 0 || height(ms).mantissa == 0 {
        Some("Cannot perform relative analysis: max_x or max_y is zero"@)
    } else {
        None
    }
}

/// Whether the numbers of a batch are small enough to be computed with.
pub open spec fn is_tractable(ms: Seq<BatchedView>) -> bool {
    forall|i: int| 0 <= i < ms.len() ==> tractable(#[trigger] ms[i])
}

pub open spec fn tractable(m: BatchedView) -> bool {
    &&& m.amplitude().within(INPUT_SCALE_LIMIT as int)
    &&& m.location().within(INPUT_SCALE_LIMIT as int)
    &&& abs_int(m.location().mantissa) < pow(10, INPUT_DIGITS as nat)
    &&& m.distance matches Some(d) ==> d.positive.within(DISTANCE_SCALE_LIMIT as int)
        && d.negative.within(DISTANCE_SCALE_LIMIT as int)
}

/// Whether the scales of all vectors are at most `limit`.
pub open spec fn vectors_within(ms: Seq<BatchedView>, limit: int) -> bool {
    forall|i: int|
        0 <= i < ms.len() ==> (#[trigger] ms[i]).location().within(limit)
            && ms[i].amplitude().within(limit)
}

fn replace_vector(m: &BatchedMeasurement, vector: MeasurementVector) -> (r: BatchedMeasurement)
    ensures
        r@ == (BatchedView { vector: Some(vector@), ..m@ }),
{
    let mut r = m.clone();
    r.vector = Some(vector);
    r
}

fn replace_distance(m: &BatchedMeasurement, distance: BatchDistance) -> (r: BatchedMeasurement)
    ensures
        r@ == m@.with_distance(distance@),
{
    let mut r = m.clone();
    r.distance = Some(distance);
    r
}

fn replace_relative(m: &BatchedMeasurement, relative: Relative) -> (r: BatchedMeasurement)
    ensures
        r@ == m@.with_relative(relative@),
{
    let mut analysis = match &m.analysis {
        Some(a) => a.clone(),
        None => Analysis::default(),
    };
    analysis.set_relative(Some(relative));
    let mut r = m.clone();
    r.analysis = Some(analysis);
    r
}

impl Batch {
    /// The measurements of the batch.
    pub open spec fn ms(&self) -> Seq<BatchedView> {
        batched_views(self.measurements@)
    }

    /// Whether everything but the measurements is as in the other batch.
    pub open spec fn same_but_measurements(&self, other: &Batch) -> bool {
        &&& self.metadata == other.metadata
        &&& self.batch_id == other.batch_id
        &&& self.batch_hash == other.batch_hash
    }

    pub fn size(&self) -> (r: usize)
        ensures
            r == self.metadata.size,
    {
        self.metadata.size
    }

    pub fn measurements(&self) -> (r: &Vec<BatchedMeasurement>)
        ensures
            *r == self.measurements,
    {
        &self.measurements
    }

    pub fn set_measurements(&mut self, measurements: Vec<BatchedMeasurement>)
        ensures
            final(self).same_but_measurements(old(self)),
            final(self).measurements == measurements,
    {
        self.measurements = measurements;
    }

    pub fn add_measurement(&mut self, measurement: BatchedMeasurement)
        ensures
            final(self).same_but_measurements(old(self)),
            final(self).measurements@ == old(self).measurements@.push(measurement),
    {
        self.measurements.push(measurement);
    }

    pub fn batch_id(&self) -> (r: &BatchId)
        ensures
            *r == self.batch_id,
    {
        &self.batch_id
    }

    pub fn set_batch_id(&mut self, batch_id: BatchId)
        ensures
            final(self).metadata == old(self).metadata,
            final(self).measurements == old(self).measurements,
            final(self).batch_hash == old(self).batch_hash,
            final(self).batch_id == batch_id,
    {
        self.batch_id = batch_id;
    }

    pub fn batch_hash(&self) -> (r: Option<&String>)
        ensures
            match r {
                Some(hash) => self.batch_hash == Some(*hash),
                None => self.batch_hash is None,
            },
    {
        match &self.batch_hash {
            Some(hash) => Some(hash),
            None => None,
        }
    }

    pub fn set_batch_hash(&mut self, batch_hash: Option<String>)
        ensures
            final(self).metadata == old(self).metadata,
            final(self).measurements == old(self).measurements,
            final(self).batch_id == old(self).batch_id,
            final(self).batch_hash == batch_hash,
    {
        self.batch_hash = batch_hash;
    }

    fn amplitude_at(&self, i: usize) -> (r: Decimal)
        requires
            i < self.measurements.len(),
        ensures
            r@ == self.ms()[i as int].amplitude(),
    {
        match &self.measurements[i].vector {
            Some(v) => v.amplitude.clone(),
            None => self.measurements[i].point.value.clone(),
        }
    }

    fn location_at(&self, i: usize) -> (r: Decimal)
        requires
            i < self.measurements.len(),
        ensures
            r@ == self.ms()[i as int].location(),
    {
        match &self.measurements[i].vector {
            Some(v) => v.location.clone(),
            None => Decimal::from_i64(self.measurements[i].point.timestamp.seconds),
        }
    }

    /// The amplitudes of all measurements.
    fn all_amplitudes(&self) -> (r: Vec<Decimal>)
        ensures
            r.len() == self.measurements.len(),
            forall|i: int| 0 <= i < r.len() ==> (#[trigger] r@[i])@ == self.ms()[i].amplitude(),
    {
        let mut r: Vec<Decimal> = Vec::new();
        let mut i: usize = 0;
        while i < self.measurements.len()
            invariant
                i <= self.measurements.len(),
                r.len() == i,
                forall|k: int| 0 <= k < i ==> (#[trigger] r@[k])@ == self.ms()[k].amplitude(),
            decreases self.measurements.len() - i,
        {
            r.push(self.amplitude_at(i));
            i += 1;
        }
        r
    }

    /// The locations of all measurements.
    fn all_locations(&self) -> (r: Vec<Decimal>)
        ensures
            r.len() == self.measurements.len(),
            forall|i: int| 0 <= i < r.len() ==> (#[trigger] r@[i])@ == self.ms()[i].location(),
    {
        let mut r: Vec<Decimal> = Vec::new();
        let mut i: usize = 0;
        while i < self.measurements.len()
            invariant
                i <= self.measurements.len(),
                r.len() == i,
                forall|k: int| 0 <= k < i ==> (#[trigger] r@[k])@ == self.ms()[k].location(),
            decreases self.measurements.len() - i,
        {
            r.push(self.location_at(i));
            i += 1;
        }
        r
    }

    /// The amplitudes of all measurements: those of their vectors, or their values.
    pub fn get_vector_amplitudes(&self) -> (r: Result<Vec<Decimal>, Error>)
        ensures
            r matches Ok(values) && values.len() == self.measurements.len() && forall|i: int|
                0 <= i < values.len() ==> (#[trigger] values@[i])@ == self.ms()[i].amplitude(),
    {
        Ok(self.all_amplitudes())
    }

    /// The locations of all measurements: those of their vectors, or their seconds.
    pub fn get_vector_locations(&self) -> (r: Result<Vec<Decimal>, Error>)
        ensures
            r matches Ok(values) && values.len() == self.measurements.len() && forall|i: int|
                0 <= i < values.len() ==> (#[trigger] values@[i])@ == self.ms()[i].location(),
    {
        Ok(self.all_locations())
    }

    /// Gives every measurement without a vector the one of its point.
    pub fn initialize_measurement_vectors(&mut self) -> (r: Result<(), Error>)
        ensures
            final(self).same_but_measurements(old(self)),
            match r {
                Ok(_) => {
                    &&& old(self).measurements.len() > 0
                    &&& final(self).ms() == Seq::new(
                        old(self).ms().len(),
                        |i: int| old(self).ms()[i].placed(),
                    )
                },
                Err(e) => {
                    &&& old(self).measurements.len() == 0
                    &&& final(self).ms() == old(self).ms()
                    &&& e.spec_message()
                        == "Batch is empty, cannot initialize measurement vectors"@
                },
            },
    {
        if self.measurements.len() == 0 {
            return Err(
                Error::Message("Batch is empty, cannot initialize measurement vectors".to_owned()),
            );
        }
        let ghost before = self.ms();
        let n: usize = self.measurements.len();
        let mut i: usize = 0;
        while i < n
            invariant
                i <= n,
                n == self.measurements.len(),
                n == before.len(),
                self.same_but_measurements(old(self)),
                forall|k: int| 0 <= k < i ==> #[trigger] self.ms()[k] == before[k].placed(),
                forall|k: int| i <= k < n ==> #[trigger] self.ms()[k] == before[k],
            decreases n - i,
        {
            assert(self.ms()[i as int] == before[i as int]);
            let vector = MeasurementVector {
                location: self.location_at(i),
                amplitude: self.amplitude_at(i),
            };
            let ghost held = self.ms();
            if self.measurements[i].vector.is_none() {
                let updated = replace_vector(&self.measurements[i], vector);
                self.measurements.set(i, updated);
                assert(self.ms() == held.update(i as int, before[i as int].placed()));
            }
            i += 1;
        }
        assert(self.ms() == Seq::new(before.len(), |k: int| before[k].placed()));
        Ok(())
    }

    /// Gives every measurement its distance: how far along it lies from the first location to the
    /// last, and one less that. The first lies at zero, the last at one.
    pub fn initialize_distances(&mut self) -> (r: Result<(), Error>)
        requires
            is_tractable(old(self).ms()),
        ensures
            final(self).same_but_measurements(old(self)),
            match r {
                Ok(_) => {
                    let before = old(self).ms();
                    let after = final(self).ms();
                    let last = before.len() - 1;
                    &&& before.len() > 0
                    &&& is_first_unplaced(before, before.len() as int)
                    &&& location_range(before).mantissa != 0
                    &&& after == distanced(before, before.len() as int)
                    &&& is_tractable(after)
                    &&& after[0].distance->0.positive.mantissa == 0
                    &&& after[0].distance->0.negative == whole(1)
                    &&& after[last].distance->0.positive.same_value(whole(1))
                    &&& after[last].distance->0.negative.mantissa == 0
                },
                Err(e) => {
                    let before = old(self).ms();
                    let after = final(self).ms();
                    if before.len() == 0 {
                        &&& e.spec_message() == "Batch is empty, cannot initialize distances"@
                        &&& after == before
                    } else if before[0].vector is None {
                        &&& e.spec_message() == "First measurement location is not set"@
                        &&& after == before
                    } else if before.last().vector is None {
                        &&& e.spec_message() == "Last measurement location is not set"@
                        &&& after == before
                    } else if location_range(before).mantissa == 0 {
                        &&& e.spec_message()
                            == "Location range is zero, cannot initialize distances"@
                        &&& after == before
                    } else {
                        &&& e.spec_message() == "Measurement location is not set"@
                        &&& exists|k: int|
                            k < before.len() && #[trigger] is_first_unplaced(before, k) && after
                                == distanced(before, k)
                    }
                },
            },
    {
        let ghost before = self.ms();
        let n: usize = self.measurements.len();
        if n == 0 {
            return Err(Error::Message("Batch is empty, cannot initialize distances".to_owned()));
        }
        if self.measurements[0].vector.is_none() {
            assert(before[0].vector is None);
            return Err(Error::Message("First measurement location is not set".to_owned()));
        }
        if self.measurements[n - 1].vector.is_none() {
            assert(before.last().vector is None);
            return Err(Error::Message("Last measurement location is not set".to_owned()));
        }
        assert(before[0].vector is Some && before.last().vector is Some);
        let first = self.location_at(0);
        let last = self.location_at(n - 1);
        assert(tractable(before[0]) && tractable(before.last()));
        let range = last.minus(&first);
        if range.is_zero() {
            return Err(
                Error::Message("Location range is zero, cannot initialize distances".to_owned()),
            );
        }
        proof {
            lemma_difference_digits(
                last@,
                first@,
                INPUT_SCALE_LIMIT as nat,
                INPUT_DIGITS as nat,
            );
        }
        let one = Decimal::from_i64(1);
        let mut i: usize = 0;
        while i < n
            invariant
                i <= n,
                n == self.measurements.len(),
                n == before.len(),
                before == old(self).ms(),
                n > 0,
                is_tractable(before),
                before[0].vector is Some,
                before.last().vector is Some,
                first@ == before[0].location(),
                range@ == location_range(before),
                range@.mantissa != 0,
                range@.within(INPUT_SCALE_LIMIT as int),
                abs_int(range@.mantissa) < pow(10, 137_001),
                one@ == whole(1),
                self.same_but_measurements(old(self)),
                self.ms() == distanced(before, i as int),
                is_tractable(self.ms()),
                forall|k: int| 0 <= k < i ==> (#[trigger] before[k]).vector is Some,
                i > 0 ==> {
                    &&& self.ms()[0].distance->0.positive.mantissa == 0
                    &&& self.ms()[0].distance->0.negative == whole(1)
                },
                i == n ==> {
                    &&& self.ms()[n - 1].distance->0.positive.same_value(whole(1))
                    &&& self.ms()[n - 1].distance->0.negative.mantissa == 0
                },
            decreases n - i,
        {
            assert(self.ms()[i as int] == before[i as int]);
            assert(tractable(before[i as int]));
            if self.measurements[i].vector.is_none() {
                assert(is_first_unplaced(before, i as int));
                return Err(Error::Message("Measurement location is not set".to_owned()));
            }
            let location = self.location_at(i);
            let along = location.minus(&first);
            proof {
                lemma_difference_digits(
                    location@,
                    first@,
                    INPUT_SCALE_LIMIT as nat,
                    INPUT_DIGITS as nat,
                );
                if i == 0 {
                    lemma_difference_zero(first@, first@);
                }
            }
            let positive = along.over(&range);
            let negative = one.minus(&positive);
            let distance = BatchDistance { positive, negative };
            let updated = replace_distance(&self.measurements[i], distance);
            proof {
                if i == n - 1 {
                    lemma_sum_value(whole(1), distance.positive@, whole(1), whole(1));
                    lemma_difference_zero(whole(1), whole(1));
                    lemma_zero_value(distance.negative@, whole(1).minus(whole(1)));
                }
            }
            let ghost held = self.ms();
            self.measurements.set(i, updated);
            i += 1;
            proof {
                assert(self.ms() == held.update(i - 1, updated@));
                assert(self.ms() == distanced(before, i as int));
                assert forall|k: int| 0 <= k < n implies tractable(#[trigger] self.ms()[k]) by {
                    if k != i - 1 {
                        assert(tractable(held[k]));
                    }
                }
            }
        }
        assert(is_first_unplaced(before, n as int));
        Ok(())
    }

    /// Takes the first amplitude off all amplitudes, in proportion to the distance from the end.
    fn positive_level_transform(&mut self) -> (r: Result<(), Error>)
        requires
            old(self).measurements.len() > 0,
            is_tractable(old(self).ms()),
        ensures
            final(self).same_but_measurements(old(self)),
            vectors_within(final(self).ms(), HALF_LEVEL_SCALE_LIMIT as int),
            match r {
                Ok(_) => {
                    &&& is_first_incomplete(old(self).ms(), old(self).ms().len() as int)
                    &&& amplitudes_replaced(
                        old(self).ms(),
                        final(self).ms(),
                        old(self).ms().len() as int,
                        |i: int| lowered_at_start(old(self).ms(), i),
                    )
                },
                Err(e) => exists|k: int|
                    {
                        &&& k < old(self).ms().len()
                        &&& #[trigger] is_first_incomplete(old(self).ms(), k)
                        &&& amplitudes_replaced(
                            old(self).ms(),
                            final(self).ms(),
                            k,
                            |i: int| lowered_at_start(old(self).ms(), i),
                        )
                        &&& e.spec_message() == incomplete_message(old(self).ms()[k])
                    },
            },
    {
        let ghost before = self.ms();
        let ghost want = |i: int| lowered_at_start(before, i);
        let amplitudes = self.all_amplitudes();
        let zero = Decimal::from_i64(0);
        assert(tractable(before[0]));
        let movement = zero.minus(&amplitudes[0]);
        let n: usize = self.measurements.len();
        let mut i: usize = 0;
        assert forall|k: int| 0 <= k < n implies (#[trigger] before[k]).location().within(HALF_LEVEL_SCALE_LIMIT as int)
            && before[k].amplitude().within(HALF_LEVEL_SCALE_LIMIT as int) by {
            assert(tractable(before[k]));
        }
        while i < n
            invariant
                i <= n,
                n == self.measurements.len(),
                n == before.len(),
                n == amplitudes.len(),
                n > 0,
                before == old(self).ms(),
                want == (|k: int| lowered_at_start(before, k)),
                is_tractable(before),
                forall|k: int|
                    0 <= k < n ==> (#[trigger] amplitudes@[k])@ == before[k].amplitude(),
                movement@ == whole(0).minus(before[0].amplitude()),
                movement@.within(INPUT_SCALE_LIMIT as int),
                self.same_but_measurements(old(self)),
                amplitudes_replaced(before, self.ms(), i as int, want),
                vectors_within(self.ms(), HALF_LEVEL_SCALE_LIMIT as int),
                forall|k: int|
                    0 <= k < i ==> (#[trigger] before[k]).vector is Some && before[k].distance is Some,
            decreases n - i,
        {
            assert(self.ms()[i as int] == before[i as int]);
            assert(tractable(before[i as int]));
            if self.measurements[i].distance.is_none() {
                assert(before[i as int].distance is None);
                assert(is_first_incomplete(before, i as int));
                return Err(
                    Error::Message(
                        "Distance is not set for all measurements in the batch".to_owned(),
                    ),
                );
            }
            if self.measurements[i].vector.is_none() {
                assert(before[i as int].vector is None);
                assert(is_first_incomplete(before, i as int));
                return Err(
                    Error::Message(
                        "Measurement vector is not set for all measurements in the batch".to_owned(),
                    ),
                );
            }
            let negative = match &self.measurements[i].distance {
                Some(d) => d.negative.clone(),
                None => Decimal::from_i64(0),
            };
            let location = self.location_at(i);
            let product = movement.times(&negative);
            let amplitude = amplitudes[i].plus(&product);
            proof {
                lemma_sum_value(
                    before[i as int].amplitude(),
                    product@,
                    before[i as int].amplitude(),
                    movement@.times(negative@),
                );
                assert(amplitude@.same_value(want(i as int)));
            }
            let vector = MeasurementVector { location, amplitude };
            let updated = replace_vector(&self.measurements[i], vector);
            let ghost held = self.ms();
            self.measurements.set(i, updated);
            i += 1;
            proof {
                assert(self.ms() == held.update(i - 1, updated@));
                assert(updated@ == before[i - 1].with_amplitude(updated@.amplitude()));
            }
        }
        assert(is_first_incomplete(before, n as int));
        Ok(())
    }

    /// Takes the last amplitude off all amplitudes, in proportion to the distance from the start.
    fn negative_level_transform(&mut self)
        requires
            old(self).measurements.len() > 0,
            is_first_incomplete(old(self).ms(), old(self).ms().len() as int),
            vectors_within(old(self).ms(), HALF_LEVEL_SCALE_LIMIT as int),
            forall|i: int|
                0 <= i < old(self).ms().len() ==> (#[trigger] old(
                    self,
                ).ms()[i]).distance->0.positive.within(DISTANCE_SCALE_LIMIT as int),
        ensures
            final(self).same_but_measurements(old(self)),
            vectors_within(final(self).ms(), LEVEL_SCALE_LIMIT as int),
            amplitudes_replaced(
                old(self).ms(),
                final(self).ms(),
                old(self).ms().len() as int,
                |i: int| lowered_at_end(old(self).ms(), i),
            ),
    {
        let ghost before = self.ms();
        let ghost want = |i: int| lowered_at_end(before, i);
        let amplitudes = self.all_amplitudes();
        let zero = Decimal::from_i64(0);
        let n: usize = self.measurements.len();
        assert(before[n - 1].amplitude().within(HALF_LEVEL_SCALE_LIMIT as int));
        let movement = zero.minus(&amplitudes[n - 1]);
        let mut i: usize = 0;
        while i < n
            invariant
                i <= n,
                n == self.measurements.len(),
                n == before.len(),
                n == amplitudes.len(),
                n > 0,
                before == old(self).ms(),
                want == (|k: int| lowered_at_end(before, k)),
                is_first_incomplete(before, n as int),
                vectors_within(before, HALF_LEVEL_SCALE_LIMIT as int),
                forall|k: int|
                    0 <= k < n ==> (#[trigger] before[k]).distance->0.positive.within(
                        DISTANCE_SCALE_LIMIT as int,
                    ),
                forall|k: int|
                    0 <= k < n ==> (#[trigger] amplitudes@[k])@ == before[k].amplitude(),
                movement@ == whole(0).minus(before[n - 1].amplitude()),
                movement@.within(HALF_LEVEL_SCALE_LIMIT as int),
                self.same_but_measurements(old(self)),
                amplitudes_replaced(before, self.ms(), i as int, want),
                vectors_within(self.ms(), LEVEL_SCALE_LIMIT as int),
            decreases n - i,
        {
            assert(self.ms()[i as int] == before[i as int]);
            assert(before[i as int].distance is Some && before[i as int].vector is Some);
            let positive = match &self.measurements[i].distance {
                Some(d) => d.positive.clone(),
                None => Decimal::from_i64(0),
            };
            let location = self.location_at(i);
            let product = movement.times(&positive);
            let amplitude = amplitudes[i].plus(&product);
            proof {
                lemma_sum_value(
                    before[i as int].amplitude(),
                    product@,
                    before[i as int].amplitude(),
                    movement@.times(positive@),
                );
                assert(amplitude@.same_value(want(i as int)));
            }
            let vector = MeasurementVector { location, amplitude };
            let updated = replace_vector(&self.measurements[i], vector);
            let ghost held = self.ms();
            self.measurements.set(i, updated);
            i += 1;
            proof {
                assert(self.ms() == held.update(i - 1, updated@));
                assert(updated@ == before[i - 1].with_amplitude(updated@.amplitude()));
            }
        }
    }

    /// Brings the batch to level: the line through the first and the last amplitude is taken off.
    /// Where the first measurement lies at distance zero and the last at distance one, both come to
    /// lie at amplitude zero.
    pub fn level_transform(&mut self) -> (r: Result<(), Error>)
        requires
            is_tractable(old(self).ms()),
        ensures
            final(self).same_but_measurements(old(self)),
            vectors_within(final(self).ms(), LEVEL_SCALE_LIMIT as int),
            match r {
                Ok(_) => {
                    &&& is_leveled(old(self).ms(), final(self).ms())
                    &&& ends_at_zero_and_one(old(self).ms()) ==> {
                        &&& final(self).ms()[0].amplitude().mantissa == 0
                        &&& final(self).ms().last().amplitude().mantissa == 0
                    }
                },
                Err(e) => level_failure(old(self).ms(), final(self).ms(), e.spec_message()),
            },
    {
        let ghost before = self.ms();
        if self.measurements.len() == 0 {
            return Err(
                Error::Message("Batch is empty, cannot perform level transform".to_owned()),
            );
        }
        match self.positive_level_transform() {
            Ok(_) => (),
            Err(e) => return Err(e),
        }
        let ghost middle = self.ms();
        proof {
            assert forall|i: int| 0 <= i < middle.len() implies (
            #[trigger] middle[i]).distance->0.positive.within(DISTANCE_SCALE_LIMIT as int)
                && middle[i].vector is Some && middle[i].distance is Some by {
                assert(tractable(before[i]));
            }
            assert(is_first_incomplete(middle, middle.len() as int));
        }
        self.negative_level_transform();
        proof {
            lemma_leveled(before, middle, self.ms());
        }
        Ok(())
    }

    /// Moves the locations so that the first one comes to lie at zero.
    pub fn transpose_origin(&mut self) -> (r: Result<(), Error>)
        requires
            vectors_within(old(self).ms(), COMPARED_SCALE_LIMIT as int),
        ensures
            final(self).same_but_measurements(old(self)),
            vectors_within(final(self).ms(), COMPARED_SCALE_LIMIT as int),
            match r {
                Ok(_) => {
                    &&& old(self).ms().len() > 0
                    &&& is_first_unplaced(old(self).ms(), old(self).ms().len() as int)
                    &&& final(self).ms() == transposed(old(self).ms(), old(self).ms().len() as int)
                    &&& final(self).ms()[0].location().mantissa == 0
                },
                Err(e) => if old(self).ms().len() == 0 {
                    &&& e.spec_message() == "No locations found in the batch"@
                    &&& final(self).ms() == old(self).ms()
                } else {
                    &&& e.spec_message()
                        == "Measurement vector is not set for all measurements in the batch"@
                    &&& exists|k: int|
                        k < old(self).ms().len() && #[trigger] is_first_unplaced(old(self).ms(), k)
                            && final(self).ms() == transposed(old(self).ms(), k)
                },
            },
    {
        let ghost before = self.ms();
        let locations = self.all_locations();
        if locations.len() == 0 {
            return Err(Error::Message("No locations found in the batch".to_owned()));
        }
        let zero = Decimal::from_i64(0);
        assert(before[0].location().within(COMPARED_SCALE_LIMIT as int));
        let movement = zero.minus(&locations[0]);
        let n: usize = self.measurements.len();
        let mut i: usize = 0;
        assert(self.ms() == transposed(before, 0));
        while i < n
            invariant
                i <= n,
                n == self.measurements.len(),
                n == before.len(),
                n == locations.len(),
                n > 0,
                before == old(self).ms(),
                vectors_within(before, COMPARED_SCALE_LIMIT as int),
                forall|k: int| 0 <= k < n ==> (#[trigger] locations@[k])@ == before[k].location(),
                movement@ == whole(0).minus(before[0].location()),
                movement@.within(COMPARED_SCALE_LIMIT as int),
                self.same_but_measurements(old(self)),
                self.ms() == transposed(before, i as int),
                vectors_within(self.ms(), COMPARED_SCALE_LIMIT as int),
                forall|k: int| 0 <= k < i ==> (#[trigger] before[k]).vector is Some,
            decreases n - i,
        {
            assert(self.ms()[i as int] == before[i as int]);
            if self.measurements[i].vector.is_none() {
                assert(is_first_unplaced(before, i as int));
                return Err(
                    Error::Message(
                        "Measurement vector is not set for all measurements in the batch".to_owned(),
                    ),
                );
            }
            let location = locations[i].plus(&movement);
            let amplitude = self.amplitude_at(i);
            let vector = MeasurementVector { location, amplitude };
            let updated = replace_vector(&self.measurements[i], vector);
            let ghost held = self.ms();
            self.measurements.set(i, updated);
            i += 1;
            proof {
                assert(self.ms() == held.update(i - 1, updated@));
                assert(updated@ == before[i - 1].with_location(updated@.location()));
                assert(self.ms() == transposed(before, i as int));
            }
        }
        proof {
            assert(is_first_unplaced(before, n as int));
            lemma_cancel(before[0].location(), whole(1));
            let negative = whole(0).minus(before[0].location());
            assert(negative.times(whole(1)) == negative) by {
                assert(negative.mantissa * 1 == negative.mantissa);
            }
            assert(whole(1).same_value(whole(1)));
        }
        Ok(())
    }

    /// The sign of the slope from one measurement to the other.
    fn slope_between(&self, from: usize, to: usize) -> (r: DecimalSign)
        requires
            from < self.measurements.len(),
            to < self.measurements.len(),
            vectors_within(self.ms(), COMPARED_SCALE_LIMIT as int),
        ensures
            r == slope_sign(self.ms()[from as int], self.ms()[to as int]),
    {
        let x = self.location_at(from);
        let y = self.location_at(to);
        assert(self.ms()[from as int].location().within(COMPARED_SCALE_LIMIT as int));
        assert(self.ms()[to as int].location().within(COMPARED_SCALE_LIMIT as int));
        let run = y.minus(&x);
        proof {
            lemma_difference_zero(y@, x@);
        }
        if run.is_zero() {
            DecimalSign::Zero
        } else {
            let rise = self.amplitude_at(to).minus(&self.amplitude_at(from));
            rise.over(&run).sign()
        }
    }

    /// Removes the measurements at which the trend goes on; the first and the last one stay. It is an
    /// error where there is no measurement, or where one of them has no vector.
    pub fn simplify_transformation(&mut self) -> (r: Result<(), Error>)
        requires
            vectors_within(old(self).ms(), COMPARED_SCALE_LIMIT as int),
        ensures
            final(self).same_but_measurements(old(self)),
            vectors_within(final(self).ms(), COMPARED_SCALE_LIMIT as int),
            r is Err <==> old(self).ms().len() == 0 || exists|k: int|
                k < old(self).ms().len() && #[trigger] is_first_unplaced(old(self).ms(), k),
            match r {
                Ok(_) => {
                    let before = old(self).ms();
                    let after = final(self).ms();
                    &&& before.len() > 0
                    &&& is_first_unplaced(before, before.len() as int)
                    &&& after == simplified(before)
                    &&& 0 < after.len() <= before.len()
                    &&& after[0] == before[0]
                    &&& after.last() == before.last()
                },
                Err(e) => {
                    let before = old(self).ms();
                    &&& final(self).ms() == before
                    &&& if before.len() == 0 {
                        e.spec_message() == "Batch is empty, cannot perform simplification"@
                    } else {
                        exists|k: int|
                            {
                                &&& k < before.len()
                                &&& #[trigger] is_first_unplaced(before, k)
                                &&& e.spec_message() == unplaced_message(k)
                            }
                    }
                },
            },
    {
        let ghost before = self.ms();
        let n: usize = self.measurements.len();
        if n == 0 {
            return Err(Error::Message("Batch is empty, cannot perform simplification".to_owned()));
        }
        let mut k: usize = 0;
        while k < n
            invariant
                k <= n,
                n == self.measurements.len(),
                before == self.ms(),
                *self == *old(self),
                vectors_within(before, COMPARED_SCALE_LIMIT as int),
                forall|j: int| 0 <= j < k ==> (#[trigger] before[j]).vector is Some,
            decreases n - k,
        {
            assert(before[k as int] == self.measurements@[k as int]@);
            if self.measurements[k].vector.is_none() {
                assert(is_first_unplaced(before, k as int));
                let message = if k == 0 {
                    "Previous measurement vector not set"
                } else if k == 1 {
                    "Current measurement vector not set"
                } else {
                    "Next measurement vector not set"
                };
                return Err(Error::Message(message.to_owned()));
            }
            k += 1;
        }
        assert(is_first_unplaced(before, n as int));
        if n <= 2 {
            return Ok(());
        }
        let mut kept: Vec<BatchedMeasurement> = Vec::new();
        kept.push(self.measurements[0].clone());
        assert(batched_views(kept@) =~= turning_points(before, 1)) by {
            reveal_with_fuel(turning_points, 2);
        }
        assert(before[0].location().within(COMPARED_SCALE_LIMIT as int));
        let mut i: usize = 1;
        while i < n - 1
            invariant
                1 <= i <= n - 1,
                2 < n,
                n == self.measurements.len(),
                before == self.ms(),
                *self == *old(self),
                vectors_within(before, COMPARED_SCALE_LIMIT as int),
                batched_views(kept@) == turning_points(before, i as int),
                1 <= kept.len() <= i,
                kept@[0]@ == before[0],
                forall|k: int|
                    0 <= k < kept.len() ==> (#[trigger] kept@[k])@.location().within(
                        COMPARED_SCALE_LIMIT as int,
                    ) && kept@[k]@.amplitude().within(COMPARED_SCALE_LIMIT as int),
                forall|k: int| 0 <= k < n ==> (#[trigger] before[k]).vector is Some,
            decreases n - i,
        {
            assert(self.ms()[i - 1] == self.measurements@[i - 1]@);
            assert(self.ms()[i as int] == self.measurements@[i as int]@);
            assert(self.ms()[i + 1] == self.measurements@[i + 1]@);
            let arriving = self.slope_between(i - 1, i);
            let leaving = self.slope_between(i, i + 1);
            let ghost held = kept@;
            if arriving != leaving {
                kept.push(self.measurements[i].clone());
                assert(batched_views(kept@) =~= batched_views(held).push(before[i as int]));
            }
            i += 1;
        }
        let ghost held = kept@;
        kept.push(self.measurements[n - 1].clone());
        assert(batched_views(kept@) =~= batched_views(held).push(before[n - 1]));
        assert(before[n - 1].location().within(COMPARED_SCALE_LIMIT as int));
        self.measurements = kept;
        proof {
            assert(self.ms()[0] == before[0]);
            assert(self.ms().last() == before.last());
        }
        Ok(())
    }

    /// Gives every measurement its vector in parts of the extent of the batch.
    pub fn relative_analysis(&mut self) -> (r: Result<(), Error>)
        requires
            vectors_within(old(self).ms(), COMPARED_SCALE_LIMIT as int),
        ensures
            final(self).same_but_measurements(old(self)),
            match relative_failure(old(self).ms()) {
                Some(message) => {
                    &&& r is Err
                    &&& r->Err_0.spec_message() == message
                    &&& final(self).ms() == old(self).ms()
                },
                None => exists|k: int|
                    {
                        &&& #[trigger] is_first_unplaced(old(self).ms(), k)
                        &&& final(self).ms() == related(old(self).ms(), k)
                        &&& r is Ok <==> k == old(self).ms().len()
                        &&& r matches Err(e) ==> e.spec_message()
                            == "Location is not set for all measurements in the batch"@
                    },
            },
    {
        let ghost before = self.ms();
        let n: usize = self.measurements.len();
        if n == 0 {
            return Err(
                Error::Message("Batch is empty, cannot perform relative analysis".to_owned()),
            );
        }
        let mut xs: Vec<Decimal> = Vec::new();
        let mut ys: Vec<Decimal> = Vec::new();
        let mut i: usize = 0;
        while i < n
            invariant
                i <= n,
                n == self.measurements.len(),
                before == self.ms(),
                *self == *old(self),
                vectors_within(before, COMPARED_SCALE_LIMIT as int),
                decimal_views(xs@) == locations(vectors_of(before.take(i as int))),
                decimal_views(ys@) == amplitudes(vectors_of(before.take(i as int))),
                all_within(xs@, COMPARED_SCALE_LIMIT as int),
                all_within(ys@, COMPARED_SCALE_LIMIT as int),
            decreases n - i,
        {
            assert(before.take(i + 1).drop_last() == before.take(i as int));
            assert(before[i as int] == self.measurements@[i as int]@);
            assert(before[i as int].location().within(COMPARED_SCALE_LIMIT as int));
            let ghost held = vectors_of(before.take(i as int));
            match &self.measurements[i].vector {
                Some(v) => {
                    let ghost held_xs = decimal_views(xs@);
                    let ghost held_ys = decimal_views(ys@);
                    xs.push(v.location.clone());
                    ys.push(v.amplitude.clone());
                    assert(vectors_of(before.take(i + 1)) == held.push(v@));
                    assert(decimal_views(xs@) =~= held_xs.push(v@.location));
                    assert(decimal_views(ys@) =~= held_ys.push(v@.amplitude));
                    assert(locations(held.push(v@)) =~= locations(held).push(v@.location));
                    assert(amplitudes(held.push(v@)) =~= amplitudes(held).push(v@.amplitude));
                },
                None => (),
            }
            i += 1;
        }
        assert(before.take(n as int) == before);
        assert(xs.len() == decimal_views(xs@).len());
        assert(ys.len() == decimal_views(ys@).len());
        if xs.len() == 0 || ys.len() == 0 {
            return Err(
                Error::Message("No valid locations or amplitudes found in measurements".to_owned()),
            );
        }
        let max_x = extent(&xs);
        let max_y = extent(&ys);
        if max_x.is_zero() || max_y.is_zero() {
            return Err(
                Error::Message(
                    "Cannot perform relative analysis: max_x or max_y is zero".to_owned(),
                ),
            );
        }
        assert(self.ms() == related(before, 0));
        let mut i: usize = 0;
        while i < n
            invariant
                i <= n,
                n == self.measurements.len(),
                n == before.len(),
                before == old(self).ms(),
                relative_failure(before) is None,
                vectors_within(before, COMPARED_SCALE_LIMIT as int),
                max_x@ == width(before),
                max_y@ == height(before),
                max_x@.mantissa != 0,
                max_y@.mantissa != 0,
                max_x@.within(COMPARED_SCALE_LIMIT as int),
                max_y@.within(COMPARED_SCALE_LIMIT as int),
                self.same_but_measurements(old(self)),
                self.ms() == related(before, i as int),
                forall|k: int| 0 <= k < i ==> (#[trigger] before[k]).vector is Some,
            decreases n - i,
        {
            assert(self.ms()[i as int] == before[i as int]);
            assert(before[i as int].location().within(COMPARED_SCALE_LIMIT as int));
            if self.measurements[i].vector.is_none() {
                assert(is_first_unplaced(before, i as int));
                return Err(
                    Error::Message(
                        "Location is not set for all measurements in the batch".to_owned(),
                    ),
                );
            }
            let vector = MeasurementVector {
                location: self.location_at(i).over(&max_x),
                amplitude: self.amplitude_at(i).over(&max_y),
            };
            let relative = Relative { vector, max_x: max_x.clone(), max_y: max_y.clone() };
            let updated = replace_relative(&self.measurements[i], relative);
            let ghost held = self.ms();
            self.measurements.set(i, updated);
            i += 1;
            proof {
                assert(self.ms() == held.update(i - 1, updated@));
                assert(self.ms() == related(before, i as int));
            }
        }
        assert(is_first_unplaced(before, n as int));
        Ok(())
    }

    /// Brings the batch to level, moves it to the origin, simplifies it and analyses it relative to
    /// its extent.
    pub fn process(&mut self) -> (r: Result<(), Error>)
        requires
            is_tractable(old(self).ms()),
        ensures
            final(self).same_but_measurements(old(self)),
            match r {
                Ok(_) => exists|level: Seq<BatchedView>|
                    {
                        let moved = transposed(level, level.len() as int);
                        let simple = simplified(moved);
                        &&& #[trigger] is_leveled(old(self).ms(), level)
                        &&& relative_failure(simple) is None
                        &&& final(self).ms() == related(simple, simple.len() as int)
                    },
                Err(e) => {
                    ||| level_failure(old(self).ms(), final(self).ms(), e.spec_message())
                    ||| exists|level: Seq<BatchedView>|
                        {
                            let simple = simplified(transposed(level, level.len() as int));
                            &&& #[trigger] is_leveled(old(self).ms(), level)
                            &&& final(self).ms() == simple
                            &&& relative_failure(simple) == Some(e.spec_message())
                        }
                },
            },
    {
        let ghost before = self.ms();
        match self.level_transform() {
            Ok(_) => (),
            Err(e) => return Err(e),
        }
        let ghost level = self.ms();
        proof {
            lemma_leveled_is_placed(before, level);
            assert forall|i: int| 0 <= i < level.len() implies (
            #[trigger] level[i]).location().within(COMPARED_SCALE_LIMIT as int)
                && level[i].amplitude().within(COMPARED_SCALE_LIMIT as int) by {
                assert(level[i].location().within(LEVEL_SCALE_LIMIT as int));
            }
        }
        match self.transpose_origin() {
            Ok(_) => (),
            Err(e) => {
                proof {
                    let k = choose|k: int|
                        k < level.len() && #[trigger] is_first_unplaced(level, k);
                    assert(level[k].vector is Some);
                }
                return Err(e);
            },
        }
        let ghost moved = self.ms();
        proof {
            assert forall|i: int| 0 <= i < moved.len() implies (#[trigger] moved[i]).vector is Some by {
                assert(level[i].vector is Some);
            }
        }
        match self.simplify_transformation() {
            Ok(_) => (),
            Err(e) => {
                proof {
                    let k = choose|k: int|
                        k < moved.len() && #[trigger] is_first_unplaced(moved, k);
                    assert(moved[k].vector is Some);
                }
                return Err(e);
            },
        }
        let ghost simple = self.ms();
        proof {
            lemma_simplified_is_placed(moved);
        }
        let r = self.relative_analysis();
        proof {
            if relative_failure(simple) is None {
                let k = choose|k: int|
                    {
                        &&& #[trigger] is_first_unplaced(simple, k)
                        &&& self.ms() == related(simple, k)
                        &&& r is Ok <==> k == simple.len()
                    };
                if k < simple.len() {
                    assert(simple[k].vector is Some);
                }
            }
            assert(is_leveled(before, level));
        }
        r
    }

    /// A batch of measurements, with their vectors and distances.
    pub fn new(
        size: usize,
        measurements: Vec<BatchedMeasurement>,
        resolution: Resolution,
        aspect: AspectId,
        database_info: DatabaseInfo,
    ) -> (r: Batch)
        requires
            measurements.len() == size,
            size > 0,
            is_tractable(batched_views(measurements@)),
            location_range(batched_views(measurements@)).mantissa != 0,
        ensures
            r.metadata == (BatchMetatdata { aspect, resolution, size, database_info }),
            is_random_uuid(r.batch_id.value),
            r.batch_hash is None,
            r.ms() == prepared(batched_views(measurements@)),
            is_tractable(r.ms()),
            is_first_incomplete(r.ms(), size as int),
            ends_at_zero_and_one(r.ms()),
    {
        let ghost given = batched_views(measurements@);
        let metadata = BatchMetatdata { aspect, resolution, size, database_info };
        let mut batch = Batch { metadata, measurements, batch_id: BatchId::new(), batch_hash: None };
        let placed = batch.initialize_measurement_vectors();
        let ghost middle = batch.ms();
        proof {
            assert forall|i: int| 0 <= i < middle.len() implies tractable(#[trigger] middle[i]) by {
                assert(tractable(given[i]));
            }
            assert(location_range(middle) == location_range(given));
        }
        let spread = batch.initialize_distances();
        proof {
            assert(is_first_unplaced(middle, middle.len() as int));
            assert(spread is Ok) by {
                if spread is Err {
                    let k = choose|k: int|
                        k < middle.len() && #[trigger] is_first_unplaced(middle, k);
                    assert(middle[k].vector is Some);
                }
            }
            assert(batch.ms() =~= prepared(given));
            assert(is_first_incomplete(batch.ms(), size as int));
            assert(whole(1).same_value(whole(1)));
        }
        batch
    }
}

/// The measurements with their vectors and distances.
pub open spec fn prepared(ms: Seq<BatchedView>) -> Seq<BatchedView> {
    let placed = Seq::new(ms.len(), |i: int| ms[i].placed());
    distanced(placed, placed.len() as int)
}

/// What is said when the first measurement without a vector is the one at `k`.
pub open spec fn unplaced_message(k: int) -> Seq<char> {
    if k == 0 {
        "Previous measurement vector not set"@
    } else if k == 1 {
        "Current measurement vector not set"@
    } else {
        "Next measurement vector not set"@
    }
}

/// The difference of the largest and the smallest number.
fn extent(values: &Vec<Decimal>) -> (r: Decimal)
    requires
        values.len() > 0,
        all_within(values@, COMPARED_SCALE_LIMIT as int),
    ensures
        r@ == greatest(decimal_views(values@)).minus(least(decimal_views(values@))),
        r@.within(COMPARED_SCALE_LIMIT as int),
{
    let ghost views = decimal_views(values@);
    let mut low: usize = 0;
    let mut high: usize = 0;
    let mut i: usize = 1;
    assert(values@[0]@.within(COMPARED_SCALE_LIMIT as int));
    while i < values.len()
        invariant
            1 <= i <= values.len(),
            low < i,
            high < i,
            views == decimal_views(values@),
            all_within(values@, COMPARED_SCALE_LIMIT as int),
            values@[low as int]@ == least(views.take(i as int)),
            values@[high as int]@ == greatest(views.take(i as int)),
        decreases values.len() - i,
    {
        assert(values@[i as int]@.within(COMPARED_SCALE_LIMIT as int));
        assert(views.take(i + 1).drop_last() == views.take(i as int));
        let below = values[i].compare(&values[low]) == Comparison::Less;
        let under = values[i].compare(&values[high]) == Comparison::Less;
        if below {
            low = i;
        }
        if !under {
            high = i;
        }
        i += 1;
    }
    assert(views.take(values.len() as int) == views);
    values[high].minus(&values[low])
}

proof fn lemma_leveled_is_placed(before: Seq<BatchedView>, after: Seq<BatchedView>)
    requires
        is_leveled(before, after),
    ensures
        forall|i: int| 0 <= i < after.len() ==> (#[trigger] after[i]).vector is Some,
{
}

/// A leveled batch can be moved and simplified: all its measurements have vectors, and so have they
/// when they are moved.
pub proof fn lemma_prepared_for_patterns(before: Seq<BatchedView>, level: Seq<BatchedView>)
    requires
        is_leveled(before, level),
        vectors_within(level, LEVEL_SCALE_LIMIT as int),
    ensures
        vectors_within(level, COMPARED_SCALE_LIMIT as int),
        forall|k: int| k < level.len() ==> !(#[trigger] is_first_unplaced(level, k)),
        forall|k: int|
            k < level.len() ==> !(#[trigger] is_first_unplaced(
                transposed(level, level.len() as int),
                k,
            )),
{
    let moved = transposed(level, level.len() as int);
    assert forall|i: int| 0 <= i < level.len() implies (#[trigger] level[i]).location().within(
        COMPARED_SCALE_LIMIT as int,
    ) && level[i].amplitude().within(COMPARED_SCALE_LIMIT as int) by {
        assert(level[i].location().within(LEVEL_SCALE_LIMIT as int));
    }
    assert forall|k: int| k < level.len() implies !(#[trigger] is_first_unplaced(level, k)) by {
        if 0 <= k {
            assert(level[k].vector is Some);
        }
    }
    assert forall|k: int| k < level.len() implies !(#[trigger] is_first_unplaced(moved, k)) by {
        if 0 <= k {
            assert(moved[k].vector is Some);
        }
    }
}

proof fn lemma_turning_points_placed(ms: Seq<BatchedView>, n: int)
    requires
        0 <= n <= ms.len(),
        forall|i: int| 0 <= i < ms.len() ==> (#[trigger] ms[i]).vector is Some,
    ensures
        forall|i: int|
            0 <= i < turning_points(ms, n).len() ==> (#[trigger] turning_points(ms, n)[i]).vector is Some,
    decreases n,
{
    if n > 0 {
        lemma_turning_points_placed(ms, n - 1);
    }
}

proof fn lemma_simplified_is_placed(ms: Seq<BatchedView>)
    requires
        forall|i: int| 0 <= i < ms.len() ==> (#[trigger] ms[i]).vector is Some,
    ensures
        forall|i: int|
            0 <= i < simplified(ms).len() ==> (#[trigger] simplified(ms)[i]).vector is Some,
{
    if ms.len() > 2 {
        lemma_turning_points_placed(ms, ms.len() as int);
    }
}

/// What is said of a measurement that lacks its distance or its vector.
pub open spec fn incomplete_message(m: BatchedView) -> Seq<char> {
    if m.distance is None {
        "Distance is not set for all measurements in the batch"@
    } else {
        "Measurement vector is not set for all measurements in the batch"@
    }
}

/// The amplitude with the last one taken off in proportion to the distance from the start.
pub open spec fn lowered_at_end(ms: Seq<BatchedView>, i: int) -> DecimalView {
    ms[i].amplitude().plus(
        whole(0).minus(ms.last().amplitude()).times(ms[i].distance->0.positive),
    )
}

/// Whether the first measurement lies at distance zero and the last at distance one.
pub open spec fn ends_at_zero_and_one(ms: Seq<BatchedView>) -> bool {
    &&& ms[0].distance->0.positive.mantissa == 0
    &&& ms[0].distance->0.negative.same_value(whole(1))
    &&& ms.last().distance->0.positive.same_value(whole(1))
}

/// How the level transform fails: on an empty batch, or at the first measurement that lacks its
/// distance or its vector, when those before it have been lowered by the first amplitude.
pub open spec fn level_failure(
    before: Seq<BatchedView>,
    after: Seq<BatchedView>,
    message: Seq<char>,
) -> bool {
    if before.len() == 0 {
        &&& message == "Batch is empty, cannot perform level transform"@
        &&& after == before
    } else {
        exists|k: int|
            {
                &&& k < before.len()
                &&& #[trigger] is_first_incomplete(before, k)
                &&& amplitudes_replaced(before, after, k, |i: int| lowered_at_start(before, i))
                &&& message == incomplete_message(before[k])
            }
    }
}

proof fn lemma_leveled(before: Seq<BatchedView>, middle: Seq<BatchedView>, after: Seq<BatchedView>)
    requires
        before.len() > 0,
        is_first_incomplete(before, before.len() as int),
        amplitudes_replaced(
            before,
            middle,
            before.len() as int,
            |i: int| lowered_at_start(before, i),
        ),
        amplitudes_replaced(
            middle,
            after,
            middle.len() as int,
            |i: int| lowered_at_end(middle, i),
        ),
    ensures
        is_leveled(before, after),
        ends_at_zero_and_one(before) ==> after[0].amplitude().mantissa == 0
            && after.last().amplitude().mantissa == 0,
{
    let n = before.len() as int;
    let start = |i: int| lowered_at_start(before, i);
    let end = |i: int| lowered_at_end(middle, i);
    assert forall|i: int| 0 <= i < n implies {
        &&& (#[trigger] after[i]).vector is Some
        &&& after[i] == before[i].with_amplitude(after[i].amplitude())
        &&& after[i].amplitude().same_value(leveled_amplitude(before, i))
    } by {
        assert(middle[i] == before[i].with_amplitude(middle[i].amplitude()));
        assert(after[i] == middle[i].with_amplitude(after[i].amplitude()));
        assert(middle[i].amplitude().same_value(start(i)));
        assert(middle[n - 1].amplitude().same_value(start(n - 1)));
        assert(after[i].amplitude().same_value(end(i)));
        let positive = before[i].distance->0.positive;
        let x = middle[n - 1].amplitude();
        let y = lowered_at_start(before, n - 1);
        assert(whole(0).same_value(whole(0)));
        assert(positive.same_value(positive));
        lemma_sum_value(whole(0), x, whole(0), y);
        lemma_product_value(whole(0).minus(x), positive, whole(0).minus(y), positive);
        lemma_sum_value(
            middle[i].amplitude(),
            whole(0).minus(x).times(positive),
            lowered_at_start(before, i),
            whole(0).minus(y).times(positive),
        );
        lemma_same_value_transitive(
            after[i].amplitude(),
            lowered_at_end(middle, i),
            leveled_amplitude(before, i),
        );
    }
    if ends_at_zero_and_one(before) {
        // the first amplitude
        lemma_cancel(before[0].amplitude(), before[0].distance->0.negative);
        let lowered = lowered_at_start(before, 0);
        assert(lowered.mantissa == 0);
        let movement = whole(0).minus(lowered_at_start(before, n - 1));
        lemma_plus_nothing(lowered, movement, before[0].distance->0.positive);
        lemma_zero_value(leveled_amplitude(before, 0), lowered);
        lemma_zero_value(after[0].amplitude(), leveled_amplitude(before, 0));
        // the last amplitude
        lemma_cancel(lowered_at_start(before, n - 1), before[n - 1].distance->0.positive);
        lemma_zero_value(after[n - 1].amplitude(), leveled_amplitude(before, n - 1));
    }
}

}
