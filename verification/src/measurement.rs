//! Measurements, and what the analysis of a batch attaches to them.
use crate::decimal::{Decimal, DecimalView};
use crate::ids::{DatasetId, MeasurementId};
use crate::time::Timestamp;
use vstd::prelude::*;

verus! {

/// A value at an instant.
#[derive(Debug)]
pub struct Point {
    pub timestamp: Timestamp,
    pub value: Decimal,
}

pub struct PointView {
    pub timestamp: Timestamp,
    pub value: DecimalView,
}

impl View for Point {
    type V = PointView;

    open spec fn view(&self) -> PointView {
        PointView { timestamp: self.timestamp, value: self.value@ }
    }
}

impl Clone for Point {
    fn clone(&self) -> (r: Point)
        ensures
            r@ == self@,
    {
        Point { timestamp: self.timestamp, value: self.value.clone() }
    }
}

/// A value that a caller hands in, with its instant.
#[derive(Debug)]
pub struct InputMeasurement {
    pub timestamp: Timestamp,
    pub value: Decimal,
}

impl View for InputMeasurement {
    type V = PointView;

    open spec fn view(&self) -> PointView {
        PointView { timestamp: self.timestamp, value: self.value@ }
    }
}

/// A stored measurement.
#[derive(Debug)]
pub struct Measurement {
    pub id: MeasurementId,
    pub dataset_id: DatasetId,
    pub timestamp: Timestamp,
    pub value: Decimal,
}

pub struct MeasurementView {
    pub id: MeasurementId,
    pub dataset_id: DatasetId,
    pub timestamp: Timestamp,
    pub value: DecimalView,
}

impl View for Measurement {
    type V = MeasurementView;

    open spec fn view(&self) -> MeasurementView {
        MeasurementView {
            id: self.id,
            dataset_id: self.dataset_id,
            timestamp: self.timestamp,
            value: self.value@,
        }
    }
}

impl MeasurementView {
    pub open spec fn point(self) -> PointView {
        PointView { timestamp: self.timestamp, value: self.value }
    }
}

impl Clone for Measurement {
    fn clone(&self) -> (r: Measurement)
        ensures
            r@ == self@,
    {
        Measurement {
            id: self.id,
            dataset_id: self.dataset_id,
            timestamp: self.timestamp,
            value: self.value.clone(),
        }
    }
}

/// The points of a sequence of measurements.
pub open spec fn points_of(measurements: Seq<Measurement>) -> Seq<PointView> {
    Seq::new(measurements.len(), |i: int| measurements[i]@.point())
}

pub open spec fn point_views(points: Seq<Point>) -> Seq<PointView> {
    Seq::new(points.len(), |i: int| points[i]@)
}

/// The points of the measurements, in their order.
pub fn measurements_to_points(measurements: &Vec<Measurement>) -> (r: Vec<Point>)
    ensures
        point_views(r@) == points_of(measurements@),
{
    let mut r: Vec<Point> = Vec::new();
    let mut i: usize = 0;
    while i < measurements.len()
        invariant
            i <= measurements.len(),
            r.len() == i,
            forall|k: int| 0 <= k < i ==> (#[trigger] r@[k])@ == measurements@[k]@.point(),
        decreases measurements.len() - i,
    {
        r.push(
            Point {
                timestamp: measurements[i].timestamp,
                value: measurements[i].value.clone(),
            },
        );
        i += 1;
    }
    assert(point_views(r@) == points_of(measurements@));
    r
}

/// Where a measurement lies: a location on the time axis, and an amplitude.
#[derive(Debug)]
pub struct MeasurementVector {
    pub location: Decimal,
    pub amplitude: Decimal,
}

pub struct VectorView {
    pub location: DecimalView,
    pub amplitude: DecimalView,
}

impl View for MeasurementVector {
    type V = VectorView;

    open spec fn view(&self) -> VectorView {
        VectorView { location: self.location@, amplitude: self.amplitude@ }
    }
}

impl Clone for MeasurementVector {
    fn clone(&self) -> (r: MeasurementVector)
        ensures
            r@ == self@,
    {
        MeasurementVector { location: self.location.clone(), amplitude: self.amplitude.clone() }
    }
}

/// How far along a batch a measurement lies, as a part of the whole, from either end.
#[derive(Debug)]
pub struct BatchDistance {
    pub positive: Decimal,
    pub negative: Decimal,
}

pub struct DistanceView {
    pub positive: DecimalView,
    pub negative: DecimalView,
}

impl View for BatchDistance {
    type V = DistanceView;

    open spec fn view(&self) -> DistanceView {
        DistanceView { positive: self.positive@, negative: self.negative@ }
    }
}

impl Clone for BatchDistance {
    fn clone(&self) -> (r: BatchDistance)
        ensures
            r@ == self@,
    {
        BatchDistance { positive: self.positive.clone(), negative: self.negative.clone() }
    }
}

/// A vector in parts of the extent of its batch, with that extent.
#[derive(Debug)]
pub struct Relative {
    pub vector: MeasurementVector,
    pub max_x: Decimal,
    pub max_y: Decimal,
}

pub struct RelativeView {
    pub vector: VectorView,
    pub max_x: DecimalView,
    pub max_y: DecimalView,
}

impl View for Relative {
    type V = RelativeView;

    open spec fn view(&self) -> RelativeView {
        RelativeView { vector: self.vector@, max_x: self.max_x@, max_y: self.max_y@ }
    }
}

impl Clone for Relative {
    fn clone(&self) -> (r: Relative)
        ensures
            r@ == self@,
    {
        Relative {
            vector: self.vector.clone(),
            max_x: self.max_x.clone(),
            max_y: self.max_y.clone(),
        }
    }
}

/// The slope towards another measurement.
#[derive(Debug)]
pub struct Trend {
    pub slope: Decimal,
}

impl View for Trend {
    type V = DecimalView;

    open spec fn view(&self) -> DecimalView {
        self.slope@
    }
}

impl Trend {
    pub fn slope(&self) -> (r: &Decimal)
        ensures
            r@ == self@,
    {
        &self.slope
    }
}

impl Clone for Trend {
    fn clone(&self) -> (r: Trend)
        ensures
            r@ == self@,
    {
        Trend { slope: self.slope.clone() }
    }
}

/// What the analysis of a batch found at a measurement.
#[derive(Debug)]
pub struct Analysis {
    pub trend: Option<Vec<Trend>>,
    pub relative: Option<Relative>,
}

pub struct AnalysisView {
    pub trend: Option<Seq<DecimalView>>,
    pub relative: Option<RelativeView>,
}

pub open spec fn trend_views(trend: Seq<Trend>) -> Seq<DecimalView> {
    Seq::new(trend.len(), |i: int| trend[i]@)
}

pub open spec fn trend_option(trend: Option<Vec<Trend>>) -> Option<Seq<DecimalView>> {
    match trend {
        Some(t) => Some(trend_views(t@)),
        None => None,
    }
}

pub open spec fn relative_option(relative: Option<Relative>) -> Option<RelativeView> {
    match relative {
        Some(r) => Some(r@),
        None => None,
    }
}

impl View for Analysis {
    type V = AnalysisView;

    open spec fn view(&self) -> AnalysisView {
        AnalysisView {
            trend: trend_option(self.trend),
            relative: relative_option(self.relative),
        }
    }
}

impl Clone for Analysis {
    fn clone(&self) -> (r: Analysis)
        ensures
            r@ == self@,
    {
        let trend = match &self.trend {
            Some(t) => {
                let mut copy: Vec<Trend> = Vec::new();
                let mut i: usize = 0;
                while i < t.len()
                    invariant
                        i <= t.len(),
                        copy.len() == i,
                        forall|k: int| 0 <= k < i ==> (#[trigger] copy@[k])@ == t@[k]@,
                    decreases t.len() - i,
                {
                    copy.push(t[i].clone());
                    i += 1;
                }
                assert(trend_views(copy@) == trend_views(t@));
                Some(copy)
            },
            None => None,
        };
        let relative = match &self.relative {
            Some(r) => Some(r.clone()),
            None => None,
        };
        Analysis { trend, relative }
    }
}

impl Default for Analysis {
    fn default() -> (r: Analysis)
        ensures
            r.trend is None,
            r.relative is None,
    {
        Analysis { trend: None, relative: None }
    }
}

impl Analysis {
    pub fn new(trend: Option<Vec<Trend>>, relative: Option<Relative>) -> (r: Analysis)
        ensures
            r.trend == trend,
            r.relative == relative,
    {
        Analysis { trend, relative }
    }

    pub fn trend(&self) -> (r: Option<&Vec<Trend>>)
        ensures
            match r {
                Some(t) => self.trend == Some(*t),
                None => self.trend is None,
            },
    {
        match &self.trend {
            Some(t) => Some(t),
            None => None,
        }
    }

    /// The trend at an index, if there are trends and the index is one of theirs.
    pub fn get_trend(&self, index: usize) -> (r: Option<&Trend>)
        ensures
            match r {
                Some(t) => self.trend is Some && index < self.trend->0.len() && *t
                    == self.trend->0@[index as int],
                None => self.trend is None || index >= self.trend->0.len(),
            },
    {
        match &self.trend {
            Some(t) => if index < t.len() {
                Some(&t[index])
            } else {
                None
            },
            None => None,
        }
    }

    /// The slope of the trend at an index.
    pub fn get_slope(&self, index: usize) -> (r: Option<&Decimal>)
        ensures
            match r {
                Some(s) => self.trend is Some && index < self.trend->0.len() && *s
                    == self.trend->0@[index as int].slope,
                None => self.trend is None || index >= self.trend->0.len(),
            },
    {
        match &self.trend {
            Some(t) => if index < t.len() {
                Some(&t[index].slope)
            } else {
                None
            },
            None => None,
        }
    }

    pub fn set_trend(&mut self, trend: Option<Vec<Trend>>)
        ensures
            *final(self) == (Analysis { trend, relative: old(self).relative }),
    {
        self.trend = trend;
    }

    pub fn relative(&self) -> (r: Option<&Relative>)
        ensures
            match r {
                Some(x) => self.relative == Some(*x),
                None => self.relative is None,
            },
    {
        match &self.relative {
            Some(r) => Some(r),
            None => None,
        }
    }

    pub fn set_relative(&mut self, relative: Option<Relative>)
        ensures
            *final(self) == (Analysis { trend: old(self).trend, relative }),
    {
        self.relative = relative;
    }

    /// Removes the trend at an index; an index outside leaves everything as it is.
    pub fn remove_index(&mut self, index: usize)
        ensures
            final(self).relative == old(self).relative,
            match (old(self).trend, final(self).trend) {
                (Some(before), Some(after)) => after@ == if index < before.len() {
                    before@.remove(index as int)
                } else {
                    before@
                },
                (None, None) => true,
                _ => false,
            },
    {
        if let Some(trend) = &mut self.trend {
            if index < trend.len() {
                trend.remove(index);
            }
        }
    }
}

/// A point of a batch, and what is known of it so far.
#[derive(Debug)]
pub struct BatchedMeasurement {
    pub point: Point,
    pub vector: Option<MeasurementVector>,
    pub distance: Option<BatchDistance>,
    pub analysis: Option<Analysis>,
}

pub struct BatchedView {
    pub point: PointView,
    pub vector: Option<VectorView>,
    pub distance: Option<DistanceView>,
    pub analysis: Option<AnalysisView>,
}

pub open spec fn vector_option(vector: Option<MeasurementVector>) -> Option<VectorView> {
    match vector {
        Some(v) => Some(v@),
        None => None,
    }
}

pub open spec fn distance_option(distance: Option<BatchDistance>) -> Option<DistanceView> {
    match distance {
        Some(d) => Some(d@),
        None => None,
    }
}

pub open spec fn analysis_option(analysis: Option<Analysis>) -> Option<AnalysisView> {
    match analysis {
        Some(a) => Some(a@),
        None => None,
    }
}

impl View for BatchedMeasurement {
    type V = BatchedView;

    open spec fn view(&self) -> BatchedView {
        BatchedView {
            point: self.point@,
            vector: vector_option(self.vector),
            distance: distance_option(self.distance),
            analysis: analysis_option(self.analysis),
        }
    }
}

impl Clone for BatchedMeasurement {
    fn clone(&self) -> (r: BatchedMeasurement)
        ensures
            r@ == self@,
    {
        BatchedMeasurement {
            point: self.point.clone(),
            vector: match &self.vector {
                Some(v) => Some(v.clone()),
                None => None,
            },
            distance: match &self.distance {
                Some(d) => Some(d.clone()),
                None => None,
            },
            analysis: match &self.analysis {
                Some(a) => Some(a.clone()),
                None => None,
            },
        }
    }
}

impl BatchedMeasurement {
    /// A point of which nothing is known yet.
    pub fn new(point: Point) -> (r: BatchedMeasurement)
        ensures
            r@ == fresh(point@),
    {
        BatchedMeasurement { point, vector: None, distance: None, analysis: None }
    }
}

/// A point of which nothing is known yet.
pub open spec fn fresh(point: PointView) -> BatchedView {
    BatchedView { point, vector: None, distance: None, analysis: None }
}

pub open spec fn batched_views(measurements: Seq<BatchedMeasurement>) -> Seq<BatchedView> {
    Seq::new(measurements.len(), |i: int| measurements[i]@)
}

/// A copy of the measurements.
pub fn clone_measurements(measurements: &Vec<BatchedMeasurement>) -> (r: Vec<BatchedMeasurement>)
    ensures
        batched_views(r@) == batched_views(measurements@),
{
    let mut r: Vec<BatchedMeasurement> = Vec::new();
    let mut i: usize = 0;
    while i < measurements.len()
        invariant
            i <= measurements.len(),
            r.len() == i,
            forall|k: int| 0 <= k < i ==> (#[trigger] r@[k])@ == measurements@[k]@,
        decreases measurements.len() - i,
    {
        r.push(measurements[i].clone());
        i += 1;
    }
    assert(batched_views(r@) == batched_views(measurements@));
    r
}

}
