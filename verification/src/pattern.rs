//! Patterns: shapes that occur in a time series, and where they occur.
use crate::decimal::{all_within, decimal_views, sum_of, Decimal, DecimalView, OPERAND_SCALE_LIMIT};
use crate::ids::{AspectId, PatternID};
use crate::measurement::{Relative, RelativeView};
use crate::registry::{DatabaseInfo, DatabaseInfoView};
use crate::resolution::Resolution;
use crate::time::Timestamp;
use vstd::prelude::*;

verus! {

/// A stretch of an aspect at which a pattern occurs.
#[derive(Debug)]
pub struct Occurrence {
    pub aspect: AspectId,
    pub resolution: Resolution,
    pub size: usize,
    pub database_info: DatabaseInfo,
    pub pattern_id: PatternID,
    pub beginning: Timestamp,
    pub end: Timestamp,
}

pub struct OccurrenceView {
    pub aspect: AspectId,
    pub resolution: Resolution,
    pub size: usize,
    pub database_info: DatabaseInfoView,
    pub pattern_id: PatternID,
    pub beginning: Timestamp,
    pub end: Timestamp,
}

impl View for Occurrence {
    type V = OccurrenceView;

    open spec fn view(&self) -> OccurrenceView {
        OccurrenceView {
            aspect: self.aspect,
            resolution: self.resolution,
            size: self.size,
            database_info: self.database_info@,
            pattern_id: self.pattern_id,
            beginning: self.beginning,
            end: self.end,
        }
    }
}

impl Clone for Occurrence {
    fn clone(&self) -> (r: Occurrence)
        ensures
            r@ == self@,
    {
        Occurrence {
            aspect: self.aspect,
            resolution: self.resolution,
            size: self.size,
            database_info: self.database_info.clone(),
            pattern_id: self.pattern_id,
            beginning: self.beginning,
            end: self.end,
        }
    }
}

/// A shape, as relative vectors, and where it occurs.
#[derive(Debug)]
pub struct Pattern {
    pub id: PatternID,
    pub occurrences: Vec<Occurrence>,
    pub relatives: Vec<Relative>,
}

pub struct PatternView {
    pub id: PatternID,
    pub occurrences: Seq<OccurrenceView>,
    pub relatives: Seq<RelativeView>,
}

pub open spec fn occurrence_views(s: Seq<Occurrence>) -> Seq<OccurrenceView> {
    Seq::new(s.len(), |i: int| s[i]@)
}

pub open spec fn relative_views(s: Seq<Relative>) -> Seq<RelativeView> {
    Seq::new(s.len(), |i: int| s[i]@)
}

impl View for Pattern {
    type V = PatternView;

    open spec fn view(&self) -> PatternView {
        PatternView {
            id: self.id,
            occurrences: occurrence_views(self.occurrences@),
            relatives: relative_views(self.relatives@),
        }
    }
}

pub open spec fn pattern_views(s: Seq<Pattern>) -> Seq<PatternView> {
    Seq::new(s.len(), |i: int| s[i]@)
}

impl PatternView {
    pub open spec fn amplitudes(self) -> Seq<DecimalView> {
        Seq::new(self.relatives.len(), |i: int| self.relatives[i].vector.amplitude)
    }

    /// The pattern with more occurrences.
    pub open spec fn with_occurrences(self, more: Seq<OccurrenceView>) -> PatternView {
        PatternView { occurrences: self.occurrences + more, ..self }
    }
}

/// The magnitudes of numbers.
pub open spec fn magnitudes(s: Seq<DecimalView>) -> Seq<DecimalView> {
    Seq::new(s.len(), |i: int| s[i].magnitude())
}

/// A copy of the occurrences.
pub fn clone_occurrences(occurrences: &Vec<Occurrence>) -> (r: Vec<Occurrence>)
    ensures
        occurrence_views(r@) == occurrence_views(occurrences@),
{
    let mut r: Vec<Occurrence> = Vec::new();
    let mut i: usize = 0;
    while i < occurrences.len()
        invariant
            i <= occurrences.len(),
            r.len() == i,
            forall|k: int| 0 <= k < i ==> (#[trigger] r@[k])@ == occurrences@[k]@,
        decreases occurrences.len() - i,
    {
        r.push(occurrences[i].clone());
        i += 1;
    }
    assert(occurrence_views(r@) == occurrence_views(occurrences@));
    r
}

impl Pattern {
    pub fn new(id: PatternID, occurrences: Vec<Occurrence>, relatives: Vec<Relative>) -> (r: Pattern)
        ensures
            r.id == id,
            r.occurrences == occurrences,
            r.relatives == relatives,
    {
        Pattern { id, occurrences, relatives }
    }

    pub fn id(&self) -> (r: PatternID)
        ensures
            r == self.id,
    {
        self.id
    }

    pub fn occurrences(&self) -> (r: &Vec<Occurrence>)
        ensures
            *r == self.occurrences,
    {
        &self.occurrences
    }

    pub fn relatives(&self) -> (r: &Vec<Relative>)
        ensures
            *r == self.relatives,
    {
        &self.relatives
    }

    /// The amplitudes of the shape.
    pub fn amplitudes(&self) -> (r: Vec<Decimal>)
        ensures
            decimal_views(r@) == self@.amplitudes(),
    {
        let mut r: Vec<Decimal> = Vec::new();
        let mut i: usize = 0;
        while i < self.relatives.len()
            invariant
                i <= self.relatives.len(),
                r.len() == i,
                forall|k: int|
                    0 <= k < i ==> (#[trigger] r@[k])@ == self.relatives@[k]@.vector.amplitude,
            decreases self.relatives.len() - i,
        {
            r.push(self.relatives[i].vector.amplitude.clone());
            i += 1;
        }
        assert(decimal_views(r@) =~= self@.amplitudes());
        r
    }
}

/// The sum of numbers.
pub fn total(values: &Vec<Decimal>) -> (r: Decimal)
    requires
        all_within(values@, OPERAND_SCALE_LIMIT as int),
    ensures
        r@ == sum_of(decimal_views(values@)),
        r@.is_operand(),
{
    let ghost views = decimal_views(values@);
    let mut sum = Decimal::from_i64(0);
    let mut i: usize = 0;
    while i < values.len()
        invariant
            i <= values.len(),
            views == decimal_views(values@),
            all_within(values@, OPERAND_SCALE_LIMIT as int),
            sum@ == sum_of(views.take(i as int)),
            sum@.is_operand(),
        decreases values.len() - i,
    {
        assert(values@[i as int]@.within(OPERAND_SCALE_LIMIT as int));
        assert(views.take(i + 1).drop_last() == views.take(i as int));
        sum = sum.plus(&values[i]);
        i += 1;
    }
    assert(views.take(values.len() as int) == views);
    sum
}

}
