//! Dictionaries: collections of patterns in which similar patterns count as one.
use crate::decimal::{
    abs_int,
    all_within,
    decimal_views,
    lemma_sum_bounds,
    lemma_sum_within,
    max_int,
    sum_of,
    whole,
    Comparison,
    Decimal,
    DecimalView,
    OPERAND_SCALE_LIMIT,
};
use crate::ids::{is_random_uuid, DictionaryId};
use crate::measurement::{MeasurementVector, Relative, RelativeView, VectorView};
use crate::pattern::{
    clone_occurrences,
    magnitudes,
    occurrence_views,
    pattern_views,
    relative_views,
    total,
    Pattern,
    PatternView,
};
use crate::resolution::Spline;
use crate::variability::{VariabilityKind, VariabilityView, VariablilityType};
use vstd::arithmetic::power::{lemma_pow_increases, pow};
use vstd::prelude::*;

verus! {

/// The number of steps that the patterns of a dictionary have, and how they are brought to it.
#[derive(Debug, Clone, Copy, PartialEq, Eq, Structural)]
pub struct Steps {
    pub count: usize,
    pub interpolation: Spline,
}

impl Steps {
    pub fn new(count: usize, interpolation: Spline) -> (r: Steps)
        ensures
            r == (Steps { count, interpolation }),
    {
        Steps { count, interpolation }
    }

    pub fn count(&self) -> (r: usize)
        ensures
            r == self.count,
    {
        self.count
    }

    pub fn set_count(&mut self, count: usize)
        ensures
            *final(self) == (Steps { count, ..*old(self) }),
    {
        self.count = count;
    }

    pub fn interpolation(&self) -> (r: &Spline)
        ensures
            *r == self.interpolation,
    {
        &self.interpolation
    }

    pub fn set_interpolation(&mut self, interpolation: Spline)
        ensures
            *final(self) == (Steps { interpolation, ..*old(self) }),
    {
        self.interpolation = interpolation;
    }
}

/// What the patterns of a dictionary have to meet.
#[derive(Debug)]
pub struct DictionaryConstraints {
    pub steps: Option<Steps>,
    pub variabilities: Option<Vec<VariablilityType>>,
}

pub struct ConstraintsView {
    pub steps: Option<Steps>,
    pub variabilities: Option<Seq<VariabilityView>>,
}

pub open spec fn variability_views(s: Seq<VariablilityType>) -> Seq<VariabilityView> {
    Seq::new(s.len(), |i: int| s[i]@)
}

impl View for DictionaryConstraints {
    type V = ConstraintsView;

    open spec fn view(&self) -> ConstraintsView {
        ConstraintsView {
            steps: self.steps,
            variabilities: match self.variabilities {
                Some(v) => Some(variability_views(v@)),
                None => None,
            },
        }
    }
}

impl DictionaryConstraints {
    pub fn new(steps: Option<Steps>, variabilities: Option<Vec<VariablilityType>>) -> (r:
        DictionaryConstraints)
        ensures
            r.steps == steps,
            r.variabilities == variabilities,
    {
        DictionaryConstraints { steps, variabilities }
    }

    pub fn steps(&self) -> (r: &Option<Steps>)
        ensures
            *r == self.steps,
    {
        &self.steps
    }

    pub fn set_steps(&mut self, steps: Option<Steps>)
        ensures
            final(self).steps == steps,
            final(self).variabilities == old(self).variabilities,
    {
        self.steps = steps;
    }

    pub fn variabilities(&self) -> (r: &Option<Vec<VariablilityType>>)
        ensures
            *r == self.variabilities,
    {
        &self.variabilities
    }

    pub fn set_variabilities(&mut self, variabilities: Option<Vec<VariablilityType>>)
        ensures
            final(self).steps == old(self).steps,
            final(self).variabilities == variabilities,
    {
        self.variabilities = variabilities;
    }
}

impl Default for DictionaryConstraints {
    fn default() -> (r: DictionaryConstraints)
        ensures
            r.steps is None,
            r.variabilities is None,
    {
        DictionaryConstraints { steps: None, variabilities: None }
    }
}

/// What is kept of a dictionary besides its patterns.
#[derive(Debug)]
pub struct DictionaryMetadata {
    pub id: DictionaryId,
    pub name: String,
    pub description: String,
    pub constraints: DictionaryConstraints,
}

/// A collection of patterns.
#[derive(Debug)]
pub struct Dictionary {
    pub id: DictionaryId,
    pub name: String,
    pub description: String,
    pub patterns: Vec<Pattern>,
    pub constraints: DictionaryConstraints,
}

/// A difference in percent of a base. Of nothing, no difference is none, and any other counts as
/// ten thousand percent.
pub open spec fn percentage(difference: DecimalView, base: DecimalView) -> DecimalView {
    if base.mantissa == 0 {
        if difference.mantissa == 0 {
            whole(0)
        } else {
            whole(10000)
        }
    } else {
        difference.over(base).product(whole(100))
    }
}

/// The differences of two patterns, step by step, in percent of the second.
pub open spec fn step_percentages(a: Seq<DecimalView>, b: Seq<DecimalView>) -> Seq<DecimalView> {
    Seq::new(
        a.len(),
        |i: int| percentage(a[i].minus(b[i]).magnitude(), b[i].magnitude()),
    )
}

/// The number is at most the bound.
pub open spec fn at_most(number: DecimalView, bound: DecimalView) -> bool {
    !bound.less_than(number)
}

/// The largest of the numbers, or zero where there is none, is at most the bound.
pub open spec fn largest_at_most(numbers: Seq<DecimalView>, bound: DecimalView) -> bool {
    if numbers.len() == 0 {
        at_most(whole(0), bound)
    } else {
        forall|i: int| 0 <= i < numbers.len() ==> at_most(#[trigger] numbers[i], bound)
    }
}

/// The average of the numbers is at most the bound.
pub open spec fn average_at_most(numbers: Seq<DecimalView>, bound: DecimalView) -> bool {
    at_most(sum_of(numbers).over(whole(numbers.len() as int)), bound)
}

/// The difference of the sums, in percent of the second, is at most the bound.
pub open spec fn sums_at_most(
    a: Seq<DecimalView>,
    b: Seq<DecimalView>,
    bound: DecimalView,
) -> bool {
    at_most(percentage(sum_of(a).minus(sum_of(b)).magnitude(), sum_of(b)), bound)
}

/// Whether two patterns of the same number of steps meet a bound. Static bounds are measured in
/// floating point; of them the verdict is given.
pub open spec fn meets(
    v: VariabilityView,
    a: Seq<DecimalView>,
    b: Seq<DecimalView>,
    verdict: bool,
) -> bool {
    match v.kind {
        VariabilityKind::MaximumPercentile => largest_at_most(step_percentages(a, b), v.value),
        VariabilityKind::AbsoluteMaximumPercentile => largest_at_most(
            step_percentages(magnitudes(a), magnitudes(b)),
            v.value,
        ),
        VariabilityKind::AveragePercentile => average_at_most(step_percentages(a, b), v.value),
        VariabilityKind::AbsoluteAveragePercentile => a.len() == 0 || average_at_most(
            step_percentages(magnitudes(a), magnitudes(b)),
            v.value,
        ),
        VariabilityKind::SumPercentile => a.len() == 0 || sums_at_most(a, b, v.value),
        VariabilityKind::AbsoluteSumPercentile => a.len() == 0 || sums_at_most(
            magnitudes(a),
            magnitudes(b),
            v.value,
        ),
        _ => verdict,
    }
}

/// The verdict at a place, where one was given.
pub open spec fn verdict_at(verdicts: Seq<bool>, i: int) -> bool {
    0 <= i < verdicts.len() && verdicts[i]
}

pub open spec fn verdict_row(verdicts: Seq<Vec<bool>>, i: int) -> Seq<bool> {
    if 0 <= i < verdicts.len() {
        verdicts[i]@
    } else {
        seq![]
    }
}

/// Whether two patterns count as one: they have as many steps, there are bounds, and all are met.
pub open spec fn similar(
    variabilities: Option<Seq<VariabilityView>>,
    a: Seq<DecimalView>,
    b: Seq<DecimalView>,
    verdicts: Seq<bool>,
) -> bool {
    &&& a.len() == b.len()
    &&& variabilities matches Some(vs) && forall|j: int|
        0 <= j < vs.len() ==> meets(#[trigger] vs[j], a, b, verdict_at(verdicts, j))
}

/// Whether the pattern at a place counts as one with a new pattern.
pub open spec fn matches_at(
    c: ConstraintsView,
    patterns: Seq<PatternView>,
    new: PatternView,
    verdicts: Seq<Vec<bool>>,
    i: int,
) -> bool {
    similar(c.variabilities, new.amplitudes(), patterns[i].amplitudes(), verdict_row(verdicts, i))
}

/// The patterns of a dictionary after a pattern has been imported: its occurrences are added to
/// every pattern that counts as one with it; where there is none, it is added itself. A pattern
/// without steps is not imported where the dictionary demands a number of steps.
pub open spec fn imported(
    c: ConstraintsView,
    patterns: Seq<PatternView>,
    new: PatternView,
    verdicts: Seq<Vec<bool>>,
) -> Seq<PatternView> {
    if c.steps is Some && new.relatives.len() == 0 {
        patterns
    } else if exists|i: int|
        0 <= i < patterns.len() && #[trigger] matches_at(c, patterns, new, verdicts, i) {
        Seq::new(
            patterns.len(),
            |i: int|
                if matches_at(c, patterns, new, verdicts, i) {
                    patterns[i].with_occurrences(new.occurrences)
                } else {
                    patterns[i]
                },
        )
    } else {
        patterns.push(new)
    }
}

/// The patterns of a dictionary after several patterns have been imported in turn.
pub open spec fn all_imported(
    c: ConstraintsView,
    patterns: Seq<PatternView>,
    new: Seq<PatternView>,
    verdicts: Seq<Vec<Vec<bool>>>,
) -> Seq<PatternView>
    decreases new.len(),
{
    if new.len() == 0 {
        patterns
    } else {
        imported(
            c,
            all_imported(c, patterns, new.drop_last(), verdicts),
            new.last(),
            verdict_table(verdicts, new.len() - 1),
        )
    }
}

pub open spec fn verdict_table(verdicts: Seq<Vec<Vec<bool>>>, i: int) -> Seq<Vec<bool>> {
    if 0 <= i < verdicts.len() {
        verdicts[i]@
    } else {
        seq![]
    }
}

/// The largest scale of an amplitude that is compared in percent. With it, and with `STEP_DIGITS`,
/// every percentage can still be compared.
pub const STEP_SCALE_LIMIT: i64 = 90_000;

/// The largest number of digits of an amplitude that is compared in percent.
pub const STEP_DIGITS: usize = 139_000;

/// The largest scale of a percentage.
pub const PERCENT_SCALE_LIMIT: i64 = 499_200;

/// Whether a number is small enough to be compared in percent.
pub open spec fn is_moderate(d: DecimalView) -> bool {
    &&& d.within(STEP_SCALE_LIMIT as int)
    &&& abs_int(d.mantissa) < pow(10, STEP_DIGITS as nat)
}

pub open spec fn all_moderate(s: Seq<DecimalView>) -> bool {
    forall|i: int| 0 <= i < s.len() ==> is_moderate(#[trigger] s[i])
}

impl ConstraintsView {
    /// Whether the bounds can be compared with.
    pub open spec fn is_comparable(self) -> bool {
        self.variabilities matches Some(vs) ==> forall|i: int|
            0 <= i < vs.len() ==> (#[trigger] vs[i]).value.is_comparable()
    }
}

/// Whether comparing two patterns would average no differences at all: neither has steps, and a
/// bound on the average in percent comes before any bound that they miss.
pub open spec fn averages_nothing(
    variabilities: Option<Seq<VariabilityView>>,
    a: Seq<DecimalView>,
    b: Seq<DecimalView>,
    verdicts: Seq<bool>,
) -> bool {
    &&& a.len() == 0
    &&& b.len() == 0
    &&& variabilities matches Some(vs) && exists|j: int|
        0 <= j < vs.len() && (#[trigger] vs[j]).kind == VariabilityKind::AveragePercentile && (
        forall|k: int|
            0 <= k < j ==> meets(#[trigger] vs[k], a, b, verdict_at(verdicts, k)))
}

/// Whether a pattern can be compared with all patterns of a dictionary.
pub open spec fn can_import(
    c: ConstraintsView,
    patterns: Seq<PatternView>,
    new: PatternView,
    verdicts: Seq<Vec<bool>>,
) -> bool {
    ||| c.steps is Some && new.relatives.len() == 0
    ||| all_moderate(new.amplitudes()) && forall|i: int|
        0 <= i < patterns.len() ==> !averages_nothing(
            c.variabilities,
            new.amplitudes(),
            (#[trigger] patterns[i]).amplitudes(),
            verdict_row(verdicts, i),
        )
}

fn percent_of(difference: &Decimal, base: &Decimal) -> (r: Decimal)
    requires
        difference@.within(STEP_SCALE_LIMIT as int),
        base@.within(STEP_SCALE_LIMIT as int),
        abs_int(base@.mantissa) < pow(10, 319_020),
    ensures
        r@ == percentage(difference@, base@),
        r@.within(PERCENT_SCALE_LIMIT as int),
{
    if base.is_zero() {
        if difference.is_zero() {
            Decimal::from_i64(0)
        } else {
            Decimal::from_i64(10000)
        }
    } else {
        let quotient = difference.over(base);
        assert(quotient@.scale <= max_int(
            difference@.scale,
            difference@.scale - base@.scale + 319_020 + 100,
        ));
        quotient.times(&Decimal::from_i64(100))
    }
}

/// The number is at most the bound.
fn is_at_most(number: &Decimal, bound: &Decimal) -> (r: bool)
    requires
        number@.is_comparable(),
        bound@.is_comparable(),
    ensures
        r == at_most(number@, bound@),
{
    bound.compare(number) != Comparison::Less
}

/// The magnitudes of numbers.
fn magnitudes_of(values: &Vec<Decimal>) -> (r: Vec<Decimal>)
    requires
        all_moderate(decimal_views(values@)),
    ensures
        r.len() == values.len(),
        decimal_views(r@) == magnitudes(decimal_views(values@)),
        all_moderate(decimal_views(r@)),
{
    let mut r: Vec<Decimal> = Vec::new();
    let mut i: usize = 0;
    while i < values.len()
        invariant
            i <= values.len(),
            r.len() == i,
            all_moderate(decimal_views(values@)),
            forall|k: int| 0 <= k < i ==> (#[trigger] r@[k])@ == values@[k]@.magnitude(),
        decreases values.len() - i,
    {
        r.push(values[i].abs());
        i += 1;
    }
    assert(decimal_views(r@) =~= magnitudes(decimal_views(values@)));
    assert forall|k: int| 0 <= k < r.len() implies is_moderate(
        #[trigger] decimal_views(r@)[k],
    ) by {
        assert(is_moderate(decimal_views(values@)[k]));
    }
    r
}

/// The differences of two patterns, step by step, in percent of the second.
fn percentages_of(a: &Vec<Decimal>, b: &Vec<Decimal>) -> (r: Vec<Decimal>)
    requires
        a.len() == b.len(),
        all_moderate(decimal_views(a@)),
        all_moderate(decimal_views(b@)),
    ensures
        decimal_views(r@) == step_percentages(decimal_views(a@), decimal_views(b@)),
        all_within(r@, PERCENT_SCALE_LIMIT as int),
{
    let mut r: Vec<Decimal> = Vec::new();
    let mut i: usize = 0;
    proof {
        lemma_pow_increases(10, STEP_DIGITS as nat, 319_020);
    }
    while i < a.len()
        invariant
            i <= a.len(),
            a.len() == b.len(),
            r.len() == i,
            pow(10, STEP_DIGITS as nat) <= pow(10, 319_020),
            all_moderate(decimal_views(a@)),
            all_moderate(decimal_views(b@)),
            forall|k: int|
                0 <= k < i ==> (#[trigger] r@[k])@ == percentage(
                    a@[k]@.minus(b@[k]@).magnitude(),
                    b@[k]@.magnitude(),
                ) && r@[k]@.within(PERCENT_SCALE_LIMIT as int),
        decreases a.len() - i,
    {
        assert(is_moderate(decimal_views(a@)[i as int]));
        assert(is_moderate(decimal_views(b@)[i as int]));
        let difference = a[i].minus(&b[i]).abs();
        let base = b[i].abs();
        r.push(percent_of(&difference, &base));
        i += 1;
    }
    assert(decimal_views(r@) =~= step_percentages(decimal_views(a@), decimal_views(b@)));
    r
}

/// The largest of the numbers, or zero where there is none, is at most the bound.
fn largest_is_at_most(numbers: &Vec<Decimal>, bound: &Decimal) -> (r: bool)
    requires
        all_within(numbers@, PERCENT_SCALE_LIMIT as int),
        bound@.is_comparable(),
    ensures
        r == largest_at_most(decimal_views(numbers@), bound@),
{
    if numbers.len() == 0 {
        return is_at_most(&Decimal::from_i64(0), bound);
    }
    let mut i: usize = 0;
    while i < numbers.len()
        invariant
            i <= numbers.len(),
            numbers.len() > 0,
            all_within(numbers@, PERCENT_SCALE_LIMIT as int),
            bound@.is_comparable(),
            forall|k: int| 0 <= k < i ==> at_most((#[trigger] decimal_views(numbers@)[k]), bound@),
        decreases numbers.len() - i,
    {
        assert(numbers@[i as int]@.within(PERCENT_SCALE_LIMIT as int));
        if !is_at_most(&numbers[i], bound) {
            assert(!at_most(decimal_views(numbers@)[i as int], bound@));
            return false;
        }
        i += 1;
    }
    true
}

/// The average of the numbers is at most the bound.
fn average_is_at_most(numbers: &Vec<Decimal>, bound: &Decimal) -> (r: bool)
    requires
        numbers.len() > 0,
        all_within(numbers@, PERCENT_SCALE_LIMIT as int),
        bound@.is_comparable(),
    ensures
        r == average_at_most(decimal_views(numbers@), bound@),
{
    assert forall|i: int| 0 <= i < numbers.len() implies (#[trigger] numbers@[i])@.within(
        OPERAND_SCALE_LIMIT as int,
    ) by {
        assert(numbers@[i]@.within(PERCENT_SCALE_LIMIT as int));
    }
    let sum = total(numbers);
    let count = count_of(numbers.len());
    proof {
        lemma_count_digits(numbers.len() as int);
        lemma_sum_within(decimal_views(numbers@), PERCENT_SCALE_LIMIT as nat);
    }
    let average = sum.over(&count);
    is_at_most(&average, bound)
}

proof fn lemma_count_digits(n: int)
    requires
        0 <= n <= u64::MAX,
    ensures
        abs_int(n) < pow(10, 20),
{
    reveal_with_fuel(pow, 21);
}

/// A number of things as a decimal. It is put together from its upper and lower part, since half of
/// all counts are no `i64`.
fn count_of(n: usize) -> (r: Decimal)
    ensures
        r@ == whole(n as int),
{
    let n: u64 = n as u64;
    let half: u64 = 1u64 << 62;
    assert(1u64 << 62 == 4611686018427387904u64) by (bit_vector);
    let upper: i64 = (n / half) as i64;
    let lower: i64 = (n % half) as i64;
    if upper == 0 {
        return Decimal::from_i64(lower);
    }
    let unit = Decimal::from_i64(half as i64);
    let high = Decimal::from_i64(upper).times(&unit);
    proof {
        vstd::arithmetic::power::lemma_pow0(10);
        assert(upper * 4611686018427387904 + lower == n);
    }
    high.plus(&Decimal::from_i64(lower))
}

/// The difference of the sums, in percent of the second, is at most the bound.
fn sums_are_at_most(a: &Vec<Decimal>, b: &Vec<Decimal>, bound: &Decimal) -> (r: bool)
    requires
        all_moderate(decimal_views(a@)),
        all_moderate(decimal_views(b@)),
        bound@.is_comparable(),
    ensures
        r == sums_at_most(decimal_views(a@), decimal_views(b@), bound@),
{
    let counts: (usize, usize) = (a.len(), b.len());
    proof {
        lemma_moderate_sum(decimal_views(a@));
        lemma_moderate_sum(decimal_views(b@));
        assert forall|i: int| 0 <= i < a.len() implies (#[trigger] a@[i])@.within(
            OPERAND_SCALE_LIMIT as int,
        ) by {
            assert(is_moderate(decimal_views(a@)[i]));
        }
        assert forall|i: int| 0 <= i < b.len() implies (#[trigger] b@[i])@.within(
            OPERAND_SCALE_LIMIT as int,
        ) by {
            assert(is_moderate(decimal_views(b@)[i]));
        }
    }
    let first = total(a);
    let second = total(b);
    let difference = first.minus(&second).abs();
    let percent = percent_of(&difference, &second);
    is_at_most(&percent, bound)
}

proof fn lemma_moderate_sum(s: Seq<DecimalView>)
    requires
        all_moderate(s),
        s.len() <= u64::MAX,
    ensures
        sum_of(s).within(STEP_SCALE_LIMIT as int),
        abs_int(sum_of(s).mantissa) < pow(10, 319_020),
{
    assert forall|i: int| 0 <= i < s.len() implies (#[trigger] s[i]).within(
        STEP_SCALE_LIMIT as int,
    ) && abs_int(s[i].mantissa) < pow(10, STEP_DIGITS as nat) by {
        assert(is_moderate(s[i]));
    }
    lemma_sum_bounds(s, STEP_SCALE_LIMIT as nat, STEP_DIGITS as nat);
}

/// Whether two patterns of the same number of steps meet a bound.
fn check_variability(
    a: &Vec<Decimal>,
    b: &Vec<Decimal>,
    variability: &VariablilityType,
    verdict: bool,
) -> (r: bool)
    requires
        a.len() == b.len(),
        all_moderate(decimal_views(a@)),
        all_moderate(decimal_views(b@)),
        variability@.value.is_comparable(),
        variability@.kind == VariabilityKind::AveragePercentile ==> a.len() > 0,
    ensures
        r == meets(variability@, decimal_views(a@), decimal_views(b@), verdict),
{
    let bound = variability.value();
    match variability.kind() {
        VariabilityKind::MaximumPercentile => largest_is_at_most(&percentages_of(a, b), bound),
        VariabilityKind::AbsoluteMaximumPercentile => {
            let percentages = percentages_of(&magnitudes_of(a), &magnitudes_of(b));
            largest_is_at_most(&percentages, bound)
        },
        VariabilityKind::AveragePercentile => {
            let percentages = percentages_of(a, b);
            assert(percentages.len() == decimal_views(percentages@).len());
            average_is_at_most(&percentages, bound)
        },
        VariabilityKind::AbsoluteAveragePercentile => {
            if a.len() == 0 {
                return true;
            }
            let percentages = percentages_of(&magnitudes_of(a), &magnitudes_of(b));
            assert(percentages.len() == decimal_views(percentages@).len());
            average_is_at_most(&percentages, bound)
        },
        VariabilityKind::SumPercentile => a.len() == 0 || sums_are_at_most(a, b, bound),
        VariabilityKind::AbsoluteSumPercentile => {
            if a.len() == 0 {
                return true;
            }
            sums_are_at_most(&magnitudes_of(a), &magnitudes_of(b), bound)
        },
        _ => verdict,
    }
}

impl Dictionary {
    /// An empty dictionary.
    pub fn new(name: String, description: String, constraints: DictionaryConstraints) -> (r:
        Dictionary)
        ensures
            is_random_uuid(r.id.value),
            r.name == name,
            r.description == description,
            r.patterns@.len() == 0,
            r.constraints == constraints,
    {
        Dictionary { id: DictionaryId::new(), name, description, patterns: Vec::new(), constraints }
    }

    /// The patterns of the dictionary.
    pub open spec fn ps(&self) -> Seq<PatternView> {
        pattern_views(self.patterns@)
    }

    /// Whether everything but the patterns is as in the other dictionary.
    pub open spec fn same_but_patterns(&self, other: &Dictionary) -> bool {
        &&& self.id == other.id
        &&& self.name == other.name
        &&& self.description == other.description
        &&& self.constraints == other.constraints
    }

    /// Whether all patterns can be compared under the constraints.
    pub open spec fn is_valid(&self) -> bool {
        &&& self.constraints@.is_comparable()
        &&& forall|i: int|
            0 <= i < self.ps().len() ==> all_moderate((#[trigger] self.ps()[i]).amplitudes())
    }

    /// Whether two patterns count as one under the constraints. Of static bounds the verdicts are
    /// given, one for each bound.
    pub fn patterns_are_similar(
        &self,
        pattern1: &Pattern,
        pattern2: &Pattern,
        verdicts: &Vec<bool>,
    ) -> (r: bool)
        requires
            self.constraints@.is_comparable(),
            all_moderate(pattern1@.amplitudes()),
            all_moderate(pattern2@.amplitudes()),
            !averages_nothing(
                self.constraints@.variabilities,
                pattern1@.amplitudes(),
                pattern2@.amplitudes(),
                verdicts@,
            ),
        ensures
            r == similar(
                self.constraints@.variabilities,
                pattern1@.amplitudes(),
                pattern2@.amplitudes(),
                verdicts@,
            ),
    {
        let a = pattern1.amplitudes();
        let b = pattern2.amplitudes();
        assert(a.len() == decimal_views(a@).len());
        assert(b.len() == decimal_views(b@).len());
        if a.len() != b.len() {
            return false;
        }
        match &self.constraints.variabilities {
            Some(variabilities) => {
                let ghost vs = variability_views(variabilities@);
                let mut j: usize = 0;
                while j < variabilities.len()
                    invariant
                        j <= variabilities.len(),
                        vs == variability_views(variabilities@),
                        self.constraints@.variabilities == Some(vs),
                        self.constraints@.is_comparable(),
                        !averages_nothing(
                            self.constraints@.variabilities,
                            pattern1@.amplitudes(),
                            pattern2@.amplitudes(),
                            verdicts@,
                        ),
                        a.len() == b.len(),
                        decimal_views(a@) == pattern1@.amplitudes(),
                        decimal_views(b@) == pattern2@.amplitudes(),
                        all_moderate(decimal_views(a@)),
                        all_moderate(decimal_views(b@)),
                        a.len() == decimal_views(a@).len(),
                        forall|k: int|
                            0 <= k < j ==> meets(
                                #[trigger] vs[k],
                                decimal_views(a@),
                                decimal_views(b@),
                                verdict_at(verdicts@, k),
                            ),
                    decreases variabilities.len() - j,
                {
                    let verdict = j < verdicts.len() && verdicts[j];
                    assert(vs[j as int].value.is_comparable());
                    assert(vs[j as int] == variabilities@[j as int]@);
                    if !check_variability(&a, &b, &variabilities[j], verdict) {
                        assert(!meets(
                            vs[j as int],
                            decimal_views(a@),
                            decimal_views(b@),
                            verdict_at(verdicts@, j as int),
                        ));
                        return false;
                    }
                    j += 1;
                }
                true
            },
            None => false,
        }
    }

    /// Adds the occurrences of a pattern to those of the pattern at an index.
    pub fn merge_pattern_occurrences_at_index(&mut self, target_index: usize, source: &Pattern)
        ensures
            final(self).same_but_patterns(old(self)),
            final(self).ps() == if target_index < old(self).ps().len() {
                old(self).ps().update(
                    target_index as int,
                    old(self).ps()[target_index as int].with_occurrences(source@.occurrences),
                )
            } else {
                old(self).ps()
            },
    {
        if target_index < self.patterns.len() {
            let ghost before = self.ps();
            let target = &self.patterns[target_index];
            let mut occurrences = clone_occurrences(&target.occurrences);
            let mut more = clone_occurrences(&source.occurrences);
            let ghost first = occurrences@;
            let ghost second = more@;
            occurrences.append(&mut more);
            assert(occurrence_views(occurrences@) =~= occurrence_views(first) + occurrence_views(
                second,
            ));
            let relatives = clone_relatives(&target.relatives);
            let merged = Pattern { id: target.id, occurrences, relatives };
            self.patterns.set(target_index, merged);
            assert(self.ps() =~= before.update(
                target_index as int,
                before[target_index as int].with_occurrences(source@.occurrences),
            ));
        }
    }

    /// Imports a pattern that has been brought to the number of steps that the dictionary demands:
    /// its occurrences are added to every pattern that counts as one with it, and where there is
    /// none it is added itself. Of static bounds the verdicts are given: for each pattern of the
    /// dictionary, one for each bound.
    pub fn import_pattern(&mut self, new_pattern: Pattern, verdicts: &Vec<Vec<bool>>)
        requires
            old(self).is_valid(),
            can_import(old(self).constraints@, old(self).ps(), new_pattern@, verdicts@),
        ensures
            final(self).is_valid(),
            final(self).same_but_patterns(old(self)),
            final(self).ps() == imported(
                old(self).constraints@,
                old(self).ps(),
                new_pattern@,
                verdicts@,
            ),
    {
        let ghost c = self.constraints@;
        let ghost before = self.ps();
        if self.constraints.steps.is_some() && new_pattern.relatives.len() == 0 {
            return ;
        }
        let n: usize = self.patterns.len();
        let none: Vec<bool> = Vec::new();
        let mut matching: Vec<usize> = Vec::new();
        let mut i: usize = 0;
        while i < n
            invariant
                i <= n,
                n == self.patterns.len(),
                n == before.len(),
                *self == *old(self),
                self.is_valid(),
                before == self.ps(),
                c == self.constraints@,
                all_moderate(new_pattern@.amplitudes()),
                forall|p: int|
                    0 <= p < before.len() ==> !averages_nothing(
                        c.variabilities,
                        new_pattern@.amplitudes(),
                        (#[trigger] before[p]).amplitudes(),
                        verdict_row(verdicts@, p),
                    ),
                none@ == Seq::<bool>::empty(),
                forall|k: int|
                    0 <= k < matching.len() ==> 0 <= (#[trigger] matching@[k]) < i && matches_at(
                        c,
                        before,
                        new_pattern@,
                        verdicts@,
                        matching@[k] as int,
                    ),
                forall|k: int, l: int|
                    0 <= k < l < matching.len() ==> matching@[k] < matching@[l],
                forall|p: int|
                    0 <= p < i && #[trigger] matches_at(c, before, new_pattern@, verdicts@, p)
                        ==> matching@.contains(p as usize),
            decreases n - i,
        {
            let row = if i < verdicts.len() {
                &verdicts[i]
            } else {
                &none
            };
            assert(all_moderate(before[i as int].amplitudes()));
            assert(row@ == verdict_row(verdicts@, i as int));
            let alike = self.patterns_are_similar(&new_pattern, &self.patterns[i], row);
            assert(alike == matches_at(c, before, new_pattern@, verdicts@, i as int));
            let ghost held = matching@;
            if alike {
                matching.push(i);
                assert(matching@[matching.len() - 1] == i);
                assert forall|p: int|
                    0 <= p <= i && #[trigger] matches_at(
                        c,
                        before,
                        new_pattern@,
                        verdicts@,
                        p,
                    ) implies matching@.contains(p as usize) by {
                    if p < i {
                        let at = choose|at: int| 0 <= at < held.len() && held[at] == p as usize;
                        assert(matching@[at] == p as usize);
                    }
                }
            }
            i += 1;
        }
        if matching.len() == 0 {
            assert forall|p: int| 0 <= p < n implies !(#[trigger] matches_at(
                c,
                before,
                new_pattern@,
                verdicts@,
                p,
            )) by {}
            let ghost view = new_pattern@;
            self.patterns.push(new_pattern);
            assert(self.ps() =~= before.push(view));
            return ;
        }
        assert(matches_at(c, before, new_pattern@, verdicts@, matching@[0] as int));
        let mut k: usize = 0;
        while k < matching.len()
            invariant
                k <= matching.len(),
                self.same_but_patterns(old(self)),
                n == before.len(),
                self.ps().len() == n,
                forall|a: int| 0 <= a < matching.len() ==> 0 <= (#[trigger] matching@[a]) < n,
                forall|a: int, b: int|
                    0 <= a < b < matching.len() ==> matching@[a] < matching@[b],
                forall|a: int|
                    0 <= a < k ==> self.ps()[(#[trigger] matching@[a]) as int]
                        == before[matching@[a] as int].with_occurrences(new_pattern@.occurrences),
                forall|p: int|
                    0 <= p < n && !matching@.take(k as int).contains(p as usize)
                        ==> #[trigger] self.ps()[p] == before[p],
            decreases matching.len() - k,
        {
            let index: usize = matching[k];
            let ghost held = self.ps();
            proof {
                assert(!matching@.take(k as int).contains(index)) by {
                    if matching@.take(k as int).contains(index) {
                        let a = choose|a: int|
                            0 <= a < k && matching@.take(k as int)[a] == index;
                        assert(matching@[a] < matching@[k as int]);
                    }
                }
                assert(held[index as int] == before[index as int]);
            }
            self.merge_pattern_occurrences_at_index(index, &new_pattern);
            k += 1;
            proof {
                assert forall|p: int|
                    0 <= p < n && !matching@.take(k as int).contains(
                        p as usize,
                    ) implies #[trigger] self.ps()[p] == before[p] by {
                    assert(matching@.take(k as int)[k - 1] == index);
                    assert(p != index);
                    let earlier = matching@.take(k - 1);
                    if earlier.contains(p as usize) {
                        let a = choose|a: int|
                            0 <= a < earlier.len() && earlier[a] == p as usize;
                        assert(matching@.take(k as int)[a] == p as usize);
                    }
                    assert(held[p] == before[p]);
                }
            }
        }
        proof {
            let after = self.ps();
            assert(matching@.take(matching.len() as int) == matching@);
            assert forall|p: int| 0 <= p < n implies #[trigger] after[p] == (if matches_at(
                c,
                before,
                new_pattern@,
                verdicts@,
                p,
            ) {
                before[p].with_occurrences(new_pattern@.occurrences)
            } else {
                before[p]
            }) by {
                if matches_at(c, before, new_pattern@, verdicts@, p) {
                    let a = choose|a: int| 0 <= a < matching.len() && matching@[a] == p as usize;
                    assert(matching@[a] as int == p);
                } else {
                    if matching@.contains(p as usize) {
                        let a = choose|a: int|
                            0 <= a < matching.len() && matching@[a] == p as usize;
                        assert(matches_at(
                            c,
                            before,
                            new_pattern@,
                            verdicts@,
                            matching@[a] as int,
                        ));
                    }
                }
            }
            assert(after =~= imported(c, before, new_pattern@, verdicts@));
            assert forall|p: int| 0 <= p < n implies all_moderate(
                (#[trigger] after[p]).amplitudes(),
            ) by {
                assert(all_moderate(before[p].amplitudes()));
                assert(after[p].amplitudes() =~= before[p].amplitudes());
            }
        }
    }
}

impl Dictionary {
    pub fn id(&self) -> (r: &DictionaryId)
        ensures
            *r == self.id,
    {
        &self.id
    }

    pub fn name(&self) -> (r: &str)
        ensures
            r@ == self.name@,
    {
        self.name.as_str()
    }

    pub fn set_name(&mut self, name: String)
        ensures
            *final(self) == (Dictionary { name, ..*old(self) }),
    {
        self.name = name;
    }

    pub fn description(&self) -> (r: &str)
        ensures
            r@ == self.description@,
    {
        self.description.as_str()
    }

    pub fn set_description(&mut self, description: String)
        ensures
            *final(self) == (Dictionary { description, ..*old(self) }),
    {
        self.description = description;
    }

    pub fn patterns(&self) -> (r: &Vec<Pattern>)
        ensures
            *r == self.patterns,
    {
        &self.patterns
    }

    /// The patterns, to be changed in place.
    pub fn patterns_mut(&mut self) -> (r: &mut Vec<Pattern>)
        ensures
            *r == old(self).patterns,
            *final(self) == (Dictionary { patterns: *final(r), ..*old(self) }),
    {
        &mut self.patterns
    }

    pub fn constraints(&self) -> (r: &DictionaryConstraints)
        ensures
            *r == self.constraints,
    {
        &self.constraints
    }

    pub fn set_constraints(&mut self, constraints: DictionaryConstraints)
        ensures
            *final(self) == (Dictionary { constraints, ..*old(self) }),
    {
        self.constraints = constraints;
    }

    /// The number of patterns.
    pub fn len(&self) -> (r: usize)
        ensures
            r == self.ps().len(),
    {
        self.patterns.len()
    }

    pub fn is_empty(&self) -> (r: bool)
        ensures
            r == (self.ps().len() == 0),
    {
        self.patterns.len() == 0
    }

    /// Imports the patterns of another dictionary in turn, each brought to the number of steps that
    /// this dictionary demands. Of static bounds the verdicts are given: for each import, those on
    /// the patterns that this dictionary then has.
    pub fn merge_dictionary(&mut self, other: Dictionary, verdicts: &Vec<Vec<Vec<bool>>>)
        requires
            old(self).is_valid(),
            forall|k: int|
                0 <= k < other.ps().len() ==> can_import(
                    old(self).constraints@,
                    all_imported(
                        old(self).constraints@,
                        old(self).ps(),
                        #[trigger] other.ps().take(k),
                        verdicts@,
                    ),
                    other.ps()[k],
                    verdict_table(verdicts@, k),
                ),
        ensures
            final(self).is_valid(),
            final(self).same_but_patterns(old(self)),
            final(self).ps() == all_imported(
                old(self).constraints@,
                old(self).ps(),
                other.ps(),
                verdicts@,
            ),
    {
        let ghost c = self.constraints@;
        let ghost before = self.ps();
        let ghost new = other.ps();
        let none: Vec<Vec<bool>> = Vec::new();
        let mut rest = other.patterns;
        let n: usize = rest.len();
        let mut i: usize = 0;
        while i < n
            invariant
                i <= n,
                n == new.len(),
                rest.len() == n - i,
                pattern_views(rest@) == new.skip(i as int),
                none@ == Seq::<Vec<bool>>::empty(),
                c == old(self).constraints@,
                before == old(self).ps(),
                self.is_valid(),
                self.same_but_patterns(old(self)),
                self.ps() == all_imported(c, before, new.take(i as int), verdicts@),
                forall|k: int|
                    0 <= k < new.len() ==> can_import(
                        c,
                        all_imported(c, before, #[trigger] new.take(k), verdicts@),
                        new[k],
                        verdict_table(verdicts@, k),
                    ),
            decreases n - i,
        {
            let ghost held = rest@;
            let pattern = rest.remove(0);
            proof {
                assert(pattern@ == pattern_views(held)[0]);
                assert(new.skip(i as int)[0] == new[i as int]);
                assert(pattern_views(rest@) =~= new.skip(i + 1)) by {
                    assert forall|k: int| 0 <= k < rest.len() implies #[trigger] pattern_views(
                        rest@,
                    )[k] == new.skip(i + 1)[k] by {
                        assert(rest@[k] == held[k + 1]);
                        assert(pattern_views(held)[k + 1] == new.skip(i as int)[k + 1]);
                    }
                }
                assert(new.take(i + 1).drop_last() =~= new.take(i as int));
            }
            let table = if i < verdicts.len() {
                &verdicts[i]
            } else {
                &none
            };
            assert(table@ == verdict_table(verdicts@, i as int));
            self.import_pattern(pattern, table);
            i += 1;
        }
        assert(new.take(n as int) =~= new);
    }
}

/// What becomes of a pattern that is brought to a number of steps.
#[derive(Debug, Clone, Copy, PartialEq, Eq, Structural)]
pub enum StepPlan {
    /// It stays as it is.
    Keep,
    /// Its only step is repeated.
    Repeat,
    /// Its steps are interpolated.
    Resample,
}

/// What becomes of a pattern with a number of steps that is brought to another number.
pub open spec fn spec_plan(present: nat, demanded: nat) -> StepPlan {
    if present == 0 || present == demanded {
        StepPlan::Keep
    } else if present == 1 {
        StepPlan::Repeat
    } else {
        StepPlan::Resample
    }
}

/// The average of the numbers, or one where there is none. Counts beyond `i64` count as one.
pub open spec fn average_or_one(s: Seq<DecimalView>) -> DecimalView {
    if s.len() == 0 {
        whole(1)
    } else if s.len() <= i64::MAX {
        sum_of(s).over(whole(s.len() as int))
    } else {
        sum_of(s).over(whole(1))
    }
}

pub open spec fn max_xs(s: Seq<RelativeView>) -> Seq<DecimalView> {
    Seq::new(s.len(), |i: int| s[i].max_x)
}

pub open spec fn max_ys(s: Seq<RelativeView>) -> Seq<DecimalView> {
    Seq::new(s.len(), |i: int| s[i].max_y)
}

/// A pattern brought to a number of steps. The locations of the steps, and the amplitudes where
/// they are interpolated, are given.
pub open spec fn stepped(
    pattern: PatternView,
    count: nat,
    samples: Seq<VectorView>,
) -> PatternView {
    match spec_plan(pattern.relatives.len(), count) {
        StepPlan::Keep => pattern,
        StepPlan::Repeat => PatternView {
            relatives: Seq::new(
                count,
                |i: int|
                    RelativeView {
                        vector: VectorView {
                            location: samples[i].location,
                            amplitude: pattern.relatives[0].vector.amplitude,
                        },
                        ..pattern.relatives[0]
                    },
            ),
            ..pattern
        },
        StepPlan::Resample => PatternView {
            relatives: Seq::new(
                count,
                |i: int|
                    RelativeView {
                        vector: samples[i],
                        max_x: average_or_one(max_xs(pattern.relatives)),
                        max_y: average_or_one(max_ys(pattern.relatives)),
                    },
            ),
            ..pattern
        },
    }
}

/// Whether the extents of the vectors can be averaged.
pub open spec fn extents_within(s: Seq<RelativeView>, limit: int) -> bool {
    forall|i: int|
        0 <= i < s.len() ==> (#[trigger] s[i]).max_x.within(limit) && s[i].max_y.within(limit)
}

fn average_of(values: &Vec<Decimal>) -> (r: Decimal)
    requires
        all_within(values@, OPERAND_SCALE_LIMIT as int),
    ensures
        r@ == average_or_one(decimal_views(values@)),
{
    if values.len() == 0 {
        return Decimal::from_i64(1);
    }
    let sum = total(values);
    let count: usize = values.len();
    let divisor: i64 = if count as u128 <= 0x7fff_ffff_ffff_ffff {
        count as i64
    } else {
        1
    };
    sum.over(&Decimal::from_i64(divisor))
}

impl Steps {
    /// What becomes of a pattern that is brought to this number of steps.
    pub fn plan(&self, pattern: &Pattern) -> (r: StepPlan)
        ensures
            r == spec_plan(pattern@.relatives.len(), self.count as nat),
    {
        let present: usize = pattern.relatives.len();
        assert(present == pattern@.relatives.len());
        if present == 0 || present == self.count {
            StepPlan::Keep
        } else if present == 1 {
            StepPlan::Repeat
        } else {
            StepPlan::Resample
        }
    }
}

impl Dictionary {
    /// Brings a pattern to a number of steps. The locations of the steps, and the amplitudes where
    /// they are interpolated, are given.
    pub fn convert_pattern_steps(
        pattern: Pattern,
        steps_config: &Steps,
        samples: &Vec<MeasurementVector>,
    ) -> (r: Pattern)
        requires
            spec_plan(pattern@.relatives.len(), steps_config.count as nat) != StepPlan::Keep
                ==> samples.len() == steps_config.count,
            extents_within(pattern@.relatives, OPERAND_SCALE_LIMIT as int),
        ensures
            r@ == stepped(
                pattern@,
                steps_config.count as nat,
                Seq::new(samples@.len(), |i: int| samples@[i]@),
            ),
    {
        let ghost given = Seq::new(samples@.len(), |i: int| samples@[i]@);
        let ghost relatives = pattern@.relatives;
        let plan = steps_config.plan(&pattern);
        match plan {
            StepPlan::Keep => pattern,
            StepPlan::Repeat => {
                let mut changed: Vec<Relative> = Vec::new();
                let mut i: usize = 0;
                while i < samples.len()
                    invariant
                        i <= samples.len(),
                        changed.len() == i,
                        pattern.relatives.len() == 1,
                        relatives == pattern@.relatives,
                        given == Seq::new(samples@.len(), |i: int| samples@[i]@),
                        forall|k: int|
                            0 <= k < i ==> (#[trigger] changed@[k])@ == (RelativeView {
                                vector: VectorView {
                                    location: given[k].location,
                                    amplitude: relatives[0].vector.amplitude,
                                },
                                ..relatives[0]
                            }),
                    decreases samples.len() - i,
                {
                    let only = &pattern.relatives[0];
                    assert(only@ == relatives[0]);
                    assert(given[i as int] == samples@[i as int]@);
                    let vector = MeasurementVector {
                        location: samples[i].location.clone(),
                        amplitude: only.vector.amplitude.clone(),
                    };
                    changed.push(
                        Relative { vector, max_x: only.max_x.clone(), max_y: only.max_y.clone() },
                    );
                    i += 1;
                }
                let r = Pattern { id: pattern.id, occurrences: pattern.occurrences, relatives: changed };
                assert(r@.relatives =~= stepped(
                    pattern@,
                    steps_config.count as nat,
                    given,
                ).relatives);
                r
            },
            StepPlan::Resample => {
                let mut xs: Vec<Decimal> = Vec::new();
                let mut ys: Vec<Decimal> = Vec::new();
                let mut i: usize = 0;
                while i < pattern.relatives.len()
                    invariant
                        i <= pattern.relatives.len(),
                        xs.len() == i,
                        ys.len() == i,
                        relatives == pattern@.relatives,
                        extents_within(relatives, OPERAND_SCALE_LIMIT as int),
                        forall|k: int|
                            0 <= k < i ==> (#[trigger] xs@[k])@ == relatives[k].max_x
                                && xs@[k]@.within(OPERAND_SCALE_LIMIT as int),
                        forall|k: int|
                            0 <= k < i ==> (#[trigger] ys@[k])@ == relatives[k].max_y
                                && ys@[k]@.within(OPERAND_SCALE_LIMIT as int),
                    decreases pattern.relatives.len() - i,
                {
                    assert(relatives[i as int] == pattern.relatives@[i as int]@);
                    xs.push(pattern.relatives[i].max_x.clone());
                    ys.push(pattern.relatives[i].max_y.clone());
                    i += 1;
                }
                assert(decimal_views(xs@) =~= max_xs(relatives));
                assert(decimal_views(ys@) =~= max_ys(relatives));
                let max_x = average_of(&xs);
                let max_y = average_of(&ys);
                let mut changed: Vec<Relative> = Vec::new();
                let mut j: usize = 0;
                while j < samples.len()
                    invariant
                        j <= samples.len(),
                        changed.len() == j,
                        given == Seq::new(samples@.len(), |i: int| samples@[i]@),
                        forall|k: int|
                            0 <= k < j ==> (#[trigger] changed@[k])@ == (RelativeView {
                                vector: given[k],
                                max_x: max_x@,
                                max_y: max_y@,
                            }),
                    decreases samples.len() - j,
                {
                    assert(given[j as int] == samples@[j as int]@);
                    changed.push(
                        Relative {
                            vector: samples[j].clone(),
                            max_x: max_x.clone(),
                            max_y: max_y.clone(),
                        },
                    );
                    j += 1;
                }
                let r = Pattern { id: pattern.id, occurrences: pattern.occurrences, relatives: changed };
                assert(r@.relatives =~= stepped(
                    pattern@,
                    steps_config.count as nat,
                    given,
                ).relatives);
                r
            },
        }
    }
}

/// The two steps between which a location lies, of which it is given which steps are at or before
/// it and which are at or after it. The second is the first step at or after it, or else the last
/// step; the first is the last step at or before it up to there, or else step 0.
pub fn bracket(before: &Vec<bool>, after: &Vec<bool>) -> (r: (usize, usize))
    requires
        before.len() == after.len(),
        before.len() > 0,
    ensures
        r.0 <= r.1 < after.len(),
        forall|i: int| 0 <= i < r.1 ==> !#[trigger] after@[i],
        after@[r.1 as int] || r.1 == after.len() - 1,
        forall|i: int| r.0 < i <= r.1 ==> !#[trigger] before@[i],
        before@[r.0 as int] || r.0 == 0,
{
    let mut left: usize = 0;
    let mut i: usize = 0;
    while i < before.len()
        invariant
            i <= before.len(),
            before.len() == after.len(),
            left <= i,
            i > 0 ==> left < i,
            forall|k: int| 0 <= k < i ==> !#[trigger] after@[k],
            forall|k: int| left < k < i ==> !#[trigger] before@[k],
            left < before.len(),
            before@[left as int] || left == 0,
        decreases before.len() - i,
    {
        if before[i] {
            left = i;
        }
        if after[i] {
            return (left, i);
        }
        i += 1;
    }
    (left, before.len() - 1)
}

/// Importing a pattern never takes anything away: every pattern stays where it is, with its shape,
/// and its occurrences come first among those that it then has. At most one pattern is added.
pub proof fn law_import_keeps_patterns(
    c: ConstraintsView,
    patterns: Seq<PatternView>,
    new: PatternView,
    verdicts: Seq<Vec<bool>>,
    i: int,
)
    requires
        0 <= i < patterns.len(),
    ensures
        patterns.len() <= imported(c, patterns, new, verdicts).len() <= patterns.len() + 1,
        ({
            let after = imported(c, patterns, new, verdicts)[i];
            &&& after.id == patterns[i].id
            &&& after.relatives == patterns[i].relatives
            &&& patterns[i].occurrences.is_prefix_of(after.occurrences)
        }),
{
}

/// An imported pattern that has steps, or that a dictionary without a number of steps imports, is
/// found again: its occurrences come last among those of some pattern.
pub proof fn law_import_is_recorded(
    c: ConstraintsView,
    patterns: Seq<PatternView>,
    new: PatternView,
    verdicts: Seq<Vec<bool>>,
) -> (i: int)
    requires
        c.steps is None || new.relatives.len() > 0,
    ensures
        0 <= i < imported(c, patterns, new, verdicts).len(),
        ends_with_occurrences(imported(c, patterns, new, verdicts)[i], new),
{
    let after = imported(c, patterns, new, verdicts);
    if exists|i: int|
        0 <= i < patterns.len() && #[trigger] matches_at(c, patterns, new, verdicts, i) {
        let i = choose|i: int|
            0 <= i < patterns.len() && #[trigger] matches_at(c, patterns, new, verdicts, i);
        let held = patterns[i].occurrences;
        assert(after[i].occurrences.skip(held.len() as int) =~= new.occurrences);
        i
    } else {
        let i = patterns.len() as int;
        assert(after[i].occurrences.skip(0) =~= new.occurrences);
        i
    }
}

/// Whether the occurrences of a pattern end with those of another.
pub open spec fn ends_with_occurrences(p: PatternView, new: PatternView) -> bool {
    &&& p.occurrences.len() >= new.occurrences.len()
    &&& p.occurrences.skip(p.occurrences.len() - new.occurrences.len()) == new.occurrences
}

/// Merging a dictionary never takes anything away either, and adds at most as many patterns as the
/// other dictionary has.
pub proof fn law_merge_keeps_patterns(
    c: ConstraintsView,
    patterns: Seq<PatternView>,
    new: Seq<PatternView>,
    verdicts: Seq<Vec<Vec<bool>>>,
    i: int,
)
    requires
        0 <= i < patterns.len(),
    ensures
        patterns.len() <= all_imported(c, patterns, new, verdicts).len() <= patterns.len()
            + new.len(),
        ({
            let after = all_imported(c, patterns, new, verdicts)[i];
            &&& after.id == patterns[i].id
            &&& after.relatives == patterns[i].relatives
            &&& patterns[i].occurrences.is_prefix_of(after.occurrences)
        }),
    decreases new.len(),
{
    if new.len() > 0 {
        law_merge_keeps_patterns(c, patterns, new.drop_last(), verdicts, i);
        let so_far = all_imported(c, patterns, new.drop_last(), verdicts);
        law_import_keeps_patterns(
            c,
            so_far,
            new.last(),
            verdict_table(verdicts, new.len() - 1),
            i,
        );
    }
}

/// A pattern that is brought to a number of steps has as many, unless it has none, and occurs where
/// it did.
pub proof fn law_steps_are_met(pattern: PatternView, count: nat, samples: Seq<VectorView>)
    ensures
        stepped(pattern, count, samples).relatives.len() == if pattern.relatives.len() == 0 {
            0
        } else {
            count
        },
        stepped(pattern, count, samples).occurrences == pattern.occurrences,
        stepped(pattern, count, samples).id == pattern.id,
{
}

/// A copy of the relative vectors.
pub fn clone_relatives(relatives: &Vec<Relative>) -> (r: Vec<Relative>)
    ensures
        relative_views(r@) == relative_views(relatives@),
{
    let mut r: Vec<Relative> = Vec::new();
    let mut i: usize = 0;
    while i < relatives.len()
        invariant
            i <= relatives.len(),
            r.len() == i,
            forall|k: int| 0 <= k < i ==> (#[trigger] r@[k])@ == relatives@[k]@,
        decreases relatives.len() - i,
    {
        r.push(relatives[i].clone());
        i += 1;
    }
    assert(relative_views(r@) =~= relative_views(relatives@));
    r
}

}
