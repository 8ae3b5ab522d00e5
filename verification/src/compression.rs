//! Compression of old measurements: its configuration, its progress and what it came to.
use crate::resolution::{Resolution, Spline};
use crate::text::{join, nat_text, u64_text};
use crate::time::Timestamp;
use vstd::prelude::*;

verus! {

/// A floating-point number, by its bits.
#[derive(Debug, Clone, Copy, PartialEq, Eq, Structural)]
pub struct Number {
    pub bits: u64,
}

/// Zero, by its bits.
pub const ZERO: u64 = 0;

/// A half, by its bits.
pub const HALF: u64 = 0x3FE0_0000_0000_0000;

/// A tenth, by its bits.
pub const TENTH: u64 = 0x3FB9_9999_9999_999A;

/// Ninety-five hundredths, by its bits: the most that anything is compressed.
pub const MOST: u64 = 0x3FEE_6666_6666_6666;

/// A length of time, in nanoseconds.
#[derive(Debug, Clone, Copy, PartialEq, Eq, Structural)]
pub struct Span {
    pub nanos: i128,
}

/// The longest length of time, in nanoseconds; the shortest is its negative.
pub const SPAN_LIMIT: i128 = 9_223_372_036_854_775_807_000_000;

/// A length of time, as whole seconds and the nanoseconds beyond them, both with its sign.
#[derive(Debug, Clone, Copy, PartialEq, Eq, Structural)]
pub struct SpanParts {
    pub secs: i64,
    pub nanos: i32,
}

impl Span {
    pub open spec fn is_valid(self) -> bool {
        -SPAN_LIMIT <= self.nanos <= SPAN_LIMIT
    }

    /// So many days.
    pub fn days(days: u32) -> (r: Span)
        ensures
            r.nanos == days * 86_400 * 1_000_000_000,
            r.is_valid(),
    {
        Span { nanos: days as i128 * 86_400_000_000_000 }
    }

    /// The whole milliseconds.
    pub fn millis(&self) -> (r: i64)
        requires
            self.is_valid(),
        ensures
            r == crate::analysis::quotient(self.nanos as int, 1_000_000),
    {
        if self.nanos >= 0 {
            (self.nanos / 1_000_000) as i64
        } else {
            (-((-self.nanos) / 1_000_000)) as i64
        }
    }

    /// The whole seconds and the nanoseconds beyond them.
    pub fn parts(&self) -> (r: SpanParts)
        requires
            self.is_valid(),
        ensures
            r.secs * 1_000_000_000 + r.nanos == self.nanos,
            -1_000_000_000 < r.nanos < 1_000_000_000,
            self.nanos >= 0 ==> r.secs >= 0 && r.nanos >= 0,
            self.nanos <= 0 ==> r.secs <= 0 && r.nanos <= 0,
    {
        if self.nanos >= 0 {
            SpanParts {
                secs: (self.nanos / 1_000_000_000) as i64,
                nanos: (self.nanos % 1_000_000_000) as i32,
            }
        } else {
            let positive: i128 = -self.nanos;
            let secs: i64 = (positive / 1_000_000_000) as i64;
            let nanos: i32 = (positive % 1_000_000_000) as i32;
            SpanParts { secs: -secs, nanos: -nanos }
        }
    }

    /// The length of time that has these parts.
    pub fn of_parts(parts: SpanParts) -> (r: Span)
        ensures
            r.nanos == parts.secs * 1_000_000_000 + parts.nanos,
    {
        Span { nanos: parts.secs as i128 * 1_000_000_000 + parts.nanos as i128 }
    }
}

/// How much more older measurements are compressed.
#[derive(Debug)]
pub enum AggressivenessScaling {
    Linear,
    Exponential { base: Number },
    Custom(Vec<Number>),
}

impl Default for AggressivenessScaling {
    fn default() -> (r: AggressivenessScaling)
        ensures
            r == (AggressivenessScaling::Exponential { base: Number { bits: HALF } }),
    {
        AggressivenessScaling::Exponential { base: Number { bits: HALF } }
    }
}

/// Compression by age: measurements up to an age stay as they are, older ones are compressed the
/// more the older they are.
#[derive(Debug)]
pub struct TimeBasedCompressionConfig {
    pub pure_duration: Span,
    pub tier_duration: Span,
    pub max_tiers: u32,
    pub scaling: AggressivenessScaling,
}

impl TimeBasedCompressionConfig {
    pub fn new(pure_duration: Span, tier_duration: Span) -> (r: TimeBasedCompressionConfig)
        ensures
            r.pure_duration == pure_duration,
            r.tier_duration == tier_duration,
            r.max_tiers == 10,
            r.scaling == (AggressivenessScaling::Exponential { base: Number { bits: HALF } }),
    {
        TimeBasedCompressionConfig {
            pure_duration,
            tier_duration,
            max_tiers: 10,
            scaling: AggressivenessScaling::Exponential { base: Number { bits: HALF } },
        }
    }

    /// Seven years stay as they are, and the tiers are of one year.
    pub fn default_seven_years() -> (r: TimeBasedCompressionConfig)
        ensures
            r.pure_duration.nanos == 365int * 7 * 86_400 * 1_000_000_000,
            r.tier_duration.nanos == 365int * 86_400 * 1_000_000_000,
            r.max_tiers == 10,
            r.scaling == (AggressivenessScaling::Exponential { base: Number { bits: HALF } }),
    {
        TimeBasedCompressionConfig::new(Span::days(365 * 7), Span::days(365))
    }

    pub fn with_scaling(self, scaling: AggressivenessScaling) -> (r: TimeBasedCompressionConfig)
        ensures
            r == (TimeBasedCompressionConfig { scaling, ..self }),
    {
        let mut r = self;
        r.scaling = scaling;
        r
    }

    pub fn with_max_tiers(self, max_tiers: u32) -> (r: TimeBasedCompressionConfig)
        ensures
            r == (TimeBasedCompressionConfig { max_tiers, ..self }),
    {
        let mut r = self;
        r.max_tiers = max_tiers;
        r
    }
}

/// Compression to a size: the oldest measurements are compressed most.
#[derive(Debug)]
pub struct SizeBasedCompressionConfig {
    pub target_size_bytes: u64,
    pub min_aggressiveness: Number,
    pub max_aggressiveness: Number,
    pub scaling: AggressivenessScaling,
    pub max_iterations: u32,
}

impl SizeBasedCompressionConfig {
    pub fn new(target_size_bytes: u64) -> (r: SizeBasedCompressionConfig)
        ensures
            r.target_size_bytes == target_size_bytes,
            r.min_aggressiveness.bits == TENTH,
            r.max_aggressiveness.bits == MOST,
            r.scaling == (AggressivenessScaling::Exponential { base: Number { bits: HALF } }),
            r.max_iterations == 5,
    {
        SizeBasedCompressionConfig {
            target_size_bytes,
            min_aggressiveness: Number { bits: TENTH },
            max_aggressiveness: Number { bits: MOST },
            scaling: AggressivenessScaling::Exponential { base: Number { bits: HALF } },
            max_iterations: 5,
        }
    }

    /// To ten gigabytes.
    pub fn default_10gb() -> (r: SizeBasedCompressionConfig)
        ensures
            r.target_size_bytes == 10 * 1024 * 1024 * 1024,
            r.min_aggressiveness.bits == TENTH,
            r.max_aggressiveness.bits == MOST,
            r.scaling == (AggressivenessScaling::Exponential { base: Number { bits: HALF } }),
            r.max_iterations == 5,
    {
        SizeBasedCompressionConfig::new(10 * 1024 * 1024 * 1024)
    }

    /// To one gigabyte.
    pub fn default_1gb() -> (r: SizeBasedCompressionConfig)
        ensures
            r.target_size_bytes == 1024 * 1024 * 1024,
            r.min_aggressiveness.bits == TENTH,
            r.max_aggressiveness.bits == MOST,
            r.scaling == (AggressivenessScaling::Exponential { base: Number { bits: HALF } }),
            r.max_iterations == 5,
    {
        SizeBasedCompressionConfig::new(1024 * 1024 * 1024)
    }
}

/// How an aspect is compressed: by age first, and to a size where it is still too large then.
#[derive(Debug)]
pub struct CompressionConfig {
    pub enabled: bool,
    pub time_based: Option<TimeBasedCompressionConfig>,
    pub size_based: Option<SizeBasedCompressionConfig>,
    pub base_resolution: Resolution,
    pub interpolation_method: Spline,
}

impl Default for CompressionConfig {
    fn default() -> (r: CompressionConfig)
        ensures
            r == (CompressionConfig {
                enabled: false,
                time_based: None,
                size_based: None,
                base_resolution: Resolution::Days,
                interpolation_method: Spline::Linear,
            }),
    {
        CompressionConfig {
            enabled: false,
            time_based: None,
            size_based: None,
            base_resolution: Resolution::Days,
            interpolation_method: Spline::Linear,
        }
    }
}

impl CompressionConfig {
    /// By age only.
    pub fn time_based(config: TimeBasedCompressionConfig) -> (r: CompressionConfig)
        ensures
            r == (CompressionConfig {
                enabled: true,
                time_based: Some(config),
                size_based: None,
                base_resolution: Resolution::Days,
                interpolation_method: Spline::Linear,
            }),
            r.spec_has_compression(),
    {
        CompressionConfig {
            enabled: true,
            time_based: Some(config),
            size_based: None,
            base_resolution: Resolution::Days,
            interpolation_method: Spline::Linear,
        }
    }

    /// To a size only.
    pub fn size_based(config: SizeBasedCompressionConfig) -> (r: CompressionConfig)
        ensures
            r == (CompressionConfig {
                enabled: true,
                time_based: None,
                size_based: Some(config),
                base_resolution: Resolution::Days,
                interpolation_method: Spline::Linear,
            }),
            r.spec_has_compression(),
    {
        CompressionConfig {
            enabled: true,
            time_based: None,
            size_based: Some(config),
            base_resolution: Resolution::Days,
            interpolation_method: Spline::Linear,
        }
    }

    /// By age and to a size.
    pub fn combined(
        time_based: TimeBasedCompressionConfig,
        size_based: SizeBasedCompressionConfig,
    ) -> (r: CompressionConfig)
        ensures
            r == (CompressionConfig {
                enabled: true,
                time_based: Some(time_based),
                size_based: Some(size_based),
                base_resolution: Resolution::Days,
                interpolation_method: Spline::Linear,
            }),
            r.spec_has_compression(),
    {
        CompressionConfig {
            enabled: true,
            time_based: Some(time_based),
            size_based: Some(size_based),
            base_resolution: Resolution::Days,
            interpolation_method: Spline::Linear,
        }
    }

    pub fn with_base_resolution(self, resolution: Resolution) -> (r: CompressionConfig)
        ensures
            r == (CompressionConfig { base_resolution: resolution, ..self }),
    {
        let mut r = self;
        r.base_resolution = resolution;
        r
    }

    pub fn with_interpolation_method(self, method: Spline) -> (r: CompressionConfig)
        ensures
            r == (CompressionConfig { interpolation_method: method, ..self }),
    {
        let mut r = self;
        r.interpolation_method = method;
        r
    }

    pub open spec fn spec_has_compression(&self) -> bool {
        self.enabled && (self.time_based is Some || self.size_based is Some)
    }

    /// Whether anything is compressed.
    pub fn has_compression(&self) -> (r: bool)
        ensures
            r == self.spec_has_compression(),
    {
        self.enabled && (self.time_based.is_some() || self.size_based.is_some())
    }
}

/// What a compression is doing.
#[derive(Debug, Clone, Copy, PartialEq, Eq, Structural)]
pub enum CompressionPhase {
    Initializing,
    /// By age: a tier, from one on, of so many.
    TimeBased { tier: u32, of_tiers: u32 },
    /// To a size: an attempt, from one on.
    SizeBased { iteration: u32 },
    Finalizing,
    Complete,
}

impl Default for CompressionPhase {
    fn default() -> (r: CompressionPhase)
        ensures
            r == CompressionPhase::Initializing,
    {
        CompressionPhase::Initializing
    }
}

impl CompressionPhase {
    pub open spec fn spec_text(self) -> Seq<char> {
        match self {
            CompressionPhase::Initializing => "Initializing"@,
            CompressionPhase::TimeBased { tier, of_tiers } => "Time-based tier "@ + nat_text(
                tier as nat,
            ) + " of "@ + nat_text(of_tiers as nat),
            CompressionPhase::SizeBased { iteration } => "Size-based iteration "@ + nat_text(
                iteration as nat,
            ),
            CompressionPhase::Finalizing => "Finalizing"@,
            CompressionPhase::Complete => "Complete"@,
        }
    }

    /// What the compression is doing, in words.
    pub fn text(&self) -> (r: String)
        ensures
            r@ == self.spec_text(),
    {
        match self {
            CompressionPhase::Initializing => "Initializing".to_owned(),
            CompressionPhase::TimeBased { tier, of_tiers } => {
                let mut r = join("Time-based tier ", u64_text(*tier as u64).as_str());
                r.append(" of ");
                r.append(u64_text(*of_tiers as u64).as_str());
                r
            },
            CompressionPhase::SizeBased { iteration } => join(
                "Size-based iteration ",
                u64_text(*iteration as u64).as_str(),
            ),
            CompressionPhase::Finalizing => "Finalizing".to_owned(),
            CompressionPhase::Complete => "Complete".to_owned(),
        }
    }
}

/// What the compression of one range of time came to.
#[derive(Debug)]
pub struct CompressionResult {
    pub original_count: usize,
    pub compressed_count: usize,
    pub compression_ratio: Number,
    pub time_range_start: Timestamp,
    pub time_range_end: Timestamp,
}

impl CompressionResult {
    /// What a compression came to. The share of the measurements that are gone is given; it is none
    /// where there was no measurement.
    pub fn new(
        original_count: usize,
        compressed_count: usize,
        share_gone: Number,
        start: Timestamp,
        end: Timestamp,
    ) -> (r: CompressionResult)
        ensures
            r == (CompressionResult {
                original_count,
                compressed_count,
                compression_ratio: if original_count > 0 {
                    share_gone
                } else {
                    Number { bits: ZERO }
                },
                time_range_start: start,
                time_range_end: end,
            }),
    {
        let compression_ratio = if original_count > 0 {
            share_gone
        } else {
            Number { bits: ZERO }
        };
        CompressionResult {
            original_count,
            compressed_count,
            compression_ratio,
            time_range_start: start,
            time_range_end: end,
        }
    }
}

/// The measurements before, of all ranges.
pub open spec fn originals(s: Seq<CompressionResult>) -> int
    decreases s.len(),
{
    if s.len() == 0 {
        0
    } else {
        originals(s.drop_last()) + s.last().original_count
    }
}

/// The measurements after, of all ranges.
pub open spec fn compressed(s: Seq<CompressionResult>) -> int
    decreases s.len(),
{
    if s.len() == 0 {
        0
    } else {
        compressed(s.drop_last()) + s.last().compressed_count
    }
}

/// What a compression came to as a whole.
#[derive(Debug)]
pub struct CompressionSummary {
    pub time_based_results: Vec<CompressionResult>,
    pub size_based_results: Vec<CompressionResult>,
    pub final_size_bytes: u64,
    pub total_original_count: usize,
    pub total_compressed_count: usize,
}

proof fn lemma_totals_grow(s: Seq<CompressionResult>, i: int)
    requires
        0 <= i <= s.len(),
    ensures
        0 <= originals(s.take(i)) <= originals(s),
        0 <= compressed(s.take(i)) <= compressed(s),
    decreases s.len(),
{
    if s.len() == 0 {
        assert(s.take(i) =~= s);
    } else if i == s.len() {
        assert(s.take(i) =~= s);
        lemma_totals_grow(s.drop_last(), s.len() - 1);
        assert(s.drop_last().take(s.len() - 1) =~= s.drop_last());
    } else {
        lemma_totals_grow(s.drop_last(), i);
        assert(s.drop_last().take(i) =~= s.take(i));
    }
}

fn sums(results: &Vec<CompressionResult>) -> (r: (usize, usize))
    requires
        originals(results@) <= usize::MAX,
        compressed(results@) <= usize::MAX,
    ensures
        r.0 == originals(results@),
        r.1 == compressed(results@),
{
    let mut before: usize = 0;
    let mut after: usize = 0;
    let mut i: usize = 0;
    assert(results@.take(0) =~= Seq::<CompressionResult>::empty());
    while i < results.len()
        invariant
            i <= results.len(),
            originals(results@) <= usize::MAX,
            compressed(results@) <= usize::MAX,
            before == originals(results@.take(i as int)),
            after == compressed(results@.take(i as int)),
        decreases results.len() - i,
    {
        proof {
            lemma_totals_grow(results@, i + 1);
            assert(results@.take(i + 1).drop_last() =~= results@.take(i as int));
        }
        before = before + results[i].original_count;
        after = after + results[i].compressed_count;
        i += 1;
    }
    assert(results@.take(results.len() as int) =~= results@);
    (before, after)
}

impl CompressionSummary {
    pub fn new() -> (r: CompressionSummary)
        ensures
            r.time_based_results@.len() == 0,
            r.size_based_results@.len() == 0,
            r.final_size_bytes == 0,
            r.total_original_count == 0,
            r.total_compressed_count == 0,
    {
        CompressionSummary {
            time_based_results: Vec::new(),
            size_based_results: Vec::new(),
            final_size_bytes: 0,
            total_original_count: 0,
            total_compressed_count: 0,
        }
    }

    /// Adds up the measurements of all ranges.
    pub fn calculate_totals(&mut self)
        requires
            originals(old(self).time_based_results@) + originals(old(self).size_based_results@)
                <= usize::MAX,
            compressed(old(self).time_based_results@) + compressed(old(self).size_based_results@)
                <= usize::MAX,
        ensures
            final(self).total_original_count == originals(old(self).time_based_results@)
                + originals(old(self).size_based_results@),
            final(self).total_compressed_count == compressed(old(self).time_based_results@)
                + compressed(old(self).size_based_results@),
            final(self).time_based_results == old(self).time_based_results,
            final(self).size_based_results == old(self).size_based_results,
            final(self).final_size_bytes == old(self).final_size_bytes,
    {
        proof {
            lemma_totals_grow(self.time_based_results@, 0);
            lemma_totals_grow(self.size_based_results@, 0);
        }
        let by_age = sums(&self.time_based_results);
        let to_size = sums(&self.size_based_results);
        self.total_original_count = by_age.0 + to_size.0;
        self.total_compressed_count = by_age.1 + to_size.1;
    }
}

/// The age, in milliseconds, up to which the tier of measurements is computed.
pub const AGE_LIMIT: i64 = 0x10_0000_0000_0000;

/// The tier of measurements of an age: none up to the age that stays as it is, and then one more
/// with every length of a tier, up to the last one.
pub open spec fn spec_tier(age: Span, pure_duration: Span, tier: Span, max_tiers: u32) -> int {
    let past = crate::analysis::quotient(age.nanos - pure_duration.nanos, 1_000_000);
    let length = if crate::analysis::quotient(tier.nanos as int, 1_000_000) < 1 {
        1
    } else {
        crate::analysis::quotient(tier.nanos as int, 1_000_000)
    };
    if age.nanos <= pure_duration.nanos {
        0
    } else if past / length < max_tiers {
        past / length
    } else {
        max_tiers as int
    }
}

/// The tier of measurements of an age.
pub fn tier_of(age: &Span, pure_duration: &Span, tier_duration: &Span, max_tiers: u32) -> (r: u32)
    requires
        age.is_valid(),
        pure_duration.is_valid(),
        tier_duration.is_valid(),
        age.nanos - pure_duration.nanos < AGE_LIMIT * 1_000_000,
    ensures
        r == spec_tier(*age, *pure_duration, *tier_duration, max_tiers),
        r <= max_tiers,
{
    if age.nanos <= pure_duration.nanos {
        return 0;
    }
    let past: i128 = (age.nanos - pure_duration.nanos) / 1_000_000;
    let millis: i64 = tier_duration.millis();
    let length: i128 = if millis < 1 {
        1
    } else {
        millis as i128
    };
    let tier: i128 = past / length;
    if tier < max_tiers as i128 {
        proof {
            vstd::arithmetic::div_mod::lemma_div_pos_is_pos(past as int, length as int);
        }
        tier as u32
    } else {
        max_tiers
    }
}

/// Older measurements are in no lower tier.
pub proof fn law_older_is_in_no_lower_tier(
    younger: Span,
    older: Span,
    pure_duration: Span,
    tier: Span,
    max_tiers: u32,
)
    requires
        younger.nanos <= older.nanos,
    ensures
        spec_tier(younger, pure_duration, tier, max_tiers) <= spec_tier(
            older,
            pure_duration,
            tier,
            max_tiers,
        ),
        spec_tier(older, pure_duration, tier, max_tiers) <= max_tiers,
{
    let length = if crate::analysis::quotient(tier.nanos as int, 1_000_000) < 1 {
        1
    } else {
        crate::analysis::quotient(tier.nanos as int, 1_000_000)
    };
    if younger.nanos > pure_duration.nanos {
        let a = (younger.nanos - pure_duration.nanos) / 1_000_000;
        let b = (older.nanos - pure_duration.nanos) / 1_000_000;
        vstd::arithmetic::div_mod::lemma_div_is_ordered(a, b, length);
    } else if older.nanos > pure_duration.nanos {
        let b = (older.nanos - pure_duration.nanos) / 1_000_000;
        vstd::arithmetic::div_mod::lemma_div_pos_is_pos(b, length);
    }
}

/// The size of a measurement in the file, about.
pub const ESTIMATED_BYTES_PER_MEASUREMENT: u64 = 120;

/// How large measurements are.
#[derive(Debug, Clone, Copy, PartialEq, Eq, Structural)]
pub struct SizeEstimate {
    pub measurement_count: usize,
    pub estimated_bytes: u64,
    pub actual_file_size: Option<u64>,
}

impl SizeEstimate {
    /// An estimate by the number of measurements.
    pub fn from_count(measurement_count: usize) -> (r: SizeEstimate)
        requires
            measurement_count * ESTIMATED_BYTES_PER_MEASUREMENT <= u64::MAX,
        ensures
            r.measurement_count == measurement_count,
            r.estimated_bytes == measurement_count * ESTIMATED_BYTES_PER_MEASUREMENT,
            r.actual_file_size is None,
    {
        SizeEstimate {
            measurement_count,
            estimated_bytes: measurement_count as u64 * ESTIMATED_BYTES_PER_MEASUREMENT,
            actual_file_size: None,
        }
    }

    /// The estimate with the size of the file.
    pub fn with_actual_size(self, actual_size: u64) -> (r: SizeEstimate)
        ensures
            r == (SizeEstimate { actual_file_size: Some(actual_size), ..self }),
    {
        let mut r = self;
        r.actual_file_size = Some(actual_size);
        r
    }

    /// The size of the file where it is known, and else the estimate.
    pub fn best_estimate(&self) -> (r: u64)
        ensures
            r == match self.actual_file_size {
                Some(size) => size,
                None => self.estimated_bytes,
            },
    {
        match self.actual_file_size {
            Some(size) => size,
            None => self.estimated_bytes,
        }
    }
}

/// How much has to be compressed to reach a size.
#[derive(Debug, Clone, Copy, PartialEq, Eq, Structural)]
pub struct CompressionRequirement {
    pub needs_compression: bool,
    pub target_measurement_count: usize,
    pub required_reduction_ratio: Number,
    pub suggested_aggressiveness: Number,
}

/// What would be left for a size: the measurements, the share that has to go, and how much to
/// compress for it.
#[derive(Debug, Clone, Copy, PartialEq, Eq, Structural)]
pub struct Reduction {
    pub measurements_left: usize,
    pub share_gone: Number,
    pub aggressiveness: Number,
}

pub open spec fn spec_required_compression(
    current_size: u64,
    target_size: u64,
    measurement_count: usize,
    reduction: Reduction,
) -> CompressionRequirement {
    if current_size <= target_size {
        CompressionRequirement {
            needs_compression: false,
            target_measurement_count: measurement_count,
            required_reduction_ratio: Number { bits: ZERO },
            suggested_aggressiveness: Number { bits: ZERO },
        }
    } else {
        CompressionRequirement {
            needs_compression: true,
            target_measurement_count: if reduction.measurements_left < 2 {
                2
            } else {
                reduction.measurements_left
            },
            required_reduction_ratio: reduction.share_gone,
            suggested_aggressiveness: reduction.aggressiveness,
        }
    }
}

/// How much has to be compressed to reach a size: nothing where it is reached already, and else as
/// much as is given, with two measurements left at least.
pub fn calculate_required_compression(
    current_size: u64,
    target_size: u64,
    measurement_count: usize,
    reduction: Reduction,
) -> (r: CompressionRequirement)
    ensures
        r == spec_required_compression(current_size, target_size, measurement_count, reduction),
{
    if current_size <= target_size {
        return CompressionRequirement {
            needs_compression: false,
            target_measurement_count: measurement_count,
            required_reduction_ratio: Number { bits: ZERO },
            suggested_aggressiveness: Number { bits: ZERO },
        };
    }
    CompressionRequirement {
        needs_compression: true,
        target_measurement_count: if reduction.measurements_left < 2 {
            2
        } else {
            reduction.measurements_left
        },
        required_reduction_ratio: reduction.share_gone,
        suggested_aggressiveness: reduction.aggressiveness,
    }
}

pub open spec fn spec_compressed_size(remaining_count: int) -> int {
    (if remaining_count < 2 {
        2
    } else {
        remaining_count
    }) * ESTIMATED_BYTES_PER_MEASUREMENT
}

/// The size of so many measurements after a compression, about: of two at least.
pub fn estimate_compressed_size(remaining_count: usize) -> (r: u64)
    requires
        remaining_count * ESTIMATED_BYTES_PER_MEASUREMENT <= u64::MAX,
    ensures
        r == spec_compressed_size(remaining_count as int),
{
    let count: usize = if remaining_count < 2 {
        2
    } else {
        remaining_count
    };
    count as u64 * ESTIMATED_BYTES_PER_MEASUREMENT
}

/// A range of time that has to be compressed anew.
#[derive(Debug)]
pub struct DirtyRegion {
    pub id: i64,
    pub region_start: Timestamp,
    pub region_end: Timestamp,
    pub marked_at: Timestamp,
    pub reason: String,
}

/// How far a compression has come.
#[derive(Debug)]
pub struct CompressionProgress {
    pub phase: CompressionPhase,
    pub current_tier: u32,
    pub total_tiers: u32,
    pub aggressiveness: Number,
    pub time_range_start: Timestamp,
    pub time_range_end: Timestamp,
}

/// What the compression of one tier came to.
#[derive(Debug)]
pub struct TierCompressionResult {
    pub tier_number: u32,
    pub phase: CompressionPhase,
    pub original_count: usize,
    pub compressed_count: usize,
    pub compression_ratio: Number,
    pub aggressiveness: Number,
    pub time_range_start: Timestamp,
    pub time_range_end: Timestamp,
    pub duration_ms: u64,
}

/// What a compression came to, tier by tier.
#[derive(Debug)]
pub struct DetailedCompressionSummary {
    pub summary: CompressionSummary,
    pub tier_results: Vec<TierCompressionResult>,
    pub started_at: Timestamp,
    pub completed_at: Timestamp,
    pub total_duration_ms: u64,
}

/// What the last compression came to.
#[derive(Debug)]
pub struct LastCompressionInfo {
    pub id: String,
    pub completed_at: Timestamp,
    pub original_count: usize,
    pub compressed_count: usize,
    pub compression_ratio: Number,
    pub final_size_bytes: u64,
    pub time_based_tiers: usize,
    pub size_based_iterations: usize,
    pub duration_ms: u64,
}

}
