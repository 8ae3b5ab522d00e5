use pattern_database::compression::{
    calculate_required_compression, estimate_compressed_size, tier_of, AggressivenessScaling, CompressionConfig,
    CompressionPhase, CompressionResult, CompressionSummary, Number, Reduction, SizeBasedCompressionConfig,
    SizeEstimate, Span, SpanParts, TimeBasedCompressionConfig, ESTIMATED_BYTES_PER_MEASUREMENT,
};
use pattern_database::time::Timestamp;

fn number(x: f64) -> Number {
    Number { bits: x.to_bits() }
}

fn value(n: Number) -> f64 {
    f64::from_bits(n.bits)
}

/// How much a tier is compressed.
fn aggressiveness(tier: u32, max_tiers: u32, scaling: &AggressivenessScaling) -> f64 {
    if tier == 0 {
        return 0.0;
    }
    let wanted = match scaling {
        AggressivenessScaling::Linear => f64::from(tier) / f64::from(max_tiers),
        AggressivenessScaling::Exponential { base } => 1.0 - (1.0 - value(*base)).powi(tier as i32),
        AggressivenessScaling::Custom(tiers) => tiers.get(tier as usize - 1).map_or(0.95, |n| value(*n)),
    };
    wanted.min(0.95)
}

/// What would be left for a size.
fn reduction(current_size: u64, target_size: u64, count: usize) -> Reduction {
    let ratio = target_size as f64 / current_size as f64;
    Reduction {
        measurements_left: (count as f64 * ratio) as usize,
        share_gone: number(1.0 - ratio),
        aggressiveness: number((1.0 - ratio).min(0.95)),
    }
}

fn instant(seconds: i64) -> Timestamp {
    Timestamp { seconds, nanos: 0 }
}

#[test]
fn test_time_based_config_creation() {
    let config = TimeBasedCompressionConfig::default_seven_years();
    assert_eq!(config.pure_duration, Span::days(365 * 7));
    assert_eq!(config.tier_duration, Span::days(365));
    assert_eq!(config.max_tiers, 10);
}

#[test]
fn test_size_based_config_creation() {
    let config = SizeBasedCompressionConfig::default_10gb();
    assert_eq!(config.target_size_bytes, 10 * 1024 * 1024 * 1024);
    assert!((value(config.min_aggressiveness) - 0.1).abs() < f64::EPSILON);
    assert!((value(config.max_aggressiveness) - 0.95).abs() < f64::EPSILON);
}

#[test]
fn test_compression_config_combined() {
    let config = CompressionConfig::combined(
        TimeBasedCompressionConfig::default_seven_years(),
        SizeBasedCompressionConfig::default_10gb(),
    );
    assert!(config.enabled);
    assert!(config.time_based.is_some());
    assert!(config.size_based.is_some());
    assert!(config.has_compression());
}

#[test]
fn test_tier_aggressiveness_within_pure() {
    let tier = tier_of(&Span::days(365), &Span::days(365 * 7), &Span::days(365), 10);
    let aggressiveness = aggressiveness(tier, 10, &AggressivenessScaling::default());
    assert!(aggressiveness.abs() < f64::EPSILON);
}

#[test]
fn test_tier_aggressiveness_exponential() {
    let tier = tier_of(&Span::days(365 * 8), &Span::days(365 * 7), &Span::days(365), 10);
    let scaling = AggressivenessScaling::Exponential { base: number(0.5) };
    let aggressiveness = aggressiveness(tier, 10, &scaling);
    assert!((aggressiveness - 0.5).abs() < 0.01);
}

#[test]
fn test_tier_aggressiveness_linear() {
    let tier = tier_of(&Span::days(365 * 8), &Span::days(365 * 7), &Span::days(365), 10);
    let aggressiveness = aggressiveness(tier, 10, &AggressivenessScaling::Linear);
    assert!((aggressiveness - 0.1).abs() < 0.01);
}

#[test]
fn test_compression_result() {
    let share_gone = number(1.0 - 250.0 / 1000.0);
    let result = CompressionResult::new(1000, 250, share_gone, instant(0), instant(30 * 86_400));
    assert_eq!(result.original_count, 1000);
    assert_eq!(result.compressed_count, 250);
    assert!((value(result.compression_ratio) - 0.75).abs() < 0.01);
}

#[test]
fn test_size_estimate_from_count() {
    let estimate = SizeEstimate::from_count(1000);
    assert_eq!(estimate.measurement_count, 1000);
    assert_eq!(estimate.estimated_bytes, 1000 * ESTIMATED_BYTES_PER_MEASUREMENT);
    assert!(estimate.actual_file_size.is_none());
}

#[test]
fn test_compression_requirement_no_compression_needed() {
    let req = calculate_required_compression(1024, 2048, 100, reduction(1024, 2048, 100));
    assert!(!req.needs_compression);
    assert_eq!(req.target_measurement_count, 100);
    assert!(value(req.required_reduction_ratio).abs() < f64::EPSILON);
}

#[test]
fn test_compression_requirement_50_percent() {
    let req = calculate_required_compression(2000, 1000, 100, reduction(2000, 1000, 100));
    assert!(req.needs_compression);
    assert_eq!(req.target_measurement_count, 50);
    assert!((value(req.required_reduction_ratio) - 0.5).abs() < 0.01);
}

#[test]
fn test_estimate_compressed_size() {
    let original: usize = 1000;
    let left = |aggressiveness: f64| (original as f64 * (1.0 - aggressiveness)) as usize;

    let size = estimate_compressed_size(left(0.0));
    assert_eq!(size, original as u64 * ESTIMATED_BYTES_PER_MEASUREMENT);

    let size = estimate_compressed_size(left(1.0));
    assert!(size >= 2 * ESTIMATED_BYTES_PER_MEASUREMENT);
    assert_eq!(size, 240);
}

#[test]
fn older_measurements_are_in_no_lower_tier() {
    let mut last = 0;
    for years in 0..25 {
        let tier = tier_of(&Span::days(365 * years), &Span::days(365 * 7), &Span::days(365), 10);
        assert!(last <= tier);
        last = tier;
    }
    assert_eq!(last, 10);
}

#[test]
fn a_tier_of_no_length_counts_milliseconds() {
    let tier = tier_of(&Span { nanos: 5_000_000 }, &Span { nanos: 0 }, &Span { nanos: 0 }, 10);
    assert_eq!(tier, 5);
}

#[test]
fn a_result_of_nothing_has_no_ratio() {
    let result = CompressionResult::new(0, 0, number(0.7), instant(0), instant(1));
    assert_eq!(result.compression_ratio, number(0.0));
}

#[test]
fn totals_add_up_over_both_kinds() {
    let mut summary = CompressionSummary::new();
    summary.time_based_results.push(CompressionResult::new(100, 40, number(0.6), instant(0), instant(1)));
    summary.time_based_results.push(CompressionResult::new(50, 10, number(0.8), instant(1), instant(2)));
    summary.size_based_results.push(CompressionResult::new(30, 5, number(0.8), instant(2), instant(3)));
    summary.calculate_totals();
    assert_eq!(summary.total_original_count, 180);
    assert_eq!(summary.total_compressed_count, 55);
}

#[test]
fn a_span_has_its_parts_with_its_sign() {
    let span = Span { nanos: -1_500_000_000 };
    assert_eq!(span.parts(), SpanParts { secs: -1, nanos: -500_000_000 });
    assert_eq!(Span::of_parts(span.parts()), span);
    assert_eq!(span.millis(), -1500);
}

#[test]
fn two_measurements_are_left_at_least() {
    let req = calculate_required_compression(1000, 1, 100, reduction(1000, 1, 100));
    assert!(req.needs_compression);
    assert_eq!(req.target_measurement_count, 2);
    assert_eq!(req.suggested_aggressiveness, number(0.95));
}

#[test]
fn the_size_of_the_file_is_the_better_estimate() {
    let estimate = SizeEstimate::from_count(10);
    assert_eq!(estimate.best_estimate(), 1200);
    assert_eq!(estimate.with_actual_size(7).best_estimate(), 7);
}

#[test]
fn phases_have_texts() {
    assert_eq!(CompressionPhase::Complete.text(), "Complete");
    assert_eq!(CompressionPhase::Finalizing.text(), "Finalizing");
}

#[test]
fn nothing_is_compressed_unless_it_is_asked_for() {
    let config = CompressionConfig::default();
    assert!(!config.has_compression());
    let timed = CompressionConfig::time_based(TimeBasedCompressionConfig::default_seven_years().with_max_tiers(3));
    assert!(timed.has_compression());
    assert_eq!(timed.time_based.unwrap().max_tiers, 3);
}
