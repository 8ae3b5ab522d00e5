use bigdecimal::{BigDecimal, FromPrimitive};
use pattern_database::decimal::Decimal;
use pattern_database::dictionary::{bracket, Dictionary, DictionaryConstraints, StepPlan, Steps};
use pattern_database::ids::{AspectId, PatternID};
use pattern_database::measurement::{MeasurementVector, Relative};
use pattern_database::pattern::{Occurrence, Pattern};
use pattern_database::registry::DatabaseInfo;
use pattern_database::resolution::{Resolution, Spline};
use pattern_database::time::Timestamp;
use pattern_database::variability::{Variability, VariablilityType};

fn decimal(x: f64) -> Decimal {
    Decimal::parse(&BigDecimal::from_f64(x).unwrap().to_string()).unwrap()
}

fn float(d: &Decimal) -> f64 {
    d.plain_text().parse().unwrap()
}

fn create_test_pattern(amplitudes: Vec<f64>) -> Pattern {
    let pattern_id = PatternID::new();
    let now = Timestamp { seconds: 1_700_000_000, nanos: 0 };
    let occurrences = vec![Occurrence {
        aspect: AspectId::new(),
        resolution: Resolution::Seconds,
        size: amplitudes.len(),
        database_info: DatabaseInfo::new("test".to_string(), "test_path".to_string()),
        pattern_id,
        beginning: now,
        end: now,
    }];
    let relatives: Vec<Relative> = amplitudes
        .into_iter()
        .enumerate()
        .map(|(i, amp)| Relative {
            vector: MeasurementVector { location: decimal(i as f64 / 10.0), amplitude: decimal(amp) },
            max_x: Decimal::from_i64(1),
            max_y: Decimal::from_i64(1),
        })
        .collect();
    Pattern::new(pattern_id, occurrences, relatives)
}

/// The amplitude of a pattern at a location between its steps.
fn amplitude_at(relatives: &Vec<Relative>, location: f64) -> Decimal {
    let locations: Vec<f64> = relatives.iter().map(|r| float(&r.vector.location)).collect();
    let before: Vec<bool> = locations.iter().map(|l| *l <= location).collect();
    let after: Vec<bool> = locations.iter().map(|l| *l >= location).collect();
    let (left, right) = bracket(&before, &after);
    if left == right || (locations[right] - locations[left]).abs() < f64::EPSILON {
        return relatives[left].vector.amplitude.clone();
    }
    let left_amp = float(&relatives[left].vector.amplitude);
    let right_amp = float(&relatives[right].vector.amplitude);
    let factor = (location - locations[left]) / (locations[right] - locations[left]);
    decimal((right_amp - left_amp).mul_add(factor, left_amp))
}

/// A pattern in as many steps as a dictionary demands.
fn in_steps(pattern: Pattern, steps: &Steps) -> Pattern {
    let samples: Vec<MeasurementVector> = match steps.plan(&pattern) {
        StepPlan::Keep => Vec::new(),
        _ => (0..steps.count())
            .map(|i| {
                let location = if steps.count() < 2 { 0.0 } else { i as f64 / (steps.count() - 1) as f64 };
                MeasurementVector {
                    location: decimal(location),
                    amplitude: amplitude_at(&pattern.relatives, location),
                }
            })
            .collect(),
    };
    Dictionary::convert_pattern_steps(pattern, steps, &samples)
}

fn import(dictionary: &mut Dictionary, pattern: Pattern) {
    let steps = dictionary.constraints().steps().unwrap();
    let pattern = in_steps(pattern, &steps);
    dictionary.import_pattern(pattern, &Vec::new());
}

fn dictionary_with(name: &str, description: &str, count: usize, percent: f64) -> Dictionary {
    let constraints = DictionaryConstraints {
        steps: Some(Steps::new(count, Spline::Linear)),
        variabilities: Some(vec![VariablilityType::AbsoluteSumPercentile(Variability::new(decimal(percent)))]),
    };
    Dictionary::new(name.to_string(), description.to_string(), constraints)
}

fn create_test_dictionary() -> Dictionary {
    dictionary_with("Test Dictionary", "A test dictionary for pattern matching", 10, 10.0)
}

#[test]
fn test_import_new_pattern() {
    let mut dictionary = create_test_dictionary();
    let pattern = create_test_pattern(vec![1.0, 2.0, 3.0, 2.0, 1.0]);
    import(&mut dictionary, pattern);
    assert_eq!(dictionary.patterns.len(), 1);
}

#[test]
fn test_import_similar_pattern() {
    let mut dictionary = create_test_dictionary();

    let pattern1 = create_test_pattern(vec![1.0, 2.0, 3.0, 2.0, 1.0]);
    import(&mut dictionary, pattern1);

    let pattern2 = create_test_pattern(vec![1.1, 2.1, 3.1, 2.1, 1.1]);
    import(&mut dictionary, pattern2);

    assert_eq!(dictionary.patterns.len(), 1);
    assert_eq!(dictionary.patterns[0].occurrences().len(), 2);
}

#[test]
fn test_import_different_pattern() {
    let mut dictionary = create_test_dictionary();

    let pattern1 = create_test_pattern(vec![1.0, 2.0, 3.0, 2.0, 1.0]);
    import(&mut dictionary, pattern1);

    let pattern2 = create_test_pattern(vec![10.0, 20.0, 30.0, 20.0, 10.0]);
    import(&mut dictionary, pattern2);

    assert_eq!(dictionary.patterns.len(), 2);
    assert_eq!(dictionary.patterns[0].occurrences().len(), 1);
    assert_eq!(dictionary.patterns[1].occurrences().len(), 1);
}

#[test]
fn test_import_pattern_matches_multiple() {
    let mut dictionary = create_test_dictionary();

    let pattern1 = create_test_pattern(vec![1.0, 2.0, 3.0, 2.0, 1.0]);
    import(&mut dictionary, pattern1);

    let pattern2 = create_test_pattern(vec![1.05, 2.05, 3.05, 2.05, 1.05]);
    import(&mut dictionary, pattern2);

    assert_eq!(dictionary.patterns.len(), 1);
    assert_eq!(dictionary.patterns[0].occurrences().len(), 2);

    let pattern3 = create_test_pattern(vec![1.08, 2.08, 3.08, 2.08, 1.08]);
    import(&mut dictionary, pattern3);

    assert_eq!(dictionary.patterns.len(), 1);
    assert_eq!(dictionary.patterns[0].occurrences().len(), 3);
}

#[test]
fn test_import_pattern_matches_multiple_distinct_patterns() {
    let mut dictionary = dictionary_with(
        "Moderate Test Dictionary",
        "A test dictionary with moderate constraints",
        10,
        25.0,
    );

    let pattern1 = create_test_pattern(vec![1.0, 2.0, 3.0, 2.0, 1.0]);
    import(&mut dictionary, pattern1);

    let pattern2 = create_test_pattern(vec![3.0, 6.0, 10.0, 6.0, 0.0]);
    import(&mut dictionary, pattern2);

    assert_eq!(dictionary.patterns.len(), 2);

    let pattern3 = create_test_pattern(vec![1.2, 2.4, 3.6, 2.4, 1.2]);
    import(&mut dictionary, pattern3);

    assert_eq!(dictionary.patterns.len(), 2);
    assert_eq!(dictionary.patterns[0].occurrences().len(), 2);
    assert_eq!(dictionary.patterns[1].occurrences().len(), 1);
}

#[test]
fn test_import_pattern_matches_multiple_existing_patterns() {
    let mut dictionary = dictionary_with(
        "Multi-Match Test Dictionary",
        "Test dictionary for multiple pattern matching",
        3,
        25.0,
    );

    let pattern1 = create_test_pattern(vec![2.0, 2.0, 2.0]);
    import(&mut dictionary, pattern1);

    let pattern2 = create_test_pattern(vec![3.0, 2.0, 3.0]);
    import(&mut dictionary, pattern2);

    assert_eq!(dictionary.patterns.len(), 2);

    let pattern3 = create_test_pattern(vec![2.5, 2.0, 2.5]);
    import(&mut dictionary, pattern3);

    assert_eq!(dictionary.patterns.len(), 2);
    assert_eq!(dictionary.patterns[0].occurrences().len(), 2);
    assert_eq!(dictionary.patterns[1].occurrences().len(), 2);
}

#[test]
fn a_pattern_without_steps_is_not_imported_where_steps_are_demanded() {
    let mut dictionary = create_test_dictionary();
    import(&mut dictionary, create_test_pattern(vec![]));
    assert!(dictionary.is_empty());
}

#[test]
fn without_bounds_no_pattern_counts_as_another() {
    let mut dictionary = Dictionary::new("d".to_string(), String::new(), DictionaryConstraints::default());
    dictionary.import_pattern(create_test_pattern(vec![1.0, 2.0]), &Vec::new());
    dictionary.import_pattern(create_test_pattern(vec![1.0, 2.0]), &Vec::new());
    assert_eq!(dictionary.len(), 2);
}

#[test]
fn the_verdict_decides_on_a_static_bound() {
    let constraints = DictionaryConstraints::new(
        None,
        Some(vec![VariablilityType::MaximumStatic(Variability::new(decimal(1.0)))]),
    );
    let dictionary = Dictionary::new("d".to_string(), String::new(), constraints);
    let a = create_test_pattern(vec![1.0, 2.0]);
    let b = create_test_pattern(vec![1.5, 2.5]);
    assert!(dictionary.patterns_are_similar(&a, &b, &vec![true]));
    assert!(!dictionary.patterns_are_similar(&a, &b, &vec![false]));
    assert!(!dictionary.patterns_are_similar(&a, &b, &vec![]));
}

#[test]
fn every_kind_of_percentage_is_looked_at() {
    let within = |kind: fn(Variability) -> VariablilityType, bound: f64, a: Vec<f64>, b: Vec<f64>| {
        let constraints = DictionaryConstraints::new(None, Some(vec![kind(Variability::new(decimal(bound)))]));
        let dictionary = Dictionary::new("d".to_string(), String::new(), constraints);
        dictionary.patterns_are_similar(&create_test_pattern(a), &create_test_pattern(b), &vec![])
    };
    assert!(within(VariablilityType::MaximumPercentile, 50.0, vec![3.0, 4.0], vec![2.0, 4.0]));
    assert!(!within(VariablilityType::MaximumPercentile, 49.0, vec![3.0, 4.0], vec![2.0, 4.0]));
    assert!(within(VariablilityType::AveragePercentile, 25.0, vec![3.0, 4.0], vec![2.0, 4.0]));
    assert!(!within(VariablilityType::AveragePercentile, 24.0, vec![3.0, 4.0], vec![2.0, 4.0]));
    assert!(within(VariablilityType::AbsoluteMaximumPercentile, 0.0, vec![-2.0], vec![2.0]));
    assert!(!within(VariablilityType::MaximumPercentile, 100.0, vec![-2.0], vec![2.0]));
    assert!(within(VariablilityType::AbsoluteAveragePercentile, 0.0, vec![-2.0, 4.0], vec![2.0, -4.0]));
    assert!(within(VariablilityType::SumPercentile, 20.0, vec![2.0, 4.0], vec![1.0, 4.0]));
    assert!(!within(VariablilityType::SumPercentile, 19.0, vec![2.0, 4.0], vec![1.0, 4.0]));
    assert!(within(VariablilityType::AbsoluteSumPercentile, 10.0, vec![], vec![]));
    assert!(!within(VariablilityType::SumPercentile, 9999.0, vec![1.0], vec![0.0]));
    assert!(within(VariablilityType::SumPercentile, 10000.0, vec![1.0], vec![0.0]));
}

#[test]
fn merging_imports_every_pattern_and_keeps_those_there() {
    let mut dictionary = create_test_dictionary();
    import(&mut dictionary, create_test_pattern(vec![1.0, 2.0, 3.0, 2.0, 1.0]));
    let kept = dictionary.patterns[0].id();
    let mut other = create_test_dictionary();
    import(&mut other, create_test_pattern(vec![1.0, 2.0, 3.0, 2.0, 1.0]));
    import(&mut other, create_test_pattern(vec![10.0, 20.0, 30.0, 20.0, 10.0]));
    dictionary.merge_dictionary(other, &Vec::new());
    assert_eq!(dictionary.len(), 2);
    assert_eq!(dictionary.patterns[0].id(), kept);
    assert_eq!(dictionary.patterns[0].occurrences().len(), 2);
    assert_eq!(dictionary.patterns[1].occurrences().len(), 1);
}

#[test]
fn one_step_is_repeated_and_several_are_resampled() {
    let one = in_steps(create_test_pattern(vec![4.0]), &Steps::new(3, Spline::Linear));
    let amplitudes: Vec<f64> = one.amplitudes().iter().map(float).collect();
    assert_eq!(amplitudes, vec![4.0, 4.0, 4.0]);
    let two = in_steps(create_test_pattern(vec![1.0, 3.0]), &Steps::new(4, Spline::Linear));
    assert_eq!(two.relatives().len(), 4);
    assert_eq!(two.relatives()[0].max_x.text(), "1");
    let kept = in_steps(create_test_pattern(vec![1.0, 3.0]), &Steps::new(2, Spline::Linear));
    assert_eq!(kept.relatives()[1].vector.location.text(), decimal(0.1).text());
}

#[test]
fn a_location_lies_between_two_steps() {
    assert_eq!(bracket(&vec![true, true, false], &vec![false, false, true]), (1, 2));
    assert_eq!(bracket(&vec![true, true, true], &vec![false, false, false]), (2, 2));
    assert_eq!(bracket(&vec![false, false], &vec![true, true]), (0, 0));
    assert_eq!(bracket(&vec![true, true], &vec![false, true]), (1, 1));
}

#[test]
fn importing_at_an_index_adds_the_occurrences() {
    let mut dictionary = create_test_dictionary();
    import(&mut dictionary, create_test_pattern(vec![1.0, 2.0, 3.0, 2.0, 1.0]));
    let more = create_test_pattern(vec![5.0]);
    dictionary.merge_pattern_occurrences_at_index(0, &more);
    dictionary.merge_pattern_occurrences_at_index(7, &more);
    assert_eq!(dictionary.patterns().len(), 1);
    assert_eq!(dictionary.patterns()[0].occurrences()[1].pattern_id, more.id());
}
