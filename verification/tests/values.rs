use pattern_database::columns::{decimal_field, instant_field, not_found, resolution_field, size_field, uuid_field};
use pattern_database::dataset::Dataset;
use pattern_database::decimal::{Comparison, Decimal, DecimalSign};
use pattern_database::error::Error;
use pattern_database::ids::{AspectId, CorrelationID, TxId};
use pattern_database::resolution::{Resolution, Spline};
use pattern_database::sql::{
    bulk_statements, integer_column, placeholders, text_column, text_value, value_to_string, SqlValue,
};
use pattern_database::text::{contains, double_quotes, has_prefix, has_suffix, i64_text, strip_prefix, strip_suffix, u64_text};
use pattern_database::time::Timestamp;
use pattern_database::variability::{Variability, VariabilityKind, VariablilityType};

fn decimal(text: &str) -> Decimal {
    Decimal::parse(text).unwrap()
}

#[test]
fn decimals_are_computed_with() {
    assert_eq!(decimal("1.25").plus(&decimal("2.5")).text(), "3.75");
    assert_eq!(decimal("1.25").minus(&decimal("2.5")).text(), "-1.25");
    assert_eq!(decimal("1.5").times(&decimal("-4")).text(), "-6.0");
    assert_eq!(decimal("1").over(&decimal("8")).text(), "0.125");
    assert_eq!(decimal("-7.5").abs().text(), "7.5");
    assert_eq!(Decimal::from_i64(-3).text(), "-3");
    assert_eq!(decimal("-0.1").sign(), DecimalSign::Minus);
    assert_eq!(decimal("0.0").sign(), DecimalSign::Zero);
    assert!(decimal("0.00").is_zero());
}

#[test]
fn decimals_are_compared_by_value() {
    assert_eq!(decimal("1.50").compare(&decimal("1.5")), Comparison::Equal);
    assert_eq!(decimal("-2").compare(&decimal("1")), Comparison::Less);
    assert_eq!(decimal("10").compare(&decimal("9.99")), Comparison::Greater);
}

#[test]
fn decimals_are_read_back_from_their_texts() {
    for text in ["0", "-12.5", "1e3", "123456789012345678901234567890.123", "1e-30"] {
        let d = decimal(text);
        assert_eq!(decimal(&d.text()).compare(&d), Comparison::Equal);
        assert_eq!(decimal(&d.plain_text()).compare(&d), Comparison::Equal);
    }
    assert_eq!(decimal("1e3").plain_text(), "1000");
    assert!(Decimal::parse("1.2.3").is_err());
    assert!(Decimal::parse("").is_err());
}

#[test]
fn numbers_have_decimal_texts() {
    assert_eq!(u64_text(0), "0");
    assert_eq!(u64_text(u64::MAX), "18446744073709551615");
    assert_eq!(i64_text(i64::MIN), "-9223372036854775808");
    assert_eq!(i64_text(-7), "-7");
}

#[test]
fn texts_are_searched_and_cut() {
    assert!(contains("database is locked", "locked"));
    assert!(!contains("lock", "locked"));
    assert!(contains("anything", ""));
    assert!(has_prefix("metadata.db", "meta"));
    assert!(has_suffix("metadata.db", ".db"));
    assert_eq!(strip_prefix("signal_a", "signal_"), Some("a".to_string()));
    assert_eq!(strip_suffix("a.db", ".txt"), None);
    assert_eq!(double_quotes("it's", '\''), "it''s");
}

#[test]
fn identifiers_are_read_back_from_their_texts() {
    let id = AspectId::new();
    assert_eq!(AspectId::parse(&id.text()).unwrap(), id);
    let known = CorrelationID { value: 0x0123_4567_89ab_cdef_0123_4567_89ab_cdef };
    assert_eq!(known.text(), "01234567-89ab-cdef-0123-456789abcdef");
    assert_eq!(CorrelationID::parse("0123456789ABCDEF0123456789abcdef").unwrap(), known);
    assert!(TxId::parse("nonsense").is_err());
}

#[test]
fn new_identifiers_are_random_and_differ() {
    let a = AspectId::new();
    let b = AspectId::default();
    assert_ne!(a, b);
    assert_eq!((a.value >> 76) & 0xf, 4);
    assert_eq!((a.value >> 62) & 0x3, 2);
}

#[test]
fn instants_have_milliseconds_and_texts() {
    let t = Timestamp::from_millis(-1).unwrap();
    assert_eq!(t, Timestamp { seconds: -1, nanos: 999_000_000 });
    assert_eq!(t.millis(), -1);
    assert_eq!(t.rfc3339(), "1969-12-31T23:59:59.999+00:00");
    assert_eq!(Timestamp::parse_rfc3339(&t.rfc3339()).unwrap(), t);
    let shifted = Timestamp::parse_rfc3339("2024-01-01T02:00:00+02:00").unwrap();
    assert_eq!(shifted.rfc3339(), "2024-01-01T00:00:00+00:00");
    assert!(Timestamp::parse_rfc3339("yesterday").is_err());
    assert!(Timestamp::from_millis(i64::MAX).is_none());
    assert_eq!(Timestamp::from_nanoseconds(t.nanoseconds()), t);
}

#[test]
fn instants_are_ordered() {
    let a = Timestamp { seconds: 1, nanos: 5 };
    let b = Timestamp { seconds: 1, nanos: 6 };
    assert!(a.before(&b) && !b.before(&a) && !a.before(&a));
    assert_eq!(a.earlier(b), a);
    assert_eq!(a.later(b), b);
}

#[test]
fn resolutions_have_names_and_steps() {
    assert_eq!(Resolution::parse("hours").unwrap(), Resolution::Hours);
    assert_eq!(Resolution::parse_name("Hours").unwrap(), Resolution::Hours);
    assert_eq!(
        Resolution::parse("Hours").unwrap_err(),
        "Conversion error: Invalid resolution string: Hours"
    );
    assert_eq!(
        Resolution::parse_name("hours").unwrap_err().message(),
        "Database error: Invalid resolution value: hours"
    );
    assert_eq!(Resolution::Milliseconds.step_nanos(), 1_000_000);
    assert!(Resolution::Seconds.step_nanos() < Resolution::Minutes.step_nanos());
    assert_eq!(Resolution::Days.text(), "days");
    assert_eq!(Resolution::Days.name(), "Days");
}

#[test]
fn interpolation_methods_are_read_back_from_their_texts() {
    for spline in [Spline::Linear, Spline::Quadratic, Spline::Cubic, Spline::Polynomial(5, None)] {
        assert_eq!(Spline::parse(&spline.text("")).unwrap(), spline);
    }
    let bounded = Spline::Polynomial(5, Some(1.5f64.to_bits()));
    assert_eq!(bounded.text("1.5"), "Polynomial(degree: 5, bounds_factor: 1.5)");
    assert_eq!(Spline::parse("Polynomial(degree: 5, bounds_factor: 1.5)").unwrap(), bounded);
    assert_eq!(Spline::parse("linear").unwrap_err(), "Unknown spline type: linear");
    assert!(Spline::parse("Polynomial(5)").is_err());
    assert_eq!(Spline::Polynomial(5, None).points_needed(), 6);
    assert_eq!(Spline::Cubic.overlap(), 3);
}

#[test]
fn the_texts_that_splimes_writes_are_written_here() {
    assert_eq!(splimes::Spline::Polynomial(3, None).to_string(), Spline::Polynomial(3, None).text(""));
    assert_eq!(splimes::Spline::Cubic.to_string(), Spline::Cubic.text(""));
    assert_eq!(splimes::Resolution::Weeks.to_string(), Resolution::Weeks.text());
}

#[test]
fn bounds_are_read_back_from_their_texts() {
    let bound = VariablilityType::AverageStatic(Variability::new(decimal("2.5")));
    assert_eq!(bound.text(), "AverageStatic(2.5)");
    let read = VariablilityType::parse(&bound.text()).unwrap();
    assert_eq!(read.kind(), VariabilityKind::AverageStatic);
    assert_eq!(read.value().text(), "2.5");
    assert!(VariablilityType::parse("AverageStatic").is_err());
    assert!(VariablilityType::parse("Average(2.5)").is_err());
    assert!(VariablilityType::parse("AverageStatic(x)").is_err());
}

#[test]
fn values_have_texts() {
    let text = |v: SqlValue| value_to_string(&v, "Field");
    assert_eq!(text(SqlValue::Integer(-4)).unwrap(), "-4");
    assert_eq!(text(SqlValue::Text("a".to_string())).unwrap(), "a");
    assert_eq!(text(SqlValue::Real("1.5".to_string())).unwrap(), "1.5");
    assert_eq!(text(SqlValue::Blob("é".as_bytes().to_vec())).unwrap(), "é");
    assert!(text(SqlValue::Blob(vec![0xff, 0xfe])).is_err());
    assert!(text(SqlValue::Null).is_err());
}

#[test]
fn columns_are_checked() {
    let row = vec![SqlValue::Integer(3), SqlValue::Text("x".to_string())];
    assert_eq!(integer_column(&row, 0, "not an integer").unwrap(), 3);
    assert_eq!(text_column(&row, 0, "not text").unwrap_err().message(), "Database error: not text");
    assert_eq!(size_field(5, "size: ").unwrap(), 5);
    assert!(matches!(size_field(-5, "size: "), Err(Error::DatabaseError(s)) if s.starts_with("size: ")));
    assert!(matches!(uuid_field(&"?".to_string(), "id: "), Err(Error::InvalidIdError(s)) if s.starts_with("id: ")));
    assert!(decimal_field(&"?".to_string(), "value: ").is_err());
    assert_eq!(resolution_field(&"days".to_string(), "r: ").unwrap(), Resolution::Days);
    assert_eq!(
        resolution_field(&"x".to_string(), "r: ").unwrap_err().message(),
        "Database error: r: Conversion error: Invalid resolution string: x"
    );
    assert_eq!(instant_field(1_500, "t").unwrap(), Timestamp { seconds: 1, nanos: 500_000_000 });
    assert_eq!(instant_field(i64::MIN, "t").unwrap_err().message(), "Database error: t");
    assert_eq!(not_found("Event", 0).message(), "Event with ID 00000000-0000-0000-0000-000000000000 not found");
}

#[test]
fn rows_are_written_in_chunks_that_cover_all() {
    assert_eq!(placeholders("(?, ?)", 3), "(?, ?), (?, ?), (?, ?)");
    assert_eq!(placeholders("(?)", 0), "");
    let rows: Vec<Vec<SqlValue>> = (0..7).map(|i| vec![SqlValue::Integer(i)]).collect();
    let lead = vec![text_value("lead")];
    let statements = bulk_statements("INSERT ", "(?)", ";", &lead, &rows, 3);
    let sqls: Vec<&str> = statements.iter().map(|s| s.sql.as_str()).collect();
    assert_eq!(sqls, vec!["INSERT (?), (?), (?);", "INSERT (?), (?), (?);", "INSERT (?);"]);
    assert_eq!(statements.iter().map(|s| s.params.len() - 1).sum::<usize>(), 7);
    assert!(matches!(statements[2].params[1], SqlValue::Integer(6)));
    assert!(bulk_statements("INSERT ", "(?)", "", &lead, &Vec::new(), 3).is_empty());
}

#[test]
fn every_error_has_its_text() {
    let texts = vec![
        (Error::InsufficientMeasurementsError, "Insufficient measurements provided for interpolation"),
        (Error::DifferentDatasetIdsError, "Different dataset IDs found in measurements"),
        (Error::InconsistentDatasetIdsError, "Inconsistent dataset IDs found in measurements"),
        (Error::InsufficientPointsForCubicSplineError, "Insufficient points for cubic spline interpolation"),
        (Error::InvalidTimeRangeError, "Invalid time range: start time must be before end time"),
        (Error::DatabaseError("x".to_string()), "Database error: x"),
        (Error::InterpolationError("x".to_string()), "Interpolation error: x"),
        (Error::CacheError("x".to_string()), "Cache error: x"),
        (Error::InvalidIdError("x".to_string()), "Invalid ID: x"),
        (Error::NumericConversionError("x".to_string()), "Numeric conversion error: x"),
        (Error::Message("x".to_string()), "x"),
    ];
    for (error, text) in texts {
        assert_eq!(error.message(), text);
    }
}

#[test]
fn a_random_dataset_has_a_name_and_no_measurements() {
    let dataset = Dataset::random();
    assert!(!dataset.name().is_empty());
    assert!(dataset.measurements().is_empty());
    assert_ne!(*Dataset::new("d".to_string()).id(), *dataset.id());
}
