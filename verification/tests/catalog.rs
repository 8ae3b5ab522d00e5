use pattern_database::catalog::{AspectCatalog, AspectKey, AspectSchema, CatalogStore, PhysicalType, TimeUnit};
use pattern_database::decimal::Decimal;
use pattern_database::sql::SqlValue;
use pattern_database::transaction::OnFailure;

fn names(list: Vec<String>) -> Vec<String> {
    list
}

fn decimal(text: &str) -> Decimal {
    Decimal::parse(text).unwrap()
}

fn schema(value: PhysicalType, tolerance: &str, unit: TimeUnit) -> AspectSchema {
    AspectSchema::new(value, decimal(tolerance), unit)
}

fn assert_schema(got: Option<&AspectSchema>, value: PhysicalType, tolerance: &str, unit: TimeUnit) {
    let got = got.unwrap();
    assert_eq!(got.value, value);
    assert_eq!(got.value_tolerance.text(), tolerance);
    assert_eq!(got.timestamp_unit, unit);
}

fn triple(key: &AspectKey) -> (String, String, String) {
    (key.database.clone(), key.subject.clone(), key.aspect.clone())
}

#[test]
fn register_then_list_databases_in_order() {
    let mut catalog = CatalogStore::open_in_memory();
    catalog.register_database("market");
    catalog.register_database("iot");
    catalog.register_database("market");
    let dbs = catalog.list_databases();
    let exists = catalog.database_exists("market");
    let missing = catalog.database_exists("absent");
    assert_eq!(dbs, vec!["iot".to_string(), "market".to_string()]);
    assert!(exists);
    assert!(!missing);
}

#[test]
fn subjects_scope_to_their_database_in_order() {
    let mut catalog = CatalogStore::open_in_memory();
    catalog.register_database("market");
    catalog.register_database("iot");
    assert!(catalog.register_subject("market", "BTCUSD").is_ok());
    assert!(catalog.register_subject("market", "ETHUSD").is_ok());
    assert!(catalog.register_subject("iot", "sensor-7").is_ok());
    let market = catalog.list_subjects("market");
    let iot = catalog.list_subjects("iot");
    let exists = catalog.subject_exists("market", "BTCUSD");
    let missing = catalog.subject_exists("market", "sensor-7");
    assert_eq!(market, vec!["BTCUSD".to_string(), "ETHUSD".to_string()]);
    assert_eq!(iot, vec!["sensor-7".to_string()]);
    assert!(exists);
    assert!(!missing, "a subject is isolated to its own database");
}

#[test]
fn subject_under_unregistered_database_fails() {
    let mut catalog = CatalogStore::open_in_memory();
    let err = catalog.register_subject("ghost", "BTCUSD");
    let exists = catalog.subject_exists("ghost", "BTCUSD");
    assert!(err.is_err(), "a subject needs its database registered first");
    assert!(!exists, "the failed registration recorded nothing");
}

#[test]
fn register_subject_is_idempotent() {
    let mut catalog = CatalogStore::open_in_memory();
    catalog.register_database("d");
    assert!(catalog.register_subject("d", "s").is_ok());
    assert!(catalog.register_subject("d", "s").is_ok());
    let subjects = catalog.list_subjects("d");
    assert_eq!(subjects, vec!["s".to_string()]);
}

#[test]
fn remove_subject_leaves_the_database() {
    let mut catalog = CatalogStore::open_in_memory();
    catalog.register_database("d");
    assert!(catalog.register_subject("d", "a").is_ok());
    assert!(catalog.register_subject("d", "b").is_ok());
    catalog.remove_subject("d", "a");
    catalog.remove_subject("d", "absent");
    let subjects = catalog.list_subjects("d");
    let db_exists = catalog.database_exists("d");
    assert_eq!(subjects, vec!["b".to_string()]);
    assert!(db_exists, "removing a subject leaves its database registered");
}

#[test]
fn remove_database_cascades_to_subjects() {
    let mut catalog = CatalogStore::open_in_memory();
    catalog.register_database("d");
    catalog.register_database("keep");
    assert!(catalog.register_subject("d", "a").is_ok());
    assert!(catalog.register_subject("d", "b").is_ok());
    assert!(catalog.register_subject("keep", "c").is_ok());
    catalog.remove_database("d");
    let dbs = catalog.list_databases();
    let orphans = catalog.list_subjects("d");
    let kept = catalog.list_subjects("keep");
    assert_eq!(dbs, vec!["keep".to_string()], "the database is gone");
    assert!(orphans.is_empty(), "its subjects cascade away");
    assert_eq!(kept, vec!["c".to_string()], "an unrelated database is untouched");
}

#[test]
fn catalog_steps_say_what_is_done() {
    let mut catalog = CatalogStore::open_in_memory();
    let step = catalog.register_database("market");
    assert_eq!(step.on_failure, OnFailure::RollBackQuietly);
    assert!(matches!(&step.statement.params[0], SqlValue::Text(s) if s == "market"));
    let steps = catalog.remove_database("market");
    assert_eq!(steps.len(), 2);
    assert_eq!(names(catalog.list_databases()).len(), 0);
    assert_eq!(CatalogStore::tables().len(), 2);
}

#[test]
fn declare_then_get_round_trips_a_schema() {
    let mut catalog = AspectCatalog::open_in_memory();
    let declared = schema(PhysicalType::ScaledI64 { scale: 4 }, "0.00005", TimeUnit::Micros);
    catalog.declare("market", "BTCUSD", "price", declared);
    let got = catalog.get("market", "BTCUSD", "price");
    assert_schema(got, PhysicalType::ScaledI64 { scale: 4 }, "0.00005", TimeUnit::Micros);
}

#[test]
fn get_unknown_aspect_is_none() {
    let catalog = AspectCatalog::open_in_memory();
    let got = catalog.get("market", "BTCUSD", "missing");
    assert!(got.is_none());
}

#[test]
fn redeclare_replaces_the_schema() {
    let mut catalog = AspectCatalog::open_in_memory();
    catalog.declare("d", "s", "a", schema(PhysicalType::F64, "0", TimeUnit::Seconds));
    catalog.declare("d", "s", "a", schema(PhysicalType::F32, "0.01", TimeUnit::Millis));
    let got = catalog.get("d", "s", "a");
    assert_schema(got, PhysicalType::F32, "0.01", TimeUnit::Millis);
}

#[test]
fn list_all_enumerates_every_declaration_ordered() {
    let mut catalog = AspectCatalog::open_in_memory();
    catalog.declare("market", "ETHUSD", "price", schema(PhysicalType::F64, "0", TimeUnit::Seconds));
    catalog.declare("iot", "sensor-7", "temp", schema(PhysicalType::F64, "0", TimeUnit::Seconds));
    catalog.declare("market", "BTCUSD", "volume", schema(PhysicalType::F64, "0", TimeUnit::Seconds));
    catalog.declare("market", "BTCUSD", "price", schema(PhysicalType::F64, "0", TimeUnit::Seconds));
    let all: Vec<(String, String, String)> = catalog.list_all().iter().map(triple).collect();
    assert_eq!(
        all,
        vec![
            ("iot".to_string(), "sensor-7".to_string(), "temp".to_string()),
            ("market".to_string(), "BTCUSD".to_string(), "price".to_string()),
            ("market".to_string(), "BTCUSD".to_string(), "volume".to_string()),
            ("market".to_string(), "ETHUSD".to_string(), "price".to_string()),
        ]
    );
}

#[test]
fn list_all_is_empty_for_a_fresh_catalog() {
    let catalog = AspectCatalog::open_in_memory();
    let all = catalog.list_all();
    assert!(all.is_empty());
}

#[test]
fn list_aspects_scopes_to_subject_in_order() {
    let mut catalog = AspectCatalog::open_in_memory();
    catalog.declare("d", "s", "temp", schema(PhysicalType::F64, "0", TimeUnit::Seconds));
    catalog.declare("d", "s", "humidity", schema(PhysicalType::F64, "0", TimeUnit::Seconds));
    catalog.declare("d", "other", "pressure", schema(PhysicalType::F64, "0", TimeUnit::Seconds));
    catalog.declare("other_db", "s", "wind", schema(PhysicalType::F64, "0", TimeUnit::Seconds));
    let aspects = catalog.list_aspects("d", "s");
    assert_eq!(aspects, vec!["humidity".to_string(), "temp".to_string()]);
}
