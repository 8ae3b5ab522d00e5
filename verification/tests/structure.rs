use pattern_database::aspect::{Aspect, DirectoryFile, LayoutStep, Schema};
use pattern_database::ids::{AspectId, DatabaseId, SubjectId};
use pattern_database::names::{standing, Names, Standing};
use pattern_database::paths::{
    aspect_measurements_db_path, aspect_path, database_name_of, dictionary_of_file, dictionary_path, file_name,
    join_path, metadata_db_path, parent_path,
};
use pattern_database::registry::{find_database_by_name, find_databases_by_name, get_all_database_info, DatabaseInfo, Subject};
use pattern_database::resolution::Resolution;
use pattern_database::sql::SqlValue;
use pattern_database::store::metadata::{
    db_metadata_path, db_name, done_for_aspect, execution_failure, get_database_metadata_path, get_subject_name,
    observe_subject, parse_count, parse_instant_row, parse_millis_row, parse_resolution_row, parse_subject_row,
    sanitize_table_name, table_name, track_aspect,
};
use pattern_database::store::tables::{after_definition, Definition};
use pattern_database::table::Table;
use pattern_database::time::Timestamp;

#[test]
fn paths_are_joined_below_the_data_directory() {
    assert_eq!(join_path("data", "db"), "data/db");
    assert_eq!(join_path("data/", "db"), "data/db");
    assert_eq!(join_path("data", "/db"), "/db");
    assert_eq!(metadata_db_path("data", "market"), "data/market/metadata.db");
    assert_eq!(aspect_path("data", "market", "BTCUSD", "price"), "data/market/BTCUSD/price");
    assert_eq!(
        aspect_measurements_db_path("data", "market", "BTCUSD", "price"),
        "data/market/BTCUSD/price/measurements.db"
    );
    assert_eq!(
        dictionary_path("data", "market", "BTCUSD", "price", "shapes"),
        "data/market/BTCUSD/price/dictionaries/shapes.db"
    );
}

#[test]
fn paths_are_taken_apart() {
    assert_eq!(parent_path("data/market/metadata.db"), Some("data/market".to_string()));
    assert_eq!(parent_path("/"), None);
    assert_eq!(file_name("data/market"), Some("market".to_string()));
    assert_eq!(file_name("data/.."), None);
    assert_eq!(database_name_of("data/market/BTCUSD/price").unwrap(), "market");
    assert_eq!(database_name_of("").unwrap_err(), "Cannot get subject path from aspect path");
    assert_eq!(database_name_of("price").unwrap_err(), "Cannot get db path from subject path");
    assert_eq!(database_name_of("BTCUSD/price").unwrap_err(), "Cannot extract db_name from path");
    assert_eq!(parent_path("metadata.db"), Some(String::new()));
    assert_eq!(Aspect::get_aspect_path("metadata.db", "BTCUSD", "price").unwrap(), "BTCUSD/price");
    assert!(Aspect::get_aspect_path("/", "BTCUSD", "price").is_err());
    assert_eq!(dictionary_of_file("shapes.db"), Some("shapes".to_string()));
    assert_eq!(dictionary_of_file("shapes.DB"), Some("shapes.DB".to_string()));
    assert_eq!(dictionary_of_file("shapes.txt"), None);
}

#[test]
fn aspects_of_different_names_lie_apart() {
    assert_ne!(aspect_path("data", "m", "s", "a"), aspect_path("data", "m", "s", "b"));
    assert_ne!(aspect_path("data", "m", "s", "a"), aspect_path("data", "m", "t", "a"));
}

fn aspect(name: &str) -> Aspect {
    Aspect::new(
        None,
        name,
        SubjectId::new(),
        Resolution::Hours,
        "data",
        "market",
        "BTCUSD".to_string(),
        "data/market/metadata.db".to_string(),
    )
}

#[test]
fn a_new_aspect_is_laid_out() {
    let price = aspect("price");
    let layout = price.layout();
    assert_eq!(layout.len(), 9);
    assert!(matches!(&layout[0], LayoutStep::CreateDirectory(p) if p == "data/market/BTCUSD/price"));
    assert!(matches!(
        &layout[6],
        LayoutStep::CreateDatabase(p, Schema::Events) if p == "data/market/BTCUSD/price/processed_events.db"
    ));
    assert!(matches!(&layout[8], LayoutStep::CreateDirectory(p) if p == "data/market/BTCUSD/price/dictionaries"));
}

#[test]
fn a_reloaded_aspect_has_the_same_files() {
    let price = aspect("price");
    let files = vec![
        DirectoryFile { name: "shapes.db".to_string(), path: "x/shapes.db".to_string() },
        DirectoryFile { name: "notes.txt".to_string(), path: "x/notes.txt".to_string() },
    ];
    let reloaded = Aspect::from_metadata(
        Some(price.info.id),
        "price".to_string(),
        price.info.subject_id,
        Resolution::Hours,
        "data/market/metadata.db".to_string(),
        "BTCUSD".to_string(),
        &files,
    )
    .unwrap();
    assert!(reloaded.same(&price));
    assert_eq!(reloaded.info.measurements_path, price.info.measurements_path);
    assert_eq!(reloaded.info.correlations_path, price.info.correlations_path);
    assert_eq!(reloaded.dictionaries.len(), 1);
    assert!(reloaded.admit_dictionary("shapes", false).is_ok());
    assert_eq!(
        reloaded.admit_dictionary("other", false).unwrap_err().message(),
        "Dictionary 'other' does not exist for aspect 'price'"
    );
    assert!(reloaded.admit_dictionary("other", true).is_ok());
    let nowhere = Aspect::from_metadata(
        None,
        "price".to_string(),
        SubjectId::new(),
        Resolution::Hours,
        String::new(),
        "BTCUSD".to_string(),
        &files,
    );
    assert_eq!(nowhere.unwrap_err().message(), "Cannot determine database directory");
}

#[test]
fn the_directory_of_an_aspect_is_found() {
    let path = Aspect::get_aspect_path("data/market/metadata.db", "BTCUSD", "price").unwrap();
    assert_eq!(path, "data/market/BTCUSD/price");
    assert!(Aspect::existing_aspect_path(path.clone(), true).is_ok());
    assert_eq!(
        Aspect::existing_aspect_path(path, false).unwrap_err().message(),
        "Aspect metadata path does not exist"
    );
    let mut price = aspect("price");
    assert_eq!(
        price.dictionary_file("data", "shapes").unwrap(),
        "data/market/BTCUSD/price/dictionaries/shapes.db"
    );
    price.remember_dictionary("shapes", "p".to_string());
    assert!(price.admit_dictionary("shapes", false).is_ok());
}

#[test]
fn a_failure_to_make_a_table_is_told_unless_it_may_fail() {
    let needed = Definition { sql: "x", is_optional: false };
    let optional = Definition { sql: "x", is_optional: true };
    assert_eq!(after_definition(&needed, Err("no".to_string())).unwrap_err().message(), "no");
    assert!(after_definition(&optional, Err("no".to_string())).is_ok());
    assert!(after_definition(&needed, Ok(())).is_ok());
    assert_eq!(Aspect::wireframe_patterns_tables().len(), 3);
    assert!(Aspect::wireframe_patterns_tables()[2].sql.contains("vector_location"));
    assert_eq!(Aspect::wireframe_dictionary_tables().len(), 4);
}

#[test]
fn names_are_kept_in_order_and_once() {
    let mut names = Names::new();
    for name in ["pear", "apple", "plum", "apple"] {
        names.insert(name);
    }
    assert_eq!(names.names(), vec!["apple".to_string(), "pear".to_string(), "plum".to_string()]);
    names.remove("pear");
    names.remove("absent");
    assert!(!names.contains("pear") && names.contains("plum"));
    assert_eq!(standing("a", "ab"), Standing::Before);
    assert_eq!(standing("b", "ab"), Standing::Behind);
    assert_eq!(standing("ab", "ab"), Standing::Same);
}

#[test]
fn a_table_holds_one_value_for_a_key() {
    let mut table: Table<i64, &str> = Table::new();
    table.insert(1, "a");
    table.insert(2, "b");
    table.insert(1, "c");
    assert_eq!(table.len(), 2);
    assert_eq!(table.get(&1), Some(&"c"));
    assert_eq!(table.remove(&2), Some("b"));
    assert_eq!(table.remove(&2), None);
    assert!(table.contains_key(&1) && !table.is_empty());
}

#[test]
fn databases_know_their_subjects_and_aspects() {
    let mut info = DatabaseInfo::new("market".to_string(), "data/market".to_string());
    let mut subject = Subject::new(None, "BTCUSD".to_string(), info.id());
    let price = aspect("price");
    let id = price.info.id;
    subject.add_aspect(price);
    let subject_id = subject.id;
    info.add_subject(subject);
    assert_eq!(info.total_aspects(), 1);
    assert!(!info.is_empty());
    assert!(info.get_aspect(id).is_some());
    assert!(info.get_aspect(AspectId::new()).is_none());
    assert_eq!(info.get_subject_aspects(subject_id).unwrap().len(), 1);
    assert_eq!(
        info.get_subject_aspects(SubjectId::new()).unwrap_err().message(),
        "Database error: Subject not found"
    );
    assert_eq!(info.list_subjects(), vec![(subject_id, "BTCUSD".to_string())]);
    assert!(info.get_subject_by_name("BTCUSD").is_some());
    let all = vec![info];
    assert_eq!(find_databases_by_name(&all, "mark").len(), 1);
    assert_eq!(find_database_by_name(&all, "market"), Some(all[0].id()));
    assert_eq!(find_database_by_name(&all, "mark"), None);
    assert_eq!(get_all_database_info(&all)[0].2, "data/market");
}

#[test]
fn the_metadata_is_read_or_missed() {
    assert_eq!(db_name(Some(Ok("market".to_string()))).unwrap(), "market");
    assert_eq!(db_name(None).unwrap_err().message(), "Database name not found in metadata");
    assert_eq!(db_metadata_path(None).unwrap_err().message(), "Database metadata path not found in metadata");
    assert_eq!(
        get_database_metadata_path(Some(Err("bad".to_string()))).unwrap_err().message(),
        "bad"
    );
    assert_eq!(get_subject_name(Ok(None)).unwrap_err().message(), "Subject not found");
    assert_eq!(
        get_subject_name(Err("locked".to_string())).unwrap_err().message(),
        "SQL execution failure 3: in get_subject_name: `locked`"
    );
    assert_eq!(execution_failure("", "x").message(), "SQL execution failure: `x`");
    let id = AspectId { value: 0 };
    assert_eq!(
        done_for_aspect("Cleared", &id),
        "Cleared for aspect 00000000-0000-0000-0000-000000000000"
    );
}

#[test]
fn table_names_are_made_safe() {
    assert_eq!(sanitize_table_name("BTC-USD price"), "BTC_USD_price");
    assert_eq!(sanitize_table_name("Größe 1"), "Größe_1");
    let once = sanitize_table_name("a;b");
    assert_eq!(sanitize_table_name(&once), once);
    let subject = SubjectId { value: 0 };
    assert!(table_name(&subject, "my-price").ends_with("_my_price"));
}

#[test]
fn a_subject_or_aspect_is_tracked_once() {
    let owner = DatabaseId::new();
    let subject = SubjectId::new();
    assert!(observe_subject("BTCUSD", false, &subject, &owner, 1).is_ok());
    assert!(observe_subject("BTCUSD", true, &subject, &owner, 1).is_err());
    let taken = vec!["price".to_string()];
    let id = AspectId::new();
    assert!(track_aspect(&taken, &id, &subject, "BTCUSD", &owner, "price", "\"Hours\"", 1).is_err());
    assert!(track_aspect(&taken, &id, &subject, "BTCUSD", &owner, "volume", "\"Hours\"", 1).is_ok());
}

#[test]
fn rows_of_the_metadata_are_checked() {
    let text = |s: &str| SqlValue::Text(s.to_string());
    assert!(parse_subject_row(&vec![text("nonsense"), text("BTCUSD"), text("nonsense")]).is_err());
    assert_eq!(parse_count(Some(&vec![SqlValue::Integer(12)])).unwrap(), 12);
    assert_eq!(parse_count(None).unwrap(), 0);
    assert!(parse_count(Some(&vec![text("x")])).is_err());
    assert_eq!(parse_instant_row(&vec![text("")], "Created").unwrap(), None);
    assert_eq!(
        parse_instant_row(&vec![text("1970-01-01T00:00:02Z")], "Created").unwrap(),
        Some(Timestamp { seconds: 2, nanos: 0 })
    );
    assert!(parse_instant_row(&vec![text("soon")], "Created").is_err());
    assert_eq!(parse_millis_row(&vec![text("2000")]), Some(Timestamp { seconds: 2, nanos: 0 }));
    assert_eq!(parse_millis_row(&vec![SqlValue::Integer(2000)]), None);
    assert_eq!(parse_resolution_row(&vec![text("Hours")]).unwrap(), Some(Resolution::Hours));
    assert_eq!(parse_resolution_row(&vec![SqlValue::Null]).unwrap(), None);
    assert!(parse_resolution_row(&vec![text("hours")]).is_err());
}
