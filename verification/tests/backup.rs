use pattern_database::backup::{
    check_restore, control_plane_files, count_query, count_rows, is_engine_internal, scan_query, scan_row, tables_query,
    user_tables, vacuum_into, verify_against_source, verify_snapshot, RestoreFile, VerifyMode,
};
use pattern_database::error::Error;
use pattern_database::sql::SqlValue;

fn value(v: turso::Value) -> SqlValue {
    match v {
        turso::Value::Null => SqlValue::Null,
        turso::Value::Integer(n) => SqlValue::Integer(n),
        turso::Value::Real(x) => SqlValue::Real(x.to_string()),
        turso::Value::Text(s) => SqlValue::Text(s),
        turso::Value::Blob(b) => SqlValue::Blob(b),
    }
}

async fn seed_db(path: &str) -> turso::Connection {
    let db = turso::Builder::new_local(path).build().await.unwrap();
    let conn = db.connect().unwrap();
    let none: Vec<turso::Value> = Vec::new();
    conn.execute("CREATE TABLE widget (id INTEGER PRIMARY KEY, name TEXT)", none.clone()).await.unwrap();
    conn.execute("CREATE TABLE gadget (id INTEGER PRIMARY KEY, qty INTEGER)", none).await.unwrap();
    for i in 0..7i64 {
        let params = vec![turso::Value::Integer(i), turso::Value::Text(format!("w{i}"))];
        conn.execute("INSERT INTO widget (id, name) VALUES (?, ?)", params).await.unwrap();
    }
    for i in 0..3i64 {
        let params = vec![turso::Value::Integer(i), turso::Value::Integer(i * 10)];
        conn.execute("INSERT INTO gadget (id, qty) VALUES (?, ?)", params).await.unwrap();
    }
    conn
}

async fn column(conn: &turso::Connection, sql: &str) -> Vec<SqlValue> {
    let none: Vec<turso::Value> = Vec::new();
    let mut rows = conn.query(sql, none).await.unwrap();
    let mut values = Vec::new();
    while let Some(row) = rows.next().await.unwrap() {
        values.push(value(row.get_value(0).unwrap()));
    }
    values
}

async fn tables_of(conn: &turso::Connection) -> Vec<String> {
    let values = column(conn, tables_query()).await;
    let shown: Vec<String> = values.iter().map(|v| format!("{v:?}")).collect();
    user_tables(&values, &shown).unwrap()
}

async fn counted(conn: &turso::Connection, table: &str) -> i64 {
    let values = column(conn, &count_query(table)).await;
    count_rows(table, values.first(), "").unwrap()
}

async fn scanned(conn: &turso::Connection, table: &str) -> i64 {
    let none: Vec<turso::Value> = Vec::new();
    let mut rows = conn.query(scan_query(table), none).await.unwrap();
    let mut count = 0;
    while let Some(row) = rows.next().await.unwrap() {
        let columns = (0..row.column_count()).map(|i| row.get_value(i).map(value).map_err(|e| e.to_string()));
        count = scan_row(count, &columns.collect()).unwrap();
    }
    count
}

fn run<T>(work: impl std::future::Future<Output = T>) -> T {
    tokio::runtime::Builder::new_current_thread().enable_all().build().unwrap().block_on(work)
}

#[test]
fn user_tables_lists_user_tables_in_order() {
    run(async {
        let conn = seed_db(":memory:").await;
        let tables = tables_of(&conn).await;
        assert_eq!(tables, vec!["gadget".to_string(), "widget".to_string()]);
    });
}

#[test]
fn count_rows_counts_each_table() {
    run(async {
        let conn = seed_db(":memory:").await;
        assert_eq!(counted(&conn, "widget").await, 7);
        assert_eq!(counted(&conn, "gadget").await, 3);
    });
}

#[test]
fn scan_rows_reads_every_row_of_a_table() {
    run(async {
        let conn = seed_db(":memory:").await;
        assert_eq!(scanned(&conn, "widget").await, 7);
        assert_eq!(scanned(&conn, "gadget").await, 3);
        assert_eq!(scanned(&conn, "widget").await, counted(&conn, "widget").await);
    });
}

#[test]
fn a_row_that_cannot_be_read_fails_the_scan() {
    let damaged = vec![Ok(SqlValue::Integer(1)), Err("torn page".to_string()), Err("later".to_string())];
    assert_eq!(scan_row(4, &damaged).unwrap_err().message(), "torn page");
    assert_eq!(scan_row(4, &vec![Ok(SqlValue::Null)]).unwrap(), 5);
}

fn fresh_path(name: &str) -> String {
    format!("/tmp/{}-{name}", uuid::Uuid::new_v4())
}

async fn open(path: &str) -> turso::Connection {
    turso::Builder::new_local(path).build().await.unwrap().connect().unwrap()
}

async fn vacuum(conn: &turso::Connection, dest: &str) {
    let exists = std::path::Path::new(dest).exists();
    let sql = vacuum_into(Some(dest), dest, exists).unwrap();
    let none: Vec<turso::Value> = Vec::new();
    conn.execute(&sql, none).await.unwrap();
}

fn size_of(path: &str) -> u64 {
    std::path::Path::new(path).metadata().unwrap().len()
}

async fn counts(conn: &turso::Connection, tables: &Vec<String>) -> Vec<i64> {
    let mut counts = Vec::new();
    for table in tables {
        counts.push(counted(conn, table).await);
    }
    counts
}

#[test]
fn snapshot_and_verify_matches_and_reports() {
    run(async {
        let conn = seed_db(&fresh_path("src.db")).await;
        let dest = fresh_path("backup.db");
        vacuum(&conn, &dest).await;
        let copy = open(&dest).await;
        let source_tables = tables_of(&conn).await;
        let copy_tables = tables_of(&copy).await;
        let report = verify_against_source(
            dest.clone(),
            &source_tables,
            &copy_tables,
            &counts(&conn, &source_tables).await,
            &counts(&copy, &copy_tables).await,
            size_of(&dest),
        )
        .unwrap();
        assert_eq!(report.dest, dest);
        assert_eq!(report.tables, 2);
        assert_eq!(report.rows, 10, "7 widgets + 3 gadgets");
        assert!(std::path::Path::new(&dest).exists(), "backup file was written");
        assert_eq!(report.bytes, size_of(&dest), "reported bytes match the file");
        assert!(report.bytes > 0, "a non-empty snapshot");
        assert_eq!(counted(&copy, "widget").await, 7);
        assert_eq!(counted(&copy, "gadget").await, 3);
    });
}

async fn verified(dest: &str) -> pattern_database::backup::SnapshotReport {
    let copy = open(dest).await;
    let mut rows = Vec::new();
    for table in tables_of(&copy).await {
        rows.push(scanned(&copy, &table).await);
    }
    verify_snapshot(dest.to_string(), &rows, size_of(dest))
}

#[test]
fn snapshot_only_verifies_the_copy_without_reading_the_source() {
    run(async {
        let conn = seed_db(&fresh_path("src.db")).await;
        let dest = fresh_path("online.db");
        vacuum(&conn, &dest).await;
        let report = verified(&dest).await;
        assert_eq!(report.mode, VerifyMode::SnapshotOnly);
        assert_eq!(report.tables, 2);
        assert_eq!(report.rows, 10, "the copy's own rows, scanned out of the snapshot");
        assert!(report.bytes > 0);
    });
}

#[test]
fn snapshot_only_survives_a_source_that_grows_after_the_vacuum() {
    run(async {
        let conn = seed_db(&fresh_path("src.db")).await;
        let online = fresh_path("online.db");
        vacuum(&conn, &online).await;
        for i in 100..110i64 {
            let params = vec![turso::Value::Integer(i), turso::Value::Text(format!("late{i}"))];
            conn.execute("INSERT INTO widget (id, name) VALUES (?, ?)", params).await.unwrap();
        }
        let report = verified(&online).await;
        assert_eq!(report.rows, 10, "the snapshot holds its point-in-time image, not the grown source");
        assert_eq!(counted(&conn, "widget").await, 17, "the source really did move on");

        let stale = fresh_path("stale.db");
        vacuum(&conn, &stale).await;
        let copy = open(&stale).await;
        let tables = tables_of(&conn).await;
        let err = verify_against_source(
            stale.clone(),
            &tables,
            &tables_of(&copy).await,
            &counts(&conn, &tables).await,
            &counts(&copy, &tables).await,
            size_of(&stale),
        );
        assert!(err.is_ok(), "a fresh vacuum of the settled source still matches: {err:?}");
    });
}

#[test]
fn vacuum_into_refuses_an_existing_destination() {
    let err = vacuum_into(Some("exists.db"), "exists.db", true).unwrap_err();
    assert!(err.message().contains("already exists"), "got: {}", err.message());
}

#[test]
fn a_destination_is_quoted_and_must_be_unicode() {
    assert_eq!(vacuum_into(Some("it's.db"), "", false).unwrap(), "VACUUM INTO 'it''s.db'");
    assert_eq!(
        vacuum_into(None, "?.db", false).unwrap_err().message(),
        "backup destination is not valid UTF-8: ?.db"
    );
}

#[test]
fn answers_that_are_no_counts_are_refused() {
    assert_eq!(
        count_rows("t", None, "").unwrap_err().message(),
        "COUNT(*) over \"t\" returned no row"
    );
    assert_eq!(
        count_rows("t", Some(&SqlValue::Null), "Null").unwrap_err().message(),
        "COUNT(*) over \"t\" was not an integer: Null"
    );
    assert_eq!(count_query("a\"b"), "SELECT COUNT(*) FROM \"a\"\"b\"");
    let odd = vec![SqlValue::Text("t".to_string()), SqlValue::Integer(1)];
    let shown = vec![String::new(), "Integer(1)".to_string()];
    assert_eq!(
        user_tables(&odd, &shown).unwrap_err().message(),
        "sqlite_master.name was not text: Integer(1)"
    );
    assert!(is_engine_internal("sqlite_sequence") && !is_engine_internal("widget"));
}

#[test]
fn a_copy_that_differs_is_refused() {
    let both = vec!["a".to_string(), "b".to_string()];
    let one = vec!["a".to_string()];
    let differs: Result<_, Error> =
        verify_against_source("d".to_string(), &both, &one, &vec![1, 2], &vec![1], 9);
    assert!(differs.is_err());
    let fewer = verify_against_source("d".to_string(), &both, &both, &vec![1, 2], &vec![1, 1], 9);
    assert!(fewer.is_err());
    let same = verify_against_source("d".to_string(), &both, &both, &vec![1, 2], &vec![1, 2], 9).unwrap();
    assert_eq!(same.mode, VerifyMode::SourceMatch);
    assert_eq!(same.rows, 3);
}

#[test]
fn a_restore_needs_every_file_and_a_fresh_root() {
    let files = |in_backup: bool, in_root: bool| -> Vec<RestoreFile> {
        control_plane_files().iter().map(|_| RestoreFile { in_backup, in_root }).collect()
    };
    assert!(check_restore("backup", "root", &files(true, false)).is_ok());
    let missing = check_restore("backup", "root", &files(false, false)).unwrap_err().message();
    assert!(missing.contains("is missing"), "{missing}");
    let taken = check_restore("backup", "root", &files(true, true)).unwrap_err().message();
    assert!(taken.contains("already exists"), "{taken}");
}
