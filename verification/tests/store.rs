use bisect_pipeline::bisect::{BisectStatus, Bisection};
use bisect_pipeline::db::{
    add_bisection, decode_row, decode_rows, found, get_bisection, get_bisections, listed, setup,
    status_from_sql, status_to_sql, update_bisection_status, written, RowError, StoreError,
    StoredRow,
};
use rusqlite::Connection;

fn store() -> Connection {
    let conn = Connection::open_in_memory().unwrap();
    setup(&conn).unwrap();
    conn
}

fn record(id: u128, code: &str, status: BisectStatus) -> Bisection {
    Bisection { id, code: code.to_string(), status }
}

fn row(id: u128, status: i32, output: Option<&str>) -> StoredRow {
    StoredRow { id, code: "code".to_string(), status, output: output.map(|o| o.to_string()) }
}

#[test]
fn status_to_sql_gives_number_and_text() {
    assert_eq!(status_to_sql(&BisectStatus::InProgress), (0, None));
    assert_eq!(status_to_sql(&BisectStatus::Error { output: "bad".to_string() }), (1, Some("bad")));
    assert_eq!(status_to_sql(&BisectStatus::Success { output: "good".to_string() }), (2, Some("good")));
}

#[test]
fn status_from_sql_reads_number_and_text() {
    assert_eq!(status_from_sql(0, None), Ok(BisectStatus::InProgress));
    assert_eq!(status_from_sql(0, Some("left over".to_string())), Ok(BisectStatus::InProgress));
    assert_eq!(
        status_from_sql(1, Some("bad".to_string())),
        Ok(BisectStatus::Error { output: "bad".to_string() })
    );
    assert_eq!(
        status_from_sql(2, Some("good".to_string())),
        Ok(BisectStatus::Success { output: "good".to_string() })
    );
    assert_eq!(status_from_sql(1, None), Err(RowError::MissingOutput));
    assert_eq!(status_from_sql(2, None), Err(RowError::MissingOutput));
    assert_eq!(status_from_sql(3, Some("x".to_string())), Err(RowError::UnknownStatus(3)));
    assert_eq!(status_from_sql(-1, None), Err(RowError::UnknownStatus(-1)));
}

#[test]
fn every_status_comes_back_from_its_row() {
    let statuses = [
        BisectStatus::InProgress,
        BisectStatus::Error { output: "e".to_string() },
        BisectStatus::Success { output: String::new() },
    ];
    for status in statuses {
        let (number, text) = status_to_sql(&status);
        assert_eq!(status_from_sql(number as i32, text.map(|t| t.to_string())), Ok(status.clone()));
    }
}

#[test]
fn decode_row_builds_the_record() {
    assert_eq!(
        decode_row(&row(7, 2, Some("done"))),
        Ok(record(7, "code", BisectStatus::Success { output: "done".to_string() }))
    );
    assert_eq!(decode_row(&row(7, 9, Some("done"))), Err(RowError::UnknownStatus(9)));
}

#[test]
fn decode_rows_keeps_the_order_and_stops_at_the_first_bad_row() {
    let rows = vec![row(1, 0, None), row(2, 1, Some("e")), row(3, 2, Some("s"))];
    assert_eq!(
        decode_rows(&rows),
        Ok(vec![
            record(1, "code", BisectStatus::InProgress),
            record(2, "code", BisectStatus::Error { output: "e".to_string() }),
            record(3, "code", BisectStatus::Success { output: "s".to_string() }),
        ])
    );
    let rows = vec![row(1, 0, None), row(2, 1, None), row(3, 5, None)];
    assert_eq!(decode_rows(&rows), Err(RowError::MissingOutput));
    assert_eq!(decode_rows(&Vec::new()), Ok(Vec::new()));
}

#[test]
fn written_listed_and_found_pass_the_error_of_the_database_on() {
    assert!(matches!(written(Ok(1)), Ok(())));
    assert!(matches!(
        written(Err(rusqlite::Error::InvalidQuery)),
        Err(StoreError::Engine(rusqlite::Error::InvalidQuery))
    ));
    assert!(matches!(
        listed(Err(rusqlite::Error::QueryReturnedNoRows)),
        Err(StoreError::Engine(rusqlite::Error::QueryReturnedNoRows))
    ));
    assert!(matches!(
        found(Err(rusqlite::Error::InvalidQuery)),
        Err(StoreError::Engine(rusqlite::Error::InvalidQuery))
    ));
}

#[test]
fn found_looks_at_the_first_row() {
    assert!(matches!(found(Ok(Vec::new())), Ok(None)));
    let r = found(Ok(vec![row(1, 0, None), row(2, 9, None)])).unwrap();
    assert_eq!(r, Some(record(1, "code", BisectStatus::InProgress)));
    assert!(matches!(
        found(Ok(vec![row(2, 9, None), row(1, 0, None)])),
        Err(StoreError::Row(RowError::UnknownStatus(9)))
    ));
    assert!(matches!(
        listed(Ok(vec![row(1, 0, None), row(2, 1, None)])),
        Err(StoreError::Row(RowError::MissingOutput))
    ));
}

#[test]
fn unknown_identifier_gives_nothing() {
    let conn = store();
    assert!(matches!(get_bisection(&conn, 42), Ok(None)));
    add_bisection(&conn, &record(1, "a", BisectStatus::InProgress)).unwrap();
    assert!(matches!(get_bisection(&conn, 42), Ok(None)));
}

#[test]
fn empty_store_lists_nothing() {
    let conn = store();
    assert_eq!(get_bisections(&conn).unwrap(), Vec::new());
}

#[test]
fn setup_twice_is_fine() {
    let conn = store();
    setup(&conn).unwrap();
    add_bisection(&conn, &record(1, "a", BisectStatus::InProgress)).unwrap();
    setup(&conn).unwrap();
    assert_eq!(get_bisections(&conn).unwrap().len(), 1);
}

#[test]
fn inserted_record_is_found() {
    let conn = store();
    let id = 0x0123_4567_89ab_cdef_0123_4567_89ab_cdef_u128;
    let inserted = record(id, "fn main() {}", BisectStatus::InProgress);
    add_bisection(&conn, &inserted).unwrap();
    assert_eq!(get_bisection(&conn, id).unwrap(), Some(inserted.clone()));
    assert_eq!(get_bisections(&conn).unwrap(), vec![inserted]);
}

#[test]
fn second_insert_with_the_same_identifier_fails() {
    let conn = store();
    add_bisection(&conn, &record(5, "first", BisectStatus::InProgress)).unwrap();
    let r = add_bisection(&conn, &record(5, "second", BisectStatus::InProgress));
    assert!(matches!(r, Err(StoreError::Engine(_))));
    assert_eq!(
        get_bisections(&conn).unwrap(),
        vec![record(5, "first", BisectStatus::InProgress)]
    );
}

#[test]
fn update_rewrites_only_the_status() {
    let conn = store();
    add_bisection(&conn, &record(1, "one", BisectStatus::InProgress)).unwrap();
    add_bisection(&conn, &record(2, "two", BisectStatus::InProgress)).unwrap();
    let done = record(1, "ignored", BisectStatus::Success { output: "searched nightlies: x".to_string() });
    update_bisection_status(&conn, &done).unwrap();
    assert_eq!(
        get_bisection(&conn, 1).unwrap(),
        Some(record(1, "one", BisectStatus::Success { output: "searched nightlies: x".to_string() }))
    );
    assert_eq!(get_bisection(&conn, 2).unwrap(), Some(record(2, "two", BisectStatus::InProgress)));
    let failed = record(2, "two", BisectStatus::Error { output: "line a\nline b".to_string() });
    update_bisection_status(&conn, &failed).unwrap();
    assert_eq!(get_bisection(&conn, 2).unwrap(), Some(failed));
}

#[test]
fn update_of_an_unknown_identifier_changes_nothing() {
    let conn = store();
    add_bisection(&conn, &record(1, "one", BisectStatus::InProgress)).unwrap();
    update_bisection_status(&conn, &record(9, "x", BisectStatus::Error { output: "e".to_string() }))
        .unwrap();
    assert_eq!(get_bisections(&conn).unwrap(), vec![record(1, "one", BisectStatus::InProgress)]);
}

#[test]
fn update_is_not_conditioned_on_the_stored_status() {
    let conn = store();
    add_bisection(&conn, &record(1, "one", BisectStatus::Error { output: "e".to_string() })).unwrap();
    update_bisection_status(&conn, &record(1, "one", BisectStatus::Success { output: "s".to_string() }))
        .unwrap();
    assert_eq!(
        get_bisection(&conn, 1).unwrap(),
        Some(record(1, "one", BisectStatus::Success { output: "s".to_string() }))
    );
}

#[test]
fn listing_gives_every_record() {
    let conn = store();
    let a = record(1, "a", BisectStatus::InProgress);
    let b = record(2, "b", BisectStatus::Error { output: "bad".to_string() });
    let c = record(3, "c", BisectStatus::Success { output: "good".to_string() });
    add_bisection(&conn, &a).unwrap();
    add_bisection(&conn, &b).unwrap();
    add_bisection(&conn, &c).unwrap();
    let mut all = get_bisections(&conn).unwrap();
    all.sort_by_key(|r| r.id);
    assert_eq!(all, vec![a, b, c]);
}

#[test]
fn a_row_with_an_unknown_status_fails_the_reading() {
    let conn = store();
    conn.execute(
        "INSERT INTO bisect (job_id, code, status, stdout_stderr) VALUES (?1, 'code', 7, NULL)",
        [uuid::Uuid::from_u128(3)],
    )
    .unwrap();
    assert!(matches!(
        get_bisections(&conn),
        Err(StoreError::Row(RowError::UnknownStatus(7)))
    ));
    assert!(matches!(
        get_bisection(&conn, 3),
        Err(StoreError::Row(RowError::UnknownStatus(7)))
    ));
}

#[test]
fn a_store_without_its_table_fails() {
    let conn = Connection::open_in_memory().unwrap();
    assert!(matches!(get_bisections(&conn), Err(StoreError::Engine(_))));
    assert!(matches!(get_bisection(&conn, 1), Err(StoreError::Engine(_))));
    let r = add_bisection(&conn, &record(1, "a", BisectStatus::InProgress));
    assert!(matches!(r, Err(StoreError::Engine(_))));
    let r = update_bisection_status(&conn, &record(1, "a", BisectStatus::InProgress));
    assert!(matches!(r, Err(StoreError::Engine(_))));
}

#[test]
fn errors_in_words() {
    assert_eq!(StoreError::Row(RowError::UnknownStatus(7)).message(), "unknown status in database");
    assert_eq!(StoreError::Row(RowError::MissingOutput).message(), "status without output in database");
    assert_eq!(
        StoreError::Engine(rusqlite::Error::InvalidQuery).message(),
        rusqlite::Error::InvalidQuery.to_string()
    );
}
