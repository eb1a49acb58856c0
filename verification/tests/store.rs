use quotebot::watcher::{QuoteWatcher, WatcherError};

fn fresh_db(path: &str, rows: &[(i64, &str, Option<&str>)]) -> rusqlite::Connection {
    let conn = rusqlite::Connection::open(path).expect("open test database");
    conn.execute("DROP TABLE IF EXISTS quotes", [])
        .expect("drop old table");
    conn.execute(
        "CREATE TABLE quotes (id INTEGER PRIMARY KEY, quote TEXT NOT NULL, tags TEXT)",
        [],
    )
    .expect("create table");
    for (id, text, tags) in rows {
        insert_row(&conn, *id, text, *tags);
    }
    conn
}

fn insert_row(conn: &rusqlite::Connection, id: i64, text: &str, tags: Option<&str>) {
    let tags_sql = match tags {
        Some(t) => format!("'{}'", t),
        None => "NULL".to_string(),
    };
    let sql = format!(
        "INSERT INTO quotes (id, quote, tags) VALUES ({}, '{}', {})",
        id, text, tags_sql
    );
    conn.execute(&sql, []).expect("insert row");
}

#[test]
fn startup_marks_existing_rows_seen() {
    let path = "/tmp/quotebot_store_startup.sqlite3";
    let _writer = fresh_db(path, &[(1, "one", None), (2, "two", Some("old")), (3, "three", None)]);
    let mut watcher = QuoteWatcher::new(path).expect("open watcher");
    assert!(watcher.has_seen(1) && watcher.has_seen(2) && watcher.has_seen(3));
    assert!(!watcher.has_seen(4));
    // Nothing was appended since startup: the first drain delivers nothing.
    let batch = watcher.get_new_and_update_seen().expect("drain");
    assert!(batch.is_empty());
}

#[test]
fn appended_rows_are_delivered_once_in_order() {
    let path = "/tmp/quotebot_store_append.sqlite3";
    let writer = fresh_db(path, &[(1, "one", None)]);
    let mut watcher = QuoteWatcher::new(path).expect("open watcher");

    insert_row(&writer, 6, "six", Some("late"));
    insert_row(&writer, 4, "four", None);

    let batch = watcher.get_new_and_update_seen().expect("drain");
    let ids: Vec<i64> = batch.iter().map(|r| r.id).collect();
    assert_eq!(ids, vec![4, 6]);
    assert_eq!(batch[0].text, "four");
    assert_eq!(batch[0].tags, None);
    assert_eq!(batch[1].text, "six");
    assert_eq!(batch[1].tags, Some("late".to_string()));
    assert!(watcher.has_seen(4) && watcher.has_seen(6));

    // A second drain of the unchanged store redelivers nothing.
    let batch = watcher.get_new_and_update_seen().expect("second drain");
    assert!(batch.is_empty());
}

#[test]
fn watcher_reads_store_read_only() {
    let path = "/tmp/quotebot_store_ro.sqlite3";
    let writer = fresh_db(path, &[]);
    let mut watcher = QuoteWatcher::new(path).expect("open watcher");
    insert_row(&writer, 1, "one", None);
    let batch = watcher.get_new_and_update_seen().expect("drain");
    assert_eq!(batch.len(), 1);
    assert_eq!(batch[0].id, 1);
    assert_eq!(batch[0].text, "one");
    // The row is still in the store: the watcher only reads it.
    let count: i64 = writer
        .query_row("SELECT COUNT(*) FROM quotes", [], |row| row.get(0))
        .expect("count rows");
    assert_eq!(count, 1);
}

#[test]
fn missing_store_is_startup_fatal() {
    let err = QuoteWatcher::new("/tmp/quotebot_no_such_dir/absent.sqlite3")
        .err()
        .expect("opening a missing store must fail");
    assert_eq!(err, WatcherError::AttachFailed);
}

#[test]
fn store_without_quotes_table_fails_the_query() {
    let path = "/tmp/quotebot_store_empty.sqlite3";
    let conn = rusqlite::Connection::open(path).expect("open test database");
    conn.execute("DROP TABLE IF EXISTS quotes", [])
        .expect("drop table");
    let err = QuoteWatcher::new(path)
        .err()
        .expect("a store without the quotes table must fail");
    assert_eq!(err, WatcherError::QueryFailed);
}
