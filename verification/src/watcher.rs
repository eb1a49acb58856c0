use vstd::prelude::*;

use crate::drain::{drain_batch_ok, drain_into, has_id, id_set, strictly_ascending};
use crate::record::Quote;
use crate::seen::SeenTracker;

verus! {

/// rusqlite's database connection handle, carried opaquely.
#[verifier::external_type_specification]
#[verifier::external_body]
pub struct ExConnection(rusqlite::Connection);

/// rusqlite's error type, carried opaquely out of the trusted wrappers and
/// mapped to `WatcherError` before anything verified looks at a result.
#[verifier::external_type_specification]
#[verifier::external_body]
pub struct ExSqlError(rusqlite::Error);

/// What a successful drain guarantees, without naming the snapshot the
/// store handed back: for some snapshot sequence, the returned batch is a
/// correct drain batch of it against the old seen set, and the new seen set
/// is the old one united with the snapshot's ids.
pub open spec fn drained_ok(seen0: Set<i64>, seen1: Set<i64>, out: Seq<Quote>) -> bool {
    exists|snapshot: Seq<Quote>|
        #[trigger] drain_batch_ok(snapshot, seen0, out) && seen1 == seen0.union(id_set(snapshot))
}

/// What a successful startup guarantees, without naming the snapshot the
/// store handed back: the watcher's seen set is exactly the id set of some
/// snapshot sequence, and a drain of a store still in that state delivers
/// nothing — records that pre-exist at startup are never forwarded.
pub open spec fn initialized_ok(seen: Set<i64>) -> bool {
    exists|snapshot: Seq<Quote>|
        seen == #[trigger] id_set(snapshot) && drain_batch_ok(
            snapshot,
            seen,
            Seq::<Quote>::empty(),
        )
}

/// Why the store-backed watcher failed. Every variant is fatal for the
/// worker: it is surfaced to the supervisor, never retried here.
#[derive(Debug, PartialEq, Eq, Structural)]
pub enum WatcherError {
    /// Opening the in-memory working database failed.
    OpenFailed,
    /// Attaching the quotes database read-only failed.
    AttachFailed,
    /// Reading a snapshot of the quotes table failed.
    QueryFailed,
}

/// Relies on rusqlite::Connection::open_in_memory: opens a fresh private
/// in-memory SQLite database, or reports the underlying error.
#[verifier::external_body]
fn open_memory_db() -> (r: Result<rusqlite::Connection, rusqlite::Error>) {
    rusqlite::Connection::open_in_memory()
}

/// Relies on rusqlite::Connection::execute, here running one ATTACH
/// statement that mounts the database file at `db_path` read-only under the
/// schema name `quotes`.
#[verifier::external_body]
fn attach_read_only(conn: &rusqlite::Connection, db_path: &str) -> (r: Result<
    (),
    rusqlite::Error,
>) {
    let uri = format!("file:{}?mode=ro", db_path);
    match conn.execute("ATTACH DATABASE ?1 as quotes", [uri]) {
        Ok(_) => Ok(()),
        Err(e) => Err(e),
    }
}

/// Relies on rusqlite::Connection::prepare and
/// rusqlite::Statement::query_map running
/// `SELECT id, quote, tags FROM quotes.quotes`: one statement, hence one
/// consistent read, returning one record per row of the quotes table, or
/// the first underlying error. Row order is whatever SQLite yields.
#[verifier::external_body]
fn query_snapshot(conn: &rusqlite::Connection) -> (r: Result<Vec<Quote>, rusqlite::Error>) {
    let mut stmt = match conn.prepare("SELECT id, quote, tags FROM quotes.quotes") {
        Ok(stmt) => stmt,
        Err(e) => return Err(e),
    };
    let rows = match stmt.query_map(
        [],
        |row| Ok(Quote { id: row.get(0)?, text: row.get(1)?, tags: row.get(2)? }),
    ) {
        Ok(rows) => rows,
        Err(e) => return Err(e),
    };
    rows.collect()
}

/// The query worker's store access: an in-memory working connection with
/// the external quotes database attached read-only, plus the set of already
/// observed record ids. Owned and used by exactly one worker.
pub struct QuoteWatcher {
    conn: rusqlite::Connection,
    seen: SeenTracker,
}

impl QuoteWatcher {
    /// The ids this watcher has already observed.
    pub closed spec fn seen_ids(&self) -> Set<i64> {
        self.seen@
    }

    /// Opens the store at `db_path` and marks every record currently in it
    /// as already seen: the seen set starts as exactly the id set of the
    /// snapshot read here, so records that pre-exist at startup are
    /// intentionally never delivered. Any store failure — open, attach, or
    /// the initializing read — is startup-fatal and reported as the
    /// matching error; whether one occurs depends on the store alone.
    pub fn new(db_path: &str) -> (r: Result<QuoteWatcher, WatcherError>)
        ensures
            r matches Ok(w) ==> initialized_ok(w.seen_ids()),
    {
        let conn = match open_memory_db() {
            Ok(conn) => conn,
            Err(_) => {
                return Err(WatcherError::OpenFailed);
            },
        };
        match attach_read_only(&conn, db_path) {
            Ok(_) => (),
            Err(_) => {
                return Err(WatcherError::AttachFailed);
            },
        };
        let snapshot = match query_snapshot(&conn) {
            Ok(snapshot) => snapshot,
            Err(_) => {
                return Err(WatcherError::QueryFailed);
            },
        };
        let seen = SeenTracker::from_snapshot(&snapshot);
        proof {
            assert(seen@ == id_set(snapshot@));
            assert forall|id: i64| #[trigger] has_id(snapshot@, id) && !seen@.contains(
                id,
            ) implies has_id(Seq::<Quote>::empty(), id) by {
                assert(id_set(snapshot@).contains(id));
            }
            assert(drain_batch_ok(snapshot@, seen@, Seq::<Quote>::empty()));
            assert(initialized_ok(seen@));
        }
        Ok(QuoteWatcher { conn, seen })
    }

    /// Whether `id` has already been observed.
    pub fn has_seen(&self, id: i64) -> (r: bool)
        ensures
            r == self.seen_ids().contains(id),
    {
        self.seen.contains(id)
    }

    /// One drain. Reads one snapshot of the store in a single consistent
    /// query; on success the returned batch is exactly the snapshot's
    /// not-yet-seen records in strictly ascending id order, and the whole
    /// snapshot's id set is merged into the seen set. On failure nothing is
    /// delivered and the seen set is unchanged. The seen set never shrinks.
    pub fn get_new_and_update_seen(&mut self) -> (r: Result<Vec<Quote>, WatcherError>)
        ensures
            old(self).seen_ids().subset_of(final(self).seen_ids()),
            r matches Ok(out) ==> drained_ok(old(self).seen_ids(), final(self).seen_ids(), out@)
                && strictly_ascending(out@),
            r matches Err(e) ==> final(self).seen_ids() == old(self).seen_ids() && e
                == WatcherError::QueryFailed,
    {
        let snapshot = match query_snapshot(&self.conn) {
            Ok(snapshot) => snapshot,
            Err(_) => {
                return Err(WatcherError::QueryFailed);
            },
        };
        let ghost snap_view = snapshot@;
        let out = drain_into(&mut self.seen, snapshot);
        proof {
            assert(drain_batch_ok(snap_view, old(self).seen_ids(), out@));
            assert(self.seen_ids() == old(self).seen_ids().union(id_set(snap_view)));
            assert(drained_ok(old(self).seen_ids(), self.seen_ids(), out@));
        }
        Ok(out)
    }
}

} // verus!
