//! The persistent frame store: a single table keyed by (absolute path,
//! modification-time fingerprint, sample instant) holding raw compressed
//! image bytes. Exact-match lookup only; writes are upserts and best-effort —
//! a failed write must never fail an extraction, only force a recompute.

use vstd::prelude::*;

verus! {

/// Declares sqlite's connection handle so the store can hold one; relied on
/// as an opaque value.
#[verifier::external_type_specification]
#[verifier::external_body]
pub struct ExConnection(rusqlite::Connection);

/// Declares sqlite's error type; carried out of the trusted calls and mapped
/// to the library's own error.
#[verifier::external_type_specification]
#[verifier::external_body]
pub struct ExSqlError(rusqlite::Error);

/// The entries a store connection's table holds: each (path, fingerprint,
/// instant) key maps to the bytes last written under it.
pub uninterp spec fn cache_entries(conn: rusqlite::Connection) -> Map<
    (Seq<char>, u64, u64),
    Seq<u8>,
>;

/// The empty store contents.
pub open spec fn empty_entries() -> Map<(Seq<char>, u64, u64), Seq<u8>> {
    Map::empty()
}

/// Why the store could not be set up.
#[derive(Debug, PartialEq, Eq)]
pub enum CacheError {
    /// The underlying storage refused to open or create the table.
    Storage,
}

/// Relies on rusqlite's `Connection::open_in_memory`: a fresh in-memory
/// database holds no tables and so no entries.
#[verifier::external_body]
fn open_in_memory_conn() -> (r: Result<rusqlite::Connection, rusqlite::Error>)
    ensures
        r matches Ok(conn) ==> cache_entries(conn) == empty_entries(),
{
    rusqlite::Connection::open_in_memory()
}

/// Relies on `Connection::execute_batch` to create the cache table when it
/// is missing; creating an empty table adds no entries, so the entries of
/// `conn` are whatever the table already persisted.
#[verifier::external_body]
fn create_cache_table(conn: &rusqlite::Connection) -> (r: Result<(), rusqlite::Error>) {
    conn.execute_batch(
        "CREATE TABLE IF NOT EXISTS frame_cache (
            file_path TEXT NOT NULL,
            file_modified INTEGER NOT NULL,
            instant_ms INTEGER NOT NULL,
            frame_image BLOB NOT NULL,
            PRIMARY KEY (file_path, file_modified, instant_ms)
        );",
    )
}

/// The frame store. Constructed once per process and handed to every
/// consumer; the application guards it with its own lock, held only across
/// one lookup or one upsert, never across decoder work.
pub struct FrameCache {
    conn: rusqlite::Connection,
}

impl FrameCache {
    /// The entries the store currently holds.
    pub closed spec fn entries(self) -> Map<(Seq<char>, u64, u64), Seq<u8>> {
        cache_entries(self.conn)
    }

    /// Opens a fresh, empty in-memory store.
    pub fn new_in_memory() -> (r: Result<FrameCache, CacheError>)
        ensures
            r matches Ok(c) ==> c.entries() == empty_entries(),
    {
        let conn = match open_in_memory_conn() {
            Ok(conn) => conn,
            Err(_) => {
                return Err(CacheError::Storage);
            },
        };
        match create_cache_table(&conn) {
            Ok(_) => Ok(FrameCache { conn }),
            Err(_) => Err(CacheError::Storage),
        }
    }

    /// Wraps a connection the application has already opened (for the
    /// on-disk database) and makes sure the cache table exists. Whatever the
    /// table already persisted stays.
    pub fn from_connection(conn: rusqlite::Connection) -> (r: Result<FrameCache, CacheError>)
        ensures
            r matches Ok(c) ==> c.entries() == cache_entries(conn),
    {
        match create_cache_table(&conn) {
            Ok(_) => Ok(FrameCache { conn }),
            Err(_) => Err(CacheError::Storage),
        }
    }

    /// Exact-match lookup. Relies on `Connection::query_row` over a SELECT
    /// on the full primary key: a row comes back only for exactly this key,
    /// holding the bytes stored under it; read failures surface as a miss.
    /// The integer key parts are bound through a bit-preserving cast, which
    /// keeps distinct keys distinct.
    #[verifier::external_body]
    pub fn get_cached_frame(&self, path: &str, modified: u64, instant_ms: u64) -> (r: Option<
        Vec<u8>,
    >)
        ensures
            r matches Some(v) ==> self.entries().contains_key((path@, modified, instant_ms))
                && v@ == self.entries()[(path@, modified, instant_ms)],
    {
        self.conn.query_row(
            "SELECT frame_image FROM frame_cache
             WHERE file_path = ?1 AND file_modified = ?2 AND instant_ms = ?3",
            (path, modified as i64, instant_ms as i64),
            |row| row.get(0),
        ).ok()
    }

    /// Upsert. Relies on `Connection::execute` with INSERT OR REPLACE on the
    /// primary key: the key now maps to these bytes, or the write failed and
    /// the store is unchanged — the failure is swallowed by design.
    #[verifier::external_body]
    pub fn store_frame(&mut self, path: &str, modified: u64, instant_ms: u64, image: &[u8])
        ensures
            final(self).entries() == old(self).entries().insert(
                (path@, modified, instant_ms),
                image@,
            ) || final(self).entries() == old(self).entries(),
    {
        let _ = self.conn.execute(
            "INSERT OR REPLACE INTO frame_cache (file_path, file_modified, instant_ms, frame_image)
             VALUES (?1, ?2, ?3, ?4)",
            (path, modified as i64, instant_ms as i64, image),
        );
    }
}

} // verus!
