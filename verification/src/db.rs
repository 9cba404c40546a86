//! The bounded pool of read-only archive connections and the SQL queries
//! the store runs over them. Every query result depends on what the archive
//! file holds, so the wrappers promise only the shape of each outcome and
//! the verified callers handle every value.

use vstd::prelude::*;

use crate::error::{is_config, is_conn_pool, BaseError, TileError};

verus! {

/// Holds the underlying pool of read-only connections. Opaque to the
/// verifier: the pool type's generic bound is a trait of an outside crate,
/// which cannot be declared here, so the whole handle is hidden.
#[verifier::external_body]
struct PoolHandle {
    inner: r2d2::Pool<r2d2_sqlite::SqliteConnectionManager>,
}

/// One checked-out read-only connection to the archive. Opaque to the
/// verifier for the same reason as the pool handle.
#[verifier::external_body]
pub struct Connection {
    inner: r2d2::PooledConnection<r2d2_sqlite::SqliteConnectionManager>,
}

/// A bounded set of read-only connections to one archive file. The ghost
/// counter tracks how many connections are checked out and not yet
/// returned; the store's operations preserve it, which is the statement
/// that every acquire is matched by exactly one release.
pub struct ConnectionPool {
    pool: PoolHandle,
    outstanding: Ghost<nat>,
}

/// Relies on `r2d2_sqlite::SqliteConnectionManager::file` with
/// `SQLITE_OPEN_READ_ONLY` and `r2d2::Pool::builder`: builds a pool of at
/// most `max_size` connections that waits at most `timeout_ms` on
/// exhaustion, and fails when no connection can be opened at all.
/// `max_size` and `timeout_ms` must be positive: the builder asserts that
/// the size is nonzero and that the timeout is not the zero duration.
#[verifier::external_body]
fn pool_open(path: &str, max_size: u32, timeout_ms: u64) -> (r: Result<PoolHandle, String>)
    requires
        max_size >= 1,
        timeout_ms >= 1,
{
    let manager = r2d2_sqlite::SqliteConnectionManager::file(path).with_flags(
        r2d2_sqlite::rusqlite::OpenFlags::SQLITE_OPEN_READ_ONLY,
    );
    let built = r2d2::Pool::builder().max_size(max_size).connection_timeout(
        std::time::Duration::from_millis(timeout_ms),
    ).build(manager);
    match built {
        Ok(p) => Ok(PoolHandle { inner: p }),
        Err(e) => Err(e.to_string()),
    }
}

/// Relies on `r2d2::Pool::get`: checks one connection out, or fails after
/// the pool's wait bound when the pool is exhausted or broken.
#[verifier::external_body]
fn pool_get(pool: &PoolHandle) -> (r: Result<Connection, String>) {
    match pool.inner.get() {
        Ok(c) => Ok(Connection { inner: c }),
        Err(e) => Err(e.to_string()),
    }
}

/// Relies on the drop glue of `r2d2::PooledConnection`: dropping the value
/// returns the connection to its pool.
#[verifier::external_body]
fn pool_put_back(conn: Connection) {
    drop(conn);
}

impl ConnectionPool {
    /// How many connections are currently checked out of this pool.
    pub closed spec fn outstanding_count(&self) -> nat {
        self.outstanding@
    }

    /// Opens the archive at `path` read-only behind a pool of at most
    /// `max_size` connections that waits at most `timeout_ms` (a positive
    /// number of milliseconds) on exhaustion; an unusable path is a
    /// configuration error.
    pub fn open(path: &str, max_size: u32, timeout_ms: u64) -> (r: Result<
        ConnectionPool,
        BaseError,
    >)
        requires
            max_size >= 1,
            timeout_ms >= 1,
        ensures
            r matches Ok(p) ==> p.outstanding_count() == 0,
            r matches Err(e) ==> is_config(e),
    {
        match pool_open(path, max_size, timeout_ms) {
            Ok(pool) => Ok(ConnectionPool { pool, outstanding: Ghost(0) }),
            Err(m) => Err(BaseError::TileData(TileError::Config(m))),
        }
    }

    /// Checks a connection out; on exhaustion or breakage fails with a
    /// pool error and leaves the checkout count unchanged.
    pub fn acquire(&mut self) -> (r: Result<Connection, BaseError>)
        ensures
            r is Ok ==> final(self).outstanding_count() == old(self).outstanding_count() + 1,
            r matches Err(e) ==> final(self).outstanding_count() == old(self).outstanding_count()
                && is_conn_pool(e),
    {
        match pool_get(&self.pool) {
            Ok(c) => {
                self.outstanding = Ghost(self.outstanding@ + 1);
                Ok(c)
            },
            Err(m) => Err(BaseError::TileData(TileError::ConnPool(m))),
        }
    }

    /// Returns a connection to the pool, unconditionally.
    pub fn release(&mut self, conn: Connection)
        requires
            old(self).outstanding_count() > 0,
        ensures
            final(self).outstanding_count() == old(self).outstanding_count() - 1,
    {
        self.outstanding = Ghost((self.outstanding@ - 1) as nat);
        pool_put_back(conn);
    }
}

/// Relies on `rusqlite::Connection::query_row` on
/// `SELECT tile_data FROM tiles LIMIT 1`: a sample tile payload, or
/// nothing when the table is empty.
#[verifier::external_body]
pub(crate) fn query_first_tile_blob(conn: &Connection) -> (r: Result<Option<Vec<u8>>, String>) {
    let got = conn.inner.query_row("SELECT tile_data FROM tiles LIMIT 1", (), |row| {
        row.get::<_, Vec<u8>>(0)
    });
    match got {
        Ok(b) => Ok(Some(b)),
        Err(r2d2_sqlite::rusqlite::Error::QueryReturnedNoRows) => Ok(None),
        Err(e) => Err(e.to_string()),
    }
}

/// Relies on `rusqlite::Connection::query_row` on
/// `SELECT grid_utfgrid FROM grid_utfgrid LIMIT 1`: a sample grid blob, or
/// nothing when the table is empty.
#[verifier::external_body]
pub(crate) fn query_first_grid_blob(conn: &Connection) -> (r: Result<Option<Vec<u8>>, String>) {
    let got = conn.inner.query_row("SELECT grid_utfgrid FROM grid_utfgrid LIMIT 1", (), |row| {
        row.get::<_, Vec<u8>>(0)
    });
    match got {
        Ok(b) => Ok(Some(b)),
        Err(r2d2_sqlite::rusqlite::Error::QueryReturnedNoRows) => Ok(None),
        Err(e) => Err(e.to_string()),
    }
}

/// Relies on `rusqlite::Connection::query_row` counting `sqlite_master`
/// names among `tiles` and `metadata`: how many of the two required schema
/// objects exist.
#[verifier::external_body]
pub(crate) fn query_core_table_count(conn: &Connection) -> (r: Result<i64, String>) {
    let got = conn.inner.query_row(
        "SELECT count(*) FROM sqlite_master WHERE name IN ('tiles', 'metadata')",
        (),
        |row| row.get::<_, i64>(0),
    );
    match got {
        Ok(c) => Ok(c),
        Err(e) => Err(e.to_string()),
    }
}

/// Relies on `rusqlite::Connection::query_row` counting `sqlite_master`
/// names among the five grid tables (`grids`, `grid_data`, `grid_utfgrid`,
/// `keymap`, `grid_key`): how many of them exist.
#[verifier::external_body]
pub(crate) fn query_grid_table_count(conn: &Connection) -> (r: Result<i64, String>) {
    let got = conn.inner.query_row(
        "SELECT count(*) FROM sqlite_master WHERE name IN ('grids', 'grid_data', 'grid_utfgrid', 'keymap', 'grid_key')",
        (),
        |row| row.get::<_, i64>(0),
    );
    match got {
        Ok(c) => Ok(c),
        Err(e) => Err(e.to_string()),
    }
}

/// Relies on `rusqlite::Statement::query_map` over
/// `SELECT name, value FROM metadata`: every metadata row as a name/value
/// pair of text; a row whose columns are not text fails the read.
#[verifier::external_body]
pub(crate) fn query_metadata_rows(conn: &Connection) -> (r: Result<Vec<(String, String)>, String>) {
    let run = || -> Result<Vec<(String, String)>, r2d2_sqlite::rusqlite::Error> {
        let mut stmt = conn.inner.prepare("SELECT name, value FROM metadata")?;
        let rows = stmt.query_map(
            (),
            |row| Ok((row.get::<_, String>(0)?, row.get::<_, String>(1)?)),
        )?;
        rows.collect()
    };
    match run() {
        Ok(v) => Ok(v),
        Err(e) => Err(e.to_string()),
    }
}

/// Relies on `rusqlite::Connection::query_row` on the `tiles` table keyed
/// by `(zoom_level, tile_column, tile_row)`: the payload of exactly that
/// coordinate, or nothing when no row matches.
#[verifier::external_body]
pub(crate) fn query_tile_blob(conn: &Connection, z: u32, x: u32, y: u32) -> (r: Result<
    Option<Vec<u8>>,
    String,
>) {
    let got = conn.inner.query_row(
        "SELECT tile_data FROM tiles WHERE zoom_level = ?1 AND tile_column = ?2 AND tile_row = ?3",
        (z, x, y),
        |row| row.get::<_, Vec<u8>>(0),
    );
    match got {
        Ok(b) => Ok(Some(b)),
        Err(r2d2_sqlite::rusqlite::Error::QueryReturnedNoRows) => Ok(None),
        Err(e) => Err(e.to_string()),
    }
}

/// Relies on `rusqlite::Connection::query_row` on the `grids` table keyed
/// by `(zoom_level, tile_column, tile_row)`: the grid blob of exactly that
/// coordinate, or nothing when no row matches.
#[verifier::external_body]
pub(crate) fn query_grid_blob(conn: &Connection, z: u32, x: u32, y: u32) -> (r: Result<
    Option<Vec<u8>>,
    String,
>) {
    let got = conn.inner.query_row(
        "SELECT grid FROM grids WHERE zoom_level = ?1 AND tile_column = ?2 AND tile_row = ?3",
        (z, x, y),
        |row| row.get::<_, Vec<u8>>(0),
    );
    match got {
        Ok(b) => Ok(Some(b)),
        Err(r2d2_sqlite::rusqlite::Error::QueryReturnedNoRows) => Ok(None),
        Err(e) => Err(e.to_string()),
    }
}

/// Relies on `rusqlite::Statement::query_map` over the `grid_data` table
/// keyed by `(zoom_level, tile_column, tile_row)`: every `(key_name,
/// key_json)` row of that coordinate as a pair of text.
#[verifier::external_body]
pub(crate) fn query_grid_data_rows(conn: &Connection, z: u32, x: u32, y: u32) -> (r: Result<
    Vec<(String, String)>,
    String,
>) {
    let run = || -> Result<Vec<(String, String)>, r2d2_sqlite::rusqlite::Error> {
        let mut stmt = conn.inner.prepare(
            "SELECT key_name, key_json FROM grid_data WHERE zoom_level = ?1 AND tile_column = ?2 AND tile_row = ?3",
        )?;
        let rows = stmt.query_map(
            (z, x, y),
            |row| Ok((row.get::<_, String>(0)?, row.get::<_, String>(1)?)),
        )?;
        rows.collect()
    };
    match run() {
        Ok(v) => Ok(v),
        Err(e) => Err(e.to_string()),
    }
}

} // verus!
