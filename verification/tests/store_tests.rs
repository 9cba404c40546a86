use mbtiles::codec::encode;
use mbtiles::db::ConnectionPool;
use mbtiles::error::{BaseError, TileError};
use mbtiles::tile::{get_tile_data, get_tile_details};
use mbtiles::tile_format::DataFormat;

use r2d2_sqlite::rusqlite;

fn create_tiles_table(conn: &rusqlite::Connection) {
    conn.execute_batch(
        "DROP TABLE IF EXISTS tiles;
         CREATE TABLE tiles (zoom_level INTEGER, tile_column INTEGER, tile_row INTEGER, tile_data BLOB);",
    )
    .unwrap();
}

fn create_metadata_table(conn: &rusqlite::Connection) {
    conn.execute_batch(
        "DROP TABLE IF EXISTS metadata;
         CREATE TABLE metadata (name TEXT, value TEXT);",
    )
    .unwrap();
}

fn insert_tile(conn: &rusqlite::Connection, z: u32, x: u32, y: u32, data: &[u8]) {
    conn.execute(
        "INSERT INTO tiles (zoom_level, tile_column, tile_row, tile_data) VALUES (?1, ?2, ?3, ?4)",
        (z, x, y, data),
    )
    .unwrap();
}

fn insert_meta(conn: &rusqlite::Connection, name: &str, value: &str) {
    conn.execute("INSERT INTO metadata (name, value) VALUES (?1, ?2)", (name, value)).unwrap();
}

fn open_pool(path: &str) -> ConnectionPool {
    ConnectionPool::open(path, 2, 2000).unwrap()
}

#[test]
fn tile_details_reads_metadata() {
    let path = "/tmp/mbtiles_ts_details.sqlite";
    {
        let conn = rusqlite::Connection::open(path).unwrap();
        create_tiles_table(&conn);
        create_metadata_table(&conn);
        insert_tile(&conn, 0, 0, 0, &encode(b"vector tile payload"));
        insert_meta(&conn, "name", "Test Map");
        insert_meta(&conn, "bounds", "1,2,bad,4");
        insert_meta(&conn, "center", "0,0,4");
        insert_meta(&conn, "minzoom", "3");
        insert_meta(&conn, "maxzoom", "14");
        insert_meta(&conn, "description", "");
        insert_meta(&conn, "attribution", "someone");
        insert_meta(&conn, "type", "overlay");
        insert_meta(&conn, "json", "{\"vector_layers\":[]}");
        insert_meta(&conn, "unrelated", "ignored");
    }
    let mut pool = open_pool(path);
    let meta = get_tile_details(&mut pool, "test").unwrap();
    // the sample tile is gzip, so the effective stored format is PBF
    assert_eq!(meta.tile_format, DataFormat::PBF);
    assert_eq!(meta.tilejson, "2.1.0");
    assert_eq!(meta.scheme, "xyz");
    assert_eq!(meta.id, "test");
    assert_eq!(meta.name.as_deref(), Some("Test Map"));
    // non-numeric bounds entries are dropped
    assert_eq!(meta.bounds, Some(vec!["1".to_string(), "2".to_string(), "4".to_string()]));
    assert_eq!(meta.center, Some(vec!["0".to_string(), "0".to_string(), "4".to_string()]));
    assert_eq!(meta.minzoom, Some(3));
    assert_eq!(meta.maxzoom, Some(14));
    // empty string values are excluded entirely
    assert_eq!(meta.description, None);
    assert_eq!(meta.attribution.as_deref(), Some("someone"));
    assert_eq!(meta.layer_type.as_deref(), Some("overlay"));
    assert!(meta.json.is_some());
    assert_eq!(meta.grid_format, None);
}

#[test]
fn tile_details_missing_metadata_table() {
    let path = "/tmp/mbtiles_ts_missing_meta.sqlite";
    {
        let conn = rusqlite::Connection::open(path).unwrap();
        create_tiles_table(&conn);
        conn.execute_batch("DROP TABLE IF EXISTS metadata;").unwrap();
        insert_tile(&conn, 0, 0, 0, &encode(b"payload"));
    }
    let mut pool = open_pool(path);
    let r = get_tile_details(&mut pool, "test");
    match r {
        Err(BaseError::TileData(TileError::MissingTable(m))) => assert_eq!(m, "test"),
        _ => panic!("expected a missing-table error"),
    }
}

#[test]
fn tile_details_unknown_tile_format() {
    let path = "/tmp/mbtiles_ts_unknown_format.sqlite";
    {
        let conn = rusqlite::Connection::open(path).unwrap();
        create_tiles_table(&conn);
        create_metadata_table(&conn);
        insert_tile(&conn, 0, 0, 0, b"xx");
        insert_meta(&conn, "name", "bad");
    }
    let mut pool = open_pool(path);
    let r = get_tile_details(&mut pool, "test");
    match r {
        Err(BaseError::TileData(TileError::UnknownTileFormat(m))) => assert_eq!(m, "test"),
        _ => panic!("expected an unknown-format error"),
    }
}

#[test]
fn tile_details_unreadable_tiles_view_is_database_error() {
    let path = "/tmp/mbtiles_ts_broken_view.sqlite";
    {
        let conn = rusqlite::Connection::open(path).unwrap();
        // both schema names exist, but the tiles view cannot be queried,
        // so the sample sniff fails as a statement failure
        conn.execute_batch(
            "DROP VIEW IF EXISTS tiles;
             DROP TABLE IF EXISTS tiles;
             DROP TABLE IF EXISTS metadata;
             CREATE TABLE metadata (name TEXT, value TEXT);
             CREATE VIEW tiles AS SELECT tile_data FROM missing_backing;",
        )
        .unwrap();
    }
    let mut pool = open_pool(path);
    let r = get_tile_details(&mut pool, "test");
    assert!(matches!(r, Err(BaseError::TileData(TileError::Database(_)))));
}

#[test]
fn tile_details_png_archive() {
    let path = "/tmp/mbtiles_ts_png.sqlite";
    {
        let conn = rusqlite::Connection::open(path).unwrap();
        create_tiles_table(&conn);
        create_metadata_table(&conn);
        insert_tile(&conn, 0, 0, 0, &[0x89, 0x50, 0x4e, 0x47, 0x0d, 0x0a, 0x1a, 0x0a, 1, 2]);
        insert_meta(&conn, "name", "raster");
    }
    let mut pool = open_pool(path);
    let meta = get_tile_details(&mut pool, "raster").unwrap();
    assert_eq!(meta.tile_format, DataFormat::PNG);
}

#[test]
fn tile_details_malformed_minzoom_fails() {
    let path = "/tmp/mbtiles_ts_bad_minzoom.sqlite";
    {
        let conn = rusqlite::Connection::open(path).unwrap();
        create_tiles_table(&conn);
        create_metadata_table(&conn);
        insert_tile(&conn, 0, 0, 0, &encode(b"payload"));
        insert_meta(&conn, "minzoom", "abc");
    }
    let mut pool = open_pool(path);
    let r = get_tile_details(&mut pool, "test");
    assert!(matches!(r, Err(BaseError::TileData(TileError::Database(_)))));
}

#[test]
fn tile_details_malformed_json_fails() {
    let path = "/tmp/mbtiles_ts_bad_json.sqlite";
    {
        let conn = rusqlite::Connection::open(path).unwrap();
        create_tiles_table(&conn);
        create_metadata_table(&conn);
        insert_tile(&conn, 0, 0, 0, &encode(b"payload"));
        insert_meta(&conn, "json", "{not json");
    }
    let mut pool = open_pool(path);
    let r = get_tile_details(&mut pool, "test");
    assert!(matches!(r, Err(BaseError::TileData(TileError::Database(_)))));
}

#[test]
fn tile_data_exact_match() {
    let path = "/tmp/mbtiles_ts_tile_data.sqlite";
    let payload = encode(b"the tile");
    {
        let conn = rusqlite::Connection::open(path).unwrap();
        create_tiles_table(&conn);
        create_metadata_table(&conn);
        insert_tile(&conn, 2, 1, 3, &payload);
    }
    let mut pool = open_pool(path);
    assert_eq!(get_tile_data(&mut pool, 2, 1, 3).unwrap(), payload);
}

#[test]
fn tile_data_absent_coordinate_is_not_found() {
    let path = "/tmp/mbtiles_ts_tile_absent.sqlite";
    {
        let conn = rusqlite::Connection::open(path).unwrap();
        create_tiles_table(&conn);
        create_metadata_table(&conn);
        insert_tile(&conn, 2, 1, 3, &encode(b"the tile"));
    }
    let mut pool = open_pool(path);
    let r = get_tile_data(&mut pool, 2, 1, 4);
    assert!(matches!(r, Err(BaseError::TileData(TileError::NotFound))));
    // no nearest-zoom fallback either
    let r2 = get_tile_data(&mut pool, 3, 1, 3);
    assert!(matches!(r2, Err(BaseError::TileData(TileError::NotFound))));
}

#[test]
fn connections_are_released_after_failures() {
    let path = "/tmp/mbtiles_ts_release.sqlite";
    {
        let conn = rusqlite::Connection::open(path).unwrap();
        create_tiles_table(&conn);
        create_metadata_table(&conn);
        insert_tile(&conn, 0, 0, 0, &encode(b"payload"));
    }
    // a pool of one connection with a short wait: a single leaked
    // connection would make every later call fail with a pool error
    let mut pool = ConnectionPool::open(path, 1, 300).unwrap();
    for _ in 0..5 {
        let r = get_tile_data(&mut pool, 9, 9, 9);
        assert!(matches!(r, Err(BaseError::TileData(TileError::NotFound))));
    }
    for _ in 0..5 {
        assert!(get_tile_data(&mut pool, 0, 0, 0).is_ok());
    }
    let r = get_tile_details(&mut pool, "test");
    assert!(r.is_ok());
}

#[test]
fn exhausted_pool_is_conn_pool_error() {
    let path = "/tmp/mbtiles_ts_exhausted.sqlite";
    {
        let conn = rusqlite::Connection::open(path).unwrap();
        create_tiles_table(&conn);
        create_metadata_table(&conn);
        insert_tile(&conn, 0, 0, 0, &encode(b"payload"));
    }
    let mut pool = ConnectionPool::open(path, 1, 200).unwrap();
    let held = pool.acquire().unwrap();
    let r = get_tile_data(&mut pool, 0, 0, 0);
    assert!(matches!(r, Err(BaseError::TileData(TileError::ConnPool(_)))));
    pool.release(held);
    assert!(get_tile_data(&mut pool, 0, 0, 0).is_ok());
}

#[test]
fn error_kind_messages() {
    assert_eq!(BaseError::TileData(TileError::NotFound).kind_message(), "not found");
    assert_eq!(
        BaseError::TileData(TileError::MissingTable("m".to_string())).kind_message(),
        "missing table"
    );
    assert_eq!(
        BaseError::TileData(TileError::UnknownTileFormat("m".to_string())).kind_message(),
        "unknown tile format"
    );
    assert_eq!(
        TileError::InvalidDataFormat("png".to_string()).kind_message(),
        "invalid data format"
    );
    assert_eq!(TileError::Database("d".to_string()).kind_message(), "database error");
    assert_eq!(TileError::ConnPool("c".to_string()).kind_message(), "connection pool error");
    assert_eq!(TileError::IOError("i".to_string()).kind_message(), "io error");
    assert_eq!(TileError::Config("c".to_string()).kind_message(), "wrong configuration");
}

#[test]
fn open_unusable_path_is_config_error() {
    let r = ConnectionPool::open("/tmp/mbtiles_no_such_dir/na.sqlite", 1, 200);
    assert!(matches!(r, Err(BaseError::TileData(TileError::Config(_)))));
}
