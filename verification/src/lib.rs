//! Access layer for single-file map tile archives (MBTiles-style SQLite
//! containers): binary format sniffing, gzip/zlib payload codecs, schema
//! validation, metadata extraction, and coordinate-keyed tile and UTFGrid
//! queries over a bounded pool of read-only connections.

pub mod codec;
pub mod db;
pub mod error;
pub mod json;
pub mod parsing;
pub mod tile;
pub mod tile_format;
