//! Failure taxonomy of the archive access layer. Every storage, decode or
//! schema failure is wrapped into `BaseError` and surfaced as a value, never
//! as a panic.

use vstd::prelude::*;

verus! {

/// The failure modes of tile archive access.
#[derive(Debug)]
pub enum TileError {
    /// A decode was requested for a format that is not a compression
    /// container, or a query category was unrecognized.
    InvalidDataFormat(String),
    /// Query preparation or execution failed, or archive content was
    /// malformed.
    Database(String),
    /// The queried coordinate has no row in the archive.
    NotFound,
    /// The connection pool was exhausted or broken.
    ConnPool(String),
    /// A compressed stream was truncated or corrupt, or decompressed to
    /// text that is not UTF-8.
    IOError(String),
    /// The archive path or configuration is unusable.
    Config(String),
    /// Sniffing the archive's sample tile matched no known format.
    UnknownTileFormat(String),
    /// A required table or view is absent from the archive schema.
    MissingTable(String),
}

/// The externally visible error type: one wrapper around the tile taxonomy.
#[derive(Debug)]
pub enum BaseError {
    TileData(TileError),
}

pub open spec fn is_invalid_data_format(e: BaseError) -> bool {
    e matches BaseError::TileData(TileError::InvalidDataFormat(_))
}

pub open spec fn is_database(e: BaseError) -> bool {
    e matches BaseError::TileData(TileError::Database(_))
}

pub open spec fn is_not_found(e: BaseError) -> bool {
    e == BaseError::TileData(TileError::NotFound)
}

pub open spec fn is_conn_pool(e: BaseError) -> bool {
    e matches BaseError::TileData(TileError::ConnPool(_))
}

pub open spec fn is_io_error(e: BaseError) -> bool {
    e matches BaseError::TileData(TileError::IOError(_))
}

pub open spec fn is_config(e: BaseError) -> bool {
    e matches BaseError::TileData(TileError::Config(_))
}

pub open spec fn is_unknown_tile_format(e: BaseError) -> bool {
    e matches BaseError::TileData(TileError::UnknownTileFormat(_))
}

pub open spec fn is_missing_table(e: BaseError) -> bool {
    e matches BaseError::TileData(TileError::MissingTable(_))
}

/// The fixed description of each error kind.
pub open spec fn spec_kind_message(e: TileError) -> Seq<char> {
    match e {
        TileError::InvalidDataFormat(_) => "invalid data format"@,
        TileError::Database(_) => "database error"@,
        TileError::NotFound => "not found"@,
        TileError::ConnPool(_) => "connection pool error"@,
        TileError::IOError(_) => "io error"@,
        TileError::Config(_) => "wrong configuration"@,
        TileError::UnknownTileFormat(_) => "unknown tile format"@,
        TileError::MissingTable(_) => "missing table"@,
    }
}

impl TileError {
    /// A fixed description of the error kind, for callers that report it.
    pub fn kind_message(&self) -> (r: &'static str)
        ensures
            r@ == spec_kind_message(*self),
    {
        match *self {
            TileError::InvalidDataFormat(_) => "invalid data format",
            TileError::Database(_) => "database error",
            TileError::NotFound => "not found",
            TileError::ConnPool(_) => "connection pool error",
            TileError::IOError(_) => "io error",
            TileError::Config(_) => "wrong configuration",
            TileError::UnknownTileFormat(_) => "unknown tile format",
            TileError::MissingTable(_) => "missing table",
        }
    }
}

impl BaseError {
    /// A fixed description of the error kind, for callers that report it.
    pub fn kind_message(&self) -> (r: &'static str)
        ensures
            *self matches BaseError::TileData(e) && r@ == spec_kind_message(e),
    {
        match self {
            BaseError::TileData(e) => e.kind_message(),
        }
    }
}

} // verus!
