//! The database settings that the storage logic reads.

use vstd::prelude::*;

verus! {

/// The database engine that the tracker persists to.
#[derive(Clone, Copy, Debug, PartialEq, Eq, Structural)]
pub enum DatabaseDrivers {
    SQLite3,
    MySQL,
    PgSQL,
}

/// The names of the tables and columns that the tracker's data lives in.
#[derive(Clone, Debug)]
pub struct DatabaseStructure {
    /// Table of torrent statistics.
    pub db_torrents: String,
    /// Column of that table holding the info hash.
    pub table_torrents_info_hash: String,
    /// Column of that table holding the number of completed downloads.
    pub table_torrents_completed: String,
    /// Table of whitelisted info hashes.
    pub db_whitelist: String,
    /// Column of that table holding the info hash.
    pub table_whitelist_info_hash: String,
    /// Table of blacklisted info hashes.
    pub db_blacklist: String,
    /// Column of that table holding the info hash.
    pub table_blacklist_info_hash: String,
    /// Table of access keys.
    pub db_keys: String,
    /// Column of that table holding the key.
    pub table_keys_hash: String,
    /// Column of that table holding the key's expiry time.
    pub table_keys_timeout: String,
}

/// The database part of the tracker's configuration.
#[derive(Clone, Debug)]
pub struct Configuration {
    /// Which engine to use.
    pub db_driver: DatabaseDrivers,
    /// The connection string (a file path or URL) handed to the driver.
    pub db_path: String,
    /// Where the data lives.
    pub db_structure: DatabaseStructure,
}

} // verus!
