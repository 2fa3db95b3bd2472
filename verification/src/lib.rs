//! Storage logic of a BitTorrent tracker: the SQL statements that load and
//! persist its whitelist, blacklist, access keys and torrent statistics on
//! SQLite, MySQL or PostgreSQL, the decoding of the rows that come back, and
//! the decisions that drive a connection and a save transaction.

pub mod info_hash;
pub mod decimal;
pub mod config;
pub mod queries;
pub mod transaction;
pub mod rows;
pub mod connector;
