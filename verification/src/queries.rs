//! The SQL statements that read and write the tracker's tables, for each engine.
//!
//! Two shapes of table are used: a hash table with one info hash column
//! (whitelist, blacklist) and a pair table with an info hash column and an
//! integer column (keys with their expiry, torrents with their completed count).

use vstd::prelude::*;
use crate::config::DatabaseDrivers;
use crate::decimal::{decimal_string, decimal_text};
use crate::info_hash::{hash_from_text, hex_text, lemma_info_hash_text_round_trip, InfoHash};

verus! {

/// The query that reads the hash column of a hash table.
pub open spec fn select_hashes_text(driver: DatabaseDrivers, table: Seq<char>, column: Seq<char>) -> Seq<char> {
    match driver {
        DatabaseDrivers::MySQL => "SELECT `"@ + column + "` FROM `"@ + table + "`"@,
        _ => "SELECT "@ + column + " FROM "@ + table,
    }
}

/// The query that reads both columns of a pair table.
pub open spec fn select_pairs_text(
    driver: DatabaseDrivers,
    table: Seq<char>,
    key_column: Seq<char>,
    value_column: Seq<char>,
) -> Seq<char> {
    match driver {
        DatabaseDrivers::MySQL => "SELECT `"@ + key_column + "`,`"@ + value_column + "` FROM `"@ + table
            + "`"@,
        _ => "SELECT "@ + key_column + ","@ + value_column + " FROM "@ + table,
    }
}

/// The statement that empties a hash table before it is written again in
/// full; SQLite needs none, since it replaces rows one by one.
pub open spec fn clear_table_text(driver: DatabaseDrivers, table: Seq<char>) -> Option<Seq<char>> {
    match driver {
        DatabaseDrivers::SQLite3 => None,
        DatabaseDrivers::MySQL => Some("TRUNCATE TABLE "@ + table),
        DatabaseDrivers::PgSQL => Some("TRUNCATE TABLE "@ + table + " RESTART IDENTITY"@),
    }
}

/// The statement that writes one info hash into a hash table. SQLite stores
/// the hexadecimal text; MySQL and PostgreSQL store the 20 bytes it stands for.
pub open spec fn insert_hash_text(
    driver: DatabaseDrivers,
    table: Seq<char>,
    column: Seq<char>,
    hash: Seq<u8>,
) -> Seq<char> {
    match driver {
        DatabaseDrivers::SQLite3 => "INSERT OR REPLACE INTO "@ + table + " ("@ + column + ") VALUES ('"@
            + hex_text(hash) + "')"@,
        DatabaseDrivers::MySQL => "INSERT INTO "@ + table + " ("@ + column + ") VALUES (UNHEX('"@
            + hex_text(hash) + "'))"@,
        DatabaseDrivers::PgSQL => "INSERT INTO "@ + table + " ("@ + column + ") VALUES (decode('"@
            + hex_text(hash) + "','hex'))"@,
    }
}

/// The statement that writes one info hash and its integer into a pair
/// table, replacing the integer of a row that has the same hash.
pub open spec fn upsert_pair_text(
    driver: DatabaseDrivers,
    table: Seq<char>,
    key_column: Seq<char>,
    value_column: Seq<char>,
    hash: Seq<u8>,
    value: int,
) -> Seq<char> {
    match driver {
        DatabaseDrivers::SQLite3 => "INSERT OR REPLACE INTO "@ + table + " ("@ + key_column + ","@
            + value_column + ") VALUES ('"@ + hex_text(hash) + "',"@ + decimal_text(value) + ")"@,
        DatabaseDrivers::MySQL => "INSERT INTO "@ + table + " (`"@ + key_column + "`,`"@ + value_column
            + "`) VALUES (UNHEX('"@ + hex_text(hash) + "'),"@ + decimal_text(value)
            + ") ON DUPLICATE KEY UPDATE `"@ + value_column + "`=VALUES(`"@ + value_column + "`)"@,
        DatabaseDrivers::PgSQL => "INSERT INTO "@ + table + " ("@ + key_column + ","@ + value_column
            + ") VALUES (decode('"@ + hex_text(hash) + "','hex'),"@ + decimal_text(value)
            + ") ON CONFLICT ("@ + key_column + ") DO UPDATE SET "@ + value_column + "=excluded."@
            + value_column,
    }
}

/// The SQLite statement that creates a hash table if it does not exist.
pub open spec fn create_hash_table_text(table: Seq<char>, column: Seq<char>) -> Seq<char> {
    "CREATE TABLE IF NOT EXISTS "@ + table + " ("@ + column + " VARCHAR(40) PRIMARY KEY)"@
}

/// The SQLite statement that creates a pair table if it does not exist.
pub open spec fn create_pair_table_text(
    table: Seq<char>,
    key_column: Seq<char>,
    value_column: Seq<char>,
) -> Seq<char> {
    "CREATE TABLE IF NOT EXISTS "@ + table + " ("@ + key_column + " VARCHAR(40) PRIMARY KEY, "@
        + value_column + " INTEGER DEFAULT 0 NOT NULL)"@
}

/// Builds `select_hashes_text`.
pub fn select_hashes_query(driver: DatabaseDrivers, table: &str, column: &str) -> (q: String)
    ensures
        q@ == select_hashes_text(driver, table@, column@),
{
    match driver {
        DatabaseDrivers::MySQL => {
            let mut q = String::from_str("SELECT `");
            q.append(column);
            q.append("` FROM `");
            q.append(table);
            q.append("`");
            q
        },
        _ => {
            let mut q = String::from_str("SELECT ");
            q.append(column);
            q.append(" FROM ");
            q.append(table);
            q
        },
    }
}

/// Builds `select_pairs_text`.
pub fn select_pairs_query(
    driver: DatabaseDrivers,
    table: &str,
    key_column: &str,
    value_column: &str,
) -> (q: String)
    ensures
        q@ == select_pairs_text(driver, table@, key_column@, value_column@),
{
    match driver {
        DatabaseDrivers::MySQL => {
            let mut q = String::from_str("SELECT `");
            q.append(key_column);
            q.append("`,`");
            q.append(value_column);
            q.append("` FROM `");
            q.append(table);
            q.append("`");
            q
        },
        _ => {
            let mut q = String::from_str("SELECT ");
            q.append(key_column);
            q.append(",");
            q.append(value_column);
            q.append(" FROM ");
            q.append(table);
            q
        },
    }
}

/// Builds `clear_table_text`.
pub fn clear_table_statement(driver: DatabaseDrivers, table: &str) -> (q: Option<String>)
    ensures
        q is Some <==> clear_table_text(driver, table@) is Some,
        q matches Some(s) ==> clear_table_text(driver, table@) == Some(s@),
{
    match driver {
        DatabaseDrivers::SQLite3 => None,
        DatabaseDrivers::MySQL => {
            let mut q = String::from_str("TRUNCATE TABLE ");
            q.append(table);
            Some(q)
        },
        DatabaseDrivers::PgSQL => {
            let mut q = String::from_str("TRUNCATE TABLE ");
            q.append(table);
            q.append(" RESTART IDENTITY");
            Some(q)
        },
    }
}

/// Builds `insert_hash_text`.
pub fn insert_hash_statement(driver: DatabaseDrivers, table: &str, column: &str, hash: &InfoHash) -> (q: String)
    ensures
        q@ == insert_hash_text(driver, table@, column@, hash@),
{
    let hex = hash.to_string();
    let mut q = match driver {
        DatabaseDrivers::SQLite3 => String::from_str("INSERT OR REPLACE INTO "),
        _ => String::from_str("INSERT INTO "),
    };
    q.append(table);
    q.append(" (");
    q.append(column);
    match driver {
        DatabaseDrivers::SQLite3 => {
            q.append(") VALUES ('");
            q.append(hex.as_str());
            q.append("')");
        },
        DatabaseDrivers::MySQL => {
            q.append(") VALUES (UNHEX('");
            q.append(hex.as_str());
            q.append("'))");
        },
        DatabaseDrivers::PgSQL => {
            q.append(") VALUES (decode('");
            q.append(hex.as_str());
            q.append("','hex'))");
        },
    }
    q
}

/// Builds `upsert_pair_text`.
pub fn upsert_pair_statement(
    driver: DatabaseDrivers,
    table: &str,
    key_column: &str,
    value_column: &str,
    hash: &InfoHash,
    value: i64,
) -> (q: String)
    ensures
        q@ == upsert_pair_text(driver, table@, key_column@, value_column@, hash@, value as int),
{
    let hex = hash.to_string();
    let number = decimal_string(value);
    match driver {
        DatabaseDrivers::SQLite3 => {
            let mut q = String::from_str("INSERT OR REPLACE INTO ");
            q.append(table);
            q.append(" (");
            q.append(key_column);
            q.append(",");
            q.append(value_column);
            q.append(") VALUES ('");
            q.append(hex.as_str());
            q.append("',");
            q.append(number.as_str());
            q.append(")");
            q
        },
        DatabaseDrivers::MySQL => {
            let mut q = String::from_str("INSERT INTO ");
            q.append(table);
            q.append(" (`");
            q.append(key_column);
            q.append("`,`");
            q.append(value_column);
            q.append("`) VALUES (UNHEX('");
            q.append(hex.as_str());
            q.append("'),");
            q.append(number.as_str());
            q.append(") ON DUPLICATE KEY UPDATE `");
            q.append(value_column);
            q.append("`=VALUES(`");
            q.append(value_column);
            q.append("`)");
            q
        },
        DatabaseDrivers::PgSQL => {
            let mut q = String::from_str("INSERT INTO ");
            q.append(table);
            q.append(" (");
            q.append(key_column);
            q.append(",");
            q.append(value_column);
            q.append(") VALUES (decode('");
            q.append(hex.as_str());
            q.append("','hex'),");
            q.append(number.as_str());
            q.append(") ON CONFLICT (");
            q.append(key_column);
            q.append(") DO UPDATE SET ");
            q.append(value_column);
            q.append("=excluded.");
            q.append(value_column);
            q
        },
    }
}

/// Builds `create_hash_table_text`.
pub fn create_hash_table_statement(table: &str, column: &str) -> (q: String)
    ensures
        q@ == create_hash_table_text(table@, column@),
{
    let mut q = String::from_str("CREATE TABLE IF NOT EXISTS ");
    q.append(table);
    q.append(" (");
    q.append(column);
    q.append(" VARCHAR(40) PRIMARY KEY)");
    q
}

/// Builds `create_pair_table_text`.
pub fn create_pair_table_statement(table: &str, key_column: &str, value_column: &str) -> (q: String)
    ensures
        q@ == create_pair_table_text(table@, key_column@, value_column@),
{
    let mut q = String::from_str("CREATE TABLE IF NOT EXISTS ");
    q.append(table);
    q.append(" (");
    q.append(key_column);
    q.append(" VARCHAR(40) PRIMARY KEY, ");
    q.append(value_column);
    q.append(" INTEGER DEFAULT 0 NOT NULL)");
    q
}


/// Where the quoted 40-digit hash literal starts in a hash insert: after the
/// fixed words, the table name and the column name.
pub open spec fn insert_literal_start(driver: DatabaseDrivers, table: Seq<char>, column: Seq<char>) -> int {
    match driver {
        DatabaseDrivers::SQLite3 => 36 + table.len() as int + column.len(),
        DatabaseDrivers::MySQL => 31 + table.len() as int + column.len(),
        DatabaseDrivers::PgSQL => 32 + table.len() as int + column.len(),
    }
}

/// The number of characters that follow the hash literal of a hash insert.
pub open spec fn insert_tail_len(driver: DatabaseDrivers) -> int {
    match driver {
        DatabaseDrivers::SQLite3 => 2,
        DatabaseDrivers::MySQL => 3,
        DatabaseDrivers::PgSQL => 9,
    }
}

/// Where the quoted 40-digit hash literal starts in a pair upsert.
pub open spec fn upsert_literal_start(
    driver: DatabaseDrivers,
    table: Seq<char>,
    key_column: Seq<char>,
    value_column: Seq<char>,
) -> int {
    match driver {
        DatabaseDrivers::SQLite3 => 37 + table.len() as int + key_column.len() + value_column.len(),
        DatabaseDrivers::MySQL => 36 + table.len() as int + key_column.len() + value_column.len(),
        DatabaseDrivers::PgSQL => 33 + table.len() as int + key_column.len() + value_column.len(),
    }
}

/// The 40 characters of a statement that hold the hash literal starting at `start`.
pub open spec fn hash_literal(statement: Seq<char>, start: int) -> Seq<char> {
    statement.subrange(start, start + 40)
}

/// The integer literal of a pair upsert: what stands between the hash
/// literal's closing words and the fixed words at the end.
pub open spec fn upsert_number_literal(
    driver: DatabaseDrivers,
    table: Seq<char>,
    key_column: Seq<char>,
    value_column: Seq<char>,
    statement: Seq<char>,
) -> Seq<char> {
    let start = upsert_literal_start(driver, table, key_column, value_column) + 40;
    match driver {
        DatabaseDrivers::SQLite3 => statement.subrange(start + 2, statement.len() - 1),
        DatabaseDrivers::MySQL => statement.subrange(start + 3, statement.len() - 39 - 2 * value_column.len()),
        DatabaseDrivers::PgSQL => statement.subrange(
            start + 9,
            statement.len() - 41 - key_column.len() - 2 * value_column.len(),
        ),
    }
}

/// A hash insert carries the hash it was made for: its quoted literal, at
/// the place fixed by the table and column names, decodes to that hash, and
/// only fixed words follow it.
pub proof fn lemma_insert_carries_hash(
    driver: DatabaseDrivers,
    table: Seq<char>,
    column: Seq<char>,
    hash: InfoHash,
)
    ensures
        ({
            let s = insert_hash_text(driver, table, column, hash@);
            let a = insert_literal_start(driver, table, column);
            &&& s.len() == a + 40 + insert_tail_len(driver)
            &&& s[a - 1] == '\''
            &&& s[a + 40] == '\''
            &&& hash_literal(s, a) == hex_text(hash@)
            &&& hash_from_text(hash_literal(s, a)) == Some(hash@)
        }),
{
    reveal_strlit("INSERT OR REPLACE INTO ");
    reveal_strlit("INSERT INTO ");
    reveal_strlit(" (");
    reveal_strlit(") VALUES ('");
    reveal_strlit(") VALUES (UNHEX('");
    reveal_strlit(") VALUES (decode('");
    reveal_strlit("')");
    reveal_strlit("'))");
    reveal_strlit("','hex'))");
    lemma_info_hash_text_round_trip(hash);
    let s = insert_hash_text(driver, table, column, hash@);
    let a = insert_literal_start(driver, table, column);
    let h = hex_text(hash@);
    assert(hash@.len() == 20);
    match driver {
        DatabaseDrivers::SQLite3 => {
            let pre = "INSERT OR REPLACE INTO "@ + table + " ("@ + column + ") VALUES ('"@;
            assert(s =~= pre + h + "')"@);
            assert(pre.len() == a);
            assert(s.subrange(a, a + 40) =~= h);
        },
        DatabaseDrivers::MySQL => {
            let pre = "INSERT INTO "@ + table + " ("@ + column + ") VALUES (UNHEX('"@;
            assert(s =~= pre + h + "'))"@);
            assert(pre.len() == a);
            assert(s.subrange(a, a + 40) =~= h);
        },
        DatabaseDrivers::PgSQL => {
            let pre = "INSERT INTO "@ + table + " ("@ + column + ") VALUES (decode('"@;
            assert(s =~= pre + h + "','hex'))"@);
            assert(pre.len() == a);
            assert(s.subrange(a, a + 40) =~= h);
        },
    }
}

/// A pair upsert carries the pair it was made for: its quoted hash literal
/// decodes to the pair's hash, and its integer literal is the decimal text
/// of the pair's integer.
pub proof fn lemma_upsert_carries_pair(
    driver: DatabaseDrivers,
    table: Seq<char>,
    key_column: Seq<char>,
    value_column: Seq<char>,
    hash: InfoHash,
    value: int,
)
    ensures
        ({
            let s = upsert_pair_text(driver, table, key_column, value_column, hash@, value);
            let a = upsert_literal_start(driver, table, key_column, value_column);
            &&& a + 40 < s.len()
            &&& s[a - 1] == '\''
            &&& s[a + 40] == '\''
            &&& hash_literal(s, a) == hex_text(hash@)
            &&& hash_from_text(hash_literal(s, a)) == Some(hash@)
            &&& upsert_number_literal(driver, table, key_column, value_column, s) == decimal_text(value)
        }),
{
    reveal_strlit("INSERT OR REPLACE INTO ");
    reveal_strlit("INSERT INTO ");
    reveal_strlit(" (");
    reveal_strlit(" (`");
    reveal_strlit(",");
    reveal_strlit("`,`");
    reveal_strlit(") VALUES ('");
    reveal_strlit("`) VALUES (UNHEX('");
    reveal_strlit(") VALUES (decode('");
    reveal_strlit("',");
    reveal_strlit("'),");
    reveal_strlit("','hex'),");
    reveal_strlit(")");
    reveal_strlit(") ON DUPLICATE KEY UPDATE `");
    reveal_strlit("`=VALUES(`");
    reveal_strlit("`)");
    reveal_strlit(") ON CONFLICT (");
    reveal_strlit(") DO UPDATE SET ");
    reveal_strlit("=excluded.");
    lemma_info_hash_text_round_trip(hash);
    let s = upsert_pair_text(driver, table, key_column, value_column, hash@, value);
    let a = upsert_literal_start(driver, table, key_column, value_column);
    let h = hex_text(hash@);
    let d = decimal_text(value);
    assert(hash@.len() == 20);
    match driver {
        DatabaseDrivers::SQLite3 => {
            let pre = "INSERT OR REPLACE INTO "@ + table + " ("@ + key_column + ","@ + value_column
                + ") VALUES ('"@;
            assert(s =~= pre + h + "',"@ + d + ")"@);
            assert(pre.len() == a);
            assert(s.subrange(a, a + 40) =~= h);
            assert(upsert_number_literal(driver, table, key_column, value_column, s) =~= d);
        },
        DatabaseDrivers::MySQL => {
            let pre = "INSERT INTO "@ + table + " (`"@ + key_column + "`,`"@ + value_column
                + "`) VALUES (UNHEX('"@;
            let post = ") ON DUPLICATE KEY UPDATE `"@ + value_column + "`=VALUES(`"@ + value_column
                + "`)"@;
            assert(s =~= pre + h + "'),"@ + d + post);
            assert(pre.len() == a);
            assert(post.len() == 39 + 2 * value_column.len());
            assert(s.subrange(a, a + 40) =~= h);
            assert(upsert_number_literal(driver, table, key_column, value_column, s) =~= d);
        },
        DatabaseDrivers::PgSQL => {
            let pre = "INSERT INTO "@ + table + " ("@ + key_column + ","@ + value_column
                + ") VALUES (decode('"@;
            let post = ") ON CONFLICT ("@ + key_column + ") DO UPDATE SET "@ + value_column
                + "=excluded."@ + value_column;
            assert(s =~= pre + h + "','hex'),"@ + d + post);
            assert(pre.len() == a);
            assert(post.len() == 41 + key_column.len() + 2 * value_column.len());
            assert(s.subrange(a, a + 40) =~= h);
            assert(upsert_number_literal(driver, table, key_column, value_column, s) =~= d);
        },
    }
}

} // verus!
