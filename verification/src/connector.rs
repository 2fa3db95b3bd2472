//! The tracker's database connector: what it sends to its engine and what it
//! makes of what comes back. Opening connections and running statements is
//! left to the code that holds the connection pool.

use vstd::prelude::*;
use crate::config::{Configuration, DatabaseDrivers, DatabaseStructure};
use crate::decimal::{decimal_text, decimal_value, lemma_decimal_text_value};
use crate::info_hash::{hash_from_text, hex_bytes, lemma_hex_round_trip, InfoHash};
use crate::queries::{
    clear_table_statement, clear_table_text, create_hash_table_statement, create_hash_table_text,
    create_pair_table_statement, create_pair_table_text, insert_hash_statement, insert_hash_text,
    hash_literal, insert_literal_start, lemma_insert_carries_hash, lemma_upsert_carries_pair,
    select_hashes_query, select_hashes_text, select_pairs_query, select_pairs_text,
    upsert_literal_start, upsert_number_literal, upsert_pair_statement, upsert_pair_text,
};
use crate::rows::{
    column_hash, decode_hash_rows, decode_hashes, decode_pair_rows, decode_pairs, hashes_result,
    hashes_view, lemma_hash_rows_outcome, lemma_pair_rows_outcome,
    lemma_load_reads_back_saved_hashes, lemma_load_reads_back_saved_pairs, pairs_result, pairs_view,
    stored_hash_column, DatabaseError, HashColumn,
};
use crate::transaction::{SaveTransaction, Stage};

verus! {

/// What to do when the connection to the configured engine cannot be opened.
#[derive(Clone, Copy, Debug, PartialEq, Eq, Structural)]
pub enum ConnectFailure {
    /// Log the failure and end the process with this exit code.
    Exit(i32),
    /// Log the failure and panic.
    Panic,
}

/// The statements of a save of a hash table: the table is emptied first
/// where the engine needs it, then one statement per hash, in order.
pub open spec fn hash_save_texts(
    driver: DatabaseDrivers,
    table: Seq<char>,
    column: Seq<char>,
    hashes: Seq<InfoHash>,
) -> Seq<Seq<char>> {
    let inserts = hashes.map_values(|h: InfoHash| insert_hash_text(driver, table, column, h@));
    match clear_table_text(driver, table) {
        Some(clear) => seq![clear] + inserts,
        None => inserts,
    }
}

/// The statements of a save of a pair table: one per pair, in order; rows
/// of other hashes are left as they are.
pub open spec fn pair_save_texts(
    driver: DatabaseDrivers,
    table: Seq<char>,
    key_column: Seq<char>,
    value_column: Seq<char>,
    pairs: Seq<(InfoHash, i64)>,
) -> Seq<Seq<char>> {
    pairs.map_values(
        |p: (InfoHash, i64)| upsert_pair_text(driver, table, key_column, value_column, p.0@, p.1 as int),
    )
}

/// The texts of a list of statements.
pub open spec fn texts(statements: Seq<String>) -> Seq<Seq<char>> {
    statements.map_values(|s: String| s@)
}

/// The statements that prepare a fresh SQLite connection: three settings,
/// then the four tables, created where they do not exist yet.
pub open spec fn sqlite_setup_texts(s: DatabaseStructure) -> Seq<Seq<char>> {
    seq![
        "PRAGMA temp_store = memory;"@,
        "PRAGMA mmap_size = 30000000000;"@,
        "PRAGMA page_size = 4096;"@,
        create_pair_table_text(s.db_torrents@, s.table_torrents_info_hash@, s.table_torrents_completed@),
        create_hash_table_text(s.db_whitelist@, s.table_whitelist_info_hash@),
        create_hash_table_text(s.db_blacklist@, s.table_blacklist_info_hash@),
        create_pair_table_text(s.db_keys@, s.table_keys_hash@, s.table_keys_timeout@),
    ]
}


/// What a load of a hash table gives for `rows`: nothing is read without an
/// engine; otherwise the rows' hashes in order, or the first row's error.
pub open spec fn hash_load(engine: Option<DatabaseDrivers>, rows: Seq<HashColumn>) -> Result<
    Seq<Seq<u8>>,
    DatabaseError,
> {
    match engine {
        None => Err(DatabaseError::RowNotFound),
        Some(driver) => decode_hash_rows(driver, rows),
    }
}

/// What a load of a pair table gives for `rows`: nothing is read without an
/// engine; otherwise the rows' pairs in order, or the first row's error.
pub open spec fn pair_load(engine: Option<DatabaseDrivers>, rows: Seq<(HashColumn, i64)>) -> Result<
    Seq<(Seq<u8>, i64)>,
    DatabaseError,
> {
    match engine {
        None => Err(DatabaseError::RowNotFound),
        Some(driver) => decode_pair_rows(driver, rows),
    }
}

/// The query a load sends, built by `build` for the connected engine; no
/// query without an engine.
pub open spec fn query_for(engine: Option<DatabaseDrivers>, r: Result<String, DatabaseError>, build: spec_fn(DatabaseDrivers) -> Seq<char>) -> bool {
    match engine {
        None => r == Err::<String, DatabaseError>(DatabaseError::RowNotFound),
        Some(driver) => r matches Ok(q) && q@ == build(driver),
    }
}

/// A save prepared for the connected engine with the statements `build`
/// gives for it, not begun yet; no save without an engine.
pub open spec fn save_for(
    engine: Option<DatabaseDrivers>,
    r: Result<SaveTransaction, DatabaseError>,
    build: spec_fn(DatabaseDrivers) -> Seq<Seq<char>>,
) -> bool {
    match r {
        Err(e) => engine is None && e == DatabaseError::RowNotFound,
        Ok(t) => engine matches Some(driver) && t@.statements == build(driver) && t@.stage
            == Stage::AwaitBegin,
    }
}


/// How many statements a hash save runs before its inserts: one where the
/// engine empties the table first, none otherwise.
pub open spec fn clear_count(driver: DatabaseDrivers, table: Seq<char>) -> int {
    if clear_table_text(driver, table) is Some {
        1
    } else {
        0
    }
}

/// What an engine stores in a hash column for a statement's hash literal:
/// SQLite keeps the text as written; MySQL's `UNHEX` and PostgreSQL's
/// `decode(.., 'hex')` keep the bytes the hexadecimal text stands for.
pub open spec fn stored_from_literal(driver: DatabaseDrivers, column: HashColumn, literal: Seq<char>) -> bool {
    match column {
        HashColumn::Text(text) => driver == DatabaseDrivers::SQLite3 && text@ == literal,
        HashColumn::Bytes(bytes) => driver != DatabaseDrivers::SQLite3 && bytes@ == hex_bytes(literal),
    }
}

/// A hash save writes each hash of the list once, in list order: after the
/// clearing statement (if any), statement `i` carries a hash literal that
/// decodes to hash `i`.
pub proof fn lemma_hash_save_carries_hashes(
    driver: DatabaseDrivers,
    table: Seq<char>,
    column: Seq<char>,
    hashes: Seq<InfoHash>,
)
    ensures
        ({
            let ts = hash_save_texts(driver, table, column, hashes);
            let k = clear_count(driver, table);
            &&& ts.len() == hashes.len() + k
            &&& k == 1 ==> Some(ts[0]) == clear_table_text(driver, table)
            &&& forall|i: int|
                0 <= i < hashes.len() ==> hash_from_text(
                    hash_literal(#[trigger] ts[i + k], insert_literal_start(driver, table, column)),
                ) == Some(hashes[i]@)
        }),
{
    let ts = hash_save_texts(driver, table, column, hashes);
    let k = clear_count(driver, table);
    assert forall|i: int| 0 <= i < hashes.len() implies hash_from_text(
        hash_literal(#[trigger] ts[i + k], insert_literal_start(driver, table, column)),
    ) == Some(hashes[i]@) by {
        lemma_insert_carries_hash(driver, table, column, hashes[i]);
    }
}

/// A pair save writes each pair of the list once, in list order: statement
/// `i` carries a hash literal that decodes to pair `i`'s hash and an integer
/// literal that is the decimal text of pair `i`'s integer.
pub proof fn lemma_pair_save_carries_pairs(
    driver: DatabaseDrivers,
    table: Seq<char>,
    key_column: Seq<char>,
    value_column: Seq<char>,
    pairs: Seq<(InfoHash, i64)>,
)
    ensures
        ({
            let ts = pair_save_texts(driver, table, key_column, value_column, pairs);
            &&& ts.len() == pairs.len()
            &&& forall|i: int|
                0 <= i < pairs.len() ==> {
                    &&& hash_from_text(
                        hash_literal(
                            #[trigger] ts[i],
                            upsert_literal_start(driver, table, key_column, value_column),
                        ),
                    ) == Some(pairs[i].0@)
                    &&& upsert_number_literal(driver, table, key_column, value_column, ts[i])
                        == decimal_text(pairs[i].1 as int)
                    &&& decimal_value(upsert_number_literal(driver, table, key_column, value_column, ts[i]))
                        == pairs[i].1
                }
        }),
{
    let ts = pair_save_texts(driver, table, key_column, value_column, pairs);
    assert forall|i: int| 0 <= i < pairs.len() implies {
        &&& hash_from_text(
            hash_literal(#[trigger] ts[i], upsert_literal_start(driver, table, key_column, value_column)),
        ) == Some(pairs[i].0@)
        &&& upsert_number_literal(driver, table, key_column, value_column, ts[i]) == decimal_text(
            pairs[i].1 as int,
        )
        &&& decimal_value(upsert_number_literal(driver, table, key_column, value_column, ts[i]))
            == pairs[i].1
    } by {
        lemma_upsert_carries_pair(driver, table, key_column, value_column, pairs[i].0, pairs[i].1 as int);
        lemma_decimal_text_value(pairs[i].1 as int);
    }
}

/// A load of a hash table reads back what a save of it wrote, on every
/// engine: when each row holds what the engine stored for the hash literal
/// of the matching insert, the connected connector's load gives exactly the
/// saved hashes, in order.
pub proof fn lemma_hash_save_then_load(
    driver: DatabaseDrivers,
    table: Seq<char>,
    column: Seq<char>,
    hashes: Seq<InfoHash>,
    rows: Seq<HashColumn>,
)
    requires
        rows.len() == hashes.len(),
        forall|i: int|
            0 <= i < rows.len() ==> stored_from_literal(
                driver,
                #[trigger] rows[i],
                hash_literal(
                    hash_save_texts(driver, table, column, hashes)[i + clear_count(driver, table)],
                    insert_literal_start(driver, table, column),
                ),
            ),
    ensures
        hash_load(Some(driver), rows) == Ok::<_, DatabaseError>(hashes_view(hashes)),
{
    let ts = hash_save_texts(driver, table, column, hashes);
    let k = clear_count(driver, table);
    assert forall|i: int| 0 <= i < rows.len() implies stored_hash_column(driver, #[trigger] rows[i], hashes[i]) by {
        lemma_insert_carries_hash(driver, table, column, hashes[i]);
        lemma_hex_round_trip(hashes[i]@);
        assert(ts[i + k] == insert_hash_text(driver, table, column, hashes[i]@));
    }
    lemma_load_reads_back_saved_hashes(driver, hashes, rows);
}

/// A load of a pair table reads back what a save of it wrote, on every
/// engine: when each row holds what the engine stored for the hash literal
/// of the matching upsert, and the integer that upsert's integer literal
/// stands for, the connected connector's load gives exactly the saved
/// pairs, in order.
pub proof fn lemma_pair_save_then_load(
    driver: DatabaseDrivers,
    table: Seq<char>,
    key_column: Seq<char>,
    value_column: Seq<char>,
    pairs: Seq<(InfoHash, i64)>,
    rows: Seq<(HashColumn, i64)>,
)
    requires
        rows.len() == pairs.len(),
        forall|i: int|
            0 <= i < rows.len() ==> {
                let statement = pair_save_texts(driver, table, key_column, value_column, pairs)[i];
                &&& stored_from_literal(
                    driver,
                    (#[trigger] rows[i]).0,
                    hash_literal(statement, upsert_literal_start(driver, table, key_column, value_column)),
                )
                &&& rows[i].1 == decimal_value(
                    upsert_number_literal(driver, table, key_column, value_column, statement),
                )
            },
    ensures
        pair_load(Some(driver), rows) == Ok::<_, DatabaseError>(pairs_view(pairs)),
{
    let ts = pair_save_texts(driver, table, key_column, value_column, pairs);
    assert forall|i: int| 0 <= i < rows.len() implies stored_hash_column(driver, (#[trigger] rows[i]).0, pairs[i].0)
        && rows[i].1 == pairs[i].1 by {
        lemma_upsert_carries_pair(driver, table, key_column, value_column, pairs[i].0, pairs[i].1 as int);
        lemma_hex_round_trip(pairs[i].0@);
        assert(ts[i] == upsert_pair_text(driver, table, key_column, value_column, pairs[i].0@, pairs[i].1 as int));
        lemma_decimal_text_value(pairs[i].1 as int);
    }
    lemma_load_reads_back_saved_pairs(driver, pairs, rows);
}


/// A connected connector's load of a hash table gives one hash per row, each
/// the hash its row holds, in row order; or it names the first row that
/// holds none. It never answers as if it were not connected.
pub proof fn lemma_connected_hash_load(driver: DatabaseDrivers, rows: Seq<HashColumn>)
    requires
        rows.len() <= usize::MAX,
    ensures
        hash_load(Some(driver), rows) matches Ok(hashes) ==> hashes.len() == rows.len() && forall|i: int|
            0 <= i < rows.len() ==> column_hash(driver, #[trigger] rows[i]) == Some(hashes[i]),
        hash_load(Some(driver), rows) matches Err(e) ==> e matches DatabaseError::InvalidInfoHash { row }
            && row < rows.len() && column_hash(driver, rows[row as int]) is None && forall|j: int|
            0 <= j < row ==> column_hash(driver, #[trigger] rows[j]) is Some,
{
    lemma_hash_rows_outcome(driver, rows);
}

/// A connected connector's load of a pair table gives one pair per row, each
/// the row's hash with the row's integer, in row order; or it names the
/// first row that holds no hash. It never answers as if it were not connected.
pub proof fn lemma_connected_pair_load(driver: DatabaseDrivers, rows: Seq<(HashColumn, i64)>)
    requires
        rows.len() <= usize::MAX,
    ensures
        pair_load(Some(driver), rows) matches Ok(pairs) ==> pairs.len() == rows.len() && forall|i: int|
            0 <= i < rows.len() ==> column_hash(driver, (#[trigger] rows[i]).0) == Some(pairs[i].0)
                && pairs[i].1 == rows[i].1,
        pair_load(Some(driver), rows) matches Err(e) ==> e matches DatabaseError::InvalidInfoHash { row }
            && row < rows.len() && column_hash(driver, rows[row as int].0) is None && forall|j: int|
            0 <= j < row ==> column_hash(driver, (#[trigger] rows[j]).0) is Some,
{
    lemma_pair_rows_outcome(driver, rows);
}

/// Builds `hash_save_texts`.
fn hash_save_statements(
    driver: DatabaseDrivers,
    table: &str,
    column: &str,
    hashes: &Vec<InfoHash>,
) -> (v: Vec<String>)
    ensures
        texts(v@) == hash_save_texts(driver, table@, column@, hashes@),
{
    let mut v: Vec<String> = Vec::new();
    let clear = clear_table_statement(driver, table);
    let ghost prefix: Seq<Seq<char>> = match clear_table_text(driver, table@) {
        Some(c) => seq![c],
        None => seq![],
    };
    match clear {
        Some(c) => v.push(c),
        None => {},
    }
    assert(texts(v@) =~= prefix);
    let mut i: usize = 0;
    while i < hashes.len()
        invariant
            i <= hashes@.len(),
            texts(v@) =~= prefix + hashes@.take(i as int).map_values(
                |h: InfoHash| insert_hash_text(driver, table@, column@, h@),
            ),
        decreases hashes.len() - i,
    {
        let q = insert_hash_statement(driver, table, column, &hashes[i]);
        let ghost before = v@;
        v.push(q);
        assert(texts(v@) =~= texts(before).push(q@));
        assert(hashes@.take(i + 1) =~= hashes@.take(i as int).push(hashes@[i as int]));
        assert(hashes@.take(i + 1).map_values(|h: InfoHash| insert_hash_text(driver, table@, column@, h@))
            =~= hashes@.take(i as int).map_values(
            |h: InfoHash| insert_hash_text(driver, table@, column@, h@),
        ).push(q@));
        i = i + 1;
    }
    assert(hashes@.take(i as int) =~= hashes@);
    v
}

/// Builds `pair_save_texts`.
fn pair_save_statements(
    driver: DatabaseDrivers,
    table: &str,
    key_column: &str,
    value_column: &str,
    pairs: &Vec<(InfoHash, i64)>,
) -> (v: Vec<String>)
    ensures
        texts(v@) == pair_save_texts(driver, table@, key_column@, value_column@, pairs@),
{
    let mut v: Vec<String> = Vec::new();
    let mut i: usize = 0;
    while i < pairs.len()
        invariant
            i <= pairs@.len(),
            texts(v@) =~= pairs@.take(i as int).map_values(
                |p: (InfoHash, i64)|
                    upsert_pair_text(driver, table@, key_column@, value_column@, p.0@, p.1 as int),
            ),
        decreases pairs.len() - i,
    {
        let pair = &pairs[i];
        let q = upsert_pair_statement(driver, table, key_column, value_column, &pair.0, pair.1);
        let ghost before = v@;
        v.push(q);
        assert(texts(v@) =~= texts(before).push(q@));
        assert(pairs@.take(i + 1) =~= pairs@.take(i as int).push(pairs@[i as int]));
        assert(pairs@.take(i + 1).map_values(
            |p: (InfoHash, i64)| upsert_pair_text(driver, table@, key_column@, value_column@, p.0@, p.1 as int),
        ) =~= pairs@.take(i as int).map_values(
            |p: (InfoHash, i64)| upsert_pair_text(driver, table@, key_column@, value_column@, p.0@, p.1 as int),
        ).push(q@));
        i = i + 1;
    }
    assert(pairs@.take(i as int) =~= pairs@);
    v
}

/// The model of a connector: its configuration, and the engine it is
/// connected to, if any.
pub struct DatabaseConnectorView {
    pub config: Configuration,
    pub engine: Option<DatabaseDrivers>,
}

/// The tracker's database connector.
#[derive(Clone)]
pub struct DatabaseConnector {
    config: Configuration,
    engine: Option<DatabaseDrivers>,
}

impl View for DatabaseConnector {
    type V = DatabaseConnectorView;

    closed spec fn view(&self) -> DatabaseConnectorView {
        DatabaseConnectorView { config: self.config, engine: self.engine }
    }
}

impl DatabaseConnector {
    /// A connector for `config` that is not connected yet.
    pub fn new(config: Configuration) -> (c: DatabaseConnector)
        ensures
            c@.config == config,
            c@.engine is None,
    {
        DatabaseConnector { config, engine: None }
    }

    /// Records that the connection to the configured engine was opened:
    /// from now on, requests go to that engine.
    pub fn connected(&mut self)
        ensures
            final(self)@.config == old(self)@.config,
            final(self)@.engine == Some(old(self)@.config.db_driver),
    {
        self.engine = Some(self.config.db_driver);
    }

    /// The configured engine.
    pub fn driver(&self) -> (d: DatabaseDrivers)
        ensures
            d == self@.config.db_driver,
    {
        self.config.db_driver
    }

    /// The engine requests go to, if the connector is connected.
    pub fn engine(&self) -> (e: Option<DatabaseDrivers>)
        ensures
            e == self@.engine,
    {
        self.engine
    }

    /// The configured connection string.
    pub fn db_path(&self) -> (p: &str)
        ensures
            p@ == self@.config.db_path@,
    {
        self.config.db_path.as_str()
    }

    /// What to do when the connection cannot be opened: SQLite and MySQL end
    /// the process with exit code 1, PostgreSQL panics.
    pub fn connect_failure(&self) -> (f: ConnectFailure)
        ensures
            f == match self@.config.db_driver {
                DatabaseDrivers::PgSQL => ConnectFailure::Panic,
                _ => ConnectFailure::Exit(1),
            },
    {
        match self.config.db_driver {
            DatabaseDrivers::PgSQL => ConnectFailure::Panic,
            _ => ConnectFailure::Exit(1),
        }
    }

    /// The statements to run, in order, right after connecting, with their
    /// results ignored: the SQLite settings and tables; none for the other engines.
    pub fn setup_statements(&self) -> (v: Vec<String>)
        ensures
            texts(v@) == if self@.config.db_driver == DatabaseDrivers::SQLite3 {
                sqlite_setup_texts(self@.config.db_structure)
            } else {
                Seq::<Seq<char>>::empty()
            },
    {
        let mut v: Vec<String> = Vec::new();
        if self.config.db_driver == DatabaseDrivers::SQLite3 {
            let s = &self.config.db_structure;
            v.push(String::from_str("PRAGMA temp_store = memory;"));
            v.push(String::from_str("PRAGMA mmap_size = 30000000000;"));
            v.push(String::from_str("PRAGMA page_size = 4096;"));
            v.push(
                create_pair_table_statement(
                    s.db_torrents.as_str(),
                    s.table_torrents_info_hash.as_str(),
                    s.table_torrents_completed.as_str(),
                ),
            );
            v.push(create_hash_table_statement(s.db_whitelist.as_str(), s.table_whitelist_info_hash.as_str()));
            v.push(create_hash_table_statement(s.db_blacklist.as_str(), s.table_blacklist_info_hash.as_str()));
            v.push(
                create_pair_table_statement(
                    s.db_keys.as_str(),
                    s.table_keys_hash.as_str(),
                    s.table_keys_timeout.as_str(),
                ),
            );
            assert(texts(v@) =~= sqlite_setup_texts(self@.config.db_structure));
        } else {
            assert(texts(v@) =~= Seq::<Seq<char>>::empty());
        }
        v
    }
    /// The query that reads the whitelist.
    pub fn load_whitelist_query(&self) -> (r: Result<String, DatabaseError>)
        ensures
            query_for(
                self@.engine,
                r,
                |d: DatabaseDrivers|
                    select_hashes_text(
                        d,
                        self@.config.db_structure.db_whitelist@,
                        self@.config.db_structure.table_whitelist_info_hash@,
                    ),
            ),
    {
        match self.engine {
            None => Err(DatabaseError::RowNotFound),
            Some(d) => {
                let s = &self.config.db_structure;
                Ok(select_hashes_query(d, s.db_whitelist.as_str(), s.table_whitelist_info_hash.as_str()))
            },
        }
    }

    /// The query that reads the blacklist.
    pub fn load_blacklist_query(&self) -> (r: Result<String, DatabaseError>)
        ensures
            query_for(
                self@.engine,
                r,
                |d: DatabaseDrivers|
                    select_hashes_text(
                        d,
                        self@.config.db_structure.db_blacklist@,
                        self@.config.db_structure.table_blacklist_info_hash@,
                    ),
            ),
    {
        match self.engine {
            None => Err(DatabaseError::RowNotFound),
            Some(d) => {
                let s = &self.config.db_structure;
                Ok(select_hashes_query(d, s.db_blacklist.as_str(), s.table_blacklist_info_hash.as_str()))
            },
        }
    }

    /// The query that reads the access keys with their expiry times.
    pub fn load_keys_query(&self) -> (r: Result<String, DatabaseError>)
        ensures
            query_for(
                self@.engine,
                r,
                |d: DatabaseDrivers|
                    select_pairs_text(
                        d,
                        self@.config.db_structure.db_keys@,
                        self@.config.db_structure.table_keys_hash@,
                        self@.config.db_structure.table_keys_timeout@,
                    ),
            ),
    {
        match self.engine {
            None => Err(DatabaseError::RowNotFound),
            Some(d) => {
                let s = &self.config.db_structure;
                Ok(
                    select_pairs_query(
                        d,
                        s.db_keys.as_str(),
                        s.table_keys_hash.as_str(),
                        s.table_keys_timeout.as_str(),
                    ),
                )
            },
        }
    }

    /// The query that reads the torrents with their completed counts.
    pub fn load_torrents_query(&self) -> (r: Result<String, DatabaseError>)
        ensures
            query_for(
                self@.engine,
                r,
                |d: DatabaseDrivers|
                    select_pairs_text(
                        d,
                        self@.config.db_structure.db_torrents@,
                        self@.config.db_structure.table_torrents_info_hash@,
                        self@.config.db_structure.table_torrents_completed@,
                    ),
            ),
    {
        match self.engine {
            None => Err(DatabaseError::RowNotFound),
            Some(d) => {
                let s = &self.config.db_structure;
                Ok(
                    select_pairs_query(
                        d,
                        s.db_torrents.as_str(),
                        s.table_torrents_info_hash.as_str(),
                        s.table_torrents_completed.as_str(),
                    ),
                )
            },
        }
    }

    /// The whitelisted hashes held by `rows`, the rows the whitelist query
    /// returned, in order.
    pub fn load_whitelist(&self, rows: Vec<HashColumn>) -> (r: Result<Vec<InfoHash>, DatabaseError>)
        ensures
            hashes_result(r) == hash_load(self@.engine, rows@),
    {
        match self.engine {
            None => Err(DatabaseError::RowNotFound),
            Some(d) => decode_hashes(d, &rows),
        }
    }

    /// The blacklisted hashes held by `rows`, the rows the blacklist query
    /// returned, in order.
    pub fn load_blacklist(&self, rows: Vec<HashColumn>) -> (r: Result<Vec<InfoHash>, DatabaseError>)
        ensures
            hashes_result(r) == hash_load(self@.engine, rows@),
    {
        match self.engine {
            None => Err(DatabaseError::RowNotFound),
            Some(d) => decode_hashes(d, &rows),
        }
    }

    /// The access keys and their expiry times held by `rows`, the rows the
    /// keys query returned, in order.
    pub fn load_keys(&self, rows: Vec<(HashColumn, i64)>) -> (r: Result<Vec<(InfoHash, i64)>, DatabaseError>)
        ensures
            pairs_result(r) == pair_load(self@.engine, rows@),
    {
        match self.engine {
            None => Err(DatabaseError::RowNotFound),
            Some(d) => decode_pairs(d, &rows),
        }
    }

    /// The torrents and their completed counts held by `rows`, the rows the
    /// torrents query returned, in order.
    pub fn load_torrents(&self, rows: Vec<(HashColumn, i64)>) -> (r: Result<
        Vec<(InfoHash, i64)>,
        DatabaseError,
    >)
        ensures
            pairs_result(r) == pair_load(self@.engine, rows@),
    {
        match self.engine {
            None => Err(DatabaseError::RowNotFound),
            Some(d) => decode_pairs(d, &rows),
        }
    }

    /// The save that replaces the stored whitelist by `whitelists`.
    pub fn save_whitelist(&self, whitelists: Vec<InfoHash>) -> (r: Result<SaveTransaction, DatabaseError>)
        ensures
            save_for(
                self@.engine,
                r,
                |d: DatabaseDrivers|
                    hash_save_texts(
                        d,
                        self@.config.db_structure.db_whitelist@,
                        self@.config.db_structure.table_whitelist_info_hash@,
                        whitelists@,
                    ),
            ),
    {
        match self.engine {
            None => Err(DatabaseError::RowNotFound),
            Some(d) => {
                let s = &self.config.db_structure;
                let v = hash_save_statements(
                    d,
                    s.db_whitelist.as_str(),
                    s.table_whitelist_info_hash.as_str(),
                    &whitelists,
                );
                Ok(SaveTransaction::new(v))
            },
        }
    }

    /// The save that replaces the stored blacklist by `blacklists`.
    pub fn save_blacklist(&self, blacklists: Vec<InfoHash>) -> (r: Result<SaveTransaction, DatabaseError>)
        ensures
            save_for(
                self@.engine,
                r,
                |d: DatabaseDrivers|
                    hash_save_texts(
                        d,
                        self@.config.db_structure.db_blacklist@,
                        self@.config.db_structure.table_blacklist_info_hash@,
                        blacklists@,
                    ),
            ),
    {
        match self.engine {
            None => Err(DatabaseError::RowNotFound),
            Some(d) => {
                let s = &self.config.db_structure;
                let v = hash_save_statements(
                    d,
                    s.db_blacklist.as_str(),
                    s.table_blacklist_info_hash.as_str(),
                    &blacklists,
                );
                Ok(SaveTransaction::new(v))
            },
        }
    }

    /// The save that writes each access key with its expiry time.
    pub fn save_keys(&self, keys: Vec<(InfoHash, i64)>) -> (r: Result<SaveTransaction, DatabaseError>)
        ensures
            save_for(
                self@.engine,
                r,
                |d: DatabaseDrivers|
                    pair_save_texts(
                        d,
                        self@.config.db_structure.db_keys@,
                        self@.config.db_structure.table_keys_hash@,
                        self@.config.db_structure.table_keys_timeout@,
                        keys@,
                    ),
            ),
    {
        match self.engine {
            None => Err(DatabaseError::RowNotFound),
            Some(d) => {
                let s = &self.config.db_structure;
                let v = pair_save_statements(
                    d,
                    s.db_keys.as_str(),
                    s.table_keys_hash.as_str(),
                    s.table_keys_timeout.as_str(),
                    &keys,
                );
                Ok(SaveTransaction::new(v))
            },
        }
    }

    /// The save that writes each torrent with its completed count. The
    /// torrents come in the order the caller walked its map in.
    pub fn save_torrents(&self, torrents: Vec<(InfoHash, i64)>) -> (r: Result<SaveTransaction, DatabaseError>)
        ensures
            save_for(
                self@.engine,
                r,
                |d: DatabaseDrivers|
                    pair_save_texts(
                        d,
                        self@.config.db_structure.db_torrents@,
                        self@.config.db_structure.table_torrents_info_hash@,
                        self@.config.db_structure.table_torrents_completed@,
                        torrents@,
                    ),
            ),
    {
        match self.engine {
            None => Err(DatabaseError::RowNotFound),
            Some(d) => {
                let s = &self.config.db_structure;
                let v = pair_save_statements(
                    d,
                    s.db_torrents.as_str(),
                    s.table_torrents_info_hash.as_str(),
                    s.table_torrents_completed.as_str(),
                    &torrents,
                );
                Ok(SaveTransaction::new(v))
            },
        }
    }
}

} // verus!
