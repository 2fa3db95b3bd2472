use tracker_db::config::{Configuration, DatabaseDrivers, DatabaseStructure};
use tracker_db::connector::{ConnectFailure, DatabaseConnector};
use tracker_db::info_hash::InfoHash;
use tracker_db::rows::{DatabaseError, HashColumn};
use tracker_db::transaction::{SaveStep, SaveTransaction, Stage};

fn structure() -> DatabaseStructure {
    DatabaseStructure {
        db_torrents: "torrents".to_string(),
        table_torrents_info_hash: "info_hash".to_string(),
        table_torrents_completed: "completed".to_string(),
        db_whitelist: "whitelist".to_string(),
        table_whitelist_info_hash: "info_hash".to_string(),
        db_blacklist: "blacklist".to_string(),
        table_blacklist_info_hash: "info_hash".to_string(),
        db_keys: "keys".to_string(),
        table_keys_hash: "hash".to_string(),
        table_keys_timeout: "timeout".to_string(),
    }
}

fn connector(driver: DatabaseDrivers) -> DatabaseConnector {
    let mut c = DatabaseConnector::new(Configuration {
        db_driver: driver,
        db_path: "sqlite://data.db".to_string(),
        db_structure: structure(),
    });
    c.connected();
    c
}

fn hash(byte: u8) -> InfoHash {
    InfoHash([byte; 20])
}

/// Runs a save to the end with every step succeeding, collecting the statements.
fn run_all(mut t: SaveTransaction) -> Vec<String> {
    let mut executed = Vec::new();
    assert!(matches!(t.current(), SaveStep::Begin));
    t.report(true);
    loop {
        match t.current() {
            SaveStep::Execute(s) => executed.push(s),
            SaveStep::Commit => {
                t.report(true);
                assert!(matches!(t.current(), SaveStep::Done));
                return executed;
            }
            other => panic!("unexpected step {:?}", other),
        }
        t.report(true);
    }
}

#[test]
fn unconnected_connector_refuses_everything() {
    let c = DatabaseConnector::new(Configuration {
        db_driver: DatabaseDrivers::SQLite3,
        db_path: "sqlite://data.db".to_string(),
        db_structure: structure(),
    });
    assert_eq!(c.engine(), None);
    assert_eq!(c.load_whitelist_query().unwrap_err(), DatabaseError::RowNotFound);
    assert_eq!(c.load_blacklist_query().unwrap_err(), DatabaseError::RowNotFound);
    assert_eq!(c.load_keys_query().unwrap_err(), DatabaseError::RowNotFound);
    assert_eq!(c.load_torrents_query().unwrap_err(), DatabaseError::RowNotFound);
    assert_eq!(c.load_whitelist(vec![]).unwrap_err(), DatabaseError::RowNotFound);
    assert_eq!(c.load_blacklist(vec![]).unwrap_err(), DatabaseError::RowNotFound);
    assert_eq!(c.load_keys(vec![]).unwrap_err(), DatabaseError::RowNotFound);
    assert_eq!(c.load_torrents(vec![]).unwrap_err(), DatabaseError::RowNotFound);
    assert_eq!(c.save_whitelist(vec![hash(1)]).err(), Some(DatabaseError::RowNotFound));
    assert_eq!(c.save_blacklist(vec![]).err(), Some(DatabaseError::RowNotFound));
    assert_eq!(c.save_keys(vec![]).err(), Some(DatabaseError::RowNotFound));
    assert_eq!(c.save_torrents(vec![]).err(), Some(DatabaseError::RowNotFound));
}

#[test]
fn connected_uses_configured_engine() {
    let c = connector(DatabaseDrivers::PgSQL);
    assert_eq!(c.engine(), Some(DatabaseDrivers::PgSQL));
    assert_eq!(c.driver(), DatabaseDrivers::PgSQL);
    assert_eq!(c.db_path(), "sqlite://data.db");
}

#[test]
fn connect_failure_policy() {
    assert_eq!(connector(DatabaseDrivers::SQLite3).connect_failure(), ConnectFailure::Exit(1));
    assert_eq!(connector(DatabaseDrivers::MySQL).connect_failure(), ConnectFailure::Exit(1));
    assert_eq!(connector(DatabaseDrivers::PgSQL).connect_failure(), ConnectFailure::Panic);
}

#[test]
fn sqlite_setup_statements() {
    let v = connector(DatabaseDrivers::SQLite3).setup_statements();
    assert_eq!(
        v,
        vec![
            "PRAGMA temp_store = memory;",
            "PRAGMA mmap_size = 30000000000;",
            "PRAGMA page_size = 4096;",
            "CREATE TABLE IF NOT EXISTS torrents (info_hash VARCHAR(40) PRIMARY KEY, completed INTEGER DEFAULT 0 NOT NULL)",
            "CREATE TABLE IF NOT EXISTS whitelist (info_hash VARCHAR(40) PRIMARY KEY)",
            "CREATE TABLE IF NOT EXISTS blacklist (info_hash VARCHAR(40) PRIMARY KEY)",
            "CREATE TABLE IF NOT EXISTS keys (hash VARCHAR(40) PRIMARY KEY, timeout INTEGER DEFAULT 0 NOT NULL)",
        ]
    );
    assert!(connector(DatabaseDrivers::MySQL).setup_statements().is_empty());
    assert!(connector(DatabaseDrivers::PgSQL).setup_statements().is_empty());
}

#[test]
fn select_queries() {
    let s = connector(DatabaseDrivers::SQLite3);
    assert_eq!(s.load_whitelist_query().unwrap(), "SELECT info_hash FROM whitelist");
    assert_eq!(s.load_blacklist_query().unwrap(), "SELECT info_hash FROM blacklist");
    assert_eq!(s.load_keys_query().unwrap(), "SELECT hash,timeout FROM keys");
    assert_eq!(s.load_torrents_query().unwrap(), "SELECT info_hash,completed FROM torrents");
    let m = connector(DatabaseDrivers::MySQL);
    assert_eq!(m.load_whitelist_query().unwrap(), "SELECT `info_hash` FROM `whitelist`");
    assert_eq!(m.load_blacklist_query().unwrap(), "SELECT `info_hash` FROM `blacklist`");
    assert_eq!(m.load_keys_query().unwrap(), "SELECT `hash`,`timeout` FROM `keys`");
    assert_eq!(m.load_torrents_query().unwrap(), "SELECT `info_hash`,`completed` FROM `torrents`");
    let p = connector(DatabaseDrivers::PgSQL);
    assert_eq!(p.load_whitelist_query().unwrap(), "SELECT info_hash FROM whitelist");
    assert_eq!(p.load_torrents_query().unwrap(), "SELECT info_hash,completed FROM torrents");
}

#[test]
fn save_whitelist_statements() {
    let hex = "ab".repeat(20);
    let s = run_all(connector(DatabaseDrivers::SQLite3).save_whitelist(vec![hash(0xab)]).unwrap());
    assert_eq!(s, vec![format!("INSERT OR REPLACE INTO whitelist (info_hash) VALUES ('{}')", hex)]);
    let m = run_all(connector(DatabaseDrivers::MySQL).save_whitelist(vec![hash(0xab), hash(1)]).unwrap());
    assert_eq!(
        m,
        vec![
            "TRUNCATE TABLE whitelist".to_string(),
            format!("INSERT INTO whitelist (info_hash) VALUES (UNHEX('{}'))", hex),
            format!("INSERT INTO whitelist (info_hash) VALUES (UNHEX('{}'))", "01".repeat(20)),
        ]
    );
    let p = run_all(connector(DatabaseDrivers::PgSQL).save_whitelist(vec![hash(0xab)]).unwrap());
    assert_eq!(
        p,
        vec![
            "TRUNCATE TABLE whitelist RESTART IDENTITY".to_string(),
            format!("INSERT INTO whitelist (info_hash) VALUES (decode('{}','hex'))", hex),
        ]
    );
}

#[test]
fn save_blacklist_statements() {
    let m = run_all(connector(DatabaseDrivers::MySQL).save_blacklist(vec![]).unwrap());
    assert_eq!(m, vec!["TRUNCATE TABLE blacklist".to_string()]);
    let s = run_all(connector(DatabaseDrivers::SQLite3).save_blacklist(vec![]).unwrap());
    assert!(s.is_empty());
}

#[test]
fn save_keys_statements() {
    let hex = "02".repeat(20);
    let s = run_all(connector(DatabaseDrivers::SQLite3).save_keys(vec![(hash(2), 1700000000)]).unwrap());
    assert_eq!(s, vec![format!("INSERT OR REPLACE INTO keys (hash,timeout) VALUES ('{}',1700000000)", hex)]);
    let m = run_all(connector(DatabaseDrivers::MySQL).save_keys(vec![(hash(2), -5)]).unwrap());
    assert_eq!(
        m,
        vec![format!(
            "INSERT INTO keys (`hash`,`timeout`) VALUES (UNHEX('{}'),-5) ON DUPLICATE KEY UPDATE `timeout`=VALUES(`timeout`)",
            hex
        )]
    );
    let p = run_all(connector(DatabaseDrivers::PgSQL).save_keys(vec![(hash(2), 0)]).unwrap());
    assert_eq!(
        p,
        vec![format!(
            "INSERT INTO keys (hash,timeout) VALUES (decode('{}','hex'),0) ON CONFLICT (hash) DO UPDATE SET timeout=excluded.timeout",
            hex
        )]
    );
}

#[test]
fn save_torrents_statements() {
    let hex = "ff".repeat(20);
    let p = run_all(
        connector(DatabaseDrivers::PgSQL)
            .save_torrents(vec![(hash(0xff), 12), (hash(0xff), 13)])
            .unwrap(),
    );
    assert_eq!(p.len(), 2);
    assert_eq!(
        p[1],
        format!(
            "INSERT INTO torrents (info_hash,completed) VALUES (decode('{}','hex'),13) ON CONFLICT (info_hash) DO UPDATE SET completed=excluded.completed",
            hex
        )
    );
    let s = run_all(connector(DatabaseDrivers::SQLite3).save_torrents(vec![(hash(0xff), i64::MIN)]).unwrap());
    assert_eq!(
        s,
        vec![format!(
            "INSERT OR REPLACE INTO torrents (info_hash,completed) VALUES ('{}',-9223372036854775808)",
            hex
        )]
    );
}

#[test]
fn load_reads_back_what_save_wrote() {
    let hashes = vec![hash(3), hash(0xc4), hash(3)];
    let sqlite = connector(DatabaseDrivers::SQLite3);
    let rows: Vec<HashColumn> = hashes.iter().map(|h| HashColumn::Text(h.to_string())).collect();
    assert_eq!(sqlite.load_whitelist(rows).unwrap(), hashes);
    let mysql = connector(DatabaseDrivers::MySQL);
    let rows: Vec<HashColumn> = hashes.iter().map(|h| HashColumn::Bytes(h.0.to_vec())).collect();
    assert_eq!(mysql.load_blacklist(rows).unwrap(), hashes);
    let pairs = vec![(hash(9), 5i64), (hash(8), -1)];
    let rows: Vec<(HashColumn, i64)> =
        pairs.iter().map(|(h, v)| (HashColumn::Bytes(h.0.to_vec()), *v)).collect();
    assert_eq!(connector(DatabaseDrivers::PgSQL).load_torrents(rows).unwrap(), pairs);
    let rows: Vec<(HashColumn, i64)> =
        pairs.iter().map(|(h, v)| (HashColumn::Text(h.to_string()), *v)).collect();
    assert_eq!(sqlite.load_keys(rows).unwrap(), pairs);
}

#[test]
fn load_reports_first_bad_row() {
    let sqlite = connector(DatabaseDrivers::SQLite3);
    let rows = vec![
        HashColumn::Text(hash(1).to_string()),
        HashColumn::Text("zz".to_string()),
        HashColumn::Text("0".to_string()),
    ];
    assert_eq!(sqlite.load_whitelist(rows).unwrap_err(), DatabaseError::InvalidInfoHash { row: 1 });
    let rows = vec![HashColumn::Bytes(vec![1; 20])];
    assert_eq!(sqlite.load_whitelist(rows).unwrap_err(), DatabaseError::InvalidInfoHash { row: 0 });
    let mysql = connector(DatabaseDrivers::MySQL);
    let rows = vec![(HashColumn::Bytes(vec![1; 20]), 1), (HashColumn::Bytes(vec![1; 19]), 2)];
    assert_eq!(mysql.load_keys(rows).unwrap_err(), DatabaseError::InvalidInfoHash { row: 1 });
    let rows = vec![HashColumn::Text(hash(1).to_string())];
    assert_eq!(mysql.load_whitelist(rows).unwrap_err(), DatabaseError::InvalidInfoHash { row: 0 });
}

#[test]
fn failed_step_aborts_save() {
    let mut t = connector(DatabaseDrivers::MySQL).save_whitelist(vec![hash(1), hash(2)]).unwrap();
    assert_eq!(t.len(), 3);
    assert_eq!(t.stage(), Stage::AwaitBegin);
    t.report(true);
    assert_eq!(t.stage(), Stage::AwaitStatement(0));
    t.report(true);
    assert_eq!(t.stage(), Stage::AwaitStatement(1));
    t.report(false);
    assert_eq!(t.stage(), Stage::Aborted);
    assert!(matches!(t.current(), SaveStep::Abort));
    t.report(true);
    assert!(matches!(t.current(), SaveStep::Abort));
}

#[test]
fn failed_begin_or_commit_aborts() {
    let mut t = SaveTransaction::new(vec![]);
    t.report(false);
    assert!(matches!(t.current(), SaveStep::Abort));
    let mut t = SaveTransaction::new(vec![]);
    t.report(true);
    assert!(matches!(t.current(), SaveStep::Commit));
    t.report(false);
    assert_eq!(t.stage(), Stage::Aborted);
}

#[test]
fn successful_save_takes_count_plus_two_steps() {
    let mut t = SaveTransaction::new(vec!["a".to_string(), "b".to_string()]);
    for _ in 0..4 {
        t.report(true);
    }
    assert_eq!(t.stage(), Stage::Done);
    t.report(false);
    assert_eq!(t.stage(), Stage::Done);
}
