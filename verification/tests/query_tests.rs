use tracker_db::config::DatabaseDrivers;
use tracker_db::info_hash::InfoHash;
use tracker_db::queries::{
    clear_table_statement, create_hash_table_statement, create_pair_table_statement,
    insert_hash_statement, select_hashes_query, select_pairs_query, upsert_pair_statement,
};

#[test]
fn clear_statements() {
    assert_eq!(clear_table_statement(DatabaseDrivers::SQLite3, "t"), None);
    assert_eq!(clear_table_statement(DatabaseDrivers::MySQL, "t"), Some("TRUNCATE TABLE t".to_string()));
    assert_eq!(
        clear_table_statement(DatabaseDrivers::PgSQL, "t"),
        Some("TRUNCATE TABLE t RESTART IDENTITY".to_string())
    );
}

#[test]
fn select_statements() {
    assert_eq!(select_hashes_query(DatabaseDrivers::MySQL, "t", "c"), "SELECT `c` FROM `t`");
    assert_eq!(select_pairs_query(DatabaseDrivers::PgSQL, "t", "k", "v"), "SELECT k,v FROM t");
}

#[test]
fn insert_and_upsert_statements() {
    let h = InfoHash([0x5a; 20]);
    let hex = "5a".repeat(20);
    assert_eq!(
        insert_hash_statement(DatabaseDrivers::PgSQL, "t", "c", &h),
        format!("INSERT INTO t (c) VALUES (decode('{}','hex'))", hex)
    );
    assert_eq!(
        upsert_pair_statement(DatabaseDrivers::MySQL, "t", "k", "v", &h, 77),
        format!("INSERT INTO t (`k`,`v`) VALUES (UNHEX('{}'),77) ON DUPLICATE KEY UPDATE `v`=VALUES(`v`)", hex)
    );
}

#[test]
fn create_statements() {
    assert_eq!(
        create_hash_table_statement("w", "h"),
        "CREATE TABLE IF NOT EXISTS w (h VARCHAR(40) PRIMARY KEY)"
    );
    assert_eq!(
        create_pair_table_statement("k", "h", "t"),
        "CREATE TABLE IF NOT EXISTS k (h VARCHAR(40) PRIMARY KEY, t INTEGER DEFAULT 0 NOT NULL)"
    );
}
