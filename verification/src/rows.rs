//! Decoding the rows that a load reads back into info hashes.

use vstd::prelude::*;
use crate::config::DatabaseDrivers;
use crate::info_hash::{
    hash_from_bytes, hash_from_text, hex_text, lemma_info_hash_bytes_round_trip,
    lemma_info_hash_text_round_trip, InfoHash,
};

verus! {

/// Why the storage logic refused a request or a row.
#[derive(Clone, Copy, Debug, PartialEq, Eq, Structural)]
pub enum DatabaseError {
    /// No engine is connected; the request was not sent anywhere.
    RowNotFound,
    /// The row at this position (counted from 0) holds no readable info hash:
    /// its column is not of the kind the engine hands back, or not
    /// hexadecimal where that is expected, or shorter than 20 bytes.
    InvalidInfoHash { row: usize },
}

/// The info hash column of a row as a driver hands it back: SQLite gives the
/// stored hexadecimal text, MySQL and PostgreSQL give the stored bytes.
#[derive(Clone, Debug)]
pub enum HashColumn {
    Text(String),
    Bytes(Vec<u8>),
}

/// The hash that an engine's column holds, if it holds one.
pub open spec fn column_hash(driver: DatabaseDrivers, column: HashColumn) -> Option<Seq<u8>> {
    match column {
        HashColumn::Text(text) => if driver == DatabaseDrivers::SQLite3 {
            hash_from_text(text@)
        } else {
            None
        },
        HashColumn::Bytes(bytes) => if driver != DatabaseDrivers::SQLite3 {
            hash_from_bytes(bytes@)
        } else {
            None
        },
    }
}

/// The hashes of a table's rows, in row order, or the error for the first
/// row that holds none.
pub open spec fn decode_hash_rows(driver: DatabaseDrivers, rows: Seq<HashColumn>) -> Result<
    Seq<Seq<u8>>,
    DatabaseError,
>
    decreases rows.len(),
{
    if rows.len() == 0 {
        Ok(seq![])
    } else {
        match decode_hash_rows(driver, rows.drop_last()) {
            Err(e) => Err(e),
            Ok(hashes) => match column_hash(driver, rows.last()) {
                Some(h) => Ok(hashes.push(h)),
                None => Err(DatabaseError::InvalidInfoHash { row: (rows.len() - 1) as usize }),
            },
        }
    }
}

/// The (hash, integer) pairs of a table's rows, in row order, or the error
/// for the first row that holds no hash.
pub open spec fn decode_pair_rows(driver: DatabaseDrivers, rows: Seq<(HashColumn, i64)>) -> Result<
    Seq<(Seq<u8>, i64)>,
    DatabaseError,
>
    decreases rows.len(),
{
    if rows.len() == 0 {
        Ok(seq![])
    } else {
        match decode_pair_rows(driver, rows.drop_last()) {
            Err(e) => Err(e),
            Ok(pairs) => match column_hash(driver, rows.last().0) {
                Some(h) => Ok(pairs.push((h, rows.last().1))),
                None => Err(DatabaseError::InvalidInfoHash { row: (rows.len() - 1) as usize }),
            },
        }
    }
}

/// The model of decoded hashes.
pub open spec fn hashes_view(hashes: Seq<InfoHash>) -> Seq<Seq<u8>> {
    hashes.map_values(|h: InfoHash| h@)
}

/// The model of decoded pairs.
pub open spec fn pairs_view(pairs: Seq<(InfoHash, i64)>) -> Seq<(Seq<u8>, i64)> {
    pairs.map_values(|p: (InfoHash, i64)| (p.0@, p.1))
}

/// The model of the outcome of a load of hashes.
pub open spec fn hashes_result(r: Result<Vec<InfoHash>, DatabaseError>) -> Result<Seq<Seq<u8>>, DatabaseError> {
    match r {
        Ok(hashes) => Ok(hashes_view(hashes@)),
        Err(e) => Err(e),
    }
}

/// The model of the outcome of a load of pairs.
pub open spec fn pairs_result(r: Result<Vec<(InfoHash, i64)>, DatabaseError>) -> Result<
    Seq<(Seq<u8>, i64)>,
    DatabaseError,
> {
    match r {
        Ok(pairs) => Ok(pairs_view(pairs@)),
        Err(e) => Err(e),
    }
}

/// Once a prefix of the rows fails to decode, all of them fail with the same error.
proof fn lemma_hash_rows_error_persists(driver: DatabaseDrivers, rows: Seq<HashColumn>, k: int)
    requires
        0 <= k <= rows.len(),
        decode_hash_rows(driver, rows.take(k)) is Err,
    ensures
        decode_hash_rows(driver, rows) == decode_hash_rows(driver, rows.take(k)),
    decreases rows.len() - k,
{
    if k < rows.len() {
        assert(rows.take(k + 1).drop_last() =~= rows.take(k));
        lemma_hash_rows_error_persists(driver, rows, k + 1);
    } else {
        assert(rows.take(k) =~= rows);
    }
}

/// Once a prefix of the rows fails to decode, all of them fail with the same error.
proof fn lemma_pair_rows_error_persists(driver: DatabaseDrivers, rows: Seq<(HashColumn, i64)>, k: int)
    requires
        0 <= k <= rows.len(),
        decode_pair_rows(driver, rows.take(k)) is Err,
    ensures
        decode_pair_rows(driver, rows) == decode_pair_rows(driver, rows.take(k)),
    decreases rows.len() - k,
{
    if k < rows.len() {
        assert(rows.take(k + 1).drop_last() =~= rows.take(k));
        lemma_pair_rows_error_persists(driver, rows, k + 1);
    } else {
        assert(rows.take(k) =~= rows);
    }
}

/// The hash that `column` holds for `driver`.
pub fn decode_column(driver: DatabaseDrivers, column: &HashColumn) -> (r: Option<InfoHash>)
    ensures
        r is Some <==> column_hash(driver, *column) is Some,
        r matches Some(h) ==> column_hash(driver, *column) == Some(h@),
{
    match column {
        HashColumn::Text(text) => if driver == DatabaseDrivers::SQLite3 {
            InfoHash::from_hex(text.as_str())
        } else {
            None
        },
        HashColumn::Bytes(bytes) => if driver != DatabaseDrivers::SQLite3 {
            InfoHash::from_bytes(bytes.as_slice())
        } else {
            None
        },
    }
}

/// Decodes the hash column of every row, in order; fails at the first row
/// that holds no hash.
pub fn decode_hashes(driver: DatabaseDrivers, rows: &Vec<HashColumn>) -> (r: Result<Vec<InfoHash>, DatabaseError>)
    ensures
        hashes_result(r) == decode_hash_rows(driver, rows@),
{
    let mut out: Vec<InfoHash> = Vec::new();
    let mut i: usize = 0;
    assert(rows@.take(0).len() == 0);
    assert(hashes_view(out@) =~= seq![]);
    while i < rows.len()
        invariant
            i <= rows@.len(),
            decode_hash_rows(driver, rows@.take(i as int)) == Ok::<_, DatabaseError>(hashes_view(out@)),
        decreases rows.len() - i,
    {
        assert(rows@.take(i + 1).drop_last() =~= rows@.take(i as int));
        assert(rows@.take(i + 1).last() == rows@[i as int]);
        match decode_column(driver, &rows[i]) {
            Some(h) => {
                let ghost before = out@;
                out.push(h);
                assert(hashes_view(out@) =~= hashes_view(before).push(h@));
            },
            None => {
                proof {
                    lemma_hash_rows_error_persists(driver, rows@, i + 1);
                }
                return Err(DatabaseError::InvalidInfoHash { row: i });
            },
        }
        i = i + 1;
    }
    assert(rows@.take(i as int) =~= rows@);
    Ok(out)
}

/// Decodes every row's hash column and takes its integer along, in order;
/// fails at the first row that holds no hash.
pub fn decode_pairs(driver: DatabaseDrivers, rows: &Vec<(HashColumn, i64)>) -> (r: Result<
    Vec<(InfoHash, i64)>,
    DatabaseError,
>)
    ensures
        pairs_result(r) == decode_pair_rows(driver, rows@),
{
    let mut out: Vec<(InfoHash, i64)> = Vec::new();
    let mut i: usize = 0;
    assert(rows@.take(0).len() == 0);
    assert(pairs_view(out@) =~= seq![]);
    while i < rows.len()
        invariant
            i <= rows@.len(),
            decode_pair_rows(driver, rows@.take(i as int)) == Ok::<_, DatabaseError>(pairs_view(out@)),
        decreases rows.len() - i,
    {
        assert(rows@.take(i + 1).drop_last() =~= rows@.take(i as int));
        assert(rows@.take(i + 1).last() == rows@[i as int]);
        let row = &rows[i];
        match decode_column(driver, &row.0) {
            Some(h) => {
                let ghost before = out@;
                out.push((h, row.1));
                assert(pairs_view(out@) =~= pairs_view(before).push((h@, row.1)));
            },
            None => {
                proof {
                    lemma_pair_rows_error_persists(driver, rows@, i + 1);
                }
                return Err(DatabaseError::InvalidInfoHash { row: i });
            },
        }
        i = i + 1;
    }
    assert(rows@.take(i as int) =~= rows@);
    Ok(out)
}


/// How an engine hands back the hash column of a row that a save wrote for
/// `hash`: SQLite stores the hexadecimal text it was given, MySQL (`UNHEX`)
/// and PostgreSQL (`decode(.., 'hex')`) store the 20 bytes that text stands for.
pub open spec fn stored_hash_column(driver: DatabaseDrivers, column: HashColumn, hash: InfoHash) -> bool {
    match column {
        HashColumn::Text(text) => driver == DatabaseDrivers::SQLite3 && text@ == hex_text(hash@),
        HashColumn::Bytes(bytes) => driver != DatabaseDrivers::SQLite3 && bytes@ == hash@,
    }
}

/// A load reads back what a save wrote: rows that hold, in order, the hash
/// columns stored for `hashes` decode to exactly `hashes`.
pub proof fn lemma_load_reads_back_saved_hashes(
    driver: DatabaseDrivers,
    hashes: Seq<InfoHash>,
    rows: Seq<HashColumn>,
)
    requires
        rows.len() == hashes.len(),
        forall|i: int| 0 <= i < rows.len() ==> stored_hash_column(driver, #[trigger] rows[i], hashes[i]),
    ensures
        decode_hash_rows(driver, rows) == Ok::<_, DatabaseError>(hashes_view(hashes)),
    decreases rows.len(),
{
    if rows.len() > 0 {
        let n = rows.len() - 1;
        lemma_load_reads_back_saved_hashes(driver, hashes.drop_last(), rows.drop_last());
        assert(stored_hash_column(driver, rows[n], hashes[n]));
        lemma_info_hash_text_round_trip(hashes[n]);
        lemma_info_hash_bytes_round_trip(hashes[n]);
        assert(column_hash(driver, rows.last()) == Some(hashes.last()@));
        assert(hashes_view(hashes) =~= hashes_view(hashes.drop_last()).push(hashes.last()@));
    } else {
        assert(hashes_view(hashes) =~= seq![]);
    }
}

/// A load reads back what a save wrote: rows that hold, in order, the hash
/// columns stored for the pairs' hashes, with the pairs' integers, decode to
/// exactly those pairs.
pub proof fn lemma_load_reads_back_saved_pairs(
    driver: DatabaseDrivers,
    pairs: Seq<(InfoHash, i64)>,
    rows: Seq<(HashColumn, i64)>,
)
    requires
        rows.len() == pairs.len(),
        forall|i: int|
            0 <= i < rows.len() ==> stored_hash_column(driver, (#[trigger] rows[i]).0, pairs[i].0)
                && rows[i].1 == pairs[i].1,
    ensures
        decode_pair_rows(driver, rows) == Ok::<_, DatabaseError>(pairs_view(pairs)),
    decreases rows.len(),
{
    if rows.len() > 0 {
        let n = rows.len() - 1;
        lemma_load_reads_back_saved_pairs(driver, pairs.drop_last(), rows.drop_last());
        assert(stored_hash_column(driver, rows[n].0, pairs[n].0));
        lemma_info_hash_text_round_trip(pairs[n].0);
        lemma_info_hash_bytes_round_trip(pairs[n].0);
        assert(column_hash(driver, rows.last().0) == Some(pairs.last().0@));
        assert(pairs_view(pairs) =~= pairs_view(pairs.drop_last()).push((pairs.last().0@, pairs.last().1)));
    } else {
        assert(pairs_view(pairs) =~= seq![]);
    }
}


/// A load of a hash table either gives one hash per row, each the hash its
/// row holds, in row order; or it names the first row that holds none.
pub proof fn lemma_hash_rows_outcome(driver: DatabaseDrivers, rows: Seq<HashColumn>)
    requires
        rows.len() <= usize::MAX,
    ensures
        decode_hash_rows(driver, rows) matches Ok(hashes) ==> hashes.len() == rows.len() && forall|i: int|
            0 <= i < rows.len() ==> column_hash(driver, #[trigger] rows[i]) == Some(hashes[i]),
        decode_hash_rows(driver, rows) matches Err(e) ==> e matches DatabaseError::InvalidInfoHash { row }
            && row < rows.len() && column_hash(driver, rows[row as int]) is None && forall|j: int|
            0 <= j < row ==> column_hash(driver, #[trigger] rows[j]) is Some,
    decreases rows.len(),
{
    if rows.len() > 0 {
        let prev = rows.drop_last();
        let n = prev.len() as int;
        lemma_hash_rows_outcome(driver, prev);
        assert(forall|j: int| 0 <= j < n ==> prev[j] == rows[j]);
        match decode_hash_rows(driver, prev) {
            Err(e) => {
                assert(decode_hash_rows(driver, rows) == Err::<Seq<Seq<u8>>, DatabaseError>(e));
                if let DatabaseError::InvalidInfoHash { row } = e {
                    assert forall|j: int| 0 <= j < row implies column_hash(driver, #[trigger] rows[j]) is Some by {
                        assert(prev[j] == rows[j]);
                    }
                    assert(prev[row as int] == rows[row as int]);
                }
            },
            Ok(hashes) => {
                match column_hash(driver, rows.last()) {
                    Some(h) => {
                        let out = hashes.push(h);
                        assert(decode_hash_rows(driver, rows) == Ok::<_, DatabaseError>(out));
                        assert forall|i: int| 0 <= i < rows.len() implies column_hash(driver, #[trigger] rows[i])
                            == Some(out[i]) by {
                            if i < n {
                                assert(prev[i] == rows[i]);
                            }
                        }
                    },
                    None => {
                        assert forall|j: int| 0 <= j < n implies column_hash(driver, #[trigger] rows[j]) is Some by {
                            assert(prev[j] == rows[j]);
                        }
                    },
                }
            },
        }
    }
}

/// A load of a pair table either gives one pair per row, each the row's
/// hash with the row's integer, in row order; or it names the first row that
/// holds no hash.
pub proof fn lemma_pair_rows_outcome(driver: DatabaseDrivers, rows: Seq<(HashColumn, i64)>)
    requires
        rows.len() <= usize::MAX,
    ensures
        decode_pair_rows(driver, rows) matches Ok(pairs) ==> pairs.len() == rows.len() && forall|i: int|
            0 <= i < rows.len() ==> column_hash(driver, (#[trigger] rows[i]).0) == Some(pairs[i].0)
                && pairs[i].1 == rows[i].1,
        decode_pair_rows(driver, rows) matches Err(e) ==> e matches DatabaseError::InvalidInfoHash { row }
            && row < rows.len() && column_hash(driver, rows[row as int].0) is None && forall|j: int|
            0 <= j < row ==> column_hash(driver, (#[trigger] rows[j]).0) is Some,
    decreases rows.len(),
{
    if rows.len() > 0 {
        let prev = rows.drop_last();
        let n = prev.len() as int;
        lemma_pair_rows_outcome(driver, prev);
        assert(forall|j: int| 0 <= j < n ==> prev[j] == rows[j]);
        match decode_pair_rows(driver, prev) {
            Err(e) => {
                assert(decode_pair_rows(driver, rows) == Err::<Seq<(Seq<u8>, i64)>, DatabaseError>(e));
                if let DatabaseError::InvalidInfoHash { row } = e {
                    assert forall|j: int| 0 <= j < row implies column_hash(driver, (#[trigger] rows[j]).0) is Some by {
                        assert(prev[j] == rows[j]);
                    }
                    assert(prev[row as int] == rows[row as int]);
                }
            },
            Ok(pairs) => {
                match column_hash(driver, rows.last().0) {
                    Some(h) => {
                        let out = pairs.push((h, rows.last().1));
                        assert(decode_pair_rows(driver, rows) == Ok::<_, DatabaseError>(out));
                        assert forall|i: int| 0 <= i < rows.len() implies column_hash(driver, (#[trigger] rows[i]).0)
                            == Some(out[i].0) && out[i].1 == rows[i].1 by {
                            if i < n {
                                assert(prev[i] == rows[i]);
                            }
                        }
                    },
                    None => {
                        assert forall|j: int| 0 <= j < n implies column_hash(driver, (#[trigger] rows[j]).0) is Some by {
                            assert(prev[j] == rows[j]);
                        }
                    },
                }
            },
        }
    }
}

} // verus!
