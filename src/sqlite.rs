//! The calls into rusqlite that the detector and the loader make.
use vstd::prelude::*;

verus! {

#[verifier::external_type_specification]
#[verifier::external_body]
pub struct ExConnection(rusqlite::Connection);

#[verifier::external_type_specification]
#[verifier::external_body]
pub struct ExError(rusqlite::Error);

/// One value of a result row, as SQLite stored it.
#[derive(Debug, Clone, PartialEq)]
pub enum SqlCell {
    Null,
    Integer(i64),
    /// A floating-point value; the number itself is not kept.
    Real,
    /// Text, as the bytes that were stored.
    Text(Vec<u8>),
    Blob(Vec<u8>),
}

/// Relies on rusqlite::Connection::open: opens (or fails to open) the
/// database file at `path`; what comes back depends on the disk.
#[verifier::external_body]
pub(crate) fn open_connection(path: &str) -> (r: Result<rusqlite::Connection, rusqlite::Error>) {
    rusqlite::Connection::open(path)
}

/// Relies on rusqlite::Connection::query_row: whether `sql` runs and yields
/// a first row whose first column reads as a `u32`.
#[verifier::external_body]
pub(crate) fn query_yields_row(conn: &rusqlite::Connection, sql: &str) -> (r: bool) {
    conn.query_row::<u32, _, _>(sql, [], |row| row.get(0)).is_ok()
}

/// Relies on rusqlite::Connection::prepare, Statement::query_map and
/// Row::get_ref: runs `sql` and hands back, for each row, either its first
/// `width` values or the error met while reading it.
#[verifier::external_body]
pub(crate) fn select_rows(conn: &rusqlite::Connection, sql: &str, width: usize)
    -> (r: Result<Vec<Result<Vec<SqlCell>, rusqlite::Error>>, rusqlite::Error>)
    ensures
        r is Ok ==> forall|i: int|
            0 <= i < r->Ok_0@.len() && #[trigger] r->Ok_0@[i] is Ok ==> r->Ok_0@[i]->Ok_0@.len()
                == width,
{
    let mut stmt = conn.prepare(sql)?;
    let rows = stmt.query_map([], |row| {
        (0..width).map(|i| row.get_ref(i).map(|v| match v {
            rusqlite::types::ValueRef::Null => SqlCell::Null,
            rusqlite::types::ValueRef::Integer(n) => SqlCell::Integer(n),
            rusqlite::types::ValueRef::Real(_) => SqlCell::Real,
            rusqlite::types::ValueRef::Text(t) => SqlCell::Text(t.to_vec()),
            rusqlite::types::ValueRef::Blob(b) => SqlCell::Blob(b.to_vec()),
        })).collect()
    })?;
    Ok(rows.collect())
}

/// What `String::from_utf8` makes of a byte sequence: the decoded text, or
/// `None` where the bytes are not valid UTF-8.
pub uninterp spec fn utf8_decoded(b: Seq<u8>) -> Option<Seq<char>>;

/// Relies on std's String::from_utf8: decodes the bytes as UTF-8.
#[verifier::external_body]
pub(crate) fn decode_utf8(b: Vec<u8>) -> (r: Option<String>)
    ensures
        utf8_decoded(b@) == (match r {
            Some(s) => Some(s@),
            None => None::<Seq<char>>,
        }),
{
    String::from_utf8(b).ok()
}

} // verus!
