//! Telling a cookie database from any other file.
use vstd::prelude::*;
use crate::schema::table_name;
use crate::sqlite::{open_connection, query_yields_row};
use crate::types::DbType;

verus! {

/// The first bytes of every SQLite database file: "SQLite format 3".
pub open spec fn sqlite_signature() -> Seq<u8> {
    seq![83u8, 81, 76, 105, 116, 101, 32, 102, 111, 114, 109, 97, 116, 32, 51]
}

/// Number of bytes in the signature.
pub const SIGNATURE_LEN: usize = 15;

/// Whether the first bytes of a file, as read, are the SQLite signature.
pub open spec fn is_signature(header: Seq<u8>) -> bool {
    header == sqlite_signature()
}

/// The engine of a database whose tables were probed: the Firefox table is
/// looked for first.
pub open spec fn table_verdict(has_moz_cookies: bool, has_cookies: bool) -> DbType {
    if has_moz_cookies {
        DbType::Firefox
    } else if has_cookies {
        DbType::Chrome
    } else {
        DbType::Unknown
    }
}

/// The engine of a file from its first bytes and from what probing it as a
/// database gave: `None` where it could not be opened, else whether the
/// Firefox and the Chrome cookie tables hold a row.
pub open spec fn classify_spec(header: Seq<u8>, probes: Option<(bool, bool)>) -> DbType {
    if !is_signature(header) {
        DbType::Unknown
    } else {
        match probes {
            Some((has_moz_cookies, has_cookies)) => table_verdict(has_moz_cookies, has_cookies),
            None => DbType::Unknown,
        }
    }
}

/// Whether `header` holds the SQLite signature, and nothing else.
pub fn has_signature(header: &[u8]) -> (r: bool)
    ensures
        r == is_signature(header@),
{
    let sig: [u8; 15] = [83, 81, 76, 105, 116, 101, 32, 102, 111, 114, 109, 97, 116, 32, 51];
    assert(sig@ =~= sqlite_signature());
    if header.len() != SIGNATURE_LEN {
        return false;
    }
    let mut i: usize = 0;
    while i < SIGNATURE_LEN
        invariant
            header@.len() == SIGNATURE_LEN,
            sig@ == sqlite_signature(),
            0 <= i <= SIGNATURE_LEN,
            forall|j: int| 0 <= j < i ==> header@[j] == sqlite_signature()[j],
        decreases SIGNATURE_LEN - i,
    {
        if header[i] != sig[i] {
            return false;
        }
        i = i + 1;
    }
    assert(header@ =~= sqlite_signature());
    true
}

/// The engine of a database by which cookie table holds a row; the Firefox
/// table wins.
pub fn verdict(has_moz_cookies: bool, has_cookies: bool) -> (r: DbType)
    ensures
        r == table_verdict(has_moz_cookies, has_cookies),
{
    if has_moz_cookies {
        DbType::Firefox
    } else if has_cookies {
        DbType::Chrome
    } else {
        DbType::Unknown
    }
}

/// The engine of a file from its first bytes and from what probing it as a
/// database gave (`None`: it could not be opened).
pub fn classify(header: &[u8], probes: Option<(bool, bool)>) -> (r: DbType)
    ensures
        r == classify_spec(header@, probes),
{
    if !has_signature(header) {
        return DbType::Unknown;
    }
    match probes {
        Some((has_moz_cookies, has_cookies)) => verdict(has_moz_cookies, has_cookies),
        None => DbType::Unknown,
    }
}

/// The query that reads at most one row of `table`.
pub open spec fn probe_spec(table: Seq<char>) -> Seq<char> {
    "SELECT 1 FROM "@ + table + " LIMIT 1"@
}

fn probe_query(table: &str) -> (r: String)
    ensures
        r@ == probe_spec(table@),
{
    let mut q = String::from_str("SELECT 1 FROM ");
    q.append(table);
    q.append(" LIMIT 1");
    q
}

/// Whether the cookie table of `typing` exists in the database and holds a
/// row; any failure of the query counts as no.
fn has_cookie_table(conn: &rusqlite::Connection, typing: DbType) -> (r: bool) {
    let q = probe_query(table_name(typing));
    query_yields_row(conn, q.as_str())
}

/// Probes an open database for the cookie tables: first the Firefox one,
/// then, only where that holds no row, the Chrome one.
fn probe_tables(conn: &rusqlite::Connection) -> (r: (bool, bool))
    ensures
        r.0 ==> !r.1,
{
    let has_moz_cookies = has_cookie_table(conn, DbType::Firefox);
    let has_cookies = !has_moz_cookies && has_cookie_table(conn, DbType::Chrome);
    (has_moz_cookies, has_cookies)
}

/// The engine of an open database, by which cookie table holds a row; the
/// verdict on the probes' results is `verdict`.
pub fn db_type_of_connection(conn: &rusqlite::Connection) -> DbType {
    let (has_moz_cookies, has_cookies) = probe_tables(conn);
    verdict(has_moz_cookies, has_cookies)
}

/// The engine of the file at `path`, whose first bytes are `header`: the
/// verdict of `classify` on what probing the file gave. A file without the
/// signature is not opened.
pub fn cookie_db_type(header: &[u8], path: &str) -> (r: DbType)
    ensures
        exists|probes: Option<(bool, bool)>| r == classify_spec(header@, probes),
        !is_signature(header@) ==> r == DbType::Unknown,
{
    if !has_signature(header) {
        return classify(header, None);
    }
    let probes = match open_connection(path) {
        Ok(conn) => Some(probe_tables(&conn)),
        Err(_) => None,
    };
    classify(header, probes)
}

} // verus!
