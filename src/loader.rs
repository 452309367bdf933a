//! Reading the cookies of a recognized database into `Cookie` records.
use vstd::prelude::*;
use crate::schema::{select_query, FIELD_COUNT};
use crate::sqlite::{decode_utf8, open_connection, select_rows, utf8_decoded, SqlCell};
use crate::types::{unix_seconds, to_unix_seconds, Cookie, CookieDB, CookieView, DbType};

verus! {

/// Why the cookies of a database could not be read.
#[derive(Debug, Clone, Copy, PartialEq, Eq, Structural)]
pub enum LoadError {
    /// The database's engine is not known, so there is no query to run.
    UnknownType,
    /// The database file could not be opened.
    Open,
    /// The query could not be prepared or run.
    Query,
}

/// A value read as text: only valid UTF-8 text is.
pub open spec fn cell_text(c: SqlCell) -> Option<Seq<char>> {
    match c {
        SqlCell::Text(b) => utf8_decoded(b@),
        _ => None,
    }
}

/// A value read as a 64-bit integer: only an integer is.
pub open spec fn cell_i64(c: SqlCell) -> Option<i64> {
    match c {
        SqlCell::Integer(n) => Some(n),
        _ => None,
    }
}

/// A value read as a flag: an integer, true when it is not zero.
pub open spec fn cell_bool(c: SqlCell) -> Option<bool> {
    match c {
        SqlCell::Integer(n) => Some(n != 0),
        _ => None,
    }
}

/// A value read as a 32-bit integer: an integer in range.
pub open spec fn cell_i32(c: SqlCell) -> Option<i32> {
    match c {
        SqlCell::Integer(n) => if i32::MIN <= n <= i32::MAX {
            Some(n as i32)
        } else {
            None
        },
        _ => None,
    }
}

/// Whether every value of a row reads as the type of its field.
pub open spec fn row_decodes(cells: Seq<SqlCell>) -> bool {
    &&& cells.len() == FIELD_COUNT
    &&& cell_text(cells[0]) is Some
    &&& cell_text(cells[1]) is Some
    &&& cell_text(cells[2]) is Some
    &&& cell_text(cells[3]) is Some
    &&& cell_i64(cells[4]) is Some
    &&& cell_i64(cells[5]) is Some
    &&& cell_i64(cells[6]) is Some
    &&& cell_bool(cells[7]) is Some
    &&& cell_bool(cells[8]) is Some
    &&& cell_i32(cells[9]) is Some
}

/// Whether `c` is the cookie that a decodable row of a database of `typing` holds.
pub open spec fn is_row_cookie(c: CookieView, cells: Seq<SqlCell>, typing: DbType) -> bool {
    &&& Some(c.host) == cell_text(cells[0])
    &&& Some(c.name) == cell_text(cells[1])
    &&& Some(c.value) == cell_text(cells[2])
    &&& Some(c.path) == cell_text(cells[3])
    &&& c.creation as int == unix_seconds(cell_i64(cells[4])->Some_0 as int, typing)
    &&& c.expiry as int == unix_seconds(cell_i64(cells[5])->Some_0 as int, typing)
    &&& c.last_access as int == unix_seconds(cell_i64(cells[6])->Some_0 as int, typing)
    &&& Some(c.http_only) == cell_bool(cells[7])
    &&& Some(c.secure) == cell_bool(cells[8])
    &&& Some(c.samesite) == cell_i32(cells[9])
}

/// The rows that come through, in order: those read without error that decode.
pub open spec fn kept_rows<E>(rows: Seq<Result<Vec<SqlCell>, E>>) -> Seq<Seq<SqlCell>>
    decreases rows.len(),
{
    if rows.len() == 0 {
        Seq::empty()
    } else {
        let last = rows.last();
        let rest = kept_rows(rows.drop_last());
        if last is Ok && row_decodes(last->Ok_0@) {
            rest.push(last->Ok_0@)
        } else {
            rest
        }
    }
}

/// Whether `cookies` are, one for one and in order, the cookies of `rows`.
pub open spec fn are_row_cookies(cookies: Seq<Cookie>, rows: Seq<Seq<SqlCell>>, typing: DbType) -> bool {
    &&& cookies.len() == rows.len()
    &&& forall|i: int| 0 <= i < rows.len() ==> is_row_cookie(#[trigger] cookies[i]@, rows[i], typing)
}

fn read_text(c: &SqlCell) -> (r: Option<String>)
    ensures
        match r {
            Some(s) => cell_text(*c) == Some(s@),
            None => cell_text(*c) is None,
        },
{
    match c {
        SqlCell::Text(b) => decode_utf8(b.clone()),
        _ => None,
    }
}

fn read_i64(c: &SqlCell) -> (r: Option<i64>)
    ensures
        r == cell_i64(*c),
{
    match c {
        SqlCell::Integer(n) => Some(*n),
        _ => None,
    }
}

fn read_bool(c: &SqlCell) -> (r: Option<bool>)
    ensures
        r == cell_bool(*c),
{
    match c {
        SqlCell::Integer(n) => Some(*n != 0),
        _ => None,
    }
}

fn read_i32(c: &SqlCell) -> (r: Option<i32>)
    ensures
        r == cell_i32(*c),
{
    match c {
        SqlCell::Integer(n) => if i32::MIN as i64 <= *n && *n <= i32::MAX as i64 {
            Some(*n as i32)
        } else {
            None
        },
        _ => None,
    }
}

/// The cookie that one row of a database of `typing` holds, or `None` where
/// a value does not read as the type of its field.
pub fn decode_row(cells: &Vec<SqlCell>, typing: DbType) -> (r: Option<Cookie>)
    ensures
        r is Some <==> row_decodes(cells@),
        r is Some ==> is_row_cookie(r->Some_0@, cells@, typing),
{
    if cells.len() != FIELD_COUNT {
        return None;
    }
    let host = match read_text(&cells[0]) { Some(v) => v, None => return None };
    let name = match read_text(&cells[1]) { Some(v) => v, None => return None };
    let value = match read_text(&cells[2]) { Some(v) => v, None => return None };
    let path = match read_text(&cells[3]) { Some(v) => v, None => return None };
    let creation = match read_i64(&cells[4]) { Some(v) => v, None => return None };
    let expiry = match read_i64(&cells[5]) { Some(v) => v, None => return None };
    let last_access = match read_i64(&cells[6]) { Some(v) => v, None => return None };
    let http_only = match read_bool(&cells[7]) { Some(v) => v, None => return None };
    let secure = match read_bool(&cells[8]) { Some(v) => v, None => return None };
    let samesite = match read_i32(&cells[9]) { Some(v) => v, None => return None };
    Some(Cookie {
        host,
        name,
        value,
        path,
        creation: to_unix_seconds(creation, typing),
        expiry: to_unix_seconds(expiry, typing),
        last_access: to_unix_seconds(last_access, typing),
        http_only,
        secure,
        samesite,
    })
}

/// The cookies of the rows that a query returned: a row that was not read,
/// or whose values do not read as the types of their fields, is left out.
pub fn cookies_from_rows<E>(rows: &Vec<Result<Vec<SqlCell>, E>>, typing: DbType) -> (r: Vec<Cookie>)
    ensures
        are_row_cookies(r@, kept_rows(rows@), typing),
{
    let mut out: Vec<Cookie> = Vec::new();
    let mut i: usize = 0;
    while i < rows.len()
        invariant
            0 <= i <= rows.len(),
            are_row_cookies(out@, kept_rows(rows@.take(i as int)), typing),
        decreases rows.len() - i,
    {
        assert(rows@.take(i + 1).drop_last() =~= rows@.take(i as int));
        match &rows[i] {
            Ok(cells) => {
                match decode_row(cells, typing) {
                    Some(c) => {
                        out.push(c);
                    },
                    None => {},
                }
            },
            Err(_) => {},
        }
        i = i + 1;
    }
    assert(rows@.take(rows.len() as int) =~= rows@);
    out
}

/// Reads every cookie of an open database of `typing`.
pub fn load_from_connection(conn: &rusqlite::Connection, typing: DbType) -> (r: Result<Vec<Cookie>, LoadError>)
    ensures
        typing == DbType::Unknown <==> r == Err::<Vec<Cookie>, LoadError>(LoadError::UnknownType),
        r is Err ==> r == Err::<Vec<Cookie>, LoadError>(LoadError::UnknownType) || r == Err::<Vec<Cookie>, LoadError>(LoadError::Query),
        r is Ok ==> exists|rows: Seq<Result<Vec<SqlCell>, rusqlite::Error>>|
            are_row_cookies(#[trigger] r->Ok_0@, kept_rows(rows), typing),
{
    if typing == DbType::Unknown {
        return Err(LoadError::UnknownType);
    }
    let sql = select_query(typing);
    match select_rows(conn, sql.as_str(), FIELD_COUNT) {
        Ok(rows) => {
            let cookies = cookies_from_rows(&rows, typing);
            Ok(cookies)
        },
        Err(_) => Err(LoadError::Query),
    }
}

impl CookieDB {
    /// Reads the cookies of the database at `self.path` into `self.cookies`.
    /// On an error the cookies stay as they were.
    pub fn load_cookies(&mut self) -> (r: Result<(), LoadError>)
        requires
            old(self).wf(),
        ensures
            final(self).wf(),
            final(self).path == old(self).path,
            final(self).typing == old(self).typing,
            old(self).typing == DbType::Unknown <==> r == Err::<(), LoadError>(LoadError::UnknownType),
            r is Err ==> final(self).cookies@ == old(self).cookies@,
            r is Ok ==> exists|rows: Seq<Result<Vec<SqlCell>, rusqlite::Error>>|
                are_row_cookies(#[trigger] final(self).cookies@, kept_rows(rows), old(self).typing),
    {
        if self.typing == DbType::Unknown {
            return Err(LoadError::UnknownType);
        }
        let conn = match open_connection(self.path.as_str()) {
            Ok(c) => c,
            Err(_) => return Err(LoadError::Open),
        };
        match load_from_connection(&conn, self.typing) {
            Ok(cookies) => {
                self.cookies = cookies;
                Ok(())
            },
            Err(e) => Err(e),
        }
    }
}

} // verus!
