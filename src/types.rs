use vstd::prelude::*;

verus! {

/// The storage engine that a cookie database was written by.
#[derive(Debug, Clone, Copy, PartialEq, Eq, Structural)]
pub enum DbType {
    /// Cookies in `cookies`, timestamps in microseconds since 1601-01-01.
    Chrome,
    /// Cookies in `moz_cookies`, timestamps in microseconds since the UNIX epoch.
    Firefox,
    /// Not a cookie database.
    Unknown,
}

/// Microseconds in a second.
pub const MICROS_PER_SEC: i64 = 1_000_000;

/// Seconds from 1601-01-01 to 1970-01-01.
pub const EPOCH_1601_OFFSET: i64 = 11_644_473_600;

/// Division that rounds toward zero, as Rust's `/` on signed integers does.
pub open spec fn div_toward_zero(a: int, d: int) -> int {
    if a >= 0 {
        a / d
    } else {
        -((-a) / d)
    }
}

/// A raw timestamp of the given engine, in seconds since the UNIX epoch.
/// Zero marks a session cookie and stays zero.
pub open spec fn unix_seconds(raw: int, typing: DbType) -> int {
    if raw == 0 {
        0
    } else if typing == DbType::Firefox {
        div_toward_zero(raw, MICROS_PER_SEC as int)
    } else {
        div_toward_zero(raw, MICROS_PER_SEC as int) - EPOCH_1601_OFFSET
    }
}

/// Converts a raw timestamp of `typing` to seconds since the UNIX epoch.
pub fn to_unix_seconds(raw: i64, typing: DbType) -> (r: i64)
    ensures
        r as int == unix_seconds(raw as int, typing),
{
    if raw == 0 {
        0
    } else if typing == DbType::Firefox {
        raw / MICROS_PER_SEC
    } else {
        raw / MICROS_PER_SEC - EPOCH_1601_OFFSET
    }
}

} // verus!

verus! {

/// One cookie, with its timestamps in seconds since the UNIX epoch.
#[derive(Debug, Clone)]
pub struct Cookie {
    pub host: String,
    pub name: String,
    pub value: String,
    pub path: String,
    pub creation: i64,
    pub expiry: i64,
    pub last_access: i64,
    pub http_only: bool,
    pub secure: bool,
    pub samesite: i32,
}

/// A cookie as plain values.
pub struct CookieView {
    pub host: Seq<char>,
    pub name: Seq<char>,
    pub value: Seq<char>,
    pub path: Seq<char>,
    pub creation: i64,
    pub expiry: i64,
    pub last_access: i64,
    pub http_only: bool,
    pub secure: bool,
    pub samesite: i32,
}

impl View for Cookie {
    type V = CookieView;

    open spec fn view(&self) -> CookieView {
        CookieView {
            host: self.host@,
            name: self.name@,
            value: self.value@,
            path: self.path@,
            creation: self.creation,
            expiry: self.expiry,
            last_access: self.last_access,
            http_only: self.http_only,
            secure: self.secure,
            samesite: self.samesite,
        }
    }
}

/// One cookie database that was found on disk.
#[derive(Debug)]
pub struct CookieDB {
    /// Where the database file lies.
    pub path: String,
    pub typing: DbType,
    /// The cookies read from it, in the order the database gave them.
    pub cookies: Vec<Cookie>,
}

impl CookieDB {
    /// A database holds cookies only if its engine is known.
    pub open spec fn wf(&self) -> bool {
        self.cookies.len() > 0 ==> self.typing != DbType::Unknown
    }

    /// A database of `typing` at `path` whose cookies are not read yet.
    pub fn new(path: String, typing: DbType) -> (r: CookieDB)
        ensures
            r.path@ == path@,
            r.typing == typing,
            r.cookies@.len() == 0,
            r.wf(),
    {
        CookieDB { path, typing, cookies: Vec::new() }
    }
}

} // verus!
