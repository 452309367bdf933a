use cookie_viewer::detect::{classify, cookie_db_type, db_type_of_connection, has_signature, verdict};
use cookie_viewer::loader::{cookies_from_rows, decode_row, load_from_connection, LoadError};
use cookie_viewer::schema::{column_name, select_query, table_name, Field};
use cookie_viewer::sqlite::SqlCell;
use cookie_viewer::types::{to_unix_seconds, Cookie, CookieDB, DbType};

const HOME: &str = "/home/tester";
const SIGNATURE: &[u8] = b"SQLite format 3";

fn firefox_store() -> rusqlite::Connection {
    let conn = rusqlite::Connection::open_in_memory().unwrap();
    conn.execute_batch(
        "CREATE TABLE moz_cookies (host TEXT, name TEXT, value TEXT, path TEXT, \
         creationTime INTEGER, expiry INTEGER, lastAccessed INTEGER, isHttpOnly INTEGER, \
         isSecure INTEGER, sameSite INTEGER);",
    )
    .unwrap();
    conn
}

fn chrome_store() -> rusqlite::Connection {
    let conn = rusqlite::Connection::open_in_memory().unwrap();
    conn.execute_batch(
        "CREATE TABLE cookies (host_key TEXT, name TEXT, value TEXT, path TEXT, \
         creation_utc INTEGER, expires_utc INTEGER, last_access_utc INTEGER, is_httponly INTEGER, \
         is_secure INTEGER, samesite INTEGER);",
    )
    .unwrap();
    conn
}

fn cookie(host: &str, name: &str) -> Cookie {
    Cookie {
        host: host.to_string(),
        name: name.to_string(),
        value: "v".to_string(),
        path: "/".to_string(),
        creation: 1,
        expiry: 0,
        last_access: 2,
        http_only: false,
        secure: true,
        samesite: 0,
    }
}

#[test]
fn test_path_short() {
    let mut cdb = CookieDB::new("./cookies.sqlite".to_string(), DbType::Chrome);
    assert_eq!(cdb.path_short(HOME), "./cookies.sqlite");

    cdb.path = "../../var/Cookies".to_string();
    assert_eq!(cdb.path_short(HOME), "../../var/Cookies");

    cdb.path = format!("{}/.config/chromium/Default/Cookies", HOME);
    assert_eq!(cdb.path_short(HOME), "~/.config/chromium/Default");
}

#[test]
fn path_short_outside_home_keeps_directory() {
    let cdb = CookieDB::new("/var/lib/Cookies".to_string(), DbType::Chrome);
    assert_eq!(cdb.path_short(HOME), "/var/lib");
    assert_eq!(cdb.path_short(""), "~/~v~a~r~/~l~i~b~");
    let rel = CookieDB::new("a/Cookies".to_string(), DbType::Chrome);
    assert_eq!(rel.path_short(""), "a/Cookies");
    let root = CookieDB::new("/".to_string(), DbType::Chrome);
    assert_eq!(root.path_short(HOME), "/");
}

#[test]
fn funcs_test_is_cookie_db() {
    // The working directory of a test run may be read-only: the fixture
    // database is written under /tmp instead.
    let path = "/tmp/moz_cookies.sqlite";
    {
        let conn = rusqlite::Connection::open(path).unwrap();
        conn.execute_batch(
            "DROP TABLE IF EXISTS moz_cookies; CREATE TABLE moz_cookies (host TEXT); \
             INSERT INTO moz_cookies VALUES ('a.com');",
        )
        .unwrap();
    }
    let result = cookie_db_type(SIGNATURE, path);
    assert!(matches!(result, DbType::Firefox));
}

#[test]
fn util_test_is_cookie_db() {
    if std::path::Path::new("moz_cookies.sqlite").exists() {
        let result = cookie_db_type(SIGNATURE, "moz_cookies.sqlite");
        assert!(matches!(result, DbType::Firefox));
    }
}

#[test]
fn header_without_signature_is_unknown() {
    assert!(has_signature(SIGNATURE));
    assert!(!has_signature(b"SQLite format 4"));
    assert!(!has_signature(b"SQLite format"));
    assert_eq!(classify(b"PK\x03\x04 not a db!", Some((true, true))), DbType::Unknown);
    assert_eq!(cookie_db_type(b"GIF89a.........", "/nonexistent/file"), DbType::Unknown);
}

#[test]
fn container_without_cookie_tables_is_unknown() {
    assert_eq!(classify(SIGNATURE, Some((false, false))), DbType::Unknown);
    assert_eq!(classify(SIGNATURE, None), DbType::Unknown);
    assert_eq!(cookie_db_type(SIGNATURE, "/nonexistent/dir/Cookies"), DbType::Unknown);
    let conn = rusqlite::Connection::open_in_memory().unwrap();
    conn.execute_batch("CREATE TABLE other (x INTEGER); INSERT INTO other VALUES (1);").unwrap();
    assert_eq!(db_type_of_connection(&conn), DbType::Unknown);
}

#[test]
fn empty_cookie_table_is_unknown() {
    let conn = chrome_store();
    assert_eq!(db_type_of_connection(&conn), DbType::Unknown);
}

#[test]
fn cookie_tables_give_engine() {
    let conn = chrome_store();
    conn.execute_batch("INSERT INTO cookies (host_key) VALUES ('a.com');").unwrap();
    assert_eq!(db_type_of_connection(&conn), DbType::Chrome);
    conn.execute_batch("CREATE TABLE moz_cookies (host TEXT); INSERT INTO moz_cookies VALUES ('b.com');").unwrap();
    assert_eq!(db_type_of_connection(&conn), DbType::Firefox);
    assert_eq!(classify(SIGNATURE, Some((true, true))), DbType::Firefox);
    assert_eq!(classify(SIGNATURE, Some((false, true))), DbType::Chrome);
    assert_eq!(verdict(true, false), DbType::Firefox);
    assert_eq!(verdict(false, true), DbType::Chrome);
    assert_eq!(verdict(false, false), DbType::Unknown);
}

#[test]
fn timestamp_conversion() {
    assert_eq!(to_unix_seconds(13281964800000000, DbType::Chrome), 1637491200);
    assert_eq!(to_unix_seconds(13281964800000000, DbType::Firefox), 13281964800);
    assert_eq!(to_unix_seconds(1641000000123456, DbType::Firefox), 1641000000);
    assert_eq!(to_unix_seconds(0, DbType::Chrome), 0);
    assert_eq!(to_unix_seconds(0, DbType::Firefox), 0);
    assert_eq!(to_unix_seconds(-1_500_000, DbType::Firefox), -1);
    assert_eq!(to_unix_seconds(1, DbType::Chrome), -11_644_473_600);
}

#[test]
fn schema_names() {
    assert_eq!(table_name(DbType::Firefox), "moz_cookies");
    assert_eq!(table_name(DbType::Chrome), "cookies");
    assert_eq!(column_name(DbType::Chrome, Field::Host), "host_key");
    assert_eq!(column_name(DbType::Firefox, Field::Expiry), "expiry");
    assert_eq!(
        select_query(DbType::Chrome),
        "SELECT host_key,name,value,path,creation_utc,expires_utc,last_access_utc,is_httponly,is_secure,samesite FROM cookies;"
    );
    assert_eq!(
        select_query(DbType::Firefox),
        "SELECT host,name,value,path,creationTime,expiry,lastAccessed,isHttpOnly,isSecure,sameSite FROM moz_cookies;"
    );
}

#[test]
fn session_cookie_and_epoch_arithmetic() {
    let conn = firefox_store();
    conn.execute_batch(
        "INSERT INTO moz_cookies VALUES ('a.com','sid','x','/',13281964800000000,0,13281964800000000,1,0,2); \
         INSERT INTO moz_cookies VALUES ('b.com','id','y','/p',1641000000000000,1700000000000000,0,0,1,-1);",
    )
    .unwrap();
    let cookies = load_from_connection(&conn, DbType::Firefox).unwrap();
    assert_eq!(cookies.len(), 2);
    assert_eq!(cookies[0].expiry, 0);
    assert_eq!(cookies[0].creation, 13281964800);
    assert_eq!(cookies[0].host, "a.com");
    assert!(cookies[0].http_only);
    assert!(!cookies[0].secure);
    assert_eq!(cookies[0].samesite, 2);
    assert_eq!(cookies[1].creation, 1641000000);
    assert_eq!(cookies[1].expiry, 1700000000);
    assert_eq!(cookies[1].last_access, 0);
    assert_eq!(cookies[1].samesite, -1);

    let conn = chrome_store();
    conn.execute_batch(
        "INSERT INTO cookies VALUES ('a.com','sid','x','/',13281964800000000,0,13281964800000000,1,1,0);",
    )
    .unwrap();
    let cookies = load_from_connection(&conn, DbType::Chrome).unwrap();
    assert_eq!(cookies.len(), 1);
    assert_eq!(cookies[0].creation, 1637491200);
    assert_eq!(cookies[0].expiry, 0);
    assert_eq!(cookies[0].last_access, 1637491200);
}

#[test]
fn malformed_row_is_dropped() {
    let conn = chrome_store();
    conn.execute_batch(
        "INSERT INTO cookies VALUES ('a.com','one','x','/',13281964800000000,0,0,0,0,0); \
         INSERT INTO cookies VALUES ('a.com','two','x','/','yesterday',0,0,0,0,0); \
         INSERT INTO cookies VALUES ('b.com','three','x','/',0,0,0,0,0,0);",
    )
    .unwrap();
    let cookies = load_from_connection(&conn, DbType::Chrome).unwrap();
    assert_eq!(cookies.len(), 2);
    assert_eq!(cookies[0].name, "one");
    assert_eq!(cookies[1].name, "three");
}

#[test]
fn load_errors() {
    let conn = rusqlite::Connection::open_in_memory().unwrap();
    assert_eq!(load_from_connection(&conn, DbType::Chrome).unwrap_err(), LoadError::Query);
    assert_eq!(load_from_connection(&conn, DbType::Unknown).unwrap_err(), LoadError::UnknownType);
    let mut db = CookieDB::new("/nonexistent/dir/Cookies".to_string(), DbType::Chrome);
    assert_eq!(db.load_cookies(), Err(LoadError::Open));
    assert!(db.cookies.is_empty());
    let mut db = CookieDB::new("/nonexistent/dir/Cookies".to_string(), DbType::Unknown);
    assert_eq!(db.load_cookies(), Err(LoadError::UnknownType));
}

fn good_row() -> Vec<SqlCell> {
    vec![
        SqlCell::Text(b"a.com".to_vec()),
        SqlCell::Text(b"n".to_vec()),
        SqlCell::Text(b"v".to_vec()),
        SqlCell::Text(b"/".to_vec()),
        SqlCell::Integer(2_000_000),
        SqlCell::Integer(0),
        SqlCell::Integer(3_000_000),
        SqlCell::Integer(5),
        SqlCell::Integer(0),
        SqlCell::Integer(1),
    ]
}

#[test]
fn row_decoding() {
    let c = decode_row(&good_row(), DbType::Firefox).unwrap();
    assert_eq!(c.host, "a.com");
    assert_eq!(c.creation, 2);
    assert_eq!(c.expiry, 0);
    assert_eq!(c.last_access, 3);
    assert!(c.http_only);
    assert!(!c.secure);
    assert_eq!(c.samesite, 1);

    let mut bad = good_row();
    bad[0] = SqlCell::Text(vec![0xff, 0xfe]);
    assert!(decode_row(&bad, DbType::Firefox).is_none());
    let mut bad = good_row();
    bad[9] = SqlCell::Integer(1 << 40);
    assert!(decode_row(&bad, DbType::Firefox).is_none());
    let mut bad = good_row();
    bad[4] = SqlCell::Real;
    assert!(decode_row(&bad, DbType::Firefox).is_none());
    let mut bad = good_row();
    bad[7] = SqlCell::Null;
    assert!(decode_row(&bad, DbType::Firefox).is_none());
    assert!(decode_row(&good_row()[..9].to_vec(), DbType::Firefox).is_none());

    let rows: Vec<Result<Vec<SqlCell>, ()>> = vec![Ok(good_row()), Err(()), Ok(bad), Ok(good_row())];
    assert_eq!(cookies_from_rows(&rows, DbType::Chrome).len(), 2);
}

#[test]
fn domains_sorted_without_repeats() {
    let mut db = CookieDB::new("/p/Cookies".to_string(), DbType::Chrome);
    db.cookies = vec![cookie("b.com", "1"), cookie("a.com", "2"), cookie("b.com", "3"), cookie("ab.com", "4")];
    let first = db.domains();
    assert_eq!(first, vec!["a.com", "ab.com", "b.com"]);
    assert_eq!(db.domains(), first);
    assert!(CookieDB::new("x".to_string(), DbType::Chrome).domains().is_empty());
}

#[test]
fn cookies_for_domain_keep_order() {
    let mut db = CookieDB::new("/p/Cookies".to_string(), DbType::Chrome);
    db.cookies = vec![cookie("b.com", "1"), cookie("a.com", "2"), cookie("b.com", "3")];
    let list = db.cookies_for_domain(&"b.com".to_string());
    assert_eq!(list.len(), 2);
    assert!(list.iter().all(|c| c.host == "b.com"));
    assert_eq!(list[0].name, "1");
    assert_eq!(list[1].name, "3");
    assert!(db.cookies_for_domain(&"c.com".to_string()).is_empty());
    assert_eq!(db.cookie_for_domain(&"3".to_string(), &"b.com".to_string()).unwrap().name, "3");
    assert!(db.cookie_for_domain(&"2".to_string(), &"b.com".to_string()).is_none());
}

#[test]
fn field_texts() {
    let mut c = cookie("a.com", "n");
    c.creation = -5;
    c.samesite = 1;
    assert_eq!(
        c.field_values(),
        vec!["v", "/", "-5", "0", "2", "false", "true", "1"]
    );
}
