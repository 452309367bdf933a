//! Where each engine keeps the fields of a cookie.
use vstd::prelude::*;
use crate::types::DbType;

verus! {

/// The fields of a cookie that are read from a database.
#[derive(Debug, Clone, Copy, PartialEq, Eq, Structural)]
pub enum Field {
    Host,
    Name,
    Value,
    Path,
    Creation,
    Expiry,
    LastAccess,
    HttpOnly,
    Secure,
    SameSite,
}

/// The order in which the fields are selected, and so the column index of each.
pub open spec fn field_order() -> Seq<Field> {
    seq![
        Field::Host,
        Field::Name,
        Field::Value,
        Field::Path,
        Field::Creation,
        Field::Expiry,
        Field::LastAccess,
        Field::HttpOnly,
        Field::Secure,
        Field::SameSite,
    ]
}

/// Number of fields that are selected.
pub const FIELD_COUNT: usize = 10;

/// The column that holds `field` in a database of `typing`.
pub open spec fn column_spec(typing: DbType, field: Field) -> Seq<char> {
    if typing == DbType::Firefox {
        match field {
            Field::Host => "host"@,
            Field::Name => "name"@,
            Field::Value => "value"@,
            Field::Path => "path"@,
            Field::Creation => "creationTime"@,
            Field::Expiry => "expiry"@,
            Field::LastAccess => "lastAccessed"@,
            Field::HttpOnly => "isHttpOnly"@,
            Field::Secure => "isSecure"@,
            Field::SameSite => "sameSite"@,
        }
    } else {
        match field {
            Field::Host => "host_key"@,
            Field::Name => "name"@,
            Field::Value => "value"@,
            Field::Path => "path"@,
            Field::Creation => "creation_utc"@,
            Field::Expiry => "expires_utc"@,
            Field::LastAccess => "last_access_utc"@,
            Field::HttpOnly => "is_httponly"@,
            Field::Secure => "is_secure"@,
            Field::SameSite => "samesite"@,
        }
    }
}

/// The table that holds the cookies of a database of `typing`.
pub open spec fn table_spec(typing: DbType) -> Seq<char> {
    if typing == DbType::Firefox {
        "moz_cookies"@
    } else {
        "cookies"@
    }
}

/// The fields in select order.
pub fn fields() -> (r: Vec<Field>)
    ensures
        r@ == field_order(),
{
    let r = vec![
        Field::Host,
        Field::Name,
        Field::Value,
        Field::Path,
        Field::Creation,
        Field::Expiry,
        Field::LastAccess,
        Field::HttpOnly,
        Field::Secure,
        Field::SameSite,
    ];
    assert(r@ =~= field_order());
    r
}

/// The column that holds `field` in a database of `typing`.
pub fn column_name(typing: DbType, field: Field) -> (r: &'static str)
    ensures
        r@ == column_spec(typing, field),
{
    if typing == DbType::Firefox {
        match field {
            Field::Host => "host",
            Field::Name => "name",
            Field::Value => "value",
            Field::Path => "path",
            Field::Creation => "creationTime",
            Field::Expiry => "expiry",
            Field::LastAccess => "lastAccessed",
            Field::HttpOnly => "isHttpOnly",
            Field::Secure => "isSecure",
            Field::SameSite => "sameSite",
        }
    } else {
        match field {
            Field::Host => "host_key",
            Field::Name => "name",
            Field::Value => "value",
            Field::Path => "path",
            Field::Creation => "creation_utc",
            Field::Expiry => "expires_utc",
            Field::LastAccess => "last_access_utc",
            Field::HttpOnly => "is_httponly",
            Field::Secure => "is_secure",
            Field::SameSite => "samesite",
        }
    }
}

/// The name of the cookie table of a database of `typing`.
pub fn table_name(typing: DbType) -> (r: &'static str)
    ensures
        r@ == table_spec(typing),
{
    if typing == DbType::Firefox {
        "moz_cookies"
    } else {
        "cookies"
    }
}

/// `names` joined with commas.
pub open spec fn comma_joined(names: Seq<Seq<char>>) -> Seq<char>
    decreases names.len(),
{
    if names.len() == 0 {
        Seq::empty()
    } else if names.len() == 1 {
        names[0]
    } else {
        comma_joined(names.drop_last()) + ","@ + names.last()
    }
}

/// The columns of a database of `typing`, in select order.
pub open spec fn columns_spec(typing: DbType) -> Seq<Seq<char>> {
    field_order().map_values(|f: Field| column_spec(typing, f))
}

/// The query that reads every cookie of a database of `typing`.
pub open spec fn select_spec(typing: DbType) -> Seq<char> {
    "SELECT "@ + comma_joined(columns_spec(typing)) + " FROM "@ + table_spec(typing) + ";"@
}

/// Builds the query that reads every cookie of a database of `typing`.
pub fn select_query(typing: DbType) -> (r: String)
    ensures
        r@ == select_spec(typing),
{
    let fs = fields();
    let mut q = String::from_str("SELECT ");
    let mut i: usize = 0;
    while i < fs.len()
        invariant
            fs@ == field_order(),
            0 <= i <= fs.len(),
            q@ == "SELECT "@ + comma_joined(columns_spec(typing).take(i as int)),
        decreases fs.len() - i,
    {
        let ghost before = columns_spec(typing).take(i as int);
        if i > 0 {
            q.append(",");
        }
        q.append(column_name(typing, fs[i]));
        proof {
            let after = columns_spec(typing).take(i + 1);
            assert(after.drop_last() =~= before);
            assert(after.last() == column_spec(typing, fs@[i as int]));
            if i == 0 {
                assert(before =~= Seq::<Seq<char>>::empty());
            }
        }
        i = i + 1;
    }
    assert(columns_spec(typing).take(FIELD_COUNT as int) =~= columns_spec(typing));
    q.append(" FROM ");
    q.append(table_name(typing));
    q.append(";");
    q
}

} // verus!
