//! Properties that hold across the functions of the library.
use vstd::prelude::*;
use crate::cursor::{next_spec, previous_spec};
use crate::db::{is_domain_list, strictly_sorted, with_host};
use crate::detect::{classify_spec, is_signature};
use crate::state::{is_next, is_previous, Key, Selection, State};
use crate::text::{lemma_less_irreflexive, lemma_less_transitive, text_less};
use crate::loader::{cell_i64, is_row_cookie, kept_rows, row_decodes};
use crate::sqlite::SqlCell;
use crate::types::{unix_seconds, Cookie, CookieView, DbType};

verus! {

/// A file that has the SQLite signature but neither cookie table with a row
/// is not a cookie database; nor is one that cannot be opened.
pub proof fn lemma_no_cookie_table_is_unknown(header: Seq<u8>)
    requires
        is_signature(header),
    ensures
        classify_spec(header, Some((false, false))) == DbType::Unknown,
        classify_spec(header, None) == DbType::Unknown,
{
}

/// A file without the SQLite signature is not a cookie database, whatever
/// probing it would give.
pub proof fn lemma_no_signature_is_unknown(header: Seq<u8>, probes: Option<(bool, bool)>)
    requires
        !is_signature(header),
    ensures
        classify_spec(header, probes) == DbType::Unknown,
{
}

/// The Firefox table is looked at first: where it holds a row the database
/// is Firefox's whatever the Chrome table holds.
pub proof fn lemma_firefox_table_first(header: Seq<u8>, has_cookies: bool)
    requires
        is_signature(header),
    ensures
        classify_spec(header, Some((true, has_cookies))) == DbType::Firefox,
        classify_spec(header, Some((false, true))) == DbType::Chrome,
{
}

/// A non-zero Chrome timestamp loses its microseconds and the seconds from
/// 1601 to 1970; zero stays zero for every engine.
pub proof fn lemma_timestamp_conversion(t: int, typing: DbType)
    ensures
        t > 0 ==> unix_seconds(t, DbType::Chrome) == t / 1_000_000 - 11_644_473_600,
        unix_seconds(0, typing) == 0,
{
}

/// Every cookie listed for a domain was set by that domain.
pub proof fn lemma_with_host_matches(cookies: Seq<Cookie>, host: Seq<char>, i: int)
    requires
        0 <= i < with_host(cookies, host).len(),
    ensures
        with_host(cookies, host)[i].host == host,
    decreases cookies.len(),
{
    let rest = with_host(cookies.drop_last(), host);
    if i < rest.len() {
        lemma_with_host_matches(cookies.drop_last(), host, i);
    }
}

proof fn lemma_sorted_tail(s: Seq<Seq<char>>)
    requires
        strictly_sorted(s),
        s.len() > 0,
    ensures
        strictly_sorted(s.drop_first()),
{
    assert forall|i: int, j: int| 0 <= i < j < s.drop_first().len() implies text_less(
        #[trigger] s.drop_first()[i],
        #[trigger] s.drop_first()[j],
    ) by {
        assert(text_less(s[i + 1], s[j + 1]));
    }
}

/// Two strictly sorted lists of the same texts are the same list.
pub proof fn lemma_sorted_lists_equal(a: Seq<Seq<char>>, b: Seq<Seq<char>>)
    requires
        strictly_sorted(a),
        strictly_sorted(b),
        forall|x: Seq<char>| a.contains(x) <==> b.contains(x),
    ensures
        a == b,
    decreases a.len(),
{
    if a.len() == 0 {
        if b.len() > 0 {
            assert(b.contains(b[0]));
        }
        assert(a =~= b);
    } else {
        assert(a.contains(a[0]));
        assert(b.len() > 0);
        assert(b.contains(b[0]));
        let j = choose|j: int| 0 <= j < b.len() && b[j] == a[0];
        let i = choose|i: int| 0 <= i < a.len() && a[i] == b[0];
        if a[0] != b[0] {
            assert(j > 0 && i > 0);
            assert(text_less(b[0], b[j]));
            assert(text_less(a[0], a[i]));
            lemma_less_transitive(a[0], b[0], a[0], 0);
            lemma_less_irreflexive(a[0], 0);
        }
        lemma_sorted_tail(a);
        lemma_sorted_tail(b);
        assert forall|x: Seq<char>| a.drop_first().contains(x) <==> b.drop_first().contains(x) by {
            if a.drop_first().contains(x) {
                let k = choose|k: int| 0 <= k < a.drop_first().len() && a.drop_first()[k] == x;
                assert(text_less(a[0], a[k + 1]));
                assert(a.contains(x));
                let m = choose|m: int| 0 <= m < b.len() && b[m] == x;
                if m == 0 {
                    lemma_less_irreflexive(a[0], 0);
                }
                assert(b.drop_first()[m - 1] == x);
            }
            if b.drop_first().contains(x) {
                let k = choose|k: int| 0 <= k < b.drop_first().len() && b.drop_first()[k] == x;
                assert(text_less(b[0], b[k + 1]));
                assert(b.contains(x));
                let m = choose|m: int| 0 <= m < a.len() && a[m] == x;
                if m == 0 {
                    lemma_less_irreflexive(b[0], 0);
                }
                assert(a.drop_first()[m - 1] == x);
            }
        }
        lemma_sorted_lists_equal(a.drop_first(), b.drop_first());
        assert(a =~= seq![a[0]] + a.drop_first());
        assert(b =~= seq![b[0]] + b.drop_first());
    }
}

/// The domains of a profile are one list: computing them twice gives the
/// same texts in the same order.
pub proof fn lemma_domains_unique(a: Seq<Seq<char>>, b: Seq<Seq<char>>, cookies: Seq<Cookie>)
    requires
        is_domain_list(a, cookies),
        is_domain_list(b, cookies),
    ensures
        a == b,
{
    assert forall|x: Seq<char>| a.contains(x) <==> b.contains(x) by {
        assert(a.contains(x) <==> b.contains(x));
    }
    lemma_sorted_lists_equal(a, b);
}

/// Moving in the profiles column leaves no domain and no cookie selected.
pub proof fn lemma_profile_move_clears(old: State, new: State, key: Key)
    requires
        old.wf(),
        new.key_post(&old, key),
        old.selection == Selection::Profiles,
        is_next(key) || is_previous(key),
    ensures
        new.current_domains.selected is None,
        new.current_cookies.selected is None,
{
}

/// A search in the profiles column, whether it finds a profile or not,
/// leaves no domain and no cookie selected.
pub proof fn lemma_profile_search_clears(old: State, new: State)
    requires
        old.wf(),
        new.searched(&old),
        old.selection == Selection::Profiles,
    ensures
        new.current_domains.selected is None,
        new.current_cookies.selected is None,
{
}

/// The next position after the last is the first; the one before the
/// first is the last.
pub proof fn lemma_wrap_around(len: nat)
    requires
        0 < len <= usize::MAX,
    ensures
        next_spec(Some((len - 1) as usize), len) == Some(0usize),
        previous_spec(Some(0usize), len) == Some((len - 1) as usize),
{
}

/// Whether a row was read and decodes into a cookie.
pub open spec fn row_ok<E>(row: Result<Vec<SqlCell>, E>) -> bool {
    row is Ok && row_decodes(row->Ok_0@)
}

/// Rows that are all read and all decode are all kept.
pub proof fn lemma_all_rows_kept<E>(rows: Seq<Result<Vec<SqlCell>, E>>)
    requires
        forall|i: int| 0 <= i < rows.len() ==> row_ok(#[trigger] rows[i]),
    ensures
        kept_rows(rows).len() == rows.len(),
    decreases rows.len(),
{
    if rows.len() > 0 {
        assert(row_ok(rows[rows.len() - 1]));
        lemma_all_rows_kept(rows.drop_last());
    }
}

/// Of rows that all decode but one, every row but that one is kept: the
/// malformed row is dropped and loading goes on.
pub proof fn lemma_one_bad_row_dropped<E>(rows: Seq<Result<Vec<SqlCell>, E>>, bad: int)
    requires
        0 <= bad < rows.len(),
        !row_ok(rows[bad]),
        forall|i: int| 0 <= i < rows.len() && i != bad ==> row_ok(#[trigger] rows[i]),
    ensures
        kept_rows(rows).len() == rows.len() - 1,
    decreases rows.len(),
{
    let last = rows.len() - 1;
    if bad == last {
        assert forall|i: int| 0 <= i < rows.drop_last().len() implies row_ok(#[trigger] rows.drop_last()[i]) by {
            assert(rows.drop_last()[i] == rows[i]);
        }
        lemma_all_rows_kept(rows.drop_last());
    } else {
        assert(row_ok(rows[last]));
        assert forall|i: int| 0 <= i < rows.drop_last().len() && i != bad implies row_ok(
            #[trigger] rows.drop_last()[i],
        ) by {
            assert(rows.drop_last()[i] == rows[i]);
        }
        assert(rows.drop_last()[bad] == rows[bad]);
        lemma_one_bad_row_dropped(rows.drop_last(), bad);
    }
}

/// A zero in a timestamp column marks a session cookie and stays zero,
/// whatever the engine.
pub proof fn lemma_zero_timestamps_stay(c: CookieView, cells: Seq<SqlCell>, typing: DbType)
    requires
        is_row_cookie(c, cells, typing),
    ensures
        cell_i64(cells[4]) == Some(0i64) ==> c.creation == 0,
        cell_i64(cells[5]) == Some(0i64) ==> c.expiry == 0,
        cell_i64(cells[6]) == Some(0i64) ==> c.last_access == 0,
{
}

} // verus!
