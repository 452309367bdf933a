use cookie_viewer::cursor::StatefulList;
use cookie_viewer::search::set_matches;
use cookie_viewer::state::{Key, Selection, State};
use cookie_viewer::text::{chars_of, contains, display_text, less};
use cookie_viewer::types::{Cookie, CookieDB, DbType};

fn cookie(host: &str, name: &str, value: &str) -> Cookie {
    Cookie {
        host: host.to_string(),
        name: name.to_string(),
        value: value.to_string(),
        path: "/".to_string(),
        creation: 10,
        expiry: 0,
        last_access: 20,
        http_only: true,
        secure: false,
        samesite: 2,
    }
}

fn db(path: &str, cookies: Vec<Cookie>) -> CookieDB {
    let mut d = CookieDB::new(path.to_string(), DbType::Firefox);
    d.cookies = cookies;
    d
}

fn session() -> State {
    State::from_cookie_dbs(
        vec![
        db(
            "/home/u/.mozilla/a/cookies.sqlite",
            vec![
                cookie("b.com", "x", "1"),
                cookie("a.com", "y", "2"),
                cookie("b.com", "z", "3"),
            ],
        ),
        db("/home/u/.mozilla/b/cookies.sqlite", vec![cookie("c.org", "w", "4")]),
        ],
        "/home/u",
    )
}

fn strings(v: &[&str]) -> Vec<String> {
    v.iter().map(|s| s.to_string()).collect()
}

fn type_query(s: &mut State, q: &str) {
    assert!(!s.on_key(Key::Char('/')));
    for c in q.chars() {
        assert!(!s.on_key(Key::Char(c)));
    }
}

#[test]
fn list_wraps_around() {
    let mut l = StatefulList::with_items(strings(&["a", "b", "c"]));
    assert_eq!(l.selected, None);
    l.next();
    assert_eq!(l.selected, Some(0));
    l.select(Some(2));
    l.next();
    assert_eq!(l.selected, Some(0));
    l.previous();
    assert_eq!(l.selected, Some(2));
    l.previous();
    assert_eq!(l.selected, Some(1));

    let mut l = StatefulList::with_items(strings(&["a", "b"]));
    l.previous();
    assert_eq!(l.selected, Some(0));

    let mut empty = StatefulList::with_items(Vec::new());
    empty.next();
    assert_eq!(empty.selected, None);
    empty.previous();
    assert_eq!(empty.selected, None);
}

#[test]
fn search_first_match_and_pending() {
    let items = strings(&["a.com", "b.com", "ab.com"]);
    let mut pending = Vec::new();
    assert_eq!(set_matches(&items, &"a".to_string(), &mut pending), Some(0));
    assert_eq!(pending, vec![2]);

    let mut pending = Vec::new();
    assert_eq!(set_matches(&items, &"zz".to_string(), &mut pending), None);
    assert!(pending.is_empty());

    let mut pending = Vec::new();
    assert_eq!(set_matches(&items, &".com".to_string(), &mut pending), Some(0));
    assert_eq!(pending, vec![2, 1]);
}

#[test]
fn text_helpers() {
    assert!(contains("ab.com", "b.c"));
    assert!(contains("abc", ""));
    assert!(!contains("abc", "abcd"));
    assert!(!contains("A.com", "a"));
    assert!(contains("héllo", "él"));
    assert_eq!(chars_of("hé"), vec!['h', 'é']);
    assert!(less(&chars_of("a"), &chars_of("ab")));
    assert!(less(&chars_of("ab"), &chars_of("b")));
    assert!(!less(&chars_of("b"), &chars_of("b")));
    assert!(less(&chars_of("B"), &chars_of("a")));
}

#[test]
fn new_session_selects_first_profile() {
    let s = session();
    assert_eq!(s.selection, Selection::Profiles);
    assert_eq!(s.profiles.selected, Some(0));
    assert_eq!(s.profiles.items, strings(&["~/.mozilla/a", "~/.mozilla/b"]));
    assert_eq!(s.current_domains.items, strings(&["a.com", "b.com"]));
    assert_eq!(s.current_domains.selected, None);
    assert!(s.current_cookies.items.is_empty());

    let empty = State::from_cookie_dbs(Vec::new(), "/home/u");
    assert_eq!(empty.profiles.selected, None);
    assert!(empty.current_domains.items.is_empty());
}

#[test]
fn descend_and_ascend() {
    let mut s = session();
    s.handle_key(Key::Right);
    assert_eq!(s.selection, Selection::Domains);
    assert_eq!(s.current_domains.selected, Some(0));
    assert_eq!(s.current_cookies.items, strings(&["y"]));
    s.handle_key(Key::Char('j'));
    assert_eq!(s.current_domains.selected, Some(1));
    assert_eq!(s.current_cookies.items, strings(&["x", "z"]));
    assert_eq!(s.current_cookies.selected, None);
    s.handle_key(Key::Char('l'));
    assert_eq!(s.selection, Selection::Cookies);
    assert_eq!(s.current_cookies.selected, Some(0));
    assert_eq!(
        s.current_fields.items,
        strings(&["1", "/", "10", "0", "20", "true", "false", "2"])
    );
    s.handle_key(Key::Down);
    assert_eq!(s.current_fields.items[0], "3");
    s.handle_key(Key::Right);
    assert_eq!(s.selection, Selection::Cookies);
    s.handle_key(Key::Left);
    assert_eq!(s.selection, Selection::Domains);
    assert_eq!(s.current_cookies.selected, None);
    assert!(s.current_fields.items.is_empty());
    s.handle_key(Key::Char('h'));
    assert_eq!(s.selection, Selection::Profiles);
    assert_eq!(s.current_domains.selected, None);
    assert!(s.current_cookies.items.is_empty());
    s.handle_key(Key::Left);
    assert_eq!(s.selection, Selection::Profiles);
    assert_eq!(s.profiles.selected, Some(0));
}

#[test]
fn profile_change_clears_selections() {
    let mut s = session();
    s.handle_key(Key::Right);
    s.handle_key(Key::Right);
    s.handle_key(Key::Left);
    s.handle_key(Key::Left);
    s.handle_key(Key::Down);
    assert_eq!(s.profiles.selected, Some(1));
    assert_eq!(s.current_domains.items, strings(&["c.org"]));
    assert_eq!(s.current_domains.selected, None);
    assert_eq!(s.current_cookies.selected, None);
    assert!(s.current_cookies.items.is_empty());
    s.handle_key(Key::Char('j'));
    assert_eq!(s.profiles.selected, Some(0));
    s.handle_key(Key::Up);
    assert_eq!(s.profiles.selected, Some(1));
    s.handle_key(Key::Char('k'));
    assert_eq!(s.profiles.selected, Some(0));
}

#[test]
fn descend_into_empty_column_does_nothing() {
    let mut s = State::from_cookie_dbs(vec![db("/p/empty.sqlite", Vec::new())], "/home/u");
    s.handle_key(Key::Right);
    assert_eq!(s.selection, Selection::Profiles);
    assert_eq!(s.current_domains.selected, None);
}

#[test]
fn search_moves_selection() {
    let mut s = session();
    s.handle_key(Key::Right);
    type_query(&mut s, "b.c");
    assert!(s.search_open);
    assert_eq!(s.search_field, "b.c");
    s.on_key(Key::Backspace);
    assert_eq!(s.search_field, "b.");
    s.on_key(Key::Enter);
    assert!(!s.search_open);
    assert!(s.search_field.is_empty());
    assert_eq!(s.current_domains.selected, Some(1));
    assert_eq!(s.current_cookies.items, strings(&["x", "z"]));
}

#[test]
fn search_miss_keeps_selection() {
    let mut s = session();
    s.handle_key(Key::Right);
    s.handle_key(Key::Down);
    type_query(&mut s, "nothing");
    s.on_key(Key::Enter);
    assert_eq!(s.current_domains.selected, Some(1));
    assert!(s.search_matches.is_empty());
}

#[test]
fn profile_search_miss_keeps_columns_clear() {
    let mut s = session();
    type_query(&mut s, "cookies.sqlite");
    s.on_key(Key::Enter);
    assert_eq!(s.profiles.selected, Some(0));
    assert_eq!(s.current_domains.selected, None);
    assert_eq!(s.current_cookies.selected, None);
}

#[test]
fn search_escape_discards_query() {
    let mut s = session();
    type_query(&mut s, "b/");
    s.on_key(Key::Esc);
    assert!(!s.search_open);
    assert!(s.search_field.is_empty());
    assert_eq!(s.profiles.selected, Some(0));
}

#[test]
fn search_profiles_and_repeat() {
    let mut s = session();
    type_query(&mut s, "~/.mozilla");
    s.on_key(Key::Enter);
    assert_eq!(s.profiles.selected, Some(0));
    assert_eq!(s.search_matches, vec![1]);
    assert!(!s.on_key(Key::Char('n')));
    assert_eq!(s.profiles.selected, Some(1));
    assert_eq!(s.current_domains.items, strings(&["c.org"]));
    assert!(s.search_matches.is_empty());
    s.repeat_search();
    assert_eq!(s.profiles.selected, Some(1));
}

#[test]
fn pop_and_decimal_text() {
    let mut c = cookie("a.com", "n", "v");
    c.creation = i64::MIN;
    c.expiry = 1234567890;
    assert_eq!(c.field_values()[2], "-9223372036854775808");
    assert_eq!(c.field_values()[3], "1234567890");
    let mut t = "hé".to_string();
    assert_eq!(cookie_viewer::text::pop_char(&mut t), Some('é'));
    assert_eq!(t, "h");
    assert_eq!(cookie_viewer::text::pop_char(&mut t), Some('h'));
    assert_eq!(cookie_viewer::text::pop_char(&mut t), None);
}

#[test]
fn quit_only_outside_search() {
    let mut s = session();
    assert!(!s.on_key(Key::Char('/')));
    assert!(!s.on_key(Key::Char('q')));
    assert_eq!(s.search_field, "q");
    s.on_key(Key::Esc);
    assert!(s.on_key(Key::Char('q')));
}

#[test]
fn long_items_are_cut() {
    assert_eq!(display_text("abcdef", 4), "abcd..");
    assert_eq!(display_text("abcd", 4), "abcd");
    assert_eq!(display_text("ééééé", 4), "éé..");
    assert_eq!(display_text("ééééé", 5), "éé..");
    assert_eq!(display_text(&"é".repeat(17), 32), format!("{}..", "é".repeat(16)));
    assert_eq!(display_text(&"é".repeat(16), 32), "é".repeat(16));
    assert_eq!(display_text("a€b", 3), "a..");
    assert_eq!(display_text("", 0), "");
}
