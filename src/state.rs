//! The navigation state of the viewer: profiles, then domains, then cookies,
//! then the fields of one cookie, each column derived from the selection in
//! the one before.
use vstd::prelude::*;
use crate::cursor::{next_index, next_spec, previous_index, previous_spec, selection_in, StatefulList};
use crate::db::{field_texts, is_domain_list, short_path, with_host};
use crate::search::{lemma_matching_sound, matching, set_matches};
use crate::text::{pop_char, push_char};
use crate::types::{Cookie, CookieDB, CookieView};

verus! {

/// The column that moves and searches act on.
#[derive(Debug, Clone, Copy, PartialEq, Eq, Structural)]
pub enum Selection {
    Profiles,
    Domains,
    Cookies,
}

/// A key press, as the viewer reads it.
#[derive(Debug, Clone, Copy, PartialEq, Eq, Structural)]
pub enum Key {
    Left,
    Right,
    Up,
    Down,
    Enter,
    Backspace,
    Esc,
    Char(char),
    Other,
}

/// The names of `cookies`, in order.
pub open spec fn names_of(cookies: Seq<CookieView>) -> Seq<Seq<char>> {
    cookies.map_values(|c: CookieView| c.name)
}

/// How the profiles column shows `dbs`: the short form of each location,
/// with `home` written as `~`.
pub open spec fn paths_of(dbs: Seq<CookieDB>, home: Seq<char>) -> Seq<Seq<char>> {
    dbs.map_values(|d: CookieDB| short_path(d.path@, home))
}

/// The viewer's session: the databases, the four columns, which column is
/// active, and the search in progress.
#[derive(Debug)]
pub struct State {
    pub cookie_dbs: Vec<CookieDB>,
    /// The home directory, shown as `~` in the profiles column.
    pub home: String,
    /// One item per database: the short form of its location.
    pub profiles: StatefulList,
    /// The domains of the selected profile.
    pub current_domains: StatefulList,
    /// The names of the cookies of the selected domain.
    pub current_cookies: StatefulList,
    /// The fields of the selected cookie; never selected.
    pub current_fields: StatefulList,
    pub selection: Selection,
    pub search_open: bool,
    pub search_field: String,
    /// Matches of the last search that are still to visit, the next one last.
    pub search_matches: Vec<usize>,
}

impl State {
    /// The cookies of the selected domain of the selected profile.
    pub open spec fn domain_cookies(&self) -> Seq<CookieView> {
        with_host(
            self.cookie_dbs@[self.profiles.selected->Some_0 as int].cookies@,
            self.current_domains.texts()[self.current_domains.selected->Some_0 as int],
        )
    }

    /// The domains are those of the selected profile, if any.
    pub open spec fn domains_ok(&self) -> bool {
        match self.profiles.selected {
            Some(p) => is_domain_list(self.current_domains.texts(), self.cookie_dbs@[p as int].cookies@),
            None => self.current_domains.items@.len() == 0,
        }
    }

    /// The cookies are those of the selected domain, if any.
    pub open spec fn cookies_ok(&self) -> bool {
        if self.profiles.selected is Some && self.current_domains.selected is Some {
            self.current_cookies.texts() == names_of(self.domain_cookies())
        } else {
            self.current_cookies.items@.len() == 0
        }
    }

    /// The fields are those of the selected cookie, if any.
    pub open spec fn fields_ok(&self) -> bool {
        &&& self.current_fields.selected is None
        &&& if self.profiles.selected is Some && self.current_domains.selected is Some
            && self.current_cookies.selected is Some {
            self.current_fields.texts() == field_texts(
                self.domain_cookies()[self.current_cookies.selected->Some_0 as int],
            )
        } else {
            self.current_fields.items@.len() == 0
        }
    }

    /// Every column holds what the selection before it calls for, and every
    /// selection is nothing or one of its column's items.
    pub open spec fn columns_wf(&self) -> bool {
        &&& self.profiles.texts() == paths_of(self.cookie_dbs@, self.home@)
        &&& self.profiles.items@.len() == self.cookie_dbs@.len()
        &&& self.profiles.wf()
        &&& self.current_domains.wf()
        &&& self.current_cookies.wf()
        &&& self.current_fields.wf()
        &&& self.domains_ok()
        &&& self.cookies_ok()
        &&& self.fields_ok()
    }

    /// The columns are well formed, and no column after the active one has
    /// a selection.
    pub open spec fn wf(&self) -> bool {
        &&& self.columns_wf()
        &&& self.selection == Selection::Profiles ==> self.current_domains.selected is None
        &&& self.selection != Selection::Cookies ==> self.current_cookies.selected is None
    }

    /// Everything but the columns and the active one is as in `old`.
    pub open spec fn same_session(&self, old: &State) -> bool {
        &&& self.cookie_dbs@ == old.cookie_dbs@
        &&& self.home@ == old.home@
        &&& self.profiles.items@ == old.profiles.items@
        &&& self.search_open == old.search_open
        &&& self.search_field@ == old.search_field@
        &&& self.search_matches@ == old.search_matches@
    }

    /// The columns, their selections and the active column are as in `old`.
    pub open spec fn same_columns(&self, old: &State) -> bool {
        &&& self.selection == old.selection
        &&& self.profiles.selected == old.profiles.selected
        &&& self.current_domains.items@ == old.current_domains.items@
        &&& self.current_domains.selected == old.current_domains.selected
        &&& self.current_cookies.items@ == old.current_cookies.items@
        &&& self.current_cookies.selected == old.current_cookies.selected
        &&& self.current_fields.items@ == old.current_fields.items@
    }

    /// Nothing differs from `old`.
    pub open spec fn same_view(&self, old: &State) -> bool {
        self.same_session(old) && self.same_columns(old)
    }

    /// The active column.
    pub open spec fn active_list(&self) -> StatefulList {
        match self.selection {
            Selection::Profiles => self.profiles,
            Selection::Domains => self.current_domains,
            Selection::Cookies => self.current_cookies,
        }
    }

    /// Whether this state is `old` with the selection of the active column
    /// set to `sel`: the columns before it stay, those after it are derived
    /// anew with nothing selected.
    pub open spec fn moved_to(&self, old: &State, sel: Option<usize>) -> bool {
        &&& self.selection == old.selection
        &&& match old.selection {
            Selection::Profiles => {
                &&& self.profiles.selected == sel
                &&& self.current_domains.selected is None
                &&& self.current_cookies.selected is None
            },
            Selection::Domains => {
                &&& self.profiles.selected == old.profiles.selected
                &&& self.current_domains.items@ == old.current_domains.items@
                &&& self.current_domains.selected == sel
                &&& self.current_cookies.selected is None
            },
            Selection::Cookies => {
                &&& self.profiles.selected == old.profiles.selected
                &&& self.current_domains.items@ == old.current_domains.items@
                &&& self.current_domains.selected == old.current_domains.selected
                &&& self.current_cookies.items@ == old.current_cookies.items@
                &&& self.current_cookies.selected == sel
            },
        }
    }

    /// What entering the column after the active one does: it becomes
    /// active with its first item selected, if it has items; from the
    /// cookies column nothing changes.
    pub open spec fn descended(&self, old: &State) -> bool {
        match old.selection {
            Selection::Profiles => if old.current_domains.items@.len() > 0 {
                &&& self.selection == Selection::Domains
                &&& self.profiles.selected == old.profiles.selected
                &&& self.current_domains.items@ == old.current_domains.items@
                &&& self.current_domains.selected == Some(0usize)
                &&& self.current_cookies.selected is None
            } else {
                self.same_columns(old)
            },
            Selection::Domains => if old.current_cookies.items@.len() > 0 {
                &&& self.selection == Selection::Cookies
                &&& self.profiles.selected == old.profiles.selected
                &&& self.current_domains.items@ == old.current_domains.items@
                &&& self.current_domains.selected == old.current_domains.selected
                &&& self.current_cookies.items@ == old.current_cookies.items@
                &&& self.current_cookies.selected == Some(0usize)
            } else {
                self.same_columns(old)
            },
            Selection::Cookies => self.same_columns(old),
        }
    }

    /// What leaving the active column does: its selection is cleared and
    /// the column before it becomes active; from the profiles column
    /// nothing changes.
    pub open spec fn ascended(&self, old: &State) -> bool {
        match old.selection {
            Selection::Profiles => self.same_columns(old),
            Selection::Domains => {
                &&& self.selection == Selection::Profiles
                &&& self.profiles.selected == old.profiles.selected
                &&& self.current_domains.items@ == old.current_domains.items@
                &&& self.current_domains.selected is None
            },
            Selection::Cookies => {
                &&& self.selection == Selection::Domains
                &&& self.profiles.selected == old.profiles.selected
                &&& self.current_domains.items@ == old.current_domains.items@
                &&& self.current_domains.selected == old.current_domains.selected
                &&& self.current_cookies.items@ == old.current_cookies.items@
                &&& self.current_cookies.selected is None
            },
        }
    }

    /// What a key does outside a search.
    pub open spec fn key_post(&self, old: &State, key: Key) -> bool {
        &&& self.cookie_dbs@ == old.cookie_dbs@
        &&& self.home@ == old.home@
        &&& self.profiles.items@ == old.profiles.items@
        &&& self.search_field@ == old.search_field@
        &&& self.search_matches@ == old.search_matches@
        &&& self.search_open == (old.search_open || key == Key::Char('/'))
        &&& if is_next(key) {
            self.moved_to(old, next_spec(old.active_list().selected, old.active_list().items@.len()))
        } else if is_previous(key) {
            self.moved_to(old, previous_spec(old.active_list().selected, old.active_list().items@.len()))
        } else if is_descend(key) {
            self.descended(old)
        } else if is_ascend(key) {
            self.ascended(old)
        } else {
            self.same_columns(old)
        }
    }

    /// What committing a search for `old.search_field` does: the first
    /// item of the active column that contains it is selected, the others
    /// stay to visit; where no item contains it nothing is selected anew.
    pub open spec fn searched(&self, old: &State) -> bool {
        let m = matching(old.active_list().texts(), old.search_field@);
        if m.len() == 0 {
            &&& self.same_columns(old)
            &&& self.search_matches@.len() == 0
        } else {
            &&& self.moved_to(old, Some(m[0]))
            &&& self.search_matches@ == m.subrange(1, m.len() as int).reverse()
        }
    }

    /// What visiting the next match of the last search does: the next match
    /// leaves the stack and, if it is still an item of the active column, is
    /// selected there.
    pub open spec fn repeat_post(&self, old: &State) -> bool {
        &&& self.cookie_dbs@ == old.cookie_dbs@
        &&& self.home@ == old.home@
        &&& self.profiles.items@ == old.profiles.items@
        &&& self.search_open == old.search_open
        &&& self.search_field@ == old.search_field@
        &&& old.search_matches@.len() == 0 ==> self.same_view(old)
        &&& old.search_matches@.len() > 0 ==> {
            let i = old.search_matches@.last();
            &&& self.search_matches@ == old.search_matches@.drop_last()
            &&& i < old.active_list().items@.len() ==> self.moved_to(old, Some(i))
            &&& i >= old.active_list().items@.len() ==> self.same_columns(old)
        }
    }

    /// What a key does while a search is being typed.
    pub open spec fn search_key_post(&self, old: &State, key: Key) -> bool {
        &&& self.cookie_dbs@ == old.cookie_dbs@
        &&& self.home@ == old.home@
        &&& self.profiles.items@ == old.profiles.items@
        &&& match key {
            Key::Enter => {
                &&& !self.search_open
                &&& self.search_field@.len() == 0
                &&& self.searched(old)
            },
            Key::Char(c) => {
                &&& self.same_columns(old)
                &&& self.search_open == old.search_open
                &&& self.search_matches@ == old.search_matches@
                &&& self.search_field@ == old.search_field@.push(c)
            },
            Key::Backspace => {
                &&& self.same_columns(old)
                &&& self.search_open == old.search_open
                &&& self.search_matches@ == old.search_matches@
                &&& self.search_field@ == (if old.search_field@.len() > 0 {
                    old.search_field@.drop_last()
                } else {
                    old.search_field@
                })
            },
            Key::Esc => {
                &&& self.same_columns(old)
                &&& !self.search_open
                &&& self.search_matches@ == old.search_matches@
                &&& self.search_field@.len() == 0
            },
            _ => self.same_view(old),
        }
    }

    /// A session over `cookie_dbs`, with the first profile selected if there
    /// is one, and the profiles column active; `home` is shown as `~`.
    pub fn from_cookie_dbs(cookie_dbs: Vec<CookieDB>, home: &str) -> (r: State)
        ensures
            r.wf(),
            r.cookie_dbs@ == cookie_dbs@,
            r.home@ == home@,
            r.selection == Selection::Profiles,
            r.profiles.selected == (if cookie_dbs@.len() > 0 {
                Some(0usize)
            } else {
                None
            }),
            r.current_domains.selected is None,
            !r.search_open,
            r.search_field@.len() == 0,
            r.search_matches@.len() == 0,
    {
        let mut paths: Vec<String> = Vec::new();
        let mut i: usize = 0;
        while i < cookie_dbs.len()
            invariant
                0 <= i <= cookie_dbs@.len(),
                paths@.len() == i,
                forall|j: int| 0 <= j < i ==> #[trigger] paths@[j]@ == short_path(cookie_dbs@[j].path@, home@),
            decreases cookie_dbs.len() - i,
        {
            paths.push(cookie_dbs[i].path_short(home));
            i = i + 1;
        }
        assert(paths@.map_values(|s: String| s@) =~= paths_of(cookie_dbs@, home@));
        let mut s = State {
            cookie_dbs,
            home: String::from_str(home),
            profiles: StatefulList::with_items(paths),
            current_domains: StatefulList::with_items(Vec::new()),
            current_cookies: StatefulList::with_items(Vec::new()),
            current_fields: StatefulList::with_items(Vec::new()),
            selection: Selection::Profiles,
            search_open: false,
            search_field: String::new(),
            search_matches: Vec::new(),
        };
        if s.cookie_dbs.len() > 0 {
            s.set_profile(Some(0));
        }
        s
    }

    /// Selects profile `sel`; the domains become its domains, with none
    /// selected, and the cookies and fields are cleared.
    fn set_profile(&mut self, sel: Option<usize>)
        requires
            old(self).columns_wf(),
            selection_in(sel, old(self).cookie_dbs@.len()),
        ensures
            final(self).columns_wf(),
            final(self).same_session(old(self)),
            final(self).selection == old(self).selection,
            final(self).profiles.selected == sel,
            final(self).current_domains.selected is None,
            final(self).current_cookies.selected is None,
    {
        assert(self.profiles.texts().len() == self.profiles.items@.len());
        self.profiles.select(sel);
        let domains = match sel {
            Some(p) => self.cookie_dbs[p].domains(),
            None => Vec::new(),
        };
        self.current_domains = StatefulList::with_items(domains);
        self.current_cookies = StatefulList::with_items(Vec::new());
        self.current_fields = StatefulList::with_items(Vec::new());
    }

    /// Selects domain `sel`; the cookies become its cookies, with none
    /// selected, and the fields are cleared.
    fn set_domain(&mut self, sel: Option<usize>)
        requires
            old(self).columns_wf(),
            selection_in(sel, old(self).current_domains.items@.len()),
        ensures
            final(self).columns_wf(),
            final(self).same_session(old(self)),
            final(self).selection == old(self).selection,
            final(self).profiles.selected == old(self).profiles.selected,
            final(self).current_domains.items@ == old(self).current_domains.items@,
            final(self).current_domains.selected == sel,
            final(self).current_cookies.selected is None,
    {
        self.current_domains.select(sel);
        let names = match sel {
            Some(d) => match self.profiles.selected {
                Some(p) => cookie_names(&self.cookie_dbs[p], &self.current_domains.items[d]),
                None => Vec::new(),
            },
            None => Vec::new(),
        };
        self.current_cookies = StatefulList::with_items(names);
        self.current_fields = StatefulList::with_items(Vec::new());
    }

    /// Selects cookie `sel`; the fields become its fields.
    fn set_cookie(&mut self, sel: Option<usize>)
        requires
            old(self).columns_wf(),
            selection_in(sel, old(self).current_cookies.items@.len()),
        ensures
            final(self).columns_wf(),
            final(self).same_session(old(self)),
            final(self).selection == old(self).selection,
            final(self).profiles.selected == old(self).profiles.selected,
            final(self).current_domains.items@ == old(self).current_domains.items@,
            final(self).current_domains.selected == old(self).current_domains.selected,
            final(self).current_cookies.items@ == old(self).current_cookies.items@,
            final(self).current_cookies.selected == sel,
    {
        self.current_cookies.select(sel);
        let mut fields: Vec<String> = Vec::new();
        if let Some(c) = sel {
            if let Some(p) = self.profiles.selected {
                if let Some(d) = self.current_domains.selected {
                    let list = self.cookie_dbs[p].cookies_for_domain(&self.current_domains.items[d]);
                    proof {
                        assert(list@.map_values(|c: &Cookie| c@).len() == list@.len());
                        assert(self.current_cookies.texts().len() == self.current_cookies.items@.len());
                        assert(self.current_domains.texts()[d as int] == self.current_domains.items@[d as int]@);
                    }
                    fields = list[c].field_values();
                    proof {
                        assert(list@.map_values(|c: &Cookie| c@)[c as int] == list@[c as int]@);
                    }
                }
            }
        }
        self.current_fields = StatefulList::with_items(fields);
    }
}

/// The names of the cookies that `domain` set in `db`, in order.
fn cookie_names(db: &CookieDB, domain: &String) -> (r: Vec<String>)
    ensures
        r@.map_values(|s: String| s@) == names_of(with_host(db.cookies@, domain@)),
{
    let list = db.cookies_for_domain(domain);
    let ghost views = list@.map_values(|c: &Cookie| c@);
    let mut out: Vec<String> = Vec::new();
    let mut i: usize = 0;
    while i < list.len()
        invariant
            views == list@.map_values(|c: &Cookie| c@),
            0 <= i <= list@.len(),
            out@.len() == i,
            forall|j: int| 0 <= j < i ==> #[trigger] out@[j]@ == views[j].name,
        decreases list.len() - i,
    {
        out.push(list[i].name.clone());
        i = i + 1;
    }
    assert(out@.map_values(|s: String| s@) =~= names_of(views));
    out
}

} // verus!

verus! {

/// Keys that select the next item.
pub open spec fn is_next(k: Key) -> bool {
    k == Key::Down || k == Key::Char('j')
}

/// Keys that select the previous item.
pub open spec fn is_previous(k: Key) -> bool {
    k == Key::Up || k == Key::Char('k')
}

/// Keys that enter the next column.
pub open spec fn is_descend(k: Key) -> bool {
    k == Key::Right || k == Key::Char('l')
}

/// Keys that leave the active column.
pub open spec fn is_ascend(k: Key) -> bool {
    k == Key::Left || k == Key::Char('h')
}

impl State {
    /// The active column.
    fn active(&self) -> (r: &StatefulList)
        ensures
            *r == self.active_list(),
    {
        match self.selection {
            Selection::Profiles => &self.profiles,
            Selection::Domains => &self.current_domains,
            Selection::Cookies => &self.current_cookies,
        }
    }

    /// Sets the selection of the active column to `sel`, deriving the
    /// columns after it anew.
    fn select_active(&mut self, sel: Option<usize>)
        requires
            old(self).columns_wf(),
            selection_in(sel, old(self).active_list().items@.len()),
        ensures
            final(self).columns_wf(),
            final(self).same_session(old(self)),
            final(self).moved_to(old(self), sel),
    {
        match self.selection {
            Selection::Profiles => self.set_profile(sel),
            Selection::Domains => self.set_domain(sel),
            Selection::Cookies => self.set_cookie(sel),
        }
    }

    /// Handles a key outside a search: moves within the active column,
    /// enters the next one, leaves the active one, or opens the search.
    pub fn handle_key(&mut self, key: Key)
        requires
            old(self).wf(),
        ensures
            final(self).wf(),
            final(self).key_post(old(self), key),
    {
        if is_next_key(key) {
            let a = self.active();
            let sel = next_index(a.selected, a.items.len());
            self.select_active(sel);
        } else if is_previous_key(key) {
            let a = self.active();
            let sel = previous_index(a.selected, a.items.len());
            self.select_active(sel);
        } else if is_descend_key(key) {
            match self.selection {
                Selection::Profiles => {
                    if self.current_domains.items.len() > 0 {
                        self.set_domain(Some(0));
                        self.selection = Selection::Domains;
                    }
                },
                Selection::Domains => {
                    if self.current_cookies.items.len() > 0 {
                        self.set_cookie(Some(0));
                        self.selection = Selection::Cookies;
                    }
                },
                Selection::Cookies => {},
            }
        } else if is_ascend_key(key) {
            match self.selection {
                Selection::Profiles => {},
                Selection::Domains => {
                    self.set_domain(None);
                    self.selection = Selection::Profiles;
                },
                Selection::Cookies => {
                    self.set_cookie(None);
                    self.selection = Selection::Domains;
                },
            }
        } else if key == Key::Char('/') {
            self.search_open = true;
        }
    }

    /// Handles a key while a search is typed: a character extends the query,
    /// backspace removes its last character, escape drops it, and enter
    /// runs it on the active column.
    pub fn handle_search_key(&mut self, key: Key)
        requires
            old(self).wf(),
        ensures
            final(self).wf(),
            final(self).search_key_post(old(self), key),
    {
        match key {
            Key::Enter => {
                self.search_open = false;
                self.search_matches = Vec::new();
                let query = self.search_field.clone();
                self.search_field = String::new();
                let ghost texts = self.active_list().texts();
                let n = self.active().items.len();
                let first = match self.selection {
                    Selection::Profiles => set_matches(&self.profiles.items, &query, &mut self.search_matches),
                    Selection::Domains => set_matches(&self.current_domains.items, &query, &mut self.search_matches),
                    Selection::Cookies => set_matches(&self.current_cookies.items, &query, &mut self.search_matches),
                };
                proof {
                    assert(Seq::<usize>::empty() + matching(texts, query@) =~= matching(texts, query@));
                }
                if let Some(i) = first {
                    proof {
                        lemma_matching_sound(texts, query@, 0);
                    }
                    self.select_active(Some(i));
                }
            },
            Key::Char(c) => {
                push_char(&mut self.search_field, c);
            },
            Key::Backspace => {
                pop_char(&mut self.search_field);
            },
            Key::Esc => {
                self.search_field = String::new();
                self.search_open = false;
            },
            _ => {},
        }
    }

    /// Handles one key press; returns whether the session ends, which `q`
    /// outside a search asks for. Outside a search `n` visits the next
    /// match of the last search.
    pub fn on_key(&mut self, key: Key) -> (quit: bool)
        requires
            old(self).wf(),
        ensures
            final(self).wf(),
            quit == (!old(self).search_open && key == Key::Char('q')),
            quit ==> final(self).same_view(old(self)),
            old(self).search_open ==> final(self).search_key_post(old(self), key),
            !old(self).search_open && key == Key::Char('n') ==> final(self).repeat_post(old(self)),
            !old(self).search_open && !quit && key != Key::Char('n') ==> final(self).key_post(old(self), key),
    {
        if self.search_open {
            self.handle_search_key(key);
            false
        } else if key == Key::Char('q') {
            true
        } else if key == Key::Char('n') {
            self.repeat_search();
            false
        } else {
            self.handle_key(key);
            false
        }
    }

    /// Visits the next match of the last search, if it is still an item of
    /// the active column.
    pub fn repeat_search(&mut self)
        requires
            old(self).wf(),
        ensures
            final(self).wf(),
            final(self).repeat_post(old(self)),
    {
        match self.search_matches.pop() {
            Some(i) => {
                if i < self.active().items.len() {
                    self.select_active(Some(i));
                }
            },
            None => {},
        }
    }
}

fn is_next_key(k: Key) -> (r: bool)
    ensures
        r == is_next(k),
{
    k == Key::Down || k == Key::Char('j')
}

fn is_previous_key(k: Key) -> (r: bool)
    ensures
        r == is_previous(k),
{
    k == Key::Up || k == Key::Char('k')
}

fn is_descend_key(k: Key) -> (r: bool)
    ensures
        r == is_descend(k),
{
    k == Key::Right || k == Key::Char('l')
}

fn is_ascend_key(k: Key) -> (r: bool)
    ensures
        r == is_ascend(k),
{
    k == Key::Left || k == Key::Char('h')
}

} // verus!
