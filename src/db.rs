//! What a cookie database shows: its domains, the cookies of a domain, the
//! fields of a cookie, and a short form of its location.
use vstd::prelude::*;
use crate::text::{chars_of, decimal, int_text, less, parent_of, path_parent, replace_all, replace_spec, text_less, lemma_text_less_total, lemma_less_transitive};
use crate::types::{Cookie, CookieDB, CookieView};

verus! {

/// Whether every text of `s` comes before every later one: sorted, and no
/// text twice.
pub open spec fn strictly_sorted(s: Seq<Seq<char>>) -> bool {
    forall|i: int, j: int| 0 <= i < j < s.len() ==> text_less(#[trigger] s[i], #[trigger] s[j])
}

/// Whether some cookie of `cookies` is set by `host`.
pub open spec fn has_host(cookies: Seq<Cookie>, host: Seq<char>) -> bool {
    exists|i: int| 0 <= i < cookies.len() && #[trigger] cookies[i].host@ == host
}

/// The domains of `cookies`: each host once, in the order of `str`.
pub open spec fn is_domain_list(d: Seq<Seq<char>>, cookies: Seq<Cookie>) -> bool {
    &&& strictly_sorted(d)
    &&& forall|h: Seq<char>| #[trigger] d.contains(h) <==> has_host(cookies, h)
}

/// The cookies of `cookies` set by `host`, in their order.
pub open spec fn with_host(cookies: Seq<Cookie>, host: Seq<char>) -> Seq<CookieView>
    decreases cookies.len(),
{
    if cookies.len() == 0 {
        Seq::empty()
    } else {
        let rest = with_host(cookies.drop_last(), host);
        if cookies.last().host@ == host {
            rest.push(cookies.last()@)
        } else {
            rest
        }
    }
}

/// Inserting a text where everything before it is smaller and everything
/// after it larger keeps a list strictly sorted.
proof fn lemma_insert_sorted(s: Seq<Seq<char>>, q: int, x: Seq<char>)
    requires
        strictly_sorted(s),
        0 <= q <= s.len(),
        forall|i: int| 0 <= i < q ==> text_less(#[trigger] s[i], x),
        q < s.len() ==> text_less(x, s[q]),
    ensures
        strictly_sorted(s.insert(q, x)),
{
    let t = s.insert(q, x);
    assert forall|i: int, j: int| 0 <= i < j < t.len() implies text_less(#[trigger] t[i], #[trigger] t[j]) by {
        if j == q {
        } else if i == q {
            if j > q + 1 {
                lemma_less_transitive(x, s[q], s[j - 1], 0);
            }
        } else if i < q && j > q {
            assert(text_less(s[i], s[j - 1]));
        } else if j < q {
        } else {
            assert(text_less(s[i - 1], s[j - 1]));
        }
    }
}

impl CookieDB {
    /// The hosts of the cookies, each once, sorted in the order of `str`.
    pub fn domains(&self) -> (r: Vec<String>)
        ensures
            is_domain_list(r@.map_values(|s: String| s@), self.cookies@),
    {
        let mut out: Vec<String> = Vec::new();
        let mut keys: Vec<Vec<char>> = Vec::new();
        let mut k: usize = 0;
        while k < self.cookies.len()
            invariant
                0 <= k <= self.cookies@.len(),
                keys@.len() == out@.len(),
                forall|i: int| 0 <= i < keys@.len() ==> #[trigger] keys@[i]@ == out@[i]@,
                is_domain_list(out@.map_values(|s: String| s@), self.cookies@.take(k as int)),
            decreases self.cookies.len() - k,
        {
            let ghost before = out@.map_values(|s: String| s@);
            let host = &self.cookies[k].host;
            let x = chars_of(host.as_str());
            let mut q: usize = 0;
            while q < keys.len() && less(&keys[q], &x)
                invariant
                    0 <= q <= keys@.len(),
                    keys@.len() == out@.len(),
                    forall|i: int| 0 <= i < keys@.len() ==> #[trigger] keys@[i]@ == out@[i]@,
                    before == out@.map_values(|s: String| s@),
                    forall|i: int| 0 <= i < q ==> text_less(#[trigger] before[i], x@),
                decreases keys.len() - q,
            {
                assert(before[q as int] == keys@[q as int]@);
                q = q + 1;
            }
            let found = q < keys.len() && !less(&x, &keys[q]);
            proof {
                if found {
                    if keys@[q as int]@ != x@ {
                        lemma_text_less_total(keys@[q as int]@, x@);
                    }
                    assert(before[q as int] == host@);
                } else if q < keys@.len() {
                    assert(text_less(x@, before[q as int]));
                }
            }
            if !found {
                out.insert(q, host.clone());
                keys.insert(q, x);
                proof {
                    assert(out@.map_values(|s: String| s@) =~= before.insert(q as int, host@));
                    lemma_insert_sorted(before, q as int, host@);
                }
            }
            proof {
                let now = out@.map_values(|s: String| s@);
                let cs = self.cookies@.take(k + 1);
                assert(cs[k as int] == self.cookies@[k as int]);
                assert forall|h: Seq<char>| #[trigger] now.contains(h) <==> has_host(cs, h) by {
                    if has_host(cs, h) {
                        let i = choose|i: int| 0 <= i < cs.len() && #[trigger] cs[i].host@ == h;
                        if i < k {
                            assert(self.cookies@.take(k as int)[i] == cs[i]);
                            assert(before.contains(h));
                            let j = choose|j: int| 0 <= j < before.len() && before[j] == h;
                            if found {
                                assert(now[j] == h);
                            } else if j < q {
                                assert(now[j] == h);
                            } else {
                                assert(now[j + 1] == h);
                            }
                        } else {
                            if found {
                                assert(now[q as int] == h);
                            } else {
                                assert(now[q as int] == h);
                            }
                        }
                    }
                    if now.contains(h) {
                        let j = choose|j: int| 0 <= j < now.len() && now[j] == h;
                        if !found && j == q {
                            assert(cs[k as int].host@ == h);
                        } else {
                            let jb = if !found && j > q { j - 1 } else { j };
                            assert(before[jb] == h);
                            assert(before.contains(h));
                            let ghost prev = self.cookies@.take(k as int);
                            let i = choose|i: int| 0 <= i < prev.len() && #[trigger] prev[i].host@ == h;
                            assert(cs[i] == prev[i]);
                        }
                    }
                }
            }
            k = k + 1;
        }
        assert(self.cookies@.take(k as int) =~= self.cookies@);
        out
    }

    /// The cookies set by `domain`, in the order they were read.
    pub fn cookies_for_domain(&self, domain: &String) -> (r: Vec<&Cookie>)
        ensures
            r@.map_values(|c: &Cookie| c@) == with_host(self.cookies@, domain@),
    {
        let mut out: Vec<&Cookie> = Vec::new();
        let mut k: usize = 0;
        while k < self.cookies.len()
            invariant
                0 <= k <= self.cookies@.len(),
                out@.map_values(|c: &Cookie| c@) == with_host(self.cookies@.take(k as int), domain@),
            decreases self.cookies.len() - k,
        {
            assert(self.cookies@.take(k + 1).drop_last() =~= self.cookies@.take(k as int));
            let c = &self.cookies[k];
            if c.host == *domain {
                out.push(c);
                assert(out@.map_values(|c: &Cookie| c@) =~= with_host(self.cookies@.take(k as int), domain@).push(c@));
            }
            k = k + 1;
        }
        assert(self.cookies@.take(k as int) =~= self.cookies@);
        out
    }

    /// The first cookie named `name` that `domain` set, if any.
    pub fn cookie_for_domain(&self, name: &String, domain: &String) -> (r: Option<&Cookie>)
        ensures
            match r {
                Some(c) => exists|i: int|
                    0 <= i < self.cookies@.len() && #[trigger] self.cookies@[i] == *c
                        && c.name@ == name@ && c.host@ == domain@
                        && forall|j: int| 0 <= j < i ==> !(#[trigger] self.cookies@[j].name@ == name@
                            && self.cookies@[j].host@ == domain@),
                None => forall|j: int| 0 <= j < self.cookies@.len() ==> !(#[trigger] self.cookies@[j].name@
                    == name@ && self.cookies@[j].host@ == domain@),
            },
    {
        let mut k: usize = 0;
        while k < self.cookies.len()
            invariant
                0 <= k <= self.cookies@.len(),
                forall|j: int| 0 <= j < k ==> !(#[trigger] self.cookies@[j].name@ == name@
                    && self.cookies@[j].host@ == domain@),
            decreases self.cookies.len() - k,
        {
            let c = &self.cookies[k];
            if c.name == *name && c.host == *domain {
                return Some(c);
            }
            k = k + 1;
        }
        None
    }
}

} // verus!

verus! {

/// Whether `p` is an absolute path: on Unix, one that starts with `/`.
pub open spec fn has_root(p: Seq<char>) -> bool {
    p.len() > 0 && p[0] == '/'
}

/// The short form of a database's location: for an absolute path, the
/// directory that holds it with `home` written as `~`; any other path as it is.
pub open spec fn short_path(p: Seq<char>, home: Seq<char>) -> Seq<char> {
    if has_root(p) && path_parent(p) is Some {
        replace_spec(path_parent(p)->Some_0, home, "~"@)
    } else {
        p
    }
}

/// The fields of a cookie that are shown, as text, in the order they are shown:
/// value, path, creation, expiry, last access, http-only, secure, same-site.
pub open spec fn field_texts(c: CookieView) -> Seq<Seq<char>> {
    seq![
        c.value,
        c.path,
        decimal(c.creation as int),
        decimal(c.expiry as int),
        decimal(c.last_access as int),
        bool_text(c.http_only),
        bool_text(c.secure),
        decimal(c.samesite as int),
    ]
}

/// A flag as text.
pub open spec fn bool_text(b: bool) -> Seq<char> {
    if b {
        "true"@
    } else {
        "false"@
    }
}

fn bool_string(b: bool) -> (r: String)
    ensures
        r@ == bool_text(b),
{
    if b {
        String::from_str("true")
    } else {
        String::from_str("false")
    }
}

impl Cookie {
    /// The fields that are shown for this cookie, as text.
    pub fn field_values(&self) -> (r: Vec<String>)
        ensures
            r@.map_values(|s: String| s@) == field_texts(self@),
    {
        let r = vec![
            self.value.clone(),
            self.path.clone(),
            int_text(self.creation),
            int_text(self.expiry),
            int_text(self.last_access),
            bool_string(self.http_only),
            bool_string(self.secure),
            int_text(self.samesite as i64),
        ];
        assert(r@.map_values(|s: String| s@) =~= field_texts(self@));
        r
    }
}

impl CookieDB {
    /// The directory of the database with `home` shown as `~`, for an
    /// absolute path; any other path as it is.
    pub fn path_short(&self, home: &str) -> (r: String)
        ensures
            r@ == short_path(self.path@, home@),
    {
        let is_absolute = self.path.unicode_len() > 0 && self.path.as_str().get_char(0) == '/';
        if is_absolute {
            match parent_of(self.path.as_str()) {
                Some(parent) => replace_all(parent.as_str(), home, "~"),
                None => self.path.clone(),
            }
        } else {
            self.path.clone()
        }
    }
}

} // verus!
