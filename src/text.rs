//! Text as sequences of characters: substring search and ordering.
use vstd::prelude::*;

verus! {

/// The characters of `s`, one by one.
pub fn chars_of(s: &str) -> (r: Vec<char>)
    ensures
        r@ == s@,
{
    let n = s.unicode_len();
    let mut r: Vec<char> = Vec::new();
    let mut i: usize = 0;
    while i < n
        invariant
            n == s@.len(),
            0 <= i <= n,
            r@ == s@.take(i as int),
        decreases n - i,
    {
        r.push(s.get_char(i));
        assert(r@ =~= s@.take(i + 1));
        i = i + 1;
    }
    assert(s@.take(n as int) =~= s@);
    r
}

/// Whether `needle` occurs in `hay` at position `at`.
pub open spec fn occurs_at(hay: Seq<char>, needle: Seq<char>, at: int) -> bool {
    0 <= at && at + needle.len() <= hay.len() && hay.subrange(at, at + needle.len()) == needle
}

/// Whether `needle` occurs somewhere in `hay`.
pub open spec fn has_substring(hay: Seq<char>, needle: Seq<char>) -> bool {
    exists|at: int| occurs_at(hay, needle, at)
}

fn occurs_at_exec(hay: &Vec<char>, needle: &Vec<char>, at: usize) -> (r: bool)
    requires
        at + needle@.len() <= hay@.len(),
    ensures
        r == occurs_at(hay@, needle@, at as int),
{
    let hl = hay.len();
    let mut k: usize = 0;
    while k < needle.len()
        invariant
            hl == hay@.len(),
            at + needle@.len() <= hay@.len(),
            0 <= k <= needle@.len(),
            forall|j: int| 0 <= j < k ==> hay@[at + j] == needle@[j],
        decreases needle.len() - k,
    {
        if hay[at + k] != needle[k] {
            assert(hay@.subrange(at as int, at + needle@.len())[k as int] != needle@[k as int]);
            return false;
        }
        k = k + 1;
    }
    assert(hay@.subrange(at as int, at + needle@.len()) =~= needle@);
    true
}

/// Whether `needle` occurs in `hay`, as a run of consecutive characters.
pub fn contains(hay: &str, needle: &str) -> (r: bool)
    ensures
        r == has_substring(hay@, needle@),
{
    let h = chars_of(hay);
    let n = chars_of(needle);
    if n.len() > h.len() {
        assert forall|at: int| !occurs_at(hay@, needle@, at) by {}
        return false;
    }
    let last = h.len() - n.len();
    let mut at: usize = 0;
    loop
        invariant
            h@ == hay@,
            n@ == needle@,
            last == h@.len() - n@.len(),
            0 <= at <= last,
            forall|p: int| 0 <= p < at ==> !occurs_at(hay@, needle@, p),
        decreases last - at,
    {
        if occurs_at_exec(&h, &n, at) {
            return true;
        }
        if at == last {
            assert forall|p: int| !occurs_at(hay@, needle@, p) by {
                if 0 <= p <= at {
                }
            }
            return false;
        }
        at = at + 1;
    }
}

/// Whether `a` comes before `b` in the order of code points, reading both
/// from position `i` on; a proper prefix comes first.
pub open spec fn less_from(a: Seq<char>, b: Seq<char>, i: int) -> bool
    decreases a.len() - i,
{
    if i < 0 || i >= a.len() {
        0 <= i < b.len()
    } else if i >= b.len() {
        false
    } else if a[i] != b[i] {
        a[i] < b[i]
    } else {
        less_from(a, b, i + 1)
    }
}

/// Lexicographic order of texts by code point: the order of `str`.
pub open spec fn text_less(a: Seq<char>, b: Seq<char>) -> bool {
    less_from(a, b, 0)
}

/// No text comes before itself.
pub proof fn lemma_less_irreflexive(a: Seq<char>, i: int)
    requires
        0 <= i,
    ensures
        !less_from(a, a, i),
    decreases a.len() - i,
{
    if i < a.len() {
        lemma_less_irreflexive(a, i + 1);
    }
}

/// The order is transitive.
pub proof fn lemma_less_transitive(a: Seq<char>, b: Seq<char>, c: Seq<char>, i: int)
    requires
        0 <= i,
        less_from(a, b, i),
        less_from(b, c, i),
    ensures
        less_from(a, c, i),
    decreases a.len() - i,
{
    if i < a.len() && i < b.len() && i < c.len() && a[i] == b[i] && b[i] == c[i] {
        lemma_less_transitive(a, b, c, i + 1);
    }
}

/// Of two different texts, one comes before the other.
pub proof fn lemma_less_total(a: Seq<char>, b: Seq<char>, i: int)
    requires
        0 <= i <= a.len(),
        i <= b.len(),
        a.subrange(i, a.len() as int) != b.subrange(i, b.len() as int),
    ensures
        less_from(a, b, i) || less_from(b, a, i),
    decreases a.len() - i,
{
    if i < a.len() && i < b.len() && a[i] == b[i] {
        if a.subrange(i + 1, a.len() as int) == b.subrange(i + 1, b.len() as int) {
            assert(a.subrange(i, a.len() as int) =~= seq![a[i]] + a.subrange(i + 1, a.len() as int));
            assert(b.subrange(i, b.len() as int) =~= seq![b[i]] + b.subrange(i + 1, b.len() as int));
        }
        lemma_less_total(a, b, i + 1);
    } else if i >= a.len() && i >= b.len() {
        assert(a.subrange(i, a.len() as int) =~= b.subrange(i, b.len() as int));
    }
}

/// Different texts are ordered one way or the other.
pub proof fn lemma_text_less_total(a: Seq<char>, b: Seq<char>)
    requires
        a != b,
    ensures
        text_less(a, b) || text_less(b, a),
{
    assert(a.subrange(0, a.len() as int) =~= a);
    assert(b.subrange(0, b.len() as int) =~= b);
    lemma_less_total(a, b, 0);
}

/// Whether `a` comes before `b` in the order of `str`.
pub fn less(a: &Vec<char>, b: &Vec<char>) -> (r: bool)
    ensures
        r == text_less(a@, b@),
{
    let mut i: usize = 0;
    while i < a.len() && i < b.len()
        invariant
            0 <= i <= a@.len(),
            i <= b@.len(),
            less_from(a@, b@, 0) == less_from(a@, b@, i as int),
        decreases a.len() - i,
    {
        if a[i] != b[i] {
            return a[i] < b[i];
        }
        i = i + 1;
    }
    i < b.len() && i >= a.len()
}

} // verus!

verus! {

/// `to` before every character of `s` and once more at its end: what
/// replacing the empty text, which occurs at every character boundary, gives.
pub open spec fn interleave(s: Seq<char>, to: Seq<char>) -> Seq<char>
    decreases s.len(),
{
    if s.len() == 0 {
        to
    } else {
        to + seq![s[0]] + interleave(s.subrange(1, s.len() as int), to)
    }
}

/// Every occurrence of `from` in `s`, from left to right and without
/// overlap, replaced by `to`; an empty `from` occurs at every character
/// boundary.
pub open spec fn replace_spec(s: Seq<char>, from: Seq<char>, to: Seq<char>) -> Seq<char>
    decreases s.len(),
{
    if from.len() == 0 {
        interleave(s, to)
    } else if s.len() < from.len() {
        s
    } else if s.subrange(0, from.len() as int) == from {
        to + replace_spec(s.subrange(from.len() as int, s.len() as int), from, to)
    } else {
        seq![s[0]] + replace_spec(s.subrange(1, s.len() as int), from, to)
    }
}

/// Every occurrence of `from` in `s`, from the left and without overlap,
/// replaced by `to`; the empty pattern occurs at every character boundary.
pub fn replace_all(s: &str, from: &str, to: &str) -> (r: String)
    ensures
        r@ == replace_spec(s@, from@, to@),
{
    let h = chars_of(s);
    let f = chars_of(from);
    let n = h.len();
    let flen = f.len();
    let mut r = String::new();
    let mut i: usize = 0;
    assert(s@.subrange(0, n as int) =~= s@);
    while i < n
        invariant
            h@ == s@,
            f@ == from@,
            n == s@.len(),
            flen == from@.len(),
            0 <= i <= n,
            r@ + replace_spec(s@.subrange(i as int, n as int), from@, to@) == replace_spec(s@, from@, to@),
        decreases n - i,
    {
        let ghost rest = s@.subrange(i as int, n as int);
        assert(rest[0] == s@[i as int]);
        if flen == 0 {
            r.append(to);
            r.append(s.substring_char(i, i + 1));
            assert(rest.subrange(1, rest.len() as int) =~= s@.subrange(i + 1, n as int));
            assert(s@.subrange(i as int, i + 1) =~= seq![rest[0]]);
            assert(r@ + replace_spec(s@.subrange(i + 1, n as int), from@, to@) =~= replace_spec(s@, from@, to@));
            i = i + 1;
        } else if flen > n - i {
            r.append(s.substring_char(i, n));
            i = n;
            assert(s@.subrange(i as int, n as int).len() == 0);
            assert(replace_spec(s@.subrange(i as int, n as int), from@, to@) =~= Seq::<char>::empty());
            assert(r@ + replace_spec(s@.subrange(i as int, n as int), from@, to@) =~= replace_spec(s@, from@, to@));
        } else if occurs_at_exec(&h, &f, i) {
            r.append(to);
            assert(rest.subrange(0, flen as int) =~= s@.subrange(i as int, i + flen));
            assert(rest.subrange(flen as int, rest.len() as int) =~= s@.subrange(i + flen, n as int));
            assert(r@ + replace_spec(s@.subrange(i + flen, n as int), from@, to@) =~= replace_spec(s@, from@, to@));
            i = i + flen;
        } else {
            r.append(s.substring_char(i, i + 1));
            assert(rest.subrange(0, flen as int) =~= s@.subrange(i as int, i + flen));
            assert(rest.subrange(1, rest.len() as int) =~= s@.subrange(i + 1, n as int));
            assert(s@.subrange(i as int, i + 1) =~= seq![rest[0]]);
            assert(r@ + replace_spec(s@.subrange(i + 1, n as int), from@, to@) =~= replace_spec(s@, from@, to@));
            i = i + 1;
        }
    }
    assert(s@.subrange(n as int, n as int).len() == 0);
    if flen == 0 {
        r.append(to);
        assert(r@ =~= replace_spec(s@, from@, to@));
    } else {
        assert(r@ =~= replace_spec(s@, from@, to@));
    }
    r
}

/// The decimal digit `d`.
pub open spec fn digit_char(d: int) -> char {
    seq!['0', '1', '2', '3', '4', '5', '6', '7', '8', '9'][d]
}

/// The decimal digits of `n`, without leading zeros.
pub open spec fn digits(n: nat) -> Seq<char>
    decreases n,
{
    if n < 10 {
        seq![digit_char(n as int)]
    } else {
        digits(n / 10).push(digit_char(n as int % 10))
    }
}

/// `n` written in decimal, with a leading `-` when negative.
pub open spec fn decimal(n: int) -> Seq<char> {
    if n < 0 {
        seq!['-'] + digits((-n) as nat)
    } else {
        digits(n as nat)
    }
}

/// The decimal digit `d` as text.
fn digit_str(d: u64) -> (r: &'static str)
    requires
        d < 10,
    ensures
        r@ == seq![digit_char(d as int)],
{
    proof {
        reveal_strlit("0");
        reveal_strlit("1");
        reveal_strlit("2");
        reveal_strlit("3");
        reveal_strlit("4");
        reveal_strlit("5");
        reveal_strlit("6");
        reveal_strlit("7");
        reveal_strlit("8");
        reveal_strlit("9");
    }
    let r = if d == 0 {
        "0"
    } else if d == 1 {
        "1"
    } else if d == 2 {
        "2"
    } else if d == 3 {
        "3"
    } else if d == 4 {
        "4"
    } else if d == 5 {
        "5"
    } else if d == 6 {
        "6"
    } else if d == 7 {
        "7"
    } else if d == 8 {
        "8"
    } else {
        "9"
    };
    assert(r@ =~= seq![digit_char(d as int)]);
    r
}

/// The decimal digits of `m`.
fn digits_text(m: u64) -> (r: String)
    ensures
        r@ == digits(m as nat),
    decreases m,
{
    if m < 10 {
        String::from_str(digit_str(m))
    } else {
        let mut t = digits_text(m / 10);
        t.append(digit_str(m % 10));
        t
    }
}

/// `n` written in decimal, with a leading `-` when negative.
pub fn int_text(n: i64) -> (r: String)
    ensures
        r@ == decimal(n as int),
{
    if n < 0 {
        let m: u64 = (0i128 - n as i128) as u64;
        let mut r = String::from_str("-");
        r.append(digits_text(m).as_str());
        proof {
            reveal_strlit("-");
        }
        r
    } else {
        digits_text(n as u64)
    }
}

/// What `std::path::Path::parent` gives for the path `p`, as text: the path
/// without its last component, or `None` for a root or an empty path.
pub uninterp spec fn path_parent(p: Seq<char>) -> Option<Seq<char>>;

/// Relies on std's Path::parent (its result read back as text, which is
/// lossless for a path that came from a `str`).
#[verifier::external_body]
pub(crate) fn parent_of(p: &str) -> (r: Option<String>)
    ensures
        path_parent(p@) == (match r {
            Some(s) => Some(s@),
            None => None::<Seq<char>>,
        }),
{
    std::path::Path::new(p).parent().map(|q| q.to_string_lossy().to_string())
}

} // verus!

verus! {

/// Relies on std's String::push: appends `c`.
#[verifier::external_body]
pub(crate) fn push_char(s: &mut String, c: char)
    ensures
        final(s)@ == old(s)@.push(c),
{
    s.push(c)
}

/// Removes and returns the last character of `s`, if any.
pub fn pop_char(s: &mut String) -> (r: Option<char>)
    ensures
        old(s)@.len() == 0 ==> r is None && final(s)@ == old(s)@,
        old(s)@.len() > 0 ==> r == Some(old(s)@.last()) && final(s)@ == old(s)@.drop_last(),
{
    let n = s.unicode_len();
    if n == 0 {
        return None;
    }
    let c = s.as_str().get_char(n - 1);
    let rest = String::from_str(s.as_str().substring_char(0, n - 1));
    proof {
        assert(old(s)@.subrange(0, n - 1) =~= old(s)@.drop_last());
    }
    *s = rest;
    Some(c)
}

} // verus!

verus! {

/// The number of bytes that UTF-8 takes for `c`.
pub open spec fn utf8_width(c: char) -> nat {
    if (c as u32) < 0x80 {
        1
    } else if (c as u32) < 0x800 {
        2
    } else if (c as u32) < 0x10000 {
        3
    } else {
        4
    }
}

/// How many characters from the start of `s` fit in `budget` bytes of UTF-8.
pub open spec fn fitting_chars(s: Seq<char>, budget: nat) -> nat
    decreases s.len(),
{
    if s.len() == 0 || utf8_width(s[0]) > budget {
        0
    } else {
        1 + fitting_chars(s.subrange(1, s.len() as int), (budget - utf8_width(s[0])) as nat)
    }
}

/// How an item is shown in a column of at most `limit` bytes: as it is when
/// its UTF-8 form fits, else cut at the last character boundary at or below
/// `limit` bytes and followed by `..`.
pub open spec fn shown_text(s: Seq<char>, limit: nat) -> Seq<char> {
    if fitting_chars(s, limit) == s.len() {
        s
    } else {
        s.take(fitting_chars(s, limit) as int) + ".."@
    }
}

fn char_width(c: char) -> (r: usize)
    ensures
        r == utf8_width(c),
{
    if (c as u32) < 0x80 {
        1
    } else if (c as u32) < 0x800 {
        2
    } else if (c as u32) < 0x10000 {
        3
    } else {
        4
    }
}

proof fn lemma_fitting_step(s: Seq<char>, i: int, budget: nat)
    requires
        0 <= i < s.len(),
        utf8_width(s[i]) <= budget,
    ensures
        fitting_chars(s.subrange(i, s.len() as int), budget) == 1 + fitting_chars(
            s.subrange(i + 1, s.len() as int),
            (budget - utf8_width(s[i])) as nat,
        ),
{
    let t = s.subrange(i, s.len() as int);
    assert(t[0] == s[i]);
    assert(t.subrange(1, t.len() as int) =~= s.subrange(i + 1, s.len() as int));
}

/// The text that shows `s` in a column of at most `limit` bytes.
pub fn display_text(s: &str, limit: usize) -> (r: String)
    ensures
        r@ == shown_text(s@, limit as nat),
{
    let n = s.unicode_len();
    let mut i: usize = 0;
    let mut used: usize = 0;
    assert(s@.subrange(0, n as int) =~= s@);
    while i < n && char_width(s.get_char(i)) <= limit - used
        invariant
            n == s@.len(),
            0 <= i <= n,
            used <= limit,
            fitting_chars(s@, limit as nat) == i + fitting_chars(
                s@.subrange(i as int, n as int),
                (limit - used) as nat,
            ),
        decreases n - i,
    {
        proof {
            lemma_fitting_step(s@, i as int, (limit - used) as nat);
        }
        used = used + char_width(s.get_char(i));
        i = i + 1;
    }
    proof {
        if i < n {
            let t = s@.subrange(i as int, n as int);
            assert(t[0] == s@[i as int]);
        } else {
            assert(s@.subrange(i as int, n as int).len() == 0);
        }
    }
    if i == n {
        String::from_str(s)
    } else {
        let mut r = String::from_str(s.substring_char(0, i));
        r.append("..");
        proof {
            assert(s@.subrange(0, i as int) =~= s@.take(i as int));
        }
        r
    }
}

} // verus!
