//! The signed-in session with the site: the cookie jar kept between
//! requests, the user it belongs to, and how the site's answers are read.
//!
//! The site authenticates with cookies and an `X-XSRF-TOKEN` header that
//! repeats the `XSRF-TOKEN` cookie; there is no bearer token.

use vstd::prelude::*;

use crate::text::{chars_equal, chars_of, contains, find, lowercase, seq_contains, slice_chars, string_of, to_lowercase, trim, trim_chars, join, before_first, char_index};

verus! {

// ---------------------------------------------------------------------------
// Users
// ---------------------------------------------------------------------------

/// The signed-in account.
pub struct User {
    pub id: u64,
    pub name: String,
    pub email: String,
    pub avatar: Option<String>,
}

impl User {
    /// A copy of the account record.
    pub fn duplicate(&self) -> (r: User)
        ensures
            r == *self,
    {
        User {
            id: self.id,
            name: self.name.clone(),
            email: self.email.clone(),
            avatar: match &self.avatar {
                Some(a) => Some(a.clone()),
                None => None,
            },
        }
    }
}

// ---------------------------------------------------------------------------
// The cookie jar
// ---------------------------------------------------------------------------

/// A jar as name/value texts, in the order the cookies were first set.
pub type Jar = Seq<(Seq<char>, Seq<char>)>;

/// No cookie name occurs twice.
pub open spec fn names_distinct(j: Jar) -> bool {
    forall|a: int, b: int| 0 <= a < b < j.len() ==> j[a].0 != j[b].0
}

/// The value of the cookie `name`.
pub open spec fn jar_get(j: Jar, name: Seq<char>) -> Option<Seq<char>>
    decreases j.len(),
{
    if j.len() == 0 {
        None
    } else if j[0].0 == name {
        Some(j[0].1)
    } else {
        jar_get(j.drop_first(), name)
    }
}

/// The jar with `name` set to `value`: an existing cookie keeps its place,
/// a new one goes last.
pub open spec fn jar_set(j: Jar, name: Seq<char>, value: Seq<char>) -> Jar
    decreases j.len(),
{
    if j.len() == 0 {
        seq![(name, value)]
    } else if j[0].0 == name {
        j.update(0, (name, value))
    } else {
        seq![j[0]] + jar_set(j.drop_first(), name, value)
    }
}

/// The jar without the cookie `name`.
pub open spec fn jar_remove(j: Jar, name: Seq<char>) -> Jar
    decreases j.len(),
{
    if j.len() == 0 {
        j
    } else if j[0].0 == name {
        j.drop_first()
    } else {
        seq![j[0]] + jar_remove(j.drop_first(), name)
    }
}

/// The text after which a `Set-Cookie` header announces a deleted cookie.
pub open spec fn deletion_mark() -> Seq<char> {
    "expires=thu, 01 jan 1970"@
}

/// What one `Set-Cookie` header does to the jar. Only the `name=value`
/// part before the first `;` counts; an empty value with an expiry in 1970
/// deletes the cookie, any other empty value is ignored.
pub open spec fn set_cookie_effect(j: Jar, raw: Seq<char>) -> Jar {
    let pair = before_first(raw, seq![';']);
    match char_index(pair, '=') {
        None => j,
        Some(i) => {
            let name = trim(pair.take(i));
            let value = trim(pair.skip(i + 1));
            if name.len() == 0 {
                j
            } else if value.len() == 0 {
                if seq_contains(lowercase(raw), deletion_mark()) {
                    jar_remove(j, name)
                } else {
                    j
                }
            } else {
                jar_set(j, name, value)
            }
        },
    }
}

/// The headers applied in order.
pub open spec fn apply_set_cookies(j: Jar, raws: Seq<Seq<char>>) -> Jar
    decreases raws.len(),
{
    if raws.len() == 0 {
        j
    } else {
        set_cookie_effect(apply_set_cookies(j, raws.drop_last()), raws.last())
    }
}

/// The `Cookie` request header: `name=value` pairs joined by `; `.
pub open spec fn cookie_header_spec(j: Jar) -> Seq<char> {
    join(j.map_values(|c: (Seq<char>, Seq<char>)| c.0 + "="@ + c.1), "; "@)
}

pub open spec fn xsrf_name() -> Seq<char> {
    "XSRF-TOKEN"@
}

proof fn lemma_jar_first(j: Jar, name: Seq<char>, value: Seq<char>, i: int)
    requires
        0 <= i < j.len(),
        j[i].0 == name,
        forall|m: int| 0 <= m < i ==> j[m].0 != name,
    ensures
        jar_get(j, name) == Some(j[i].1),
        jar_set(j, name, value) == j.update(i, (name, value)),
        jar_remove(j, name) == j.remove(i),
    decreases i,
{
    if i > 0 {
        let t = j.drop_first();
        lemma_jar_first(t, name, value, i - 1);
        assert(seq![j[0]] + t.update(i - 1, (name, value)) =~= j.update(i, (name, value)));
        assert(seq![j[0]] + t.remove(i - 1) =~= j.remove(i));
    } else {
        assert(j.drop_first() =~= j.remove(0));
    }
}

proof fn lemma_jar_absent(j: Jar, name: Seq<char>, value: Seq<char>)
    requires
        forall|m: int| 0 <= m < j.len() ==> j[m].0 != name,
    ensures
        jar_get(j, name) is None,
        jar_set(j, name, value) == j.push((name, value)),
        jar_remove(j, name) == j,
    decreases j.len(),
{
    if j.len() > 0 {
        let t = j.drop_first();
        lemma_jar_absent(t, name, value);
        assert(seq![j[0]] + t.push((name, value)) =~= j.push((name, value)));
        assert(seq![j[0]] + t =~= j);
    }
}

/// The session kept between runs: cookies by name, and the account.
pub struct Session {
    pub cookies: Vec<(String, String)>,
    pub user: Option<User>,
}

impl Session {
    /// The cookies as texts.
    pub open spec fn jar(&self) -> Jar {
        self.cookies@.map_values(|c: (String, String)| (c.0@, c.1@))
    }

    /// Every cookie name is held once.
    pub open spec fn wf(&self) -> bool {
        names_distinct(self.jar())
    }

    /// A session with no cookies and no account.
    pub fn empty() -> (s: Session)
        ensures
            s.jar().len() == 0,
            s.user is None,
            s.wf(),
    {
        let s = Session { cookies: Vec::new(), user: None };
        assert(s.jar() =~= Seq::<(Seq<char>, Seq<char>)>::empty());
        s
    }

    /// The `Cookie` header for the next request.
    pub fn cookie_header(&self) -> (r: String)
        ensures
            r@ == cookie_header_spec(self.jar()),
    {
        let ghost parts = self.jar().map_values(
            |c: (Seq<char>, Seq<char>)| c.0 + "="@ + c.1,
        );
        let mut out = String::new();
        let mut i: usize = 0;
        while i < self.cookies.len()
            invariant
                parts == self.jar().map_values(|c: (Seq<char>, Seq<char>)| c.0 + "="@ + c.1),
                i <= self.cookies@.len(),
                out@ == join(parts.take(i as int), "; "@),
            decreases self.cookies@.len() - i,
        {
            let ghost before = out@;
            if i > 0 {
                out.append("; ");
            }
            out.append(self.cookies[i].0.as_str());
            out.append("=");
            out.append(self.cookies[i].1.as_str());
            proof {
                let t = parts.take(i + 1);
                assert(t.drop_last() =~= parts.take(i as int));
                assert(t.last() == parts[i as int]);
                if i == 0 {
                    assert(out@ =~= t[0]);
                } else {
                    assert(out@ =~= before + "; "@ + t.last());
                }
            }
            i = i + 1;
        }
        assert(parts.take(self.cookies@.len() as int) =~= parts);
        out
    }

    /// Index of the cookie named like `name`, if held.
    fn position(&self, name: &[char]) -> (r: Option<usize>)
        ensures
            match r {
                Some(i) => i < self.cookies@.len() && self.jar()[i as int].0 == name@ && forall|
                    m: int,
                | 0 <= m < i ==> self.jar()[m].0 != name@,
                None => forall|m: int| 0 <= m < self.jar().len() ==> self.jar()[m].0 != name@,
            },
    {
        let mut i: usize = 0;
        while i < self.cookies.len()
            invariant
                i <= self.cookies@.len(),
                forall|m: int| 0 <= m < i ==> self.jar()[m].0 != name@,
            decreases self.cookies@.len() - i,
        {
            let k = chars_of(self.cookies[i].0.as_str());
            if chars_equal(k.as_slice(), name) {
                return Some(i);
            }
            i = i + 1;
        }
        None
    }

    /// The value of the cookie `name`.
    pub fn cookie(&self, name: &str) -> (r: Option<String>)
        ensures
            match r {
                Some(v) => jar_get(self.jar(), name@) == Some(v@),
                None => jar_get(self.jar(), name@) is None,
            },
    {
        let n = chars_of(name);
        match self.position(n.as_slice()) {
            Some(i) => {
                proof {
                    lemma_jar_first(self.jar(), name@, name@, i as int);
                }
                Some(self.cookies[i].1.clone())
            },
            None => {
                proof {
                    lemma_jar_absent(self.jar(), name@, name@);
                }
                None
            },
        }
    }

    /// The `XSRF-TOKEN` cookie, which requests repeat in a header.
    pub fn xsrf(&self) -> (r: Option<String>)
        ensures
            match r {
                Some(v) => jar_get(self.jar(), xsrf_name()) == Some(v@),
                None => jar_get(self.jar(), xsrf_name()) is None,
            },
    {
        self.cookie("XSRF-TOKEN")
    }

    /// The `XSRF-TOKEN` cookie, or nothing.
    pub fn xsrf_or_empty(&self) -> (r: String)
        ensures
            r@ == match jar_get(self.jar(), xsrf_name()) {
                Some(v) => v,
                None => Seq::<char>::empty(),
            },
    {
        match self.xsrf() {
            Some(v) => v,
            None => String::new(),
        }
    }

    /// Sets one cookie.
    fn set_cookie(&mut self, name: &[char], value: &[char])
        requires
            old(self).wf(),
        ensures
            final(self).wf(),
            final(self).jar() == jar_set(old(self).jar(), name@, value@),
            final(self).user == old(self).user,
    {
        let n = string_of(name);
        let v = string_of(value);
        match self.position(name) {
            Some(i) => {
                proof {
                    lemma_jar_first(self.jar(), name@, value@, i as int);
                }
                self.cookies.set(i, (n, v));
                assert(self.jar() =~= jar_set(old(self).jar(), name@, value@));
            },
            None => {
                proof {
                    lemma_jar_absent(self.jar(), name@, value@);
                }
                self.cookies.push((n, v));
                assert(self.jar() =~= jar_set(old(self).jar(), name@, value@));
            },
        }
    }

    /// Forgets one cookie.
    fn remove_cookie(&mut self, name: &[char])
        requires
            old(self).wf(),
        ensures
            final(self).wf(),
            final(self).jar() == jar_remove(old(self).jar(), name@),
            final(self).user == old(self).user,
    {
        match self.position(name) {
            Some(i) => {
                proof {
                    lemma_jar_first(self.jar(), name@, name@, i as int);
                }
                self.cookies.remove(i);
                assert(self.jar() =~= jar_remove(old(self).jar(), name@));
                assert forall|a: int, b: int| 0 <= a < b < self.jar().len() implies self.jar()[a].0
                    != self.jar()[b].0 by {
                    let oj = old(self).jar();
                    let a2 = if a < i { a } else { a + 1 };
                    let b2 = if b < i { b } else { b + 1 };
                    assert(self.jar()[a] == oj[a2]);
                    assert(self.jar()[b] == oj[b2]);
                }
            },
            None => {
                proof {
                    lemma_jar_absent(self.jar(), name@, name@);
                }
            },
        }
    }

    /// Applies one `Set-Cookie` header.
    fn apply_set_cookie(&mut self, raw: &str)
        requires
            old(self).wf(),
        ensures
            final(self).wf(),
            final(self).jar() == set_cookie_effect(old(self).jar(), raw@),
            final(self).user == old(self).user,
    {
        let cs = chars_of(raw);
        let semi = [';'];
        assert(semi@ =~= seq![';']);
        let end = match find(cs.as_slice(), &semi) {
            Some(i) => {
                proof {
                    crate::text::lemma_first_from_bounds(raw@, seq![';'], 0);
                }
                i
            },
            None => cs.len(),
        };
        let pair = slice_chars(cs.as_slice(), 0, end);
        assert(pair@ =~= before_first(raw@, seq![';']));
        let eq = ['='];
        assert(eq@ =~= seq!['=']);
        match find(pair.as_slice(), &eq) {
            None => {},
            Some(i) => {
                proof {
                    crate::text::lemma_first_from_bounds(pair@, seq!['='], 0);
                }
                let k0 = slice_chars(pair.as_slice(), 0, i);
                let v0 = slice_chars(pair.as_slice(), i + 1, pair.len());
                assert(k0@ =~= pair@.take(i as int));
                assert(v0@ =~= pair@.skip(i + 1));
                let name = trim_chars(k0.as_slice());
                let value = trim_chars(v0.as_slice());
                if name.len() == 0 {
                } else if value.len() == 0 {
                    let low = to_lowercase(raw);
                    let lc = chars_of(low.as_str());
                    let mark = chars_of("expires=thu, 01 jan 1970");
                    if contains(lc.as_slice(), mark.as_slice()) {
                        self.remove_cookie(name.as_slice());
                    }
                } else {
                    self.set_cookie(name.as_slice(), value.as_slice());
                }
            },
        }
    }

    /// Keeps the cookies that a response set (its `Set-Cookie` headers, in
    /// order).
    pub fn store_from(&mut self, set_cookies: &[String])
        requires
            old(self).wf(),
        ensures
            final(self).wf(),
            final(self).jar() == apply_set_cookies(
                old(self).jar(),
                set_cookies@.map_values(|s: String| s@),
            ),
            final(self).user == old(self).user,
    {
        let ghost raws = set_cookies@.map_values(|s: String| s@);
        let ghost start = self.jar();
        let mut i: usize = 0;
        while i < set_cookies.len()
            invariant
                raws == set_cookies@.map_values(|s: String| s@),
                i <= set_cookies@.len(),
                self.wf(),
                self.jar() == apply_set_cookies(start, raws.take(i as int)),
                self.user == old(self).user,
            decreases set_cookies@.len() - i,
        {
            assert(raws.take(i + 1).drop_last() =~= raws.take(i as int));
            self.apply_set_cookie(set_cookies[i].as_str());
            i = i + 1;
        }
        assert(raws.take(set_cookies@.len() as int) =~= raws);
    }
}


// ---------------------------------------------------------------------------
// Laws of the jar
// ---------------------------------------------------------------------------

/// A cookie that was just set reads back with its value.
pub proof fn lemma_set_then_get(j: Jar, name: Seq<char>, value: Seq<char>)
    ensures
        jar_get(jar_set(j, name, value), name) == Some(value),
    decreases j.len(),
{
    if j.len() > 0 && j[0].0 != name {
        lemma_set_then_get(j.drop_first(), name, value);
        assert((seq![j[0]] + jar_set(j.drop_first(), name, value)).drop_first() =~= jar_set(
            j.drop_first(),
            name,
            value,
        ));
    }
}

/// Setting one cookie leaves every other cookie as it was.
pub proof fn lemma_set_keeps_others(j: Jar, name: Seq<char>, value: Seq<char>, other: Seq<char>)
    requires
        other != name,
    ensures
        jar_get(jar_set(j, name, value), other) == jar_get(j, other),
    decreases j.len(),
{
    if j.len() > 0 && j[0].0 != name {
        lemma_set_keeps_others(j.drop_first(), name, value, other);
        assert((seq![j[0]] + jar_set(j.drop_first(), name, value)).drop_first() =~= jar_set(
            j.drop_first(),
            name,
            value,
        ));
    } else if j.len() > 0 {
        assert(j.update(0, (name, value)).drop_first() =~= j.drop_first());
    } else {
        assert(seq![(name, value)].drop_first() =~= j);
    }
}

/// A removed cookie is gone, as long as no name was held twice.
pub proof fn lemma_remove_then_get(j: Jar, name: Seq<char>)
    requires
        names_distinct(j),
    ensures
        jar_get(jar_remove(j, name), name) is None,
    decreases j.len(),
{
    if j.len() > 0 {
        let t = j.drop_first();
        assert(names_distinct(t)) by {
            assert forall|a: int, b: int| 0 <= a < b < t.len() implies t[a].0 != t[b].0 by {
                assert(t[a] == j[a + 1] && t[b] == j[b + 1]);
            }
        }
        if j[0].0 == name {
            assert forall|m: int| 0 <= m < t.len() implies t[m].0 != name by {
                assert(t[m] == j[m + 1]);
            }
            lemma_jar_absent(t, name, name);
        } else {
            lemma_remove_then_get(t, name);
            assert((seq![j[0]] + jar_remove(t, name)).drop_first() =~= jar_remove(t, name));
        }
    }
}

/// The name and value a `Set-Cookie` header sets, when it sets one.
pub open spec fn set_pair(raw: Seq<char>) -> Option<(Seq<char>, Seq<char>)> {
    let pair = before_first(raw, seq![';']);
    match char_index(pair, '=') {
        None => None,
        Some(i) => {
            let name = trim(pair.take(i));
            let value = trim(pair.skip(i + 1));
            if name.len() > 0 && value.len() > 0 {
                Some((name, value))
            } else {
                None
            }
        },
    }
}

/// After a response sets a cookie, the session reads it back with the
/// value set, and no other cookie changed.
pub proof fn lemma_stored_cookie_reads_back(
    j: Jar,
    raw: Seq<char>,
    name: Seq<char>,
    value: Seq<char>,
    other: Seq<char>,
)
    requires
        set_pair(raw) == Some((name, value)),
    ensures
        jar_get(set_cookie_effect(j, raw), name) == Some(value),
        other != name ==> jar_get(set_cookie_effect(j, raw), other) == jar_get(j, other),
{
    lemma_set_then_get(j, name, value);
    if other != name {
        lemma_set_keeps_others(j, name, value, other);
    }
}

/// A deletion header removes its cookie.
pub proof fn lemma_deleted_cookie_is_gone(j: Jar, raw: Seq<char>, name: Seq<char>)
    requires
        names_distinct(j),
        ({
            let pair = before_first(raw, seq![';']);
            &&& char_index(pair, '=') matches Some(i)
            &&& trim(pair.take(i)) == name
            &&& name.len() > 0
            &&& trim(pair.skip(i + 1)).len() == 0
        }),
        seq_contains(lowercase(raw), deletion_mark()),
    ensures
        jar_get(set_cookie_effect(j, raw), name) is None,
{
    lemma_remove_then_get(j, name);
}


/// Removing one cookie leaves every other cookie as it was.
pub proof fn lemma_remove_keeps_others(j: Jar, name: Seq<char>, other: Seq<char>)
    requires
        other != name,
    ensures
        jar_get(jar_remove(j, name), other) == jar_get(j, other),
    decreases j.len(),
{
    if j.len() > 0 && j[0].0 != name {
        lemma_remove_keeps_others(j.drop_first(), name, other);
        assert((seq![j[0]] + jar_remove(j.drop_first(), name)).drop_first() =~= jar_remove(
            j.drop_first(),
            name,
        ));
    }
}

proof fn lemma_set_remove_distinct(j: Jar, name: Seq<char>, value: Seq<char>)
    requires
        names_distinct(j),
    ensures
        names_distinct(jar_set(j, name, value)),
        names_distinct(jar_remove(j, name)),
{
    if exists|i: int| 0 <= i < j.len() && j[i].0 == name {
        let i = choose|i: int| 0 <= i < j.len() && j[i].0 == name;
        assert forall|m: int| 0 <= m < i implies j[m].0 != name by {}
        lemma_jar_first(j, name, value, i);
        let u = j.update(i, (name, value));
        assert forall|a: int, b: int| 0 <= a < b < u.len() implies u[a].0 != u[b].0 by {
            assert(u[a].0 == j[a].0 && u[b].0 == j[b].0);
        }
        let r = j.remove(i);
        assert forall|a: int, b: int| 0 <= a < b < r.len() implies r[a].0 != r[b].0 by {
            let a2 = if a < i {
                a
            } else {
                a + 1
            };
            let b2 = if b < i {
                b
            } else {
                b + 1
            };
            assert(r[a] == j[a2] && r[b] == j[b2]);
        }
    } else {
        lemma_jar_absent(j, name, value);
        let p = j.push((name, value));
        assert forall|a: int, b: int| 0 <= a < b < p.len() implies p[a].0 != p[b].0 by {
            if b == j.len() {
                assert(p[a] == j[a]);
            }
        }
    }
}

/// The cookie a `Set-Cookie` header speaks of, when it names one.
pub open spec fn header_name(raw: Seq<char>) -> Option<Seq<char>> {
    let pair = before_first(raw, seq![';']);
    match char_index(pair, '=') {
        None => None,
        Some(i) => {
            let name = trim(pair.take(i));
            if name.len() == 0 {
                None
            } else {
                Some(name)
            }
        },
    }
}

/// The value cookie `k` has after the headers, read one by one as
/// changes to a map from names to values: a header naming `k` with a value
/// sets it, one naming `k` with an empty value and an expiry in 1970
/// deletes it, and every other header leaves it alone.
pub open spec fn value_after(j: Jar, raws: Seq<Seq<char>>, k: Seq<char>) -> Option<Seq<char>>
    decreases raws.len(),
{
    if raws.len() == 0 {
        jar_get(j, k)
    } else {
        let prev = value_after(j, raws.drop_last(), k);
        let raw = raws.last();
        let pair = before_first(raw, seq![';']);
        match char_index(pair, '=') {
            None => prev,
            Some(i) => {
                let name = trim(pair.take(i));
                let value = trim(pair.skip(i + 1));
                if name.len() == 0 || name != k {
                    prev
                } else if value.len() > 0 {
                    Some(value)
                } else if seq_contains(lowercase(raw), deletion_mark()) {
                    None
                } else {
                    prev
                }
            },
        }
    }
}

/// Keeping the cookies of a response is, cookie by cookie, the map update
/// that the headers describe; the jar still holds no name twice.
pub proof fn lemma_store_as_map(j: Jar, raws: Seq<Seq<char>>, k: Seq<char>)
    requires
        names_distinct(j),
    ensures
        jar_get(apply_set_cookies(j, raws), k) == value_after(j, raws, k),
        names_distinct(apply_set_cookies(j, raws)),
    decreases raws.len(),
{
    if raws.len() > 0 {
        let before = raws.drop_last();
        lemma_store_as_map(j, before, k);
        let j1 = apply_set_cookies(j, before);
        let raw = raws.last();
        let pair = before_first(raw, seq![';']);
        match char_index(pair, '=') {
            None => {},
            Some(i) => {
                let name = trim(pair.take(i));
                let value = trim(pair.skip(i + 1));
                lemma_set_remove_distinct(j1, name, value);
                if name.len() > 0 {
                    if value.len() > 0 {
                        if name == k {
                            lemma_set_then_get(j1, name, value);
                        } else {
                            lemma_set_keeps_others(j1, name, value, k);
                        }
                    } else if seq_contains(lowercase(raw), deletion_mark()) {
                        if name == k {
                            lemma_remove_then_get(j1, name);
                        } else {
                            lemma_remove_keeps_others(j1, name, k);
                        }
                    }
                }
            },
        }
    }
}

/// A cookie that no header names keeps its value, whatever the jar; with
/// no headers at all the jar is unchanged.
pub proof fn lemma_unnamed_cookie_keeps(j: Jar, raws: Seq<Seq<char>>, k: Seq<char>)
    requires
        forall|i: int| 0 <= i < raws.len() ==> header_name(#[trigger] raws[i]) != Some(k),
    ensures
        jar_get(apply_set_cookies(j, raws), k) == jar_get(j, k),
        raws.len() == 0 ==> apply_set_cookies(j, raws) == j,
    decreases raws.len(),
{
    if raws.len() > 0 {
        let before = raws.drop_last();
        assert forall|i: int| 0 <= i < before.len() implies header_name(#[trigger] before[i])
            != Some(k) by {
            assert(before[i] == raws[i]);
        }
        lemma_unnamed_cookie_keeps(j, before, k);
        let j1 = apply_set_cookies(j, before);
        let raw = raws.last();
        assert(header_name(raws[raws.len() - 1]) != Some(k));
        let pair = before_first(raw, seq![';']);
        match char_index(pair, '=') {
            None => {},
            Some(i) => {
                let name = trim(pair.take(i));
                let value = trim(pair.skip(i + 1));
                if name.len() > 0 {
                    assert(name != k);
                    lemma_set_keeps_others(j1, name, value, k);
                    lemma_remove_keeps_others(j1, name, k);
                }
            },
        }
    }
}

/// Headers that name no cookie, and headers with an empty value and no
/// expiry in 1970, leave the jar as it was.
pub proof fn lemma_ignored_headers(j: Jar, raw: Seq<char>)
    ensures
        header_name(raw) is None ==> set_cookie_effect(j, raw) == j,
        ({
            let pair = before_first(raw, seq![';']);
            char_index(pair, '=') matches Some(i) && trim(pair.skip(i + 1)).len() == 0
                && !seq_contains(lowercase(raw), deletion_mark())
        }) ==> set_cookie_effect(j, raw) == j,
{
}

/// The `Cookie` header is empty exactly when the jar holds no cookie.
pub proof fn lemma_cookie_header_empty(j: Jar)
    ensures
        (cookie_header_spec(j).len() == 0) == (j.len() == 0),
{
    let parts = j.map_values(|c: (Seq<char>, Seq<char>)| c.0 + "="@ + c.1);
    reveal_strlit("=");
    if j.len() > 0 {
        assert(parts.last().len() >= 1) by {
            assert(parts.last() == j.last().0 + "="@ + j.last().1);
        }
        if parts.len() > 1 {
            assert(join(parts, "; "@) == join(parts.drop_last(), "; "@) + "; "@ + parts.last());
        }
    }
}

} // verus!
