//! Watch history kept by the site: reading its pages, merging them, and the
//! newest-first order every history list is shown in.

use vstd::prelude::*;
use crate::account::{api_request, is_api_request, Client, Request};
use crate::json::{array_of, at, get, get_nth, get_str, get_u64, is_bool, nth, check_bool, or_text, str_of, take_field, u64_of, Json};
use crate::text::{decimal, owned, push_decimal};

verus! {

broadcast use vstd::seq_lib::group_seq_properties;

/// One title of the watch history: the title (as the caller keeps it),
/// when it was last watched (milliseconds since the epoch) and the episode.
pub struct ServerEntry<T> {
    pub title_id: u64,
    pub title: T,
    pub date: u64,
    pub season: u64,
    pub episode: u64,
}

// ---------------------------------------------------------------------------
// Newest first
// ---------------------------------------------------------------------------

/// Entries run from the newest to the oldest.
pub open spec fn newest_first<T>(s: Seq<ServerEntry<T>>) -> bool {
    forall|i: int, j: int| 0 <= i < j < s.len() ==> s[i].date >= s[j].date
}

pub open spec fn date_is<T>(d: u64) -> spec_fn(ServerEntry<T>) -> bool {
    |e: ServerEntry<T>| e.date == d
}

/// The entries of one date, in their order.
pub open spec fn dated<T>(s: Seq<ServerEntry<T>>, d: u64) -> Seq<ServerEntry<T>> {
    s.filter(date_is::<T>(d))
}

proof fn lemma_filter_one<A>(x: A, p: spec_fn(A) -> bool)
    ensures
        seq![x].filter(p) == if p(x) {
            seq![x]
        } else {
            Seq::<A>::empty()
        },
{
    reveal(Seq::filter);
    assert(seq![x].drop_last() =~= Seq::<A>::empty());
    assert(Seq::<A>::empty().filter(p) =~= Seq::<A>::empty());
}

proof fn lemma_filter_none<A>(s: Seq<A>, p: spec_fn(A) -> bool)
    requires
        forall|i: int| 0 <= i < s.len() ==> !p(s[i]),
    ensures
        s.filter(p) == Seq::<A>::empty(),
    decreases s.len(),
{
    reveal(Seq::filter);
    if s.len() > 0 {
        lemma_filter_none(s.drop_last(), p);
    }
}

/// Sorts newest first, keeping entries of the same date in their order
/// (a stable sort by descending date).
pub fn sort_by_date_desc<T>(v: Vec<ServerEntry<T>>) -> (r: Vec<ServerEntry<T>>)
    ensures
        r@.len() == v@.len(),
        newest_first(r@),
        forall|d: u64| #[trigger] dated(r@, d) == dated(v@, d),
{
    let ghost orig = v@;
    let mut rest = v;
    let mut out: Vec<ServerEntry<T>> = Vec::new();
    let ghost mut done: int = 0;
    assert(orig.skip(0) =~= orig);
    proof {
        assert forall|d: u64| #[trigger] dated(out@, d) == dated(orig.take(0), d) by {
            assert(out@ =~= orig.take(0));
        }
    }
    while rest.len() > 0
        invariant
            0 <= done <= orig.len(),
            rest@ == orig.skip(done),
            out@.len() == done,
            newest_first(out@),
            forall|d: u64| #[trigger] dated(out@, d) == dated(orig.take(done), d),
        decreases rest@.len(),
    {
        let x = rest.remove(0);
        assert(x == orig[done]);
        let mut p: usize = 0;
        while p < out.len() && out[p].date >= x.date
            invariant
                p <= out@.len(),
                forall|k: int| 0 <= k < p ==> out@[k].date >= x.date,
            decreases out@.len() - p,
        {
            p = p + 1;
        }
        let ghost before = out@;
        proof {
            assert forall|k: int| p <= k < before.len() implies before[k].date < x.date by {
                assert(before[p as int].date < x.date);
                if k > p {
                    assert(before[p as int].date >= before[k].date);
                }
            }
        }
        out.insert(p, x);
        proof {
            let a = before.take(p as int);
            let b = before.skip(p as int);
            assert(out@ =~= a + seq![x] + b);
            assert(before =~= a + b);
            assert forall|i: int, j: int| 0 <= i < j < out@.len() implies out@[i].date
                >= out@[j].date by {
                if i < p && j < p {
                } else if i < p && j == p {
                } else if i < p {
                    assert(out@[j] == before[j - 1]);
                } else if i == p {
                    assert(out@[j] == before[j - 1]);
                } else {
                    assert(out@[i] == before[i - 1]);
                    assert(out@[j] == before[j - 1]);
                }
            }
            assert(orig.take(done + 1) =~= orig.take(done) + seq![x]);
            assert forall|d: u64| #[trigger] dated(out@, d) == dated(orig.take(done + 1), d) by {
                let pr = date_is::<T>(d);
                Seq::filter_distributes_over_add(a + seq![x], b, pr);
                Seq::filter_distributes_over_add(a, seq![x], pr);
                Seq::filter_distributes_over_add(a, b, pr);
                Seq::filter_distributes_over_add(orig.take(done), seq![x], pr);
                lemma_filter_one(x, pr);
                if d == x.date {
                    lemma_filter_none(b, pr);
                }
                assert(dated(before, d) == dated(orig.take(done), d));
            }
            done = done + 1;
        }
    }
    assert(orig.take(done) =~= orig);
    out
}

proof fn lemma_filter_front<A>(s: Seq<A>, p: spec_fn(A) -> bool)
    requires
        s.len() > 0,
    ensures
        s.filter(p) == if p(s[0]) {
            seq![s[0]] + s.drop_first().filter(p)
        } else {
            s.drop_first().filter(p)
        },
{
    assert(s =~= seq![s[0]] + s.drop_first());
    Seq::filter_distributes_over_add(seq![s[0]], s.drop_first(), p);
    lemma_filter_one(s[0], p);
    if !p(s[0]) {
        assert(Seq::<A>::empty() + s.drop_first().filter(p) =~= s.drop_first().filter(p));
    }
}

proof fn lemma_filter_nonempty<A>(s: Seq<A>, p: spec_fn(A) -> bool, i: int)
    requires
        0 <= i < s.len(),
        p(s[i]),
    ensures
        s.filter(p).len() > 0,
{
    s.lemma_filter_contains(p, i);
}

proof fn lemma_filter_witness<A>(s: Seq<A>, p: spec_fn(A) -> bool)
    requires
        s.filter(p).len() > 0,
    ensures
        exists|i: int| 0 <= i < s.len() && p(#[trigger] s[i]),
{
    let e = s.filter(p)[0];
    assert(s.filter(p).contains(e));
    s.lemma_filter_contains_rev(p, e);
    s.lemma_filter_pred(p, 0);
    let i = choose|i: int| 0 <= i < s.len() && s[i] == e;
    assert(p(s[i]));
}

/// A newest-first list is fixed by the entries of each date in their
/// order: two lists that agree date by date are the same list. So the
/// contract of `sort_by_date_desc` leaves exactly one possible result.
pub proof fn lemma_newest_first_unique<T>(a: Seq<ServerEntry<T>>, b: Seq<ServerEntry<T>>)
    requires
        newest_first(a),
        newest_first(b),
        forall|d: u64| #[trigger] dated(a, d) == dated(b, d),
    ensures
        a == b,
    decreases a.len() + b.len(),
{
    if a.len() == 0 && b.len() == 0 {
        assert(a =~= b);
    } else if a.len() == 0 {
        lemma_filter_nonempty(b, date_is::<T>(b[0].date), 0);
        assert(dated(b, b[0].date) == dated(a, b[0].date));
        assert(a =~= Seq::<ServerEntry<T>>::empty());
        assert(dated(a, b[0].date) =~= Seq::<ServerEntry<T>>::empty()) by {
            reveal(Seq::filter);
        }
    } else if b.len() == 0 {
        lemma_filter_nonempty(a, date_is::<T>(a[0].date), 0);
        assert(dated(a, a[0].date) == dated(b, a[0].date));
        assert(dated(b, a[0].date) =~= Seq::<ServerEntry<T>>::empty()) by {
            reveal(Seq::filter);
        }
    } else {
        let da = a[0].date;
        let db = b[0].date;
        lemma_filter_nonempty(a, date_is::<T>(da), 0);
        lemma_filter_nonempty(b, date_is::<T>(db), 0);
        assert(dated(a, db) == dated(b, db));
        assert(dated(b, da) == dated(a, da));
        lemma_filter_witness(a, date_is::<T>(db));
        lemma_filter_witness(b, date_is::<T>(da));
        let ia = choose|i: int| 0 <= i < a.len() && (date_is::<T>(db))(#[trigger] a[i]);
        let ib = choose|i: int| 0 <= i < b.len() && (date_is::<T>(da))(#[trigger] b[i]);
        assert(a[ia].date == db);
        assert(b[ib].date == da);
        if ia > 0 {
            assert(a[0].date >= a[ia].date);
        }
        if ib > 0 {
            assert(b[0].date >= b[ib].date);
        }
        assert(da == db);
        lemma_filter_front(a, date_is::<T>(da));
        lemma_filter_front(b, date_is::<T>(da));
        assert(dated(a, da)[0] == a[0]);
        assert(dated(b, da)[0] == b[0]);
        assert(a[0] == b[0]);
        let ta = a.drop_first();
        let tb = b.drop_first();
        assert forall|d: u64| #[trigger] dated(ta, d) == dated(tb, d) by {
            lemma_filter_front(a, date_is::<T>(d));
            lemma_filter_front(b, date_is::<T>(d));
            assert(dated(a, d) == dated(b, d));
            if d == da {
                assert(dated(ta, d) =~= dated(a, d).drop_first());
                assert(dated(tb, d) =~= dated(b, d).drop_first());
            }
        }
        lemma_newest_first_unique(ta, tb);
        assert(a =~= seq![a[0]] + ta);
        assert(b =~= seq![b[0]] + tb);
    }
}

/// Sorting keeps exactly the entries it was given.
pub proof fn lemma_same_entries<T>(a: Seq<ServerEntry<T>>, b: Seq<ServerEntry<T>>, e: ServerEntry<T>)
    requires
        forall|d: u64| #[trigger] dated(a, d) == dated(b, d),
    ensures
        a.contains(e) <==> b.contains(e),
{
    let p = date_is::<T>(e.date);
    if a.contains(e) {
        let i = choose|i: int| 0 <= i < a.len() && a[i] == e;
        a.lemma_filter_contains(p, i);
        assert(a.filter(p).contains(e));
        assert(dated(a, e.date) == dated(b, e.date));
        assert(dated(b, e.date).contains(e));
        b.lemma_filter_contains_rev(p, e);
    }
    if b.contains(e) {
        let i = choose|i: int| 0 <= i < b.len() && b[i] == e;
        b.lemma_filter_contains(p, i);
        assert(b.filter(p).contains(e));
        assert(dated(a, e.date) == dated(b, e.date));
        assert(dated(a, e.date).contains(e));
        a.lemma_filter_contains_rev(p, e);
    }
}

// ---------------------------------------------------------------------------
// Merging
// ---------------------------------------------------------------------------

/// The index of the first entry of `id`.
pub open spec fn index_of_id<T>(s: Seq<ServerEntry<T>>, id: u64) -> Option<int>
    decreases s.len(),
{
    if s.len() == 0 {
        None
    } else if s[0].title_id == id {
        Some(0)
    } else {
        match index_of_id(s.drop_first(), id) {
            Some(i) => Some(i + 1),
            None => None,
        }
    }
}

/// `e` replaces the entry of its title, or joins at the end.
pub open spec fn upsert<T>(s: Seq<ServerEntry<T>>, e: ServerEntry<T>) -> Seq<ServerEntry<T>> {
    match index_of_id(s, e.title_id) {
        Some(i) => s.update(i, e),
        None => s.push(e),
    }
}

/// Each incoming entry upserted in order.
pub open spec fn upsert_all<T>(s: Seq<ServerEntry<T>>, incoming: Seq<ServerEntry<T>>) -> Seq<
    ServerEntry<T>,
>
    decreases incoming.len(),
{
    if incoming.len() == 0 {
        s
    } else {
        upsert(upsert_all(s, incoming.drop_last()), incoming.last())
    }
}

proof fn lemma_index_of_id<T>(s: Seq<ServerEntry<T>>, id: u64, i: int)
    requires
        0 <= i <= s.len(),
        forall|m: int| 0 <= m < i ==> s[m].title_id != id,
        i < s.len() ==> s[i].title_id == id,
    ensures
        index_of_id(s, id) == if i < s.len() {
            Some(i)
        } else {
            None::<int>
        },
    decreases i,
{
    if i > 0 {
        lemma_index_of_id(s.drop_first(), id, i - 1);
    }
}

fn position_of_id<T>(s: &Vec<ServerEntry<T>>, id: u64) -> (r: Option<usize>)
    ensures
        match r {
            Some(i) => index_of_id(s@, id) == Some(i as int) && i < s@.len(),
            None => index_of_id(s@, id) is None,
        },
{
    let mut i: usize = 0;
    while i < s.len()
        invariant
            i <= s@.len(),
            forall|m: int| 0 <= m < i ==> s@[m].title_id != id,
        decreases s@.len() - i,
    {
        if s[i].title_id == id {
            proof {
                lemma_index_of_id(s@, id, i as int);
            }
            return Some(i);
        }
        i = i + 1;
    }
    proof {
        lemma_index_of_id(s@, id, s@.len() as int);
    }
    None
}

/// Merges a newly read page into a history list: every entry replaces the
/// one of its title (the newer answer wins) or joins, then the list is
/// sorted newest first.
pub fn merge_entries<T>(cur: Vec<ServerEntry<T>>, incoming: Vec<ServerEntry<T>>) -> (r: Vec<
    ServerEntry<T>,
>)
    ensures
        r@.len() == upsert_all(cur@, incoming@).len(),
        newest_first(r@),
        forall|d: u64| #[trigger] dated(r@, d) == dated(upsert_all(cur@, incoming@), d),
{
    let ghost inc = incoming@;
    let mut acc = cur;
    let mut rest = incoming;
    let ghost mut done: int = 0;
    assert(inc.skip(0) =~= inc);
    assert(inc.take(0) =~= Seq::<ServerEntry<T>>::empty());
    while rest.len() > 0
        invariant
            0 <= done <= inc.len(),
            rest@ == inc.skip(done),
            acc@ == upsert_all(cur@, inc.take(done)),
        decreases rest@.len(),
    {
        let e = rest.remove(0);
        assert(e == inc[done]);
        assert(inc.take(done + 1).drop_last() =~= inc.take(done));
        match position_of_id(&acc, e.title_id) {
            Some(i) => {
                acc.set(i, e);
            },
            None => {
                acc.push(e);
            },
        }
        proof {
            done = done + 1;
        }
    }
    assert(inc.take(done) =~= inc);
    sort_by_date_desc(acc)
}

// ---------------------------------------------------------------------------
// Reading history pages
// ---------------------------------------------------------------------------

/// One record of a history page as the site sends it: the title object,
/// and the date and episode read next to it.
pub struct HistoryRecord {
    pub title: Json,
    pub date: u64,
    pub season: u64,
    pub episode: u64,
}

pub open spec fn u64_or_zero(v: Option<u64>) -> u64 {
    match v {
        Some(n) => n,
        None => 0,
    }
}

/// The record the site's history item `r` stands for: the date under
/// `date`, the episode from the first of its `videos`.
pub open spec fn record_of(r: Json, rec: HistoryRecord) -> bool {
    let v0 = nth(at(Some(r), "videos"@), 0);
    &&& rec.title == r
    &&& rec.date == u64_or_zero(u64_of(at(Some(r), "date"@)))
    &&& rec.season == u64_or_zero(u64_of(at(v0, "season_num"@)))
    &&& rec.episode == u64_or_zero(u64_of(at(v0, "episode_num"@)))
}

/// The total count a history answer reports.
pub open spec fn history_total(v: Json) -> u64 {
    u64_or_zero(u64_of(at(nth(at(at(Some(v), "data"@), "totalCount"@), 0), "count"@)))
}

/// How a history answer reads: a refusal with its message, an answer
/// without items with its message, or the items and the total.
pub open spec fn history_refused(v: Json) -> bool {
    is_bool(at(Some(v), "success"@), false)
}

pub open spec fn history_refusal_msg(v: Json) -> Seq<char> {
    match or_text(str_of(at(Some(v), "message"@)), str_of(at(Some(v), "error"@))) {
        Some(m) => m,
        None => "Sunucu geçmişi vermedi"@,
    }
}

pub open spec fn history_items(v: Json) -> Option<Seq<Json>> {
    array_of(at(at(Some(v), "data"@), "totalData"@))
}

pub open spec fn history_shapeless_msg(v: Json) -> Seq<char> {
    match str_of(at(Some(v), "message"@)) {
        Some(m) => m,
        None => "Geçmiş yanıtı anlaşılmadı"@,
    }
}

fn u64_or(v: Option<u64>) -> (r: u64)
    ensures
        r == u64_or_zero(v),
{
    match v {
        Some(n) => n,
        None => 0,
    }
}

/// Reads one history page answer into records, with the total.
///
/// A `success: false` answer fails with its `message`, else its `error`,
/// else "Sunucu geçmişi vermedi"; an answer without `data.totalData` fails
/// with its `message`, else "Geçmiş yanıtı anlaşılmadı".
pub fn parse_history_page(v: Json) -> (r: Result<(Vec<HistoryRecord>, u64), String>)
    ensures
        match r {
            Err(e) => if history_refused(v) {
                e@ == history_refusal_msg(v)
            } else {
                history_items(v) is None && e@ == history_shapeless_msg(v)
            },
            Ok((recs, total)) => {
                &&& !history_refused(v)
                &&& history_items(v) is Some
                &&& total == history_total(v)
                &&& recs@.len() == history_items(v)->0.len()
                &&& forall|i: int|
                    0 <= i < recs@.len() ==> record_of(history_items(v)->0[i], #[trigger] recs@[i])
            },
        },
{
    let ghost v0 = v;
    let top = Some(&v);
    if check_bool(get(top, "success"), false) {
        let m = match get_str(get(top, "message")) {
            Some(s) => s.clone(),
            None => match get_str(get(top, "error")) {
                Some(s) => s.clone(),
                None => owned("Sunucu geçmişi vermedi"),
            },
        };
        return Err(m);
    }
    let total = u64_or(get_u64(get(get_nth(get(get(top, "data"), "totalCount"), 0), "count")));
    let shapeless = match get_str(get(top, "message")) {
        Some(s) => s.clone(),
        None => owned("Geçmiş yanıtı anlaşılmadı"),
    };
    let data = take_field(Some(v), "data");
    let list = take_field(data, "totalData");
    let mut items = match list {
        Some(Json::Array(items)) => items,
        _ => return Err(shapeless),
    };
    let ghost all = items@;
    assert(Some(all) == history_items(v0));
    let mut recs: Vec<HistoryRecord> = Vec::new();
    let ghost mut done: int = 0;
    assert(all.skip(0) =~= all);
    while items.len() > 0
        invariant
            0 <= done <= all.len(),
            items@ == all.skip(done),
            recs@.len() == done,
            forall|k: int| 0 <= k < done ==> record_of(all[k], #[trigger] recs@[k]),
        decreases items@.len(),
    {
        let r = items.remove(0);
        assert(r == all[done]);
        let date = u64_or(get_u64(get(Some(&r), "date")));
        let first = get_nth(get(Some(&r), "videos"), 0);
        let season = u64_or(get_u64(get(first, "season_num")));
        let episode = u64_or(get_u64(get(first, "episode_num")));
        recs.push(HistoryRecord { title: r, date, season, episode });
        proof {
            done = done + 1;
        }
    }
    assert(done == all.len());
    Ok((recs, total))
}

/// The entry just merged is in the merged list, and no entry of another
/// title was lost.
pub proof fn lemma_upsert_keeps<T>(s: Seq<ServerEntry<T>>, e: ServerEntry<T>, o: ServerEntry<T>)
    ensures
        upsert(s, e).contains(e),
        s.contains(o) && o.title_id != e.title_id ==> upsert(s, e).contains(o),
{
    match index_of_id(s, e.title_id) {
        Some(i) => {
            lemma_index_of_id_bounds(s, e.title_id);
            assert(upsert(s, e)[i] == e);
            if s.contains(o) && o.title_id != e.title_id {
                let k = choose|k: int| 0 <= k < s.len() && s[k] == o;
                assert(k != i);
                assert(upsert(s, e)[k] == o);
            }
        },
        None => {
            assert(upsert(s, e)[s.len() as int] == e);
            if s.contains(o) {
                let k = choose|k: int| 0 <= k < s.len() && s[k] == o;
                assert(upsert(s, e)[k] == o);
            }
        },
    }
}

proof fn lemma_index_of_id_bounds<T>(s: Seq<ServerEntry<T>>, id: u64)
    ensures
        index_of_id(s, id) matches Some(i) ==> 0 <= i < s.len() && s[i].title_id == id,
    decreases s.len(),
{
    if s.len() > 0 && s[0].title_id != id {
        lemma_index_of_id_bounds(s.drop_first(), id);
    }
}

// ---------------------------------------------------------------------------
// Continue watching
// ---------------------------------------------------------------------------

/// The first entry of every title, in order.
pub open spec fn first_per_title<T>(s: Seq<ServerEntry<T>>) -> Seq<ServerEntry<T>>
    decreases s.len(),
{
    if s.len() == 0 {
        s
    } else {
        let r = first_per_title(s.drop_last());
        if index_of_id(r, s.last().title_id) is Some {
            r
        } else {
            r.push(s.last())
        }
    }
}

proof fn lemma_index_of_id_none<T>(s: Seq<ServerEntry<T>>, id: u64)
    requires
        index_of_id(s, id) is None,
    ensures
        forall|k: int| 0 <= k < s.len() ==> s[k].title_id != id,
    decreases s.len(),
{
    if s.len() > 0 {
        lemma_index_of_id_none(s.drop_first(), id);
        assert forall|k: int| 0 <= k < s.len() implies s[k].title_id != id by {
            if k > 0 {
                assert(s[k] == s.drop_first()[k - 1]);
            }
        }
    }
}

/// The continue row holds every title once, and only titles that were
/// in the pool.
pub proof fn lemma_first_per_title_distinct<T>(s: Seq<ServerEntry<T>>)
    ensures
        forall|a: int, b: int|
            0 <= a < b < first_per_title(s).len() ==> first_per_title(s)[a].title_id
                != first_per_title(s)[b].title_id,
        forall|a: int|
            0 <= a < first_per_title(s).len() ==> exists|k: int|
                0 <= k < s.len() && s[k] == #[trigger] first_per_title(s)[a],
    decreases s.len(),
{
    if s.len() > 0 {
        let r = first_per_title(s.drop_last());
        lemma_first_per_title_distinct(s.drop_last());
        if index_of_id(r, s.last().title_id) is None {
            lemma_index_of_id_none(r, s.last().title_id);
            let t = r.push(s.last());
            assert forall|a: int| 0 <= a < t.len() implies exists|k: int|
                0 <= k < s.len() && s[k] == #[trigger] t[a] by {
                if a == r.len() {
                    assert(s[s.len() - 1] == t[a]);
                } else {
                    let k = choose|k: int| 0 <= k < s.drop_last().len() && s.drop_last()[k] == r[a];
                    assert(s[k] == t[a]);
                }
            }
        } else {
            assert forall|a: int| 0 <= a < r.len() implies exists|k: int|
                0 <= k < s.len() && s[k] == #[trigger] r[a] by {
                let k = choose|k: int| 0 <= k < s.drop_last().len() && s.drop_last()[k] == r[a];
                assert(s[k] == r[a]);
            }
        }
    }
}

/// A local history time in seconds as milliseconds, saturating.
pub open spec fn local_ms(secs: u64) -> u64 {
    if secs as int * 1000 > u64::MAX {
        u64::MAX
    } else {
        (secs * 1000) as u64
    }
}

/// Local entries (dated in seconds) put on the server's millisecond scale.
pub open spec fn local_scaled<T>(local: Seq<ServerEntry<T>>) -> Seq<ServerEntry<T>> {
    local.map_values(
        |e: ServerEntry<T>|
            ServerEntry {
                title_id: e.title_id,
                title: e.title,
                date: local_ms(e.date),
                season: e.season,
                episode: e.episode,
            },
    )
}

/// What the "continue watching" row draws from: the local history when it
/// is enabled, then the server history.
pub open spec fn continue_pool<T>(
    local: Seq<ServerEntry<T>>,
    local_enabled: bool,
    server: Seq<ServerEntry<T>>,
) -> Seq<ServerEntry<T>> {
    if local_enabled {
        local_scaled(local) + server
    } else {
        server
    }
}

fn keep_first_per_title<T>(v: Vec<ServerEntry<T>>) -> (r: Vec<ServerEntry<T>>)
    ensures
        r@ == first_per_title(v@),
{
    let ghost orig = v@;
    let mut rest = v;
    let mut out: Vec<ServerEntry<T>> = Vec::new();
    let ghost mut done: int = 0;
    assert(orig.skip(0) =~= orig);
    assert(orig.take(0) =~= Seq::<ServerEntry<T>>::empty());
    while rest.len() > 0
        invariant
            0 <= done <= orig.len(),
            rest@ == orig.skip(done),
            out@ == first_per_title(orig.take(done)),
        decreases rest@.len(),
    {
        let e = rest.remove(0);
        assert(e == orig[done]);
        assert(orig.take(done + 1).drop_last() =~= orig.take(done));
        match position_of_id(&out, e.title_id) {
            Some(_) => {},
            None => {
                out.push(e);
            },
        }
        proof {
            done = done + 1;
        }
    }
    assert(orig.take(done) =~= orig);
    out
}

fn scale_local<T>(v: Vec<ServerEntry<T>>) -> (r: Vec<ServerEntry<T>>)
    ensures
        r@ == local_scaled(v@),
{
    let ghost orig = v@;
    let mut rest = v;
    let mut out: Vec<ServerEntry<T>> = Vec::new();
    let ghost mut done: int = 0;
    assert(orig.skip(0) =~= orig);
    while rest.len() > 0
        invariant
            0 <= done <= orig.len(),
            rest@ == orig.skip(done),
            out@ == local_scaled(orig.take(done)),
        decreases rest@.len(),
    {
        let e = rest.remove(0);
        assert(e == orig[done]);
        let date = if e.date > u64::MAX / 1000 {
            u64::MAX
        } else {
            e.date * 1000
        };
        out.push(
            ServerEntry {
                title_id: e.title_id,
                title: e.title,
                date,
                season: e.season,
                episode: e.episode,
            },
        );
        proof {
            done = done + 1;
        }
        assert(out@ =~= local_scaled(orig.take(done)));
    }
    assert(orig.take(done) =~= orig);
    out
}

/// The "continue watching" titles: local and server history together,
/// newest first, each title once (its newest entry; on equal times the
/// local one).
pub fn continue_items<T>(
    local: Vec<ServerEntry<T>>,
    local_enabled: bool,
    server: Vec<ServerEntry<T>>,
) -> (r: Vec<ServerEntry<T>>)
    ensures
        exists|sorted: Seq<ServerEntry<T>>|
            {
                &&& newest_first(sorted)
                &&& forall|d: u64| #[trigger]
                    dated(sorted, d) == dated(continue_pool(local@, local_enabled, server@), d)
                &&& r@ == first_per_title(sorted)
            },
{
    let ghost pool = continue_pool(local@, local_enabled, server@);
    let mut all = if local_enabled {
        scale_local(local)
    } else {
        Vec::new()
    };
    let mut server = server;
    all.append(&mut server);
    assert(all@ =~= pool);
    let sorted = sort_by_date_desc(all);
    let r = keep_first_per_title(sorted);
    assert(newest_first(sorted@));
    r
}

/// The season to resume a title at: the local history's (when enabled and
/// above zero), else the server's (when above zero).
pub open spec fn resume_season_spec<T>(
    local: Seq<ServerEntry<T>>,
    local_enabled: bool,
    server: Seq<ServerEntry<T>>,
    title_id: u64,
) -> Option<u64> {
    let from_local = if local_enabled {
        match index_of_id(local, title_id) {
            Some(i) => if local[i].season > 0 {
                Some(local[i].season)
            } else {
                None
            },
            None => None,
        }
    } else {
        None
    };
    match from_local {
        Some(s) => Some(s),
        None => match index_of_id(server, title_id) {
            Some(i) => if server[i].season > 0 {
                Some(server[i].season)
            } else {
                None
            },
            None => None,
        },
    }
}

/// `i` is the position of the first entry of `id` in `s`.
pub open spec fn first_entry_at<T>(s: Seq<ServerEntry<T>>, id: u64, i: int) -> bool {
    &&& 0 <= i < s.len()
    &&& s[i].title_id == id
    &&& forall|m: int| 0 <= m < i ==> s[m].title_id != id
}

proof fn lemma_index_of_id_first<T>(s: Seq<ServerEntry<T>>, id: u64)
    ensures
        index_of_id(s, id) matches Some(i) ==> first_entry_at(s, id, i),
    decreases s.len(),
{
    if s.len() > 0 && s[0].title_id != id {
        let t = s.drop_first();
        lemma_index_of_id_first(t, id);
        if let Some(i) = index_of_id(t, id) {
            assert forall|m: int| 0 <= m < i + 1 implies s[m].title_id != id by {
                if m > 0 {
                    assert(s[m] == t[m - 1]);
                }
            }
        }
    }
}

/// Where a title is resumed: when local history is enabled and the first
/// local entry of the title has a season above zero, that season; in every
/// other case (local history off, the title missing from it, or its season
/// zero) the season of the first server entry of the title when above zero,
/// and nothing when the server has no such entry or its season is zero.
pub proof fn lemma_resume_season_fallback<T>(
    local: Seq<ServerEntry<T>>,
    local_enabled: bool,
    server: Seq<ServerEntry<T>>,
    title_id: u64,
)
    ensures
        forall|i: int|
            local_enabled && #[trigger] first_entry_at(local, title_id, i) && local[i].season > 0
                ==> resume_season_spec(local, local_enabled, server, title_id) == Some(
                local[i].season,
            ),
        !(local_enabled && exists|i: int|
            #[trigger] first_entry_at(local, title_id, i) && local[i].season > 0) ==> {
            &&& forall|j: int| #[trigger]
                first_entry_at(server, title_id, j) ==> resume_season_spec(
                    local,
                    local_enabled,
                    server,
                    title_id,
                ) == if server[j].season > 0 {
                    Some(server[j].season)
                } else {
                    None
                }
            &&& (forall|j: int| 0 <= j < server.len() ==> server[j].title_id != title_id)
                ==> resume_season_spec(local, local_enabled, server, title_id) is None
        },
{
    lemma_index_of_id_first(local, title_id);
    lemma_index_of_id_first(server, title_id);
    assert forall|i: int| #[trigger] first_entry_at(local, title_id, i) implies index_of_id(
        local,
        title_id,
    ) == Some(i) by {
        lemma_index_of_id(local, title_id, i);
    }
    assert forall|j: int| #[trigger] first_entry_at(server, title_id, j) implies index_of_id(
        server,
        title_id,
    ) == Some(j) by {
        lemma_index_of_id(server, title_id, j);
    }
    if !(local_enabled && exists|i: int|
        #[trigger] first_entry_at(local, title_id, i) && local[i].season > 0) {
        if local_enabled {
            if let Some(i) = index_of_id(local, title_id) {
                assert(first_entry_at(local, title_id, i));
            }
        }
        if forall|j: int| 0 <= j < server.len() ==> server[j].title_id != title_id {
            if let Some(j) = index_of_id(server, title_id) {
                assert(first_entry_at(server, title_id, j));
            }
        }
    }
}

/// The season a title was left at.
pub fn resume_season<T>(
    local: &Vec<ServerEntry<T>>,
    local_enabled: bool,
    server: &Vec<ServerEntry<T>>,
    title_id: u64,
) -> (r: Option<u64>)
    ensures
        r == resume_season_spec(local@, local_enabled, server@, title_id),
        forall|i: int|
            local_enabled && #[trigger] first_entry_at(local@, title_id, i) && local@[i].season > 0
                ==> r == Some(local@[i].season),
        !(local_enabled && exists|i: int|
            #[trigger] first_entry_at(local@, title_id, i) && local@[i].season > 0) ==> {
            &&& forall|j: int| #[trigger]
                first_entry_at(server@, title_id, j) ==> r == if server@[j].season > 0 {
                    Some(server@[j].season)
                } else {
                    None
                }
            &&& (forall|j: int| 0 <= j < server@.len() ==> server@[j].title_id != title_id)
                ==> r is None
        },
{
    proof {
        lemma_resume_season_fallback(local@, local_enabled, server@, title_id);
    }
    if local_enabled {
        match position_of_id(local, title_id) {
            Some(i) => if local[i].season > 0 {
                return Some(local[i].season);
            },
            None => {},
        }
    }
    match position_of_id(server, title_id) {
        Some(i) => if server[i].season > 0 {
            Some(server[i].season)
        } else {
            None
        },
        None => None,
    }
}

// ---------------------------------------------------------------------------
// Requests for history pages
// ---------------------------------------------------------------------------

/// The path of one history page (pages count from zero).
pub open spec fn history_page_path(page: u32) -> Seq<char> {
    "/secure/history/get-titles?page="@ + decimal(page as nat)
}

fn history_request(c: &Client, page: u32) -> (r: Request)
    ensures
        is_api_request(r, c.session.jar(), false, history_page_path(page), 20),
        r.body is None,
{
    let mut path = owned("/secure/history/get-titles?page=");
    push_decimal(&mut path, page as u64);
    api_request(&c.session, false, path, None, 20)
}

/// The pages a request for `count` pages from `from` reads: at least one.
pub open spec fn planned_pages(from: u32, count: u32) -> Seq<u32> {
    let n = if count == 0 {
        1
    } else {
        count
    };
    Seq::new(n as nat, |i: int| (from + i) as u32)
}

impl Client {
    /// The request for one history page; none when signed out, since the
    /// history of a signed-out user is empty.
    pub fn server_history_page(&self, page: u32) -> (r: Option<Request>)
        ensures
            match r {
                Some(req) => self.session.user is Some && is_api_request(
                    req,
                    self.session.jar(),
                    false,
                    history_page_path(page),
                    20,
                ) && req.body is None,
                None => self.session.user is None,
            },
    {
        if !self.is_logged_in() {
            return None;
        }
        Some(history_request(self, page))
    }

    /// The requests for the history pages `from .. from + count` (at least
    /// one page), in page order; none when signed out.
    pub fn server_pages(&self, from: u32, count: u32) -> (r: Option<Vec<Request>>)
        requires
            count <= 1 || from as int + count as int <= u32::MAX,
        ensures
            match r {
                Some(reqs) => {
                    &&& self.session.user is Some
                    &&& reqs@.len() == planned_pages(from, count).len()
                    &&& forall|i: int|
                        0 <= i < reqs@.len() ==> is_api_request(
                            #[trigger] reqs@[i],
                            self.session.jar(),
                            false,
                            history_page_path(planned_pages(from, count)[i]),
                            20,
                        ) && reqs@[i].body is None
                },
                None => self.session.user is None,
            },
    {
        if !self.is_logged_in() {
            return None;
        }
        let n: u32 = if count == 0 {
            1
        } else {
            count
        };
        let mut reqs: Vec<Request> = Vec::new();
        let mut i: u32 = 0;
        while i < n
            invariant
                n == if count == 0 {
                    1u32
                } else {
                    count
                },
                n >= 1,
                from as int + n as int - 1 <= u32::MAX,
                i <= n,
                reqs@.len() == i,
                forall|k: int|
                    0 <= k < i ==> is_api_request(
                        #[trigger] reqs@[k],
                        self.session.jar(),
                        false,
                        history_page_path(planned_pages(from, count)[k]),
                        20,
                    ) && reqs@[k].body is None,
            decreases n - i,
        {
            reqs.push(history_request(self, from + i));
            i = i + 1;
        }
        Some(reqs)
    }

    /// The requests for the newest `max_pages` history pages.
    pub fn server_top(&self, max_pages: u32) -> (r: Option<Vec<Request>>)
        ensures
            match r {
                Some(reqs) => {
                    &&& self.session.user is Some
                    &&& reqs@.len() == planned_pages(0, max_pages).len()
                    &&& forall|i: int|
                        0 <= i < reqs@.len() ==> is_api_request(
                            #[trigger] reqs@[i],
                            self.session.jar(),
                            false,
                            history_page_path(planned_pages(0, max_pages)[i]),
                            20,
                        ) && reqs@[i].body is None
                },
                None => self.session.user is None,
            },
    {
        self.server_pages(0, max_pages)
    }
}

/// The entries of the pages that could be read, in page order.
pub open spec fn read_pages<T>(pages: Seq<Result<Vec<ServerEntry<T>>, String>>) -> Seq<
    ServerEntry<T>,
>
    decreases pages.len(),
{
    if pages.len() == 0 {
        Seq::empty()
    } else {
        read_pages(pages.drop_last()) + match pages.last() {
            Ok(v) => v@,
            Err(_) => Seq::empty(),
        }
    }
}

/// Joins the first page with the pages after it (given in page order;
/// pages that could not be read are left out) into one newest-first list.
pub fn combine_pages<T>(
    first: Vec<ServerEntry<T>>,
    rest: Vec<Result<Vec<ServerEntry<T>>, String>>,
) -> (r: Vec<ServerEntry<T>>)
    ensures
        r@.len() == first@.len() + read_pages(rest@).len(),
        newest_first(r@),
        forall|d: u64| #[trigger] dated(r@, d) == dated(first@ + read_pages(rest@), d),
{
    let ghost pages = rest@;
    let mut all = first;
    let mut rest = rest;
    let ghost mut done: int = 0;
    assert(pages.skip(0) =~= pages);
    assert(all@ =~= first@ + read_pages(pages.take(0)));
    while rest.len() > 0
        invariant
            0 <= done <= pages.len(),
            rest@ == pages.skip(done),
            all@ == first@ + read_pages(pages.take(done)),
        decreases rest@.len(),
    {
        let page = rest.remove(0);
        assert(page == pages[done]);
        assert(pages.take(done + 1).drop_last() =~= pages.take(done));
        match page {
            Ok(mut items) => {
                all.append(&mut items);
            },
            Err(_) => {},
        }
        proof {
            done = done + 1;
        }
        assert(all@ =~= first@ + read_pages(pages.take(done)));
    }
    assert(pages.take(done) =~= pages);
    sort_by_date_desc(all)
}


/// How often an entry occurs in a list.
pub open spec fn occurrences<T>(s: Seq<ServerEntry<T>>, e: ServerEntry<T>) -> nat
    decreases s.len(),
{
    if s.len() == 0 {
        0
    } else {
        occurrences(s.drop_last(), e) + if s.last() == e {
            1nat
        } else {
            0
        }
    }
}

/// An entry occurs as often in a list as among the list's entries of its
/// date.
proof fn lemma_occurrences_by_date<T>(s: Seq<ServerEntry<T>>, e: ServerEntry<T>)
    ensures
        occurrences(s, e) == occurrences(dated(s, e.date), e),
    decreases s.len(),
{
    reveal(Seq::filter);
    if s.len() > 0 {
        lemma_occurrences_by_date(s.drop_last(), e);
        let f = dated(s.drop_last(), e.date);
        if s.last().date == e.date {
            assert(dated(s, e.date) == f.push(s.last()));
            assert(f.push(s.last()).drop_last() =~= f);
        } else {
            assert(dated(s, e.date) == f);
        }
    }
}

/// Two lists with the same entries date by date hold every entry equally
/// often: one is a reordering of the other.
pub proof fn lemma_same_dates_same_counts<T>(a: Seq<ServerEntry<T>>, b: Seq<ServerEntry<T>>)
    requires
        forall|d: u64| #[trigger] dated(a, d) == dated(b, d),
    ensures
        forall|e: ServerEntry<T>| #[trigger] occurrences(a, e) == occurrences(b, e),
{
    assert forall|e: ServerEntry<T>| #[trigger] occurrences(a, e) == occurrences(b, e) by {
        lemma_occurrences_by_date(a, e);
        lemma_occurrences_by_date(b, e);
        assert(dated(a, e.date) == dated(b, e.date));
    }
}

/// The answer for a run of history pages: the first page decides, its
/// error is the answer and its total is the answer's total; later pages
/// that failed are left out. The entries come newest first and are the
/// entries of the pages read, each as often as there.
pub fn combine_page_results<T>(
    first: Result<(Vec<ServerEntry<T>>, u64), String>,
    rest: Vec<Result<Vec<ServerEntry<T>>, String>>,
) -> (r: Result<(Vec<ServerEntry<T>>, u64), String>)
    ensures
        match first {
            Err(e) => r == Err::<(Vec<ServerEntry<T>>, u64), String>(e),
            Ok((v, t)) => match r {
                Ok((w, total)) => {
                    &&& total == t
                    &&& newest_first(w@)
                    &&& w@.len() == v@.len() + read_pages(rest@).len()
                    &&& forall|d: u64| #[trigger] dated(w@, d) == dated(v@ + read_pages(rest@), d)
                    &&& forall|e: ServerEntry<T>| #[trigger] occurrences(w@, e) == occurrences(
                        v@ + read_pages(rest@),
                        e,
                    )
                },
                Err(_) => false,
            },
        },
{
    match first {
        Err(e) => Err(e),
        Ok((v, t)) => {
            let ghost all = v@ + read_pages(rest@);
            let w = combine_pages(v, rest);
            proof {
                lemma_same_dates_same_counts(w@, all);
            }
            Ok((w, t))
        },
    }
}

} // verus!
