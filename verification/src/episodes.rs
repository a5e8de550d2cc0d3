//! The episode list of a title: its season tabs, the quick search that
//! narrows it, and the progress each row shows.

use vstd::prelude::*;
use crate::text::{chars_of, chars_equal, contains, decimal, decimal2, lowercase, owned, push_decimal, push_decimal2, seq_contains, to_lowercase, trim, trim_str};
use crate::mpv::{clock, clock_text};

verus! {

// ---------------------------------------------------------------------------
// Season tabs
// ---------------------------------------------------------------------------

/// Strictly increasing: sorted, with no season twice.
pub open spec fn increasing(s: Seq<u64>) -> bool {
    forall|i: int, j: int| 0 <= i < j < s.len() ==> s[i] < s[j]
}

/// The season tabs of a list of episodes: each season once, in increasing
/// order.
pub fn season_tabs(seasons: &Vec<u64>) -> (r: Vec<u64>)
    ensures
        increasing(r@),
        forall|x: u64| r@.contains(x) <==> seasons@.contains(x),
{
    let mut out: Vec<u64> = Vec::new();
    let mut i: usize = 0;
    while i < seasons.len()
        invariant
            i <= seasons@.len(),
            increasing(out@),
            forall|x: u64| out@.contains(x) <==> seasons@.take(i as int).contains(x),
        decreases seasons@.len() - i,
    {
        let x = seasons[i];
        let ghost before = out@;
        let mut p: usize = 0;
        while p < out.len() && out[p] < x
            invariant
                out@ == before,
                p <= out@.len(),
                forall|k: int| 0 <= k < p ==> out@[k] < x,
            decreases out@.len() - p,
        {
            p = p + 1;
        }
        if p < out.len() && out[p] == x {
        } else {
            out.insert(p, x);
            assert forall|a: int, b: int| 0 <= a < b < out@.len() implies out@[a] < out@[b] by {
                if b < p {
                    assert(out@[a] == before[a] && out@[b] == before[b]);
                } else if b == p {
                    assert(out@[a] == before[a]);
                } else if a < p {
                    assert(out@[a] == before[a] && out@[b] == before[b - 1]);
                    assert(before[b - 1] >= x) by {
                        if p < before.len() {
                            assert(before[p as int] >= x);
                            if b - 1 > p {
                                assert(before[p as int] < before[b - 1]);
                            }
                        }
                    }
                } else if a == p {
                    assert(out@[b] == before[b - 1]);
                    assert(before[p as int] > x);
                    if b - 1 > p {
                        assert(before[p as int] < before[b - 1]);
                    }
                } else {
                    assert(out@[a] == before[a - 1] && out@[b] == before[b - 1]);
                }
            }
        }
        proof {
            let t = seasons@.take(i + 1);
            assert(t =~= seasons@.take(i as int).push(x));
            assert forall|y: u64| out@.contains(y) <==> t.contains(y) by {
                if out@.contains(y) {
                    let k = choose|k: int| 0 <= k < out@.len() && out@[k] == y;
                    if y == x {
                        assert(t[i as int] == x);
                    } else {
                        if out@.len() == before.len() {
                            assert(before[k] == y);
                        } else if k < p {
                            assert(before[k] == y);
                        } else {
                            assert(before[k - 1] == y);
                        }
                        assert(before.contains(y));
                        assert(seasons@.take(i as int).contains(y));
                        let m = choose|m: int|
                            0 <= m < seasons@.take(i as int).len() && seasons@.take(i as int)[m]
                                == y;
                        assert(t[m] == y);
                    }
                }
                if t.contains(y) {
                    let m = choose|m: int| 0 <= m < t.len() && t[m] == y;
                    if m == i {
                        if out@.len() == before.len() {
                            assert(out@[p as int] == x);
                        } else {
                            assert(out@[p as int] == x);
                        }
                    } else {
                        assert(seasons@.take(i as int)[m] == y);
                        assert(seasons@.take(i as int).contains(y));
                        assert(before.contains(y));
                        let k = choose|k: int| 0 <= k < before.len() && before[k] == y;
                        if out@.len() == before.len() {
                            assert(out@[k] == y);
                        } else if k < p {
                            assert(out@[k] == y);
                        } else {
                            assert(out@[k + 1] == y);
                        }
                    }
                }
            }
        }
        i = i + 1;
    }
    assert(seasons@.take(seasons@.len() as int) =~= seasons@);
    out
}

/// Two increasing lists with the same seasons are the same list: the
/// contract of `season_tabs` leaves exactly one result.
pub proof fn lemma_tabs_determined(a: Seq<u64>, b: Seq<u64>)
    requires
        increasing(a),
        increasing(b),
        forall|x: u64| a.contains(x) <==> b.contains(x),
    ensures
        a == b,
    decreases a.len() + b.len(),
{
    if a.len() == 0 || b.len() == 0 {
        if a.len() > 0 {
            assert(a.contains(a[0]));
        }
        if b.len() > 0 {
            assert(b.contains(b[0]));
        }
        assert(a =~= b);
    } else {
        assert(a.contains(a[0]));
        assert(b.contains(b[0]));
        let j = choose|j: int| 0 <= j < b.len() && b[j] == a[0];
        let i = choose|i: int| 0 <= i < a.len() && a[i] == b[0];
        assert(a[0] <= a[i]);
        assert(b[0] <= b[j]);
        assert(a[0] == b[0]);
        let a1 = a.drop_first();
        let b1 = b.drop_first();
        assert forall|x: u64| a1.contains(x) <==> b1.contains(x) by {
            if a1.contains(x) {
                let k = choose|k: int| 0 <= k < a1.len() && a1[k] == x;
                assert(a[k + 1] == x);
                assert(a.contains(x));
                let m = choose|m: int| 0 <= m < b.len() && b[m] == x;
                assert(a[0] < a[k + 1]);
                assert(m != 0);
                assert(b1[m - 1] == x);
            }
            if b1.contains(x) {
                let k = choose|k: int| 0 <= k < b1.len() && b1[k] == x;
                assert(b[k + 1] == x);
                assert(b.contains(x));
                let m = choose|m: int| 0 <= m < a.len() && a[m] == x;
                assert(b[0] < b[k + 1]);
                assert(m != 0);
                assert(a1[m - 1] == x);
            }
        }
        lemma_tabs_determined(a1, b1);
        assert(a =~= seq![a[0]] + a1);
        assert(b =~= seq![b[0]] + b1);
    }
}

/// The season the list opens on: the one the title was left at when the
/// list has it, else the first tab, else season one.
pub open spec fn default_season_spec(resume: Option<u64>, tabs: Seq<u64>) -> u64 {
    let first = if tabs.len() > 0 {
        tabs[0]
    } else {
        1
    };
    match resume {
        Some(s) => if tabs.contains(s) {
            s
        } else {
            first
        },
        None => first,
    }
}

pub fn default_season(resume: Option<u64>, tabs: &Vec<u64>) -> (r: u64)
    ensures
        r == default_season_spec(resume, tabs@),
{
    if let Some(s) = resume {
        let mut i: usize = 0;
        while i < tabs.len()
            invariant
                resume == Some(s),
                i <= tabs@.len(),
                forall|k: int| 0 <= k < i ==> tabs@[k] != s,
            decreases tabs@.len() - i,
        {
            if tabs[i] == s {
                assert(tabs@[i as int] == s);
                assert(tabs@.contains(s));
                return s;
            }
            i = i + 1;
        }
        assert(!tabs@.contains(s)) by {
            if tabs@.contains(s) {
                let k = choose|k: int| 0 <= k < tabs@.len() && tabs@[k] == s;
                assert(tabs@[k] != s);
            }
        }
    }
    if tabs.len() > 0 {
        tabs[0]
    } else {
        1
    }
}

// ---------------------------------------------------------------------------
// Quick search
// ---------------------------------------------------------------------------

/// How an episode can be asked for by number: "7", "e7" or "s01e07".
pub open spec fn number_queries(season: u64, episode: u64) -> Seq<Seq<char>> {
    seq![
        decimal(episode as nat),
        seq!['e'] + decimal(episode as nat),
        seq!['s'] + decimal2(season as nat) + seq!['e'] + decimal2(episode as nat),
    ]
}

/// Whether an episode's row stays visible: it belongs to the selected
/// season, and the search text (trimmed, in lower case) is empty, occurs in
/// the episode's name in lower case, or asks for its number.
pub open spec fn episode_visible_spec(
    season: u64,
    episode: u64,
    name: Seq<char>,
    selected: u64,
    query: Seq<char>,
) -> bool {
    let q = lowercase(trim(query));
    season == selected && (q.len() == 0 || seq_contains(lowercase(name), q) || number_queries(
        season,
        episode,
    ).contains(q))
}

pub fn episode_visible(season: u64, episode: u64, name: &str, selected: u64, query: &str) -> (r:
    bool)
    ensures
        r == episode_visible_spec(season, episode, name@, selected, query@),
        r <==> season == selected && ({
            let q = lowercase(trim(query@));
            ||| q.len() == 0
            ||| seq_contains(lowercase(name@), q)
            ||| q == decimal(episode as nat)
            ||| q == seq!['e'] + decimal(episode as nat)
            ||| q == seq!['s'] + decimal2(season as nat) + seq!['e'] + decimal2(episode as nat)
        }),
{
    proof {
        lemma_visible_by_name_or_number(season, episode, name@, selected, query@);
    }
    if season != selected {
        return false;
    }
    let t = trim_str(query);
    let q = to_lowercase(t.as_str());
    let qc = chars_of(q.as_str());
    if qc.len() == 0 {
        return true;
    }
    let n = to_lowercase(name);
    let nc = chars_of(n.as_str());
    if contains(nc.as_slice(), qc.as_slice()) {
        return true;
    }
    let mut a = String::new();
    push_decimal(&mut a, episode);
    let mut b = String::new();
    crate::text::push_char(&mut b, 'e');
    push_decimal(&mut b, episode);
    let mut c = String::new();
    crate::text::push_char(&mut c, 's');
    push_decimal2(&mut c, season);
    crate::text::push_char(&mut c, 'e');
    push_decimal2(&mut c, episode);
    let ghost nums = number_queries(season, episode);
    proof {
        reveal_strlit("");
    }
    assert(a@ =~= nums[0]);
    assert(b@ =~= nums[1]);
    assert(c@ =~= nums[2]);
    let ac = chars_of(a.as_str());
    let bc = chars_of(b.as_str());
    let cc = chars_of(c.as_str());
    let r = chars_equal(ac.as_slice(), qc.as_slice()) || chars_equal(bc.as_slice(), qc.as_slice())
        || chars_equal(cc.as_slice(), qc.as_slice());
    proof {
        if !r {
            assert forall|k: int| 0 <= k < nums.len() implies nums[k] != q@ by {
                if k == 0 {
                } else if k == 1 {
                } else {
                }
            }
        } else {
            if ac@ == qc@ {
                assert(nums[0] == q@);
            } else if bc@ == qc@ {
                assert(nums[1] == q@);
            } else {
                assert(nums[2] == q@);
            }
        }
    }
    r
}

/// A row of the selected season stays visible exactly when the search text
/// (trimmed, in lower case) is empty, occurs in the episode's name in lower
/// case, or is one of the three ways of writing its number: the number
/// itself ("7"), "e" and the number ("e7"), or "s", the season in two digits,
/// "e" and the episode in two digits ("s01e07"). A text that only occurs
/// inside the number ("7" for episode 17) asks for another episode.
pub proof fn lemma_visible_by_name_or_number(
    season: u64,
    episode: u64,
    name: Seq<char>,
    selected: u64,
    query: Seq<char>,
)
    ensures
        episode_visible_spec(season, episode, name, selected, query) <==> season == selected && ({
            let q = lowercase(trim(query));
            ||| q.len() == 0
            ||| seq_contains(lowercase(name), q)
            ||| q == decimal(episode as nat)
            ||| q == seq!['e'] + decimal(episode as nat)
            ||| q == seq!['s'] + decimal2(season as nat) + seq!['e'] + decimal2(episode as nat)
        }),
{
    let q = lowercase(trim(query));
    let nums = number_queries(season, episode);
    if nums.contains(q) {
        let k = choose|k: int| 0 <= k < nums.len() && nums[k] == q;
        assert(k == 0 || k == 1 || k == 2);
    }
    if q == decimal(episode as nat) {
        assert(nums[0] == q);
    }
    if q == seq!['e'] + decimal(episode as nat) {
        assert(nums[1] == q);
    }
    if q == seq!['s'] + decimal2(season as nat) + seq!['e'] + decimal2(episode as nat) {
        assert(nums[2] == q);
    }
}

/// The hint in the empty search field, naming its shortcut.
pub fn search_placeholder(shortcut: &str) -> (r: String)
    ensures
        r@ == "Bölüm numarası veya adı ara… ("@ + shortcut@ + ")"@,
{
    let mut s = owned("Bölüm numarası veya adı ara… (");
    s.append(shortcut);
    s.append(")");
    s
}

/// The title of an episode's row: season and episode with two digits, then
/// the name after three spaces.
pub open spec fn row_title_spec(season: u64, episode: u64, name: Seq<char>) -> Seq<char> {
    seq!['S'] + decimal2(season as nat) + " E"@ + decimal2(episode as nat) + "   "@ + name
}

pub fn row_title(season: u64, episode: u64, name: &str) -> (r: String)
    ensures
        r@ == row_title_spec(season, episode, name@),
{
    let mut s = String::new();
    crate::text::push_char(&mut s, 'S');
    push_decimal2(&mut s, season);
    s.append(" E");
    push_decimal2(&mut s, episode);
    s.append("   ");
    s.append(name);
    proof {
        reveal_strlit("");
    }
    assert(s@ =~= row_title_spec(season, episode, name@));
    s
}

// ---------------------------------------------------------------------------
// Progress of a row
// ---------------------------------------------------------------------------

/// The progress an episode's row shows, in milliseconds: the later of the
/// position saved here and the one the site keeps, against the duration
/// saved here or else the title's running time; shown once there is a
/// duration and more than a second was watched.
pub open spec fn episode_progress_spec(local_pos_ms: u64, local_dur_ms: u64, remote_pos_ms: u64, runtime_min: u64) -> Option<(u64, u64)> {
    let pos = if local_pos_ms >= remote_pos_ms {
        local_pos_ms
    } else {
        remote_pos_ms
    };
    let dur = if local_dur_ms > 0 {
        local_dur_ms as int
    } else if runtime_min * 60000 <= u64::MAX {
        runtime_min * 60000
    } else {
        u64::MAX as int
    };
    if dur > 0 && pos > 1000 {
        Some((pos, dur as u64))
    } else {
        None
    }
}

pub fn episode_progress(local_pos_ms: u64, local_dur_ms: u64, remote_pos_ms: u64, runtime_min: u64) -> (r: Option<(u64, u64)>)
    ensures
        r == episode_progress_spec(local_pos_ms, local_dur_ms, remote_pos_ms, runtime_min),
{
    let pos = if local_pos_ms >= remote_pos_ms {
        local_pos_ms
    } else {
        remote_pos_ms
    };
    let dur = if local_dur_ms > 0 {
        local_dur_ms
    } else {
        match runtime_min.checked_mul(60000) {
            Some(d) => d,
            None => u64::MAX,
        }
    };
    if dur > 0 && pos > 1000 {
        Some((pos, dur))
    } else {
        None
    }
}

/// Episodes whose progress is saved here are not asked of the site.
pub open spec fn not_saved_here(local: Seq<(u64, u64)>) -> spec_fn((u64, u64)) -> bool {
    |e: (u64, u64)| !local.contains(e)
}

/// The most positions asked of the site when a title opens.
pub const REMOTE_ASK_LIMIT: usize = 120;

/// The episodes whose watched position is asked of the site when a title
/// opens: those without a position saved here, in list order, at most
/// 120 of them.
pub open spec fn remote_targets_spec(eps: Seq<(u64, u64)>, local: Seq<(u64, u64)>) -> Seq<(u64, u64)> {
    let f = eps.filter(not_saved_here(local));
    if f.len() > REMOTE_ASK_LIMIT {
        f.take(REMOTE_ASK_LIMIT as int)
    } else {
        f
    }
}

fn saved_here(local: &Vec<(u64, u64)>, e: (u64, u64)) -> (r: bool)
    ensures
        r == local@.contains(e),
{
    let mut i: usize = 0;
    while i < local.len()
        invariant
            i <= local@.len(),
            forall|k: int| 0 <= k < i ==> local@[k] != e,
        decreases local@.len() - i,
    {
        if local[i].0 == e.0 && local[i].1 == e.1 {
            assert(local@[i as int] == e);
            return true;
        }
        i = i + 1;
    }
    proof {
        if local@.contains(e) {
            let k = choose|k: int| 0 <= k < local@.len() && local@[k] == e;
            assert(local@[k] != e);
        }
    }
    false
}

pub fn remote_targets(eps: &Vec<(u64, u64)>, local: &Vec<(u64, u64)>) -> (r: Vec<(u64, u64)>)
    ensures
        r@ == remote_targets_spec(eps@, local@),
{
    let mut out: Vec<(u64, u64)> = Vec::new();
    let mut i: usize = 0;
    assert(eps@.take(0) =~= Seq::<(u64, u64)>::empty());
    proof {
        reveal(Seq::filter);
    }
    while i < eps.len()
        invariant
            i <= eps@.len(),
            out@ == eps@.take(i as int).filter(not_saved_here(local@)),
        decreases eps@.len() - i,
    {
        proof {
            reveal(Seq::filter);
        }
        assert(eps@.take(i + 1).drop_last() =~= eps@.take(i as int));
        assert(eps@.take(i + 1).last() == eps@[i as int]);
        let e = eps[i];
        if !saved_here(local, e) {
            out.push(e);
        }
        i = i + 1;
    }
    assert(eps@.take(eps@.len() as int) =~= eps@);
    if out.len() > REMOTE_ASK_LIMIT {
        out.truncate(REMOTE_ASK_LIMIT);
    }
    out
}

/// The time beside a row's title: the position and the duration as
/// clock times of whole seconds.
pub fn progress_label(pos_ms: u64, dur_ms: u64) -> (r: String)
    ensures
        r@ == clock_text((pos_ms / 1000) as nat) + " / "@ + clock_text((dur_ms / 1000) as nat),
{
    let mut s = clock(pos_ms / 1000);
    s.append(" / ");
    let d = clock(dur_ms / 1000);
    s.append(d.as_str());
    s
}

} // verus!
