//! The settings page: a setting chosen from a list is shown as a row of a
//! drop-down and written back from the row the user picked; the sidebar's
//! optional tabs are switches that write back the list of visible tabs.

use vstd::prelude::*;
use crate::text::{owned, push_decimal, decimal, same_text, str_views};

verus! {

// ---------------------------------------------------------------------------
// Drop-downs
// ---------------------------------------------------------------------------

/// The shortcuts that can open the episode page's quick search, in the
/// order the drop-down lists them.
pub open spec fn quick_search_choices() -> Seq<Seq<char>> {
    seq!["/"@, "Ctrl+F"@, "F3"@, "Ctrl+K"@]
}

/// The shortcuts that can open the search window.
pub open spec fn search_choices() -> Seq<Seq<char>> {
    seq!["Ctrl+S"@, "Ctrl+K"@, "F2"@, "/"@]
}

/// The upscaling presets: off, sharpen, light, ultra, light with sharpening.
pub open spec fn upscale_choices() -> Seq<Seq<char>> {
    seq!["off"@, "sharp"@, "hafif"@, "ultra"@, "hafif_keskin"@]
}

/// The numbers of parallel connections a download may use.
pub open spec fn connection_choices() -> Seq<u32> {
    seq![1u32, 2, 4, 6, 8, 12, 16]
}

/// The row a stored value is shown on: the first row holding it, or
/// `fallback` when no row does.
pub open spec fn row_of<T>(choices: Seq<T>, v: T, fallback: int) -> int {
    match choices.index_of_first(v) {
        Some(i) => i,
        None => fallback,
    }
}

/// The value a picked row writes back: that row's choice, or `default`
/// for a row the list does not have.
pub open spec fn choice_at<T>(choices: Seq<T>, row: int, default: T) -> T {
    if 0 <= row < choices.len() {
        choices[row]
    } else {
        default
    }
}

proof fn lemma_first_at<T>(s: Seq<T>, v: T, i: int)
    requires
        0 <= i < s.len(),
        s[i] == v,
        forall|j: int| 0 <= j < i ==> s[j] != v,
    ensures
        s.index_of_first(v) == Some(i),
{
    s.index_of_first_ensures(v);
    assert(s.contains(v));
}

fn text_row(choices: &Vec<&str>, v: &str, fallback: usize) -> (r: usize)
    ensures
        r == row_of(str_views(choices@), v@, fallback as int),
{
    let ghost views = str_views(choices@);
    let mut i: usize = 0;
    while i < choices.len()
        invariant
            views == str_views(choices@),
            i <= choices@.len(),
            forall|j: int| 0 <= j < i ==> views[j] != v@,
        decreases choices@.len() - i,
    {
        if same_text(choices[i], v) {
            proof {
                lemma_first_at(views, v@, i as int);
            }
            return i;
        }
        i = i + 1;
    }
    proof {
        views.index_of_first_ensures(v@);
        if views.contains(v@) {
            let k = choose|k: int| 0 <= k < views.len() && views[k] == v@;
            assert(views[k] != v@);
        }
    }
    fallback
}

fn text_choice(choices: &Vec<&str>, row: usize, default: &str) -> (r: String)
    ensures
        r@ == choice_at(str_views(choices@), row as int, default@),
{
    if row < choices.len() {
        owned(choices[row])
    } else {
        owned(default)
    }
}

fn quick_search_list() -> (v: Vec<&'static str>)
    ensures
        str_views(v@) == quick_search_choices(),
{
    let v = vec!["/", "Ctrl+F", "F3", "Ctrl+K"];
    assert(str_views(v@) =~= quick_search_choices());
    v
}

fn search_list() -> (v: Vec<&'static str>)
    ensures
        str_views(v@) == search_choices(),
{
    let v = vec!["Ctrl+S", "Ctrl+K", "F2", "/"];
    assert(str_views(v@) =~= search_choices());
    v
}

fn upscale_list() -> (v: Vec<&'static str>)
    ensures
        str_views(v@) == upscale_choices(),
{
    let v = vec!["off", "sharp", "hafif", "ultra", "hafif_keskin"];
    assert(str_views(v@) =~= upscale_choices());
    v
}

/// The row showing the quick-search shortcut; an unknown shortcut shows
/// the first row.
pub fn quick_search_row(shortcut: &str) -> (r: usize)
    ensures
        r == row_of(quick_search_choices(), shortcut@, 0),
{
    text_row(&quick_search_list(), shortcut, 0)
}

/// The quick-search shortcut a picked row stores; "/" for a row the list
/// does not have.
pub fn quick_search_choice(row: usize) -> (r: String)
    ensures
        r@ == choice_at(quick_search_choices(), row as int, "/"@),
{
    text_choice(&quick_search_list(), row, "/")
}

/// The row showing the search shortcut; an unknown shortcut shows the
/// first row.
pub fn search_row(shortcut: &str) -> (r: usize)
    ensures
        r == row_of(search_choices(), shortcut@, 0),
{
    text_row(&search_list(), shortcut, 0)
}

/// The search shortcut a picked row stores; "Ctrl+S" for a row the list
/// does not have.
pub fn search_choice(row: usize) -> (r: String)
    ensures
        r@ == choice_at(search_choices(), row as int, "Ctrl+S"@),
{
    text_choice(&search_list(), row, "Ctrl+S")
}

/// The row showing the upscaling preset; an unknown preset shows "off".
pub fn upscale_row(preset: &str) -> (r: usize)
    ensures
        r == row_of(upscale_choices(), preset@, 0),
{
    text_row(&upscale_list(), preset, 0)
}

/// The upscaling preset a picked row stores; "off" for a row the list
/// does not have.
pub fn upscale_choice(row: usize) -> (r: String)
    ensures
        r@ == choice_at(upscale_choices(), row as int, "off"@),
{
    text_choice(&upscale_list(), row, "off")
}

fn connection_list() -> (v: Vec<u32>)
    ensures
        v@ == connection_choices(),
{
    let v: Vec<u32> = vec![1u32, 2, 4, 6, 8, 12, 16];
    assert(v@ =~= connection_choices());
    v
}

/// The row showing a number of connections; a number the list does not
/// have shows the third row (four connections).
pub fn connections_row(n: u32) -> (r: usize)
    ensures
        r == row_of(connection_choices(), n, 2),
{
    let v = connection_list();
    let mut i: usize = 0;
    while i < v.len()
        invariant
            v@ == connection_choices(),
            i <= v@.len(),
            forall|j: int| 0 <= j < i ==> v@[j] != n,
        decreases v@.len() - i,
    {
        if v[i] == n {
            proof {
                lemma_first_at(v@, n, i as int);
            }
            return i;
        }
        i = i + 1;
    }
    proof {
        v@.index_of_first_ensures(n);
        if v@.contains(n) {
            let k = choose|k: int| 0 <= k < v@.len() && v@[k] == n;
            assert(v@[k] != n);
        }
    }
    2
}

/// The number of connections a picked row stores; six for a row the list
/// does not have.
pub fn connections_choice(row: usize) -> (r: u32)
    ensures
        r == choice_at(connection_choices(), row as int, 6u32),
{
    let v = connection_list();
    if row < v.len() {
        v[row]
    } else {
        6
    }
}

/// The text of a connections row, as "4 bağlantı".
pub fn connection_label(n: u32) -> (r: String)
    ensures
        r@ == decimal(n as nat) + " bağlantı"@,
{
    let mut s = String::new();
    push_decimal(&mut s, n as u64);
    let ghost digits = s@;
    s.append(" bağlantı");
    proof {
        reveal_strlit("");
    }
    assert(digits =~= decimal(n as nat));
    s
}

// ---------------------------------------------------------------------------
// Sidebar tabs
// ---------------------------------------------------------------------------

/// The tabs the sidebar can hide, in the order their switches stand; the
/// home tab is always shown.
pub open spec fn sidebar_keys() -> Seq<Seq<char>> {
    seq!["kesfet"@, "favs"@, "marathon"@, "history"@, "calendar"@, "news"@, "downloads"@]
}

/// The switches shown for a stored list of visible tabs: a tab's switch is
/// on when the list names it.
pub open spec fn switches_spec(visible: Seq<Seq<char>>) -> Seq<bool> {
    Seq::new(sidebar_keys().len(), |k: int| visible.contains(sidebar_keys()[k]))
}

/// The tabs among the first `n` whose switch is on, in switch order.
pub open spec fn switched_on(switches: Seq<bool>, n: int) -> Seq<Seq<char>>
    decreases n,
{
    if n <= 0 {
        Seq::empty()
    } else {
        switched_on(switches, n - 1) + if n - 1 < switches.len() && switches[n - 1] {
            seq![sidebar_keys()[n - 1]]
        } else {
            Seq::empty()
        }
    }
}

/// The list of visible tabs the switches store: the home tab, then every
/// tab whose switch is on (a switch missing from `switches` counts as off).
pub open spec fn visible_spec(switches: Seq<bool>) -> Seq<Seq<char>> {
    seq!["home"@] + switched_on(switches, sidebar_keys().len() as int)
}

fn sidebar_key_list() -> (v: Vec<&'static str>)
    ensures
        str_views(v@) == sidebar_keys(),
{
    let v = vec!["kesfet", "favs", "marathon", "history", "calendar", "news", "downloads"];
    assert(str_views(v@) =~= sidebar_keys());
    v
}

/// The switches of the sidebar's optional tabs for a stored list of
/// visible tabs.
pub fn sidebar_switches(visible: &Vec<String>) -> (r: Vec<bool>)
    ensures
        r@ == switches_spec(visible@.map_values(|s: String| s@)),
{
    let ghost vis = visible@.map_values(|s: String| s@);
    let keys = sidebar_key_list();
    let mut out: Vec<bool> = Vec::new();
    let mut k: usize = 0;
    while k < keys.len()
        invariant
            str_views(keys@) == sidebar_keys(),
            vis == visible@.map_values(|s: String| s@),
            k <= keys@.len(),
            out@.len() == k,
            forall|m: int| 0 <= m < k ==> out@[m] == vis.contains(sidebar_keys()[m]),
        decreases keys@.len() - k,
    {
        let key = keys[k];
        assert(key@ == sidebar_keys()[k as int]);
        let mut found = false;
        let mut i: usize = 0;
        while i < visible.len()
            invariant
                vis == visible@.map_values(|s: String| s@),
                i <= visible@.len(),
                found == exists|j: int| 0 <= j < i && vis[j] == key@,
            decreases visible@.len() - i,
        {
            if same_text(visible[i].as_str(), key) {
                found = true;
            }
            assert(vis[i as int] == visible@[i as int]@);
            i = i + 1;
        }
        proof {
            if found {
                let j = choose|j: int| 0 <= j < visible@.len() && vis[j] == key@;
                assert(vis.contains(key@));
            } else if vis.contains(key@) {
                let j = choose|j: int| 0 <= j < vis.len() && vis[j] == key@;
                assert(vis[j] == key@);
            }
        }
        out.push(found);
        k = k + 1;
    }
    assert(out@ =~= switches_spec(vis));
    out
}

/// The list of visible tabs the sidebar switches store: "home" first, then
/// each tab whose switch is on, in switch order.
pub fn visible_tabs(switches: &Vec<bool>) -> (r: Vec<String>)
    ensures
        r@.map_values(|s: String| s@) == visible_spec(switches@),
{
    let keys = sidebar_key_list();
    let mut out: Vec<String> = Vec::new();
    out.push(owned("home"));
    let mut k: usize = 0;
    assert(out@.map_values(|s: String| s@) =~= seq!["home"@] + switched_on(switches@, 0));
    while k < keys.len()
        invariant
            str_views(keys@) == sidebar_keys(),
            k <= keys@.len(),
            out@.map_values(|s: String| s@) == seq!["home"@] + switched_on(switches@, k as int),
        decreases keys@.len() - k,
    {
        let ghost before = out@.map_values(|s: String| s@);
        let on = k < switches.len() && switches[k];
        if on {
            out.push(owned(keys[k]));
            assert(keys@[k as int]@ == sidebar_keys()[k as int]);
            assert(out@.map_values(|s: String| s@) =~= before + seq![sidebar_keys()[k as int]]);
        } else {
            assert(out@.map_values(|s: String| s@) =~= before);
        }
        assert(switched_on(switches@, k + 1) == switched_on(switches@, k as int) + if k
            < switches@.len() && switches@[k as int] {
            seq![sidebar_keys()[k as int]]
        } else {
            Seq::<Seq<char>>::empty()
        });
        assert(out@.map_values(|s: String| s@) =~= seq!["home"@] + switched_on(
            switches@,
            k + 1,
        ));
        k = k + 1;
    }
    out
}

// ---------------------------------------------------------------------------
// Laws
// ---------------------------------------------------------------------------

/// No drop-down lists a value twice, and no optional tab is named twice
/// or named "home".
pub proof fn lemma_lists_distinct()
    ensures
        quick_search_choices().no_duplicates(),
        search_choices().no_duplicates(),
        upscale_choices().no_duplicates(),
        connection_choices().no_duplicates(),
        sidebar_keys().no_duplicates(),
        !sidebar_keys().contains("home"@),
{
    reveal_strlit("/");
    reveal_strlit("Ctrl+F");
    reveal_strlit("F3");
    reveal_strlit("Ctrl+K");
    reveal_strlit("Ctrl+S");
    reveal_strlit("F2");
    reveal_strlit("off");
    reveal_strlit("sharp");
    reveal_strlit("hafif");
    reveal_strlit("ultra");
    reveal_strlit("hafif_keskin");
    reveal_strlit("kesfet");
    reveal_strlit("favs");
    reveal_strlit("marathon");
    reveal_strlit("history");
    reveal_strlit("calendar");
    reveal_strlit("news");
    reveal_strlit("downloads");
    reveal_strlit("home");
    let q = quick_search_choices();
    assert forall|i: int, j: int| 0 <= i < q.len() && 0 <= j < q.len() && i != j implies q[i]
        != q[j] by {
        assert(q[i].len() != q[j].len() || q[i][0] != q[j][0] || q[i][q[i].len() - 1]
            != q[j][q[j].len() - 1]);
    }
    let s = search_choices();
    assert forall|i: int, j: int| 0 <= i < s.len() && 0 <= j < s.len() && i != j implies s[i]
        != s[j] by {
        assert(s[i].len() != s[j].len() || s[i][0] != s[j][0] || s[i][s[i].len() - 1]
            != s[j][s[j].len() - 1]);
    }
    let u = upscale_choices();
    assert forall|i: int, j: int| 0 <= i < u.len() && 0 <= j < u.len() && i != j implies u[i]
        != u[j] by {
        assert(u[i].len() != u[j].len() || u[i][0] != u[j][0]);
    }
    let c = connection_choices();
    assert forall|i: int, j: int| 0 <= i < c.len() && 0 <= j < c.len() && i != j implies c[i]
        != c[j] by {}
    let k = sidebar_keys();
    assert forall|i: int, j: int| 0 <= i < k.len() && 0 <= j < k.len() && i != j implies k[i]
        != k[j] by {
        assert(k[i].len() != k[j].len() || k[i][0] != k[j][0]);
    }
    if k.contains("home"@) {
        let i = choose|i: int| 0 <= i < k.len() && k[i] == "home"@;
        assert(k[i].len() != 4 || k[i][0] != 'h');
    }
}

/// A stored value that the drop-down lists, shown and saved again without
/// a change, stays what it was.
pub proof fn lemma_shown_then_saved<T>(choices: Seq<T>, v: T, fallback: int, default: T)
    requires
        choices.contains(v),
    ensures
        choice_at(choices, row_of(choices, v, fallback), default) == v,
{
    choices.index_of_first_ensures(v);
}

/// A picked row, saved and shown again, is the same row: for every list
/// that holds no value twice.
pub proof fn lemma_saved_then_shown<T>(choices: Seq<T>, row: int, fallback: int, default: T)
    requires
        choices.no_duplicates(),
        0 <= row < choices.len(),
    ensures
        row_of(choices, choice_at(choices, row, default), fallback) == row,
{
    let v = choices[row];
    choices.index_of_first_ensures(v);
    assert(choices.contains(v));
}

proof fn lemma_switched_on_contains(switches: Seq<bool>, n: int, x: Seq<char>)
    requires
        0 <= n <= sidebar_keys().len(),
    ensures
        switched_on(switches, n).contains(x) <==> exists|j: int|
            0 <= j < n && j < switches.len() && switches[j] && #[trigger] sidebar_keys()[j] == x,
    decreases n,
{
    if n > 0 {
        lemma_switched_on_contains(switches, n - 1, x);
        let p = switched_on(switches, n - 1);
        let add = if n - 1 < switches.len() && switches[n - 1] {
            seq![sidebar_keys()[n - 1]]
        } else {
            Seq::<Seq<char>>::empty()
        };
        let whole = p + add;
        assert(switched_on(switches, n) == whole);
        if whole.contains(x) {
            let i = choose|i: int| 0 <= i < whole.len() && whole[i] == x;
            if i < p.len() {
                assert(p[i] == x);
                assert(p.contains(x));
            } else {
                assert(add[i - p.len()] == x);
                assert(sidebar_keys()[n - 1] == x);
            }
        }
        if exists|j: int|
            0 <= j < n && j < switches.len() && switches[j] && #[trigger] sidebar_keys()[j] == x {
            let j = choose|j: int|
                0 <= j < n && j < switches.len() && switches[j] && #[trigger] sidebar_keys()[j]
                    == x;
            if j < n - 1 {
                assert(p.contains(x));
                let i = choose|i: int| 0 <= i < p.len() && p[i] == x;
                assert(whole[i] == x);
            } else {
                assert(whole[p.len() as int] == x);
            }
        }
    }
}

/// The switches of the list the switches stored are those switches: the
/// sidebar tabs survive saving and showing again unchanged.
pub proof fn lemma_switches_round_trip(switches: Seq<bool>)
    requires
        switches.len() == sidebar_keys().len(),
    ensures
        switches_spec(visible_spec(switches)) == switches,
        visible_spec(switches)[0] == "home"@,
{
    lemma_lists_distinct();
    let vis = visible_spec(switches);
    let on = switched_on(switches, sidebar_keys().len() as int);
    assert forall|k: int| 0 <= k < sidebar_keys().len() implies #[trigger] vis.contains(
        sidebar_keys()[k],
    ) == switches[k] by {
        let x = sidebar_keys()[k];
        lemma_switched_on_contains(switches, sidebar_keys().len() as int, x);
        assert(x != "home"@) by {
            if x == "home"@ {
                assert(sidebar_keys().contains("home"@));
            }
        }
        if vis.contains(x) {
            let i = choose|i: int| 0 <= i < vis.len() && vis[i] == x;
            assert(i != 0);
            assert(on[i - 1] == x);
            assert(on.contains(x));
            let j = choose|j: int|
                0 <= j < sidebar_keys().len() && j < switches.len() && switches[j]
                    && #[trigger] sidebar_keys()[j] == x;
            assert(j == k);
        }
        if switches[k] {
            assert(on.contains(x));
            let i = choose|i: int| 0 <= i < on.len() && on[i] == x;
            assert(vis[i + 1] == x);
        }
    }
    assert(switches_spec(vis) =~= switches);
}

} // verus!
