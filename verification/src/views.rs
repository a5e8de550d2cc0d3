//! Decisions of the application window that do not need the window: sizes,
//! captions, where `--goto` leads, dates, paging and which fansub to play.

use vstd::prelude::*;
use crate::text::{decimal2, lowercase, owned, push_decimal2, same_text, to_lowercase, trim, trim_str};

verus! {

// ---------------------------------------------------------------------------
// Sizes
// ---------------------------------------------------------------------------

pub open spec fn clamp(x: int, lo: int, hi: int) -> int {
    if x < lo {
        lo
    } else if x > hi {
        hi
    } else {
        x
    }
}

/// The spotlight height: 52% of the window height in steps of 20 pixels,
/// never below the base the column count gives (320 to 420), and within
/// 360 to 560.
pub open spec fn hero_h_spec(win_h: int, cols: int) -> int {
    let from_h = if win_h > 0 {
        (win_h * 13 / 25) / 20 * 20
    } else {
        0
    };
    let from_c = 260 + clamp(cols, 3, 8) * 20;
    clamp(if from_h > from_c { from_h } else { from_c }, 360, 560)
}

/// The spotlight height for a window height and a column count.
pub fn hero_h_for_window(win_h: i32, cols: u32) -> (r: i32)
    ensures
        r == hero_h_spec(win_h as int, cols as int),
        360 <= r <= 560,
{
    let from_h: i64 = if win_h > 0 {
        (win_h as i64) * 13 / 25 / 20 * 20
    } else {
        0
    };
    let c: i64 = if cols < 3 {
        3
    } else if cols > 8 {
        8
    } else {
        cols as i64
    };
    let from_c: i64 = 260 + c * 20;
    let m = if from_h > from_c {
        from_h
    } else {
        from_c
    };
    let r = if m < 360 {
        360
    } else if m > 560 {
        560
    } else {
        m
    };
    r as i32
}

/// The pixel width of a poster grid: 140 per column, 12 between columns.
pub open spec fn grid_width_spec(cols: int) -> int {
    let c = if cols < 1 {
        1
    } else {
        cols
    };
    c * 140 + (c - 1) * 12
}

pub fn grid_width(cols: u32) -> (r: i64)
    ensures
        r == grid_width_spec(cols as int),
{
    let c: i64 = if cols < 1 {
        1
    } else {
        cols as i64
    };
    c * 140 + (c - 1) * 12
}

// ---------------------------------------------------------------------------
// The sidebar
// ---------------------------------------------------------------------------

/// The entries of the sidebar.
#[derive(Clone, Copy, Debug, PartialEq, Eq, Structural)]
pub enum SidebarId {
    Home,
    Kesfet,
    Favs,
    Marathon,
    History,
    Calendar,
    News,
    Login,
    Collapse,
}

pub open spec fn dock_caption_spec(id: SidebarId) -> Option<Seq<char>> {
    match id {
        SidebarId::Home => Some("Ana Sayfa"@),
        SidebarId::Kesfet => Some("Keşfet"@),
        SidebarId::Favs => Some("Favori"@),
        SidebarId::Marathon => Some("Maraton"@),
        SidebarId::History => Some("Geçmiş"@),
        SidebarId::Calendar => Some("Takvim"@),
        SidebarId::News => Some("Haber"@),
        _ => None,
    }
}

/// The short caption an entry shows when the sidebar is collapsed to a
/// dock; the account and collapse entries show none.
pub fn dock_caption(id: SidebarId) -> (r: Option<&'static str>)
    ensures
        match r {
            Some(s) => dock_caption_spec(id) == Some(s@),
            None => dock_caption_spec(id) is None,
        },
{
    match id {
        SidebarId::Home => Some("Ana Sayfa"),
        SidebarId::Kesfet => Some("Keşfet"),
        SidebarId::Favs => Some("Favori"),
        SidebarId::Marathon => Some("Maraton"),
        SidebarId::History => Some("Geçmiş"),
        SidebarId::Calendar => Some("Takvim"),
        SidebarId::News => Some("Haber"),
        _ => None,
    }
}

// ---------------------------------------------------------------------------
// Starting on a page
// ---------------------------------------------------------------------------

/// The pages `--goto` can open.
#[derive(Clone, Copy, Debug, PartialEq, Eq, Structural)]
pub enum GotoPage {
    Welcome,
    Home,
    Favorites,
    Marathon,
    History,
    Calendar,
    News,
    Settings,
    Account,
    Kesfet,
    /// The home page with the search popup open.
    Search,
    /// The home page, then the episodes of the first title shown.
    Episodes,
}

pub open spec fn goto_spec(val: Seq<char>) -> Option<GotoPage> {
    if val == "welcome"@ {
        Some(GotoPage::Welcome)
    } else if val == "home"@ {
        Some(GotoPage::Home)
    } else if val == "favorites"@ {
        Some(GotoPage::Favorites)
    } else if val == "marathon"@ {
        Some(GotoPage::Marathon)
    } else if val == "history"@ {
        Some(GotoPage::History)
    } else if val == "calendar"@ {
        Some(GotoPage::Calendar)
    } else if val == "news"@ {
        Some(GotoPage::News)
    } else if val == "settings"@ {
        Some(GotoPage::Settings)
    } else if val == "account"@ {
        Some(GotoPage::Account)
    } else if val == "kesfet"@ {
        Some(GotoPage::Kesfet)
    } else if val == "search"@ {
        Some(GotoPage::Search)
    } else if val == "episodes"@ {
        Some(GotoPage::Episodes)
    } else {
        None
    }
}

/// The page a `--goto` value names; other values open nothing.
pub fn goto_page(val: &str) -> (r: Option<GotoPage>)
    ensures
        r == goto_spec(val@),
{
    if same_text(val, "welcome") {
        Some(GotoPage::Welcome)
    } else if same_text(val, "home") {
        Some(GotoPage::Home)
    } else if same_text(val, "favorites") {
        Some(GotoPage::Favorites)
    } else if same_text(val, "marathon") {
        Some(GotoPage::Marathon)
    } else if same_text(val, "history") {
        Some(GotoPage::History)
    } else if same_text(val, "calendar") {
        Some(GotoPage::Calendar)
    } else if same_text(val, "news") {
        Some(GotoPage::News)
    } else if same_text(val, "settings") {
        Some(GotoPage::Settings)
    } else if same_text(val, "account") {
        Some(GotoPage::Account)
    } else if same_text(val, "kesfet") {
        Some(GotoPage::Kesfet)
    } else if same_text(val, "search") {
        Some(GotoPage::Search)
    } else if same_text(val, "episodes") {
        Some(GotoPage::Episodes)
    } else {
        None
    }
}

/// The values following each `--goto` in the arguments, in order; a value
/// is not itself read as an option, and a trailing `--goto` has none.
pub open spec fn goto_values(args: Seq<Seq<char>>) -> Seq<Seq<char>>
    decreases args.len(),
{
    if args.len() == 0 {
        Seq::empty()
    } else if args[0] == "--goto"@ {
        if args.len() >= 2 {
            seq![args[1]] + goto_values(args.skip(2))
        } else {
            Seq::empty()
        }
    } else {
        goto_values(args.skip(1))
    }
}

pub open spec fn string_views(v: Seq<String>) -> Seq<Seq<char>> {
    v.map_values(|s: String| s@)
}

/// Reads the `--goto` values of the command line.
pub fn goto_args(args: &Vec<String>) -> (r: Vec<String>)
    ensures
        string_views(r@) == goto_values(string_views(args@)),
{
    let ghost views = string_views(args@);
    let mut out: Vec<String> = Vec::new();
    let mut i: usize = 0;
    assert(views.skip(0) =~= views);
    while i < args.len()
        invariant
            views == string_views(args@),
            i <= args@.len(),
            string_views(out@) + goto_values(views.skip(i as int)) == goto_values(views),
        decreases args@.len() - i,
    {
        let ghost rest = views.skip(i as int);
        assert(rest[0] == args@[i as int]@);
        if same_text(args[i].as_str(), "--goto") {
            if i + 1 < args.len() {
                let ghost before = string_views(out@);
                out.push(args[i + 1].clone());
                assert(string_views(out@) =~= before.push(args@[i + 1]@));
                assert(rest.skip(2) =~= views.skip(i + 2));
                assert(rest[1] == args@[i + 1]@);
                assert(before.push(args@[i + 1]@) + goto_values(views.skip(i + 2)) =~= before + (
                seq![rest[1]] + goto_values(rest.skip(2))));
                i = i + 2;
            } else {
                assert(goto_values(rest) == Seq::<Seq<char>>::empty());
                assert(string_views(out@) + Seq::<Seq<char>>::empty() =~= string_views(out@));
                i = i + 1;
                assert(views.skip(i as int) =~= Seq::<Seq<char>>::empty());
            }
        } else {
            assert(rest.skip(1) =~= views.skip(i + 1));
            i = i + 1;
        }
    }
    assert(views.skip(args@.len() as int) =~= Seq::<Seq<char>>::empty());
    assert(string_views(out@) + Seq::<Seq<char>>::empty() =~= string_views(out@));
    out
}

// ---------------------------------------------------------------------------
// Dates
// ---------------------------------------------------------------------------

pub open spec fn is_leap(y: int) -> bool {
    (y % 4 == 0 && y % 100 != 0) || y % 400 == 0
}

pub open spec fn year_days(y: int) -> int {
    if is_leap(y) {
        366
    } else {
        365
    }
}

/// The year and the day within it of the `d`-th day counted from the first
/// day of year `y`.
pub open spec fn year_and_day(y: int, d: int) -> (int, int)
    decreases d,
{
    if d < year_days(y) {
        (y, d)
    } else {
        year_and_day(y + 1, d - year_days(y))
    }
}

pub open spec fn month_days(leap: bool, m: int) -> int {
    if m == 1 {
        if leap {
            29
        } else {
            28
        }
    } else if m == 3 || m == 5 || m == 8 || m == 10 {
        30
    } else {
        31
    }
}

/// The month (from zero) and the day within it of day `d` of a year,
/// counting from month `m`.
pub open spec fn month_and_day(leap: bool, m: int, d: int) -> (int, int)
    decreases 12 - m,
{
    if m < 12 && d >= month_days(leap, m) {
        month_and_day(leap, m + 1, d - month_days(leap, m))
    } else {
        (m, d)
    }
}

/// `DD.MM` of a moment given in milliseconds since 1970 (UTC).
pub open spec fn day_month_spec(ms: u64) -> Seq<char> {
    let (y, d) = year_and_day(1970, (ms / 86_400_000) as int);
    let (m, dd) = month_and_day(is_leap(y), 0, d);
    decimal2((dd + 1) as nat) + seq!['.'] + decimal2((m + 1) as nat)
}

fn year_len(y: u64) -> (r: u64)
    ensures
        r == year_days(y as int),
{
    if (y % 4 == 0 && y % 100 != 0) || y % 400 == 0 {
        366
    } else {
        365
    }
}

fn month_len(leap: bool, m: u64) -> (r: u64)
    ensures
        r == month_days(leap, m as int),
{
    if m == 1 {
        if leap {
            29
        } else {
            28
        }
    } else if m == 3 || m == 5 || m == 8 || m == 10 {
        30
    } else {
        31
    }
}

/// The day and month of a moment, as shown on calendar entries.
pub fn fmt_day_month(ms: u64) -> (r: String)
    ensures
        r@ == day_month_spec(ms),
{
    let days: u64 = ms / 86_400_000;
    let mut y: u64 = 1970;
    let mut d: u64 = days;
    while d >= year_len(y)
        invariant
            1970 <= y <= 1970 + days - d,
            d <= days,
            days == ms / 86_400_000,
            year_and_day(1970, days as int) == year_and_day(y as int, d as int),
        decreases d,
    {
        let yd = year_len(y);
        d = d - yd;
        y = y + 1;
    }
    let leap = (y % 4 == 0 && y % 100 != 0) || y % 400 == 0;
    assert(year_and_day(y as int, d as int) == (y as int, d as int));
    assert(leap == is_leap(y as int));
    let ghost d0 = d;
    let mut m: u64 = 0;
    while m < 12 && d >= month_len(leap, m)
        invariant
            m <= 12,
            d <= d0,
            d0 < 366,
            month_and_day(leap, 0, d0 as int) == month_and_day(leap, m as int, d as int),
        decreases 12 - m,
    {
        let md = month_len(leap, m);
        d = d - md;
        m = m + 1;
    }
    assert(month_and_day(leap, m as int, d as int) == (m as int, d as int));
    let mut s = String::new();
    push_decimal2(&mut s, d + 1);
    crate::text::push_char(&mut s, '.');
    push_decimal2(&mut s, m + 1);
    s
}

// ---------------------------------------------------------------------------
// Crew roles
// ---------------------------------------------------------------------------

/// The Turkish name of a crew department; anything else is the crew.
pub open spec fn known_for_spec(s: Seq<char>) -> Seq<char> {
    let k = lowercase(trim(s));
    if k == "acting"@ {
        "Oyunculuk"@
    } else if k == "directing"@ {
        "Yönetmenlik"@
    } else if k == "writing"@ {
        "Senaryo"@
    } else if k == "production"@ {
        "Yapım"@
    } else if k == "sound"@ {
        "Ses · Müzik"@
    } else if k == "music"@ {
        "Müzik"@
    } else if k == "camera"@ {
        "Kamera"@
    } else if k == "art"@ {
        "Sanat"@
    } else if k == "editing"@ {
        "Kurgu"@
    } else if k == "costume & make-up"@ || k == "costume"@ {
        "Kostüm"@
    } else if k == "visual effects"@ {
        "Görsel Efekt"@
    } else {
        "Ekip"@
    }
}

pub fn tr_known_for(s: &str) -> (r: &'static str)
    ensures
        r@ == known_for_spec(s@),
{
    let t = trim_str(s);
    let k = to_lowercase(t.as_str());
    let k = k.as_str();
    if same_text(k, "acting") {
        "Oyunculuk"
    } else if same_text(k, "directing") {
        "Yönetmenlik"
    } else if same_text(k, "writing") {
        "Senaryo"
    } else if same_text(k, "production") {
        "Yapım"
    } else if same_text(k, "sound") {
        "Ses · Müzik"
    } else if same_text(k, "music") {
        "Müzik"
    } else if same_text(k, "camera") {
        "Kamera"
    } else if same_text(k, "art") {
        "Sanat"
    } else if same_text(k, "editing") {
        "Kurgu"
    } else if same_text(k, "costume & make-up") || same_text(k, "costume") {
        "Kostüm"
    } else if same_text(k, "visual effects") {
        "Görsel Efekt"
    } else {
        "Ekip"
    }
}


// ---------------------------------------------------------------------------
// Paged lists
// ---------------------------------------------------------------------------

/// A page of a paged list arrived: the first page replaces the list, later
/// pages are appended.
pub fn apply_page<T>(cur: &mut Vec<T>, page: u32, items: Vec<T>)
    ensures
        final(cur)@ == if page <= 1 {
            items@
        } else {
            old(cur)@ + items@
        },
{
    let mut items = items;
    if page <= 1 {
        *cur = items;
    } else {
        cur.append(&mut items);
    }
}

/// The last page of a pool of continue entries shown ten at a time.
pub open spec fn last_page_spec(pool: nat) -> nat {
    if pool == 0 {
        0
    } else {
        ((pool - 1) / 10) as nat
    }
}

/// The continue page to show after growing the pool failed: the current
/// one, or the last that still has entries.
pub fn clamp_cont_page(page: u32, pool: usize) -> (r: u32)
    ensures
        r == if page > last_page_spec(pool as nat) {
            last_page_spec(pool as nat)
        } else {
            page as nat
        },
{
    let maxp: usize = if pool == 0 {
        0
    } else {
        (pool - 1) / 10
    };
    if page as usize > maxp {
        maxp as u32
    } else {
        page
    }
}

/// Whether the previous and next page buttons of a pager are enabled.
pub fn pager_buttons(page: u32, pages: u32) -> (r: (bool, bool))
    ensures
        r == (page > 0, page + 1 < pages),
{
    (page > 0, page < pages && pages - page > 1)
}

/// The selected calendar day after new days arrived: back to the first
/// when it fell outside them.
pub fn calendar_selection(sel: u32, days: usize) -> (r: u32)
    ensures
        r == if days > 0 && sel >= days {
            0
        } else {
            sel
        },
{
    if days > 0 && sel as usize >= days {
        0
    } else {
        sel
    }
}

/// The title type a discover filter asks for: series, movies, or all.
pub open spec fn discover_type_spec(t: u32) -> Option<Seq<char>> {
    if t == 1 {
        Some("series"@)
    } else if t == 2 {
        Some("movie"@)
    } else {
        None
    }
}

pub fn discover_type(t: u32) -> (r: Option<String>)
    ensures
        match r {
            Some(s) => discover_type_spec(t) == Some(s@),
            None => discover_type_spec(t) is None,
        },
{
    if t == 1 {
        Some(owned("series"))
    } else if t == 2 {
        Some(owned("movie"))
    } else {
        None
    }
}

// ---------------------------------------------------------------------------
// Messages and choices
// ---------------------------------------------------------------------------

/// The greeting after signing in, with the number of favourites taken
/// from the site when there were any.
pub open spec fn welcome_spec(name: Seq<char>, n_fav: u64) -> Seq<char> {
    if n_fav > 0 {
        "Hoş geldin, "@ + name + "! (siteden "@ + crate::text::decimal(n_fav as nat)
            + " favori alındı)"@
    } else {
        "Hoş geldin, "@ + name + "!"@
    }
}

pub fn welcome_message(name: &str, n_fav: u64) -> (r: String)
    ensures
        r@ == welcome_spec(name@, n_fav),
{
    let mut s = owned("Hoş geldin, ");
    s.append(name);
    if n_fav > 0 {
        s.append("! (siteden ");
        crate::text::push_decimal(&mut s, n_fav);
        s.append(" favori alındı)");
    } else {
        s.append("!");
    }
    s
}

/// A title opens as a movie page when it has no episodes or is a movie.
pub open spec fn movie_page_spec(no_episodes: bool, title_type: Option<Seq<char>>) -> bool {
    no_episodes || title_type == Some("movie"@)
}

pub fn opens_as_movie(no_episodes: bool, title_type: Option<&str>) -> (r: bool)
    ensures
        r == movie_page_spec(
            no_episodes,
            match title_type {
                Some(t) => Some(t@),
                None => None,
            },
        ),
{
    no_episodes || match title_type {
        Some(t) => same_text(t, "movie"),
        None => false,
    }
}

/// How the fansub of an episode is chosen.
#[derive(Clone, Copy, Debug, PartialEq, Eq, Structural)]
pub enum FansubChoice {
    /// No fansub: resolve the episode's own sources.
    Sources,
    /// Play the fansub at this index.
    Use(usize),
    /// Ask the user.
    Ask,
}

/// The first index holding `t`.
pub open spec fn first_with(ts: Seq<i64>, t: i64) -> Option<int>
    decreases ts.len(),
{
    if ts.len() == 0 {
        None
    } else if ts[0] == t {
        Some(0)
    } else {
        match first_with(ts.drop_first(), t) {
            Some(i) => Some(i + 1),
            None => None,
        }
    }
}

/// With no fansubs the episode's own sources play; the default fansub
/// plays when it is offered; a single fansub plays; the first (best rated)
/// plays unless the user wants to be asked.
pub open spec fn fansub_choice_spec(templates: Seq<i64>, default: Option<i64>, ask: bool) -> FansubChoice {
    if templates.len() == 0 {
        FansubChoice::Sources
    } else if default is Some && first_with(templates, default->0) is Some {
        FansubChoice::Use(first_with(templates, default->0)->0 as usize)
    } else if templates.len() == 1 || !ask {
        FansubChoice::Use(0)
    } else {
        FansubChoice::Ask
    }
}

proof fn lemma_first_with_at(ts: Seq<i64>, t: i64, i: int)
    requires
        0 <= i <= ts.len(),
        forall|k: int| 0 <= k < i ==> ts[k] != t,
        i < ts.len() ==> ts[i] == t,
    ensures
        first_with(ts, t) == if i < ts.len() {
            Some(i)
        } else {
            None::<int>
        },
    decreases i,
{
    if i > 0 {
        lemma_first_with_at(ts.drop_first(), t, i - 1);
    }
}

/// The error shown when none of a fansub's mirrors could be resolved.
pub fn fansub_failed(fansub: &str, err: &str) -> (r: String)
    ensures
        r@ == fansub@ + " çevirisi oynatılamadı ("@ + err@ + "). Başka bir çeviri seçin."@,
{
    let mut s = owned(fansub);
    s.append(" çevirisi oynatılamadı (");
    s.append(err);
    s.append("). Başka bir çeviri seçin.");
    s
}

/// The toast shown while a title's sources are resolved.
pub fn preparing_toast(title: &str) -> (r: String)
    ensures
        r@ == "🎬 "@ + title@ + " hazırlanıyor…"@,
{
    let mut s = owned("🎬 ");
    s.append(title);
    s.append(" hazırlanıyor…");
    s
}

/// Chooses the fansub of an episode from the template ids of the offered
/// fansubs (best first), the default template and whether to ask.
pub fn choose_fansub(templates: &[i64], default: Option<i64>, ask: bool) -> (r: FansubChoice)
    ensures
        r == fansub_choice_spec(templates@, default, ask),
        r matches FansubChoice::Use(i) ==> i < templates@.len(),
{
    if templates.len() == 0 {
        return FansubChoice::Sources;
    }
    if let Some(t) = default {
        let mut i: usize = 0;
        while i < templates.len()
            invariant
                default == Some(t),
                templates@.len() > 0,
                i <= templates@.len(),
                forall|k: int| 0 <= k < i ==> templates@[k] != t,
            decreases templates@.len() - i,
        {
            if templates[i] == t {
                proof {
                    lemma_first_with_at(templates@, t, i as int);
                    assert(default->0 == t);
                    assert(first_with(templates@, t)->0 as usize == i);
                }
                return FansubChoice::Use(i);
            }
            i = i + 1;
        }
        proof {
            lemma_first_with_at(templates@, t, templates@.len() as int);
        }
    }
    if templates.len() == 1 || !ask {
        FansubChoice::Use(0)
    } else {
        FansubChoice::Ask
    }
}

/// The episode list kept for the player is replaced when episodes arrived
/// or when it belonged to another title.
pub fn replaces_episode_list(has_episodes: bool, listed_title: u64, title: u64) -> (r: bool)
    ensures
        r == (has_episodes || listed_title != title),
{
    has_episodes || listed_title != title
}

/// The episodes that have fansubs to download, in order.
pub open spec fn with_fansubs<E, F>(items: Seq<(E, Vec<F>)>) -> Seq<(E, Vec<F>)> {
    items.filter(|x: (E, Vec<F>)| x.1@.len() > 0)
}

/// Keeps the episodes that have fansubs.
pub fn keep_with_fansubs<E, F>(items: Vec<(E, Vec<F>)>) -> (r: Vec<(E, Vec<F>)>)
    ensures
        r@ == with_fansubs(items@),
{
    let ghost all = items@;
    let mut rest = items;
    let mut out: Vec<(E, Vec<F>)> = Vec::new();
    let ghost mut done: int = 0;
    assert(all.skip(0) =~= all);
    assert(all.take(0).filter(|x: (E, Vec<F>)| x.1@.len() > 0) =~= Seq::<(E, Vec<F>)>::empty());
    while rest.len() > 0
        invariant
            0 <= done <= all.len(),
            rest@ == all.skip(done),
            out@ == all.take(done).filter(|x: (E, Vec<F>)| x.1@.len() > 0),
        decreases rest@.len(),
    {
        let x = rest.remove(0);
        assert(x == all[done]);
        proof {
            reveal(Seq::filter);
            assert(all.take(done + 1).drop_last() =~= all.take(done));
            assert(all.take(done + 1).last() == x);
        }
        if x.1.len() > 0 {
            out.push(x);
        }
        proof {
            done = done + 1;
        }
    }
    assert(all.take(done) =~= all);
    out
}

/// Each episode with its first (best) fansub, when the user is not asked.
pub fn first_fansubs<E, F>(items: Vec<(E, Vec<F>)>) -> (r: Vec<(E, F)>)
    requires
        forall|i: int| 0 <= i < items@.len() ==> (#[trigger] items@[i]).1@.len() > 0,
    ensures
        r@.len() == items@.len(),
        forall|i: int|
            0 <= i < items@.len() ==> (#[trigger] r@[i]).0 == items@[i].0 && r@[i].1
                == items@[i].1@[0],
{
    let ghost all = items@;
    let mut rest = items;
    let mut out: Vec<(E, F)> = Vec::new();
    let ghost mut done: int = 0;
    while rest.len() > 0
        invariant
            0 <= done <= all.len(),
            rest@ == all.skip(done),
            out@.len() == done,
            forall|i: int| 0 <= i < all.len() ==> (#[trigger] all[i]).1@.len() > 0,
            forall|i: int|
                0 <= i < done ==> (#[trigger] out@[i]).0 == all[i].0 && out@[i].1 == all[i].1@[0],
        decreases rest@.len(),
    {
        let (e, mut l) = rest.remove(0);
        assert(all[done] == (e, l));
        let f = l.remove(0);
        out.push((e, f));
        proof {
            done = done + 1;
        }
    }
    out
}


// ---------------------------------------------------------------------------
// History and episode lists
// ---------------------------------------------------------------------------

/// The line under a history card: the last episode (`S01E02`) when known,
/// then the day it was watched, joined by ` · `.
pub open spec fn history_subtitle_spec(season: u64, episode: u64, date_ms: u64) -> Seq<char> {
    let ep: Seq<char> = if season > 0 && episode > 0 {
        seq!['S'] + decimal2(season as nat) + seq!['E'] + decimal2(episode as nat)
    } else {
        Seq::empty()
    };
    if date_ms > 0 {
        ep + (if ep.len() > 0 {
            " · "@
        } else {
            Seq::empty()
        }) + day_month_spec(date_ms)
    } else {
        ep
    }
}

pub fn history_subtitle(season: u64, episode: u64, date_ms: u64) -> (r: String)
    ensures
        r@ == history_subtitle_spec(season, episode, date_ms),
{
    let mut s = String::new();
    if season > 0 && episode > 0 {
        crate::text::push_char(&mut s, 'S');
        push_decimal2(&mut s, season);
        crate::text::push_char(&mut s, 'E');
        push_decimal2(&mut s, episode);
    }
    if date_ms > 0 {
        if s.unicode_len() > 0 {
            s.append(" · ");
        }
        let d = fmt_day_month(date_ms);
        s.append(d.as_str());
    }
    proof {
        reveal_strlit("");
    }
    assert(s@ =~= history_subtitle_spec(season, episode, date_ms));
    s
}

/// The line under a continue card: the episode to resume (`S01E02`) when
/// it is known, then the first of the title's genres, joined by ` · `; a
/// single space when there is neither, so that every card keeps the line.
pub open spec fn continue_meta_spec(ep: Option<(u64, u64)>, genres: Option<Seq<char>>) -> Seq<char> {
    let e: Seq<char> = match ep {
        Some((s, n)) => if s > 0 && n > 0 {
            seq!['S'] + decimal2(s as nat) + seq!['E'] + decimal2(n as nat)
        } else {
            Seq::empty()
        },
        None => Seq::empty(),
    };
    let line = match genres {
        Some(g) => e + (if e.len() > 0 {
            " · "@
        } else {
            Seq::empty()
        }) + crate::text::before_first(g, "  •  "@),
        None => e,
    };
    if line.len() == 0 {
        seq![' ']
    } else {
        line
    }
}

pub fn continue_meta(ep: Option<(u64, u64)>, genres: Option<&str>) -> (r: String)
    ensures
        r@ == continue_meta_spec(
            ep,
            match genres {
                Some(g) => Some(g@),
                None => None,
            },
        ),
{
    let mut s = String::new();
    if let Some((season, episode)) = ep {
        if season > 0 && episode > 0 {
            crate::text::push_char(&mut s, 'S');
            push_decimal2(&mut s, season);
            crate::text::push_char(&mut s, 'E');
            push_decimal2(&mut s, episode);
        }
    }
    if let Some(g) = genres {
        let gc = crate::text::chars_of(g);
        let sep = crate::text::chars_of("  •  ");
        let first = crate::text::text_before(gc.as_slice(), sep.as_slice());
        if s.unicode_len() > 0 {
            s.append(" · ");
        }
        crate::text::push_chars(&mut s, first.as_slice());
    }
    proof {
        reveal_strlit("");
    }
    if s.unicode_len() == 0 {
        crate::text::push_char(&mut s, ' ');
    }
    assert(s@ =~= continue_meta_spec(
        ep,
        match genres {
            Some(g) => Some(g@),
            None => None,
        },
    ));
    s
}

/// The icon and hint of a card's marathon button, for a title in the
/// marathon or not.
pub fn marathon_badge(member: bool) -> (r: (&'static str, &'static str))
    ensures
        r.0@ == if member {
            "object-select-symbolic"@
        } else {
            "list-add-symbolic"@
        },
        r.1@ == if member {
            "Maratonda ✓ (çıkarmak için tıkla)"@
        } else {
            "Maratona ekle"@
        },
{
    if member {
        ("object-select-symbolic", "Maratonda ✓ (çıkarmak için tıkla)")
    } else {
        ("list-add-symbolic", "Maratona ekle")
    }
}

/// The line under a title watched on this device: season and episode
/// with two digits, then the episode's name.
pub open spec fn local_history_line_spec(season: u64, episode: u64, name: Seq<char>) -> Seq<char> {
    seq!['S'] + decimal2(season as nat) + " E"@ + decimal2(episode as nat) + " · "@ + name
}

pub fn local_history_line(season: u64, episode: u64, name: &str) -> (r: String)
    ensures
        r@ == local_history_line_spec(season, episode, name@),
{
    let mut s = String::new();
    crate::text::push_char(&mut s, 'S');
    push_decimal2(&mut s, season);
    s.append(" E");
    push_decimal2(&mut s, episode);
    s.append(" · ");
    s.append(name);
    proof {
        reveal_strlit("");
    }
    assert(s@ =~= local_history_line_spec(season, episode, name@));
    s
}

/// Every title but `tid`.
pub open spec fn other_than(tid: u64) -> spec_fn(u64) -> bool {
    |x: u64| x != tid
}

/// The titles ticked for deletion after a row's box was ticked or
/// unticked: a ticked title is added once, at the end; an unticked one is
/// removed wherever it stands.
pub open spec fn ticked_spec(ids: Seq<u64>, tid: u64, active: bool) -> Seq<u64> {
    if active {
        if ids.contains(tid) {
            ids
        } else {
            ids.push(tid)
        }
    } else {
        ids.filter(other_than(tid))
    }
}

pub fn tick(ids: &mut Vec<u64>, tid: u64, active: bool)
    ensures
        final(ids)@ == ticked_spec(old(ids)@, tid, active),
{
    let ghost start = ids@;
    let mut found = false;
    let mut i: usize = 0;
    while i < ids.len()
        invariant
            ids@ == start,
            i <= ids@.len(),
            found == exists|j: int| 0 <= j < i && ids@[j] == tid,
        decreases ids@.len() - i,
    {
        if ids[i] == tid {
            found = true;
        }
        i = i + 1;
    }
    proof {
        if found {
            let j = choose|j: int| 0 <= j < start.len() && start[j] == tid;
            assert(start.contains(tid));
        } else if start.contains(tid) {
            let j = choose|j: int| 0 <= j < start.len() && start[j] == tid;
            assert(start[j] == tid);
        }
    }
    if active {
        if !found {
            ids.push(tid);
        }
        return;
    }
    let mut kept: Vec<u64> = Vec::new();
    let mut k: usize = 0;
    assert(start.take(0) =~= Seq::<u64>::empty());
    while k < ids.len()
        invariant
            ids@ == start,
            k <= ids@.len(),
            kept@ == start.take(k as int).filter(other_than(tid)),
        decreases ids@.len() - k,
    {
        proof {
            reveal(Seq::filter);
        }
        assert(start.take(k + 1).drop_last() =~= start.take(k as int));
        assert(start.take(k + 1).last() == start[k as int]);
        if ids[k] != tid {
            kept.push(ids[k]);
        }
        k = k + 1;
    }
    assert(start.take(start.len() as int) =~= start);
    *ids = kept;
}

proof fn lemma_filter_keeps_all(s: Seq<u64>, tid: u64)
    requires
        !s.contains(tid),
    ensures
        s.filter(other_than(tid)) == s,
    decreases s.len(),
{
    reveal(Seq::filter);
    if s.len() > 0 {
        let init = s.drop_last();
        assert(!init.contains(tid)) by {
            if init.contains(tid) {
                let j = choose|j: int| 0 <= j < init.len() && init[j] == tid;
                assert(s[j] == tid);
            }
        }
        lemma_filter_keeps_all(init, tid);
        assert(s.last() != tid) by {
            assert(s[s.len() - 1] == s.last());
        }
        assert(init.push(s.last()) =~= s);
    }
}

proof fn lemma_filter_distinct(s: Seq<u64>, tid: u64)
    requires
        s.no_duplicates(),
    ensures
        s.filter(other_than(tid)).no_duplicates(),
        !s.filter(other_than(tid)).contains(tid),
        forall|x: u64| #[trigger] s.filter(other_than(tid)).contains(x) ==> s.contains(x),
    decreases s.len(),
{
    reveal(Seq::filter);
    let pred = other_than(tid);
    if s.len() > 0 {
        let init = s.drop_last();
        assert(init.no_duplicates());
        lemma_filter_distinct(init, tid);
        let f = init.filter(pred);
        assert(s.filter(pred) == if pred(s.last()) {
            f.push(s.last())
        } else {
            f
        });
        assert forall|x: u64| #[trigger] f.contains(x) implies init.contains(x) by {}
        if pred(s.last()) {
            assert(!f.contains(s.last())) by {
                if f.contains(s.last()) {
                    assert(init.contains(s.last()));
                    let j = choose|j: int| 0 <= j < init.len() && init[j] == s.last();
                    assert(s[j] == s[s.len() - 1]);
                }
            }
            let g = f.push(s.last());
            assert forall|i: int, j: int| 0 <= i < g.len() && 0 <= j < g.len() && i != j implies g[i]
                != g[j] by {
                if i < f.len() && j < f.len() {
                } else if i < f.len() {
                    assert(f.contains(g[i]));
                } else {
                    assert(f.contains(g[j]));
                }
            }
            assert forall|x: u64| #[trigger] g.contains(x) implies s.contains(x) by {
                let i = choose|i: int| 0 <= i < g.len() && g[i] == x;
                if i < f.len() {
                    assert(f.contains(x));
                    let j = choose|j: int| 0 <= j < init.len() && init[j] == x;
                    assert(s[j] == x);
                } else {
                    assert(s[s.len() - 1] == x);
                }
            }
            assert(!g.contains(tid)) by {
                if g.contains(tid) {
                    let i = choose|i: int| 0 <= i < g.len() && g[i] == tid;
                    if i < f.len() {
                        assert(f.contains(tid));
                    }
                }
            }
        } else {
            assert forall|x: u64| #[trigger] f.contains(x) implies s.contains(x) by {
                let j = choose|j: int| 0 <= j < init.len() && init[j] == x;
                assert(s[j] == x);
            }
        }
    }
}

/// Unticking a title that was just ticked gives back the selection as it
/// was before.
pub proof fn lemma_untick_undoes_tick(ids: Seq<u64>, tid: u64)
    requires
        !ids.contains(tid),
    ensures
        ticked_spec(ticked_spec(ids, tid, true), tid, false) == ids,
{
    reveal(Seq::filter);
    let pushed = ids.push(tid);
    assert(pushed.drop_last() =~= ids);
    lemma_filter_keeps_all(ids, tid);
}

/// Ticking and unticking never put a title in the selection twice; a
/// ticked title is in it and an unticked one is not.
pub proof fn lemma_ticks_keep_distinct(ids: Seq<u64>, tid: u64, active: bool)
    requires
        ids.no_duplicates(),
    ensures
        ticked_spec(ids, tid, active).no_duplicates(),
        ticked_spec(ids, tid, active).contains(tid) == active,
{
    if active {
        if !ids.contains(tid) {
            let g = ids.push(tid);
            assert forall|i: int, j: int| 0 <= i < g.len() && 0 <= j < g.len() && i != j implies g[i]
                != g[j] by {
                if i == ids.len() {
                    assert(ids.contains(g[j]));
                } else if j == ids.len() {
                    assert(ids.contains(g[i]));
                }
            }
            assert(g[ids.len() as int] == tid);
        }
    } else {
        lemma_filter_distinct(ids, tid);
    }
}

/// The delete button of the local history: its text counts the ticked
/// titles, and it is enabled when one is ticked.
pub fn delete_button(count: u64) -> (r: (String, bool))
    ensures
        r.0@ == "Seçilenleri Sil ("@ + crate::text::decimal(count as nat) + ")"@,
        r.1 == (count > 0),
{
    let mut s = owned("Seçilenleri Sil (");
    crate::text::push_decimal(&mut s, count);
    s.append(")");
    (s, count > 0)
}

/// The grid cell (column, row) of the `i`-th card with `cols` columns (at
/// least one).
pub fn grid_cell(i: u32, cols: u32) -> (r: (u32, u32))
    ensures
        r.0 == i % (if cols < 1 {
            1
        } else {
            cols
        }),
        r.1 == i / (if cols < 1 {
            1
        } else {
            cols
        }),
{
    let c = if cols < 1 {
        1
    } else {
        cols
    };
    (i % c, i / c)
}

/// The "show more" button of a list that is not complete yet.
pub open spec fn more_label_spec(shown: u64, total: u64) -> Option<Seq<char>> {
    if total > shown {
        Some(
            "Daha Fazla Göster ("@ + crate::text::decimal(shown as nat) + " / "@
                + crate::text::decimal(total as nat) + ")"@,
        )
    } else {
        None
    }
}

pub fn more_label(shown: u64, total: u64) -> (r: Option<String>)
    ensures
        match r {
            Some(s) => more_label_spec(shown, total) == Some(s@),
            None => more_label_spec(shown, total) is None,
        },
{
    if total > shown {
        let mut s = owned("Daha Fazla Göster (");
        crate::text::push_decimal(&mut s, shown);
        s.append(" / ");
        crate::text::push_decimal(&mut s, total);
        s.append(")");
        Some(s)
    } else {
        None
    }
}

/// The index of the first episode `(season, episode)` in the list.
pub open spec fn episode_index(eps: Seq<(u64, u64)>, season: u64, episode: u64) -> Option<int>
    decreases eps.len(),
{
    if eps.len() == 0 {
        None
    } else if eps[0] == (season, episode) {
        Some(0)
    } else {
        match episode_index(eps.drop_first(), season, episode) {
            Some(i) => Some(i + 1),
            None => None,
        }
    }
}

proof fn lemma_episode_index_at(eps: Seq<(u64, u64)>, season: u64, episode: u64, i: int)
    requires
        0 <= i <= eps.len(),
        forall|k: int| 0 <= k < i ==> eps[k] != (season, episode),
        i < eps.len() ==> eps[i] == (season, episode),
    ensures
        episode_index(eps, season, episode) == if i < eps.len() {
            Some(i)
        } else {
            None::<int>
        },
    decreases i,
{
    if i > 0 {
        lemma_episode_index_at(eps.drop_first(), season, episode, i - 1);
    }
}

/// The episodes before and after the one being opened, as indexes into the
/// list of `(season, episode)`; none when it is not listed.
pub fn neighbours(eps: &[(u64, u64)], season: u64, episode: u64) -> (r: (Option<usize>, Option<usize>))
    ensures
        match episode_index(eps@, season, episode) {
            Some(i) => r == (
                if i > 0 {
                    Some((i - 1) as usize)
                } else {
                    None::<usize>
                },
                if i + 1 < eps@.len() {
                    Some((i + 1) as usize)
                } else {
                    None::<usize>
                },
            ),
            None => r == (None::<usize>, None::<usize>),
        },
{
    let mut i: usize = 0;
    while i < eps.len()
        invariant
            i <= eps@.len(),
            forall|k: int| 0 <= k < i ==> eps@[k] != (season, episode),
        decreases eps@.len() - i,
    {
        if eps[i].0 == season && eps[i].1 == episode {
            proof {
                lemma_episode_index_at(eps@, season, episode, i as int);
            }
            let prev = if i > 0 {
                Some(i - 1)
            } else {
                None
            };
            let next = if i + 1 < eps.len() {
                Some(i + 1)
            } else {
                None
            };
            return (prev, next);
        }
        i = i + 1;
    }
    proof {
        lemma_episode_index_at(eps@, season, episode, eps@.len() as int);
    }
    (None, None)
}

// ---------------------------------------------------------------------------
// Fallback sources
// ---------------------------------------------------------------------------

/// The fallback sources left after the first three, which were already
/// resolved quickly.
pub fn untried_fallbacks(fallbacks: Vec<String>) -> (r: Vec<String>)
    ensures
        r@ == fallbacks@.skip(if fallbacks@.len() < 3 {
            fallbacks@.len() as int
        } else {
            3
        }),
{
    let n = if fallbacks.len() < 3 {
        fallbacks.len()
    } else {
        3
    };
    let ghost all = fallbacks@;
    let mut rest = fallbacks;
    let mut k: usize = 0;
    while k < n
        invariant
            k <= n,
            n <= all.len(),
            rest@ == all.skip(k as int),
        decreases n - k,
    {
        rest.remove(0);
        k = k + 1;
        assert(rest@ =~= all.skip(k as int));
    }
    rest
}

pub open spec fn preferred_part<T>(items: Seq<T>, on_host: Seq<bool>) -> Seq<T>
    decreases items.len(),
{
    if items.len() == 0 || on_host.len() == 0 {
        Seq::empty()
    } else {
        let r = preferred_part(items.drop_last(), on_host.drop_last());
        if on_host.last() {
            r.push(items.last())
        } else {
            r
        }
    }
}

pub open spec fn other_part<T>(items: Seq<T>, on_host: Seq<bool>) -> Seq<T>
    decreases items.len(),
{
    if items.len() == 0 || on_host.len() == 0 {
        Seq::empty()
    } else {
        let r = other_part(items.drop_last(), on_host.drop_last());
        if on_host.last() {
            r
        } else {
            r.push(items.last())
        }
    }
}

/// Puts the sources on the title's preferred host first; `on_host[i]`
/// tells whether source `i` is on it.
pub fn prefer_host<T>(items: Vec<T>, on_host: &[bool]) -> (r: Vec<T>)
    requires
        items@.len() == on_host@.len(),
    ensures
        r@ == preferred_part(items@, on_host@) + other_part(items@, on_host@),
{
    let ghost all = items@;
    let mut rest = items;
    let mut first: Vec<T> = Vec::new();
    let mut second: Vec<T> = Vec::new();
    let mut i: usize = 0;
    assert(all.take(0) =~= Seq::<T>::empty());
    assert(on_host@.take(0) =~= Seq::<bool>::empty());
    while rest.len() > 0
        invariant
            all.len() == on_host@.len(),
            i <= all.len(),
            rest@ == all.skip(i as int),
            first@ == preferred_part(all.take(i as int), on_host@.take(i as int)),
            second@ == other_part(all.take(i as int), on_host@.take(i as int)),
        decreases rest@.len(),
    {
        let x = rest.remove(0);
        assert(x == all[i as int]);
        assert(all.take(i + 1).drop_last() =~= all.take(i as int));
        assert(on_host@.take(i + 1).drop_last() =~= on_host@.take(i as int));
        if on_host[i] {
            first.push(x);
        } else {
            second.push(x);
        }
        i = i + 1;
    }
    assert(all.take(i as int) =~= all);
    assert(on_host@.take(i as int) =~= on_host@);
    first.append(&mut second);
    first
}


// ---------------------------------------------------------------------------
// Going back
// ---------------------------------------------------------------------------

/// The pages of the window, as the back stack tells them apart.
#[derive(Clone, Copy, Debug, PartialEq, Eq, Structural)]
pub enum PageKey {
    Welcome,
    Home,
    Kesfet,
    Favs,
    Marathon,
    History,
    Calendar,
    News,
    NewsDetail(u64),
    Reviews(u64),
    Settings,
    Episodes(u64),
    Movie(u64),
    Player(u64, u64, u64),
    Downloads,
    Search,
    Account,
}

/// The stack after dropping copies of the top page that lie right under
/// it (keeping at least one page).
pub open spec fn drop_repeats(s: Seq<PageKey>) -> Seq<PageKey>
    decreases s.len(),
{
    if s.len() > 1 && s[s.len() - 1] == s[s.len() - 2] {
        drop_repeats(s.drop_last())
    } else {
        s
    }
}

/// Going back: the top page is left (unless it is the only one), then
/// repeats of the new top are dropped.
pub open spec fn back_spec(s: Seq<PageKey>) -> Seq<PageKey> {
    if s.len() > 1 {
        drop_repeats(s.drop_last())
    } else {
        s
    }
}

/// Goes back one page and says which page shows now (the home page when
/// the stack is empty).
pub fn go_back(stack: &mut Vec<PageKey>) -> (top: PageKey)
    ensures
        final(stack)@ == back_spec(old(stack)@),
        top == if final(stack)@.len() > 0 {
            final(stack)@.last()
        } else {
            PageKey::Home
        },
{
    if stack.len() > 1 {
        stack.pop();
        while stack.len() > 1 && stack[stack.len() - 1] == stack[stack.len() - 2]
            invariant
                back_spec(old(stack)@) == drop_repeats(stack@),
            decreases stack@.len(),
        {
            stack.pop();
        }
    }
    if stack.len() > 0 {
        stack[stack.len() - 1]
    } else {
        PageKey::Home
    }
}

/// Opening a page: it goes on top of the stack unless it is already the
/// page shown.
pub open spec fn open_spec(s: Seq<PageKey>, p: PageKey) -> Seq<PageKey> {
    if s.len() > 0 && s.last() == p {
        s
    } else {
        s.push(p)
    }
}

pub fn open_page(stack: &mut Vec<PageKey>, p: PageKey)
    ensures
        final(stack)@ == open_spec(old(stack)@, p),
{
    if stack.len() > 0 && stack[stack.len() - 1] == p {
        return;
    }
    stack.push(p);
}

/// No page lies right on top of a copy of itself.
pub open spec fn no_repeats(s: Seq<PageKey>) -> bool {
    forall|i: int, j: int| 0 <= i && i + 1 == j && j < s.len() ==> #[trigger] s[i] != #[trigger] s[j]
}

proof fn lemma_drop_repeats_plain(s: Seq<PageKey>)
    requires
        no_repeats(s),
    ensures
        drop_repeats(s) == s,
{
    if s.len() > 1 {
        assert(s[s.len() - 2] != s[s.len() - 1]);
    }
}

/// Opening and going back keep the stack free of a page lying on a copy
/// of itself.
pub proof fn lemma_navigation_keeps_no_repeats(s: Seq<PageKey>, p: PageKey)
    requires
        no_repeats(s),
    ensures
        no_repeats(open_spec(s, p)),
        no_repeats(back_spec(s)),
{
    let o = open_spec(s, p);
    assert forall|i: int, j: int| 0 <= i && i + 1 == j && j < o.len() implies #[trigger] o[i]
        != #[trigger] o[j] by {
        if j < s.len() {
            assert(o[i] == s[i] && o[j] == s[j]);
        } else {
            assert(o[j] == p);
            assert(o[i] == s.last());
        }
    }
    if s.len() > 1 {
        let d = s.drop_last();
        assert forall|i: int, j: int| 0 <= i && i + 1 == j && j < d.len() implies #[trigger] d[i]
            != #[trigger] d[j] by {
            assert(d[i] == s[i] && d[j] == s[j]);
        }
        lemma_drop_repeats_plain(d);
    }
}

/// Opening a page twice is opening it once.
pub proof fn lemma_open_twice(s: Seq<PageKey>, p: PageKey)
    ensures
        open_spec(open_spec(s, p), p) == open_spec(s, p),
{
}

/// Going back from a page just opened shows again the page shown before:
/// the stack is as it was.
pub proof fn lemma_back_undoes_open(s: Seq<PageKey>, p: PageKey)
    requires
        no_repeats(s),
        s.len() > 0,
        s.last() != p,
    ensures
        back_spec(open_spec(s, p)) == s,
{
    assert(s.push(p).drop_last() =~= s);
    lemma_drop_repeats_plain(s);
}

// ---------------------------------------------------------------------------
// The spotlight
// ---------------------------------------------------------------------------

/// Where the spotlight's first slide comes from.
#[derive(Clone, Copy, Debug, PartialEq, Eq, Structural)]
pub enum Lead {
    /// The newest local history entry.
    Local,
    /// The server history entry at this index.
    Server(usize),
}

/// The newest of the local entry and the server entries; on equal times
/// the earlier one stays.
pub open spec fn lead_spec(local_ms: Option<u64>, dates: Seq<u64>) -> Option<(Lead, u64)>
    decreases dates.len(),
{
    if dates.len() == 0 {
        match local_ms {
            Some(t) => Some((Lead::Local, t)),
            None => None,
        }
    } else {
        match lead_spec(local_ms, dates.drop_last()) {
            Some((l, t)) => if t >= dates.last() {
                Some((l, t))
            } else {
                Some((Lead::Server((dates.len() - 1) as usize), dates.last()))
            },
            None => Some((Lead::Server((dates.len() - 1) as usize), dates.last())),
        }
    }
}

/// Chooses the spotlight's lead from the newest local entry (its time in
/// milliseconds) and the dates of the server entries.
pub fn spotlight_lead(local_ms: Option<u64>, dates: &[u64]) -> (r: Option<Lead>)
    ensures
        r == match lead_spec(local_ms, dates@) {
            Some((l, _)) => Some(l),
            None => None,
        },
{
    let mut best: Option<(Lead, u64)> = match local_ms {
        Some(t) => Some((Lead::Local, t)),
        None => None,
    };
    let mut i: usize = 0;
    assert(dates@.take(0) =~= Seq::<u64>::empty());
    while i < dates.len()
        invariant
            i <= dates@.len(),
            best == lead_spec(local_ms, dates@.take(i as int)),
        decreases dates@.len() - i,
    {
        assert(dates@.take(i + 1).drop_last() =~= dates@.take(i as int));
        let d = dates[i];
        best = match best {
            Some((l, t)) => if t >= d {
                Some((l, t))
            } else {
                Some((Lead::Server(i), d))
            },
            None => Some((Lead::Server(i), d)),
        };
        i = i + 1;
    }
    assert(dates@.take(i as int) =~= dates@);
    match best {
        Some((l, _)) => Some(l),
        None => None,
    }
}

/// The featured titles that follow the lead: of the first twelve of the
/// first category, those not shown yet, while fewer than eight slides.
pub open spec fn featured_spec(lead_id: Option<u64>, ids: Seq<u64>, upto: int) -> Seq<int>
    decreases upto,
{
    if upto <= 0 {
        Seq::empty()
    } else {
        let r = featured_spec(lead_id, ids, upto - 1);
        let i = upto - 1;
        let slides = r.len() + if lead_id is Some {
            1int
        } else {
            0
        };
        if i >= 12 || i >= ids.len() || slides >= 8 || lead_id == Some(ids[i]) || exists|k: int|
            0 <= k < r.len() && ids[#[trigger] r[k]] == ids[i] {
            r
        } else {
            r.push(i)
        }
    }
}

/// Picks the featured titles (by index into the first category).
pub fn spotlight_featured(lead_id: Option<u64>, ids: &[u64]) -> (r: Vec<usize>)
    ensures
        r@.map_values(|i: usize| i as int) == featured_spec(lead_id, ids@, ids@.len() as int),
{
    let mut out: Vec<usize> = Vec::new();
    let mut i: usize = 0;
    let lead_slides: usize = if lead_id.is_some() {
        1
    } else {
        0
    };
    assert(out@.map_values(|i: usize| i as int) =~= featured_spec(lead_id, ids@, 0));
    while i < ids.len()
        invariant
            i <= ids@.len(),
            lead_slides == if lead_id is Some {
                1usize
            } else {
                0
            },
            out@.map_values(|i: usize| i as int) == featured_spec(lead_id, ids@, i as int),
            out@.len() <= 8,
            forall|k: int| 0 <= k < out@.len() ==> out@[k] < i,
        decreases ids@.len() - i,
    {
        let ghost r = featured_spec(lead_id, ids@, i as int);
        let mut skip = i >= 12 || out.len() + lead_slides >= 8;
        if !skip {
            match lead_id {
                Some(l) => {
                    if l == ids[i] {
                        skip = true;
                    }
                },
                None => {},
            }
        }
        let mut k: usize = 0;
        let mut dup = false;
        while k < out.len()
            invariant
                i < ids@.len(),
                k <= out@.len(),
                forall|m: int| 0 <= m < out@.len() ==> out@[m] < ids@.len(),
                dup == exists|m: int| 0 <= m < k && ids@[#[trigger] out@[m] as int] == ids@[i as int],
            decreases out@.len() - k,
        {
            if ids[out[k]] == ids[i] {
                dup = true;
            }
            k = k + 1;
        }
        proof {
            assert forall|m: int| 0 <= m < r.len() implies r[m] == out@[m] as int by {}
            if dup {
                let m = choose|m: int| 0 <= m < out@.len() && ids@[#[trigger] out@[m] as int] == ids@[i as int];
                assert(ids@[r[m]] == ids@[i as int]);
            }
            if exists|m: int| 0 <= m < r.len() && ids@[#[trigger] r[m]] == ids@[i as int] {
                let m = choose|m: int| 0 <= m < r.len() && ids@[#[trigger] r[m]] == ids@[i as int];
                assert(ids@[out@[m] as int] == ids@[i as int]);
            }
        }
        if !skip && !dup {
            out.push(i);
            assert(out@.map_values(|i: usize| i as int) =~= r.push(i as int));
        }
        i = i + 1;
    }
    out
}


// ---------------------------------------------------------------------------
// Sidebar labels and selection
// ---------------------------------------------------------------------------

/// The sidebar entry lit for a page.
pub open spec fn selected_spec(page: PageKey) -> Option<SidebarId> {
    match page {
        PageKey::Home | PageKey::Episodes(_) | PageKey::Movie(_) | PageKey::Reviews(_) => Some(
            SidebarId::Home,
        ),
        PageKey::Favs => Some(SidebarId::Favs),
        PageKey::Marathon => Some(SidebarId::Marathon),
        PageKey::History => Some(SidebarId::History),
        PageKey::Kesfet => Some(SidebarId::Kesfet),
        PageKey::Calendar => Some(SidebarId::Calendar),
        PageKey::News | PageKey::NewsDetail(_) => Some(SidebarId::News),
        PageKey::Account => Some(SidebarId::Login),
        _ => None,
    }
}

pub fn sidebar_selection(page: PageKey) -> (r: Option<SidebarId>)
    ensures
        r == selected_spec(page),
{
    match page {
        PageKey::Home | PageKey::Episodes(_) | PageKey::Movie(_) | PageKey::Reviews(_) => Some(
            SidebarId::Home,
        ),
        PageKey::Favs => Some(SidebarId::Favs),
        PageKey::Marathon => Some(SidebarId::Marathon),
        PageKey::History => Some(SidebarId::History),
        PageKey::Kesfet => Some(SidebarId::Kesfet),
        PageKey::Calendar => Some(SidebarId::Calendar),
        PageKey::News | PageKey::NewsDetail(_) => Some(SidebarId::News),
        PageKey::Account => Some(SidebarId::Login),
        _ => None,
    }
}

/// The page a sidebar entry opens; the collapse entry opens none.
pub open spec fn sidebar_page_spec(id: SidebarId) -> Option<PageKey> {
    match id {
        SidebarId::Home => Some(PageKey::Home),
        SidebarId::Kesfet => Some(PageKey::Kesfet),
        SidebarId::Favs => Some(PageKey::Favs),
        SidebarId::Marathon => Some(PageKey::Marathon),
        SidebarId::History => Some(PageKey::History),
        SidebarId::Calendar => Some(PageKey::Calendar),
        SidebarId::News => Some(PageKey::News),
        SidebarId::Login => Some(PageKey::Account),
        SidebarId::Collapse => None,
    }
}

pub fn sidebar_page(id: SidebarId) -> (r: Option<PageKey>)
    ensures
        r == sidebar_page_spec(id),
{
    match id {
        SidebarId::Home => Some(PageKey::Home),
        SidebarId::Kesfet => Some(PageKey::Kesfet),
        SidebarId::Favs => Some(PageKey::Favs),
        SidebarId::Marathon => Some(PageKey::Marathon),
        SidebarId::History => Some(PageKey::History),
        SidebarId::Calendar => Some(PageKey::Calendar),
        SidebarId::News => Some(PageKey::News),
        SidebarId::Login => Some(PageKey::Account),
        SidebarId::Collapse => None,
    }
}

/// The page a sidebar entry opens lights up that same entry.
pub proof fn lemma_sidebar_page_selects_entry(id: SidebarId)
    requires
        id != SidebarId::Collapse,
    ensures
        sidebar_page_spec(id) matches Some(p) && selected_spec(p) == Some(id),
{
}

/// One slide of the spotlight.
#[derive(Clone, Copy, Debug, PartialEq, Eq, Structural)]
pub enum Slide {
    /// The title to continue, from the history.
    Lead(Lead),
    /// A featured title, by index into the first category.
    Featured(usize),
    /// A news item, by index into the news rail.
    News(usize),
}

/// The spotlight's slides in order: the lead when there is one, the
/// featured titles, then the three newest news items (fewer when the rail
/// holds fewer).
pub open spec fn slides_spec(lead: Option<Lead>, featured: Seq<usize>, news: nat) -> Seq<Slide> {
    let head: Seq<Slide> = match lead {
        Some(l) => seq![Slide::Lead(l)],
        None => Seq::empty(),
    };
    let n: nat = if news < 3 {
        news
    } else {
        3
    };
    head + featured.map_values(|i: usize| Slide::Featured(i)) + Seq::new(
        n,
        |k: int| Slide::News(k as usize),
    )
}

pub fn spotlight_slides(lead: Option<Lead>, featured: &Vec<usize>, news: usize) -> (r: Vec<Slide>)
    ensures
        r@ == slides_spec(lead, featured@, news as nat),
{
    let mut out: Vec<Slide> = Vec::new();
    if let Some(l) = lead {
        out.push(Slide::Lead(l));
    }
    let ghost head = out@;
    let mut i: usize = 0;
    while i < featured.len()
        invariant
            i <= featured@.len(),
            out@ == head + featured@.take(i as int).map_values(|j: usize| Slide::Featured(j)),
        decreases featured@.len() - i,
    {
        out.push(Slide::Featured(featured[i]));
        i = i + 1;
        assert(out@ =~= head + featured@.take(i as int).map_values(|j: usize| Slide::Featured(j)));
    }
    assert(featured@.take(featured@.len() as int) =~= featured@);
    let ghost mid = out@;
    let n: usize = if news < 3 {
        news
    } else {
        3
    };
    let mut k: usize = 0;
    while k < n
        invariant
            k <= n,
            n <= 3,
            out@ == mid + Seq::new(k as nat, |m: int| Slide::News(m as usize)),
        decreases n - k,
    {
        out.push(Slide::News(k));
        k = k + 1;
        assert(out@ =~= mid + Seq::new(k as nat, |m: int| Slide::News(m as usize)));
    }
    assert(out@ =~= slides_spec(lead, featured@, news as nat));
    out
}

/// What showing a page does around it.
#[derive(Clone, Copy, Debug, PartialEq, Eq, Structural)]
pub struct PageChrome {
    /// Close the embedded player (its position is saved).
    pub close_player: bool,
    /// Show the window's own header bar.
    pub header_visible: bool,
    /// Reveal the sidebar.
    pub sidebar_revealed: bool,
    /// Enable the back button.
    pub back_enabled: bool,
}

/// Showing a page: every page but the player's closes the embedded player
/// and brings back the header; the sidebar shows except on the player and
/// welcome pages; going back is possible with more than one page stacked.
pub fn page_chrome(page: PageKey, stack_len: usize) -> (r: PageChrome)
    ensures
        r.close_player == !(page is Player),
        r.header_visible == !(page is Player),
        r.sidebar_revealed == !(page is Player || page is Welcome),
        r.back_enabled == (stack_len > 1),
{
    let on_player = match page {
        PageKey::Player(_, _, _) => true,
        _ => false,
    };
    let welcome = match page {
        PageKey::Welcome => true,
        _ => false,
    };
    PageChrome {
        close_player: !on_player,
        header_visible: !on_player,
        sidebar_revealed: !on_player && !welcome,
        back_enabled: stack_len > 1,
    }
}

/// After the spotlight height changed with the window, the pages whose
/// grid depends on it are built again: the home page, the search results
/// and the history.
pub fn relayout_on_resize(top: PageKey) -> (r: bool)
    ensures
        r == (top == PageKey::Home || top == PageKey::Search || top == PageKey::History),
{
    match top {
        PageKey::Home | PageKey::Search | PageKey::History => true,
        _ => false,
    }
}

/// The text of a sidebar entry: the account entry shows the user's name
/// (or "Giriş Yap"); the collapse entry says what it does; in the dock the
/// others show their short caption.
pub open spec fn sidebar_label_spec(id: SidebarId, collapsed: bool, user: Seq<char>, full: Seq<char>) -> Seq<char> {
    if id == SidebarId::Login {
        if user.len() > 0 {
            user
        } else {
            "Giriş Yap"@
        }
    } else if id == SidebarId::Collapse {
        if collapsed {
            "Genişlet"@
        } else {
            "Daralt"@
        }
    } else if collapsed {
        match dock_caption_spec(id) {
            Some(c) => c,
            None => full,
        }
    } else {
        full
    }
}

pub fn sidebar_label(id: SidebarId, collapsed: bool, user: &str, full: &str) -> (r: String)
    ensures
        r@ == sidebar_label_spec(id, collapsed, user@, full@),
{
    if id == SidebarId::Login {
        if user.unicode_len() > 0 {
            owned(user)
        } else {
            owned("Giriş Yap")
        }
    } else if id == SidebarId::Collapse {
        if collapsed {
            owned("Genişlet")
        } else {
            owned("Daralt")
        }
    } else if collapsed {
        match dock_caption(id) {
            Some(c) => owned(c),
            None => owned(full),
        }
    } else {
        owned(full)
    }
}

// ---------------------------------------------------------------------------
// Searching
// ---------------------------------------------------------------------------

/// The query a search runs with: trimmed, and none when blank.
pub open spec fn search_query_spec(q: Seq<char>) -> Option<Seq<char>> {
    if trim(q).len() == 0 {
        None
    } else {
        Some(trim(q))
    }
}

pub fn search_query(q: &str) -> (r: Option<String>)
    ensures
        match r {
            Some(s) => search_query_spec(q@) == Some(s@),
            None => search_query_spec(q@) is None,
        },
{
    let t = trim_str(q);
    if t.unicode_len() == 0 {
        None
    } else {
        Some(t)
    }
}

/// The search popup waits for typing to pause before it searches; only
/// the latest text's answer is shown.
pub struct SearchDebounce {
    pub generation: u64,
}

/// What a change of the search text asks for.
#[derive(Clone, Copy, Debug, PartialEq, Eq, Structural)]
pub enum SearchStep {
    /// The text is blank: clear the results.
    Clear,
    /// Search after 350 milliseconds if the text is still this generation.
    Wait(u64),
}

/// Results shown in the search popup.
pub const SEARCH_SHOWN: usize = 12;

impl SearchDebounce {
    pub fn new() -> (d: SearchDebounce)
        ensures
            d.generation == 0,
    {
        SearchDebounce { generation: 0 }
    }

    /// The text changed.
    pub fn changed(&mut self, q: &str) -> (r: SearchStep)
        requires
            old(self).generation < u64::MAX,
        ensures
            final(self).generation == old(self).generation + 1,
            r == if search_query_spec(q@) is None {
                SearchStep::Clear
            } else {
                SearchStep::Wait(final(self).generation)
            },
    {
        self.generation = self.generation + 1;
        if search_query(q).is_none() {
            SearchStep::Clear
        } else {
            SearchStep::Wait(self.generation)
        }
    }

    /// A wait or an answer of generation `g` still counts.
    pub fn is_current(&self, g: u64) -> (r: bool)
        ensures
            r == (g == self.generation),
    {
        g == self.generation
    }
}

/// The height of the results list for `n` results: 88 pixels a row for the
/// rows shown, between 90 and 440.
pub fn results_height(n: usize) -> (r: i64)
    ensures
        r == clamp((if n < 12 {
            n as int
        } else {
            12
        }) * 88, 90, 440),
{
    let shown: i64 = if n < SEARCH_SHOWN {
        n as i64
    } else {
        12
    };
    let h = shown * 88;
    if h < 90 {
        90
    } else if h > 440 {
        440
    } else {
        h
    }
}

} // verus!
