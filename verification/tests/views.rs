use animecix::views::{
    apply_page, calendar_selection, choose_fansub, clamp_cont_page, discover_type, dock_caption,
    first_fansubs, fmt_day_month, goto_args, goto_page, grid_width, hero_h_for_window,
    keep_with_fansubs, opens_as_movie, pager_buttons, replaces_episode_list, tr_known_for,
    welcome_message, FansubChoice, GotoPage, SidebarId, tick, delete_button, local_history_line, open_page, continue_meta, marathon_badge, sidebar_page, relayout_on_resize, fansub_failed, preparing_toast, spotlight_slides, Slide, page_chrome,
};

#[test]
fn hero_h_scales_with_window() {
    assert_eq!(hero_h_for_window(885, 8), 460);
    assert_eq!(hero_h_for_window(800, 5), 400);
    assert_eq!(hero_h_for_window(680, 3), 360);
    assert_eq!(hero_h_for_window(2000, 8), 560);
}

#[test]
fn hero_h_uses_the_column_base_on_small_windows() {
    assert_eq!(hero_h_for_window(0, 8), 420);
    assert_eq!(hero_h_for_window(-50, 20), 420);
    assert_eq!(hero_h_for_window(i32::MAX, 0), 560);
    assert_eq!(hero_h_for_window(900, 1), 460);
}

#[test]
fn grid_width_counts_gaps() {
    assert_eq!(grid_width(0), 140);
    assert_eq!(grid_width(1), 140);
    assert_eq!(grid_width(5), 5 * 140 + 4 * 12);
}

#[test]
fn dock_captions() {
    assert_eq!(dock_caption(SidebarId::Home), Some("Ana Sayfa"));
    assert_eq!(dock_caption(SidebarId::News), Some("Haber"));
    assert_eq!(dock_caption(SidebarId::Login), None);
    assert_eq!(dock_caption(SidebarId::Collapse), None);
}

#[test]
fn goto_values_and_pages() {
    let args: Vec<String> = ["animecix", "--goto", "history", "--goto", "--goto", "x", "--goto"]
        .iter()
        .map(|s| s.to_string())
        .collect();
    assert_eq!(goto_args(&args), vec!["history".to_string(), "--goto".to_string()]);
    assert_eq!(goto_page("history"), Some(GotoPage::History));
    assert_eq!(goto_page("favorites"), Some(GotoPage::Favorites));
    assert_eq!(goto_page("episodes"), Some(GotoPage::Episodes));
    assert_eq!(goto_page("History"), None);
    assert_eq!(goto_page(""), None);
}

#[test]
fn day_month_of_known_dates() {
    assert_eq!(fmt_day_month(0), "01.01");
    // 2024-02-29 12:00 UTC
    assert_eq!(fmt_day_month(1_709_208_000_000), "29.02");
    // 2024-03-01 00:00 UTC
    assert_eq!(fmt_day_month(1_709_251_200_000), "01.03");
    // 2023-12-31 23:59:59 UTC
    assert_eq!(fmt_day_month(1_704_067_199_000), "31.12");
    // 2000-02-29 (a leap year divisible by 400)
    assert_eq!(fmt_day_month(951_782_400_000), "29.02");
    // 2100-03-01: 2100 is not a leap year
    assert_eq!(fmt_day_month(4_107_542_400_000), "01.03");
}

#[test]
fn known_for_role_names() {
    assert_eq!(tr_known_for("Acting"), "Oyunculuk");
    assert_eq!(tr_known_for("  Visual Effects "), "Görsel Efekt");
    assert_eq!(tr_known_for("Costume & Make-Up"), "Kostüm");
    assert_eq!(tr_known_for("costume"), "Kostüm");
    assert_eq!(tr_known_for("Lighting"), "Ekip");
    assert_eq!(tr_known_for(""), "Ekip");
}

#[test]
fn first_page_replaces_later_pages_append() {
    let mut v = vec![1, 2, 3];
    apply_page(&mut v, 2, vec![4]);
    assert_eq!(v, vec![1, 2, 3, 4]);
    apply_page(&mut v, 1, vec![9]);
    assert_eq!(v, vec![9]);
    apply_page(&mut v, 0, vec![]);
    assert!(v.is_empty());
}

#[test]
fn continue_page_falls_back_to_the_last_filled_one() {
    assert_eq!(clamp_cont_page(3, 25), 2);
    assert_eq!(clamp_cont_page(2, 25), 2);
    assert_eq!(clamp_cont_page(1, 0), 0);
    assert_eq!(clamp_cont_page(1, 10), 0);
    assert_eq!(clamp_cont_page(1, 11), 1);
}

#[test]
fn pager_and_calendar() {
    assert_eq!(pager_buttons(0, 3), (false, true));
    assert_eq!(pager_buttons(2, 3), (true, false));
    assert_eq!(pager_buttons(0, 0), (false, false));
    assert_eq!(calendar_selection(7, 7), 0);
    assert_eq!(calendar_selection(6, 7), 6);
    assert_eq!(calendar_selection(9, 0), 9);
}

#[test]
fn discover_types() {
    assert_eq!(discover_type(1).as_deref(), Some("series"));
    assert_eq!(discover_type(2).as_deref(), Some("movie"));
    assert_eq!(discover_type(0), None);
    assert_eq!(discover_type(3), None);
}

#[test]
fn welcome_messages() {
    assert_eq!(welcome_message("Ada", 0), "Hoş geldin, Ada!");
    assert_eq!(welcome_message("Ada", 12), "Hoş geldin, Ada! (siteden 12 favori alındı)");
}

#[test]
fn movie_pages() {
    assert!(opens_as_movie(true, Some("series")));
    assert!(opens_as_movie(false, Some("movie")));
    assert!(!opens_as_movie(false, Some("series")));
    assert!(!opens_as_movie(false, None));
}

#[test]
fn fansub_choices() {
    assert_eq!(choose_fansub(&[], Some(4), true), FansubChoice::Sources);
    assert_eq!(choose_fansub(&[3, 4, 4], Some(4), true), FansubChoice::Use(1));
    assert_eq!(choose_fansub(&[3], Some(4), true), FansubChoice::Use(0));
    assert_eq!(choose_fansub(&[3, 5], Some(4), false), FansubChoice::Use(0));
    assert_eq!(choose_fansub(&[3, 5], None, true), FansubChoice::Ask);
}

#[test]
fn episode_list_refresh() {
    assert!(replaces_episode_list(true, 5, 5));
    assert!(replaces_episode_list(false, 4, 5));
    assert!(!replaces_episode_list(false, 5, 5));
}

#[test]
fn downloads_keep_episodes_with_fansubs_and_take_the_best() {
    let items = vec![(1u64, vec!['a', 'b']), (2, vec![]), (3, vec!['c'])];
    let kept = keep_with_fansubs(items);
    assert_eq!(kept, vec![(1, vec!['a', 'b']), (3, vec!['c'])]);
    assert_eq!(first_fansubs(kept), vec![(1, 'a'), (3, 'c')]);
}

use animecix::views::{
    go_back, grid_cell, history_subtitle, more_label, neighbours, prefer_host, results_height,
    search_query, sidebar_label, sidebar_selection, spotlight_featured, spotlight_lead,
    untried_fallbacks, Lead, PageKey, SearchDebounce, SearchStep,
};

#[test]
fn history_card_lines() {
    assert_eq!(history_subtitle(1, 2, 1_709_208_000_000), "S01E02 · 29.02");
    assert_eq!(history_subtitle(0, 2, 1_709_208_000_000), "29.02");
    assert_eq!(history_subtitle(3, 12, 0), "S03E12");
    assert_eq!(history_subtitle(0, 0, 0), "");
}

#[test]
fn grid_cells_and_more_button() {
    assert_eq!(grid_cell(7, 5), (2, 1));
    assert_eq!(grid_cell(3, 0), (0, 3));
    assert_eq!(more_label(20, 45).as_deref(), Some("Daha Fazla Göster (20 / 45)"));
    assert_eq!(more_label(45, 45), None);
}

#[test]
fn neighbouring_episodes() {
    let eps = [(1, 1), (1, 2), (1, 3), (2, 1)];
    assert_eq!(neighbours(&eps, 1, 3), (Some(1), Some(3)));
    assert_eq!(neighbours(&eps, 1, 1), (None, Some(1)));
    assert_eq!(neighbours(&eps, 2, 1), (Some(2), None));
    assert_eq!(neighbours(&eps, 3, 1), (None, None));
}

#[test]
fn fallback_order() {
    let fb: Vec<String> = ["a", "b", "c", "d", "e"].iter().map(|s| s.to_string()).collect();
    assert_eq!(untried_fallbacks(fb.clone()), vec!["d".to_string(), "e".to_string()]);
    assert!(untried_fallbacks(vec!["x".to_string()]).is_empty());
    assert_eq!(
        prefer_host(fb, &[false, true, false, true, false]),
        vec!["b", "d", "a", "c", "e"].iter().map(|s| s.to_string()).collect::<Vec<_>>()
    );
}

#[test]
fn back_stack() {
    let mut st = vec![PageKey::Home, PageKey::Favs, PageKey::Favs, PageKey::Episodes(4)];
    assert_eq!(go_back(&mut st), PageKey::Favs);
    assert_eq!(st, vec![PageKey::Home, PageKey::Favs]);
    assert_eq!(go_back(&mut st), PageKey::Home);
    assert_eq!(go_back(&mut st), PageKey::Home);
    assert_eq!(st, vec![PageKey::Home]);
    let mut empty: Vec<PageKey> = Vec::new();
    assert_eq!(go_back(&mut empty), PageKey::Home);
}

#[test]
fn spotlight_choices() {
    assert_eq!(spotlight_lead(Some(5_000), &[4_000, 5_000, 6_000, 6_000]), Some(Lead::Server(2)));
    assert_eq!(spotlight_lead(Some(5_000), &[4_000, 5_000]), Some(Lead::Local));
    assert_eq!(spotlight_lead(None, &[]), None);
    assert_eq!(spotlight_lead(None, &[1, 1]), Some(Lead::Server(0)));
    let ids: Vec<u64> = (1..=20).collect();
    assert_eq!(spotlight_featured(Some(2), &ids), vec![0, 2, 3, 4, 5, 6, 7]);
    assert_eq!(spotlight_featured(None, &[9, 9, 8]), vec![0, 2]);
    assert_eq!(spotlight_featured(None, &ids).len(), 8);
}

#[test]
fn sidebar_texts_and_selection() {
    assert_eq!(sidebar_selection(PageKey::Movie(3)), Some(SidebarId::Home));
    assert_eq!(sidebar_selection(PageKey::NewsDetail(1)), Some(SidebarId::News));
    assert_eq!(sidebar_selection(PageKey::Settings), None);
    assert_eq!(sidebar_label(SidebarId::Login, true, "", "Hesap"), "Giriş Yap");
    assert_eq!(sidebar_label(SidebarId::Login, false, "ada", "Hesap"), "ada");
    assert_eq!(sidebar_label(SidebarId::Collapse, false, "", "x"), "Daralt");
    assert_eq!(sidebar_label(SidebarId::Collapse, true, "", "x"), "Genişlet");
    assert_eq!(sidebar_label(SidebarId::Favs, true, "", "Favorilerim"), "Favori");
    assert_eq!(sidebar_label(SidebarId::Favs, false, "", "Favorilerim"), "Favorilerim");
}

#[test]
fn search_waits_for_the_latest_text() {
    assert_eq!(search_query("  naruto "), Some("naruto".to_string()));
    assert_eq!(search_query(" \t "), None);
    let mut d = SearchDebounce::new();
    assert_eq!(d.changed("na"), SearchStep::Wait(1));
    assert_eq!(d.changed("nar"), SearchStep::Wait(2));
    assert!(!d.is_current(1));
    assert!(d.is_current(2));
    assert_eq!(d.changed("  "), SearchStep::Clear);
    assert!(!d.is_current(2));
    assert_eq!(results_height(0), 90);
    assert_eq!(results_height(3), 264);
    assert_eq!(results_height(40), 440);
}

#[test]
fn ticking_history_rows() {
    let mut ids: Vec<u64> = Vec::new();
    tick(&mut ids, 7, true);
    tick(&mut ids, 3, true);
    tick(&mut ids, 7, true);
    assert_eq!(ids, vec![7, 3]);
    tick(&mut ids, 7, false);
    assert_eq!(ids, vec![3]);
    tick(&mut ids, 9, false);
    assert_eq!(ids, vec![3]);
    let mut dup = vec![5, 1, 5];
    tick(&mut dup, 5, false);
    assert_eq!(dup, vec![1]);
}

#[test]
fn untick_gives_back_the_selection() {
    let before = vec![4u64, 8];
    let mut ids = before.clone();
    tick(&mut ids, 6, true);
    tick(&mut ids, 6, false);
    assert_eq!(ids, before);
}

#[test]
fn delete_button_counts_the_ticks() {
    assert_eq!(delete_button(0), ("Seçilenleri Sil (0)".to_string(), false));
    assert_eq!(delete_button(3), ("Seçilenleri Sil (3)".to_string(), true));
}

#[test]
fn local_history_lines() {
    assert_eq!(local_history_line(1, 2, "Başlangıç"), "S01 E02 · Başlangıç");
    assert_eq!(local_history_line(12, 105, ""), "S12 E105 · ");
}

#[test]
fn opening_a_page_twice_pushes_it_once() {
    let mut stack = vec![PageKey::Home];
    open_page(&mut stack, PageKey::Search);
    open_page(&mut stack, PageKey::Search);
    assert_eq!(stack, vec![PageKey::Home, PageKey::Search]);
}

#[test]
fn back_after_open_shows_the_page_before() {
    let mut stack = vec![PageKey::Home, PageKey::Episodes(7)];
    open_page(&mut stack, PageKey::Reviews(7));
    assert_eq!(go_back(&mut stack), PageKey::Episodes(7));
    assert_eq!(stack, vec![PageKey::Home, PageKey::Episodes(7)]);
}

#[test]
fn continue_card_lines() {
    assert_eq!(continue_meta(Some((1, 2)), Some("Aksiyon  •  Dram")), "S01E02 · Aksiyon");
    assert_eq!(continue_meta(Some((0, 2)), Some("Aksiyon")), "Aksiyon");
    assert_eq!(continue_meta(Some((3, 11)), None), "S03E11");
    assert_eq!(continue_meta(None, None), " ");
    assert_eq!(continue_meta(None, Some("")), " ");
}

#[test]
fn marathon_buttons() {
    assert_eq!(marathon_badge(true), ("object-select-symbolic", "Maratonda ✓ (çıkarmak için tıkla)"));
    assert_eq!(marathon_badge(false), ("list-add-symbolic", "Maratona ekle"));
}

#[test]
fn sidebar_entries_open_their_pages() {
    for id in [
        SidebarId::Home,
        SidebarId::Kesfet,
        SidebarId::Favs,
        SidebarId::Marathon,
        SidebarId::History,
        SidebarId::Calendar,
        SidebarId::News,
        SidebarId::Login,
    ] {
        let page = sidebar_page(id).expect("a page");
        assert_eq!(sidebar_selection(page), Some(id));
    }
    assert_eq!(sidebar_page(SidebarId::Collapse), None);
    assert_eq!(sidebar_page(SidebarId::Login), Some(PageKey::Account));
}

#[test]
fn resize_rebuilds_grid_pages() {
    assert!(relayout_on_resize(PageKey::Home));
    assert!(relayout_on_resize(PageKey::Search));
    assert!(relayout_on_resize(PageKey::History));
    assert!(!relayout_on_resize(PageKey::Favs));
    assert!(!relayout_on_resize(PageKey::Player(1, 1, 1)));
}

#[test]
fn playback_messages() {
    assert_eq!(
        fansub_failed("Kirigana", "zaman aşımı"),
        "Kirigana çevirisi oynatılamadı (zaman aşımı). Başka bir çeviri seçin."
    );
    assert_eq!(preparing_toast("Frieren"), "🎬 Frieren hazırlanıyor…");
}

#[test]
fn spotlight_ends_with_three_news() {
    assert_eq!(
        spotlight_slides(Some(Lead::Local), &vec![2, 5], 7),
        vec![
            Slide::Lead(Lead::Local),
            Slide::Featured(2),
            Slide::Featured(5),
            Slide::News(0),
            Slide::News(1),
            Slide::News(2),
        ]
    );
    assert_eq!(spotlight_slides(None, &vec![], 1), vec![Slide::News(0)]);
    assert_eq!(spotlight_slides(None, &vec![4], 0), vec![Slide::Featured(4)]);
}

#[test]
fn leaving_the_player_closes_it() {
    let c = page_chrome(PageKey::Home, 2);
    assert!(c.close_player && c.header_visible && c.sidebar_revealed && c.back_enabled);
    let p = page_chrome(PageKey::Player(1, 1, 2), 1);
    assert!(!p.close_player && !p.header_visible && !p.sidebar_revealed && !p.back_enabled);
    let w = page_chrome(PageKey::Welcome, 1);
    assert!(w.close_player && w.header_visible && !w.sidebar_revealed);
}
