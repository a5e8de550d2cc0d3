use animecix::settings::{
    connection_label, connections_choice, connections_row, quick_search_choice, quick_search_row,
    search_choice, search_row, sidebar_switches, upscale_choice, upscale_row, visible_tabs,
};

#[test]
fn quick_search_shortcut_rows() {
    assert_eq!(quick_search_row("/"), 0);
    assert_eq!(quick_search_row("Ctrl+F"), 1);
    assert_eq!(quick_search_row("F3"), 2);
    assert_eq!(quick_search_row("Ctrl+K"), 3);
    assert_eq!(quick_search_row("Ctrl+Q"), 0);
    assert_eq!(quick_search_choice(0), "/");
    assert_eq!(quick_search_choice(1), "Ctrl+F");
    assert_eq!(quick_search_choice(2), "F3");
    assert_eq!(quick_search_choice(3), "Ctrl+K");
    assert_eq!(quick_search_choice(9), "/");
}

#[test]
fn search_shortcut_rows() {
    assert_eq!(search_row("Ctrl+S"), 0);
    assert_eq!(search_row("Ctrl+K"), 1);
    assert_eq!(search_row("F2"), 2);
    assert_eq!(search_row("/"), 3);
    assert_eq!(search_row("ctrl+s"), 0);
    assert_eq!(search_choice(1), "Ctrl+K");
    assert_eq!(search_choice(3), "/");
    assert_eq!(search_choice(4), "Ctrl+S");
}

#[test]
fn upscale_preset_rows() {
    assert_eq!(upscale_row("off"), 0);
    assert_eq!(upscale_row("sharp"), 1);
    assert_eq!(upscale_row("hafif"), 2);
    assert_eq!(upscale_row("ultra"), 3);
    assert_eq!(upscale_row("hafif_keskin"), 4);
    assert_eq!(upscale_row("normal"), 0);
    assert_eq!(upscale_choice(0), "off");
    assert_eq!(upscale_choice(4), "hafif_keskin");
    assert_eq!(upscale_choice(5), "off");
}

#[test]
fn connection_rows() {
    assert_eq!(connections_row(1), 0);
    assert_eq!(connections_row(6), 3);
    assert_eq!(connections_row(16), 6);
    // A number the list lacks shows four connections and stores four.
    assert_eq!(connections_row(5), 2);
    assert_eq!(connections_choice(connections_row(5)), 4);
    assert_eq!(connections_choice(7), 6);
    assert_eq!(connection_label(12), "12 bağlantı");
}

#[test]
fn every_listed_value_survives_a_save() {
    for s in ["/", "Ctrl+F", "F3", "Ctrl+K"] {
        assert_eq!(quick_search_choice(quick_search_row(s)), s);
    }
    for s in ["Ctrl+S", "Ctrl+K", "F2", "/"] {
        assert_eq!(search_choice(search_row(s)), s);
    }
    for s in ["off", "sharp", "hafif", "ultra", "hafif_keskin"] {
        assert_eq!(upscale_choice(upscale_row(s)), s);
    }
    for n in [1u32, 2, 4, 6, 8, 12, 16] {
        assert_eq!(connections_choice(connections_row(n)), n);
    }
}

#[test]
fn sidebar_tabs_round_trip() {
    let stored: Vec<String> = vec!["home".into(), "news".into(), "favs".into(), "bogus".into()];
    let sw = sidebar_switches(&stored);
    assert_eq!(sw, vec![false, true, false, false, false, true, false]);
    let tabs = visible_tabs(&sw);
    assert_eq!(tabs, vec!["home".to_string(), "favs".to_string(), "news".to_string()]);
    assert_eq!(sidebar_switches(&tabs), sw);
    assert_eq!(visible_tabs(&vec![]), vec!["home".to_string()]);
    assert_eq!(
        visible_tabs(&vec![true; 7]),
        vec!["home", "kesfet", "favs", "marathon", "history", "calendar", "news", "downloads"]
            .into_iter()
            .map(String::from)
            .collect::<Vec<_>>()
    );
}
