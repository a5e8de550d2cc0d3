use animecix::discover::{
    count_label, filter_label, more_results, next_results_page, pill_label, remove_pill,
    toggle_slug,
};

fn strings(v: &[&str]) -> Vec<String> {
    v.iter().map(|s| s.to_string()).collect()
}

#[test]
fn ticking_genres_and_keywords() {
    let mut sel = strings(&["action"]);
    toggle_slug(&mut sel, "drama", true);
    toggle_slug(&mut sel, "action", true);
    assert_eq!(sel, strings(&["action", "drama"]));
    toggle_slug(&mut sel, "action", false);
    assert_eq!(sel, strings(&["drama"]));
    toggle_slug(&mut sel, "comedy", false);
    assert_eq!(sel, strings(&["drama"]));
    // Only the first copy leaves.
    let mut twice = strings(&["a", "b", "a"]);
    toggle_slug(&mut twice, "a", false);
    assert_eq!(twice, strings(&["b", "a"]));
}

#[test]
fn untick_gives_back_the_picks() {
    let before = strings(&["romance", "isekai"]);
    let mut sel = before.clone();
    toggle_slug(&mut sel, "mecha", true);
    toggle_slug(&mut sel, "mecha", false);
    assert_eq!(sel, before);
}

#[test]
fn pills_remove_from_both_lists() {
    let mut g = strings(&["action", "drama"]);
    let mut k = strings(&["school", "drama"]);
    remove_pill(&mut g, &mut k, "drama");
    assert_eq!(g, strings(&["action"]));
    assert_eq!(k, strings(&["school"]));
}

#[test]
fn discover_texts() {
    assert_eq!(filter_label(0, 0), "Filtrele");
    assert_eq!(filter_label(2, 1), "Filtrele (3)");
    assert_eq!(count_label(120), "120 başlık");
    assert_eq!(pill_label("Aksiyon"), "Aksiyon ×");
    assert!(more_results(false, 20, 45));
    assert!(!more_results(true, 20, 45));
    assert!(!more_results(false, 0, 45));
    assert!(!more_results(false, 45, 45));
    assert_eq!(next_results_page(0), 1);
    assert_eq!(next_results_page(3), 4);
}
