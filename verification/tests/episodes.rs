use animecix::episodes::{
    default_season, episode_progress, episode_visible, progress_label, row_title,
    search_placeholder, season_tabs, remote_targets,
};

#[test]
fn season_tabs_are_sorted_and_unique() {
    assert_eq!(season_tabs(&vec![2, 1, 2, 3, 1]), vec![1, 2, 3]);
    assert_eq!(season_tabs(&vec![]), Vec::<u64>::new());
    assert_eq!(season_tabs(&vec![5, 5, 5]), vec![5]);
}

#[test]
fn list_opens_on_the_resumed_season() {
    let tabs = vec![1, 2, 3];
    assert_eq!(default_season(Some(2), &tabs), 2);
    assert_eq!(default_season(Some(7), &tabs), 1);
    assert_eq!(default_season(None, &vec![3, 4]), 3);
    assert_eq!(default_season(None, &vec![]), 1);
    assert_eq!(default_season(Some(4), &vec![]), 1);
}

#[test]
fn quick_search_by_name_or_number() {
    assert!(episode_visible(1, 7, "Büyük Yolculuk", 1, ""));
    assert!(episode_visible(1, 7, "Büyük Yolculuk", 1, "  YOLCU "));
    assert!(episode_visible(1, 7, "Büyük Yolculuk", 1, "7"));
    assert!(episode_visible(1, 7, "Büyük Yolculuk", 1, "E7"));
    assert!(episode_visible(1, 7, "Büyük Yolculuk", 1, "s01e07"));
    assert!(!episode_visible(1, 7, "Büyük Yolculuk", 1, "s1e7"));
    assert!(!episode_visible(1, 7, "Büyük Yolculuk", 1, "8"));
    assert!(!episode_visible(2, 7, "Büyük Yolculuk", 1, ""));
}

#[test]
fn episode_row_texts() {
    assert_eq!(row_title(1, 2, "Başlangıç"), "S01 E02   Başlangıç");
    assert_eq!(search_placeholder("Ctrl+F"), "Bölüm numarası veya adı ara… (Ctrl+F)");
}

#[test]
fn episode_row_progress() {
    // The later position wins; the local duration comes first.
    assert_eq!(episode_progress(30_000, 1_440_000, 90_000, 24), Some((90_000, 1_440_000)));
    // Without a local duration the running time stands in.
    assert_eq!(episode_progress(0, 0, 600_000, 24), Some((600_000, 1_440_000)));
    // Nothing shown for a second or less, or without any duration.
    assert_eq!(episode_progress(1_000, 1_440_000, 0, 24), None);
    assert_eq!(episode_progress(50_000, 0, 0, 0), None);
    assert_eq!(episode_progress(50_000, 0, 0, u64::MAX), Some((50_000, u64::MAX)));
    assert_eq!(progress_label(754_900, 1_440_000), "12:34 / 24:00");
    assert_eq!(progress_label(3_725_000, 7_200_000), "1:02:05 / 2:00:00");
}

#[test]
fn only_unsaved_positions_are_asked() {
    let eps = vec![(1, 1), (1, 2), (1, 3), (2, 1)];
    assert_eq!(remote_targets(&eps, &vec![(1, 2), (2, 1)]), vec![(1, 1), (1, 3)]);
    assert_eq!(remote_targets(&eps, &vec![]), eps);
    let many: Vec<(u64, u64)> = (1..=150).map(|e| (1, e)).collect();
    let asked = remote_targets(&many, &vec![(1, 1)]);
    assert_eq!(asked.len(), 120);
    assert_eq!(asked[0], (1, 2));
    assert_eq!(asked[119], (1, 121));
}
