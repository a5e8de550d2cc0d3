use animecix::info::{
    calendar_chip, calendar_day, calendar_line, calendar_name, calendar_thumb, news_summary,
    paged_more_label, review_initial, review_author, reviews_heading,
};

#[test]
fn comment_authors_without_a_name() {
    assert_eq!(review_author(""), "Anonim");
    assert_eq!(review_author("mehmet"), "mehmet");
    assert_eq!(review_initial("mehmet"), "M");
    assert_eq!(review_initial("ılgaz"), "I");
    assert_eq!(review_initial("ßen"), "SS");
    assert_eq!(review_initial(""), "?");
}

#[test]
fn review_headings() {
    assert_eq!(reviews_heading(0), "⭐ İNCELEMELER");
    assert_eq!(reviews_heading(12), "⭐ İNCELEMELER (12)");
}

#[test]
fn paged_more_buttons() {
    assert_eq!(paged_more_label(1, 1, 10, 10), None);
    assert_eq!(paged_more_label(2, 1, 10, 10), None);
    assert_eq!(paged_more_label(1, 3, 20, 55).as_deref(), Some("Daha Fazla Göster (20 / 55)"));
    assert_eq!(paged_more_label(1, 3, 20, 0).as_deref(), Some("Daha Fazla Göster"));
}

#[test]
fn news_summaries() {
    assert_eq!(news_summary("  İlk satır  \r\nikinci"), "İlk satır");
    assert_eq!(news_summary(""), "");
    assert_eq!(news_summary("\nikinci"), "");
    assert_eq!(news_summary("tek"), "tek");
}

#[test]
fn calendar_entries() {
    assert_eq!(calendar_chip("Pzt 12.05", 3), "Pzt 12.05 · 3");
    assert_eq!(calendar_day(0, 0), None);
    assert_eq!(calendar_day(2, 5), Some(2));
    assert_eq!(calendar_day(9, 5), Some(4));
    assert_eq!(calendar_thumb(Some("ep.jpg"), Some("p.jpg")), (Some("ep.jpg"), 96, 54));
    assert_eq!(calendar_thumb(None, Some("p.jpg")), (Some("p.jpg"), 48, 72));
    assert_eq!(calendar_thumb(None, None), (None, 48, 72));
    assert_eq!(calendar_name("", 42), "Anime #42");
    assert_eq!(calendar_name("Frieren", 42), "Frieren");
    assert_eq!(calendar_line(1, 7, "Yolculuk"), "S01E07 · Yolculuk");
    assert_eq!(calendar_line(0, 7, "Yolculuk"), "Yolculuk");
    assert_eq!(calendar_line(2, 3, ""), "S02E03");
    assert_eq!(calendar_line(0, 0, ""), "");
}
