use animecix::history::ServerEntry;
use animecix::home::{HomeHistory, NextPage};

fn e(id: u64, date: u64) -> ServerEntry<u64> {
    ServerEntry { title_id: id, title: id, date, season: 1, episode: 1 }
}

fn ids(h: &HomeHistory<u64>) -> Vec<u64> {
    h.server.iter().map(|x| x.title_id).collect()
}

#[test]
fn pool_is_read_once_then_after_five_minutes() {
    let mut h: HomeHistory<u64> = HomeHistory::new();
    assert!(!h.refresh(false, 1000));
    assert!(h.refresh(true, 1000));
    assert!(!h.refresh(true, 1200));
    assert!(h.refresh(true, 1300));
    // A failed read lets the next refresh try again at once.
    h.history_arrived(Err("zaman aşımı".into()), true);
    assert!(h.refresh(true, 1301));
}

#[test]
fn fresh_reads_replace_and_refreshes_merge() {
    let mut h: HomeHistory<u64> = HomeHistory::new();
    h.cont_page = 2;
    h.history_arrived(Ok((vec![e(1, 30), e(2, 20)], 40)), true);
    assert_eq!(ids(&h), vec![1, 2]);
    assert_eq!((h.total, h.pool_pages, h.cont_page), (40, 3, 0));
    h.cont_page = 1;
    h.pool_pages = 6;
    h.history_arrived(Ok((vec![e(2, 50), e(3, 10)], 41)), false);
    assert_eq!(ids(&h), vec![2, 1, 3]);
    assert_eq!((h.total, h.pool_pages, h.cont_page), (41, 6, 1));
}

#[test]
fn growing_the_pool() {
    let mut h: HomeHistory<u64> = HomeHistory::new();
    h.history_arrived(Ok((vec![e(1, 30)], 90)), true);
    assert!(h.more_available(true));
    assert!(!h.more_available(false));
    assert_eq!(h.more(true), Some((3, 6)));
    assert_eq!(h.more(true), None, "zaten büyüyor");
    assert_eq!(h.more_arrived(6, Ok((vec![e(4, 5)], 90)), 2), None);
    assert_eq!((h.pool_pages, h.more_loading), (6, false));
    assert_eq!(ids(&h), vec![1, 4]);
    h.cont_page = 5;
    assert_eq!(h.more(true), Some((6, 9)));
    assert_eq!(h.more_arrived(9, Err("hata".into()), 23), Some("hata".to_string()));
    assert_eq!((h.pool_pages, h.cont_page), (6, 2));
}

#[test]
fn pages_of_ten() {
    let mut h: HomeHistory<u64> = HomeHistory::new();
    h.total = 100;
    assert_eq!(h.buttons(25, false), (false, true));
    assert_eq!(h.page_range(25), Some((0, 10)));
    assert_eq!(h.next_clicked(25, false), NextPage::Show);
    assert_eq!(h.next_clicked(25, false), NextPage::Show);
    assert_eq!(h.page_range(25), Some((20, 25)));
    assert_eq!(h.buttons(25, false), (true, false));
    assert_eq!(h.buttons(25, true), (true, true));
    assert_eq!(h.next_clicked(25, false), NextPage::Stay);
    assert_eq!(h.cont_page, 2);
    assert_eq!(h.next_clicked(25, true), NextPage::Grow);
    assert_eq!(h.page_range(25), None, "sayfa yükleniyor");
    assert!(h.prev_clicked());
    assert_eq!(h.cont_page, 2);
    let mut empty: HomeHistory<u64> = HomeHistory::new();
    assert_eq!(empty.buttons(0, false), (false, false));
    assert!(!empty.prev_clicked());
}
