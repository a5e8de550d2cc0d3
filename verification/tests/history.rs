use animecix::account::Client;
use animecix::history::{
    combine_pages, continue_items, merge_entries, parse_history_page, resume_season,
    sort_by_date_desc, ServerEntry, combine_page_results,
};
use animecix::json::{Json, JsonField};
use animecix::session::{Session, User};

fn obj(fields: Vec<(&str, Json)>) -> Json {
    Json::Object(fields.into_iter().map(|(k, v)| JsonField { key: k.to_string(), value: v }).collect())
}

fn e(id: u64, name: &'static str, date: u64, season: u64, episode: u64) -> ServerEntry<&'static str> {
    ServerEntry { title_id: id, title: name, date, season, episode }
}

fn ids(v: &[ServerEntry<&'static str>]) -> Vec<(u64, &'static str, u64)> {
    v.iter().map(|x| (x.title_id, x.title, x.date)).collect()
}

#[test]
fn sort_is_newest_first_and_stable() {
    let v = vec![e(1, "a", 10, 1, 1), e(2, "b", 30, 1, 1), e(3, "c", 10, 1, 1), e(4, "d", 20, 1, 1)];
    let s = sort_by_date_desc(v);
    assert_eq!(ids(&s), vec![(2, "b", 30), (4, "d", 20), (1, "a", 10), (3, "c", 10)]);
}

#[test]
fn merge_upserts_by_title_and_sorts() {
    let cur = vec![e(1, "old", 10, 1, 1), e(2, "b", 20, 1, 2)];
    let incoming = vec![e(1, "new", 50, 1, 3), e(3, "c", 15, 2, 1)];
    let m = merge_entries(cur, incoming);
    assert_eq!(ids(&m), vec![(1, "new", 50), (2, "b", 20), (3, "c", 15)]);
    assert_eq!(m[0].episode, 3);
}

#[test]
fn history_page_is_read_with_total() {
    let item = |date: u64, s: u64, ep: u64| {
        obj(vec![
            ("id", Json::Uint(100 + ep)),
            ("date", Json::Uint(date)),
            (
                "videos",
                Json::Array(vec![obj(vec![("season_num", Json::Uint(s)), ("episode_num", Json::Uint(ep))])]),
            ),
        ])
    };
    let v = obj(vec![(
        "data",
        obj(vec![
            ("totalData", Json::Array(vec![item(5, 1, 2), obj(vec![("id", Json::Uint(7))])])),
            ("totalCount", Json::Array(vec![obj(vec![("count", Json::Uint(31))])])),
        ]),
    )]);
    let (recs, total) = parse_history_page(v).unwrap();
    assert_eq!(total, 31);
    assert_eq!(recs.len(), 2);
    assert_eq!((recs[0].date, recs[0].season, recs[0].episode), (5, 1, 2));
    assert_eq!((recs[1].date, recs[1].season, recs[1].episode), (0, 0, 0));
}

#[test]
fn history_page_errors() {
    let refused = obj(vec![("success", Json::Bool(false)), ("error", Json::Str("yasak".into()))]);
    assert_eq!(parse_history_page(refused).err().as_deref(), Some("yasak"));
    let refused = obj(vec![("success", Json::Bool(false))]);
    assert_eq!(parse_history_page(refused).err().as_deref(), Some("Sunucu geçmişi vermedi"));
    let shapeless = obj(vec![("data", obj(vec![]))]);
    assert_eq!(parse_history_page(shapeless).err().as_deref(), Some("Geçmiş yanıtı anlaşılmadı"));
    let with_msg = obj(vec![("message", Json::Str("Unauthenticated.".into()))]);
    assert_eq!(parse_history_page(with_msg).err().as_deref(), Some("Unauthenticated."));
}

#[test]
fn continue_row_takes_each_title_once_newest_first() {
    // Local dates are seconds, server dates milliseconds.
    let local = vec![e(1, "local-1", 100, 1, 4), e(2, "local-2", 50, 1, 1)];
    let server = vec![e(1, "server-1", 90_000, 1, 3), e(3, "server-3", 200_000, 2, 1)];
    let items = continue_items(local, true, server);
    assert_eq!(
        ids(&items),
        vec![(3, "server-3", 200_000), (1, "local-1", 100_000), (2, "local-2", 50_000)]
    );
}

#[test]
fn continue_row_without_local_history() {
    let local = vec![e(1, "local-1", 100, 1, 4)];
    let server = vec![e(1, "server-1", 90_000, 1, 3), e(1, "server-1b", 80_000, 1, 2)];
    let items = continue_items(local, false, server);
    assert_eq!(ids(&items), vec![(1, "server-1", 90_000)]);
}

#[test]
fn resume_season_prefers_local_history() {
    let local = vec![e(1, "a", 1, 2, 5), e(2, "b", 1, 0, 1)];
    let server = vec![e(1, "a", 1, 3, 1), e(2, "b", 1, 4, 1)];
    assert_eq!(resume_season(&local, true, &server, 1), Some(2));
    assert_eq!(resume_season(&local, false, &server, 1), Some(3));
    assert_eq!(resume_season(&local, true, &server, 2), Some(4));
    assert_eq!(resume_season(&local, true, &server, 9), None);
}

#[test]
fn pages_are_combined_skipping_failed_ones() {
    let first = vec![e(1, "a", 30, 1, 1)];
    let rest = vec![Ok(vec![e(2, "b", 40, 1, 1)]), Err("zaman aşımı".to_string()), Ok(vec![e(3, "c", 10, 1, 1)])];
    let all = combine_pages(first, rest);
    assert_eq!(ids(&all), vec![(2, "b", 40), (1, "a", 30), (3, "c", 10)]);
}

#[test]
fn history_requests_need_an_account() {
    let c = Client { session: Session::empty() };
    assert!(c.server_history_page(0).is_none());
    assert!(c.server_top(3).is_none());
    let mut session = Session::empty();
    session.store_from(&["XSRF-TOKEN=t".to_string()]);
    session.user = Some(User { id: 1, name: "a".into(), email: "".into(), avatar: None });
    let c = Client { session };
    let r = c.server_history_page(4).unwrap();
    assert_eq!(r.path, "/secure/history/get-titles?page=4");
    assert_eq!(r.xsrf, "t");
    let reqs = c.server_pages(2, 3).unwrap();
    let paths: Vec<&str> = reqs.iter().map(|r| r.path.as_str()).collect();
    assert_eq!(paths, vec![
        "/secure/history/get-titles?page=2",
        "/secure/history/get-titles?page=3",
        "/secure/history/get-titles?page=4",
    ]);
    // At least one page is read.
    assert_eq!(c.server_top(0).unwrap().len(), 1);
}

#[test]
fn page_runs_answer_as_their_first_page() {
    let rest: Vec<Result<Vec<ServerEntry<&'static str>>, String>> =
        vec![Ok(vec![e(3, "c", 50, 1, 1)]), Err("zaman aşımı".to_string())];
    match combine_page_results(Ok((vec![e(1, "a", 30, 1, 1)], 42)), rest) {
        Ok((v, total)) => {
            assert_eq!(total, 42);
            assert_eq!(ids(&v), vec![(3, "c", 50), (1, "a", 30)]);
        }
        Err(_) => panic!("first page was read"),
    }
    let r = combine_page_results::<&'static str>(Err("Sunucu geçmişi vermedi".to_string()), vec![]);
    assert!(matches!(r, Err(ref m) if m == "Sunucu geçmişi vermedi"));
}
