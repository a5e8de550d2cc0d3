use animecix::account::{
    err_msg, parse_user, resp_ok, watchlist_id_from, Client, FavStage, ListAction, LoginStage,
    Reply, Request, Step, login_form, PosCache,
};
use animecix::json::{Json, JsonField};
use animecix::session::{Session, User};

fn obj(fields: Vec<(&str, Json)>) -> Json {
    Json::Object(fields.into_iter().map(|(k, v)| JsonField { key: k.to_string(), value: v }).collect())
}

fn s(t: &str) -> Json {
    Json::Str(t.to_string())
}

fn answered(status: u16, set_cookies: Vec<&str>, body: Json) -> Reply {
    Reply::Answered {
        status,
        set_cookies: set_cookies.into_iter().map(|c| c.to_string()).collect(),
        body: Ok(body),
    }
}

fn sent(step: &Step<Result<(), String>>) -> &Request {
    match step {
        Step::Send(r) => r,
        Step::Done(_) => panic!("a request was expected"),
    }
}

fn signed_in_client() -> Client {
    let mut session = Session::empty();
    session.store_from(&["XSRF-TOKEN=tok".to_string(), "sess=abc".to_string()]);
    session.user = Some(User { id: 42, name: "ada".into(), email: "a@b".into(), avatar: None });
    Client { session }
}

#[test]
fn user_is_read_from_user_then_data_then_top() {
    let v = obj(vec![("user", obj(vec![("id", Json::Uint(5)), ("username", s("neo"))]))]);
    let u = parse_user(&v).unwrap();
    assert_eq!((u.id, u.name.as_str(), u.email.as_str()), (5, "neo", ""));
    let v = obj(vec![("data", obj(vec![("display_name", s("trin")), ("avatar_url", s("a.png"))]))]);
    let u = parse_user(&v).unwrap();
    assert_eq!((u.id, u.name.as_str(), u.avatar.as_deref()), (0, "trin", Some("a.png")));
    let v = obj(vec![("id", Json::Uint(9)), ("email", s("m@x"))]);
    let u = parse_user(&v).unwrap();
    assert_eq!((u.id, u.name.as_str(), u.email.as_str()), (9, "", "m@x"));
    assert!(parse_user(&obj(vec![("message", s("x"))])).is_none());
}

#[test]
fn error_message_falls_back_in_order() {
    assert_eq!(err_msg(&obj(vec![("message", s("m")), ("error", s("e"))])), "m");
    assert_eq!(err_msg(&obj(vec![("error", s("e"))])), "e");
    assert_eq!(err_msg(&obj(vec![("errors", obj(vec![("email", s("bad mail"))]))])), "bad mail");
    assert_eq!(err_msg(&Json::Null), "Giriş başarısız");
}

#[test]
fn success_is_explicit_or_a_record_without_failure() {
    assert!(resp_ok(&obj(vec![("success", Json::Bool(true)), ("message", s("hata"))])));
    assert!(resp_ok(&obj(vec![("user", obj(vec![]))])));
    assert!(!resp_ok(&obj(vec![("user", obj(vec![])), ("error", s("x"))])));
    assert!(!resp_ok(&obj(vec![("data", obj(vec![])), ("message", s("Giriş Başarısız"))])));
    assert!(!resp_ok(&obj(vec![("data", obj(vec![])), ("message", s("Login failed"))])));
    assert!(resp_ok(&obj(vec![("id", Json::Uint(1)), ("error", Json::Null), ("message", s("ok"))])));
    assert!(!resp_ok(&obj(vec![("success", Json::Bool(false))])));
}

#[test]
fn watchlist_is_found_by_name() {
    let lists = obj(vec![(
        "pagination",
        obj(vec![(
            "data",
            Json::Array(vec![
                obj(vec![("name", s("liked")), ("id", Json::Uint(1))]),
                obj(vec![("name", s("watchlist")), ("id", Json::Uint(77))]),
            ]),
        )]),
    )]);
    assert_eq!(watchlist_id_from(&lists), Ok(77));
    let none = obj(vec![("data", Json::Array(vec![obj(vec![("name", s("liked"))])]))]);
    assert_eq!(watchlist_id_from(&none), Err("Watchlist bulunamadı".to_string()));
}

#[test]
fn fav_add_reads_the_lists_then_posts_the_change() {
    let client = signed_in_client();
    let (mut flow, step) = client.fav_add(1234);
    assert_eq!(flow.stage, FavStage::Lists);
    let req = sent(&step);
    assert!(!req.post);
    assert_eq!(req.path, "/secure/user-profile/42/lists?per_page=30");
    assert_eq!(req.cookie, "XSRF-TOKEN=tok; sess=abc");
    assert_eq!(req.xsrf, "tok");
    assert_eq!(req.timeout_secs, Some(20));

    let lists = obj(vec![(
        "data",
        Json::Array(vec![obj(vec![("name", s("watchlist")), ("id", Json::Uint(9))])]),
    )]);
    let step = flow.resume(&client, answered(200, vec![], lists));
    assert_eq!(flow.stage, FavStage::Change);
    let req = sent(&step);
    assert!(req.post);
    assert_eq!(req.path, "/secure/lists/9/add");
    assert_eq!(req.timeout_secs, Some(15));
    match &req.body {
        Some(Json::Object(fs)) => {
            assert_eq!(fs[0].key, "itemId");
            assert!(matches!(fs[0].value, Json::Uint(1234)));
            assert_eq!(fs[1].key, "itemType");
            assert!(matches!(&fs[1].value, Json::Str(t) if t == "title"));
        }
        _ => panic!("a body was expected"),
    }
    let done = flow.resume(&client, answered(200, vec![], obj(vec![("success", Json::Bool(true))])));
    assert!(matches!(done, Step::Done(Ok(()))));
    assert_eq!(flow.stage, FavStage::Over);
}

#[test]
fn fav_remove_targets_the_remove_action() {
    let client = signed_in_client();
    let (mut flow, _) = client.fav_remove(5);
    assert_eq!(flow.action, ListAction::Remove);
    let lists = obj(vec![("data", Json::Array(vec![obj(vec![("name", s("watchlist")), ("id", Json::Uint(3))])]))]);
    let step = flow.resume(&client, answered(200, vec![], lists));
    assert_eq!(sent(&step).path, "/secure/lists/3/remove");
    let done = flow.resume(&client, answered(200, vec![], obj(vec![("message", s("Hata oluştu"))])));
    assert!(matches!(done, Step::Done(Err(m)) if m == "Hata oluştu"));
}

#[test]
fn fav_change_needs_a_signed_in_user_and_a_valid_session() {
    let client = Client { session: Session::empty() };
    let (flow, step) = client.fav_add(1);
    assert_eq!(flow.stage, FavStage::Over);
    assert!(matches!(step, Step::Done(Err(m)) if m == "Giriş yapılmamış"));

    let client = signed_in_client();
    let (mut flow, _) = client.fav_add(1);
    let step = flow.resume(&client, answered(401, vec![], Json::Null));
    assert!(matches!(step, Step::Done(Err(m)) if m == "Oturum geçersiz (tekrar giriş yap)"));

    let (mut flow, _) = client.fav_add(1);
    let step = flow.resume(&client, Reply::Failed("bağlantı yok".into()));
    assert!(matches!(step, Step::Done(Err(m)) if m == "bağlantı yok"));

    let (mut flow, _) = client.fav_add(1);
    let step = flow.resume(&client, answered(200, vec![], obj(vec![("data", Json::Array(vec![]))])));
    assert!(matches!(step, Step::Done(Err(m)) if m == "Watchlist bulunamadı"));
}

#[test]
fn login_warms_up_then_retries_token_complaints() {
    let client = Client { session: Session::empty() };
    let mut session = Session::empty();
    let (mut flow, first) = client.login("a@b.c", "pw");
    assert_eq!(flow.stage, LoginStage::WarmUp);
    match &first.step {
        Step::Send(r) => {
            assert!(!r.post && r.path == "/" && !r.with_session && r.timeout_secs.is_none());
        }
        _ => panic!("the warm-up request was expected"),
    }
    // The warm-up sets the XSRF cookie; the first attempt carries it.
    let next = flow.resume(&mut session, answered(200, vec!["XSRF-TOKEN=t1; path=/"], Json::Null));
    assert_eq!(next.pause_secs, 0);
    match &next.step {
        Step::Send(r) => {
            assert!(r.post);
            assert_eq!(r.path, "/secure/auth/login");
            assert_eq!(r.xsrf, "t1");
            assert_eq!(r.timeout_secs, Some(20));
        }
        _ => panic!("a login attempt was expected"),
    }
    // A CSRF complaint with a fresh cookie: retried after two seconds.
    let next = flow.resume(
        &mut session,
        answered(419, vec!["XSRF-TOKEN=t2"], obj(vec![("message", s("CSRF token mismatch."))])),
    );
    assert_eq!(next.pause_secs, 2);
    assert_eq!(flow.attempt, 1);
    match &next.step {
        Step::Send(r) => assert_eq!(r.xsrf, "t2"),
        _ => panic!("a second attempt was expected"),
    }
    // Success stores the account.
    let ok = obj(vec![
        ("success", Json::Bool(true)),
        ("user", obj(vec![("id", Json::Uint(3)), ("username", s("ada"))])),
    ]);
    let done = flow.resume(&mut session, answered(200, vec![], ok));
    match done.step {
        Step::Done(Ok(u)) => assert_eq!((u.id, u.name.as_str()), (3, "ada")),
        _ => panic!("the account was expected"),
    }
    assert_eq!(session.user.as_ref().map(|u| u.id), Some(3));
    assert_eq!(flow.stage, LoginStage::Over);
}

#[test]
fn login_gives_up_after_four_token_complaints() {
    let client = Client { session: Session::empty() };
    let mut session = Session::empty();
    let (mut flow, _) = client.login("a", "b");
    let _ = flow.resume(&mut session, Reply::Failed("offline".into()));
    let complaint = || answered(403, vec![], obj(vec![("message", s("Token expired"))]));
    for _ in 0..3 {
        let step = flow.resume(&mut session, complaint());
        assert!(matches!(step.step, Step::Send(_)));
    }
    let last = flow.resume(&mut session, complaint());
    assert_eq!(last.pause_secs, 2);
    assert!(matches!(last.step, Step::Done(Err(m)) if m == "Token expired"));
}

#[test]
fn wrong_password_stops_at_once() {
    let client = Client { session: Session::empty() };
    let mut session = Session::empty();
    let (mut flow, _) = client.login("a", "b");
    let _ = flow.resume(&mut session, answered(200, vec![], Json::Null));
    let step = flow.resume(&mut session, answered(422, vec![], obj(vec![("message", s("Şifre yanlış"))])));
    assert_eq!(step.pause_secs, 0);
    assert!(matches!(step.step, Step::Done(Err(m)) if m == "Şifre yanlış"));
    assert!(session.user.is_none());
}

#[test]
fn success_without_an_account_is_an_error() {
    let client = Client { session: Session::empty() };
    let mut session = Session::empty();
    let (mut flow, _) = client.login("a", "b");
    let _ = flow.resume(&mut session, answered(200, vec![], Json::Null));
    let step = flow.resume(&mut session, answered(200, vec![], obj(vec![("success", Json::Bool(true))])));
    assert!(matches!(step.step, Step::Done(Err(m)) if m == "Kullanıcı bilgisi okunamadı"));
}

#[test]
fn logout_request_and_local_reset() {
    let mut client = signed_in_client();
    let req = client.logout_request().unwrap();
    assert!(req.post);
    assert_eq!(req.path, "/secure/auth/logout");
    assert_eq!(req.timeout_secs, Some(15));
    client.logout();
    assert!(client.session.user.is_none());
    assert!(client.session.cookies.is_empty());
    assert!(client.logout_request().is_none());
    assert!(!client.is_logged_in());
    assert!(client.session_user().is_none());
}

use animecix::account::{authed_body, merge_server_favs, remote_time, resume_ms, watchlist_items};
use animecix::json::JsonNumber;

#[test]
fn signed_in_pages_and_their_answers() {
    let c = Client { session: Session::empty() };
    assert_eq!(c.authed_get("lists").err().as_deref(), Some("Giriş yapılmamış"));
    let c = signed_in_client();
    let r = c.authed_get("lists?per_page=1").unwrap();
    assert_eq!(r.path, "/secure/lists?per_page=1");
    assert_eq!(r.timeout_secs, Some(20));
    assert!(matches!(authed_body(answered(401, vec![], Json::Null)), Err(m) if m == "Oturum geçersiz (tekrar giriş yap)"));
    assert!(matches!(authed_body(answered(200, vec![], Json::Uint(3))), Ok(Json::Uint(3))));
    assert!(matches!(authed_body(Reply::Failed("x".into())), Err(m) if m == "x"));
}

#[test]
fn watchlist_entries() {
    let lists = obj(vec![(
        "data",
        Json::Array(vec![obj(vec![
            ("name", s("watchlist")),
            ("items", Json::Array(vec![obj(vec![("id", Json::Uint(5))]), Json::Null])),
        ])]),
    )]);
    assert_eq!(watchlist_items(lists).unwrap().len(), 2);
    let no_items = obj(vec![("data", Json::Array(vec![obj(vec![("name", s("watchlist"))])]))]);
    assert!(watchlist_items(no_items).unwrap().is_empty());
    assert_eq!(watchlist_items(Json::Null).err().as_deref(), Some("Watchlist bulunamadı"));
    let c = signed_in_client();
    assert_eq!(c.watchlist_request().unwrap().path, "/secure/user-profile/42/lists?per_page=30");
    let none = Client { session: Session::empty() };
    assert_eq!(none.watchlist_request().err().as_deref(), Some("Giriş yapılmamış"));
}

#[test]
fn positions_on_the_server() {
    assert!(matches!(remote_time(&obj(vec![("time", Json::Uint(61_000))])), Some(JsonNumber::Whole(61_000))));
    assert!(matches!(
        remote_time(&obj(vec![("data", obj(vec![("time", Json::OtherNumber("1.5e4".into()))]))])),
        Some(JsonNumber::Written(w)) if w == "1.5e4"
    ));
    assert!(remote_time(&obj(vec![("time", s("x"))])).is_none());
    assert_eq!(resume_ms(5_000), None);
    assert_eq!(resume_ms(5_001), Some(5_001));

    let none = Client { session: Session::empty() };
    assert!(none.remote_pos_request(1, 1, 1).is_none());
    let c = signed_in_client();
    let r = c.remote_pos_request(9, 1, 4).unwrap();
    assert!(r.post);
    assert_eq!(r.path, "/secure/history/get-current-time");
    assert!(c.report_pos_request(9, 1, 4, 9_999).is_none());
    let r = c.report_pos_request(9, 1, 4, 10_000).unwrap();
    assert_eq!(r.path, "/secure/history/report-current-time");
    match &r.body {
        Some(Json::Object(fs)) => {
            assert_eq!(fs.len(), 4);
            assert_eq!(fs[3].key, "time");
            assert!(matches!(fs[3].value, Json::Uint(10_000)));
        }
        _ => panic!("a body was expected"),
    }
    let r = c.put_title_request(9, "Ad", 1_700_000_000_000, Some(Json::Uint(1))).unwrap();
    assert_eq!(r.path, "/secure/history/put-title");
    match &r.body {
        Some(Json::Object(fs)) => {
            let keys: Vec<&str> = fs.iter().map(|f| f.key.as_str()).collect();
            assert_eq!(keys, vec!["id", "name", "date", "videos", "episodes"]);
        }
        _ => panic!("a body was expected"),
    }
}

#[test]
fn favourites_sync_and_merge() {
    let none = Client { session: Session::empty() };
    assert!(none.fav_sync(1, true).is_none());
    let c = signed_in_client();
    let (flow, _) = c.fav_sync(8, false).unwrap();
    assert_eq!(flow.action, ListAction::Remove);
    assert_eq!(flow.title_id, 8);

    let mut saved = vec![(1u64, "a"), (2, "b")];
    let added = merge_server_favs(&mut saved, vec![(3, "c"), (2, "b2"), (4, "d"), (3, "c2")]);
    assert_eq!(added, 2);
    assert_eq!(saved, vec![(4, "d"), (3, "c"), (1, "a"), (2, "b")]);
}

#[test]
fn probes_after_signing_in() {
    let c = signed_in_client();
    let probes = c.probe_requests();
    let paths: Vec<&str> = probes.iter().map(|(p, _)| *p).collect();
    assert_eq!(paths, vec!["auth/social-profiles", "lists?per_page=1", "lists/liked", "last-episodes?page=1", "list-includes?itemId=1"]);
    assert_eq!(probes[2].1.path, "/secure/lists/liked");
    assert!(Client { session: Session::empty() }.probe_requests().is_empty());
}

#[test]
fn sign_in_form_needs_both_fields() {
    assert_eq!(
        login_form("  ali@example.com ", "gizli"),
        Ok(("ali@example.com".to_string(), "gizli".to_string()))
    );
    assert_eq!(login_form("   ", "gizli"), Err("E-posta ve şifre gerekli".to_string()));
    assert_eq!(login_form("ali@example.com", ""), Err("E-posta ve şifre gerekli".to_string()));
    // The password is taken as typed.
    assert_eq!(
        login_form("a@b.c", " p "),
        Ok(("a@b.c".to_string(), " p ".to_string()))
    );
}

#[test]
fn server_positions_are_remembered_for_five_minutes() {
    let mut c: PosCache<u64> = PosCache::new();
    assert_eq!(c.lookup((7, 1, 2), 0), None);
    c.store((7, 1, 2), 100, 61_000);
    c.store((7, 1, 3), 100, 5_500);
    assert_eq!(c.lookup((7, 1, 2), 100), Some(61_000));
    assert_eq!(c.lookup((7, 1, 2), 399), Some(61_000));
    assert_eq!(c.lookup((7, 1, 2), 400), None);
    c.store((7, 1, 2), 450, 90_000);
    assert_eq!(c.lookup((7, 1, 2), 451), Some(90_000));
    assert_eq!(c.entries.len(), 2);
}

#[test]
fn a_full_position_store_is_forgotten() {
    let mut c: PosCache<u64> = PosCache::new();
    for e in 0..5001u64 {
        c.store((1, 1, e), 0, e);
    }
    assert_eq!(c.entries.len(), 5001);
    c.store((2, 1, 1), 0, 9);
    assert_eq!(c.entries.len(), 1);
    assert_eq!(c.lookup((1, 1, 0), 0), None);
    assert_eq!(c.lookup((2, 1, 1), 0), Some(9));
}
