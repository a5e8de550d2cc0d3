use animecix::session::{Session, User};

fn cookies(s: &Session) -> Vec<(String, String)> {
    s.cookies.clone()
}

#[test]
fn set_cookie_headers_are_stored_and_read_back() {
    let mut s = Session::empty();
    s.store_from(&[
        "XSRF-TOKEN=abc%3D; expires=Fri, 01 Jan 2038 00:00:00 GMT; path=/".to_string(),
        "animecix_session=s1; path=/; httponly".to_string(),
    ]);
    assert_eq!(s.xsrf().as_deref(), Some("abc%3D"));
    assert_eq!(s.cookie("animecix_session").as_deref(), Some("s1"));
    assert_eq!(s.cookie_header(), "XSRF-TOKEN=abc%3D; animecix_session=s1");
    assert_eq!(s.xsrf_or_empty(), "abc%3D");
}

#[test]
fn a_new_value_replaces_the_old_in_place() {
    let mut s = Session::empty();
    s.store_from(&["a=1".to_string(), "b=2".to_string(), " a = 3 ; path=/".to_string()]);
    assert_eq!(cookies(&s), vec![("a".to_string(), "3".to_string()), ("b".to_string(), "2".to_string())]);
}

#[test]
fn expired_cookies_are_deleted_and_empty_values_ignored() {
    let mut s = Session::empty();
    s.store_from(&["a=1".to_string(), "b=2".to_string()]);
    s.store_from(&[
        "a=; Expires=Thu, 01 Jan 1970 00:00:00 GMT".to_string(),
        "b=; path=/".to_string(),
        "=x".to_string(),
        "novalue".to_string(),
    ]);
    assert_eq!(s.cookie("a"), None);
    assert_eq!(s.cookie("b").as_deref(), Some("2"));
    assert_eq!(cookies(&s).len(), 1);
}

#[test]
fn empty_session_sends_no_cookies() {
    let s = Session::empty();
    assert_eq!(s.cookie_header(), "");
    assert_eq!(s.xsrf(), None);
    assert_eq!(s.xsrf_or_empty(), "");
    assert!(s.user.is_none());
}

#[test]
fn user_copies_are_equal() {
    let u = User { id: 7, name: "ada".into(), email: "a@b".into(), avatar: Some("x.png".into()) };
    let c = u.duplicate();
    assert_eq!(c.id, 7);
    assert_eq!(c.name, "ada");
    assert_eq!(c.email, "a@b");
    assert_eq!(c.avatar.as_deref(), Some("x.png"));
}
