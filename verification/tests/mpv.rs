use animecix::json::{Json, JsonField};
use animecix::json::JsonNumber;
use animecix::mpv::{clock, fmt_time, get_property_command, position_reply, prop_reply, Track};

fn obj(fields: Vec<(&str, Json)>) -> Json {
    Json::Object(fields.into_iter().map(|(k, v)| JsonField { key: k.to_string(), value: v }).collect())
}

fn track(id: i64, lang: Option<&str>, title: Option<&str>) -> Track {
    Track {
        id,
        kind: "sub".to_string(),
        lang: lang.map(|s| s.to_string()),
        title: title.map(|s| s.to_string()),
        selected: false,
    }
}

#[test]
fn track_labels() {
    assert_eq!(track(2, Some("tur"), Some("Türkçe")).label(), "#2 · tur · Türkçe");
    assert_eq!(track(1, Some("und"), None).label(), "#1");
    assert_eq!(track(3, Some(""), Some("Signs")).label(), "#3 · Signs");
    assert_eq!(track(4, None, Some("")).label(), "#4");
    assert_eq!(track(-1, Some("jpn"), None).label(), "#-1 · jpn");
}

#[test]
fn clock_texts() {
    assert_eq!(fmt_time(0), "00:00");
    assert_eq!(fmt_time(65), "01:05");
    assert_eq!(fmt_time(3599), "59:59");
    assert_eq!(fmt_time(3600), "01:00:00");
    assert_eq!(fmt_time(3725), "01:02:05");
    assert_eq!(fmt_time(360_000), "100:00:00");
    assert_eq!(clock(65), "1:05");
    assert_eq!(clock(3725), "1:02:05");
}

#[test]
fn property_requests() {
    assert_eq!(get_property_command("core-idle"), "{\"command\":[\"get_property\",\"core-idle\"]}\n");
}

fn whole(n: &Option<JsonNumber>) -> Option<u64> {
    match n {
        Some(JsonNumber::Whole(x)) => Some(*x),
        _ => None,
    }
}

#[test]
fn property_replies() {
    let ok = |data: Json| obj(vec![("data", data), ("error", Json::Str("success".into()))]);
    assert_eq!(whole(&prop_reply(&ok(Json::Bool(true)))), Some(1));
    assert_eq!(whole(&prop_reply(&ok(Json::Bool(false)))), Some(0));
    assert_eq!(whole(&prop_reply(&ok(Json::Uint(1435)))), Some(1435));
    match prop_reply(&ok(Json::OtherNumber("12.5".into()))) {
        Some(JsonNumber::Written(w)) => assert_eq!(w, "12.5"),
        _ => panic!("a written number was expected"),
    }
    assert!(prop_reply(&ok(Json::Str("x".into()))).is_none());
    let failed = obj(vec![("error", Json::Str("property unavailable".into()))]);
    assert!(prop_reply(&failed).is_none());
}

#[test]
fn position_replies() {
    let ok = |data: Json| obj(vec![("data", data), ("error", Json::Str("success".into()))]);
    let failed = obj(vec![("error", Json::Str("property unavailable".into()))]);
    let (p, d) = position_reply(&ok(Json::Uint(30)), &failed).unwrap();
    assert_eq!(whole(&p), Some(30));
    assert!(d.is_none());
    assert!(position_reply(&failed, &ok(Json::Uint(1))).is_none());
}
