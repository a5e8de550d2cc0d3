use animecix::embedded::{
    announce_text, switch_text, Announce, Effect, LoadStep, PlayerState, Reading, Source, Switch,
};
use animecix::playback::SkipTimes;

fn state(sources: Vec<Source>) -> PlayerState {
    PlayerState {
        sources,
        index: 0,
        media_loaded: false,
        resolving: false,
        aniskip_on: true,
        op_prompted: false,
        ed_prompted: false,
        op_seek_done: false,
        ed_seek_done: false,
        focus_mode: false,
        auto_next_episode: false,
        has_next: false,
        can_play_next: false,
        next_triggered: false,
        watched_marked: false,
        host_saved: false,
        patience_secs: 20,
        prog_key: "77:1:3".to_string(),
        alive: true,
    }
}

fn direct(u: &str) -> Source {
    Source::Direct(u.to_string())
}

fn embed(u: &str) -> Source {
    Source::Embed(u.to_string())
}

fn no_skip() -> SkipTimes {
    SkipTimes { op_start: None, op_end: None, ed_start: None, ed_end: None }
}

fn reading(pos_ms: u64, dur_ms: u64) -> Reading {
    Reading {
        pos_ms,
        dur_ms,
        idle: false,
        eof: false,
        core_idle: false,
        loaded_for_secs: 5,
        since_report_secs: 0,
        played_enough: false,
        skip: no_skip(),
    }
}

#[test]
fn sources_load_in_order_and_embeds_are_resolved() {
    let mut st = state(vec![direct("https://video.sibnet.ru/v/a/5.mp4"), embed("https://e/1")]);
    match st.load_source_at(0) {
        LoadStep::Load { url, referer } => {
            assert_eq!(url, "https://video.sibnet.ru/v/a/5.mp4");
            assert_eq!(referer.as_deref(), Some("https://video.sibnet.ru/shell.php?videoid=5"));
        }
        _ => panic!("a load was expected"),
    }
    assert!(matches!(st.next_source(), LoadStep::Resolve(e) if e == "https://e/1"));
    assert!(st.resolving);
    assert_eq!(st.index, 1);
    // A second request while resolving waits.
    assert!(matches!(st.load_source_at(1), LoadStep::Wait));
    let (why, step) = st.resolved(Ok("https://cdn/x.mp4".to_string()));
    assert!(why.is_none());
    assert!(matches!(step, LoadStep::Load { url, referer: None } if url == "https://cdn/x.mp4"));
    assert!(matches!(&st.sources[1], Source::Direct(u) if u == "https://cdn/x.mp4"));
    assert!(!st.resolving);
    assert!(matches!(st.next_source(), LoadStep::Exhausted));
}

#[test]
fn failed_resolution_moves_on() {
    let mut st = state(vec![embed("https://e/1"), direct("https://d/2")]);
    assert!(matches!(st.load_source_at(0), LoadStep::Resolve(_)));
    let (why, step) = st.resolved(Err("yok".into()));
    assert_eq!(why, Some(Switch::ResolveFailed));
    assert!(matches!(step, LoadStep::Load { url, .. } if url == "https://d/2"));
    assert_eq!(st.index, 1);
}

#[test]
fn media_arrival_starts_playback_and_progress_is_saved() {
    let mut st = state(vec![direct("a")]);
    let out = st.tick(reading(0, 1_400_000));
    assert!(out.start_playback);
    assert!(st.media_loaded);
    assert!(!out.save_progress);
    let mut r = reading(12_000, 1_400_000);
    r.since_report_secs = 61;
    let out = st.tick(r);
    assert!(!out.start_playback);
    assert!(out.save_progress && out.report_position);
    let mut r = reading(1_300_000, 1_400_000);
    r.played_enough = true;
    let out = st.tick(r);
    assert!(out.mark_watched && out.save_host);
    let out = st.tick(r);
    assert!(!out.mark_watched && !out.save_host, "bir kez işaretlenir");
}

#[test]
fn intro_is_announced_once_or_skipped_in_focus_mode() {
    let skip = SkipTimes { op_start: Some(60_000), op_end: Some(150_000), ed_start: None, ed_end: None };
    let mut st = state(vec![direct("a")]);
    st.media_loaded = true;
    let mut r = reading(59_000, 1_400_000);
    r.skip = skip;
    let out = st.tick(r);
    assert_eq!(out.effects, vec![Effect::Show(Announce::IntroStarted)]);
    assert_eq!(out.skip_button, Some(true));
    let out = st.tick(r);
    assert!(out.effects.is_empty());

    let mut st = state(vec![direct("a")]);
    st.media_loaded = true;
    st.focus_mode = true;
    let mut r = reading(59_600, 1_400_000);
    r.skip = skip;
    let out = st.tick(r);
    assert_eq!(out.effects, vec![Effect::Seek(150_000), Effect::Show(Announce::IntroSkipped)]);
    assert!(st.op_seek_done);
    assert_eq!(out.skip_button, None);
}

#[test]
fn focus_mode_starts_the_next_episode_at_the_outro() {
    let skip = SkipTimes { op_start: None, op_end: None, ed_start: Some(1_300_000), ed_end: Some(1_390_000) };
    let mut st = state(vec![direct("a")]);
    st.media_loaded = true;
    st.focus_mode = true;
    st.auto_next_episode = true;
    st.has_next = true;
    st.can_play_next = true;
    let mut r = reading(1_299_600, 1_400_000);
    r.skip = skip;
    let out = st.tick(r);
    assert_eq!(out.effects, vec![Effect::Show(Announce::NextEpisodeFocus), Effect::PlayNext]);
    assert!(st.next_triggered);
    // At the end of the file the next episode is not started twice.
    let mut r = reading(1_400_000, 1_400_000);
    r.eof = true;
    let out = st.tick(r);
    assert!(out.ended);
    assert!(out.effects.is_empty());
}

#[test]
fn early_end_is_a_broken_source() {
    let mut st = state(vec![direct("a"), direct("b")]);
    st.media_loaded = true;
    let mut r = reading(100_000, 1_400_000);
    r.eof = true;
    let out = st.tick(r);
    assert_eq!(out.switch_source, Some(Switch::Broken));
    assert!(!out.ended && !out.mark_watched);
    // On the last source the end is accepted.
    st.index = 1;
    let out = st.tick(r);
    assert!(out.ended && out.mark_watched);
}

#[test]
fn sources_that_never_load_are_left() {
    let mut st = state(vec![direct("a"), direct("b")]);
    let mut r = reading(0, 0);
    r.idle = true;
    r.loaded_for_secs = 24;
    assert_eq!(st.tick(r).switch_source, None);
    r.loaded_for_secs = 25;
    assert_eq!(st.tick(r).switch_source, Some(Switch::NotOpened));
    let mut r = reading(0, 0);
    r.core_idle = true;
    r.loaded_for_secs = 20;
    assert_eq!(st.tick(r).switch_source, Some(Switch::NotPlaying));
    st.resolving = true;
    assert_eq!(st.tick(r).switch_source, None);
}

#[test]
fn texts_and_title_id() {
    assert_eq!(switch_text(Switch::Broken), "Kaynak bozuk çıktı, diğerine geçiliyor…");
    assert_eq!(announce_text(Announce::IntroStarted).1, 7000);
    assert_eq!(announce_text(Announce::NextEpisode).2, "Sonraki bölüme geçiliyor...");
    assert_eq!(state(vec![]).tid(), 77);
    assert_eq!(direct("u").hint_url(), "u");
}

#[test]
fn closing_the_player_happens_once() {
    let mut s = state(vec![direct("https://a/x.mp4")]);
    let first = animecix::embedded::PlayerState::close(&mut s, 12_000);
    assert!(first.stop && first.save_progress && first.report_position);
    assert!(!s.alive);
    let again = s.close(12_000);
    assert!(!again.stop && !again.save_progress && !again.report_position);
}

#[test]
fn closing_early_saves_only_what_counts() {
    let mut s = state(vec![direct("https://a/x.mp4")]);
    let o = s.close(5_000);
    assert!(o.stop && o.save_progress && !o.report_position);
    let mut t = state(vec![direct("https://a/x.mp4")]);
    let o = t.close(999);
    assert!(o.stop && !o.save_progress && !o.report_position);
}

#[test]
fn no_player_without_sources() {
    assert!(animecix::embedded::player_sources(vec![], vec![]).is_none());
    let v = animecix::embedded::player_sources(vec!["https://a/1.mp4".to_string()], vec!["https://e/2".to_string()]).unwrap();
    assert_eq!(v.len(), 2);
    assert!(matches!(&v[0], Source::Direct(u) if u == "https://a/1.mp4"));
    assert!(matches!(&v[1], Source::Embed(u) if u == "https://e/2"));
}
