use animecix::playback::{
    aniskip_input_conf, decide_retry, keybind_seek_command, prompt_due, skip_target,
    socket_timeout_hit, source_is_dead, start_pos, SkipTimes,
};

#[test]
fn decide_retry_source_error_retries() {
    let (retry, playing) = decide_retry(true, false, true);
    assert!(retry, "kaynak hatası yeniden denenmeli");
    assert!(!playing);
}

#[test]
fn decide_retry_user_close_no_retry() {
    let (retry, playing) = decide_retry(true, true, true);
    assert!(!retry);
    assert!(playing);
}

#[test]
fn decide_retry_not_exited_no_retry() {
    let (retry, playing) = decide_retry(false, false, true);
    assert!(!retry);
    assert!(playing);
}

#[test]
fn decide_retry_never_opened_no_retry_flag() {
    let (retry, playing) = decide_retry(true, false, false);
    assert!(!retry);
    assert!(!playing);
}

// The duration argument is "no duration known", which the player reports
// as a duration not above zero.
fn no_dur(d: f64) -> bool {
    d <= 0.0
}

#[test]
fn slow_source_within_window_is_not_killed() {
    assert!(!source_is_dead(5, true, no_dur(0.0), false, 20), "5sn'de öldürülmemeli");
    assert!(!source_is_dead(19, true, no_dur(0.0), false, 20), "19sn'de hâlâ sabırlı olunmalı");
}

#[test]
fn never_loaded_idle_source_is_dead_after_threshold() {
    assert!(source_is_dead(20, true, no_dur(0.0), false, 20), "20sn+idle+dur=0 -> ölü");
    assert!(source_is_dead(120, true, no_dur(0.0), false, 20));
}

#[test]
fn threshold_is_user_configurable() {
    assert!(!source_is_dead(45, true, no_dur(0.0), false, 90), "90sn sabırda 45sn ölü sayılmamalı");
    assert!(source_is_dead(90, true, no_dur(0.0), false, 90), "90sn sabırda eşikte ölü");
}

#[test]
fn loaded_source_is_never_killed_by_dead_check() {
    assert!(!source_is_dead(600, true, no_dur(1435.0), true, 20));
    assert!(
        !source_is_dead(600, true, no_dur(0.0), true, 20),
        "yüklendiyse duration anlık 0 okunsa bile"
    );
}

#[test]
fn playing_source_or_unknown_duration_not_dead() {
    assert!(!source_is_dead(600, false, no_dur(0.0), false, 20));
    assert!(!source_is_dead(600, true, no_dur(12.0), false, 20));
}

#[test]
fn socket_timeout_only_when_socket_never_seen() {
    assert!(socket_timeout_hit(26, false), "soket hiç gelmedi + 25sn doldu -> vazgeç");
    assert!(!socket_timeout_hit(24, false), "henüz süre dolmadı");
    assert!(!socket_timeout_hit(600, true), "soket varken zaman aşımı uygulanmaz");
}

#[test]
fn socket_timeout_at_exactly_twenty_five_seconds() {
    assert!(socket_timeout_hit(25, false));
}

fn times(op: Option<(u64, u64)>, ed: Option<(u64, u64)>) -> SkipTimes {
    SkipTimes {
        op_start: op.map(|p| p.0),
        op_end: op.map(|p| p.1),
        ed_start: ed.map(|p| p.0),
        ed_end: ed.map(|p| p.1),
    }
}

#[test]
fn skip_target_offers_intro_then_outro() {
    let t = times(Some((60_000, 150_000)), Some((1_300_000, 1_390_000)));
    assert_eq!(skip_target(&t, 59_000, false, false), Some((150_000, true)));
    assert_eq!(skip_target(&t, 58_499, false, false), None);
    assert_eq!(skip_target(&t, 150_000, false, false), Some((150_000, true)));
    assert_eq!(skip_target(&t, 150_001, false, false), None);
    assert_eq!(skip_target(&t, 100_000, true, false), None);
    assert_eq!(skip_target(&t, 1_298_500, false, false), Some((1_390_000, false)));
    assert_eq!(skip_target(&t, 1_300_000, false, true), None);
}

#[test]
fn skip_target_needs_both_ends() {
    let t = times(None, None);
    assert_eq!(skip_target(&t, 0, false, false), None);
    let half = SkipTimes { op_start: Some(0), op_end: None, ed_start: None, ed_end: None };
    assert_eq!(skip_target(&half, 0, false, false), None);
}

#[test]
fn prompt_window_spans_from_before_start_to_25_seconds_after() {
    assert!(prompt_due(58_500, 60_000));
    assert!(!prompt_due(58_499, 60_000));
    assert!(prompt_due(85_000, 60_000));
    assert!(!prompt_due(85_001, 60_000));
    assert!(prompt_due(0, 1_000));
}

#[test]
fn start_pos_takes_the_larger_position() {
    assert_eq!(start_pos(Some((100_000, 1_400_000)), Some(104_000)), Some(104_000));
    assert_eq!(start_pos(Some((10_000, 1_400_000)), Some(12_000)), Some(12_000));
    assert_eq!(start_pos(Some((100_000, 1_400_000)), Some(90_000)), Some(100_000));
    assert_eq!(start_pos(Some((100_000, 1_400_000)), Some(106_000)), Some(106_000));
    assert_eq!(start_pos(None, Some(6_000)), Some(6_000));
    assert_eq!(start_pos(None, Some(5_000)), None);
    assert_eq!(start_pos(Some((4_000, 1_400_000)), None), None);
    // Past 95% of the episode the local position is not resumed.
    assert_eq!(start_pos(Some((1_330_000, 1_400_000)), None), None);
    assert_eq!(start_pos(Some((1_329_000, 1_400_000)), None), Some(1_329_000));
    assert_eq!(start_pos(Some((100_000, 0)), None), None);
}

#[test]
fn input_conf_with_and_without_times() {
    let t = times(Some((62_000, 151_960)), None);
    let conf = aniskip_input_conf(&t);
    assert_eq!(
        conf,
        "s seek 152.0 absolute; show-text \"⏩ İntro Atlandı (AniSkip: 01:02 → 02:31)\" 3000\n\
         e show-text \"⚠️ Outro zamanı bulunamadı (AniSkip)\" 2500\n\
         S seek -30; show-text \"⏪ 30s Geri\" 2000\nEnd ignore\n"
    );
    let none = aniskip_input_conf(&times(None, None));
    assert!(none.starts_with("s show-text \"⚠️ İntro zamanı bulunamadı (AniSkip)\" 2500\n"));
}

#[test]
fn keybind_seek_rounds_to_tenths() {
    assert_eq!(
        keybind_seek_command('s', 83_449),
        "{\"command\":[\"keybind\",\"s\",\"seek 83.4 absolute\"]}\n"
    );
    assert_eq!(
        keybind_seek_command('e', 83_450),
        "{\"command\":[\"keybind\",\"e\",\"seek 83.5 absolute\"]}\n"
    );
}

use animecix::playback::{aniskip_next, initial_input_conf, AniSkipNext};

#[test]
fn initial_key_bindings() {
    assert!(initial_input_conf(true).starts_with("s show-text \"⏳ AniSkip çözümleniyor…\" 2000\n"));
    assert!(initial_input_conf(false).contains("e show-text \"AniSkip kapalı (Ayarlar)\" 2000\n"));
    assert!(initial_input_conf(false).ends_with("End ignore\n"));
}

#[test]
fn aniskip_is_asked_five_times() {
    let none = times(None, None);
    assert_eq!(aniskip_next(0, &none), AniSkipNext::RetryAfter(45));
    assert_eq!(aniskip_next(3, &none), AniSkipNext::RetryAfter(45));
    assert_eq!(aniskip_next(4, &none), AniSkipNext::GiveUp);
    let outro_only = SkipTimes { op_start: None, op_end: None, ed_start: None, ed_end: Some(1) };
    assert_eq!(aniskip_next(4, &outro_only), AniSkipNext::Apply);
}

#[test]
fn patience_is_at_least_ten_seconds() {
    assert_eq!(animecix::playback::patience_from_setting(0), 10);
    assert_eq!(animecix::playback::patience_from_setting(9), 10);
    assert_eq!(animecix::playback::patience_from_setting(45), 45);
}

#[test]
fn playing_records_the_episode_then_picks_the_player() {
    let p = animecix::playback::play_plan(77, 1, 3, true);
    assert_eq!((p.title_id, p.season, p.episode), (77, 1, 3));
    assert_eq!(p.route, animecix::playback::PlayRoute::Embedded);
    assert_eq!(animecix::playback::play_plan(77, 1, 3, false).route, animecix::playback::PlayRoute::External);
}
