use animecix::supervisor::{
    input_conf_path, media_title, mpv_args, opening_notice, socket_path, Poll, SupNext, SupOut,
    SupStage, Supervisor,
};

fn urls(v: &[&str]) -> Vec<String> {
    v.iter().map(|s| s.to_string()).collect()
}

fn spawn_of(o: &SupOut) -> String {
    match &o.next {
        SupNext::Spawn(u) => u.clone(),
        _ => panic!("a player start was expected"),
    }
}

fn poll(socket: bool, exited: bool, success: bool, idle: bool, dur: bool, secs: u64) -> Poll {
    Poll { exited, success, socket_exists: socket, core_idle: idle, has_duration: dur, elapsed_secs: secs }
}

#[test]
fn first_playing_source_ends_the_search() {
    let mut s = Supervisor::new(urls(&["m1", "m2"]), urls(&["e1", "e2"]), urls(&["f1"]), 20);
    let o = s.start();
    assert_eq!(spawn_of(&o), "m1");
    let o = s.started();
    assert!(matches!(o.next, SupNext::Poll));
    let o = s.poll(poll(false, false, false, false, false, 1));
    assert!(matches!(o.next, SupNext::Poll) && !o.dismiss_opening);
    let o = s.poll(poll(true, false, false, false, true, 2));
    assert!(o.dismiss_opening);
    assert!(s.playing && s.media_loaded);
    // The user closes the player normally.
    let o = s.poll(poll(true, true, true, false, true, 600));
    assert!(matches!(o.next, SupNext::Finished));
    assert!(o.wait_player && !o.kill);
    assert_eq!(o.remember_host_of.as_deref(), Some("e1"));
    assert!(o.notices.is_empty());
    assert_eq!(s.stage, SupStage::Over);
}

#[test]
fn crashing_source_moves_on_with_a_notice() {
    let mut s = Supervisor::new(urls(&["m1", "m2"]), urls(&[]), urls(&[]), 20);
    s.start();
    s.started();
    s.poll(poll(true, false, false, false, false, 1));
    let o = s.poll(poll(true, true, false, false, false, 3));
    assert!(o.kill);
    assert_eq!(o.notices, vec!["Kaynak açılamadı, diğer kaynağa geçiliyor…".to_string()]);
    assert_eq!(spawn_of(&o), "m2");
    assert_eq!(s.index, 1);
}

#[test]
fn dead_source_is_killed_after_the_patience() {
    let mut s = Supervisor::new(urls(&["m1"]), urls(&[]), urls(&["f1"]), 20);
    s.start();
    s.started();
    let o = s.poll(poll(true, false, false, true, false, 19));
    assert!(matches!(o.next, SupNext::Poll));
    let o = s.poll(poll(true, false, false, true, false, 20));
    assert!(o.kill);
    assert_eq!(
        o.notices,
        vec![
            "Kaynak açıldı ama oynatamadı, diğer kaynağa geçiliyor…".to_string(),
            "Kaynak açılamadı, diğer kaynağa geçiliyor…".to_string(),
        ]
    );
    // The fallback is resolved just in time.
    assert!(matches!(&o.next, SupNext::Resolve(e) if e == "f1"));
    assert_eq!(s.stage, SupStage::Resolving);
    let o = s.resolved(Ok("m-f1".to_string()));
    assert_eq!(spawn_of(&o), "m-f1");
}

#[test]
fn missing_socket_times_out_and_the_last_failure_is_announced() {
    let mut s = Supervisor::new(urls(&["m1"]), urls(&[]), urls(&[]), 20);
    s.start();
    s.started();
    let o = s.poll(poll(false, false, false, false, false, 24));
    assert!(matches!(o.next, SupNext::Poll));
    let o = s.poll(poll(false, false, false, false, false, 25));
    assert!(o.kill);
    assert_eq!(o.notices, vec!["Bölüm hiçbir kaynakta açılamadı.".to_string()]);
    assert!(matches!(o.next, SupNext::Finished));
    assert_eq!(s.stage, SupStage::Over);
}

#[test]
fn failed_resolution_and_start_skip_silently() {
    let mut s = Supervisor::new(urls(&["m1"]), urls(&[]), urls(&["f1", "f2"]), 20);
    s.start();
    let o = s.start_failed();
    assert!(o.notices.is_empty());
    assert!(matches!(&o.next, SupNext::Resolve(e) if e == "f1"));
    let o = s.resolved(Err("çözülemedi".into()));
    assert!(matches!(&o.next, SupNext::Resolve(e) if e == "f2"));
    let o = s.resolved(Err("çözülemedi".into()));
    assert!(matches!(o.next, SupNext::Finished));
    assert!(o.notices.is_empty());
}

#[test]
fn nothing_to_play() {
    let mut s = Supervisor::new(urls(&[]), urls(&[]), urls(&[]), 20);
    assert!(matches!(s.start().next, SupNext::Finished));
}

#[test]
fn player_texts() {
    assert_eq!(media_title("Naruto", 1, 5), "Naruto | S01E05");
    assert_eq!(socket_path(9, 1, 5), "/tmp/animecix-mpv-9-1-5.sock");
    assert_eq!(input_conf_path(9), "/tmp/animecix-input-9.conf");
    assert_eq!(opening_notice("N | S01E05", Some(3725)), "▶ N | S01E05 açılıyor… (1:02:05'den)");
    assert_eq!(opening_notice("N", Some(65)), "▶ N açılıyor… (1:05'den)");
    assert_eq!(opening_notice("N", None), "▶ N açılıyor…");
}

#[test]
fn player_command_line() {
    let args = mpv_args(
        "T | S01E01",
        "/tmp/s.sock",
        true,
        "/tmp/in.conf",
        Some(83_450),
        &vec!["--glsl-shaders=/x.glsl".to_string()],
        "https://video.sibnet.ru/v/a/123.mp4",
        true,
    );
    assert!(args[0].starts_with("--user-agent=Mozilla/5.0"));
    assert_eq!(args[1], "--force-media-title=T | S01E01");
    assert_eq!(args[2], "--keep-open=yes");
    assert_eq!(args[3], "--input-ipc-server=/tmp/s.sock");
    assert_eq!(args[4], "--fullscreen");
    assert_eq!(args[5], "--input-conf=/tmp/in.conf");
    assert_eq!(args[6], "--start=83.5");
    assert_eq!(args[7], "--cache=yes");
    assert_eq!(args[17], "--ytdl-format=bestvideo[height<=1080]+bestaudio/best");
    assert_eq!(args[18], "--glsl-shaders=/x.glsl");
    assert_eq!(args[19], "https://video.sibnet.ru/v/a/123.mp4");
    assert_eq!(
        args[20],
        "--http-header-fields=Referer: https://video.sibnet.ru/shell.php?videoid=123\nAccept: */*"
    );
    assert_eq!(args[21], "--http-proxy=http://127.0.0.1:10808");
    assert_eq!(args.len(), 22);
    let plain = mpv_args("T", "/s", false, "/c", None, &vec![], "https://x/v.mp4", false);
    assert_eq!(plain.len(), 17);
    assert_eq!(plain[16], "https://x/v.mp4");
}
