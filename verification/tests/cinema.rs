use animecix::cinema::{Cinema, Hide};

#[test]
fn pointer_hides_after_a_second_and_controls_after_two() {
    let mut c = Cinema::new(0);
    assert_eq!(c.tick(999, false), Hide { cursor: false, chrome: false });
    assert_eq!(c.tick(1000, false), Hide { cursor: true, chrome: false });
    assert_eq!(c.tick(1500, false), Hide { cursor: false, chrome: false });
    assert_eq!(c.tick(2000, false), Hide { cursor: false, chrome: true });
    assert!(c.chrome_hidden && c.cursor_hidden);
}

#[test]
fn open_popover_keeps_everything_shown() {
    let mut c = Cinema::new(0);
    assert_eq!(c.tick(5000, true), Hide { cursor: false, chrome: false });
    assert_eq!(c.last_motion_ms, 5000);
    assert_eq!(c.tick(5999, false), Hide { cursor: false, chrome: false });
}

#[test]
fn motion_wakes_only_when_it_is_real() {
    let mut c = Cinema::new(0);
    assert!(!c.motion(10_000, 10_000, 100));
    c.tick(3000, false);
    assert!(c.chrome_hidden);
    // Within the grace time after hiding.
    assert!(!c.motion(50_000, 50_000, 3500));
    // A small move away from where the pointer hid.
    assert!(!c.motion(10_500, 10_000, 4000));
    // The same spot again.
    assert!(!c.motion(10_520, 10_010, 4100));
    // A real move brings the controls back.
    assert!(c.motion(30_000, 10_000, 4200));
    assert!(!c.chrome_hidden && !c.cursor_hidden);
    assert_eq!(c.last_motion_ms, 4200);
}

#[test]
fn full_screen_shows_everything() {
    let mut c = Cinema::new(0);
    c.tick(3000, false);
    c.fullscreen(true, 3100);
    assert!(!c.chrome_hidden && !c.cursor_hidden);
    assert_eq!(c.hidden_at_ms, Some(3100));
    assert!(!c.motion(90_000, 90_000, 3200), "geçiş sonrası kayma yoksayılır");
}
