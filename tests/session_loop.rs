use afk::countdown::TimerConfig;
use afk::frame::caption_block;
use afk::painter::PaintOp;
use afk::session::{key_event, AppEvent, Key, Session};

fn run_config(initial: i32, allow_negative: bool) -> TimerConfig {
    let mut c = TimerConfig::default();
    c.initial_seconds = initial;
    c.allow_negative = allow_negative;
    c
}

#[test]
fn quit_with_tick_pending() {
    let c = run_config(10, false);
    let mut s = Session::start(&c, &caption_block(""), 0);
    assert!(s.running);
    assert!(s.handle_event(c.allow_negative, Some(AppEvent::Quit)));
    assert!(!s.running);
    assert!(!s.handle_event(c.allow_negative, Some(AppEvent::Tick)));
    assert_eq!(s.timer.remaining_seconds, 10);
    assert!(!s.handle_event(c.allow_negative, Some(AppEvent::Quit)));
    assert!(!s.running);
}

#[test]
fn tick_then_quit() {
    let c = run_config(10, false);
    let mut s = Session::start(&c, &caption_block(""), 0);
    assert!(!s.handle_event(c.allow_negative, Some(AppEvent::Tick)));
    assert!(!s.handle_event(c.allow_negative, None));
    assert_eq!(s.timer.remaining_seconds, 9);
    assert!(s.handle_event(c.allow_negative, Some(AppEvent::Quit)));
}

#[test]
fn clock_below_caption() {
    let c = run_config(5, false);
    let s = Session::start(&c, &caption_block("a\nb\n\nc"), 0);
    assert_eq!(s.clock.origin_row, 3);
    let s = Session::start(&c, &caption_block(""), 0);
    assert_eq!(s.clock.origin_row, 1);
}

#[test]
fn frame_text_follows_count() {
    let mut c = run_config(65, false);
    c.show_leading_zero_groups = false;
    let mut s = Session::start(&c, &caption_block(""), 0);
    assert_eq!(s.frame_text(&c, 0), Some("01:05".to_string()));
    s.handle_event(c.allow_negative, Some(AppEvent::Tick));
    assert_eq!(s.frame_text(&c, 100), Some("01:04".to_string()));
}

#[test]
fn blink_hides_and_erases_clock() {
    let c = run_config(0, false);
    let mut s = Session::start(&c, &caption_block(""), 0);
    assert_eq!(s.frame_text(&c, 100), Some("00:00:00".to_string()));
    let ops = s.paint_clock(Some(b"00\n".to_vec()));
    assert_eq!(ops, vec![PaintOp::Write { row: 1, text: "00".to_string() }]);
    assert_eq!(s.frame_text(&c, 500), None);
    let ops = s.paint_clock(None);
    assert_eq!(ops, vec![PaintOp::Erase { row: 1, width: 2 }]);
    assert!(s.clock.previous.is_empty());
    assert_eq!(s.frame_text(&c, 900), None);
    assert_eq!(s.frame_text(&c, 1000), Some("00:00:00".to_string()));
}

#[test]
fn failed_render_skips_paint() {
    let c = run_config(3, false);
    let mut s = Session::start(&c, &caption_block(""), 0);
    s.paint_clock(Some(b"03\n".to_vec()));
    assert!(s.paint_clock(None).is_empty());
    assert!(s.paint_clock(Some(vec![0xff])).is_empty());
    assert_eq!(s.clock.previous, vec!["03".to_string()]);
}

#[test]
fn countdown_run_to_zero() {
    let c = run_config(5, false);
    let mut s = Session::start(&c, &caption_block(""), 0);
    for _ in 0..7 {
        s.handle_event(c.allow_negative, Some(AppEvent::Tick));
    }
    assert_eq!(s.timer.remaining_seconds, 0);
    assert!(s.running);
}

#[test]
fn keys_that_quit() {
    assert_eq!(key_event(Key::Esc, false), Some(AppEvent::Quit));
    assert_eq!(key_event(Key::Esc, true), Some(AppEvent::Quit));
    assert_eq!(key_event(Key::Char('c'), true), Some(AppEvent::Quit));
    assert_eq!(key_event(Key::Char('c'), false), None);
    assert_eq!(key_event(Key::Char('C'), true), None);
    assert_eq!(key_event(Key::Char('q'), true), None);
    assert_eq!(key_event(Key::Other, true), None);
}
