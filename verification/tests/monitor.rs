use vhs_gui::capture::{ChildPoll, StopTimer};
use vhs_gui::config::Config;
use vhs_gui::mpv_view::Source;
use vhs_gui::panels::monitor::{
    fmt_secs, parse_duration_secs, read_duration, CaptureState, DurationText, Effect,
    MonitorButton, MonitorPanel, PlayerAction,
};

const SEC: u64 = 1_000_000_000;

fn cfg() -> Config {
    Config::for_home(Some("/home/u"))
}

fn panel() -> MonitorPanel {
    MonitorPanel::new(&cfg(), &Vec::new())
}

fn capturing() -> MonitorPanel {
    let mut m = panel();
    m.toolbar_section(MonitorButton::StartCapture, &cfg(), 0, None);
    m.note_started(0, 0);
    m
}

fn opened(e: &Effect) -> Option<String> {
    match &e.player {
        PlayerAction::Open(Source::V4l2(d)) => Some(d.clone()),
        PlayerAction::Open(Source::Udp(u)) => Some(u.clone()),
        _ => None,
    }
}

const PREVIEW: &str = "udp://127.0.0.1:23000?pkt_size=1316";

#[test]
fn durations_are_read() {
    assert_eq!(parse_duration_secs("01:02:03"), Some(3723));
    assert_eq!(parse_duration_secs(" 1:30 "), Some(90));
    assert_eq!(parse_duration_secs("45"), Some(45));
    assert_eq!(parse_duration_secs("0:90:90"), Some(5490));
    assert_eq!(parse_duration_secs(""), None);
    assert_eq!(parse_duration_secs("1:2:3:4"), None);
    assert_eq!(parse_duration_secs("1:x"), None);
    assert_eq!(parse_duration_secs("-1"), None);
    assert_eq!(read_duration("90"), DurationText::Secs(90));
    assert_eq!(read_duration("later"), DurationText::Invalid);
    assert_eq!(read_duration("18446744073709551615:0:0"), DurationText::TooLong);
    assert_eq!(read_duration("0:0:18446744073709551615"), DurationText::Secs(u64::MAX));
    assert_eq!(read_duration("0:1:18446744073709551615"), DurationText::TooLong);
}

#[test]
fn durations_are_spelled() {
    assert_eq!(fmt_secs(0), "0s");
    assert_eq!(fmt_secs(59), "59s");
    assert_eq!(fmt_secs(61), "1m 01s");
    assert_eq!(fmt_secs(3600), "1h 00m 00s");
    assert_eq!(fmt_secs(36_125), "10h 02m 05s");
}

#[test]
fn the_elapsed_time_is_a_duration() {
    let mut m = capturing();
    m.capture.poll(ChildPoll::Running, 3723 * SEC);
    let shown = m.capture.elapsed_str(3723 * SEC);
    assert_eq!(shown, "01:02:03");
    assert_eq!(read_duration(&shown), DurationText::Secs(3723));
}

#[test]
fn a_new_panel() {
    let m = panel();
    assert_eq!(m.state, CaptureState::Idle);
    assert_eq!(m.max_duration, "04:00:00");
    assert!(m.input_panel_open && !m.preview_opened);
    assert_eq!(
        m.state.buttons(),
        vec![MonitorButton::Monitor, MonitorButton::StartCapture]
    );
    assert_eq!(m.v4l2.ctrls[0].value, 25);
}

#[test]
fn monitoring_and_back() {
    let mut m = panel();
    let e = m.toolbar_section(MonitorButton::Monitor, &cfg(), 0, None);
    assert_eq!(opened(&e), Some(cfg().v4l2_device));
    assert_eq!(e.status.as_deref(), Some("Monitoring live signal"));
    assert_eq!(m.state, CaptureState::Monitoring);
    assert_eq!(
        m.state.buttons(),
        vec![MonitorButton::StartCapture, MonitorButton::StopMonitor]
    );
    let e = m.toolbar_section(MonitorButton::StopMonitor, &cfg(), 0, None);
    assert!(matches!(e.player, PlayerAction::Stop));
    assert_eq!(e.status.as_deref(), Some("Idle"));
    assert_eq!(m.state, CaptureState::Idle);
}

#[test]
fn the_device_is_released_before_a_capture() {
    let mut m = panel();
    m.toolbar_section(MonitorButton::Monitor, &cfg(), 0, None);
    let e = m.toolbar_section(MonitorButton::StartCapture, &cfg(), 10, None);
    assert!(matches!(e.player, PlayerAction::Stop));
    assert!(e.launch.is_none());
    assert_eq!(e.status.as_deref(), Some("Releasing device…"));
    assert_eq!(m.state, CaptureState::Releasing);
    assert!(m.state.buttons().is_empty());
    let e = m.poll_release(false, 10 + SEC, &cfg());
    assert!(e.launch.is_none());
    let e = m.poll_release(false, 11 + SEC, &cfg());
    assert!(e.launch.is_some());
    let e = m.note_started(11 + SEC, 99);
    assert_eq!(e.status.as_deref(), Some("Capturing…"));
    assert_eq!(m.state, CaptureState::Capturing);
    assert_eq!(m.capture_stop_input, "04:00:00");
    assert_eq!(m.releasing_at, None);
}

#[test]
fn an_idle_player_releases_at_once() {
    let mut m = panel();
    m.toolbar_section(MonitorButton::Monitor, &cfg(), 0, None);
    m.toolbar_section(MonitorButton::StartCapture, &cfg(), 10, None);
    let e = m.poll_release(true, 10, &cfg());
    let launch = e.launch.unwrap();
    assert_eq!(launch.args[0].lossy_text(), "/home/u/Videos/vhs_capture_ffmpeg.sh");
    assert_eq!(launch.envs[0].1, "04:00:00");
    assert!(e.cancel_timer);
}

#[test]
fn a_capture_that_cannot_start() {
    let mut m = panel();
    let e = m.toolbar_section(MonitorButton::StartCapture, &cfg(), 0, None);
    assert!(e.launch.is_some());
    let e = m.note_start_failed("no bash");
    assert_eq!(e.status.as_deref(), Some("Capture failed to start: no bash"));
    assert_eq!(m.state, CaptureState::Idle);
}

#[test]
fn a_capture_that_still_shuts_down() {
    let mut m = capturing();
    m.toolbar_section(MonitorButton::StopCapture, &cfg(), 0, Some("5"));
    assert!(m.capture.is_running());
    let e = m.toolbar_section(MonitorButton::StartCapture, &cfg(), 0, None);
    assert!(e.launch.is_none());
    assert_eq!(e.status.as_deref(), Some("Capture failed to start: capture already running"));
    assert_eq!(m.state, CaptureState::Idle);
}

#[test]
fn the_preview_is_opened_and_opened_again() {
    let mut m = capturing();
    let e = m.poll(false, SEC, None);
    assert_eq!(opened(&e).as_deref(), Some(PREVIEW));
    assert_eq!(e.status.as_deref(), Some("Capturing… (previewing)"));
    assert!(m.preview_opened && !e.refresh);
    let e = m.poll(true, 3 * SEC, None);
    assert_eq!(opened(&e), None);
    let e = m.poll(true, 3 * SEC + 1, None);
    assert_eq!(opened(&e).as_deref(), Some(PREVIEW));
    assert_eq!(e.status, None);
    let e = m.poll(true, 5 * SEC, None);
    assert_eq!(opened(&e), None);
}

#[test]
fn a_capture_that_ends_by_itself() {
    let mut m = capturing();
    m.poll(false, SEC, None);
    m.capture.poll(ChildPoll::Exited, 2 * SEC);
    let e = m.poll(false, 2 * SEC, None);
    assert_eq!(e.status.as_deref(), Some("Capture ended"));
    assert!(e.refresh && e.interrupt.is_none());
    assert_eq!(m.state, CaptureState::Idle);
    assert!(!m.preview_opened);
    assert_eq!(m.capture_stop_input, "");
}

#[test]
fn a_capture_that_is_stopped() {
    let mut m = capturing();
    m.poll(false, SEC, None);
    let e = m.toolbar_section(MonitorButton::StopCapture, &cfg(), 0, Some(" 42\n"));
    assert_eq!(e.interrupt, Some(42));
    assert!(e.cancel_timer && e.refresh);
    assert_eq!(e.status.as_deref(), Some("Capture stopped"));
    assert_eq!(m.state, CaptureState::Idle);
    assert!(!m.preview_opened && m.capture_stop_at.is_none() && m.capture.stop_timer.is_none());
}

#[test]
fn a_countdown_runs_out() {
    let mut m = capturing();
    let e = m.stop_after(90, SEC, 1_000, Some("42"));
    assert_eq!(e.timer, Some(StopTimer { pgid: 42, deadline: 90_000_001_000 }));
    assert!(e.cancel_timer);
    assert_eq!(e.status.as_deref(), Some("Stopping in 1m 30s"));
    assert_eq!(m.countdown(SEC), Some(90));
    assert_eq!(m.countdown_text(2 * SEC).as_deref(), Some("⏱ 1m 29s"));
    assert_eq!(m.countdown(999 * SEC), Some(0));
    assert!(!m.stop_due(90 * SEC));
    assert!(m.stop_due(91 * SEC));
    let e = m.poll(false, 91 * SEC, Some("42"));
    assert_eq!(e.status.as_deref(), Some("Capture stopped (timer)"));
    assert_eq!(e.interrupt, Some(42));
    assert_eq!(opened(&e).as_deref(), Some(PREVIEW));
    assert!(e.refresh);
    assert_eq!(m.countdown_text(91 * SEC), None);
}

#[test]
fn a_countdown_without_a_group_file() {
    let mut m = capturing();
    let e = m.stop_after(1, 0, 0, None);
    assert_eq!(e.timer, None);
    assert_eq!(m.countdown(0), Some(1));
    let mut idle = panel();
    let e = idle.stop_after(1, 0, 0, Some("1"));
    assert!(e.timer.is_none() && e.status.is_none());
    assert_eq!(idle.capture_stop_at, None);
}

#[test]
fn buttons_that_are_not_offered_do_nothing() {
    let all = [
        MonitorButton::Monitor,
        MonitorButton::StartCapture,
        MonitorButton::StopMonitor,
        MonitorButton::StopCapture,
    ];
    for b in all {
        let mut m = panel();
        if !m.state.buttons().contains(&b) {
            let e = m.toolbar_section(b, &cfg(), 0, Some("1"));
            assert!(e.status.is_none() && e.launch.is_none() && !e.refresh);
            assert_eq!(m.state, CaptureState::Idle);
        }
        let mut c = capturing();
        if !c.state.buttons().contains(&b) {
            let e = c.toolbar_section(b, &cfg(), 0, Some("1"));
            assert!(e.status.is_none() && e.interrupt.is_none());
            assert_eq!(c.state, CaptureState::Capturing);
        }
    }
}

#[test]
fn the_progress_of_a_capture() {
    let mut m = capturing();
    m.capture.note_log(&vec!["frame= 12 time=00:00:05.00 bitrate=9k".to_owned()]);
    assert_eq!(m.progress_text(5 * SEC), "  00:00:05  frame 12  00:00:05.00  9k");
}

#[test]
fn the_input_panel() {
    let mut m = panel();
    let (msgs, changed) = m.show_input_panel(false, &vec![(1, 3)], None, false);
    assert!(changed && msgs.len() == 1 && m.input_panel_open);
    assert_eq!(m.v4l2.ctrls[1].value, 3);
    let (msgs, changed) = m.show_input_panel(false, &Vec::new(), None, true);
    assert!(!changed && msgs.is_empty() && !m.input_panel_open);
}

#[test]
fn a_reset_of_all_controls_is_a_change() {
    let mut m = panel();
    m.show_input_panel(false, &vec![(1, 3)], None, false);
    let (msgs, changed) = m.show_input_panel(true, &Vec::new(), None, false);
    assert!(changed);
    let sent: Vec<i32> = msgs.iter().map(|m| m.value).collect();
    assert_eq!(sent, vec![25, 127, 127, 0, 0]);
    assert!(m.v4l2.ctrls.iter().all(|c| c.value == c.default));
    let (msgs, changed) = m.show_input_panel(true, &Vec::new(), None, false);
    assert!(!changed);
    assert_eq!(msgs.len(), 5);
    let (msgs, changed) = m.show_input_panel(true, &vec![(3, 9)], Some(0), false);
    assert!(changed);
    assert_eq!(msgs.len(), 7);
    assert_eq!(m.v4l2.ctrls[3].value, 9);
    let (_, changed) = m.reset_all();
    assert!(changed);
    let (_, changed) = m.reset_all();
    assert!(!changed);
    assert!(!m.v4l2.off_default());
}
