use vhs_gui::app::{below_player, capture_clock, job_summary, player_button, App, BelowPlayer, Central};
use vhs_gui::config::Config;
use vhs_gui::mpv_view::{capture_osd_text, properties_for, MpvView, PropertyValue, Source};
use vhs_gui::panels::monitor::{MonitorButton, MonitorPanel};
use vhs_gui::panels::upscale::UpscalePanel;
use vhs_gui::panels::ViewMode;
use vhs_gui::path::FilePath;
use vhs_gui::pipeline::{PipelineJob, SizedFile};

const SEC: u64 = 1_000_000_000;
const MS: u64 = 1_000_000;

fn monitor() -> MonitorPanel {
    MonitorPanel::new(&Config::for_home(Some("/home/u")), &Vec::new())
}

fn upscale() -> UpscalePanel {
    UpscalePanel::new("/home/u", &Vec::new(), &None, &None, &None)
}

fn job() -> PipelineJob {
    PipelineJob::start(
        "x",
        &FilePath::from_text("/s.sh"),
        &FilePath::from_text("/i"),
        &Vec::new(),
        &Vec::new(),
        &FilePath::from_text("/l"),
        0,
        "/h",
        "",
    )
    .started(0, 0)
}

fn upscale_job(total: u64) -> PipelineJob {
    job().with_upscale_tracking(
        FilePath::from_text("/w/segments"),
        FilePath::from_text("/o"),
        total,
    )
}

#[test]
fn a_save_waits_until_the_settings_are_left_alone() {
    let mut a = App::new(ViewMode::Monitor);
    assert!(!a.take_save(u64::MAX));
    a.arm_save(0);
    assert!(!a.take_save(750 * MS - 1));
    a.arm_save(500 * MS);
    assert!(!a.take_save(750 * MS));
    assert!(a.take_save(1250 * MS));
    assert!(!a.take_save(1250 * MS));
    a.arm_save(u64::MAX);
    assert!(!a.take_save(u64::MAX));
}

#[test]
fn the_rail() {
    let mut a = App::new(ViewMode::Monitor);
    assert!(!a.show_rail(ViewMode::Monitor));
    assert!(a.show_rail(ViewMode::Upscale));
    assert_eq!(a.view_mode, ViewMode::Upscale);
}

#[test]
fn panels_of_the_views() {
    let mut a = App::new(ViewMode::Monitor);
    let mut m = monitor();
    let mut u = upscale();
    assert!(a.shows_input_panel(&m) && !a.shows_settings_panel(&u));
    a.toggle_settings(&mut m, &mut u);
    assert!(!m.input_panel_open && !u.settings_panel_open);
    a.show_rail(ViewMode::Upscale);
    a.toggle_settings(&mut m, &mut u);
    assert!(!m.input_panel_open && u.settings_panel_open);
    assert!(!a.shows_input_panel(&m) && a.shows_settings_panel(&u));
}

#[test]
fn the_middle_of_the_window() {
    let mut a = App::new(ViewMode::Upscale);
    let mut u = upscale();
    assert_eq!(a.central(&u), Central::Player);
    u.pipeline = Some(job());
    assert_eq!(a.central(&u), Central::Player);
    u.pipeline = Some(upscale_job(1));
    assert_eq!(a.central(&u), Central::UpscalePreview);
    a.show_rail(ViewMode::Monitor);
    assert_eq!(a.central(&u), Central::Player);
}

#[test]
fn the_status_line() {
    let mut a = App::new(ViewMode::Monitor);
    assert_eq!(a.status, "");
    a.say(Some("Idle".to_owned()));
    a.say(None);
    assert_eq!(a.status, "Idle");
}

#[test]
fn a_job_in_the_background() {
    let mut j = upscale_job(7);
    j.note_segments(&Some(vec![SizedFile { path: FilePath::from_text("/w/seg_1.mp4"), len: Some(1) }]));
    assert_eq!(job_summary(&j, 75 * SEC), "⬆ 1/7 segs  1:15");
    assert_eq!(job_summary(&job(), 75 * SEC), "⬆ 1:15");
}

#[test]
fn below_the_video() {
    match below_player(Some((65, 3600)), true) {
        BelowPlayer::Clock(t) => assert_eq!(t, "1:05 / 1:00:00"),
        _ => panic!("a duration is known"),
    }
    assert!(matches!(below_player(None, true), BelowPlayer::NoMedia));
    assert!(matches!(below_player(None, false), BelowPlayer::Nothing));
}

#[test]
fn the_capture_clock() {
    let mut m = monitor();
    assert_eq!(capture_clock(&m, 0), None);
    assert_eq!(player_button(&m, false), Some("⏸"));
    assert_eq!(player_button(&m, true), Some("▶"));
    m.toolbar_section(MonitorButton::StartCapture, &Config::for_home(None), 0, None);
    m.note_started(0, 0);
    assert_eq!(capture_clock(&m, 61 * SEC).as_deref(), Some("00:01:01"));
    assert_eq!(player_button(&m, false), None);
    assert_eq!(capture_osd_text("00:01:01"), "\u{25CF} REC  00:01:01");
}

#[test]
fn addresses_of_sources() {
    assert_eq!(Source::V4l2("/dev/video0".to_owned()).to_mpv_url(), "av://v4l2:/dev/video0");
    assert_eq!(Source::Udp("udp://x".to_owned()).to_mpv_url(), "udp://x");
    assert_eq!(Source::File(FilePath::from_text("/a b")).to_mpv_url(), "/a b");
    assert_eq!(
        Source::File(FilePath { bytes: b"/\xff".to_vec() }).to_mpv_url(),
        "/\u{fffd}"
    );
    assert!(Source::V4l2(String::new()).is_live() && Source::Udp(String::new()).is_live());
    assert!(!Source::File(FilePath::from_text("/a")).is_live());
}

fn spelled(v: &PropertyValue) -> String {
    match v {
        PropertyValue::Flag(b) => format!("{b}"),
        PropertyValue::Int(i) => format!("{i}"),
        PropertyValue::Text(t) => format!("{t:?}"),
    }
}

#[test]
fn properties_of_sources() {
    let values = |s: &Source| -> Vec<String> {
        properties_for(s).iter().map(|(_, v)| spelled(v)).collect()
    };
    let names = |s: &Source| -> Vec<&'static str> {
        properties_for(s).iter().map(|(n, _)| *n).collect()
    };
    let file = Source::File(FilePath::from_text("/a"));
    let dev = Source::V4l2("d".to_owned());
    let udp = Source::Udp("u".to_owned());
    assert_eq!(
        names(&file),
        vec![
            "untimed",
            "vd-lavc-threads",
            "demuxer-max-bytes",
            "demuxer-max-back-bytes",
            "cache-pause",
            "framedrop",
            "demuxer-lavf-o",
        ]
    );
    assert_eq!(names(&file), names(&dev));
    assert_eq!(names(&file), names(&udp));
    assert_eq!(
        values(&dev),
        vec!["true", "1", "\"200KiB\"", "\"0\"", "false", "\"vo\"", "\"fflags=nobuffer\""]
    );
    assert_eq!(
        values(&udp),
        vec!["false", "0", "\"200KiB\"", "\"0\"", "false", "\"vo\"", "\"fflags=nobuffer\""]
    );
    assert_eq!(
        values(&file),
        vec!["false", "0", "\"150MiB\"", "\"150MiB\"", "true", "\"vo\"", "\"\""]
    );
}

#[test]
fn a_click_pauses_files_only() {
    let mut v = MpvView::new();
    assert!(!v.click_toggles_pause());
    v.open(&Source::Udp("u".to_owned()));
    assert!(!v.click_toggles_pause());
    assert_eq!(v.overlay(false, true, 1, Some(1)), (None, false));
    let (properties, url) = v.open(&Source::File(FilePath::from_text("/f.mkv")));
    assert_eq!((properties.len(), url.as_str()), (7, "/f.mkv"));
    assert!(v.click_toggles_pause());
    assert_eq!(
        v.overlay(false, true, 61, Some(3600)),
        (Some("1:01  /  -1:00:00".to_owned()), true)
    );
    assert_eq!(v.overlay(false, false, 61, None), (Some("1:01".to_owned()), false));
    assert_eq!(v.overlay(true, true, 61, None), (None, false));
    v.stop();
    assert!(!v.click_toggles_pause());
}
