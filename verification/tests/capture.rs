use vhs_gui::capture::{
    find_newest_log, find_output_file, parse_pgid, tail_log, CaptureController, CaptureError,
    ChildPoll, LogStep, StopTimer, TimerStep,
};
use vhs_gui::launch::Stream;
use vhs_gui::order::DirFile;
use vhs_gui::path::FilePath;

const SEC: u64 = 1_000_000_000;

fn path(s: &str) -> FilePath {
    FilePath::from_text(s)
}

fn file(p: &str, modified: Option<i128>) -> DirFile {
    DirFile { path: path(p), modified }
}

fn strings(v: &[&str]) -> Vec<String> {
    v.iter().map(|s| s.to_string()).collect()
}

fn controller() -> CaptureController {
    CaptureController::new(path("/v/logs/capture.pgid"), path("/v/captures/archival"))
}

#[test]
fn the_last_progress_line_counts() {
    let lines = strings(&[
        "frame= 1 time=00:00:01.00 bitrate= 10kbits/s",
        "frame=  250 fps=25 time=00:00:10.00 bitrate=8000.1kbits/s speed=1x",
        "[mpegts] something else",
    ]);
    assert_eq!(
        tail_log(&lines),
        (250, "00:00:10.00".to_owned(), "8000.1kbits/s".to_owned())
    );
}

#[test]
fn a_line_without_its_fields() {
    assert_eq!(tail_log(&strings(&["frame=abc"])), (0, String::new(), String::new()));
    assert_eq!(tail_log(&strings(&["frame="])), (0, String::new(), String::new()));
    assert_eq!(tail_log(&Vec::new()), (0, String::new(), String::new()));
}

#[test]
fn only_the_last_twenty_lines_are_searched() {
    let mut lines = strings(&["frame=7"]);
    for _ in 0..19 {
        lines.push("x".to_owned());
    }
    assert_eq!(tail_log(&lines).0, 7);
    lines.push("x".to_owned());
    assert_eq!(tail_log(&lines).0, 0);
}

#[test]
fn the_group_file_is_read() {
    assert_eq!(parse_pgid(Some(" 1234\n")), Some(1234));
    assert_eq!(parse_pgid(Some("-5")), Some(-5));
    assert_eq!(parse_pgid(Some("12x")), None);
    assert_eq!(parse_pgid(Some("")), None);
    assert_eq!(parse_pgid(None), None);
}

#[test]
fn a_timer_sleeps_in_chunks() {
    let t = StopTimer { pgid: 7, deadline: 2_000_000_000 };
    assert_eq!(t.step(false, 0), TimerStep::Sleep(500_000_000));
    assert_eq!(t.step(false, 1_900_000_000), TimerStep::Sleep(100_000_000));
    assert_eq!(t.step(false, 2_000_000_000), TimerStep::Due);
    assert_eq!(t.step(false, 9_000_000_000), TimerStep::Due);
    assert_eq!(t.step(true, 0), TimerStep::Cancelled);
    assert_eq!(t.step(false, i128::MIN), TimerStep::Sleep(500_000_000));
}

#[test]
fn a_late_timer_ends_no_other_capture() {
    let t = StopTimer { pgid: 7, deadline: 0 };
    assert_eq!(t.fire(false, Some("7\n")), Some(7));
    assert_eq!(t.fire(false, Some("8")), None);
    assert_eq!(t.fire(false, None), None);
    assert_eq!(t.fire(true, Some("7")), None);
}

#[test]
fn starting_a_capture() {
    let mut c = controller();
    let launch = c.start(&path("/v/vhs_capture_ffmpeg.sh"), "01:00:00").ok().unwrap();
    let args: Vec<String> = launch.args.iter().map(|a| a.lossy_text()).collect();
    assert_eq!(args, vec!["/v/vhs_capture_ffmpeg.sh"]);
    assert_eq!(launch.program, "bash");
    assert!(launch.own_group);
    assert_eq!(
        (launch.stdin, launch.stdout, launch.stderr),
        (Stream::Null, Stream::Null, Stream::Inherited)
    );
    assert_eq!(
        launch.envs,
        vec![
            ("MAX_CAPTURE_DURATION".to_owned(), "01:00:00".to_owned()),
            ("VHS_PREVIEW".to_owned(), "1".to_owned()),
        ]
    );
    c.note_started(5, 50);
    assert!(c.is_running());
    let refused = c.start(&path("/v/x.sh"), "1");
    assert!(matches!(refused, Err(CaptureError::AlreadyRunning)));
    assert_eq!(CaptureError::AlreadyRunning.message(), "capture already running");
}

#[test]
fn polling_the_process() {
    let mut c = controller();
    c.note_started(SEC, 0);
    c.poll(ChildPoll::Running, 3 * SEC);
    assert!(c.is_running());
    assert_eq!(c.stats.elapsed, 2 * SEC);
    assert_eq!(c.elapsed_str(3 * SEC), "00:00:02");
    assert_eq!(c.elapsed_str(0), "00:00:00");
    assert_eq!(c.elapsed_str(SEC + 360_061 * SEC), "100:01:01");
    c.poll(ChildPoll::Exited, 9 * SEC);
    assert!(!c.is_running());
    assert_eq!(c.stats.elapsed, 2 * SEC);
    assert_eq!(c.elapsed_str(9 * SEC), "--:--:--");
}

#[test]
fn a_process_that_cannot_be_asked_after() {
    let mut c = controller();
    c.note_started(0, 0);
    c.poll(ChildPoll::Failed, 4 * SEC);
    assert!(!c.is_running());
    assert_eq!(c.elapsed_str(4 * SEC), "00:00:04");
    assert_eq!(c.stats.elapsed, 4 * SEC);
}

#[test]
fn finding_the_output() {
    let files = Some(vec![
        file("/a/old.mkv", Some(9)),
        file("/a/first.mkv", Some(10)),
        file("/a/note.txt", Some(99)),
        file("/a/second.mp4", Some(12)),
        file("/a/third.mkv", Some(12)),
        file("/a/undated.mkv", None),
    ]);
    assert_eq!(find_output_file(&files, 10).map(|p| p.lossy_text()).as_deref(), Some("/a/third.mkv"));
    assert!(find_output_file(&files, 13).is_none());
    assert!(find_output_file(&None, 0).is_none());

    let mut c = controller();
    assert!(!c.wants_output());
    c.note_listing(&files);
    assert!(c.output_path.is_none());
    c.note_started(0, 10);
    assert!(c.wants_output());
    c.note_listing(&None);
    assert!(c.wants_output());
    c.note_listing(&files);
    assert!(!c.wants_output());
    assert_eq!(c.output_path.as_ref().map(|p| p.lossy_text()).as_deref(), Some("/a/third.mkv"));
}

#[test]
fn finding_and_reading_the_log() {
    let logs = Some(vec![
        file("/v/logs/1_ffmpeg.log", Some(1)),
        file("/v/logs/2_ffmpeg.log.old", Some(2)),
        file("/v/logs/capture.pgid", Some(3)),
    ]);
    assert_eq!(
        find_newest_log(&logs).map(|p| p.lossy_text()).as_deref(),
        Some("/v/logs/2_ffmpeg.log.old")
    );
    let mut c = controller();
    assert!(matches!(c.log_step(), LogStep::Skip));
    c.note_started(0, 0);
    match c.log_step() {
        LogStep::Find(dir) => assert_eq!(dir.lossy_text(), "/v/logs"),
        _ => panic!("the log has to be looked for"),
    }
    c.note_logs(&logs);
    match c.log_step() {
        LogStep::Tail(log) => assert_eq!(log.lossy_text(), "/v/logs/2_ffmpeg.log.old"),
        _ => panic!("the log has to be read"),
    }
    c.note_log(&strings(&["frame=5 time=00:00:01 bitrate=2"]));
    assert_eq!((c.stats.frame, c.stats.time.as_str(), c.stats.bitrate.as_str()), (5, "00:00:01", "2"));
    c.poll(ChildPoll::Exited, 0);
    assert!(matches!(c.log_step(), LogStep::Tail(_)));
    c.note_started(0, 0);
    assert!(c.log_file.is_none() && c.output_path.is_none());
}

#[test]
fn arming_and_stopping() {
    let mut c = controller();
    let t = c.arm_stop_timer(2, 1_000, Some("77\n"));
    assert_eq!(t, Some(StopTimer { pgid: 77, deadline: 2_000_001_000 }));
    assert_eq!(c.stop_timer, t);
    assert_eq!(c.arm_stop_timer(2, 0, None), None);
    assert_eq!(c.stop_timer, None);
    c.arm_stop_timer(2, 0, Some("1"));
    c.cancel_stop_timer();
    assert_eq!(c.stop_timer, None);
    c.arm_stop_timer(2, 0, Some("1"));
    assert_eq!(c.stop(Some("9")), Some(9));
    assert_eq!(c.stop_timer, None);
    assert_eq!(c.stop(None), None);
}
