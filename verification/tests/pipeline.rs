use vhs_gui::capture::ChildPoll;
use vhs_gui::launch::Stream;
use vhs_gui::path::FilePath;
use vhs_gui::pipeline::{
    count_pictures, count_segments, parse_probe, read_reports, split_time, JobPlan, JobSignal,
    PipelineJob, SizedFile,
};

const SEC: u64 = 1_000_000_000;

fn path(s: &str) -> FilePath {
    FilePath::from_text(s)
}

fn strings(v: &[&str]) -> Vec<String> {
    v.iter().map(|s| s.to_string()).collect()
}

fn plan(label: &str, home: &str, search: &str) -> JobPlan {
    PipelineJob::start(
        label,
        &path("/v/vhs_vdecimate.sh"),
        &path("/s/in.mkv"),
        &vec![("NO_LAUNCH".to_owned(), "1".to_owned())],
        &strings(&["out", "30"]),
        &path("/v/logs"),
        1_700_000_000,
        home,
        search,
    )
}

fn job() -> PipelineJob {
    plan("VDecimate in.mkv", "/home/u", "/usr/bin").started(100, SEC)
}

fn upscale() -> PipelineJob {
    job().with_upscale_tracking(path("/w/in/segments"), path("/v/out.mkv"), 4)
}

fn sized(p: &str, len: Option<u64>) -> SizedFile {
    SizedFile { path: path(p), len }
}

#[test]
fn how_a_job_is_started() {
    let p = plan("VDecimate in.mkv", "/home/u", "/usr/bin:/bin");
    assert_eq!(p.label, "VDecimate in.mkv");
    assert_eq!(p.log_path.lossy_text(), "/v/logs/VDecimate_in_mkv_1700000000.log");
    let args: Vec<String> = p.launch.args.iter().map(|a| a.lossy_text()).collect();
    assert_eq!(args, vec!["/v/vhs_vdecimate.sh", "/s/in.mkv", "out", "30"]);
    assert_eq!(p.launch.program, "bash");
    assert!(p.launch.own_group);
    assert_eq!(
        (p.launch.stdin, p.launch.stdout, p.launch.stderr),
        (Stream::Null, Stream::Log, Stream::Log)
    );
    assert_eq!(
        p.launch.envs,
        vec![
            ("PATH".to_owned(), "/home/u/bin:/usr/bin:/bin".to_owned()),
            ("NO_LAUNCH".to_owned(), "1".to_owned()),
        ]
    );
}

#[test]
fn the_users_own_tools_are_on_the_path_once() {
    let p = plan("x", "/home/u", "/usr/bin:/home/u/bin");
    assert_eq!(p.launch.envs[0].1, "/usr/bin:/home/u/bin");
    let q = plan("x", "", "");
    assert_eq!(q.launch.envs[0].1, "/bin:");
    let first = plan("x", "/home/u", "/usr/bin").launch.envs[0].1.clone();
    let second = plan("x", "/home/u", &first).launch.envs[0].1.clone();
    assert_eq!(first, second);
}

#[test]
fn a_log_always_lies_in_the_log_directory() {
    let p = plan("Upscale ../../etc/é-1 (long name that goes on and on)", "/h", "");
    assert_eq!(p.log_path.parent().map(|d| d.bytes), Some(b"/v/logs".to_vec()));
    assert_eq!(
        p.log_path.file_name_text().as_deref(),
        Some("Upscale_______etc_é-1__long_name_that_go_1700000000.log")
    );
}

#[test]
fn a_job_that_has_just_started() {
    let j = job();
    assert!(j.is_running() && !j.done && !j.is_upscale && !j.paused);
    assert_eq!((j.total_frames, j.current_frame), (100, 0));
    assert_eq!(j.elapsed_str(62 * SEC), "1:01");
    assert_eq!(j.elapsed_str(SEC + 3661 * SEC), "1:01:01");
    assert_eq!(j.segment_progress(), None);
    assert_eq!(j.total_progress(), None);
}

#[test]
fn the_end_of_a_job() {
    let mut j = job();
    j.poll(ChildPoll::Running);
    assert!(j.is_running() && !j.done);
    j.poll(ChildPoll::Failed);
    assert!(!j.is_running() && j.done);
    j.poll(ChildPoll::Running);
    assert!(!j.is_running() && j.done);
    assert_eq!(j.cancel(), None);
    assert_eq!(j.toggle_pause(), None);
    let mut k = job();
    assert_eq!(k.cancel(), Some(JobSignal::Interrupt));
    k.poll(ChildPoll::Exited);
    assert!(k.done);
}

#[test]
fn reports_in_a_log() {
    let log = strings(&[
        "starting",
        "frame= 10 time=00:00:01.50 x\rframe= 20 time=N/A x\rframe= bad time=00:00:02",
        "time=1:2:3:4 frame=",
    ]);
    let (frame, times) = read_reports(&log);
    assert_eq!(frame, Some(20));
    assert_eq!(
        times,
        vec![
            ("00".to_owned(), "00".to_owned(), "01.50".to_owned()),
            ("00".to_owned(), "00".to_owned(), "02".to_owned()),
            ("1".to_owned(), "2".to_owned(), "3:4".to_owned()),
        ]
    );
    let mut j = job();
    j.note_log(&log);
    assert_eq!(j.current_frame, 20);
    assert!(j.note_log(&strings(&["nothing here"])).is_empty());
    assert_eq!(j.current_frame, 20);
}

#[test]
fn parts_of_a_time() {
    assert_eq!(split_time("N/A"), None);
    assert_eq!(split_time("00:10"), None);
    assert_eq!(split_time(""), None);
    assert_eq!(
        split_time("::"),
        Some((String::new(), String::new(), String::new()))
    );
}

#[test]
fn finished_segments_are_counted() {
    let files = vec![
        sized("/w/segments/seg_000.mp4", Some(10)),
        sized("/w/segments/seg_001.mp4", Some(0)),
        sized("/w/segments/seg_002.mp4", None),
        sized("/w/segments/seg_003.mkv", Some(10)),
        sized("/w/segments/tmp.mp4", Some(10)),
        sized("/w/segments/seg_004.mp4", Some(1)),
    ];
    assert_eq!(count_segments(&files), 2);
    let mut j = upscale();
    j.note_segments(&Some(files));
    assert_eq!(j.completed_segments, 2);
    j.note_segments(&None);
    assert_eq!(j.completed_segments, 2);
    assert_eq!(j.current_segment(), 3);
    assert_eq!(j.total_progress(), Some((2, 4)));
    let mut plain = job();
    plain.note_segments(&Some(vec![sized("/x/seg_0.mp4", Some(1))]));
    assert_eq!(plain.completed_segments, 0);
}

#[test]
fn frames_of_the_segment_are_counted() {
    let frames = vec![path("/w/frames/1.jpg"), path("/w/frames/2.jpg"), path("/w/frames/x.tmp")];
    assert_eq!(count_pictures(&frames), 2);
    let mut j = upscale();
    assert_eq!(j.segment_progress(), None);
    j.note_frames(&Some(frames), &Some(vec![path("/u/1.jpg")]));
    assert_eq!((j.segment_frames, j.upscaled_frames), (2, 1));
    assert_eq!(j.segment_progress(), Some((1, 2)));
    j.note_frames(&Some(vec![path("/w/1.jpg")]), &Some(vec![path("/u/1.jpg"), path("/u/2.jpg")]));
    assert_eq!(j.segment_progress(), Some((1, 1)));
    j.note_frames(&None, &None);
    assert_eq!((j.segment_frames, j.upscaled_frames), (0, 0));
}

#[test]
fn the_work_directory_of_an_upscale() {
    let j = upscale();
    assert!(j.is_upscale);
    assert_eq!(j.frames_dir.as_ref().map(|p| p.lossy_text()).as_deref(), Some("/w/in/frames"));
    assert_eq!(
        j.frames_up_dir.as_ref().map(|p| p.lossy_text()).as_deref(),
        Some("/w/in/frames_up")
    );
    assert_eq!(j.total_segments, 4);
    let rootless = job().with_upscale_tracking(path("/"), path("o"), 0);
    assert!(rootless.is_upscale && rootless.frames_dir.is_none());
    assert_eq!(rootless.total_progress(), None);
}

#[test]
fn pausing_and_resuming() {
    let mut j = job();
    assert_eq!(j.toggle_pause(), Some(JobSignal::Stop));
    assert!(j.paused);
    assert_eq!(j.toggle_pause(), Some(JobSignal::Continue));
    assert!(!j.paused);
}

#[test]
fn stopping_after_the_segment() {
    let mut plain = job();
    plain.request_stop_after_segment();
    assert!(!plain.stopping_after_segment());
    let mut j = upscale();
    j.note_segments(&Some(vec![sized("/w/seg_0.mp4", Some(1))]));
    j.request_stop_after_segment();
    assert!(j.stopping_after_segment());
    assert_eq!(j.take_stop(), None);
    j.request_stop_after_segment();
    j.note_segments(&Some(vec![sized("/w/seg_0.mp4", Some(1)), sized("/w/seg_1.mp4", Some(1))]));
    assert_eq!(j.take_stop(), Some(JobSignal::Interrupt));
    assert_eq!(j.take_stop(), None);
}

#[test]
fn what_a_probe_says() {
    let p = parse_probe(&b"30000/1001\n3672.100000\n".to_vec());
    assert_eq!(
        (p.num.as_str(), p.den.as_deref(), p.duration.as_deref()),
        ("30000", Some("1001"), Some("3672.100000"))
    );
    let q = parse_probe(&Vec::new());
    assert_eq!((q.num.as_str(), q.den.as_deref(), q.duration.as_deref()), ("0", Some("1"), None));
    let r = parse_probe(&b"25\r\n\xff".to_vec());
    assert_eq!(
        (r.num.as_str(), r.den.as_deref(), r.duration.as_deref()),
        ("25", None, Some("\u{fffd}"))
    );
}
