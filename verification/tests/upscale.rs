use vhs_gui::capture::ChildPoll;
use vhs_gui::config::Config;
use vhs_gui::library::FileKind;
use vhs_gui::order::DirFile;
use vhs_gui::panels::actions::{file_actions, is_offered, FileAction};
use vhs_gui::panels::names::{
    suggest_viewer_name, title_words, upscale_output, upscale_segments_dir, upscale_work_dir,
};
use vhs_gui::panels::upscale::{
    cleanup_message, frame_text, job_title, latest_jpg_in_dir, pause_button, preview_files,
    read_saved_model, rename_status, segment_text, segments_text, toolbar_segment_text, total_text,
    trash_status, CentralBars, JobButton, RenameOutcome, UpscalePanel,
};
use vhs_gui::path::FilePath;
use vhs_gui::pipeline::{JobSignal, SizedFile};
use vhs_gui::settings::SettingsEdit;

const SEC: u64 = 1_000_000_000;

fn path(s: &str) -> FilePath {
    FilePath::from_text(s)
}

fn file(p: &str) -> DirFile {
    DirFile { path: path(p), modified: Some(0) }
}

fn cfg() -> Config {
    Config::for_home(Some("/home/u"))
}

fn panel() -> UpscalePanel {
    UpscalePanel::new(
        "/home/u",
        &Vec::new(),
        &Some(vec![file("/home/u/Videos/captures/viewer/EDIT_MASTER-tv-bbc_news.viewer.mkv")]),
        &Some(vec![file("/s/tape_STABLE.mkv")]),
        &Some(vec![file("/a/tape.mkv")]),
    )
}

fn start(p: &mut UpscalePanel, entry: usize, action: FileAction) -> String {
    p.show_sidebar(entry);
    let plan = p.plan(action, &cfg(), &path("/w"), 5, "/home/u", "/usr/bin").unwrap();
    p.note_started(plan, 100, 3, SEC)
}

fn upscaling() -> UpscalePanel {
    let mut p = panel();
    start(&mut p, 0, FileAction::Upscale);
    p
}

fn jpgs(dir: &str, n: usize) -> Option<Vec<FilePath>> {
    Some((0..n).map(|i| path(&format!("{dir}/{i:03}.jpg"))).collect())
}

fn poll_frames(p: &mut UpscalePanel, frames: usize, upscaled: usize) {
    p.poll(
        ChildPoll::Running,
        &Some(Vec::new()),
        &None,
        &jpgs("/f", frames),
        &jpgs("/u", upscaled),
    );
}

#[test]
fn titles() {
    assert_eq!(title_words("bbc_news"), "BBC News");
    assert_eq!(title_words("  the USA   today_"), "The USA Today");
    assert_eq!(title_words("éCOLE tv"), "École TV");
    assert_eq!(title_words("straße ßa"), "Straße SSa");
    assert_eq!(title_words(""), "");
}

#[test]
fn a_title_differs_from_its_text_in_case_and_spacing() {
    let text = "__the  USA_today\t-_dVd 2_";
    let title = title_words(text);
    assert_eq!(title, "The USA Today - DVD 2");
    assert_eq!(title_words(&title), title);
    assert_eq!(title.to_lowercase(), "the usa today - dvd 2");
    assert!(!title.contains('_') && !title.contains("  ") && title.trim() == title);
}

#[test]
fn suggested_names() {
    assert_eq!(
        suggest_viewer_name(&path("/v/EDIT_MASTER-home_video-summer_1989_VD.viewer.upscale.mkv")),
        "Home Video \u{2014} Summer 1989.mkv"
    );
    assert_eq!(
        suggest_viewer_name(&path("/v/EDIT_MASTER-tv-bbc_news.viewer.mkv")),
        "TV \u{2014} BBC News.mkv"
    );
    assert_eq!(suggest_viewer_name(&path("/v/plain_name.mkv")), "plain_name.mkv");
    assert_eq!(suggest_viewer_name(&path("/v/-x.mkv")), "-x.mkv");
    assert_eq!(suggest_viewer_name(&path("/v/x-.mkv")), "x-.mkv");
    assert_eq!(suggest_viewer_name(&path("/")), "");
    assert_eq!(suggest_viewer_name(&FilePath { bytes: b"/v/\xff-a.mkv".to_vec() }), "");
}

#[test]
fn where_an_upscale_works() {
    let input = path("/x/film.viewer.mkv");
    assert_eq!(
        upscale_output(&input, &cfg()).lossy_text(),
        "/home/u/Videos/captures/viewer/film.upscale.mkv"
    );
    assert_eq!(upscale_work_dir(&input, &path("/w")).lossy_text(), "/w/film.viewer");
    assert_eq!(upscale_segments_dir(&input, &path("/w")).lossy_text(), "/w/film.viewer/segments");
    let odd = FilePath { bytes: b"/x/\xff.mkv".to_vec() };
    assert_eq!(
        upscale_output(&odd, &cfg()).lossy_text(),
        "/home/u/Videos/captures/viewer/out.upscale.mkv"
    );
    assert_eq!(
        upscale_output(&path("...mkv"), &cfg()).parent().map(|d| d.bytes),
        Some(cfg().viewer_dir().bytes)
    );
    assert_eq!(
        upscale_work_dir(&input, &path("/w/")).parent().map(|d| d.bytes),
        Some(b"/w".to_vec())
    );
}

#[test]
fn what_is_offered_for_a_file() {
    let labels = |kind: FileKind| -> Vec<&'static str> {
        file_actions(kind).iter().map(|a| a.label()).collect()
    };
    assert_eq!(labels(FileKind::Archival), vec!["Denoise", "Denoise+QTGMC"]);
    assert_eq!(labels(FileKind::Stabilized), vec!["QTGMC", "IVTC"]);
    assert_eq!(labels(FileKind::EditMaster), vec!["VDecimate", "Viewer Encode"]);
    assert_eq!(
        labels(FileKind::EditMasterVD),
        vec!["Viewer Encode", "Upscale Film", "Upscale Film B&W", "Upscale Anime"]
    );
    assert_eq!(labels(FileKind::Viewer), vec!["Upscale", "Upscale B&W", "Upscale Anime"]);
    assert!(is_offered(FileAction::Ivtc, FileKind::Stabilized));
    assert!(!is_offered(FileAction::Upscale, FileKind::Archival));
    for kind in [FileKind::Archival, FileKind::Stabilized, FileKind::EditMaster] {
        assert!(file_actions(kind).iter().all(|a| !a.is_upscale()));
    }
}

#[test]
fn scripts_of_the_jobs() {
    let scripts = [
        (FileAction::Denoise, "vhs_stabilize.sh"),
        (FileAction::DenoiseQtgmc, "vhs_process.sh"),
        (FileAction::Qtgmc, "vhs_qtgmc_only.sh"),
        (FileAction::Ivtc, "vhs_ivtc.sh"),
        (FileAction::VDecimate, "vhs_vdecimate.sh"),
        (FileAction::ViewerEncode, "vhs_viewer_encode.sh"),
        (FileAction::UpscaleFilm, "vhs_upscale.sh"),
        (FileAction::UpscaleFilmBw, "vhs_upscale_bw.sh"),
        (FileAction::Upscale, "vhs_upscale.sh"),
        (FileAction::UpscaleBw, "vhs_upscale_bw.sh"),
        (FileAction::UpscaleAnime, "vhs_upscale_anime.sh"),
    ];
    for (a, s) in scripts {
        assert_eq!(a.script(&cfg()).lossy_text(), format!("/home/u/Videos/{s}"));
    }
    assert_eq!(
        FileAction::DenoiseQtgmc.envs(),
        vec![("NO_LAUNCH".to_owned(), "1".to_owned())]
    );
    assert!(FileAction::Denoise.envs().is_empty());
}

#[test]
fn a_click_opens_a_file() {
    let mut p = panel();
    let (path, status) = p.show_sidebar(2);
    assert_eq!(path.lossy_text(), "/a/tape.mkv");
    assert_eq!(status, "Opening: tape.mkv");
}

#[test]
fn planning_a_plain_job() {
    let mut p = panel();
    assert!(p.plan(FileAction::DenoiseQtgmc, &cfg(), &path("/w"), 5, "/h", "").is_none());
    p.show_sidebar(2);
    assert!(p.plan(FileAction::Upscale, &cfg(), &path("/w"), 5, "/h", "").is_none());
    let plan =
        p.plan(FileAction::DenoiseQtgmc, &cfg(), &path("/w"), 5, "/h", "/bin").unwrap();
    assert!(plan.work.is_none());
    assert_eq!(plan.job.label, "Denoise+QTGMC tape.mkv");
    assert_eq!(
        plan.job.log_path.lossy_text(),
        "/home/u/Videos/logs/Denoise_QTGMC_tape_mkv_5.log"
    );
    let args: Vec<String> = plan.job.launch.args.iter().map(|a| a.lossy_text()).collect();
    assert_eq!(args, vec!["/home/u/Videos/vhs_process.sh", "/a/tape.mkv"]);
    assert_eq!(
        plan.job.launch.envs,
        vec![
            ("PATH".to_owned(), "/h/bin:/bin".to_owned()),
            ("NO_LAUNCH".to_owned(), "1".to_owned()),
        ]
    );
    let status = p.note_started(plan, 7, 0, 0);
    assert_eq!(status, "Started: Denoise+QTGMC tape.mkv");
    assert!(!p.is_upscaling() && p.busy());
    assert_eq!(p.pipeline_job().map(|j| j.total_frames), Some(7));
    assert!(p.plan(FileAction::Denoise, &cfg(), &path("/w"), 5, "/h", "").is_none());
    assert_eq!(UpscalePanel::start_failed_status("no"), "Failed to start job: no");
}

#[test]
fn planning_an_upscale() {
    let mut p = panel();
    p.show_sidebar(0);
    let plan = p.plan(FileAction::UpscaleBw, &cfg(), &path("/w"), 5, "/home/u", "").unwrap();
    let work = plan.work.as_ref().unwrap();
    assert_eq!(work.work_dir.lossy_text(), "/w/EDIT_MASTER-tv-bbc_news.viewer");
    assert_eq!(work.segments_dir.lossy_text(), "/w/EDIT_MASTER-tv-bbc_news.viewer/segments");
    let out = "/home/u/Videos/captures/viewer/EDIT_MASTER-tv-bbc_news.upscale.mkv";
    assert_eq!(work.output.lossy_text(), out);
    let args: Vec<String> = plan.job.launch.args.iter().map(|a| a.lossy_text()).collect();
    assert_eq!(args[0], "/home/u/Videos/vhs_upscale_bw.sh");
    assert_eq!(&args[2..], &[out.to_owned(), "30".to_owned(), "21".to_owned()]);
    assert_eq!(plan.job.launch.envs.last(), Some(&("MODEL".to_owned(), "realesrgan-x4plus".to_owned())));
    p.note_started(plan, 1, 9, 0);
    assert!(p.is_upscaling());
    assert_eq!(p.pipeline_job().map(|j| j.total_segments), Some(9));
}

#[test]
fn work_of_another_model_is_stale() {
    let p = panel();
    assert!(!p.work_is_stale(None));
    assert!(!p.work_is_stale(Some("CRF=21\nMODEL=realesrgan-x4plus\n")));
    assert!(p.work_is_stale(Some("MODEL=realesrgan-x2plus\nMODEL=realesrgan-x4plus\n")));
    assert!(p.work_is_stale(Some("CRF=21\n")));
    assert_eq!(read_saved_model("x\r\nMODEL=a b\r\n").as_deref(), Some("a b"));
    assert_eq!(read_saved_model(" MODEL=a"), None);
}

#[test]
fn deleting_a_file() {
    let mut p = panel();
    p.ask_delete();
    assert!(!p.busy());
    p.show_sidebar(2);
    p.ask_delete();
    assert!(p.delete_asked() && p.busy());
    p.ask_rename();
    assert!(p.rename_state.is_none());
    p.show_sidebar(1);
    assert!(!p.delete_asked());
    assert!(p.answer_delete(true).is_none());
    p.show_sidebar(2);
    assert!(p.answer_delete(false).is_none());
    assert!(!p.busy());
    p.ask_delete();
    let (target, name) = p.answer_delete(true).unwrap();
    assert_eq!((target.lossy_text().as_str(), name.as_str()), ("/a/tape.mkv", "tape.mkv"));
    assert!(!p.busy());
    assert_eq!(trash_status("tape.mkv", None), "Trashed tape.mkv");
    assert_eq!(trash_status("tape.mkv", Some("full")), "Trash failed: full");
}

#[test]
fn renaming_a_file() {
    let mut p = panel();
    p.show_sidebar(1);
    p.ask_rename();
    assert!(!p.rename_asked());
    p.show_sidebar(0);
    p.ask_rename();
    assert!(p.rename_asked() && p.busy());
    assert_eq!(
        p.rename_state.as_ref().map(|r| r.1.as_str()),
        Some("TV \u{2014} BBC News.mkv")
    );
    let plan = p.answer_rename(true).unwrap();
    assert_eq!(plan.name, "TV \u{2014} BBC News.mkv");
    assert_eq!(
        plan.to.lossy_text(),
        "/home/u/Videos/captures/viewer/TV \u{2014} BBC News.mkv"
    );
    assert_eq!(
        plan.from.lossy_text(),
        "/home/u/Videos/captures/viewer/EDIT_MASTER-tv-bbc_news.viewer.mkv"
    );
    assert!(!p.busy());
    p.ask_rename();
    p.rename_state.as_mut().unwrap().1 = "  short ".to_owned();
    let plan = p.answer_rename(true).unwrap();
    assert_eq!(plan.name, "short.mkv");
    assert_eq!(plan.to.parent().map(|d| d.bytes), Some(cfg().viewer_dir().bytes));
    p.ask_rename();
    p.rename_state.as_mut().unwrap().1 = "   ".to_owned();
    assert!(p.answer_rename(true).is_none() && !p.busy());
    p.ask_rename();
    assert!(p.answer_rename(false).is_none() && !p.busy());
}

#[test]
fn what_is_said_of_a_rename() {
    assert_eq!(
        rename_status("a.mkv", &RenameOutcome::Exists),
        ("Rename failed: a.mkv already exists".to_owned(), false)
    );
    assert_eq!(
        rename_status("a.mkv", &RenameOutcome::Done),
        ("Renamed to a.mkv".to_owned(), true)
    );
    assert_eq!(
        rename_status("a.mkv", &RenameOutcome::Failed("denied".to_owned())),
        ("Rename failed: denied".to_owned(), false)
    );
}

#[test]
fn the_buttons_of_a_job() {
    let mut p = panel();
    assert_eq!(p.toolbar_section(JobButton::Cancel), (None, None));
    let mut p = upscaling();
    assert_eq!(p.toolbar_section(JobButton::Pause), (Some(JobSignal::Stop), None));
    assert_eq!(p.sidebar_button(JobButton::Pause), Some(JobSignal::Continue));
    assert_eq!(
        p.toolbar_section(JobButton::StopAfterSegment),
        (None, Some("Stopping after current segment…".to_owned()))
    );
    assert_eq!(p.toolbar_section(JobButton::StopAfterSegment), (None, None));
    assert_eq!(
        p.toolbar_section(JobButton::Cancel),
        (Some(JobSignal::Interrupt), Some("Cancelling…".to_owned()))
    );
    let mut q = panel();
    start(&mut q, 2, FileAction::Denoise);
    assert_eq!(q.sidebar_button(JobButton::Pause), None);
    assert_eq!(q.toolbar_section(JobButton::StopAfterSegment), (None, None));
    assert_eq!(q.sidebar_button(JobButton::Cancel), Some(JobSignal::Interrupt));
}

#[test]
fn polling_a_job() {
    let mut p = panel();
    let (times, signal) = p.poll(ChildPoll::Exited, &None, &None, &None, &None);
    assert!(times.is_empty() && signal.is_none());
    let mut p = upscaling();
    let log = Some(vec!["frame=9 time=0:0:1".to_owned()]);
    let done = Some(vec![SizedFile { path: path("/w/seg_0.mp4"), len: Some(1) }]);
    p.poll(ChildPoll::Running, &None, &done, &None, &None);
    assert_eq!(p.pipeline_job().map(|j| j.completed_segments), Some(0));
    p.toolbar_section(JobButton::StopAfterSegment);
    let (times, signal) = p.poll(ChildPoll::Running, &log, &done, &jpgs("/f", 4), &jpgs("/u", 1));
    assert_eq!(times, vec![("0".to_owned(), "0".to_owned(), "1".to_owned())]);
    assert_eq!(signal, Some(JobSignal::Interrupt));
    let j = p.pipeline_job().unwrap();
    assert_eq!((j.current_frame, j.completed_segments), (9, 1));
    assert_eq!((j.segment_frames, j.upscaled_frames), (4, 1));
}

#[test]
fn previews_come_every_four_seconds() {
    let mut p = upscaling();
    assert!(p.next_preview(0).is_none());
    poll_frames(&mut p, 8, 3);
    let (up, frames) = p.next_preview(10 * SEC).unwrap();
    assert_eq!(up.lossy_text(), "/w/EDIT_MASTER-tv-bbc_news.viewer/frames_up");
    assert_eq!(frames.lossy_text(), "/w/EDIT_MASTER-tv-bbc_news.viewer/frames");
    p.note_preview(10 * SEC);
    assert_eq!(p.show_central().preview.as_deref(), Some("Seg 1 / 3  ·  Frame 3 / 8"));
    assert!(p.next_preview(14 * SEC - 1).is_none());
    assert!(p.next_preview(14 * SEC).is_some());
    poll_frames(&mut p, 8, 2);
    assert!(p.next_preview(11 * SEC).is_some());
    assert_eq!(p.last_preview_frames, 0);
}

#[test]
fn the_latest_picture() {
    let files = vec![path("/u/0002.jpg"), path("/u/0010.jpg"), path("/u/x.png"), path("/u/0009.jpg")];
    assert_eq!(
        latest_jpg_in_dir(&files).map(|p| p.lossy_text()).as_deref(),
        Some("/u/0010.jpg")
    );
    assert!(latest_jpg_in_dir(&vec![path("/u/x.png")]).is_none());
    let (orig, up) = preview_files(&files, &path("/w/frames")).unwrap();
    assert_eq!(orig.lossy_text(), "/w/frames/0010.jpg");
    assert_eq!(up.lossy_text(), "/u/0010.jpg");
    assert!(preview_files(&Vec::new(), &path("/w/frames")).is_none());
}

#[test]
fn what_is_said_of_an_upscale() {
    let mut p = upscaling();
    let j = p.pipeline_job().unwrap();
    assert_eq!(toolbar_segment_text(j).as_deref(), Some("seg 1/3"));
    assert_eq!(total_text(j), "0/3 segs");
    assert_eq!(segment_text(j), "…");
    assert_eq!(segments_text(j), "Total  0/3 segments");
    assert_eq!(frame_text(j, SEC + 65 * SEC), "frame 0 / 0  1:05");
    assert_eq!(job_title(j), "● Upscale EDIT_MASTER-tv-bbc_news.viewer.mkv");
    assert_eq!(pause_button(j), ("⏸", "Pause"));
    poll_frames(&mut p, 8, 3);
    p.toolbar_section(JobButton::Pause);
    let j = p.pipeline_job().unwrap();
    assert_eq!(segment_text(j), "3/8 frames");
    assert_eq!(pause_button(j), ("▶", "Resume"));
    match p.show_central().bars {
        CentralBars::Upscale { total, total_text, segment, segment_text } => {
            assert_eq!((total, segment), (Some((0, 3)), Some((3, 8))));
            assert_eq!((total_text.as_str(), segment_text.as_str()), ("0/3 segs", "3/8 frames"));
        }
        _ => panic!("an upscale has two bars"),
    }
}

#[test]
fn what_is_said_of_a_plain_job() {
    let mut p = panel();
    assert!(matches!(p.show_central().bars, CentralBars::Absent));
    start(&mut p, 2, FileAction::Denoise);
    let j = p.pipeline_job().unwrap();
    assert_eq!(toolbar_segment_text(j), None);
    assert_eq!(frame_text(j, SEC), "frame 0 / 100  0:00");
    assert_eq!(total_text(j), "…");
    assert!(matches!(p.show_central().bars, CentralBars::Plain));
    assert!(p.show_central().preview.is_none());
    let mut q = panel();
    q.show_sidebar(2);
    let plan = q.plan(FileAction::Denoise, &cfg(), &path("/w"), 5, "/h", "").unwrap();
    q.note_started(plan, 0, 0, 0);
    assert_eq!(frame_text(q.pipeline_job().unwrap(), 0), "frame 0  0:00");
}

#[test]
fn the_end_of_an_upscale() {
    let mut p = upscaling();
    poll_frames(&mut p, 8, 3);
    p.note_preview(0);
    assert!(p.cleanup_upscale_work_dir().is_none());
    assert_eq!(p.finish(Some("x")), None);
    p.poll(ChildPoll::Exited, &None, &None, &None, &None);
    let (out, work) = p.cleanup_upscale_work_dir().unwrap();
    assert_eq!(
        out.lossy_text(),
        "/home/u/Videos/captures/viewer/EDIT_MASTER-tv-bbc_news.upscale.mkv"
    );
    assert_eq!(work.lossy_text(), "/w/EDIT_MASTER-tv-bbc_news.viewer");
    assert!(p.next_preview(100 * SEC).is_none());
    assert_eq!(
        p.finish(Some(&cleanup_message(None))).as_deref(),
        Some("Upscale EDIT_MASTER-tv-bbc_news.viewer.mkv finished — work dir cleaned up")
    );
    assert!(!p.busy() && p.preview.is_none() && p.last_preview_at.is_none());
    assert_eq!(p.finish(None), None);
    assert_eq!(cleanup_message(Some("busy")), "cleanup failed: busy");
}

#[test]
fn the_end_of_a_plain_job() {
    let mut p = panel();
    start(&mut p, 2, FileAction::Denoise);
    p.poll(ChildPoll::Failed, &None, &None, &None, &None);
    assert!(p.cleanup_upscale_work_dir().is_none());
    assert_eq!(p.finish(Some("ignored")).as_deref(), Some("Denoise tape.mkv finished"));
    let mut q = upscaling();
    q.poll(ChildPoll::Exited, &None, &None, &None, &None);
    assert_eq!(
        q.finish(None).as_deref(),
        Some("Upscale EDIT_MASTER-tv-bbc_news.viewer.mkv finished")
    );
}

#[test]
fn listing_the_library_again() {
    let mut p = panel();
    p.show_sidebar(0);
    p.refresh_library(&None, &None, &Some(vec![file("/a/x.mkv")]));
    assert_eq!(p.library.entries.len(), 1);
    assert!(p.library.selected_entry().is_none());
}

#[test]
fn the_settings_panel_changes_settings() {
    let mut p = panel();
    assert!(p.show_settings_panel(&vec![SettingsEdit::Crf(20)], "/home/u"));
    assert_eq!(p.settings.crf, 20);
    assert!(!p.show_settings_panel(&Vec::new(), "/home/u"));
}
