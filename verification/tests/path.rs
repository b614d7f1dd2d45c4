use std::path::{Path, PathBuf};

use vhs_gui::config::Config;
use vhs_gui::path::{byte_range, bytes_come_before, same_bytes, FilePath};

fn path(s: &str) -> FilePath {
    FilePath::from_text(s)
}

fn std_path(p: &FilePath) -> PathBuf {
    PathBuf::from(p.lossy_text())
}

const SAMPLES: [&str; 26] = [
    "", "/", "//", ".", "..", "a", "a/", "a//", "/a", "/a/", "//a//b//", "a/b", "a/b.mkv",
    "a/.hidden", "a/..", "a/../b", "./a", "a/./b", "a.b.c", ".a.b", "a.", "a/b/.", "/..", "/.",
    "a./b", "..mkv",
];

#[test]
fn parts_of_paths_agree_with_std() {
    for s in SAMPLES {
        let p = path(s);
        let q = Path::new(s);
        assert_eq!(
            p.file_name(),
            q.file_name().map(|n| n.to_string_lossy().as_bytes().to_vec()),
            "file_name {s}"
        );
        assert_eq!(
            p.extension(),
            q.extension().map(|n| n.to_string_lossy().as_bytes().to_vec()),
            "extension {s}"
        );
        assert_eq!(
            p.file_stem(),
            q.file_stem().map(|n| n.to_string_lossy().as_bytes().to_vec()),
            "file_stem {s}"
        );
        assert_eq!(p.parent().map(|d| std_path(&d)), q.parent().map(|d| d.to_path_buf()), "{s}");
    }
}

#[test]
fn joining_agrees_with_std() {
    for a in SAMPLES {
        for b in SAMPLES {
            assert_eq!(
                path(a).join(b).bytes,
                Path::new(a).join(b).to_string_lossy().as_bytes().to_vec(),
                "{a} {b}"
            );
        }
    }
}

#[test]
fn equality_of_paths_agrees_with_std() {
    for a in SAMPLES {
        for b in SAMPLES {
            assert_eq!(path(a).same_path(&path(b)), Path::new(a) == Path::new(b), "{a} {b}");
        }
    }
}

#[test]
fn a_path_that_is_no_text() {
    let p = FilePath { bytes: b"/v/a\xff.mkv".to_vec() };
    assert_eq!(p.text(), None);
    assert_eq!(p.file_name_text(), None);
    assert_eq!(p.file_stem_text(), None);
    assert_eq!(p.lossy_text(), "/v/a\u{fffd}.mkv");
    assert!(p.has_extension("mkv"));
    assert!(!p.has_extension("mp4"));
}

#[test]
fn a_path_as_text() {
    let p = path("/v/ä.b.mkv");
    assert_eq!(p.text().as_deref(), Some("/v/ä.b.mkv"));
    assert_eq!(p.lossy_text(), "/v/ä.b.mkv");
    assert_eq!(p.file_name_text().as_deref(), Some("ä.b.mkv"));
    assert_eq!(p.file_stem_text().as_deref(), Some("ä.b"));
}

#[test]
fn an_entry_lies_in_its_directory() {
    let p = path("/v//").join_path(&path("x.mkv"));
    assert_eq!(p.file_name(), Some(b"x.mkv".to_vec()));
    assert_eq!(p.parent().map(|d| d.bytes), Some(b"/v".to_vec()));
}

#[test]
fn bytes_are_compared_and_cut() {
    assert!(same_bytes(&vec![1, 2], &vec![1, 2]));
    assert!(!same_bytes(&vec![1, 2], &vec![1]));
    assert_eq!(byte_range(&vec![1, 2, 3], 1, 3), vec![2, 3]);
    assert!(bytes_come_before(&b"a".to_vec(), &b"ab".to_vec()));
    assert!(bytes_come_before(&b"f_9".to_vec(), &b"f_99".to_vec()));
    assert!(!bytes_come_before(&b"b".to_vec(), &b"ab".to_vec()));
    assert!(!bytes_come_before(&b"b".to_vec(), &b"b".to_vec()));
}

#[test]
fn the_capture_tree() {
    let cfg = Config::for_home(Some("/home/u"));
    assert_eq!(cfg.videos_dir.lossy_text(), "/home/u/Videos");
    assert_eq!(cfg.archival_dir().lossy_text(), "/home/u/Videos/captures/archival");
    assert_eq!(cfg.stabilized_dir().lossy_text(), "/home/u/Videos/captures/stabilized");
    assert_eq!(cfg.viewer_dir().lossy_text(), "/home/u/Videos/captures/viewer");
    assert_eq!(cfg.log_dir().lossy_text(), "/home/u/Videos/logs");
    assert_eq!(cfg.capture_script.lossy_text(), "/home/u/Videos/vhs_capture_ffmpeg.sh");
    assert_eq!(cfg.stabilize_script().lossy_text(), "/home/u/Videos/vhs_stabilize.sh");
    assert_eq!(cfg.process_script().lossy_text(), "/home/u/Videos/vhs_process.sh");
    assert_eq!(cfg.ivtc_script().lossy_text(), "/home/u/Videos/vhs_ivtc.sh");
    assert_eq!(cfg.max_capture_duration, "04:00:00");
    assert_eq!(
        cfg.v4l2_device,
        "/dev/v4l/by-id/usb-MACROSIL_AV_TO_USB2.0-video-index0"
    );
}

#[test]
fn the_group_file_lies_among_the_logs() {
    let cfg = Config::for_home(Some("/home/u"));
    let file = cfg.capture_pgid_file();
    assert_eq!(file.lossy_text(), "/home/u/Videos/logs/capture.pgid");
    assert_eq!(file.parent().map(|d| d.bytes), Some(cfg.log_dir().bytes));
}

#[test]
fn without_a_home_directory() {
    assert_eq!(Config::for_home(None).videos_dir.lossy_text(), "/home/ryan/Videos");
}
