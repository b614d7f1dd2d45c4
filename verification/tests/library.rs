use vhs_gui::library::{FileKind, Library, Row};
use vhs_gui::order::DirFile;
use vhs_gui::path::FilePath;

fn file(path: &str, modified: i128) -> DirFile {
    DirFile { path: FilePath::from_text(path), modified: Some(modified) }
}

fn names(lib: &Library) -> Vec<&str> {
    lib.entries.iter().map(|e| e.name.as_str()).collect()
}

fn sample() -> Library {
    let viewer = Some(vec![
        file("/v/old.mkv", 1),
        file("/v/new.mp4", 9),
        file("/v/readme.txt", 10),
    ]);
    let stabilized = Some(vec![
        file("/s/tape_STABLE.mkv", 3),
        file("/s/EDIT_MASTER-Film.mkv", 4),
        file("/s/EDIT_MASTER-Film_VD.mkv", 2),
        file("/s/EDIT_MASTER-Other_VD.mkv", 5),
        file("/s/EDIT_MASTER_VD.mp4", 6),
    ]);
    let archival = Some(vec![
        DirFile { path: FilePath::from_text("/a/undated.mkv"), modified: None },
        file("/a/dated.mkv", 0),
    ]);
    let mut lib = Library::new();
    lib.refresh(&viewer, &stabilized, &archival);
    lib
}

#[test]
fn the_list_is_in_sections_newest_first() {
    let lib = sample();
    assert_eq!(
        names(&lib),
        vec![
            "new.mp4",
            "old.mkv",
            "EDIT_MASTER-Other_VD.mkv",
            "EDIT_MASTER-Film_VD.mkv",
            "EDIT_MASTER-Film.mkv",
            "EDIT_MASTER_VD.mp4",
            "tape_STABLE.mkv",
            "dated.mkv",
            "undated.mkv",
        ]
    );
    let kinds: Vec<FileKind> = lib.entries.iter().map(|e| e.kind).collect();
    assert_eq!(
        kinds,
        vec![
            FileKind::Viewer,
            FileKind::Viewer,
            FileKind::EditMasterVD,
            FileKind::EditMasterVD,
            FileKind::EditMaster,
            FileKind::Stabilized,
            FileKind::Stabilized,
            FileKind::Archival,
            FileKind::Archival,
        ]
    );
}

#[test]
fn every_video_is_listed_once() {
    let lib = sample();
    let mut all = names(&lib);
    all.sort();
    all.dedup();
    assert_eq!(all.len(), lib.entries.len());
    assert!(!all.contains(&"readme.txt"));
}

#[test]
fn files_of_one_age_keep_their_order() {
    let mut lib = Library::new();
    lib.refresh(&Some(vec![file("/v/b.mkv", 1), file("/v/a.mkv", 1)]), &None, &None);
    assert_eq!(names(&lib), vec!["b.mkv", "a.mkv"]);
}

#[test]
fn rows_have_a_heading_where_the_kind_changes() {
    let mut lib = Library::new();
    lib.refresh(
        &Some(vec![file("/v/a.mkv", 1)]),
        &None,
        &Some(vec![file("/a/b.mkv", 2), file("/a/c.mkv", 1)]),
    );
    assert_eq!(
        lib.rows(),
        vec![
            Row::Section(FileKind::Viewer),
            Row::File(0),
            Row::Section(FileKind::Archival),
            Row::File(1),
            Row::File(2),
        ]
    );
}

#[test]
fn a_click_selects_and_a_refresh_forgets() {
    let mut lib = sample();
    assert!(lib.selected_entry().is_none());
    let e = lib.click(1);
    assert_eq!(e.path.lossy_text(), "/v/old.mkv");
    assert_eq!(lib.selected_entry().map(|e| e.name.clone()), Some("old.mkv".to_owned()));
    lib.refresh(&None, &None, &None);
    assert!(lib.selected_entry().is_none());
    assert!(lib.entries.is_empty());
}

#[test]
fn a_name_that_is_no_text_is_a_question_mark() {
    let mut lib = Library::new();
    let odd = DirFile { path: FilePath { bytes: b"/s/\xff.mkv".to_vec() }, modified: None };
    lib.refresh(&None, &Some(vec![odd]), &None);
    assert_eq!(names(&lib), vec!["?"]);
    assert_eq!(lib.entries[0].kind, FileKind::Stabilized);
}

#[test]
fn headings_of_the_sections() {
    let labels: Vec<&str> = [
        FileKind::Viewer,
        FileKind::EditMasterVD,
        FileKind::EditMaster,
        FileKind::Stabilized,
        FileKind::Archival,
    ]
    .iter()
    .map(|k| k.label())
    .collect();
    assert_eq!(
        labels,
        vec!["Viewer", "Edit Master (VD)", "Edit Master", "Stabilized", "Archival"]
    );
}
