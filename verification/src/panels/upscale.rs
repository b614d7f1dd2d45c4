//! The upscale view: the library, the jobs on its files, and the progress of the job that runs.
//!
//! The clock readings are nanoseconds of the monotonic clock.
use vstd::prelude::*;
use vstd::string::StringExecFns;
use vstd::utf8::encode_utf8;

use crate::capture::{elapsed_nanos, nanos_since, read_view, ChildPoll};
use crate::config::{under, Config};
use crate::launch::paths;
use crate::library::{full_list, listing, EntryView, FileKind, Library};
use crate::number::{decimal, decimal_text, law_number_is_one_word};
use crate::order::{sorted_names, DirFile};
use crate::panels::actions::{actions_for, is_offered, FileAction};
use crate::panels::names::{
    output_of, suggest_viewer_name, suggested_name, upscale_output, upscale_segments_dir,
    upscale_work_dir, work_dir,
};
use crate::path::{
    bytes_before, bytes_come_before, file_name, file_name_text, has_extension, joined,
    law_entry_of_directory, law_no_slash_in_name, law_text_reads_back, lemma_encoded_len,
    lemma_file_name_slash_free, parent, same_components, tidy, FilePath,
};
use crate::persist::opt_text;
use crate::pipeline::{
    finished_count, job_launch, last_frame, log_name, paths_listing, picture_count, reports,
    search_path, sized_listing, times, triples, JobPlan, JobSignal, JobView, PipelineJob, SizedFile,
    SizedView,
};
use crate::settings::{
    default_settings, edited_all, edits_view, launch_args, launch_envs, models_in, ModelFile,
    SettingsEdit, SettingsView, UpscaleSettings,
};
use crate::text::{
    all_white, chars_of, ends_with, is_white, law_spaces_part_words, law_split_nothing,
    law_split_undoes_join, law_trim_undoes_padding, law_word_of_solid, lines, lines_of,
    same_opt_text, solid, split_on, starts_with, strip_cr, text_range, texts, trim, trimmed, words,
};

verus! {

/// How long a preview picture stands before the next one is loaded.
pub const PREVIEW_NANOS: u64 = 4_000_000_000;

// ---------------------------------------------------------------------------
// The work directory
// ---------------------------------------------------------------------------
/// What follows the prefix in the first line that begins with it.
pub open spec fn first_after(l: Seq<Seq<char>>, prefix: Seq<char>) -> Option<Seq<char>>
    decreases l.len(),
{
    if l.len() == 0 {
        None
    } else if prefix.is_prefix_of(l[0]) {
        Some(l[0].skip(prefix.len() as int))
    } else {
        first_after(l.skip(1), prefix)
    }
}

/// The model that a work directory was made with, by its record of the run.
pub open spec fn saved_model(contents: Seq<char>) -> Option<Seq<char>> {
    first_after(lines(contents), "MODEL="@)
}

/// Whether a work directory is of no use: its record of the run names another model. One
/// without a record is kept.
pub open spec fn stale(contents: Option<Seq<char>>, current: Option<Seq<char>>) -> bool {
    contents matches Some(c) && saved_model(c) != current
}

/// The model that a work directory was made with, by its record of the run.
pub fn read_saved_model(contents: &str) -> (r: Option<String>)
    ensures
        opt_text(r) == saved_model(contents@),
{
    let l = lines_of(contents);
    let ghost all = texts(l@);
    let mut i: usize = 0;
    assert(all.skip(0) =~= all);
    while i < l.len()
        invariant
            i <= l@.len(),
            all == texts(l@),
            all == lines(contents@),
            first_after(all, "MODEL="@) == first_after(all.skip(i as int), "MODEL="@),
        decreases l@.len() - i,
    {
        let line = l[i].as_str();
        assert(all.skip(i as int)[0] == line@);
        if starts_with(line, "MODEL=") {
            let chars = chars_of(line);
            let prefix = chars_of("MODEL=");
            let len: usize = chars.len();
            let from: usize = prefix.len();
            let model = text_range(&chars, from, len);
            assert(model@ =~= line@.skip("MODEL="@.len() as int));
            return Some(model);
        }
        assert(all.skip(i as int).skip(1) =~= all.skip(i + 1));
        i = i + 1;
    }
    None
}

// ---------------------------------------------------------------------------
// Preview pictures
// ---------------------------------------------------------------------------
/// The name by which pictures are ordered.
pub open spec fn name_bytes(p: Seq<u8>) -> Seq<u8> {
    match file_name(p) {
        Some(n) => n,
        None => Seq::empty(),
    }
}

/// The picture whose name comes last.
pub open spec fn latest_picture(files: Seq<Seq<u8>>) -> Option<Seq<u8>>
    decreases files.len(),
{
    if files.len() == 0 {
        None
    } else {
        let best = latest_picture(files.drop_last());
        let f = files.last();
        if !has_extension(f, "jpg"@) {
            best
        } else {
            match best {
                Some(b) => if bytes_before(name_bytes(f), name_bytes(b)) {
                    best
                } else {
                    Some(f)
                },
                None => Some(f),
            }
        }
    }
}

fn name_of(p: &FilePath) -> (r: Vec<u8>)
    ensures
        r@ == name_bytes(p@),
{
    match p.file_name() {
        Some(n) => n,
        None => Vec::new(),
    }
}

/// The picture whose name comes last in a directory's listing.
pub fn latest_jpg_in_dir(files: &Vec<FilePath>) -> (r: Option<FilePath>)
    ensures
        match r {
            Some(p) => latest_picture(paths(files@)) == Some(p@),
            None => latest_picture(paths(files@)) is None,
        },
{
    let ghost all = paths(files@);
    let mut best: Option<usize> = None;
    let mut i: usize = 0;
    while i < files.len()
        invariant
            i <= files@.len(),
            all == paths(files@),
            match best {
                Some(b) => b < files@.len() && latest_picture(all.take(i as int)) == Some(
                    files@[b as int]@,
                ),
                None => latest_picture(all.take(i as int)) is None,
            },
        decreases files@.len() - i,
    {
        assert(all.take(i + 1).drop_last() =~= all.take(i as int));
        assert(all.take(i + 1).last() == files@[i as int]@);
        if files[i].has_extension("jpg") {
            best = match best {
                Some(b) => if bytes_come_before(&name_of(&files[i]), &name_of(&files[b])) {
                    Some(b)
                } else {
                    Some(i)
                },
                None => Some(i),
            };
        }
        i = i + 1;
    }
    assert(all.take(all.len() as int) =~= all);
    match best {
        Some(b) => Some(files[b].clone()),
        None => None,
    }
}

/// The pictures to show: the latest upscaled one, and the frame of the same name.
pub open spec fn preview_pair(upscaled: Seq<Seq<u8>>, frames_dir: Seq<u8>) -> Option<
    (Seq<u8>, Seq<u8>),
> {
    match latest_picture(upscaled) {
        Some(up) => match file_name(up) {
            Some(n) => Some((joined(frames_dir, n), up)),
            None => None,
        },
        None => None,
    }
}

/// The pictures to show, the frame first. `upscaled` is the listing of the upscaled frames.
pub fn preview_files(upscaled: &Vec<FilePath>, frames_dir: &FilePath) -> (r: Option<
    (FilePath, FilePath),
>)
    ensures
        match r {
            Some(p) => preview_pair(paths(upscaled@), frames_dir@) == Some((p.0@, p.1@)),
            None => preview_pair(paths(upscaled@), frames_dir@) is None,
        },
{
    match latest_jpg_in_dir(upscaled) {
        Some(up) => match up.file_name() {
            Some(bytes) => Some((frames_dir.join_path(&FilePath { bytes }), up)),
            None => None,
        },
        None => None,
    }
}

// ---------------------------------------------------------------------------
// Renaming
// ---------------------------------------------------------------------------
/// The name that the user's input stands for, where it is not blank.
pub open spec fn entered_name(input: Seq<char>) -> Option<Seq<char>> {
    let t = trim(input);
    if t.len() == 0 {
        None
    } else if ".mkv"@.is_suffix_of(t) {
        Some(t)
    } else {
        Some(t + ".mkv"@)
    }
}

/// Where a file goes that is renamed to `name`.
pub open spec fn renamed(p: Seq<u8>, name: Seq<char>) -> Seq<u8> {
    under(
        match parent(p) {
            Some(d) => d,
            None => encode_utf8("."@),
        },
        name,
    )
}

/// A file that is to be renamed, unless a file of the new name exists.
pub struct RenamePlan {
    pub from: FilePath,
    pub to: FilePath,
    pub name: String,
}

/// How a rename went.
pub enum RenameOutcome {
    /// A file of that name exists.
    Exists,
    Done,
    /// The system refused, for this reason.
    Failed(String),
}

/// What the status line says of a rename.
pub open spec fn rename_text(name: Seq<char>, outcome: RenameOutcome) -> Seq<char> {
    match outcome {
        RenameOutcome::Exists => "Rename failed: "@ + name + " already exists"@,
        RenameOutcome::Done => "Renamed to "@ + name,
        RenameOutcome::Failed(e) => "Rename failed: "@ + e@,
    }
}

/// What the status line says of a rename, and whether the library is to be listed again.
pub fn rename_status(name: &str, outcome: &RenameOutcome) -> (r: (String, bool))
    ensures
        r.0@ == rename_text(name@, *outcome),
        r.1 == (*outcome is Done),
{
    match outcome {
        RenameOutcome::Exists => {
            let mut t = "Rename failed: ".to_owned();
            t.append(name);
            t.append(" already exists");
            (t, false)
        },
        RenameOutcome::Done => {
            let mut t = "Renamed to ".to_owned();
            t.append(name);
            (t, true)
        },
        RenameOutcome::Failed(e) => {
            let mut t = "Rename failed: ".to_owned();
            t.append(e.as_str());
            (t, false)
        },
    }
}

/// What the status line says of a file that was moved to the trash, or of why it was not.
pub fn trash_status(name: &str, error: Option<&str>) -> (r: String)
    ensures
        r@ == (match read_view(error) {
            Some(e) => "Trash failed: "@ + e,
            None => "Trashed "@ + name@,
        }),
{
    match error {
        Some(e) => {
            let mut t = "Trash failed: ".to_owned();
            t.append(e);
            t
        },
        None => {
            let mut t = "Trashed ".to_owned();
            t.append(name);
            t
        },
    }
}

/// What is said of a work directory that was removed, or of why it was not.
pub fn cleanup_message(error: Option<&str>) -> (r: String)
    ensures
        r@ == (match read_view(error) {
            Some(e) => "cleanup failed: "@ + e,
            None => "work dir cleaned up"@,
        }),
{
    match error {
        Some(e) => {
            let mut t = "cleanup failed: ".to_owned();
            t.append(e);
            t
        },
        None => "work dir cleaned up".to_owned(),
    }
}

// ---------------------------------------------------------------------------
// What is said of a job
// ---------------------------------------------------------------------------
/// Two numbers with something between them and something behind.
pub open spec fn ratio_text(a: u64, between: Seq<char>, b: u64, behind: Seq<char>) -> Seq<char> {
    decimal(a as nat) + between + decimal(b as nat) + behind
}

fn ratio(a: u64, between: &str, b: u64, behind: &str) -> (r: String)
    ensures
        r@ == ratio_text(a, between@, b, behind@),
{
    let mut t = decimal_text(a);
    t.append(between);
    t.append(decimal_text(b).as_str());
    t.append(behind);
    t
}

/// Which segment an upscale works on, where the number of segments is known.
pub open spec fn toolbar_segment(job: JobView) -> Option<Seq<char>> {
    if job.is_upscale && job.total_segments > 0 {
        Some("seg "@ + ratio_text(job.current_segment(), "/"@, job.total_segments, ""@))
    } else {
        None
    }
}

pub fn toolbar_segment_text(job: &PipelineJob) -> (r: Option<String>)
    ensures
        opt_text(r) == toolbar_segment(job@),
{
    if job.is_upscale && job.total_segments > 0 {
        let mut t = "seg ".to_owned();
        t.append(ratio(job.current_segment(), "/", job.total_segments, "").as_str());
        Some(t)
    } else {
        None
    }
}

/// The pause button of the toolbar, with what it does.
pub fn pause_button(job: &PipelineJob) -> (r: (&'static str, &'static str))
    ensures
        (r.0@, r.1@) == (if job@.paused {
            ("▶"@, "Resume"@)
        } else {
            ("⏸"@, "Pause"@)
        }),
{
    if job.paused {
        ("▶", "Resume")
    } else {
        ("⏸", "Pause")
    }
}

/// The text of the bar that shows the progress of the whole upscale.
pub open spec fn total_label(job: JobView) -> Seq<char> {
    if job.total_segments > 0 {
        ratio_text(job.completed_segments, "/"@, job.total_segments, " segs"@)
    } else {
        "…"@
    }
}

pub fn total_text(job: &PipelineJob) -> (r: String)
    ensures
        r@ == total_label(job@),
{
    if job.total_segments > 0 {
        ratio(job.completed_segments, "/", job.total_segments, " segs")
    } else {
        "…".to_owned()
    }
}

/// The text of the bar that shows the progress of the segment.
pub open spec fn segment_label(job: JobView) -> Seq<char> {
    if job.segment_frames > 0 {
        ratio_text(job.upscaled_frames, "/"@, job.segment_frames, " frames"@)
    } else {
        "…"@
    }
}

pub fn segment_text(job: &PipelineJob) -> (r: String)
    ensures
        r@ == segment_label(job@),
{
    if job.segment_frames > 0 {
        ratio(job.upscaled_frames, "/", job.segment_frames, " frames")
    } else {
        "…".to_owned()
    }
}

/// What the side bar says of the segments of an upscale.
pub fn segments_text(job: &PipelineJob) -> (r: String)
    ensures
        r@ == "Total  "@ + ratio_text(
            job@.completed_segments,
            "/"@,
            job@.total_segments,
            " segments"@,
        ),
{
    let mut t = "Total  ".to_owned();
    t.append(ratio(job.completed_segments, "/", job.total_segments, " segments").as_str());
    t
}

/// What the side bar says of the frames of a job.
pub open spec fn frame_label(job: JobView, now: u64) -> Seq<char> {
    if job.is_upscale {
        "frame "@ + ratio_text(job.upscaled_frames, " / "@, job.segment_frames, "  "@)
            + job.elapsed_text(now)
    } else if job.total_frames > 0 {
        "frame "@ + ratio_text(job.current_frame, " / "@, job.total_frames, "  "@)
            + job.elapsed_text(now)
    } else {
        "frame "@ + decimal(job.current_frame as nat) + "  "@ + job.elapsed_text(now)
    }
}

pub fn frame_text(job: &PipelineJob, now: u64) -> (r: String)
    ensures
        r@ == frame_label(job@, now),
{
    let mut t = "frame ".to_owned();
    if job.is_upscale {
        t.append(ratio(job.upscaled_frames, " / ", job.segment_frames, "  ").as_str());
    } else if job.total_frames > 0 {
        t.append(ratio(job.current_frame, " / ", job.total_frames, "  ").as_str());
    } else {
        t.append(decimal_text(job.current_frame).as_str());
        t.append("  ");
    }
    t.append(job.elapsed_str(now).as_str());
    t
}

/// What the side bar says of a job.
pub fn job_title(job: &PipelineJob) -> (r: String)
    ensures
        r@ == "● "@ + job@.label,
{
    let mut t = "● ".to_owned();
    t.append(job.label.as_str());
    t
}

/// What the preview pictures show.
#[derive(Clone, Copy, Debug, PartialEq, Eq, Structural)]
pub struct PreviewLabel {
    pub segment: u64,
    pub total_segments: u64,
    pub frame: u64,
    pub segment_frames: u64,
}

impl PreviewLabel {
    pub open spec fn spelled(self) -> Seq<char> {
        "Seg "@ + ratio_text(self.segment, " / "@, self.total_segments, "  ·  Frame "@)
            + ratio_text(self.frame, " / "@, self.segment_frames, ""@)
    }

    pub fn text(&self) -> (r: String)
        ensures
            r@ == self.spelled(),
    {
        let mut t = "Seg ".to_owned();
        t.append(ratio(self.segment, " / ", self.total_segments, "  ·  Frame ").as_str());
        t.append(ratio(self.frame, " / ", self.segment_frames, "").as_str());
        t
    }
}

// ---------------------------------------------------------------------------
// The view's state
// ---------------------------------------------------------------------------
pub struct UpscalePanel {
    pub library: Library,
    pub settings: UpscaleSettings,
    pub settings_panel_open: bool,
    pub pipeline: Option<PipelineJob>,
    /// The file of which the user is asked whether to delete it.
    pub confirm_delete: Option<FilePath>,
    /// The file that the user gives a new name, and the name as it is entered.
    pub rename_state: Option<(FilePath, String)>,
    pub last_preview_at: Option<u64>,
    pub last_preview_frames: u64,
    /// What the preview pictures show, where there are any.
    pub preview: Option<PreviewLabel>,
}

/// What an `UpscalePanel` holds.
#[verifier::ext_equal]
pub struct UpscaleView {
    pub entries: Seq<EntryView>,
    pub selected: Option<usize>,
    pub settings: SettingsView,
    pub settings_panel_open: bool,
    pub job: Option<JobView>,
    pub confirm_delete: Option<Seq<u8>>,
    pub rename: Option<(Seq<u8>, Seq<char>)>,
    pub last_preview_at: Option<u64>,
    pub last_preview_frames: u64,
    pub preview: Option<PreviewLabel>,
}

impl View for UpscalePanel {
    type V = UpscaleView;

    open spec fn view(&self) -> UpscaleView {
        UpscaleView {
            entries: self.library.list(),
            selected: self.library.selected,
            settings: self.settings@,
            settings_panel_open: self.settings_panel_open,
            job: match self.pipeline {
                Some(j) => Some(j@),
                None => None,
            },
            confirm_delete: match self.confirm_delete {
                Some(p) => Some(p@),
                None => None,
            },
            rename: match self.rename_state {
                Some(r) => Some((r.0@, r.1@)),
                None => None,
            },
            last_preview_at: self.last_preview_at,
            last_preview_frames: self.last_preview_frames,
            preview: self.preview,
        }
    }
}

/// A button for a job that runs.
#[derive(Clone, Copy, Debug, PartialEq, Eq, Structural)]
pub enum JobButton {
    Pause,
    StopAfterSegment,
    Cancel,
}

/// The progress bars in the middle of the upscale view.
pub enum CentralBars {
    /// Two bars: of the whole upscale, and of its segment.
    Upscale {
        total: Option<(u64, u64)>,
        total_text: String,
        segment: Option<(u64, u64)>,
        segment_text: String,
    },
    /// One bar, of the time that the job has come to.
    Plain,
    Absent,
}

/// What the middle of the upscale view shows.
pub struct CentralText {
    pub bars: CentralBars,
    /// What the preview pictures show, where there are any.
    pub preview: Option<String>,
}

/// A job after one look at its process, its log and its directories.
pub open spec fn polled_job(
    job: JobView,
    child: ChildPoll,
    log: Option<Seq<Seq<char>>>,
    segments: Option<Seq<SizedView>>,
    frames: Option<Seq<Seq<u8>>>,
    upscaled: Option<Seq<Seq<u8>>>,
) -> JobView {
    let ended = job.after_poll(child);
    let read = match log {
        Some(l) => ended.after_log(l).after_segments(segments),
        None => ended,
    };
    read.after_frames(frames, upscaled)
}

/// Where an upscale works and what it writes.
pub struct UpscaleWork {
    pub work_dir: FilePath,
    pub segments_dir: FilePath,
    pub output: FilePath,
}

/// A job that the user asked for.
pub struct ActionPlan {
    pub job: JobPlan,
    /// Where the job works, if it is an upscale.
    pub work: Option<UpscaleWork>,
}

/// What the status line says of a job that is done. `cleanup` is what is said of its work
/// directory.
pub open spec fn finish_text(job: JobView, cleanup: Option<Seq<char>>) -> Seq<char> {
    if job.is_upscale && cleanup is Some {
        job.label + " finished — "@ + cleanup->0
    } else {
        job.label + " finished"@
    }
}

impl UpscaleView {
    /// The file that is selected.
    pub open spec fn chosen(self) -> Option<EntryView> {
        match self.selected {
            Some(i) => if i < self.entries.len() {
                Some(self.entries[i as int])
            } else {
                None
            },
            None => None,
        }
    }

    /// Whether something is under way that keeps the user from starting another thing.
    pub open spec fn busy(self) -> bool {
        self.job is Some || self.confirm_delete is Some || self.rename is Some
    }

    /// What holds at all times: at most one thing is under way, and preview pictures are only
    /// those of an upscale that runs.
    pub open spec fn consistent(self) -> bool {
        &&& self.job matches Some(j) ==> j.consistent()
        &&& self.job is Some ==> self.confirm_delete is None && self.rename is None
        &&& self.confirm_delete is Some ==> self.rename is None
        &&& self.preview is Some ==> self.job is Some && self.job->0.is_upscale
        &&& self.job is None ==> self.last_preview_at is None && self.last_preview_frames == 0
    }

    /// Whether a job can be started on the selected file.
    pub open spec fn can_start(self, action: FileAction) -> bool {
        &&& !self.busy()
        &&& self.chosen() matches Some(e) && actions_for(e.kind).contains(action)
    }

    /// Whether the user is asked about the selected file's deletion.
    pub open spec fn delete_asked(self) -> bool {
        match (self.confirm_delete, self.chosen()) {
            (Some(p), Some(e)) => same_components(p, e.path),
            _ => false,
        }
    }

    /// Whether the user is asked for the selected file's new name.
    pub open spec fn rename_asked(self) -> bool {
        match (self.rename, self.chosen()) {
            (Some(r), Some(e)) => same_components(r.0, e.path),
            _ => false,
        }
    }

    /// A button of the toolbar was clicked: the next state, the signal that the job's process
    /// group gets, and what the status line says.
    pub open spec fn toolbar_clicked(self, button: JobButton) -> (
        UpscaleView,
        Option<JobSignal>,
        Option<Seq<char>>,
    ) {
        match self.job {
            Some(j) => match button {
                JobButton::Pause => (
                    UpscaleView {
                        job: Some(JobView { paused: j.paused != j.running, ..j }),
                        ..self
                    },
                    if !j.running {
                        None
                    } else if j.paused {
                        Some(JobSignal::Continue)
                    } else {
                        Some(JobSignal::Stop)
                    },
                    None,
                ),
                JobButton::StopAfterSegment => if j.is_upscale && j.stop_after is None {
                    (
                        UpscaleView {
                            job: Some(
                                JobView { stop_after: Some(j.completed_segments), ..j },
                            ),
                            ..self
                        },
                        None,
                        Some("Stopping after current segment…"@),
                    )
                } else {
                    (self, None, None)
                },
                JobButton::Cancel => (
                    self,
                    if j.running {
                        Some(JobSignal::Interrupt)
                    } else {
                        None
                    },
                    Some("Cancelling…"@),
                ),
            },
            None => (self, None, None),
        }
    }

    /// There are no preview pictures, and the next ones are due at once.
    pub open spec fn without_preview(self) -> UpscaleView {
        UpscaleView { last_preview_at: None, last_preview_frames: 0, preview: None, ..self }
    }

    /// Whether an upscale runs, so that its pictures are shown.
    pub open spec fn upscaling(self) -> bool {
        self.job matches Some(j) && j.is_upscale
    }

    /// The count of upscaled frames has fallen: a new segment has begun, and its first picture
    /// is due at once.
    pub open spec fn after_segment_change(self) -> UpscaleView {
        if self.job matches Some(j) && j.is_upscale && !j.done && j.upscaled_frames
            < self.last_preview_frames {
            UpscaleView { last_preview_at: None, last_preview_frames: 0, ..self }
        } else {
            self
        }
    }

    /// Whether the next preview pictures are due: the directories of the upscaled frames and of
    /// the frames.
    pub open spec fn preview_due(self, now: u64) -> Option<(Seq<u8>, Seq<u8>)> {
        match self.job {
            Some(j) => {
                let waited = match self.last_preview_at {
                    Some(t) => nanos_since(t, now) >= PREVIEW_NANOS,
                    None => true,
                };
                if j.is_upscale && !j.done && waited && j.upscaled_frames > 0 && j.frames_up_dir
                    is Some && j.frames_dir is Some {
                    Some((j.frames_up_dir->0, j.frames_dir->0))
                } else {
                    None
                }
            },
            None => None,
        }
    }

    /// New preview pictures are shown.
    pub open spec fn after_preview(self, now: u64) -> UpscaleView {
        match self.job {
            Some(j) => if j.is_upscale && !j.done {
                UpscaleView {
                    preview: Some(
                        PreviewLabel {
                            segment: j.current_segment(),
                            total_segments: j.total_segments,
                            frame: j.upscaled_frames,
                            segment_frames: j.segment_frames,
                        },
                    ),
                    last_preview_at: Some(now),
                    last_preview_frames: j.upscaled_frames,
                    ..self
                }
            } else {
                self
            },
            None => self,
        }
    }

    /// The output and the work directory of an upscale that is done: where the output exists,
    /// the work directory goes.
    pub open spec fn cleanup(self) -> Option<(Seq<u8>, Seq<u8>)> {
        match self.job {
            Some(j) => if j.done && j.is_upscale && j.output_path is Some && j.segments_dir is Some
                && parent(j.segments_dir->0) is Some {
                Some((j.output_path->0, parent(j.segments_dir->0)->0))
            } else {
                None
            },
            None => None,
        }
    }
}

impl UpscalePanel {
    /// The view of a program that has just started, with the listings of the three directories
    /// of the library, and what the first preset models directory holds.
    pub fn new(
        home: &str,
        models: &Vec<ModelFile>,
        viewer: &Option<Vec<DirFile>>,
        stabilized: &Option<Vec<DirFile>>,
        archival: &Option<Vec<DirFile>>,
    ) -> (r: Self)
        ensures
            r@ == (UpscaleView {
                entries: full_list(listing(*viewer), listing(*stabilized), listing(*archival)),
                selected: None,
                settings: r.settings@,
                settings_panel_open: false,
                job: None,
                confirm_delete: None,
                rename: None,
                last_preview_at: None,
                last_preview_frames: 0,
                preview: None,
            }),
            r.settings@ == default_settings(home@, sorted_names(models_in(models@))),
            r@.consistent(),
    {
        let mut library = Library::new();
        library.refresh(viewer, stabilized, archival);
        UpscalePanel {
            library,
            settings: UpscaleSettings::initial(home, models),
            settings_panel_open: false,
            pipeline: None,
            confirm_delete: None,
            rename_state: None,
            last_preview_at: None,
            last_preview_frames: 0,
            preview: None,
        }
    }

    /// List the library again.
    pub fn refresh_library(
        &mut self,
        viewer: &Option<Vec<DirFile>>,
        stabilized: &Option<Vec<DirFile>>,
        archival: &Option<Vec<DirFile>>,
    )
        ensures
            final(self)@ == (UpscaleView {
                entries: full_list(listing(*viewer), listing(*stabilized), listing(*archival)),
                selected: None,
                ..old(self)@
            }),
            old(self)@.consistent() ==> final(self)@.consistent(),
    {
        self.library.refresh(viewer, stabilized, archival);
    }

    pub fn is_upscaling(&self) -> (r: bool)
        ensures
            r == self@.upscaling(),
    {
        match &self.pipeline {
            Some(j) => j.is_upscale,
            None => false,
        }
    }

    /// Read-only access to the active job, for status display in other views.
    pub fn pipeline_job(&self) -> (r: Option<&PipelineJob>)
        ensures
            match r {
                Some(j) => self@.job == Some(j@),
                None => self@.job is None,
            },
    {
        match &self.pipeline {
            Some(j) => Some(j),
            None => None,
        }
    }

    /// Whether something is under way that keeps the user from starting another thing.
    pub fn busy(&self) -> (r: bool)
        ensures
            r == self@.busy(),
    {
        self.pipeline.is_some() || self.confirm_delete.is_some() || self.rename_state.is_some()
    }

    /// A file of the library was clicked: it is selected, and to be opened. Returns its path and
    /// what the status line says.
    pub fn show_sidebar(&mut self, i: usize) -> (r: (FilePath, String))
        requires
            i < old(self)@.entries.len(),
        ensures
            final(self)@ == (UpscaleView { selected: Some(i), ..old(self)@ }),
            r.0@ == old(self)@.entries[i as int].path,
            r.1@ == "Opening: "@ + old(self)@.entries[i as int].name,
            old(self)@.consistent() ==> final(self)@.consistent(),
    {
        let entry = self.library.click(i);
        let mut status = "Opening: ".to_owned();
        status.append(entry.name.as_str());
        (entry.path, status)
    }

    // -----------------------------------------------------------------------
    // Starting a job
    // -----------------------------------------------------------------------
    /// The job that a button of the selected file stands for, where the button can be clicked.
    ///
    /// * `work_root`: where upscales work
    /// * `ts`: seconds since the epoch
    /// * `home`, `path`: the home directory and the search path of this process
    pub fn plan(
        &self,
        action: FileAction,
        cfg: &Config,
        work_root: &FilePath,
        ts: u64,
        home: &str,
        path: &str,
    ) -> (r: Option<ActionPlan>)
        ensures
            r is Some <==> self@.can_start(action),
            r matches Some(p) ==> {
                let entry = self@.chosen()->0;
                let label = action.label_text() + " "@ + entry.name;
                let script = under(cfg.videos_dir@, action.script_name());
                let output = output_of(entry.path, cfg.viewer_path());
                &&& p.job.label@ == label
                &&& p.job.log_dir@ == cfg.log_path()
                &&& p.job.log_path@ == under(cfg.log_path(), log_name(label, ts))
                &&& p.job.launch@ == (if action.upscales() {
                    job_launch(
                        script,
                        entry.path,
                        launch_envs(self@.settings, home@),
                        launch_args(self@.settings, output),
                        search_path(home@, path@),
                    )
                } else {
                    job_launch(
                        script,
                        entry.path,
                        action.own_envs(),
                        Seq::empty(),
                        search_path(home@, path@),
                    )
                })
                &&& p.work is Some <==> action.upscales()
                &&& p.work matches Some(w) ==> {
                    &&& w.work_dir@ == work_dir(entry.path, work_root@)
                    &&& w.segments_dir@ == under(work_dir(entry.path, work_root@), "segments"@)
                    &&& w.output@ == output
                }
            },
    {
        if self.busy() {
            return None;
        }
        let entry = match self.library.selected_entry() {
            Some(e) => e,
            None => {
                return None;
            },
        };
        if !is_offered(action, entry.kind) {
            return None;
        }
        let label = action.job_label(entry.name.as_str());
        let script = action.script(cfg);
        if action.is_upscale() {
            let output = upscale_output(&entry.path, cfg);
            let (envs, args) = self.settings.to_launch(&output, home);
            let job = PipelineJob::start(
                label.as_str(),
                &script,
                &entry.path,
                &envs,
                &args,
                &cfg.log_dir(),
                ts,
                home,
                path,
            );
            let work = UpscaleWork {
                work_dir: upscale_work_dir(&entry.path, work_root),
                segments_dir: upscale_segments_dir(&entry.path, work_root),
                output,
            };
            Some(ActionPlan { job, work: Some(work) })
        } else {
            let args: Vec<String> = Vec::new();
            assert(texts(args@) =~= Seq::empty());
            let job = PipelineJob::start(
                label.as_str(),
                &script,
                &entry.path,
                &action.envs(),
                &args,
                &cfg.log_dir(),
                ts,
                home,
                path,
            );
            Some(ActionPlan { job, work: None })
        }
    }

    /// Whether the work directory of an upscale that is to be started is of no use and has to
    /// go: it was made with another model. `contents` is its record of the run, where it has
    /// one.
    pub fn work_is_stale(&self, contents: Option<&str>) -> (r: bool)
        ensures
            r == stale(read_view(contents), self@.settings.selected()),
    {
        match contents {
            Some(c) => {
                let saved = read_saved_model(c);
                let saved_text = match &saved {
                    Some(m) => Some(m.as_str()),
                    None => None,
                };
                !same_opt_text(saved_text, self.settings.selected_model())
            },
            None => false,
        }
    }

    /// The job was started at `now`. Returns what the status line says.
    ///
    /// * `total_frames`: the input's frame count, or 0 where it is not known
    /// * `total_segments`: how many segments an upscale will have, or 0 where it is not known
    pub fn note_started(
        &mut self,
        plan: ActionPlan,
        total_frames: u64,
        total_segments: u64,
        now: u64,
    ) -> (r: String)
        ensures
            ({
                let job = JobView::fresh(
                    plan.job.label@,
                    plan.job.log_dir@,
                    plan.job.log_path@,
                    total_frames,
                    now,
                );
                final(self)@ == match plan.work {
                    Some(w) => (UpscaleView {
                        job: Some(job.as_upscale(w.segments_dir@, w.output@, total_segments)),
                        ..old(self)@.without_preview()
                    }),
                    None => (UpscaleView { job: Some(job), ..old(self)@ }),
                }
            }),
            r@ == "Started: "@ + plan.job.label@,
            old(self)@.consistent() && !old(self)@.busy() ==> final(self)@.consistent(),
    {
        let mut status = "Started: ".to_owned();
        status.append(plan.job.label.as_str());
        let job = plan.job.started(total_frames, now);
        match plan.work {
            Some(w) => {
                self.last_preview_at = None;
                self.last_preview_frames = 0;
                self.preview = None;
                self.pipeline = Some(
                    job.with_upscale_tracking(w.segments_dir, w.output, total_segments),
                );
            },
            None => {
                self.pipeline = Some(job);
            },
        }
        status
    }

    /// What the status line says of a job that could not be started, for this reason.
    pub fn start_failed_status(reason: &str) -> (r: String)
        ensures
            r@ == "Failed to start job: "@ + reason@,
    {
        let mut status = "Failed to start job: ".to_owned();
        status.append(reason);
        status
    }

    // -----------------------------------------------------------------------
    // Deleting and renaming
    // -----------------------------------------------------------------------
    /// The user wants to delete the selected file. Does nothing while something is under way.
    pub fn ask_delete(&mut self)
        ensures
            final(self)@ == (UpscaleView {
                confirm_delete: if !old(self)@.busy() && old(self)@.chosen() is Some {
                    Some(old(self)@.chosen()->0.path)
                } else {
                    old(self)@.confirm_delete
                },
                ..old(self)@
            }),
            old(self)@.consistent() ==> final(self)@.consistent(),
    {
        if self.busy() {
            return;
        }
        let path = match self.library.selected_entry() {
            Some(e) => e.path.clone(),
            None => {
                return;
            },
        };
        self.confirm_delete = Some(path);
    }

    /// Whether the user is asked about the selected file's deletion.
    pub fn delete_asked(&self) -> (r: bool)
        ensures
            r == self@.delete_asked(),
    {
        match &self.confirm_delete {
            Some(p) => match self.library.selected_entry() {
                Some(e) => p.same_path(&e.path),
                None => false,
            },
            None => false,
        }
    }

    /// The user's answer to the question whether to delete the selected file. Returns the file
    /// that has to go to the trash, with its name; the library is to be listed again after that.
    pub fn answer_delete(&mut self, yes: bool) -> (r: Option<(FilePath, String)>)
        ensures
            final(self)@ == (UpscaleView {
                confirm_delete: if old(self)@.delete_asked() {
                    None
                } else {
                    old(self)@.confirm_delete
                },
                ..old(self)@
            }),
            match r {
                Some(f) => yes && old(self)@.delete_asked() && f.0@ == old(self)@.confirm_delete->0
                    && f.1@ == old(self)@.chosen()->0.name,
                None => !yes || !old(self)@.delete_asked(),
            },
            old(self)@.consistent() ==> final(self)@.consistent(),
    {
        if !self.delete_asked() {
            return None;
        }
        let name = match self.library.selected_entry() {
            Some(e) => e.name.clone(),
            None => String::new(),
        };
        let target = self.confirm_delete.take();
        if !yes {
            return None;
        }
        match target {
            Some(p) => Some((p, name)),
            None => None,
        }
    }

    /// The user wants to give the selected file another name. Only copies for viewing can be
    /// renamed, and only while nothing is under way.
    pub fn ask_rename(&mut self)
        ensures
            final(self)@ == (UpscaleView {
                rename: if !old(self)@.busy() && old(self)@.chosen() is Some
                    && old(self)@.chosen()->0.kind == FileKind::Viewer {
                    Some(
                        (
                            old(self)@.chosen()->0.path,
                            suggested_name(old(self)@.chosen()->0.path),
                        ),
                    )
                } else {
                    old(self)@.rename
                },
                ..old(self)@
            }),
            old(self)@.consistent() ==> final(self)@.consistent(),
    {
        if self.busy() {
            return;
        }
        let state = match self.library.selected_entry() {
            Some(e) => if e.kind == FileKind::Viewer {
                (e.path.clone(), suggest_viewer_name(&e.path))
            } else {
                return;
            },
            None => {
                return;
            },
        };
        self.rename_state = Some(state);
    }

    /// Whether the user is asked for the selected file's new name.
    pub fn rename_asked(&self) -> (r: bool)
        ensures
            r == self@.rename_asked(),
    {
        match &self.rename_state {
            Some(s) => match self.library.selected_entry() {
                Some(e) => s.0.same_path(&e.path),
                None => false,
            },
            None => false,
        }
    }

    /// The user has entered the new name, or has thought better of it. Returns what has to be
    /// renamed; a blank name renames nothing.
    pub fn answer_rename(&mut self, ok: bool) -> (r: Option<RenamePlan>)
        ensures
            final(self)@ == (UpscaleView {
                rename: if old(self)@.rename_asked() {
                    None
                } else {
                    old(self)@.rename
                },
                ..old(self)@
            }),
            match r {
                Some(p) => {
                    &&& ok
                    &&& old(self)@.rename_asked()
                    &&& entered_name((old(self)@.rename->0).1) == Some(p.name@)
                    &&& p.from@ == old(self)@.chosen()->0.path
                    &&& p.to@ == renamed(old(self)@.chosen()->0.path, p.name@)
                },
                None => {
                    ||| !ok
                    ||| !old(self)@.rename_asked()
                    ||| entered_name((old(self)@.rename->0).1) is None
                },
            },
            old(self)@.consistent() ==> final(self)@.consistent(),
    {
        if !self.rename_asked() {
            return None;
        }
        let from = match self.library.selected_entry() {
            Some(e) => e.path.clone(),
            None => {
                return None;
            },
        };
        let state = self.rename_state.take();
        if !ok {
            return None;
        }
        match state {
            Some(s) => {
                let mut name = trimmed(s.1.as_str());
                if chars_of(name.as_str()).len() == 0 {
                    return None;
                }
                if !ends_with(name.as_str(), ".mkv") {
                    name.append(".mkv");
                }
                let dir = match from.parent() {
                    Some(d) => d,
                    None => FilePath::from_text("."),
                };
                let to = dir.join(name.as_str());
                Some(RenamePlan { from, to, name })
            },
            None => None,
        }
    }

    // -----------------------------------------------------------------------
    // The job that runs
    // -----------------------------------------------------------------------
    /// A button of the toolbar was clicked. Returns the signal that the job's process group
    /// gets, and what the status line says.
    pub fn toolbar_section(&mut self, button: JobButton) -> (r: (
        Option<JobSignal>,
        Option<String>,
    ))
        ensures
            ({
                let (next, signal, status) = old(self)@.toolbar_clicked(button);
                final(self)@ == next && r.0 == signal && opt_text(r.1) == status
            }),
            old(self)@.consistent() ==> final(self)@.consistent(),
    {
        match &mut self.pipeline {
            Some(job) => match button {
                JobButton::Pause => (job.toggle_pause(), None),
                JobButton::StopAfterSegment => {
                    if job.is_upscale && !job.stopping_after_segment() {
                        job.request_stop_after_segment();
                        (None, Some("Stopping after current segment…".to_owned()))
                    } else {
                        (None, None)
                    }
                },
                JobButton::Cancel => (job.cancel(), Some("Cancelling…".to_owned())),
            },
            None => (None, None),
        }
    }

    /// A button below the selected file was clicked. Only an upscale can be paused there, and
    /// the status line says nothing of it.
    pub fn sidebar_button(&mut self, button: JobButton) -> (r: Option<JobSignal>)
        ensures
            ({
                let (next, signal, _) = old(self)@.toolbar_clicked(button);
                if button == JobButton::Pause && !old(self)@.upscaling() {
                    final(self)@ == old(self)@ && r is None
                } else {
                    final(self)@ == next && r == signal
                }
            }),
            old(self)@.consistent() ==> final(self)@.consistent(),
    {
        if button == JobButton::Pause && !self.is_upscaling() {
            return None;
        }
        self.toolbar_section(button).0
    }

    /// What the settings panel did in one frame: the knobs that were turned, in order. Returns
    /// whether the settings have to be saved.
    pub fn show_settings_panel(&mut self, edits: &Vec<SettingsEdit>, home: &str) -> (changed: bool)
        ensures
            ({
                let (t, edited) = edited_all(old(self)@.settings, edits_view(edits@), home@);
                &&& final(self)@ == (UpscaleView { settings: t.scale_synced(), ..old(self)@ })
                &&& changed == (edited || t.scale_synced() != t)
            }),
            old(self)@.consistent() ==> final(self)@.consistent(),
    {
        self.settings.edit_all(edits, home)
    }

    /// Poll the running job: what became of its process, and what its log and its directories
    /// say. A log that could not be read says nothing, and the segments are then not counted.
    /// Returns the times that the log reports, as text, and the signal that the job's process
    /// group gets.
    pub fn poll(
        &mut self,
        child: ChildPoll,
        log: &Option<Vec<String>>,
        segments: &Option<Vec<SizedFile>>,
        frames: &Option<Vec<FilePath>>,
        upscaled: &Option<Vec<FilePath>>,
    ) -> (r: (Vec<(String, String, String)>, Option<JobSignal>))
        ensures
            ({
                let text = match *log {
                    Some(l) => Some(texts(l@)),
                    None => None,
                };
                match old(self)@.job {
                    Some(j) => {
                        let polled = polled_job(
                            j,
                            child,
                            text,
                            sized_listing(*segments),
                            paths_listing(*frames),
                            paths_listing(*upscaled),
                        );
                        &&& final(self)@ == (UpscaleView {
                            job: Some(polled.after_stop()),
                            ..old(self)@
                        })
                        &&& r.1 == (if polled.stop_due() {
                            Some(JobSignal::Interrupt)
                        } else {
                            None
                        })
                        &&& triples(r.0@) == (match text {
                            Some(t) => times(reports(t)),
                            None => Seq::empty(),
                        })
                    },
                    None => final(self)@ == old(self)@ && r.0@.len() == 0 && r.1 is None,
                }
            }),
            old(self)@.consistent() ==> final(self)@.consistent(),
    {
        let none: Vec<(String, String, String)> = Vec::new();
        assert(triples(none@) =~= Seq::empty());
        match &mut self.pipeline {
            Some(job) => {
                job.poll(child);
                let found = match log {
                    Some(l) => {
                        let found = job.note_log(l);
                        job.note_segments(segments);
                        found
                    },
                    None => none,
                };
                job.note_frames(frames, upscaled);
                let signal = job.take_stop();
                (found, signal)
            },
            None => (none, None),
        }
    }

    /// What the middle of the upscale view shows.
    pub fn show_central(&self) -> (r: CentralText)
        ensures
            match self@.job {
                Some(j) => if j.is_upscale {
                    r.bars matches CentralBars::Upscale { total, total_text, segment, segment_text }
                        && total == j.total_progress() && total_text@ == total_label(j) && segment
                        == j.segment_progress() && segment_text@ == segment_label(j)
                } else {
                    r.bars is Plain
                },
                None => r.bars is Absent,
            },
            opt_text(r.preview) == (match self@.preview {
                Some(p) => Some(p.spelled()),
                None => None,
            }),
    {
        let bars = match &self.pipeline {
            Some(job) => if job.is_upscale {
                CentralBars::Upscale {
                    total: job.total_progress(),
                    total_text: total_text(job),
                    segment: job.segment_progress(),
                    segment_text: segment_text(job),
                }
            } else {
                CentralBars::Plain
            },
            None => CentralBars::Absent,
        };
        let preview = match &self.preview {
            Some(p) => Some(p.text()),
            None => None,
        };
        CentralText { bars, preview }
    }

    /// Look for new preview pictures. Returns the directories of the upscaled frames and of the
    /// frames, where pictures are due: at once when a segment begins, and every four seconds
    /// after that.
    pub fn next_preview(&mut self, now: u64) -> (r: Option<(FilePath, FilePath)>)
        ensures
            final(self)@ == old(self)@.after_segment_change(),
            match r {
                Some(d) => final(self)@.preview_due(now) == Some((d.0@, d.1@)),
                None => final(self)@.preview_due(now) is None,
            },
            old(self)@.consistent() ==> final(self)@.consistent(),
    {
        let job = match &self.pipeline {
            Some(j) => j,
            None => {
                return None;
            },
        };
        if !job.is_upscale || job.done {
            return None;
        }
        if job.upscaled_frames < self.last_preview_frames {
            self.last_preview_at = None;
            self.last_preview_frames = 0;
        }
        let due = match self.last_preview_at {
            Some(t) => elapsed_nanos(t, now) >= PREVIEW_NANOS,
            None => true,
        };
        if !due || job.upscaled_frames == 0 {
            return None;
        }
        match (&job.frames_up_dir, &job.frames_dir) {
            (Some(up), Some(frames)) => Some((up.clone(), frames.clone())),
            _ => None,
        }
    }

    /// The preview pictures were loaded and are shown.
    pub fn note_preview(&mut self, now: u64)
        ensures
            final(self)@ == old(self)@.after_preview(now),
            old(self)@.consistent() ==> final(self)@.consistent(),
    {
        let job = match &self.pipeline {
            Some(j) => j,
            None => {
                return;
            },
        };
        if !job.is_upscale || job.done {
            return;
        }
        let frame: u64 = job.upscaled_frames;
        self.preview = Some(
            PreviewLabel {
                segment: job.current_segment(),
                total_segments: job.total_segments,
                frame,
                segment_frames: job.segment_frames,
            },
        );
        self.last_preview_at = Some(now);
        self.last_preview_frames = frame;
    }

    /// The output and the work directory of an upscale that is done. Where the output exists,
    /// the work directory is to be removed.
    pub fn cleanup_upscale_work_dir(&self) -> (r: Option<(FilePath, FilePath)>)
        ensures
            match r {
                Some(d) => self@.cleanup() == Some((d.0@, d.1@)),
                None => self@.cleanup() is None,
            },
    {
        let job = match &self.pipeline {
            Some(j) => j,
            None => {
                return None;
            },
        };
        if !job.done || !job.is_upscale {
            return None;
        }
        match (&job.output_path, &job.segments_dir) {
            (Some(out), Some(segments)) => match segments.parent() {
                Some(work) => Some((out.clone(), work)),
                None => None,
            },
            _ => None,
        }
    }

    /// Clear away a job that is done. Returns what the status line says; the library is to be
    /// listed again. `cleanup` is what is said of the work directory, where it was to go.
    pub fn finish(&mut self, cleanup: Option<&str>) -> (r: Option<String>)
        ensures
            match old(self)@.job {
                Some(j) => if j.done {
                    final(self)@ == (UpscaleView { job: None, ..old(self)@.without_preview() })
                        && opt_text(r) == Some(finish_text(j, read_view(cleanup)))
                } else {
                    final(self)@ == old(self)@ && r is None
                },
                None => final(self)@ == old(self)@ && r is None,
            },
            old(self)@.consistent() ==> final(self)@.consistent(),
    {
        let status = match &self.pipeline {
            Some(job) => {
                if !job.done {
                    return None;
                }
                let mut t = job.label.clone();
                match cleanup {
                    Some(msg) => if job.is_upscale {
                        t.append(" finished — ");
                        t.append(msg);
                    } else {
                        t.append(" finished");
                    },
                    None => {
                        t.append(" finished");
                    },
                }
                t
            },
            None => {
                return None;
            },
        };
        self.last_preview_at = None;
        self.last_preview_frames = 0;
        self.preview = None;
        self.pipeline = None;
        Some(status)
    }
}

// ---------------------------------------------------------------------------
// Laws
// ---------------------------------------------------------------------------
/// While a job runs or the user is asked something, nothing else can be started.
pub proof fn law_one_thing_at_a_time(v: UpscaleView, action: FileAction)
    ensures
        v.busy() ==> !v.can_start(action),
        v.can_start(action) ==> v.chosen() is Some && actions_for(v.chosen()->0.kind).contains(
            action,
        ),
{
}

/// A new name always ends in `.mkv`, and is never blank.
pub proof fn law_renamed_is_mkv(input: Seq<char>)
    ensures
        entered_name(input) matches Some(n) ==> ".mkv"@.is_suffix_of(n),
        entered_name(input) is None <==> trim(input).len() == 0,
{
    let t = trim(input);
    if t.len() > 0 && !".mkv"@.is_suffix_of(t) {
        let n = t + ".mkv"@;
        assert(n.subrange(n.len() - ".mkv"@.len(), n.len() as int) =~= ".mkv"@);
    }
}

/// A file stays in its directory when it gets a name without a slash.
pub proof fn law_rename_stays_in_directory(p: Seq<u8>, input: Seq<char>)
    requires
        entered_name(input) is Some,
        !(entered_name(input)->0).contains('/'),
        parent(p) is Some,
    ensures
        parent(renamed(p, entered_name(input)->0)) == Some(tidy(parent(p)->0)),
{
    let name = entered_name(input)->0;
    law_renamed_is_mkv(input);
    reveal_strlit(".mkv");
    law_no_slash_in_name(name);
    lemma_encoded_len(name);
    law_entry_of_directory(parent(p)->0, encode_utf8(name));
}

/// Once pictures are shown, the next ones are not due for four seconds, unless a new segment
/// begins.
pub proof fn law_previews_are_spaced(v: UpscaleView, now: u64, later: u64)
    requires
        v.upscaling(),
        !v.job->0.done,
        now <= later < now + PREVIEW_NANOS,
    ensures
        v.after_preview(now).after_segment_change() == v.after_preview(now),
        v.after_preview(now).preview_due(later) is None,
{
}

/// A new segment's first picture is due at once: when the count of upscaled frames falls, no
/// time has to pass.
pub proof fn law_new_segment_is_shown(v: UpscaleView, now: u64)
    requires
        v.upscaling(),
        !v.job->0.done,
        0 < v.job->0.upscaled_frames < v.last_preview_frames,
        v.job->0.frames_dir is Some,
        v.job->0.frames_up_dir is Some,
    ensures
        v.after_segment_change().preview_due(now) is Some,
{
}

/// The record of a run that a script writes is read back: a work directory is kept for the
/// model that it was made with, and for no other.
pub proof fn law_saved_model_is_read_back(model: Seq<char>, other: Option<Seq<char>>)
    requires
        !model.contains('\n'),
        model.len() == 0 || model.last() != '\r',
    ensures
        saved_model(("MODEL="@ + model).push('\n')) == Some(model),
        stale(Some(("MODEL="@ + model).push('\n')), other) <==> other != Some(model),
{
    let line = "MODEL="@ + model;
    reveal_strlit("MODEL=");
    assert forall|i: int| 0 <= i < line.len() implies line[i] != '\n' by {
        if i < "MODEL="@.len() {
            assert(line[i] == "MODEL="@[i]);
        } else {
            assert(line[i] == model[i - "MODEL="@.len()]);
        }
    }
    let empty = Seq::<char>::empty();
    assert(line.push('\n') + empty =~= line.push('\n'));
    law_split_undoes_join(line, empty, '\n');
    law_split_nothing(empty, '\n');
    let parts = split_on(line.push('\n'), '\n');
    assert(parts =~= seq![line, empty]);
    assert(line.last() != '\r') by {
        if model.len() == 0 {
            assert(line.last() == "MODEL="@.last());
        } else {
            assert(line.last() == model.last());
        }
    }
    assert(strip_cr(line) == line);
    let l = lines(line.push('\n'));
    assert(l =~= seq![line]);
    assert("MODEL="@.is_prefix_of(line)) by {
        assert(line.subrange(0, "MODEL="@.len() as int) =~= "MODEL="@);
    }
    assert(line.skip("MODEL="@.len() as int) =~= model);
}

proof fn lemma_bytes_order(a: Seq<u8>, b: Seq<u8>, c: Seq<u8>)
    ensures
        !bytes_before(a, a),
        !bytes_before(b, a) && !bytes_before(c, b) ==> !bytes_before(c, a),
        bytes_before(a, b) ==> !bytes_before(b, a),
    decreases a.len() + b.len() + c.len(),
{
    let ta = if a.len() > 0 {
        a.skip(1)
    } else {
        a
    };
    let tb = if b.len() > 0 {
        b.skip(1)
    } else {
        b
    };
    let tc = if c.len() > 0 {
        c.skip(1)
    } else {
        c
    };
    if a.len() + b.len() + c.len() > 0 {
        lemma_bytes_order(ta, tb, tc);
    }
}

/// The preview shows the latest picture: it is one of the directory's pictures, and the name of
/// none comes after its name.
pub proof fn law_latest_picture(files: Seq<Seq<u8>>)
    ensures
        match latest_picture(files) {
            Some(p) => {
                &&& files.contains(p)
                &&& has_extension(p, "jpg"@)
                &&& forall|i: int|
                    0 <= i < files.len() && has_extension(#[trigger] files[i], "jpg"@)
                        ==> !bytes_before(name_bytes(p), name_bytes(files[i]))
            },
            None => forall|i: int|
                0 <= i < files.len() ==> !has_extension(#[trigger] files[i], "jpg"@),
        },
    decreases files.len(),
{
    if files.len() > 0 {
        let front = files.drop_last();
        law_latest_picture(front);
        let best = latest_picture(front);
        let last = files.last();
        match latest_picture(files) {
            Some(p) => {
                assert(files.contains(p)) by {
                    if p == last {
                        assert(files[files.len() - 1] == p);
                    } else {
                        let k = choose|k: int| 0 <= k < front.len() && front[k] == p;
                        assert(files[k] == p);
                    }
                }
                assert forall|i: int|
                    0 <= i < files.len() && has_extension(
                        #[trigger] files[i],
                        "jpg"@,
                    ) implies !bytes_before(name_bytes(p), name_bytes(files[i])) by {
                    lemma_bytes_order(name_bytes(p), name_bytes(p), name_bytes(p));
                    if i < files.len() - 1 {
                        assert(front[i] == files[i]);
                        let b = best->0;
                        lemma_bytes_order(name_bytes(files[i]), name_bytes(b), name_bytes(p));
                    } else if best is Some {
                        lemma_bytes_order(
                            name_bytes(last),
                            name_bytes(best->0),
                            name_bytes(best->0),
                        );
                    }
                }
            },
            None => {
                assert forall|i: int| 0 <= i < files.len() implies !has_extension(
                    #[trigger] files[i],
                    "jpg"@,
                ) by {
                    if i < files.len() - 1 {
                        assert(front[i] == files[i]);
                    }
                }
            },
        }
    }
}

proof fn lemma_first_after(before: Seq<Seq<char>>, line: Seq<char>, after: Seq<Seq<char>>)
    requires
        forall|i: int| 0 <= i < before.len() ==> !"MODEL="@.is_prefix_of(#[trigger] before[i]),
        "MODEL="@.is_prefix_of(line),
    ensures
        first_after(before.push(line) + after, "MODEL="@) == Some(
            line.skip("MODEL="@.len() as int),
        ),
        first_after(before, "MODEL="@) is None,
    decreases before.len(),
{
    let all = before.push(line) + after;
    if before.len() > 0 {
        let rest = before.skip(1);
        assert forall|i: int| 0 <= i < rest.len() implies !"MODEL="@.is_prefix_of(
            #[trigger] rest[i],
        ) by {
            assert(rest[i] == before[i + 1]);
        }
        lemma_first_after(rest, line, after);
        assert(all.skip(1) =~= rest.push(line) + after);
        assert(all[0] == before[0]);
    } else {
        assert(all[0] == line);
    }
}

/// The model of a work directory is what stands behind `MODEL=` in the first such line of its
/// record, whatever other lines the record has; a record without such a line names none.
pub proof fn law_first_model_line_counts(
    contents: Seq<char>,
    before: Seq<Seq<char>>,
    model: Seq<char>,
    after: Seq<Seq<char>>,
    current: Option<Seq<char>>,
)
    requires
        forall|i: int| 0 <= i < before.len() ==> !"MODEL="@.is_prefix_of(#[trigger] before[i]),
    ensures
        lines(contents) == before.push("MODEL="@ + model) + after ==> saved_model(contents)
            == Some(model) && (stale(Some(contents), current) <==> current != Some(model)),
        lines(contents) == before ==> saved_model(contents) is None && (stale(
            Some(contents),
            current,
        ) <==> current is Some),
        !stale(None, current),
{
    let line = "MODEL="@ + model;
    let n = "MODEL="@.len() as int;
    assert(line.subrange(0, n) =~= "MODEL="@);
    assert(line.skip(n) =~= model);
    lemma_first_after(before, line, after);
}

/// The two pictures of a preview have the same name: one is the latest upscaled picture, the other
/// the frame of that name in the directory of the frames. There are two wherever there is one.
pub proof fn law_preview_pictures_belong_together(files: Seq<Seq<u8>>, frames_dir: Seq<u8>)
    ensures
        preview_pair(files, frames_dir) is Some <==> latest_picture(files) is Some,
        preview_pair(files, frames_dir) matches Some(p) ==> {
            &&& latest_picture(files) == Some(p.1)
            &&& file_name(p.1) is Some
            &&& file_name(p.0) == file_name(p.1)
            &&& parent(p.0) == Some(tidy(frames_dir))
        },
{
    law_latest_picture(files);
    match latest_picture(files) {
        Some(up) => {
            lemma_file_name_slash_free(up);
            law_entry_of_directory(frames_dir, file_name(up)->0);
        },
        None => {},
    }
}

/// A file gets the name that was entered, without the white space around it, and with `.mkv`
/// behind it exactly where that is not there already.
pub proof fn law_entered_name(before: Seq<char>, name: Seq<char>, after: Seq<char>)
    requires
        all_white(before, 0, before.len() as int),
        all_white(after, 0, after.len() as int),
        name.len() > 0,
        !is_white(name[0]) && !is_white(name.last()),
    ensures
        entered_name(before + name + ".mkv"@ + after) == Some(name + ".mkv"@),
        !".mkv"@.is_suffix_of(name) ==> entered_name(before + name + after) == Some(
            name + ".mkv"@,
        ),
        entered_name(before + after) is None,
{
    reveal_strlit(".mkv");
    let full = name + ".mkv"@;
    assert(full.last() == 'v' && full[0] == name[0]);
    assert(!is_white('v'));
    assert(full.subrange(full.len() - ".mkv"@.len(), full.len() as int) =~= ".mkv"@);
    law_trim_undoes_padding(before, full, after);
    assert(before + name + ".mkv"@ + after =~= before + full + after);
    law_trim_undoes_padding(before, name, after);
    let empty = Seq::<char>::empty();
    law_trim_undoes_padding(before, empty, after);
    assert(before + empty + after =~= before + after);
}

/// A file that is renamed gets the new name and stays in its directory.
pub proof fn law_rename_gives_the_name(p: Seq<u8>, name: Seq<char>)
    requires
        ".mkv"@.is_suffix_of(name),
        !name.contains('/'),
        parent(p) is Some,
    ensures
        file_name_text(renamed(p, name)) == Some(name),
        parent(renamed(p, name)) == Some(tidy(parent(p)->0)),
{
    reveal_strlit(".mkv");
    law_no_slash_in_name(name);
    lemma_encoded_len(name);
    law_entry_of_directory(parent(p)->0, encode_utf8(name));
    law_text_reads_back(name);
}

/// What is said of a rename holds the name where the file got it or another has it, and the
/// system's reason where it refused.
pub proof fn law_rename_is_reported(name: Seq<char>, reason: String)
    ensures
        rename_text(name, RenameOutcome::Done) == "Renamed to "@ + name,
        rename_text(name, RenameOutcome::Exists) == "Rename failed: "@ + name
            + " already exists"@,
        rename_text(name, RenameOutcome::Failed(reason)) == "Rename failed: "@ + reason@,
{
}

/// What is said of a finished job begins with its label; of an upscale whose work directory was to
/// go it ends with what became of that, and of no other job.
pub proof fn law_finish_is_reported(job: JobView, cleanup: Seq<char>)
    ensures
        finish_text(job, None) == job.label + " finished"@,
        !job.is_upscale ==> finish_text(job, Some(cleanup)) == job.label + " finished"@,
        job.is_upscale ==> finish_text(job, Some(cleanup)) == job.label + " finished — "@ + cleanup,
{
}

proof fn lemma_slash_word()
    ensures
        words("/"@) == seq!["/"@],
{
    reveal_strlit("/");
    assert(!is_white('/'));
    law_word_of_solid("/"@);
}

/// Two numbers with a slash between them, word by word.
proof fn lemma_ratio_words(before: Seq<char>, a: u64, b: u64)
    ensures
        words(before + " "@ + ratio_text(a, " / "@, b, ""@)) == words(before) + seq![
            decimal(a as nat),
            "/"@,
            decimal(b as nat),
        ],
{
    let x = decimal(a as nat);
    let y = decimal(b as nat);
    reveal_strlit(" / ");
    reveal_strlit("/");
    reveal_strlit(" ");
    reveal_strlit("");
    let s = before + " "@ + x;
    let t = s + " "@ + "/"@;
    assert(before + " "@ + ratio_text(a, " / "@, b, ""@) =~= t + " "@ + y);
    law_spaces_part_words(t, y);
    law_spaces_part_words(s, "/"@);
    law_spaces_part_words(before, x);
    law_number_is_one_word(a as nat);
    law_number_is_one_word(b as nat);
    lemma_slash_word();
    assert(words(t + " "@ + y) =~= words(before) + seq![x, "/"@, y]);
}

/// What the side bar says of a job's frames is, word by word, the counts of the segment for an
/// upscale and those of the whole file for any other job, and the time that the job has run for.
pub proof fn law_frame_text_shows_the_counts(job: JobView, now: u64)
    ensures
        job.is_upscale ==> words(frame_label(job, now)) == seq![
            "frame"@,
            decimal(job.upscaled_frames as nat),
            "/"@,
            decimal(job.segment_frames as nat),
        ] + words(job.elapsed_text(now)),
        !job.is_upscale && job.total_frames > 0 ==> words(frame_label(job, now)) == seq![
            "frame"@,
            decimal(job.current_frame as nat),
            "/"@,
            decimal(job.total_frames as nat),
        ] + words(job.elapsed_text(now)),
        !job.is_upscale && job.total_frames == 0 ==> words(frame_label(job, now)) == seq![
            "frame"@,
            decimal(job.current_frame as nat),
        ] + words(job.elapsed_text(now)),
{
    let e = job.elapsed_text(now);
    reveal_strlit("frame ");
    reveal_strlit("frame");
    reveal_strlit(" ");
    reveal_strlit("  ");
    reveal_strlit("");
    assert(solid("frame"@));
    law_word_of_solid("frame"@);
    if job.is_upscale || job.total_frames > 0 {
        let (a, b) = if job.is_upscale {
            (job.upscaled_frames, job.segment_frames)
        } else {
            (job.current_frame, job.total_frames)
        };
        let s = "frame"@ + " "@ + ratio_text(a, " / "@, b, ""@);
        assert(frame_label(job, now) =~= s + "  "@ + e);
        law_spaces_part_words(s, e);
        lemma_ratio_words("frame"@, a, b);
        assert(words(frame_label(job, now)) =~= seq![
            "frame"@,
            decimal(a as nat),
            "/"@,
            decimal(b as nat),
        ] + words(e));
    } else {
        let d = decimal(job.current_frame as nat);
        let s = "frame"@ + " "@ + d;
        assert(frame_label(job, now) =~= s + "  "@ + e);
        law_spaces_part_words(s, e);
        law_spaces_part_words("frame"@, d);
        law_number_is_one_word(job.current_frame as nat);
        assert(words(frame_label(job, now)) =~= seq!["frame"@, d] + words(e));
    }
}

/// The text of the preview shows its four numbers, the segment and the frame each before the count
/// of all.
pub proof fn law_preview_text_shows_the_counts(p: PreviewLabel)
    ensures
        words(p.spelled()) == seq![
            "Seg"@,
            decimal(p.segment as nat),
            "/"@,
            decimal(p.total_segments as nat),
            "·"@,
            "Frame"@,
            decimal(p.frame as nat),
            "/"@,
            decimal(p.segment_frames as nat),
        ],
{
    reveal_strlit("Seg ");
    reveal_strlit("Seg");
    reveal_strlit("·");
    reveal_strlit("Frame");
    reveal_strlit("  ·  Frame ");
    reveal_strlit(" ");
    reveal_strlit("  ");
    reveal_strlit("");
    assert(solid("Seg"@) && solid("·"@) && solid("Frame"@));
    law_word_of_solid("Seg"@);
    law_word_of_solid("·"@);
    law_word_of_solid("Frame"@);
    let a = "Seg"@ + " "@ + ratio_text(p.segment, " / "@, p.total_segments, ""@);
    let b = a + "  "@ + "·"@;
    let c = b + "  "@ + "Frame"@;
    let d = c + " "@ + ratio_text(p.frame, " / "@, p.segment_frames, ""@);
    assert(p.spelled() =~= d);
    lemma_ratio_words("Seg"@, p.segment, p.total_segments);
    law_spaces_part_words(a, "·"@);
    law_spaces_part_words(b, "Frame"@);
    lemma_ratio_words(c, p.frame, p.segment_frames);
    assert(words(d) =~= seq![
        "Seg"@,
        decimal(p.segment as nat),
        "/"@,
        decimal(p.total_segments as nat),
        "·"@,
        "Frame"@,
        decimal(p.frame as nat),
        "/"@,
        decimal(p.segment_frames as nat),
    ]);
}

/// A text with one slash is two parts.
proof fn lemma_two_parts(before: Seq<char>, a: u64, b: u64, behind: Seq<char>)
    requires
        !before.contains('/'),
        !behind.contains('/'),
    ensures
        split_on(before + ratio_text(a, "/"@, b, behind), '/') == seq![
            before + decimal(a as nat),
            decimal(b as nat) + behind,
        ],
{
    reveal_strlit("/");
    law_number_is_one_word(a as nat);
    law_number_is_one_word(b as nat);
    let x = before + decimal(a as nat);
    let y = decimal(b as nat) + behind;
    assert forall|i: int| 0 <= i < x.len() implies x[i] != '/' by {
        if i < before.len() {
            assert(x[i] == before[i]);
        } else {
            assert(x[i] == decimal(a as nat)[i - before.len()]);
        }
    }
    assert forall|i: int| 0 <= i < y.len() implies y[i] != '/' by {
        if i < decimal(b as nat).len() {
            assert(y[i] == decimal(b as nat)[i]);
        } else {
            assert(y[i] == behind[i - decimal(b as nat).len()]);
        }
    }
    assert(before + ratio_text(a, "/"@, b, behind) =~= x.push('/') + y);
    law_split_undoes_join(x, y, '/');
    law_split_nothing(y, '/');
    assert(seq![x] + seq![y] =~= seq![x, y]);
}

/// The bars of an upscale and its mark in the toolbar show, on the two sides of the slash, what is
/// done of what there is: finished segments of all segments, upscaled frames of the frames of the
/// segment, and the segment that is worked on, which is the one behind the finished ones.
pub proof fn law_bars_show_the_counts(job: JobView)
    ensures
        job.total_segments > 0 ==> split_on(total_label(job), '/') == seq![
            decimal(job.completed_segments as nat),
            decimal(job.total_segments as nat) + " segs"@,
        ],
        job.total_segments == 0 ==> total_label(job) == "…"@,
        job.segment_frames > 0 ==> split_on(segment_label(job), '/') == seq![
            decimal(job.upscaled_frames as nat),
            decimal(job.segment_frames as nat) + " frames"@,
        ],
        job.segment_frames == 0 ==> segment_label(job) == "…"@,
        toolbar_segment(job) is Some <==> job.is_upscale && job.total_segments > 0,
        toolbar_segment(job) is Some && job.completed_segments < u64::MAX ==> split_on(
            toolbar_segment(job)->0,
            '/',
        ) == seq![
            "seg "@ + decimal((job.completed_segments + 1) as nat),
            decimal(job.total_segments as nat),
        ],
{
    let empty = Seq::<char>::empty();
    reveal_strlit(" segs");
    reveal_strlit(" frames");
    reveal_strlit("seg ");
    reveal_strlit("");
    let total = ratio_text(job.completed_segments, "/"@, job.total_segments, " segs"@);
    assert(empty + total =~= total);
    assert(empty + decimal(job.completed_segments as nat) =~= decimal(
        job.completed_segments as nat,
    ));
    lemma_two_parts(empty, job.completed_segments, job.total_segments, " segs"@);
    let part = ratio_text(job.upscaled_frames, "/"@, job.segment_frames, " frames"@);
    assert(empty + part =~= part);
    assert(empty + decimal(job.upscaled_frames as nat) =~= decimal(job.upscaled_frames as nat));
    lemma_two_parts(empty, job.upscaled_frames, job.segment_frames, " frames"@);
    lemma_two_parts("seg "@, job.current_segment(), job.total_segments, ""@);
    assert(decimal(job.total_segments as nat) + ""@ =~= decimal(job.total_segments as nat));
}

/// The pause button stops a job that runs and lets a stopped one go on, so that two clicks change
/// nothing; it changes nothing but that, and a job that has ended gets no signal.
pub proof fn law_pause_button(v: UpscaleView)
    requires
        v.job is Some,
    ensures
        ({
            let j = v.job->0;
            let (w, signal, status) = v.toolbar_clicked(JobButton::Pause);
            &&& status is None
            &&& j.running && !j.paused ==> signal == Some(JobSignal::Stop) && w.job->0.paused
            &&& j.running && j.paused ==> signal == Some(JobSignal::Continue) && !w.job->0.paused
            &&& !j.running ==> signal is None && w == v
            &&& w.toolbar_clicked(JobButton::Pause).0 == v
            &&& w.job is Some
            &&& (UpscaleView { job: v.job, ..w }) == v
            &&& (JobView { paused: j.paused, ..w.job->0 }) == j
        }),
{
}

/// The cancel button interrupts a job that runs, and changes nothing itself.
pub proof fn law_cancel_button(v: UpscaleView)
    requires
        v.job is Some,
    ensures
        ({
            let (w, signal, status) = v.toolbar_clicked(JobButton::Cancel);
            &&& w == v
            &&& status == Some("Cancelling…"@)
            &&& v.job->0.running ==> signal == Some(JobSignal::Interrupt)
            &&& !v.job->0.running ==> signal is None
        }),
{
}

/// The button that ends an upscale behind its segment sends nothing: it marks the segments that are
/// finished by then, once, and the job is interrupted as soon as one more is.
pub proof fn law_stop_button(v: UpscaleView)
    requires
        v.job is Some,
    ensures
        ({
            let j = v.job->0;
            let (w, signal, status) = v.toolbar_clicked(JobButton::StopAfterSegment);
            &&& signal is None
            &&& w.job is Some
            &&& (j.is_upscale && j.stop_after is None ==> w.job->0.stop_after == Some(
                j.completed_segments,
            ) && status == Some("Stopping after current segment…"@))
            &&& (!j.is_upscale || j.stop_after is Some ==> w == v && status is None)
            &&& (UpscaleView { job: v.job, ..w }) == v
            &&& (JobView { stop_after: j.stop_after, ..w.job->0 }) == j
            &&& w.toolbar_clicked(JobButton::StopAfterSegment).0 == w
        }),
{
}

/// Where no job runs, the buttons for one do nothing.
pub proof fn law_no_job_no_button(v: UpscaleView, button: JobButton)
    requires
        v.job is None,
    ensures
        v.toolbar_clicked(button) == (v, None::<JobSignal>, None::<Seq<char>>),
{
}

/// A look at a job takes the end from its process, the frame from its log, the finished segments
/// from the one directory and the two counts of frames from the others; where the log cannot be
/// read, the segments are not counted. Nothing else of the job changes.
pub proof fn law_poll_reads_everything(
    job: JobView,
    child: ChildPoll,
    log: Seq<Seq<char>>,
    segments: Seq<SizedView>,
    frames: Seq<Seq<u8>>,
    upscaled: Seq<Seq<u8>>,
)
    requires
        finished_count(segments) <= u64::MAX,
        picture_count(frames) <= u64::MAX,
        picture_count(upscaled) <= u64::MAX,
    ensures
        ({
            let p = polled_job(
                job,
                child,
                Some(log),
                Some(segments),
                Some(frames),
                Some(upscaled),
            );
            &&& p.running <==> job.running && child == ChildPoll::Running
            &&& last_frame(reports(log)) matches Some(f) ==> p.current_frame == f
            &&& last_frame(reports(log)) is None ==> p.current_frame == job.current_frame
            &&& (job.is_upscale && job.segments_dir is Some ==> p.completed_segments
                == finished_count(segments))
            &&& (!job.is_upscale ==> p.completed_segments == job.completed_segments)
            &&& p.segment_frames == picture_count(frames)
            &&& p.upscaled_frames == picture_count(upscaled)
            &&& (JobView {
                running: job.running,
                done: job.done,
                current_frame: job.current_frame,
                completed_segments: job.completed_segments,
                segment_frames: job.segment_frames,
                upscaled_frames: job.upscaled_frames,
                ..p
            }) == job
        }),
        ({
            let p = polled_job(job, child, None, Some(segments), Some(frames), None);
            &&& p.running <==> job.running && child == ChildPoll::Running
            &&& p.current_frame == job.current_frame
            &&& p.completed_segments == job.completed_segments
            &&& p.segment_frames == picture_count(frames)
            &&& p.upscaled_frames == 0
        }),
{
}

/// The pictures that are shown are labelled with the job's own counts at that moment, and the time
/// and the count of frames are noted for the next ones. Nothing else changes.
pub proof fn law_preview_is_labelled(v: UpscaleView, now: u64)
    requires
        v.upscaling(),
        !v.job->0.done,
    ensures
        ({
            let j = v.job->0;
            let w = v.after_preview(now);
            &&& w.preview is Some
            &&& j.completed_segments < u64::MAX ==> w.preview->0.segment == j.completed_segments + 1
            &&& w.preview->0.total_segments == j.total_segments
            &&& w.preview->0.frame == j.upscaled_frames
            &&& w.preview->0.segment_frames == j.segment_frames
            &&& w.last_preview_at == Some(now)
            &&& w.last_preview_frames == j.upscaled_frames
            &&& (UpscaleView {
                preview: v.preview,
                last_preview_at: v.last_preview_at,
                last_preview_frames: v.last_preview_frames,
                ..w
            }) == v
        }),
{
}

/// Pictures are due exactly where an upscale is not done, has upscaled a frame of its segment, has
/// both its directories, and four seconds have gone by since the last pictures, or none were shown
/// yet. They come from the job's own directories, the upscaled ones first.
pub proof fn law_when_pictures_are_due(v: UpscaleView, now: u64)
    requires
        v.job is Some,
    ensures
        v.preview_due(now) is Some <==> {
            let j = v.job->0;
            &&& j.is_upscale
            &&& !j.done
            &&& j.upscaled_frames > 0
            &&& j.frames_dir is Some
            &&& j.frames_up_dir is Some
            &&& (v.last_preview_at is None || now >= v.last_preview_at->0 + 4_000_000_000)
        },
        v.preview_due(now) matches Some(d) ==> {
            &&& v.job->0.frames_up_dir == Some(d.0)
            &&& v.job->0.frames_dir == Some(d.1)
        },
{
}

/// The pictures are due anew exactly where the count of upscaled frames has fallen.
pub proof fn law_when_a_segment_begins(v: UpscaleView)
    requires
        v.upscaling(),
        !v.job->0.done,
    ensures
        ({
            let w = v.after_segment_change();
            &&& (v.job->0.upscaled_frames < v.last_preview_frames ==> w.last_preview_at is None
                && w.last_preview_frames == 0)
            &&& (v.job->0.upscaled_frames >= v.last_preview_frames ==> w == v)
            &&& w.preview == v.preview && w.job == v.job
        }),
{
}

/// The work directory of an upscale goes once the job is done, and it is the one that holds the
/// job's segments; a job that runs, or is no upscale, loses nothing.
pub proof fn law_what_is_cleaned_up(v: UpscaleView, j: JobView, work: Seq<u8>, out: Seq<u8>)
    requires
        v.job == Some(j),
    ensures
        !j.done || !j.is_upscale ==> v.cleanup() is None,
        j.done && j.is_upscale && j.output_path == Some(out) && j.segments_dir == Some(
            under(work, "segments"@),
        ) ==> v.cleanup() == Some((out, tidy(work))),
{
    reveal_strlit("segments");
    let name = "segments"@;
    assert forall|i: int| 0 <= i < name.len() implies name[i] != '/' by {}
    law_no_slash_in_name(name);
    lemma_encoded_len(name);
    law_entry_of_directory(work, encode_utf8(name));
}

/// A job can be started exactly where a file of the list is selected, the file's kind has the
/// action, no job runs, and the user is asked nothing.
pub proof fn law_when_a_job_can_start(v: UpscaleView, i: usize, action: FileAction)
    ensures
        v.selected is None ==> v.chosen() is None && !v.can_start(action),
        v.selected == Some(i) && i < v.entries.len() ==> {
            &&& v.chosen() == Some(v.entries[i as int])
            &&& v.can_start(action) <==> v.job is None && v.confirm_delete is None && v.rename
                is None && actions_for(v.entries[i as int].kind).contains(action)
        },
{
}

/// The user is asked about a file only while that file is the selected one.
pub proof fn law_questions_are_about_the_selected_file(v: UpscaleView)
    ensures
        v.delete_asked() <==> v.confirm_delete is Some && v.chosen() is Some && same_components(
            v.confirm_delete->0,
            v.chosen()->0.path,
        ),
        v.rename_asked() <==> v.rename is Some && v.chosen() is Some && same_components(
            (v.rename->0).0,
            v.chosen()->0.path,
        ),
{
}

} // verus!
