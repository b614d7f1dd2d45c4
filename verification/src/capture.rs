//! The capture job: how it is started, watched and stopped.
//!
//! The clock readings are nanoseconds: of the monotonic clock where they are `u64`, since the
//! epoch where they are `i128`.
use vstd::prelude::*;
use vstd::string::StringExecFns;
use vstd::utf8::encode_utf8;

use crate::ffmpeg::{field, parse_field};
use crate::launch::{push_arg, Launch, LaunchView, Stream};
use crate::library::{is_video, video_file};
use crate::number::{
    decimal, i32_of, is_digit, law_decimal_spells, law_signed_numbers, parse_i32, parse_u64,
    two_digits, two_digits_text, u64_of,
};
use crate::order::{
    earlier, files_view, find_latest, latest_kept, law_latest_kept, DirFile, FileView,
};
use crate::path::{
    file_name, joined, law_entry_of_directory, law_no_slash_in_name, law_text_reads_back,
    lemma_encoded_len, parent, path_text, FilePath, DOT,
};
use crate::settings::{push_env, sets};
use crate::text::{
    all_white, has_text, holds_text, law_trim_undoes_padding, occurs_at, texts, trim, trimmed,
};

verus! {

pub const NANOS_PER_SEC: u64 = 1_000_000_000;

/// The longest time that the stop timer sleeps before it looks at its cancel flag again.
pub const TIMER_CHUNK_NANOS: u64 = 500_000_000;

/// How many lines at the end of the log are searched for progress.
pub const TAIL_LINES: usize = 20;

// ---------------------------------------------------------------------------
// Progress
// ---------------------------------------------------------------------------
/// The progress of a capture.
pub struct CaptureStats {
    pub frame: u64,
    pub time: String,
    pub bitrate: String,
    /// Nanoseconds since the start.
    pub elapsed: u64,
}

/// What a `CaptureStats` holds.
#[verifier::ext_equal]
pub struct StatsView {
    pub frame: u64,
    pub time: Seq<char>,
    pub bitrate: Seq<char>,
    pub elapsed: u64,
}

impl View for CaptureStats {
    type V = StatsView;

    open spec fn view(&self) -> StatsView {
        StatsView {
            frame: self.frame,
            time: self.time@,
            bitrate: self.bitrate@,
            elapsed: self.elapsed,
        }
    }
}

impl Default for CaptureStats {
    fn default() -> (r: Self)
        ensures
            r@ == (StatsView {
                frame: 0,
                time: Seq::empty(),
                bitrate: Seq::empty(),
                elapsed: 0,
            }),
    {
        CaptureStats { frame: 0, time: String::new(), bitrate: String::new(), elapsed: 0 }
    }
}

/// The last line that holds `key`, among the last `n`.
pub open spec fn last_holding(lines: Seq<Seq<char>>, key: Seq<char>, n: nat) -> Option<Seq<char>>
    decreases n,
{
    if n == 0 || lines.len() == 0 {
        None
    } else if holds_text(lines.last(), key) {
        Some(lines.last())
    } else {
        last_holding(lines.drop_last(), key, (n - 1) as nat)
    }
}

/// The value of a field, and nothing where the line does not have it.
pub open spec fn field_or_empty(line: Seq<char>, key: Seq<char>) -> Seq<char> {
    match field(line, key) {
        Some(t) => t,
        None => Seq::empty(),
    }
}

/// The number that a field holds, and 0 where it holds none.
pub open spec fn field_number(line: Seq<char>, key: Seq<char>) -> u64 {
    match field(line, key) {
        Some(t) => match parse_u64(t) {
            Some(n) => n,
            None => 0,
        },
        None => 0,
    }
}

/// What the last lines of a log say of the progress: its frame number, time and bitrate.
pub open spec fn log_progress(lines: Seq<Seq<char>>) -> (u64, Seq<char>, Seq<char>) {
    match last_holding(lines, "frame="@, TAIL_LINES as nat) {
        Some(line) => (
            field_number(line, "frame="@),
            field_or_empty(line, "time="@),
            field_or_empty(line, "bitrate="@),
        ),
        None => (0, Seq::empty(), Seq::empty()),
    }
}

fn value_of(line: &str, key: &str) -> (r: String)
    ensures
        r@ == field_or_empty(line@, key@),
{
    match parse_field(line, key) {
        Some(t) => t,
        None => String::new(),
    }
}

/// The progress that the lines of a log show.
pub fn tail_log(lines: &Vec<String>) -> (r: (u64, String, String))
    ensures
        (r.0, r.1@, r.2@) == log_progress(texts(lines@)),
{
    let ghost all = texts(lines@);
    let mut n: usize = lines.len();
    let mut left: usize = TAIL_LINES;
    assert(all.take(n as int) =~= all);
    while n > 0 && left > 0
        invariant
            n <= lines@.len(),
            left <= TAIL_LINES,
            all == texts(lines@),
            last_holding(all, "frame="@, TAIL_LINES as nat) == last_holding(
                all.take(n as int),
                "frame="@,
                left as nat,
            ),
        decreases left,
    {
        let line = lines[n - 1].as_str();
        assert(all.take(n as int).last() == line@);
        assert(all.take(n as int).drop_last() =~= all.take(n - 1));
        if has_text(line, "frame=") {
            let frame: u64 = match parse_field(line, "frame=") {
                Some(t) => match u64_of(t.as_str()) {
                    Some(f) => f,
                    None => 0,
                },
                None => 0,
            };
            return (frame, value_of(line, "time="), value_of(line, "bitrate="));
        }
        n = n - 1;
        left = left - 1;
    }
    (0, String::new(), String::new())
}

// ---------------------------------------------------------------------------
// Process groups
// ---------------------------------------------------------------------------
/// The process group that the capture script's group file names.
pub open spec fn pgid_of(text: Option<Seq<char>>) -> Option<i32> {
    match text {
        Some(t) => parse_i32(trim(t)),
        None => None,
    }
}

/// The view of a file's text, where the file could be read.
pub open spec fn read_view(text: Option<&str>) -> Option<Seq<char>> {
    match text {
        Some(t) => Some(t@),
        None => None,
    }
}

/// The process group that the group file names. `text` is what the file holds, where it could
/// be read.
pub fn parse_pgid(text: Option<&str>) -> (r: Option<i32>)
    ensures
        r == pgid_of(read_view(text)),
{
    match text {
        Some(t) => i32_of(trimmed(t).as_str()),
        None => None,
    }
}

/// A timer that ends the capture of one process group.
#[derive(Clone, Copy, Debug, PartialEq, Eq, Structural)]
pub struct StopTimer {
    /// The process group of the capture that ran when the timer was armed.
    pub pgid: i32,
    /// By the wall clock, so that the timer is right after a suspend.
    pub deadline: i128,
}

/// What a stop timer does next.
#[derive(Clone, Copy, Debug, PartialEq, Eq, Structural)]
pub enum TimerStep {
    /// It was cancelled: it ends.
    Cancelled,
    /// It sleeps for so many nanoseconds.
    Sleep(u64),
    /// Its time has come: it fires.
    Due,
}

/// What a stop timer does at the time `now`.
pub open spec fn timer_step(timer: StopTimer, cancelled: bool, now: i128) -> TimerStep {
    if cancelled {
        TimerStep::Cancelled
    } else if now >= timer.deadline {
        TimerStep::Due
    } else if timer.deadline - now < TIMER_CHUNK_NANOS {
        TimerStep::Sleep((timer.deadline - now) as u64)
    } else {
        TimerStep::Sleep(TIMER_CHUNK_NANOS)
    }
}

/// The process group that a timer signals when it fires, given what the group file says then.
pub open spec fn timer_target(timer: StopTimer, cancelled: bool, text: Option<Seq<char>>) -> Option<
    i32,
> {
    if !cancelled && pgid_of(text) == Some(timer.pgid) {
        Some(timer.pgid)
    } else {
        None
    }
}

impl StopTimer {
    /// What the timer does at the time `now`.
    pub fn step(&self, cancelled: bool, now: i128) -> (r: TimerStep)
        ensures
            r == timer_step(*self, cancelled, now),
    {
        if cancelled {
            return TimerStep::Cancelled;
        }
        if now >= self.deadline {
            return TimerStep::Due;
        }
        match self.deadline.checked_sub(now) {
            Some(left) => if left < TIMER_CHUNK_NANOS as i128 {
                TimerStep::Sleep(left as u64)
            } else {
                TimerStep::Sleep(TIMER_CHUNK_NANOS)
            },
            None => TimerStep::Sleep(TIMER_CHUNK_NANOS),
        }
    }

    /// The process group to interrupt when the timer fires, if any. `text` is what the group
    /// file holds at that moment: a capture that ended has removed it.
    pub fn fire(&self, cancelled: bool, text: Option<&str>) -> (r: Option<i32>)
        ensures
            r == timer_target(*self, cancelled, read_view(text)),
    {
        if cancelled {
            return None;
        }
        match parse_pgid(text) {
            Some(current) => if current == self.pgid {
                Some(self.pgid)
            } else {
                None
            },
            None => None,
        }
    }
}

// ---------------------------------------------------------------------------
// The controller
// ---------------------------------------------------------------------------
/// Why a capture could not be started.
#[derive(Clone, Copy, Debug, PartialEq, Eq, Structural)]
pub enum CaptureError {
    AlreadyRunning,
}

impl CaptureError {
    /// The error as the user reads it.
    pub fn message(&self) -> (r: &'static str)
        ensures
            r@ == "capture already running"@,
    {
        "capture already running"
    }
}

/// What asking after the capture script's process gave.
#[derive(Clone, Copy, Debug, PartialEq, Eq, Structural)]
pub enum ChildPoll {
    /// It has exited.
    Exited,
    /// It still runs.
    Running,
    /// The system could not say.
    Failed,
}

/// What to do about the capture log.
pub enum LogStep {
    /// Nothing.
    Skip,
    /// Read this log's lines and hand them over.
    Tail(FilePath),
    /// List this directory and hand the listing over.
    Find(FilePath),
}

/// What a `LogStep` holds.
#[verifier::ext_equal]
pub enum LogStepView {
    Skip,
    Tail(Seq<u8>),
    Find(Seq<u8>),
}

impl View for LogStep {
    type V = LogStepView;

    open spec fn view(&self) -> LogStepView {
        match self {
            LogStep::Skip => LogStepView::Skip,
            LogStep::Tail(p) => LogStepView::Tail(p@),
            LogStep::Find(p) => LogStepView::Find(p@),
        }
    }
}

/// The capture job as the program knows it.
pub struct CaptureController {
    /// Whether the capture script's process has not been seen to end.
    pub running: bool,
    pub pgid_file: FilePath,
    pub archival_dir: FilePath,
    pub log_file: Option<FilePath>,
    pub started_at: Option<u64>,
    pub started_sys: Option<i128>,
    pub output_path: Option<FilePath>,
    pub stats: CaptureStats,
    /// The stop timer that is armed, if any.
    pub stop_timer: Option<StopTimer>,
}

/// What a `CaptureController` holds.
#[verifier::ext_equal]
pub struct CaptureView {
    pub running: bool,
    pub pgid_file: Seq<u8>,
    pub archival_dir: Seq<u8>,
    pub log_file: Option<Seq<u8>>,
    pub started_at: Option<u64>,
    pub started_sys: Option<i128>,
    pub output_path: Option<Seq<u8>>,
    pub stats: StatsView,
    pub stop_timer: Option<StopTimer>,
}

/// What an optional path holds.
pub open spec fn opt_path(p: Option<FilePath>) -> Option<Seq<u8>> {
    match p {
        Some(q) => Some(q@),
        None => None,
    }
}

impl View for CaptureController {
    type V = CaptureView;

    open spec fn view(&self) -> CaptureView {
        CaptureView {
            running: self.running,
            pgid_file: self.pgid_file@,
            archival_dir: self.archival_dir@,
            log_file: opt_path(self.log_file),
            started_at: self.started_at,
            started_sys: self.started_sys,
            output_path: opt_path(self.output_path),
            stats: self.stats@,
            stop_timer: self.stop_timer,
        }
    }
}

/// How the capture script is started: `bash` runs it in a process group of its own, and its
/// messages go where those of this program go.
pub open spec fn capture_launch(script: Seq<u8>, max_duration: Seq<char>) -> LaunchView {
    LaunchView {
        program: "bash"@,
        args: seq![script],
        envs: seq![("MAX_CAPTURE_DURATION"@, max_duration), ("VHS_PREVIEW"@, "1"@)],
        stdin: Stream::Null,
        stdout: Stream::Null,
        stderr: Stream::Inherited,
        own_group: true,
    }
}

/// A video that was written to at the time `after` or later.
pub open spec fn output_since(after: i128) -> spec_fn(FileView) -> bool {
    |f: FileView| is_video(f.path) && f.modified is Some && f.modified->0 >= after
}

/// A log of ffmpeg's, by its name.
pub open spec fn names_log(p: Seq<u8>) -> bool {
    match file_name(p) {
        Some(n) => holds_text(path_text(n), "ffmpeg.log"@),
        None => false,
    }
}

/// The path of the latest of `files` that `keep` holds of.
pub open spec fn latest_path(files: Option<Seq<FileView>>, keep: spec_fn(FileView) -> bool) -> Option<
    Seq<u8>,
> {
    match files {
        Some(f) => match latest_kept(f, keep) {
            Some(v) => Some(v.path),
            None => None,
        },
        None => None,
    }
}

/// The view of a directory's listing, where it could be read.
pub open spec fn listing_view(files: Option<Vec<DirFile>>) -> Option<Seq<FileView>> {
    match files {
        Some(f) => Some(files_view(f@)),
        None => None,
    }
}

/// Nanoseconds between two readings of the monotonic clock.
pub open spec fn nanos_since(start: u64, now: u64) -> u64 {
    if now >= start {
        (now - start) as u64
    } else {
        0
    }
}

pub fn elapsed_nanos(start: u64, now: u64) -> (r: u64)
    ensures
        r == nanos_since(start, now),
{
    if now >= start {
        now - start
    } else {
        0
    }
}

/// Seconds as hours, minutes and seconds, each of two digits or more.
pub open spec fn hms_text(secs: nat) -> Seq<char> {
    two_digits(secs / 3600) + ":"@ + two_digits((secs % 3600) / 60) + ":"@ + two_digits(secs % 60)
}

impl CaptureView {
    /// What is known of a capture that runs: when it started.
    pub open spec fn consistent(self) -> bool {
        self.running ==> self.started_at is Some && self.started_sys is Some
    }

    /// No capture has run yet.
    pub open spec fn fresh(pgid_file: Seq<u8>, archival_dir: Seq<u8>) -> CaptureView {
        CaptureView {
            running: false,
            pgid_file,
            archival_dir,
            log_file: None,
            started_at: None,
            started_sys: None,
            output_path: None,
            stats: StatsView { frame: 0, time: Seq::empty(), bitrate: Seq::empty(), elapsed: 0 },
            stop_timer: None,
        }
    }

    /// The capture script was started.
    pub open spec fn after_start(self, now: u64, now_sys: i128) -> CaptureView {
        CaptureView {
            running: true,
            started_at: Some(now),
            started_sys: Some(now_sys),
            output_path: None,
            log_file: None,
            ..self
        }
    }

    /// The system was asked after the script's process.
    pub open spec fn after_poll(self, child: ChildPoll, now: u64) -> CaptureView {
        let ended = self.running && child != ChildPoll::Running;
        let started_at = if ended && child == ChildPoll::Exited {
            None
        } else {
            self.started_at
        };
        CaptureView {
            running: self.running && !ended,
            started_at,
            stats: match started_at {
                Some(t) => StatsView { elapsed: nanos_since(t, now), ..self.stats },
                None => self.stats,
            },
            ..self
        }
    }

    /// The archival directory was listed, to find what the capture writes to.
    pub open spec fn after_listing(self, files: Option<Seq<FileView>>) -> CaptureView {
        if self.output_path is None && self.started_sys is Some {
            CaptureView {
                output_path: latest_path(files, output_since(self.started_sys->0)),
                ..self
            }
        } else {
            self
        }
    }

    /// What to do about the log.
    pub open spec fn log_step(self) -> LogStepView {
        match self.log_file {
            Some(log) => LogStepView::Tail(log),
            None => match parent(self.pgid_file) {
                Some(dir) => if self.running {
                    LogStepView::Find(dir)
                } else {
                    LogStepView::Skip
                },
                None => LogStepView::Skip,
            },
        }
    }

    /// The time that the capture has run for, as the user reads it.
    pub open spec fn elapsed_text(self, now: u64) -> Seq<char> {
        match self.started_at {
            Some(t) => hms_text((nanos_since(t, now) / NANOS_PER_SEC) as nat),
            None => "--:--:--"@,
        }
    }
}

impl CaptureController {
    pub fn new(pgid_file: FilePath, archival_dir: FilePath) -> (r: Self)
        ensures
            r@ == CaptureView::fresh(pgid_file@, archival_dir@),
            r@.consistent(),
    {
        CaptureController {
            running: false,
            pgid_file,
            archival_dir,
            log_file: None,
            started_at: None,
            started_sys: None,
            output_path: None,
            stats: CaptureStats::default(),
            stop_timer: None,
        }
    }

    pub fn is_running(&self) -> (r: bool)
        ensures
            r == self@.running,
    {
        self.running
    }

    /// How to start the capture script. `max_duration` ends the capture at the latest.
    pub fn start(&self, script: &FilePath, max_duration: &str) -> (r: Result<Launch, CaptureError>)
        ensures
            match r {
                Ok(l) => !self@.running && l@ == capture_launch(script@, max_duration@),
                Err(e) => self@.running && e == CaptureError::AlreadyRunning,
            },
    {
        if self.running {
            return Err(CaptureError::AlreadyRunning);
        }
        let mut args: Vec<FilePath> = Vec::new();
        push_arg(&mut args, script.clone());
        let mut envs: Vec<(String, String)> = Vec::new();
        push_env(&mut envs, "MAX_CAPTURE_DURATION", max_duration.to_owned());
        push_env(&mut envs, "VHS_PREVIEW", "1".to_owned());
        let launch = Launch {
            program: "bash",
            args,
            envs,
            stdin: Stream::Null,
            stdout: Stream::Null,
            stderr: Stream::Inherited,
            own_group: true,
        };
        assert(launch@ =~= capture_launch(script@, max_duration@));
        Ok(launch)
    }

    /// The capture script was started at `now`.
    pub fn note_started(&mut self, now: u64, now_sys: i128)
        ensures
            final(self)@ == old(self)@.after_start(now, now_sys),
            final(self)@.consistent(),
    {
        self.started_at = Some(now);
        self.started_sys = Some(now_sys);
        self.output_path = None;
        self.log_file = None;
        self.running = true;
    }

    /// The first half of a poll: what became of the script's process, and the time that passed.
    pub fn poll(&mut self, child: ChildPoll, now: u64)
        ensures
            final(self)@ == old(self)@.after_poll(child, now),
            old(self)@.consistent() ==> final(self)@.consistent(),
    {
        if self.running {
            match child {
                ChildPoll::Exited => {
                    self.running = false;
                    self.started_at = None;
                },
                ChildPoll::Running => {},
                ChildPoll::Failed => {
                    self.running = false;
                },
            }
        }
        if let Some(started) = self.started_at {
            self.stats.elapsed = elapsed_nanos(started, now);
        }
    }

    /// Whether the archival directory has to be listed, to find the file that the capture
    /// writes to.
    pub fn wants_output(&self) -> (r: bool)
        ensures
            r == (self@.output_path is None && self@.started_sys is Some),
    {
        self.output_path.is_none() && self.started_sys.is_some()
    }

    /// The archival directory was listed.
    pub fn note_listing(&mut self, files: &Option<Vec<DirFile>>)
        ensures
            final(self)@ == old(self)@.after_listing(listing_view(*files)),
            old(self)@.consistent() ==> final(self)@.consistent(),
    {
        if self.output_path.is_none() {
            if let Some(after) = self.started_sys {
                self.output_path = find_output_file(files, after);
            }
        }
    }

    /// The second half of a poll: what to do about the log.
    pub fn log_step(&self) -> (r: LogStep)
        ensures
            r@ == self@.log_step(),
    {
        match &self.log_file {
            Some(log) => LogStep::Tail(log.clone()),
            None => if self.running {
                match self.pgid_file.parent() {
                    Some(dir) => LogStep::Find(dir),
                    None => LogStep::Skip,
                }
            } else {
                LogStep::Skip
            },
        }
    }

    /// The log's directory was listed.
    pub fn note_logs(&mut self, files: &Option<Vec<DirFile>>)
        ensures
            final(self)@ == (CaptureView {
                log_file: latest_path(listing_view(*files), |f: FileView| names_log(f.path)),
                ..old(self)@
            }),
            old(self)@.consistent() ==> final(self)@.consistent(),
    {
        self.log_file = find_newest_log(files);
    }

    /// The log was read; these are its lines.
    pub fn note_log(&mut self, lines: &Vec<String>)
        ensures
            final(self)@ == (CaptureView {
                stats: StatsView {
                    frame: log_progress(texts(lines@)).0,
                    time: log_progress(texts(lines@)).1,
                    bitrate: log_progress(texts(lines@)).2,
                    elapsed: old(self)@.stats.elapsed,
                },
                ..old(self)@
            }),
            old(self)@.consistent() ==> final(self)@.consistent(),
    {
        let (frame, time, bitrate) = tail_log(lines);
        self.stats.frame = frame;
        self.stats.time = time;
        self.stats.bitrate = bitrate;
    }

    /// Stop the capture: no timer stays armed, and the process group that is returned, if any,
    /// is to be interrupted. `pgid_text` is what the group file holds.
    pub fn stop(&mut self, pgid_text: Option<&str>) -> (r: Option<i32>)
        ensures
            final(self)@ == (CaptureView { stop_timer: None, ..old(self)@ }),
            r == pgid_of(read_view(pgid_text)),
    {
        self.cancel_stop_timer();
        parse_pgid(pgid_text)
    }

    /// Arm a timer that interrupts the capture after `secs` seconds. A timer that was armed
    /// before is cancelled. The timer is bound to the process group that the group file names
    /// now; where it names none, no timer is armed.
    pub fn arm_stop_timer(&mut self, secs: u64, now: i128, pgid_text: Option<&str>) -> (r: Option<
        StopTimer,
    >)
        requires
            now + secs * NANOS_PER_SEC <= i128::MAX,
        ensures
            final(self)@ == (CaptureView { stop_timer: r, ..old(self)@ }),
            r == (match pgid_of(read_view(pgid_text)) {
                Some(pgid) => Some(
                    StopTimer { pgid, deadline: (now + secs * NANOS_PER_SEC) as i128 },
                ),
                None => None,
            }),
    {
        self.cancel_stop_timer();
        match parse_pgid(pgid_text) {
            Some(pgid) => {
                let deadline: i128 = now + (secs as i128) * (NANOS_PER_SEC as i128);
                self.stop_timer = Some(StopTimer { pgid, deadline });
            },
            None => {},
        }
        self.stop_timer
    }

    /// Cancel a previously armed stop timer, if any.
    pub fn cancel_stop_timer(&mut self)
        ensures
            final(self)@ == (CaptureView { stop_timer: None, ..old(self)@ }),
    {
        self.stop_timer = None;
    }

    pub fn elapsed_str(&self, now: u64) -> (r: String)
        ensures
            r@ == self@.elapsed_text(now),
    {
        match self.started_at {
            Some(started) => {
                let secs: u64 = elapsed_nanos(started, now) / NANOS_PER_SEC;
                let mut t = two_digits_text(secs / 3600);
                t.append(":");
                t.append(two_digits_text((secs % 3600) / 60).as_str());
                t.append(":");
                t.append(two_digits_text(secs % 60).as_str());
                t
            },
            None => "--:--:--".to_owned(),
        }
    }
}

/// The file that a capture which started at `after` writes to.
pub fn find_output_file(files: &Option<Vec<DirFile>>, after: i128) -> (r: Option<FilePath>)
    ensures
        opt_path(r) == latest_path(listing_view(*files), output_since(after)),
{
    match files {
        Some(list) => {
            let mut keep: Vec<bool> = Vec::new();
            let mut i: usize = 0;
            while i < list.len()
                invariant
                    i <= list@.len(),
                    keep@.len() == i,
                    forall|j: int|
                        0 <= j < i ==> #[trigger] keep@[j] == output_since(after)(list@[j]@),
                decreases list@.len() - i,
            {
                let recent = match list[i].modified {
                    Some(t) => t >= after,
                    None => false,
                };
                keep.push(video_file(&list[i].path) && recent);
                i = i + 1;
            }
            match find_latest(list, &keep, Ghost(output_since(after))) {
                Some(k) => Some(list[k].path.clone()),
                None => None,
            }
        },
        None => None,
    }
}

fn log_file_name(p: &FilePath) -> (r: bool)
    ensures
        r == names_log(p@),
{
    match p.file_name() {
        Some(bytes) => {
            let name = FilePath { bytes };
            has_text(name.lossy_text().as_str(), "ffmpeg.log")
        },
        None => false,
    }
}

/// The newest of ffmpeg's logs.
pub fn find_newest_log(files: &Option<Vec<DirFile>>) -> (r: Option<FilePath>)
    ensures
        opt_path(r) == latest_path(listing_view(*files), |f: FileView| names_log(f.path)),
{
    let ghost wanted = |f: FileView| names_log(f.path);
    match files {
        Some(list) => {
            let mut keep: Vec<bool> = Vec::new();
            let mut i: usize = 0;
            while i < list.len()
                invariant
                    i <= list@.len(),
                    keep@.len() == i,
                    wanted == (|f: FileView| names_log(f.path)),
                    forall|j: int| 0 <= j < i ==> #[trigger] keep@[j] == wanted(list@[j]@),
                decreases list@.len() - i,
            {
                keep.push(log_file_name(&list[i].path));
                i = i + 1;
            }
            match find_latest(list, &keep, Ghost(wanted)) {
                Some(k) => Some(list[k].path.clone()),
                None => None,
            }
        },
        None => None,
    }
}

// ---------------------------------------------------------------------------
// Laws
// ---------------------------------------------------------------------------
/// A stop timer can never end a later capture: whatever the group file says when the timer
/// fires, the only process group that it signals is the one it was armed for, and that only
/// while the file still names it and nobody has cancelled the timer.
pub proof fn law_timer_ends_its_own_capture(
    timer: StopTimer,
    cancelled: bool,
    text: Option<Seq<char>>,
    pgid: i32,
)
    ensures
        timer_target(timer, cancelled, text) == Some(pgid) <==> !cancelled && pgid == timer.pgid
            && pgid_of(text) == Some(pgid),
        text is None ==> timer_target(timer, cancelled, text) is None,
{
}

/// A timer that sleeps as it is told wakes no later than its deadline, and never sleeps for
/// longer than the time between two looks at its cancel flag.
pub proof fn law_timer_never_oversleeps(timer: StopTimer, now: i128)
    ensures
        match timer_step(timer, false, now) {
            TimerStep::Sleep(nanos) => 0 < nanos <= TIMER_CHUNK_NANOS && now + nanos
                <= timer.deadline,
            TimerStep::Due => now >= timer.deadline,
            TimerStep::Cancelled => false,
        },
{
}

/// The file that a capture is found to write to is a video that was written to after the
/// capture began, and the latest such.
pub proof fn law_output_belongs_to_capture(c: CaptureView, files: Seq<FileView>)
    requires
        c.output_path is None,
        c.started_sys is Some,
    ensures
        match c.after_listing(Some(files)).output_path {
            Some(p) => exists|i: int|
                0 <= i < files.len() && #[trigger] files[i].path == p && output_since(
                    c.started_sys->0,
                )(files[i]) && forall|j: int|
                    0 <= j < files.len() && output_since(c.started_sys->0)(#[trigger] files[j])
                        ==> files[j].modified->0 <= files[i].modified->0,
            None => forall|j: int|
                0 <= j < files.len() ==> !output_since(c.started_sys->0)(#[trigger] files[j]),
        },
{
    let keep = output_since(c.started_sys->0);
    law_latest_kept(files, keep);
    match latest_kept(files, keep) {
        Some(f) => {
            let i = choose|i: int| 0 <= i < files.len() && files[i] == f;
            assert(files[i].path == f.path && keep(files[i]));
            assert forall|j: int| 0 <= j < files.len() && keep(#[trigger] files[j]) implies
                files[j].modified->0 <= files[i].modified->0 by {
                assert(!earlier(f.modified, files[j].modified));
            }
        },
        None => {},
    }
}

/// The capture script is run with the duration cap that it was to be given, whatever that is, and
/// with the preview on; the script is the one that was named.
pub proof fn law_capture_gets_its_cap(script: Seq<u8>, max_duration: Seq<char>)
    ensures
        ({
            let l = capture_launch(script, max_duration);
            &&& sets(l.envs, "MAX_CAPTURE_DURATION"@, max_duration)
            &&& sets(l.envs, "VHS_PREVIEW"@, "1"@)
            &&& l.args == seq![script]
            &&& l.program == "bash"@
            &&& l.own_group
            &&& l.stdin == Stream::Null
            &&& l.stdout == Stream::Null
            &&& l.stderr == Stream::Inherited
        }),
{
    reveal_strlit("MAX_CAPTURE_DURATION");
    reveal_strlit("VHS_PREVIEW");
    let e = capture_launch(script, max_duration).envs;
    assert("MAX_CAPTURE_DURATION"@.len() == 20 && "VHS_PREVIEW"@.len() == 11);
    assert(e[0] == ("MAX_CAPTURE_DURATION"@, max_duration) && e[1] == ("VHS_PREVIEW"@, "1"@));
    assert(e.contains(e[0]) && e.contains(e[1]));
}

proof fn lemma_last_holding(lines: Seq<Seq<char>>, key: Seq<char>, n: nat, k: int)
    requires
        0 <= k < lines.len(),
        forall|j: int| k < j < lines.len() ==> !holds_text(#[trigger] lines[j], key),
        holds_text(lines[k], key),
    ensures
        lines.len() - k <= n ==> last_holding(lines, key, n) == Some(lines[k]),
        lines.len() - k > n ==> last_holding(lines, key, n) is None,
    decreases n,
{
    if n > 0 && k < lines.len() - 1 {
        let t = lines.drop_last();
        assert(!holds_text(lines[lines.len() - 1], key));
        assert forall|j: int| k < j < t.len() implies !holds_text(#[trigger] t[j], key) by {
            assert(t[j] == lines[j]);
        }
        assert(t[k] == lines[k]);
        lemma_last_holding(t, key, (n - 1) as nat, k);
    }
}

/// The progress of a capture is that of the last line with a frame number, as long as it is among
/// the last twenty: what the line says of the frame, the time and the bitrate. A line that has the
/// field without a number counts as frame 0.
pub proof fn law_last_line_gives_the_progress(lines: Seq<Seq<char>>, k: int)
    requires
        0 <= k < lines.len(),
        holds_text(lines[k], "frame="@),
        forall|j: int| k < j < lines.len() ==> !holds_text(#[trigger] lines[j], "frame="@),
    ensures
        lines.len() - k <= 20 ==> {
            let p = log_progress(lines);
            &&& field(lines[k], "frame="@) matches Some(t) ==> {
                &&& parse_u64(t) matches Some(n) ==> p.0 == n
                &&& parse_u64(t) is None ==> p.0 == 0
            }
            &&& field(lines[k], "time="@) matches Some(t) ==> p.1 == t
            &&& field(lines[k], "time="@) is None ==> p.1.len() == 0
            &&& field(lines[k], "bitrate="@) matches Some(t) ==> p.2 == t
            &&& field(lines[k], "bitrate="@) is None ==> p.2.len() == 0
        },
        lines.len() - k > 20 ==> log_progress(lines) == (0u64, Seq::<char>::empty(), Seq::<
            char,
        >::empty()),
{
    lemma_last_holding(lines, "frame="@, TAIL_LINES as nat, k);
}

/// A log without a frame number in it says nothing of the progress.
pub proof fn law_no_line_gives_no_progress(lines: Seq<Seq<char>>)
    requires
        forall|j: int| 0 <= j < lines.len() ==> !holds_text(#[trigger] lines[j], "frame="@),
    ensures
        log_progress(lines) == (0u64, Seq::<char>::empty(), Seq::<char>::empty()),
{
    lemma_nothing_held(lines, "frame="@, TAIL_LINES as nat);
}

proof fn lemma_nothing_held(lines: Seq<Seq<char>>, key: Seq<char>, n: nat)
    requires
        forall|j: int| 0 <= j < lines.len() ==> !holds_text(#[trigger] lines[j], key),
    ensures
        last_holding(lines, key, n) is None,
    decreases n,
{
    if n > 0 && lines.len() > 0 {
        let t = lines.drop_last();
        assert(!holds_text(lines[lines.len() - 1], key));
        assert forall|j: int| 0 <= j < t.len() implies !holds_text(#[trigger] t[j], key) by {
            assert(t[j] == lines[j]);
        }
        lemma_nothing_held(t, key, (n - 1) as nat);
    }
}

/// The group file holds a number, with white space around it or without.
pub proof fn law_group_file_is_read(before: Seq<char>, n: u32, after: Seq<char>)
    requires
        all_white(before, 0, before.len() as int),
        all_white(after, 0, after.len() as int),
        n <= i32::MAX,
    ensures
        pgid_of(Some(before + decimal(n as nat) + after)) == Some(n as i32),
        pgid_of(None) is None,
{
    let d = decimal(n as nat);
    law_decimal_spells(n as nat);
    assert(is_digit(d[0]) && is_digit(d[d.len() - 1]));
    law_trim_undoes_padding(before, d, after);
    law_signed_numbers(n, d);
}

/// A timer acts on its flag and its deadline alone: it ends when it was cancelled, fires from its
/// deadline on, and sleeps before that, for half a second or for what is left.
pub proof fn law_timer_steps(timer: StopTimer, now: i128)
    ensures
        timer_step(timer, true, now) == TimerStep::Cancelled,
        now >= timer.deadline <==> timer_step(timer, false, now) == TimerStep::Due,
        timer.deadline - now >= 500_000_000 ==> timer_step(timer, false, now) == TimerStep::Sleep(
            500_000_000,
        ),
        0 < timer.deadline - now < 500_000_000 ==> timer_step(timer, false, now)
            == TimerStep::Sleep((timer.deadline - now) as u64),
{
}

/// What becomes of a capture's process is what becomes of the capture: it runs on while the
/// process does, and the clock of one that exited stops. The time that passed is counted from the
/// start.
pub proof fn law_capture_ends_with_its_process(c: CaptureView, child: ChildPoll, now: u64)
    ensures
        ({
            let t = c.after_poll(child, now);
            &&& t.running <==> c.running && child == ChildPoll::Running
            &&& c.running && child == ChildPoll::Exited ==> t.started_at is None && t.stats
                == c.stats
            &&& !(c.running && child == ChildPoll::Exited) ==> t.started_at == c.started_at
            &&& (t.started_at is Some && t.started_at->0 <= now ==> t.stats.elapsed == now
                - t.started_at->0)
            &&& t.stats.frame == c.stats.frame && t.stats.time == c.stats.time && t.stats.bitrate
                == c.stats.bitrate
            &&& (CaptureView {
                running: c.running,
                started_at: c.started_at,
                stats: c.stats,
                ..t
            }) == c
        }),
{
}

/// A capture that starts begins anew: its clock at the time of the start, its output and its log
/// unknown; the timer and the counts stay until something is known of them.
pub proof fn law_capture_starts_anew(c: CaptureView, now: u64, now_sys: i128)
    ensures
        ({
            let t = c.after_start(now, now_sys);
            &&& t.running
            &&& t.started_at == Some(now)
            &&& t.started_sys == Some(now_sys)
            &&& t.output_path is None
            &&& t.log_file is None
            &&& t.pgid_file == c.pgid_file
            &&& t.archival_dir == c.archival_dir
            &&& t.stop_timer == c.stop_timer
        }),
{
}

/// A log that was found is read; while none is, the directory of the group file is searched as
/// long as the capture runs.
pub proof fn law_log_is_searched_then_read(c: CaptureView, log: Seq<u8>, dir: Seq<u8>)
    ensures
        c.log_file == Some(log) ==> c.log_step() == LogStepView::Tail(log),
        c.log_file is None && c.running && parent(c.pgid_file) == Some(dir) ==> c.log_step()
            == LogStepView::Find(dir),
        c.log_file is None && !c.running ==> c.log_step() == LogStepView::Skip,
{
}

/// A file is taken for ffmpeg's log exactly where `ffmpeg.log` stands in its name.
pub proof fn law_what_is_a_log(dir: Seq<u8>, name: Seq<char>)
    requires
        !name.contains('/'),
        name.len() > 0,
        encode_utf8(name) != seq![DOT],
        encode_utf8(name) != seq![DOT, DOT],
    ensures
        names_log(joined(dir, encode_utf8(name))) <==> exists|i: int|
            occurs_at(name, "ffmpeg.log"@, i),
{
    law_no_slash_in_name(name);
    lemma_encoded_len(name);
    law_entry_of_directory(dir, encode_utf8(name));
    law_text_reads_back(name);
}

/// The time of a capture is hours, minutes and seconds, each of two digits or more.
pub proof fn law_hms_text(h: nat, m: nat, s: nat)
    requires
        m < 60,
        s < 60,
    ensures
        hms_text(h * 3600 + m * 60 + s) == two_digits(h) + ":"@ + two_digits(m) + ":"@
            + two_digits(s),
{
    let n = h * 3600 + m * 60 + s;
    assert(n / 3600 == h && n % 3600 == m * 60 + s && n % 60 == s && (n % 3600) / 60 == m)
        by (nonlinear_arith)
        requires
            n == h * 3600 + m * 60 + s,
            m < 60,
            s < 60,
    ;
}

/// The clock of a capture counts whole seconds from its start; one that does not run shows none.
pub proof fn law_capture_clock(c: CaptureView, start: u64, secs: u64, nanos: u64)
    requires
        nanos < 1_000_000_000,
        start + secs * 1_000_000_000 + nanos <= u64::MAX,
    ensures
        c.started_at == Some(start) ==> c.elapsed_text(
            (start + secs * 1_000_000_000 + nanos) as u64,
        ) == hms_text(secs as nat),
        c.started_at is None ==> c.elapsed_text(start) == "--:--:--"@,
{
    let now = (start + secs * 1_000_000_000 + nanos) as u64;
    assert((now - start) / 1_000_000_000 == secs) by (nonlinear_arith)
        requires
            now == start + secs * 1_000_000_000 + nanos,
            nanos < 1_000_000_000,
    ;
}

/// The output of a capture is found as soon as a video stands in the archival directory that was
/// written to since the capture began, at the very moment of the start or later, and it is such a
/// video.
pub proof fn law_output_is_found(c: CaptureView, files: Seq<FileView>, start: i128, k: int)
    requires
        c.output_path is None,
        c.started_sys == Some(start),
    ensures
        0 <= k < files.len() && is_video(files[k].path) && files[k].modified is Some
            && files[k].modified->0 >= start ==> c.after_listing(Some(files)).output_path is Some,
        c.after_listing(Some(files)).output_path matches Some(p) ==> exists|i: int|
            0 <= i < files.len() && #[trigger] files[i].path == p && is_video(p)
                && files[i].modified is Some && files[i].modified->0 >= start,
        c.after_listing(None) == c,
        (CaptureView { output_path: None, ..c.after_listing(Some(files)) }) == c,
{
    law_output_belongs_to_capture(c, files);
}

/// An output that was found stays.
pub proof fn law_output_stays(c: CaptureView, files: Option<Seq<FileView>>)
    requires
        c.output_path is Some || c.started_sys is None,
    ensures
        c.after_listing(files) == c,
{
}

} // verus!
