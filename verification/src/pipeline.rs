//! A processing job: how it is started, and what its log and its work directory say of its
//! progress.
//!
//! The clock readings are nanoseconds of the monotonic clock.
use vstd::prelude::*;
use vstd::string::StringExecFns;
use vstd::utf8::{encode_scalar, encode_utf8};

use crate::capture::{elapsed_nanos, nanos_since, opt_path, ChildPoll, NANOS_PER_SEC};
use crate::ffmpeg::{field, parse_field};
use crate::launch::{paths, push_arg, Launch, LaunchView, Stream};
use crate::mpv_view::{fmt_time, time_text};
use crate::number::{decimal, decimal_text, is_digit, law_decimal_spells, parse_u64, u64_of};
use crate::path::{
    byte_range, file_name, has_extension, joined, law_encoding_joins, law_entry_of_directory,
    law_named_file, law_no_slash_in_name, lemma_encoded_len, lossy_of, parent, path_text,
    plain_name, same_bytes, tidy, FilePath,
};
use crate::persist::opt_text;
use crate::settings::{pairs, push_env};
use crate::text::{
    alphanumeric, chars_of, law_first_line, law_split_nothing, law_split_undoes_join, lines,
    lines_of, same_text, split_on, split_text, text_range, texts,
};

verus! {

/// How many characters of a label go into the name of its log.
pub const SLUG_CHARS: usize = 40;

// ---------------------------------------------------------------------------
// Starting a job
// ---------------------------------------------------------------------------
/// A character of a log's name.
pub open spec fn slug_char(c: char) -> char {
    if alphanumeric(c) || c == '-' {
        c
    } else {
        '_'
    }
}

/// What of a label goes into the name of its log.
pub open spec fn slug(label: Seq<char>) -> Seq<char> {
    let n = if label.len() < SLUG_CHARS {
        label.len()
    } else {
        SLUG_CHARS as nat
    };
    Seq::new(n, |i: int| slug_char(label[i]))
}

/// The name of the log of a job that starts `ts` seconds after the epoch.
pub open spec fn log_name(label: Seq<char>, ts: u64) -> Seq<char> {
    slug(label) + "_"@ + decimal(ts as nat) + ".log"@
}

/// The search path of a job: `bin` in the home directory comes first where it is not on the
/// path anyway.
pub open spec fn search_path(home: Seq<char>, path: Seq<char>) -> Seq<char> {
    let bin = home + "/bin"@;
    if split_on(path, ':').contains(bin) {
        path
    } else {
        bin + ":"@ + path
    }
}

/// A list of texts as arguments.
pub open spec fn as_args(v: Seq<Seq<char>>) -> Seq<Seq<u8>> {
    Seq::new(v.len(), |i: int| encode_utf8(v[i]))
}

/// How a job is started: `bash` runs its script in a process group of its own, and all that the
/// script writes goes to the job's log.
pub open spec fn job_launch(
    script: Seq<u8>,
    input: Seq<u8>,
    envs: Seq<(Seq<char>, Seq<char>)>,
    extra_args: Seq<Seq<char>>,
    search: Seq<char>,
) -> LaunchView {
    LaunchView {
        program: "bash"@,
        args: seq![script, input] + as_args(extra_args),
        envs: seq![("PATH"@, search)] + envs,
        stdin: Stream::Null,
        stdout: Stream::Log,
        stderr: Stream::Log,
        own_group: true,
    }
}

/// A job that is about to be started.
pub struct JobPlan {
    pub label: String,
    /// Where the output of the script goes.
    pub log_path: FilePath,
    pub log_dir: FilePath,
    pub launch: Launch,
}

fn slug_of(label: &str) -> (r: String)
    ensures
        r@ == slug(label@),
        !r@.contains('/'),
{
    let chars = chars_of(label);
    let mut out = String::new();
    let mut i: usize = 0;
    while i < chars.len() && i < SLUG_CHARS
        invariant
            i <= chars@.len(),
            i <= SLUG_CHARS,
            chars@ == label@,
            out@ == Seq::new(i as nat, |j: int| slug_char(label@[j])),
            forall|j: int| 0 <= j < out@.len() ==> #[trigger] out@[j] != '/',
        decreases chars@.len() - i,
    {
        let c: char = chars[i];
        if c.is_alphanumeric() || c == '-' {
            assert(c != '/');
            out.push(c);
        } else {
            out.push('_');
        }
        i = i + 1;
        assert(out@ =~= Seq::new(i as nat, |j: int| slug_char(label@[j])));
    }
    out
}

fn search_path_of(home: &str, path: &str) -> (r: String)
    ensures
        r@ == search_path(home@, path@),
{
    let mut bin = home.to_owned();
    bin.append("/bin");
    let parts = split_text(path, ':');
    let ghost all = texts(parts@);
    let mut i: usize = 0;
    while i < parts.len()
        invariant
            i <= parts@.len(),
            all == texts(parts@),
            all == split_on(path@, ':'),
            bin@ == home@ + "/bin"@,
            forall|j: int| 0 <= j < i ==> #[trigger] all[j] != bin@,
        decreases parts@.len() - i,
    {
        if same_text(parts[i].as_str(), bin.as_str()) {
            assert(all[i as int] == bin@);
            return path.to_owned();
        }
        assert(all[i as int] == parts@[i as int]@);
        i = i + 1;
    }
    bin.append(":");
    bin.append(path);
    bin
}

proof fn lemma_log_name(slug: Seq<char>, ts: u64)
    requires
        !slug.contains('/'),
    ensures
        plain_name(encode_utf8(slug + "_"@ + decimal(ts as nat) + ".log"@)),
{
    let d = decimal(ts as nat);
    let s = slug + "_"@ + d + ".log"@;
    law_decimal_spells(ts as nat);
    reveal_strlit("_");
    reveal_strlit(".log");
    assert forall|i: int| 0 <= i < s.len() implies s[i] != '/' by {
        if i < slug.len() {
            assert(s[i] == slug[i]);
        } else if i < slug.len() + 1 {
            assert(s[i] == "_"@[i - slug.len()]);
        } else if i < slug.len() + 1 + d.len() {
            assert(s[i] == d[i - slug.len() - 1]);
            assert(is_digit(d[i - slug.len() - 1]));
        } else {
            assert(s[i] == ".log"@[i - slug.len() - 1 - d.len()]);
        }
    }
    law_no_slash_in_name(s);
    lemma_encoded_len(s);
}

// ---------------------------------------------------------------------------
// Progress
// ---------------------------------------------------------------------------
/// The progress reports in the lines of a log: ffmpeg ends each with a carriage return.
pub open spec fn reports(log: Seq<Seq<char>>) -> Seq<Seq<char>>
    decreases log.len(),
{
    if log.len() == 0 {
        Seq::empty()
    } else {
        reports(log.drop_last()) + split_on(log.last(), '\r')
    }
}

/// The frame number of the last report that has one.
pub open spec fn last_frame(r: Seq<Seq<char>>) -> Option<u64>
    decreases r.len(),
{
    if r.len() == 0 {
        None
    } else {
        match field(r.last(), "frame="@) {
            Some(t) => match parse_u64(t) {
                Some(n) => Some(n),
                None => last_frame(r.drop_last()),
            },
            None => last_frame(r.drop_last()),
        }
    }
}

/// The three parts of a time field: hours, minutes, and seconds with whatever follows. A field
/// without three parts, or one that begins with `N` as `N/A` does, has none.
pub open spec fn time_parts(t: Seq<char>) -> Option<(Seq<char>, Seq<char>, Seq<char>)> {
    let p = split_on(t, ':');
    if (t.len() > 0 && t[0] == 'N') || p.len() < 3 {
        None
    } else {
        Some((p[0], p[1], t.skip((p[0].len() + p[1].len() + 2) as int)))
    }
}

/// The times that the reports give, in order.
pub open spec fn times(r: Seq<Seq<char>>) -> Seq<(Seq<char>, Seq<char>, Seq<char>)>
    decreases r.len(),
{
    if r.len() == 0 {
        Seq::empty()
    } else {
        match field(r.last(), "time="@) {
            Some(t) => match time_parts(t) {
                Some(p) => times(r.drop_last()).push(p),
                None => times(r.drop_last()),
            },
            None => times(r.drop_last()),
        }
    }
}

/// What a list of times holds.
pub open spec fn triples(v: Seq<(String, String, String)>) -> Seq<
    (Seq<char>, Seq<char>, Seq<char>),
> {
    Seq::new(v.len(), |i: int| (v[i].0@, v[i].1@, v[i].2@))
}

proof fn lemma_split_lengths(t: Seq<char>, c: char)
    ensures
        ({
            let p = split_on(t, c);
            &&& p.len() > 0
            &&& p.len() == 1 ==> p[0].len() == t.len()
            &&& p.len() == 2 ==> p[0].len() + p[1].len() + 1 == t.len()
            &&& p.len() >= 3 ==> p[0].len() + p[1].len() + 2 <= t.len()
        }),
    decreases t.len(),
{
    if t.len() > 0 {
        lemma_split_lengths(t.drop_last(), c);
    }
}

/// The three parts of a time field, where it has them.
pub fn split_time(t: &str) -> (r: Option<(String, String, String)>)
    ensures
        match r {
            Some(p) => time_parts(t@) == Some((p.0@, p.1@, p.2@)),
            None => time_parts(t@) is None,
        },
{
    let chars = chars_of(t);
    if chars.len() > 0 && chars[0] == 'N' {
        return None;
    }
    let parts = split_text(t, ':');
    if parts.len() < 3 {
        return None;
    }
    proof {
        lemma_split_lengths(t@, ':');
    }
    let h = chars_of(parts[0].as_str());
    let m = chars_of(parts[1].as_str());
    assert(texts(parts@)[0] == parts@[0]@);
    assert(texts(parts@)[1] == parts@[1]@);
    let len: usize = chars.len();
    let from: usize = h.len() + m.len() + 2;
    let rest = text_range(&chars, from, len);
    assert(rest@ =~= t@.skip((h@.len() + m@.len() + 2) as int));
    Some((parts[0].clone(), parts[1].clone(), rest))
}

/// A file of the work directory, with its size where that could be read.
pub struct SizedFile {
    pub path: FilePath,
    pub len: Option<u64>,
}

/// What a `SizedFile` holds.
#[verifier::ext_equal]
pub struct SizedView {
    pub path: Seq<u8>,
    pub len: Option<u64>,
}

impl View for SizedFile {
    type V = SizedView;

    open spec fn view(&self) -> SizedView {
        SizedView { path: self.path@, len: self.len }
    }
}

/// What a listing with sizes holds.
pub open spec fn sized_view(v: Seq<SizedFile>) -> Seq<SizedView> {
    Seq::new(v.len(), |i: int| v[i]@)
}

/// The view of a listing with sizes, where the directory could be read.
pub open spec fn sized_listing(files: Option<Vec<SizedFile>>) -> Option<Seq<SizedView>> {
    match files {
        Some(f) => Some(sized_view(f@)),
        None => None,
    }
}

/// The view of a listing, where the directory could be read.
pub open spec fn paths_listing(files: Option<Vec<FilePath>>) -> Option<Seq<Seq<u8>>> {
    match files {
        Some(f) => Some(paths(f@)),
        None => None,
    }
}

/// A segment that is done: a file `seg_*.mp4` that is not empty.
pub open spec fn finished_segment(f: SizedView) -> bool {
    &&& has_extension(f.path, "mp4"@)
    &&& file_name(f.path) matches Some(n) && encode_utf8("seg_"@).is_prefix_of(n)
    &&& f.len matches Some(n) && n > 0
}

/// How many segments of a listing are done.
pub open spec fn finished_count(files: Seq<SizedView>) -> nat {
    files.filter(|f: SizedView| finished_segment(f)).len()
}

/// How many pictures a listing holds.
pub open spec fn picture_count(files: Seq<Seq<u8>>) -> nat {
    files.filter(|p: Seq<u8>| has_extension(p, "jpg"@)).len()
}

fn segment_done(f: &SizedFile) -> (r: bool)
    ensures
        r == finished_segment(f@),
{
    let sized = match f.len {
        Some(n) => n > 0,
        None => false,
    };
    if !sized || !f.path.has_extension("mp4") {
        return false;
    }
    let want = FilePath::from_text("seg_");
    match f.path.file_name() {
        Some(name) => {
            let len: usize = want.bytes.len();
            if name.len() < len {
                false
            } else {
                let head = byte_range(&name, 0, len);
                assert(head@ =~= name@.take(len as int));
                let same = same_bytes(&head, &want.bytes);
                assert(same == want.bytes@.is_prefix_of(name@));
                same
            }
        },
        None => false,
    }
}

/// How many segments of a listing are done.
pub fn count_segments(files: &Vec<SizedFile>) -> (r: u64)
    ensures
        r == finished_count(sized_view(files@)),
        r <= files@.len(),
{
    let ghost all = sized_view(files@);
    let ghost done = |f: SizedView| finished_segment(f);
    let mut n: usize = 0;
    let mut i: usize = 0;
    proof {
        reveal(Seq::filter);
    }
    while i < files.len()
        invariant
            i <= files@.len(),
            n <= i,
            all == sized_view(files@),
            done == (|f: SizedView| finished_segment(f)),
            n == all.take(i as int).filter(done).len(),
        decreases files@.len() - i,
    {
        proof {
            reveal(Seq::filter);
        }
        assert(all.take(i + 1).drop_last() =~= all.take(i as int));
        assert(all.take(i + 1).last() == files@[i as int]@);
        if segment_done(&files[i]) {
            n = n + 1;
        }
        i = i + 1;
    }
    assert(all.take(all.len() as int) =~= all);
    n as u64
}

/// How many pictures a listing holds.
pub fn count_pictures(files: &Vec<FilePath>) -> (r: u64)
    ensures
        r == picture_count(paths(files@)),
{
    let ghost all = paths(files@);
    let ghost picture = |p: Seq<u8>| has_extension(p, "jpg"@);
    let mut n: usize = 0;
    let mut i: usize = 0;
    proof {
        reveal(Seq::filter);
    }
    while i < files.len()
        invariant
            i <= files@.len(),
            n <= i,
            all == paths(files@),
            picture == (|p: Seq<u8>| has_extension(p, "jpg"@)),
            n == all.take(i as int).filter(picture).len(),
        decreases files@.len() - i,
    {
        proof {
            reveal(Seq::filter);
        }
        assert(all.take(i + 1).drop_last() =~= all.take(i as int));
        assert(all.take(i + 1).last() == files@[i as int]@);
        if files[i].has_extension("jpg") {
            n = n + 1;
        }
        i = i + 1;
    }
    assert(all.take(all.len() as int) =~= all);
    n as u64
}

/// The last frame number and the times that the lines of a log report.
pub fn read_reports(log: &Vec<String>) -> (r: (Option<u64>, Vec<(String, String, String)>))
    ensures
        r.0 == last_frame(reports(texts(log@))),
        triples(r.1@) == times(reports(texts(log@))),
{
    let ghost all = texts(log@);
    let mut frame: Option<u64> = None;
    let mut found: Vec<(String, String, String)> = Vec::new();
    let mut i: usize = 0;
    assert(triples(found@) =~= Seq::empty());
    while i < log.len()
        invariant
            i <= log@.len(),
            all == texts(log@),
            frame == last_frame(reports(all.take(i as int))),
            triples(found@) == times(reports(all.take(i as int))),
        decreases log@.len() - i,
    {
        let parts = split_text(log[i].as_str(), '\r');
        let ghost before = reports(all.take(i as int));
        let ghost new = texts(parts@);
        assert(all.take(i + 1).drop_last() =~= all.take(i as int));
        assert(all.take(i + 1).last() == log@[i as int]@);
        assert(reports(all.take(i + 1)) == before + new);
        let mut k: usize = 0;
        assert(before + new.take(0) =~= before);
        while k < parts.len()
            invariant
                k <= parts@.len(),
                new == texts(parts@),
                frame == last_frame(before + new.take(k as int)),
                triples(found@) == times(before + new.take(k as int)),
            decreases parts@.len() - k,
        {
            let part = parts[k].as_str();
            let ghost upto = before + new.take(k + 1);
            assert(upto.drop_last() =~= before + new.take(k as int));
            assert(upto.last() == part@);
            if let Some(f) = parse_field(part, "frame=") {
                if let Some(n) = u64_of(f.as_str()) {
                    frame = Some(n);
                }
            }
            if let Some(t) = parse_field(part, "time=") {
                if let Some(p) = split_time(t.as_str()) {
                    let ghost was = triples(found@);
                    let ghost added = (p.0@, p.1@, p.2@);
                    found.push(p);
                    assert(triples(found@) =~= was.push(added));
                }
            }
            k = k + 1;
        }
        assert(new.take(new.len() as int) =~= new);
        i = i + 1;
    }
    assert(all.take(all.len() as int) =~= all);
    (frame, found)
}

// ---------------------------------------------------------------------------
// Probing the input
// ---------------------------------------------------------------------------
/// What ffprobe wrote of a video: the frame rate as a fraction, and the duration in seconds.
pub struct ProbeText {
    pub num: String,
    pub den: Option<String>,
    pub duration: Option<String>,
}

/// What a `ProbeText` holds.
#[verifier::ext_equal]
pub struct ProbeView {
    pub num: Seq<char>,
    pub den: Option<Seq<char>>,
    pub duration: Option<Seq<char>>,
}

impl View for ProbeText {
    type V = ProbeView;

    open spec fn view(&self) -> ProbeView {
        ProbeView { num: self.num@, den: opt_text(self.den), duration: opt_text(self.duration) }
    }
}

/// What the text that ffprobe wrote says: a line with the frame rate, `0/1` where there is no
/// line, and a line with the duration.
pub open spec fn probe_fields(text: Seq<char>) -> ProbeView {
    let l = lines(text);
    let rate = split_on(
        if l.len() > 0 {
            l[0]
        } else {
            "0/1"@
        },
        '/',
    );
    ProbeView {
        num: rate[0],
        den: if rate.len() > 1 {
            Some(rate[1])
        } else {
            None
        },
        duration: if l.len() > 1 {
            Some(l[1])
        } else {
            None
        },
    }
}

/// What ffprobe's output says of a video.
pub fn parse_probe(output: &Vec<u8>) -> (r: ProbeText)
    ensures
        r@ == probe_fields(path_text(output@)),
{
    let text = lossy_of(output.as_slice());
    let l = lines_of(text.as_str());
    assert(texts(l@).len() == l@.len());
    let rate = if l.len() > 0 {
        assert(texts(l@)[0] == l@[0]@);
        split_text(l[0].as_str(), '/')
    } else {
        split_text("0/1", '/')
    };
    assert(texts(rate@)[0] == rate@[0]@);
    let den = if rate.len() > 1 {
        assert(texts(rate@)[1] == rate@[1]@);
        Some(rate[1].clone())
    } else {
        None
    };
    let duration = if l.len() > 1 {
        assert(texts(l@)[1] == l@[1]@);
        Some(l[1].clone())
    } else {
        None
    };
    ProbeText { num: rate[0].clone(), den, duration }
}

// ---------------------------------------------------------------------------
// The job
// ---------------------------------------------------------------------------
/// A signal to a job's process group.
#[derive(Clone, Copy, Debug, PartialEq, Eq, Structural)]
pub enum JobSignal {
    /// Stop until continued (`SIGSTOP`).
    Stop,
    /// Go on (`SIGCONT`).
    Continue,
    /// End (`SIGINT`).
    Interrupt,
}

/// A processing job that was started.
pub struct PipelineJob {
    /// Whether the script's process has not been seen to end.
    pub running: bool,
    /// Human-readable label shown in the UI (e.g. "VDecimate seg001.mkv")
    pub label: String,
    /// True once the script has exited (success or failure).
    pub done: bool,
    /// Most recent frame number from ffmpeg's progress output.
    pub current_frame: u64,
    /// Input frame count (display only). May differ from the output count for operations that
    /// change the frame rate.
    pub total_frames: u64,
    /// Directory where job log files are written.
    pub log_dir: FilePath,
    /// The log of this job.
    pub script_log: FilePath,
    pub started_at: u64,
    /// Whether the job upscales, segment by segment.
    pub is_upscale: bool,
    /// The `segments` directory inside the upscale work directory.
    pub segments_dir: Option<FilePath>,
    /// The `frames` directory: extracted source frames of the active segment.
    pub frames_dir: Option<FilePath>,
    /// The `frames_up` directory: upscaled frames of the active segment.
    pub frames_up_dir: Option<FilePath>,
    /// What the upscale writes in the end.
    pub output_path: Option<FilePath>,
    /// Number of segments that are done.
    pub completed_segments: u64,
    /// Expected number of segments; 0 where it is not known.
    pub total_segments: u64,
    /// Frames of the active segment.
    pub segment_frames: u64,
    /// Frames of the active segment that are upscaled.
    pub upscaled_frames: u64,
    pub paused: bool,
    /// The number of segments that were done when the job was asked to stop after its segment.
    pub stop_after: Option<u64>,
    /// Whether the job was interrupted because that segment is done.
    pub stop_sent: bool,
}

/// What a `PipelineJob` holds.
#[verifier::ext_equal]
pub struct JobView {
    pub running: bool,
    pub label: Seq<char>,
    pub done: bool,
    pub current_frame: u64,
    pub total_frames: u64,
    pub log_dir: Seq<u8>,
    pub script_log: Seq<u8>,
    pub started_at: u64,
    pub is_upscale: bool,
    pub segments_dir: Option<Seq<u8>>,
    pub frames_dir: Option<Seq<u8>>,
    pub frames_up_dir: Option<Seq<u8>>,
    pub output_path: Option<Seq<u8>>,
    pub completed_segments: u64,
    pub total_segments: u64,
    pub segment_frames: u64,
    pub upscaled_frames: u64,
    pub paused: bool,
    pub stop_after: Option<u64>,
    pub stop_sent: bool,
}

impl View for PipelineJob {
    type V = JobView;

    open spec fn view(&self) -> JobView {
        JobView {
            running: self.running,
            label: self.label@,
            done: self.done,
            current_frame: self.current_frame,
            total_frames: self.total_frames,
            log_dir: self.log_dir@,
            script_log: self.script_log@,
            started_at: self.started_at,
            is_upscale: self.is_upscale,
            segments_dir: opt_path(self.segments_dir),
            frames_dir: opt_path(self.frames_dir),
            frames_up_dir: opt_path(self.frames_up_dir),
            output_path: opt_path(self.output_path),
            completed_segments: self.completed_segments,
            total_segments: self.total_segments,
            segment_frames: self.segment_frames,
            upscaled_frames: self.upscaled_frames,
            paused: self.paused,
            stop_after: self.stop_after,
            stop_sent: self.stop_sent,
        }
    }
}

/// A part of a whole, which is never more than the whole.
pub open spec fn fraction(done: u64, total: u64) -> (u64, u64) {
    (
        if done < total {
            done
        } else {
            total
        },
        total,
    )
}

fn fraction_of(done: u64, total: u64) -> (r: (u64, u64))
    ensures
        r == fraction(done, total),
{
    if done < total {
        (done, total)
    } else {
        (total, total)
    }
}

impl JobView {
    /// A job that has just been started.
    pub open spec fn fresh(
        label: Seq<char>,
        log_dir: Seq<u8>,
        script_log: Seq<u8>,
        total_frames: u64,
        now: u64,
    ) -> JobView {
        JobView {
            running: true,
            label,
            done: false,
            current_frame: 0,
            total_frames,
            log_dir,
            script_log,
            started_at: now,
            is_upscale: false,
            segments_dir: None,
            frames_dir: None,
            frames_up_dir: None,
            output_path: None,
            completed_segments: 0,
            total_segments: 0,
            segment_frames: 0,
            upscaled_frames: 0,
            paused: false,
            stop_after: None,
            stop_sent: false,
        }
    }

    /// What holds of a job at all times: one that is done does not run, and only an upscale has
    /// a work directory and segments.
    pub open spec fn consistent(self) -> bool {
        &&& self.done ==> !self.running
        &&& self.is_upscale == (self.segments_dir is Some)
        &&& self.frames_dir is Some ==> self.is_upscale
        &&& (self.frames_dir is Some) == (self.frames_up_dir is Some)
        &&& self.stop_after is Some ==> self.is_upscale
    }

    /// The job as an upscale whose finished segments go to `segments`.
    pub open spec fn as_upscale(self, segments: Seq<u8>, output: Seq<u8>, total: u64) -> JobView {
        let work = parent(segments);
        JobView {
            is_upscale: true,
            frames_dir: match work {
                Some(w) => Some(joined(w, encode_utf8("frames"@))),
                None => self.frames_dir,
            },
            frames_up_dir: match work {
                Some(w) => Some(joined(w, encode_utf8("frames_up"@))),
                None => self.frames_up_dir,
            },
            segments_dir: Some(segments),
            output_path: Some(output),
            total_segments: total,
            ..self
        }
    }

    /// The system was asked after the script's process.
    pub open spec fn after_poll(self, child: ChildPoll) -> JobView {
        if self.running && child == ChildPoll::Running {
            self
        } else {
            JobView { running: false, done: true, ..self }
        }
    }

    /// The job's log was read.
    pub open spec fn after_log(self, log: Seq<Seq<char>>) -> JobView {
        JobView {
            current_frame: match last_frame(reports(log)) {
                Some(f) => f,
                None => self.current_frame,
            },
            ..self
        }
    }

    /// The segments directory was listed, where that could be done.
    pub open spec fn after_segments(self, files: Option<Seq<SizedView>>) -> JobView {
        match files {
            Some(f) => if self.is_upscale && self.segments_dir is Some {
                JobView { completed_segments: finished_count(f) as u64, ..self }
            } else {
                self
            },
            None => self,
        }
    }

    /// The two frame directories were listed, as far as that could be done.
    pub open spec fn after_frames(
        self,
        frames: Option<Seq<Seq<u8>>>,
        upscaled: Option<Seq<Seq<u8>>>,
    ) -> JobView {
        JobView {
            segment_frames: match frames {
                Some(f) => picture_count(f) as u64,
                None => 0,
            },
            upscaled_frames: match upscaled {
                Some(f) => picture_count(f) as u64,
                None => 0,
            },
            ..self
        }
    }

    /// The job was interrupted, if its last segment is done.
    pub open spec fn after_stop(self) -> JobView {
        JobView { stop_sent: self.stop_sent || self.stop_due(), ..self }
    }

    /// The progress of the active segment: upscaled frames of all its frames. There is none for
    /// a job that is no upscale, and none before frames were extracted.
    pub open spec fn segment_progress(self) -> Option<(u64, u64)> {
        if self.is_upscale && self.frames_dir is Some && self.frames_up_dir is Some
            && self.segment_frames > 0 {
            Some(fraction(self.upscaled_frames, self.segment_frames))
        } else {
            None
        }
    }

    /// The progress of the upscale: finished segments of all segments.
    pub open spec fn total_progress(self) -> Option<(u64, u64)> {
        if self.is_upscale && self.total_segments > 0 {
            Some(fraction(self.completed_segments, self.total_segments))
        } else {
            None
        }
    }

    /// The time that the job has run for, as the user reads it.
    pub open spec fn elapsed_text(self, now: u64) -> Seq<char> {
        time_text((nanos_since(self.started_at, now) / NANOS_PER_SEC) as nat)
    }

    /// The number of the segment that is worked on.
    pub open spec fn current_segment(self) -> u64 {
        if self.completed_segments < u64::MAX {
            (self.completed_segments + 1) as u64
        } else {
            u64::MAX
        }
    }

    /// Whether the segment that the job was to finish before it stops is finished.
    pub open spec fn stop_due(self) -> bool {
        &&& self.running
        &&& !self.stop_sent
        &&& self.stop_after matches Some(mark) && self.completed_segments > mark
    }
}

impl JobPlan {
    /// The job, once its script was started at `now`. `total_frames` is the input's frame
    /// count, or 0 where it is not known.
    pub fn started(self, total_frames: u64, now: u64) -> (r: PipelineJob)
        ensures
            r@ == JobView::fresh(
                self.label@,
                self.log_dir@,
                self.log_path@,
                total_frames,
                now,
            ),
            r@.consistent(),
    {
        PipelineJob {
            running: true,
            label: self.label,
            done: false,
            current_frame: 0,
            total_frames,
            log_dir: self.log_dir,
            script_log: self.log_path,
            started_at: now,
            is_upscale: false,
            segments_dir: None,
            frames_dir: None,
            frames_up_dir: None,
            output_path: None,
            completed_segments: 0,
            total_segments: 0,
            segment_frames: 0,
            upscaled_frames: 0,
            paused: false,
            stop_after: None,
            stop_sent: false,
        }
    }
}

impl PipelineJob {
    /// How to start a script.
    ///
    /// * `label`: display name for the UI
    /// * `input`: path passed as the script's first argument
    /// * `envs`: extra environment variables
    /// * `log_dir`: where the job's log goes
    /// * `ts`: seconds since the epoch
    /// * `home`, `path`: the home directory and the search path of this process
    #[allow(clippy::too_many_arguments)]
    pub fn start(
        label: &str,
        script: &FilePath,
        input: &FilePath,
        envs: &Vec<(String, String)>,
        extra_args: &Vec<String>,
        log_dir: &FilePath,
        ts: u64,
        home: &str,
        path: &str,
    ) -> (r: JobPlan)
        ensures
            r.label@ == label@,
            r.log_dir@ == log_dir@,
            r.log_path@ == joined(log_dir@, encode_utf8(log_name(label@, ts))),
            parent(r.log_path@) == Some(tidy(log_dir@)),
            r.launch@ == job_launch(
                script@,
                input@,
                pairs(envs@),
                texts(extra_args@),
                search_path(home@, path@),
            ),
    {
        let mut name = slug_of(label);
        name.append("_");
        name.append(decimal_text(ts).as_str());
        name.append(".log");
        proof {
            lemma_log_name(slug(label@), ts);
            law_entry_of_directory(log_dir@, encode_utf8(name@));
        }
        let mut args: Vec<FilePath> = Vec::new();
        push_arg(&mut args, script.clone());
        push_arg(&mut args, input.clone());
        let ghost extra = as_args(texts(extra_args@));
        let mut i: usize = 0;
        assert(paths(args@) =~= seq![script@, input@] + extra.take(0));
        while i < extra_args.len()
            invariant
                i <= extra_args@.len(),
                extra == as_args(texts(extra_args@)),
                paths(args@) == seq![script@, input@] + extra.take(i as int),
            decreases extra_args@.len() - i,
        {
            push_arg(&mut args, FilePath::from_text(extra_args[i].as_str()));
            assert(extra[i as int] == encode_utf8(extra_args@[i as int]@));
            assert(extra.take(i + 1) =~= extra.take(i as int).push(extra[i as int]));
            i = i + 1;
            assert(paths(args@) =~= seq![script@, input@] + extra.take(i as int));
        }
        assert(extra.take(extra.len() as int) =~= extra);
        let mut all_envs: Vec<(String, String)> = Vec::new();
        push_env(&mut all_envs, "PATH", search_path_of(home, path));
        let ghost own = seq![("PATH"@, search_path(home@, path@))];
        let mut k: usize = 0;
        assert(pairs(all_envs@) =~= own + pairs(envs@).take(0));
        while k < envs.len()
            invariant
                k <= envs@.len(),
                pairs(all_envs@) == own + pairs(envs@).take(k as int),
            decreases envs@.len() - k,
        {
            push_env(&mut all_envs, envs[k].0.as_str(), envs[k].1.clone());
            k = k + 1;
            assert(pairs(all_envs@) =~= own + pairs(envs@).take(k as int));
        }
        assert(pairs(envs@).take(envs@.len() as int) =~= pairs(envs@));
        JobPlan {
            label: label.to_owned(),
            log_path: log_dir.join(name.as_str()),
            log_dir: log_dir.clone(),
            launch: Launch {
                program: "bash",
                args,
                envs: all_envs,
                stdin: Stream::Null,
                stdout: Stream::Log,
                stderr: Stream::Log,
                own_group: true,
            },
        }
    }

    /// Track the job as an upscale: its finished segments go to `segments_dir`, and its frames
    /// to `frames` and `frames_up` beside that. `total` is the expected number of segments, or
    /// 0 where it is not known.
    pub fn with_upscale_tracking(self, segments_dir: FilePath, output: FilePath, total: u64) -> (r:
        Self)
        ensures
            r@ == self@.as_upscale(segments_dir@, output@, total),
            self@.consistent() ==> r@.consistent(),
    {
        let mut job = self;
        job.is_upscale = true;
        if let Some(work_dir) = segments_dir.parent() {
            job.frames_dir = Some(work_dir.join("frames"));
            job.frames_up_dir = Some(work_dir.join("frames_up"));
        }
        job.segments_dir = Some(segments_dir);
        job.output_path = Some(output);
        job.total_segments = total;
        job
    }

    /// What became of the script's process.
    pub fn poll(&mut self, child: ChildPoll)
        ensures
            final(self)@ == old(self)@.after_poll(child),
            old(self)@.consistent() ==> final(self)@.consistent(),
    {
        if self.running {
            match child {
                ChildPoll::Running => {},
                _ => {
                    self.running = false;
                    self.done = true;
                },
            }
        } else {
            self.done = true;
        }
    }

    pub fn is_running(&self) -> (r: bool)
        ensures
            r == self@.running,
    {
        self.running
    }

    /// The job's log was read; these are its lines. Returns the times that they report, as
    /// text: the last one that is a time tells how far the job has come.
    pub fn note_log(&mut self, log: &Vec<String>) -> (r: Vec<(String, String, String)>)
        ensures
            final(self)@ == old(self)@.after_log(texts(log@)),
            triples(r@) == times(reports(texts(log@))),
            old(self)@.consistent() ==> final(self)@.consistent(),
    {
        let (frame, found) = read_reports(log);
        if let Some(f) = frame {
            self.current_frame = f;
        }
        found
    }

    /// The segments directory was listed. Where it could not be, the count stays.
    pub fn note_segments(&mut self, files: &Option<Vec<SizedFile>>)
        ensures
            final(self)@ == old(self)@.after_segments(sized_listing(*files)),
            old(self)@.consistent() ==> final(self)@.consistent(),
    {
        if self.is_upscale && self.segments_dir.is_some() {
            if let Some(f) = files {
                self.completed_segments = count_segments(f);
            }
        }
    }

    /// The two frame directories were listed. One that could not be holds no pictures.
    pub fn note_frames(&mut self, frames: &Option<Vec<FilePath>>, upscaled: &Option<Vec<FilePath>>)
        ensures
            final(self)@ == old(self)@.after_frames(
                paths_listing(*frames),
                paths_listing(*upscaled),
            ),
            old(self)@.consistent() ==> final(self)@.consistent(),
    {
        self.segment_frames = match frames {
            Some(f) => count_pictures(f),
            None => 0,
        };
        self.upscaled_frames = match upscaled {
            Some(f) => count_pictures(f),
            None => 0,
        };
    }

    pub fn elapsed_str(&self, now: u64) -> (r: String)
        ensures
            r@ == self@.elapsed_text(now),
    {
        fmt_time(elapsed_nanos(self.started_at, now) / NANOS_PER_SEC)
    }

    /// Progress through the upscaling step of the current segment.
    pub fn segment_progress(&self) -> (r: Option<(u64, u64)>)
        ensures
            r == self@.segment_progress(),
    {
        if !self.is_upscale || self.frames_dir.is_none() || self.frames_up_dir.is_none()
            || self.segment_frames == 0 {
            return None;
        }
        Some(fraction_of(self.upscaled_frames, self.segment_frames))
    }

    /// Overall upscale progress: completed segments / total segments.
    pub fn total_progress(&self) -> (r: Option<(u64, u64)>)
        ensures
            r == self@.total_progress(),
    {
        if !self.is_upscale || self.total_segments == 0 {
            return None;
        }
        Some(fraction_of(self.completed_segments, self.total_segments))
    }

    /// The number of the segment that is worked on.
    pub fn current_segment(&self) -> (r: u64)
        ensures
            r == self@.current_segment(),
    {
        if self.completed_segments < u64::MAX {
            self.completed_segments + 1
        } else {
            u64::MAX
        }
    }

    /// The signal that ends the job, where it runs.
    pub fn cancel(&self) -> (r: Option<JobSignal>)
        ensures
            r == (if self@.running {
                Some(JobSignal::Interrupt)
            } else {
                None
            }),
    {
        if self.running {
            Some(JobSignal::Interrupt)
        } else {
            None
        }
    }

    /// Pause the job, or resume one that is paused. Returns the signal that does it; a job that
    /// does not run is left as it is.
    pub fn toggle_pause(&mut self) -> (r: Option<JobSignal>)
        ensures
            final(self)@ == (JobView {
                paused: old(self)@.paused != old(self)@.running,
                ..old(self)@
            }),
            r == (if !old(self)@.running {
                None
            } else if old(self)@.paused {
                Some(JobSignal::Continue)
            } else {
                Some(JobSignal::Stop)
            }),
            old(self)@.consistent() ==> final(self)@.consistent(),
    {
        if !self.running {
            return None;
        }
        if self.paused {
            self.paused = false;
            Some(JobSignal::Continue)
        } else {
            self.paused = true;
            Some(JobSignal::Stop)
        }
    }

    /// Whether the job was asked to stop after its segment.
    pub fn stopping_after_segment(&self) -> (r: bool)
        ensures
            r == (self@.stop_after is Some),
    {
        self.stop_after.is_some()
    }

    /// Ask an upscale to stop once the segment that it works on is done. A second request
    /// changes nothing.
    pub fn request_stop_after_segment(&mut self)
        ensures
            final(self)@ == (JobView {
                stop_after: if old(self)@.is_upscale && old(self)@.stop_after is None {
                    Some(old(self)@.completed_segments)
                } else {
                    old(self)@.stop_after
                },
                ..old(self)@
            }),
            old(self)@.consistent() ==> final(self)@.consistent(),
    {
        if self.is_upscale && self.stop_after.is_none() {
            self.stop_after = Some(self.completed_segments);
        }
    }

    /// The signal that ends a job whose last segment is done, once.
    pub fn take_stop(&mut self) -> (r: Option<JobSignal>)
        ensures
            final(self)@ == old(self)@.after_stop(),
            r == (if old(self)@.stop_due() {
                Some(JobSignal::Interrupt)
            } else {
                None
            }),
            old(self)@.consistent() ==> final(self)@.consistent(),
    {
        if let Some(mark) = self.stop_after {
            if self.running && !self.stop_sent && self.completed_segments > mark {
                self.stop_sent = true;
                return Some(JobSignal::Interrupt);
            }
        }
        None
    }
}

// ---------------------------------------------------------------------------
// Laws
// ---------------------------------------------------------------------------
/// The tools in the user's own `bin` are found: it is on the search path of every job. A home
/// directory with a colon in its name cannot be on a search path.
pub proof fn law_home_bin_on_path(home: Seq<char>, path: Seq<char>)
    requires
        !home.contains(':'),
    ensures
        split_on(search_path(home, path), ':').contains(home + "/bin"@),
{
    let bin = home + "/bin"@;
    if !split_on(path, ':').contains(bin) {
        reveal_strlit("/bin");
        reveal_strlit(":");
        assert forall|i: int| 0 <= i < bin.len() implies bin[i] != ':' by {
            if i < home.len() {
                assert(bin[i] == home[i]);
            } else {
                assert(bin[i] == "/bin"@[i - home.len()]);
            }
        }
        assert(":"@ =~= seq![':']);
        assert(bin + ":"@ + path =~= bin.push(':') + path);
        law_split_undoes_join(bin, path, ':');
        assert(split_on(search_path(home, path), ':')[0] == bin);
    }
}

/// The search path that a job was given serves for the jobs that it starts: nothing is added to
/// it twice.
pub proof fn law_search_path_settles(home: Seq<char>, path: Seq<char>)
    requires
        !home.contains(':'),
    ensures
        search_path(home, search_path(home, path)) == search_path(home, path),
{
    law_home_bin_on_path(home, path);
}

/// Progress is a part of a whole: where there is any, the whole is more than nothing, and the
/// part is never more than the whole.
pub proof fn law_progress_within_bounds(job: JobView)
    ensures
        job.segment_progress() matches Some(p) ==> 0 < p.1 && p.0 <= p.1,
        job.total_progress() matches Some(p) ==> 0 < p.1 && p.0 <= p.1,
        !job.is_upscale ==> job.segment_progress() is None && job.total_progress() is None,
{
}

/// A stop that was asked for waits for the segment: at the moment of the request the job is not
/// interrupted, and it is as soon as one more segment is done.
pub proof fn law_stop_waits_for_segment(job: JobView, completed: u64)
    requires
        job.is_upscale,
        job.running,
        !job.stop_sent,
        job.stop_after == Some(job.completed_segments),
    ensures
        !job.stop_due(),
        (JobView { completed_segments: completed, ..job }).stop_due() <==> completed
            > job.completed_segments,
{
}

/// A job that has ended stays ended, whatever the system says of its process afterwards.
pub proof fn law_done_is_final(job: JobView, child: ChildPoll)
    requires
        job.consistent(),
        job.done,
    ensures
        job.after_poll(child) == job,
{
}

/// The frames of the active segment lie beside its segments, in the work directory.
pub proof fn law_frames_beside_segments(
    job: JobView,
    work: Seq<u8>,
    output: Seq<u8>,
    total: u64,
)
    ensures
        ({
            let t = job.as_upscale(joined(work, encode_utf8("segments"@)), output, total);
            &&& t.frames_dir == Some(joined(tidy(work), encode_utf8("frames"@)))
            &&& t.frames_up_dir == Some(joined(tidy(work), encode_utf8("frames_up"@)))
        }),
{
    reveal_strlit("segments");
    let s = "segments"@;
    assert forall|i: int| 0 <= i < s.len() implies s[i] != '/' by {}
    law_no_slash_in_name(s);
    lemma_encoded_len(s);
    law_entry_of_directory(work, encode_utf8(s));
}

/// The frame number that a report has: the number in its field `frame=`.
pub open spec fn frame_in(report: Seq<char>) -> Option<u64> {
    match field(report, "frame="@) {
        Some(t) => parse_u64(t),
        None => None,
    }
}

/// The frame of a job is that of the last report that has one, whatever the reports before it
/// say; there is none exactly where no report has one.
pub proof fn law_last_report_gives_the_frame(r: Seq<Seq<char>>, k: int)
    requires
        0 <= k < r.len(),
        forall|j: int| k < j < r.len() ==> frame_in(#[trigger] r[j]) is None,
    ensures
        frame_in(r[k]) is Some ==> last_frame(r) == frame_in(r[k]),
        last_frame(r) is None <==> forall|j: int| 0 <= j < r.len() ==> frame_in(
            #[trigger] r[j],
        ) is None,
    decreases r.len(),
{
    lemma_no_frame(r);
    if k < r.len() - 1 {
        let t = r.drop_last();
        assert(frame_in(r[r.len() - 1]) is None);
        assert forall|j: int| k < j < t.len() implies frame_in(#[trigger] t[j]) is None by {
            assert(t[j] == r[j]);
        }
        law_last_report_gives_the_frame(t, k);
        assert(t[k] == r[k]);
    }
}

proof fn lemma_no_frame(r: Seq<Seq<char>>)
    ensures
        last_frame(r) is None <==> forall|j: int| 0 <= j < r.len() ==> frame_in(
            #[trigger] r[j],
        ) is None,
    decreases r.len(),
{
    if r.len() > 0 {
        let t = r.drop_last();
        lemma_no_frame(t);
        let last = r[r.len() - 1];
        if forall|j: int| 0 <= j < r.len() ==> frame_in(#[trigger] r[j]) is None {
            assert forall|j: int| 0 <= j < t.len() implies frame_in(#[trigger] t[j]) is None by {
                assert(t[j] == r[j]);
            }
            assert(frame_in(last) is None);
        }
        if last_frame(r) is None {
            assert(frame_in(last) is None);
            assert forall|j: int| 0 <= j < r.len() implies frame_in(#[trigger] r[j]) is None by {
                if j < t.len() {
                    assert(t[j] == r[j]);
                }
            }
        }
    }
}

/// A carriage return parts two reports just as the end of a line does, and a line without one is
/// one report.
pub proof fn law_reports(log: Seq<Seq<char>>, a: Seq<char>, b: Seq<char>)
    requires
        !a.contains('\r'),
    ensures
        reports(log.push(a)) == reports(log).push(a),
        reports(log.push(a.push('\r') + b)) == reports(log.push(a).push(b)),
        reports(Seq::empty()).len() == 0,
{
    law_split_nothing(a, '\r');
    law_split_undoes_join(a, b, '\r');
    assert(log.push(a).drop_last() =~= log);
    assert(log.push(a).push(b).drop_last() =~= log.push(a));
    let c = a.push('\r') + b;
    assert(log.push(c).drop_last() =~= log);
    let r = reports(log);
    let p = split_on(b, '\r');
    assert(r + seq![a] =~= r.push(a));
    assert(r + (seq![a] + p) =~= r + seq![a] + p);
    assert(reports(log.push(a)) == r + seq![a]);
    assert(log.push(a).push(b).last() == b);
    assert(reports(log.push(a).push(b)) == reports(log.push(a)) + p);
    assert(log.push(c).last() == c);
    assert(reports(log.push(c)) == r + split_on(c, '\r'));
}

/// A time field is hours, minutes and seconds with colons between them; the seconds are all that
/// stands behind the second colon. One that begins with `N`, or has fewer colons, is none.
pub proof fn law_time_parts(h: Seq<char>, m: Seq<char>, s: Seq<char>)
    requires
        !h.contains(':'),
        !m.contains(':'),
    ensures
        (h.len() == 0 || h[0] != 'N') ==> time_parts(h + ":"@ + m + ":"@ + s) == Some((h, m, s)),
        time_parts(h) is None,
        time_parts(h + ":"@ + m) is None,
        forall|t: Seq<char>| #[trigger] time_parts(t) is Some ==> t.len() == 0 || t[0] != 'N',
{
    reveal_strlit(":");
    assert(":"@ =~= seq![':']);
    let t = h + ":"@ + m + ":"@ + s;
    let tail = m.push(':') + s;
    assert(t =~= h.push(':') + tail);
    law_split_undoes_join(h, tail, ':');
    law_split_undoes_join(m, s, ':');
    let p = split_on(t, ':');
    assert(p == seq![h] + (seq![m] + split_on(s, ':')));
    assert(p[0] == h && p[1] == m);
    assert(t.skip((h.len() + m.len() + 2) as int) =~= s);
    if h.len() > 0 {
        assert(t[0] == h[0]);
    } else {
        assert(t[0] == ':');
    }
    law_split_nothing(h, ':');
    law_split_undoes_join(h, m, ':');
    law_split_nothing(m, ':');
    assert(h + ":"@ + m =~= h.push(':') + m);
    assert(split_on(h + ":"@ + m, ':').len() == 2);
}

/// The times come in the order of the reports, one for each report with a time and none for any
/// other.
pub proof fn law_times_follow_the_reports(r: Seq<Seq<char>>, report: Seq<char>)
    ensures
        times(Seq::empty()).len() == 0,
        match field(report, "time="@) {
            Some(t) => match time_parts(t) {
                Some(p) => times(r.push(report)) == times(r).push(p),
                None => times(r.push(report)) == times(r),
            },
            None => times(r.push(report)) == times(r),
        },
{
    assert(r.push(report).drop_last() =~= r);
}

/// The log of a job says which job it is for and when that started: of two jobs that start in
/// different seconds no two have the same log, and a label of letters, digits and dashes stands
/// in the name as it is.
pub proof fn law_log_names_tell_jobs_apart(label: Seq<char>, a: u64, b: u64)
    ensures
        log_name(label, a) == log_name(label, b) ==> a == b,
        log_name(label, a) == slug(label) + "_"@ + decimal(a as nat) + ".log"@,
        slug(label).is_prefix_of(log_name(label, a)),
        ".log"@.is_suffix_of(log_name(label, a)),
        slug(label).len() <= 40,
        label.len() <= 40 ==> slug(label).len() == label.len(),
        label.len() > 40 ==> slug(label).len() == 40,
        forall|i: int|
            0 <= i < slug(label).len() ==> {
                &&& alphanumeric(label[i]) || label[i] == '-' ==> #[trigger] slug(label)[i]
                    == label[i]
                &&& !alphanumeric(label[i]) && label[i] != '-' ==> slug(label)[i] == '_'
            },
{
    let s = slug(label);
    let x = log_name(label, a);
    let y = log_name(label, b);
    reveal_strlit("_");
    reveal_strlit(".log");
    law_decimal_spells(a as nat);
    law_decimal_spells(b as nat);
    assert(x.subrange(0, s.len() as int) =~= s);
    let n = x.len() as int;
    assert(x.subrange(n - 4, n) =~= ".log"@);
    if x == y {
        let da = decimal(a as nat);
        let db = decimal(b as nat);
        assert(da.len() == db.len());
        assert(da =~= db) by {
            assert forall|i: int| 0 <= i < da.len() implies da[i] == db[i] by {
                assert(x[s.len() + 1 + i] == da[i]);
                assert(y[s.len() + 1 + i] == db[i]);
            }
        }
    }
}

/// The search path of this process stays part of a job's: it is all there, at the end.
pub proof fn law_search_path_keeps_the_rest(home: Seq<char>, path: Seq<char>)
    ensures
        path.is_suffix_of(search_path(home, path)),
        split_on(path, ':').contains(home + "/bin"@) ==> search_path(home, path) == path,
        !split_on(path, ':').contains(home + "/bin"@) ==> search_path(home, path) == home
            + "/bin:"@ + path,
{
    reveal_strlit("/bin");
    reveal_strlit(":");
    reveal_strlit("/bin:");
    let r = search_path(home, path);
    assert(home + "/bin"@ + ":"@ + path =~= home + "/bin:"@ + path);
    assert(r.subrange(r.len() - path.len(), r.len() as int) =~= path);
}

/// A job's script gets its input first and its further arguments behind that, in order; its
/// environment has the search path and every variable that it was to be given.
pub proof fn law_job_gets_what_it_is_given(
    script: Seq<u8>,
    input: Seq<u8>,
    envs: Seq<(Seq<char>, Seq<char>)>,
    extra_args: Seq<Seq<char>>,
    search: Seq<char>,
)
    ensures
        ({
            let l = job_launch(script, input, envs, extra_args, search);
            &&& l.program == "bash"@
            &&& l.own_group
            &&& l.args.len() == extra_args.len() + 2
            &&& l.args[0] == script
            &&& l.args[1] == input
            &&& forall|i: int|
                0 <= i < extra_args.len() ==> l.args[i + 2] == encode_utf8(
                    #[trigger] extra_args[i],
                )
            &&& l.envs.len() == envs.len() + 1
            &&& l.envs[0] == ("PATH"@, search)
            &&& forall|i: int| 0 <= i < envs.len() ==> l.envs[i + 1] == #[trigger] envs[i]
            &&& l.stdin == Stream::Null
            &&& l.stdout == Stream::Log
            &&& l.stderr == Stream::Log
        }),
{
}

/// A file `seg_x.mp4` that is not empty is a finished segment; an empty one, one of another
/// extension and one of another beginning are none.
pub proof fn law_what_is_a_finished_segment(
    dir: Seq<u8>,
    stem: Seq<char>,
    ext: Seq<char>,
    len: Option<u64>,
)
    requires
        stem.len() > 0,
        ext.len() > 0,
        !stem.contains('/'),
        !ext.contains('/'),
        !ext.contains('.'),
    ensures
        finished_segment(
            SizedView { path: joined(dir, encode_utf8(stem + "."@ + ext)), len },
        ) <==> {
            &&& ext == "mp4"@
            &&& len is Some
            &&& len->0 > 0
            &&& exists|t: Seq<char>| stem + "."@ + ext == #[trigger] ("seg_"@ + t)
        },
{
    let name = stem + "."@ + ext;
    let p = joined(dir, encode_utf8(name));
    law_named_file(dir, stem, ext, "mp4"@);
    let b = file_name(p)->0;
    vstd::utf8::decode_utf8_encode_utf8(b);
    assert(b == encode_utf8(name));
    let seg = encode_utf8("seg_"@);
    if exists|t: Seq<char>| name == #[trigger] ("seg_"@ + t) {
        let t = choose|t: Seq<char>| name == #[trigger] ("seg_"@ + t);
        law_encoding_joins("seg_"@, t);
        assert(b.subrange(0, seg.len() as int) =~= seg);
        assert(seg.is_prefix_of(b));
    }
    if seg.is_prefix_of(b) {
        lemma_text_prefix("seg_"@, name);
    }
}

/// A text whose encoding begins with the encoding of another begins with that other.
proof fn lemma_text_prefix(a: Seq<char>, s: Seq<char>)
    requires
        encode_utf8(a).is_prefix_of(encode_utf8(s)),
    ensures
        exists|t: Seq<char>| s == #[trigger] (a + t),
    decreases a.len(),
{
    let x = encode_utf8(a);
    let y = encode_utf8(s);
    assert(y.subrange(0, x.len() as int) == x);
    if a.len() == 0 {
        assert(s =~= a + s);
    } else {
        lemma_encoded_len(a);
        assert(s.len() > 0) by {
            if s.len() == 0 {
                assert(y.len() == 0);
            }
        }
        vstd::utf8::encode_utf8_first_scalar(a);
        vstd::utf8::encode_utf8_first_scalar(s);
        let fa = encode_scalar(a[0] as u32);
        let fs = encode_scalar(s[0] as u32);
        let ra = encode_utf8(a.drop_first());
        let rs = encode_utf8(s.drop_first());
        assert(x == fa + ra && y == fs + rs);
        assert forall|i: int| 0 <= i < x.len() implies #[trigger] y[i] == x[i] by {
            assert(y.subrange(0, x.len() as int)[i] == x[i]);
        }
        assert(y[0] == x[0]);
        if x.len() > 1 {
            assert(y[1] == x[1]);
        }
        if x.len() > 2 {
            assert(y[2] == x[2]);
        }
        if x.len() > 3 {
            assert(y[3] == x[3]);
        }
        assert(vstd::utf8::decode_first_codepoint(x) == vstd::utf8::decode_first_codepoint(y));
        vstd::utf8::char_u32_cast(a[0], a[0] as u32);
        vstd::utf8::char_u32_cast(s[0], s[0] as u32);
        assert(a[0] == s[0]);
        assert(fa == fs);
        assert(ra.is_prefix_of(rs)) by {
            assert(rs.subrange(0, ra.len() as int) =~= ra) by {
                assert forall|i: int| 0 <= i < ra.len() implies rs[i] == ra[i] by {
                    assert(y.subrange(0, x.len() as int)[fa.len() + i] == x[fa.len() + i]);
                    assert(y[fa.len() + i] == rs[i]);
                }
            }
        }
        lemma_text_prefix(a.drop_first(), s.drop_first());
        let t = choose|t: Seq<char>| s.drop_first() == #[trigger] (a.drop_first() + t);
        assert(s =~= a + t) by {
            assert forall|i: int| 0 <= i < s.len() implies s[i] == (a + t)[i] by {
                if i > 0 {
                    assert(s[i] == s.drop_first()[i - 1]);
                }
            }
        }
    }
}

/// One more file makes the count one more exactly where it is a finished segment.
pub proof fn law_segments_are_counted(files: Seq<SizedView>, f: SizedView)
    ensures
        finished_count(Seq::empty()) == 0,
        finished_count(files.push(f)) == finished_count(files) + if finished_segment(f) {
            1int
        } else {
            0
        },
{
    reveal(Seq::filter);
    assert(files.push(f).drop_last() =~= files);
}

/// One more file makes the count one more exactly where it is a picture.
pub proof fn law_pictures_are_counted(files: Seq<Seq<u8>>, f: Seq<u8>)
    ensures
        picture_count(Seq::empty()) == 0,
        picture_count(files.push(f)) == picture_count(files) + if has_extension(f, "jpg"@) {
            1int
        } else {
            0
        },
{
    reveal(Seq::filter);
    assert(files.push(f).drop_last() =~= files);
}

/// Progress is as far as the counts say: the finished of all, and all where more is counted than
/// was expected.
pub proof fn law_progress_follows_the_counts(job: JobView)
    requires
        job.is_upscale,
    ensures
        job.total_segments > 0 && job.completed_segments <= job.total_segments
            ==> job.total_progress() == Some((job.completed_segments, job.total_segments)),
        job.total_segments > 0 && job.completed_segments > job.total_segments
            ==> job.total_progress() == Some((job.total_segments, job.total_segments)),
        job.frames_dir is Some && job.frames_up_dir is Some && job.segment_frames > 0
            && job.upscaled_frames <= job.segment_frames ==> job.segment_progress() == Some(
            (job.upscaled_frames, job.segment_frames),
        ),
        job.frames_dir is Some && job.frames_up_dir is Some && job.segment_frames > 0
            && job.upscaled_frames > job.segment_frames ==> job.segment_progress() == Some(
            (job.segment_frames, job.segment_frames),
        ),
        job.completed_segments < u64::MAX ==> job.current_segment() == job.completed_segments + 1,
{
}

/// What a look at the log and the directories finds goes where it belongs and changes nothing
/// else of the job.
pub proof fn law_findings_are_kept(
    job: JobView,
    log: Seq<Seq<char>>,
    segments: Seq<SizedView>,
    frames: Seq<Seq<u8>>,
    upscaled: Seq<Seq<u8>>,
)
    ensures
        ({
            let t = job.after_log(log);
            &&& last_frame(reports(log)) is Some ==> t.current_frame == last_frame(reports(log))->0
            &&& last_frame(reports(log)) is None ==> t == job
            &&& (JobView { current_frame: job.current_frame, ..t }) == job
        }),
        job.after_segments(None) == job,
        job.is_upscale && job.segments_dir is Some && finished_count(segments) <= u64::MAX
            ==> job.after_segments(Some(segments)).completed_segments == finished_count(segments),
        (JobView {
            completed_segments: job.completed_segments,
            ..job.after_segments(Some(segments))
        }) == job,
        picture_count(frames) <= u64::MAX ==> job.after_frames(
            Some(frames),
            Some(upscaled),
        ).segment_frames == picture_count(frames),
        picture_count(upscaled) <= u64::MAX ==> job.after_frames(
            Some(frames),
            Some(upscaled),
        ).upscaled_frames == picture_count(upscaled),
        (JobView {
            segment_frames: job.segment_frames,
            upscaled_frames: job.upscaled_frames,
            ..job.after_frames(Some(frames), Some(upscaled))
        }) == job,
        job.after_frames(None, None).segment_frames == 0,
        job.after_frames(None, None).upscaled_frames == 0,
{
}

/// A job ends when its process has: it runs on exactly while the system says that it does, and
/// once it has ended it is done.
pub proof fn law_job_ends_with_its_process(job: JobView, child: ChildPoll)
    ensures
        job.running && child == ChildPoll::Running ==> job.after_poll(child) == job,
        child != ChildPoll::Running ==> !job.after_poll(child).running && job.after_poll(
            child,
        ).done,
        !job.running ==> job.after_poll(child).done,
        (JobView { running: job.running, done: job.done, ..job.after_poll(child) }) == job,
{
}

/// What ffprobe writes is read as it is written: the two parts of the frame rate from the first
/// line, the duration from the second.
pub proof fn law_probe_is_read(
    num: Seq<char>,
    den: Seq<char>,
    duration: Seq<char>,
    rest: Seq<char>,
)
    requires
        !num.contains('/') && !num.contains('\n'),
        !den.contains('/') && !den.contains('\n'),
        !duration.contains('\n'),
        den.len() > 0 ==> den.last() != '\r',
        duration.len() > 0 ==> duration.last() != '\r',
    ensures
        probe_fields(
            num + "/"@ + den + seq!['\n'] + duration + seq!['\n'] + rest,
        ) == (ProbeView { num, den: Some(den), duration: Some(duration) }),
{
    reveal_strlit("/");
    let first = num + "/"@ + den;
    let text = first + seq!['\n'] + duration + seq!['\n'] + rest;
    let tail = duration.push('\n') + rest;
    assert(text =~= first.push('\n') + tail);
    assert forall|i: int| 0 <= i < first.len() implies first[i] != '\n' by {
        if i < num.len() {
            assert(first[i] == num[i]);
        } else if i == num.len() {
            assert(first[i] == '/');
        } else {
            assert(first[i] == den[i - num.len() - 1]);
        }
    }
    assert(first.last() != '\r') by {
        if den.len() > 0 {
            assert(first.last() == den.last());
        } else {
            assert(first.last() == '/');
        }
    }
    law_first_line(first, tail);
    law_first_line(duration, rest);
    let l = lines(text);
    assert(l[0] == first);
    assert(l[1] == duration);
    assert(first =~= num.push('/') + den);
    law_split_undoes_join(num, den, '/');
    law_split_nothing(den, '/');
    let rate = split_on(first, '/');
    assert(rate[0] == num && rate[1] == den);
}

/// The clock of a job counts whole seconds from its start.
pub proof fn law_job_clock(job: JobView, secs: u64, nanos: u64)
    requires
        nanos < 1_000_000_000,
        job.started_at + secs * 1_000_000_000 + nanos <= u64::MAX,
    ensures
        job.elapsed_text((job.started_at + secs * 1_000_000_000 + nanos) as u64) == time_text(
            secs as nat,
        ),
{
    let start = job.started_at;
    let now = (start + secs * 1_000_000_000 + nanos) as u64;
    assert((now - start) / 1_000_000_000 == secs) by (nonlinear_arith)
        requires
            now == start + secs * 1_000_000_000 + nanos,
            nanos < 1_000_000_000,
    ;
}

/// A job that is made an upscale keeps what it was, and has its segments, its output and its
/// number of segments.
pub proof fn law_upscale_keeps_the_job(job: JobView, segments: Seq<u8>, output: Seq<u8>, total: u64)
    ensures
        ({
            let t = job.as_upscale(segments, output, total);
            &&& t.is_upscale
            &&& t.segments_dir == Some(segments)
            &&& t.output_path == Some(output)
            &&& t.total_segments == total
            &&& t.label == job.label
            &&& t.running == job.running
            &&& t.done == job.done
            &&& t.script_log == job.script_log
            &&& t.started_at == job.started_at
            &&& t.total_frames == job.total_frames
            &&& t.current_frame == job.current_frame
            &&& t.completed_segments == job.completed_segments
            &&& t.paused == job.paused
            &&& t.stop_after == job.stop_after
            &&& (JobView {
                is_upscale: job.is_upscale,
                segments_dir: job.segments_dir,
                frames_dir: job.frames_dir,
                frames_up_dir: job.frames_up_dir,
                output_path: job.output_path,
                total_segments: job.total_segments,
                ..t
            }) == job
        }),
{
}

/// A job begins with nothing done: it runs, it is no upscale, and all its counts are zero but the
/// number of its frames.
pub proof fn law_job_begins_with_nothing_done(
    label: Seq<char>,
    log_dir: Seq<u8>,
    log: Seq<u8>,
    total_frames: u64,
    now: u64,
)
    ensures
        ({
            let j = JobView::fresh(label, log_dir, log, total_frames, now);
            &&& j.running && !j.done && !j.is_upscale && !j.paused && !j.stop_sent
            &&& j.label == label
            &&& j.log_dir == log_dir
            &&& j.script_log == log
            &&& j.total_frames == total_frames
            &&& j.started_at == now
            &&& j.current_frame == 0 && j.completed_segments == 0 && j.total_segments == 0
            &&& j.segment_frames == 0 && j.upscaled_frames == 0
            &&& j.stop_after is None && j.output_path is None && j.segments_dir is None
        }),
{
}

/// Of what ffprobe did not write nothing is read: a rate without a slash has no second part, a
/// single line gives no duration, and no line at all stands for the rate `0/1`.
pub proof fn law_probe_with_parts_missing(rate: Seq<char>, end: bool)
    requires
        !rate.contains('/') && !rate.contains('\n'),
        rate.len() > 0 && rate.last() != '\r',
    ensures
        ({
            let text = if end {
                rate.push('\n')
            } else {
                rate
            };
            probe_fields(text) == (ProbeView { num: rate, den: None, duration: None })
        }),
        probe_fields(Seq::empty()) == (ProbeView {
            num: "0"@,
            den: Some("1"@),
            duration: None,
        }),
{
    let empty = Seq::<char>::empty();
    law_split_nothing(empty, '\n');
    law_split_nothing(rate, '\n');
    law_split_nothing(rate, '/');
    law_split_undoes_join(rate, empty, '\n');
    assert(rate.push('\n') + empty =~= rate.push('\n'));
    assert(lines(rate) =~= seq![rate]);
    assert(split_on(rate.push('\n'), '\n') =~= seq![rate, empty]);
    assert(lines(rate.push('\n')) =~= seq![rate]);
    assert(lines(empty).len() == 0);
    reveal_strlit("0/1");
    reveal_strlit("0");
    reveal_strlit("1");
    assert("0/1"@ =~= "0"@.push('/') + "1"@);
    law_split_undoes_join("0"@, "1"@, '/');
    law_split_nothing("1"@, '/');
}

/// A job is interrupted once, and only where a stop was asked for, the job still runs, and more
/// segments are finished than were at that moment.
pub proof fn law_stop_is_sent_once(job: JobView)
    ensures
        job.stop_due() <==> job.running && !job.stop_sent && job.stop_after is Some
            && job.completed_segments > job.stop_after->0,
        job.stop_due() ==> job.after_stop().stop_sent,
        !job.stop_due() ==> job.after_stop() == job,
        !job.after_stop().stop_due(),
        (JobView { stop_sent: job.stop_sent, ..job.after_stop() }) == job,
{
}

} // verus!
