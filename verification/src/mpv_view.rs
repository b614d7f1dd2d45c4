//! What the video view plays, and what it writes over the picture.
use vstd::prelude::*;
use vstd::string::StringExecFns;
use vstd::utf8::encode_utf8;

use crate::number::{decimal, decimal_text, two_digits, two_digits_text};
use crate::path::{law_text_reads_back, path_text, FilePath};
use crate::text::{law_spaces_part_words, law_word_of_solid, solid, words};

verus! {

/// What a view can play.
pub enum Source {
    File(FilePath),
    /// A video device, by its path.
    V4l2(String),
    Udp(String),
}

/// What a `Source` holds.
#[verifier::ext_equal]
pub enum SourceView {
    File(Seq<u8>),
    V4l2(Seq<char>),
    Udp(Seq<char>),
}

impl View for Source {
    type V = SourceView;

    open spec fn view(&self) -> SourceView {
        match self {
            Source::File(p) => SourceView::File(p@),
            Source::V4l2(d) => SourceView::V4l2(d@),
            Source::Udp(u) => SourceView::Udp(u@),
        }
    }
}

impl SourceView {
    /// Whether the source is a live picture rather than a file.
    pub open spec fn live(self) -> bool {
        !(self is File)
    }

    /// The address under which mpv opens the source.
    pub open spec fn url(self) -> Seq<char> {
        match self {
            SourceView::File(p) => path_text(p),
            SourceView::V4l2(d) => "av://v4l2:"@ + d,
            SourceView::Udp(u) => u,
        }
    }
}

impl Clone for Source {
    fn clone(&self) -> (r: Self)
        ensures
            r@ == self@,
    {
        match self {
            Source::File(p) => Source::File(p.clone()),
            Source::V4l2(d) => Source::V4l2(d.clone()),
            Source::Udp(u) => Source::Udp(u.clone()),
        }
    }
}

impl Source {
    pub fn to_mpv_url(&self) -> (r: String)
        ensures
            r@ == self@.url(),
    {
        match self {
            Source::File(p) => p.lossy_text(),
            Source::V4l2(dev) => {
                let mut url = "av://v4l2:".to_owned();
                url.append(dev.as_str());
                url
            },
            Source::Udp(url) => url.clone(),
        }
    }

    pub fn is_live(&self) -> (r: bool)
        ensures
            r == self@.live(),
    {
        match self {
            Source::File(_) => false,
            Source::V4l2(_) => true,
            Source::Udp(_) => true,
        }
    }
}

/// The value of an mpv property.
#[derive(Clone, Copy)]
pub enum PropertyValue {
    Flag(bool),
    Int(i64),
    Text(&'static str),
}

/// How mpv is set up for a source, before it is told to load it.
pub open spec fn source_properties(src: SourceView) -> Seq<(&'static str, PropertyValue)> {
    let untimed = src is V4l2;
    let threads: i64 = if src is V4l2 {
        1
    } else {
        0
    };
    if src.live() {
        seq![
            ("untimed", PropertyValue::Flag(untimed)),
            ("vd-lavc-threads", PropertyValue::Int(threads)),
            ("demuxer-max-bytes", PropertyValue::Text("200KiB")),
            ("demuxer-max-back-bytes", PropertyValue::Text("0")),
            ("cache-pause", PropertyValue::Flag(false)),
            ("framedrop", PropertyValue::Text("vo")),
            ("demuxer-lavf-o", PropertyValue::Text("fflags=nobuffer")),
        ]
    } else {
        seq![
            ("untimed", PropertyValue::Flag(untimed)),
            ("vd-lavc-threads", PropertyValue::Int(threads)),
            ("demuxer-max-bytes", PropertyValue::Text("150MiB")),
            ("demuxer-max-back-bytes", PropertyValue::Text("150MiB")),
            ("cache-pause", PropertyValue::Flag(true)),
            ("framedrop", PropertyValue::Text("vo")),
            ("demuxer-lavf-o", PropertyValue::Text("")),
        ]
    }
}

/// The properties to set for `src`, in order. A raw V4L2 device plays untimed, which keeps its
/// unclocked input from stuttering; a UDP preview has proper timestamps and plays timed.
pub fn properties_for(src: &Source) -> (r: Vec<(&'static str, PropertyValue)>)
    ensures
        r@ == source_properties(src@),
{
    let (untimed, threads): (bool, i64) = match src {
        Source::V4l2(_) => (true, 1),
        _ => (false, 0),
    };
    if src.is_live() {
        vec![
            ("untimed", PropertyValue::Flag(untimed)),
            ("vd-lavc-threads", PropertyValue::Int(threads)),
            ("demuxer-max-bytes", PropertyValue::Text("200KiB")),
            ("demuxer-max-back-bytes", PropertyValue::Text("0")),
            ("cache-pause", PropertyValue::Flag(false)),
            ("framedrop", PropertyValue::Text("vo")),
            ("demuxer-lavf-o", PropertyValue::Text("fflags=nobuffer")),
        ]
    } else {
        vec![
            ("untimed", PropertyValue::Flag(untimed)),
            ("vd-lavc-threads", PropertyValue::Int(threads)),
            ("demuxer-max-bytes", PropertyValue::Text("150MiB")),
            ("demuxer-max-back-bytes", PropertyValue::Text("150MiB")),
            ("cache-pause", PropertyValue::Flag(true)),
            ("framedrop", PropertyValue::Text("vo")),
            ("demuxer-lavf-o", PropertyValue::Text("")),
        ]
    }
}

/// What a view plays at the moment.
pub struct MpvView {
    pub current_source: Option<Source>,
}

impl View for MpvView {
    type V = Option<SourceView>;

    open spec fn view(&self) -> Option<SourceView> {
        match self.current_source {
            Some(s) => Some(s@),
            None => None,
        }
    }
}

/// Whether a file is open: only a file can be paused, and only a file has a clock.
pub open spec fn plays_file(playing: Option<SourceView>) -> bool {
    playing matches Some(s) && !s.live()
}

/// What is written over the picture of a file: the time played and, where the duration is
/// known, the time that remains.
pub open spec fn clock_text(played: nat, remaining: Option<u64>) -> Seq<char> {
    match remaining {
        Some(left) => time_text(played) + "  /  -"@ + time_text(left as nat),
        None => time_text(played),
    }
}

impl MpvView {
    pub fn new() -> (r: Self)
        ensures
            r@ is None,
    {
        MpvView { current_source: None }
    }

    /// Note that `src` is loaded. Returns its address and the properties that mpv has to be
    /// given before it loads it.
    pub fn open(&mut self, src: &Source) -> (r: (Vec<(&'static str, PropertyValue)>, String))
        ensures
            final(self)@ == Some(src@),
            r.0@ == source_properties(src@),
            r.1@ == src@.url(),
    {
        let url = src.to_mpv_url();
        let properties = properties_for(src);
        self.current_source = Some(src.clone());
        (properties, url)
    }

    /// Note that playback was stopped.
    pub fn stop(&mut self)
        ensures
            final(self)@ is None,
    {
        self.current_source = None;
    }

    /// Whether a click on the picture pauses or resumes playback.
    pub fn click_toggles_pause(&self) -> (r: bool)
        ensures
            r == plays_file(self@),
    {
        match &self.current_source {
            Some(s) => !s.is_live(),
            None => false,
        }
    }

    /// What is written over the picture: the clock, where a file is open and mpv plays it, and
    /// whether the pause sign stands on the picture. `played` and `remaining` are in seconds;
    /// `remaining` is given where mpv has reported a duration.
    pub fn overlay(&self, idle: bool, paused: bool, played: u64, remaining: Option<u64>) -> (r: (
        Option<String>,
        bool,
    ))
        ensures
            match r.0 {
                Some(t) => plays_file(self@) && !idle && t@ == clock_text(played as nat, remaining),
                None => !plays_file(self@) || idle,
            },
            r.1 == (plays_file(self@) && !idle && paused),
    {
        if self.click_toggles_pause() && !idle {
            let mut osd = fmt_time(played);
            if let Some(left) = remaining {
                osd.append("  /  -");
                osd.append(fmt_time(left).as_str());
            }
            (Some(osd), paused)
        } else {
            (None, false)
        }
    }
}

/// What is written over the picture during a capture.
pub fn capture_osd_text(elapsed: &str) -> (r: String)
    ensures
        r@ == "\u{25CF} REC  "@ + elapsed@,
{
    let mut label = "\u{25CF} REC  ".to_owned();
    label.append(elapsed);
    label
}

/// A time in seconds as hours, minutes and seconds, without the hours where there are none.
pub open spec fn time_text(secs: nat) -> Seq<char> {
    if secs >= 3600 {
        decimal(secs / 3600) + ":"@ + two_digits((secs % 3600) / 60) + ":"@ + two_digits(secs % 60)
    } else {
        decimal(secs / 60) + ":"@ + two_digits(secs % 60)
    }
}

pub fn fmt_time(secs: u64) -> (r: String)
    ensures
        r@ == time_text(secs as nat),
{
    let h: u64 = secs / 3600;
    let m: u64 = (secs % 3600) / 60;
    let s: u64 = secs % 60;
    if h > 0 {
        let mut t = decimal_text(h);
        t.append(":");
        t.append(two_digits_text(m).as_str());
        t.append(":");
        t.append(two_digits_text(s).as_str());
        t
    } else {
        let mut t = decimal_text(m);
        t.append(":");
        t.append(two_digits_text(s).as_str());
        t
    }
}

// ---------------------------------------------------------------------------
// Laws
// ---------------------------------------------------------------------------
/// A live picture is never paused: for it mpv does not wait for its cache, and a click on it
/// does nothing.
pub proof fn law_live_never_pauses(src: SourceView)
    requires
        src.live(),
    ensures
        source_properties(src)[4] == ("cache-pause", PropertyValue::Flag(false)),
        !plays_file(Some(src)),
{
}

/// Whatever was open before, opening a source sets the same seven properties, in the same
/// order, so nothing of an earlier source's set-up is left.
pub proof fn law_every_source_sets_the_same(a: SourceView, b: SourceView)
    ensures
        source_properties(a).len() == 7,
        source_properties(b).len() == 7,
        forall|i: int|
            0 <= i < 7 ==> (#[trigger] source_properties(a)[i]).0 == source_properties(b)[i].0,
{
    let p = source_properties(a);
    let q = source_properties(b);
    assert forall|i: int| 0 <= i < 7 implies (#[trigger] p[i]).0 == q[i].0 by {
        assert(i == 0 || i == 1 || i == 2 || i == 3 || i == 4 || i == 5 || i == 6);
    }
}

/// The address says what is to be played: a file by its path, a device behind the scheme for
/// devices, a stream by its own address.
pub proof fn law_addresses(path: Seq<u8>, text: Seq<char>)
    ensures
        SourceView::File(path).url() == path_text(path),
        SourceView::File(encode_utf8(text)).url() == text,
        SourceView::V4l2(text).url() == "av://v4l2:"@ + text,
        SourceView::Udp(text).url() == text,
        SourceView::V4l2(text).live(),
        SourceView::Udp(text).live(),
        !SourceView::File(path).live(),
{
    law_text_reads_back(text);
}

/// How mpv is set up depends on what sort of source it plays, not on which: two files are set up
/// alike, and so are two devices and two streams. Only a device plays untimed and with one thread;
/// only a file may fill a cache and wait for it.
pub proof fn law_set_up_by_sort(a: SourceView, b: SourceView)
    requires
        a is File <==> b is File,
        a is V4l2 <==> b is V4l2,
    ensures
        source_properties(a) == source_properties(b),
        source_properties(a)[0] == ("untimed", PropertyValue::Flag(a is V4l2)),
        a is V4l2 ==> source_properties(a)[1] == ("vd-lavc-threads", PropertyValue::Int(1)),
        !(a is V4l2) ==> source_properties(a)[1] == ("vd-lavc-threads", PropertyValue::Int(0)),
        source_properties(a)[4] == ("cache-pause", PropertyValue::Flag(a is File)),
        source_properties(a)[5] == ("framedrop", PropertyValue::Text("vo")),
        a is File ==> source_properties(a)[3] == (
            "demuxer-max-back-bytes",
            PropertyValue::Text("150MiB"),
        ) && source_properties(a)[6] == ("demuxer-lavf-o", PropertyValue::Text("")),
        !(a is File) ==> source_properties(a)[3] == (
            "demuxer-max-back-bytes",
            PropertyValue::Text("0"),
        ) && source_properties(a)[6] == ("demuxer-lavf-o", PropertyValue::Text("fflags=nobuffer")),
        a is File ==> source_properties(a)[2] == (
            "demuxer-max-bytes",
            PropertyValue::Text("150MiB"),
        ),
        !(a is File) ==> source_properties(a)[2] == (
            "demuxer-max-bytes",
            PropertyValue::Text("200KiB"),
        ),
{
}

/// A time is written with as many hours, minutes and seconds as it has: minutes and seconds of two
/// digits behind a colon, and no hours where there are none.
pub proof fn law_time_text(h: nat, m: nat, s: nat)
    requires
        m < 60,
        s < 60,
    ensures
        h > 0 ==> time_text(h * 3600 + m * 60 + s) == decimal(h) + ":"@ + two_digits(m) + ":"@
            + two_digits(s),
        time_text(m * 60 + s) == decimal(m) + ":"@ + two_digits(s),
{
    let n = h * 3600 + m * 60 + s;
    assert(n / 3600 == h && n % 3600 == m * 60 + s && n % 60 == s && (n % 3600) / 60 == m)
        by (nonlinear_arith)
        requires
            n == h * 3600 + m * 60 + s,
            m < 60,
            s < 60,
    ;
}

/// The clock over a file is the time played and, where the duration is known, a slash and the time
/// that remains with a minus sign.
pub proof fn law_clock(played: nat, left: u64)
    ensures
        words(clock_text(played, None)) == words(time_text(played)),
        words(clock_text(played, Some(left))) == words(time_text(played)) + seq!["/"@] + words(
            "-"@ + time_text(left as nat),
        ),
{
    reveal_strlit("  /  -");
    reveal_strlit("  ");
    reveal_strlit("/");
    reveal_strlit("-");
    let p = time_text(played);
    let l = "-"@ + time_text(left as nat);
    let c = clock_text(played, Some(left));
    assert(c =~= p + "  "@ + "/"@ + "  "@ + l);
    law_spaces_part_words(p + "  "@ + "/"@, l);
    law_spaces_part_words(p, "/"@);
    assert(solid("/"@));
    law_word_of_solid("/"@);
    assert(words(c) =~= words(p) + seq!["/"@] + words(l));
}

} // verus!
