//! The monitor view: watching the live signal, and capturing it.
//!
//! The clock readings are nanoseconds: of the monotonic clock where they are `u64`, since the
//! epoch where they are `i128`.
use vstd::prelude::*;
use vstd::string::StringExecFns;

use crate::capture::{
    capture_launch, elapsed_nanos, hms_text, law_capture_gets_its_cap, nanos_since, pgid_of,
    read_view, CaptureController, CaptureView, StopTimer, NANOS_PER_SEC,
};
use crate::config::{under, Config};
use crate::launch::{Launch, LaunchView};
use crate::mpv_view::{Source, SourceView};
use crate::number::{
    decimal, decimal_text, digit, is_digit, law_decimal_spells, law_parse_undoes_decimal, parse_u64,
    two_digits, two_digits_text, u64_of,
};
use crate::persist::opt_text;
use crate::settings::sets;
use crate::text::{
    all_white, is_white, law_spaces_part_words, law_split_nothing, law_split_undoes_join,
    law_trim_undoes_padding, law_word_of_solid, solid, split_on, split_text, texts, trim, trim_end,
    trim_start, trimmed, words,
};
use crate::v4l2::{
    at_default, cid_table, clamped, from_table, in_range, move_msgs, moved, numbered, set_msg,
    CtrlMsg, V4l2Control, V4l2Controls, CONTROL_COUNT,
};

verus! {

/// How long mpv may take to release the device before the capture is started anyway.
pub const RELEASE_TIMEOUT_NANOS: u64 = 1_000_000_000;

/// How long the preview has to have been idle before it is opened again.
pub const REOPEN_NANOS: u64 = 2_000_000_000;

// ---------------------------------------------------------------------------
// Durations
// ---------------------------------------------------------------------------
/// The seconds that a text `HH:MM:SS`, `MM:SS` or `SS` stands for.
pub open spec fn duration_value(s: Seq<char>) -> Option<nat> {
    let p = split_on(trim(s), ':');
    if p.len() == 3 {
        match (parse_u64(p[0]), parse_u64(p[1]), parse_u64(p[2])) {
            (Some(h), Some(m), Some(sec)) => Some((h * 3600 + m * 60 + sec) as nat),
            _ => None,
        }
    } else if p.len() == 2 {
        match (parse_u64(p[0]), parse_u64(p[1])) {
            (Some(m), Some(sec)) => Some((m * 60 + sec) as nat),
            _ => None,
        }
    } else if p.len() == 1 {
        match parse_u64(p[0]) {
            Some(sec) => Some(sec as nat),
            None => None,
        }
    } else {
        None
    }
}

/// What a text says as a duration.
#[derive(Clone, Copy, Debug, PartialEq, Eq, Structural)]
pub enum DurationText {
    /// It is no duration.
    Invalid,
    /// It is a duration of more seconds than 64 bits can count.
    TooLong,
    Secs(u64),
}

/// What `s` says as a duration.
pub fn read_duration(s: &str) -> (r: DurationText)
    ensures
        match duration_value(s@) {
            Some(n) => if n <= u64::MAX {
                r == DurationText::Secs(n as u64)
            } else {
                r == DurationText::TooLong
            },
            None => r == DurationText::Invalid,
        },
{
    let text = trimmed(s);
    let parts = split_text(text.as_str(), ':');
    let ghost p = texts(parts@);
    assert(p.len() == parts@.len());
    assert forall|i: int| 0 <= i < p.len() implies p[i] == #[trigger] parts@[i]@ by {}
    let total: u128 = if parts.len() == 3 {
        match (u64_of(parts[0].as_str()), u64_of(parts[1].as_str()), u64_of(parts[2].as_str())) {
            (Some(h), Some(m), Some(sec)) => (h as u128) * 3600 + (m as u128) * 60 + (sec as u128),
            _ => {
                return DurationText::Invalid;
            },
        }
    } else if parts.len() == 2 {
        match (u64_of(parts[0].as_str()), u64_of(parts[1].as_str())) {
            (Some(m), Some(sec)) => (m as u128) * 60 + (sec as u128),
            _ => {
                return DurationText::Invalid;
            },
        }
    } else if parts.len() == 1 {
        match u64_of(parts[0].as_str()) {
            Some(sec) => sec as u128,
            None => {
                return DurationText::Invalid;
            },
        }
    } else {
        return DurationText::Invalid;
    };
    if total <= u64::MAX as u128 {
        DurationText::Secs(total as u64)
    } else {
        DurationText::TooLong
    }
}

/// The seconds that `s` stands for, where it is a duration.
pub fn parse_duration_secs(s: &str) -> (r: Option<u64>)
    requires
        duration_value(s@) matches Some(n) ==> n <= u64::MAX,
    ensures
        match r {
            Some(n) => duration_value(s@) == Some(n as nat),
            None => duration_value(s@) is None,
        },
{
    match read_duration(s) {
        DurationText::Secs(n) => Some(n),
        _ => None,
    }
}

/// A number of seconds in words: hours and minutes only where there are any.
pub open spec fn secs_text(secs: nat) -> Seq<char> {
    let h = secs / 3600;
    let m = (secs % 3600) / 60;
    let s = secs % 60;
    if h > 0 {
        decimal(h) + "h "@ + two_digits(m) + "m "@ + two_digits(s) + "s"@
    } else if m > 0 {
        decimal(m) + "m "@ + two_digits(s) + "s"@
    } else {
        decimal(s) + "s"@
    }
}

pub fn fmt_secs(secs: u64) -> (r: String)
    ensures
        r@ == secs_text(secs as nat),
{
    let h: u64 = secs / 3600;
    let m: u64 = (secs % 3600) / 60;
    let s: u64 = secs % 60;
    if h > 0 {
        let mut t = decimal_text(h);
        t.append("h ");
        t.append(two_digits_text(m).as_str());
        t.append("m ");
        t.append(two_digits_text(s).as_str());
        t.append("s");
        t
    } else if m > 0 {
        let mut t = decimal_text(m);
        t.append("m ");
        t.append(two_digits_text(s).as_str());
        t.append("s");
        t
    } else {
        let mut t = decimal_text(s);
        t.append("s");
        t
    }
}

// ---------------------------------------------------------------------------
// What the view asks for
// ---------------------------------------------------------------------------
/// What the player has to do.
pub enum PlayerAction {
    /// Go on as it does.
    Keep,
    Open(Source),
    Stop,
}

/// What a `PlayerAction` holds.
#[verifier::ext_equal]
pub enum PlayerView {
    Keep,
    Open(SourceView),
    Stop,
}

impl View for PlayerAction {
    type V = PlayerView;

    open spec fn view(&self) -> PlayerView {
        match self {
            PlayerAction::Keep => PlayerView::Keep,
            PlayerAction::Open(s) => PlayerView::Open(s@),
            PlayerAction::Stop => PlayerView::Stop,
        }
    }
}

/// What has to be done after an event, in the order of the fields.
pub struct Effect {
    pub player: PlayerAction,
    /// Cancel the stop timer that runs, if one does.
    pub cancel_timer: bool,
    /// Start the capture script, and report how that went.
    pub launch: Option<Launch>,
    /// Run this stop timer.
    pub timer: Option<StopTimer>,
    /// Interrupt this process group.
    pub interrupt: Option<i32>,
    /// Show this in the status line.
    pub status: Option<String>,
    /// List the library again.
    pub refresh: bool,
}

/// What an `Effect` holds.
#[verifier::ext_equal]
pub struct EffectView {
    pub player: PlayerView,
    pub cancel_timer: bool,
    pub launch: Option<LaunchView>,
    pub timer: Option<StopTimer>,
    pub interrupt: Option<i32>,
    pub status: Option<Seq<char>>,
    pub refresh: bool,
}

impl View for Effect {
    type V = EffectView;

    open spec fn view(&self) -> EffectView {
        EffectView {
            player: self.player@,
            cancel_timer: self.cancel_timer,
            launch: match self.launch {
                Some(l) => Some(l@),
                None => None,
            },
            timer: self.timer,
            interrupt: self.interrupt,
            status: opt_text(self.status),
            refresh: self.refresh,
        }
    }
}

impl EffectView {
    /// Nothing is to be done.
    pub open spec fn nothing() -> EffectView {
        EffectView {
            player: PlayerView::Keep,
            cancel_timer: false,
            launch: None,
            timer: None,
            interrupt: None,
            status: None,
            refresh: false,
        }
    }

    /// Only the status line changes.
    pub open spec fn says(status: Seq<char>) -> EffectView {
        EffectView { status: Some(status), ..EffectView::nothing() }
    }
}

impl Effect {
    fn nothing() -> (r: Self)
        ensures
            r@ == EffectView::nothing(),
    {
        Effect {
            player: PlayerAction::Keep,
            cancel_timer: false,
            launch: None,
            timer: None,
            interrupt: None,
            status: None,
            refresh: false,
        }
    }

    fn says(status: &str) -> (r: Self)
        ensures
            r@ == EffectView::says(status@),
    {
        let mut e = Effect::nothing();
        e.status = Some(status.to_owned());
        e
    }
}

// ---------------------------------------------------------------------------
// The view's state
// ---------------------------------------------------------------------------
#[derive(Clone, Copy, Debug, PartialEq, Eq, Structural)]
pub enum CaptureState {
    Idle,
    /// This program owns the device, for the live monitor.
    Monitoring,
    /// Waiting for mpv to release the device before the capture is started.
    Releasing,
    /// The capture script runs.
    Capturing,
}

/// The buttons of the toolbar.
#[derive(Clone, Copy, Debug, PartialEq, Eq, Structural)]
pub enum MonitorButton {
    Monitor,
    StartCapture,
    StopMonitor,
    StopCapture,
}

/// The buttons that the toolbar offers in a state.
pub open spec fn offered(state: CaptureState) -> Seq<MonitorButton> {
    match state {
        CaptureState::Idle => seq![MonitorButton::Monitor, MonitorButton::StartCapture],
        CaptureState::Monitoring => seq![MonitorButton::StartCapture, MonitorButton::StopMonitor],
        CaptureState::Releasing => Seq::empty(),
        CaptureState::Capturing => seq![MonitorButton::StopCapture],
    }
}

impl CaptureState {
    /// The buttons that the toolbar offers.
    pub fn buttons(&self) -> (r: Vec<MonitorButton>)
        ensures
            r@ == offered(*self),
    {
        match self {
            CaptureState::Idle => vec![MonitorButton::Monitor, MonitorButton::StartCapture],
            CaptureState::Monitoring => {
                vec![MonitorButton::StartCapture, MonitorButton::StopMonitor]
            },
            CaptureState::Releasing => Vec::new(),
            CaptureState::Capturing => vec![MonitorButton::StopCapture],
        }
    }
}

pub struct MonitorPanel {
    pub capture: CaptureController,
    pub state: CaptureState,
    pub releasing_at: Option<u64>,
    /// True once the preview stream has been opened in mpv.
    pub preview_opened: bool,
    pub capture_last_reopen_at: Option<u64>,
    /// Editable "Cap:" max-duration field (shared with the capture script's environment).
    pub max_duration: String,
    /// Editable field for the mid-capture stop timer.
    pub capture_stop_input: String,
    /// Deadline for the countdown display, by the monotonic clock; the stop timer is
    /// authoritative.
    pub capture_stop_at: Option<u128>,
    /// Hardware controls (brightness, contrast, saturation, hue, gamma).
    pub v4l2: V4l2Controls,
    /// Whether the "Input" settings side panel is open.
    pub input_panel_open: bool,
}

/// What a `MonitorPanel` holds.
#[verifier::ext_equal]
pub struct MonitorView {
    pub capture: CaptureView,
    pub state: CaptureState,
    pub releasing_at: Option<u64>,
    pub preview_opened: bool,
    pub last_reopen_at: Option<u64>,
    pub max_duration: Seq<char>,
    pub stop_input: Seq<char>,
    pub stop_at: Option<u128>,
    pub ctrls: Seq<V4l2Control>,
    pub input_panel_open: bool,
}

impl View for MonitorPanel {
    type V = MonitorView;

    open spec fn view(&self) -> MonitorView {
        MonitorView {
            capture: self.capture@,
            state: self.state,
            releasing_at: self.releasing_at,
            preview_opened: self.preview_opened,
            last_reopen_at: self.capture_last_reopen_at,
            max_duration: self.max_duration@,
            stop_input: self.capture_stop_input@,
            stop_at: self.capture_stop_at,
            ctrls: self.v4l2.ctrls@,
            input_panel_open: self.input_panel_open,
        }
    }
}

/// Where the capture script sends its preview.
pub open spec fn preview_source() -> SourceView {
    SourceView::Udp("udp://127.0.0.1:23000?pkt_size=1316"@)
}

impl MonitorView {
    /// What holds at all times: the preview is open, and a countdown runs, only during a
    /// capture; the time of the release is known exactly while the device is released.
    pub open spec fn consistent(self) -> bool {
        &&& self.capture.consistent()
        &&& self.preview_opened ==> self.state == CaptureState::Capturing
        &&& self.stop_at is Some ==> self.state == CaptureState::Capturing
        &&& self.releasing_at is Some <==> self.state == CaptureState::Releasing
        &&& self.state == CaptureState::Capturing ==> self.last_reopen_at is Some
    }

    /// No stop timer is armed.
    pub open spec fn timer_cancelled(self) -> MonitorView {
        MonitorView { capture: CaptureView { stop_timer: None, ..self.capture }, ..self }
    }

    /// The capture is over.
    pub open spec fn idle_again(self) -> MonitorView {
        MonitorView {
            preview_opened: false,
            last_reopen_at: None,
            stop_at: None,
            stop_input: Seq::empty(),
            state: CaptureState::Idle,
            ..self
        }
    }

    /// The capture script could not be started.
    pub open spec fn start_failed(self) -> MonitorView {
        MonitorView { state: CaptureState::Idle, releasing_at: None, ..self }
    }

    /// The capture script was started.
    pub open spec fn start_done(self, now: u64, now_sys: i128) -> MonitorView {
        MonitorView {
            capture: self.capture.after_start(now, now_sys),
            state: CaptureState::Capturing,
            releasing_at: None,
            preview_opened: false,
            last_reopen_at: Some(now),
            stop_at: None,
            stop_input: self.max_duration,
            ..self
        }
    }

    /// The capture is to be started: the next state, and what has to be done.
    pub open spec fn starting(self, script: Seq<u8>) -> (MonitorView, EffectView) {
        if self.capture.running {
            (
                self.timer_cancelled().start_failed(),
                EffectView {
                    cancel_timer: true,
                    ..EffectView::says(
                        "Capture failed to start: "@ + "capture already running"@,
                    )
                },
            )
        } else {
            (
                self.timer_cancelled(),
                EffectView {
                    cancel_timer: true,
                    launch: Some(capture_launch(script, self.max_duration)),
                    ..EffectView::nothing()
                },
            )
        }
    }

    /// The capture is to be stopped by the user.
    pub open spec fn stopping(self, pgid: Option<i32>, status: Seq<char>) -> (
        MonitorView,
        EffectView,
    ) {
        (
            self.timer_cancelled().idle_again(),
            EffectView {
                cancel_timer: true,
                interrupt: pgid,
                refresh: true,
                ..EffectView::says(status)
            },
        )
    }

    /// A button of the toolbar was clicked: the next state, and what has to be done. A button
    /// that the toolbar does not offer does nothing. `pgid` is what the group file names.
    pub open spec fn pressed(
        self,
        button: MonitorButton,
        device: Seq<char>,
        script: Seq<u8>,
        now: u64,
        pgid: Option<i32>,
    ) -> (MonitorView, EffectView) {
        match (self.state, button) {
            (CaptureState::Idle, MonitorButton::Monitor) => (
                MonitorView { state: CaptureState::Monitoring, ..self },
                EffectView {
                    player: PlayerView::Open(SourceView::V4l2(device)),
                    ..EffectView::says("Monitoring live signal"@)
                },
            ),
            (CaptureState::Idle, MonitorButton::StartCapture) => self.starting(script),
            (CaptureState::Monitoring, MonitorButton::StartCapture) => (
                MonitorView {
                    state: CaptureState::Releasing,
                    releasing_at: Some(now),
                    ..self
                },
                EffectView { player: PlayerView::Stop, ..EffectView::says("Releasing device…"@) },
            ),
            (CaptureState::Monitoring, MonitorButton::StopMonitor) => (
                MonitorView { state: CaptureState::Idle, ..self },
                EffectView { player: PlayerView::Stop, ..EffectView::says("Idle"@) },
            ),
            (CaptureState::Capturing, MonitorButton::StopCapture) => self.stopping(
                pgid,
                "Capture stopped"@,
            ),
            _ => (self, EffectView::nothing()),
        }
    }

    /// The user asked for the capture to stop after `secs` seconds.
    pub open spec fn stop_set(self, secs: u64, now: u64, now_sys: i128, pgid: Option<i32>) -> (
        MonitorView,
        EffectView,
    ) {
        if self.state != CaptureState::Capturing {
            (self, EffectView::nothing())
        } else {
            let timer = match pgid {
                Some(p) => Some(
                    StopTimer { pgid: p, deadline: (now_sys + secs * NANOS_PER_SEC) as i128 },
                ),
                None => None,
            };
            (
                MonitorView {
                    capture: CaptureView { stop_timer: timer, ..self.capture },
                    stop_at: Some((now + secs * NANOS_PER_SEC) as u128),
                    ..self
                },
                EffectView {
                    cancel_timer: true,
                    timer,
                    ..EffectView::says("Stopping in "@ + secs_text(secs as nat))
                },
            )
        }
    }

    /// The seconds of the countdown that remain.
    pub open spec fn countdown(self, now: u64) -> Option<u64> {
        match self.stop_at {
            Some(d) => {
                let left = if d > now {
                    (d - now) / NANOS_PER_SEC as int
                } else {
                    0
                };
                Some(
                    if left <= u64::MAX {
                        left as u64
                    } else {
                        u64::MAX
                    },
                )
            },
            None => None,
        }
    }

    /// What the toolbar says of a capture's progress.
    pub open spec fn progress_text(self, now: u64) -> Seq<char> {
        "  "@ + self.capture.elapsed_text(now) + "  frame "@ + decimal(
            self.capture.stats.frame as nat,
        ) + "  "@ + self.capture.stats.time + "  "@ + self.capture.stats.bitrate
    }

    /// Whether the device has been waited for long enough.
    pub open spec fn release_over(self, mpv_idle: bool, now: u64) -> bool {
        &&& self.state == CaptureState::Releasing
        &&& mpv_idle || match self.releasing_at {
            Some(t) => nanos_since(t, now) > RELEASE_TIMEOUT_NANOS,
            None => true,
        }
    }

    /// Whether the countdown has run out.
    pub open spec fn stop_due(self, now: u64) -> bool {
        &&& self.state == CaptureState::Capturing
        &&& self.stop_at matches Some(d) && now >= d
    }

    /// Whether the preview is to be opened for the first time.
    pub open spec fn preview_starts(self) -> bool {
        !self.preview_opened && self.capture.running
    }

    /// Whether the preview is to be opened again: mpv went idle before the script sent anything.
    pub open spec fn preview_restarts(self, mpv_idle: bool, now: u64) -> bool {
        &&& self.preview_opened
        &&& mpv_idle
        &&& self.capture.running
        &&& match self.last_reopen_at {
            Some(t) => nanos_since(t, now) > REOPEN_NANOS,
            None => true,
        }
    }

    /// One look at a capture: the next state, and what has to be done. `pgid` is what the group
    /// file names.
    pub open spec fn capturing(self, mpv_idle: bool, now: u64, pgid: Option<i32>) -> (
        MonitorView,
        EffectView,
    ) {
        if self.state != CaptureState::Capturing {
            (self, EffectView::nothing())
        } else {
            let starts = self.preview_starts();
            let opens = starts || self.preview_restarts(mpv_idle, now);
            let previewing = MonitorView {
                preview_opened: self.preview_opened || starts,
                last_reopen_at: if opens {
                    Some(now)
                } else {
                    self.last_reopen_at
                },
                ..self
            };
            let player = if opens {
                PlayerView::Open(preview_source())
            } else {
                PlayerView::Keep
            };
            if previewing.stop_due(now) {
                let (next, effect) = previewing.stopping(pgid, "Capture stopped (timer)"@);
                (next, EffectView { player, ..effect })
            } else if !self.capture.running {
                (
                    previewing.idle_again(),
                    EffectView { player, refresh: true, ..EffectView::says("Capture ended"@) },
                )
            } else {
                (
                    previewing,
                    EffectView {
                        player,
                        status: if starts {
                            Some("Capturing… (previewing)"@)
                        } else {
                            None
                        },
                        ..EffectView::nothing()
                    },
                )
            }
        }
    }
}

/// The controls after all of the table went back to their defaults.
pub open spec fn all_default(ctrls: Seq<V4l2Control>) -> Seq<V4l2Control> {
    Seq::new(
        ctrls.len(),
        |i: int|
            if i < CONTROL_COUNT {
                at_default(ctrls[i])
            } else {
                ctrls[i]
            },
    )
}

/// The requests that bring all controls of the table back to their defaults.
pub open spec fn default_msgs(ctrls: Seq<V4l2Control>) -> Seq<CtrlMsg> {
    Seq::new(numbered(ctrls) as nat, |i: int| set_msg(all_default(ctrls), i))
}

impl MonitorPanel {
    /// The view of a program that has just started. `readings` is what the device said of its
    /// controls.
    pub fn new(cfg: &Config, readings: &Vec<Option<i32>>) -> (r: Self)
        ensures
            r@ == (MonitorView {
                capture: CaptureView::fresh(
                    under(cfg.log_path(), "capture.pgid"@),
                    cfg.archival_path(),
                ),
                state: CaptureState::Idle,
                releasing_at: None,
                preview_opened: false,
                last_reopen_at: None,
                max_duration: cfg.max_capture_duration@,
                stop_input: Seq::empty(),
                stop_at: None,
                ctrls: r.v4l2.ctrls@,
                input_panel_open: true,
            }),
            from_table(r.v4l2.ctrls@),
            r.v4l2.wf(),
            forall|i: int|
                0 <= i < CONTROL_COUNT ==> in_range(#[trigger] r.v4l2.ctrls@[i])
                    && r.v4l2.ctrls@[i].value == (if i < readings@.len() && readings@[i] is Some {
                    clamped(readings@[i]->0, r.v4l2.ctrls@[i].min, r.v4l2.ctrls@[i].max)
                } else {
                    r.v4l2.ctrls@[i].default
                }),
            r@.consistent(),
    {
        MonitorPanel {
            capture: CaptureController::new(cfg.capture_pgid_file(), cfg.archival_dir()),
            state: CaptureState::Idle,
            releasing_at: None,
            preview_opened: false,
            capture_last_reopen_at: None,
            max_duration: cfg.max_capture_duration.clone(),
            capture_stop_input: String::new(),
            capture_stop_at: None,
            v4l2: V4l2Controls::new(readings),
            input_panel_open: true,
        }
    }

    /// Every hardware control goes back to its default. Returns the requests to the device, and
    /// whether a value changed.
    pub fn reset_all(&mut self) -> (r: (Vec<CtrlMsg>, bool))
        ensures
            final(self)@ == (MonitorView { ctrls: all_default(old(self)@.ctrls), ..old(self)@ }),
            r.0@ == default_msgs(old(self)@.ctrls),
            r.1 == exists|i: int|
                0 <= i < old(self)@.ctrls.len() && (#[trigger] old(self)@.ctrls[i]).value
                    != final(self)@.ctrls[i].value,
            old(self).v4l2.wf() ==> final(self).v4l2.wf(),
            old(self)@.consistent() ==> final(self)@.consistent(),
    {
        let changed = self.v4l2.off_default();
        let msgs = self.v4l2.reset_all();
        assert(self@.ctrls =~= all_default(old(self)@.ctrls));
        assert(msgs@ =~= default_msgs(old(self)@.ctrls));
        proof {
            let before = old(self)@.ctrls;
            if changed {
                let i = choose|i: int|
                    0 <= i < before.len() && i < CONTROL_COUNT && (#[trigger] before[i]).value
                        != before[i].default;
                assert(before[i].value != self@.ctrls[i].value);
            }
        }
        (msgs, changed)
    }

    /// What one frame of the "Input" side panel did: whether all controls were reset, then the
    /// sliders that moved, in order, then the control whose own reset button was clicked, and
    /// whether the panel was closed. Returns the requests to the device, and whether the settings
    /// changed: a reset of all controls counts where it changed a value.
    pub fn show_input_panel(
        &mut self,
        reset_all: bool,
        moves: &Vec<(usize, i32)>,
        reset: Option<usize>,
        close: bool,
    ) -> (r: (Vec<CtrlMsg>, bool))
        requires
            old(self).v4l2.wf(),
            forall|k: int|
                0 <= k < moves@.len() ==> (#[trigger] moves@[k]).0 < CONTROL_COUNT && moves@[k].0
                    < old(self)@.ctrls.len(),
            reset matches Some(i) ==> i < CONTROL_COUNT && i < old(self)@.ctrls.len(),
        ensures
            ({
                let start = if reset_all {
                    all_default(old(self)@.ctrls)
                } else {
                    old(self)@.ctrls
                };
                let first = if reset_all {
                    default_msgs(old(self)@.ctrls)
                } else {
                    Seq::empty()
                };
                let slid = moved(start, moves@);
                let ctrls = match reset {
                    Some(i) => slid.update(i as int, at_default(slid[i as int])),
                    None => slid,
                };
                &&& final(self)@ == (MonitorView {
                    ctrls,
                    input_panel_open: old(self)@.input_panel_open && !close,
                    ..old(self)@
                })
                &&& r.0@ == first + move_msgs(start, moves@) + (match reset {
                    Some(i) => seq![set_msg(ctrls, i as int)],
                    None => Seq::empty(),
                })
                &&& r.1 == (moves@.len() > 0 || reset is Some || (reset_all && exists|i: int|
                    0 <= i < start.len() && (#[trigger] old(self)@.ctrls[i]).value
                        != start[i].value))
            }),
            final(self).v4l2.wf(),
            final(self)@.ctrls.len() == old(self)@.ctrls.len(),
            old(self)@.consistent() ==> final(self)@.consistent(),
    {
        let mut msgs: Vec<CtrlMsg> = Vec::new();
        let mut changed = false;
        if reset_all {
            let (sent, moved_back) = self.reset_all();
            msgs = sent;
            changed = moved_back;
        }
        let ghost first = msgs@;
        let (mut sent, touched) = self.v4l2.apply_panel(moves, reset);
        let ghost rest = sent@;
        msgs.append(&mut sent);
        assert(msgs@ =~= first + rest);
        if close {
            self.input_panel_open = false;
        }
        (msgs, changed || touched)
    }

    /// A button of the toolbar was clicked. `pgid_text` is what the capture's group file holds.
    pub fn toolbar_section(
        &mut self,
        button: MonitorButton,
        cfg: &Config,
        now: u64,
        pgid_text: Option<&str>,
    ) -> (r: Effect)
        ensures
            (final(self)@, r@) == old(self)@.pressed(
                button,
                cfg.v4l2_device@,
                cfg.capture_script@,
                now,
                pgid_of(read_view(pgid_text)),
            ),
            old(self)@.consistent() ==> final(self)@.consistent(),
    {
        match (self.state, button) {
            (CaptureState::Idle, MonitorButton::Monitor) => {
                self.state = CaptureState::Monitoring;
                let mut effect = Effect::says("Monitoring live signal");
                effect.player = PlayerAction::Open(Source::V4l2(cfg.v4l2_device.clone()));
                effect
            },
            (CaptureState::Idle, MonitorButton::StartCapture) => self.begin_capture(cfg, now),
            (CaptureState::Monitoring, MonitorButton::StartCapture) => {
                self.begin_capture(cfg, now)
            },
            (CaptureState::Monitoring, MonitorButton::StopMonitor) => {
                self.state = CaptureState::Idle;
                let mut effect = Effect::says("Idle");
                effect.player = PlayerAction::Stop;
                effect
            },
            (CaptureState::Capturing, MonitorButton::StopCapture) => {
                self.do_stop_capture(pgid_text, "Capture stopped")
            },
            _ => Effect::nothing(),
        }
    }

    /// The user asked for the capture to stop after `secs` seconds.
    pub fn stop_after(&mut self, secs: u64, now: u64, now_sys: i128, pgid_text: Option<&str>) -> (r:
        Effect)
        requires
            now_sys + secs * NANOS_PER_SEC <= i128::MAX,
        ensures
            (final(self)@, r@) == old(self)@.stop_set(
                secs,
                now,
                now_sys,
                pgid_of(read_view(pgid_text)),
            ),
            old(self)@.consistent() ==> final(self)@.consistent(),
    {
        if self.state != CaptureState::Capturing {
            return Effect::nothing();
        }
        let timer = self.capture.arm_stop_timer(secs, now_sys, pgid_text);
        let deadline: u128 = (now as u128) + (secs as u128) * (NANOS_PER_SEC as u128);
        self.capture_stop_at = Some(deadline);
        let mut status = "Stopping in ".to_owned();
        status.append(fmt_secs(secs).as_str());
        let mut effect = Effect::says(status.as_str());
        effect.cancel_timer = true;
        effect.timer = timer;
        effect
    }

    /// The countdown to the stop of the capture, in seconds, where one runs.
    pub fn countdown(&self, now: u64) -> (r: Option<u64>)
        ensures
            r == self@.countdown(now),
    {
        match self.capture_stop_at {
            Some(deadline) => {
                let left: u128 = if deadline > now as u128 {
                    (deadline - now as u128) / (NANOS_PER_SEC as u128)
                } else {
                    0
                };
                if left <= u64::MAX as u128 {
                    Some(left as u64)
                } else {
                    Some(u64::MAX)
                }
            },
            None => None,
        }
    }

    /// The countdown as the toolbar shows it.
    pub fn countdown_text(&self, now: u64) -> (r: Option<String>)
        ensures
            opt_text(r) == (match self@.countdown(now) {
                Some(left) => Some("⏱ "@ + secs_text(left as nat)),
                None => None,
            }),
    {
        match self.countdown(now) {
            Some(left) => {
                let mut t = "⏱ ".to_owned();
                t.append(fmt_secs(left).as_str());
                Some(t)
            },
            None => None,
        }
    }

    /// What the toolbar says of the capture's progress.
    pub fn progress_text(&self, now: u64) -> (r: String)
        ensures
            r@ == self@.progress_text(now),
    {
        let mut t = "  ".to_owned();
        t.append(self.capture.elapsed_str(now).as_str());
        t.append("  frame ");
        t.append(decimal_text(self.capture.stats.frame).as_str());
        t.append("  ");
        t.append(self.capture.stats.time.as_str());
        t.append("  ");
        t.append(self.capture.stats.bitrate.as_str());
        t
    }

    /// The device is waited for: start the capture once mpv is idle, or after a second.
    pub fn poll_release(&mut self, mpv_idle: bool, now: u64, cfg: &Config) -> (r: Effect)
        ensures
            (final(self)@, r@) == (if old(self)@.release_over(mpv_idle, now) {
                old(self)@.starting(cfg.capture_script@)
            } else {
                (old(self)@, EffectView::nothing())
            }),
            old(self)@.consistent() ==> final(self)@.consistent(),
    {
        if self.state != CaptureState::Releasing {
            return Effect::nothing();
        }
        let timed_out = match self.releasing_at {
            Some(t) => elapsed_nanos(t, now) > RELEASE_TIMEOUT_NANOS,
            None => true,
        };
        if mpv_idle || timed_out {
            self.do_start_capture(cfg)
        } else {
            Effect::nothing()
        }
    }

    /// Whether the countdown has run out, so that the next poll stops the capture.
    pub fn stop_due(&self, now: u64) -> (r: bool)
        ensures
            r == self@.stop_due(now),
    {
        match self.capture_stop_at {
            Some(deadline) => self.state == CaptureState::Capturing && now as u128 >= deadline,
            None => false,
        }
    }

    /// One look at a capture, after the capture job was polled: opens the preview, and opens it
    /// again where mpv went idle; stops the capture when the countdown has run out (the stop
    /// timer does so too); notes that the script ended by itself.
    pub fn poll(&mut self, mpv_idle: bool, now: u64, pgid_text: Option<&str>) -> (r: Effect)
        ensures
            (final(self)@, r@) == old(self)@.capturing(
                mpv_idle,
                now,
                pgid_of(read_view(pgid_text)),
            ),
            old(self)@.consistent() ==> final(self)@.consistent(),
    {
        if self.state != CaptureState::Capturing {
            return Effect::nothing();
        }
        let running = self.capture.is_running();
        let starts = !self.preview_opened && running;
        let mut opens = starts;
        if !starts && self.preview_opened && mpv_idle && running {
            opens = match self.capture_last_reopen_at {
                Some(t) => elapsed_nanos(t, now) > REOPEN_NANOS,
                None => true,
            };
        }
        let mut effect = Effect::nothing();
        if starts {
            self.preview_opened = true;
            effect = Effect::says("Capturing… (previewing)");
        }
        if opens {
            self.capture_last_reopen_at = Some(now);
        }
        if self.stop_due(now) {
            effect = self.do_stop_capture(pgid_text, "Capture stopped (timer)");
        } else if !running {
            self.back_to_idle();
            effect = Effect::says("Capture ended");
            effect.refresh = true;
        }
        if opens {
            effect.player = PlayerAction::Open(
                Source::Udp("udp://127.0.0.1:23000?pkt_size=1316".to_owned()),
            );
        }
        effect
    }

    fn begin_capture(&mut self, cfg: &Config, now: u64) -> (r: Effect)
        requires
            old(self).state == CaptureState::Monitoring || old(self).state == CaptureState::Idle,
        ensures
            (final(self)@, r@) == old(self)@.pressed(
                MonitorButton::StartCapture,
                cfg.v4l2_device@,
                cfg.capture_script@,
                now,
                None,
            ),
    {
        if self.state == CaptureState::Monitoring {
            self.state = CaptureState::Releasing;
            self.releasing_at = Some(now);
            let mut effect = Effect::says("Releasing device…");
            effect.player = PlayerAction::Stop;
            effect
        } else {
            self.do_start_capture(cfg)
        }
    }

    fn back_to_idle(&mut self)
        ensures
            final(self)@ == old(self)@.idle_again(),
    {
        self.preview_opened = false;
        self.capture_last_reopen_at = None;
        self.capture_stop_at = None;
        self.capture_stop_input = String::new();
        self.state = CaptureState::Idle;
    }

    fn do_stop_capture(&mut self, pgid_text: Option<&str>, status: &str) -> (r: Effect)
        ensures
            (final(self)@, r@) == old(self)@.stopping(pgid_of(read_view(pgid_text)), status@),
    {
        let pgid = self.capture.stop(pgid_text);
        self.back_to_idle();
        let mut effect = Effect::says(status);
        effect.cancel_timer = true;
        effect.interrupt = pgid;
        effect.refresh = true;
        effect
    }

    fn do_start_capture(&mut self, cfg: &Config) -> (r: Effect)
        ensures
            (final(self)@, r@) == old(self)@.starting(cfg.capture_script@),
    {
        self.capture.cancel_stop_timer();
        match self.capture.start(&cfg.capture_script, self.max_duration.as_str()) {
            Ok(launch) => {
                let mut effect = Effect::nothing();
                effect.cancel_timer = true;
                effect.launch = Some(launch);
                effect
            },
            Err(e) => {
                let mut effect = self.note_start_failed(e.message());
                effect.cancel_timer = true;
                effect
            },
        }
    }

    /// The capture script was started.
    pub fn note_started(&mut self, now: u64, now_sys: i128) -> (r: Effect)
        ensures
            final(self)@ == old(self)@.start_done(now, now_sys),
            r@ == EffectView::says("Capturing…"@),
            final(self)@.consistent(),
    {
        self.capture.note_started(now, now_sys);
        self.state = CaptureState::Capturing;
        self.releasing_at = None;
        self.preview_opened = false;
        self.capture_last_reopen_at = Some(now);
        self.capture_stop_at = None;
        self.capture_stop_input = self.max_duration.clone();
        Effect::says("Capturing…")
    }

    /// The capture script could not be started, for this reason.
    pub fn note_start_failed(&mut self, reason: &str) -> (r: Effect)
        ensures
            final(self)@ == old(self)@.start_failed(),
            r@ == EffectView::says("Capture failed to start: "@ + reason@),
            old(self)@.consistent() && old(self)@.state != CaptureState::Capturing
                ==> final(self)@.consistent(),
    {
        self.state = CaptureState::Idle;
        self.releasing_at = None;
        let mut status = "Capture failed to start: ".to_owned();
        status.append(reason);
        Effect::says(status.as_str())
    }
}

// ---------------------------------------------------------------------------
// Laws
// ---------------------------------------------------------------------------
/// Whatever happens, and in whatever order, the state stays consistent: the preview is open and
/// a countdown runs only during a capture, and a release that began is known to have begun.
pub proof fn law_every_event_keeps_consistent(
    m: MonitorView,
    button: MonitorButton,
    device: Seq<char>,
    script: Seq<u8>,
    secs: u64,
    mpv_idle: bool,
    now: u64,
    now_sys: i128,
    pgid: Option<i32>,
)
    requires
        m.consistent(),
    ensures
        m.pressed(button, device, script, now, pgid).0.consistent(),
        m.stop_set(secs, now, now_sys, pgid).0.consistent(),
        m.capturing(mpv_idle, now, pgid).0.consistent(),
        m.release_over(mpv_idle, now) ==> m.starting(script).0.consistent(),
        m.start_done(now, now_sys).consistent(),
        m.state != CaptureState::Capturing ==> m.start_failed().consistent(),
{
}

/// The device has one owner: the capture script is started only when the live monitor has let
/// go of the device, and never while another capture runs.
pub proof fn law_one_owner_of_the_device(
    m: MonitorView,
    button: MonitorButton,
    device: Seq<char>,
    script: Seq<u8>,
    now: u64,
    pgid: Option<i32>,
)
    ensures
        m.pressed(button, device, script, now, pgid).1.launch is Some ==> m.state
            == CaptureState::Idle && !m.capture.running,
        m.starting(script).1.launch is Some ==> !m.capture.running,
        m.pressed(button, device, script, now, pgid).1.player == PlayerView::Open(
            SourceView::V4l2(device),
        ) ==> m.state == CaptureState::Idle && button == MonitorButton::Monitor,
        m.state == CaptureState::Monitoring && button == MonitorButton::StartCapture ==> m.pressed(
            button,
            device,
            script,
            now,
            pgid,
        ).1.player == PlayerView::Stop,
{
}

/// A stop leaves nothing behind: no timer is armed, no countdown runs, no preview is open, and
/// the library is listed again.
pub proof fn law_stop_leaves_nothing(m: MonitorView, pgid: Option<i32>, status: Seq<char>)
    ensures
        ({
            let (next, effect) = m.stopping(pgid, status);
            &&& next.capture.stop_timer is None
            &&& next.stop_at is None
            &&& !next.preview_opened
            &&& next.state == CaptureState::Idle
            &&& effect.cancel_timer
            &&& effect.refresh
            &&& effect.interrupt == pgid
        }),
{
}

/// A button that the toolbar does not offer does nothing.
pub proof fn law_only_offered_buttons(
    m: MonitorView,
    button: MonitorButton,
    device: Seq<char>,
    script: Seq<u8>,
    now: u64,
    pgid: Option<i32>,
)
    requires
        !offered(m.state).contains(button),
    ensures
        m.pressed(button, device, script, now, pgid) == (m, EffectView::nothing()),
{
    let o = offered(m.state);
    match m.state {
        CaptureState::Idle => {
            assert(o[0] == MonitorButton::Monitor && o[1] == MonitorButton::StartCapture);
        },
        CaptureState::Monitoring => {
            assert(o[0] == MonitorButton::StartCapture && o[1] == MonitorButton::StopMonitor);
        },
        CaptureState::Releasing => {},
        CaptureState::Capturing => {
            assert(o[0] == MonitorButton::StopCapture);
        },
    }
}

/// A capture that runs is not reopened in a hurry: between two openings of its preview lie more
/// than two seconds.
pub proof fn law_preview_not_reopened_in_a_hurry(
    m: MonitorView,
    mpv_idle: bool,
    now: u64,
    later: u64,
    pgid: Option<i32>,
)
    requires
        m.state == CaptureState::Capturing,
        m.capturing(mpv_idle, now, pgid).1.player != PlayerView::Keep,
        m.capturing(mpv_idle, now, pgid).0.state == CaptureState::Capturing,
        now <= later <= now + REOPEN_NANOS,
    ensures
        m.capturing(mpv_idle, now, pgid).0.capturing(true, later, pgid).1.player
            == PlayerView::Keep,
{
}

/// After a reset of all controls every control of the table has its default: the value of one
/// that had another is changed, and a second reset changes nothing.
pub proof fn law_reset_all_settles(ctrls: Seq<V4l2Control>, i: int)
    requires
        0 <= i < ctrls.len(),
        i < CONTROL_COUNT,
    ensures
        all_default(ctrls)[i].value == ctrls[i].default,
        ctrls[i].value != ctrls[i].default ==> ctrls[i].value != all_default(ctrls)[i].value,
        all_default(all_default(ctrls)) == all_default(ctrls),
{
    assert(all_default(all_default(ctrls)) =~= all_default(ctrls));
}

proof fn lemma_digit_plain(c: char)
    requires
        is_digit(c),
    ensures
        !is_white(c),
        c != ':',
{
}

proof fn lemma_two_digits(n: nat)
    ensures
        two_digits(n).len() > 0,
        forall|i: int| 0 <= i < two_digits(n).len() ==> is_digit(#[trigger] two_digits(n)[i]),
        !two_digits(n).contains(':'),
{
    law_decimal_spells(n);
    let t = two_digits(n);
    assert forall|i: int| 0 <= i < t.len() implies is_digit(#[trigger] t[i]) by {
        if n < 10 {
            lemma_digit(n);
        }
    }
    assert forall|i: int| 0 <= i < t.len() implies t[i] != ':' by {
        lemma_digit_plain(t[i]);
    }
}

proof fn lemma_digit(n: nat)
    requires
        n < 10,
    ensures
        is_digit(digit(n)),
{
}

/// The time that a capture has run for is a duration: what the toolbar shows, typed into the
/// field for the stop timer, stands for the same number of seconds.
pub proof fn law_elapsed_is_a_duration(secs: u64)
    ensures
        duration_value(hms_text(secs as nat)) == Some(secs as nat),
{
    let h = (secs as nat) / 3600;
    let m = ((secs as nat) % 3600) / 60;
    let s = (secs as nat) % 60;
    lemma_two_digits(h);
    lemma_two_digits(m);
    lemma_two_digits(s);
    law_parse_undoes_decimal(h as u64);
    law_parse_undoes_decimal(m as u64);
    law_parse_undoes_decimal(s as u64);
    reveal_strlit(":");
    assert(":"@ =~= seq![':']);
    let t = hms_text(secs as nat);
    let th = two_digits(h);
    let tm = two_digits(m);
    let ts = two_digits(s);
    let tail = tm.push(':') + ts;
    assert(t =~= th.push(':') + tail);
    law_split_undoes_join(th, tail, ':');
    law_split_undoes_join(tm, ts, ':');
    law_split_nothing(ts, ':');
    assert(split_on(t, ':') =~= seq![th, tm, ts]);
    assert(t[0] == th[0]);
    lemma_digit_plain(th[0]);
    assert(t.last() == ts.last());
    lemma_digit_plain(ts.last());
    assert(trim_start(t) == t);
    assert(trim_end(t) == t);
    assert(secs == h * 3600 + m * 60 + s);
}

/// The cap that the user entered is the cap of the capture: wherever a click or the end of the
/// release starts the capture script, its variable `MAX_CAPTURE_DURATION` is the text of the field
/// at that moment, whatever that is, and the script is the one of the settings.
pub proof fn law_cap_reaches_the_capture(
    m: MonitorView,
    button: MonitorButton,
    device: Seq<char>,
    script: Seq<u8>,
    now: u64,
    pgid: Option<i32>,
)
    ensures
        m.pressed(button, device, script, now, pgid).1.launch matches Some(l) ==> {
            &&& sets(l.envs, "MAX_CAPTURE_DURATION"@, m.max_duration)
            &&& sets(l.envs, "VHS_PREVIEW"@, "1"@)
            &&& l.args == seq![script]
        },
        m.starting(script).1.launch matches Some(l) ==> {
            &&& sets(l.envs, "MAX_CAPTURE_DURATION"@, m.max_duration)
            &&& sets(l.envs, "VHS_PREVIEW"@, "1"@)
            &&& l.args == seq![script]
        },
        m.state == CaptureState::Idle && button == MonitorButton::StartCapture
            && !m.capture.running ==> m.pressed(button, device, script, now, pgid).1.launch is Some,
        !m.capture.running ==> m.starting(script).1.launch is Some,
{
    law_capture_gets_its_cap(script, m.max_duration);
}

/// The live monitor plays the device of the settings, whichever that is, and the preview plays
/// the stream of the capture script.
pub proof fn law_monitor_plays_the_device(
    m: MonitorView,
    device: Seq<char>,
    script: Seq<u8>,
    now: u64,
    pgid: Option<i32>,
    mpv_idle: bool,
)
    ensures
        m.state == CaptureState::Idle ==> {
            let (next, effect) = m.pressed(MonitorButton::Monitor, device, script, now, pgid);
            &&& effect.player == PlayerView::Open(SourceView::V4l2(device))
            &&& next == (MonitorView { state: CaptureState::Monitoring, ..m })
        },
        m.capturing(mpv_idle, now, pgid).1.player matches PlayerView::Open(src) ==> src
            == SourceView::Udp("udp://127.0.0.1:23000?pkt_size=1316"@) && m.capture.running,
{
}

/// The preview of a capture is opened as soon as its process runs; where mpv went idle, it is
/// opened again when more than two seconds have passed since it was last opened, and not before.
pub proof fn law_when_the_preview_opens(
    m: MonitorView,
    mpv_idle: bool,
    now: u64,
    pgid: Option<i32>,
    last: u64,
)
    requires
        m.state == CaptureState::Capturing,
        m.capture.running,
        m.last_reopen_at == Some(last),
        last <= now,
    ensures
        !m.preview_opened ==> m.capturing(mpv_idle, now, pgid).1.player is Open,
        m.preview_opened ==> (m.capturing(mpv_idle, now, pgid).1.player is Open <==> mpv_idle && now
            - last > 2_000_000_000),
{
}

/// The device is waited for until mpv is idle, or for a second, and no longer.
pub proof fn law_release_takes_a_second_at_most(
    m: MonitorView,
    mpv_idle: bool,
    since: u64,
    now: u64,
)
    requires
        m.state == CaptureState::Releasing,
        m.releasing_at == Some(since),
        since <= now,
    ensures
        m.release_over(mpv_idle, now) <==> mpv_idle || now - since > 1_000_000_000,
{
}

/// A capture that still runs is neither ended nor stopped before its countdown is over; when it is
/// over the capture is stopped, its group interrupted and the library listed; a capture whose
/// process is gone is over without a signal.
pub proof fn law_when_a_capture_is_over(
    m: MonitorView,
    mpv_idle: bool,
    now: u64,
    pgid: Option<i32>,
)
    requires
        m.state == CaptureState::Capturing,
    ensures
        ({
            let (next, effect) = m.capturing(mpv_idle, now, pgid);
            let due = m.stop_at is Some && now >= m.stop_at->0;
            &&& due ==> {
                &&& next.state == CaptureState::Idle
                &&& effect.interrupt == pgid
                &&& effect.refresh
                &&& effect.status == Some("Capture stopped (timer)"@)
            }
            &&& !due && !m.capture.running ==> {
                &&& next.state == CaptureState::Idle
                &&& effect.interrupt is None
                &&& effect.refresh
                &&& effect.status == Some("Capture ended"@)
            }
            &&& !due && m.capture.running ==> {
                &&& next.state == CaptureState::Capturing
                &&& effect.interrupt is None
                &&& !effect.refresh
                &&& next.capture == m.capture
                &&& next.stop_at == m.stop_at
                &&& next.stop_input == m.stop_input
            }
            &&& next.max_duration == m.max_duration
            &&& next.ctrls == m.ctrls
            &&& effect.launch is None
            &&& effect.timer is None
        }),
{
}

/// A stop that is set is due after as many seconds as were asked for, by the clock of the
/// countdown and by the wall clock of the timer; the timer is for the group that runs now.
pub proof fn law_stop_is_due_when_asked(
    m: MonitorView,
    secs: u64,
    now: u64,
    now_sys: i128,
    pgid: Option<i32>,
)
    requires
        m.state == CaptureState::Capturing,
        now_sys + secs * 1_000_000_000 <= i128::MAX,
    ensures
        ({
            let (next, effect) = m.stop_set(secs, now, now_sys, pgid);
            &&& next.stop_at is Some
            &&& next.stop_at->0 - now == secs * 1_000_000_000
            &&& next.countdown(now) == Some(secs)
            &&& effect.timer == next.capture.stop_timer
            &&& pgid is None ==> effect.timer is None
            &&& pgid matches Some(p) ==> {
                &&& effect.timer is Some
                &&& (effect.timer->0).pgid == p
                &&& (effect.timer->0).deadline - now_sys == secs * 1_000_000_000
            }
            &&& effect.cancel_timer
            &&& effect.interrupt is None
            &&& next.state == CaptureState::Capturing
            &&& next.preview_opened == m.preview_opened
        }),
{
    assert((secs * 1_000_000_000) / 1_000_000_000 == secs) by (nonlinear_arith);
    assert(0 <= secs * 1_000_000_000 <= u64::MAX * 1_000_000_000) by (nonlinear_arith)
        requires
            0 <= secs <= u64::MAX,
    ;
}

/// The countdown shows the whole seconds that are left, and 0 when it is over.
pub proof fn law_countdown(m: MonitorView, now: u64, secs: u64, nanos: u64)
    requires
        nanos < 1_000_000_000,
        m.stop_at is Some,
    ensures
        m.stop_at->0 == now + secs * 1_000_000_000 + nanos ==> m.countdown(now) == Some(secs),
        m.stop_at->0 <= now ==> m.countdown(now) == Some(0u64),
{
    if m.stop_at->0 == now + secs * 1_000_000_000 + nanos {
        let left = m.stop_at->0 - now;
        assert(left / 1_000_000_000 == secs) by (nonlinear_arith)
            requires
                left == secs * 1_000_000_000 + nanos,
                0 <= nanos < 1_000_000_000,
        ;
    }
}

/// A capture that has started has a closed preview, no countdown, and the cap in the field for the
/// stop time.
pub proof fn law_start_of_a_capture(m: MonitorView, now: u64, now_sys: i128)
    ensures
        ({
            let t = m.start_done(now, now_sys);
            &&& t.state == CaptureState::Capturing
            &&& t.capture.running
            &&& t.capture.started_at == Some(now)
            &&& t.capture.started_sys == Some(now_sys)
            &&& !t.preview_opened
            &&& t.stop_at is None
            &&& t.releasing_at is None
            &&& t.stop_input == m.max_duration
            &&& t.max_duration == m.max_duration
            &&& t.ctrls == m.ctrls
            &&& t.last_reopen_at == Some(now)
        }),
        m.start_failed().state == CaptureState::Idle,
        m.start_failed().capture == m.capture,
{
}

proof fn lemma_number_text(n: u64)
    ensures
        ({
            let d = decimal(n as nat);
            &&& d.len() > 0
            &&& !is_white(d[0])
            &&& !is_white(d.last())
            &&& !d.contains(':')
            &&& parse_u64(d) == Some(n)
        }),
{
    let d = decimal(n as nat);
    law_decimal_spells(n as nat);
    law_parse_undoes_decimal(n);
    assert(is_digit(d[0]) && is_digit(d[d.len() - 1]));
    lemma_digit_plain(d[0]);
    lemma_digit_plain(d.last());
    assert forall|i: int| 0 <= i < d.len() implies d[i] != ':' by {
        assert(is_digit(d[i]));
        lemma_digit_plain(d[i]);
    }
}

/// A duration is hours, minutes and seconds, or minutes and seconds, or seconds, with colons
/// between them and any white space around: its value is the seconds that these make.
pub proof fn law_durations(
    before: Seq<char>,
    h: u64,
    m: u64,
    s: u64,
    after: Seq<char>,
)
    requires
        all_white(before, 0, before.len() as int),
        all_white(after, 0, after.len() as int),
    ensures
        duration_value(
            before + (decimal(h as nat) + ":"@ + decimal(m as nat) + ":"@ + decimal(s as nat))
                + after,
        ) == Some((h * 3600 + m * 60 + s) as nat),
        duration_value(before + (decimal(m as nat) + ":"@ + decimal(s as nat)) + after) == Some(
            (m * 60 + s) as nat,
        ),
        duration_value(before + decimal(s as nat) + after) == Some(s as nat),
{
    lemma_number_text(h);
    lemma_number_text(m);
    lemma_number_text(s);
    reveal_strlit(":");
    assert(":"@ =~= seq![':']);
    let dh = decimal(h as nat);
    let dm = decimal(m as nat);
    let ds = decimal(s as nat);
    let two = dm + ":"@ + ds;
    let three = dh + ":"@ + dm + ":"@ + ds;
    assert(two =~= dm.push(':') + ds);
    assert(three =~= dh.push(':') + two);
    law_split_nothing(ds, ':');
    law_split_undoes_join(dm, ds, ':');
    law_split_undoes_join(dh, two, ':');
    assert(split_on(two, ':') =~= seq![dm, ds]);
    assert(split_on(three, ':') =~= seq![dh, dm, ds]);
    assert(two[0] == dm[0] && two.last() == ds.last());
    assert(three[0] == dh[0] && three.last() == ds.last());
    law_trim_undoes_padding(before, ds, after);
    law_trim_undoes_padding(before, two, after);
    law_trim_undoes_padding(before, three, after);
}

/// A text is no duration where a part of it is no number, or where it has more than three parts.
pub proof fn law_what_is_no_duration(s: Seq<char>, k: int)
    ensures
        split_on(trim(s), ':').len() > 3 ==> duration_value(s) is None,
        0 <= k < split_on(trim(s), ':').len() && parse_u64(split_on(trim(s), ':')[k]) is None
            ==> duration_value(s) is None,
{
}

/// A number of seconds is written as the hours, minutes and seconds that it makes: what is zero at
/// the front is left out, and what follows has two digits.
pub proof fn law_secs_text(h: nat, m: nat, s: nat)
    requires
        m < 60,
        s < 60,
    ensures
        h > 0 ==> secs_text(h * 3600 + m * 60 + s) == decimal(h) + "h "@ + two_digits(m) + "m "@
            + two_digits(s) + "s"@,
        m > 0 ==> secs_text(m * 60 + s) == decimal(m) + "m "@ + two_digits(s) + "s"@,
        secs_text(s) == decimal(s) + "s"@,
{
    let n = h * 3600 + m * 60 + s;
    assert(n / 3600 == h && n % 3600 == m * 60 + s && n % 60 == s && (n % 3600) / 60 == m)
        by (nonlinear_arith)
        requires
            n == h * 3600 + m * 60 + s,
            m < 60,
            s < 60,
    ;
}

/// What the toolbar says of a capture is, word by word, the time that it has run for, its frame,
/// the time in the recording and the bitrate.
pub proof fn law_progress_text(m: MonitorView, now: u64)
    ensures
        words(m.progress_text(now)) == words(m.capture.elapsed_text(now)) + seq![
            "frame"@,
            decimal(m.capture.stats.frame as nat),
        ] + words(m.capture.stats.time) + words(m.capture.stats.bitrate),
{
    let e = m.capture.elapsed_text(now);
    let d = decimal(m.capture.stats.frame as nat);
    let t = m.capture.stats.time;
    let r = m.capture.stats.bitrate;
    let empty = Seq::<char>::empty();
    reveal_strlit("  frame ");
    reveal_strlit("frame");
    reveal_strlit("  ");
    reveal_strlit(" ");
    let a = empty + "  "@ + e;
    let b = "frame"@ + " "@ + d;
    let c = a + "  "@ + b;
    let f = c + "  "@ + t;
    assert(m.progress_text(now) =~= f + "  "@ + r);
    law_spaces_part_words(f, r);
    law_spaces_part_words(c, t);
    law_spaces_part_words(a, b);
    law_spaces_part_words(empty, e);
    law_spaces_part_words("frame"@, d);
    law_decimal_spells(m.capture.stats.frame as nat);
    assert forall|i: int| 0 <= i < d.len() implies !is_white(#[trigger] d[i]) by {
        assert(is_digit(d[i]));
        lemma_digit_plain(d[i]);
    }
    law_word_of_solid(empty);
    law_word_of_solid(d);
    assert(solid("frame"@));
    law_word_of_solid("frame"@);
    assert(words(b) =~= seq!["frame"@, d]);
    assert(words(m.progress_text(now)) =~= words(e) + seq!["frame"@, d] + words(t) + words(r));
}

/// What each button does besides: the live monitor is left by stopping the player; a capture that
/// is wanted while it plays waits for the device from that moment on; a stop interrupts the group
/// that the group file names and takes the timer away. The cap and the controls stay.
pub proof fn law_what_the_buttons_do(
    m: MonitorView,
    device: Seq<char>,
    script: Seq<u8>,
    now: u64,
    pgid: Option<i32>,
)
    ensures
        m.state == CaptureState::Idle ==> m.pressed(
            MonitorButton::Monitor,
            device,
            script,
            now,
            pgid,
        ).1.status == Some("Monitoring live signal"@),
        m.state == CaptureState::Monitoring ==> {
            let (next, effect) = m.pressed(MonitorButton::StopMonitor, device, script, now, pgid);
            &&& next == (MonitorView { state: CaptureState::Idle, ..m })
            &&& effect.player is Stop
            &&& effect.status == Some("Idle"@)
            &&& effect.launch is None && effect.interrupt is None && effect.timer is None
            &&& !effect.cancel_timer && !effect.refresh
        },
        m.state == CaptureState::Monitoring ==> {
            let (next, effect) = m.pressed(MonitorButton::StartCapture, device, script, now, pgid);
            &&& next == (MonitorView {
                state: CaptureState::Releasing,
                releasing_at: Some(now),
                ..m
            })
            &&& effect.player is Stop
            &&& effect.status == Some("Releasing device…"@)
            &&& effect.launch is None && effect.interrupt is None && effect.timer is None
            &&& !effect.cancel_timer && !effect.refresh
        },
        m.state == CaptureState::Capturing ==> {
            let (next, effect) = m.pressed(MonitorButton::StopCapture, device, script, now, pgid);
            &&& next.state == CaptureState::Idle
            &&& next.stop_input.len() == 0
            &&& next.last_reopen_at is None
            &&& next.max_duration == m.max_duration
            &&& next.ctrls == m.ctrls
            &&& next.input_panel_open == m.input_panel_open
            &&& next.capture.running == m.capture.running
            &&& effect.interrupt == pgid
            &&& effect.cancel_timer && effect.refresh
            &&& effect.status == Some("Capture stopped"@)
            &&& effect.player is Keep
            &&& effect.launch is None && effect.timer is None
        },
{
}

/// Where a capture runs already, none is started: the view is idle again and says why.
pub proof fn law_no_second_capture(m: MonitorView, script: Seq<u8>)
    requires
        m.capture.running,
    ensures
        ({
            let (next, effect) = m.starting(script);
            &&& next.state == CaptureState::Idle
            &&& next.releasing_at is None
            &&& next.capture.stop_timer is None
            &&& next.max_duration == m.max_duration
            &&& next.ctrls == m.ctrls
            &&& effect.launch is None
            &&& effect.cancel_timer
            &&& effect.status == Some("Capture failed to start: capture already running"@)
        }),
{
    reveal_strlit("Capture failed to start: ");
    reveal_strlit("capture already running");
    reveal_strlit("Capture failed to start: capture already running");
    assert("Capture failed to start: "@ + "capture already running"@
        =~= "Capture failed to start: capture already running"@);
}

/// The start of a capture takes a timer of an earlier one away, and changes nothing else until the
/// script has been started.
pub proof fn law_start_takes_the_timer_away(m: MonitorView, script: Seq<u8>)
    requires
        !m.capture.running,
    ensures
        ({
            let (next, effect) = m.starting(script);
            &&& next.capture.stop_timer is None
            &&& (MonitorView {
                capture: CaptureView { stop_timer: m.capture.stop_timer, ..next.capture },
                ..next
            }) == m
            &&& effect.cancel_timer
            &&& effect.player is Keep
            &&& effect.status is None
            &&& effect.interrupt is None && effect.timer is None
            &&& !effect.refresh
        }),
        ({
            let next = m.start_failed();
            &&& next.state == CaptureState::Idle
            &&& next.releasing_at is None
            &&& (MonitorView { state: m.state, releasing_at: m.releasing_at, ..next }) == m
        }),
{
}

/// The status line tells the time after which the capture will stop, in the words of the
/// countdown; outside a capture no stop can be set.
pub proof fn law_stop_is_announced(
    m: MonitorView,
    secs: u64,
    now: u64,
    now_sys: i128,
    pgid: Option<i32>,
)
    ensures
        ({
            let (next, effect) = m.stop_set(secs, now, now_sys, pgid);
            &&& m.state == CaptureState::Capturing ==> effect.status == Some(
                "Stopping in "@ + secs_text(secs as nat),
            ) && next.max_duration == m.max_duration && next.stop_input == m.stop_input
                && next.ctrls == m.ctrls && next.capture.running == m.capture.running
            &&& m.state != CaptureState::Capturing ==> next == m && effect.timer is None
                && effect.status is None && !effect.cancel_timer
        }),
{
}

/// The first opening of the preview is announced and noted, a later one is only noted; the timer is
/// taken away only with the stop that the countdown brings.
pub proof fn law_preview_is_noted(m: MonitorView, mpv_idle: bool, now: u64, pgid: Option<i32>)
    requires
        m.state == CaptureState::Capturing,
        m.stop_at is None || now < m.stop_at->0,
    ensures
        ({
            let (next, effect) = m.capturing(mpv_idle, now, pgid);
            &&& !effect.cancel_timer
            &&& m.capture.running ==> {
                &&& next.preview_opened
                &&& !m.preview_opened ==> effect.status == Some("Capturing… (previewing)"@)
                &&& m.preview_opened ==> effect.status is None
                &&& effect.player is Open ==> next.last_reopen_at == Some(now)
                &&& effect.player is Keep ==> next.last_reopen_at == m.last_reopen_at
            }
            &&& !m.capture.running ==> !next.preview_opened && next.last_reopen_at is None
                && next.stop_input.len() == 0 && next.stop_at is None && effect.player is Keep
        }),
{
}

/// A reset of all controls asks the device for the default of each, under the control's number,
/// and touches nothing else of a control.
pub proof fn law_reset_all_asks_for_the_defaults(ctrls: Seq<V4l2Control>, i: int)
    requires
        ctrls.len() == 5,
        0 <= i < 5,
    ensures
        default_msgs(ctrls).len() == 5,
        default_msgs(ctrls)[i].value == ctrls[i].default,
        default_msgs(ctrls)[i].cid == cid_table()[i],
        all_default(ctrls).len() == 5,
        all_default(ctrls)[i].name == ctrls[i].name,
        all_default(ctrls)[i].label == ctrls[i].label,
        all_default(ctrls)[i].min == ctrls[i].min,
        all_default(ctrls)[i].max == ctrls[i].max,
        all_default(ctrls)[i].default == ctrls[i].default,
{
}

} // verus!
