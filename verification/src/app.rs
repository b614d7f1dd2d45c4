//! What the whole window shows, and when the settings are saved.
//!
//! The clock readings are nanoseconds of the monotonic clock.
use vstd::prelude::*;
use vstd::string::StringExecFns;

use crate::mpv_view::{fmt_time, time_text};
use crate::number::{decimal, decimal_text, law_number_is_one_word};
use crate::panels::monitor::{CaptureState, MonitorPanel, MonitorView};
use crate::panels::upscale::{UpscalePanel, UpscaleView};
use crate::panels::ViewMode;
use crate::persist::opt_text;
use crate::pipeline::{JobView, PipelineJob};
use crate::text::{is_white, law_spaces_part_words, law_word_of_solid, solid, words};

verus! {

/// How long the settings have to have been left alone before they are saved.
pub const SAVE_DELAY_NANOS: u64 = 750_000_000;

pub struct App {
    pub view_mode: ViewMode,
    pub status: String,
    /// When a save of the settings is due, where one is pending.
    pub save_due_at: Option<u128>,
}

/// What an `App` holds.
#[verifier::ext_equal]
pub struct AppView {
    pub view_mode: ViewMode,
    pub status: Seq<char>,
    pub save_due_at: Option<u128>,
}

impl View for App {
    type V = AppView;

    open spec fn view(&self) -> AppView {
        AppView {
            view_mode: self.view_mode,
            status: self.status@,
            save_due_at: self.save_due_at,
        }
    }
}

/// What the middle of the window shows.
#[derive(Clone, Copy, Debug, PartialEq, Eq, Structural)]
pub enum Central {
    /// The pictures and the progress of the upscale.
    UpscalePreview,
    /// The video.
    Player,
}

/// What stands below the video.
pub enum BelowPlayer {
    /// The time played and the duration.
    Clock(String),
    /// A word to the user that nothing is open.
    NoMedia,
    Nothing,
}

impl AppView {
    /// A setting has changed: the save is due after the delay, counted from now.
    pub open spec fn save_armed(self, now: u64) -> AppView {
        AppView { save_due_at: Some((now + SAVE_DELAY_NANOS) as u128), ..self }
    }

    /// Whether the settings have to be saved.
    pub open spec fn save_due(self, now: u64) -> bool {
        self.save_due_at matches Some(t) && now >= t
    }

    /// What the middle of the window shows: the upscale's pictures only in the upscale view, so
    /// that a capture and an upscale can run side by side.
    pub open spec fn central(self, upscale: UpscaleView) -> Central {
        if self.view_mode == ViewMode::Upscale && upscale.upscaling() {
            Central::UpscalePreview
        } else {
            Central::Player
        }
    }
}

/// What the monitor view says of a job that runs meanwhile.
pub open spec fn summary_text(job: JobView, now: u64) -> Seq<char> {
    if job.total_segments > 0 {
        "⬆ "@ + decimal(job.completed_segments as nat) + "/"@ + decimal(job.total_segments as nat)
            + " segs  "@ + job.elapsed_text(now)
    } else {
        "⬆ "@ + job.elapsed_text(now)
    }
}

/// What the monitor view says of a job that runs meanwhile.
pub fn job_summary(job: &PipelineJob, now: u64) -> (r: String)
    ensures
        r@ == summary_text(job@, now),
{
    let mut t = "⬆ ".to_owned();
    if job.total_segments > 0 {
        t.append(decimal_text(job.completed_segments).as_str());
        t.append("/");
        t.append(decimal_text(job.total_segments).as_str());
        t.append(" segs  ");
    }
    t.append(job.elapsed_str(now).as_str());
    t
}

/// What stands below the video. `times` is the time played and the duration in seconds, where
/// mpv has reported a duration.
pub fn below_player(times: Option<(u64, u64)>, idle: bool) -> (r: BelowPlayer)
    ensures
        match times {
            Some(t) => r matches BelowPlayer::Clock(text) && text@ == time_text(t.0 as nat) + " / "@
                + time_text(t.1 as nat),
            None => if idle {
                r is NoMedia
            } else {
                r is Nothing
            },
        },
{
    match times {
        Some(t) => {
            let mut text = fmt_time(t.0);
            text.append(" / ");
            text.append(fmt_time(t.1).as_str());
            BelowPlayer::Clock(text)
        },
        None => if idle {
            BelowPlayer::NoMedia
        } else {
            BelowPlayer::Nothing
        },
    }
}

impl App {
    pub fn new(view_mode: ViewMode) -> (r: Self)
        ensures
            r@ == (AppView { view_mode, status: Seq::empty(), save_due_at: None }),
    {
        App { view_mode, status: String::new(), save_due_at: None }
    }

    /// Show this in the status line, where there is something to show.
    pub fn say(&mut self, status: Option<String>)
        ensures
            final(self)@ == (AppView {
                status: match status {
                    Some(t) => t@,
                    None => old(self)@.status,
                },
                ..old(self)@
            }),
    {
        if let Some(t) = status {
            self.status = t;
        }
    }

    /// Arm the debounced save.
    pub fn arm_save(&mut self, now: u64)
        ensures
            final(self)@ == old(self)@.save_armed(now),
    {
        let due: u128 = now as u128 + SAVE_DELAY_NANOS as u128;
        self.save_due_at = Some(due);
    }

    /// Whether the settings have to be saved now. The pending save is then no longer pending.
    pub fn take_save(&mut self, now: u64) -> (r: bool)
        ensures
            r == old(self)@.save_due(now),
            final(self)@ == (AppView {
                save_due_at: if r {
                    None
                } else {
                    old(self)@.save_due_at
                },
                ..old(self)@
            }),
    {
        match self.save_due_at {
            Some(t) => if now as u128 >= t {
                self.save_due_at = None;
                true
            } else {
                false
            },
            None => false,
        }
    }

    /// A view was chosen in the rail. Returns whether that is another view than before, so that
    /// the settings have to be saved.
    pub fn show_rail(&mut self, chosen: ViewMode) -> (r: bool)
        ensures
            final(self)@ == (AppView { view_mode: chosen, ..old(self)@ }),
            r == (chosen != old(self)@.view_mode),
    {
        let changed = self.view_mode != chosen;
        self.view_mode = chosen;
        changed
    }

    /// The settings button in the rail was clicked: it opens and closes the settings panel of
    /// the active view.
    pub fn toggle_settings(&self, monitor: &mut MonitorPanel, upscale: &mut UpscalePanel)
        ensures
            final(monitor)@ == (MonitorView {
                input_panel_open: old(monitor)@.input_panel_open != (self@.view_mode
                    == ViewMode::Monitor),
                ..old(monitor)@
            }),
            final(upscale)@ == (UpscaleView {
                settings_panel_open: old(upscale)@.settings_panel_open != (self@.view_mode
                    == ViewMode::Upscale),
                ..old(upscale)@
            }),
    {
        match self.view_mode {
            ViewMode::Monitor => {
                monitor.input_panel_open = !monitor.input_panel_open;
            },
            ViewMode::Upscale => {
                upscale.settings_panel_open = !upscale.settings_panel_open;
            },
        }
    }

    /// Whether the panel with the hardware controls is shown.
    pub fn shows_input_panel(&self, monitor: &MonitorPanel) -> (r: bool)
        ensures
            r == (self@.view_mode == ViewMode::Monitor && monitor@.input_panel_open),
    {
        self.view_mode == ViewMode::Monitor && monitor.input_panel_open
    }

    /// Whether the panel with the upscale settings is shown.
    pub fn shows_settings_panel(&self, upscale: &UpscalePanel) -> (r: bool)
        ensures
            r == (self@.view_mode == ViewMode::Upscale && upscale@.settings_panel_open),
    {
        self.view_mode == ViewMode::Upscale && upscale.settings_panel_open
    }

    /// What the middle of the window shows.
    pub fn central(&self, upscale: &UpscalePanel) -> (r: Central)
        ensures
            r == self@.central(upscale@),
    {
        if self.view_mode == ViewMode::Upscale && upscale.is_upscaling() {
            Central::UpscalePreview
        } else {
            Central::Player
        }
    }
}

/// The time that a capture has run for, where one runs; it is written over the video.
pub fn capture_clock(monitor: &MonitorPanel, now: u64) -> (r: Option<String>)
    ensures
        opt_text(r) == (if monitor@.state == CaptureState::Capturing {
            Some(monitor@.capture.elapsed_text(now))
        } else {
            None
        }),
{
    if monitor.state == CaptureState::Capturing {
        Some(monitor.capture.elapsed_str(now))
    } else {
        None
    }
}

/// The pause button of the player, which is offered except during a capture.
pub fn player_button(monitor: &MonitorPanel, paused: bool) -> (r: Option<&'static str>)
    ensures
        match r {
            Some(t) => monitor@.state != CaptureState::Capturing && t@ == (if paused {
                "▶"@
            } else {
                "⏸"@
            }),
            None => monitor@.state == CaptureState::Capturing,
        },
{
    if monitor.state == CaptureState::Capturing {
        None
    } else if paused {
        Some("▶")
    } else {
        Some("⏸")
    }
}

// ---------------------------------------------------------------------------
// Laws
// ---------------------------------------------------------------------------
/// The save waits until the settings have been left alone: after a change no save is due before
/// the delay is over, a further change starts the delay anew, and then the save is due.
pub proof fn law_save_is_debounced(a: AppView, first: u64, second: u64, now: u64)
    requires
        first <= second,
    ensures
        a.save_armed(first).save_due(now) <==> now >= first + SAVE_DELAY_NANOS,
        a.save_armed(first).save_armed(second) == a.save_armed(second),
        now < second + SAVE_DELAY_NANOS ==> !a.save_armed(first).save_armed(second).save_due(now),
{
}

/// In the monitor view the video is always there, whatever job runs.
pub proof fn law_monitor_shows_video(a: AppView, upscale: UpscaleView)
    requires
        a.view_mode == ViewMode::Monitor,
    ensures
        a.central(upscale) == Central::Player,
{
}

/// A save is due 750 milliseconds after the change, to the nanosecond, and not without a change.
pub proof fn law_when_a_save_is_due(a: AppView, changed: u64, now: u64)
    ensures
        a.save_armed(changed).save_due(now) <==> now >= changed + 750_000_000,
        a.save_due_at is None ==> !a.save_due(now),
        (AppView { save_due_at: a.save_due_at, ..a.save_armed(changed) }) == a,
{
}

/// The pictures of an upscale are shown exactly in the upscale view while an upscale runs.
pub proof fn law_when_pictures_are_shown(a: AppView, upscale: UpscaleView)
    ensures
        a.central(upscale) == Central::UpscalePreview <==> a.view_mode == ViewMode::Upscale
            && upscale.job is Some && upscale.job->0.is_upscale,
{
}

/// Two numbers with a slash between them are one word.
proof fn lemma_ratio_is_one_word(a: nat, b: nat)
    ensures
        words(decimal(a) + "/"@ + decimal(b)) == seq![decimal(a) + "/"@ + decimal(b)],
{
    let x = decimal(a);
    let y = decimal(b);
    let r = x + "/"@ + y;
    reveal_strlit("/");
    law_number_is_one_word(a);
    law_number_is_one_word(b);
    assert(!is_white('/'));
    assert forall|i: int| 0 <= i < r.len() implies !is_white(#[trigger] r[i]) by {
        if i < x.len() {
            assert(r[i] == x[i]);
        } else if i > x.len() {
            assert(r[i] == y[i - x.len() - 1]);
        }
    }
    law_word_of_solid(r);
}

proof fn lemma_summary_words()
    ensures
        words("⬆"@) == seq!["⬆"@],
        words("segs"@) == seq!["segs"@],
{
    reveal_strlit("⬆");
    reveal_strlit("segs");
    assert(solid("⬆"@) && solid("segs"@));
    law_word_of_solid("⬆"@);
    law_word_of_solid("segs"@);
}

proof fn lemma_summary_spaces()
    ensures
        "⬆ "@ == "⬆"@ + " "@,
        " segs  "@ == " "@ + "segs"@ + "  "@,
{
    reveal_strlit("⬆ ");
    reveal_strlit("⬆");
    reveal_strlit(" segs  ");
    reveal_strlit("segs");
    reveal_strlit(" ");
    reveal_strlit("  ");
    assert("⬆ "@ =~= "⬆"@ + " "@);
    assert(" segs  "@ =~= " "@ + "segs"@ + "  "@);
}

/// What the monitor view says of a job is, word by word, an arrow, the finished segments of all
/// segments where that is known, and the time that the job has run for.
pub proof fn law_summary_shows_the_counts(job: JobView, now: u64)
    ensures
        job.total_segments > 0 ==> words(summary_text(job, now)) == seq![
            "⬆"@,
            decimal(job.completed_segments as nat) + "/"@ + decimal(job.total_segments as nat),
            "segs"@,
        ] + words(job.elapsed_text(now)),
        job.total_segments == 0 ==> words(summary_text(job, now)) == seq!["⬆"@] + words(
            job.elapsed_text(now),
        ),
{
    let e = job.elapsed_text(now);
    let x = decimal(job.completed_segments as nat);
    let y = decimal(job.total_segments as nat);
    lemma_summary_words();
    lemma_summary_spaces();
    if job.total_segments > 0 {
        let r = x + "/"@ + y;
        lemma_ratio_is_one_word(job.completed_segments as nat, job.total_segments as nat);
        let a = "⬆"@ + " "@ + r;
        let b = a + " "@ + "segs"@;
        assert(summary_text(job, now) =~= b + "  "@ + e);
        law_spaces_part_words("⬆"@, r);
        law_spaces_part_words(a, "segs"@);
        law_spaces_part_words(b, e);
        assert(words(summary_text(job, now)) =~= seq!["⬆"@, r, "segs"@] + words(e));
    } else {
        assert(summary_text(job, now) =~= "⬆"@ + " "@ + e);
        law_spaces_part_words("⬆"@, e);
    }
}

} // verus!
