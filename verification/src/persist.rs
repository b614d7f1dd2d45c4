//! The settings that outlive a run of the program.
use vstd::prelude::*;
use vstd::utf8::encode_utf8;

use crate::config::under;
use crate::order::sorted_names;
use crate::panels::ViewMode;
use crate::path::{path_text, FilePath};
use crate::settings::{
    default_settings, models_dir_at, models_in, preset_dirs, preset_models_dirs, rocm_names, strs,
    Backend, BrightnessPreset, CrushPreset, ModelFile, SettingsView, UpscaleSettings,
};
use crate::text::same_text;
use crate::v4l2::{
    applied, numbered, preset_msgs, snapshot, CtrlMsg, Preset, V4l2Controls, CONTROL_COUNT,
};

verus! {

/// The part of the upscale settings that is saved.
pub struct PersistedUpscaleSettings {
    pub crush: CrushPreset,
    pub brightness: BrightnessPreset,
    pub brightness_custom: String,
    pub models_dir_idx: usize,
    pub models_dir_custom: String,
    /// Model stored by name so it survives directory rescans.
    pub model_name: Option<String>,
    pub internal_scale: u8,
    pub final_scale: u8,
    pub crf: u32,
    pub segment_secs: u32,
    pub backend: Backend,
    pub batch_size: u32,
    pub denoise: bool,
}

/// What a `PersistedUpscaleSettings` holds.
#[verifier::ext_equal]
pub struct PersistedView {
    pub crush: CrushPreset,
    pub brightness: BrightnessPreset,
    pub brightness_custom: Seq<char>,
    pub models_dir_idx: usize,
    pub models_dir_custom: Seq<char>,
    pub model_name: Option<Seq<char>>,
    pub internal_scale: u8,
    pub final_scale: u8,
    pub crf: u32,
    pub segment_secs: u32,
    pub backend: Backend,
    pub batch_size: u32,
    pub denoise: bool,
}

/// What an optional string holds.
pub open spec fn opt_text(s: Option<String>) -> Option<Seq<char>> {
    match s {
        Some(t) => Some(t@),
        None => None,
    }
}

impl View for PersistedUpscaleSettings {
    type V = PersistedView;

    open spec fn view(&self) -> PersistedView {
        PersistedView {
            crush: self.crush,
            brightness: self.brightness,
            brightness_custom: self.brightness_custom@,
            models_dir_idx: self.models_dir_idx,
            models_dir_custom: self.models_dir_custom@,
            model_name: opt_text(self.model_name),
            internal_scale: self.internal_scale,
            final_scale: self.final_scale,
            crf: self.crf,
            segment_secs: self.segment_secs,
            backend: self.backend,
            batch_size: self.batch_size,
            denoise: self.denoise,
        }
    }
}

/// The settings of a user who saved none.
pub open spec fn unsaved(home: Seq<char>) -> PersistedView {
    PersistedView {
        crush: CrushPreset::Off,
        brightness: BrightnessPreset::Off,
        brightness_custom: Seq::empty(),
        models_dir_idx: 0,
        models_dir_custom: path_text(preset_dirs(home)[0].1),
        model_name: None,
        internal_scale: 4,
        final_scale: 2,
        crf: 21,
        segment_secs: 30,
        backend: Backend::Rocm,
        batch_size: 2,
        denoise: false,
    }
}

/// What is saved of the live settings `s`.
pub open spec fn saved(s: SettingsView) -> PersistedView {
    PersistedView {
        crush: s.crush,
        brightness: s.brightness,
        brightness_custom: s.brightness_custom,
        models_dir_idx: s.models_dir_idx,
        models_dir_custom: s.models_dir_custom,
        model_name: s.selected(),
        internal_scale: s.internal_scale,
        final_scale: s.final_scale,
        crf: s.crf,
        segment_secs: s.segment_secs,
        backend: s.backend,
        batch_size: s.batch_size,
        denoise: s.denoise,
    }
}

/// The live settings `s` with everything but the models taken from `p`.
pub open spec fn overlaid(s: SettingsView, p: PersistedView) -> SettingsView {
    SettingsView {
        crush: p.crush,
        brightness: p.brightness,
        brightness_custom: p.brightness_custom,
        models_dir_idx: p.models_dir_idx,
        models_dir_custom: p.models_dir_custom,
        scanned_models: s.scanned_models,
        model_idx: s.model_idx,
        internal_scale: p.internal_scale,
        final_scale: p.final_scale,
        crf: p.crf,
        segment_secs: p.segment_secs,
        backend: p.backend,
        batch_size: p.batch_size,
        denoise: p.denoise,
    }
}

/// The live settings `s` after `p` was restored and the models `found` were scanned. Where the
/// list has the saved model, it is selected and the saved internal scale goes with it; where it
/// does not, both are what the scan left.
pub open spec fn restored(
    s: SettingsView,
    p: PersistedView,
    found: Seq<Seq<char>>,
) -> SettingsView {
    let scanned = overlaid(s, p).rescanned(found);
    match p.model_name {
        Some(name) => if scanned.model_list().contains(name) {
            SettingsView {
                model_idx: scanned.model_list().index_of_first(name)->0 as usize,
                internal_scale: p.internal_scale,
                ..scanned
            }
        } else {
            scanned
        },
        None => scanned,
    }
}

impl PersistedUpscaleSettings {
    /// The settings of a user who saved none.
    pub fn initial(home: &str) -> (r: Self)
        ensures
            r@ == unsaved(home@),
    {
        let presets = preset_models_dirs(home);
        PersistedUpscaleSettings {
            crush: CrushPreset::Off,
            brightness: BrightnessPreset::Off,
            brightness_custom: String::new(),
            models_dir_idx: 0,
            models_dir_custom: presets[0].1.lossy_text(),
            model_name: None,
            internal_scale: 4,
            final_scale: 2,
            crf: 21,
            segment_secs: 30,
            backend: Backend::Rocm,
            batch_size: 2,
            denoise: false,
        }
    }

    /// The models directory that the settings name, which is the one to scan when they are
    /// restored.
    pub fn models_dir(&self, home: &str) -> (r: FilePath)
        ensures
            forall|s: SettingsView| r@ == #[trigger] overlaid(s, self@).models_dir(home@),
    {
        models_dir_at(self.models_dir_idx, self.models_dir_custom.as_str(), home)
    }
}

/// Everything that is saved.
pub struct AppSettings {
    pub mode: ViewMode,
    pub v4l2: Preset,
    pub upscale: PersistedUpscaleSettings,
}

impl AppSettings {
    /// The settings of a user who saved none.
    pub fn initial(home: &str) -> (r: Self)
        ensures
            r.mode == ViewMode::Monitor,
            r.v4l2.wf(),
            r.v4l2@ == Map::<Seq<char>, i32>::empty(),
            r.upscale@ == unsaved(home@),
    {
        AppSettings {
            mode: ViewMode::Monitor,
            v4l2: Preset::new(),
            upscale: PersistedUpscaleSettings::initial(home),
        }
    }

    /// The file that holds the settings of the user whose home directory is `home`.
    pub fn config_path(home: &str) -> (r: FilePath)
        ensures
            r@ == under(encode_utf8(home@), ".config/vhs-gui/config.toml"@),
    {
        FilePath::from_text(home).join(".config/vhs-gui/config.toml")
    }

    /// Apply loaded settings to the live ones. `files` is what the models directory that the
    /// settings name holds. Returns the requests that bring the capture device to the saved
    /// preset.
    pub fn apply_to(
        &self,
        view_mode: &mut ViewMode,
        v4l2: &mut V4l2Controls,
        upscale: &mut UpscaleSettings,
        files: &Vec<ModelFile>,
    ) -> (r: Vec<CtrlMsg>)
        requires
            self.v4l2.wf(),
            old(v4l2).wf(),
        ensures
            *final(view_mode) == self.mode,
            final(v4l2).wf(),
            final(v4l2).ctrls@.len() == old(v4l2).ctrls@.len(),
            forall|i: int|
                0 <= i < old(v4l2).ctrls@.len() ==> #[trigger] final(v4l2).ctrls@[i] == (if i
                    < CONTROL_COUNT {
                    applied(old(v4l2).ctrls@[i], self.v4l2@)
                } else {
                    old(v4l2).ctrls@[i]
                }),
            r@ == preset_msgs(final(v4l2).ctrls@, self.v4l2@, numbered(old(v4l2).ctrls@)),
            final(upscale)@ == restored(
                old(upscale)@,
                self.upscale@,
                sorted_names(models_in(files@)),
            ),
            final(upscale).crush == self.upscale.crush,
            final(upscale).brightness == self.upscale.brightness,
            final(upscale).brightness_custom@ == self.upscale.brightness_custom@,
            final(upscale).models_dir_idx == self.upscale.models_dir_idx,
            final(upscale).models_dir_custom@ == self.upscale.models_dir_custom@,
            final(upscale).final_scale == self.upscale.final_scale,
            final(upscale).crf == self.upscale.crf,
            final(upscale).segment_secs == self.upscale.segment_secs,
            final(upscale).backend == self.upscale.backend,
            final(upscale).batch_size == self.upscale.batch_size,
            final(upscale).denoise == self.upscale.denoise,
    {
        *view_mode = self.mode;
        let msgs: Vec<CtrlMsg> = if !self.v4l2.is_empty() {
            v4l2.apply_values(&self.v4l2)
        } else {
            proof {
                lemma_empty_preset_msgs(v4l2.ctrls@, numbered(v4l2.ctrls@));
            }
            Vec::new()
        };
        upscale.crush = self.upscale.crush;
        upscale.brightness = self.upscale.brightness;
        upscale.brightness_custom = self.upscale.brightness_custom.clone();
        upscale.models_dir_idx = self.upscale.models_dir_idx;
        upscale.models_dir_custom = self.upscale.models_dir_custom.clone();
        upscale.internal_scale = self.upscale.internal_scale;
        upscale.final_scale = self.upscale.final_scale;
        upscale.crf = self.upscale.crf;
        upscale.segment_secs = self.upscale.segment_secs;
        upscale.backend = self.upscale.backend;
        upscale.batch_size = self.upscale.batch_size;
        upscale.denoise = self.upscale.denoise;
        assert(upscale@ =~= overlaid(old(upscale)@, self.upscale@));
        upscale.rescan(files);
        if let Some(name) = &self.upscale.model_name {
            let found = position_of(&upscale.effective_model_list(), name.as_str());
            if let Some(idx) = found {
                upscale.model_idx = idx;
                upscale.internal_scale = self.upscale.internal_scale;
            }
        }
        msgs
    }

    /// Snapshot current live state into an AppSettings ready for saving.
    pub fn capture_from(
        view_mode: &ViewMode,
        v4l2: &V4l2Controls,
        upscale: &UpscaleSettings,
    ) -> (r: Self)
        ensures
            r.mode == *view_mode,
            r.v4l2.wf(),
            r.v4l2@ == snapshot(v4l2.ctrls@, v4l2.ctrls@.len() as int),
            r.upscale@ == saved(upscale@),
            r.upscale.crush == upscale.crush,
            r.upscale.brightness == upscale.brightness,
            r.upscale.brightness_custom@ == upscale.brightness_custom@,
            r.upscale.models_dir_idx == upscale.models_dir_idx,
            r.upscale.models_dir_custom@ == upscale.models_dir_custom@,
            opt_text(r.upscale.model_name) == upscale@.selected(),
            r.upscale.internal_scale == upscale.internal_scale,
            r.upscale.final_scale == upscale.final_scale,
            r.upscale.crf == upscale.crf,
            r.upscale.segment_secs == upscale.segment_secs,
            r.upscale.backend == upscale.backend,
            r.upscale.batch_size == upscale.batch_size,
            r.upscale.denoise == upscale.denoise,
    {
        let model_name = match upscale.selected_model() {
            Some(m) => Some(m.to_owned()),
            None => None,
        };
        AppSettings {
            mode: *view_mode,
            v4l2: v4l2.to_preset(),
            upscale: PersistedUpscaleSettings {
                crush: upscale.crush,
                brightness: upscale.brightness,
                brightness_custom: upscale.brightness_custom.clone(),
                models_dir_idx: upscale.models_dir_idx,
                models_dir_custom: upscale.models_dir_custom.clone(),
                model_name,
                internal_scale: upscale.internal_scale,
                final_scale: upscale.final_scale,
                crf: upscale.crf,
                segment_secs: upscale.segment_secs,
                backend: upscale.backend,
                batch_size: upscale.batch_size,
                denoise: upscale.denoise,
            },
        }
    }
}

/// Where `name` first stands in `list`.
fn position_of(list: &Vec<&str>, name: &str) -> (r: Option<usize>)
    ensures
        match r {
            Some(i) => strs(list@).contains(name@) && strs(list@).index_of_first(name@)
                == Some(i as int),
            None => !strs(list@).contains(name@),
        },
{
    let ghost all = strs(list@);
    let mut i: usize = 0;
    while i < list.len()
        invariant
            i <= list@.len(),
            all == strs(list@),
            forall|j: int| 0 <= j < i ==> #[trigger] all[j] != name@,
        decreases list@.len() - i,
    {
        if same_text(list[i], name) {
            assert(all[i as int] == name@);
            proof {
                all.index_of_first_ensures(name@);
            }
            return Some(i);
        }
        assert(all[i as int] == list@[i as int]@);
        i = i + 1;
    }
    None
}

proof fn lemma_empty_preset_msgs(ctrls: Seq<crate::v4l2::V4l2Control>, n: int)
    ensures
        preset_msgs(ctrls, Map::<Seq<char>, i32>::empty(), n) == Seq::<CtrlMsg>::empty(),
    decreases n,
{
    if n > 0 {
        lemma_empty_preset_msgs(ctrls, n - 1);
    }
}

// ---------------------------------------------------------------------------
// Laws
// ---------------------------------------------------------------------------
/// What was saved comes back: restoring what was saved of `s` over any live settings gives the
/// knobs of `s`. Where the list still has the model that was selected in `s`, it is selected
/// again, with the internal scale of `s`.
pub proof fn law_saved_settings_come_back(
    s: SettingsView,
    live: SettingsView,
    found: Seq<Seq<char>>,
)
    ensures
        ({
            let r = restored(live, saved(s), found);
            &&& r.crush == s.crush
            &&& r.brightness == s.brightness
            &&& r.brightness_custom == s.brightness_custom
            &&& r.models_dir_idx == s.models_dir_idx
            &&& r.models_dir_custom == s.models_dir_custom
            &&& r.final_scale == s.final_scale
            &&& r.crf == s.crf
            &&& r.segment_secs == s.segment_secs
            &&& r.backend == s.backend
            &&& r.batch_size == s.batch_size
            &&& r.denoise == s.denoise
            &&& r.scanned_models == found
            &&& (s.selected() is Some && r.model_list().contains(s.selected()->0)
                ==> r.internal_scale == s.internal_scale)
            &&& (s.selected() is Some && r.model_list().contains(s.selected()->0)
                && r.model_list().len() <= usize::MAX ==> r.selected() == s.selected())
        }),
{
    let p = saved(s);
    let t = overlaid(live, p).rescanned(found);
    match s.selected() {
        Some(name) => {
            if t.model_list().contains(name) {
                t.model_list().index_of_first_ensures(name);
            }
        },
        None => {},
    }
}

/// Whatever settings `p` are restored, whoever wrote them: each live knob other than the models
/// has the value of the field of the same name, and the models are those that were scanned.
pub proof fn law_each_field_is_restored(
    live: SettingsView,
    p: PersistedView,
    found: Seq<Seq<char>>,
)
    ensures
        ({
            let r = restored(live, p, found);
            &&& r.crush == p.crush
            &&& r.brightness == p.brightness
            &&& r.brightness_custom == p.brightness_custom
            &&& r.models_dir_idx == p.models_dir_idx
            &&& r.models_dir_custom == p.models_dir_custom
            &&& r.final_scale == p.final_scale
            &&& r.crf == p.crf
            &&& r.segment_secs == p.segment_secs
            &&& r.backend == p.backend
            &&& r.batch_size == p.batch_size
            &&& r.denoise == p.denoise
            &&& r.scanned_models == found
        }),
{
}

/// A saved model is selected by its name, wherever it stands in the list now, and with it comes
/// the saved internal scale. Where the list does not have it, a model of the list is selected,
/// and the internal scale is that of this model, or the saved one where its name gives none away.
pub proof fn law_model_is_restored_by_name(
    live: SettingsView,
    p: PersistedView,
    found: Seq<Seq<char>>,
)
    requires
        restored(live, p, found).model_list().len() <= usize::MAX,
    ensures
        ({
            let r = restored(live, p, found);
            let known = p.model_name is Some && r.model_list().contains(p.model_name->0);
            &&& r.model_list() == if p.backend == Backend::Rocm {
                rocm_names()
            } else {
                found
            }
            &&& known ==> r.selected() == p.model_name && r.internal_scale == p.internal_scale
            &&& !known && r.model_list().len() > 0 ==> r.selected() is Some
            &&& !known && r.fixed_scale() is Some ==> Some(r.internal_scale) == r.fixed_scale()
            &&& !known && r.fixed_scale() is None ==> r.internal_scale == p.internal_scale
            &&& !known && live.model_idx < r.model_list().len() ==> r.model_idx == live.model_idx
        }),
{
    let t = overlaid(live, p).rescanned(found);
    if let Some(name) = p.model_name {
        if t.model_list().contains(name) {
            t.model_list().index_of_first_ensures(name);
        }
    }
}

/// Each field of what is saved has the value of the live knob of the same name.
pub proof fn law_each_knob_is_saved(s: SettingsView)
    ensures
        saved(s).crush == s.crush,
        saved(s).brightness == s.brightness,
        saved(s).brightness_custom == s.brightness_custom,
        saved(s).models_dir_idx == s.models_dir_idx,
        saved(s).models_dir_custom == s.models_dir_custom,
        saved(s).internal_scale == s.internal_scale,
        saved(s).final_scale == s.final_scale,
        saved(s).crf == s.crf,
        saved(s).segment_secs == s.segment_secs,
        saved(s).backend == s.backend,
        saved(s).batch_size == s.batch_size,
        saved(s).denoise == s.denoise,
        s.model_idx < s.model_list().len() ==> saved(s).model_name == Some(
            s.model_list()[s.model_idx as int],
        ),
        s.model_idx >= s.model_list().len() ==> saved(s).model_name is None,
{
}

/// Where nothing was saved, the settings stay those that the program starts with.
pub proof fn law_nothing_saved_changes_nothing(home: Seq<char>, found: Seq<Seq<char>>)
    ensures
        ({
            let s = default_settings(home, found);
            let p = unsaved(home);
            &&& p.model_name is None
            &&& overlaid(s, p) == s
        }),
{
}

} // verus!
