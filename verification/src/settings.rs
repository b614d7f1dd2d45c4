//! What an upscale job is run with.
use vstd::prelude::*;
use vstd::utf8::encode_utf8;

use crate::number::{decimal, decimal_text, law_decimal_spells};
use crate::order::{law_sorted_names, sort_names, sorted_names};
use crate::path::{
    file_stem_text, has_extension, joined, law_text_reads_back, path_text, FilePath,
};
use crate::text::{
    ascii_lower, ascii_text, has_text, holds_text, lowercase, occurs_at, same_text, starts_with,
    texts, to_lower, trim, trimmed,
};

verus! {

// -----------------------------------------------------------------------
// Enums
// -----------------------------------------------------------------------
/// How strongly dark values are crushed before upscaling.
#[derive(Clone, Copy, Debug, PartialEq, Eq, Structural)]
pub enum CrushPreset {
    /// No crush.
    Off,
    Small,
    Medium,
    Heavy,
}

impl Default for CrushPreset {
    fn default() -> (r: Self)
        ensures
            r == CrushPreset::Off,
    {
        CrushPreset::Off
    }
}

impl CrushPreset {
    /// Every preset, in the order in which they are offered.
    pub fn all() -> (r: Vec<Self>)
        ensures
            r@ == seq![
                CrushPreset::Off,
                CrushPreset::Small,
                CrushPreset::Medium,
                CrushPreset::Heavy,
            ],
    {
        vec![CrushPreset::Off, CrushPreset::Small, CrushPreset::Medium, CrushPreset::Heavy]
    }

    pub fn label(&self) -> (r: &'static str)
        ensures
            r@ == match *self {
                CrushPreset::Off => "None"@,
                CrushPreset::Small => "Small"@,
                CrushPreset::Medium => "Medium"@,
                CrushPreset::Heavy => "Heavy"@,
            },
    {
        match self {
            CrushPreset::Off => "None",
            CrushPreset::Small => "Small",
            CrushPreset::Medium => "Medium",
            CrushPreset::Heavy => "Heavy",
        }
    }

    /// The value of the `CRUSH` variable.
    pub open spec fn env_text(self) -> Seq<char> {
        match self {
            CrushPreset::Off => "none"@,
            CrushPreset::Small => "small"@,
            CrushPreset::Medium => "medium"@,
            CrushPreset::Heavy => "heavy"@,
        }
    }

    pub fn env_value(&self) -> (r: &'static str)
        ensures
            r@ == self.env_text(),
    {
        match self {
            CrushPreset::Off => "none",
            CrushPreset::Small => "small",
            CrushPreset::Medium => "medium",
            CrushPreset::Heavy => "heavy",
        }
    }
}

/// How far the picture is brightened before upscaling.
#[derive(Clone, Copy, Debug, PartialEq, Eq, Structural)]
pub enum BrightnessPreset {
    /// No brightening.
    Off,
    Low,
    Medium,
    High,
    Custom,
}

impl Default for BrightnessPreset {
    fn default() -> (r: Self)
        ensures
            r == BrightnessPreset::Off,
    {
        BrightnessPreset::Off
    }
}

impl BrightnessPreset {
    /// Every preset, in the order in which they are offered.
    pub fn all() -> (r: Vec<Self>)
        ensures
            r@ == seq![
                BrightnessPreset::Off,
                BrightnessPreset::Low,
                BrightnessPreset::Medium,
                BrightnessPreset::High,
                BrightnessPreset::Custom,
            ],
    {
        vec![
            BrightnessPreset::Off,
            BrightnessPreset::Low,
            BrightnessPreset::Medium,
            BrightnessPreset::High,
            BrightnessPreset::Custom,
        ]
    }

    pub fn label(&self) -> (r: &'static str)
        ensures
            r@ == match *self {
                BrightnessPreset::Off => "None (0)"@,
                BrightnessPreset::Low => "Low (0.02)"@,
                BrightnessPreset::Medium => "Medium (0.05)"@,
                BrightnessPreset::High => "High (0.095)"@,
                BrightnessPreset::Custom => "Custom…"@,
            },
    {
        match self {
            BrightnessPreset::Off => "None (0)",
            BrightnessPreset::Low => "Low (0.02)",
            BrightnessPreset::Medium => "Medium (0.05)",
            BrightnessPreset::High => "High (0.095)",
            BrightnessPreset::Custom => "Custom…",
        }
    }

    /// The value of the `BRIGHTNESS` variable.
    pub open spec fn env_text(self, custom: Seq<char>) -> Seq<char> {
        match self {
            BrightnessPreset::Off => "none"@,
            BrightnessPreset::Low => "low"@,
            BrightnessPreset::Medium => "medium"@,
            BrightnessPreset::High => "high"@,
            BrightnessPreset::Custom => trim(custom),
        }
    }

    pub fn env_value(&self, custom: &str) -> (r: String)
        ensures
            r@ == self.env_text(custom@),
    {
        match self {
            BrightnessPreset::Off => "none".to_owned(),
            BrightnessPreset::Low => "low".to_owned(),
            BrightnessPreset::Medium => "medium".to_owned(),
            BrightnessPreset::High => "high".to_owned(),
            BrightnessPreset::Custom => trimmed(custom),
        }
    }
}

/// What runs the upscaling model.
#[derive(Clone, Copy, Debug, PartialEq, Eq, Structural)]
pub enum Backend {
    Rocm,
    Vulkan,
}

impl Default for Backend {
    fn default() -> (r: Self)
        ensures
            r == Backend::Rocm,
    {
        Backend::Rocm
    }
}

impl Backend {
    /// The value of the `UPSCALE_BACKEND` variable.
    pub open spec fn env_text(self) -> Seq<char> {
        match self {
            Backend::Rocm => "rocm"@,
            Backend::Vulkan => "vulkan"@,
        }
    }

    pub fn env_value(&self) -> (r: &'static str)
        ensures
            r@ == self.env_text(),
    {
        match self {
            Backend::Rocm => "rocm",
            Backend::Vulkan => "vulkan",
        }
    }
}

// -----------------------------------------------------------------------
// Model discovery
// -----------------------------------------------------------------------
/// The contents of a list of string slices.
pub open spec fn strs(v: Seq<&str>) -> Seq<Seq<char>> {
    Seq::new(v.len(), |i: int| v[i]@)
}

/// The models of the ROCm backend.
pub open spec fn rocm_names() -> Seq<Seq<char>> {
    seq![
        "realesrgan-x4plus"@,
        "realesrgan-x4plus-anime"@,
        "realesrgan-x2plus"@,
        "2x_VHS-Film"@,
        "ToonVHS-1x"@,
        "VHS-Sharpen-1x"@,
    ]
}

/// Model names available on the ROCm backend.
pub fn rocm_models() -> (r: Vec<&'static str>)
    ensures
        strs(r@) == rocm_names(),
{
    let r = vec![
        "realesrgan-x4plus",
        "realesrgan-x4plus-anime",
        "realesrgan-x2plus",
        "2x_VHS-Film",
        "ToonVHS-1x",
        "VHS-Sharpen-1x",
    ];
    assert(strs(r@) =~= rocm_names());
    r
}

/// The preset models directories of the user whose home directory is `home`: their labels and
/// their paths.
pub open spec fn preset_dirs(home: Seq<char>) -> Seq<(Seq<char>, Seq<u8>)> {
    seq![
        ("Standard"@, joined(encode_utf8(home), encode_utf8("opt/realesrgan-ncnn/models"@))),
        ("Downloads/ncnn"@, joined(encode_utf8(home), encode_utf8("Downloads/models/ncnn"@))),
    ]
}

/// What a list of labelled directories holds.
pub open spec fn dirs_view(v: Seq<(String, FilePath)>) -> Seq<(Seq<char>, Seq<u8>)> {
    Seq::new(v.len(), |i: int| (v[i].0@, v[i].1@))
}

/// Preset models directories: display label and path.
pub fn preset_models_dirs(home: &str) -> (r: Vec<(String, FilePath)>)
    ensures
        dirs_view(r@) == preset_dirs(home@),
        r@.len() == preset_dirs(home@).len(),
        forall|i: int|
            0 <= i < r@.len() ==> (#[trigger] r@[i]).0@ == preset_dirs(home@)[i].0 && r@[i].1@
                == preset_dirs(home@)[i].1,
{
    let base = FilePath::from_text(home);
    let mut r: Vec<(String, FilePath)> = Vec::new();
    r.push(("Standard".to_owned(), base.join("opt/realesrgan-ncnn/models")));
    r.push(("Downloads/ncnn".to_owned(), base.join("Downloads/models/ncnn")));
    assert(dirs_view(r@) =~= preset_dirs(home@));
    r
}

/// The models directory at a place in the list of choices: a preset, or behind those the one
/// that the user entered.
pub open spec fn chosen_dir(idx: usize, custom: Seq<char>, home: Seq<char>) -> Seq<u8> {
    if idx < preset_dirs(home).len() {
        preset_dirs(home)[idx as int].1
    } else {
        encode_utf8(custom)
    }
}

/// The models directory at a place in the list of choices.
pub fn models_dir_at(idx: usize, custom: &str, home: &str) -> (r: FilePath)
    ensures
        r@ == chosen_dir(idx, custom@, home@),
{
    let presets = preset_models_dirs(home);
    if idx < presets.len() {
        presets[idx].1.clone()
    } else {
        FilePath::from_text(custom)
    }
}

/// The Vulkan runner knows the network of a model by its name. It runs these families only, and
/// crashes on every other name.
pub open spec fn vulkan_compatible(name: Seq<char>) -> bool {
    ||| name == "realesrgan-x4plus"@
    ||| name == "realesrgan-x4plus-anime"@
    ||| name == "realesrnet-x4plus"@
    ||| "realesr-animevideov3"@.is_prefix_of(name)
}

/// Whether the Vulkan runner can run the model.
pub fn is_vulkan_compatible(name: &str) -> (r: bool)
    ensures
        r == vulkan_compatible(name@),
{
    same_text(name, "realesrgan-x4plus") || same_text(name, "realesrgan-x4plus-anime")
        || same_text(name, "realesrnet-x4plus") || starts_with(name, "realesr-animevideov3")
}

/// A file of a models directory, and whether the file of the same name with the extension
/// `bin` exists.
pub struct ModelFile {
    pub path: FilePath,
    pub has_bin: bool,
}

/// The model that a file stands for: a `.param` file with its `.bin`, of a family that the
/// Vulkan runner can run.
pub open spec fn model_of(f: ModelFile) -> Option<Seq<char>> {
    match file_stem_text(f.path@) {
        Some(stem) => if has_extension(f.path@, "param"@) && f.has_bin && vulkan_compatible(stem) {
            Some(stem)
        } else {
            None
        },
        None => None,
    }
}

/// The models that the files of a directory stand for, in the order of the files.
pub open spec fn models_in(files: Seq<ModelFile>) -> Seq<Seq<char>>
    decreases files.len(),
{
    if files.len() == 0 {
        Seq::empty()
    } else {
        let front = models_in(files.drop_last());
        match model_of(files.last()) {
            Some(name) => front.push(name),
            None => front,
        }
    }
}

/// The models of a directory that the Vulkan runner can run, sorted by name.
pub fn scan_models(files: &Vec<ModelFile>) -> (r: Vec<String>)
    ensures
        texts(r@) == sorted_names(models_in(files@)),
{
    let mut found: Vec<String> = Vec::new();
    let mut i: usize = 0;
    assert(texts(found@) =~= Seq::<Seq<char>>::empty());
    while i < files.len()
        invariant
            i <= files@.len(),
            texts(found@) == models_in(files@.take(i as int)),
        decreases files@.len() - i,
    {
        assert(files@.take(i + 1).drop_last() =~= files@.take(i as int));
        if files[i].path.has_extension("param") {
            match files[i].path.file_stem_text() {
                Some(stem) => {
                    if files[i].has_bin && is_vulkan_compatible(stem.as_str()) {
                        let ghost before = texts(found@).push(stem@);
                        found.push(stem);
                        assert(texts(found@) =~= before);
                    }
                },
                None => {},
            }
        }
        i = i + 1;
    }
    assert(files@.take(files@.len() as int) =~= files@);
    sort_names(&found)
}

/// A lower-case name says that its model scales by the digit `d`: it starts with `dx_`, or holds
/// `-xd` or `-dx`.
pub open spec fn names_scale(lower: Seq<char>, d: char) -> bool {
    ||| seq![d, 'x', '_'].is_prefix_of(lower)
    ||| holds_text(lower, seq!['-', 'x', d])
    ||| holds_text(lower, seq!['-', d, 'x'])
}

/// The scale that a lower-case model name gives away; the smallest one where it names several.
pub open spec fn scale_named(lower: Seq<char>) -> Option<u8> {
    if names_scale(lower, '1') {
        Some(1)
    } else if names_scale(lower, '2') {
        Some(2)
    } else if names_scale(lower, '3') {
        Some(3)
    } else if names_scale(lower, '4') {
        Some(4)
    } else {
        None
    }
}

/// The scale that a model name gives away.
pub open spec fn native_scale(name: Seq<char>) -> Option<u8> {
    scale_named(lowercase(name))
}

/// Whether a lower-case name says that its model scales by the digit `d`.
fn says_scale(lower: &str, d: char) -> (r: bool)
    ensures
        r == names_scale(lower@, d),
{
    let mut prefix = String::new();
    prefix.push(d);
    prefix.push('x');
    prefix.push('_');
    let mut after = String::new();
    after.push('-');
    after.push('x');
    after.push(d);
    let mut before = String::new();
    before.push('-');
    before.push(d);
    before.push('x');
    assert(prefix@ =~= seq![d, 'x', '_']);
    assert(after@ =~= seq!['-', 'x', d]);
    assert(before@ =~= seq!['-', d, 'x']);
    starts_with(lower, prefix.as_str()) || has_text(lower, after.as_str()) || has_text(
        lower,
        before.as_str(),
    )
}

/// The scale that a lower-case model name gives away.
pub fn scale_in(lower: &str) -> (r: Option<u8>)
    ensures
        r == scale_named(lower@),
{
    if says_scale(lower, '1') {
        Some(1)
    } else if says_scale(lower, '2') {
        Some(2)
    } else if says_scale(lower, '3') {
        Some(3)
    } else if says_scale(lower, '4') {
        Some(4)
    } else {
        None
    }
}

/// Infer the native scale from a model name. Returns `Some` when certain.
/// Handles prefix patterns (2x_, 4x_), -xN suffixes (realesr-animevideov3-x4),
/// and -Nx suffixes (ToonVHS-1x, VHS-Sharpen-1x).
pub fn infer_scale(model_name: &str) -> (r: Option<u8>)
    ensures
        r == native_scale(model_name@),
        ascii_text(model_name@) ==> r == scale_named(
            model_name@.map_values(|c: char| ascii_lower(c)),
        ),
{
    scale_in(to_lower(model_name).as_str())
}

// -----------------------------------------------------------------------
// UpscaleSettings
// -----------------------------------------------------------------------
/// The smallest and the largest value of the quality slider.
pub const CRF_MIN: u32 = 14;

pub const CRF_MAX: u32 = 28;

/// The smallest and the largest length of a segment, in seconds.
pub const SEGMENT_SECS_MIN: u32 = 10;

pub const SEGMENT_SECS_MAX: u32 = 120;

/// The smallest and the largest number of frames per call of the ROCm backend.
pub const BATCH_SIZE_MIN: u32 = 1;

pub const BATCH_SIZE_MAX: u32 = 8;

pub struct UpscaleSettings {
    pub crush: CrushPreset,
    pub brightness: BrightnessPreset,
    pub brightness_custom: String,
    /// Index into the preset models directories. Past their end, the custom directory is used.
    pub models_dir_idx: usize,
    pub models_dir_custom: String,
    /// Model names found in the models directory.
    pub scanned_models: Vec<String>,
    /// Selected index into the effective model list (ROCm or scanned).
    pub model_idx: usize,
    pub internal_scale: u8,
    pub final_scale: u8,
    pub crf: u32,
    pub segment_secs: u32,
    pub backend: Backend,
    pub batch_size: u32,
    pub denoise: bool,
}

/// What an `UpscaleSettings` holds.
#[verifier::ext_equal]
pub struct SettingsView {
    pub crush: CrushPreset,
    pub brightness: BrightnessPreset,
    pub brightness_custom: Seq<char>,
    pub models_dir_idx: usize,
    pub models_dir_custom: Seq<char>,
    pub scanned_models: Seq<Seq<char>>,
    pub model_idx: usize,
    pub internal_scale: u8,
    pub final_scale: u8,
    pub crf: u32,
    pub segment_secs: u32,
    pub backend: Backend,
    pub batch_size: u32,
    pub denoise: bool,
}

impl View for UpscaleSettings {
    type V = SettingsView;

    open spec fn view(&self) -> SettingsView {
        SettingsView {
            crush: self.crush,
            brightness: self.brightness,
            brightness_custom: self.brightness_custom@,
            models_dir_idx: self.models_dir_idx,
            models_dir_custom: self.models_dir_custom@,
            scanned_models: texts(self.scanned_models@),
            model_idx: self.model_idx,
            internal_scale: self.internal_scale,
            final_scale: self.final_scale,
            crf: self.crf,
            segment_secs: self.segment_secs,
            backend: self.backend,
            batch_size: self.batch_size,
            denoise: self.denoise,
        }
    }
}

impl SettingsView {
    /// The models that can be selected.
    pub open spec fn model_list(self) -> Seq<Seq<char>> {
        match self.backend {
            Backend::Rocm => rocm_names(),
            Backend::Vulkan => self.scanned_models,
        }
    }

    /// The selected model, where the index stands for one.
    pub open spec fn selected(self) -> Option<Seq<char>> {
        if self.model_idx < self.model_list().len() {
            Some(self.model_list()[self.model_idx as int])
        } else {
            None
        }
    }

    /// The scale that the selected model gives away.
    pub open spec fn fixed_scale(self) -> Option<u8> {
        match self.selected() {
            Some(name) => native_scale(name),
            None => None,
        }
    }

    /// The models directory in use.
    pub open spec fn models_dir(self, home: Seq<char>) -> Seq<u8> {
        chosen_dir(self.models_dir_idx, self.models_dir_custom, home)
    }

    /// The internal scale brought in line with the selected model, where that gives one away.
    pub open spec fn scale_synced(self) -> SettingsView {
        match self.fixed_scale() {
            Some(s) => SettingsView { internal_scale: s, ..self },
            None => self,
        }
    }

    /// The settings after the models `found` were scanned: an index past the end goes back to the
    /// first model, and the internal scale follows the selected model.
    pub open spec fn rescanned(self, found: Seq<Seq<char>>) -> SettingsView {
        let s = SettingsView { scanned_models: found, ..self };
        let n = s.model_list().len();
        let t = if s.model_idx > 0 && s.model_idx >= n {
            SettingsView { model_idx: 0, ..s }
        } else {
            s
        };
        t.scale_synced()
    }
}

/// What a list of environment variables holds.
pub open spec fn pairs(v: Seq<(String, String)>) -> Seq<(Seq<char>, Seq<char>)> {
    Seq::new(v.len(), |i: int| (v[i].0@, v[i].1@))
}

/// The list sets the variable `key`, once, and to `value`.
pub open spec fn sets(envs: Seq<(Seq<char>, Seq<char>)>, key: Seq<char>, value: Seq<char>) -> bool {
    &&& envs.contains((key, value))
    &&& forall|i: int, j: int|
        0 <= i < envs.len() && 0 <= j < envs.len() && (#[trigger] envs[i]).0 == key && (
        #[trigger] envs[j]).0 == key ==> i == j
}

/// The list does not set the variable `key`.
pub open spec fn leaves_unset(envs: Seq<(Seq<char>, Seq<char>)>, key: Seq<char>) -> bool {
    forall|i: int| 0 <= i < envs.len() ==> (#[trigger] envs[i]).0 != key
}

/// Adds an environment variable.
pub(crate) fn push_env(envs: &mut Vec<(String, String)>, key: &str, value: String)
    ensures
        pairs(final(envs)@) == pairs(old(envs)@).push((key@, value@)),
{
    let ghost before = pairs(envs@).push((key@, value@));
    envs.push((key.to_owned(), value));
    assert(pairs(envs@) =~= before);
}

/// The environment variables that every upscale job gets.
pub open spec fn common_envs(s: SettingsView) -> Seq<(Seq<char>, Seq<char>)> {
    seq![
        ("CRUSH"@, s.crush.env_text()),
        ("BRIGHTNESS"@, s.brightness.env_text(s.brightness_custom)),
        ("UPSCALE_BACKEND"@, s.backend.env_text()),
        ("INTERNAL_SCALE"@, decimal(s.internal_scale as nat)),
        ("FINAL_SCALE"@, decimal(s.final_scale as nat)),
    ]
}

/// The environment variables of an upscale job. The ROCm backend takes a batch size, the Vulkan
/// backend a models directory.
pub open spec fn launch_envs(s: SettingsView, home: Seq<char>) -> Seq<(Seq<char>, Seq<char>)> {
    let backend = match s.backend {
        Backend::Rocm => common_envs(s).push(("BATCH_SIZE"@, decimal(s.batch_size as nat))),
        Backend::Vulkan => common_envs(s).push(("MODELS_DIR"@, path_text(s.models_dir(home)))),
    };
    let model = match s.selected() {
        Some(m) => backend.push(("MODEL"@, m)),
        None => backend,
    };
    if s.denoise {
        model.push(("DENOISE"@, "1"@))
    } else {
        model
    }
}

/// The arguments of an upscale job that follow its input.
pub open spec fn launch_args(s: SettingsView, output: Seq<u8>) -> Seq<Seq<char>> {
    seq![path_text(output), decimal(s.segment_secs as nat), decimal(s.crf as nat)]
}

// -----------------------------------------------------------------------
// The settings panel
// -----------------------------------------------------------------------
/// What the user did to one knob of the settings panel.
pub enum SettingsEdit {
    Backend(Backend),
    ModelsDir {
        /// The place of a models directory in the list of choices.
        idx: usize,
        /// Whether the user asked for a scan.
        asked: bool,
        /// What the directory holds; only looked at where it is to be scanned.
        files: Vec<ModelFile>,
    },
    /// The text of the custom models directory.
    ModelsDirText(String),
    /// The place of a model in the list.
    Model(usize),
    InternalScale(u8),
    FinalScale(u8),
    Crush(CrushPreset),
    Brightness(BrightnessPreset),
    /// The text of the custom brightness.
    BrightnessText(String),
    Crf(u32),
    SegmentSecs(u32),
    BatchSize(u32),
    Denoise(bool),
}

/// What a `SettingsEdit` holds.
#[verifier::ext_equal]
pub enum EditView {
    Backend(Backend),
    ModelsDir { idx: usize, asked: bool, found: Seq<Seq<char>> },
    ModelsDirText(Seq<char>),
    Model(usize),
    InternalScale(u8),
    FinalScale(u8),
    Crush(CrushPreset),
    Brightness(BrightnessPreset),
    BrightnessText(Seq<char>),
    Crf(u32),
    SegmentSecs(u32),
    BatchSize(u32),
    Denoise(bool),
}

impl View for SettingsEdit {
    type V = EditView;

    open spec fn view(&self) -> EditView {
        match self {
            SettingsEdit::Backend(b) => EditView::Backend(*b),
            SettingsEdit::ModelsDir { idx, asked, files } => EditView::ModelsDir {
                idx: *idx,
                asked: *asked,
                found: sorted_names(models_in(files@)),
            },
            SettingsEdit::ModelsDirText(t) => EditView::ModelsDirText(t@),
            SettingsEdit::Model(i) => EditView::Model(*i),
            SettingsEdit::InternalScale(n) => EditView::InternalScale(*n),
            SettingsEdit::FinalScale(n) => EditView::FinalScale(*n),
            SettingsEdit::Crush(c) => EditView::Crush(*c),
            SettingsEdit::Brightness(b) => EditView::Brightness(*b),
            SettingsEdit::BrightnessText(t) => EditView::BrightnessText(t@),
            SettingsEdit::Crf(n) => EditView::Crf(*n),
            SettingsEdit::SegmentSecs(n) => EditView::SegmentSecs(*n),
            SettingsEdit::BatchSize(n) => EditView::BatchSize(*n),
            SettingsEdit::Denoise(d) => EditView::Denoise(*d),
        }
    }
}

/// The number in a range that is nearest to `v`.
pub open spec fn within(v: u32, min: u32, max: u32) -> u32 {
    if v < min {
        min
    } else if v > max {
        max
    } else {
        v
    }
}

fn slider(v: u32, min: u32, max: u32) -> (r: u32)
    ensures
        r == within(v, min, max),
{
    if v < min {
        min
    } else if v > max {
        max
    } else {
        v
    }
}

/// Which knobs the settings panel has beside those that it always has.
#[derive(Clone, Copy, Debug, PartialEq, Eq, Structural)]
pub struct SettingsRows {
    /// The models directory.
    pub models_dir: bool,
    /// The text of the custom models directory.
    pub models_dir_text: bool,
    /// The internal scale, where the model does not fix it.
    pub internal_scale: bool,
    /// The text of the custom brightness.
    pub brightness_text: bool,
    pub batch_size: bool,
}

impl SettingsView {
    /// Which knobs the panel has.
    pub open spec fn rows(self, home: Seq<char>) -> SettingsRows {
        let vulkan = self.backend == Backend::Vulkan;
        SettingsRows {
            models_dir: vulkan,
            models_dir_text: vulkan && self.models_dir_idx >= preset_dirs(home).len(),
            internal_scale: self.fixed_scale() is None,
            brightness_text: self.brightness == BrightnessPreset::Custom,
            batch_size: self.backend == Backend::Rocm,
        }
    }

    /// Whether the panel lets the user do this.
    pub open spec fn offers(self, e: EditView, home: Seq<char>) -> bool {
        let rows = self.rows(home);
        match e {
            EditView::ModelsDir { .. } => rows.models_dir,
            EditView::ModelsDirText(_) => rows.models_dir_text,
            EditView::Model(i) => i < self.model_list().len(),
            EditView::InternalScale(n) => rows.internal_scale && 1 <= n <= 4,
            EditView::FinalScale(n) => n == 1 || n == 2 || n == 4,
            EditView::BrightnessText(_) => rows.brightness_text,
            EditView::BatchSize(_) => rows.batch_size,
            _ => true,
        }
    }

    /// Whether choosing a models directory means that it is scanned: it is another one, or the
    /// user asked for it.
    pub open spec fn scans(self, idx: usize, asked: bool) -> bool {
        asked || idx != self.models_dir_idx
    }

    /// Whether turning a knob counts as a change, so that the settings are saved: a setting has
    /// another value, or a models directory was scanned.
    pub open spec fn reports(self, e: EditView, home: Seq<char>) -> bool {
        match e {
            EditView::ModelsDir { idx, asked, .. } => self.offers(e, home) && self.scans(
                idx,
                asked,
            ),
            _ => self.edited(e, home) != self,
        }
    }

    /// The settings after the user turned one knob; what the panel does not offer changes
    /// nothing.
    pub open spec fn edited(self, e: EditView, home: Seq<char>) -> SettingsView {
        if !self.offers(e, home) {
            self
        } else {
            match e {
                EditView::Backend(backend) => {
                    let s = SettingsView { backend, ..self };
                    if backend != self.backend && s.model_idx >= s.model_list().len() {
                        SettingsView { model_idx: 0, ..s }
                    } else {
                        s
                    }
                },
                EditView::ModelsDir { idx, asked, found } => {
                    let s = SettingsView { models_dir_idx: idx, ..self };
                    if self.scans(idx, asked) {
                        s.rescanned(found)
                    } else {
                        s
                    }
                },
                EditView::ModelsDirText(t) => SettingsView { models_dir_custom: t, ..self },
                EditView::Model(i) => if i != self.model_idx {
                    (SettingsView { model_idx: i, ..self }).scale_synced()
                } else {
                    self
                },
                EditView::InternalScale(n) => SettingsView { internal_scale: n, ..self },
                EditView::FinalScale(n) => SettingsView { final_scale: n, ..self },
                EditView::Crush(c) => SettingsView { crush: c, ..self },
                EditView::Brightness(b) => SettingsView { brightness: b, ..self },
                EditView::BrightnessText(t) => SettingsView { brightness_custom: t, ..self },
                EditView::Crf(n) => SettingsView { crf: within(n, CRF_MIN, CRF_MAX), ..self },
                EditView::SegmentSecs(n) => SettingsView {
                    segment_secs: within(n, SEGMENT_SECS_MIN, SEGMENT_SECS_MAX),
                    ..self
                },
                EditView::BatchSize(n) => SettingsView {
                    batch_size: within(n, BATCH_SIZE_MIN, BATCH_SIZE_MAX),
                    ..self
                },
                EditView::Denoise(d) => SettingsView { denoise: d, ..self },
            }
        }
    }
}

/// One frame of the settings panel: what the user did, in order, and whether any of it counts as
/// a change.
pub open spec fn edited_all(s: SettingsView, edits: Seq<EditView>, home: Seq<char>) -> (
    SettingsView,
    bool,
)
    decreases edits.len(),
{
    if edits.len() == 0 {
        (s, false)
    } else {
        let (t, changed) = edited_all(s, edits.drop_last(), home);
        (t.edited(edits.last(), home), changed || t.reports(edits.last(), home))
    }
}

/// What a list of edits holds.
pub open spec fn edits_view(v: Seq<SettingsEdit>) -> Seq<EditView> {
    Seq::new(v.len(), |i: int| v[i]@)
}

/// The settings of a user who saved none, with the models that were found.
pub open spec fn default_settings(home: Seq<char>, found: Seq<Seq<char>>) -> SettingsView {
    SettingsView {
        crush: CrushPreset::Off,
        brightness: BrightnessPreset::Off,
        brightness_custom: Seq::empty(),
        models_dir_idx: 0,
        models_dir_custom: path_text(preset_dirs(home)[0].1),
        scanned_models: found,
        model_idx: 0,
        internal_scale: 4,
        final_scale: 2,
        crf: 21,
        segment_secs: 30,
        backend: Backend::Rocm,
        batch_size: 2,
        denoise: false,
    }
}

impl UpscaleSettings {
    /// The settings of a user who saved none: `files` is what the first preset models directory
    /// holds.
    pub fn initial(home: &str, files: &Vec<ModelFile>) -> (r: Self)
        ensures
            r@ == default_settings(home@, sorted_names(models_in(files@))),
    {
        let presets = preset_models_dirs(home);
        UpscaleSettings {
            crush: CrushPreset::Off,
            brightness: BrightnessPreset::Off,
            brightness_custom: String::new(),
            models_dir_idx: 0,
            models_dir_custom: presets[0].1.lossy_text(),
            scanned_models: scan_models(files),
            model_idx: 0,
            internal_scale: 4,
            final_scale: 2,
            crf: 21,
            segment_secs: 30,
            backend: Backend::Rocm,
            batch_size: 2,
            denoise: false,
        }
    }

    /// Resolved models directory path.
    pub fn effective_models_dir(&self, home: &str) -> (r: FilePath)
        ensures
            r@ == self@.models_dir(home@),
    {
        models_dir_at(self.models_dir_idx, self.models_dir_custom.as_str(), home)
    }

    /// The model name list valid for the current backend.
    pub fn effective_model_list(&self) -> (r: Vec<&str>)
        ensures
            strs(r@) == self@.model_list(),
    {
        match self.backend {
            Backend::Rocm => rocm_models(),
            Backend::Vulkan => {
                let mut r: Vec<&str> = Vec::new();
                let mut i: usize = 0;
                while i < self.scanned_models.len()
                    invariant
                        i <= self.scanned_models@.len(),
                        strs(r@) =~= texts(self.scanned_models@).take(i as int),
                    decreases self.scanned_models@.len() - i,
                {
                    let ghost before = strs(r@).push(self.scanned_models@[i as int]@);
                    r.push(self.scanned_models[i].as_str());
                    assert(strs(r@) =~= before);
                    i = i + 1;
                }
                assert(strs(r@) =~= texts(self.scanned_models@));
                r
            },
        }
    }

    /// Selected model name, or None if the list is empty / index is out of range.
    pub fn selected_model(&self) -> (r: Option<&str>)
        ensures
            match r {
                Some(m) => self@.selected() == Some(m@),
                None => self@.selected() is None,
            },
    {
        let list = self.effective_model_list();
        assert(strs(list@).len() == list@.len());
        if self.model_idx < list.len() {
            assert(strs(list@)[self.model_idx as int] == list@[self.model_idx as int]@);
            Some(list[self.model_idx])
        } else {
            None
        }
    }

    /// The scale that the selected model gives away.
    fn inferred_scale(&self) -> (r: Option<u8>)
        ensures
            r == self@.fixed_scale(),
    {
        match self.selected_model() {
            Some(name) => infer_scale(name),
            None => None,
        }
    }

    /// Take over the models found in the models directory and clamp the model index.
    pub fn rescan(&mut self, files: &Vec<ModelFile>)
        ensures
            final(self)@ == old(self)@.rescanned(sorted_names(models_in(files@))),
    {
        self.scanned_models = scan_models(files);
        let list = self.effective_model_list();
        assert(strs(list@).len() == list@.len());
        let n: usize = list.len();
        let max: usize = n.saturating_sub(1);
        if self.model_idx > max {
            self.model_idx = 0;
        }
        if let Some(s) = self.inferred_scale() {
            self.internal_scale = s;
        }
    }

    /// Switch the backend. The model index goes back to the first model where the new list is too
    /// short for it. Returns whether anything changed.
    pub fn select_backend(&mut self, backend: Backend) -> (changed: bool)
        ensures
            changed == (backend != old(self).backend),
            final(self)@ == ({
                let s = SettingsView { backend, ..old(self)@ };
                if changed && s.model_idx >= s.model_list().len() {
                    SettingsView { model_idx: 0, ..s }
                } else {
                    s
                }
            }),
    {
        if backend == self.backend {
            return false;
        }
        self.backend = backend;
        let list = self.effective_model_list();
        assert(strs(list@).len() == list@.len());
        let n: usize = list.len();
        if self.model_idx >= n {
            self.model_idx = 0;
        }
        true
    }

    /// Whether choosing a models directory means that it is scanned, so that its contents are
    /// needed.
    pub fn needs_scan(&self, idx: usize, asked: bool) -> (r: bool)
        ensures
            r == self@.scans(idx, asked),
    {
        asked || idx != self.models_dir_idx
    }

    /// Choose a models directory. Returns whether it must be scanned: it is another one, or the
    /// user asked for it.
    pub fn select_models_dir(&mut self, idx: usize, asked: bool) -> (scan: bool)
        ensures
            scan == old(self)@.scans(idx, asked),
            final(self)@ == (SettingsView { models_dir_idx: idx, ..old(self)@ }),
    {
        let scan = self.needs_scan(idx, asked);
        self.models_dir_idx = idx;
        scan
    }

    /// Choose a model. Where that is another one, the internal scale follows it. Returns whether
    /// anything changed.
    pub fn select_model(&mut self, idx: usize) -> (changed: bool)
        ensures
            changed == (idx != old(self).model_idx),
            final(self)@ == (if changed {
                (SettingsView { model_idx: idx, ..old(self)@ }).scale_synced()
            } else {
                old(self)@
            }),
    {
        if idx == self.model_idx {
            return false;
        }
        self.model_idx = idx;
        if let Some(s) = self.inferred_scale() {
            self.internal_scale = s;
        }
        true
    }

    /// Keep the internal scale in line with a model of known native scale. Returns that scale,
    /// which the user cannot change, and whether the internal scale had to change.
    pub fn lock_scale(&mut self) -> (r: (Option<u8>, bool))
        ensures
            r.0 == old(self)@.fixed_scale(),
            r.1 == (r.0 is Some && r.0->0 != old(self).internal_scale),
            final(self)@ == old(self)@.scale_synced(),
    {
        match self.inferred_scale() {
            Some(s) => {
                let changed = self.internal_scale != s;
                self.internal_scale = s;
                (Some(s), changed)
            },
            None => (None, false),
        }
    }

    /// Which knobs the settings panel has.
    pub fn rows(&self, home: &str) -> (r: SettingsRows)
        ensures
            r == self@.rows(home@),
    {
        let presets = preset_models_dirs(home);
        let vulkan = self.backend == Backend::Vulkan;
        SettingsRows {
            models_dir: vulkan,
            models_dir_text: vulkan && self.models_dir_idx >= presets.len(),
            internal_scale: self.inferred_scale().is_none(),
            brightness_text: self.brightness == BrightnessPreset::Custom,
            batch_size: self.backend == Backend::Rocm,
        }
    }

    /// The user turned one knob of the settings panel. Returns whether that counts as a change.
    pub fn edit(&mut self, e: &SettingsEdit, home: &str) -> (changed: bool)
        ensures
            final(self)@ == old(self)@.edited(e@, home@),
            changed == old(self)@.reports(e@, home@),
    {
        let rows = self.rows(home);
        match e {
            SettingsEdit::Backend(b) => self.select_backend(*b),
            SettingsEdit::ModelsDir { idx, asked, files } => {
                if !rows.models_dir {
                    return false;
                }
                let scan = self.select_models_dir(*idx, *asked);
                if scan {
                    self.rescan(files);
                }
                scan
            },
            SettingsEdit::ModelsDirText(t) => {
                if !rows.models_dir_text {
                    return false;
                }
                let changed = !same_text(self.models_dir_custom.as_str(), t.as_str());
                self.models_dir_custom = t.clone();
                changed
            },
            SettingsEdit::Model(i) => {
                let list = self.effective_model_list();
                assert(strs(list@).len() == list@.len());
                let n: usize = list.len();
                if *i >= n {
                    return false;
                }
                self.select_model(*i)
            },
            SettingsEdit::InternalScale(n) => {
                if !rows.internal_scale || *n < 1 || *n > 4 {
                    return false;
                }
                let changed = self.internal_scale != *n;
                self.internal_scale = *n;
                changed
            },
            SettingsEdit::FinalScale(n) => {
                if *n != 1 && *n != 2 && *n != 4 {
                    return false;
                }
                let changed = self.final_scale != *n;
                self.final_scale = *n;
                changed
            },
            SettingsEdit::Crush(c) => {
                let changed = self.crush != *c;
                self.crush = *c;
                changed
            },
            SettingsEdit::Brightness(b) => {
                let changed = self.brightness != *b;
                self.brightness = *b;
                changed
            },
            SettingsEdit::BrightnessText(t) => {
                if !rows.brightness_text {
                    return false;
                }
                let changed = !same_text(self.brightness_custom.as_str(), t.as_str());
                self.brightness_custom = t.clone();
                changed
            },
            SettingsEdit::Crf(n) => {
                let v: u32 = slider(*n, CRF_MIN, CRF_MAX);
                let changed = self.crf != v;
                self.crf = v;
                changed
            },
            SettingsEdit::SegmentSecs(n) => {
                let v: u32 = slider(*n, SEGMENT_SECS_MIN, SEGMENT_SECS_MAX);
                let changed = self.segment_secs != v;
                self.segment_secs = v;
                changed
            },
            SettingsEdit::BatchSize(n) => {
                if !rows.batch_size {
                    return false;
                }
                let v: u32 = slider(*n, BATCH_SIZE_MIN, BATCH_SIZE_MAX);
                let changed = self.batch_size != v;
                self.batch_size = v;
                changed
            },
            SettingsEdit::Denoise(d) => {
                let changed = self.denoise != *d;
                self.denoise = *d;
                changed
            },
        }
    }

    /// One frame of the settings panel: the knobs that the user turned, in order; after that the
    /// internal scale is that of the model, where the model has one. Returns whether the settings
    /// have to be saved.
    pub fn edit_all(&mut self, edits: &Vec<SettingsEdit>, home: &str) -> (changed: bool)
        ensures
            ({
                let (t, edited) = edited_all(old(self)@, edits_view(edits@), home@);
                &&& final(self)@ == t.scale_synced()
                &&& changed == (edited || t.scale_synced() != t)
            }),
    {
        let ghost start = self@;
        let ghost all = edits_view(edits@);
        let mut changed = false;
        let mut i: usize = 0;
        while i < edits.len()
            invariant
                i <= edits@.len(),
                all == edits_view(edits@),
                edited_all(start, all.take(i as int), home@) == (self@, changed),
            decreases edits@.len() - i,
        {
            assert(all.take(i + 1).drop_last() =~= all.take(i as int));
            assert(all.take(i + 1).last() == edits@[i as int]@);
            let turned = self.edit(&edits[i], home);
            changed = changed || turned;
            i = i + 1;
        }
        assert(all.take(all.len() as int) =~= all);
        let (_, synced) = self.lock_scale();
        changed || synced
    }

    /// The label of the models directory in use.
    pub fn models_dir_label(&self, home: &str) -> (r: String)
        ensures
            r@ == (if self.models_dir_idx < preset_dirs(home@).len() {
                preset_dirs(home@)[self.models_dir_idx as int].0
            } else {
                "Custom"@
            }),
    {
        let presets = preset_models_dirs(home);
        if self.models_dir_idx < presets.len() {
            presets[self.models_dir_idx].0.clone()
        } else {
            "Custom".to_owned()
        }
    }

    /// The label of the selected model.
    pub fn model_label(&self) -> (r: String)
        ensures
            r@ == match self@.selected() {
                Some(m) => m,
                None => "(none)"@,
            },
    {
        match self.selected_model() {
            Some(m) => m.to_owned(),
            None => "(none)".to_owned(),
        }
    }

    /// Build the `(envs, positional_args)` pair of an upscale job.
    ///
    /// Layout of the arguments: `[output_path, segment_secs, crf]`
    pub fn to_launch(&self, output_path: &FilePath, home: &str) -> (r: (
        Vec<(String, String)>,
        Vec<String>,
    ))
        ensures
            pairs(r.0@) == launch_envs(self@, home@),
            texts(r.1@) == launch_args(self@, output_path@),
            sets(
                pairs(r.0@),
                "CRUSH"@,
                match self.crush {
                    CrushPreset::Off => "none"@,
                    CrushPreset::Small => "small"@,
                    CrushPreset::Medium => "medium"@,
                    CrushPreset::Heavy => "heavy"@,
                },
            ),
            sets(
                pairs(r.0@),
                "BRIGHTNESS"@,
                match self.brightness {
                    BrightnessPreset::Off => "none"@,
                    BrightnessPreset::Low => "low"@,
                    BrightnessPreset::Medium => "medium"@,
                    BrightnessPreset::High => "high"@,
                    BrightnessPreset::Custom => trim(self.brightness_custom@),
                },
            ),
            sets(
                pairs(r.0@),
                "UPSCALE_BACKEND"@,
                match self.backend {
                    Backend::Rocm => "rocm"@,
                    Backend::Vulkan => "vulkan"@,
                },
            ),
            sets(pairs(r.0@), "INTERNAL_SCALE"@, decimal(self.internal_scale as nat)),
            sets(pairs(r.0@), "FINAL_SCALE"@, decimal(self.final_scale as nat)),
            self.backend == Backend::Rocm ==> sets(
                pairs(r.0@),
                "BATCH_SIZE"@,
                decimal(self.batch_size as nat),
            ) && leaves_unset(pairs(r.0@), "MODELS_DIR"@),
            self.backend == Backend::Vulkan ==> sets(
                pairs(r.0@),
                "MODELS_DIR"@,
                path_text(
                    chosen_dir(self.models_dir_idx, self.models_dir_custom@, home@),
                ),
            ) && leaves_unset(pairs(r.0@), "BATCH_SIZE"@),
            match self@.selected() {
                Some(m) => sets(pairs(r.0@), "MODEL"@, m),
                None => leaves_unset(pairs(r.0@), "MODEL"@),
            },
            if self.denoise {
                sets(pairs(r.0@), "DENOISE"@, "1"@)
            } else {
                leaves_unset(pairs(r.0@), "DENOISE"@)
            },
            r.1@.len() == 3,
            r.1@[0]@ == path_text(output_path@),
            r.1@[1]@ == decimal(self.segment_secs as nat),
            r.1@[2]@ == decimal(self.crf as nat),
    {
        let mut envs: Vec<(String, String)> = Vec::new();
        push_env(&mut envs, "CRUSH", self.crush.env_value().to_owned());
        push_env(
            &mut envs,
            "BRIGHTNESS",
            self.brightness.env_value(self.brightness_custom.as_str()),
        );
        push_env(&mut envs, "UPSCALE_BACKEND", self.backend.env_value().to_owned());
        push_env(&mut envs, "INTERNAL_SCALE", decimal_text(self.internal_scale as u64));
        push_env(&mut envs, "FINAL_SCALE", decimal_text(self.final_scale as u64));
        assert(pairs(envs@) =~= common_envs(self@));
        match self.backend {
            Backend::Rocm => {
                push_env(&mut envs, "BATCH_SIZE", decimal_text(self.batch_size as u64));
            },
            Backend::Vulkan => {
                push_env(&mut envs, "MODELS_DIR", self.effective_models_dir(home).lossy_text());
            },
        }
        if let Some(m) = self.selected_model() {
            push_env(&mut envs, "MODEL", m.to_owned());
        }
        if self.denoise {
            push_env(&mut envs, "DENOISE", "1".to_owned());
        }
        let mut args: Vec<String> = Vec::new();
        args.push(output_path.lossy_text());
        args.push(decimal_text(self.segment_secs as u64));
        args.push(decimal_text(self.crf as u64));
        assert(texts(args@) =~= launch_args(self@, output_path@));
        proof {
            law_every_knob_reaches_the_job(self@, home@, output_path@);
        }
        (envs, args)
    }
}

// -----------------------------------------------------------------------
// Laws
// -----------------------------------------------------------------------
/// After a scan the model index stands for a model, unless there is none; and where the selected
/// model gives a scale away, the internal scale is that one.
pub proof fn law_rescan_settles(s: SettingsView, found: Seq<Seq<char>>)
    ensures
        ({
            let t = s.rescanned(found);
            &&& t.model_list().len() > 0 ==> t.model_idx < t.model_list().len()
            &&& t.model_list().len() == 0 ==> t.model_idx == 0
            &&& t.fixed_scale() matches Some(k) ==> t.internal_scale == k
        }),
{
}

/// A scan of the same directory changes nothing the second time.
pub proof fn law_rescan_twice(s: SettingsView, found: Seq<Seq<char>>)
    ensures
        s.rescanned(found).rescanned(found) == s.rescanned(found),
{
}

/// A scale that a name gives away is one of the four that the program offers.
pub proof fn law_scale_offered(lower: Seq<char>)
    ensures
        scale_named(lower) matches Some(k) ==> 1 <= k <= 4,
{
}

/// Every model that a scan finds can be run.
pub proof fn law_scanned_models_run(files: Seq<ModelFile>, name: Seq<char>)
    requires
        sorted_names(models_in(files)).contains(name),
    ensures
        vulkan_compatible(name),
        exists|i: int| 0 <= i < files.len() && #[trigger] model_of(files[i]) == Some(name),
{
    broadcast use vstd::seq_lib::group_to_multiset_ensures;

    let all = models_in(files);
    crate::order::law_text_order_total();
    all.lemma_sort_by_ensures(crate::order::text_order());
    assert(all.contains(name));
    lemma_models_in(files, name);
}

proof fn lemma_models_in(files: Seq<ModelFile>, name: Seq<char>)
    requires
        models_in(files).contains(name),
    ensures
        vulkan_compatible(name),
        exists|i: int| 0 <= i < files.len() && #[trigger] model_of(files[i]) == Some(name),
    decreases files.len(),
{
    if files.len() > 0 {
        let front = models_in(files.drop_last());
        let k = choose|k: int| 0 <= k < models_in(files).len() && models_in(files)[k] == name;
        if k < front.len() {
            assert(front[k] == name);
            lemma_models_in(files.drop_last(), name);
            let i = choose|i: int|
                0 <= i < files.drop_last().len() && #[trigger] model_of(files.drop_last()[i])
                    == Some(name);
            assert(files.drop_last()[i] == files[i]);
        } else {
            assert(model_of(files[files.len() - 1]) == Some(name));
        }
    }
}

/// Whatever the user does, a knob with a range stays in its range, and the place of the selected
/// model stays one of the list, or is the first.
pub proof fn law_edits_stay_in_range(s: SettingsView, e: EditView, home: Seq<char>)
    requires
        CRF_MIN <= s.crf <= CRF_MAX,
        SEGMENT_SECS_MIN <= s.segment_secs <= SEGMENT_SECS_MAX,
        BATCH_SIZE_MIN <= s.batch_size <= BATCH_SIZE_MAX,
        s.model_idx < s.model_list().len(),
    ensures
        ({
            let t = s.edited(e, home);
            &&& CRF_MIN <= t.crf <= CRF_MAX
            &&& SEGMENT_SECS_MIN <= t.segment_secs <= SEGMENT_SECS_MAX
            &&& BATCH_SIZE_MIN <= t.batch_size <= BATCH_SIZE_MAX
            &&& t.model_idx == 0 || t.model_idx < t.model_list().len()
        }),
{
}

/// A model of known scale has that scale: turning the scale knob does nothing then.
pub proof fn law_fixed_scale_cannot_be_edited(s: SettingsView, n: u8, home: Seq<char>)
    requires
        s.fixed_scale() is Some,
    ensures
        s.edited(EditView::InternalScale(n), home) == s,
{
}

proof fn lemma_keys_differ()
    ensures
        ({
            let keys = seq![
                "CRUSH"@,
                "BRIGHTNESS"@,
                "UPSCALE_BACKEND"@,
                "INTERNAL_SCALE"@,
                "FINAL_SCALE"@,
                "BATCH_SIZE"@,
                "MODELS_DIR"@,
                "MODEL"@,
                "DENOISE"@,
            ];
            forall|i: int, j: int|
                0 <= i < keys.len() && 0 <= j < keys.len() && #[trigger] keys[i]
                    == #[trigger] keys[j] ==> i == j
        }),
{
    reveal_strlit("CRUSH");
    reveal_strlit("BRIGHTNESS");
    reveal_strlit("UPSCALE_BACKEND");
    reveal_strlit("INTERNAL_SCALE");
    reveal_strlit("FINAL_SCALE");
    reveal_strlit("BATCH_SIZE");
    reveal_strlit("MODELS_DIR");
    reveal_strlit("MODEL");
    reveal_strlit("DENOISE");
    let keys = seq![
        "CRUSH"@,
        "BRIGHTNESS"@,
        "UPSCALE_BACKEND"@,
        "INTERNAL_SCALE"@,
        "FINAL_SCALE"@,
        "BATCH_SIZE"@,
        "MODELS_DIR"@,
        "MODEL"@,
        "DENOISE"@,
    ];
    // No two keys have the same length and the same first two characters.
    let lens = seq![5nat, 10, 15, 14, 11, 10, 10, 5, 7];
    let firsts = seq!['C', 'B', 'U', 'I', 'F', 'B', 'M', 'M', 'D'];
    let seconds = seq!['R', 'R', 'P', 'N', 'I', 'A', 'O', 'O', 'E'];
    assert forall|i: int| 0 <= i < 9 implies (#[trigger] keys[i]).len() == lens[i] && keys[i][0]
        == firsts[i] && keys[i][1] == seconds[i] by {
        assert(i == 0 || i == 1 || i == 2 || i == 3 || i == 4 || i == 5 || i == 6 || i == 7 || i
            == 8);
    }
    assert forall|i: int, j: int|
        0 <= i < keys.len() && 0 <= j < keys.len() && #[trigger] keys[i]
            == #[trigger] keys[j] implies i == j by {
        assert(lens[i] == lens[j] && firsts[i] == firsts[j] && seconds[i] == seconds[j]);
        assert(i == 0 || i == 1 || i == 2 || i == 3 || i == 4 || i == 5 || i == 6 || i == 7 || i
            == 8);
        assert(j == 0 || j == 1 || j == 2 || j == 3 || j == 4 || j == 5 || j == 6 || j == 7 || j
            == 8);
    }
}

/// Each variable stands at one place of the list.
proof fn lemma_places(s: SettingsView, home: Seq<char>)
    ensures
        ({
            let e = launch_envs(s, home);
            let m = if s.selected() is Some {
                1int
            } else {
                0
            };
            let d = if s.denoise {
                1int
            } else {
                0
            };
            &&& e.len() == 6 + m + d
            &&& e[0].0 == "CRUSH"@
            &&& e[1].0 == "BRIGHTNESS"@
            &&& e[2].0 == "UPSCALE_BACKEND"@
            &&& e[3].0 == "INTERNAL_SCALE"@
            &&& e[4].0 == "FINAL_SCALE"@
            &&& e[5].0 == if s.backend == Backend::Rocm {
                "BATCH_SIZE"@
            } else {
                "MODELS_DIR"@
            }
            &&& m == 1 ==> e[6].0 == "MODEL"@
            &&& d == 1 ==> e[6 + m].0 == "DENOISE"@
        }),
{
}

proof fn lemma_sets(e: Seq<(Seq<char>, Seq<char>)>, k: int)
    requires
        0 <= k < e.len(),
        forall|j: int| 0 <= j < e.len() && (#[trigger] e[j]).0 == e[k].0 ==> j == k,
    ensures
        sets(e, e[k].0, e[k].1),
{
    assert(e.contains(e[k]));
    assert((e[k].0, e[k].1) == e[k]);
}

/// Every knob that the user turns reaches the job: the variable of that name is set, once, to
/// what the knob stands at, and the segment length and the quality are its arguments. A variable
/// of the other backend, of a model that is not selected or of a switch that is off is not set.
pub proof fn law_every_knob_reaches_the_job(s: SettingsView, home: Seq<char>, output: Seq<u8>)
    ensures
        ({
            let e = launch_envs(s, home);
            &&& s.crush == CrushPreset::Off ==> sets(e, "CRUSH"@, "none"@)
            &&& s.crush == CrushPreset::Small ==> sets(e, "CRUSH"@, "small"@)
            &&& s.crush == CrushPreset::Medium ==> sets(e, "CRUSH"@, "medium"@)
            &&& s.crush == CrushPreset::Heavy ==> sets(e, "CRUSH"@, "heavy"@)
            &&& s.brightness == BrightnessPreset::Off ==> sets(e, "BRIGHTNESS"@, "none"@)
            &&& s.brightness == BrightnessPreset::Low ==> sets(e, "BRIGHTNESS"@, "low"@)
            &&& s.brightness == BrightnessPreset::Medium ==> sets(e, "BRIGHTNESS"@, "medium"@)
            &&& s.brightness == BrightnessPreset::High ==> sets(e, "BRIGHTNESS"@, "high"@)
            &&& s.brightness == BrightnessPreset::Custom ==> sets(
                e,
                "BRIGHTNESS"@,
                trim(s.brightness_custom),
            )
            &&& s.backend == Backend::Rocm ==> {
                &&& sets(e, "UPSCALE_BACKEND"@, "rocm"@)
                &&& sets(e, "BATCH_SIZE"@, decimal(s.batch_size as nat))
                &&& leaves_unset(e, "MODELS_DIR"@)
            }
            &&& s.backend == Backend::Vulkan ==> {
                &&& sets(e, "UPSCALE_BACKEND"@, "vulkan"@)
                &&& sets(
                    e,
                    "MODELS_DIR"@,
                    path_text(chosen_dir(s.models_dir_idx, s.models_dir_custom, home)),
                )
                &&& leaves_unset(e, "BATCH_SIZE"@)
            }
            &&& sets(e, "INTERNAL_SCALE"@, decimal(s.internal_scale as nat))
            &&& sets(e, "FINAL_SCALE"@, decimal(s.final_scale as nat))
            &&& s.selected() matches Some(m) ==> sets(e, "MODEL"@, m)
            &&& s.selected() is None ==> leaves_unset(e, "MODEL"@)
            &&& s.denoise ==> sets(e, "DENOISE"@, "1"@)
            &&& !s.denoise ==> leaves_unset(e, "DENOISE"@)
        }),
        launch_args(s, output).len() == 3,
        launch_args(s, output)[0] == path_text(output),
        launch_args(s, output)[1] == decimal(s.segment_secs as nat),
        launch_args(s, output)[2] == decimal(s.crf as nat),
{
    let e = launch_envs(s, home);
    lemma_keys_differ();
    lemma_places(s, home);
    let keys = seq![
        "CRUSH"@,
        "BRIGHTNESS"@,
        "UPSCALE_BACKEND"@,
        "INTERNAL_SCALE"@,
        "FINAL_SCALE"@,
        "BATCH_SIZE"@,
        "MODELS_DIR"@,
        "MODEL"@,
        "DENOISE"@,
    ];
    assert(keys[0] == "CRUSH"@ && keys[1] == "BRIGHTNESS"@ && keys[2] == "UPSCALE_BACKEND"@
        && keys[3] == "INTERNAL_SCALE"@ && keys[4] == "FINAL_SCALE"@ && keys[5] == "BATCH_SIZE"@
        && keys[6] == "MODELS_DIR"@ && keys[7] == "MODEL"@ && keys[8] == "DENOISE"@);
    assert(e.len() <= 8);
    assert forall|i: int, j: int|
        0 <= i < e.len() && 0 <= j < e.len() && (#[trigger] e[i]).0 == (
        #[trigger] e[j]).0 implies i == j by {
        assert(0 <= i < 8 && 0 <= j < 8);
    }
    lemma_sets(e, 0);
    lemma_sets(e, 1);
    lemma_sets(e, 2);
    lemma_sets(e, 3);
    lemma_sets(e, 4);
    lemma_sets(e, 5);
    if e.len() > 6 {
        lemma_sets(e, 6);
    }
    if e.len() > 7 {
        lemma_sets(e, 7);
    }
}

/// Two settings whose jobs get the same environment and arguments have the same crush, backend,
/// denoise switch, scales, segment length and quality.
pub proof fn law_jobs_tell_settings_apart(
    a: SettingsView,
    b: SettingsView,
    home: Seq<char>,
    output: Seq<u8>,
)
    requires
        launch_envs(a, home) == launch_envs(b, home),
        launch_args(a, output) == launch_args(b, output),
    ensures
        a.crush == b.crush,
        a.backend == b.backend,
        a.denoise == b.denoise,
        a.internal_scale == b.internal_scale,
        a.final_scale == b.final_scale,
        a.segment_secs == b.segment_secs,
        a.crf == b.crf,
        a.selected() == b.selected(),
        a.backend == Backend::Rocm ==> a.batch_size == b.batch_size,
{
    let e = launch_envs(a, home);
    law_every_knob_reaches_the_job(a, home, output);
    law_every_knob_reaches_the_job(b, home, output);
    lemma_one_value(e);
    reveal_strlit("none");
    reveal_strlit("small");
    reveal_strlit("medium");
    reveal_strlit("heavy");
    reveal_strlit("rocm");
    reveal_strlit("vulkan");
    assert("none"@.len() == 4 && "small"@.len() == 5);
    assert("medium"@.len() == 6 && "heavy"@.len() == 5);
    assert("small"@[0] == 's' && "heavy"@[0] == 'h');
    assert("rocm"@.len() == 4 && "vulkan"@.len() == 6);
    law_decimal_spells(a.internal_scale as nat);
    law_decimal_spells(b.internal_scale as nat);
    law_decimal_spells(a.final_scale as nat);
    law_decimal_spells(b.final_scale as nat);
    law_decimal_spells(a.batch_size as nat);
    law_decimal_spells(b.batch_size as nat);
    law_decimal_spells(a.segment_secs as nat);
    law_decimal_spells(b.segment_secs as nat);
    law_decimal_spells(a.crf as nat);
    law_decimal_spells(b.crf as nat);
}

proof fn lemma_one_value(e: Seq<(Seq<char>, Seq<char>)>)
    ensures
        forall|k: Seq<char>, v: Seq<char>, w: Seq<char>|
            #[trigger] sets(e, k, v) && #[trigger] sets(e, k, w) ==> v == w,
        forall|k: Seq<char>, v: Seq<char>|
            #[trigger] sets(e, k, v) ==> !#[trigger] leaves_unset(e, k),
{
    assert forall|k: Seq<char>, v: Seq<char>, w: Seq<char>|
        #[trigger] sets(e, k, v) && #[trigger] sets(e, k, w) implies v == w by {
        let i = choose|i: int| 0 <= i < e.len() && e[i] == (k, v);
        let j = choose|j: int| 0 <= j < e.len() && e[j] == (k, w);
        assert(e[i].0 == k && e[j].0 == k);
    }
    assert forall|k: Seq<char>, v: Seq<char>| #[trigger] sets(
        e,
        k,
        v,
    ) implies !#[trigger] leaves_unset(e, k) by {
        let i = choose|i: int| 0 <= i < e.len() && e[i] == (k, v);
        assert(e[i].0 == k);
    }
}

/// `name` is one of the models that the Vulkan runner knows, or of the family that it knows by the
/// beginning of the name.
pub open spec fn runner_knows(name: Seq<char>) -> bool {
    ||| name == "realesrgan-x4plus"@
    ||| name == "realesrgan-x4plus-anime"@
    ||| name == "realesrnet-x4plus"@
    ||| exists|t: Seq<char>| name == #[trigger] ("realesr-animevideov3"@ + t)
}

proof fn lemma_runner_knows(name: Seq<char>)
    ensures
        vulkan_compatible(name) <==> runner_knows(name),
{
    let p = "realesr-animevideov3"@;
    if p.is_prefix_of(name) {
        let t = name.skip(p.len() as int);
        assert(name =~= p + t) by {
            assert(name.subrange(0, p.len() as int) == p);
            assert forall|i: int| 0 <= i < name.len() implies name[i] == (p + t)[i] by {
                if i < p.len() {
                    assert(name.subrange(0, p.len() as int)[i] == p[i]);
                }
            }
        }
    }
    if exists|t: Seq<char>| name == #[trigger] (p + t) {
        let t = choose|t: Seq<char>| name == #[trigger] (p + t);
        assert(name.subrange(0, p.len() as int) =~= p);
    }
}

proof fn lemma_model_is_in(files: Seq<ModelFile>, i: int, name: Seq<char>)
    requires
        0 <= i < files.len(),
        model_of(files[i]) == Some(name),
    ensures
        models_in(files).contains(name),
    decreases files.len(),
{
    let front = models_in(files.drop_last());
    let all = models_in(files);
    if i < files.len() - 1 {
        assert(files.drop_last()[i] == files[i]);
        lemma_model_is_in(files.drop_last(), i, name);
        let k = choose|k: int| 0 <= k < front.len() && front[k] == name;
        assert(all[k] == name);
    } else {
        assert(all[all.len() - 1] == name);
    }
}

/// A scan finds a model exactly where a file `model.param` has a `.bin` beside it and the model is
/// one that the Vulkan runner knows.
pub proof fn law_which_models_are_found(files: Seq<ModelFile>, name: Seq<char>)
    ensures
        sorted_names(models_in(files)).contains(name) <==> {
            &&& runner_knows(name)
            &&& exists|i: int|
                0 <= i < files.len() && (#[trigger] files[i]).has_bin && has_extension(
                    files[i].path@,
                    "param"@,
                ) && file_stem_text(files[i].path@) == Some(name)
        },
{
    let all = models_in(files);
    law_sorted_names(all);
    lemma_runner_knows(name);
    if sorted_names(all).contains(name) {
        lemma_models_in(files, name);
        let i = choose|i: int| 0 <= i < files.len() && #[trigger] model_of(files[i]) == Some(name);
        assert(files[i].has_bin);
    }
    if runner_knows(name) && exists|i: int|
        0 <= i < files.len() && (#[trigger] files[i]).has_bin && has_extension(
            files[i].path@,
            "param"@,
        ) && file_stem_text(files[i].path@) == Some(name) {
        let i = choose|i: int|
            0 <= i < files.len() && (#[trigger] files[i]).has_bin && has_extension(
                files[i].path@,
                "param"@,
            ) && file_stem_text(files[i].path@) == Some(name);
        lemma_model_is_in(files, i, name);
    }
}

/// A name says a scale by a digit and `x_` at its beginning, or by `-x` and the digit or `-`, the
/// digit and `x` anywhere.
pub proof fn law_names_that_say_a_scale(a: Seq<char>, d: char, b: Seq<char>)
    ensures
        names_scale(seq![d, 'x', '_'] + b, d),
        names_scale(a + seq!['-', 'x', d] + b, d),
        names_scale(a + seq!['-', d, 'x'] + b, d),
{
    let p = seq![d, 'x', '_'];
    assert((p + b).subrange(0, 3) =~= p);
    let q = seq!['-', 'x', d];
    let s = a + q + b;
    let n = a.len() as int;
    assert(s.subrange(n, n + 3) =~= q);
    assert(occurs_at(s, q, n));
    let r = seq!['-', d, 'x'];
    let t = a + r + b;
    assert(t.subrange(n, n + 3) =~= r);
    assert(occurs_at(t, r, n));
}

/// The scale of a name is the smallest from 1 to 4 that the name says, and there is none where the
/// name says none of them.
pub proof fn law_smallest_scale_counts(lower: Seq<char>, d: char)
    requires
        '1' <= d && d <= '4',
    ensures
        ({
            let says = ||
                {
                    ||| seq![d, 'x', '_'].is_prefix_of(lower)
                    ||| exists|i: int| occurs_at(lower, seq!['-', 'x', d], i)
                    ||| exists|i: int| occurs_at(lower, seq!['-', d, 'x'], i)
                };
            &&& scale_named(lower) == Some((d as u32 - 48) as u8) ==> says()
            &&& says() ==> scale_named(lower) is Some && scale_named(lower)->0 <= d as u32 - 48
        }),
{
    assert(d == '1' || d == '2' || d == '3' || d == '4');
}

/// The directory of the models is the chosen preset below the home directory, and beyond those the
/// one that the user entered.
pub proof fn law_models_directories(idx: usize, custom: Seq<char>, home: Seq<char>)
    ensures
        preset_dirs(home).len() == 2,
        idx == 0 ==> chosen_dir(idx, custom, home) == joined(
            encode_utf8(home),
            encode_utf8("opt/realesrgan-ncnn/models"@),
        ),
        idx == 1 ==> chosen_dir(idx, custom, home) == joined(
            encode_utf8(home),
            encode_utf8("Downloads/models/ncnn"@),
        ),
        idx >= 2 ==> path_text(chosen_dir(idx, custom, home)) == custom,
{
    law_text_reads_back(custom);
}

/// A scan keeps the selected place where the new list has it and goes to the first model where it
/// does not; it changes nothing but the models, the selection and the internal scale.
pub proof fn law_scan_keeps_the_rest(s: SettingsView, found: Seq<Seq<char>>)
    ensures
        ({
            let t = s.rescanned(found);
            &&& t.scanned_models == found
            &&& s.model_idx < t.model_list().len() ==> t.model_idx == s.model_idx
            &&& s.model_idx >= t.model_list().len() ==> t.model_idx == 0
            &&& t.fixed_scale() is None ==> t.internal_scale == s.internal_scale
            &&& t.fixed_scale() is Some ==> Some(t.internal_scale) == t.fixed_scale()
            &&& (SettingsView {
                scanned_models: s.scanned_models,
                model_idx: s.model_idx,
                internal_scale: s.internal_scale,
                ..t
            }) == s
        }),
{
}

/// The models that can be selected are the fixed list on one backend and what was found on the
/// other; the selected one is the one at the index.
pub proof fn law_selected_model(s: SettingsView)
    ensures
        s.backend == Backend::Vulkan ==> s.model_list() == s.scanned_models,
        s.backend == Backend::Rocm ==> s.model_list() == rocm_names(),
        s.model_idx < s.model_list().len() ==> s.selected() == Some(
            s.model_list()[s.model_idx as int],
        ),
        s.model_idx >= s.model_list().len() ==> s.selected() is None,
{
}

/// A slider goes where it is put, and to the nearest end of its range where that is beyond it; the
/// quality has 14 to 28, a segment 10 to 120 seconds, and a batch 1 to 8 frames. Nothing else
/// changes.
pub proof fn law_sliders(s: SettingsView, n: u32, home: Seq<char>)
    ensures
        ({
            let t = s.edited(EditView::Crf(n), home);
            &&& 14 <= n <= 28 ==> t.crf == n
            &&& n < 14 ==> t.crf == 14
            &&& n > 28 ==> t.crf == 28
            &&& (SettingsView { crf: s.crf, ..t }) == s
        }),
        ({
            let t = s.edited(EditView::SegmentSecs(n), home);
            &&& 10 <= n <= 120 ==> t.segment_secs == n
            &&& n < 10 ==> t.segment_secs == 10
            &&& n > 120 ==> t.segment_secs == 120
            &&& (SettingsView { segment_secs: s.segment_secs, ..t }) == s
        }),
        s.backend == Backend::Rocm ==> {
            let t = s.edited(EditView::BatchSize(n), home);
            &&& 1 <= n <= 8 ==> t.batch_size == n
            &&& n < 1 ==> t.batch_size == 1
            &&& n > 8 ==> t.batch_size == 8
            &&& (SettingsView { batch_size: s.batch_size, ..t }) == s
        },
        s.backend == Backend::Vulkan ==> s.edited(EditView::BatchSize(n), home) == s,
{
}

/// A choice is what the user chose, and nothing else changes with it.
pub proof fn law_choices(
    s: SettingsView,
    crush: CrushPreset,
    brightness: BrightnessPreset,
    text: Seq<char>,
    scale: u8,
    denoise: bool,
    home: Seq<char>,
)
    ensures
        s.edited(EditView::Crush(crush), home).crush == crush,
        (SettingsView { crush: s.crush, ..s.edited(EditView::Crush(crush), home) }) == s,
        s.edited(EditView::Brightness(brightness), home).brightness == brightness,
        (SettingsView {
            brightness: s.brightness,
            ..s.edited(EditView::Brightness(brightness), home)
        }) == s,
        s.edited(EditView::Denoise(denoise), home).denoise == denoise,
        (SettingsView { denoise: s.denoise, ..s.edited(EditView::Denoise(denoise), home) }) == s,
        s.brightness == BrightnessPreset::Custom ==> s.edited(
            EditView::BrightnessText(text),
            home,
        ).brightness_custom == text,
        (SettingsView {
            brightness_custom: s.brightness_custom,
            ..s.edited(EditView::BrightnessText(text), home)
        }) == s,
        s.backend == Backend::Vulkan && s.models_dir_idx >= 2 ==> s.edited(
            EditView::ModelsDirText(text),
            home,
        ).models_dir_custom == text,
        (SettingsView {
            models_dir_custom: s.models_dir_custom,
            ..s.edited(EditView::ModelsDirText(text), home)
        }) == s,
        s.fixed_scale() is None && 1 <= scale <= 4 ==> s.edited(
            EditView::InternalScale(scale),
            home,
        ).internal_scale == scale,
        (SettingsView {
            internal_scale: s.internal_scale,
            ..s.edited(EditView::InternalScale(scale), home)
        }) == s,
        scale == 1 || scale == 2 || scale == 4 ==> s.edited(
            EditView::FinalScale(scale),
            home,
        ).final_scale == scale,
        scale != 1 && scale != 2 && scale != 4 ==> s.edited(EditView::FinalScale(scale), home)
            == s,
        (SettingsView {
            final_scale: s.final_scale,
            ..s.edited(EditView::FinalScale(scale), home)
        }) == s,
{
}

/// Choosing a model, a backend or a models directory: the choice is made, the internal scale
/// follows the model where that says one, and a place that the new list does not have goes back to
/// the first model.
pub proof fn law_choosing_models(
    s: SettingsView,
    idx: usize,
    backend: Backend,
    asked: bool,
    found: Seq<Seq<char>>,
    home: Seq<char>,
)
    ensures
        ({
            let t = s.edited(EditView::Model(idx), home);
            &&& idx < s.model_list().len() ==> t.model_idx == idx
            &&& idx >= s.model_list().len() ==> t == s
            &&& (idx != s.model_idx && t.fixed_scale() is Some && idx < s.model_list().len()
                ==> Some(t.internal_scale) == t.fixed_scale())
            &&& (SettingsView {
                model_idx: s.model_idx,
                internal_scale: s.internal_scale,
                ..t
            }) == s
        }),
        ({
            let t = s.edited(EditView::Backend(backend), home);
            &&& t.backend == backend
            &&& (backend != s.backend && s.model_idx < t.model_list().len() ==> t.model_idx
                == s.model_idx)
            &&& (backend != s.backend && s.model_idx >= t.model_list().len() ==> t.model_idx == 0)
            &&& backend == s.backend ==> t == s
            &&& (SettingsView { backend: s.backend, model_idx: s.model_idx, ..t }) == s
        }),
        ({
            let e = EditView::ModelsDir { idx, asked, found };
            let t = s.edited(e, home);
            &&& s.backend == Backend::Rocm ==> t == s && !s.reports(e, home)
            &&& s.backend == Backend::Vulkan ==> {
                &&& t.models_dir_idx == idx
                &&& s.reports(e, home) <==> asked || idx != s.models_dir_idx
                &&& (asked || idx != s.models_dir_idx ==> t.scanned_models == found)
                &&& (!asked && idx == s.models_dir_idx ==> t == s)
            }
        }),
{
}

/// A frame of the panel does what the user did in it one after the other, and it counts as a change
/// where any of it does.
pub proof fn law_edits_add_up(s: SettingsView, edits: Seq<EditView>, e: EditView, home: Seq<char>)
    ensures
        edited_all(s, Seq::empty(), home) == (s, false),
        ({
            let (t, changed) = edited_all(s, edits, home);
            let (u, more) = edited_all(s, edits.push(e), home);
            &&& u == t.edited(e, home)
            &&& more <==> changed || t.reports(e, home)
        }),
{
    assert(edits.push(e).drop_last() =~= edits);
}

/// Which knobs the panel has: those of a backend only with that backend, the text of a custom
/// directory or brightness only where that is chosen, and the scale where the model does not fix
/// it.
pub proof fn law_rows_of_the_panel(s: SettingsView, home: Seq<char>)
    ensures
        s.rows(home).models_dir <==> s.backend == Backend::Vulkan,
        s.rows(home).models_dir_text <==> s.backend == Backend::Vulkan && s.models_dir_idx >= 2,
        s.rows(home).batch_size <==> s.backend == Backend::Rocm,
        s.rows(home).brightness_text <==> s.brightness == BrightnessPreset::Custom,
        s.rows(home).internal_scale <==> s.fixed_scale() is None,
{
}

/// A model that says a scale fixes it, in whatever case its name is written; where no model is
/// selected, nothing is fixed.
pub proof fn law_model_fixes_the_scale(s: SettingsView, name: Seq<char>)
    ensures
        s.selected() == Some(name) ==> s.fixed_scale() == scale_named(lowercase(name)),
        s.selected() is None ==> s.fixed_scale() is None,
        s.fixed_scale() is Some ==> Some(s.scale_synced().internal_scale) == s.fixed_scale(),
        s.fixed_scale() is None ==> s.scale_synced() == s,
        (SettingsView { internal_scale: s.internal_scale, ..s.scale_synced() }) == s,
{
}

/// The settings of a program that has just started, whatever the home directory and the models
/// there.
pub proof fn law_first_settings(home: Seq<char>, found: Seq<Seq<char>>)
    ensures
        ({
            let s = default_settings(home, found);
            &&& s.scanned_models == found
            &&& s.models_dir_idx == 0 && s.model_idx == 0
            &&& s.models_dir_custom == path_text(chosen_dir(0, s.models_dir_custom, home))
            &&& s.crush == CrushPreset::Off && s.brightness == BrightnessPreset::Off
            &&& s.brightness_custom.len() == 0
            &&& s.internal_scale == 4 && s.final_scale == 2
            &&& s.crf == 21 && s.segment_secs == 30 && s.batch_size == 2
            &&& s.backend == Backend::Rocm
            &&& !s.denoise
        }),
{
}

} // verus!
