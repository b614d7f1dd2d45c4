use vhs_gui::panels::ViewMode;
use vhs_gui::path::FilePath;
use vhs_gui::persist::{AppSettings, PersistedUpscaleSettings};
use vhs_gui::settings::{
    infer_scale, models_dir_at, preset_models_dirs, rocm_models, scan_models, Backend, BrightnessPreset,
    CrushPreset, ModelFile, SettingsEdit, UpscaleSettings,
};
use vhs_gui::v4l2::{Preset, V4l2Controls};

const HOME: &str = "/home/u";

fn model(path: &str, has_bin: bool) -> ModelFile {
    ModelFile { path: FilePath::from_text(path), has_bin }
}

fn models() -> Vec<ModelFile> {
    vec![
        model("/m/realesrgan-x4plus.param", true),
        model("/m/realesr-animevideov3-x2.param", true),
        model("/m/realesrnet-x4plus.param", false),
        model("/m/other.param", true),
        model("/m/realesrgan-x4plus.bin", true),
    ]
}

fn settings() -> UpscaleSettings {
    UpscaleSettings::initial(HOME, &models())
}

fn pairs(v: &[(String, String)]) -> Vec<(&str, &str)> {
    v.iter().map(|(k, v)| (k.as_str(), v.as_str())).collect()
}

#[test]
fn names_and_values_of_the_presets() {
    let crush: Vec<(&str, &str)> =
        CrushPreset::all().iter().map(|c| (c.label(), c.env_value())).collect();
    assert_eq!(
        crush,
        vec![("None", "none"), ("Small", "small"), ("Medium", "medium"), ("Heavy", "heavy")]
    );
    let bright: Vec<(&str, String)> =
        BrightnessPreset::all().iter().map(|b| (b.label(), b.env_value(" 0.12 "))).collect();
    assert_eq!(
        bright,
        vec![
            ("None (0)", "none".to_owned()),
            ("Low (0.02)", "low".to_owned()),
            ("Medium (0.05)", "medium".to_owned()),
            ("High (0.095)", "high".to_owned()),
            ("Custom…", "0.12".to_owned()),
        ]
    );
    assert_eq!(Backend::Rocm.env_value(), "rocm");
    assert_eq!(Backend::Vulkan.env_value(), "vulkan");
}

#[test]
fn defaults_of_the_presets() {
    assert_eq!(CrushPreset::default(), CrushPreset::Off);
    assert_eq!(BrightnessPreset::default(), BrightnessPreset::Off);
    assert_eq!(Backend::default(), Backend::Rocm);
    assert_eq!(ViewMode::default(), ViewMode::Monitor);
}

#[test]
fn models_directories() {
    let dirs: Vec<(String, String)> = preset_models_dirs(HOME)
        .into_iter()
        .map(|(l, p)| (l, p.lossy_text()))
        .collect();
    assert_eq!(
        dirs,
        vec![
            ("Standard".to_owned(), "/home/u/opt/realesrgan-ncnn/models".to_owned()),
            ("Downloads/ncnn".to_owned(), "/home/u/Downloads/models/ncnn".to_owned()),
        ]
    );
}

#[test]
fn scanning_finds_what_can_run() {
    assert_eq!(scan_models(&models()), vec!["realesr-animevideov3-x2", "realesrgan-x4plus"]);
    assert_eq!(scan_models(&Vec::new()), Vec::<String>::new());
}

#[test]
fn scales_are_read_off_names() {
    assert_eq!(infer_scale("2x_VHS-Film"), Some(2));
    assert_eq!(infer_scale("2X_vhs-film"), Some(2));
    assert_eq!(infer_scale("ToonVHS-1x"), Some(1));
    assert_eq!(infer_scale("realesrgan-x4plus-anime"), Some(4));
    assert_eq!(infer_scale("realesrgan-x2plus"), Some(2));
    assert_eq!(infer_scale("a-x3-1x"), Some(1));
    assert_eq!(infer_scale("plain"), None);
    assert_eq!(infer_scale("a2x_"), None);
    for m in rocm_models() {
        assert!(infer_scale(m).is_some());
    }
}

#[test]
fn settings_of_a_new_user() {
    let s = settings();
    assert_eq!(s.models_dir_custom, "/home/u/opt/realesrgan-ncnn/models");
    assert_eq!(s.effective_models_dir(HOME).lossy_text(), "/home/u/opt/realesrgan-ncnn/models");
    assert_eq!(s.selected_model(), Some("realesrgan-x4plus"));
    assert_eq!(
        (s.internal_scale, s.final_scale, s.crf, s.segment_secs, s.batch_size, s.denoise),
        (4, 2, 21, 30, 2, false)
    );
    assert_eq!(s.effective_model_list(), rocm_models());
}

#[test]
fn what_a_rocm_job_is_given() {
    let s = settings();
    let (envs, args) = s.to_launch(&FilePath::from_text("/v/out.mkv"), HOME);
    assert_eq!(
        pairs(&envs),
        vec![
            ("CRUSH", "none"),
            ("BRIGHTNESS", "none"),
            ("UPSCALE_BACKEND", "rocm"),
            ("INTERNAL_SCALE", "4"),
            ("FINAL_SCALE", "2"),
            ("BATCH_SIZE", "2"),
            ("MODEL", "realesrgan-x4plus"),
        ]
    );
    assert_eq!(args, vec!["/v/out.mkv", "30", "21"]);
}

#[test]
fn what_a_vulkan_job_is_given() {
    let mut s = settings();
    s.backend = Backend::Vulkan;
    s.models_dir_idx = 2;
    s.models_dir_custom = "/x".to_owned();
    s.model_idx = 7;
    s.denoise = true;
    s.brightness = BrightnessPreset::Custom;
    s.brightness_custom = " 0.03".to_owned();
    let (envs, _) = s.to_launch(&FilePath::from_text("o"), HOME);
    assert_eq!(
        pairs(&envs),
        vec![
            ("CRUSH", "none"),
            ("BRIGHTNESS", "0.03"),
            ("UPSCALE_BACKEND", "vulkan"),
            ("INTERNAL_SCALE", "4"),
            ("FINAL_SCALE", "2"),
            ("MODELS_DIR", "/x"),
            ("DENOISE", "1"),
        ]
    );
}

#[test]
fn a_rescan_keeps_the_model_in_the_list() {
    let mut s = settings();
    s.backend = Backend::Vulkan;
    s.model_idx = 1;
    s.internal_scale = 1;
    s.rescan(&models());
    assert_eq!((s.model_idx, s.internal_scale), (1, 4));
    s.rescan(&vec![model("/m/realesr-animevideov3-x2.param", true)]);
    assert_eq!((s.model_idx, s.internal_scale), (0, 2));
    s.rescan(&vec![model("/m/realesr-animevideov3-x2.param", true)]);
    assert_eq!((s.model_idx, s.internal_scale), (0, 2));
    s.rescan(&Vec::new());
    assert_eq!((s.model_idx, s.internal_scale), (0, 2));
    assert_eq!(s.model_label(), "(none)");
}

#[test]
fn the_knobs_of_the_panel() {
    let mut s = settings();
    assert!(!s.edit(&SettingsEdit::Backend(Backend::Rocm), HOME));
    s.model_idx = 5;
    assert!(s.edit(&SettingsEdit::Backend(Backend::Vulkan), HOME));
    assert_eq!(s.model_idx, 0);
    assert!(!s.edit(&SettingsEdit::BatchSize(8), HOME));
    assert!(!s.edit(&SettingsEdit::ModelsDirText("/y".to_owned()), HOME));
    assert!(s.select_models_dir(2, false));
    assert!(!s.select_models_dir(2, false));
    assert!(s.select_models_dir(2, true));
    assert!(s.edit(&SettingsEdit::ModelsDirText("/y".to_owned()), HOME));
    assert_eq!(s.models_dir_label(HOME), "Custom");
    assert_eq!(s.effective_models_dir(HOME).lossy_text(), "/y");
    assert!(s.edit(&SettingsEdit::Model(1), HOME));
    assert!(!s.edit(&SettingsEdit::Model(2), HOME));
    assert_eq!(s.selected_model(), Some("realesrgan-x4plus"));
    assert!(!s.edit(&SettingsEdit::BrightnessText("1".to_owned()), HOME));
    assert!(s.edit(&SettingsEdit::Brightness(BrightnessPreset::Custom), HOME));
    assert!(s.edit(&SettingsEdit::BrightnessText("1".to_owned()), HOME));
    assert!(s.edit(&SettingsEdit::Crush(CrushPreset::Heavy), HOME));
    assert!(s.edit(&SettingsEdit::Denoise(true), HOME));
    assert!(!s.edit(&SettingsEdit::Denoise(true), HOME));
    assert!(s.edit(&SettingsEdit::FinalScale(4), HOME));
    assert!(!s.edit(&SettingsEdit::FinalScale(3), HOME));
    assert_eq!(s.final_scale, 4);
}

fn dir(idx: usize, asked: bool, files: Vec<ModelFile>) -> SettingsEdit {
    SettingsEdit::ModelsDir { idx, asked, files }
}

#[test]
fn choosing_a_models_directory_scans_it() {
    let mut s = settings();
    assert!(!s.edit(&dir(1, true, Vec::new()), HOME));
    assert_eq!(s.models_dir_idx, 0);
    s.backend = Backend::Vulkan;
    s.model_idx = 1;
    assert!(!s.needs_scan(0, false));
    assert!(!s.edit(&dir(0, false, Vec::new()), HOME));
    assert_eq!(s.scanned_models.len(), 2);
    assert!(s.needs_scan(1, false));
    let anime = vec![model("/n/realesr-animevideov3-x2.param", true)];
    assert!(s.edit(&dir(1, false, anime), HOME));
    assert_eq!(s.scanned_models, vec!["realesr-animevideov3-x2"]);
    assert_eq!((s.models_dir_idx, s.model_idx, s.internal_scale), (1, 0, 2));
    assert!(s.needs_scan(1, true));
    let same = vec![model("/n/realesr-animevideov3-x2.param", true)];
    assert!(s.edit_all(&vec![dir(1, true, same)], HOME));
    assert!(!s.edit_all(&vec![dir(1, false, Vec::new())], HOME));
    assert_eq!(models_dir_at(1, "/y", HOME).lossy_text(), "/home/u/Downloads/models/ncnn");
    assert_eq!(models_dir_at(2, "/y", HOME).lossy_text(), "/y");
}

#[test]
fn knobs_stay_in_their_ranges() {
    let mut s = settings();
    assert!(s.edit(&SettingsEdit::Crf(99), HOME));
    assert!(!s.edit(&SettingsEdit::Crf(28), HOME));
    assert!(s.edit(&SettingsEdit::SegmentSecs(1), HOME));
    assert!(s.edit(&SettingsEdit::BatchSize(0), HOME));
    assert_eq!((s.crf, s.segment_secs, s.batch_size), (28, 10, 1));
}

#[test]
fn a_fixed_scale_cannot_be_turned() {
    let mut s = settings();
    assert!(!s.edit(&SettingsEdit::InternalScale(2), HOME));
    assert_eq!(s.internal_scale, 4);
    s.backend = Backend::Vulkan;
    s.scanned_models = vec!["plain".to_owned()];
    assert!(s.edit(&SettingsEdit::InternalScale(3), HOME));
    assert!(!s.edit(&SettingsEdit::InternalScale(5), HOME));
    assert_eq!(s.internal_scale, 3);
    let rows = s.rows(HOME);
    assert!(rows.models_dir && rows.internal_scale);
    assert!(!rows.models_dir_text && !rows.brightness_text && !rows.batch_size);
}

#[test]
fn a_frame_of_the_panel_locks_the_scale() {
    let mut s = settings();
    s.internal_scale = 1;
    assert!(s.edit_all(&Vec::new(), HOME));
    assert_eq!(s.internal_scale, 4);
    assert!(!s.edit_all(&Vec::new(), HOME));
    assert!(s.edit_all(&vec![SettingsEdit::Model(3), SettingsEdit::Crf(14)], HOME));
    assert_eq!((s.internal_scale, s.crf), (2, 14));
    assert_eq!(s.lock_scale(), (Some(2), false));
}

#[test]
fn saved_settings_come_back() {
    let mut s = settings();
    s.backend = Backend::Vulkan;
    s.model_idx = 1;
    s.crf = 18;
    s.denoise = true;
    s.brightness = BrightnessPreset::High;
    let mut v4l2 = V4l2Controls::new(&vec![Some(7)]);
    let saved = AppSettings::capture_from(&ViewMode::Upscale, &v4l2, &s);
    assert_eq!(saved.upscale.model_name.as_deref(), Some("realesrgan-x4plus"));
    assert_eq!(saved.upscale.models_dir(HOME).lossy_text(), "/home/u/opt/realesrgan-ncnn/models");

    let mut mode = ViewMode::Monitor;
    let mut live = settings();
    v4l2.reset_all();
    let msgs = saved.apply_to(&mut mode, &mut v4l2, &mut live, &models());
    assert_eq!(mode, ViewMode::Upscale);
    assert_eq!(msgs.len(), 5);
    assert_eq!(v4l2.ctrls[0].value, 7);
    assert_eq!(live.selected_model(), Some("realesrgan-x4plus"));
    assert_eq!((live.crf, live.denoise, live.internal_scale), (18, true, 4));
    assert_eq!((live.backend, live.brightness), (Backend::Vulkan, BrightnessPreset::High));
}

#[test]
fn a_saved_model_is_found_by_its_name() {
    let mut saved = PersistedUpscaleSettings::initial(HOME);
    saved.backend = Backend::Vulkan;
    saved.model_name = Some("realesrgan-x4plus".to_owned());
    let all = AppSettings { mode: ViewMode::Monitor, v4l2: Preset::new(), upscale: saved };
    let mut mode = ViewMode::Upscale;
    let mut v4l2 = V4l2Controls::new(&Vec::new());
    let mut live = settings();
    let msgs = all.apply_to(&mut mode, &mut v4l2, &mut live, &models());
    assert!(msgs.is_empty());
    assert_eq!(live.model_idx, 1);
    all.apply_to(&mut mode, &mut v4l2, &mut live, &Vec::new());
    assert_eq!((live.model_idx, live.selected_model()), (0, None));
}

fn restored(model: &str, scale: u8) -> UpscaleSettings {
    let mut saved = PersistedUpscaleSettings::initial(HOME);
    saved.model_name = Some(model.to_owned());
    saved.internal_scale = scale;
    let all = AppSettings { mode: ViewMode::Monitor, v4l2: Preset::new(), upscale: saved };
    let mut mode = ViewMode::Monitor;
    let mut v4l2 = V4l2Controls::new(&Vec::new());
    let mut live = settings();
    all.apply_to(&mut mode, &mut v4l2, &mut live, &models());
    live
}

#[test]
fn the_saved_scale_comes_back_with_its_model() {
    let mut two = restored("2x_VHS-Film", 2);
    assert_eq!(two.selected_model(), Some("2x_VHS-Film"));
    assert_eq!(two.internal_scale, 2);
    let (envs, _) = two.to_launch(&FilePath::from_text("o"), HOME);
    assert!(pairs(&envs).contains(&("INTERNAL_SCALE", "2")));
    assert!(pairs(&envs).contains(&("MODEL", "2x_VHS-Film")));
    assert_eq!(two.lock_scale(), (Some(2), false));
    let one = restored("ToonVHS-1x", 1);
    assert_eq!((one.selected_model(), one.internal_scale), (Some("ToonVHS-1x"), 1));
    let four = restored("realesrgan-x4plus-anime", 4);
    assert_eq!(
        (four.selected_model(), four.internal_scale),
        (Some("realesrgan-x4plus-anime"), 4)
    );
}

#[test]
fn a_saved_model_that_is_gone_leaves_what_the_scan_found() {
    let gone = restored("no-such-model", 2);
    assert_eq!(gone.selected_model(), Some("realesrgan-x4plus"));
    assert_eq!(gone.internal_scale, 4);
}

#[test]
fn settings_that_nobody_saved() {
    let all = AppSettings::initial(HOME);
    assert_eq!(all.mode, ViewMode::Monitor);
    assert!(all.v4l2.is_empty());
    assert_eq!(all.upscale.model_name, None);
    assert_eq!(all.upscale.crf, 21);
    assert_eq!(
        AppSettings::config_path(HOME).lossy_text(),
        "/home/u/.config/vhs-gui/config.toml"
    );
}
