//! Where the capture tree, its scripts and its logs live.
use vstd::prelude::*;
use vstd::utf8::encode_utf8;

use crate::path::{
    joined, law_entry_of_directory, law_no_slash_in_name, lemma_encoded_len, parent, tidy, FilePath,
};

verus! {

/// The settings that the program starts with.
pub struct Config {
    pub videos_dir: FilePath,
    pub v4l2_device: String,
    pub max_capture_duration: String,
    pub capture_script: FilePath,
}

/// The path `rel`, taken from the directory `dir`.
pub open spec fn under(dir: Seq<u8>, rel: Seq<char>) -> Seq<u8> {
    joined(dir, encode_utf8(rel))
}

/// The home directory that stands in where none is known.
pub open spec fn fallback_home() -> Seq<char> {
    "/home/ryan"@
}

impl Config {
    /// The configuration of the user whose home directory is `home`; `None` where the
    /// environment does not name one.
    pub fn for_home(home: Option<&str>) -> (r: Config)
        ensures
            r.videos_dir@ == under(
                encode_utf8(
                    match home {
                        Some(h) => h@,
                        None => fallback_home(),
                    },
                ),
                "Videos"@,
            ),
            r.capture_script@ == under(r.videos_dir@, "vhs_capture_ffmpeg.sh"@),
            r.v4l2_device@ == "/dev/v4l/by-id/usb-MACROSIL_AV_TO_USB2.0-video-index0"@,
            r.max_capture_duration@ == "04:00:00"@,
    {
        let home = match home {
            Some(h) => h,
            None => "/home/ryan",
        };
        let videos = FilePath::from_text(home).join("Videos");
        Config {
            capture_script: videos.join("vhs_capture_ffmpeg.sh"),
            v4l2_device: "/dev/v4l/by-id/usb-MACROSIL_AV_TO_USB2.0-video-index0".to_owned(),
            max_capture_duration: "04:00:00".to_owned(),
            videos_dir: videos,
        }
    }

    /// Raw captures.
    pub open spec fn archival_path(&self) -> Seq<u8> {
        under(self.videos_dir@, "captures/archival"@)
    }

    /// Denoised and deinterlaced intermediates, and edit masters.
    pub open spec fn stabilized_path(&self) -> Seq<u8> {
        under(self.videos_dir@, "captures/stabilized"@)
    }

    /// Copies for viewing.
    pub open spec fn viewer_path(&self) -> Seq<u8> {
        under(self.videos_dir@, "captures/viewer"@)
    }

    /// Logs and process group files.
    pub open spec fn log_path(&self) -> Seq<u8> {
        under(self.videos_dir@, "logs"@)
    }

    pub fn archival_dir(&self) -> (r: FilePath)
        ensures
            r@ == self.archival_path(),
    {
        self.videos_dir.join("captures/archival")
    }

    pub fn stabilized_dir(&self) -> (r: FilePath)
        ensures
            r@ == self.stabilized_path(),
    {
        self.videos_dir.join("captures/stabilized")
    }

    pub fn viewer_dir(&self) -> (r: FilePath)
        ensures
            r@ == self.viewer_path(),
    {
        self.videos_dir.join("captures/viewer")
    }

    pub fn log_dir(&self) -> (r: FilePath)
        ensures
            r@ == self.log_path(),
    {
        self.videos_dir.join("logs")
    }

    /// The file that holds the process group of the running capture.
    pub fn capture_pgid_file(&self) -> (r: FilePath)
        ensures
            r@ == under(self.log_path(), "capture.pgid"@),
    {
        self.log_dir().join("capture.pgid")
    }

    pub fn stabilize_script(&self) -> (r: FilePath)
        ensures
            r@ == under(self.videos_dir@, "vhs_stabilize.sh"@),
    {
        self.videos_dir.join("vhs_stabilize.sh")
    }

    pub fn process_script(&self) -> (r: FilePath)
        ensures
            r@ == under(self.videos_dir@, "vhs_process.sh"@),
    {
        self.videos_dir.join("vhs_process.sh")
    }

    pub fn ivtc_script(&self) -> (r: FilePath)
        ensures
            r@ == under(self.videos_dir@, "vhs_ivtc.sh"@),
    {
        self.videos_dir.join("vhs_ivtc.sh")
    }

    /// The audio denoise step, which is the stabilize script.
    pub fn denoise_script(&self) -> (r: FilePath)
        ensures
            r@ == under(self.videos_dir@, "vhs_stabilize.sh"@),
    {
        self.stabilize_script()
    }

    pub fn qtgmc_only_script(&self) -> (r: FilePath)
        ensures
            r@ == under(self.videos_dir@, "vhs_qtgmc_only.sh"@),
    {
        self.videos_dir.join("vhs_qtgmc_only.sh")
    }

    pub fn vdecimate_script(&self) -> (r: FilePath)
        ensures
            r@ == under(self.videos_dir@, "vhs_vdecimate.sh"@),
    {
        self.videos_dir.join("vhs_vdecimate.sh")
    }

    pub fn viewer_encode_script(&self) -> (r: FilePath)
        ensures
            r@ == under(self.videos_dir@, "vhs_viewer_encode.sh"@),
    {
        self.videos_dir.join("vhs_viewer_encode.sh")
    }

    pub fn upscale_script(&self) -> (r: FilePath)
        ensures
            r@ == under(self.videos_dir@, "vhs_upscale.sh"@),
    {
        self.videos_dir.join("vhs_upscale.sh")
    }

    pub fn upscale_bw_script(&self) -> (r: FilePath)
        ensures
            r@ == under(self.videos_dir@, "vhs_upscale_bw.sh"@),
    {
        self.videos_dir.join("vhs_upscale_bw.sh")
    }

    pub fn upscale_anime_script(&self) -> (r: FilePath)
        ensures
            r@ == under(self.videos_dir@, "vhs_upscale_anime.sh"@),
    {
        self.videos_dir.join("vhs_upscale_anime.sh")
    }
}

/// The capture script's group file lies in the log directory itself, which is where the capture
/// logs are looked for.
pub proof fn law_group_file_in_log_dir(cfg: Config)
    ensures
        parent(under(cfg.log_path(), "capture.pgid"@)) == Some(tidy(cfg.log_path())),
{
    reveal_strlit("capture.pgid");
    let name = "capture.pgid"@;
    assert forall|i: int| 0 <= i < name.len() implies name[i] != '/' by {}
    law_no_slash_in_name(name);
    lemma_encoded_len(name);
    law_entry_of_directory(cfg.log_path(), encode_utf8(name));
}

/// Every directory lies below the directory of the videos.
pub proof fn law_directories_lie_below_the_videos(cfg: Config)
    ensures
        cfg.archival_path() == joined(cfg.videos_dir@, encode_utf8("captures/archival"@)),
        cfg.stabilized_path() == joined(cfg.videos_dir@, encode_utf8("captures/stabilized"@)),
        cfg.viewer_path() == joined(cfg.videos_dir@, encode_utf8("captures/viewer"@)),
        cfg.log_path() == joined(cfg.videos_dir@, encode_utf8("logs"@)),
{
}

} // verus!
