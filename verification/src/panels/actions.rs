//! What can be done with a file of the library.
use vstd::prelude::*;
use vstd::string::StringExecFns;

use crate::config::{under, Config};
use crate::library::FileKind;
use crate::path::FilePath;
use crate::settings::{pairs, push_env};

verus! {

/// A job that can be started on a file.
#[derive(Clone, Copy, Debug, PartialEq, Eq, Structural)]
pub enum FileAction {
    Denoise,
    DenoiseQtgmc,
    Qtgmc,
    Ivtc,
    VDecimate,
    ViewerEncode,
    UpscaleFilm,
    UpscaleFilmBw,
    Upscale,
    UpscaleBw,
    UpscaleAnime,
}

/// The jobs that are offered for a file of a kind, in the order of their buttons.
pub open spec fn actions_for(kind: FileKind) -> Seq<FileAction> {
    match kind {
        FileKind::Archival => seq![FileAction::Denoise, FileAction::DenoiseQtgmc],
        FileKind::Stabilized => seq![FileAction::Qtgmc, FileAction::Ivtc],
        FileKind::EditMaster => seq![FileAction::VDecimate, FileAction::ViewerEncode],
        FileKind::EditMasterVD => seq![
            FileAction::ViewerEncode,
            FileAction::UpscaleFilm,
            FileAction::UpscaleFilmBw,
            FileAction::UpscaleAnime,
        ],
        FileKind::Viewer => seq![
            FileAction::Upscale,
            FileAction::UpscaleBw,
            FileAction::UpscaleAnime,
        ],
    }
}

/// The jobs that are offered for a file of a kind.
pub fn file_actions(kind: FileKind) -> (r: Vec<FileAction>)
    ensures
        r@ == actions_for(kind),
{
    match kind {
        FileKind::Archival => vec![FileAction::Denoise, FileAction::DenoiseQtgmc],
        FileKind::Stabilized => vec![FileAction::Qtgmc, FileAction::Ivtc],
        FileKind::EditMaster => vec![FileAction::VDecimate, FileAction::ViewerEncode],
        FileKind::EditMasterVD => vec![
            FileAction::ViewerEncode,
            FileAction::UpscaleFilm,
            FileAction::UpscaleFilmBw,
            FileAction::UpscaleAnime,
        ],
        FileKind::Viewer => vec![
            FileAction::Upscale,
            FileAction::UpscaleBw,
            FileAction::UpscaleAnime,
        ],
    }
}

/// Whether a job is offered for a file of a kind.
pub fn is_offered(action: FileAction, kind: FileKind) -> (r: bool)
    ensures
        r == actions_for(kind).contains(action),
{
    let list = file_actions(kind);
    let mut i: usize = 0;
    while i < list.len()
        invariant
            i <= list@.len(),
            list@ == actions_for(kind),
            forall|j: int| 0 <= j < i ==> #[trigger] list@[j] != action,
        decreases list@.len() - i,
    {
        if list[i] == action {
            return true;
        }
        i = i + 1;
    }
    false
}

impl FileAction {
    /// The text of the job's button, which also begins the job's label.
    pub open spec fn label_text(self) -> Seq<char> {
        match self {
            FileAction::Denoise => "Denoise"@,
            FileAction::DenoiseQtgmc => "Denoise+QTGMC"@,
            FileAction::Qtgmc => "QTGMC"@,
            FileAction::Ivtc => "IVTC"@,
            FileAction::VDecimate => "VDecimate"@,
            FileAction::ViewerEncode => "Viewer Encode"@,
            FileAction::UpscaleFilm => "Upscale Film"@,
            FileAction::UpscaleFilmBw => "Upscale Film B&W"@,
            FileAction::Upscale => "Upscale"@,
            FileAction::UpscaleBw => "Upscale B&W"@,
            FileAction::UpscaleAnime => "Upscale Anime"@,
        }
    }

    /// The name of the job's script.
    pub open spec fn script_name(self) -> Seq<char> {
        match self {
            FileAction::Denoise => "vhs_stabilize.sh"@,
            FileAction::DenoiseQtgmc => "vhs_process.sh"@,
            FileAction::Qtgmc => "vhs_qtgmc_only.sh"@,
            FileAction::Ivtc => "vhs_ivtc.sh"@,
            FileAction::VDecimate => "vhs_vdecimate.sh"@,
            FileAction::ViewerEncode => "vhs_viewer_encode.sh"@,
            FileAction::UpscaleFilm | FileAction::Upscale => "vhs_upscale.sh"@,
            FileAction::UpscaleFilmBw | FileAction::UpscaleBw => "vhs_upscale_bw.sh"@,
            FileAction::UpscaleAnime => "vhs_upscale_anime.sh"@,
        }
    }

    /// Whether the job upscales, with the settings of the upscale view.
    pub open spec fn upscales(self) -> bool {
        match self {
            FileAction::UpscaleFilm
            | FileAction::UpscaleFilmBw
            | FileAction::Upscale
            | FileAction::UpscaleBw
            | FileAction::UpscaleAnime => true,
            _ => false,
        }
    }

    /// The environment variables that a job which does not upscale gets.
    pub open spec fn own_envs(self) -> Seq<(Seq<char>, Seq<char>)> {
        if self == FileAction::DenoiseQtgmc {
            seq![("NO_LAUNCH"@, "1"@)]
        } else {
            Seq::empty()
        }
    }

    pub fn label(&self) -> (r: &'static str)
        ensures
            r@ == self.label_text(),
    {
        match self {
            FileAction::Denoise => "Denoise",
            FileAction::DenoiseQtgmc => "Denoise+QTGMC",
            FileAction::Qtgmc => "QTGMC",
            FileAction::Ivtc => "IVTC",
            FileAction::VDecimate => "VDecimate",
            FileAction::ViewerEncode => "Viewer Encode",
            FileAction::UpscaleFilm => "Upscale Film",
            FileAction::UpscaleFilmBw => "Upscale Film B&W",
            FileAction::Upscale => "Upscale",
            FileAction::UpscaleBw => "Upscale B&W",
            FileAction::UpscaleAnime => "Upscale Anime",
        }
    }

    pub fn script(&self, cfg: &Config) -> (r: FilePath)
        ensures
            r@ == under(cfg.videos_dir@, self.script_name()),
    {
        match self {
            FileAction::Denoise => cfg.denoise_script(),
            FileAction::DenoiseQtgmc => cfg.process_script(),
            FileAction::Qtgmc => cfg.qtgmc_only_script(),
            FileAction::Ivtc => cfg.ivtc_script(),
            FileAction::VDecimate => cfg.vdecimate_script(),
            FileAction::ViewerEncode => cfg.viewer_encode_script(),
            FileAction::UpscaleFilm => cfg.upscale_script(),
            FileAction::UpscaleFilmBw => cfg.upscale_bw_script(),
            FileAction::Upscale => cfg.upscale_script(),
            FileAction::UpscaleBw => cfg.upscale_bw_script(),
            FileAction::UpscaleAnime => cfg.upscale_anime_script(),
        }
    }

    pub fn is_upscale(&self) -> (r: bool)
        ensures
            r == self.upscales(),
    {
        match self {
            FileAction::UpscaleFilm => true,
            FileAction::UpscaleFilmBw => true,
            FileAction::Upscale => true,
            FileAction::UpscaleBw => true,
            FileAction::UpscaleAnime => true,
            _ => false,
        }
    }

    /// The environment variables that a job which does not upscale gets.
    pub fn envs(&self) -> (r: Vec<(String, String)>)
        ensures
            pairs(r@) == self.own_envs(),
    {
        let mut envs: Vec<(String, String)> = Vec::new();
        assert(pairs(envs@) =~= Seq::empty());
        if *self == FileAction::DenoiseQtgmc {
            push_env(&mut envs, "NO_LAUNCH", "1".to_owned());
            assert(pairs(envs@) =~= self.own_envs());
        }
        envs
    }

    /// The label of the job on a file.
    pub fn job_label(&self, name: &str) -> (r: String)
        ensures
            r@ == self.label_text() + " "@ + name@,
    {
        let mut t = self.label().to_owned();
        t.append(" ");
        t.append(name);
        t
    }
}

/// Only a file that is ready to be watched can be upscaled: a copy for viewing, or a decimated
/// edit master.
pub proof fn law_what_can_be_upscaled(kind: FileKind, action: FileAction)
    requires
        actions_for(kind).contains(action),
    ensures
        action.upscales() ==> kind == FileKind::Viewer || kind == FileKind::EditMasterVD,
        kind == FileKind::Viewer ==> action.upscales(),
{
    let list = actions_for(kind);
    let i = choose|i: int| 0 <= i < list.len() && list[i] == action;
    assert(i == 0 || i == 1 || i == 2 || i == 3);
}

/// A job upscales exactly where its button says so, and its script does too.
pub proof fn law_buttons_say_what_upscales(action: FileAction)
    ensures
        action.upscales() <==> "Upscale"@.is_prefix_of(action.label_text()),
        action.upscales() <==> "vhs_upscale"@.is_prefix_of(action.script_name()),
{
    reveal_strlit("Upscale");
    reveal_strlit("vhs_upscale");
    reveal_strlit("Denoise");
    reveal_strlit("Denoise+QTGMC");
    reveal_strlit("QTGMC");
    reveal_strlit("IVTC");
    reveal_strlit("VDecimate");
    reveal_strlit("Viewer Encode");
    reveal_strlit("Upscale Film");
    reveal_strlit("Upscale Film B&W");
    reveal_strlit("Upscale B&W");
    reveal_strlit("Upscale Anime");
    reveal_strlit("vhs_stabilize.sh");
    reveal_strlit("vhs_process.sh");
    reveal_strlit("vhs_qtgmc_only.sh");
    reveal_strlit("vhs_ivtc.sh");
    reveal_strlit("vhs_vdecimate.sh");
    reveal_strlit("vhs_viewer_encode.sh");
    reveal_strlit("vhs_upscale.sh");
    reveal_strlit("vhs_upscale_bw.sh");
    reveal_strlit("vhs_upscale_anime.sh");
    let l = action.label_text();
    let s = action.script_name();
    if action.upscales() {
        assert(l.subrange(0, 7) =~= "Upscale"@);
        assert(s.subrange(0, 11) =~= "vhs_upscale"@);
    } else {
        if "Upscale"@.is_prefix_of(l) {
            assert(l.subrange(0, 7)[0] == 'U');
            assert(l[0] == 'U');
        }
        if "vhs_upscale"@.is_prefix_of(s) {
            assert(s.subrange(0, 11)[4] == 'u');
            assert(s[4] == 'u');
        }
    }
}

/// The editor is kept from starting after the one job that would start it, and no other job is
/// given a variable of its own.
pub proof fn law_own_variables(action: FileAction)
    ensures
        action == FileAction::DenoiseQtgmc ==> action.own_envs() == seq![("NO_LAUNCH"@, "1"@)],
        action != FileAction::DenoiseQtgmc ==> action.own_envs().len() == 0,
{
}

/// What is offered for a file is the next step on its way: a raw capture is denoised, an
/// intermediate is deinterlaced or field-matched, an edit master is decimated or encoded, a
/// decimated one is encoded or upscaled, and a copy for viewing is upscaled. Nothing is offered
/// twice.
pub proof fn law_next_steps(kind: FileKind, action: FileAction)
    ensures
        actions_for(kind).contains(action) <==> match kind {
            FileKind::Archival => action == FileAction::Denoise || action
                == FileAction::DenoiseQtgmc,
            FileKind::Stabilized => action == FileAction::Qtgmc || action == FileAction::Ivtc,
            FileKind::EditMaster => action == FileAction::VDecimate || action
                == FileAction::ViewerEncode,
            FileKind::EditMasterVD => action == FileAction::ViewerEncode || action
                == FileAction::UpscaleFilm || action == FileAction::UpscaleFilmBw || action
                == FileAction::UpscaleAnime,
            FileKind::Viewer => action == FileAction::Upscale || action == FileAction::UpscaleBw
                || action == FileAction::UpscaleAnime,
        },
        actions_for(kind).no_duplicates(),
{
    let l = actions_for(kind);
    assert(l.len() >= 2 && l.len() <= 4);
    assert(l.contains(l[0]) && l.contains(l[1]));
    if l.len() > 2 {
        assert(l.contains(l[2]));
    }
    if l.len() > 3 {
        assert(l.contains(l[3]));
    }
}

} // verus!
