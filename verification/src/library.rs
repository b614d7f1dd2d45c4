//! The list of video files, grouped by how far they are processed.
use vstd::prelude::*;
use vstd::utf8::encode_utf8;

use crate::order::{
    earlier, files_view, law_newest_order_total, newest_first, newest_order, order_newest_first,
    positions, times_of, DirFile, FileView,
};
use crate::path::{file_name_text, has_extension, joined, law_named_file, FilePath};
use crate::text::{ends_with, starts_with};

verus! {

/// How far a file is processed.
#[derive(Clone, Copy, Debug, PartialEq, Eq, Structural)]
pub enum FileKind {
    /// A raw capture.
    Archival,
    /// A denoised or deinterlaced intermediate.
    Stabilized,
    /// `EDIT_MASTER*.mkv`: out of the editor, ready for VDecimate or Viewer Encode.
    EditMaster,
    /// `EDIT_MASTER*_VD.mkv`: VDecimate already applied.
    EditMasterVD,
    /// A copy for viewing.
    Viewer,
}

impl FileKind {
    /// The heading of the section that holds files of this kind.
    pub open spec fn label_text(self) -> Seq<char> {
        match self {
            FileKind::Viewer => "Viewer"@,
            FileKind::EditMasterVD => "Edit Master (VD)"@,
            FileKind::EditMaster => "Edit Master"@,
            FileKind::Stabilized => "Stabilized"@,
            FileKind::Archival => "Archival"@,
        }
    }

    /// The heading of the section that holds files of this kind.
    pub fn label(&self) -> (r: &'static str)
        ensures
            r@ == self.label_text(),
    {
        match self {
            FileKind::Viewer => "Viewer",
            FileKind::EditMasterVD => "Edit Master (VD)",
            FileKind::EditMaster => "Edit Master",
            FileKind::Stabilized => "Stabilized",
            FileKind::Archival => "Archival",
        }
    }
}

/// One file of the list.
#[derive(Debug)]
pub struct LibraryEntry {
    pub path: FilePath,
    pub name: String,
    pub kind: FileKind,
}

/// What a `LibraryEntry` holds.
pub struct EntryView {
    pub path: Seq<u8>,
    pub name: Seq<char>,
    pub kind: FileKind,
}

impl View for LibraryEntry {
    type V = EntryView;

    open spec fn view(&self) -> EntryView {
        EntryView { path: self.path@, name: self.name@, kind: self.kind }
    }
}

impl Clone for LibraryEntry {
    fn clone(&self) -> (r: Self)
        ensures
            r@ == self@,
    {
        LibraryEntry { path: self.path.clone(), name: self.name.clone(), kind: self.kind }
    }
}

/// The list of files, and which one is selected.
pub struct Library {
    pub entries: Vec<LibraryEntry>,
    /// Index into `entries` of the currently selected file (if any).
    pub selected: Option<usize>,
}

/// What a list of entries holds.
pub open spec fn entries_view(v: Seq<LibraryEntry>) -> Seq<EntryView> {
    Seq::new(v.len(), |i: int| v[i]@)
}

/// A line of the list as it is shown.
#[derive(Clone, Copy, Debug, PartialEq, Eq, Structural)]
pub enum Row {
    /// The heading above files of one kind.
    Section(FileKind),
    /// The file at this index.
    File(usize),
}

// ---------------------------------------------------------------------------
// What a scan finds
// ---------------------------------------------------------------------------
/// `p` names a video by its extension.
pub open spec fn is_video(p: Seq<u8>) -> bool {
    has_extension(p, "mkv"@) || has_extension(p, "mp4"@)
}

/// The name under which a file is listed.
pub open spec fn entry_name(p: Seq<u8>) -> Seq<char> {
    match file_name_text(p) {
        Some(t) => t,
        None => "?"@,
    }
}

/// The video files among `files`.
pub open spec fn videos(files: Seq<FileView>) -> Seq<FileView> {
    files.filter(|f: FileView| is_video(f.path))
}

/// The video files among `files`, newest first.
pub open spec fn videos_by_age(files: Seq<FileView>) -> Seq<FileView> {
    let v = videos(files);
    newest_first(times_of(v)).map_values(|i: int| v[i])
}

/// The entries for the videos of a directory that holds one kind of file.
pub open spec fn scan(files: Seq<FileView>, kind: FileKind) -> Seq<EntryView> {
    videos_by_age(files).map_values(
        |f: FileView| EntryView { path: f.path, name: entry_name(f.path), kind },
    )
}

/// The kind of a file of the stabilized directory, by its name.
pub open spec fn stabilized_kind(name: Seq<char>) -> FileKind {
    if "EDIT_MASTER"@.is_prefix_of(name) && "_VD.mkv"@.is_suffix_of(name) {
        FileKind::EditMasterVD
    } else if "EDIT_MASTER"@.is_prefix_of(name) && ".mkv"@.is_suffix_of(name) {
        FileKind::EditMaster
    } else {
        FileKind::Stabilized
    }
}

/// The entry for a file of the stabilized directory.
pub open spec fn stabilized_entry(f: FileView) -> EntryView {
    EntryView {
        path: f.path,
        name: entry_name(f.path),
        kind: stabilized_kind(entry_name(f.path)),
    }
}

/// The entries of one kind.
pub open spec fn of_kind(entries: Seq<EntryView>, kind: FileKind) -> Seq<EntryView> {
    entries.filter(|e: EntryView| e.kind == kind)
}

/// The entries for the stabilized directory: decimated edit masters, then other edit masters,
/// then the rest, each newest first.
pub open spec fn scan_stabilized(files: Seq<FileView>) -> Seq<EntryView> {
    let all = videos_by_age(files).map_values(|f: FileView| stabilized_entry(f));
    of_kind(all, FileKind::EditMasterVD) + of_kind(all, FileKind::EditMaster) + of_kind(
        all,
        FileKind::Stabilized,
    )
}

/// The files of a directory listing; none where the directory cannot be read.
pub open spec fn listing(files: Option<Vec<DirFile>>) -> Seq<FileView> {
    match files {
        Some(v) => files_view(v@),
        None => Seq::empty(),
    }
}

/// The whole list.
pub open spec fn full_list(
    viewer: Seq<FileView>,
    stabilized: Seq<FileView>,
    archival: Seq<FileView>,
) -> Seq<EntryView> {
    scan(viewer, FileKind::Viewer) + scan_stabilized(stabilized) + scan(
        archival,
        FileKind::Archival,
    )
}

/// The first `n` entries as they are shown: a heading wherever the kind changes.
pub open spec fn rows_upto(entries: Seq<EntryView>, n: nat) -> Seq<Row>
    decreases n,
{
    if n == 0 {
        Seq::empty()
    } else {
        let i = n - 1;
        let above = rows_upto(entries, i as nat);
        let headed = if i == 0 || entries[i - 1].kind != entries[i].kind {
            above.push(Row::Section(entries[i].kind))
        } else {
            above
        };
        headed.push(Row::File(i as usize))
    }
}

/// Whether `p` names a video by its extension.
pub fn video_file(p: &FilePath) -> (r: bool)
    ensures
        r == is_video(p@),
{
    p.has_extension("mkv") || p.has_extension("mp4")
}

/// The name under which a file is listed.
fn listed_name(p: &FilePath) -> (r: String)
    ensures
        r@ == entry_name(p@),
{
    match p.file_name_text() {
        Some(t) => t,
        None => "?".to_owned(),
    }
}

/// The video files among `files`, newest first.
fn sorted_videos(files: &Vec<DirFile>) -> (r: Vec<DirFile>)
    ensures
        files_view(r@) == videos_by_age(files_view(files@)),
{
    let ghost all = files_view(files@);
    let mut found: Vec<DirFile> = Vec::new();
    let mut i: usize = 0;
    proof {
        reveal(Seq::filter);
    }
    while i < files.len()
        invariant
            i <= files@.len(),
            all == files_view(files@),
            files_view(found@) =~= videos(all.take(i as int)),
        decreases files@.len() - i,
    {
        proof {
            reveal(Seq::filter);
        }
        assert(all.take(i + 1).drop_last() =~= all.take(i as int));
        assert(all.take(i + 1).last() == files@[i as int]@);
        if video_file(&files[i].path) {
            let f = DirFile { path: files[i].path.clone(), modified: files[i].modified };
            let ghost before = files_view(found@).push(f@);
            assert(f@ == files@[i as int]@);
            found.push(f);
            assert(files_view(found@) =~= before);
        }
        i = i + 1;
    }
    assert(all.take(all.len() as int) =~= all);
    let ghost v = videos(all);
    let order = order_newest_first(&found);
    let ghost want = videos_by_age(all);
    assert(want.len() == order@.len());
    let mut out: Vec<DirFile> = Vec::new();
    let mut k: usize = 0;
    while k < order.len()
        invariant
            k <= order@.len(),
            v == files_view(found@),
            v == videos(all),
            want == videos_by_age(all),
            positions(order@) == newest_first(times_of(v)),
            forall|i: int| 0 <= i < order@.len() ==> #[trigger] order@[i] < found@.len(),
            files_view(out@) =~= want.take(k as int),
        decreases order@.len() - k,
    {
        let j: usize = order[k];
        assert(positions(order@)[k as int] == j as int);
        assert(want[k as int] == v[j as int]);
        let f = DirFile { path: found[j].path.clone(), modified: found[j].modified };
        assert(f@ == found@[j as int]@);
        let ghost before = files_view(out@).push(f@);
        out.push(f);
        assert(files_view(out@) =~= before);
        k = k + 1;
    }
    assert(want.take(want.len() as int) =~= want);
    out
}

impl Library {
    /// The entries, as values.
    pub open spec fn list(&self) -> Seq<EntryView> {
        entries_view(self.entries@)
    }

    pub fn new() -> (r: Self)
        ensures
            r.list() == Seq::<EntryView>::empty(),
            r.selected is None,
    {
        let r = Library { entries: Vec::new(), selected: None };
        assert(r.list() =~= Seq::<EntryView>::empty());
        r
    }

    /// Rebuild the list from the contents of the three directories. A directory that cannot be
    /// read adds nothing. The selection is dropped: its index is stale.
    pub fn refresh(
        &mut self,
        viewer: &Option<Vec<DirFile>>,
        stabilized: &Option<Vec<DirFile>>,
        archival: &Option<Vec<DirFile>>,
    )
        ensures
            final(self).list() == full_list(
                listing(*viewer),
                listing(*stabilized),
                listing(*archival),
            ),
            final(self).selected is None,
    {
        self.entries = Vec::new();
        self.selected = None;
        assert(self.list() =~= Seq::<EntryView>::empty());
        self.scan_dir(viewer, FileKind::Viewer);
        self.scan_stabilized_dir(stabilized);
        self.scan_dir(archival, FileKind::Archival);
    }

    /// Append the videos of the stabilized directory, in three sections.
    fn scan_stabilized_dir(&mut self, files: &Option<Vec<DirFile>>)
        ensures
            final(self).list() == old(self).list() + scan_stabilized(listing(*files)),
            final(self).selected == old(self).selected,
    {
        let ghost start = self.list();
        let none: Vec<DirFile> = Vec::new();
        let files = match files {
            Some(v) => v,
            None => &none,
        };
        assert(none@.len() == 0 ==> files_view(none@) =~= Seq::<FileView>::empty());
        let sorted = sorted_videos(files);
        let ghost src = files_view(sorted@);
        let ghost all = src.map_values(|f: FileView| stabilized_entry(f));
        let mut vd: Vec<LibraryEntry> = Vec::new();
        let mut em: Vec<LibraryEntry> = Vec::new();
        let mut st: Vec<LibraryEntry> = Vec::new();
        let mut i: usize = 0;
        proof {
            reveal(Seq::filter);
        }
        while i < sorted.len()
            invariant
                i <= sorted@.len(),
                src == files_view(sorted@),
                all == src.map_values(|f: FileView| stabilized_entry(f)),
                entries_view(vd@) =~= of_kind(all.take(i as int), FileKind::EditMasterVD),
                entries_view(em@) =~= of_kind(all.take(i as int), FileKind::EditMaster),
                entries_view(st@) =~= of_kind(all.take(i as int), FileKind::Stabilized),
            decreases sorted@.len() - i,
        {
            proof {
                reveal(Seq::filter);
            }
            assert(all.take(i + 1).drop_last() =~= all.take(i as int));
            let path = sorted[i].path.clone();
            let name = listed_name(&path);
            let master = starts_with(name.as_str(), "EDIT_MASTER");
            let kind = if master && ends_with(name.as_str(), "_VD.mkv") {
                FileKind::EditMasterVD
            } else if master && ends_with(name.as_str(), ".mkv") {
                FileKind::EditMaster
            } else {
                FileKind::Stabilized
            };
            let e = LibraryEntry { path, name, kind };
            assert(src[i as int] == sorted@[i as int]@);
            assert(e@ == all[i as int]);
            assert(all.take(i + 1).last() == e@);
            match kind {
                FileKind::EditMasterVD => {
                    let ghost before = entries_view(vd@).push(e@);
                    vd.push(e);
                    assert(entries_view(vd@) =~= before);
                },
                FileKind::EditMaster => {
                    let ghost before = entries_view(em@).push(e@);
                    em.push(e);
                    assert(entries_view(em@) =~= before);
                },
                _ => {
                    let ghost before = entries_view(st@).push(e@);
                    st.push(e);
                    assert(entries_view(st@) =~= before);
                },
            }
            i = i + 1;
        }
        assert(all.take(all.len() as int) =~= all);
        let ghost parts = entries_view(vd@) + entries_view(em@) + entries_view(st@);
        self.entries.append(&mut vd);
        self.entries.append(&mut em);
        self.entries.append(&mut st);
        assert(self.list() =~= start + parts);
    }

    /// Append the videos of a directory that holds one kind of file.
    fn scan_dir(&mut self, files: &Option<Vec<DirFile>>, kind: FileKind)
        ensures
            final(self).list() == old(self).list() + scan(listing(*files), kind),
            final(self).selected == old(self).selected,
    {
        let ghost start = self.list();
        let none: Vec<DirFile> = Vec::new();
        let files = match files {
            Some(v) => v,
            None => &none,
        };
        assert(none@.len() == 0 ==> files_view(none@) =~= Seq::<FileView>::empty());
        let sorted = sorted_videos(files);
        let ghost want = scan(files_view(files@), kind);
        let mut i: usize = 0;
        assert(want.take(0) =~= Seq::<EntryView>::empty());
        assert(start + want.take(0) =~= start);
        while i < sorted.len()
            invariant
                i <= sorted@.len(),
                files_view(sorted@) == videos_by_age(files_view(files@)),
                want == scan(files_view(files@), kind),
                self.list() =~= start + want.take(i as int),
                self.selected == old(self).selected,
            decreases sorted@.len() - i,
        {
            let path = sorted[i].path.clone();
            let name = listed_name(&path);
            let e = LibraryEntry { path, name, kind };
            assert(files_view(sorted@)[i as int] == sorted@[i as int]@);
            assert(e@ == want[i as int]);
            let ghost before = self.list().push(e@);
            self.entries.push(e);
            assert(self.list() =~= before);
            i = i + 1;
        }
        assert(want.len() == sorted@.len()) by {
            assert(files_view(sorted@).len() == sorted@.len());
        }
        assert(want.take(want.len() as int) =~= want);
    }

    /// The currently selected entry, if any.
    pub fn selected_entry(&self) -> (r: Option<&LibraryEntry>)
        ensures
            match r {
                Some(e) => self.selected matches Some(i) && i < self.list().len() && e@
                    == self.list()[i as int],
                None => self.selected is None || self.selected->0 >= self.list().len(),
            },
    {
        match self.selected {
            Some(i) => if i < self.entries.len() {
                Some(&self.entries[i])
            } else {
                None
            },
            None => None,
        }
    }

    /// The lines of the list as it is shown: a heading wherever the kind changes.
    pub fn rows(&self) -> (r: Vec<Row>)
        ensures
            r@ == rows_upto(self.list(), self.list().len()),
    {
        let mut out: Vec<Row> = Vec::new();
        let mut i: usize = 0;
        while i < self.entries.len()
            invariant
                i <= self.entries@.len(),
                out@ == rows_upto(self.list(), i as nat),
            decreases self.entries@.len() - i,
        {
            let kind = self.entries[i].kind;
            assert(self.list()[i as int].kind == kind);
            if i > 0 {
                assert(self.list()[i - 1].kind == self.entries@[i - 1].kind);
            }
            if i == 0 || self.entries[i - 1].kind != kind {
                out.push(Row::Section(kind));
            }
            out.push(Row::File(i));
            i = i + 1;
        }
        out
    }

    /// Select the file of a row that was clicked, and give it back to be opened.
    pub fn click(&mut self, i: usize) -> (r: LibraryEntry)
        requires
            i < old(self).list().len(),
        ensures
            r@ == old(self).list()[i as int],
            final(self).selected == Some(i),
            final(self).list() == old(self).list(),
    {
        self.selected = Some(i);
        self.entries[i].clone()
    }
}

// ---------------------------------------------------------------------------
// Laws
// ---------------------------------------------------------------------------
/// The place of a kind in the list.
pub open spec fn section_rank(kind: FileKind) -> int {
    match kind {
        FileKind::Viewer => 0,
        FileKind::EditMasterVD => 1,
        FileKind::EditMaster => 2,
        FileKind::Stabilized => 3,
        FileKind::Archival => 4,
    }
}

/// A filtered list holds what the list holds and the filter keeps.
proof fn lemma_filter_member<A>(s: Seq<A>, p: spec_fn(A) -> bool, x: A)
    ensures
        s.filter(p).contains(x) <==> s.contains(x) && p(x),
{
    if s.filter(p).contains(x) {
        s.lemma_filter_contains_rev(p, x);
        let k = choose|k: int| 0 <= k < s.filter(p).len() && s.filter(p)[k] == x;
        s.lemma_filter_pred(p, k);
    }
    if s.contains(x) && p(x) {
        let k = choose|k: int| 0 <= k < s.len() && s[k] == x;
        s.lemma_filter_contains(p, k);
    }
}

/// The positions by age are a rearrangement: each position stands there exactly once.
pub proof fn law_newest_first_rearranges(times: Seq<Option<i128>>)
    ensures
        newest_first(times).len() == times.len(),
        newest_first(times).no_duplicates(),
        forall|i: int| newest_first(times).contains(i) <==> 0 <= i < times.len(),
        forall|j: int, k: int|
            0 <= j < k < times.len() ==> {
                let a = #[trigger] newest_first(times)[j];
                let b = #[trigger] newest_first(times)[k];
                earlier(times[b], times[a]) || (times[a] == times[b] && a < b)
            },
{
    broadcast use vstd::seq_lib::group_to_multiset_ensures;

    let all = Seq::new(times.len(), |i: int| i);
    let r = newest_first(times);
    let leq = newest_order(times);
    law_newest_order_total(times);
    all.lemma_sort_by_ensures(leq);
    assert(all.no_duplicates());
    all.lemma_multiset_has_no_duplicates();
    r.lemma_multiset_has_no_duplicates_conv();
    assert(r.len() == all.len()) by {
        assert(r.to_multiset().len() == all.to_multiset().len());
    }
    assert forall|i: int| r.contains(i) <==> 0 <= i < times.len() by {
        assert(r.contains(i) <==> r.to_multiset().count(i) > 0);
        assert(all.contains(i) <==> all.to_multiset().count(i) > 0);
        if 0 <= i < times.len() {
            assert(all[i] == i);
        }
    }
    assert forall|j: int, k: int| 0 <= j < k < times.len() implies {
        let a = #[trigger] r[j];
        let b = #[trigger] r[k];
        earlier(times[b], times[a]) || (times[a] == times[b] && a < b)
    } by {
        assert(leq(r[j], r[k]));
        assert(r[j] != r[k]);
    }
}

/// Listing by age keeps every video of the directory, adds none, and puts no file before a
/// newer one.
pub proof fn law_videos_by_age(files: Seq<FileView>)
    ensures
        videos_by_age(files).len() == videos(files).len(),
        forall|f: FileView|
            #[trigger] videos_by_age(files).contains(f) <==> files.contains(f) && is_video(f.path),
        forall|i: int, j: int|
            0 <= i < j < videos_by_age(files).len() ==> !earlier(
                #[trigger] videos_by_age(files)[i].modified,
                #[trigger] videos_by_age(files)[j].modified,
            ),
{
    let v = videos(files);
    let times = times_of(v);
    let order = newest_first(times);
    let r = videos_by_age(files);
    law_newest_first_rearranges(times);
    assert forall|f: FileView| #[trigger] r.contains(f) <==> files.contains(f) && is_video(
        f.path,
    ) by {
        lemma_filter_member(files, |f: FileView| is_video(f.path), f);
        if r.contains(f) {
            let k = choose|k: int| 0 <= k < r.len() && r[k] == f;
            assert(order.contains(order[k]));
            assert(v[order[k]] == f);
            assert(v.contains(f));
        }
        if files.contains(f) && is_video(f.path) {
            assert(v.contains(f));
            let i = choose|i: int| 0 <= i < v.len() && v[i] == f;
            assert(order.contains(i));
            let k = choose|k: int| 0 <= k < order.len() && order[k] == i;
            assert(r[k] == f);
        }
    }
    assert forall|i: int, j: int| 0 <= i < j < r.len() implies !earlier(
        #[trigger] r[i].modified,
        #[trigger] r[j].modified,
    ) by {
        assert(order.contains(order[i]));
        assert(order.contains(order[j]));
        assert(times[order[i]] == r[i].modified);
        assert(times[order[j]] == r[j].modified);
    }
}

/// The whole list reads viewer copies, decimated edit masters, edit masters, intermediates,
/// raw captures, in that order.
pub proof fn law_sections_in_order(
    viewer: Seq<FileView>,
    stabilized: Seq<FileView>,
    archival: Seq<FileView>,
)
    ensures
        forall|i: int, j: int|
            0 <= i < j < full_list(viewer, stabilized, archival).len() ==> section_rank(
                #[trigger] full_list(viewer, stabilized, archival)[i].kind,
            ) <= section_rank(#[trigger] full_list(viewer, stabilized, archival)[j].kind),
{
    let a = scan(viewer, FileKind::Viewer);
    let all = videos_by_age(stabilized).map_values(|f: FileView| stabilized_entry(f));
    let b = of_kind(all, FileKind::EditMasterVD);
    let c = of_kind(all, FileKind::EditMaster);
    let d = of_kind(all, FileKind::Stabilized);
    let e = scan(archival, FileKind::Archival);
    let r = full_list(viewer, stabilized, archival);
    assert(r =~= a + b + c + d + e);
    assert forall|k: int| 0 <= k < b.len() implies (#[trigger] b[k]).kind
        == FileKind::EditMasterVD by {
        all.lemma_filter_pred(|x: EntryView| x.kind == FileKind::EditMasterVD, k);
    }
    assert forall|k: int| 0 <= k < c.len() implies (#[trigger] c[k]).kind
        == FileKind::EditMaster by {
        all.lemma_filter_pred(|x: EntryView| x.kind == FileKind::EditMaster, k);
    }
    assert forall|k: int| 0 <= k < d.len() implies (#[trigger] d[k]).kind
        == FileKind::Stabilized by {
        all.lemma_filter_pred(|x: EntryView| x.kind == FileKind::Stabilized, k);
    }
    let n1 = a.len();
    let n2 = n1 + b.len();
    let n3 = n2 + c.len();
    let n4 = n3 + d.len();
    assert forall|i: int| 0 <= i < r.len() implies section_rank(#[trigger] r[i].kind) == (if i
        < n1 {
        0int
    } else if i < n2 {
        1
    } else if i < n3 {
        2
    } else if i < n4 {
        3
    } else {
        4
    }) by {
        if i < n1 {
            assert(r[i] == a[i]);
        } else if i < n2 {
            assert(r[i] == b[i - n1]);
        } else if i < n3 {
            assert(r[i] == c[i - n2]);
        } else if i < n4 {
            assert(r[i] == d[i - n3]);
        } else {
            assert(r[i] == e[i - n4]);
        }
    }
}

/// The entry for `f`, a file of the directory that holds files of `kind`.
pub open spec fn entry_for(f: FileView, kind: FileKind) -> EntryView {
    EntryView { path: f.path, name: entry_name(f.path), kind }
}

/// The whole list holds an entry for every video of the three directories, under the kind of
/// its directory or its name, and no other entry.
pub proof fn law_every_video_listed(
    viewer: Seq<FileView>,
    stabilized: Seq<FileView>,
    archival: Seq<FileView>,
    e: EntryView,
)
    ensures
        full_list(viewer, stabilized, archival).contains(e) <==> {
            ||| exists|f: FileView|
                viewer.contains(f) && #[trigger] is_video(f.path) && e == entry_for(
                    f,
                    FileKind::Viewer,
                )
            ||| exists|f: FileView|
                stabilized.contains(f) && #[trigger] is_video(f.path) && e == stabilized_entry(f)
            ||| exists|f: FileView|
                archival.contains(f) && #[trigger] is_video(f.path) && e == entry_for(
                    f,
                    FileKind::Archival,
                )
        },
        full_list(viewer, stabilized, archival).len() == videos(viewer).len() + videos(
            stabilized,
        ).len() + videos(archival).len(),
{
    let a = scan(viewer, FileKind::Viewer);
    let b = scan_stabilized(stabilized);
    let c = scan(archival, FileKind::Archival);
    let r = full_list(viewer, stabilized, archival);
    lemma_scan(viewer, FileKind::Viewer, e);
    lemma_scan(archival, FileKind::Archival, e);
    lemma_scan_stabilized(stabilized, e);
    assert(r.contains(e) <==> a.contains(e) || b.contains(e) || c.contains(e)) by {
        if r.contains(e) {
            let k = choose|k: int| 0 <= k < r.len() && r[k] == e;
            if k < a.len() {
                assert(a[k] == e);
            } else if k < a.len() + b.len() {
                assert(b[k - a.len()] == e);
            } else {
                assert(c[k - a.len() - b.len()] == e);
            }
        }
        if a.contains(e) {
            let k = choose|k: int| 0 <= k < a.len() && a[k] == e;
            assert(r[k] == e);
        }
        if b.contains(e) {
            let k = choose|k: int| 0 <= k < b.len() && b[k] == e;
            assert(r[k + a.len()] == e);
        }
        if c.contains(e) {
            let k = choose|k: int| 0 <= k < c.len() && c[k] == e;
            assert(r[k + a.len() + b.len()] == e);
        }
    }
}

proof fn lemma_scan(files: Seq<FileView>, kind: FileKind, e: EntryView)
    ensures
        scan(files, kind).contains(e) <==> exists|f: FileView|
            files.contains(f) && #[trigger] is_video(f.path) && e == entry_for(f, kind),
        scan(files, kind).len() == videos(files).len(),
{
    law_videos_by_age(files);
    let v = videos_by_age(files);
    let s = scan(files, kind);
    if s.contains(e) {
        let k = choose|k: int| 0 <= k < s.len() && s[k] == e;
        assert(v.contains(v[k]));
        assert(is_video(v[k].path) && e == entry_for(v[k], kind));
    }
    if exists|f: FileView|
        files.contains(f) && #[trigger] is_video(f.path) && e == entry_for(f, kind) {
        let f = choose|f: FileView|
            files.contains(f) && #[trigger] is_video(f.path) && e == entry_for(f, kind);
        assert(v.contains(f));
        let k = choose|k: int| 0 <= k < v.len() && v[k] == f;
        assert(s[k] == e);
    }
}

/// Three kinds part the entries of the stabilized directory among them.
proof fn lemma_kinds_partition(all: Seq<EntryView>)
    requires
        forall|i: int|
            0 <= i < all.len() ==> (#[trigger] all[i]).kind == FileKind::EditMasterVD
                || all[i].kind == FileKind::EditMaster || all[i].kind == FileKind::Stabilized,
    ensures
        of_kind(all, FileKind::EditMasterVD).len() + of_kind(all, FileKind::EditMaster).len()
            + of_kind(all, FileKind::Stabilized).len() == all.len(),
    decreases all.len(),
{
    reveal(Seq::filter);
    if all.len() > 0 {
        assert forall|i: int| 0 <= i < all.drop_last().len() implies {
            let x = #[trigger] all.drop_last()[i];
            x.kind == FileKind::EditMasterVD || x.kind == FileKind::EditMaster || x.kind
                == FileKind::Stabilized
        } by {
            assert(all.drop_last()[i] == all[i]);
        }
        lemma_kinds_partition(all.drop_last());
        assert(all.last() == all[all.len() - 1]);
    }
}

proof fn lemma_scan_stabilized(files: Seq<FileView>, e: EntryView)
    ensures
        scan_stabilized(files).contains(e) <==> exists|f: FileView|
            files.contains(f) && #[trigger] is_video(f.path) && e == stabilized_entry(f),
        scan_stabilized(files).len() == videos(files).len(),
{
    law_videos_by_age(files);
    let v = videos_by_age(files);
    let all = v.map_values(|f: FileView| stabilized_entry(f));
    let b = of_kind(all, FileKind::EditMasterVD);
    let c = of_kind(all, FileKind::EditMaster);
    let d = of_kind(all, FileKind::Stabilized);
    let s = scan_stabilized(files);
    lemma_kinds_partition(all);
    lemma_filter_member(all, |x: EntryView| x.kind == FileKind::EditMasterVD, e);
    lemma_filter_member(all, |x: EntryView| x.kind == FileKind::EditMaster, e);
    lemma_filter_member(all, |x: EntryView| x.kind == FileKind::Stabilized, e);
    assert(s.contains(e) <==> b.contains(e) || c.contains(e) || d.contains(e)) by {
        if s.contains(e) {
            let k = choose|k: int| 0 <= k < s.len() && s[k] == e;
            if k < b.len() {
                assert(b[k] == e);
            } else if k < b.len() + c.len() {
                assert(c[k - b.len()] == e);
            } else {
                assert(d[k - b.len() - c.len()] == e);
            }
        }
        if b.contains(e) {
            let k = choose|k: int| 0 <= k < b.len() && b[k] == e;
            assert(s[k] == e);
        }
        if c.contains(e) {
            let k = choose|k: int| 0 <= k < c.len() && c[k] == e;
            assert(s[k + b.len()] == e);
        }
        if d.contains(e) {
            let k = choose|k: int| 0 <= k < d.len() && d[k] == e;
            assert(s[k + b.len() + c.len()] == e);
        }
    }
    if all.contains(e) {
        let k = choose|k: int| 0 <= k < all.len() && all[k] == e;
        assert(v.contains(v[k]));
        assert(is_video(v[k].path) && e == stabilized_entry(v[k]));
    }
    if exists|f: FileView|
        files.contains(f) && #[trigger] is_video(f.path) && e == stabilized_entry(f) {
        let f = choose|f: FileView|
            files.contains(f) && #[trigger] is_video(f.path) && e == stabilized_entry(f);
        assert(v.contains(f));
        let k = choose|k: int| 0 <= k < v.len() && v[k] == f;
        assert(all[k] == e);
    }
}

/// A file `stem.ext` of any directory is a video exactly where its extension is `mkv` or `mp4`.
pub proof fn law_what_is_a_video(dir: Seq<u8>, stem: Seq<char>, ext: Seq<char>)
    requires
        stem.len() > 0,
        ext.len() > 0,
        !stem.contains('/'),
        !ext.contains('/'),
        !ext.contains('.'),
    ensures
        is_video(joined(dir, encode_utf8(stem + "."@ + ext))) <==> ext == "mkv"@ || ext == "mp4"@,
        entry_name(joined(dir, encode_utf8(stem + "."@ + ext))) == stem + "."@ + ext,
{
    law_named_file(dir, stem, ext, "mkv"@);
    law_named_file(dir, stem, ext, "mp4"@);
}

/// `t` ends in `_VD`.
pub open spec fn marked_decimated(t: Seq<char>) -> bool {
    exists|u: Seq<char>| t == #[trigger] (u + "_VD"@)
}

proof fn lemma_master_name(t: Seq<char>)
    ensures
        ({
            let name = "EDIT_MASTER"@ + t + ".mkv"@;
            &&& "EDIT_MASTER"@.is_prefix_of(name)
            &&& ".mkv"@.is_suffix_of(name)
            &&& "_VD.mkv"@.is_suffix_of(name) <==> marked_decimated(t)
        }),
{
    reveal_strlit("EDIT_MASTER");
    reveal_strlit(".mkv");
    reveal_strlit("_VD.mkv");
    reveal_strlit("_VD");
    let head = "EDIT_MASTER"@;
    let name = head + t + ".mkv"@;
    assert(name.subrange(0, head.len() as int) =~= head);
    let n = name.len() as int;
    assert(name.subrange(n - 4, n) =~= ".mkv"@);
    let tail = name.subrange(n - 7, n);
    if marked_decimated(t) {
        let u = choose|u: Seq<char>| t == #[trigger] (u + "_VD"@);
        assert(tail =~= "_VD.mkv"@) by {
            assert forall|i: int| 0 <= i < 7 implies tail[i] == "_VD.mkv"@[i] by {
                if i < 3 {
                    assert(tail[i] == t[t.len() - 3 + i]);
                    assert(t[t.len() - 3 + i] == "_VD"@[i]);
                } else {
                    assert(tail[i] == ".mkv"@[i - 3]);
                }
            }
        }
    }
    if "_VD.mkv"@.is_suffix_of(name) {
        assert(tail == "_VD.mkv"@);
        assert(tail[0] == '_' && tail[1] == 'V' && tail[2] == 'D');
        if t.len() < 3 {
            assert(name[n - 7] == head[11 + t.len() - 3]);
            assert(t.len() == 0 || t.len() == 1 || t.len() == 2);
        } else {
            let u = t.take(t.len() - 3);
            assert(t =~= u + "_VD"@) by {
                assert forall|i: int| 0 <= i < t.len() implies t[i] == (u + "_VD"@)[i] by {
                    if i >= t.len() - 3 {
                        assert(t[i] == tail[i - (t.len() - 3)]);
                    }
                }
            }
        }
    }
}

/// A video `EDIT_MASTER` + any text + `.mkv` of the stabilized directory is listed with the edit
/// masters: with the decimated ones where the text ends in `_VD`, and with the others where it
/// does not, an empty text among them.
pub proof fn law_edit_masters_are_listed_as_such(
    viewer: Seq<FileView>,
    stabilized: Seq<FileView>,
    archival: Seq<FileView>,
    f: FileView,
    dir: Seq<u8>,
    t: Seq<char>,
)
    requires
        stabilized.contains(f),
        f.path == joined(dir, encode_utf8("EDIT_MASTER"@ + t + ".mkv"@)),
        !t.contains('/'),
    ensures
        marked_decimated(t) ==> full_list(viewer, stabilized, archival).contains(
            EntryView {
                path: f.path,
                name: "EDIT_MASTER"@ + t + ".mkv"@,
                kind: FileKind::EditMasterVD,
            },
        ),
        !marked_decimated(t) ==> full_list(viewer, stabilized, archival).contains(
            EntryView {
                path: f.path,
                name: "EDIT_MASTER"@ + t + ".mkv"@,
                kind: FileKind::EditMaster,
            },
        ),
        forall|e: EntryView|
            #[trigger] scan_stabilized(stabilized).contains(e) && e.path == f.path ==> e.kind == (
            if marked_decimated(t) {
                FileKind::EditMasterVD
            } else {
                FileKind::EditMaster
            }),
{
    reveal_strlit("EDIT_MASTER");
    reveal_strlit(".mkv");
    reveal_strlit(".");
    reveal_strlit("mkv");
    let stem = "EDIT_MASTER"@ + t;
    let name = stem + ".mkv"@;
    assert(name =~= stem + "."@ + "mkv"@);
    assert forall|i: int| 0 <= i < stem.len() implies stem[i] != '/' by {
        if i < 11 {
            assert(stem[i] == "EDIT_MASTER"@[i]);
        } else {
            assert(stem[i] == t[i - 11]);
        }
    }
    law_what_is_a_video(dir, stem, "mkv"@);
    lemma_master_name(t);
    let e = stabilized_entry(f);
    assert(is_video(f.path));
    law_every_video_listed(viewer, stabilized, archival, e);
    assert forall|e: EntryView|
        #[trigger] scan_stabilized(stabilized).contains(e) && e.path == f.path implies e.kind == (
    if marked_decimated(t) {
        FileKind::EditMasterVD
    } else {
        FileKind::EditMaster
    }) by {
        lemma_scan_stabilized(stabilized, e);
    }
}

/// A video of the stabilized directory whose name does not begin with `EDIT_MASTER`, or is no
/// `mkv`, is listed with the intermediates.
pub proof fn law_intermediates_are_listed_as_such(
    viewer: Seq<FileView>,
    stabilized: Seq<FileView>,
    archival: Seq<FileView>,
    f: FileView,
    dir: Seq<u8>,
    stem: Seq<char>,
    ext: Seq<char>,
)
    requires
        stabilized.contains(f),
        f.path == joined(dir, encode_utf8(stem + "."@ + ext)),
        stem.len() > 0,
        !stem.contains('/'),
        ext == "mp4"@ || (ext == "mkv"@ && !(exists|t: Seq<char>|
            stem == #[trigger] ("EDIT_MASTER"@ + t))),
    ensures
        full_list(viewer, stabilized, archival).contains(
            EntryView { path: f.path, name: stem + "."@ + ext, kind: FileKind::Stabilized },
        ),
        forall|e: EntryView|
            #[trigger] scan_stabilized(stabilized).contains(e) && e.path == f.path ==> e.kind
                == FileKind::Stabilized,
{
    reveal_strlit("EDIT_MASTER");
    reveal_strlit(".");
    reveal_strlit("mkv");
    reveal_strlit("mp4");
    reveal_strlit(".mkv");
    reveal_strlit("_VD.mkv");
    let head = "EDIT_MASTER"@;
    let name = stem + "."@ + ext;
    law_what_is_a_video(dir, stem, ext);
    let n = name.len() as int;
    assert(name[n - 1] == ext[2]);
    if ext == "mp4"@ {
        assert(!".mkv"@.is_suffix_of(name)) by {
            if ".mkv"@.is_suffix_of(name) {
                assert(name.subrange(n - 4, n)[3] == 'v');
            }
        }
        assert(!"_VD.mkv"@.is_suffix_of(name)) by {
            if "_VD.mkv"@.is_suffix_of(name) {
                assert(name.subrange(n - 7, n)[6] == 'v');
            }
        }
    } else {
        assert(!head.is_prefix_of(name)) by {
            if head.is_prefix_of(name) {
                assert forall|i: int| 0 <= i < 11 implies #[trigger] name[i] == head[i] by {
                    assert(name.subrange(0, 11)[i] == head[i]);
                }
                if stem.len() >= 11 {
                    let t = stem.skip(11);
                    assert(stem =~= head + t) by {
                        assert forall|i: int| 0 <= i < stem.len() implies stem[i] == (head
                            + t)[i] by {
                            if i < 11 {
                                assert(name[i] == stem[i]);
                            }
                        }
                    }
                } else {
                    assert(name[stem.len() as int] == '.');
                    let k = stem.len() as int;
                    assert(head[k] == '.');
                    assert(k == 0 || k == 1 || k == 2 || k == 3 || k == 4 || k == 5 || k == 6 || k
                        == 7 || k == 8 || k == 9 || k == 10);
                }
            }
        }
    }
    let e = stabilized_entry(f);
    law_every_video_listed(viewer, stabilized, archival, e);
    assert forall|e: EntryView|
        #[trigger] scan_stabilized(stabilized).contains(e) && e.path == f.path implies e.kind
        == FileKind::Stabilized by {
        lemma_scan_stabilized(stabilized, e);
    }
}

/// A filtered list keeps the order of the list.
proof fn lemma_filter_order<A>(s: Seq<A>, p: spec_fn(A) -> bool, i: int, j: int)
    requires
        0 <= i < j < s.filter(p).len(),
    ensures
        exists|a: int, b: int|
            0 <= a < b < s.len() && #[trigger] s[a] == s.filter(p)[i] && #[trigger] s[b]
                == s.filter(p)[j],
    decreases s.len(),
{
    reveal(Seq::filter);
    if s.len() > 0 {
        let t = s.drop_last();
        let r = t.filter(p);
        if j < r.len() {
            lemma_filter_order(t, p, i, j);
            let (a, b) = choose|a: int, b: int|
                0 <= a < b < t.len() && #[trigger] t[a] == r[i] && #[trigger] t[b] == r[j];
            assert(s[a] == t[a] && s[b] == t[b]);
        } else {
            let x = r[i];
            assert(r.contains(x));
            t.lemma_filter_contains_rev(p, x);
            let a = choose|a: int| 0 <= a < t.len() && t[a] == x;
            assert(s[a] == x && s[s.len() - 1] == s.filter(p)[j]);
        }
    }
}

/// The directory that holds the files of a kind.
pub open spec fn directory_of(
    kind: FileKind,
    viewer: Seq<FileView>,
    stabilized: Seq<FileView>,
    archival: Seq<FileView>,
) -> Seq<FileView> {
    match kind {
        FileKind::Viewer => viewer,
        FileKind::Archival => archival,
        _ => stabilized,
    }
}

proof fn lemma_mapped_by_age(files: Seq<FileView>, i: int, j: int)
    requires
        0 <= i < j < videos_by_age(files).len(),
    ensures
        files.contains(videos_by_age(files)[i]),
        files.contains(videos_by_age(files)[j]),
        !earlier(videos_by_age(files)[i].modified, videos_by_age(files)[j].modified),
{
    let v = videos_by_age(files);
    law_videos_by_age(files);
    assert(v.contains(v[i]) && v.contains(v[j]));
}

/// Within a section the newer file comes first: of two entries of one kind, the upper one is for
/// a file that is not older than the file of the lower one.
pub proof fn law_sections_are_newest_first(
    viewer: Seq<FileView>,
    stabilized: Seq<FileView>,
    archival: Seq<FileView>,
    i: int,
    j: int,
)
    requires
        0 <= i < j < full_list(viewer, stabilized, archival).len(),
        full_list(viewer, stabilized, archival)[i].kind == full_list(
            viewer,
            stabilized,
            archival,
        )[j].kind,
    ensures
        ({
            let r = full_list(viewer, stabilized, archival);
            let dir = directory_of(r[i].kind, viewer, stabilized, archival);
            exists|f: FileView, g: FileView| #[trigger]
                dir.contains(f) && #[trigger] dir.contains(g) && f.path == r[i].path && g.path
                    == r[j].path && !earlier(f.modified, g.modified)
        }),
{
    let all = videos_by_age(stabilized).map_values(|f: FileView| stabilized_entry(f));
    let a = scan(viewer, FileKind::Viewer);
    let b = of_kind(all, FileKind::EditMasterVD);
    let c = of_kind(all, FileKind::EditMaster);
    let d = of_kind(all, FileKind::Stabilized);
    let e = scan(archival, FileKind::Archival);
    let r = full_list(viewer, stabilized, archival);
    assert(r =~= a + b + c + d + e);
    assert forall|k: int| 0 <= k < b.len() implies (#[trigger] b[k]).kind
        == FileKind::EditMasterVD by {
        all.lemma_filter_pred(|x: EntryView| x.kind == FileKind::EditMasterVD, k);
    }
    assert forall|k: int| 0 <= k < c.len() implies (#[trigger] c[k]).kind
        == FileKind::EditMaster by {
        all.lemma_filter_pred(|x: EntryView| x.kind == FileKind::EditMaster, k);
    }
    assert forall|k: int| 0 <= k < d.len() implies (#[trigger] d[k]).kind
        == FileKind::Stabilized by {
        all.lemma_filter_pred(|x: EntryView| x.kind == FileKind::Stabilized, k);
    }
    let n1 = a.len() as int;
    let n2 = n1 + b.len();
    let n3 = n2 + c.len();
    let n4 = n3 + d.len();
    if j < n1 {
        lemma_mapped_by_age(viewer, i, j);
        let v = videos_by_age(viewer);
        assert(r[i] == a[i] && r[j] == a[j]);
        let dir = directory_of(r[i].kind, viewer, stabilized, archival);
        assert(dir.contains(v[i]) && dir.contains(v[j]));
        assert(v[i].path == r[i].path && v[j].path == r[j].path);
    } else if i >= n4 {
        lemma_mapped_by_age(archival, i - n4, j - n4);
        let v = videos_by_age(archival);
        assert(r[i] == e[i - n4] && r[j] == e[j - n4]);
        let dir = directory_of(r[i].kind, viewer, stabilized, archival);
        assert(dir.contains(v[i - n4]) && dir.contains(v[j - n4]));
        assert(v[i - n4].path == r[i].path && v[j - n4].path == r[j].path);
    } else {
        let (part, base, kind) = if i < n1 {
            (a, 0int, FileKind::Viewer)
        } else if i < n2 {
            (b, n1, FileKind::EditMasterVD)
        } else if i < n3 {
            (c, n2, FileKind::EditMaster)
        } else {
            (d, n3, FileKind::Stabilized)
        };
        assert(r[i] == part[i - base]);
        assert(r[i].kind == kind);
        assert(base <= j < base + part.len()) by {
            if j < n2 && j >= n1 {
                assert(r[j] == b[j - n1]);
            } else if j < n3 && j >= n2 {
                assert(r[j] == c[j - n2]);
            } else if j < n4 && j >= n3 {
                assert(r[j] == d[j - n3]);
            } else if j >= n4 {
                assert(r[j] == e[j - n4]);
            }
        }
        assert(i >= n1);
        assert(r[j] == part[j - base]);
        lemma_filter_order(all, |x: EntryView| x.kind == kind, i - base, j - base);
        let (x, y) = choose|x: int, y: int|
            0 <= x < y < all.len() && #[trigger] all[x] == part[i - base] && #[trigger] all[y]
                == part[j - base];
        lemma_mapped_by_age(stabilized, x, y);
        let v = videos_by_age(stabilized);
        let dir = directory_of(r[i].kind, viewer, stabilized, archival);
        assert(dir.contains(v[x]) && dir.contains(v[y]));
        assert(v[x].path == r[i].path && v[y].path == r[j].path);
    }
}

/// The rows show every file once, in order.
pub open spec fn file_rows(rows: Seq<Row>) -> Seq<Row> {
    rows.filter(|r: Row| r is File)
}

/// The row `k` stands where it belongs: right above the first file of a run of one kind stands a
/// heading that names the kind, and every heading stands there.
pub open spec fn row_fits(rows: Seq<Row>, k: int, entries: Seq<EntryView>) -> bool {
    match rows[k] {
        Row::File(i) => i < entries.len() && ((i == 0 || entries[i - 1].kind
            != entries[i as int].kind) ==> k > 0 && rows[k - 1] == Row::Section(
            entries[i as int].kind,
        )),
        Row::Section(kind) => {
            &&& k + 1 < rows.len()
            &&& rows[k + 1] matches Row::File(i) && i < entries.len() && entries[i as int].kind
                == kind && (i == 0 || entries[i - 1].kind != kind)
        },
    }
}

/// The list on the screen: every file has one row, the rows of the files are in the order of the
/// list, and a heading stands right above a file exactly where that is the first of its kind in
/// a row; the heading names the kind.
pub proof fn law_rows(entries: Seq<EntryView>, n: nat)
    requires
        n <= entries.len(),
        n <= usize::MAX,
    ensures
        file_rows(rows_upto(entries, n)) == Seq::new(n, |i: int| Row::File(i as usize)),
        forall|k: int|
            0 <= k < rows_upto(entries, n).len() ==> #[trigger] row_fits(
                rows_upto(entries, n),
                k,
                entries,
            ),
    decreases n,
{
    reveal(Seq::filter);
    let rows = rows_upto(entries, n);
    let files = |r: Row| r is File;
    if n == 0 {
        assert(file_rows(rows) =~= Seq::new(n, |i: int| Row::File(i as usize)));
    } else {
        let m = (n - 1) as nat;
        law_rows(entries, m);
        let above = rows_upto(entries, m);
        let i = n - 1;
        let kind = entries[i].kind;
        let headed = if i == 0 || entries[i - 1].kind != kind {
            above.push(Row::Section(kind))
        } else {
            above
        };
        assert(rows == headed.push(Row::File(i as usize)));
        assert(rows.drop_last() =~= headed);
        if headed.len() > above.len() {
            assert(headed.drop_last() =~= above);
        }
        assert(headed.filter(files) =~= above.filter(files));
        assert(file_rows(rows) =~= Seq::new(n, |i: int| Row::File(i as usize)));
        assert forall|k: int| 0 <= k < rows.len() implies #[trigger] row_fits(
            rows,
            k,
            entries,
        ) by {
            if k < above.len() {
                assert(row_fits(above, k, entries));
                assert(rows[k] == above[k]);
                if k > 0 {
                    assert(rows[k - 1] == above[k - 1]);
                }
                if k + 1 < above.len() {
                    assert(rows[k + 1] == above[k + 1]);
                }
            }
        }
    }
}

} // verus!
