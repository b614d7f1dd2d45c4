//! Orders: names by their characters, files by the time of their last change.
use vstd::prelude::*;
use vstd::relations::{sorted_by, total_ordering};
use vstd::seq_lib::lemma_sorted_unique;

use crate::path::FilePath;
use crate::text::{comes_before, text_before, texts};

verus! {

broadcast use vstd::seq_lib::group_to_multiset_ensures;

// ---------------------------------------------------------------------------
// Names
// ---------------------------------------------------------------------------
/// The order of texts by their code points.
pub open spec fn text_order() -> spec_fn(Seq<char>, Seq<char>) -> bool {
    |a: Seq<char>, b: Seq<char>| !text_before(b, a)
}

/// `names` in the order of their code points.
pub open spec fn sorted_names(names: Seq<Seq<char>>) -> Seq<Seq<char>> {
    names.sort_by(text_order())
}

proof fn lemma_before_asymmetric(a: Seq<char>, b: Seq<char>)
    ensures
        !(text_before(a, b) && text_before(b, a)),
    decreases a.len(),
{
    if a.len() > 0 && b.len() > 0 && a[0] == b[0] {
        lemma_before_asymmetric(a.skip(1), b.skip(1));
    }
}

proof fn lemma_before_connected(a: Seq<char>, b: Seq<char>)
    ensures
        text_before(a, b) || text_before(b, a) || a == b,
    decreases a.len(),
{
    if a.len() > 0 && b.len() > 0 && a[0] == b[0] {
        lemma_before_connected(a.skip(1), b.skip(1));
        if a.skip(1) == b.skip(1) {
            assert(a =~= seq![a[0]] + a.skip(1));
            assert(b =~= seq![b[0]] + b.skip(1));
        }
    } else if a.len() == 0 && b.len() == 0 {
        assert(a =~= b);
    }
}

proof fn lemma_before_transitive(a: Seq<char>, b: Seq<char>, c: Seq<char>)
    ensures
        !text_before(b, a) && !text_before(c, b) ==> !text_before(c, a),
    decreases a.len(),
{
    if a.len() > 0 && b.len() > 0 && c.len() > 0 {
        lemma_before_transitive(a.skip(1), b.skip(1), c.skip(1));
    }
}

/// The order of texts is total.
pub proof fn law_text_order_total()
    ensures
        total_ordering(text_order()),
{
    let leq = text_order();
    assert forall|a: Seq<char>| #[trigger] leq(a, a) by {
        lemma_before_asymmetric(a, a);
    }
    assert forall|a: Seq<char>, b: Seq<char>|
        #[trigger] leq(a, b) && #[trigger] leq(b, a) implies a == b by {
        lemma_before_connected(a, b);
    }
    assert forall|a: Seq<char>, b: Seq<char>, c: Seq<char>|
        #[trigger] leq(a, b) && #[trigger] leq(b, c) implies leq(a, c) by {
        lemma_before_transitive(a, b, c);
    }
    assert forall|a: Seq<char>, b: Seq<char>| #[trigger] leq(a, b) || #[trigger] leq(b, a) by {
        lemma_before_asymmetric(a, b);
    }
}

/// The given names in the order of their code points.
pub fn sort_names(names: &Vec<String>) -> (r: Vec<String>)
    ensures
        texts(r@) == sorted_names(texts(names@)),
{
    let ghost leq = text_order();
    let ghost all = texts(names@);
    let mut out: Vec<String> = Vec::new();
    let mut i: usize = 0;
    proof {
        law_text_order_total();
        assert(all.take(0) =~= Seq::<Seq<char>>::empty());
        assert(texts(out@) =~= Seq::<Seq<char>>::empty());
    }
    while i < names.len()
        invariant
            i <= names@.len(),
            all == texts(names@),
            leq == text_order(),
            total_ordering(leq),
            sorted_by(texts(out@), leq),
            texts(out@).to_multiset() == all.take(i as int).to_multiset(),
        decreases names@.len() - i,
    {
        let x = names[i].clone();
        let mut pos: usize = out.len();
        while pos > 0 && comes_before(x.as_str(), out[pos - 1].as_str())
            invariant
                pos <= out@.len(),
                forall|j: int| pos <= j < out@.len() ==> text_before(x@, #[trigger] out@[j]@),
            decreases pos,
        {
            pos = pos - 1;
        }
        let ghost before = texts(out@);
        let ghost y = x@;
        assert forall|j: int| 0 <= j < pos implies #[trigger] leq(before[j], y) by {
            assert(before[pos - 1] == out@[pos - 1]@);
            assert(leq(before[pos - 1], y));
            if j < pos - 1 {
                assert(leq(before[j], before[pos - 1]));
            }
        }
        assert forall|j: int| pos <= j < before.len() implies #[trigger] leq(y, before[j]) by {
            assert(before[j] == out@[j]@);
            lemma_before_asymmetric(y, before[j]);
        }
        out.insert(pos, x);
        let ghost after = texts(out@);
        assert(after =~= before.insert(pos as int, y));
        assert(sorted_by(after, leq));
        assert(all.take(i + 1) =~= all.take(i as int).push(all[i as int]));
        assert(all[i as int] == y);
        i = i + 1;
    }
    proof {
        assert(all.take(all.len() as int) =~= all);
        all.lemma_sort_by_ensures(leq);
        lemma_sorted_unique(texts(out@), sorted_names(all), leq);
    }
    out
}

// ---------------------------------------------------------------------------
// Times of last change
// ---------------------------------------------------------------------------
/// A file in a directory. The time of its last change is in nanoseconds from the epoch, and
/// missing where it could not be read.
pub struct DirFile {
    pub path: FilePath,
    pub modified: Option<i128>,
}

/// What a `DirFile` holds.
pub struct FileView {
    pub path: Seq<u8>,
    pub modified: Option<i128>,
}

impl View for DirFile {
    type V = FileView;

    open spec fn view(&self) -> FileView {
        FileView { path: self.path@, modified: self.modified }
    }
}

/// What a list of files holds.
pub open spec fn files_view(v: Seq<DirFile>) -> Seq<FileView> {
    Seq::new(v.len(), |i: int| v[i]@)
}

/// `a` lies strictly before `b`; an unknown time lies before every known one.
pub open spec fn earlier(a: Option<i128>, b: Option<i128>) -> bool {
    match (a, b) {
        (None, Some(_)) => true,
        (Some(x), Some(y)) => x < y,
        _ => false,
    }
}

/// Whether `a` lies strictly before `b`.
pub fn is_earlier(a: Option<i128>, b: Option<i128>) -> (r: bool)
    ensures
        r == earlier(a, b),
{
    match (a, b) {
        (None, Some(_)) => true,
        (Some(x), Some(y)) => x < y,
        _ => false,
    }
}

/// The order of positions that puts the newest file first and keeps files of one time as they
/// were.
pub open spec fn newest_order(times: Seq<Option<i128>>) -> spec_fn(int, int) -> bool {
    |a: int, b: int| earlier(times[b], times[a]) || (times[a] == times[b] && a <= b)
}

/// The positions of `times`, newest first; positions of one time stay in their order.
pub open spec fn newest_first(times: Seq<Option<i128>>) -> Seq<int> {
    Seq::new(times.len(), |i: int| i).sort_by(newest_order(times))
}

/// The order by time is total.
pub proof fn law_newest_order_total(times: Seq<Option<i128>>)
    ensures
        total_ordering(newest_order(times)),
{
}

/// The numbers in a list of positions.
pub open spec fn positions(v: Seq<usize>) -> Seq<int> {
    Seq::new(v.len(), |i: int| v[i] as int)
}

/// The times of last change of a list of files.
pub open spec fn times_of(files: Seq<FileView>) -> Seq<Option<i128>> {
    Seq::new(files.len(), |i: int| files[i].modified)
}

/// The positions of `files`, newest first; files of one time stay in their order.
pub fn order_newest_first(files: &Vec<DirFile>) -> (r: Vec<usize>)
    ensures
        positions(r@) == newest_first(times_of(files_view(files@))),
        forall|i: int| 0 <= i < r@.len() ==> #[trigger] r@[i] < files@.len(),
        r@.len() == files@.len(),
{
    let ghost times = times_of(files_view(files@));
    let ghost leq = newest_order(times);
    let ghost all = Seq::new(files@.len(), |i: int| i);
    let mut out: Vec<usize> = Vec::new();
    let mut i: usize = 0;
    proof {
        law_newest_order_total(times);
        assert(all.take(0) =~= Seq::<int>::empty());
        assert(positions(out@) =~= Seq::<int>::empty());
    }
    while i < files.len()
        invariant
            i <= files@.len(),
            times == times_of(files_view(files@)),
            leq == newest_order(times),
            all == Seq::new(files@.len(), |i: int| i),
            total_ordering(leq),
            out@.len() == i,
            forall|j: int| 0 <= j < out@.len() ==> #[trigger] out@[j] < i,
            sorted_by(positions(out@), leq),
            positions(out@).to_multiset() == all.take(i as int).to_multiset(),
        decreases files@.len() - i,
    {
        let t = files[i].modified;
        assert(times[i as int] == t);
        let mut pos: usize = out.len();
        while pos > 0 && is_earlier(files[out[pos - 1]].modified, t)
            invariant
                pos <= out@.len(),
                i < files@.len(),
                t == times[i as int],
                times == times_of(files_view(files@)),
                forall|j: int| 0 <= j < out@.len() ==> #[trigger] out@[j] < i,
                forall|j: int|
                    pos <= j < out@.len() ==> earlier(times[#[trigger] out@[j] as int], t),
            decreases pos,
        {
            assert(times[out@[pos - 1] as int] == files@[out@[pos - 1] as int].modified);
            pos = pos - 1;
        }
        let ghost before = positions(out@);
        let ghost y = i as int;
        assert forall|j: int| 0 <= j < pos implies #[trigger] leq(before[j], y) by {
            assert(before[pos - 1] == out@[pos - 1] as int);
            assert(times[out@[pos - 1] as int] == files@[out@[pos - 1] as int].modified);
            assert(leq(before[pos - 1], y));
            if j < pos - 1 {
                assert(leq(before[j], before[pos - 1]));
            }
        }
        assert forall|j: int| pos <= j < before.len() implies #[trigger] leq(y, before[j]) by {
            assert(before[j] == out@[j] as int);
        }
        out.insert(pos, i);
        let ghost after = positions(out@);
        assert(after =~= before.insert(pos as int, y));
        assert(sorted_by(after, leq));
        assert(all.take(i + 1) =~= all.take(i as int).push(y));
        i = i + 1;
    }
    proof {
        assert(all.take(all.len() as int) =~= all);
        all.lemma_sort_by_ensures(leq);
        assert(all =~= Seq::new(times.len(), |i: int| i));
        lemma_sorted_unique(positions(out@), newest_first(times), leq);
    }
    out
}

/// Of the files that satisfy `keep`, the newest; the last one of those with that time.
pub open spec fn latest_kept(files: Seq<FileView>, keep: spec_fn(FileView) -> bool) -> Option<
    FileView,
>
    decreases files.len(),
{
    if files.len() == 0 {
        None
    } else {
        let f = files.last();
        match latest_kept(files.drop_last(), keep) {
            Some(q) => if keep(f) && !earlier(f.modified, q.modified) {
                Some(f)
            } else {
                Some(q)
            },
            None => if keep(f) {
                Some(f)
            } else {
                None
            },
        }
    }
}

/// `latest_kept` gives a file that is kept, and none that is kept is newer; it gives none only
/// where none is kept.
pub proof fn law_latest_kept(files: Seq<FileView>, keep: spec_fn(FileView) -> bool)
    ensures
        match latest_kept(files, keep) {
            Some(f) => {
                &&& keep(f)
                &&& files.contains(f)
                &&& forall|i: int|
                    0 <= i < files.len() && keep(#[trigger] files[i]) ==> !earlier(
                        f.modified,
                        files[i].modified,
                    )
            },
            None => forall|i: int| 0 <= i < files.len() ==> !keep(#[trigger] files[i]),
        },
    decreases files.len(),
{
    if files.len() > 0 {
        let front = files.drop_last();
        law_latest_kept(front, keep);
        assert forall|i: int| 0 <= i < front.len() implies files[i] == #[trigger] front[i] by {}
        assert(files.contains(files[files.len() - 1]));
        match latest_kept(front, keep) {
            Some(q) => {
                let k = choose|k: int| 0 <= k < front.len() && front[k] == q;
                assert(files[k] == q);
            },
            None => {},
        }
        assert forall|i: int| 0 <= i < files.len() && keep(#[trigger] files[i]) implies {
            latest_kept(files, keep) matches Some(f) && !earlier(f.modified, files[i].modified)
        } by {
            if i < front.len() {
                assert(front[i] == files[i]);
            }
        }
    }
}

/// The position of the newest of the files marked in `keep`; of the last one with that time.
pub(crate) fn find_latest(
    files: &Vec<DirFile>,
    keep: &Vec<bool>,
    Ghost(p): Ghost<spec_fn(FileView) -> bool>,
) -> (r: Option<usize>)
    requires
        keep@.len() == files@.len(),
        forall|i: int| 0 <= i < files@.len() ==> #[trigger] keep@[i] == p(files@[i]@),
    ensures
        match r {
            Some(i) => i < files@.len() && latest_kept(files_view(files@), p) == Some(
                files@[i as int]@,
            ),
            None => latest_kept(files_view(files@), p) is None,
        },
{
    let ghost all = files_view(files@);
    let mut best: Option<usize> = None;
    let mut i: usize = 0;
    while i < files.len()
        invariant
            i <= files@.len(),
            all == files_view(files@),
            keep@.len() == files@.len(),
            forall|i: int| 0 <= i < files@.len() ==> #[trigger] keep@[i] == p(files@[i]@),
            match best {
                Some(b) => b < files@.len() && latest_kept(all.take(i as int), p) == Some(
                    files@[b as int]@,
                ),
                None => latest_kept(all.take(i as int), p) is None,
            },
        decreases files@.len() - i,
    {
        assert(all.take(i + 1).drop_last() =~= all.take(i as int));
        assert(all.take(i + 1).last() == files@[i as int]@);
        if keep[i] {
            best = match best {
                Some(b) => if is_earlier(files[i].modified, files[b].modified) {
                    Some(b)
                } else {
                    Some(i)
                },
                None => Some(i),
            };
        }
        i = i + 1;
    }
    assert(all.take(all.len() as int) =~= all);
    best
}

/// Sorting keeps every name as often as it was there, adds none, and puts none before one that
/// comes before it.
pub proof fn law_sorted_names(names: Seq<Seq<char>>)
    ensures
        sorted_names(names).len() == names.len(),
        sorted_names(names).to_multiset() == names.to_multiset(),
        forall|x: Seq<char>| #[trigger] sorted_names(names).contains(x) <==> names.contains(x),
        forall|i: int, j: int|
            0 <= i < j < sorted_names(names).len() ==> !text_before(
                #[trigger] sorted_names(names)[j],
                #[trigger] sorted_names(names)[i],
            ),
{
    let leq = text_order();
    let r = sorted_names(names);
    law_text_order_total();
    names.lemma_sort_by_ensures(leq);
    assert(r.len() == names.len()) by {
        assert(r.to_multiset().len() == names.to_multiset().len());
    }
    assert forall|x: Seq<char>| #[trigger] r.contains(x) <==> names.contains(x) by {
        assert(r.contains(x) <==> r.to_multiset().count(x) > 0);
        assert(names.contains(x) <==> names.to_multiset().count(x) > 0);
    }
    assert forall|i: int, j: int| 0 <= i < j < r.len() implies !text_before(
        #[trigger] r[j],
        #[trigger] r[i],
    ) by {
        assert(leq(r[i], r[j]));
    }
}

/// A file is older than another exactly where its time of change is the smaller; one without a
/// time is older than every one with a time, and never newer.
pub proof fn law_older(x: i128, y: i128, t: Option<i128>)
    ensures
        earlier(Some(x), Some(y)) <==> x < y,
        earlier(None, Some(y)),
        !earlier(t, None),
        !earlier(t, t),
{
}

} // verus!
