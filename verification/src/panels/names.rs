//! Names that are made of the names of files.
use vstd::prelude::*;
use vstd::string::StringExecFns;
use vstd::utf8::{decode_utf8_encode_utf8, encode_utf8};

use crate::config::{under, Config};
use crate::path::{
    file_name, file_name_text, file_stem, file_stem_text, joined, law_entry_of_directory,
    law_named_file, law_no_slash_in_name, lemma_dot_bounds, lemma_encoded_len,
    lemma_file_name_slash_free, lemma_slash_encoded, parent, tidy, FilePath, DOT, SLASH,
};
use crate::settings::strs;
use crate::text::{
    ascii_char, ascii_lower, ascii_text, ascii_upper, char_to_upper, char_uppercase, chars_of,
    drop_prefix, drop_suffix, find, find_from, find_text, is_white, join_texts, join_with,
    law_affixes_come_off, law_words_are_solid, law_words_undo_join, lemma_find_from, list_has,
    lowercase, occurs_at, replace_char, replaced_char, solid, text_range, texts, to_lower, to_upper,
    uppercase, without_prefix, without_suffix, words, words_of,
};

verus! {

// ---------------------------------------------------------------------------
// Titles
// ---------------------------------------------------------------------------
/// The words that are written in capitals.
pub open spec fn acronyms() -> Seq<Seq<char>> {
    seq!["VHS"@, "TV"@, "BBC"@, "DVD"@, "CD"@, "UK"@, "US"@, "USA"@]
}

fn acronym_list() -> (r: Vec<&'static str>)
    ensures
        strs(r@) == acronyms(),
{
    let r = vec!["VHS", "TV", "BBC", "DVD", "CD", "UK", "US", "USA"];
    assert(strs(r@) =~= acronyms());
    r
}

/// A word of a title: an acronym in capitals, any other word with a capital first letter.
pub open spec fn title_word(w: Seq<char>) -> Seq<char> {
    if acronyms().contains(uppercase(w)) {
        uppercase(w)
    } else if w.len() == 0 {
        Seq::empty()
    } else {
        char_uppercase(w[0]) + lowercase(w.skip(1))
    }
}

/// A title made of a file's name: its words, with one space between them. An underscore ends a
/// word as a space does.
pub open spec fn title(s: Seq<char>) -> Seq<char> {
    join_with(words(replace_char(s, '_', ' ')).map_values(|w: Seq<char>| title_word(w)), " "@)
}

/// ASCII text in small letters.
pub open spec fn lowered(s: Seq<char>) -> Seq<char> {
    s.map_values(|c: char| ascii_lower(c))
}

/// ASCII text in capitals.
pub open spec fn uppered(s: Seq<char>) -> Seq<char> {
    s.map_values(|c: char| ascii_upper(c))
}

/// A word of a title, where the word is ASCII.
pub open spec fn ascii_title_word(w: Seq<char>) -> Seq<char> {
    if acronyms().contains(uppered(w)) {
        uppered(w)
    } else if w.len() == 0 {
        Seq::empty()
    } else {
        seq![ascii_upper(w[0])] + lowered(w.skip(1))
    }
}

/// The words of a text as it is cut up for a title.
pub open spec fn title_parts(s: Seq<char>) -> Seq<Seq<char>> {
    words(replace_char(s, '_', ' '))
}

/// A title, where the text is ASCII.
pub open spec fn ascii_title(s: Seq<char>) -> Seq<char> {
    join_with(title_parts(s).map_values(|w: Seq<char>| ascii_title_word(w)), " "@)
}

/// A text with its spacing made that of a title: each run of underscores and white space is one
/// space, and there is none at the ends.
pub open spec fn respaced(s: Seq<char>) -> Seq<char> {
    join_with(title_parts(s), " "@)
}

/// A word that a title can hold: ASCII, without white space and without underscores.
pub open spec fn title_ready(w: Seq<char>) -> bool {
    solid(w) && ascii_text(w) && !w.contains('_')
}

proof fn lemma_replaced(c: char)
    requires
        ascii_char(c),
    ensures
        ascii_char(
            if c == '_' {
                ' '
            } else {
                c
            },
        ),
{
}

proof fn lemma_title_parts(s: Seq<char>)
    requires
        ascii_text(s),
    ensures
        forall|k: int| 0 <= k < title_parts(s).len() ==> title_ready(#[trigger] title_parts(s)[k]),
{
    let r = replace_char(s, '_', ' ');
    assert forall|i: int| 0 <= i < r.len() implies ascii_char(#[trigger] r[i]) && r[i] != '_' by {
        assert(ascii_char(s[i]));
        lemma_replaced(s[i]);
    }
    assert forall|k: int| 0 <= k < title_parts(s).len() implies title_ready(
        #[trigger] title_parts(s)[k],
    ) by {
        law_words_are_solid(r, k);
        let w = words(r)[k];
        assert forall|i: int| 0 <= i < w.len() implies ascii_char(#[trigger] w[i]) && w[i]
            != '_' by {
            let j = choose|j: int| 0 <= j < r.len() && r[j] == w[i];
            assert(ascii_char(r[j]));
        }
    }
}

fn titled(w: &str) -> (r: String)
    ensures
        r@ == title_word(w@),
        ascii_text(w@) ==> r@ == ascii_title_word(w@),
{
    let up = to_upper(w);
    assert(ascii_text(w@) ==> up@ =~= uppered(w@));
    let list = acronym_list();
    proof {
        assert(strs(list@).contains(up@) <==> exists|i: int|
            0 <= i < list@.len() && #[trigger] list@[i]@ == up@) by {
            if strs(list@).contains(up@) {
                let i = choose|i: int| 0 <= i < strs(list@).len() && strs(list@)[i] == up@;
                assert(list@[i]@ == up@);
            }
            if exists|i: int| 0 <= i < list@.len() && #[trigger] list@[i]@ == up@ {
                let i = choose|i: int| 0 <= i < list@.len() && #[trigger] list@[i]@ == up@;
                assert(strs(list@)[i] == up@);
            }
        }
    }
    if list_has(&list, up.as_str()) {
        return up;
    }
    let chars = chars_of(w);
    if chars.len() == 0 {
        return String::new();
    }
    let len: usize = chars.len();
    let rest = text_range(&chars, 1, len);
    assert(rest@ =~= w@.skip(1));
    let mut head = char_to_upper(chars[0]);
    let tail = to_lower(rest.as_str());
    proof {
        if ascii_text(w@) {
            assert(ascii_char(w@[0]));
            assert forall|i: int| 0 <= i < rest@.len() implies ascii_char(
                #[trigger] rest@[i],
            ) by {
                assert(ascii_char(w@[i + 1]));
            }
            assert(tail@ =~= lowered(rest@));
        }
    }
    head.append(tail.as_str());
    head
}

pub fn title_words(s: &str) -> (r: String)
    ensures
        r@ == title(s@),
        ascii_text(s@) ==> r@ == ascii_title(s@),
{
    let spaced = replaced_char(s, '_', ' ');
    let list = words_of(spaced.as_str());
    let ghost want = words(spaced@).map_values(|w: Seq<char>| title_word(w));
    let ghost plain = title_parts(s@).map_values(|w: Seq<char>| ascii_title_word(w));
    proof {
        if ascii_text(s@) {
            lemma_title_parts(s@);
        }
    }
    let mut out: Vec<String> = Vec::new();
    let mut i: usize = 0;
    assert(texts(out@) =~= want.take(0));
    while i < list.len()
        invariant
            i <= list@.len(),
            texts(list@) == words(spaced@),
            want == words(spaced@).map_values(|w: Seq<char>| title_word(w)),
            texts(out@) == want.take(i as int),
            words(spaced@) == title_parts(s@),
            plain == title_parts(s@).map_values(|w: Seq<char>| ascii_title_word(w)),
            ascii_text(s@) ==> forall|k: int|
                0 <= k < title_parts(s@).len() ==> title_ready(#[trigger] title_parts(s@)[k]),
            ascii_text(s@) ==> forall|k: int| 0 <= k < i ==> #[trigger] want[k] == plain[k],
        decreases list@.len() - i,
    {
        let t = titled(list[i].as_str());
        assert(texts(list@)[i as int] == list@[i as int]@);
        assert(want[i as int] == t@);
        assert(ascii_text(s@) ==> title_ready(title_parts(s@)[i as int]));
        assert(ascii_text(s@) ==> plain[i as int] == t@);
        let ghost grown = texts(out@).push(t@);
        out.push(t);
        assert(texts(out@) =~= grown);
        assert(want.take(i + 1) =~= want.take(i as int).push(want[i as int]));
        i = i + 1;
    }
    assert(want.take(want.len() as int) =~= want);
    assert(ascii_text(s@) ==> want =~= plain);
    join_texts(&out, " ")
}

/// What of a viewer file's name says what it shows: the name without the marks of the steps
/// that it went through.
pub open spec fn bare_stem(name: Seq<char>) -> Seq<char> {
    let a = without_suffix(name, ".mkv"@);
    let b = without_suffix(a, ".upscale"@);
    let c = without_suffix(b, ".viewer"@);
    let d = without_suffix(c, "_VD"@);
    without_prefix(d, "EDIT_MASTER-"@)
}

/// The name that is suggested for a viewer file: a kind and a title, where a dash parts the two
/// in its name, and its own name where none does.
pub open spec fn suggested_name(p: Seq<u8>) -> Seq<char> {
    match file_name_text(p) {
        Some(name) => {
            let stem = bare_stem(name);
            match find(stem, "-"@) {
                Some(dash) => if dash > 0 && dash + 1 < stem.len() {
                    title(stem.take(dash)) + " \u{2014} "@ + title(stem.skip(dash + 1)) + ".mkv"@
                } else {
                    name
                },
                None => name,
            }
        },
        None => Seq::empty(),
    }
}

pub fn suggest_viewer_name(path: &FilePath) -> (r: String)
    ensures
        r@ == suggested_name(path@),
{
    let name = match path.file_name_text() {
        Some(n) => n,
        None => {
            return String::new();
        },
    };
    let a = drop_suffix(name.as_str(), ".mkv");
    let b = drop_suffix(a.as_str(), ".upscale");
    let c = drop_suffix(b.as_str(), ".viewer");
    let d = drop_suffix(c.as_str(), "_VD");
    let stem = drop_prefix(d.as_str(), "EDIT_MASTER-");
    proof {
        lemma_find_from(stem@, "-"@, 0);
        reveal_strlit("-");
    }
    if let Some(dash) = find_text(stem.as_str(), "-") {
        let chars = chars_of(stem.as_str());
        let len: usize = chars.len();
        if dash > 0 && dash + 1 < len {
            let kind = text_range(&chars, 0, dash);
            let rest = text_range(&chars, dash + 1, len);
            assert(kind@ =~= stem@.take(dash as int));
            assert(rest@ =~= stem@.skip(dash + 1));
            let mut t = title_words(kind.as_str());
            t.append(" \u{2014} ");
            t.append(title_words(rest.as_str()).as_str());
            t.append(".mkv");
            return t;
        }
    }
    name
}

// ---------------------------------------------------------------------------
// Where an upscale works
// ---------------------------------------------------------------------------
/// The stem of a file's name, and `out` where it has none that is text.
pub open spec fn stem_or_out(p: Seq<u8>) -> Seq<char> {
    match file_stem_text(p) {
        Some(s) => s,
        None => "out"@,
    }
}

fn stem_of(p: &FilePath) -> (r: String)
    ensures
        r@ == stem_or_out(p@),
{
    match p.file_stem_text() {
        Some(s) => s,
        None => "out".to_owned(),
    }
}

/// What the upscale of `input` writes.
pub open spec fn output_of(input: Seq<u8>, viewer_dir: Seq<u8>) -> Seq<u8> {
    under(viewer_dir, without_suffix(stem_or_out(input), ".viewer"@) + ".upscale.mkv"@)
}

pub fn upscale_output(input: &FilePath, cfg: &Config) -> (r: FilePath)
    ensures
        r@ == output_of(input@, cfg.viewer_path()),
{
    let mut name = drop_suffix(stem_of(input).as_str(), ".viewer");
    name.append(".upscale.mkv");
    cfg.viewer_dir().join(name.as_str())
}

/// The directory in which the upscale of `input` works.
pub open spec fn work_dir(input: Seq<u8>, work_root: Seq<u8>) -> Seq<u8> {
    joined(work_root, encode_utf8(stem_or_out(input)))
}

pub fn upscale_work_dir(input: &FilePath, work_root: &FilePath) -> (r: FilePath)
    ensures
        r@ == work_dir(input@, work_root@),
{
    work_root.join(stem_of(input).as_str())
}

/// Where the upscale of `input` puts its segments.
pub fn upscale_segments_dir(input: &FilePath, work_root: &FilePath) -> (r: FilePath)
    ensures
        r@ == under(work_dir(input@, work_root@), "segments"@),
{
    upscale_work_dir(input, work_root).join("segments")
}

// ---------------------------------------------------------------------------
// Laws
// ---------------------------------------------------------------------------
proof fn lemma_stem_slash_free(p: Seq<u8>)
    ensures
        !stem_or_out(p).contains('/'),
        stem_or_out(p).len() > 0,
{
    reveal_strlit("out");
    match file_stem_text(p) {
        Some(s) => {
            lemma_file_name_slash_free(p);
            let n = file_name(p)->0;
            let b = file_stem(p)->0;
            lemma_dot_bounds(n);
            assert forall|i: int| 0 <= i < b.len() implies b[i] != SLASH by {
                assert(b[i] == n[i]);
            }
            decode_utf8_encode_utf8(b);
            lemma_slash_encoded(s);
            if s.len() == 0 {
                assert(encode_utf8(s).len() == 0);
            }
        },
        None => {},
    }
}

proof fn lemma_case(c: char)
    requires
        ascii_char(c),
    ensures
        ascii_char(ascii_upper(c)),
        ascii_char(ascii_lower(c)),
        ascii_upper(ascii_upper(c)) == ascii_upper(c),
        ascii_upper(ascii_lower(c)) == ascii_upper(c),
        ascii_lower(ascii_upper(c)) == ascii_lower(c),
        ascii_lower(ascii_lower(c)) == ascii_lower(c),
        is_white(ascii_upper(c)) == is_white(c),
        is_white(ascii_lower(c)) == is_white(c),
        ascii_upper(c) == '_' <==> c == '_',
        ascii_lower(c) == '_' <==> c == '_',
{
}

proof fn lemma_title_word(w: Seq<char>)
    requires
        title_ready(w),
    ensures
        title_ready(ascii_title_word(w)),
        ascii_title_word(ascii_title_word(w)) == ascii_title_word(w),
        lowered(ascii_title_word(w)) == lowered(w),
{
    let t = ascii_title_word(w);
    assert(t.len() == w.len());
    assert forall|i: int| 0 <= i < t.len() implies ascii_char(#[trigger] t[i]) && !is_white(t[i])
        && t[i] != '_' && ascii_upper(t[i]) == ascii_upper(w[i]) && ascii_lower(t[i])
        == ascii_lower(w[i]) && (t[i] == ascii_upper(w[i]) || t[i] == ascii_lower(w[i])) by {
        assert(ascii_char(w[i]) && !is_white(w[i]) && w[i] != '_');
        lemma_case(w[i]);
        if !acronyms().contains(uppered(w)) && i > 0 {
            assert(t[i] == lowered(w.skip(1))[i - 1]);
        }
    }
    assert(uppered(t) =~= uppered(w));
    assert(lowered(t) =~= lowered(w));
    if acronyms().contains(uppered(w)) {
        assert(ascii_title_word(t) =~= t);
    } else {
        assert forall|i: int| 0 <= i < t.len() implies #[trigger] ascii_title_word(t)[i] == t[i] by {
            assert(ascii_char(w[i]));
            lemma_case(w[i]);
            if i > 0 {
                assert(ascii_title_word(t)[i] == lowered(t.skip(1))[i - 1]);
                assert(t[i] == lowered(w.skip(1))[i - 1]);
            }
        }
        assert(ascii_title_word(t) =~= t);
    }
}

proof fn lemma_lowered_join(a: Seq<Seq<char>>, b: Seq<Seq<char>>)
    requires
        a.len() == b.len(),
        forall|i: int| 0 <= i < a.len() ==> lowered(#[trigger] a[i]) == lowered(b[i]),
    ensures
        lowered(join_with(a, " "@)) == lowered(join_with(b, " "@)),
    decreases a.len(),
{
    if a.len() > 1 {
        let fa = a.drop_last();
        let fb = b.drop_last();
        assert forall|i: int| 0 <= i < fa.len() implies lowered(#[trigger] fa[i]) == lowered(
            fb[i],
        ) by {
            assert(lowered(a[i]) == lowered(b[i]));
        }
        lemma_lowered_join(fa, fb);
        assert(lowered(a[a.len() - 1]) == lowered(b[b.len() - 1]));
        let ja = join_with(fa, " "@);
        let jb = join_with(fb, " "@);
        assert(lowered(ja + " "@ + a.last()) =~= lowered(ja) + lowered(" "@) + lowered(a.last()));
        assert(lowered(jb + " "@ + b.last()) =~= lowered(jb) + lowered(" "@) + lowered(b.last()));
    } else if a.len() == 1 {
        assert(lowered(a[0]) == lowered(b[0]));
    }
}

/// The spacing of a title: no underscores, and no white space but single spaces between words.
pub open spec fn tidy_spacing(t: Seq<char>) -> bool {
    forall|i: int|
        0 <= i < t.len() ==> #[trigger] t[i] != '_' && (is_white(t[i]) ==> {
            &&& t[i] == ' '
            &&& 0 < i
            &&& i + 1 < t.len()
            &&& !is_white(t[i - 1])
            &&& !is_white(t[i + 1])
        })
}

proof fn lemma_join_tidy(list: Seq<Seq<char>>)
    requires
        forall|k: int| 0 <= k < list.len() ==> title_ready(#[trigger] list[k]),
    ensures
        tidy_spacing(join_with(list, " "@)),
        list.len() > 0 ==> join_with(list, " "@).len() > 0,
    decreases list.len(),
{
    let t = join_with(list, " "@);
    if list.len() == 1 {
        assert(title_ready(list[0]));
    } else if list.len() > 1 {
        let front = list.drop_last();
        assert forall|k: int| 0 <= k < front.len() implies title_ready(#[trigger] front[k]) by {
            assert(title_ready(list[k]));
        }
        lemma_join_tidy(front);
        let j = join_with(front, " "@);
        let last = list[list.len() - 1];
        assert(title_ready(last));
        reveal_strlit(" ");
        let n = j.len() as int;
        assert(t == j + " "@ + last);
        assert(t[n] == ' ');
        assert(t[n - 1] == j[n - 1]);
        assert(!is_white(j[n - 1]));
        assert(t[n + 1] == last[0]);
        assert forall|i: int| 0 <= i < t.len() implies #[trigger] t[i] != '_' && (is_white(t[i])
            ==> {
            &&& t[i] == ' '
            &&& 0 < i
            &&& i + 1 < t.len()
            &&& !is_white(t[i - 1])
            &&& !is_white(t[i + 1])
        }) by {
            if i < n {
                assert(t[i] == j[i]);
                if is_white(j[i]) {
                    assert(t[i - 1] == j[i - 1]);
                    assert(t[i + 1] == j[i + 1]);
                }
            } else if i > n {
                assert(t[i] == last[i - n - 1]);
            }
        }
    }
}

/// A title is its own title.
pub proof fn law_title_is_its_own_title(s: Seq<char>)
    requires
        ascii_text(s),
    ensures
        ascii_text(ascii_title(s)),
        ascii_title(ascii_title(s)) == ascii_title(s),
{
    let parts = title_parts(s);
    let list = parts.map_values(|w: Seq<char>| ascii_title_word(w));
    let t = ascii_title(s);
    lemma_title_parts(s);
    assert forall|k: int| 0 <= k < list.len() implies title_ready(#[trigger] list[k])
        && ascii_title_word(list[k]) == list[k] by {
        assert(title_ready(parts[k]));
        lemma_title_word(parts[k]);
    }
    lemma_join_tidy(list);
    assert(replace_char(t, '_', ' ') =~= t);
    law_words_undo_join(list);
    assert(title_parts(t) == list);
    assert(list.map_values(|w: Seq<char>| ascii_title_word(w)) =~= list);
    lemma_join_ascii(list);
}

proof fn lemma_join_ascii(list: Seq<Seq<char>>)
    requires
        forall|k: int| 0 <= k < list.len() ==> title_ready(#[trigger] list[k]),
    ensures
        ascii_text(join_with(list, " "@)),
    decreases list.len(),
{
    if list.len() == 1 {
        assert(title_ready(list[0]));
    } else if list.len() > 1 {
        let front = list.drop_last();
        assert forall|k: int| 0 <= k < front.len() implies title_ready(#[trigger] front[k]) by {
            assert(title_ready(list[k]));
        }
        lemma_join_ascii(front);
        let last = list[list.len() - 1];
        assert(title_ready(last));
        reveal_strlit(" ");
        lemma_case(' ');
        let j = join_with(front, " "@);
        let t = join_with(list, " "@);
        assert forall|i: int| 0 <= i < t.len() implies ascii_char(#[trigger] t[i]) by {
            if i < j.len() {
                assert(t[i] == j[i]);
            } else if i == j.len() {
                assert(t[i] == ' ');
            } else {
                assert(t[i] == last[i - j.len() - 1]);
            }
        }
    }
}

/// A title is its text but for case and spacing: in small letters it is the text in small
/// letters, with each run of underscores and white space made one space and none at the ends.
pub proof fn law_title_keeps_the_text(s: Seq<char>)
    requires
        ascii_text(s),
    ensures
        lowered(ascii_title(s)) == lowered(respaced(s)),
{
    let parts = title_parts(s);
    let list = parts.map_values(|w: Seq<char>| ascii_title_word(w));
    lemma_title_parts(s);
    assert forall|k: int| 0 <= k < list.len() implies lowered(#[trigger] list[k]) == lowered(
        parts[k],
    ) by {
        assert(title_ready(parts[k]));
        lemma_title_word(parts[k]);
    }
    lemma_lowered_join(list, parts);
}

/// A title has no underscore, and no white space but single spaces between its words.
pub proof fn law_title_is_tidy(s: Seq<char>)
    requires
        ascii_text(s),
    ensures
        tidy_spacing(ascii_title(s)),
{
    let parts = title_parts(s);
    let list = parts.map_values(|w: Seq<char>| ascii_title_word(w));
    lemma_title_parts(s);
    assert forall|k: int| 0 <= k < list.len() implies title_ready(#[trigger] list[k]) by {
        assert(title_ready(parts[k]));
        lemma_title_word(parts[k]);
    }
    lemma_join_tidy(list);
}

/// Whatever the input, its upscale is written into the viewer directory itself.
pub proof fn law_output_in_viewer_dir(input: Seq<u8>, viewer_dir: Seq<u8>)
    ensures
        parent(output_of(input, viewer_dir)) == Some(tidy(viewer_dir)),
{
    lemma_stem_slash_free(input);
    let stem = stem_or_out(input);
    let clean = without_suffix(stem, ".viewer"@);
    let name = clean + ".upscale.mkv"@;
    reveal_strlit(".upscale.mkv");
    assert forall|i: int| 0 <= i < name.len() implies name[i] != '/' by {
        if i < clean.len() {
            assert(name[i] == stem[i]);
        } else {
            assert(name[i] == ".upscale.mkv"@[i - clean.len()]);
        }
    }
    law_no_slash_in_name(name);
    lemma_encoded_len(name);
    law_entry_of_directory(viewer_dir, encode_utf8(name));
}

/// The upscale of a file works in a directory of its own in the work root, unless the stem of
/// the file's name is one or two dots.
pub proof fn law_work_dir_in_work_root(input: Seq<u8>, work_root: Seq<u8>)
    requires
        encode_utf8(stem_or_out(input)) != seq![DOT],
        encode_utf8(stem_or_out(input)) != seq![DOT, DOT],
    ensures
        parent(work_dir(input, work_root)) == Some(tidy(work_root)),
        parent(under(work_dir(input, work_root), "segments"@)) == Some(
            tidy(work_dir(input, work_root)),
        ),
{
    lemma_stem_slash_free(input);
    let stem = stem_or_out(input);
    law_no_slash_in_name(stem);
    lemma_encoded_len(stem);
    law_entry_of_directory(work_root, encode_utf8(stem));
    reveal_strlit("segments");
    assert forall|i: int| 0 <= i < "segments"@.len() implies "segments"@[i] != '/' by {}
    law_no_slash_in_name("segments"@);
    lemma_encoded_len("segments"@);
    law_entry_of_directory(work_dir(input, work_root), encode_utf8("segments"@));
}

/// A file whose name has no dash, once the marks of the steps are gone, keeps its name.
pub proof fn law_plain_name_is_kept(p: Seq<u8>, name: Seq<char>)
    requires
        file_name_text(p) == Some(name),
        !bare_stem(name).contains('-'),
    ensures
        suggested_name(p) == name,
{
    let stem = bare_stem(name);
    lemma_find_from(stem, "-"@, 0);
    reveal_strlit("-");
    match find(stem, "-"@) {
        Some(i) => {
            assert(stem.subrange(i, i + 1)[0] == stem[i]);
            assert("-"@[0] == '-');
        },
        None => {},
    }
}

/// The eight acronyms of a title, and no other word, are written in capitals.
pub proof fn law_acronyms(w: Seq<char>)
    ensures
        acronyms().contains(w) <==> {
            ||| w == "VHS"@
            ||| w == "TV"@
            ||| w == "BBC"@
            ||| w == "DVD"@
            ||| w == "CD"@
            ||| w == "UK"@
            ||| w == "US"@
            ||| w == "USA"@
        },
{
    let a = acronyms();
    assert(a[0] == "VHS"@ && a[1] == "TV"@ && a[2] == "BBC"@ && a[3] == "DVD"@);
    assert(a[4] == "CD"@ && a[5] == "UK"@ && a[6] == "US"@ && a[7] == "USA"@);
}

/// Letter by letter, a word of a title is the word it was made of: all capitals in an acronym, and
/// a capital followed by small letters in any other word.
pub proof fn law_title_letters(w: Seq<char>, i: int)
    requires
        ascii_text(w),
        0 <= i < w.len(),
    ensures
        ascii_title_word(w).len() == w.len(),
        acronyms().contains(uppered(w)) || i == 0 ==> ascii_title_word(w)[i] == ascii_upper(w[i]),
        !acronyms().contains(uppered(w)) && i > 0 ==> ascii_title_word(w)[i] == ascii_lower(w[i]),
{
    if !acronyms().contains(uppered(w)) && i > 0 {
        assert(ascii_title_word(w)[i] == lowered(w.skip(1))[i - 1]);
    }
}

/// Only the letters from `a` to `z` have capitals, 32 places before them, and only the letters from
/// `A` to `Z` have small letters, 32 places behind them.
pub proof fn law_ascii_case(c: char)
    requires
        ascii_char(c),
    ensures
        97 <= c as u32 <= 122 ==> ascii_upper(c) as u32 == c as u32 - 32,
        !(97 <= c as u32 <= 122) ==> ascii_upper(c) == c,
        65 <= c as u32 <= 90 ==> ascii_lower(c) as u32 == c as u32 + 32,
        !(65 <= c as u32 <= 90) ==> ascii_lower(c) == c,
{
}

/// A title is made word by word: joining words with a space, or with an underscore, joins their
/// titles with a space.
pub proof fn law_title_goes_word_by_word(a: Seq<char>, b: Seq<char>)
    requires
        title_ready(a),
        title_ready(b),
    ensures
        ascii_title(a) == ascii_title_word(a),
        ascii_title(a + " "@ + b) == ascii_title_word(a) + " "@ + ascii_title_word(b),
        ascii_title(a + "_"@ + b) == ascii_title_word(a) + " "@ + ascii_title_word(b),
{
    reveal_strlit(" ");
    reveal_strlit("_");
    let one = seq![a];
    let two = seq![a, b];
    assert(join_with(one, " "@) == a);
    assert(two.drop_last() =~= one);
    assert(join_with(two, " "@) == a + " "@ + b);
    assert(replace_char(a, '_', ' ') =~= a);
    assert(replace_char(b, '_', ' ') =~= b);
    assert(replace_char(a + " "@ + b, '_', ' ') =~= a + " "@ + b);
    assert(replace_char(a + "_"@ + b, '_', ' ') =~= a + " "@ + b);
    law_words_undo_join(one);
    law_words_undo_join(two);
    let ta = ascii_title_word(a);
    let tb = ascii_title_word(b);
    assert(one.map_values(|w: Seq<char>| ascii_title_word(w)) =~= seq![ta]);
    assert(two.map_values(|w: Seq<char>| ascii_title_word(w)) =~= seq![ta, tb]);
    assert(join_with(seq![ta], " "@) == ta);
    assert(seq![ta, tb].drop_last() =~= seq![ta]);
    assert(join_with(seq![ta, tb], " "@) == ta + " "@ + tb);
}

/// `core` bears none of the marks that the steps put on a name.
pub open spec fn unmarked(core: Seq<char>) -> bool {
    &&& !".mkv"@.is_suffix_of(core)
    &&& !".upscale"@.is_suffix_of(core)
    &&& !".viewer"@.is_suffix_of(core)
    &&& !"_VD"@.is_suffix_of(core)
    &&& !"EDIT_MASTER-"@.is_prefix_of(core)
}

/// `mark` where it is put on, and nothing where it is not.
pub open spec fn mark_if(on: bool, mark: Seq<char>) -> Seq<char> {
    if on {
        mark
    } else {
        Seq::empty()
    }
}

/// No text that ends in `q` ends in `p`, where the two end in different characters.
proof fn lemma_other_end(s: Seq<char>, q: Seq<char>, p: Seq<char>)
    requires
        q.len() > 0,
        p.len() > 0,
        q.last() != p.last(),
    ensures
        !p.is_suffix_of(s + q),
{
    let t = s + q;
    if p.is_suffix_of(t) {
        assert(t.subrange(t.len() - p.len(), t.len() as int)[p.len() - 1] == t[t.len() - 1]);
    }
}

/// A suffix without a dash that a text has behind `EDIT_MASTER-`, the rest of the text has too.
proof fn lemma_behind_prefix(core: Seq<char>, p: Seq<char>)
    requires
        p.len() > 0,
        !p.contains('-'),
        !p.is_suffix_of(core),
    ensures
        !p.is_suffix_of("EDIT_MASTER-"@ + core),
{
    reveal_strlit("EDIT_MASTER-");
    let pre = "EDIT_MASTER-"@;
    let t = pre + core;
    if p.is_suffix_of(t) {
        let tail = t.subrange(t.len() - p.len(), t.len() as int);
        assert(tail == p);
        if core.len() >= p.len() {
            assert(core.subrange(core.len() - p.len(), core.len() as int) =~= tail);
        } else {
            let k = p.len() - core.len() - 1;
            assert(tail[k] == t[pre.len() - 1]);
            assert(p[k] == '-');
        }
    }
}

/// Whichever marks the steps put on a name, in their order, all come off and nothing else does.
pub proof fn law_marks_come_off(
    core: Seq<char>,
    edited: bool,
    decimated: bool,
    viewer: bool,
    upscaled: bool,
    video: bool,
)
    requires
        unmarked(core),
    ensures
        bare_stem(
            mark_if(edited, "EDIT_MASTER-"@) + core + mark_if(decimated, "_VD"@) + mark_if(
                viewer,
                ".viewer"@,
            ) + mark_if(upscaled, ".upscale"@) + mark_if(video, ".mkv"@),
        ) == core,
{
    reveal_strlit(".mkv");
    reveal_strlit(".upscale");
    reveal_strlit(".viewer");
    reveal_strlit("_VD");
    let none = Seq::<char>::empty();
    let d = mark_if(edited, "EDIT_MASTER-"@) + core;
    let c = d + mark_if(decimated, "_VD"@);
    let b = c + mark_if(viewer, ".viewer"@);
    let a = b + mark_if(upscaled, ".upscale"@);
    let name = a + mark_if(video, ".mkv"@);
    assert forall|s: Seq<char>| #[trigger] (s + none) =~= s by {}
    assert(none + core =~= core);
    lemma_behind_prefix(core, ".mkv"@);
    lemma_behind_prefix(core, ".upscale"@);
    lemma_behind_prefix(core, ".viewer"@);
    lemma_behind_prefix(core, "_VD"@);
    assert(!".mkv"@.is_suffix_of(d) && !".upscale"@.is_suffix_of(d) && !".viewer"@.is_suffix_of(d)
        && !"_VD"@.is_suffix_of(d));
    lemma_other_end(d, "_VD"@, ".viewer"@);
    lemma_other_end(d, "_VD"@, ".upscale"@);
    lemma_other_end(d, "_VD"@, ".mkv"@);
    assert(!".mkv"@.is_suffix_of(c) && !".upscale"@.is_suffix_of(c) && !".viewer"@.is_suffix_of(
        c,
    ));
    lemma_other_end(c, ".viewer"@, ".upscale"@);
    lemma_other_end(c, ".viewer"@, ".mkv"@);
    assert(!".mkv"@.is_suffix_of(b) && !".upscale"@.is_suffix_of(b));
    lemma_other_end(b, ".upscale"@, ".mkv"@);
    assert(!".mkv"@.is_suffix_of(a));
    law_affixes_come_off(a, ".mkv"@);
    assert(without_suffix(name, ".mkv"@) == a);
    law_affixes_come_off(b, ".upscale"@);
    assert(without_suffix(a, ".upscale"@) == b);
    law_affixes_come_off(c, ".viewer"@);
    assert(without_suffix(b, ".viewer"@) == c);
    law_affixes_come_off(d, "_VD"@);
    assert(without_suffix(c, "_VD"@) == d);
    law_affixes_come_off(core, "EDIT_MASTER-"@);
}

/// The first dash of a text is the one behind what has none.
proof fn lemma_first_dash(kind: Seq<char>, rest: Seq<char>)
    requires
        !kind.contains('-'),
    ensures
        ({
            let stem = kind + "-"@ + rest;
            &&& find(stem, "-"@) == Some(kind.len() as int)
            &&& stem.len() == kind.len() + 1 + rest.len()
            &&& stem.take(kind.len() as int) == kind
            &&& stem.skip(kind.len() as int + 1) == rest
        }),
{
    let mark = "-"@;
    assert(mark.len() == 1 && mark[0] == '-') by {
        reveal_strlit("-");
    }
    let stem = kind + mark + rest;
    let n = kind.len() as int;
    assert(stem.take(n) =~= kind);
    assert(stem.skip(n + 1) =~= rest);
    assert(occurs_at(stem, mark, n)) by {
        assert(stem.subrange(n, n + 1) =~= mark);
    }
    lemma_find_from(stem, mark, 0);
    let found = find_from(stem, mark, 0);
    assert(found is Some);
    let dash = found->0;
    assert(stem[dash] == '-') by {
        assert(stem.subrange(dash, dash + 1)[0] == stem[dash]);
    }
    assert(dash <= n);
    assert(dash == n) by {
        if dash < n {
            assert(kind[dash] == stem[dash]);
            assert(kind.contains('-'));
        }
    }
}

/// What is before the first dash of a name is suggested as the kind, and all behind it as the
/// title; where there is nothing before it or nothing behind it, the name stays.
pub proof fn law_first_dash_parts_kind_and_title(
    p: Seq<u8>,
    name: Seq<char>,
    kind: Seq<char>,
    rest: Seq<char>,
)
    requires
        file_name_text(p) == Some(name),
        bare_stem(name) == kind + "-"@ + rest,
        !kind.contains('-'),
    ensures
        kind.len() > 0 && rest.len() > 0 ==> suggested_name(p) == title(kind) + " \u{2014} "@
            + title(rest) + ".mkv"@,
        kind.len() == 0 || rest.len() == 0 ==> suggested_name(p) == name,
{
    lemma_first_dash(kind, rest);
}

/// The upscale of a video is named after it: `clip.mkv` and `clip.viewer.mkv` both become
/// `clip.upscale.mkv` in the viewer directory, whatever directory the video is in, and each works
/// in the directory of its own stem.
pub proof fn law_upscale_is_named_after_its_input(
    dir: Seq<u8>,
    clip: Seq<char>,
    viewer_dir: Seq<u8>,
    work_root: Seq<u8>,
)
    requires
        clip.len() > 0,
        !clip.contains('/'),
        !".viewer"@.is_suffix_of(clip),
    ensures
        ({
            let plain = under(dir, clip + "."@ + "mkv"@);
            let viewer = under(dir, clip + ".viewer"@ + "."@ + "mkv"@);
            let output = under(viewer_dir, clip + ".upscale.mkv"@);
            &&& output_of(plain, viewer_dir) == output
            &&& output_of(viewer, viewer_dir) == output
            &&& work_dir(plain, work_root) == under(work_root, clip)
            &&& work_dir(viewer, work_root) == under(work_root, clip + ".viewer"@)
        }),
{
    reveal_strlit("mkv");
    reveal_strlit(".viewer");
    assert forall|i: int| 0 <= i < "mkv"@.len() implies "mkv"@[i] != '/' && "mkv"@[i] != '.' by {}
    let long = clip + ".viewer"@;
    assert forall|i: int| 0 <= i < long.len() implies long[i] != '/' by {
        if i < clip.len() {
            assert(long[i] == clip[i]);
        } else {
            assert(long[i] == ".viewer"@[i - clip.len()]);
        }
    }
    law_named_file(dir, clip, "mkv"@, "mkv"@);
    law_named_file(dir, long, "mkv"@, "mkv"@);
    law_affixes_come_off(clip, ".viewer"@);
}

/// A name with no stem that is text is upscaled as `out`.
pub proof fn law_upscale_without_a_name(input: Seq<u8>, viewer_dir: Seq<u8>, work_root: Seq<u8>)
    requires
        file_stem_text(input) is None,
    ensures
        output_of(input, viewer_dir) == under(viewer_dir, "out.upscale.mkv"@),
        work_dir(input, work_root) == under(work_root, "out"@),
{
    reveal_strlit("out");
    reveal_strlit(".viewer");
    reveal_strlit(".upscale.mkv");
    reveal_strlit("out.upscale.mkv");
    law_affixes_come_off("out"@, ".viewer"@);
    assert("out"@ + ".upscale.mkv"@ =~= "out.upscale.mkv"@);
}

} // verus!
