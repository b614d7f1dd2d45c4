//! File paths as the bytes that the operating system sees.
use vstd::prelude::*;
use vstd::string::StrSliceExecFns;
use vstd::utf8::{decode_utf8, encode_scalar, encode_utf8, valid_utf8};

verus! {

/// A file path: any bytes, with `/` between the components.
#[derive(Debug)]
pub struct FilePath {
    pub bytes: Vec<u8>,
}

impl View for FilePath {
    type V = Seq<u8>;

    open spec fn view(&self) -> Seq<u8> {
        self.bytes@
    }
}

// ---------------------------------------------------------------------------
// What the operations on paths mean
// ---------------------------------------------------------------------------
/// The separator of components.
pub const SLASH: u8 = 0x2f;

/// The dot, which parts a name from its extension.
pub const DOT: u8 = 0x2e;

/// `base` extended by `rel`. An absolute `rel` replaces `base`.
pub open spec fn joined(base: Seq<u8>, rel: Seq<u8>) -> Seq<u8> {
    if rel.len() > 0 && rel[0] == SLASH {
        rel
    } else if base.len() == 0 || base.last() == SLASH {
        base + rel
    } else {
        base.push(SLASH) + rel
    }
}

/// `p` without the separators and the `.` components that it ends with. A lone `/` and a lone
/// `.` stay.
pub open spec fn tidy(p: Seq<u8>) -> Seq<u8>
    decreases p.len(),
{
    if p.len() > 1 && (p.last() == SLASH || (p.last() == DOT && p[p.len() - 2] == SLASH)) {
        tidy(p.drop_last())
    } else {
        p
    }
}

/// Where what follows the last separator of `p` starts.
pub open spec fn base_start(p: Seq<u8>) -> int
    decreases p.len(),
{
    if p.len() == 0 || p.last() == SLASH {
        p.len() as int
    } else {
        base_start(p.drop_last())
    }
}

/// `n` names a directory entry: it is neither empty nor `.` nor `..`.
pub open spec fn names_entry(n: Seq<u8>) -> bool {
    n.len() > 0 && n != seq![DOT] && n != seq![DOT, DOT]
}

/// The last component of `p`, where it is a name.
pub open spec fn file_name(p: Seq<u8>) -> Option<Seq<u8>> {
    let t = tidy(p);
    let n = t.skip(base_start(t));
    if names_entry(n) {
        Some(n)
    } else {
        None
    }
}

/// `p` without its last component. The root and the empty path have none to drop.
pub open spec fn parent(p: Seq<u8>) -> Option<Seq<u8>> {
    let t = tidy(p);
    if t.len() == 0 || t == seq![SLASH] {
        None
    } else {
        Some(tidy(t.take(base_start(t))))
    }
}

/// Where the last dot of a name stands; 0 where there is none, or only a leading one.
pub open spec fn dot_at(n: Seq<u8>) -> int
    decreases n.len(),
{
    if n.len() == 0 {
        0
    } else if n.last() == DOT {
        n.len() - 1
    } else {
        dot_at(n.drop_last())
    }
}

/// The extension of a name: what follows its last dot, unless the name starts with that dot.
pub open spec fn name_extension(n: Seq<u8>) -> Option<Seq<u8>> {
    if dot_at(n) > 0 {
        Some(n.skip(dot_at(n) + 1))
    } else {
        None
    }
}

/// A name without its extension.
pub open spec fn name_stem(n: Seq<u8>) -> Seq<u8> {
    if dot_at(n) > 0 {
        n.take(dot_at(n))
    } else {
        n
    }
}

/// The extension of the file that `p` names.
pub open spec fn extension(p: Seq<u8>) -> Option<Seq<u8>> {
    match file_name(p) {
        Some(n) => name_extension(n),
        None => None,
    }
}

/// The name of the file that `p` names, without its extension.
pub open spec fn file_stem(p: Seq<u8>) -> Option<Seq<u8>> {
    match file_name(p) {
        Some(n) => Some(name_stem(n)),
        None => None,
    }
}

/// The extension of `p` is the text `ext`.
pub open spec fn has_extension(p: Seq<u8>, ext: Seq<char>) -> bool {
    extension(p) == Some(encode_utf8(ext))
}

/// The text that `b` holds, where it is UTF-8.
pub open spec fn utf8_text(b: Seq<u8>) -> Option<Seq<char>> {
    if valid_utf8(b) {
        Some(decode_utf8(b))
    } else {
        None
    }
}

/// The file name of `p` as text, where there is one and it is UTF-8.
pub open spec fn file_name_text(p: Seq<u8>) -> Option<Seq<char>> {
    match file_name(p) {
        Some(n) => utf8_text(n),
        None => None,
    }
}

/// The file stem of `p` as text, where there is one and it is UTF-8.
pub open spec fn file_stem_text(p: Seq<u8>) -> Option<Seq<char>> {
    match file_stem(p) {
        Some(n) => utf8_text(n),
        None => None,
    }
}

/// `a` and `b` have the same components.
pub open spec fn same_components(a: Seq<u8>, b: Seq<u8>) -> bool
    decreases a.len(),
{
    let s = tidy(a);
    let t = tidy(b);
    if s.len() == 0 || s == seq![SLASH] || t.len() == 0 || t == seq![SLASH] {
        s == t
    } else {
        proof {
            lemma_component_shorter(a);
        }
        &&& s.skip(base_start(s)) == t.skip(base_start(t))
        &&& same_components(s.take(base_start(s)), t.take(base_start(t)))
    }
}

/// `b` comes strictly after `a` in the order of bytes.
pub open spec fn bytes_before(a: Seq<u8>, b: Seq<u8>) -> bool
    decreases a.len(),
{
    if b.len() == 0 {
        false
    } else if a.len() == 0 {
        true
    } else if a[0] == b[0] {
        bytes_before(a.skip(1), b.skip(1))
    } else {
        a[0] < b[0]
    }
}

proof fn lemma_tidy(p: Seq<u8>)
    ensures
        tidy(p).len() <= p.len(),
        tidy(p).len() > 1 ==> tidy(p).last() != SLASH,
    decreases p.len(),
{
    if p.len() > 1 && (p.last() == SLASH || (p.last() == DOT && p[p.len() - 2] == SLASH)) {
        lemma_tidy(p.drop_last());
    }
}

proof fn lemma_base_start(p: Seq<u8>)
    ensures
        0 <= base_start(p) <= p.len(),
        base_start(p) == p.len() ==> p.len() == 0 || p.last() == SLASH,
    decreases p.len(),
{
    if p.len() > 0 && p.last() != SLASH {
        lemma_base_start(p.drop_last());
    }
}

/// Dropping a component makes a path shorter.
pub proof fn lemma_component_shorter(p: Seq<u8>)
    ensures
        tidy(p).len() == 0 || tidy(p) == seq![SLASH] || 0 <= base_start(tidy(p)) < tidy(p).len()
            <= p.len(),
{
    lemma_tidy(p);
    let t = tidy(p);
    lemma_base_start(t);
    if t.len() > 0 && base_start(t) == t.len() {
        assert(t =~= seq![SLASH]);
    }
}

/// What `String::from_utf8_lossy` makes of bytes.
pub uninterp spec fn utf8_lossy(b: Seq<u8>) -> Seq<char>;

/// A path as text: what it spells where it is UTF-8, and with characters in place of the bytes
/// that are not where it is not.
pub open spec fn path_text(p: Seq<u8>) -> Seq<char> {
    if valid_utf8(p) {
        decode_utf8(p)
    } else {
        utf8_lossy(p)
    }
}

// ---------------------------------------------------------------------------
// Bytes and text
// ---------------------------------------------------------------------------
/// Calls `std::str::from_utf8`: the text that the bytes hold where they are UTF-8, and none
/// where they are not.
#[verifier::external_body]
pub(crate) fn utf8_of(bytes: &[u8]) -> (r: Option<String>)
    ensures
        match r {
            Some(t) => utf8_text(bytes@) == Some(t@),
            None => utf8_text(bytes@) is None,
        },
{
    std::str::from_utf8(bytes).ok().map(|s| s.to_owned())
}

/// Calls `String::from_utf8_lossy`: a function of the bytes alone, which is their text where
/// they are UTF-8. Where they are not, which characters stand for the invalid bytes is only
/// named.
#[verifier::external_body]
pub(crate) fn lossy_of(bytes: &[u8]) -> (r: String)
    ensures
        r@ == utf8_lossy(bytes@),
        valid_utf8(bytes@) ==> r@ == decode_utf8(bytes@),
{
    String::from_utf8_lossy(bytes).into_owned()
}

/// Whether two runs of bytes are the same.
pub fn same_bytes(a: &Vec<u8>, b: &Vec<u8>) -> (r: bool)
    ensures
        r == (a@ == b@),
{
    if a.len() != b.len() {
        return false;
    }
    let mut i: usize = 0;
    while i < a.len()
        invariant
            a@.len() == b@.len(),
            i <= a@.len(),
            forall|j: int| 0 <= j < i ==> a@[j] == b@[j],
        decreases a@.len() - i,
    {
        if a[i] != b[i] {
            return false;
        }
        i = i + 1;
    }
    assert(a@ =~= b@);
    true
}

/// `v[from..to]`.
pub fn byte_range(v: &Vec<u8>, from: usize, to: usize) -> (r: Vec<u8>)
    requires
        from <= to <= v@.len(),
    ensures
        r@ == v@.subrange(from as int, to as int),
{
    let mut r: Vec<u8> = Vec::new();
    let mut i: usize = from;
    while i < to
        invariant
            from <= i <= to <= v.len(),
            r@ == v@.subrange(from as int, i as int),
        decreases to - i,
    {
        r.push(v[i]);
        assert(v@.subrange(from as int, i + 1) =~= v@.subrange(from as int, i as int).push(
            v@[i as int],
        ));
        i = i + 1;
    }
    r
}

/// Whether `a` comes strictly before `b` in the order of bytes.
pub fn bytes_come_before(a: &Vec<u8>, b: &Vec<u8>) -> (r: bool)
    ensures
        r == bytes_before(a@, b@),
{
    let mut i: usize = 0;
    assert(a@.skip(0) =~= a@);
    assert(b@.skip(0) =~= b@);
    while i < a.len() && i < b.len()
        invariant
            i <= a@.len(),
            i <= b@.len(),
            bytes_before(a@, b@) == bytes_before(a@.skip(i as int), b@.skip(i as int)),
        decreases a@.len() - i,
    {
        assert(a@.skip(i as int)[0] == a@[i as int]);
        assert(b@.skip(i as int)[0] == b@[i as int]);
        if a[i] != b[i] {
            return a[i] < b[i];
        }
        assert(a@.skip(i as int).skip(1) =~= a@.skip(i + 1));
        assert(b@.skip(i as int).skip(1) =~= b@.skip(i + 1));
        i = i + 1;
    }
    i < b.len()
}

/// The length of `tidy(v[..end])`.
fn tidy_len(v: &Vec<u8>, end: usize) -> (n: usize)
    requires
        end <= v@.len(),
    ensures
        n <= end,
        v@.take(n as int) == tidy(v@.take(end as int)),
{
    let mut n: usize = end;
    while n > 1 && (v[n - 1] == SLASH || (v[n - 1] == DOT && v[n - 2] == SLASH))
        invariant
            n <= end <= v@.len(),
            tidy(v@.take(n as int)) == tidy(v@.take(end as int)),
        decreases n,
    {
        assert(v@.take(n as int).drop_last() =~= v@.take(n - 1));
        n = n - 1;
    }
    n
}

/// `base_start(v[..end])`.
fn base_at(v: &Vec<u8>, end: usize) -> (k: usize)
    requires
        end <= v@.len(),
    ensures
        k <= end,
        k == base_start(v@.take(end as int)),
{
    let mut k: usize = end;
    while k > 0 && v[k - 1] != SLASH
        invariant
            k <= end <= v@.len(),
            base_start(v@.take(k as int)) == base_start(v@.take(end as int)),
        decreases k,
    {
        assert(v@.take(k as int).drop_last() =~= v@.take(k - 1));
        k = k - 1;
    }
    k
}

/// `dot_at(v)`.
fn last_dot(v: &Vec<u8>) -> (k: usize)
    ensures
        k == dot_at(v@),
        k > 0 ==> k < v@.len(),
{
    let mut n: usize = v.len();
    assert(v@.take(n as int) =~= v@);
    while n > 0
        invariant
            n <= v@.len(),
            dot_at(v@.take(n as int)) == dot_at(v@),
        decreases n,
    {
        assert(v@.take(n as int).drop_last() =~= v@.take(n - 1));
        if v[n - 1] == DOT {
            return n - 1;
        }
        n = n - 1;
    }
    0
}

// ---------------------------------------------------------------------------
// Paths
// ---------------------------------------------------------------------------
impl Clone for FilePath {
    fn clone(&self) -> (r: Self)
        ensures
            r@ == self@,
    {
        let bytes = byte_range(&self.bytes, 0, self.bytes.len());
        assert(self@.subrange(0, self@.len() as int) =~= self@);
        FilePath { bytes }
    }
}

impl FilePath {
    /// The path that `s` spells.
    pub fn from_text(s: &str) -> (r: FilePath)
        ensures
            r@ == encode_utf8(s@),
    {
        FilePath { bytes: s.as_bytes_vec() }
    }

    /// The path as text, where it is UTF-8.
    pub fn text(&self) -> (r: Option<String>)
        ensures
            match r {
                Some(t) => utf8_text(self@) == Some(t@),
                None => utf8_text(self@) is None,
            },
    {
        utf8_of(self.bytes.as_slice())
    }

    /// The path as text, with replacement characters where it is not UTF-8.
    pub fn lossy_text(&self) -> (r: String)
        ensures
            r@ == path_text(self@),
    {
        lossy_of(self.bytes.as_slice())
    }

    /// This path extended by `rel`. An absolute `rel` replaces it.
    pub fn join_path(&self, rel: &FilePath) -> (r: FilePath)
        ensures
            r@ == joined(self@, rel@),
    {
        let n: usize = self.bytes.len();
        if rel.bytes.len() > 0 && rel.bytes[0] == SLASH {
            return rel.clone();
        }
        let mut out = self.clone();
        if n > 0 && self.bytes[n - 1] != SLASH {
            out.bytes.push(SLASH);
        }
        let mut tail = rel.clone();
        out.bytes.append(&mut tail.bytes);
        out
    }

    /// This path extended by the text `rel`. An absolute `rel` replaces it.
    pub fn join(&self, rel: &str) -> (r: FilePath)
        ensures
            r@ == joined(self@, encode_utf8(rel@)),
    {
        self.join_path(&FilePath::from_text(rel))
    }

    /// The last component, where it is a name.
    pub fn file_name(&self) -> (r: Option<Vec<u8>>)
        ensures
            match r {
                Some(n) => file_name(self@) == Some(n@),
                None => file_name(self@) is None,
            },
    {
        let v = &self.bytes;
        assert(v@.take(v@.len() as int) =~= v@);
        let n: usize = tidy_len(v, v.len());
        let k: usize = base_at(v, n);
        assert(v@.take(n as int).skip(k as int) =~= v@.subrange(k as int, n as int));
        let name = byte_range(v, k, n);
        let plain = name.len() > 0 && !(name.len() == 1 && name[0] == DOT) && !(name.len() == 2
            && name[0] == DOT && name[1] == DOT);
        assert(plain == names_entry(name@)) by {
            if name@.len() == 1 && name@[0] == DOT {
                assert(name@ =~= seq![DOT]);
            }
            if name@.len() == 2 && name@[0] == DOT && name@[1] == DOT {
                assert(name@ =~= seq![DOT, DOT]);
            }
        }
        if plain {
            Some(name)
        } else {
            None
        }
    }

    /// The path without its last component.
    pub fn parent(&self) -> (r: Option<FilePath>)
        ensures
            match r {
                Some(p) => parent(self@) == Some(p@),
                None => parent(self@) is None,
            },
    {
        let v = &self.bytes;
        assert(v@.take(v@.len() as int) =~= v@);
        let n: usize = tidy_len(v, v.len());
        let ghost t = tidy(v@);
        if n == 0 {
            return None;
        }
        if n == 1 && v[0] == SLASH {
            assert(t =~= seq![SLASH]);
            return None;
        }
        assert(t != seq![SLASH]) by {
            if t == seq![SLASH] {
                assert(t.len() == 1 && t[0] == SLASH);
                assert(v@[0] == t[0]);
            }
        }
        let k: usize = base_at(v, n);
        assert(t.take(k as int) =~= v@.take(k as int));
        let m: usize = tidy_len(v, k);
        let bytes = byte_range(v, 0, m);
        assert(bytes@ =~= v@.take(m as int));
        Some(FilePath { bytes })
    }

    /// The extension of the file name.
    pub fn extension(&self) -> (r: Option<Vec<u8>>)
        ensures
            match r {
                Some(e) => extension(self@) == Some(e@),
                None => extension(self@) is None,
            },
    {
        match self.file_name() {
            Some(n) => {
                let len: usize = n.len();
                let k: usize = last_dot(&n);
                if k > 0 {
                    let e = byte_range(&n, k + 1, len);
                    assert(e@ =~= n@.skip(k + 1));
                    Some(e)
                } else {
                    None
                }
            },
            None => None,
        }
    }

    /// Whether the extension is the text `ext`.
    pub fn has_extension(&self, ext: &str) -> (r: bool)
        ensures
            r == has_extension(self@, ext@),
    {
        match self.extension() {
            Some(e) => same_bytes(&e, &ext.as_bytes_vec()),
            None => false,
        }
    }

    /// The file name without its extension.
    pub fn file_stem(&self) -> (r: Option<Vec<u8>>)
        ensures
            match r {
                Some(e) => file_stem(self@) == Some(e@),
                None => file_stem(self@) is None,
            },
    {
        match self.file_name() {
            Some(n) => {
                let k: usize = last_dot(&n);
                if k > 0 {
                    let e = byte_range(&n, 0, k);
                    assert(e@ =~= n@.take(k as int));
                    Some(e)
                } else {
                    Some(n)
                }
            },
            None => None,
        }
    }

    /// The file name as text, where there is one and it is UTF-8.
    pub fn file_name_text(&self) -> (r: Option<String>)
        ensures
            match r {
                Some(t) => file_name_text(self@) == Some(t@),
                None => file_name_text(self@) is None,
            },
    {
        match self.file_name() {
            Some(n) => utf8_of(n.as_slice()),
            None => None,
        }
    }

    /// The file stem as text, where there is one and it is UTF-8.
    pub fn file_stem_text(&self) -> (r: Option<String>)
        ensures
            match r {
                Some(t) => file_stem_text(self@) == Some(t@),
                None => file_stem_text(self@) is None,
            },
    {
        match self.file_stem() {
            Some(n) => utf8_of(n.as_slice()),
            None => None,
        }
    }

    /// Whether the two paths have the same components.
    pub fn same_path(&self, other: &FilePath) -> (r: bool)
        ensures
            r == same_components(self@, other@),
        decreases self@.len(),
    {
        let v = &self.bytes;
        let w = &other.bytes;
        assert(v@.take(v@.len() as int) =~= v@);
        assert(w@.take(w@.len() as int) =~= w@);
        let n: usize = tidy_len(v, v.len());
        let m: usize = tidy_len(w, w.len());
        let s = byte_range(v, 0, n);
        let t = byte_range(w, 0, m);
        assert(s@ =~= tidy(v@));
        assert(t@ =~= tidy(w@));
        let s_end = n == 0 || (n == 1 && s[0] == SLASH);
        let t_end = m == 0 || (m == 1 && t[0] == SLASH);
        assert(s_end == (s@.len() == 0 || s@ == seq![SLASH])) by {
            if n == 1 && s@[0] == SLASH {
                assert(s@ =~= seq![SLASH]);
            }
        }
        assert(t_end == (t@.len() == 0 || t@ == seq![SLASH])) by {
            if m == 1 && t@[0] == SLASH {
                assert(t@ =~= seq![SLASH]);
            }
        }
        if s_end || t_end {
            return same_bytes(&s, &t);
        }
        assert(s@.take(n as int) =~= s@);
        assert(t@.take(m as int) =~= t@);
        let j: usize = base_at(&s, n);
        let k: usize = base_at(&t, m);
        let a = byte_range(&s, j, n);
        let b = byte_range(&t, k, m);
        assert(a@ =~= s@.skip(j as int));
        assert(b@ =~= t@.skip(k as int));
        proof {
            lemma_component_shorter(v@);
        }
        if !same_bytes(&a, &b) {
            return false;
        }
        let x = FilePath { bytes: byte_range(&s, 0, j) };
        let y = FilePath { bytes: byte_range(&t, 0, k) };
        assert(x@ =~= s@.take(j as int));
        assert(y@ =~= t@.take(k as int));
        x.same_path(&y)
    }
}

// ---------------------------------------------------------------------------
// Laws
// ---------------------------------------------------------------------------
/// `n` is the name of a directory entry, without a separator in it.
pub open spec fn plain_name(n: Seq<u8>) -> bool {
    names_entry(n) && !n.contains(SLASH)
}

proof fn lemma_base_start_of_suffix(p: Seq<u8>, k: int)
    requires
        0 <= k <= p.len(),
        k == 0 || p[k - 1] == SLASH,
        forall|i: int| k <= i < p.len() ==> p[i] != SLASH,
    ensures
        base_start(p) == k,
    decreases p.len(),
{
    if k < p.len() {
        lemma_base_start_of_suffix(p.drop_last(), k);
    }
}

/// The last component of a directory extended by an entry's name is that name, and what is left
/// without it is the directory.
pub proof fn law_entry_of_directory(dir: Seq<u8>, name: Seq<u8>)
    requires
        plain_name(name),
    ensures
        file_name(joined(dir, name)) == Some(name),
        parent(joined(dir, name)) == Some(tidy(dir)),
{
    assert forall|i: int| 0 <= i < name.len() implies name[i] != SLASH by {
        assert(name.contains(name[i]));
    }
    let p = joined(dir, name);
    let k = p.len() - name.len();
    assert(p.skip(k) =~= name);
    assert(p.last() == name.last());
    assert(tidy(p) == p) by {
        if p.len() > 1 && p.last() == DOT && p[p.len() - 2] == SLASH {
            if name.len() == 1 {
                assert(name =~= seq![DOT]);
            } else {
                assert(p[p.len() - 2] == name[name.len() - 2]);
            }
        }
    }
    lemma_base_start_of_suffix(p, k);
    if p == seq![SLASH] {
        assert(p.last() == SLASH);
    }
    if dir.len() == 0 || dir.last() == SLASH {
        assert(p.take(k) =~= dir);
    } else {
        assert(p.take(k) =~= dir.push(SLASH));
        assert(dir.push(SLASH).drop_last() =~= dir);
    }
}

/// A path has the same components as itself.
pub proof fn law_same_components_reflexive(p: Seq<u8>)
    ensures
        same_components(p, p),
    decreases p.len(),
{
    lemma_component_shorter(p);
    let t = tidy(p);
    if !(t.len() == 0 || t == seq![SLASH]) {
        law_same_components_reflexive(t.take(base_start(t)));
    }
}

proof fn lemma_char_bytes(c: char)
    requires
        c != '/',
    ensures
        !encode_scalar(c as u32).contains(SLASH),
{
    let v = c as u32;
    assert(v <= 0x7f && v != 0x2f ==> (v & 0x7f) as u8 != 0x2fu8) by (bit_vector);
    assert(0xC0u8 | ((v >> 6) & 0x1F) as u8 != 0x2fu8) by (bit_vector);
    assert(0xE0u8 | ((v >> 12) & 0x0F) as u8 != 0x2fu8) by (bit_vector);
    assert(0xF0u8 | ((v >> 18) & 0x7) as u8 != 0x2fu8) by (bit_vector);
    assert(0x80u8 | (v & 0x3F) as u8 != 0x2fu8) by (bit_vector);
    assert(0x80u8 | ((v >> 6) & 0x3F) as u8 != 0x2fu8) by (bit_vector);
    assert(0x80u8 | ((v >> 12) & 0x3F) as u8 != 0x2fu8) by (bit_vector);
}

/// A text without a slash is a path of one component: no byte of its encoding is a slash.
pub proof fn law_no_slash_in_name(s: Seq<char>)
    requires
        !s.contains('/'),
    ensures
        !encode_utf8(s).contains(SLASH),
    decreases s.len(),
{
    if s.len() > 0 {
        let first = encode_scalar(s[0] as u32);
        let rest = s.drop_first();
        assert(s[0] != '/');
        assert(!rest.contains('/')) by {
            assert forall|i: int| 0 <= i < rest.len() implies rest[i] != '/' by {
                assert(s[i + 1] != '/');
            }
        }
        law_no_slash_in_name(rest);
        lemma_char_bytes(s[0]);
        let whole = first + encode_utf8(rest);
        assert forall|i: int| 0 <= i < whole.len() implies whole[i] != SLASH by {
            if i < first.len() {
                assert(whole[i] == first[i]);
            } else {
                assert(whole[i] == encode_utf8(rest)[i - first.len()]);
            }
        }
    }
}

proof fn lemma_base_has_no_slash(p: Seq<u8>)
    ensures
        0 <= base_start(p) <= p.len(),
        forall|i: int| base_start(p) <= i < p.len() ==> p[i] != SLASH,
    decreases p.len(),
{
    if p.len() > 0 && p.last() != SLASH {
        lemma_base_has_no_slash(p.drop_last());
        assert forall|i: int| base_start(p) <= i < p.len() implies p[i] != SLASH by {
            if i < p.len() - 1 {
                assert(p[i] == p.drop_last()[i]);
            }
        }
    }
}

pub proof fn lemma_file_name_slash_free(p: Seq<u8>)
    ensures
        file_name(p) matches Some(n) ==> n.len() > 0 && !n.contains(SLASH),
{
    let t = tidy(p);
    lemma_base_has_no_slash(t);
    let n = t.skip(base_start(t));
    assert forall|i: int| 0 <= i < n.len() implies n[i] != SLASH by {
        assert(n[i] == t[base_start(t) + i]);
    }
}

pub proof fn lemma_slash_encoded(s: Seq<char>)
    requires
        !encode_utf8(s).contains(SLASH),
    ensures
        !s.contains('/'),
    decreases s.len(),
{
    if s.len() > 0 {
        let first = encode_scalar(s[0] as u32);
        let rest = encode_utf8(s.drop_first());
        let whole = encode_utf8(s);
        assert(whole == first + rest);
        assert(!rest.contains(SLASH)) by {
            assert forall|i: int| 0 <= i < rest.len() implies rest[i] != SLASH by {
                assert(rest[i] == whole[first.len() + i]);
            }
        }
        lemma_slash_encoded(s.drop_first());
        assert(s[0] != '/') by {
            if s[0] == '/' {
                assert(0x2fu32 & 0x7f == 0x2f) by (bit_vector);
                assert(first =~= seq![SLASH]);
                assert(whole[0] == SLASH);
            }
        }
        assert forall|i: int| 0 <= i < s.len() implies s[i] != '/' by {
            if i > 0 {
                assert(s[i] == s.drop_first()[i - 1]);
            }
        }
    }
}

pub proof fn lemma_dot_bounds(n: Seq<u8>)
    ensures
        dot_at(n) <= n.len(),
    decreases n.len(),
{
    if n.len() > 0 {
        lemma_dot_bounds(n.drop_last());
    }
}

pub proof fn lemma_encoded_len(s: Seq<char>)
    ensures
        encode_utf8(s).len() >= s.len(),
    decreases s.len(),
{
    if s.len() > 0 {
        lemma_encoded_len(s.drop_first());
    }
}

/// A relative path goes behind the directory with one separator between them; an absolute path
/// stands for itself.
pub proof fn law_join(dir: Seq<u8>, rel: Seq<u8>)
    ensures
        rel.len() > 0 && rel[0] == SLASH ==> joined(dir, rel) == rel,
        (rel.len() == 0 || rel[0] != SLASH) && dir.len() > 0 && dir.last() != SLASH ==> joined(
            dir,
            rel,
        ) == dir + seq![SLASH] + rel,
        (rel.len() == 0 || rel[0] != SLASH) && dir.len() > 0 && dir.last() == SLASH ==> joined(
            dir,
            rel,
        ) == dir + rel,
        dir.len() == 0 ==> joined(dir, rel) == rel,
{
    assert(dir.push(SLASH) + rel =~= dir + seq![SLASH] + rel);
    if dir.len() == 0 {
        assert(dir + rel =~= rel);
    }
}

proof fn lemma_dot_at(a: Seq<u8>, b: Seq<u8>)
    requires
        !b.contains(DOT),
    ensures
        dot_at(a.push(DOT) + b) == a.len(),
    decreases b.len(),
{
    let n = a.push(DOT) + b;
    if b.len() == 0 {
        assert(n =~= a.push(DOT));
    } else {
        let t = b.drop_last();
        assert(b[b.len() - 1] != DOT);
        assert forall|i: int| 0 <= i < t.len() implies t[i] != DOT by {
            assert(b[i] != DOT);
        }
        lemma_dot_at(a, t);
        assert(n.last() == b.last());
        assert(n.drop_last() =~= a.push(DOT) + t);
    }
}

proof fn lemma_no_dot(b: Seq<u8>)
    requires
        !b.contains(DOT),
    ensures
        dot_at(b) == 0,
    decreases b.len(),
{
    if b.len() > 0 {
        assert(b[b.len() - 1] != DOT);
        assert forall|i: int| 0 <= i < b.len() - 1 implies b.drop_last()[i] != DOT by {
            assert(b[i] != DOT);
        }
        lemma_no_dot(b.drop_last());
    }
}

/// The last dot of a name parts the stem from the extension. A name without a dot, or with none
/// but a leading one, has no extension and is its own stem.
pub proof fn law_last_dot_parts_a_name(stem: Seq<u8>, ext: Seq<u8>)
    requires
        !ext.contains(DOT),
    ensures
        stem.len() > 0 ==> name_extension(stem + seq![DOT] + ext) == Some(ext) && name_stem(
            stem + seq![DOT] + ext,
        ) == stem,
        name_extension(ext) is None && name_stem(ext) == ext,
        name_extension(seq![DOT] + ext) is None && name_stem(seq![DOT] + ext) == seq![DOT] + ext,
{
    lemma_dot_at(stem, ext);
    let n = stem.push(DOT) + ext;
    assert(stem + seq![DOT] + ext =~= n);
    assert(n.skip((stem.len() + 1) as int) =~= ext);
    assert(n.take(stem.len() as int) =~= stem);
    lemma_no_dot(ext);
    let empty = Seq::<u8>::empty();
    lemma_dot_at(empty, ext);
    assert(empty.push(DOT) + ext =~= seq![DOT] + ext);
}

/// The encoding of texts one behind the other is their encodings one behind the other.
pub proof fn law_encoding_joins(a: Seq<char>, b: Seq<char>)
    ensures
        encode_utf8(a + b) == encode_utf8(a) + encode_utf8(b),
    decreases a.len(),
{
    if a.len() == 0 {
        assert(a + b =~= b);
        assert(encode_utf8(a) + encode_utf8(b) =~= encode_utf8(b));
    } else {
        assert((a + b).drop_first() =~= a.drop_first() + b);
        law_encoding_joins(a.drop_first(), b);
        assert(encode_utf8(a + b) =~= encode_utf8(a) + encode_utf8(b));
    }
}

/// Two texts of the same encoding are the same.
pub proof fn law_encoding_tells_apart(a: Seq<char>, b: Seq<char>)
    ensures
        encode_utf8(a) == encode_utf8(b) ==> a == b,
{
    vstd::utf8::encode_utf8_decode_utf8(a);
    vstd::utf8::encode_utf8_decode_utf8(b);
}

proof fn lemma_char_dotless(c: char)
    requires
        c != '.',
    ensures
        !encode_scalar(c as u32).contains(DOT),
{
    let v = c as u32;
    assert(v <= 0x7f && v != 0x2e ==> (v & 0x7f) as u8 != 0x2eu8) by (bit_vector);
    assert(0xC0u8 | ((v >> 6) & 0x1F) as u8 != 0x2eu8) by (bit_vector);
    assert(0xE0u8 | ((v >> 12) & 0x0F) as u8 != 0x2eu8) by (bit_vector);
    assert(0xF0u8 | ((v >> 18) & 0x7) as u8 != 0x2eu8) by (bit_vector);
    assert(0x80u8 | (v & 0x3F) as u8 != 0x2eu8) by (bit_vector);
    assert(0x80u8 | ((v >> 6) & 0x3F) as u8 != 0x2eu8) by (bit_vector);
    assert(0x80u8 | ((v >> 12) & 0x3F) as u8 != 0x2eu8) by (bit_vector);
}

proof fn lemma_text_dotless(s: Seq<char>)
    requires
        !s.contains('.'),
    ensures
        !encode_utf8(s).contains(DOT),
    decreases s.len(),
{
    if s.len() > 0 {
        let first = encode_scalar(s[0] as u32);
        let rest = s.drop_first();
        assert(s[0] != '.');
        assert forall|i: int| 0 <= i < rest.len() implies rest[i] != '.' by {
            assert(s[i + 1] != '.');
        }
        lemma_text_dotless(rest);
        lemma_char_dotless(s[0]);
        let whole = first + encode_utf8(rest);
        assert forall|i: int| 0 <= i < whole.len() implies whole[i] != DOT by {
            if i < first.len() {
                assert(whole[i] == first[i]);
            } else {
                assert(whole[i] == encode_utf8(rest)[i - first.len()]);
            }
        }
    }
}

proof fn lemma_encoded_dot()
    ensures
        encode_utf8("."@) == seq![DOT],
        encode_utf8(seq!['.']) == seq![DOT],
{
    reveal_strlit(".");
    assert("."@ =~= seq!['.']);
    reveal_with_fuel(encode_utf8, 2);
    assert(seq!['.'].drop_first() =~= Seq::<char>::empty());
    assert(0x2eu32 & 0x7f == 0x2e) by (bit_vector);
    assert(encode_utf8(seq!['.']) =~= seq![DOT]);
}

/// A file `stem.ext` of a directory, with a stem and an extension that has no dot, has that name,
/// that stem and that extension, and no other.
pub proof fn law_named_file(dir: Seq<u8>, stem: Seq<char>, ext: Seq<char>, other: Seq<char>)
    requires
        stem.len() > 0,
        ext.len() > 0,
        !stem.contains('/'),
        !ext.contains('/'),
        !ext.contains('.'),
    ensures
        ({
            let p = joined(dir, encode_utf8(stem + "."@ + ext));
            &&& file_name_text(p) == Some(stem + "."@ + ext)
            &&& file_stem_text(p) == Some(stem)
            &&& has_extension(p, other) <==> other == ext
            &&& parent(p) == Some(tidy(dir))
        }),
{
    reveal_strlit(".");
    let name = stem + "."@ + ext;
    let p = joined(dir, encode_utf8(name));
    assert forall|i: int| 0 <= i < name.len() implies name[i] != '/' by {
        if i < stem.len() {
            assert(name[i] == stem[i]);
        } else if i == stem.len() {
            assert(name[i] == '.');
        } else {
            assert(name[i] == ext[i - stem.len() - 1]);
        }
    }
    law_no_slash_in_name(name);
    lemma_encoded_len(name);
    law_entry_of_directory(dir, encode_utf8(name));
    law_encoding_joins(stem + "."@, ext);
    law_encoding_joins(stem, "."@);
    lemma_encoded_dot();
    lemma_text_dotless(ext);
    lemma_encoded_len(stem);
    law_last_dot_parts_a_name(encode_utf8(stem), encode_utf8(ext));
    vstd::utf8::encode_utf8_valid_utf8(name);
    vstd::utf8::encode_utf8_decode_utf8(name);
    vstd::utf8::encode_utf8_valid_utf8(stem);
    vstd::utf8::encode_utf8_decode_utf8(stem);
    law_encoding_tells_apart(other, ext);
}

/// A text that was made a path reads back as that text.
pub proof fn law_text_reads_back(s: Seq<char>)
    ensures
        path_text(encode_utf8(s)) == s,
        utf8_text(encode_utf8(s)) == Some(s),
{
    vstd::utf8::encode_utf8_valid_utf8(s);
    vstd::utf8::encode_utf8_decode_utf8(s);
}

/// Two byte strings are ordered by the first byte in which they differ, and one comes before
/// every longer one that begins with it.
pub proof fn law_first_byte_decides(common: Seq<u8>, a: u8, x: Seq<u8>, b: u8, y: Seq<u8>)
    ensures
        a < b ==> bytes_before(common.push(a) + x, common.push(b) + y),
        a > b ==> !bytes_before(common.push(a) + x, common.push(b) + y),
        bytes_before(common, common.push(b) + y),
        !bytes_before(common.push(b) + y, common),
        !bytes_before(common, common),
    decreases common.len(),
{
    let p = common.push(a) + x;
    let q = common.push(b) + y;
    if common.len() > 0 {
        let c = common.skip(1);
        law_first_byte_decides(c, a, x, b, y);
        assert(p.skip(1) =~= c.push(a) + x);
        assert(q.skip(1) =~= c.push(b) + y);
        assert(p[0] == common[0] && q[0] == common[0]);
    } else {
        assert(p[0] == a && q[0] == b);
    }
}

/// Two entries are the same file exactly where their names are the same and their directories
/// are.
pub proof fn law_same_entry(dir_a: Seq<u8>, a: Seq<u8>, dir_b: Seq<u8>, b: Seq<u8>)
    requires
        plain_name(a),
        plain_name(b),
    ensures
        same_components(joined(dir_a, a), joined(dir_b, b)) <==> a == b && same_components(
            dir_a,
            dir_b,
        ),
{
    lemma_entry_parts(dir_a, a);
    lemma_entry_parts(dir_b, b);
    let p = joined(dir_a, a);
    let q = joined(dir_b, b);
    let x = p.take(base_start(p));
    let y = q.take(base_start(q));
    lemma_same_by_tidy(x, dir_a, y, dir_b);
}

/// What an entry is made of, and that a separator at its end makes no difference to a directory.
proof fn lemma_entry_parts(dir: Seq<u8>, name: Seq<u8>)
    requires
        plain_name(name),
    ensures
        ({
            let p = joined(dir, name);
            &&& tidy(p) == p
            &&& p.len() > 0
            &&& p != seq![SLASH]
            &&& p.skip(base_start(p)) == name
            &&& tidy(p.take(base_start(p))) == tidy(dir)
        }),
{
    assert forall|i: int| 0 <= i < name.len() implies name[i] != SLASH by {
        assert(name.contains(name[i]));
    }
    let p = joined(dir, name);
    let k = p.len() - name.len();
    assert(p.skip(k) =~= name);
    assert(p.last() == name.last());
    assert(tidy(p) == p) by {
        if p.len() > 1 && p.last() == DOT && p[p.len() - 2] == SLASH {
            if name.len() == 1 {
                assert(name =~= seq![DOT]);
            } else {
                assert(p[p.len() - 2] == name[name.len() - 2]);
            }
        }
    }
    lemma_base_start_of_suffix(p, k);
    if dir.len() == 0 || dir.last() == SLASH {
        assert(p.take(k) =~= dir);
    } else {
        assert(p.take(k) =~= dir.push(SLASH));
        assert(dir.push(SLASH).drop_last() =~= dir);
    }
}

proof fn lemma_same_by_tidy(a: Seq<u8>, c: Seq<u8>, b: Seq<u8>, d: Seq<u8>)
    requires
        tidy(a) == tidy(c),
        tidy(b) == tidy(d),
    ensures
        same_components(a, b) == same_components(c, d),
{
}

} // verus!
