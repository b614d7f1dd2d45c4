//! Text as a sequence of characters: searching, splitting, trimming and casing.
use vstd::prelude::*;
use vstd::string::StrSliceExecFns;
use vstd::string::StringExecFns;

verus! {

// ---------------------------------------------------------------------------
// Characters and strings
// ---------------------------------------------------------------------------
/// `String::push` appends one character to the end of the string.
pub assume_specification[ String::push ](s: &mut String, c: char)
    ensures
        final(s)@ == old(s)@.push(c),
;

/// The contents of a list of strings.
pub open spec fn texts(v: Seq<String>) -> Seq<Seq<char>> {
    Seq::new(v.len(), |i: int| v[i]@)
}

/// The characters of `s`, in order.
pub fn chars_of(s: &str) -> (r: Vec<char>)
    ensures
        r@ == s@,
{
    let mut r: Vec<char> = Vec::new();
    for c in it: s.chars()
        invariant
            r@ == it.seq().take(it.index()),
            it.seq() == s@,
    {
        r.push(c);
        assert(it.seq().take(it.index() + 1) =~= it.seq().take(it.index()).push(
            it.seq()[it.index()],
        ));
    }
    assert(s@.take(s@.len() as int) =~= s@);
    r
}

/// The text made of `chars[from..to]`.
pub fn text_range(chars: &Vec<char>, from: usize, to: usize) -> (r: String)
    requires
        from <= to <= chars@.len(),
    ensures
        r@ == chars@.subrange(from as int, to as int),
{
    let mut r = String::new();
    let mut i: usize = from;
    while i < to
        invariant
            from <= i <= to <= chars.len(),
            r@ == chars@.subrange(from as int, i as int),
        decreases to - i,
    {
        r.push(chars[i]);
        assert(chars@.subrange(from as int, i + 1) =~= chars@.subrange(from as int, i as int).push(
            chars@[i as int],
        ));
        i = i + 1;
    }
    r
}

/// Whether two texts are the same.
pub fn same_text(a: &str, b: &str) -> (r: bool)
    ensures
        r == (a@ == b@),
{
    let x = chars_of(a);
    let y = chars_of(b);
    if x.len() != y.len() {
        return false;
    }
    let mut i: usize = 0;
    while i < x.len()
        invariant
            x@ == a@,
            y@ == b@,
            x@.len() == y@.len(),
            i <= x@.len(),
            forall|j: int| 0 <= j < i ==> x@[j] == y@[j],
        decreases x@.len() - i,
    {
        if x[i] != y[i] {
            return false;
        }
        i = i + 1;
    }
    assert(a@ =~= b@);
    true
}

/// Whether two optional texts are the same.
pub fn same_opt_text(a: Option<&str>, b: Option<&str>) -> (r: bool)
    ensures
        r == match (a, b) {
            (Some(x), Some(y)) => x@ == y@,
            (None, None) => true,
            _ => false,
        },
{
    match (a, b) {
        (Some(x), Some(y)) => same_text(x, y),
        (None, None) => true,
        _ => false,
    }
}

/// Whether `list` holds the text `s`.
pub fn list_has(list: &Vec<&str>, s: &str) -> (r: bool)
    ensures
        r == exists|i: int| 0 <= i < list@.len() && #[trigger] list@[i]@ == s@,
{
    let mut i: usize = 0;
    while i < list.len()
        invariant
            i <= list@.len(),
            forall|j: int| 0 <= j < i ==> #[trigger] list@[j]@ != s@,
        decreases list@.len() - i,
    {
        if same_text(list[i], s) {
            assert(list@[i as int]@ == s@);
            return true;
        }
        i = i + 1;
    }
    false
}

// ---------------------------------------------------------------------------
// Prefixes, suffixes and occurrences
// ---------------------------------------------------------------------------
/// `s` without the suffix `p`, where it has it.
pub open spec fn without_suffix(s: Seq<char>, p: Seq<char>) -> Seq<char> {
    if p.is_suffix_of(s) {
        s.take(s.len() - p.len())
    } else {
        s
    }
}

/// `s` without the prefix `p`, where it has it.
pub open spec fn without_prefix(s: Seq<char>, p: Seq<char>) -> Seq<char> {
    if p.is_prefix_of(s) {
        s.skip(p.len() as int)
    } else {
        s
    }
}

/// `p` stands in `s` at position `i`.
pub open spec fn occurs_at(s: Seq<char>, p: Seq<char>, i: int) -> bool {
    &&& 0 <= i
    &&& i + p.len() <= s.len()
    &&& s.subrange(i, i + p.len()) == p
}

/// `p` stands somewhere in `s`.
pub open spec fn holds_text(s: Seq<char>, p: Seq<char>) -> bool {
    exists|i: int| occurs_at(s, p, i)
}

/// The first position at or after `i` where `p` stands in `s`.
pub open spec fn find_from(s: Seq<char>, p: Seq<char>, i: int) -> Option<int>
    decreases s.len() + 1 - i,
{
    if i < 0 || i + p.len() > s.len() {
        None
    } else if occurs_at(s, p, i) {
        Some(i)
    } else {
        find_from(s, p, i + 1)
    }
}

/// The first position where `p` stands in `s`.
pub open spec fn find(s: Seq<char>, p: Seq<char>) -> Option<int> {
    find_from(s, p, 0)
}

/// `find_from` gives the first occurrence at or after its start, and none exactly where there
/// is none.
pub proof fn lemma_find_from(s: Seq<char>, p: Seq<char>, i: int)
    requires
        0 <= i,
    ensures
        match find_from(s, p, i) {
            Some(k) => {
                &&& i <= k
                &&& occurs_at(s, p, k)
                &&& forall|j: int| i <= j < k ==> !occurs_at(s, p, j)
            },
            None => forall|j: int| i <= j ==> !occurs_at(s, p, j),
        },
    decreases s.len() + 1 - i,
{
    if i + p.len() <= s.len() && !occurs_at(s, p, i) {
        lemma_find_from(s, p, i + 1);
    }
}

/// Whether `p` stands in `s` at `i`.
fn stands_at(s: &Vec<char>, p: &Vec<char>, i: usize) -> (r: bool)
    requires
        i + p@.len() <= s@.len(),
    ensures
        r == occurs_at(s@, p@, i as int),
{
    let mut k: usize = 0;
    while k < p.len()
        invariant
            i + p.len() <= s.len(),
            k <= p.len(),
            forall|j: int| 0 <= j < k ==> s@[i + j] == p@[j],
        decreases p@.len() - k,
    {
        if s[i + k] != p[k] {
            assert(s@.subrange(i as int, i + p@.len())[k as int] != p@[k as int]);
            return false;
        }
        k = k + 1;
    }
    assert(s@.subrange(i as int, i + p@.len()) =~= p@);
    true
}

/// The first position of `p` in `s`, counted in characters.
pub fn find_chars(s: &Vec<char>, p: &Vec<char>) -> (r: Option<usize>)
    ensures
        match r {
            Some(i) => find(s@, p@) == Some(i as int),
            None => find(s@, p@) is None,
        },
{
    if p.len() > s.len() {
        return None;
    }
    let last: usize = s.len() - p.len();
    let mut i: usize = 0;
    while i <= last
        invariant
            last == s@.len() - p@.len(),
            i <= last + 1,
            find(s@, p@) == find_from(s@, p@, i as int),
        decreases last + 1 - i,
    {
        if stands_at(s, p, i) {
            return Some(i);
        }
        if i == last {
            assert(find_from(s@, p@, i + 1) is None);
            return None;
        }
        i = i + 1;
    }
    None
}

/// The first position of `p` in `s`, counted in characters.
pub fn find_text(s: &str, p: &str) -> (r: Option<usize>)
    ensures
        match r {
            Some(i) => find(s@, p@) == Some(i as int),
            None => find(s@, p@) is None,
        },
{
    find_chars(&chars_of(s), &chars_of(p))
}

/// Whether `p` stands somewhere in `s`.
pub fn has_text(s: &str, p: &str) -> (r: bool)
    ensures
        r == holds_text(s@, p@),
{
    proof {
        lemma_find_from(s@, p@, 0);
    }
    match find_text(s, p) {
        Some(i) => {
            assert(occurs_at(s@, p@, i as int));
            true
        },
        None => {
            assert forall|j: int| !occurs_at(s@, p@, j) by {
                if j >= 0 {
                    assert(!occurs_at(s@, p@, j));
                }
            }
            false
        },
    }
}

/// Whether `s` starts with `p`.
pub fn starts_with(s: &str, p: &str) -> (r: bool)
    ensures
        r == p@.is_prefix_of(s@),
{
    let x = chars_of(s);
    let y = chars_of(p);
    if y.len() > x.len() {
        return false;
    }
    let r = stands_at(&x, &y, 0);
    assert(x@.subrange(0, y@.len() as int) == x@.take(y@.len() as int));
    r
}

/// Whether `s` ends with `p`.
pub fn ends_with(s: &str, p: &str) -> (r: bool)
    ensures
        r == p@.is_suffix_of(s@),
{
    let x = chars_of(s);
    let y = chars_of(p);
    if y.len() > x.len() {
        return false;
    }
    stands_at(&x, &y, x.len() - y.len())
}

/// `s` without the suffix `p`, where it has it.
pub fn drop_suffix(s: &str, p: &str) -> (r: String)
    ensures
        r@ == without_suffix(s@, p@),
{
    if ends_with(s, p) {
        let n: usize = s.unicode_len() - p.unicode_len();
        s.substring_char(0, n).to_owned()
    } else {
        s.to_owned()
    }
}

/// `s` without the prefix `p`, where it has it.
pub fn drop_prefix(s: &str, p: &str) -> (r: String)
    ensures
        r@ == without_prefix(s@, p@),
{
    if starts_with(s, p) {
        let n: usize = p.unicode_len();
        s.substring_char(n, s.unicode_len()).to_owned()
    } else {
        s.to_owned()
    }
}

// ---------------------------------------------------------------------------
// White space, words, fields and lines
// ---------------------------------------------------------------------------
/// The characters with the Unicode property White_Space.
pub open spec fn is_white(c: char) -> bool {
    let n = c as u32;
    ||| 0x9 <= n <= 0xd
    ||| n == 0x20
    ||| n == 0x85
    ||| n == 0xa0
    ||| n == 0x1680
    ||| 0x2000 <= n <= 0x200a
    ||| n == 0x2028
    ||| n == 0x2029
    ||| n == 0x202f
    ||| n == 0x205f
    ||| n == 0x3000
}

/// Whether `c` is white space.
pub fn white(c: char) -> (r: bool)
    ensures
        r == is_white(c),
{
    let n: u32 = c as u32;
    (0x9 <= n && n <= 0xd) || n == 0x20 || n == 0x85 || n == 0xa0 || n == 0x1680 || (0x2000 <= n
        && n <= 0x200a) || n == 0x2028 || n == 0x2029 || n == 0x202f || n == 0x205f || n == 0x3000
}

/// `s` without its leading white space.
pub open spec fn trim_start(s: Seq<char>) -> Seq<char>
    decreases s.len(),
{
    if s.len() > 0 && is_white(s[0]) {
        trim_start(s.skip(1))
    } else {
        s
    }
}

/// `s` without its trailing white space.
pub open spec fn trim_end(s: Seq<char>) -> Seq<char>
    decreases s.len(),
{
    if s.len() > 0 && is_white(s.last()) {
        trim_end(s.drop_last())
    } else {
        s
    }
}

/// `s` without white space at its two ends.
pub open spec fn trim(s: Seq<char>) -> Seq<char> {
    trim_end(trim_start(s))
}

/// `s` without the run of `c` that it ends with.
pub open spec fn trim_end_char(s: Seq<char>, c: char) -> Seq<char>
    decreases s.len(),
{
    if s.len() > 0 && s.last() == c {
        trim_end_char(s.drop_last(), c)
    } else {
        s
    }
}

/// `s` without white space at its two ends.
pub fn trimmed(s: &str) -> (r: String)
    ensures
        r@ == trim(s@),
{
    let v = chars_of(s);
    let mut a: usize = 0;
    assert(v@.skip(0) =~= v@);
    while a < v.len() && white(v[a])
        invariant
            a <= v@.len(),
            trim_start(v@) == trim_start(v@.skip(a as int)),
        decreases v@.len() - a,
    {
        assert(v@.skip(a as int).skip(1) =~= v@.skip(a + 1));
        a = a + 1;
    }
    assert(trim_start(v@) == v@.skip(a as int));
    let mut b: usize = v.len();
    assert(v@.subrange(a as int, b as int) =~= v@.skip(a as int));
    while b > a && white(v[b - 1])
        invariant
            a <= b <= v@.len(),
            trim(v@) == trim_end(v@.subrange(a as int, b as int)),
        decreases b,
    {
        assert(v@.subrange(a as int, b as int).drop_last() =~= v@.subrange(a as int, b - 1));
        b = b - 1;
    }
    text_range(&v, a, b)
}

/// `s` without the run of `c` that it ends with.
pub fn trimmed_end_char(s: &str, c: char) -> (r: String)
    ensures
        r@ == trim_end_char(s@, c),
{
    let v = chars_of(s);
    let mut b: usize = v.len();
    assert(v@.subrange(0, b as int) =~= v@);
    while b > 0 && v[b - 1] == c
        invariant
            b <= v@.len(),
            trim_end_char(v@, c) == trim_end_char(v@.subrange(0, b as int), c),
        decreases b,
    {
        assert(v@.subrange(0, b as int).drop_last() =~= v@.subrange(0, b - 1));
        b = b - 1;
    }
    text_range(&v, 0, b)
}

/// The pieces of `s` between the characters that satisfy `sep`: one more than there are such
/// characters, empty pieces among them.
pub open spec fn split_by(s: Seq<char>, sep: spec_fn(char) -> bool) -> Seq<Seq<char>>
    decreases s.len(),
{
    if s.len() == 0 {
        seq![Seq::<char>::empty()]
    } else {
        let r = split_by(s.drop_last(), sep);
        if sep(s.last()) {
            r.push(Seq::<char>::empty())
        } else {
            r.drop_last().push(r.last().push(s.last()))
        }
    }
}

/// The pieces of `s` between the characters `c`.
pub open spec fn split_on(s: Seq<char>, c: char) -> Seq<Seq<char>> {
    split_by(s, |x: char| x == c)
}

/// The words of `s`: the pieces between white space that are not empty.
pub open spec fn words(s: Seq<char>) -> Seq<Seq<char>> {
    split_by(s, |x: char| is_white(x)).filter(|w: Seq<char>| w.len() > 0)
}

/// The first word of `s`, empty where it has none.
pub open spec fn first_word(s: Seq<char>) -> Seq<char> {
    if words(s).len() > 0 {
        words(s)[0]
    } else {
        Seq::empty()
    }
}

/// The pieces of `s` between the characters `c`.
pub fn split_text(s: &str, c: char) -> (r: Vec<String>)
    ensures
        texts(r@) == split_on(s@, c),
        r@.len() > 0,
{
    let v = chars_of(s);
    let mut done: Vec<String> = Vec::new();
    let mut cur = String::new();
    let mut i: usize = 0;
    while i < v.len()
        invariant
            i <= v@.len(),
            split_on(v@.take(i as int), c) =~= texts(done@).push(cur@),
        decreases v@.len() - i,
    {
        let ghost before = texts(done@).push(cur@);
        assert(v@.take(i + 1).drop_last() =~= v@.take(i as int));
        if v[i] == c {
            done.push(cur);
            cur = String::new();
            assert(texts(done@) =~= before);
        } else {
            cur.push(v[i]);
            assert(before.drop_last() =~= texts(done@));
        }
        i = i + 1;
    }
    assert(v@.take(v@.len() as int) =~= v@);
    let ghost before = texts(done@).push(cur@);
    done.push(cur);
    assert(texts(done@) =~= before);
    done
}

/// The words of `s`.
pub fn words_of(s: &str) -> (r: Vec<String>)
    ensures
        texts(r@) == words(s@),
{
    let v = chars_of(s);
    let ghost sep = |x: char| is_white(x);
    let ghost keep = |w: Seq<char>| w.len() > 0;
    let mut out: Vec<String> = Vec::new();
    let mut cur = String::new();
    let ghost mut all: Seq<Seq<char>> = Seq::empty();
    let mut i: usize = 0;
    proof {
        reveal(Seq::filter);
    }
    while i < v.len()
        invariant
            i <= v@.len(),
            sep == (|x: char| is_white(x)),
            keep == (|w: Seq<char>| w.len() > 0),
            split_by(v@.take(i as int), sep) =~= all.push(cur@),
            texts(out@) =~= all.filter(keep),
        decreases v@.len() - i,
    {
        assert(v@.take(i + 1).drop_last() =~= v@.take(i as int));
        assert(all.push(cur@).drop_last() =~= all);
        if white(v[i]) {
            proof {
                reveal(Seq::filter);
                all = all.push(cur@);
            }
            let ghost before = texts(out@).push(cur@);
            if !cur.as_str().is_empty() {
                out.push(cur);
                assert(texts(out@) =~= before);
            }
            cur = String::new();
        } else {
            cur.push(v[i]);
        }
        i = i + 1;
    }
    assert(v@.take(v@.len() as int) =~= v@);
    proof {
        reveal(Seq::filter);
        assert(all.push(cur@).drop_last() =~= all);
    }
    let ghost before = texts(out@).push(cur@);
    if !cur.as_str().is_empty() {
        out.push(cur);
        assert(texts(out@) =~= before);
    }
    out
}

/// The first word of `s`, empty where it has none.
pub fn first_word_of(s: &str) -> (r: String)
    ensures
        r@ == first_word(s@),
{
    let w = words_of(s);
    assert(texts(w@).len() == w@.len());
    if w.len() > 0 {
        assert(texts(w@)[0] == w@[0]@);
        w[0].clone()
    } else {
        String::new()
    }
}

/// `s` without one carriage return at its end.
pub open spec fn strip_cr(s: Seq<char>) -> Seq<char> {
    if s.len() > 0 && s.last() == '\r' {
        s.drop_last()
    } else {
        s
    }
}

/// The lines of `s`. A line ends with a line feed, which a carriage return may precede; the
/// last line may do without.
pub open spec fn lines(s: Seq<char>) -> Seq<Seq<char>> {
    let parts = split_on(s, '\n');
    let n = (parts.len() - 1) as nat;
    let ended = Seq::new(n, |i: int| strip_cr(parts[i]));
    if parts.last().len() == 0 {
        ended
    } else {
        ended.push(parts.last())
    }
}

/// The lines of `s`.
pub fn lines_of(s: &str) -> (r: Vec<String>)
    ensures
        texts(r@) == lines(s@),
{
    let parts = split_text(s, '\n');
    let ghost all = split_on(s@, '\n');
    let n: usize = parts.len() - 1;
    let mut out: Vec<String> = Vec::new();
    let mut i: usize = 0;
    assert(all.len() == parts@.len());
    while i < n
        invariant
            n == parts@.len() - 1,
            i <= n,
            all == texts(parts@),
            texts(out@) =~= Seq::new(i as nat, |j: int| strip_cr(all[j])),
        decreases n - i,
    {
        let v = chars_of(parts[i].as_str());
        let k: usize = v.len();
        let line = if k > 0 && v[k - 1] == '\r' {
            assert(v@.subrange(0, k - 1) =~= v@.drop_last());
            text_range(&v, 0, k - 1)
        } else {
            parts[i].clone()
        };
        assert(all[i as int] == parts@[i as int]@);
        let ghost before = texts(out@).push(line@);
        out.push(line);
        assert(texts(out@) =~= before);
        i = i + 1;
    }
    assert(all.last() == parts@[n as int]@);
    if !parts[n].as_str().is_empty() {
        let ghost before = texts(out@).push(parts@[n as int]@);
        out.push(parts[n].clone());
        assert(texts(out@) =~= before);
    }
    out
}

// ---------------------------------------------------------------------------
// Joining and mapping
// ---------------------------------------------------------------------------
/// `list` with `sep` between its items.
pub open spec fn join_with(list: Seq<Seq<char>>, sep: Seq<char>) -> Seq<char>
    decreases list.len(),
{
    if list.len() == 0 {
        Seq::empty()
    } else if list.len() == 1 {
        list[0]
    } else {
        join_with(list.drop_last(), sep) + sep + list.last()
    }
}

/// The items of `list` with `sep` between them.
pub fn join_texts(list: &Vec<String>, sep: &str) -> (r: String)
    ensures
        r@ == join_with(texts(list@), sep@),
{
    let ghost all = texts(list@);
    let mut out = String::new();
    let mut i: usize = 0;
    while i < list.len()
        invariant
            i <= list@.len(),
            all == texts(list@),
            out@ == join_with(all.take(i as int), sep@),
        decreases list@.len() - i,
    {
        let ghost next = all.take(i + 1);
        assert(next.drop_last() =~= all.take(i as int));
        assert(next.last() == list@[i as int]@);
        if i > 0 {
            out.append(sep);
        }
        out.append(list[i].as_str());
        if i == 0 {
            assert(out@ =~= list@[0]@);
        }
        i = i + 1;
    }
    assert(all.take(all.len() as int) =~= all);
    out
}

/// `s` with every `from` replaced by `to`.
pub open spec fn replace_char(s: Seq<char>, from: char, to: char) -> Seq<char> {
    Seq::new(
        s.len(),
        |i: int|
            if s[i] == from {
                to
            } else {
                s[i]
            },
    )
}

/// `s` with every `from` replaced by `to`.
pub fn replaced_char(s: &str, from: char, to: char) -> (r: String)
    ensures
        r@ == replace_char(s@, from, to),
{
    let v = chars_of(s);
    let mut out = String::new();
    let mut i: usize = 0;
    while i < v.len()
        invariant
            i <= v@.len(),
            out@ =~= replace_char(v@, from, to).take(i as int),
        decreases v@.len() - i,
    {
        let c = if v[i] == from {
            to
        } else {
            v[i]
        };
        out.push(c);
        i = i + 1;
    }
    assert(out@ =~= replace_char(v@, from, to));
    out
}

// ---------------------------------------------------------------------------
// Letter case
// ---------------------------------------------------------------------------
/// What `str::to_lowercase` makes of a text.
pub uninterp spec fn lowercase(s: Seq<char>) -> Seq<char>;

/// What `str::to_uppercase` makes of a text.
pub uninterp spec fn uppercase(s: Seq<char>) -> Seq<char>;

/// What `char::to_uppercase` makes of a character: one or more characters.
pub uninterp spec fn char_uppercase(c: char) -> Seq<char>;

/// What `char::is_alphanumeric` says of a character.
pub uninterp spec fn alphanumeric(c: char) -> bool;

/// `c` is one of the first 128 characters.
pub open spec fn ascii_char(c: char) -> bool {
    (c as u32) < 0x80
}

/// Every character of `s` is ASCII.
pub open spec fn ascii_text(s: Seq<char>) -> bool {
    forall|i: int| 0 <= i < s.len() ==> ascii_char(#[trigger] s[i])
}

/// `c` with `A` to `Z` mapped to `a` to `z`.
pub open spec fn ascii_lower(c: char) -> char {
    if 'A' <= c && c <= 'Z' {
        ((c as u32) + 32) as char
    } else {
        c
    }
}

/// `c` with `a` to `z` mapped to `A` to `Z`.
pub open spec fn ascii_upper(c: char) -> char {
    if 'a' <= c && c <= 'z' {
        ((c as u32) - 32) as char
    } else {
        c
    }
}

/// `c` is an ASCII letter or an ASCII digit.
pub open spec fn ascii_alphanumeric(c: char) -> bool {
    ('A' <= c && c <= 'Z') || ('a' <= c && c <= 'z') || ('0' <= c && c <= '9')
}

/// Calls `str::to_lowercase`. Its result is a function of the text alone, and on ASCII text it
/// maps `A` to `Z` to `a` to `z` and keeps the rest; outside ASCII the Unicode mapping is only
/// named.
#[verifier::external_body]
pub(crate) fn to_lower(s: &str) -> (r: String)
    ensures
        r@ == lowercase(s@),
        ascii_text(s@) ==> r@ == s@.map_values(|c: char| ascii_lower(c)),
{
    s.to_lowercase()
}

/// Calls `str::to_uppercase`. Its result is a function of the text alone, and on ASCII text it
/// maps `a` to `z` to `A` to `Z` and keeps the rest; outside ASCII the Unicode mapping is only
/// named.
#[verifier::external_body]
pub(crate) fn to_upper(s: &str) -> (r: String)
    ensures
        r@ == uppercase(s@),
        ascii_text(s@) ==> r@ == s@.map_values(|c: char| ascii_upper(c)),
{
    s.to_uppercase()
}

/// Calls `char::to_uppercase` and collects what it yields. Its result is a function of the
/// character alone, and on an ASCII character it is that character with `a` to `z` mapped to
/// `A` to `Z`; outside ASCII the Unicode mapping is only named.
#[verifier::external_body]
pub(crate) fn char_to_upper(c: char) -> (r: String)
    ensures
        r@ == char_uppercase(c),
        ascii_char(c) ==> r@ == seq![ascii_upper(c)],
{
    c.to_uppercase().collect()
}

/// `char::is_alphanumeric` is a function of the character alone, and on an ASCII character it
/// holds of the letters and the digits; outside ASCII the Unicode property is only named.
pub assume_specification[ char::is_alphanumeric ](c: char) -> (r: bool)
    ensures
        r == alphanumeric(c),
        ascii_char(c) ==> r == ascii_alphanumeric(c),
;

// ---------------------------------------------------------------------------
// Order
// ---------------------------------------------------------------------------
/// `a` comes strictly before `b` in the order of their code points.
pub open spec fn text_before(a: Seq<char>, b: Seq<char>) -> bool
    decreases a.len(),
{
    if b.len() == 0 {
        false
    } else if a.len() == 0 {
        true
    } else if a[0] == b[0] {
        text_before(a.skip(1), b.skip(1))
    } else {
        a[0] < b[0]
    }
}

/// Whether `a` comes strictly before `b`.
pub fn comes_before(a: &str, b: &str) -> (r: bool)
    ensures
        r == text_before(a@, b@),
{
    let x = chars_of(a);
    let y = chars_of(b);
    let mut i: usize = 0;
    assert(x@.skip(0) =~= x@);
    assert(y@.skip(0) =~= y@);
    while i < x.len() && i < y.len()
        invariant
            x@ == a@,
            y@ == b@,
            i <= x@.len(),
            i <= y@.len(),
            text_before(x@, y@) == text_before(x@.skip(i as int), y@.skip(i as int)),
        decreases x@.len() - i,
    {
        assert(x@.skip(i as int)[0] == x@[i as int]);
        assert(y@.skip(i as int)[0] == y@[i as int]);
        if x[i] != y[i] {
            return x[i] < y[i];
        }
        assert(x@.skip(i as int).skip(1) =~= x@.skip(i + 1));
        assert(y@.skip(i as int).skip(1) =~= y@.skip(i + 1));
        i = i + 1;
    }
    i < y.len()
}

// ---------------------------------------------------------------------------
// Laws
// ---------------------------------------------------------------------------
/// A text without the separator is its own only part.
pub proof fn law_split_nothing(a: Seq<char>, c: char)
    requires
        !a.contains(c),
    ensures
        split_on(a, c) == seq![a],
    decreases a.len(),
{
    if a.len() > 0 {
        assert(!a.drop_last().contains(c)) by {
            assert forall|i: int| 0 <= i < a.len() - 1 implies a.drop_last()[i] != c by {
                assert(a[i] != c);
            }
        }
        law_split_nothing(a.drop_last(), c);
        assert(a[a.len() - 1] != c);
        let r = split_on(a.drop_last(), c);
        assert(r =~= seq![a.drop_last()]);
        assert(r.last().push(a.last()) =~= a);
        assert(split_on(a, c) =~= seq![a]);
    } else {
        assert(a =~= Seq::<char>::empty());
    }
}

/// Splitting undoes joining: what stands before the first separator is the first part, and what
/// stands behind it is split on its own.
pub proof fn law_split_undoes_join(a: Seq<char>, b: Seq<char>, c: char)
    requires
        !a.contains(c),
    ensures
        split_on(a.push(c) + b, c) == seq![a] + split_on(b, c),
        split_on(b, c).len() > 0,
    decreases b.len(),
{
    let s = a.push(c) + b;
    if b.len() == 0 {
        law_split_nothing(a, c);
        assert(s =~= a.push(c));
        assert(s.drop_last() =~= a);
        assert(split_on(s, c) =~= seq![a] + split_on(b, c));
    } else {
        law_split_undoes_join(a, b.drop_last(), c);
        let tail = split_on(b.drop_last(), c);
        assert(s.drop_last() =~= a.push(c) + b.drop_last());
        let r = split_on(s.drop_last(), c);
        assert(r == seq![a] + tail);
        assert(s.last() == b.last());
        assert(r.last() == tail.last());
        assert(split_on(s, c) =~= seq![a] + split_on(b, c));
    }
}

/// A text of at least one character without white space.
pub open spec fn solid(w: Seq<char>) -> bool {
    w.len() > 0 && forall|i: int| 0 <= i < w.len() ==> !is_white(#[trigger] w[i])
}

/// The parts of a text between its white space, empty ones among them.
pub open spec fn white_parts(s: Seq<char>) -> Seq<Seq<char>> {
    split_by(s, |x: char| is_white(x))
}

/// Every character of a part is a character of the text, and none is white.
proof fn lemma_white_parts(s: Seq<char>)
    ensures
        white_parts(s).len() > 0,
        forall|k: int, i: int|
            #![trigger white_parts(s)[k][i]]
            0 <= k < white_parts(s).len() && 0 <= i < white_parts(s)[k].len() ==> !is_white(
                white_parts(s)[k][i],
            ) && s.contains(white_parts(s)[k][i]),
    decreases s.len(),
{
    if s.len() > 0 {
        let t = s.drop_last();
        lemma_white_parts(t);
        let r = white_parts(t);
        let p = white_parts(s);
        assert forall|k: int, i: int|
            #![trigger p[k][i]]
            0 <= k < p.len() && 0 <= i < p[k].len() implies !is_white(p[k][i]) && s.contains(
            p[k][i],
        ) by {
            assert(s[s.len() - 1] == s.last());
            if k < r.len() && i < r[k].len() {
                assert(p[k][i] == r[k][i]);
                let j = choose|j: int| 0 <= j < t.len() && t[j] == r[k][i];
                assert(s[j] == r[k][i]);
            } else {
                assert(p[k][i] == s.last());
            }
        }
    }
}

/// Every word of a text is solid, and made of the text's characters.
pub proof fn law_words_are_solid(s: Seq<char>, k: int)
    requires
        0 <= k < words(s).len(),
    ensures
        solid(words(s)[k]),
        forall|i: int| 0 <= i < words(s)[k].len() ==> s.contains(#[trigger] words(s)[k][i]),
{
    let keep = |w: Seq<char>| w.len() > 0;
    lemma_white_parts(s);
    let w = words(s)[k];
    assert(words(s).contains(w));
    white_parts(s).lemma_filter_contains_rev(keep, w);
    white_parts(s).lemma_filter_pred(keep, k);
    let j = choose|j: int| 0 <= j < white_parts(s).len() && white_parts(s)[j] == w;
    assert forall|i: int| 0 <= i < w.len() implies !is_white(#[trigger] w[i]) && s.contains(
        w[i],
    ) by {
        assert(white_parts(s)[j][i] == w[i]);
    }
}

/// A solid piece at the end of a text belongs to the text's last part.
proof fn lemma_white_parts_grow(s: Seq<char>, w: Seq<char>)
    requires
        forall|i: int| 0 <= i < w.len() ==> !is_white(#[trigger] w[i]),
    ensures
        white_parts(s).len() > 0,
        white_parts(s + w) == white_parts(s).drop_last().push(white_parts(s).last() + w),
    decreases w.len(),
{
    lemma_white_parts(s);
    let p = white_parts(s);
    if w.len() == 0 {
        assert(s + w =~= s);
        assert(p.last() + w =~= p.last());
        assert(p.drop_last().push(p.last()) =~= p);
    } else {
        let front = w.drop_last();
        lemma_white_parts_grow(s, front);
        assert((s + w).drop_last() =~= s + front);
        assert((s + w).last() == w.last());
        assert(!is_white(w[w.len() - 1]));
        let q = white_parts(s + front);
        assert(q.last().push(w.last()) =~= p.last() + w);
        assert(q.drop_last() =~= p.drop_last());
    }
}

/// Splitting into words undoes joining with a space.
pub proof fn law_words_undo_join(list: Seq<Seq<char>>)
    requires
        forall|i: int| 0 <= i < list.len() ==> solid(#[trigger] list[i]),
    ensures
        words(join_with(list, " "@)) == list,
{
    let joined = join_with(list, " "@);
    reveal(Seq::filter);
    if list.len() == 0 {
        let none = Seq::<Seq<char>>::empty();
        assert(white_parts(joined) =~= seq![Seq::<char>::empty()]);
        assert(white_parts(joined).drop_last() =~= none);
        lemma_keep_all(none);
        assert(list =~= none);
        assert(white_parts(joined).last().len() == 0);
    } else {
        lemma_parts_of_join(list);
        lemma_keep_all(list);
    }
}

proof fn lemma_keep_all(list: Seq<Seq<char>>)
    requires
        forall|i: int| 0 <= i < list.len() ==> (#[trigger] list[i]).len() > 0,
    ensures
        list.filter(|w: Seq<char>| w.len() > 0) == list,
    decreases list.len(),
{
    reveal(Seq::filter);
    if list.len() > 0 {
        lemma_keep_all(list.drop_last());
        assert(list[list.len() - 1].len() > 0);
        assert(list.drop_last().push(list.last()) =~= list);
    } else {
        assert(list.filter(|w: Seq<char>| w.len() > 0) =~= list);
    }
}

proof fn lemma_parts_of_join(list: Seq<Seq<char>>)
    requires
        list.len() > 0,
        forall|i: int| 0 <= i < list.len() ==> solid(#[trigger] list[i]),
    ensures
        white_parts(join_with(list, " "@)) == list,
    decreases list.len(),
{
    let last = list.last();
    assert(solid(list[list.len() - 1]));
    let empty = Seq::<char>::empty();
    if list.len() == 1 {
        lemma_white_parts_grow(empty, last);
        assert(empty + last =~= last);
        assert(white_parts(empty) =~= seq![empty]);
        assert(white_parts(last) =~= seq![last]);
        assert(list =~= seq![last]);
    } else {
        let front = list.drop_last();
        assert forall|i: int| 0 <= i < front.len() implies solid(#[trigger] front[i]) by {
            assert(front[i] == list[i]);
        }
        lemma_parts_of_join(front);
        let j = join_with(front, " "@);
        reveal_strlit(" ");
        let spaced = j + " "@;
        assert(spaced =~= j.push(' '));
        assert(spaced.drop_last() =~= j);
        assert(spaced.last() == ' ');
        assert(is_white(' '));
        assert(white_parts(spaced) == front.push(empty));
        lemma_white_parts_grow(spaced, last);
        assert(white_parts(spaced).drop_last() =~= front);
        assert(empty + last =~= last);
        assert(front.push(last) =~= list);
    }
}

/// Every character from `from` up to `to` is white space.
pub open spec fn all_white(s: Seq<char>, from: int, to: int) -> bool {
    forall|i: int| from <= i < to ==> is_white(#[trigger] s[i])
}

proof fn lemma_trim_start(s: Seq<char>)
    ensures
        exists|a: int|
            0 <= a <= s.len() && trim_start(s) == s.skip(a) && #[trigger] all_white(s, 0, a) && (a
                < s.len() ==> !is_white(s[a])),
    decreases s.len(),
{
    if s.len() > 0 && is_white(s[0]) {
        let t = s.skip(1);
        lemma_trim_start(t);
        let b = choose|b: int|
            0 <= b <= t.len() && trim_start(t) == t.skip(b) && #[trigger] all_white(t, 0, b) && (b
                < t.len() ==> !is_white(t[b]));
        assert(t.skip(b) =~= s.skip(b + 1));
        assert forall|i: int| 0 <= i < b + 1 implies is_white(#[trigger] s[i]) by {
            if i > 0 {
                assert(s[i] == t[i - 1]);
            }
        }
        assert(all_white(s, 0, b + 1));
    } else {
        assert(s.skip(0) =~= s);
        assert(all_white(s, 0, 0));
    }
}

proof fn lemma_trim_end(s: Seq<char>)
    ensures
        exists|b: int|
            0 <= b <= s.len() && trim_end(s) == s.take(b) && #[trigger] all_white(
                s,
                b,
                s.len() as int,
            ) && (b > 0 ==> !is_white(s[b - 1])),
    decreases s.len(),
{
    if s.len() > 0 && is_white(s.last()) {
        let t = s.drop_last();
        lemma_trim_end(t);
        let b = choose|b: int|
            0 <= b <= t.len() && trim_end(t) == t.take(b) && #[trigger] all_white(
                t,
                b,
                t.len() as int,
            ) && (b > 0 ==> !is_white(t[b - 1]));
        assert(t.take(b) =~= s.take(b));
        assert forall|i: int| b <= i < s.len() implies is_white(#[trigger] s[i]) by {
            if i < t.len() {
                assert(s[i] == t[i]);
            }
        }
        assert(all_white(s, b, s.len() as int));
    } else {
        assert(s.take(s.len() as int) =~= s);
        assert(all_white(s, s.len() as int, s.len() as int));
    }
}

/// Trimming takes the white space off both ends and nothing else: what is left is a piece of the
/// text that neither begins nor ends with white space, and all before and behind it is white.
pub proof fn law_trim_takes_the_ends(s: Seq<char>)
    ensures
        exists|a: int, b: int|
            0 <= a <= b <= s.len() && trim(s) == s.subrange(a, b) && #[trigger] all_white(s, 0, a)
                && #[trigger] all_white(s, b, s.len() as int) && (a < b ==> !is_white(s[a])
                && !is_white(s[b - 1])),
{
    lemma_trim_start(s);
    let a = choose|a: int|
        0 <= a <= s.len() && trim_start(s) == s.skip(a) && #[trigger] all_white(s, 0, a) && (a
            < s.len() ==> !is_white(s[a]));
    let t = s.skip(a);
    lemma_trim_end(t);
    let b = choose|b: int|
        0 <= b <= t.len() && trim_end(t) == t.take(b) && #[trigger] all_white(t, b, t.len() as int)
            && (b > 0 ==> !is_white(t[b - 1]));
    assert(t.take(b) =~= s.subrange(a, a + b));
    assert forall|i: int| a + b <= i < s.len() implies is_white(#[trigger] s[i]) by {
        assert(s[i] == t[i - a]);
    }
    assert(all_white(s, a + b, s.len() as int));
    if b > 0 {
        assert(t[b - 1] == s[a + b - 1]);
    }
}

/// White space around a text does not matter: a text that neither begins nor ends with white
/// space is what trimming gives of it, whatever white space stands around it.
pub proof fn law_trim_undoes_padding(before: Seq<char>, s: Seq<char>, after: Seq<char>)
    requires
        all_white(before, 0, before.len() as int),
        all_white(after, 0, after.len() as int),
        s.len() > 0 ==> !is_white(s[0]) && !is_white(s.last()),
    ensures
        trim(before + s + after) == s,
{
    let t = before + s + after;
    law_trim_takes_the_ends(t);
    let (a, b) = choose|a: int, b: int|
        0 <= a <= b <= t.len() && trim(t) == t.subrange(a, b) && #[trigger] all_white(t, 0, a)
            && #[trigger] all_white(t, b, t.len() as int) && (a < b ==> !is_white(t[a])
            && !is_white(t[b - 1]));
    let n = before.len() as int;
    let m = n + s.len();
    if s.len() > 0 {
        assert(t[n] == s[0] && t[m - 1] == s.last());
        assert(a <= n) by {
            if a > n {
                assert(is_white(t[n]));
            }
        }
        assert(b >= m) by {
            if b < m {
                assert(is_white(t[m - 1]));
            }
        }
        assert(a >= n) by {
            if a < n {
                assert(t[a] == before[a]);
                assert(is_white(before[a]));
            }
        }
        assert(b <= m) by {
            if b > m {
                assert(t[b - 1] == after[b - 1 - m]);
                assert(is_white(after[b - 1 - m]));
            }
        }
        assert(t.subrange(n, m) =~= s);
    } else {
        assert(a == b) by {
            if a < b {
                if a < n {
                    assert(t[a] == before[a]);
                    assert(is_white(before[a]));
                } else {
                    assert(t[a] == after[a - n]);
                    assert(is_white(after[a - n]));
                }
            }
        }
        assert(t.subrange(a, b) =~= s);
    }
}

/// Exactly the run of `c` at the end is taken off: a text that does not end in `c`, followed by
/// any number of `c`, gives the text.
pub proof fn law_trim_end_char(s: Seq<char>, c: char, n: nat)
    requires
        s.len() > 0 ==> s.last() != c,
    ensures
        trim_end_char(s + Seq::new(n, |i: int| c), c) == s,
    decreases n,
{
    let run = Seq::new(n, |i: int| c);
    if n == 0 {
        assert(s + run =~= s);
    } else {
        let m = (n - 1) as nat;
        law_trim_end_char(s, c, m);
        assert((s + run).drop_last() =~= s + Seq::new(m, |i: int| c));
        assert((s + run).last() == c);
    }
}

proof fn lemma_white_parts_join(a: Seq<char>, c: char, b: Seq<char>)
    requires
        is_white(c),
    ensures
        white_parts(a.push(c) + b) == white_parts(a) + white_parts(b),
    decreases b.len(),
{
    let s = a.push(c) + b;
    let empty = Seq::<char>::empty();
    if b.len() == 0 {
        assert(s =~= a.push(c));
        assert(s.drop_last() =~= a);
        assert(b =~= empty);
        assert(white_parts(b) =~= seq![empty]);
        assert(white_parts(a).push(empty) =~= white_parts(a) + seq![empty]);
    } else {
        let t = b.drop_last();
        lemma_white_parts_join(a, c, t);
        assert(s.drop_last() =~= a.push(c) + t);
        assert(s.last() == b.last());
        lemma_white_parts(t);
        let p = white_parts(a);
        let q = white_parts(t);
        assert((p + q).last() == q.last());
        assert((p + q).drop_last() =~= p + q.drop_last());
        assert(white_parts(s) =~= p + white_parts(b));
    }
}

/// White space parts words: the words of two texts with white space between them are the words of
/// the one and then those of the other.
pub proof fn law_white_space_parts_words(a: Seq<char>, c: char, b: Seq<char>)
    requires
        is_white(c),
    ensures
        words(a.push(c) + b) == words(a) + words(b),
{
    let keep = |w: Seq<char>| w.len() > 0;
    lemma_white_parts_join(a, c, b);
    Seq::filter_distributes_over_add(white_parts(a), white_parts(b), keep);
}

/// A text without white space is its own only word, and an empty text has none.
pub proof fn law_word_of_solid(w: Seq<char>)
    ensures
        solid(w) ==> words(w) == seq![w],
        w.len() == 0 ==> words(w).len() == 0,
{
    if solid(w) {
        let list = seq![w];
        law_words_undo_join(list);
    } else if w.len() == 0 {
        let none = Seq::<Seq<char>>::empty();
        law_words_undo_join(none);
        assert(w =~= join_with(none, " "@));
    }
}

/// The first word of a text is what stands between the white space that it begins with and the
/// next white space, if any.
pub proof fn law_first_word(before: Seq<char>, w: Seq<char>, rest: Seq<char>)
    requires
        all_white(before, 0, before.len() as int),
        solid(w),
        rest.len() > 0 ==> is_white(rest[0]),
    ensures
        first_word(before + w + rest) == w,
    decreases before.len(),
{
    let s = before + w + rest;
    let empty = Seq::<char>::empty();
    if before.len() > 0 {
        let c = before[0];
        assert(is_white(c));
        let b = before.skip(1);
        assert forall|i: int| 0 <= i < b.len() implies is_white(#[trigger] b[i]) by {
            assert(is_white(before[i + 1]));
        }
        law_first_word(b, w, rest);
        assert(s =~= empty.push(c) + (b + w + rest));
        law_white_space_parts_words(empty, c, b + w + rest);
        law_word_of_solid(empty);
        assert(words(s) =~= words(b + w + rest));
    } else if rest.len() > 0 {
        let c = rest[0];
        let r = rest.skip(1);
        assert(s =~= w.push(c) + r);
        law_white_space_parts_words(w, c, r);
        law_word_of_solid(w);
        assert(words(s)[0] == w);
    } else {
        assert(s =~= w);
        law_word_of_solid(w);
    }
}

/// A line ends at the first line feed, and a carriage return before that is not part of it; what
/// follows is the next lines.
pub proof fn law_first_line(a: Seq<char>, b: Seq<char>)
    requires
        !a.contains('\n'),
    ensures
        a.len() == 0 || a.last() != '\r' ==> lines(a.push('\n') + b) == seq![a] + lines(b),
        lines(a.push('\r').push('\n') + b) == seq![a] + lines(b),
{
    lemma_first_line(a, b);
    let c = a.push('\r');
    assert forall|i: int| 0 <= i < c.len() implies c[i] != '\n' by {
        if i < a.len() {
            assert(a[i] != '\n');
        }
    }
    lemma_first_line(c, b);
    assert(strip_cr(c) =~= a);
}

proof fn lemma_first_line(a: Seq<char>, b: Seq<char>)
    requires
        !a.contains('\n'),
    ensures
        lines(a.push('\n') + b) == seq![strip_cr(a)] + lines(b),
{
    law_split_undoes_join(a, b, '\n');
    let p = split_on(b, '\n');
    let q = split_on(a.push('\n') + b, '\n');
    assert(q == seq![a] + p);
    assert(q.last() == p.last());
    assert forall|i: int| 1 <= i < q.len() implies q[i] == #[trigger] p[i - 1] by {}
    assert(lines(a.push('\n') + b) =~= seq![strip_cr(a)] + lines(b));
}

/// A text without a line feed is one line, and an empty text has none.
pub proof fn law_last_line(a: Seq<char>)
    requires
        !a.contains('\n'),
    ensures
        a.len() > 0 ==> lines(a) == seq![a],
        a.len() == 0 ==> lines(a).len() == 0,
{
    law_split_nothing(a, '\n');
    assert(split_on(a, '\n').last() == a);
    if a.len() > 0 {
        assert(lines(a) =~= seq![a]);
    }
}

/// Taking a suffix or a prefix off undoes putting it on, and a text without it stays.
pub proof fn law_affixes_come_off(s: Seq<char>, p: Seq<char>)
    ensures
        without_suffix(s + p, p) == s,
        without_prefix(p + s, p) == s,
        !p.is_suffix_of(s) ==> without_suffix(s, p) == s,
        !p.is_prefix_of(s) ==> without_prefix(s, p) == s,
{
    let a = s + p;
    assert(a.subrange(a.len() - p.len(), a.len() as int) =~= p);
    assert(p.is_suffix_of(a));
    assert(a.take(a.len() - p.len()) =~= s);
    let b = p + s;
    assert(b.subrange(0, p.len() as int) =~= p);
    assert(p.is_prefix_of(b));
    assert(b.skip(p.len() as int) =~= s);
}

/// Two texts are ordered by the first character in which they differ, and a text comes before
/// every longer one that begins with it.
pub proof fn law_first_difference_decides(
    common: Seq<char>,
    a: char,
    x: Seq<char>,
    b: char,
    y: Seq<char>,
)
    ensures
        a < b ==> text_before(common.push(a) + x, common.push(b) + y),
        a > b ==> !text_before(common.push(a) + x, common.push(b) + y),
        text_before(common, common.push(b) + y),
        !text_before(common.push(b) + y, common),
        !text_before(common, common),
    decreases common.len(),
{
    let p = common.push(a) + x;
    let q = common.push(b) + y;
    if common.len() > 0 {
        let c = common.skip(1);
        law_first_difference_decides(c, a, x, b, y);
        assert(p.skip(1) =~= c.push(a) + x);
        assert(q.skip(1) =~= c.push(b) + y);
        assert(p[0] == common[0] && q[0] == common[0]);
    } else {
        assert(p[0] == a && q[0] == b);
    }
}

/// Replacing a character leaves the length and every other character.
pub proof fn law_replace_touches_one_character(s: Seq<char>, from: char, to: char)
    ensures
        replace_char(s, from, to).len() == s.len(),
        forall|i: int|
            0 <= i < s.len() && s[i] != from ==> #[trigger] replace_char(s, from, to)[i] == s[i],
        forall|i: int|
            0 <= i < s.len() && s[i] == from ==> #[trigger] replace_char(s, from, to)[i] == to,
{
}

/// No character beyond the ideographic space is white space, and no letter, digit or sign of
/// ASCII is.
pub proof fn law_white_space_is_rare(c: char)
    ensures
        c as u32 > 0x3000 ==> !is_white(c),
        0x21 <= c as u32 <= 0x84 ==> !is_white(c),
        is_white(' ') && is_white('\t') && is_white('\n') && is_white('\r'),
{
}

/// One or two spaces part words as any white space does.
pub proof fn law_spaces_part_words(a: Seq<char>, b: Seq<char>)
    ensures
        words(a + " "@ + b) == words(a) + words(b),
        words(a + "  "@ + b) == words(a) + words(b),
{
    reveal_strlit(" ");
    reveal_strlit("  ");
    let empty = Seq::<char>::empty();
    assert(is_white(' '));
    assert(a + " "@ + b =~= a.push(' ') + b);
    law_white_space_parts_words(a, ' ', b);
    assert(a + "  "@ + b =~= a.push(' ') + (empty.push(' ') + b));
    law_white_space_parts_words(a, ' ', empty.push(' ') + b);
    law_white_space_parts_words(empty, ' ', b);
    law_word_of_solid(empty);
    assert(words(empty) + words(b) =~= words(b));
}

} // verus!
