//! What ffmpeg's progress lines say.
use vstd::prelude::*;

use crate::text::{
    all_white, chars_of, find, find_chars, first_word, first_word_of, is_white, law_first_word,
    law_trim_end_char, lemma_find_from, occurs_at, solid, text_range, trim_end_char,
    trimmed_end_char,
};

verus! {

/// The value of the field `key` of a progress line: the word that follows the key where it
/// first stands, without the slashes at its end.
pub open spec fn field(line: Seq<char>, key: Seq<char>) -> Option<Seq<char>> {
    match find(line, key) {
        Some(i) => Some(trim_end_char(first_word(line.skip(i + key.len())), '/')),
        None => None,
    }
}

pub fn parse_field(line: &str, key: &str) -> (r: Option<String>)
    ensures
        match r {
            Some(t) => field(line@, key@) == Some(t@),
            None => field(line@, key@) is None,
        },
{
    let chars = chars_of(line);
    let key_chars = chars_of(key);
    proof {
        lemma_find_from(line@, key@, 0);
    }
    match find_chars(&chars, &key_chars) {
        Some(i) => {
            let len: usize = chars.len();
            let key_len: usize = key_chars.len();
            let rest = text_range(&chars, i + key_len, len);
            assert(rest@ =~= line@.skip(i + key@.len()));
            let word = first_word_of(rest.as_str());
            Some(trimmed_end_char(word.as_str(), '/'))
        },
        None => None,
    }
}

// ---------------------------------------------------------------------------
// Laws
// ---------------------------------------------------------------------------
/// A field is read where its key first stands: the word behind the key, with or without white
/// space between them, up to the next white space, and without the slashes that it ends with.
pub proof fn law_field_is_the_word_behind_its_key(
    before: Seq<char>,
    key: Seq<char>,
    gap: Seq<char>,
    word: Seq<char>,
    slashes: nat,
    rest: Seq<char>,
    line: Seq<char>,
)
    requires
        line == before + key + gap + word + Seq::new(slashes, |i: int| '/') + rest,
        forall|j: int| 0 <= j < before.len() ==> !occurs_at(line, key, j),
        all_white(gap, 0, gap.len() as int),
        solid(word),
        word.last() != '/',
        rest.len() > 0 ==> is_white(rest[0]),
    ensures
        field(line, key) == Some(word),
{
    let run = Seq::new(slashes, |i: int| '/');
    let n = before.len() as int;
    assert(line.subrange(n, n + key.len()) =~= key);
    assert(occurs_at(line, key, n));
    lemma_find_from(line, key, 0);
    let k = find(line, key)->0;
    assert(k == n) by {
        if k < n {
            assert(!occurs_at(line, key, k));
        }
    }
    let tail = line.skip(n + key.len());
    let whole = word + run;
    assert(tail =~= gap + whole + rest);
    assert forall|i: int| 0 <= i < whole.len() implies !is_white(#[trigger] whole[i]) by {
        if i < word.len() {
            assert(whole[i] == word[i]);
        } else {
            assert(whole[i] == '/');
        }
    }
    law_first_word(gap, whole, rest);
    law_trim_end_char(word, '/', slashes);
}

/// A line without the key does not have the field, and a line with the key does.
pub proof fn law_field_is_there_with_its_key(line: Seq<char>, key: Seq<char>)
    ensures
        field(line, key) is Some <==> exists|i: int| occurs_at(line, key, i),
{
    lemma_find_from(line, key, 0);
}

} // verus!
