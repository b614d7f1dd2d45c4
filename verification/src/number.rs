//! Whole numbers as decimal text.
use vstd::prelude::*;
use vstd::string::StringExecFns;

use crate::text::{chars_of, is_white, law_word_of_solid, solid, words};

verus! {

/// The decimal digit for `d`.
pub open spec fn digit(d: nat) -> char {
    (48 + d) as char
}

/// `c` is a decimal digit.
pub open spec fn is_digit(c: char) -> bool {
    '0' <= c && c <= '9'
}

/// The value of a decimal digit.
pub open spec fn digit_value(c: char) -> nat {
    (c as u32 - 48) as nat
}

/// `n` in decimal, without leading zeros.
pub open spec fn decimal(n: nat) -> Seq<char>
    decreases n,
{
    if n < 10 {
        seq![digit(n)]
    } else {
        decimal(n / 10).push(digit(n % 10))
    }
}

/// `n` in decimal, with a leading zero where it has one digit only.
pub open spec fn two_digits(n: nat) -> Seq<char> {
    if n < 10 {
        seq!['0', digit(n)]
    } else {
        decimal(n)
    }
}

/// Every character of `s` is a decimal digit.
pub open spec fn all_digits(s: Seq<char>) -> bool {
    forall|i: int| 0 <= i < s.len() ==> is_digit(#[trigger] s[i])
}

/// The number that the digits of `s` spell.
pub open spec fn digits_value(s: Seq<char>) -> nat
    decreases s.len(),
{
    if s.len() == 0 {
        0
    } else {
        digits_value(s.drop_last()) * 10 + digit_value(s.last())
    }
}

/// The `u64` that `s` spells: an optional `+`, then at least one digit.
pub open spec fn parse_u64(s: Seq<char>) -> Option<u64> {
    let d = if s.len() > 0 && s[0] == '+' {
        s.skip(1)
    } else {
        s
    };
    if d.len() > 0 && all_digits(d) && digits_value(d) <= u64::MAX {
        Some(digits_value(d) as u64)
    } else {
        None
    }
}

/// The `i32` that `s` spells: an optional sign, then at least one digit.
pub open spec fn parse_i32(s: Seq<char>) -> Option<i32> {
    let signed = s.len() > 0 && (s[0] == '+' || s[0] == '-');
    let d = if signed {
        s.skip(1)
    } else {
        s
    };
    let value = if signed && s[0] == '-' {
        -(digits_value(d) as int)
    } else {
        digits_value(d) as int
    };
    if d.len() > 0 && all_digits(d) && i32::MIN <= value <= i32::MAX {
        Some(value as i32)
    } else {
        None
    }
}

/// `n` in decimal.
pub fn decimal_text(n: u64) -> (r: String)
    ensures
        r@ == decimal(n as nat),
    decreases n,
{
    let d: u8 = (n % 10) as u8;
    let c = (48u8 + d) as char;
    if n < 10 {
        let mut r = String::new();
        r.push(c);
        assert(r@ =~= seq![digit(n as nat)]);
        r
    } else {
        let mut r = decimal_text(n / 10);
        r.push(c);
        r
    }
}

/// `n` in decimal, with a leading zero where it has one digit only.
pub fn two_digits_text(n: u64) -> (r: String)
    ensures
        r@ == two_digits(n as nat),
{
    if n < 10 {
        let mut r = String::new();
        r.push('0');
        r.append(decimal_text(n).as_str());
        assert(r@ =~= seq!['0', digit(n as nat)]);
        r
    } else {
        decimal_text(n)
    }
}

/// A longer run of digits spells no smaller number.
proof fn lemma_digits_value_monotone(s: Seq<char>, i: int)
    requires
        0 <= i <= s.len(),
    ensures
        digits_value(s.take(i)) <= digits_value(s),
    decreases s.len(),
{
    if i == s.len() {
        assert(s.take(i) =~= s);
    } else {
        assert(s.drop_last().take(i) =~= s.take(i));
        lemma_digits_value_monotone(s.drop_last(), i);
    }
}

/// The number that `v[from..]` spells, where that is at least one digit, nothing but digits,
/// and at most `max`.
fn parse_digits(v: &Vec<char>, from: usize, max: u64) -> (r: Option<u64>)
    requires
        from <= v@.len(),
        max >= 9,
    ensures
        ({
            let d = v@.skip(from as int);
            match r {
                Some(n) => d.len() > 0 && all_digits(d) && digits_value(d) == n && n <= max,
                None => d.len() == 0 || !all_digits(d) || digits_value(d) > max,
            }
        }),
{
    let ghost d = v@.skip(from as int);
    if from == v.len() {
        return None;
    }
    let mut n: u64 = 0;
    let mut i: usize = from;
    while i < v.len()
        invariant
            from <= i <= v@.len(),
            d == v@.skip(from as int),
            all_digits(d.take(i - from)),
            digits_value(d.take(i - from)) == n,
            n <= max,
            max >= 9,
        decreases v@.len() - i,
    {
        let c = v[i];
        assert(d[i - from] == c);
        if !('0' <= c && c <= '9') {
            assert(!all_digits(d));
            return None;
        }
        let x: u64 = (c as u32 - 48) as u64;
        assert(d.take(i + 1 - from).drop_last() =~= d.take(i - from));
        assert(d.take(i + 1 - from).last() == c);
        assert(digits_value(d.take(i + 1 - from)) == n * 10 + x);
        proof {
            lemma_digits_value_monotone(d, i + 1 - from);
        }
        if n > max / 10 || n * 10 > max - x {
            return None;
        }
        n = n * 10 + x;
        i = i + 1;
    }
    assert(d.take(d.len() as int) =~= d);
    Some(n)
}

/// The `u64` that `s` spells.
pub fn u64_of(s: &str) -> (r: Option<u64>)
    ensures
        r == parse_u64(s@),
{
    let v = chars_of(s);
    if v.len() > 0 && v[0] == '+' {
        parse_digits(&v, 1, u64::MAX)
    } else {
        assert(v@.skip(0) =~= v@);
        parse_digits(&v, 0, u64::MAX)
    }
}

/// The `i32` that `s` spells.
pub fn i32_of(s: &str) -> (r: Option<i32>)
    ensures
        r == parse_i32(s@),
{
    let v = chars_of(s);
    if v.len() > 0 && v[0] == '-' {
        match parse_digits(&v, 1, 0x8000_0000) {
            Some(n) => Some((-(n as i64)) as i32),
            None => None,
        }
    } else if v.len() > 0 && v[0] == '+' {
        match parse_digits(&v, 1, 0x7fff_ffff) {
            Some(n) => Some(n as i32),
            None => None,
        }
    } else {
        assert(v@.skip(0) =~= v@);
        match parse_digits(&v, 0, 0x7fff_ffff) {
            Some(n) => Some(n as i32),
            None => None,
        }
    }
}

// ---------------------------------------------------------------------------
// Laws
// ---------------------------------------------------------------------------
/// Decimal text is made of digits only, at least one of them, and spells its number.
pub proof fn law_decimal_spells(n: nat)
    ensures
        decimal(n).len() > 0,
        all_digits(decimal(n)),
        digits_value(decimal(n)) == n,
    decreases n,
{
    reveal_with_fuel(digits_value, 2);
    if n >= 10 {
        law_decimal_spells(n / 10);
        assert(decimal(n).drop_last() =~= decimal(n / 10));
    } else {
        assert(decimal(n).drop_last() =~= Seq::<char>::empty());
    }
}

/// The text of a number, with or without the leading zero, parses back to the number.
pub proof fn law_parse_undoes_decimal(n: u64)
    ensures
        parse_u64(decimal(n as nat)) == Some(n),
        parse_u64(two_digits(n as nat)) == Some(n),
{
    law_decimal_spells(n as nat);
    reveal_with_fuel(digits_value, 3);
    assert(is_digit(decimal(n as nat)[0]));
    if n < 10 {
        let t = two_digits(n as nat);
        assert(t.drop_last().drop_last() =~= Seq::<char>::empty());
        assert(t.drop_last() =~= seq!['0']);
        assert(is_digit(t[0]) && is_digit(t[1]));
    }
}

/// Decimal text has no leading zero, so it is the shortest text that spells its number; the text
/// of at least two digits has a leading zero exactly where the number is below ten.
pub proof fn law_decimal_is_shortest(n: nat)
    ensures
        n > 0 ==> decimal(n)[0] != '0',
        n == 0 ==> decimal(n) == seq!['0'],
        n < 10 ==> decimal(n).len() == 1 && two_digits(n) == seq!['0'] + decimal(n),
        10 <= n < 100 ==> decimal(n).len() == 2,
        n >= 10 ==> two_digits(n) == decimal(n),
    decreases n,
{
    reveal_with_fuel(decimal, 3);
    if n >= 10 {
        law_decimal_is_shortest(n / 10);
        law_decimal_spells(n / 10);
        assert(decimal(n)[0] == decimal(n / 10)[0]);
    } else {
        assert(two_digits(n) =~= seq!['0'] + decimal(n));
        if n == 0 {
            assert(decimal(n) =~= seq!['0']);
        }
    }
}

/// Digits count by their places: one more digit makes ten of every one before it.
pub proof fn law_digits_count_by_place(s: Seq<char>, c: char)
    requires
        '0' <= c && c <= '9',
    ensures
        digits_value(s.push(c)) == digits_value(s) * 10 + (c as u32 - 48),
        digits_value(Seq::empty()) == 0,
{
    assert(s.push(c).drop_last() =~= s);
}

/// A text is a whole number exactly where it is one or more digits, with or without a plus sign,
/// and not too large.
pub proof fn law_what_is_a_number(s: Seq<char>)
    ensures
        s.len() > 0 && all_digits(s) && digits_value(s) <= u64::MAX ==> parse_u64(s) == Some(
            digits_value(s) as u64,
        ) && parse_u64(seq!['+'] + s) == Some(digits_value(s) as u64),
        s.len() == 0 || digits_value(s) > u64::MAX ==> parse_u64(s) is None || s[0] == '+',
        forall|i: int|
            0 <= i < s.len() && !is_digit(#[trigger] s[i]) && (i > 0 || s[i] != '+')
                ==> parse_u64(s) is None,
{
    let t = seq!['+'] + s;
    assert(t.skip(1) =~= s);
    if s.len() > 0 && all_digits(s) {
        assert(is_digit(s[0]));
    }
    assert forall|i: int|
        0 <= i < s.len() && !is_digit(#[trigger] s[i]) && (i > 0 || s[i]
            != '+') implies parse_u64(s) is None by {
        if s[0] == '+' {
            assert(s.skip(1)[i - 1] == s[i]);
        }
    }
}

/// A signed number is read with its sign, and nothing but digits behind a sign is a number.
pub proof fn law_signed_numbers(n: u32, s: Seq<char>)
    ensures
        n <= i32::MAX ==> parse_i32(decimal(n as nat)) == Some(n as i32) && parse_i32(
            seq!['+'] + decimal(n as nat),
        ) == Some(n as i32),
        n <= 0x8000_0000u32 ==> parse_i32(seq!['-'] + decimal(n as nat)) == Some(
            (-(n as int)) as i32,
        ),
        n > i32::MAX ==> parse_i32(decimal(n as nat)) is None,
        s.len() == 0 ==> parse_i32(s) is None,
        forall|i: int|
            0 <= i < s.len() && !is_digit(#[trigger] s[i]) && (i > 0 || (s[i] != '+' && s[i]
                != '-')) ==> parse_i32(s) is None,
{
    let d = decimal(n as nat);
    law_decimal_spells(n as nat);
    assert(is_digit(d[0]));
    assert((seq!['+'] + d).skip(1) =~= d);
    assert((seq!['-'] + d).skip(1) =~= d);
    assert forall|i: int|
        0 <= i < s.len() && !is_digit(#[trigger] s[i]) && (i > 0 || (s[i] != '+' && s[i]
            != '-')) implies parse_i32(s) is None by {
        if s[0] == '+' || s[0] == '-' {
            assert(s.skip(1)[i - 1] == s[i]);
        }
    }
}

proof fn lemma_digit_is_solid(c: char)
    requires
        is_digit(c),
    ensures
        !is_white(c),
        c != '/',
{
}

/// A number is one word, without a slash.
pub proof fn law_number_is_one_word(n: nat)
    ensures
        solid(decimal(n)),
        words(decimal(n)) == seq![decimal(n)],
        !decimal(n).contains('/'),
{
    law_decimal_spells(n);
    let d = decimal(n);
    assert forall|i: int| 0 <= i < d.len() implies !is_white(#[trigger] d[i]) && d[i] != '/' by {
        lemma_digit_is_solid(d[i]);
    }
    law_word_of_solid(d);
}

} // verus!
