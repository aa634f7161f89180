//! Whole numbers in decimal text: reading them as `str::parse` does for
//! `i32` and `usize`, writing them as `Display` does, and splitting text into
//! words at white space as `str::split_whitespace` does.
use vstd::prelude::*;
use crate::text::{chars_of, decimal, digit_char, is_space, char_is_space, string_from_chars, usize_to_decimal};

verus! {

/// Whether `c` is an ASCII decimal digit.
pub open spec fn is_digit(c: char) -> bool {
    '0' <= c <= '9'
}

/// Whether `s` is made of decimal digits only.
pub open spec fn all_digits(s: Seq<char>) -> bool {
    forall|i: int| 0 <= i < s.len() ==> is_digit(#[trigger] s[i])
}

/// The value of the digit `c`.
pub open spec fn digit_value(c: char) -> int {
    c as int - '0' as int
}

/// The value of the decimal digits `s`, most significant first.
pub open spec fn digits_value(s: Seq<char>) -> int
    decreases s.len(),
{
    if s.len() == 0 {
        0
    } else {
        10 * digits_value(s.drop_last()) + digit_value(s.last())
    }
}

/// The integer written as `s`, as `str::parse` reads a signed integer: an
/// optional `+` or `-`, then one digit or more.
pub open spec fn signed_decimal(s: Seq<char>) -> Option<int> {
    if s.len() > 0 && (s[0] == '+' || s[0] == '-') {
        let d = s.drop_first();
        if d.len() > 0 && all_digits(d) {
            Some(if s[0] == '-' { -digits_value(d) } else { digits_value(d) })
        } else {
            None
        }
    } else if s.len() > 0 && all_digits(s) {
        Some(digits_value(s))
    } else {
        None
    }
}

/// `s` read as an `i32` (`str::parse::<i32>`): `None` when it is not a
/// signed integer or lies outside the range of `i32`.
pub open spec fn spec_parse_i32(s: Seq<char>) -> Option<i32> {
    match signed_decimal(s) {
        Some(v) => if i32::MIN <= v <= i32::MAX { Some(v as i32) } else { None },
        None => None,
    }
}

/// `s` read as a `usize` (`str::parse::<usize>`): an optional `+` then
/// digits, within the range of `usize`.
pub open spec fn spec_parse_usize(s: Seq<char>) -> Option<usize> {
    if s.len() > 0 && s[0] == '-' {
        None
    } else {
        match signed_decimal(s) {
            Some(v) => if 0 <= v <= usize::MAX { Some(v as usize) } else { None },
            None => None,
        }
    }
}

proof fn lemma_digits_value_nonnegative(s: Seq<char>)
    requires
        all_digits(s),
    ensures
        digits_value(s) >= 0,
    decreases s.len(),
{
    if s.len() > 0 {
        lemma_digits_value_nonnegative(s.drop_last());
        assert(is_digit(s.last()));
    }
}

/// A longer run of digits is worth at least as much as its prefix.
proof fn lemma_digits_value_prefix(s: Seq<char>, i: int)
    requires
        all_digits(s),
        0 <= i <= s.len(),
    ensures
        0 <= digits_value(s.take(i)) <= digits_value(s),
    decreases s.len() - i,
{
    lemma_digits_value_nonnegative(s.take(i));
    if i < s.len() {
        lemma_digits_value_prefix(s, i + 1);
        let p = s.take(i + 1);
        assert(p.drop_last() =~= s.take(i));
        assert(is_digit(p.last()));
    } else {
        assert(s.take(i) =~= s);
    }
}

/// Reads `count` digits of `s` from `start`, giving up (`None`) once their
/// value exceeds `limit`.
fn digits_up_to(s: &Vec<char>, start: usize, limit: u64) -> (r: Option<u64>)
    requires
        start <= s@.len(),
        limit <= 0x1000_0000_0000_0000u64,
    ensures
        match r {
            Some(v) => all_digits(s@.skip(start as int)) && v == digits_value(s@.skip(start as int)) && v <= limit,
            None => !all_digits(s@.skip(start as int)) || digits_value(s@.skip(start as int)) > limit,
        },
{
    let ghost d = s@.skip(start as int);
    let mut value: u64 = 0;
    let mut i = start;
    while i < s.len()
        invariant
            start <= i <= s@.len(),
            d == s@.skip(start as int),
            limit <= 0x1000_0000_0000_0000u64,
            all_digits(d.take(i - start)),
            value == digits_value(d.take(i - start)),
            value <= limit,
        decreases s@.len() - i,
    {
        let c = s[i];
        if !('0' <= c && c <= '9') {
            assert(d[i - start] == c);
            return None;
        }
        let digit: u64 = (c as u32 - '0' as u32) as u64;
        let ghost p = d.take(i - start + 1);
        assert(p.drop_last() =~= d.take(i - start));
        assert(p.last() == c);
        value = value * 10 + digit;
        i = i + 1;
        if value > limit {
            proof {
                assert(all_digits(d.take(i - start))) by {
                    assert forall|k: int| 0 <= k < i - start implies is_digit(#[trigger] d.take(i - start)[k]) by {
                        if k < i - start - 1 {
                            assert(d.take(i - start)[k] == d.take(i - start - 1)[k]);
                        }
                    }
                }
                if all_digits(d) {
                    lemma_digits_value_prefix(d, i - start);
                }
            }
            return None;
        }
        assert(all_digits(d.take(i - start))) by {
            assert forall|k: int| 0 <= k < i - start implies is_digit(#[trigger] d.take(i - start)[k]) by {
                if k < i - start - 1 {
                    assert(d.take(i - start)[k] == d.take(i - start - 1)[k]);
                }
            }
        }
    }
    assert(d.take(i - start) =~= d);
    Some(value)
}

/// `s` read as an `i32`, as `str::parse::<i32>` reads it.
pub fn parse_i32(s: &str) -> (r: Option<i32>)
    ensures
        r == spec_parse_i32(s@),
{
    let chars = chars_of(s);
    if chars.len() == 0 {
        return None;
    }
    let negative = chars[0] == '-';
    let start: usize = if chars[0] == '+' || chars[0] == '-' { 1 } else { 0 };
    if start == chars.len() {
        return None;
    }
    proof {
        if start == 1 {
            assert(chars@.skip(1) =~= chars@.drop_first());
        } else {
            assert(chars@.skip(0) =~= chars@);
        }
    }
    match digits_up_to(&chars, start, 0x8000_0000) {
        None => None,
        Some(magnitude) => {
            if negative {
                Some((0 - magnitude as i64) as i32)
            } else if magnitude <= 0x7fff_ffff {
                Some(magnitude as i32)
            } else {
                None
            }
        },
    }
}

/// `s` read as a `usize`, as `str::parse::<usize>` reads it.
pub fn parse_usize(s: &str) -> (r: Option<usize>)
    ensures
        r == spec_parse_usize(s@),
{
    let chars = chars_of(s);
    if chars.len() == 0 || chars[0] == '-' {
        return None;
    }
    let start: usize = if chars[0] == '+' { 1 } else { 0 };
    if start == chars.len() {
        return None;
    }
    proof {
        if start == 1 {
            assert(chars@.skip(1) =~= chars@.drop_first());
        } else {
            assert(chars@.skip(0) =~= chars@);
        }
    }
    match digits_as_usize(&chars, start) {
        Some(value) => Some(value),
        None => None,
    }
}

/// The digits of `s` from `start` read as a `usize`; `None` unless they
/// are all digits and their value fits.
fn digits_as_usize(s: &Vec<char>, start: usize) -> (r: Option<usize>)
    requires
        start < s@.len(),
    ensures
        match r {
            Some(v) => all_digits(s@.skip(start as int)) && v == digits_value(s@.skip(start as int)),
            None => !all_digits(s@.skip(start as int)) || digits_value(s@.skip(start as int)) > usize::MAX,
        },
{
    let ghost d = s@.skip(start as int);
    let mut value: usize = 0;
    let mut i = start;
    while i < s.len()
        invariant
            start <= i <= s@.len(),
            d == s@.skip(start as int),
            all_digits(d.take(i - start)),
            value == digits_value(d.take(i - start)),
        decreases s@.len() - i,
    {
        let c = s[i];
        if !('0' <= c && c <= '9') {
            assert(d[i - start] == c);
            return None;
        }
        let digit: usize = (c as u32 - '0' as u32) as usize;
        let ghost p = d.take(i - start + 1);
        assert(p.drop_last() =~= d.take(i - start));
        assert(p.last() == c);
        assert(all_digits(d.take(i - start + 1))) by {
            assert forall|k: int| 0 <= k < i - start + 1 implies is_digit(#[trigger] d.take(i - start + 1)[k]) by {
                if k < i - start {
                    assert(d.take(i - start + 1)[k] == d.take(i - start)[k]);
                }
            }
        }
        let next = match value.checked_mul(10) {
            Some(v) => v.checked_add(digit),
            None => None,
        };
        match next {
            Some(v) => {
                value = v;
                i = i + 1;
            },
            None => {
                proof {
                    if all_digits(d) {
                        lemma_digits_value_prefix(d, i - start + 1);
                    }
                }
                return None;
            },
        }
    }
    assert(d.take(i - start) =~= d);
    Some(value)
}

/// The decimal text of `v`, as `i32`'s `Display` writes it.
pub open spec fn i32_text(v: int) -> Seq<char> {
    if v < 0 { seq!['-'] + decimal((-v) as nat) } else { decimal(v as nat) }
}

/// The decimal text of `v`.
pub fn i32_to_text(v: i32) -> (r: String)
    ensures
        r@ == i32_text(v as int),
{
    if v < 0 {
        let magnitude: usize = (0 - v as i64) as usize;
        let mut chars: Vec<char> = vec!['-'];
        let digits = usize_to_decimal(magnitude);
        let mut i: usize = 0;
        while i < digits.len()
            invariant
                i <= digits@.len(),
                chars@ == seq!['-'] + digits@.take(i as int),
            decreases digits@.len() - i,
        {
            chars.push(digits[i]);
            assert(digits@.take(i + 1) =~= digits@.take(i as int).push(digits@[i as int]));
            i = i + 1;
        }
        assert(digits@.take(digits@.len() as int) =~= digits@);
        string_from_chars(&chars)
    } else {
        string_from_chars(&usize_to_decimal(v as usize))
    }
}

/// The value of a digit written by `digit_char`.
proof fn lemma_digit_char_value(d: nat)
    requires
        d < 10,
    ensures
        is_digit(digit_char(d)),
        digit_value(digit_char(d)) == d,
{
    let code = ('0' as u32 + d) as u32;
    assert(code == 48 + d);
    assert(digit_char(d) as int == code as int);
}

/// `decimal(n)` is one digit or more, whose value is `n`.
pub proof fn lemma_decimal_digits(n: nat)
    ensures
        decimal(n).len() > 0,
        all_digits(decimal(n)),
        digits_value(decimal(n)) == n,
    decreases n,
{
    if n < 10 {
        lemma_digit_char_value(n);
        assert(decimal(n).drop_last() =~= Seq::<char>::empty());
        assert(decimal(n).last() == digit_char(n));
        assert(digits_value(decimal(n).drop_last()) == 0);
    } else {
        lemma_decimal_digits(n / 10);
        lemma_digit_char_value(n % 10);
        let s = decimal(n);
        assert(s.drop_last() =~= decimal(n / 10));
        assert(s.last() == digit_char(n % 10));
        assert(digits_value(s) == 10 * digits_value(decimal(n / 10)) + digit_value(s.last()));
        assert(10 * (n / 10) + n % 10 == n);
        assert forall|i: int| 0 <= i < s.len() implies is_digit(#[trigger] s[i]) by {
            if i < s.len() - 1 {
                assert(s[i] == decimal(n / 10)[i]);
            }
        }
    }
}

/// What `Display` writes for an `i32` is read back by `str::parse` as
/// the same value.
pub proof fn lemma_i32_text_round_trip(v: i32)
    ensures
        spec_parse_i32(i32_text(v as int)) == Some(v),
{
    if v < 0 {
        lemma_decimal_digits((-v) as nat);
        let s = i32_text(v as int);
        assert(s.drop_first() =~= decimal((-v) as nat));
    } else {
        lemma_decimal_digits(v as nat);
        let s = decimal(v as nat);
        assert(is_digit(s[0]));
    }
}

/// What `Display` writes for a `usize` is read back by `str::parse` as the
/// same value.
pub proof fn lemma_usize_text_round_trip(v: usize)
    ensures
        spec_parse_usize(decimal(v as nat)) == Some(v),
{
    lemma_decimal_digits(v as nat);
    let s = decimal(v as nat);
    assert(is_digit(s[0]));
}

/// Number of characters before the first white space of `s`.
pub open spec fn word_len(s: Seq<char>) -> nat
    decreases s.len(),
{
    if s.len() == 0 || is_space(s[0]) {
        0
    } else {
        1 + word_len(s.drop_first())
    }
}

/// The words of `s`, the runs of characters between white space, as
/// `str::split_whitespace` gives them.
pub open spec fn words(s: Seq<char>) -> Seq<Seq<char>>
    decreases s.len(),
{
    if s.len() == 0 {
        Seq::empty()
    } else if is_space(s[0]) {
        words(s.drop_first())
    } else {
        let n = word_len(s);
        if 0 < n <= s.len() {
            seq![s.take(n as int)] + words(s.skip(n as int))
        } else {
            Seq::empty()
        }
    }
}

proof fn lemma_word_len(s: Seq<char>)
    ensures
        word_len(s) <= s.len(),
        s.len() > 0 && !is_space(s[0]) ==> word_len(s) > 0,
        forall|k: int| 0 <= k < word_len(s) ==> !is_space(#[trigger] s[k]),
        word_len(s) < s.len() ==> is_space(s[word_len(s) as int]),
    decreases s.len(),
{
    if s.len() > 0 && !is_space(s[0]) {
        lemma_word_len(s.drop_first());
        assert forall|k: int| 0 <= k < word_len(s) implies !is_space(#[trigger] s[k]) by {
            if k > 0 {
                assert(s[k] == s.drop_first()[k - 1]);
            }
        }
    }
}

/// The words of `text`.
pub fn split_words(text: &str) -> (r: Vec<String>)
    ensures
        r@.len() == words(text@).len(),
        forall|k: int| 0 <= k < r@.len() ==> (#[trigger] r@[k])@ == words(text@)[k],
{
    let s = chars_of(text);
    let mut result: Vec<String> = Vec::new();
    let ghost done = Seq::<Seq<char>>::empty();
    let mut i: usize = 0;
    assert(s@.skip(0) =~= s@);
    while i < s.len()
        invariant
            i <= s@.len(),
            s@ == text@,
            result@.len() == done.len(),
            forall|k: int| 0 <= k < result@.len() ==> (#[trigger] result@[k])@ == done[k],
            words(text@) == done + words(s@.skip(i as int)),
        decreases s@.len() - i,
    {
        let ghost rest = s@.skip(i as int);
        if char_is_space(s[i]) {
            assert(rest.drop_first() =~= s@.skip(i + 1));
            i = i + 1;
        } else {
            proof {
                lemma_word_len(rest);
            }
            let mut word: Vec<char> = Vec::new();
            let mut j = i;
            while j < s.len() && !char_is_space(s[j])
                invariant
                    i <= j <= s@.len(),
                    rest == s@.skip(i as int),
                    word@ == s@.subrange(i as int, j as int),
                    forall|k: int| i <= k < j ==> !is_space(#[trigger] s@[k]),
                decreases s@.len() - j,
            {
                word.push(s[j]);
                assert(s@.subrange(i as int, j + 1) =~= s@.subrange(i as int, j as int).push(s@[j as int]));
                j = j + 1;
            }
            proof {
                let n = word_len(rest);
                if n < j - i {
                    assert(rest[n as int] == s@[i + n]);
                }
                if j - i < n {
                    assert(rest[j - i] == s@[j as int]);
                }
                assert(n == j - i);
                assert(rest.take(n as int) =~= word@);
                assert(rest.skip(n as int) =~= s@.skip(j as int));
                assert(done.push(word@) + words(s@.skip(j as int)) =~= done + (seq![word@] + words(
                    s@.skip(j as int),
                )));
                done = done.push(word@);
            }
            result.push(string_from_chars(&word));
            i = j;
        }
    }
    assert(words(s@.skip(i as int)) =~= Seq::<Seq<char>>::empty());
    assert(done + Seq::<Seq<char>>::empty() =~= done);
    result
}

} // verus!
