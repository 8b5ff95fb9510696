//! Decoders of the scalar encodings: the credits range and the two flag words.

use crate::error::{DecodeError, DecodeErrorView};
use crate::text::{chars_of, digit_char, digit_text, same_text};
use vstd::prelude::*;
use vstd::string::StringExecFns;

verus! {

/// A decimal digit.
pub open spec fn is_digit(c: char) -> bool {
    '0' <= c <= '9'
}

/// Every character is a decimal digit.
pub open spec fn all_digits(d: Seq<char>) -> bool {
    forall|i: int| 0 <= i < d.len() ==> is_digit(#[trigger] d[i])
}

/// The number that a sequence of decimal digits denotes.
pub open spec fn decimal(d: Seq<char>) -> int
    decreases d.len(),
{
    if d.len() == 0 {
        0
    } else {
        10 * decimal(d.drop_last()) + (d.last() as int - '0' as int)
    }
}

/// The number that a text denotes, where the text is one or more decimal digits and the
/// number fits in 8 bits.
pub open spec fn small_number(d: Seq<char>) -> Option<u8> {
    if d.len() > 0 && all_digits(d) && decimal(d) <= 255 {
        Some(decimal(d) as u8)
    } else {
        None
    }
}

/// The text is `<min>-<max>` with the dash at position `i`.
pub open spec fn splits_at(s: Seq<char>, i: int) -> bool {
    &&& 0 <= i < s.len()
    &&& s[i] == '-'
    &&& small_number(s.take(i)) is Some
    &&& small_number(s.skip(i + 1)) is Some
}

/// The credits range that a text denotes: `<min>` or `<min>-<max>`.
pub open spec fn credits_spec(s: Seq<char>) -> Option<(u8, Option<u8>)> {
    if small_number(s) is Some {
        Some((small_number(s)->0, None))
    } else if exists|i: int| splits_at(s, i) {
        let i = choose|i: int| splits_at(s, i);
        Some((small_number(s.take(i))->0, Some(small_number(s.skip(i + 1))->0)))
    } else {
        None
    }
}

/// The flag that a text denotes: exactly `True` or exactly `False`.
pub open spec fn flag_spec(s: Seq<char>) -> Option<bool> {
    if s == "True"@ {
        Some(true)
    } else if s == "False"@ {
        Some(false)
    } else {
        None
    }
}

/// The decimal text of a number, without leading zeros.
pub open spec fn decimal_text(n: nat) -> Seq<char>
    decreases n,
{
    if n < 10 {
        seq![digit_char(n as int)]
    } else {
        decimal_text(n / 10).push(digit_char((n % 10) as int))
    }
}

/// The canonical text of a credits range: `<min>`, or `<min>-<max>` where there is a
/// greatest number.
pub open spec fn credits_text(range: (u8, Option<u8>)) -> Seq<char> {
    match range.1 {
        None => decimal_text(range.0 as nat),
        Some(max) => decimal_text(range.0 as nat) + seq!['-'] + decimal_text(max as nat),
    }
}

/// The word that stands for a flag.
pub open spec fn flag_text(flag: bool) -> Seq<char> {
    if flag {
        "True"@
    } else {
        "False"@
    }
}

/// A number never gets smaller when more digits follow.
proof fn lemma_decimal_grows(d: Seq<char>, k: int)
    requires
        all_digits(d),
        0 <= k <= d.len(),
    ensures
        0 <= decimal(d.take(k)) <= decimal(d),
    decreases d.len() - k,
{
    if k == d.len() {
        assert(d.take(k) == d);
        lemma_decimal_nonnegative(d);
    } else {
        lemma_decimal_grows(d, k + 1);
        assert(d.take(k + 1).drop_last() == d.take(k));
        assert(is_digit(d[k]));
        assert(d.take(k + 1).last() == d[k]);
        lemma_decimal_nonnegative(d.take(k));
    }
}

/// Digits denote a number that is not negative.
proof fn lemma_decimal_nonnegative(d: Seq<char>)
    requires
        all_digits(d),
    ensures
        0 <= decimal(d),
    decreases d.len(),
{
    if d.len() > 0 {
        assert forall|i: int| 0 <= i < d.drop_last().len() implies is_digit(
            #[trigger] d.drop_last()[i],
        ) by {
            assert(d.drop_last()[i] == d[i]);
        }
        lemma_decimal_nonnegative(d.drop_last());
        assert(is_digit(d[d.len() - 1]));
    }
}

/// The value of a decimal digit, or `None` for any other character.
fn digit_to_num(c: char) -> (r: Option<u8>)
    ensures
        r matches Some(v) ==> is_digit(c) && v == c as int - '0' as int,
        r is None ==> !is_digit(c),
{
    let code: u32 = c as u32;
    if 48 <= code && code <= 57 {
        Some((code - 48) as u8)
    } else {
        None
    }
}

/// Reads `chars[from..to]` as a number of 8 bits.
fn parse_small(chars: &Vec<char>, from: usize, to: usize) -> (r: Option<u8>)
    requires
        from <= to <= chars.len(),
    ensures
        r == small_number(chars@.subrange(from as int, to as int)),
{
    let ghost d = chars@.subrange(from as int, to as int);
    if from == to {
        return None;
    }
    let mut value: u32 = 0;
    let mut i: usize = from;
    assert(d.take(0).len() == 0);
    while i < to
        invariant
            from <= i <= to <= chars.len(),
            d == chars@.subrange(from as int, to as int),
            all_digits(d.take(i - from)),
            value == decimal(d.take(i - from)),
            value <= 255,
        decreases to - i,
    {
        let c = chars[i];
        let ghost k = i - from;
        assert(d[k] == c);
        let digit = match digit_to_num(c) {
            Some(digit) => digit,
            None => {
                assert(!is_digit(d[k]));
                return None;
            },
        };
        proof {
            assert(d.take(k + 1).drop_last() == d.take(k));
            assert(d.take(k + 1).last() == c);
            assert forall|j: int| 0 <= j < k + 1 implies is_digit(#[trigger] d.take(k + 1)[j]) by {
                if j < k {
                    assert(d.take(k)[j] == d.take(k + 1)[j]);
                    assert(is_digit(d.take(k)[j]));
                } else {
                    assert(d.take(k + 1)[j] == c);
                    assert(is_digit(c));
                }
            }
        }
        value = value * 10 + digit as u32;
        if value > 255 {
            proof {
                if all_digits(d) {
                    lemma_decimal_grows(d, k + 1);
                }
            }
            return None;
        }
        i = i + 1;
    }
    assert(d.take(to - from) == d);
    Some(value as u8)
}

/// The position of the first dash, if there is one.
fn first_dash(chars: &Vec<char>) -> (r: Option<usize>)
    ensures
        match r {
            Some(i) => i < chars.len() && chars@[i as int] == '-' && forall|j: int|
                0 <= j < i ==> chars@[j] != '-',
            None => forall|j: int| 0 <= j < chars.len() ==> chars@[j] != '-',
        },
{
    let mut i: usize = 0;
    while i < chars.len()
        invariant
            i <= chars.len(),
            forall|j: int| 0 <= j < i ==> chars@[j] != '-',
        decreases chars.len() - i,
    {
        if chars[i] == '-' {
            return Some(i);
        }
        i = i + 1;
    }
    None
}

/// Decodes a credits range written as `<min>` or `<min>-<max>`, each part one or more
/// decimal digits that denote a number of 8 bits. Any other text is refused, and the error
/// carries the text.
pub fn parse_course_credits(s: &str) -> (r: Result<(u8, Option<u8>), DecodeError>)
    ensures
        match r {
            Ok(range) => credits_spec(s@) == Some(range),
            Err(e) => credits_spec(s@) is None && e@ == DecodeErrorView::InvalidCredits(s@),
        },
{
    let chars = chars_of(s);
    let n = chars.len();
    assert(chars@.subrange(0, n as int) == s@);
    match first_dash(&chars) {
        None => {
            assert forall|i: int| !splits_at(s@, i) by {}
            match parse_small(&chars, 0, n) {
                Some(min) => Ok((min, None)),
                None => Err(DecodeError::InvalidCredits(s.to_owned())),
            }
        },
        Some(dash) => {
            assert(!all_digits(s@)) by {
                assert(!is_digit(s@[dash as int]));
            }
            assert(chars@.subrange(0, dash as int) == s@.take(dash as int));
            assert(chars@.subrange(dash + 1, n as int) == s@.skip(dash + 1));
            assert forall|i: int| i != dash implies !splits_at(s@, i) by {
                if dash < i < n {
                    assert(s@.take(i)[dash as int] == '-');
                    assert(!is_digit(s@.take(i)[dash as int]));
                }
            }
            let min = parse_small(&chars, 0, dash);
            let max = parse_small(&chars, dash + 1, n);
            match (min, max) {
                (Some(min), Some(max)) => {
                    assert(splits_at(s@, dash as int));
                    Ok((min, Some(max)))
                },
                _ => {
                    assert(!splits_at(s@, dash as int));
                    Err(DecodeError::InvalidCredits(s.to_owned()))
                },
            }
        },
    }
}

/// Decodes a flag written as one of the two words `True` and `False`. Any other text, also
/// one that differs only in case, is refused, and the error carries the text.
pub fn parse_flag(s: &str) -> (r: Result<bool, DecodeError>)
    ensures
        match r {
            Ok(flag) => flag_spec(s@) == Some(flag),
            Err(e) => flag_spec(s@) is None && e@ == DecodeErrorView::InvalidFlag(s@),
        },
{
    if same_text(s, "True") {
        Ok(true)
    } else if same_text(s, "False") {
        Ok(false)
    } else {
        Err(DecodeError::InvalidFlag(s.to_owned()))
    }
}

/// Appends the decimal text of a number.
fn push_decimal(s: &mut String, n: u8)
    ensures
        final(s)@ == old(s)@ + decimal_text(n as nat),
{
    reveal_with_fuel(decimal_text, 3);
    if n >= 100 {
        s.append(digit_text(n / 100));
        s.append(digit_text(n / 10 % 10));
        s.append(digit_text(n % 10));
        assert(decimal_text(n as nat) =~= seq![
            digit_char(n as int / 100),
            digit_char(n as int / 10 % 10),
            digit_char(n as int % 10),
        ]);
        assert(s@ =~= old(s)@ + decimal_text(n as nat));
    } else if n >= 10 {
        s.append(digit_text(n / 10));
        s.append(digit_text(n % 10));
        assert(decimal_text(n as nat) =~= seq![
            digit_char(n as int / 10),
            digit_char(n as int % 10),
        ]);
        assert(s@ =~= old(s)@ + decimal_text(n as nat));
    } else {
        s.append(digit_text(n));
        assert(s@ =~= old(s)@ + decimal_text(n as nat));
    }
}

/// Writes a credits range in its canonical form, which `parse_course_credits` reads back.
pub fn format_course_credits(range: (u8, Option<u8>)) -> (s: String)
    ensures
        s@ == credits_text(range),
{
    let mut s = String::new();
    push_decimal(&mut s, range.0);
    match range.1 {
        None => {
            assert(s@ =~= credits_text(range));
        },
        Some(max) => {
            proof {
                reveal_strlit("-");
            }
            s.append("-");
            assert("-"@ =~= seq!['-']);
            push_decimal(&mut s, max);
            assert(s@ =~= credits_text(range));
        },
    }
    s
}

/// Writes a flag as the word that `parse_flag` reads back.
pub fn format_flag(flag: bool) -> (s: &'static str)
    ensures
        s@ == flag_text(flag),
{
    if flag {
        "True"
    } else {
        "False"
    }
}

/// The decimal text of a number is made of digits and denotes that number.
pub proof fn lemma_decimal_text(n: nat)
    ensures
        decimal_text(n).len() > 0,
        all_digits(decimal_text(n)),
        decimal(decimal_text(n)) == n,
    decreases n,
{
    let t = decimal_text(n);
    if n < 10 {
        assert(t.drop_last() =~= Seq::<char>::empty());
        assert(decimal(t) == 10 * decimal(t.drop_last()) + (t.last() as int - '0' as int));
    } else {
        lemma_decimal_text(n / 10);
        let init = decimal_text(n / 10);
        assert(t.drop_last() =~= init);
        assert(t.last() == digit_char((n % 10) as int));
        assert forall|i: int| 0 <= i < t.len() implies is_digit(#[trigger] t[i]) by {
            if i < init.len() {
                assert(t[i] == init[i]);
            }
        }
    }
}

/// Reading the canonical text of a credits range gives the range back.
pub proof fn lemma_credits_round_trip(range: (u8, Option<u8>))
    ensures
        credits_spec(credits_text(range)) == Some(range),
{
    let min = decimal_text(range.0 as nat);
    lemma_decimal_text(range.0 as nat);
    match range.1 {
        None => {},
        Some(max_value) => {
            let max = decimal_text(max_value as nat);
            lemma_decimal_text(max_value as nat);
            let s = credits_text(range);
            let at = min.len() as int;
            assert(s[at] == '-');
            assert(!is_digit(s[at]));
            assert(s.take(at) =~= min);
            assert(s.skip(at + 1) =~= max);
            assert(splits_at(s, at));
            let chosen = choose|i: int| splits_at(s, i);
            if chosen < at {
                assert(s[chosen] == min[chosen]);
                assert(is_digit(min[chosen]));
            } else if chosen > at {
                assert(s.take(chosen)[at] == s[at]);
                assert(is_digit(s.take(chosen)[at]));
            }
        },
    }
}

/// Reading the word of a flag gives the flag back.
pub proof fn lemma_flag_round_trip(flag: bool)
    ensures
        flag_spec(flag_text(flag)) == Some(flag),
{
    reveal_strlit("True");
    reveal_strlit("False");
    assert("True"@.len() != "False"@.len());
}

} // verus!
