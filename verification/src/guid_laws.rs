//! Laws of the identifier codec: text and bytes determine each other, and parsing looks
//! neither at where the hyphens stand nor at the case of the digits.

use crate::guid::{
    all_hex_or_hyphen, braced_spec, format_spec, hex_digits, hex_text, hex_upper, hex_value,
    nibble, pack, parse_braced_spec, parse_spec, GUIDParsingError,
};
use vstd::prelude::*;

verus! {

/// The upper-case form of an ASCII letter; any other character is left as it is.
pub open spec fn ascii_upper(c: char) -> char {
    if 'a' <= c <= 'z' {
        (c as int - 32) as char
    } else {
        c
    }
}

/// Two texts of one length that differ at most in the case of their ASCII letters.
pub open spec fn same_ignoring_case(s: Seq<char>, t: Seq<char>) -> bool {
    &&& s.len() == t.len()
    &&& forall|i: int| 0 <= i < s.len() ==> ascii_upper(#[trigger] s[i]) == ascii_upper(t[i])
}

/// Every character is a hexadecimal digit.
pub open spec fn all_hex(d: Seq<char>) -> bool {
    forall|i: int| 0 <= i < d.len() ==> hex_value(#[trigger] d[i]) is Some
}

/// A text without hyphens is its own digit sequence.
pub proof fn lemma_digits_of_plain(s: Seq<char>)
    requires
        forall|i: int| 0 <= i < s.len() ==> s[i] != '-',
    ensures
        hex_digits(s) == s,
    decreases s.len(),
{
    reveal(Seq::filter);
    if s.len() > 0 {
        lemma_digits_of_plain(s.drop_last());
        assert(s.drop_last().push(s.last()) == s);
    }
}

/// The digits of a concatenation are the digits of its parts.
pub proof fn lemma_digits_concat(s: Seq<char>, t: Seq<char>)
    ensures
        hex_digits(s + t) == hex_digits(s) + hex_digits(t),
{
    Seq::filter_distributes_over_add(s, t, |c: char| c != '-');
}

/// A lone hyphen holds no digit.
pub proof fn lemma_digits_of_hyphen()
    ensures
        hex_digits(seq!['-']) == Seq::<char>::empty(),
{
    reveal(Seq::filter);
    assert(seq!['-'].drop_last() == Seq::<char>::empty());
    assert(hex_digits(Seq::<char>::empty()) == Seq::<char>::empty());
}

/// The digit written for a value below 16 reads back as that value, and is no hyphen.
pub proof fn lemma_hex_upper(n: int)
    requires
        0 <= n < 16,
    ensures
        hex_value(hex_upper(n)) == Some(n as u8),
        hex_upper(n) != '-',
        nibble(hex_upper(n)) == n,
{
}

/// A text is made of digits and hyphens exactly when what is left without the hyphens is
/// made of digits.
pub proof fn lemma_all_hex_digits(s: Seq<char>)
    ensures
        all_hex_or_hyphen(s) <==> all_hex(hex_digits(s)),
    decreases s.len(),
{
    reveal(Seq::filter);
    if s.len() > 0 {
        let init = s.drop_last();
        lemma_all_hex_digits(init);
        let d = hex_digits(s);
        let di = hex_digits(init);
        if all_hex_or_hyphen(s) {
            assert forall|i: int| 0 <= i < init.len() implies init[i] == '-' || hex_value(
                #[trigger] init[i],
            ) is Some by {
                assert(init[i] == s[i]);
            }
            assert(s.last() == s[s.len() - 1]);
            assert forall|i: int| 0 <= i < d.len() implies hex_value(#[trigger] d[i]) is Some by {
                if i < di.len() {
                    assert(d[i] == di[i]);
                }
            }
        }
        if all_hex(d) {
            assert forall|i: int| 0 <= i < di.len() implies hex_value(#[trigger] di[i]) is Some by {
                assert(di[i] == d[i]);
            }
            assert forall|i: int| 0 <= i < s.len() implies s[i] == '-' || hex_value(
                #[trigger] s[i],
            ) is Some by {
                if i < init.len() {
                    assert(init[i] == s[i]);
                } else if s[i] != '-' {
                    assert(d[d.len() - 1] == s[i]);
                }
            }
        }
    }
}

/// In the canonical text no digit is lost and none is added: without its hyphens it is the
/// 32 digits of the 16 bytes.
pub proof fn lemma_digits_of_format(b: Seq<u8>)
    requires
        b.len() == 16,
    ensures
        format_spec(b).len() == 36,
        hex_digits(format_spec(b)) == hex_text(b),
        all_hex(hex_text(b)),
{
    let g1 = hex_text(b.subrange(0, 4));
    let g2 = hex_text(b.subrange(4, 6));
    let g3 = hex_text(b.subrange(6, 8));
    let g4 = hex_text(b.subrange(8, 10));
    let g5 = hex_text(b.subrange(10, 16));
    let h = seq!['-'];
    assert forall|i: int| 0 <= i < 32 implies hex_value(#[trigger] hex_text(b)[i]) is Some
        && hex_text(b)[i] != '-' by {
        let v = b[i / 2] as int;
        lemma_hex_upper(v / 16);
        lemma_hex_upper(v % 16);
    }
    lemma_digits_of_plain(hex_text(b));
    assert(g1 + g2 + g3 + g4 + g5 =~= hex_text(b));
    lemma_digits_of_hyphen();
    lemma_digits_concat(g1, h);
    lemma_digits_concat(g1 + h, g2);
    lemma_digits_concat(g1 + h + g2, h);
    lemma_digits_concat(g1 + h + g2 + h, g3);
    lemma_digits_concat(g1 + h + g2 + h + g3, h);
    lemma_digits_concat(g1 + h + g2 + h + g3 + h, g4);
    lemma_digits_concat(g1 + h + g2 + h + g3 + h + g4, h);
    lemma_digits_concat(g1 + h + g2 + h + g3 + h + g4 + h, g5);
    lemma_digits_concat(g1, g2);
    lemma_digits_concat(g1 + g2, g3);
    lemma_digits_concat(g1 + g2 + g3, g4);
    lemma_digits_concat(g1 + g2 + g3 + g4, g5);
    let e = Seq::<char>::empty();
    assert(hex_digits(g1) + e + hex_digits(g2) + e + hex_digits(g3) + e + hex_digits(g4) + e
        + hex_digits(g5) =~= hex_digits(g1) + hex_digits(g2) + hex_digits(g3) + hex_digits(g4)
        + hex_digits(g5));
}

/// Parsing the canonical text of 16 bytes gives those bytes back; hence formatting what
/// was parsed from a canonical text gives that text again.
pub proof fn lemma_parse_format(b: Seq<u8>)
    requires
        b.len() == 16,
    ensures
        parse_spec(format_spec(b)) == Ok::<Seq<u8>, GUIDParsingError>(b),
        parse_spec(format_spec(b)) matches Ok(p) && format_spec(p) == format_spec(b),
{
    lemma_digits_of_format(b);
    lemma_all_hex_digits(format_spec(b));
    assert forall|i: int| 0 <= i < 16 implies #[trigger] pack(hex_text(b))[i] == b[i] by {
        let v = b[i] as int;
        lemma_hex_upper(v / 16);
        lemma_hex_upper(v % 16);
        assert(hex_text(b)[2 * i] == hex_upper(v / 16));
        assert(hex_text(b)[2 * i + 1] == hex_upper(v % 16));
    }
    assert(pack(hex_text(b)) =~= b);
}

/// Parsing the braced canonical text of 16 bytes gives those bytes back.
pub proof fn lemma_parse_braced_format(b: Seq<u8>)
    requires
        b.len() == 16,
    ensures
        parse_braced_spec(braced_spec(b)) == Ok::<Seq<u8>, GUIDParsingError>(b),
{
    lemma_parse_format(b);
    let s = braced_spec(b);
    assert(s.subrange(1, s.len() - 1) =~= format_spec(b));
}

/// Whatever text an identifier was parsed from, parsing its canonical text gives the same
/// identifier.
pub proof fn lemma_parse_idempotent(s: Seq<char>)
    requires
        parse_spec(s) is Ok,
    ensures
        parse_spec(format_spec(parse_spec(s)->Ok_0)) == parse_spec(s),
{
    lemma_parse_format(parse_spec(s)->Ok_0);
}

/// Different identifiers have different canonical texts.
pub proof fn lemma_format_injective(a: Seq<u8>, b: Seq<u8>)
    requires
        a.len() == 16,
        b.len() == 16,
        format_spec(a) == format_spec(b),
    ensures
        a == b,
{
    lemma_parse_format(a);
    lemma_parse_format(b);
}

/// Parsing does not look at where the hyphens stand: two texts of admissible length with
/// the same digits in the same order parse alike.
pub proof fn lemma_hyphens_ignored(s: Seq<char>, t: Seq<char>)
    requires
        32 <= s.len() <= 36,
        32 <= t.len() <= 36,
        hex_digits(s) == hex_digits(t),
    ensures
        parse_spec(s) == parse_spec(t),
{
    lemma_all_hex_digits(s);
    lemma_all_hex_digits(t);
}

/// Characters that agree up to case are hyphens together and have the same digit value.
pub proof fn lemma_char_case(a: char, b: char)
    requires
        ascii_upper(a) == ascii_upper(b),
    ensures
        (a == '-') == (b == '-'),
        hex_value(a) == hex_value(b),
{
}

/// Hyphens removed, texts that agree up to case still agree up to case.
pub proof fn lemma_digits_case(s: Seq<char>, t: Seq<char>)
    requires
        same_ignoring_case(s, t),
    ensures
        same_ignoring_case(hex_digits(s), hex_digits(t)),
    decreases s.len(),
{
    reveal(Seq::filter);
    if s.len() > 0 {
        let si = s.drop_last();
        let ti = t.drop_last();
        assert forall|i: int| 0 <= i < si.len() implies ascii_upper(#[trigger] si[i])
            == ascii_upper(ti[i]) by {
            assert(si[i] == s[i] && ti[i] == t[i]);
        }
        lemma_digits_case(si, ti);
        assert(ascii_upper(s[s.len() - 1]) == ascii_upper(t[s.len() - 1]));
        lemma_char_case(s.last(), t.last());
    }
}

/// Parsing does not look at the case of the digits.
pub proof fn lemma_case_ignored(s: Seq<char>, t: Seq<char>)
    requires
        same_ignoring_case(s, t),
    ensures
        parse_spec(s) == parse_spec(t),
{
    lemma_digits_case(s, t);
    let ds = hex_digits(s);
    let dt = hex_digits(t);
    assert forall|i: int| 0 <= i < s.len() implies (s[i] == '-' || hex_value(#[trigger] s[i])
        is Some) == (t[i] == '-' || hex_value(t[i]) is Some) by {
        assert(ascii_upper(s[i]) == ascii_upper(t[i]));
        lemma_char_case(s[i], t[i]);
    }
    assert(all_hex_or_hyphen(s) == all_hex_or_hyphen(t)) by {
        if all_hex_or_hyphen(s) {
            assert forall|i: int| 0 <= i < t.len() implies t[i] == '-' || hex_value(
                #[trigger] t[i],
            ) is Some by {
                assert(s[i] == '-' || hex_value(s[i]) is Some);
            }
        }
        if all_hex_or_hyphen(t) {
            assert forall|i: int| 0 <= i < s.len() implies s[i] == '-' || hex_value(
                #[trigger] s[i],
            ) is Some by {
                assert(t[i] == '-' || hex_value(t[i]) is Some);
            }
        }
    }
    if ds.len() >= 32 {
        assert forall|i: int| 0 <= i < 16 implies #[trigger] pack(ds)[i] == pack(dt)[i] by {
            assert(ascii_upper(ds[2 * i]) == ascii_upper(dt[2 * i]));
            assert(ascii_upper(ds[2 * i + 1]) == ascii_upper(dt[2 * i + 1]));
            lemma_char_case(ds[2 * i], dt[2 * i]);
            lemma_char_case(ds[2 * i + 1], dt[2 * i + 1]);
        }
        assert(pack(ds) =~= pack(dt));
    }
}

} // verus!
