//! The 128-bit identifier and its hyphenated hexadecimal text form.

use crate::text::{chars_of, digit_char, digit_text};
use vstd::prelude::*;
use vstd::string::StringExecFns;

verus! {

/// An opaque 128-bit identifier; equality and hashing go by its 16 bytes.
#[derive(Clone, Copy, PartialEq, Eq, Hash, Debug)]
pub struct Guid {
    inner: [u8; 16],
}

/// Why a text is not an identifier.
#[derive(Clone, Copy, PartialEq, Eq, Debug)]
pub enum GUIDParsingError {
    /// Fewer than 32 characters, or fewer than 32 hexadecimal digits among them.
    TooShort,
    /// More than 36 characters.
    TooLong,
    /// A character that is neither a hexadecimal digit nor a hyphen.
    InvalidCharacter,
}

impl GUIDParsingError {
    /// The words that describe the error.
    pub open spec fn message_spec(self) -> Seq<char> {
        match self {
            GUIDParsingError::TooShort => "String provided is too short"@,
            GUIDParsingError::TooLong => "String provided is too long"@,
            GUIDParsingError::InvalidCharacter => "String contains invalid characters"@,
        }
    }

    /// The words that describe the error.
    pub fn to_string(&self) -> (s: String)
        ensures
            s@ == self.message_spec(),
    {
        match self {
            GUIDParsingError::TooShort => "String provided is too short".to_owned(),
            GUIDParsingError::TooLong => "String provided is too long".to_owned(),
            GUIDParsingError::InvalidCharacter => "String contains invalid characters".to_owned(),
        }
    }
}

impl View for Guid {
    type V = Seq<u8>;

    /// The 16 bytes, most significant first.
    closed spec fn view(&self) -> Seq<u8> {
        self.inner@
    }
}

/// The value of one hexadecimal digit, or `None` for any other character.
pub open spec fn hex_value(c: char) -> Option<u8> {
    if '0' <= c <= '9' {
        Some((c as u32 - '0' as u32) as u8)
    } else if 'a' <= c <= 'f' {
        Some((c as u32 - 'a' as u32 + 10) as u8)
    } else if 'A' <= c <= 'F' {
        Some((c as u32 - 'A' as u32 + 10) as u8)
    } else {
        None
    }
}

/// The value of a hexadecimal digit as an integer (0 for any other character).
pub open spec fn nibble(c: char) -> int {
    match hex_value(c) {
        Some(n) => n as int,
        None => 0,
    }
}

/// The upper-case hexadecimal digit for a value below 16.
pub open spec fn hex_upper(n: int) -> char {
    digit_char(n)
}

/// The text without its hyphens.
pub open spec fn hex_digits(s: Seq<char>) -> Seq<char> {
    s.filter(|c: char| c != '-')
}

/// Every character is a hexadecimal digit or a hyphen.
pub open spec fn all_hex_or_hyphen(s: Seq<char>) -> bool {
    forall|i: int| 0 <= i < s.len() ==> s[i] == '-' || hex_value(#[trigger] s[i]) is Some
}

/// The 16 bytes held by the first 32 digits of `d`, two digits per byte, high nibble first.
pub open spec fn pack(d: Seq<char>) -> Seq<u8> {
    Seq::new(16, |i: int| (16 * nibble(d[2 * i]) + nibble(d[2 * i + 1])) as u8)
}

/// What parsing a text yields: the length is judged first, then the characters, then the
/// number of digits.
pub open spec fn parse_spec(s: Seq<char>) -> Result<Seq<u8>, GUIDParsingError> {
    if s.len() < 32 {
        Err(GUIDParsingError::TooShort)
    } else if s.len() > 36 {
        Err(GUIDParsingError::TooLong)
    } else if !all_hex_or_hyphen(s) {
        Err(GUIDParsingError::InvalidCharacter)
    } else if hex_digits(s).len() < 32 {
        Err(GUIDParsingError::TooShort)
    } else {
        Ok(pack(hex_digits(s)))
    }
}

/// What parsing a brace-wrapped text yields: the first and the last character must be the
/// braces, and what stands between them is parsed as an identifier.
pub open spec fn parse_braced_spec(s: Seq<char>) -> Result<Seq<u8>, GUIDParsingError> {
    if s.len() < 2 {
        Err(GUIDParsingError::TooShort)
    } else if s.first() != '{' || s.last() != '}' {
        Err(GUIDParsingError::InvalidCharacter)
    } else {
        parse_spec(s.subrange(1, s.len() - 1))
    }
}

/// Two upper-case hexadecimal digits per byte.
pub open spec fn hex_text(b: Seq<u8>) -> Seq<char> {
    Seq::new(
        2 * b.len(),
        |i: int|
            hex_upper(
                if i % 2 == 0 {
                    b[i / 2] as int / 16
                } else {
                    b[i / 2] as int % 16
                },
            ),
    )
}

/// The canonical text of 16 bytes: upper-case digits grouped 8-4-4-4-12.
pub open spec fn format_spec(b: Seq<u8>) -> Seq<char> {
    hex_text(b.subrange(0, 4)) + seq!['-'] + hex_text(b.subrange(4, 6)) + seq!['-'] + hex_text(
        b.subrange(6, 8),
    ) + seq!['-'] + hex_text(b.subrange(8, 10)) + seq!['-'] + hex_text(b.subrange(10, 16))
}

/// The canonical text of 16 bytes between braces.
pub open spec fn braced_spec(b: Seq<u8>) -> Seq<char> {
    seq!['{'] + format_spec(b) + seq!['}']
}

/// An outcome of parsing, with the identifier replaced by its bytes.
pub open spec fn parsed(r: Result<Guid, GUIDParsingError>) -> Result<Seq<u8>, GUIDParsingError> {
    match r {
        Ok(g) => Ok(g@),
        Err(e) => Err(e),
    }
}

/// Decodes one hexadecimal digit of either case.
pub fn hex_to_num(c: char) -> (r: Option<u8>)
    ensures
        r == hex_value(c),
        r matches Some(n) ==> n < 16,
{
    let code: u32 = c as u32;
    if 48 <= code && code <= 57 {
        Some((code - 48) as u8)
    } else if 97 <= code && code <= 102 {
        Some((code - 97 + 10) as u8)
    } else if 65 <= code && code <= 70 {
        Some((code - 65 + 10) as u8)
    } else {
        None
    }
}

/// Extending a text by one character extends its digits by that character, unless it is a
/// hyphen.
proof fn lemma_digits_step(s: Seq<char>, i: int)
    requires
        0 <= i < s.len(),
    ensures
        hex_digits(s.take(i + 1)) == if s[i] == '-' {
            hex_digits(s.take(i))
        } else {
            hex_digits(s.take(i)).push(s[i])
        },
{
    reveal(Seq::filter);
    assert(s.take(i + 1).drop_last() == s.take(i));
}

/// Appends two upper-case digits for each of `bytes[from..to]`.
fn push_hex(s: &mut String, bytes: &[u8; 16], from: usize, to: usize)
    requires
        from <= to <= 16,
    ensures
        final(s)@ == old(s)@ + hex_text(bytes@.subrange(from as int, to as int)),
{
    let mut i: usize = from;
    assert(old(s)@ + hex_text(bytes@.subrange(from as int, from as int)) == old(s)@);
    while i < to
        invariant
            from <= i <= to <= 16,
            s@ == old(s)@ + hex_text(bytes@.subrange(from as int, i as int)),
        decreases to - i,
    {
        let b = bytes[i];
        let ghost so_far = s@;
        s.append(digit_text(b / 16));
        s.append(digit_text(b % 16));
        assert(s@ =~= so_far.push(hex_upper(b as int / 16)).push(hex_upper(b as int % 16)));
        assert(hex_text(bytes@.subrange(from as int, i + 1)) == hex_text(
            bytes@.subrange(from as int, i as int),
        ).push(hex_upper(b as int / 16)).push(hex_upper(b as int % 16)));
        i = i + 1;
    }
}

impl Guid {
    /// The identifier with the given bytes.
    pub fn from_bytes(bytes: [u8; 16]) -> (g: Guid)
        ensures
            g@ == bytes@,
    {
        Guid { inner: bytes }
    }

    /// The 16 bytes of the identifier.
    pub fn to_bytes(&self) -> (bytes: [u8; 16])
        ensures
            bytes@ == self@,
    {
        self.inner
    }

    /// An identifier always has 16 bytes.
    pub proof fn lemma_len(self)
        ensures
            self@.len() == 16,
    {
    }

    /// Parses an identifier from 32 hexadecimal digits of either case, with hyphens allowed
    /// anywhere among them, in a text of 32 to 36 characters.
    pub fn try_from(s: &str) -> (r: Result<Guid, GUIDParsingError>)
        ensures
            parsed(r) == parse_spec(s@),
            s@.len() < 32 ==> r == Err::<Guid, _>(GUIDParsingError::TooShort),
            s@.len() > 36 ==> r == Err::<Guid, _>(GUIDParsingError::TooLong),
            32 <= s@.len() <= 36 && !all_hex_or_hyphen(s@) ==> r == Err::<Guid, _>(
                GUIDParsingError::InvalidCharacter,
            ),
    {
        let chars = chars_of(s);
        assert(chars@.subrange(0, chars@.len() as int) == s@);
        Guid::from_chars(&chars, 0, chars.len())
    }

    /// Parses an identifier that is wrapped in one pair of braces.
    pub fn from_braced(s: &str) -> (r: Result<Guid, GUIDParsingError>)
        ensures
            parsed(r) == parse_braced_spec(s@),
    {
        let chars = chars_of(s);
        let n = chars.len();
        if n < 2 {
            return Err(GUIDParsingError::TooShort);
        }
        if chars[0] != '{' || chars[n - 1] != '}' {
            return Err(GUIDParsingError::InvalidCharacter);
        }
        Guid::from_chars(&chars, 1, n - 1)
    }

    /// Parses the characters `chars[from..to]`.
    fn from_chars(chars: &Vec<char>, from: usize, to: usize) -> (r: Result<Guid, GUIDParsingError>)
        requires
            from <= to <= chars.len(),
        ensures
            parsed(r) == parse_spec(chars@.subrange(from as int, to as int)),
    {
        let ghost s = chars@.subrange(from as int, to as int);
        let n = to - from;
        if n < 32 {
            return Err(GUIDParsingError::TooShort);
        }
        if n > 36 {
            return Err(GUIDParsingError::TooLong);
        }
        let mut inner = [0u8; 16];
        let mut count: usize = 0;
        let mut high: u8 = 0;
        let mut i: usize = 0;
        proof {
            reveal(Seq::filter);
            assert(s.take(0).len() == 0);
        }
        while i < n
            invariant
                from <= to <= chars.len(),
                n == to - from,
                s == chars@.subrange(from as int, to as int),
                32 <= n <= 36,
                i <= n,
                all_hex_or_hyphen(s.take(i as int)),
                count == hex_digits(s.take(i as int)).len(),
                count <= i,
                high < 16,
                count % 2 == 1 && count < 32 ==> high == nibble(
                    hex_digits(s.take(i as int))[count - 1],
                ),
                forall|k: int|
                    0 <= k < 16 && 2 * k + 1 < count ==> inner@[k] == 16 * nibble(
                        hex_digits(s.take(i as int))[2 * k],
                    ) + nibble(hex_digits(s.take(i as int))[2 * k + 1]),
            decreases n - i,
        {
            let c = chars[from + i];
            proof {
                lemma_digits_step(s, i as int);
                assert(s[i as int] == c);
            }
            let ghost before = hex_digits(s.take(i as int));
            if c != '-' {
                match hex_to_num(c) {
                    None => {
                        assert(hex_value(s[i as int]) is None);
                        return Err(GUIDParsingError::InvalidCharacter);
                    },
                    Some(v) => {
                        if count < 32 {
                            if count % 2 == 0 {
                                high = v;
                            } else {
                                inner[count / 2] = high * 16 + v;
                            }
                        }
                        count = count + 1;
                        assert(hex_digits(s.take(i + 1)) == before.push(c));
                    },
                }
            }
            assert forall|j: int| 0 <= j < i + 1 implies s.take(i + 1)[j] == '-' || hex_value(
                #[trigger] s.take(i + 1)[j],
            ) is Some by {
                if j < i {
                    assert(s.take(i as int)[j] == s.take(i + 1)[j]);
                }
            }
            i = i + 1;
        }
        assert(s.take(n as int) == s);
        if count < 32 {
            return Err(GUIDParsingError::TooShort);
        }
        let g = Guid { inner };
        assert(g@ =~= pack(hex_digits(s)));
        Ok(g)
    }

    /// Appends the canonical text to `s`.
    fn push_text(&self, s: &mut String)
        ensures
            final(s)@ == old(s)@ + format_spec(self@),
    {
        proof {
            reveal_strlit("-");
        }
        push_hex(s, &self.inner, 0, 4);
        s.append("-");
        push_hex(s, &self.inner, 4, 6);
        s.append("-");
        push_hex(s, &self.inner, 6, 8);
        s.append("-");
        push_hex(s, &self.inner, 8, 10);
        s.append("-");
        push_hex(s, &self.inner, 10, 16);
        assert("-"@ =~= seq!['-']);
        assert(s@ =~= old(s)@ + format_spec(self@));
    }

    /// The canonical text: 32 upper-case hexadecimal digits grouped 8-4-4-4-12 by hyphens.
    pub fn to_string(&self) -> (s: String)
        ensures
            s@ == format_spec(self@),
    {
        let mut s = String::new();
        self.push_text(&mut s);
        assert(s@ =~= format_spec(self@));
        s
    }

    /// The canonical text between braces, as `from_braced` reads it.
    pub fn to_braced_string(&self) -> (s: String)
        ensures
            s@ == braced_spec(self@),
    {
        proof {
            reveal_strlit("{");
            reveal_strlit("}");
        }
        let mut s = String::new();
        s.append("{");
        self.push_text(&mut s);
        s.append("}");
        assert("{"@ =~= seq!['{'] && "}"@ =~= seq!['}']);
        assert(s@ =~= braced_spec(self@));
        s
    }
}

} // verus!
