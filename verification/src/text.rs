//! Character-level helpers shared by the decoders.

use vstd::prelude::*;

verus! {

/// The digit for a value below 16: `0` to `9`, then `A` to `F`.
pub open spec fn digit_char(n: int) -> char {
    if n < 10 {
        ('0' as int + n) as char
    } else {
        ('A' as int + n - 10) as char
    }
}

/// The text that holds nothing but the digit for a value below 16.
pub(crate) fn digit_text(n: u8) -> (t: &'static str)
    requires
        n < 16,
    ensures
        t@ == seq![digit_char(n as int)],
{
    proof {
        reveal_strlit("0");
        reveal_strlit("1");
        reveal_strlit("2");
        reveal_strlit("3");
        reveal_strlit("4");
        reveal_strlit("5");
        reveal_strlit("6");
        reveal_strlit("7");
        reveal_strlit("8");
        reveal_strlit("9");
        reveal_strlit("A");
        reveal_strlit("B");
        reveal_strlit("C");
        reveal_strlit("D");
        reveal_strlit("E");
        reveal_strlit("F");
    }
    let t = match n {
        0 => "0",
        1 => "1",
        2 => "2",
        3 => "3",
        4 => "4",
        5 => "5",
        6 => "6",
        7 => "7",
        8 => "8",
        9 => "9",
        10 => "A",
        11 => "B",
        12 => "C",
        13 => "D",
        14 => "E",
        _ => "F",
    };
    assert(t@ =~= seq![digit_char(n as int)]);
    t
}

/// The characters of `s`, in order, as a vector that can be indexed in constant time.
pub fn chars_of(s: &str) -> (v: Vec<char>)
    ensures
        v@ == s@,
{
    let mut v: Vec<char> = Vec::new();
    for c in it: s.chars()
        invariant
            it.seq() == s@,
            v@ == s@.take(it.index() as int),
    {
        v.push(c);
        assert(s@.take(it.index() + 1) == s@.take(it.index() as int).push(s@[it.index() as int]));
    }
    assert(s@.take(s@.len() as int) == s@);
    v
}

/// Whether two sequences of characters are the same.
pub fn same_chars(a: &Vec<char>, b: &Vec<char>) -> (r: bool)
    ensures
        r == (a@ == b@),
{
    if a.len() != b.len() {
        return false;
    }
    let mut i: usize = 0;
    while i < a.len()
        invariant
            i <= a.len() == b.len(),
            forall|k: int| 0 <= k < i ==> a@[k] == b@[k],
        decreases a.len() - i,
    {
        if a[i] != b[i] {
            return false;
        }
        i = i + 1;
    }
    assert(a@ =~= b@);
    true
}

/// Whether two texts hold the same characters.
pub fn same_text(a: &str, b: &str) -> (r: bool)
    ensures
        r == (a@ == b@),
{
    same_chars(&chars_of(a), &chars_of(b))
}

/// Whether `needle` occurs in `hay` as a block of consecutive characters.
pub open spec fn occurs_in(needle: Seq<char>, hay: Seq<char>) -> bool {
    exists|i: int| occurs_at(needle, hay, i)
}

/// Whether `needle` occurs in `hay` starting at position `i`.
pub open spec fn occurs_at(needle: Seq<char>, hay: Seq<char>, i: int) -> bool {
    0 <= i && i + needle.len() <= hay.len() && hay.subrange(i, i + needle.len()) == needle
}

/// Whether `hay[at..]` starts with `needle`.
fn matches_at(needle: &Vec<char>, hay: &Vec<char>, at: usize) -> (r: bool)
    requires
        at + needle.len() <= hay.len(),
    ensures
        r == occurs_at(needle@, hay@, at as int),
{
    let mut k: usize = 0;
    while k < needle.len()
        invariant
            k <= needle.len(),
            at + needle.len() <= hay.len(),
            forall|j: int| 0 <= j < k ==> hay@[at + j] == needle@[j],
        decreases needle.len() - k,
    {
        if hay[at + k] != needle[k] {
            assert(hay@.subrange(at as int, at + needle.len())[k as int] != needle@[k as int]);
            return false;
        }
        k = k + 1;
    }
    assert(hay@.subrange(at as int, at + needle.len()) =~= needle@);
    true
}

/// Substring search: whether `needle` occurs anywhere in `hay`.
pub fn contains_text(hay: &str, needle: &str) -> (r: bool)
    ensures
        r == occurs_in(needle@, hay@),
{
    let h = chars_of(hay);
    let n = chars_of(needle);
    if n.len() > h.len() {
        return false;
    }
    let last: usize = h.len() - n.len();
    let mut i: usize = 0;
    loop
        invariant
            i <= last,
            last == h.len() - n.len(),
            n.len() <= h.len(),
            h@ == hay@,
            n@ == needle@,
            forall|j: int| 0 <= j < i ==> !occurs_at(needle@, hay@, j),
        decreases last - i,
    {
        if matches_at(&n, &h, i) {
            return true;
        }
        if i == last {
            return false;
        }
        i = i + 1;
    }
}

} // verus!
