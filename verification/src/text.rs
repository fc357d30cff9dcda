//! Text primitives that the parsers rely on: some written out and proved
//! here, the others those of the standard library with the contract the
//! verified code is checked against.

use vstd::prelude::*;
use vstd::string::*;
use vstd::utf8::*;

verus! {

/// Whether `c` is white space to `str::trim`: whether it carries the Unicode
/// `White_Space` property. These are the characters U+0009 to U+000D,
/// U+0020, U+0085, U+00A0, U+1680, U+2000 to U+200A, U+2028, U+2029, U+202F,
/// U+205F and U+3000.
pub open spec fn white_space(c: char) -> bool {
    let code = c as u32;
    ||| 0x0009 <= code <= 0x000D
    ||| code == 0x0020
    ||| code == 0x0085
    ||| code == 0x00A0
    ||| code == 0x1680
    ||| 0x2000 <= code <= 0x200A
    ||| code == 0x2028
    ||| code == 0x2029
    ||| code == 0x202F
    ||| code == 0x205F
    ||| code == 0x3000
}

/// What `String::from_utf8_lossy` makes of `bytes`.
pub uninterp spec fn utf8_lossy(bytes: Seq<u8>) -> Seq<char>;

/// `s` without its leading white space.
pub open spec fn trim_start(s: Seq<char>) -> Seq<char>
    decreases s.len(),
{
    if s.len() > 0 && white_space(s[0]) {
        trim_start(s.drop_first())
    } else {
        s
    }
}

/// `s` without its trailing white space.
pub open spec fn trim_end(s: Seq<char>) -> Seq<char>
    decreases s.len(),
{
    if s.len() > 0 && white_space(s.last()) {
        trim_end(s.drop_last())
    } else {
        s
    }
}

/// `s` without leading and trailing white space.
pub open spec fn trimmed(s: Seq<char>) -> Seq<char> {
    trim_end(trim_start(s))
}

/// Whether `s` begins with `prefix`.
pub open spec fn has_prefix(s: Seq<char>, prefix: Seq<char>) -> bool {
    prefix.len() <= s.len() && s.subrange(0, prefix.len() as int) == prefix
}

/// `s` with `prefix` removed from its front, where it has that prefix.
pub open spec fn without_prefix(s: Seq<char>, prefix: Seq<char>) -> Option<Seq<char>> {
    if has_prefix(s, prefix) {
        Some(s.subrange(prefix.len() as int, s.len() as int))
    } else {
        None
    }
}

/// `s` without the characters `c` at its front.
pub open spec fn strip_start(s: Seq<char>, c: char) -> Seq<char>
    decreases s.len(),
{
    if s.len() > 0 && s[0] == c {
        strip_start(s.drop_first(), c)
    } else {
        s
    }
}

/// `s` without the characters `c` at its end.
pub open spec fn strip_end(s: Seq<char>, c: char) -> Seq<char>
    decreases s.len(),
{
    if s.len() > 0 && s.last() == c {
        strip_end(s.drop_last(), c)
    } else {
        s
    }
}

/// `s` without the characters `c` at its front and at its end.
pub open spec fn stripped(s: Seq<char>, c: char) -> Seq<char> {
    strip_end(strip_start(s, c), c)
}

/// Whether `s` ends with `suffix`.
pub open spec fn has_suffix(s: Seq<char>, suffix: Seq<char>) -> bool {
    suffix.len() <= s.len() && s.subrange(s.len() - suffix.len(), s.len() as int) == suffix
}

/// `s` with `suffix` removed from its end as often as it stands there.
pub open spec fn without_suffixes(s: Seq<char>, suffix: Seq<char>) -> Seq<char>
    decreases s.len(),
{
    if suffix.len() > 0 && has_suffix(s, suffix) {
        without_suffixes(s.subrange(0, s.len() - suffix.len()), suffix)
    } else {
        s
    }
}

/// Whether `pattern` occurs somewhere in `s`.
pub open spec fn has_substring(s: Seq<char>, pattern: Seq<char>) -> bool {
    exists|i: int|
        0 <= i <= s.len() - pattern.len() && #[trigger] s.subrange(i, i + pattern.len())
            == pattern
}

/// The rest of `s` after `prefix`, or `None` where `s` does not begin with
/// it.
pub fn strip_prefix<'a>(s: &'a str, prefix: &str) -> (r: Option<&'a str>)
    ensures
        match r {
            Some(rest) => without_prefix(s@, prefix@) == Some(rest@),
            None => without_prefix(s@, prefix@) is None,
        },
{
    let length = s.unicode_len();
    let width = prefix.unicode_len();
    if width > length {
        return None;
    }
    let mut i: usize = 0;
    while i < width
        invariant
            0 <= i <= width <= length,
            length == s@.len(),
            width == prefix@.len(),
            forall|j: int| 0 <= j < i ==> s@[j] == prefix@[j],
        decreases width - i,
    {
        if s.get_char(i) != prefix.get_char(i) {
            assert(s@.subrange(0, width as int)[i as int] != prefix@[i as int]);
            return None;
        }
        i = i + 1;
    }
    assert(s@.subrange(0, width as int) =~= prefix@);
    Some(s.substring_char(width, length))
}

/// Whether `pattern` stands in `s` at position `at`.
fn stands_at(s: &str, pattern: &str, at: usize) -> (r: bool)
    requires
        at + pattern@.len() <= s@.len(),
    ensures
        r == (s@.subrange(at as int, at + pattern@.len()) == pattern@),
{
    let width = pattern.unicode_len();
    let length = s.unicode_len();
    let mut j: usize = 0;
    while j < width
        invariant
            0 <= j <= width,
            width == pattern@.len(),
            length == s@.len(),
            at + width <= length,
            forall|k: int| 0 <= k < j ==> s@[at + k] == pattern@[k],
        decreases width - j,
    {
        if s.get_char(at + j) != pattern.get_char(j) {
            assert(s@.subrange(at as int, at + width)[j as int] != pattern@[j as int]);
            return false;
        }
        j = j + 1;
    }
    assert(s@.subrange(at as int, at + width) =~= pattern@);
    true
}

/// Whether `pattern` occurs in `s` as a contiguous run of characters.
pub fn contains(s: &str, pattern: &str) -> (r: bool)
    ensures
        r == has_substring(s@, pattern@),
{
    let length = s.unicode_len();
    let width = pattern.unicode_len();
    if width > length {
        return false;
    }
    let last = length - width;
    let mut at: usize = 0;
    loop
        invariant
            0 <= at <= last,
            last == length - width,
            length == s@.len(),
            width == pattern@.len(),
            forall|k: int|
                0 <= k < at ==> #[trigger] s@.subrange(k, k + pattern@.len()) != pattern@,
        decreases last - at,
    {
        if stands_at(s, pattern, at) {
            return true;
        }
        if at == last {
            return false;
        }
        at = at + 1;
    }
}

/// Whether two string slices hold the same characters.
pub fn same_text(a: &str, b: &str) -> (r: bool)
    ensures
        r == (a@ == b@),
{
    a.to_owned() == b.to_owned()
}

/// `String::from_utf8_lossy`: the result is a function of the bytes alone,
/// and for well-formed UTF-8 it is the decoded text.
#[verifier::external_body]
pub(crate) fn decode_lossy(bytes: &[u8]) -> (r: String)
    ensures
        r@ == utf8_lossy(bytes@),
        valid_utf8(bytes@) ==> r@ == decode_utf8(bytes@),
{
    String::from_utf8_lossy(bytes).into_owned()
}

/// `str::trim`: the slice between the first and the last character that is
/// not white space.
#[verifier::external_body]
pub(crate) fn trim<'a>(s: &'a str) -> (r: &'a str)
    ensures
        r@ == trimmed(s@),
{
    s.trim()
}

/// `str::trim_matches` with a character: that character is removed from
/// both ends as often as it stands there.
#[verifier::external_body]
pub(crate) fn trim_matches<'a>(s: &'a str, c: char) -> (r: &'a str)
    ensures
        r@ == stripped(s@, c),
{
    s.trim_matches(c)
}

/// `str::trim_end_matches` with a string pattern that is not empty: the
/// pattern is removed from the end as often as it stands there.
#[verifier::external_body]
pub(crate) fn trim_end_matches<'a>(s: &'a str, suffix: &str) -> (r: &'a str)
    requires
        suffix@.len() > 0,
    ensures
        r@ == without_suffixes(s@, suffix@),
{
    s.trim_end_matches(suffix)
}

/// `String::push`: the character is appended.
#[verifier::external_body]
pub(crate) fn push_char(text: &mut String, c: char)
    ensures
        final(text)@ == old(text)@.push(c),
{
    text.push(c)
}

} // verus!
