//! Helpers for JSON text that arrives damaged or too long.

use vstd::prelude::*;
use vstd::string::*;
use vstd::utf8::*;
use serde_json::Value;
use crate::json::{json_parse, parse};
use crate::text::push_char;

verus! {

/// How far the repair of a text has come.
pub struct Repair {
    /// The repaired text so far.
    pub out: Seq<char>,
    /// Whether the position is inside a JSON string.
    pub in_string: bool,
    /// The character before, carriage returns inside strings left out.
    pub previous: char,
}

/// The repair before the first character.
pub open spec fn repair_start() -> Repair {
    Repair { out: Seq::empty(), in_string: false, previous: '\0' }
}

/// The repair after one more character: a quotation mark that no backslash
/// precedes opens or closes a string; inside a string a line break is
/// written as its escape and a carriage return is dropped.
pub open spec fn repair_step(state: Repair, c: char) -> Repair {
    let in_string = if c == '"' && state.previous != '\\' {
        !state.in_string
    } else {
        state.in_string
    };
    if c == '\n' && in_string {
        Repair { out: state.out.push('\\').push('n'), in_string, previous: c }
    } else if c == '\r' && in_string {
        Repair { in_string, ..state }
    } else {
        Repair { out: state.out.push(c), in_string, previous: c }
    }
}

/// The repair after all of `text`.
pub open spec fn repair(text: Seq<char>) -> Repair
    decreases text.len(),
{
    if text.len() == 0 {
        repair_start()
    } else {
        repair_step(repair(text.drop_last()), text.last())
    }
}

/// `text` with the line breaks inside its strings escaped and a string that
/// is still open at its end closed.
pub open spec fn with_strings_closed(text: Seq<char>) -> Seq<char> {
    let done = repair(text);
    if done.in_string {
        done.out.push('"')
    } else {
        done.out
    }
}

/// How often `wanted` occurs in `text`.
pub open spec fn occurrences(text: Seq<char>, wanted: char) -> nat
    decreases text.len(),
{
    if text.len() == 0 {
        0
    } else {
        occurrences(text.drop_last(), wanted) + if text.last() == wanted {
            1nat
        } else {
            0nat
        }
    }
}

/// How many closers are missing for `opener`: none where there are at least
/// as many closers as openers.
pub open spec fn missing(text: Seq<char>, opener: char, closer: char) -> nat {
    if occurrences(text, opener) > occurrences(text, closer) {
        (occurrences(text, opener) - occurrences(text, closer)) as nat
    } else {
        0
    }
}

/// `count` times the character `c`.
pub open spec fn repeated(c: char, count: nat) -> Seq<char> {
    Seq::new(count, |i: int| c)
}

/// `text` with its strings closed and then the braces and the brackets
/// appended that it opens and never closes, braces first.
pub open spec fn with_brackets_closed(text: Seq<char>) -> Seq<char> {
    with_strings_closed(text) + repeated('}', missing(text, '{', '}')) + repeated(
        ']',
        missing(text, '[', ']'),
    )
}

/// What [`parse_json_safely`] returns: the reading of the text as it is, or
/// else with its strings closed, or else with its brackets closed too.
pub open spec fn safely_parsed(text: Seq<char>) -> Result<Value, serde_json::Error> {
    match json_parse(text) {
        Ok(value) => Ok(value),
        Err(_) => match json_parse(with_strings_closed(text)) {
            Ok(value) => Ok(value),
            Err(_) => json_parse(with_brackets_closed(text)),
        },
    }
}

/// No character occurs more often than the text is long.
pub proof fn lemma_occurrences_bound(text: Seq<char>, wanted: char)
    ensures
        occurrences(text, wanted) <= text.len(),
    decreases text.len(),
{
    if text.len() > 0 {
        lemma_occurrences_bound(text.drop_last(), wanted);
    }
}

/// Counts how often `wanted` occurs in `text`.
pub fn count_char(text: &str, wanted: char) -> (count: usize)
    ensures
        count == occurrences(text@, wanted),
{
    let length = text.unicode_len();
    let mut count: usize = 0;
    assert(text@.take(0) =~= Seq::<char>::empty());
    for c in it: text.chars()
        invariant
            it.seq() == text@,
            length == text@.len(),
            count == occurrences(text@.take(it.index() as int), wanted),
    {
        proof {
            let seen = text@.take(it.index() + 1);
            assert(seen.drop_last() =~= text@.take(it.index() as int));
            assert(seen.last() == c);
            lemma_occurrences_bound(seen, wanted);
        }
        if c == wanted {
            count = count + 1;
        }
    }
    assert(text@.take(text@.len() as int) =~= text@);
    count
}

/// Appends `count` times the character `c`.
fn push_repeated(text: &mut String, c: char, count: usize)
    ensures
        final(text)@ == old(text)@ + repeated(c, count as nat),
{
    let mut i: usize = 0;
    assert(text@ =~= old(text)@ + repeated(c, 0));
    while i < count
        invariant
            0 <= i <= count,
            text@ == old(text)@ + repeated(c, i as nat),
        decreases count - i,
    {
        push_char(text, c);
        i = i + 1;
        assert(text@ =~= old(text)@ + repeated(c, i as nat));
    }
}

/// Escapes the line breaks inside the strings of `text` and closes a string
/// that is still open at its end.
pub fn close_strings(text: &str) -> (fixed: String)
    ensures
        fixed@ == with_strings_closed(text@),
{
    let mut fixed = String::new();
    let mut in_string = false;
    let mut previous = '\0';
    assert(text@.take(0) =~= Seq::<char>::empty());
    for c in it: text.chars()
        invariant
            it.seq() == text@,
            (Repair { out: fixed@, in_string, previous }) == repair(
                text@.take(it.index() as int),
            ),
    {
        proof {
            let seen = text@.take(it.index() + 1);
            assert(seen.drop_last() =~= text@.take(it.index() as int));
            assert(seen.last() == c);
        }
        if c == '"' && previous != '\\' {
            in_string = !in_string;
        }
        if c == '\n' && in_string {
            push_char(&mut fixed, '\\');
            push_char(&mut fixed, 'n');
            previous = c;
        } else if c == '\r' && in_string {
        } else {
            push_char(&mut fixed, c);
            previous = c;
        }
    }
    assert(text@.take(text@.len() as int) =~= text@);
    if in_string {
        push_char(&mut fixed, '"');
    }
    fixed
}

/// Reads `json_str` as JSON, and where that fails tries to mend it: first by
/// escaping line breaks inside strings and closing an open string, then by
/// appending the braces and brackets that are opened and never closed.
pub fn parse_json_safely(json_str: &str) -> (result: Result<Value, serde_json::Error>)
    ensures
        result == safely_parsed(json_str@),
{
    match parse(json_str) {
        Ok(value) => {
            return Ok(value);
        },
        Err(_) => {},
    }
    let mut fixed = close_strings(json_str);
    match parse(fixed.as_str()) {
        Ok(value) => {
            return Ok(value);
        },
        Err(_) => {},
    }
    let open_braces = count_char(json_str, '{');
    let close_braces = count_char(json_str, '}');
    let open_brackets = count_char(json_str, '[');
    let close_brackets = count_char(json_str, ']');
    if open_braces > close_braces {
        push_repeated(&mut fixed, '}', open_braces - close_braces);
    } else {
        assert(fixed@ + repeated('}', 0) =~= fixed@);
    }
    if open_brackets > close_brackets {
        push_repeated(&mut fixed, ']', open_brackets - close_brackets);
    } else {
        assert(fixed@ + repeated(']', 0) =~= fixed@);
    }
    parse(fixed.as_str())
}

/// The last position of `byte` in `bytes`, or `-1` where it does not occur.
pub open spec fn last_position(bytes: Seq<u8>, byte: u8) -> int
    decreases bytes.len(),
{
    if bytes.len() == 0 {
        -1
    } else if bytes.last() == byte {
        bytes.len() - 1
    } else {
        last_position(bytes.drop_last(), byte)
    }
}

/// The character at `index`, if there is one.
pub open spec fn char_at(chars: Seq<char>, index: int) -> Option<char> {
    if 0 <= index < chars.len() {
        Some(chars[index])
    } else {
        None
    }
}

/// How many bytes of a text that is longer than `max` bytes are kept: the
/// text is cut after the last closing brace among its first `max` bytes, or
/// else after the last closing bracket, or else after the last quotation
/// mark unless a backslash is found before it, or else at `max`.
///
/// The backslash is looked for among the characters of the first `max`
/// bytes, at the position one less than the byte position of the mark.
pub open spec fn cut_point(bytes: Seq<u8>, max: int) -> int {
    let head = bytes.subrange(0, max);
    let brace = last_position(head, 0x7d);
    let bracket = last_position(head, 0x5d);
    let quote = last_position(head, 0x22);
    if brace >= 0 {
        brace + 1
    } else if bracket >= 0 {
        bracket + 1
    } else if quote >= 0 && char_at(
        decode_utf8(head),
        if quote > 0 {
            quote - 1
        } else {
            0
        },
    ) != Some('\\') {
        quote + 1
    } else {
        max
    }
}

/// The bytes of `text` cut to at most `max` bytes at a place that is likely
/// to leave valid JSON.
pub open spec fn truncated_json(text: Seq<char>, max: int) -> Seq<u8> {
    let bytes = encode_utf8(text);
    if bytes.len() <= max {
        bytes
    } else {
        bytes.subrange(0, cut_point(bytes, max))
    }
}

/// A position is the last one of `byte` exactly if it holds the byte and
/// nothing after it does.
pub proof fn lemma_last_position(bytes: Seq<u8>, byte: u8, at: int)
    requires
        -1 <= at < bytes.len(),
        forall|j: int| at < j < bytes.len() ==> bytes[j] != byte,
        at >= 0 ==> bytes[at] == byte,
    ensures
        last_position(bytes, byte) == at,
    decreases bytes.len(),
{
    if bytes.len() > 0 && at < bytes.len() - 1 {
        let init = bytes.drop_last();
        assert forall|j: int| at < j < init.len() implies init[j] != byte by {
            assert(init[j] == bytes[j]);
        }
        lemma_last_position(init, byte, at);
    }
}

/// In well-formed UTF-8 a character ends with every byte below `0x80`.
pub proof fn lemma_boundary_after_ascii(bytes: Seq<u8>, at: int)
    requires
        valid_utf8(bytes),
        0 <= at < bytes.len(),
        bytes[at] < 0x80,
    ensures
        is_char_boundary(bytes, at + 1),
    decreases bytes.len(),
{
    reveal_with_fuel(is_char_boundary, 2);
    reveal_with_fuel(valid_utf8, 2);
    let width = length_of_first_scalar(bytes);
    if at < width {
        assert(at == 0);
        assert(width == 1);
    } else {
        let rest = pop_first_scalar(bytes);
        assert(rest[at - width] == bytes[at]);
        lemma_boundary_after_ascii(rest, at - width);
    }
}

/// Finds the last position of `byte` in `bytes`.
fn find_last(bytes: &[u8], byte: u8) -> (found: Option<usize>)
    ensures
        match found {
            Some(at) => at < bytes@.len() && bytes@[at as int] == byte && last_position(
                bytes@,
                byte,
            ) == at,
            None => last_position(bytes@, byte) == -1,
        },
{
    let mut i: usize = bytes.len();
    while i > 0
        invariant
            0 <= i <= bytes.len(),
            forall|j: int| i <= j < bytes.len() ==> bytes@[j] != byte,
        decreases i,
    {
        if bytes[i - 1] == byte {
            proof {
                lemma_last_position(bytes@, byte, i - 1);
            }
            return Some(i - 1);
        }
        i = i - 1;
    }
    proof {
        lemma_last_position(bytes@, byte, -1);
    }
    None
}

/// Cuts `json_str` to at most `max_length` bytes, at a place that is likely
/// to leave valid JSON. A text that is longer than `max_length` bytes must
/// have a character boundary there.
pub fn truncate_json_safely(json_str: &str, max_length: usize) -> (cut: String)
    requires
        encode_utf8(json_str@).len() > max_length ==> is_char_boundary(
            encode_utf8(json_str@),
            max_length as int,
        ),
    ensures
        encode_utf8(cut@) == truncated_json(json_str@, max_length as int),
{
    broadcast use {encode_utf8_valid_utf8, encode_utf8_decode_utf8};

    let ghost bytes = encode_utf8(json_str@);
    if json_str.as_bytes().len() <= max_length {
        return String::from_str(json_str);
    }
    let (truncated, _) = json_str.split_at(max_length);
    let head = truncated.as_bytes();
    assert(head@ == bytes.subrange(0, max_length as int));
    assert(decode_utf8(head@) == truncated@);
    let keep = match find_last(head, 0x7d) {
        Some(brace) => brace + 1,
        None => match find_last(head, 0x5d) {
            Some(bracket) => bracket + 1,
            None => match find_last(head, 0x22) {
                Some(quote) => {
                    let before = if quote > 0 {
                        quote - 1
                    } else {
                        0
                    };
                    let escaped = before < truncated.unicode_len() && truncated.get_char(before)
                        == '\\';
                    if escaped {
                        max_length
                    } else {
                        quote + 1
                    }
                },
                None => max_length,
            },
        },
    };
    proof {
        if keep < max_length || (keep == max_length && cut_point(bytes, max_length as int)
            != max_length) {
            assert(head@[keep - 1] == bytes[keep - 1]);
            lemma_boundary_after_ascii(bytes, keep - 1);
        }
    }
    let (kept, _) = json_str.split_at(keep);
    String::from_str(kept)
}

} // verus!
