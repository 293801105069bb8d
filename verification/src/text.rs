//! Text as sequences of characters.
//!
//! The rest of the library works on `Vec<char>` and on views (`Seq<char>`);
//! the few conversions that this needs from the standard library are here.

use vstd::prelude::*;
use vstd::string::StringSliceAdditionalSpecFns;

verus! {

/// The characters with the Unicode property `White_Space`.
pub open spec fn is_white_space(c: char) -> bool {
    let code = c as u32;
    ||| 0x09 <= code <= 0x0d
    ||| code == 0x20
    ||| code == 0x85
    ||| code == 0xa0
    ||| code == 0x1680
    ||| 0x2000 <= code <= 0x200a
    ||| code == 0x2028
    ||| code == 0x2029
    ||| code == 0x202f
    ||| code == 0x205f
    ||| code == 0x3000
}

/// `char::is_whitespace` answers whether a character has the Unicode property
/// `White_Space`; that property's code points are listed in `is_white_space`.
pub assume_specification[ char::is_whitespace ](c: char) -> (white: bool)
    ensures
        white == is_white_space(c),
;

/// `String::push` appends one character.
pub assume_specification[ String::push ](text: &mut String, c: char)
    ensures
        final(text)@ == old(text)@.push(c),
;

/// The error of `core::str::from_utf8`; nothing in it is read.
#[verifier::external_type_specification]
#[verifier::external_body]
pub struct ExUtf8Error(core::str::Utf8Error);

/// `core::str::from_utf8` succeeds on valid UTF-8 and on nothing else, and
/// then the text has exactly the bytes it was given.
pub assume_specification[ core::str::from_utf8 ](bytes: &[u8]) -> (text: Result<
    &str,
    core::str::Utf8Error,
>)
    ensures
        text is Ok <==> vstd::utf8::valid_utf8(bytes@),
        text matches Ok(t) ==> t.spec_bytes() == bytes@,
;

/// What the standard library's `Debug` formatting makes of a text: the text in
/// double quotes, with escapes.
pub uninterp spec fn debug_text(text: Seq<char>) -> Seq<char>;

/// The `Debug` formatting of `str`, through `format!`. Nothing is claimed of it
/// but that it depends on the text alone.
#[verifier::external_body]
pub(crate) fn debug_quoted(text: &str) -> (quoted: String)
    ensures
        quoted@ == debug_text(text@),
{
    format!("{text:?}")
}

/// The character with `A`-`Z` mapped to `a`-`z`, all others kept.
pub open spec fn ascii_lower(c: char) -> char {
    if 'A' <= c <= 'Z' {
        (c as u8 + 32) as char
    } else {
        c
    }
}

/// The text with `A`-`Z` mapped to `a`-`z`.
pub open spec fn ascii_lowercase(text: Seq<char>) -> Seq<char> {
    text.map_values(|c: char| ascii_lower(c))
}

/// The text without leading white space.
pub open spec fn trim_start(text: Seq<char>) -> Seq<char>
    decreases text.len(),
{
    if text.len() > 0 && is_white_space(text.first()) {
        trim_start(text.drop_first())
    } else {
        text
    }
}

/// The text without trailing white space.
pub open spec fn trim_end(text: Seq<char>) -> Seq<char>
    decreases text.len(),
{
    if text.len() > 0 && is_white_space(text.last()) {
        trim_end(text.drop_last())
    } else {
        text
    }
}

/// The text without leading and trailing white space.
pub open spec fn trim(text: Seq<char>) -> Seq<char> {
    trim_end(trim_start(text))
}

/// The text without the dots at its end.
pub open spec fn trim_end_dots(text: Seq<char>) -> Seq<char>
    decreases text.len(),
{
    if text.len() > 0 && text.last() == '.' {
        trim_end_dots(text.drop_last())
    } else {
        text
    }
}

/// Maps `A`-`Z` to `a`-`z` and keeps every other character.
pub fn to_ascii_lower(c: char) -> (lower: char)
    ensures
        lower == ascii_lower(c),
{
    if 'A' <= c && c <= 'Z' {
        (c as u8 + 32) as char
    } else {
        c
    }
}

/// The characters of a text.
pub fn chars_of(text: &str) -> (chars: Vec<char>)
    ensures
        chars@ == text@,
{
    let mut chars: Vec<char> = Vec::new();
    for c in it: text.chars()
        invariant
            it.seq() == text@,
            chars@ == text@.take(it.index() as int),
    {
        chars.push(c);
        assert(text@.take(it.index() as int).push(c) == text@.take(it.index() + 1));
    }
    assert(text@.take(text@.len() as int) == text@);
    chars
}

/// The text with the given characters.
pub fn string_of(chars: &[char]) -> (text: String)
    ensures
        text@ == chars@,
{
    let mut text = String::new();
    let mut i: usize = 0;
    while i < chars.len()
        invariant
            0 <= i <= chars@.len(),
            text@ == chars@.take(i as int),
        decreases chars@.len() - i,
    {
        text.push(chars[i]);
        assert(chars@.take(i as int).push(chars@[i as int]) == chars@.take(i + 1));
        i += 1;
    }
    assert(chars@.take(chars@.len() as int) == chars@);
    text
}

/// The characters in lower case, `A`-`Z` only.
pub fn lowercase_of(chars: &[char]) -> (lower: Vec<char>)
    ensures
        lower@ == ascii_lowercase(chars@),
{
    let mut lower: Vec<char> = Vec::new();
    let mut i: usize = 0;
    while i < chars.len()
        invariant
            0 <= i <= chars@.len(),
            lower@ == ascii_lowercase(chars@.take(i as int)),
        decreases chars@.len() - i,
    {
        lower.push(to_ascii_lower(chars[i]));
        assert(chars@.take(i as int).push(chars@[i as int]) == chars@.take(i + 1));
        assert(lower@ =~= ascii_lowercase(chars@.take(i + 1)));
        i += 1;
    }
    assert(chars@.take(chars@.len() as int) == chars@);
    lower
}

/// Drops the dots at the end.
pub fn drop_end_dots(chars: &mut Vec<char>)
    ensures
        final(chars)@ == trim_end_dots(old(chars)@),
{
    while chars.len() > 0 && chars[chars.len() - 1] == '.'
        invariant
            trim_end_dots(chars@) == trim_end_dots(old(chars)@),
        decreases chars@.len(),
    {
        let ghost before = chars@;
        chars.pop();
        assert(chars@ == before.drop_last());
    }
}

/// Drops white space at both ends.
pub fn drop_outer_white_space(chars: &mut Vec<char>)
    ensures
        final(chars)@ == trim(old(chars)@),
{
    let ghost whole = chars@;
    while chars.len() > 0 && chars[0].is_whitespace()
        invariant
            trim_start(chars@) == trim_start(whole),
        decreases chars@.len(),
    {
        let ghost before = chars@;
        chars.remove(0);
        assert(chars@ == before.drop_first());
    }
    let ghost left = chars@;
    while chars.len() > 0 && chars[chars.len() - 1].is_whitespace()
        invariant
            trim_end(chars@) == trim_end(left),
        decreases chars@.len(),
    {
        let ghost before = chars@;
        chars.pop();
        assert(chars@ == before.drop_last());
    }
}

/// Whether two texts are the same.
pub fn same_text(a: &str, b: &str) -> (same: bool)
    ensures
        same == (a@ == b@),
{
    let a_chars = chars_of(a);
    let b_chars = chars_of(b);
    if a_chars.len() != b_chars.len() {
        return false;
    }
    let mut i: usize = 0;
    while i < a_chars.len()
        invariant
            i <= a_chars@.len() == b_chars@.len(),
            a_chars@ == a@,
            b_chars@ == b@,
            forall|j: int| 0 <= j < i ==> #[trigger] a@[j] == b@[j],
        decreases a_chars@.len() - i,
    {
        if a_chars[i] != b_chars[i] {
            return false;
        }
        i += 1;
    }
    assert(a@ =~= b@);
    true
}

} // verus!
