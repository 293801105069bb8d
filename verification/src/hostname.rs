//! Exact ASCII DNS hostnames.
//!
//! Route names, server names in a ClientHello and allowed fallback names are
//! all brought to one normal form: lower case, no dot at the end, every label
//! one to sixty-three letters, digits and inner hyphens.

use vstd::prelude::*;

use crate::text::{
    chars_of, debug_quoted, drop_end_dots, drop_outer_white_space, lowercase_of, string_of,
};

verus! {

/// The longest hostname, in bytes.
pub const MAX_HOSTNAME_LEN: usize = 253;

/// The longest label of a hostname, in bytes.
pub const MAX_LABEL_LEN: usize = 63;

/// A character that a label may hold.
pub open spec fn is_label_char(c: char) -> bool {
    ||| 'a' <= c <= 'z'
    ||| 'A' <= c <= 'Z'
    ||| '0' <= c <= '9'
    ||| c == '-'
}

/// One DNS label: letters, digits and hyphens, no hyphen at either end.
pub open spec fn valid_label(label: Seq<char>) -> bool {
    &&& 1 <= label.len() <= MAX_LABEL_LEN
    &&& label.first() != '-'
    &&& label.last() != '-'
    &&& forall|i: int| 0 <= i < label.len() ==> is_label_char(#[trigger] label[i])
}

/// `name[start..end]` is one of the pieces between the dots of `name`.
pub open spec fn is_label_of(name: Seq<char>, start: int, end: int) -> bool {
    &&& 0 <= start <= end <= name.len()
    &&& start == 0 || name[start - 1] == '.'
    &&& end == name.len() || name[end] == '.'
    &&& forall|i: int| start <= i < end ==> #[trigger] name[i] != '.'
}

/// Every piece between the dots is a label.
pub open spec fn valid_labels(name: Seq<char>) -> bool {
    forall|start: int, end: int| #[trigger]
        is_label_of(name, start, end) ==> valid_label(name.subrange(start, end))
}

/// No piece between the dots is empty, whatever else the pieces hold.
pub open spec fn no_empty_label(name: Seq<char>) -> bool {
    forall|start: int, end: int| #[trigger] is_label_of(name, start, end) ==> start < end
}

/// The normal form of a name: no dots at the end, lower case.
pub open spec fn canonical(name: Seq<char>) -> Seq<char> {
    crate::text::ascii_lowercase(crate::text::trim_end_dots(name))
}

/// The normal form of a server name that a peer or an operator gave, where it
/// is acceptable: ASCII, one to 253 characters as given, and all labels valid.
pub open spec fn normalized_name(name: Seq<char>) -> Option<Seq<char>> {
    if 1 <= name.len() <= MAX_HOSTNAME_LEN && vstd::utf8::is_ascii_chars(name) && valid_labels(
        canonical(name),
    ) {
        Some(canonical(name))
    } else {
        None
    }
}

/// What is wrong with a route name.
#[derive(Clone, Copy, Debug, PartialEq, Eq, Structural)]
pub enum NameProblem {
    /// Nothing is left of it, or too much.
    Length,
    /// A piece between its dots is no label.
    Labels,
}

/// The normal form of a route name out of a configuration, or what is wrong
/// with it. White space around the name is dropped, and the length is that of
/// the normal form.
pub open spec fn checked_route_name(name: Seq<char>) -> Result<Seq<char>, NameProblem> {
    let host = canonical(crate::text::trim(name));
    if host.len() == 0 || vstd::utf8::encode_utf8(host).len() > MAX_HOSTNAME_LEN {
        Err(NameProblem::Length)
    } else if !valid_labels(host) {
        Err(NameProblem::Labels)
    } else {
        Ok(host)
    }
}

/// The message that refuses a route name, given the name in quotes.
pub open spec fn name_refusal(problem: NameProblem, quoted: Seq<char>) -> Seq<char> {
    match problem {
        NameProblem::Length => "invalid hostname: "@ + quoted,
        NameProblem::Labels => "invalid exact hostname: "@ + quoted,
    }
}

/// The normal form of a route name out of a configuration, or the message that
/// refuses it.
pub open spec fn normalized_route_name(name: Seq<char>) -> Result<Seq<char>, Seq<char>> {
    match checked_route_name(name) {
        Ok(host) => Ok(host),
        Err(problem) => Err(name_refusal(problem, crate::text::debug_text(name))),
    }
}

/// Whether `name[start..end]` is a valid label.
fn check_label(name: &[char], start: usize, end: usize) -> (valid: bool)
    requires
        start <= end <= name@.len(),
    ensures
        valid == valid_label(name@.subrange(start as int, end as int)),
{
    let ghost label = name@.subrange(start as int, end as int);
    if end - start < 1 || end - start > MAX_LABEL_LEN {
        return false;
    }
    if name[start] == '-' || name[end - 1] == '-' {
        return false;
    }
    let mut i: usize = start;
    while i < end
        invariant
            start <= i <= end <= name@.len(),
            label == name@.subrange(start as int, end as int),
            forall|j: int| 0 <= j < i - start ==> is_label_char(#[trigger] label[j]),
        decreases end - i,
    {
        let c = name[i];
        assert(label[i - start] == c);
        if !(('a' <= c && c <= 'z') || ('A' <= c && c <= 'Z') || ('0' <= c && c <= '9') || c
            == '-') {
            return false;
        }
        i += 1;
    }
    true
}

/// Whether every piece between the dots is a valid label.
pub fn check_labels(name: &[char]) -> (valid: bool)
    ensures
        valid == valid_labels(name@),
{
    let mut start: usize = 0;
    let mut i: usize = 0;
    while i < name.len()
        invariant
            0 <= start <= i <= name@.len(),
            start == 0 || name@[start - 1] == '.',
            forall|j: int| start <= j < i ==> #[trigger] name@[j] != '.',
            forall|a: int, b: int| #[trigger]
                is_label_of(name@, a, b) && b < start ==> valid_label(name@.subrange(a, b)),
        decreases name@.len() - i,
    {
        if name[i] == '.' {
            assert(is_label_of(name@, start as int, i as int));
            if !check_label(name, start, i) {
                return false;
            }
            assert forall|a: int, b: int| #[trigger]
                is_label_of(name@, a, b) && b < i + 1 implies valid_label(
                name@.subrange(a, b),
            ) by {
                if b >= start {
                    // A label that ends between `start` and `i` ends at `i`, and
                    // one that ends there starts at `start`.
                    assert(b == i) by {
                        if b < i {
                            assert(name@[b] == '.');
                        }
                    }
                    if a < start {
                        assert(name@[start - 1] == '.');
                    } else if a > start {
                        assert(name@[a - 1] == '.');
                    }
                }
            }
            start = i + 1;
        }
        i += 1;
    }
    assert(is_label_of(name@, start as int, name@.len() as int));
    let last = check_label(name, start, name.len());
    if last {
        assert forall|a: int, b: int| #[trigger]
            is_label_of(name@, a, b) implies valid_label(name@.subrange(a, b)) by {
            if b >= start {
                assert(b == name@.len()) by {
                    if b < name@.len() {
                        assert(name@[b] == '.');
                    }
                }
                if a < start {
                    assert(name@[start - 1] == '.');
                } else if a > start {
                    assert(name@[a - 1] == '.');
                }
            }
        }
    }
    last
}

/// Whether no piece between the dots is empty.
pub fn check_no_empty_label(name: &[char]) -> (none: bool)
    ensures
        none == no_empty_label(name@),
{
    let mut i: usize = 0;
    while i < name.len()
        invariant
            0 <= i <= name@.len(),
            forall|j: int|
                0 <= j < i && #[trigger] name@[j] == '.' ==> j > 0 && name@[j - 1] != '.',
        decreases name@.len() - i,
    {
        if name[i] == '.' && (i == 0 || name[i - 1] == '.') {
            assert(is_label_of(name@, i as int, i as int));
            return false;
        }
        i += 1;
    }
    if name.len() == 0 || name[name.len() - 1] == '.' {
        assert(is_label_of(name@, name@.len() as int, name@.len() as int));
        return false;
    }
    assert forall|start: int, end: int| #[trigger] is_label_of(name@, start, end) implies start
        < end by {
        if start == end && end < name@.len() {
            assert(name@[end] == '.');
        }
    }
    true
}

/// The normal form of a server name, where it is acceptable.
pub fn normalize_name(value: &str) -> (name: Option<String>)
    ensures
        match name {
            Some(n) => normalized_name(value@) == Some(n@),
            None => normalized_name(value@) is None,
        },
{
    let mut chars = chars_of(value);
    if chars.len() == 0 || chars.len() > MAX_HOSTNAME_LEN || !value.is_ascii() {
        return None;
    }
    drop_end_dots(&mut chars);
    let lower = lowercase_of(&chars);
    if !check_labels(&lower) {
        return None;
    }
    Some(string_of(&lower))
}

/// The normal form of a route name, or what is wrong with it.
pub fn check_route_name(value: &str) -> (name: Result<String, NameProblem>)
    ensures
        match name {
            Ok(n) => checked_route_name(value@) == Ok::<Seq<char>, NameProblem>(n@),
            Err(problem) => checked_route_name(value@) == Err::<Seq<char>, NameProblem>(problem),
        },
{
    let mut chars = chars_of(value);
    drop_outer_white_space(&mut chars);
    drop_end_dots(&mut chars);
    let lower = lowercase_of(&chars);
    let hostname = string_of(&lower);
    let bytes = hostname.as_str().as_bytes();
    if lower.len() == 0 || bytes.len() > MAX_HOSTNAME_LEN {
        return Err(NameProblem::Length);
    }
    if !check_labels(&lower) {
        return Err(NameProblem::Labels);
    }
    Ok(hostname)
}

/// The message that refuses a route name, given the name in quotes.
pub fn refusal_of(problem: NameProblem, quoted: &str) -> (message: String)
    ensures
        message@ == name_refusal(problem, quoted@),
{
    let mut message = match problem {
        NameProblem::Length => "invalid hostname: ".to_string(),
        NameProblem::Labels => "invalid exact hostname: ".to_string(),
    };
    message.append(quoted);
    message
}

/// The normal form of a route name, or the message that refuses it.
pub fn normalize_route_name(value: &str) -> (name: Result<String, String>)
    ensures
        match name {
            Ok(n) => normalized_route_name(value@) == Ok::<Seq<char>, Seq<char>>(n@),
            Err(message) => normalized_route_name(value@) == Err::<Seq<char>, Seq<char>>(
                message@,
            ),
        },
{
    match check_route_name(value) {
        Ok(name) => Ok(name),
        Err(problem) => Err(refusal_of(problem, debug_quoted(value).as_str())),
    }
}

} // verus!
