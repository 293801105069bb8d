//! How the normal forms of hostnames agree with each other.

use vstd::prelude::*;

verus! {

proof fn lemma_dots_trimmed(name: Seq<char>)
    requires
        name.len() == 0 || name.last() != '.',
    ensures
        crate::text::trim_end_dots(name) == name,
{
}

proof fn lemma_lowercase_idempotent(name: Seq<char>)
    ensures
        crate::text::ascii_lowercase(crate::text::ascii_lowercase(name))
            == crate::text::ascii_lowercase(name),
{
    assert(crate::text::ascii_lowercase(crate::text::ascii_lowercase(name))
        =~= crate::text::ascii_lowercase(name));
}

proof fn lemma_trim_dots_prefix(name: Seq<char>)
    ensures
        crate::text::trim_end_dots(name).is_prefix_of(name),
        forall|i: int|
            crate::text::trim_end_dots(name).len() <= i < name.len() ==> #[trigger] name[i] == '.',
        crate::text::trim_end_dots(name).len() > 0 ==> crate::text::trim_end_dots(name).last()
            != '.',
    decreases name.len(),
{
    if name.len() > 0 && name.last() == '.' {
        lemma_trim_dots_prefix(name.drop_last());
        let t = crate::text::trim_end_dots(name.drop_last());
        assert(t =~= name.subrange(0, t.len() as int));
        assert forall|i: int| t.len() <= i < name.len() implies #[trigger] name[i] == '.' by {
            if i < name.len() - 1 {
                assert(name.drop_last()[i] == '.');
            }
        }
    } else {
        assert(name =~= name.subrange(0, name.len() as int));
    }
}

/// The start of the piece that holds position `i`.
spec fn piece_start(name: Seq<char>, i: int) -> int
    decreases i,
{
    if i <= 0 || name[i - 1] == '.' {
        i
    } else {
        piece_start(name, i - 1)
    }
}

/// The end of the piece that holds position `i`.
spec fn piece_end(name: Seq<char>, i: int) -> int
    decreases name.len() - i,
{
    if i >= name.len() || name[i] == '.' {
        i
    } else {
        piece_end(name, i + 1)
    }
}

proof fn lemma_piece_start(name: Seq<char>, i: int)
    requires
        0 <= i <= name.len(),
    ensures
        0 <= piece_start(name, i) <= i,
        piece_start(name, i) == 0 || name[piece_start(name, i) - 1] == '.',
        forall|j: int| piece_start(name, i) <= j < i ==> #[trigger] name[j] != '.',
    decreases i,
{
    if !(i <= 0 || name[i - 1] == '.') {
        lemma_piece_start(name, i - 1);
    }
}

proof fn lemma_piece_end(name: Seq<char>, i: int)
    requires
        0 <= i <= name.len(),
    ensures
        i <= piece_end(name, i) <= name.len(),
        piece_end(name, i) == name.len() || name[piece_end(name, i)] == '.',
        forall|j: int| i <= j < piece_end(name, i) ==> #[trigger] name[j] != '.',
    decreases name.len() - i,
{
    if !(i >= name.len() || name[i] == '.') {
        lemma_piece_end(name, i + 1);
    }
}

/// A name with valid labels holds nothing but label characters and dots, is not
/// empty and does not end in a dot.
pub proof fn law_label_characters(name: Seq<char>)
    requires
        crate::hostname::valid_labels(name),
    ensures
        name.len() > 0,
        name.last() != '.',
        forall|i: int|
            0 <= i < name.len() ==> crate::hostname::is_label_char(#[trigger] name[i]) || name[i]
                == '.',
{
    let end = name.len() as int;
    let start = piece_start(name, end);
    lemma_piece_start(name, end);
    assert(crate::hostname::is_label_of(name, start, end));
    assert(crate::hostname::valid_label(name.subrange(start, end)));
    assert forall|i: int| 0 <= i < name.len() implies crate::hostname::is_label_char(
        #[trigger] name[i],
    ) || name[i] == '.' by {
        if name[i] != '.' {
            let a = piece_start(name, i);
            let b = piece_end(name, i);
            lemma_piece_start(name, i);
            lemma_piece_end(name, i);
            assert(crate::hostname::is_label_of(name, a, b));
            assert(crate::hostname::valid_label(name.subrange(a, b)));
            assert(name.subrange(a, b)[i - a] == name[i]);
        }
    }
}

proof fn lemma_ascii(name: Seq<char>)
    requires
        crate::hostname::valid_labels(name),
    ensures
        vstd::utf8::is_ascii_chars(name),
        vstd::utf8::encode_utf8(name).len() == name.len(),
{
    law_label_characters(name);
    assert forall|i: int| 0 <= i < name.len() implies 0 <= #[trigger] name[i] < 128 by {
        assert(crate::hostname::is_label_char(name[i]) || name[i] == '.');
    }
    vstd::utf8::is_ascii_chars_encode_utf8(name);
}

/// Normal forms are fixed: a normal form is acceptable, and is its own normal
/// form.
pub proof fn law_normal_form_is_fixed(name: Seq<char>)
    requires
        crate::hostname::normalized_name(name) is Some,
    ensures
        ({
            let normal = crate::hostname::normalized_name(name).unwrap();
            crate::hostname::normalized_name(normal) == Some(normal)
        }),
{
    let normal = crate::hostname::canonical(name);
    law_label_characters(normal);
    lemma_ascii(normal);
    lemma_trim_dots_prefix(name);
    lemma_dots_trimmed(normal);
    lemma_lowercase_idempotent(crate::text::trim_end_dots(name));
}

proof fn lemma_no_outer_white_space(name: Seq<char>)
    requires
        name.len() > 0 ==> !crate::text::is_white_space(name.first())
            && !crate::text::is_white_space(name.last()),
    ensures
        crate::text::trim(name) == name,
{
}

/// A route name and a server name are held against each other in one normal
/// form: a name that a ClientHello may carry is, as a route name, the same.
pub proof fn law_server_names_are_route_names(name: Seq<char>)
    requires
        crate::hostname::normalized_name(name) is Some,
    ensures
        crate::hostname::normalized_route_name(name) == Ok::<Seq<char>, Seq<char>>(
            crate::hostname::normalized_name(name).unwrap(),
        ),
{
    let normal = crate::hostname::canonical(name);
    let trimmed = crate::text::trim_end_dots(name);
    law_label_characters(normal);
    lemma_ascii(normal);
    lemma_trim_dots_prefix(name);
    assert(trimmed.len() == normal.len());
    assert(normal[0] == crate::text::ascii_lower(trimmed[0]));
    assert(trimmed[0] == name[0]);
    assert(crate::hostname::is_label_char(normal[0]) || normal[0] == '.');
    let last = name.len() - 1;
    if trimmed.len() == name.len() {
        assert(trimmed[last] == name[last]);
        assert(normal[last] == crate::text::ascii_lower(trimmed[last]));
        assert(crate::hostname::is_label_char(normal[last]) || normal[last] == '.');
    } else {
        assert(name[last] == '.');
    }
    lemma_no_outer_white_space(name);
}

/// A route name that a configuration may hold can be asked for: its normal
/// form is a server name, in normal form.
pub proof fn law_route_names_are_server_names(name: Seq<char>)
    requires
        crate::hostname::normalized_route_name(name) is Ok,
    ensures
        ({
            let host = crate::hostname::normalized_route_name(name)->Ok_0;
            crate::hostname::normalized_name(host) == Some(host)
        }),
{
    let trimmed = crate::text::trim(name);
    let host = crate::hostname::canonical(trimmed);
    law_label_characters(host);
    lemma_ascii(host);
    lemma_trim_dots_prefix(trimmed);
    lemma_dots_trimmed(host);
    lemma_lowercase_idempotent(crate::text::trim_end_dots(trimmed));
}

/// The case of a server name does not matter.
pub proof fn law_case_does_not_matter(name: Seq<char>)
    ensures
        crate::hostname::normalized_name(crate::text::ascii_lowercase(name))
            == crate::hostname::normalized_name(name),
{
    let lower = crate::text::ascii_lowercase(name);
    lemma_lowercase_trim(name);
    lemma_lowercase_idempotent(crate::text::trim_end_dots(name));
    if vstd::utf8::is_ascii_chars(name) {
        assert forall|i: int| 0 <= i < lower.len() implies 0 <= #[trigger] lower[i] < 128 by {
            assert(lower[i] == crate::text::ascii_lower(name[i]));
        }
    }
    if vstd::utf8::is_ascii_chars(lower) {
        assert forall|i: int| 0 <= i < name.len() implies 0 <= #[trigger] name[i] < 128 by {
            assert(lower[i] == crate::text::ascii_lower(name[i]));
        }
    }
}

proof fn lemma_lowercase_trim(name: Seq<char>)
    ensures
        crate::text::trim_end_dots(crate::text::ascii_lowercase(name))
            == crate::text::ascii_lowercase(crate::text::trim_end_dots(name)),
    decreases name.len(),
{
    let lower = crate::text::ascii_lowercase(name);
    if name.len() > 0 {
        assert(lower.last() == crate::text::ascii_lower(name.last()));
        assert(lower.drop_last() =~= crate::text::ascii_lowercase(name.drop_last()));
        lemma_lowercase_trim(name.drop_last());
    }
}

/// A dot at the end does not matter, as long as the name is not too long.
pub proof fn law_final_dot_does_not_matter(name: Seq<char>)
    requires
        1 <= name.len() < crate::hostname::MAX_HOSTNAME_LEN,
    ensures
        crate::hostname::normalized_name(name.push('.')) == crate::hostname::normalized_name(name),
{
    let dotted = name.push('.');
    assert(dotted.drop_last() =~= name);
    assert(crate::text::trim_end_dots(dotted) == crate::text::trim_end_dots(name));
    if vstd::utf8::is_ascii_chars(dotted) {
        assert forall|i: int| 0 <= i < name.len() implies 0 <= #[trigger] name[i] < 128 by {
            assert(dotted[i] == name[i]);
        }
    }
}

/// A letter in lower case, and every other character as it is.
pub open spec fn small(c: char) -> char {
    if 'A' <= c <= 'Z' {
        (c as u32 + 32) as char
    } else {
        c
    }
}

/// One text is another with every letter in lower case.
pub open spec fn is_small_of(lower: Seq<char>, text: Seq<char>) -> bool {
    &&& lower.len() == text.len()
    &&& forall|i: int| 0 <= i < text.len() ==> #[trigger] lower[i] == small(text[i])
}

/// Every letter of a text in lower case is that of the text at its place, and
/// nothing else about the text changes.
pub proof fn law_lower_case(text: Seq<char>)
    ensures
        is_small_of(crate::text::ascii_lowercase(text), text),
{
}

proof fn lemma_small_is_lowercase(lower: Seq<char>, text: Seq<char>)
    requires
        is_small_of(lower, text),
    ensures
        lower == crate::text::ascii_lowercase(text),
{
    law_lower_case(text);
    assert(lower =~= crate::text::ascii_lowercase(text));
}

/// So many dots.
pub open spec fn dots(n: nat) -> Seq<char> {
    Seq::new(n, |i: int| '.')
}

/// White space and nothing else.
pub open spec fn blank(text: Seq<char>) -> bool {
    forall|i: int| 0 <= i < text.len() ==> crate::text::is_white_space(#[trigger] text[i])
}

/// Neither the first nor the last character is white space.
pub open spec fn tight(text: Seq<char>) -> bool {
    text.len() > 0 ==> !crate::text::is_white_space(text.first())
        && !crate::text::is_white_space(text.last())
}

/// Dots at the end of a text are dropped, and nothing else is.
pub proof fn law_end_dots_are_dropped(text: Seq<char>, n: nat)
    requires
        text.len() > 0 ==> text.last() != '.',
    ensures
        crate::text::trim_end_dots(text + dots(n)) == text,
    decreases n,
{
    let whole = text + dots(n);
    if n == 0 {
        assert(whole =~= text);
    } else {
        assert(whole.drop_last() =~= text + dots((n - 1) as nat));
        law_end_dots_are_dropped(text, (n - 1) as nat);
    }
}

proof fn lemma_trim_start(before: Seq<char>, text: Seq<char>)
    requires
        blank(before),
        text.len() > 0 ==> !crate::text::is_white_space(text.first()),
    ensures
        crate::text::trim_start(before + text) == text,
    decreases before.len(),
{
    let whole = before + text;
    if before.len() == 0 {
        assert(whole =~= text);
    } else {
        assert(whole.first() == before[0]);
        assert(whole.drop_first() =~= before.drop_first() + text);
        assert forall|i: int| 0 <= i < before.drop_first().len() implies
            crate::text::is_white_space(#[trigger] before.drop_first()[i]) by {
            assert(before.drop_first()[i] == before[i + 1]);
        }
        lemma_trim_start(before.drop_first(), text);
    }
}

proof fn lemma_trim_end(text: Seq<char>, after: Seq<char>)
    requires
        blank(after),
        text.len() > 0 ==> !crate::text::is_white_space(text.last()),
    ensures
        crate::text::trim_end(text + after) == text,
    decreases after.len(),
{
    let whole = text + after;
    if after.len() == 0 {
        assert(whole =~= text);
    } else {
        assert(whole.last() == after[after.len() - 1]);
        assert(whole.drop_last() =~= text + after.drop_last());
        assert forall|i: int| 0 <= i < after.drop_last().len() implies
            crate::text::is_white_space(#[trigger] after.drop_last()[i]) by {
            assert(after.drop_last()[i] == after[i]);
        }
        lemma_trim_end(text, after.drop_last());
    }
}

/// White space around a text is dropped, and nothing else is.
pub proof fn law_outer_white_space_is_dropped(before: Seq<char>, text: Seq<char>, after: Seq<char>)
    requires
        blank(before),
        blank(after),
        tight(text),
    ensures
        crate::text::trim(before + text + after) == text,
{
    if text.len() == 0 {
        let white = before + after;
        assert(before + text + after =~= white + text);
        assert forall|i: int| 0 <= i < white.len() implies crate::text::is_white_space(
            #[trigger] white[i],
        ) by {
            assert(white[i] == if i < before.len() { before[i] } else { after[i - before.len()] });
        }
        lemma_trim_start(white, text);
    } else {
        assert(before + text + after =~= before + (text + after));
        assert((text + after).first() == text.first());
        lemma_trim_start(before, text + after);
        lemma_trim_end(text, after);
    }
}

/// A letter or a digit.
pub open spec fn alphanumeric(c: char) -> bool {
    ('a' <= c <= 'z') || ('A' <= c <= 'Z') || ('0' <= c <= '9')
}

/// The spelling of an exact hostname: letters, digits, hyphens and dots. It
/// starts and ends with a letter or a digit, and so does every stretch between
/// two dots, which is sixty-three characters long at most.
pub open spec fn spelled(name: Seq<char>) -> bool {
    &&& name.len() > 0
    &&& alphanumeric(name.first())
    &&& alphanumeric(name.last())
    &&& forall|i: int|
        0 <= i < name.len() ==> alphanumeric(#[trigger] name[i]) || name[i] == '-' || name[i] == '.'
    &&& forall|i: int|
        0 < i < name.len() - 1 && #[trigger] name[i] == '.' ==> alphanumeric(name[i - 1])
            && alphanumeric(name[i + 1])
    &&& forall|i: int|
        0 <= i && i + 64 <= name.len() ==> !(#[trigger] without_dot(name, i, i + 64))
}

/// There is no dot in this stretch.
pub open spec fn without_dot(name: Seq<char>, start: int, end: int) -> bool {
    forall|i: int| start <= i < end ==> #[trigger] name[i] != '.'
}

/// A name is made of valid labels if and only if it is spelled as a hostname is.
pub proof fn law_labels_are_spelled(name: Seq<char>)
    ensures
        crate::hostname::valid_labels(name) <==> spelled(name),
{
    if crate::hostname::valid_labels(name) {
        lemma_valid_is_spelled(name);
    }
    if spelled(name) {
        lemma_spelled_is_valid(name);
    }
}

proof fn lemma_valid_is_spelled(name: Seq<char>)
    requires
        crate::hostname::valid_labels(name),
    ensures
        spelled(name),
{
    law_label_characters(name);
    let n = name.len() as int;
    lemma_piece_start(name, 0);
    lemma_piece_end(name, 0);
    let b = piece_end(name, 0);
    assert(crate::hostname::is_label_of(name, 0, b));
    let first = name.subrange(0, b);
    assert(crate::hostname::valid_label(first));
    assert(first[0] == name[0]);
    lemma_piece_start(name, n);
    let a = piece_start(name, n);
    assert(crate::hostname::is_label_of(name, a, n));
    let last = name.subrange(a, n);
    assert(crate::hostname::valid_label(last));
    assert(last[last.len() - 1] == name[n - 1]);
    assert forall|i: int| 0 < i < n - 1 && #[trigger] name[i] == '.' implies alphanumeric(
        name[i - 1],
    ) && alphanumeric(name[i + 1]) by {
        let start = piece_start(name, i);
        lemma_piece_start(name, i);
        assert(crate::hostname::is_label_of(name, start, i));
        let left = name.subrange(start, i);
        assert(crate::hostname::valid_label(left));
        assert(left[left.len() - 1] == name[i - 1]);
        let end = piece_end(name, i + 1);
        lemma_piece_end(name, i + 1);
        assert(crate::hostname::is_label_of(name, i + 1, end));
        let right = name.subrange(i + 1, end);
        assert(crate::hostname::valid_label(right));
        assert(right[0] == name[i + 1]);
    }
    assert forall|i: int| 0 <= i && i + 64 <= n implies !(#[trigger] without_dot(name, i, i + 64)) by {
        if without_dot(name, i, i + 64) {
            let start = piece_start(name, i);
            let end = piece_end(name, i);
            lemma_piece_start(name, i);
            lemma_piece_end(name, i);
            assert(end >= i + 64) by {
                if end < i + 64 {
                    assert(name[end] == '.');
                }
            }
            assert(crate::hostname::is_label_of(name, start, end));
            assert(crate::hostname::valid_label(name.subrange(start, end)));
        }
    }
}

proof fn lemma_spelled_is_valid(name: Seq<char>)
    requires
        spelled(name),
    ensures
        crate::hostname::valid_labels(name),
{
    let n = name.len() as int;
    assert forall|a: int, b: int| #[trigger]
        crate::hostname::is_label_of(name, a, b) implies crate::hostname::valid_label(
        name.subrange(a, b),
    ) by {
        let label = name.subrange(a, b);
        assert(a < n) by {
            if a == n {
                assert(name[n - 1] == '.');
            }
        }
        assert(alphanumeric(name[a])) by {
            if a > 0 {
                assert(name[a - 1] == '.');
                assert(a - 1 > 0);
            }
        }
        assert(a < b) by {
            if a == b {
                assert(name[b] == '.');
            }
        }
        assert(alphanumeric(name[b - 1])) by {
            if b < n {
                assert(name[b] == '.');
                assert(b < n - 1);
            }
        }
        assert(b - a <= 63) by {
            if b - a >= 64 {
                assert(without_dot(name, a, a + 64));
            }
        }
        assert(label[0] == name[a]);
        assert(label[label.len() - 1] == name[b - 1]);
        assert forall|i: int| 0 <= i < label.len() implies crate::hostname::is_label_char(
            #[trigger] label[i],
        ) by {
            assert(label[i] == name[a + i]);
        }
    }
}

proof fn lemma_spelling_ignores_case(lower: Seq<char>, name: Seq<char>)
    requires
        is_small_of(lower, name),
    ensures
        spelled(lower) <==> spelled(name),
{
    assert forall|c: char| alphanumeric(#[trigger] small(c)) <==> alphanumeric(c) by {}
    assert forall|c: char| #[trigger] small(c) == '.' <==> c == '.' by {}
    assert forall|c: char| #[trigger] small(c) == '-' <==> c == '-' by {}
    if name.len() > 0 {
        assert(lower.first() == small(name.first()));
        assert(lower.last() == small(name.last()));
    }
    assert forall|a: int, b: int| 0 <= a && b <= name.len() implies #[trigger] without_dot(
        lower,
        a,
        b,
    ) == without_dot(name, a, b) by {
        if without_dot(lower, a, b) {
            assert forall|i: int| a <= i < b implies #[trigger] name[i] != '.' by {
                assert(lower[i] != '.');
            }
        }
    }
    if spelled(lower) {
        assert forall|i: int| 0 <= i < name.len() implies alphanumeric(#[trigger] name[i]) || name[i]
            == '-' || name[i] == '.' by {
            assert(lower[i] == small(name[i]));
        }
        assert forall|i: int| 0 < i < name.len() - 1 && #[trigger] name[i] == '.' implies
            alphanumeric(name[i - 1]) && alphanumeric(name[i + 1]) by {
            assert(lower[i] == '.');
            assert(lower[i - 1] == small(name[i - 1]));
            assert(lower[i + 1] == small(name[i + 1]));
        }
        assert forall|i: int| 0 <= i && i + 64 <= name.len() implies !(#[trigger] without_dot(
            name,
            i,
            i + 64,
        )) by {
            assert(!without_dot(lower, i, i + 64));
        }
    }
    if spelled(name) {
        assert forall|i: int| 0 < i < name.len() - 1 && #[trigger] lower[i] == '.' implies
            alphanumeric(lower[i - 1]) && alphanumeric(lower[i + 1]) by {
            assert(name[i] == '.');
        }
        assert forall|i: int| 0 <= i && i + 64 <= name.len() implies !(#[trigger] without_dot(
            lower,
            i,
            i + 64,
        )) by {
            assert(!without_dot(name, i, i + 64));
        }
    }
}

/// A server name is taken if and only if it is one to 253 characters long and,
/// but for dots at its end, spelled as a hostname is. What it is taken as is
/// that spelling in lower case.
pub proof fn law_server_names_are_taken(name: Seq<char>, n: nat, lower: Seq<char>)
    requires
        name.len() > 0 ==> name.last() != '.',
        is_small_of(lower, name),
    ensures
        crate::hostname::normalized_name(name + dots(n)) == if 1 <= name.len() + n <= 253
            && spelled(name) {
            Some(lower)
        } else {
            None
        },
{
    let whole = name + dots(n);
    law_end_dots_are_dropped(name, n);
    lemma_small_is_lowercase(lower, name);
    lemma_spelling_ignores_case(lower, name);
    law_labels_are_spelled(lower);
    if spelled(name) {
        assert forall|i: int| 0 <= i < whole.len() implies 0 <= #[trigger] whole[i] < 128 by {
            if i < name.len() {
                assert(whole[i] == name[i]);
            }
        }
    }
}

/// A route name is taken if and only if, but for white space around it and dots
/// at its end, it is spelled as a hostname is and at most 253 characters long.
/// What it is taken as is that spelling in lower case. It is refused for its
/// length where nothing or too much of it is left, and else for its labels.
pub proof fn law_route_names_are_taken(
    before: Seq<char>,
    name: Seq<char>,
    n: nat,
    after: Seq<char>,
    lower: Seq<char>,
)
    requires
        blank(before),
        blank(after),
        name.len() > 0 ==> name.last() != '.',
        tight(name + dots(n)),
        is_small_of(lower, name),
    ensures
        crate::hostname::checked_route_name(before + (name + dots(n)) + after) == if name.len() == 0
            || vstd::utf8::encode_utf8(lower).len() > 253 {
            Err::<Seq<char>, crate::hostname::NameProblem>(crate::hostname::NameProblem::Length)
        } else if spelled(name) {
            Ok::<Seq<char>, crate::hostname::NameProblem>(lower)
        } else {
            Err::<Seq<char>, crate::hostname::NameProblem>(crate::hostname::NameProblem::Labels)
        },
        spelled(name) ==> vstd::utf8::encode_utf8(lower).len() == name.len(),
        ({
            let given = before + (name + dots(n)) + after;
            let quoted = crate::text::debug_text(given);
            crate::hostname::normalized_route_name(given)
                == match crate::hostname::checked_route_name(given) {
                Ok(host) => Ok::<Seq<char>, Seq<char>>(host),
                Err(crate::hostname::NameProblem::Length) => Err("invalid hostname: "@ + quoted),
                Err(crate::hostname::NameProblem::Labels) => Err(
                    "invalid exact hostname: "@ + quoted,
                ),
            }
        }),
{
    law_outer_white_space_is_dropped(before, name + dots(n), after);
    law_end_dots_are_dropped(name, n);
    lemma_small_is_lowercase(lower, name);
    lemma_spelling_ignores_case(lower, name);
    law_labels_are_spelled(lower);
    if spelled(name) {
        lemma_ascii(lower);
    }
}

/// No piece between the dots of a name is empty if and only if the name is not
/// empty, does not start or end with a dot, and has no two dots in a row.
pub proof fn law_no_empty_label(name: Seq<char>)
    ensures
        crate::hostname::no_empty_label(name) <==> {
            &&& name.len() > 0
            &&& name.first() != '.'
            &&& name.last() != '.'
            &&& forall|i: int|
                0 < i < name.len() && #[trigger] name[i] == '.' ==> name[i - 1] != '.'
        },
{
    let n = name.len() as int;
    if crate::hostname::no_empty_label(name) {
        assert(n > 0) by {
            if n == 0 {
                assert(crate::hostname::is_label_of(name, 0, 0));
            }
        }
        assert(name.first() != '.') by {
            if name.first() == '.' {
                assert(crate::hostname::is_label_of(name, 0, 0));
            }
        }
        assert(name.last() != '.') by {
            if name.last() == '.' {
                assert(crate::hostname::is_label_of(name, n, n));
            }
        }
        assert forall|i: int| 0 < i < n && #[trigger] name[i] == '.' implies name[i - 1] != '.' by {
            if name[i - 1] == '.' {
                assert(crate::hostname::is_label_of(name, i, i));
            }
        }
    }
}

} // verus!
