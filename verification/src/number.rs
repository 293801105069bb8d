//! Decimal numbers, read and written.

use vstd::prelude::*;

use crate::text::chars_of;

verus! {

/// A decimal digit.
pub open spec fn is_digit(c: char) -> bool {
    '0' <= c <= '9'
}

/// The number that a sequence of decimal digits writes.
pub open spec fn digits_value(digits: Seq<char>) -> nat
    decreases digits.len(),
{
    if digits.len() == 0 {
        0
    } else {
        10 * digits_value(digits.drop_last()) + (digits.last() as nat - '0' as nat) as nat
    }
}

/// The text without a plus sign at its start.
pub open spec fn after_sign(text: Seq<char>) -> Seq<char> {
    if text.len() > 0 && text[0] == '+' {
        text.skip(1)
    } else {
        text
    }
}

/// Decimal digits, at least one, and nothing else.
pub open spec fn all_digits(text: Seq<char>) -> bool {
    &&& text.len() > 0
    &&& forall|i: int| 0 <= i < text.len() ==> is_digit(#[trigger] text[i])
}

/// The number that a text writes: decimal digits, at least one, with or
/// without a plus sign before them.
pub open spec fn decimal_value(text: Seq<char>) -> Option<nat> {
    if all_digits(after_sign(text)) {
        Some(digits_value(after_sign(text)))
    } else {
        None
    }
}

/// The decimal digits of a number, without leading zeros.
pub open spec fn decimal_digits(n: nat) -> Seq<char>
    decreases n,
{
    let last = (n % 10 + '0' as nat) as char;
    if n < 10 {
        seq![last]
    } else {
        decimal_digits(n / 10).push(last)
    }
}

proof fn lemma_digits_grow(digits: Seq<char>, n: int)
    requires
        0 <= n <= digits.len(),
        forall|i: int| 0 <= i < digits.len() ==> is_digit(#[trigger] digits[i]),
    ensures
        digits_value(digits.take(n)) <= digits_value(digits),
    decreases digits.len() - n,
{
    if n == digits.len() {
        assert(digits.take(n) =~= digits);
    } else {
        lemma_digits_grow(digits, n + 1);
        assert(digits.take(n + 1).drop_last() =~= digits.take(n));
    }
}

/// Reads a decimal number, where it is at most `maximum`.
pub fn parse_decimal(text: &str, maximum: u64) -> (number: Option<u64>)
    ensures
        match number {
            Some(n) => n <= maximum && decimal_value(text@) == Some(n as nat),
            None => match decimal_value(text@) {
                Some(n) => n > maximum,
                None => true,
            },
        },
{
    let chars = chars_of(text);
    let start: usize = if chars.len() > 0 && chars[0] == '+' { 1 } else { 0 };
    let ghost digits = chars@.skip(start as int);
    if start == 0 {
        assert(digits =~= text@);
    }
    if start == chars.len() {
        return None;
    }
    let mut i: usize = start;
    while i < chars.len()
        invariant
            start <= i <= chars@.len(),
            digits == chars@.skip(start as int),
            digits == after_sign(text@),
            forall|j: int| 0 <= j < i - start ==> is_digit(#[trigger] digits[j]),
        decreases chars@.len() - i,
    {
        let c = chars[i];
        assert(digits[i - start] == c);
        if !('0' <= c && c <= '9') {
            return None;
        }
        i += 1;
    }
    let mut value: u64 = 0;
    i = start;
    assert(digits.take(0) =~= Seq::empty());
    while i < chars.len()
        invariant
            start <= i <= chars@.len(),
            digits == chars@.skip(start as int),
            forall|j: int| 0 <= j < digits.len() ==> is_digit(#[trigger] digits[j]),
            decimal_value(text@) == Some(digits_value(digits)),
            value == digits_value(digits.take(i - start)),
            value <= maximum,
        decreases chars@.len() - i,
    {
        let c = chars[i];
        assert(digits[i - start] == c);
        assert(digits.take(i - start + 1).drop_last() =~= digits.take(i - start));
        assert(digits.take(i - start + 1).last() == c);
        proof {
            lemma_digits_grow(digits, i - start + 1);
        }
        let digit = c as u64 - '0' as u64;
        let next = match value.checked_mul(10) {
            Some(tens) => tens.checked_add(digit),
            None => None,
        };
        value = match next {
            Some(next) => if next <= maximum {
                next
            } else {
                return None;
            },
            None => return None,
        };
        i += 1;
    }
    assert(digits.take(i - start) =~= digits);
    Some(value)
}

/// A number between one and `maximum`, out of a text. What no machine number up
/// to `largest` is written by is refused as no integer, the rest as out of
/// range.
pub open spec fn positive_value(
    text: Seq<char>,
    largest: nat,
    maximum: nat,
    no_integer: Seq<char>,
    out_of_range: Seq<char>,
) -> Result<nat, Seq<char>> {
    match decimal_value(text) {
        Some(n) => if n > largest {
            Err(no_integer)
        } else if 1 <= n <= maximum {
            Ok(n)
        } else {
            Err(out_of_range)
        },
        None => Err(no_integer),
    }
}

/// Reads a number between one and `maximum`.
pub fn parse_positive(
    text: &str,
    largest: u64,
    maximum: u64,
    no_integer: &str,
    out_of_range: &str,
) -> (number: Result<u64, String>)
    ensures
        match number {
            Ok(n) => positive_value(
                text@,
                largest as nat,
                maximum as nat,
                no_integer@,
                out_of_range@,
            ) == Ok::<nat, Seq<char>>(n as nat),
            Err(message) => positive_value(
                text@,
                largest as nat,
                maximum as nat,
                no_integer@,
                out_of_range@,
            ) == Err::<nat, Seq<char>>(message@),
        },
{
    match parse_decimal(text, largest) {
        None => Err(no_integer.to_string()),
        Some(n) => {
            if 1 <= n && n <= maximum {
                Ok(n)
            } else {
                Err(out_of_range.to_string())
            }
        },
    }
}

/// Writes a number in decimal digits.
pub fn decimal(number: u64) -> (digits: String)
    ensures
        digits@ == decimal_digits(number as nat),
{
    let mut reversed: Vec<char> = Vec::new();
    let mut rest = number;
    let ghost mut tail = Seq::<char>::empty();
    while rest >= 10
        invariant
            tail == reversed@.reverse(),
            decimal_digits(rest as nat) + tail == decimal_digits(number as nat),
        decreases rest,
    {
        let digit = (rest % 10) as u8;
        let c = (digit + '0' as u8) as char;
        let ghost before = decimal_digits((rest / 10) as nat);
        assert(decimal_digits(rest as nat) == before.push(c));
        reversed.push(c);
        proof {
            tail = seq![c] + tail;
            assert(reversed@.reverse() =~= tail);
            assert(before + tail =~= decimal_digits(number as nat));
        }
        rest = rest / 10;
    }
    let c = (rest as u8 + '0' as u8) as char;
    assert(decimal_digits(rest as nat) == seq![c]);
    reversed.push(c);
    let mut digits = String::new();
    let ghost all = reversed@;
    while reversed.len() > 0
        invariant
            digits@ + reversed@.reverse() == all.reverse(),
        decreases reversed@.len(),
    {
        let ghost before = reversed@;
        let ghost written = digits@;
        let c = reversed[reversed.len() - 1];
        reversed.pop();
        digits.push(c);
        proof {
            assert(before.reverse() =~= seq![c] + reversed@.reverse());
            assert(digits@ + reversed@.reverse() =~= written + before.reverse());
        }
    }
    assert(digits@ =~= all.reverse());
    assert(all.reverse() =~= seq![c] + tail);
    digits
}

proof fn lemma_digits_of(n: nat)
    ensures
        decimal_digits(n).len() > 0,
        forall|i: int| 0 <= i < decimal_digits(n).len() ==> is_digit(#[trigger] decimal_digits(n)[i]),
        digits_value(decimal_digits(n)) == n,
    decreases n,
{
    let last = (n % 10 + '0' as nat) as char;
    if n < 10 {
        assert(decimal_digits(n).drop_last() =~= Seq::empty());
        assert(digits_value(Seq::<char>::empty()) == 0);
    } else {
        lemma_digits_of(n / 10);
        assert(decimal_digits(n).drop_last() =~= decimal_digits(n / 10));
        assert(decimal_digits(n).last() == last);
    }
}

/// A number that was written is read back.
pub proof fn law_written_is_read(n: nat)
    ensures
        decimal_value(decimal_digits(n)) == Some(n),
        all_digits(decimal_digits(n)),
{
    lemma_digits_of(n);
    assert(is_digit(decimal_digits(n)[0]));
}

/// A number in decimal notation has its last digit behind the digits of its
/// tenth, and starts with a zero only if it is zero.
pub proof fn law_decimal_notation(n: nat, digit: nat)
    requires
        digit < 10,
    ensures
        n > 0 ==> decimal_digits(10 * n + digit) == decimal_digits(n).push(
            (0x30 + digit) as char,
        ),
        decimal_digits(digit) == seq![(0x30 + digit) as char],
        n > 0 ==> decimal_digits(n)[0] != '0',
{
    if n > 0 {
        assert((10 * n + digit) / 10 == n && (10 * n + digit) % 10 == digit);
        lemma_no_leading_zero(n);
    }
}

proof fn lemma_no_leading_zero(n: nat)
    requires
        n > 0,
    ensures
        decimal_digits(n).len() > 0,
        decimal_digits(n)[0] != '0',
    decreases n,
{
    if n >= 10 {
        lemma_no_leading_zero(n / 10);
        assert(decimal_digits(n)[0] == decimal_digits(n / 10)[0]);
    }
}

/// A text writes a number if and only if it is one or more decimal digits,
/// perhaps with a plus sign before them. A digit more makes ten times the number
/// and the digit.
pub proof fn law_numbers_are_read(text: Seq<char>, digit: nat)
    requires
        digit < 10,
    ensures
        text.len() == 0 ==> decimal_value(text) is None,
        text == seq!['+'] ==> decimal_value(text) is None,
        forall|i: int|
            0 < i < text.len() && !('0' <= #[trigger] text[i] <= '9') ==> decimal_value(text)
                is None,
        text.len() > 0 && !('0' <= text[0] <= '9') && text[0] != '+' ==> decimal_value(text)
            is None,
        decimal_value(seq![(0x30 + digit) as char]) == Some(digit),
        decimal_value(text) matches Some(n) ==> decimal_value(text.push((0x30 + digit) as char))
            == Some(10 * n + digit),
        text.len() > 0 && '0' <= text[0] <= '9' ==> decimal_value(seq!['+'] + text)
            == decimal_value(text),
{
    let c = (0x30 + digit) as char;
    let one = seq![c];
    assert(after_sign(one) == one);
    assert(one.drop_last() =~= Seq::empty());
    assert(digits_value(Seq::<char>::empty()) == 0);
    assert(is_digit(one[0]));
    assert(digits_value(one) == digit);
    assert forall|i: int| 0 < i < text.len() && !('0' <= #[trigger] text[i] <= '9') implies
        decimal_value(text) is None by {
        if text[0] == '+' {
            assert(after_sign(text)[i - 1] == text[i]);
        } else {
            assert(after_sign(text)[i] == text[i]);
        }
        assert(!all_digits(after_sign(text)));
    }
    if text.len() > 0 && !('0' <= text[0] <= '9') && text[0] != '+' {
        assert(!is_digit(after_sign(text)[0]));
    }
    if decimal_value(text) is Some {
        let rest = after_sign(text);
        let more = text.push(c);
        assert(after_sign(more) =~= rest.push(c));
        assert(rest.push(c).drop_last() =~= rest);
        assert forall|i: int| 0 <= i < rest.push(c).len() implies is_digit(
            #[trigger] rest.push(c)[i],
        ) by {
            if i < rest.len() {
                assert(is_digit(rest[i]));
            }
        }
    }
    if text.len() > 0 && '0' <= text[0] <= '9' {
        assert((seq!['+'] + text).skip(1) =~= text);
    }
}

/// A number is taken if and only if it is written, fits in the machine and is
/// between one and its maximum. What is no number, or too great for the
/// machine, is refused as that; the rest is refused as out of range.
pub proof fn law_positive_numbers_are_taken(
    text: Seq<char>,
    largest: nat,
    maximum: nat,
    no_integer: Seq<char>,
    out_of_range: Seq<char>,
)
    ensures
        ({
            let taken = positive_value(text, largest, maximum, no_integer, out_of_range);
            match decimal_value(text) {
                None => taken == Err::<nat, Seq<char>>(no_integer),
                Some(n) => {
                    &&& taken == Ok::<nat, Seq<char>>(n) <==> 1 <= n <= maximum && n <= largest
                    &&& n > largest ==> taken == Err::<nat, Seq<char>>(no_integer)
                    &&& n <= largest && (n == 0 || n > maximum) ==> taken == Err::<nat, Seq<char>>(
                        out_of_range,
                    )
                },
            }
        }),
{
}

} // verus!
