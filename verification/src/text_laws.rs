//! What holds of the operations on texts, said of the texts alone.

use crate::text;
use vstd::prelude::*;

verus! {

/// Whether a text is white space and nothing else.
pub open spec fn is_blank(s: Seq<char>) -> bool {
    forall|i: int| 0 <= i < s.len() ==> text::is_whitespace(#[trigger] s[i])
}

/// Whether a text neither starts nor ends with white space.
pub open spec fn is_tight(s: Seq<char>) -> bool {
    s.len() > 0 ==> !text::is_whitespace(s[0]) && !text::is_whitespace(s[s.len() - 1])
}

/// Trimming takes off the white space on both sides and nothing else: what is left of a tight text
/// with white space around it is that text, and a blank text leaves nothing.
pub proof fn law_trim_keeps_the_inside(before: Seq<char>, inside: Seq<char>, after: Seq<char>)
    requires
        is_blank(before),
        is_tight(inside),
        is_blank(after),
    ensures
        text::trim(before + inside + after) == inside,
{
    let whole = before + inside + after;
    let n = before.len() as int;
    if inside.len() == 0 {
        assert forall|i: int| 0 <= i < whole.len() implies text::space()(#[trigger] whole[i]) by {
            if i < n {
                assert(whole[i] == before[i]);
            } else {
                assert(whole[i] == after[i - n]);
            }
        }
        text::lemma_trim_start(whole, text::space(), whole.len() as int);
        text::lemma_trim_end(whole.skip(whole.len() as int), text::space(), 0);
        assert(text::trim(whole) =~= inside);
    } else {
        assert forall|i: int| 0 <= i < n implies text::space()(#[trigger] whole[i]) by {
            assert(whole[i] == before[i]);
        }
        assert(whole[n] == inside[0]);
        text::lemma_trim_start(whole, text::space(), n);
        let rest = whole.skip(n);
        let m = inside.len() as int;
        assert forall|i: int| m <= i < rest.len() implies text::space()(#[trigger] rest[i]) by {
            assert(rest[i] == after[i - m]);
        }
        assert(rest[m - 1] == inside[m - 1]);
        text::lemma_trim_end(rest, text::space(), m);
        assert(rest.take(m) =~= inside);
    }
}

/// Every text is what trimming leaves of it with white space around it.
pub proof fn law_trim_takes_white_space_alone(s: Seq<char>) -> (sides: (Seq<char>, Seq<char>))
    ensures
        s == sides.0 + text::trim(s) + sides.1,
        is_blank(sides.0),
        is_blank(sides.1),
        is_tight(text::trim(s)),
{
    let n = text::lemma_trim_start_shape(s, text::space());
    let rest = s.skip(n);
    let m = text::lemma_trim_end_shape(rest, text::space());
    let before = s.take(n);
    let after = rest.skip(m);
    assert forall|i: int| 0 <= i < before.len() implies text::is_whitespace(
        #[trigger] before[i],
    ) by {
        assert(text::space()(s[i]));
    }
    assert forall|i: int| 0 <= i < after.len() implies text::is_whitespace(#[trigger] after[i]) by {
        assert(text::space()(rest[m + i]));
    }
    assert(text::trim(s) =~= rest.take(m));
    if m > 0 {
        assert(rest.take(m)[0] == s[n]);
    }
    assert(s =~= before + text::trim(s) + after);
    (before, after)
}

/// Taking one character off the end takes off as many of it as stand there.
pub proof fn law_trim_end_takes_one_character(s: Seq<char>, k: char) -> (count: nat)
    ensures
        s == text::trim_end_by(s, text::only(k)) + Seq::new(count, |i: int| k),
        text::trim_end_by(s, text::only(k)).len() > 0 ==> text::trim_end_by(
            s,
            text::only(k),
        ).last() != k,
{
    let n = text::lemma_trim_end_shape(s, text::only(k));
    let count = (s.len() - n) as nat;
    assert forall|i: int| n <= i < s.len() implies #[trigger] s[i] == k by {
        assert(text::only(k)(s[i]));
    }
    assert(s =~= s.take(n) + Seq::new(count, |i: int| k));
    count
}

/// Taking one character off the start takes off as many of it as stand there.
pub proof fn law_trim_start_takes_one_character(s: Seq<char>, k: char) -> (count: nat)
    ensures
        s == Seq::new(count, |i: int| k) + text::trim_start_by(s, text::only(k)),
        text::trim_start_by(s, text::only(k)).len() > 0 ==> text::trim_start_by(
            s,
            text::only(k),
        )[0] != k,
{
    let n = text::lemma_trim_start_shape(s, text::only(k));
    assert forall|i: int| 0 <= i < n implies #[trigger] s[i] == k by {
        assert(text::only(k)(s[i]));
    }
    assert(s =~= Seq::new(n as nat, |i: int| k) + s.skip(n));
    n as nat
}

/// The position found is the first one at which the pattern stands, and nothing is found exactly
/// where it stands nowhere.
pub proof fn law_find_is_first(s: Seq<char>, pattern: Seq<char>)
    ensures
        match text::find_text(s, pattern) {
            Some(i) => {
                &&& 0 <= i <= s.len() - pattern.len()
                &&& s.subrange(i, i + pattern.len()) == pattern
                &&& forall|j: int|
                    0 <= j < i ==> #[trigger] s.subrange(j, j + pattern.len()) != pattern
            },
            None => forall|j: int|
                0 <= j <= s.len() - pattern.len() ==> #[trigger] s.subrange(j, j + pattern.len())
                    != pattern,
        },
        text::contains_text(s, pattern) <==> text::find_text(s, pattern) is Some,
{
    text::lemma_find(s, pattern);
    match text::find_text(s, pattern) {
        Some(i) => {
            assert forall|j: int| 0 <= j < i implies #[trigger] s.subrange(j, j + pattern.len())
                != pattern by {
                assert(!text::occurs_at(s, pattern, j));
            }
        },
        None => {
            assert forall|j: int|
                0 <= j <= s.len() - pattern.len() implies #[trigger] s.subrange(
                j,
                j + pattern.len(),
            ) != pattern by {
                assert(!text::occurs_at(s, pattern, j));
            }
        },
    }
}

/// The head of a text is its beginning, as long as asked for where the text is that long.
pub proof fn law_head_is_the_beginning(s: Seq<char>, rest: Seq<char>, count: nat)
    ensures
        s.len() == count ==> text::head(s + rest, count) == s,
        s.len() <= count ==> text::head(s, count) == s,
{
    if s.len() == count {
        assert(text::head(s + rest, count) =~= s);
    }
}

/// Small letters stay where the capital ones stood.
pub proof fn law_lower_goes_letter_by_letter(s: Seq<char>, i: int)
    ensures
        text::lower(s).len() == s.len(),
        0 <= i < s.len() ==> text::lower(s)[i] == text::lower_char(s[i]),
{
}

/// A row of digits stands for ten times what it stands for without its last digit, and that digit.
pub proof fn law_digits_count_by_tens(s: Seq<char>, c: char)
    requires
        '0' <= c <= '9',
    ensures
        text::number_value(Seq::<char>::empty()) == 0,
        text::number_value(s.push(c)) == 10 * text::number_value(s) + (c as int - '0' as int),
{
    assert(s.push(c).drop_last() =~= s);
}

/// A number is written with digits alone, without a needless zero at its start, and what is written
/// stands for the number.
pub proof fn law_decimal_is_the_number(n: nat)
    ensures
        text::decimal(n).len() > 0,
        forall|i: int| 0 <= i < text::decimal(n).len() ==> '0' <= #[trigger] text::decimal(n)[i]
            <= '9',
        text::number_value(text::decimal(n)) == n,
        text::decimal(n)[0] == '0' ==> n == 0,
        text::decimal(0).len() == 1,
    decreases n,
{
    text::lemma_decimal_round_trip(n);
    if n >= 10 {
        law_decimal_is_the_number(n / 10);
    }
}

/// Whether a text is made of decimal digits and has at least one.
pub open spec fn is_number(s: Seq<char>) -> bool {
    &&& s.len() > 0
    &&& forall|i: int| 0 <= i < s.len() ==> '0' <= #[trigger] s[i] && s[i] <= '9'
}

/// What stands behind the plus sign at the start of a text, or all of the text.
pub open spec fn behind_plus(s: Seq<char>) -> Seq<char> {
    if s.len() > 0 && s[0] == '+' {
        s.skip(1)
    } else {
        s
    }
}

/// A number is read from digits, or from digits behind a plus sign, where it is not too great.
/// Nothing is read from anything else.
pub proof fn law_numbers_are_read_from_digits(s: Seq<char>, max: nat)
    ensures
        match text::parse_unsigned(s, max) {
            Some(n) => is_number(behind_plus(s)) && n == text::number_value(behind_plus(s)) && n
                <= max,
            None => is_number(behind_plus(s)) ==> text::number_value(behind_plus(s)) > max,
        },
{
    let digits = behind_plus(s);
    if s.len() > 0 {
        assert(s.drop_first() =~= s.skip(1));
    }
    assert(text::all_digits(digits) ==> is_number(digits) || digits.len() == 0) by {
        if text::all_digits(digits) {
            assert forall|i: int| 0 <= i < digits.len() implies '0' <= #[trigger] digits[i]
                && digits[i] <= '9' by {
                assert(text::is_digit(digits[i]));
            }
        }
    }
    assert(is_number(digits) ==> text::all_digits(digits));
}

/// The digits at the start of a text are all of them: what follows does not go on with one.
pub proof fn law_leading_digits_are_all(digits: Seq<char>, rest: Seq<char>)
    requires
        forall|i: int| 0 <= i < digits.len() ==> '0' <= #[trigger] digits[i] <= '9',
        rest.len() > 0 ==> !('0' <= rest[0] <= '9'),
    ensures
        text::take_while(digits + rest, text::digit()) == digits,
{
    let whole = digits + rest;
    let n = digits.len() as int;
    assert forall|i: int| 0 <= i < n implies text::digit()(#[trigger] whole[i]) by {
        assert(whole[i] == digits[i]);
    }
    if n < whole.len() {
        assert(whole[n] == rest[0]);
    }
    text::lemma_trim_start(whole, text::digit(), n);
    assert(whole.take(n) =~= digits);
}

/// A pattern is taken off the start of a text as often as it stands there.
pub proof fn law_repetitions_are_taken_off(pattern: Seq<char>, rest: Seq<char>)
    requires
        pattern.len() > 0,
    ensures
        text::strip_repeated(pattern + rest, pattern) == text::strip_repeated(rest, pattern),
        !pattern.is_prefix_of(rest) ==> text::strip_repeated(rest, pattern) == rest,
{
    assert((pattern + rest).subrange(0, pattern.len() as int) =~= pattern);
    assert((pattern + rest).skip(pattern.len() as int) =~= rest);
}

}
