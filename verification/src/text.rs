//! Text as a sequence of characters: trimming, searching and decimal numbers.

use vstd::prelude::*;
use vstd::string::*;

verus! {

// ===== Characters =====

/// The characters with the Unicode property `White_Space`.
pub open spec fn is_whitespace(c: char) -> bool {
    ||| '\u{9}' <= c <= '\u{d}'
    ||| c == ' '
    ||| c == '\u{85}'
    ||| c == '\u{a0}'
    ||| c == '\u{1680}'
    ||| '\u{2000}' <= c <= '\u{200a}'
    ||| c == '\u{2028}'
    ||| c == '\u{2029}'
    ||| c == '\u{202f}'
    ||| c == '\u{205f}'
    ||| c == '\u{3000}'
}

/// Whether a character is white space.
pub fn whitespace(c: char) -> (result: bool)
    ensures
        result == is_whitespace(c),
{
    ('\u{9}' <= c && c <= '\u{d}') || c == ' ' || c == '\u{85}' || c == '\u{a0}' || c == '\u{1680}'
        || ('\u{2000}' <= c && c <= '\u{200a}') || c == '\u{2028}' || c == '\u{2029}' || c
        == '\u{202f}' || c == '\u{205f}' || c == '\u{3000}'
}

/// The ASCII decimal digits.
pub open spec fn is_digit(c: char) -> bool {
    '0' <= c <= '9'
}

/// The character with its ASCII capital letter turned into a small one.
pub open spec fn lower_char(c: char) -> char {
    if 'A' <= c <= 'Z' {
        (c as u32 + 32) as char
    } else {
        c
    }
}

/// A text with its ASCII capital letters turned into small ones.
pub open spec fn lower(s: Seq<char>) -> Seq<char> {
    Seq::new(s.len(), |i: int| lower_char(s[i]))
}

/// The predicate of being white space.
pub open spec fn space() -> spec_fn(char) -> bool {
    |c: char| is_whitespace(c)
}

/// The predicate of not being white space.
pub open spec fn visible() -> spec_fn(char) -> bool {
    |c: char| !is_whitespace(c)
}

/// The predicate of being the character `k`.
pub open spec fn only(k: char) -> spec_fn(char) -> bool {
    |c: char| c == k
}

/// The predicate of being a decimal digit.
pub open spec fn digit() -> spec_fn(char) -> bool {
    |c: char| is_digit(c)
}

// ===== Trimming =====

/// The text without the longest prefix whose characters satisfy `p`.
pub open spec fn trim_start_by(s: Seq<char>, p: spec_fn(char) -> bool) -> Seq<char>
    decreases s.len(),
{
    if s.len() > 0 && p(s[0]) {
        trim_start_by(s.drop_first(), p)
    } else {
        s
    }
}

/// The text without the longest suffix whose characters satisfy `p`.
pub open spec fn trim_end_by(s: Seq<char>, p: spec_fn(char) -> bool) -> Seq<char>
    decreases s.len(),
{
    if s.len() > 0 && p(s.last()) {
        trim_end_by(s.drop_last(), p)
    } else {
        s
    }
}

/// The text without leading and trailing white space.
pub open spec fn trim(s: Seq<char>) -> Seq<char> {
    trim_end_by(trim_start_by(s, space()), space())
}

/// The longest prefix whose characters satisfy `p`.
pub open spec fn take_while(s: Seq<char>, p: spec_fn(char) -> bool) -> Seq<char> {
    s.take(s.len() - trim_start_by(s, p).len())
}

/// The text without the repetitions of `pattern` that it starts with.
pub open spec fn strip_repeated(s: Seq<char>, pattern: Seq<char>) -> Seq<char>
    decreases s.len(),
{
    if pattern.len() > 0 && pattern.is_prefix_of(s) {
        strip_repeated(s.skip(pattern.len() as int), pattern)
    } else {
        s
    }
}

/// Trimming the start removes exactly `n` characters when `n` of them satisfy `p` and the next
/// one does not.
pub proof fn lemma_trim_start(s: Seq<char>, p: spec_fn(char) -> bool, n: int)
    requires
        0 <= n <= s.len(),
        forall|i: int| 0 <= i < n ==> p(#[trigger] s[i]),
        n < s.len() ==> !p(s[n]),
    ensures
        trim_start_by(s, p) == s.skip(n),
    decreases n,
{
    if n == 0 {
        assert(s.skip(0) =~= s);
    } else {
        lemma_trim_start(s.drop_first(), p, n - 1);
        assert(s.drop_first().skip(n - 1) =~= s.skip(n));
    }
}

/// Trimming the end keeps exactly `n` characters when those after them satisfy `p` and the
/// last one kept does not.
pub proof fn lemma_trim_end(s: Seq<char>, p: spec_fn(char) -> bool, n: int)
    requires
        0 <= n <= s.len(),
        forall|i: int| n <= i < s.len() ==> p(#[trigger] s[i]),
        n > 0 ==> !p(s[n - 1]),
    ensures
        trim_end_by(s, p) == s.take(n),
    decreases s.len() - n,
{
    if n == s.len() {
        assert(s.take(n) =~= s);
    } else {
        assert(p(s[s.len() - 1]));
        lemma_trim_end(s.drop_last(), p, n);
        assert(s.drop_last().take(n) =~= s.take(n));
    }
}

/// What trimming the start removes satisfies `p`, and what it leaves does not start with such a
/// character.
pub proof fn lemma_trim_start_shape(s: Seq<char>, p: spec_fn(char) -> bool) -> (n: int)
    ensures
        0 <= n <= s.len(),
        trim_start_by(s, p) == s.skip(n),
        forall|i: int| 0 <= i < n ==> p(#[trigger] s[i]),
        n < s.len() ==> !p(s[n]),
    decreases s.len(),
{
    if s.len() > 0 && p(s[0]) {
        let m = lemma_trim_start_shape(s.drop_first(), p);
        assert(s.drop_first().skip(m) =~= s.skip(m + 1));
        assert forall|i: int| 0 <= i < m + 1 implies p(#[trigger] s[i]) by {
            if i > 0 {
                assert(s[i] == s.drop_first()[i - 1]);
            }
        }
        m + 1
    } else {
        assert(s.skip(0) =~= s);
        0
    }
}

/// What trimming the end removes satisfies `p`, and what it leaves does not end with such a
/// character.
pub proof fn lemma_trim_end_shape(s: Seq<char>, p: spec_fn(char) -> bool) -> (n: int)
    ensures
        0 <= n <= s.len(),
        trim_end_by(s, p) == s.take(n),
        forall|i: int| n <= i < s.len() ==> p(#[trigger] s[i]),
        n > 0 ==> !p(s[n - 1]),
    decreases s.len(),
{
    if s.len() > 0 && p(s.last()) {
        let n = lemma_trim_end_shape(s.drop_last(), p);
        assert(s.drop_last().take(n) =~= s.take(n));
        assert forall|i: int| n <= i < s.len() implies p(#[trigger] s[i]) by {
            if i < s.len() - 1 {
                assert(s[i] == s.drop_last()[i]);
            }
        }
        n
    } else {
        assert(s.take(s.len() as int) =~= s);
        s.len() as int
    }
}

// ===== Searching =====

/// Whether `pattern` stands in `s` at position `i`.
pub open spec fn occurs_at(s: Seq<char>, pattern: Seq<char>, i: int) -> bool {
    &&& 0 <= i
    &&& i + pattern.len() <= s.len()
    &&& s.subrange(i, i + pattern.len()) == pattern
}

/// Whether `pattern` stands in `s` at position `i` and nowhere before.
pub open spec fn first_occurs_at(s: Seq<char>, pattern: Seq<char>, i: int) -> bool {
    &&& occurs_at(s, pattern, i)
    &&& forall|j: int| 0 <= j < i ==> !#[trigger] occurs_at(s, pattern, j)
}

/// Whether `pattern` stands somewhere in `s`.
pub open spec fn contains_text(s: Seq<char>, pattern: Seq<char>) -> bool {
    exists|i: int| occurs_at(s, pattern, i)
}

/// The first position of `pattern` in `s` that is not before `from`.
pub open spec fn find_from(s: Seq<char>, pattern: Seq<char>, from: int) -> Option<int>
    decreases s.len() - from + 1,
{
    if from + pattern.len() > s.len() {
        None
    } else if occurs_at(s, pattern, from) {
        Some(from)
    } else {
        find_from(s, pattern, from + 1)
    }
}

/// The first position of `pattern` in `s`.
pub open spec fn find_text(s: Seq<char>, pattern: Seq<char>) -> Option<int> {
    find_from(s, pattern, 0)
}

proof fn lemma_find_from(s: Seq<char>, pattern: Seq<char>, from: int)
    requires
        0 <= from,
    ensures
        match find_from(s, pattern, from) {
            Some(i) => from <= i && occurs_at(s, pattern, i) && forall|j: int|
                from <= j < i ==> !#[trigger] occurs_at(s, pattern, j),
            None => forall|j: int| from <= j ==> !#[trigger] occurs_at(s, pattern, j),
        },
    decreases s.len() - from + 1,
{
    if from + pattern.len() <= s.len() && !occurs_at(s, pattern, from) {
        lemma_find_from(s, pattern, from + 1);
    }
}

/// The position found is the first one; nothing is found only where the pattern does not occur.
pub proof fn lemma_find(s: Seq<char>, pattern: Seq<char>)
    ensures
        match find_text(s, pattern) {
            Some(i) => first_occurs_at(s, pattern, i),
            None => !contains_text(s, pattern),
        },
{
    lemma_find_from(s, pattern, 0);
    if find_text(s, pattern) is None && contains_text(s, pattern) {
        let i = choose|i: int| occurs_at(s, pattern, i);
        assert(0 <= i);
    }
}

/// A first occurrence is the position found.
pub proof fn lemma_find_first(s: Seq<char>, pattern: Seq<char>, i: int)
    requires
        first_occurs_at(s, pattern, i),
    ensures
        find_text(s, pattern) == Some(i),
{
    lemma_find(s, pattern);
    match find_text(s, pattern) {
        Some(k) => {
            assert(occurs_at(s, pattern, k));
            if k < i {
                assert(false);
            }
        },
        None => {
            assert(contains_text(s, pattern));
        },
    }
}

/// The first occurrence of a marker is the one behind a label, where none starts before that. What
/// follows it does not matter.
pub proof fn lemma_find_behind(label: Seq<char>, marker: Seq<char>, rest: Seq<char>)
    requires
        marker.len() > 0,
        !contains_text(label + marker.drop_last(), marker),
    ensures
        find_text(label + marker + rest, marker) == Some(label.len() as int),
        (label + marker + rest).skip((label.len() + marker.len()) as int) == rest,
{
    let whole = label + marker + rest;
    let before = label + marker.drop_last();
    let start = label.len() as int;
    let end = label.len() + marker.len();
    assert(before =~= whole.take(end - 1));
    assert(whole.skip(end as int) =~= rest);
    assert(whole.subrange(start, end as int) =~= marker);
    assert forall|j: int| 0 <= j < start implies !#[trigger] occurs_at(whole, marker, j) by {
        if occurs_at(whole, marker, j) {
            assert(whole.take(end - 1).subrange(j, j + marker.len()) =~= whole.subrange(
                j,
                j + marker.len(),
            ));
            assert(occurs_at(before, marker, j));
        }
    }
    lemma_find_first(whole, marker, start);
}

/// What an optional text holds.
pub open spec fn optional(s: Option<&str>) -> Option<Seq<char>> {
    match s {
        Some(found) => Some(found@),
        None => None,
    }
}

/// The characters of a text.
pub fn chars_of(s: &str) -> (chars: Vec<char>)
    ensures
        chars@ == s@,
{
    let mut chars: Vec<char> = Vec::new();
    for c in it: s.chars()
        invariant
            it.seq() == s@,
            chars@ == s@.take(it.index() as int),
    {
        chars.push(c);
        assert(s@.take(it.index() + 1) =~= s@.take(it.index() as int).push(c));
    }
    assert(s@.take(s@.len() as int) =~= s@);
    chars
}

/// The characters of `s` from position `start` up to `end`.
pub fn slice_text(s: &str, start: usize, end: usize) -> (result: String)
    requires
        start <= end <= s@.len(),
    ensures
        result@ == s@.subrange(start as int, end as int),
{
    s.substring_char(start, end).to_owned()
}

/// Whether two character sequences are equal.
fn same_chars(a: &Vec<char>, b: &Vec<char>) -> (result: bool)
    ensures
        result == (a@ == b@),
{
    if a.len() != b.len() {
        return false;
    }
    for i in 0..a.len()
        invariant
            a@.len() == b@.len(),
            forall|j: int| 0 <= j < i ==> a@[j] == b@[j],
    {
        if a[i] != b[i] {
            return false;
        }
    }
    assert(a@ =~= b@);
    true
}

/// Whether two texts are equal.
pub fn same_text(a: &str, b: &str) -> (result: bool)
    ensures
        result == (a@ == b@),
{
    same_chars(&chars_of(a), &chars_of(b))
}

/// Whether `pattern` stands in `s` at position `at`.
fn matches_at(s: &Vec<char>, pattern: &Vec<char>, at: usize) -> (result: bool)
    requires
        at + pattern@.len() <= s@.len(),
    ensures
        result == occurs_at(s@, pattern@, at as int),
{
    for i in 0..pattern.len()
        invariant
            at + pattern.len() <= s.len(),
            forall|j: int| 0 <= j < i ==> s@[at + j] == #[trigger] pattern@[j],
    {
        if s[at + i] != pattern[i] {
            assert(s@.subrange(at as int, at + pattern@.len())[i as int] != pattern@[i as int]);
            return false;
        }
    }
    assert(s@.subrange(at as int, at + pattern@.len()) =~= pattern@);
    true
}

/// The position of the first occurrence of `pattern` in `s`.
fn find_chars(s: &Vec<char>, pattern: &Vec<char>) -> (result: Option<usize>)
    ensures
        match result {
            Some(i) => find_text(s@, pattern@) == Some(i as int),
            None => find_text(s@, pattern@) is None,
        },
{
    if pattern.len() > s.len() {
        return None;
    }
    let last: usize = s.len() - pattern.len();
    let mut i: usize = 0;
    while i <= last
        invariant
            last + pattern@.len() == s@.len(),
            i <= last + 1,
            find_text(s@, pattern@) == find_from(s@, pattern@, i as int),
        decreases last + 1 - i,
    {
        if matches_at(s, pattern, i) {
            return Some(i);
        }
        if i == last {
            assert(find_from(s@, pattern@, i + 1) is None);
            return None;
        }
        i = i + 1;
    }
    None
}

/// The position, counted in characters, of the first occurrence of `pattern` in `s`.
pub fn find(s: &str, pattern: &str) -> (result: Option<usize>)
    ensures
        match result {
            Some(i) => find_text(s@, pattern@) == Some(i as int) && i + pattern@.len() <= s@.len(),
            None => find_text(s@, pattern@) is None,
        },
{
    let found = find_chars(&chars_of(s), &chars_of(pattern));
    proof {
        lemma_find(s@, pattern@);
    }
    found
}

/// Whether `pattern` stands somewhere in `s`.
pub fn contains(s: &str, pattern: &str) -> (result: bool)
    ensures
        result == contains_text(s@, pattern@),
{
    proof {
        lemma_find(s@, pattern@);
    }
    match find(s, pattern) {
        Some(_) => true,
        None => false,
    }
}

/// Whether `s` starts with `prefix`.
pub fn starts_with(s: &str, prefix: &str) -> (result: bool)
    ensures
        result == prefix@.is_prefix_of(s@),
{
    let chars = chars_of(s);
    let pattern = chars_of(prefix);
    pattern.len() <= chars.len() && matches_at(&chars, &pattern, 0)
}

/// What follows `prefix` in `s`, where `s` starts with it.
pub fn strip_prefix(s: &str, prefix: &str) -> (result: Option<String>)
    ensures
        match result {
            Some(rest) => prefix@.is_prefix_of(s@) && rest@ == s@.skip(prefix@.len() as int),
            None => !prefix@.is_prefix_of(s@),
        },
{
    let chars = chars_of(s);
    let pattern = chars_of(prefix);
    if pattern.len() <= chars.len() && matches_at(&chars, &pattern, 0) {
        Some(slice_text(s, pattern.len(), chars.len()))
    } else {
        None
    }
}

/// The character with its ASCII capital letter turned into a small one.
pub fn lower_ascii(c: char) -> (result: char)
    ensures
        result == lower_char(c),
{
    if 'A' <= c && c <= 'Z' {
        ((c as u8) + 32) as char
    } else {
        c
    }
}

/// Whether `s` ends with `suffix` once its ASCII capital letters are turned into small ones.
pub fn ends_with_lower(s: &str, suffix: &str) -> (result: bool)
    ensures
        result == suffix@.is_suffix_of(lower(s@)),
{
    let chars = chars_of(s);
    let pattern = chars_of(suffix);
    if pattern.len() > chars.len() {
        return false;
    }
    let start: usize = chars.len() - pattern.len();
    for i in 0..pattern.len()
        invariant
            chars@ == s@,
            pattern@ == suffix@,
            start + pattern.len() == chars.len(),
            forall|j: int| 0 <= j < i ==> lower_char(s@[start + j]) == #[trigger] suffix@[j],
    {
        if lower_ascii(chars[start + i]) != pattern[i] {
            assert(lower(s@).subrange(start as int, s@.len() as int)[i as int] != suffix@[i as int]);
            return false;
        }
    }
    assert(lower(s@).subrange(start as int, s@.len() as int) =~= suffix@);
    true
}

/// The text without leading and trailing white space.
pub fn trim_text(s: &str) -> (result: String)
    ensures
        result@ == trim(s@),
{
    let chars = chars_of(s);
    let mut start: usize = 0;
    while start < chars.len() && whitespace(chars[start])
        invariant
            start <= chars@.len(),
            forall|i: int| 0 <= i < start ==> is_whitespace(#[trigger] chars@[i]),
        decreases chars@.len() - start,
    {
        start = start + 1;
    }
    let mut end: usize = chars.len();
    while end > start && whitespace(chars[end - 1])
        invariant
            start <= end <= chars@.len(),
            forall|i: int| end <= i < chars@.len() ==> is_whitespace(#[trigger] chars@[i]),
        decreases end,
    {
        end = end - 1;
    }
    proof {
        lemma_trim_start(s@, space(), start as int);
        lemma_trim_end(s@.skip(start as int), space(), end - start);
        assert(s@.skip(start as int).take(end - start) =~= s@.subrange(start as int, end as int));
    }
    slice_text(s, start, end)
}

/// The text without the characters `k` at its end.
pub fn trim_end_char(s: &str, k: char) -> (result: String)
    ensures
        result@ == trim_end_by(s@, only(k)),
{
    let chars = chars_of(s);
    let mut end: usize = chars.len();
    while end > 0 && chars[end - 1] == k
        invariant
            end <= chars@.len(),
            forall|i: int| end <= i < chars@.len() ==> #[trigger] chars@[i] == k,
        decreases end,
    {
        end = end - 1;
    }
    proof {
        lemma_trim_end(s@, only(k), end as int);
        assert(s@.take(end as int) =~= s@.subrange(0, end as int));
    }
    slice_text(s, 0, end)
}

/// The text without the characters `k` at its start.
pub fn trim_start_char(s: &str, k: char) -> (result: String)
    ensures
        result@ == trim_start_by(s@, only(k)),
{
    let chars = chars_of(s);
    let mut start: usize = 0;
    while start < chars.len() && chars[start] == k
        invariant
            start <= chars@.len(),
            forall|i: int| 0 <= i < start ==> #[trigger] chars@[i] == k,
        decreases chars@.len() - start,
    {
        start = start + 1;
    }
    proof {
        lemma_trim_start(s@, only(k), start as int);
    }
    slice_text(s, start, chars.len())
}

/// The text without the repetitions of `pattern` that it starts with.
pub fn strip_repeated_text(s: &str, pattern: &str) -> (result: String)
    ensures
        result@ == strip_repeated(s@, pattern@),
{
    let mut rest: String = s.to_owned();
    let step = chars_of(pattern);
    if step.len() == 0 {
        return rest;
    }
    loop
        invariant
            step@ == pattern@,
            step@.len() > 0,
            strip_repeated(rest@, pattern@) == strip_repeated(s@, pattern@),
        decreases rest@.len(),
    {
        match strip_prefix(&rest, pattern) {
            Some(shorter) => {
                rest = shorter;
            },
            None => {
                return rest;
            },
        }
    }
}

/// The first `count` characters of a text, or all of it where it is shorter.
pub open spec fn head(s: Seq<char>, count: nat) -> Seq<char> {
    if s.len() <= count {
        s
    } else {
        s.take(count as int)
    }
}

/// The first `count` characters of a text, or all of it where it is shorter.
pub fn head_text(s: &str, count: usize) -> (result: String)
    ensures
        result@ == head(s@, count as nat),
{
    let chars = chars_of(s);
    if chars.len() <= count {
        s.to_owned()
    } else {
        proof {
            assert(s@.subrange(0, count as int) =~= s@.take(count as int));
        }
        slice_text(s, 0, count)
    }
}

// ===== Decimal numbers =====

/// The decimal digit of value `d`.
pub open spec fn digit_char(d: nat) -> char {
    (48 + d) as char
}

/// The value of a decimal digit.
pub open spec fn digit_value(c: char) -> nat {
    (c as u32 - 48) as nat
}

/// The decimal notation of a number, without leading zeros.
pub open spec fn decimal(n: nat) -> Seq<char>
    decreases n,
{
    if n < 10 {
        seq![digit_char(n)]
    } else {
        decimal(n / 10).push(digit_char(n % 10))
    }
}

/// Whether a text holds nothing but decimal digits.
pub open spec fn all_digits(s: Seq<char>) -> bool {
    forall|i: int| 0 <= i < s.len() ==> is_digit(#[trigger] s[i])
}

/// The number that a sequence of decimal digits stands for.
pub open spec fn number_value(s: Seq<char>) -> nat
    decreases s.len(),
{
    if s.len() == 0 {
        0
    } else {
        number_value(s.drop_last()) * 10 + digit_value(s.last())
    }
}

/// The number written in `s` as one or more decimal digits, where it is at most `max`.
pub open spec fn parse_digits(s: Seq<char>, max: nat) -> Option<nat> {
    if s.len() > 0 && all_digits(s) && number_value(s) <= max {
        Some(number_value(s))
    } else {
        None
    }
}

/// The number written in `s` as decimal digits after an optional plus sign, where it is at most
/// `max`.
pub open spec fn parse_unsigned(s: Seq<char>, max: nat) -> Option<nat> {
    if s.len() > 0 && s[0] == '+' {
        parse_digits(s.drop_first(), max)
    } else {
        parse_digits(s, max)
    }
}

/// A longer row of digits stands for a number that is not smaller.
proof fn lemma_number_value_grows(s: Seq<char>, n: int)
    requires
        0 <= n <= s.len(),
    ensures
        number_value(s.take(n)) <= number_value(s),
    decreases s.len() - n,
{
    if n == s.len() {
        assert(s.take(n) =~= s);
    } else {
        lemma_number_value_grows(s.drop_last(), n);
        assert(s.drop_last().take(n) =~= s.take(n));
    }
}

/// Reading a decimal notation gives the number back.
pub proof fn lemma_decimal_round_trip(n: nat)
    ensures
        decimal(n).len() > 0,
        all_digits(decimal(n)),
        number_value(decimal(n)) == n,
    decreases n,
{
    if n < 10 {
        assert(decimal(n).drop_last() =~= Seq::<char>::empty());
        assert(number_value(decimal(n).drop_last()) == 0);
    } else {
        lemma_decimal_round_trip(n / 10);
        assert(decimal(n).drop_last() =~= decimal(n / 10));
        assert forall|i: int| 0 <= i < decimal(n).len() implies is_digit(
            #[trigger] decimal(n)[i],
        ) by {
            if i < decimal(n / 10).len() {
                assert(decimal(n)[i] == decimal(n / 10)[i]);
            }
        }
    }
}

/// The text that holds the decimal digit of value `d`.
fn digit_text(d: u64) -> (result: String)
    requires
        d < 10,
    ensures
        result@ == seq![digit_char(d as nat)],
{
    let digits = "0123456789";
    proof {
        reveal_strlit("0123456789");
        assert(digits@.subrange(d as int, d + 1) =~= seq![digit_char(d as nat)]);
    }
    slice_text(digits, d as usize, d as usize + 1)
}

/// The decimal notation of a number, without leading zeros.
pub fn decimal_text(n: u64) -> (result: String)
    ensures
        result@ == decimal(n as nat),
    decreases n,
{
    if n < 10 {
        digit_text(n)
    } else {
        let last = digit_text(n % 10);
        let result = decimal_text(n / 10).concat(&last);
        assert(result@ =~= decimal((n / 10) as nat).push(digit_char((n % 10) as nat)));
        result
    }
}

/// The number written in the characters from `start` on, as one or more decimal digits, where it
/// is at most `max`.
fn parse_digits_from(chars: &Vec<char>, start: usize, max: u64) -> (result: Option<u64>)
    requires
        start <= chars@.len(),
    ensures
        match result {
            Some(n) => parse_digits(chars@.skip(start as int), max as nat) == Some(n as nat),
            None => parse_digits(chars@.skip(start as int), max as nat) is None,
        },
{
    let ghost s = chars@.skip(start as int);
    if start == chars.len() {
        return None;
    }
    let mut value: u64 = 0;
    let mut i: usize = start;
    while i < chars.len()
        invariant
            s == chars@.skip(start as int),
            start <= i <= chars@.len(),
            value <= max,
            value == number_value(s.take(i - start)),
            forall|j: int| start <= j < i ==> is_digit(#[trigger] chars@[j]),
        decreases chars@.len() - i,
    {
        let c = chars[i];
        proof {
            assert(s[i - start] == c);
            assert(s.take(i + 1 - start).drop_last() =~= s.take(i - start));
            assert(s.take(i + 1 - start).last() == c);
            lemma_number_value_grows(s, i + 1 - start);
        }
        if !('0' <= c && c <= '9') {
            assert(!is_digit(s[i - start]));
            return None;
        }
        let d: u64 = c as u64 - 48;
        if d > max || value > max / 10 || value * 10 > max - d {
            return None;
        }
        value = value * 10 + d;
        i = i + 1;
    }
    proof {
        assert(s.take(s.len() as int) =~= s);
        assert forall|j: int| 0 <= j < s.len() implies is_digit(#[trigger] s[j]) by {
            assert(s[j] == chars@[start + j]);
        }
    }
    Some(value)
}

/// The number written in `s` as decimal digits after an optional plus sign, where it is at most
/// `max`.
pub fn parse_unsigned_text(s: &str, max: u64) -> (result: Option<u64>)
    ensures
        match result {
            Some(n) => parse_unsigned(s@, max as nat) == Some(n as nat),
            None => parse_unsigned(s@, max as nat) is None,
        },
{
    let chars = chars_of(s);
    if chars.len() > 0 && chars[0] == '+' {
        assert(s@.drop_first() =~= s@.skip(1));
        parse_digits_from(&chars, 1, max)
    } else {
        assert(s@ =~= s@.skip(0));
        parse_digits_from(&chars, 0, max)
    }
}

// ===== Bytes =====

/// The number of bytes of a text in UTF-8.
pub open spec fn utf8_len(s: Seq<char>) -> nat {
    vstd::utf8::encode_utf8(s).len()
}

/// The number of bytes of a character in UTF-8.
pub open spec fn char_width(c: char) -> nat {
    if c <= '\u{7f}' {
        1
    } else if c <= '\u{7ff}' {
        2
    } else if c <= '\u{ffff}' {
        3
    } else {
        4
    }
}

/// The bytes of two texts are as many as those of the texts put together.
pub proof fn lemma_utf8_len_append(a: Seq<char>, b: Seq<char>)
    ensures
        utf8_len(a + b) == utf8_len(a) + utf8_len(b),
    decreases a.len(),
{
    if a.len() == 0 {
        assert(a + b =~= b);
    } else {
        lemma_utf8_len_append(a.drop_first(), b);
        assert((a + b).drop_first() =~= a.drop_first() + b);
        assert((a + b)[0] == a[0]);
    }
}

/// The bytes of two texts put together are those of the one and then those of the other.
proof fn lemma_encode_append(a: Seq<char>, b: Seq<char>)
    ensures
        vstd::utf8::encode_utf8(a + b) == vstd::utf8::encode_utf8(a) + vstd::utf8::encode_utf8(b),
    decreases a.len(),
{
    if a.len() == 0 {
        assert(a + b =~= b);
        assert(vstd::utf8::encode_utf8(a) =~= Seq::empty());
    } else {
        lemma_encode_append(a.drop_first(), b);
        assert((a + b).drop_first() =~= a.drop_first() + b);
        assert((a + b)[0] == a[0]);
    }
    assert(vstd::utf8::encode_utf8(a + b) =~= vstd::utf8::encode_utf8(a)
        + vstd::utf8::encode_utf8(b));
}

/// Bytes of UTF-8 that are cut between two characters hold the text of the first part and then that
/// of the second.
pub proof fn law_bytes_may_be_cut_between_characters(a: Seq<u8>, b: Seq<u8>)
    requires
        vstd::utf8::valid_utf8(a),
        vstd::utf8::valid_utf8(b),
    ensures
        vstd::utf8::valid_utf8(a + b),
        vstd::utf8::decode_utf8(a + b) == vstd::utf8::decode_utf8(a) + vstd::utf8::decode_utf8(b),
{
    let first = vstd::utf8::decode_utf8(a);
    let second = vstd::utf8::decode_utf8(b);
    vstd::utf8::decode_utf8_encode_utf8(a);
    vstd::utf8::decode_utf8_encode_utf8(b);
    lemma_encode_append(first, second);
    vstd::utf8::encode_utf8_valid_utf8(first + second);
    vstd::utf8::encode_utf8_decode_utf8(first + second);
}

/// The bytes of a text of one character.
pub proof fn lemma_utf8_len_char(c: char)
    ensures
        utf8_len(seq![c]) == char_width(c),
{
    let s = seq![c];
    assert(s.drop_first() =~= Seq::empty());
    assert(vstd::utf8::encode_utf8(Seq::<char>::empty()).len() == 0);
    vstd::utf8::char_is_scalar(c);
}

/// A text of ASCII characters has as many bytes as characters.
pub proof fn lemma_utf8_len_ascii(s: Seq<char>)
    requires
        forall|i: int| 0 <= i < s.len() ==> #[trigger] s[i] <= '\u{7f}',
    ensures
        utf8_len(s) == s.len(),
    decreases s.len(),
{
    if s.len() > 0 {
        lemma_utf8_len_char(s.last());
        assert forall|i: int| 0 <= i < s.drop_last().len() implies #[trigger] s.drop_last()[i]
            <= '\u{7f}' by {
            assert(s.drop_last()[i] == s[i]);
        }
        lemma_utf8_len_ascii(s.drop_last());
        lemma_utf8_len_append(s.drop_last(), seq![s.last()]);
        assert(s.drop_last() + seq![s.last()] =~= s);
    }
}

/// The number of bytes of a character in UTF-8.
pub fn width_of_char(c: char) -> (result: usize)
    ensures
        result == char_width(c),
{
    if c <= '\u{7f}' {
        1
    } else if c <= '\u{7ff}' {
        2
    } else if c <= '\u{ffff}' {
        3
    } else {
        4
    }
}

/// The text that a row of bytes holds, with replacement characters where it is not UTF-8.
pub uninterp spec fn lossy_text(bytes: Seq<u8>) -> Seq<char>;

/// Calls `String::from_utf8_lossy`. Bytes that are UTF-8 give the text that they encode; what
/// others give depends on the bytes alone and is named `lossy_text`.
#[verifier::external_body]
pub(crate) fn decode_lossy(bytes: &[u8]) -> (result: String)
    ensures
        result@ == lossy_text(bytes@),
        vstd::utf8::valid_utf8(bytes@) ==> result@ == vstd::utf8::decode_utf8(bytes@),
{
    String::from_utf8_lossy(bytes).into_owned()
}

}
