//! Character-level text scanning: substring search, words, hexadecimal
//! numbers and ASCII case folding.

use vstd::prelude::*;

verus! {

/// `pattern` stands in `text` at index `at`.
pub open spec fn occurs_at(text: Seq<char>, pattern: Seq<char>, at: int) -> bool {
    &&& 0 <= at
    &&& at + pattern.len() <= text.len()
    &&& text.subrange(at, at + pattern.len()) == pattern
}

/// `pattern` stands somewhere in `text`.
pub open spec fn occurs(text: Seq<char>, pattern: Seq<char>) -> bool {
    exists|at: int| occurs_at(text, pattern, at)
}

/// `pattern` stands in `text` at `at`, and at no smaller index.
pub open spec fn first_occurs_at(text: Seq<char>, pattern: Seq<char>, at: int) -> bool {
    &&& occurs_at(text, pattern, at)
    &&& forall|j: int| 0 <= j < at ==> !occurs_at(text, pattern, j)
}

/// The smallest index at which `pattern` stands in `text`.
pub open spec fn first_occurrence(text: Seq<char>, pattern: Seq<char>) -> Option<int> {
    if occurs(text, pattern) {
        Some(choose|at: int| first_occurs_at(text, pattern, at))
    } else {
        None
    }
}

/// The characters of the Unicode property `White_Space`.
pub open spec fn is_white_space(c: char) -> bool {
    ||| '\u{9}' <= c <= '\u{d}'
    ||| c == ' '
    ||| c == '\u{85}'
    ||| c == '\u{a0}'
    ||| c == '\u{1680}'
    ||| '\u{2000}' <= c <= '\u{200a}'
    ||| c == '\u{2028}'
    ||| c == '\u{2029}'
    ||| c == '\u{202f}'
    ||| c == '\u{205f}'
    ||| c == '\u{3000}'
}

/// The number of leading characters of `text` that are white space
/// (`white`), or that are not (`!white`).
pub open spec fn leading_run(text: Seq<char>, white: bool) -> nat
    decreases text.len(),
{
    if text.len() == 0 || is_white_space(text[0]) != white {
        0
    } else {
        1 + leading_run(text.skip(1), white)
    }
}

/// The first maximal run of characters that are not white space.
pub open spec fn first_word(text: Seq<char>) -> Option<Seq<char>> {
    let rest = text.skip(leading_run(text, true) as int);
    if rest.len() == 0 {
        None
    } else {
        Some(rest.take(leading_run(rest, false) as int))
    }
}

/// `text` without any of the copies of `prefix` that it starts with.
pub open spec fn strip_repeated(text: Seq<char>, prefix: Seq<char>) -> Seq<char>
    decreases text.len(),
{
    if prefix.len() > 0 && prefix.is_prefix_of(text) {
        strip_repeated(text.skip(prefix.len() as int), prefix)
    } else {
        text
    }
}

/// The value of a hexadecimal digit, of either case.
pub open spec fn hex_digit(c: char) -> Option<nat> {
    if '0' <= c <= '9' {
        Some((c as int - '0' as int) as nat)
    } else if 'a' <= c <= 'f' {
        Some((c as int - 'a' as int + 10) as nat)
    } else if 'A' <= c <= 'F' {
        Some((c as int - 'A' as int + 10) as nat)
    } else {
        None
    }
}

/// `text` consists of hexadecimal digits.
pub open spec fn all_hex_digits(text: Seq<char>) -> bool {
    forall|i: int| 0 <= i < text.len() ==> hex_digit(#[trigger] text[i]) is Some
}

/// The number that `digits` writes in base sixteen.
pub open spec fn hex_value(digits: Seq<char>) -> nat
    decreases digits.len(),
{
    if digits.len() == 0 {
        0
    } else {
        hex_value(digits.drop_last()) * 16 + hex_digit(digits.last())->0
    }
}

/// `text` without one leading plus sign.
pub open spec fn unsigned_part(text: Seq<char>) -> Seq<char> {
    if text.len() > 0 && text[0] == '+' {
        text.skip(1)
    } else {
        text
    }
}

/// The number that `text` writes: an optional plus sign, then at least one
/// hexadecimal digit and nothing else, with a value below two to the 64.
pub open spec fn hex_number(text: Seq<char>) -> Option<u64> {
    let digits = unsigned_part(text);
    if digits.len() > 0 && all_hex_digits(digits) && hex_value(digits) <= u64::MAX {
        Some(hex_value(digits) as u64)
    } else {
        None
    }
}

/// `c` with the letters `A` to `Z` turned to lower case.
pub open spec fn ascii_lower(c: char) -> char {
    if 'A' <= c <= 'Z' {
        (c as u32 + 32) as char
    } else {
        c
    }
}

/// The two texts differ at most in the case of ASCII letters.
pub open spec fn same_ignoring_ascii_case(a: Seq<char>, b: Seq<char>) -> bool {
    &&& a.len() == b.len()
    &&& forall|i: int| 0 <= i < a.len() ==> ascii_lower(#[trigger] a[i]) == ascii_lower(b[i])
}

/// A text holds a pattern at a first place if it holds it at all.
pub proof fn lemma_first_exists(text: Seq<char>, pattern: Seq<char>, at: int)
    requires
        occurs_at(text, pattern, at),
    ensures
        exists|first: int| first_occurs_at(text, pattern, first) && first <= at,
    decreases at,
{
    if exists|j: int| 0 <= j < at && occurs_at(text, pattern, j) {
        let j = choose|j: int| 0 <= j < at && occurs_at(text, pattern, j);
        lemma_first_exists(text, pattern, j);
    } else {
        assert(first_occurs_at(text, pattern, at));
    }
}

/// [`first_occurrence`] is the one index at which the pattern first occurs.
pub proof fn lemma_first_occurrence(text: Seq<char>, pattern: Seq<char>)
    ensures
        match first_occurrence(text, pattern) {
            Some(at) => first_occurs_at(text, pattern, at),
            None => forall|at: int| !occurs_at(text, pattern, at),
        },
        forall|at: int| first_occurs_at(text, pattern, at) ==> first_occurrence(text, pattern) == Some(at),
{
    if occurs(text, pattern) {
        let at = choose|at: int| occurs_at(text, pattern, at);
        lemma_first_exists(text, pattern, at);
    }
    assert forall|at: int| first_occurs_at(text, pattern, at) implies first_occurrence(text, pattern)
        == Some(at) by {
        let chosen = choose|i: int| first_occurs_at(text, pattern, i);
        assert(first_occurs_at(text, pattern, chosen));
        assert(chosen == at);
    }
}

/// [`leading_run`] ends where the text ends or the kind of character changes.
pub proof fn lemma_leading_run(text: Seq<char>, white: bool, n: nat)
    requires
        n <= text.len(),
        forall|i: int| 0 <= i < n ==> is_white_space(#[trigger] text[i]) == white,
        n < text.len() ==> is_white_space(text[n as int]) != white,
    ensures
        leading_run(text, white) == n,
    decreases n,
{
    if n > 0 {
        assert(is_white_space(text[0]) == white);
        lemma_leading_run(text.skip(1), white, (n - 1) as nat);
    }
}

/// The characters of `text`.
pub(crate) fn chars_of(text: &str) -> (chars: Vec<char>)
    ensures
        chars@ == text@,
{
    let mut chars: Vec<char> = Vec::new();
    for c in iter: text.chars()
        invariant
            chars@ == text@.take(iter.index() as int),
            iter.seq() == text@,
    {
        chars.push(c);
    }
    chars
}

fn matches_at(text: &[char], at: usize, pattern: &[char]) -> (found: bool)
    requires
        at <= text@.len(),
    ensures
        found == occurs_at(text@, pattern@, at as int),
{
    let total: usize = text.len();
    if total - at < pattern.len() {
        return false;
    }
    let mut i: usize = 0;
    while i < pattern.len()
        invariant
            at + pattern@.len() <= text@.len() == total,
            i <= pattern@.len(),
            forall|j: int| 0 <= j < i ==> text@[at + j] == pattern@[j],
        decreases pattern@.len() - i,
    {
        if text[at + i] != pattern[i] {
            assert(text@.subrange(at as int, at + pattern@.len())[i as int] != pattern@[i as int]);
            return false;
        }
        i += 1;
    }
    assert(text@.subrange(at as int, at + pattern@.len()) =~= pattern@);
    true
}

/// The offset from `start` at which `pattern` first stands in `text` from
/// `start` on.
pub(crate) fn find_from(text: &[char], start: usize, pattern: &[char]) -> (found: Option<usize>)
    requires
        start <= text@.len(),
    ensures
        match found {
            Some(at) => first_occurrence(text@.skip(start as int), pattern@) == Some(at as int)
                && start + at + pattern@.len() <= text@.len() <= usize::MAX,
            None => first_occurrence(text@.skip(start as int), pattern@) is None,
        },
{
    let ghost rest = text@.skip(start as int);
    let total: usize = text.len();
    let mut at: usize = start;
    loop
        invariant
            start <= at <= text@.len() == total,
            rest == text@.skip(start as int),
            forall|j: int| 0 <= j < at - start ==> !occurs_at(rest, pattern@, j),
        decreases text@.len() - at,
    {
        let found = matches_at(text, at, pattern);
        proof {
            if at + pattern@.len() <= text@.len() {
                assert(text@.subrange(at as int, at + pattern@.len()) =~= rest.subrange(
                    at - start,
                    at - start + pattern@.len(),
                ));
            }
            assert(found == occurs_at(rest, pattern@, at - start));
            lemma_first_occurrence(rest, pattern@);
        }
        if found {
            assert(first_occurs_at(rest, pattern@, at - start));
            return Some(at - start);
        }
        if at == total {
            return None;
        }
        at += 1;
    }
}

/// Whether `c` is white space.
pub(crate) fn is_whitespace(c: char) -> (white: bool)
    ensures
        white == is_white_space(c),
{
    ('\u{9}' <= c && c <= '\u{d}') || c == ' ' || c == '\u{85}' || c == '\u{a0}' || c == '\u{1680}'
        || ('\u{2000}' <= c && c <= '\u{200a}') || c == '\u{2028}' || c == '\u{2029}' || c
        == '\u{202f}' || c == '\u{205f}' || c == '\u{3000}'
}

fn run_end(text: &[char], start: usize, white: bool) -> (end: usize)
    requires
        start <= text@.len(),
    ensures
        start <= end <= text@.len(),
        end - start == leading_run(text@.skip(start as int), white),
{
    let mut end: usize = start;
    while end < text.len() && is_whitespace(text[end]) == white
        invariant
            start <= end <= text@.len(),
            forall|i: int| start <= i < end ==> is_white_space(#[trigger] text@[i]) == white,
        ensures
            end < text@.len() ==> is_white_space(text@[end as int]) != white,
        decreases text@.len() - end,
    {
        end += 1;
    }
    proof {
        lemma_leading_run(text@.skip(start as int), white, (end - start) as nat);
    }
    end
}

/// Where the first word of `text` from `start` on begins and ends.
pub(crate) fn word_from(text: &[char], start: usize) -> (word: Option<(usize, usize)>)
    requires
        start <= text@.len(),
    ensures
        match word {
            Some((begin, end)) => begin <= end <= text@.len() && first_word(
                text@.skip(start as int),
            ) == Some(text@.subrange(begin as int, end as int)),
            None => first_word(text@.skip(start as int)) is None,
        },
{
    let begin: usize = run_end(text, start, true);
    assert(text@.skip(start as int).skip(begin - start) =~= text@.skip(begin as int));
    if begin == text.len() {
        return None;
    }
    let end: usize = run_end(text, begin, false);
    assert(text@.skip(begin as int).take(end - begin) =~= text@.subrange(begin as int, end as int));
    Some((begin, end))
}

/// Where `text` from `start` on begins once every leading copy of `prefix`
/// is left out.
pub(crate) fn skip_repeated(text: &[char], start: usize, prefix: &[char]) -> (rest: usize)
    requires
        start <= text@.len(),
        prefix@.len() > 0,
    ensures
        start <= rest <= text@.len(),
        text@.skip(rest as int) == strip_repeated(text@.skip(start as int), prefix@),
{
    let total: usize = text.len();
    let mut rest: usize = start;
    while matches_at(text, rest, prefix)
        invariant
            start <= rest <= text@.len() == total,
            prefix@.len() > 0,
            strip_repeated(text@.skip(rest as int), prefix@) == strip_repeated(
                text@.skip(start as int),
                prefix@,
            ),
        ensures
            !occurs_at(text@, prefix@, rest as int),
        decreases text@.len() - rest,
    {
        proof {
            let tail = text@.skip(rest as int);
            assert(tail.take(prefix@.len() as int) =~= text@.subrange(
                rest as int,
                rest + prefix@.len(),
            ));
            assert(prefix@.is_prefix_of(tail));
            assert(tail.skip(prefix@.len() as int) =~= text@.skip(rest + prefix@.len()));
        }
        rest += prefix.len();
    }
    proof {
        let tail = text@.skip(rest as int);
        if prefix@.is_prefix_of(tail) {
            assert(text@.subrange(rest as int, rest + prefix@.len()) =~= prefix@);
        }
    }
    rest
}

fn hex_digit_value(c: char) -> (digit: Option<u64>)
    ensures
        match digit {
            Some(value) => hex_digit(c) == Some(value as nat) && value < 16,
            None => hex_digit(c) is None,
        },
{
    if '0' <= c && c <= '9' {
        Some(c as u64 - '0' as u64)
    } else if 'a' <= c && c <= 'f' {
        Some(c as u64 - 'a' as u64 + 10)
    } else if 'A' <= c && c <= 'F' {
        Some(c as u64 - 'A' as u64 + 10)
    } else {
        None
    }
}

/// A longer number is no smaller.
proof fn lemma_hex_value_grows(digits: Seq<char>, n: int)
    requires
        0 <= n <= digits.len(),
    ensures
        hex_value(digits.take(n)) <= hex_value(digits),
    decreases digits.len() - n,
{
    if n < digits.len() {
        lemma_hex_value_grows(digits, n + 1);
        assert(digits.take(n + 1).drop_last() =~= digits.take(n));
    } else {
        assert(digits.take(n) =~= digits);
    }
}

/// Reads `text` from `start` on as a hexadecimal number.
pub(crate) fn hex_number_from(text: &[char], start: usize) -> (number: Option<u64>)
    requires
        start <= text@.len(),
    ensures
        number == hex_number(text@.skip(start as int)),
{
    let ghost rest = text@.skip(start as int);
    let first: usize = if start < text.len() && text[start] == '+' { start + 1 } else { start };
    let ghost digits = text@.skip(first as int);
    assert(digits =~= unsigned_part(rest));
    if first == text.len() {
        return None;
    }
    let mut value: u64 = 0;
    let mut i: usize = first;
    assert(digits.take(0) =~= Seq::<char>::empty());
    while i < text.len()
        invariant
            first <= i <= text@.len(),
            digits == text@.skip(first as int),
            digits == unsigned_part(rest),
            rest == text@.skip(start as int),
            all_hex_digits(digits.take(i - first)),
            value == hex_value(digits.take(i - first)),
        decreases text@.len() - i,
    {
        let ghost seen = digits.take(i - first);
        let ghost next = digits.take(i - first + 1);
        assert(next.drop_last() =~= seen);
        assert(next.last() == text@[i as int]);
        match hex_digit_value(text[i]) {
            Some(digit) => {
                proof {
                    lemma_hex_value_grows(digits, i - first + 1);
                }
                if value > (u64::MAX - digit) / 16 {
                    return None;
                }
                value = value * 16 + digit;
            },
            None => {
                assert(hex_digit(digits[i - first]) is None);
                return None;
            },
        }
        assert forall|j: int| 0 <= j < next.len() implies hex_digit(#[trigger] next[j]) is Some by {
            if j < seen.len() {
                assert(next[j] == seen[j]);
            }
        }
        i += 1;
    }
    assert(digits.take(i - first) =~= digits);
    Some(value)
}

fn lowered(c: char) -> (lower: char)
    ensures
        lower == ascii_lower(c),
{
    if 'A' <= c && c <= 'Z' {
        (c as u8 + 32) as char
    } else {
        c
    }
}

/// Whether the two texts are equal but for the case of ASCII letters.
pub(crate) fn eq_ignore_ascii_case(a: &str, b: &str) -> (same: bool)
    ensures
        same == same_ignoring_ascii_case(a@, b@),
{
    let a_chars = chars_of(a);
    let b_chars = chars_of(b);
    if a_chars.len() != b_chars.len() {
        return false;
    }
    let mut i: usize = 0;
    while i < a_chars.len()
        invariant
            a_chars@ == a@,
            b_chars@ == b@,
            a_chars@.len() == b_chars@.len(),
            i <= a_chars@.len(),
            forall|j: int| 0 <= j < i ==> ascii_lower(#[trigger] a@[j]) == ascii_lower(b@[j]),
        decreases a_chars@.len() - i,
    {
        if lowered(a_chars[i]) != lowered(b_chars[i]) {
            return false;
        }
        i += 1;
    }
    true
}

} // verus!
