//! What the scanning of texts comes to, character by character.

use vstd::prelude::*;

verus! {

/// White space is the horizontal tab, line feed, vertical tab, form feed and
/// carriage return, and the spaces and separators of Unicode.
pub proof fn law_white_space(c: char)
    ensures
        crate::text::is_white_space(c) <==> seq![
            0x09u32,
            0x0a,
            0x0b,
            0x0c,
            0x0d,
            0x20,
            0x85,
            0xa0,
            0x1680,
            0x2000,
            0x2001,
            0x2002,
            0x2003,
            0x2004,
            0x2005,
            0x2006,
            0x2007,
            0x2008,
            0x2009,
            0x200a,
            0x2028,
            0x2029,
            0x202f,
            0x205f,
            0x3000,
        ].contains(c as u32),
{
    let codes = seq![
        0x09u32,
        0x0a,
        0x0b,
        0x0c,
        0x0d,
        0x20,
        0x85,
        0xa0,
        0x1680,
        0x2000,
        0x2001,
        0x2002,
        0x2003,
        0x2004,
        0x2005,
        0x2006,
        0x2007,
        0x2008,
        0x2009,
        0x200a,
        0x2028,
        0x2029,
        0x202f,
        0x205f,
        0x3000,
    ];
    let code = c as u32;
    if crate::text::is_white_space(c) {
        let i: int = if code <= 0x0d {
            code - 0x09
        } else if code == 0x20 {
            5
        } else if code == 0x85 {
            6
        } else if code == 0xa0 {
            7
        } else if code == 0x1680 {
            8
        } else if code <= 0x200a {
            9 + (code - 0x2000)
        } else if code == 0x2028 {
            20
        } else if code == 0x2029 {
            21
        } else if code == 0x202f {
            22
        } else if code == 0x205f {
            23
        } else {
            24
        };
        assert(codes[i] == code);
    }
}

/// The value of a digit is its place among the sixteen digits, in either case;
/// any other character is no digit.
pub proof fn law_hex_digits(c: char, value: nat)
    ensures
        crate::text::hex_digit(c) == Some(value) <==> value < 16 && (c
            == "0123456789abcdef"@[value as int] || c == "0123456789ABCDEF"@[value as int]),
{
    reveal_strlit("0123456789abcdef");
    reveal_strlit("0123456789ABCDEF");
}

/// One more digit behind a number makes it sixteen times as large, and adds the
/// digit.
pub proof fn law_hex_values(digits: Seq<char>, value: nat)
    requires
        value < 16,
    ensures
        crate::text::hex_value(Seq::empty()) == 0,
        crate::text::hex_value(digits.push("0123456789abcdef"@[value as int]))
            == crate::text::hex_value(digits) * 16 + value,
        crate::text::hex_value(digits.push("0123456789ABCDEF"@[value as int]))
            == crate::text::hex_value(digits) * 16 + value,
{
    law_hex_digits("0123456789abcdef"@[value as int], value);
    law_hex_digits("0123456789ABCDEF"@[value as int], value);
    assert(digits.push("0123456789abcdef"@[value as int]).drop_last() =~= digits);
    assert(digits.push("0123456789ABCDEF"@[value as int]).drop_last() =~= digits);
}

/// `text` is not empty, and each of its characters is one of the sixteen digits.
pub open spec fn is_hex_digits(text: Seq<char>) -> bool {
    &&& text.len() > 0
    &&& forall|i: int|
        0 <= i < text.len() ==> "0123456789abcdef"@.contains(#[trigger] text[i])
            || "0123456789ABCDEF"@.contains(text[i])
}

proof fn lemma_is_hex_digits(text: Seq<char>)
    ensures
        is_hex_digits(text) <==> text.len() > 0 && crate::text::all_hex_digits(text),
{
    let lower = "0123456789abcdef"@;
    let upper = "0123456789ABCDEF"@;
    reveal_strlit("0123456789abcdef");
    reveal_strlit("0123456789ABCDEF");
    assert forall|i: int| 0 <= i < text.len() implies (crate::text::hex_digit(
        #[trigger] text[i],
    ) is Some) == (lower.contains(text[i]) || upper.contains(text[i])) by {
        let c = text[i];
        if let Some(value) = crate::text::hex_digit(c) {
            law_hex_digits(c, value);
            assert(lower[value as int] == c || upper[value as int] == c);
        }
        if lower.contains(c) {
            let value = choose|value: int| 0 <= value < lower.len() && lower[value] == c;
            law_hex_digits(c, value as nat);
        }
        if upper.contains(c) {
            let value = choose|value: int| 0 <= value < upper.len() && upper[value] == c;
            law_hex_digits(c, value as nat);
        }
    }
    if is_hex_digits(text) {
        assert forall|i: int| 0 <= i < text.len() implies crate::text::hex_digit(
            #[trigger] text[i],
        ) is Some by {
            assert(lower.contains(text[i]) || upper.contains(text[i]));
        }
    }
}

/// A number is written with digits alone, or with one plus sign before them,
/// and must fit into 64 bits; nothing else is a number.
pub proof fn law_hex_numbers(text: Seq<char>)
    ensures
        is_hex_digits(text) ==> {
            &&& crate::text::hex_number(text) == if crate::text::hex_value(text) <= u64::MAX {
                Some(crate::text::hex_value(text) as u64)
            } else {
                None
            }
            &&& crate::text::hex_number(seq!['+'] + text) == crate::text::hex_number(text)
        },
        crate::text::hex_number(text) is Some ==> is_hex_digits(text) || (text.len() > 0 && text[0]
            == '+' && is_hex_digits(text.drop_first())),
{
    lemma_is_hex_digits(text);
    if is_hex_digits(text) {
        assert(crate::text::hex_digit(text[0]) is Some);
        assert((seq!['+'] + text).skip(1) =~= text);
    }
    if crate::text::hex_number(text) is Some && text[0] == '+' {
        assert(text.skip(1) =~= text.drop_first());
        lemma_is_hex_digits(text.drop_first());
    }
}

/// What is stripped off is every copy of the prefix at the front, and no more.
pub proof fn law_stripping(text: Seq<char>, prefix: Seq<char>)
    requires
        prefix.len() > 0,
    ensures
        crate::text::strip_repeated(prefix + text, prefix) == crate::text::strip_repeated(
            text,
            prefix,
        ),
        !prefix.is_prefix_of(text) ==> crate::text::strip_repeated(text, prefix) == text,
{
    assert((prefix + text).skip(prefix.len() as int) =~= text);
    assert(prefix.is_prefix_of(prefix + text));
}

/// Before a number every leading `0x` is left out, and then every leading `0X`;
/// a text that starts with neither stays as it is.
pub proof fn law_hex_prefixes(text: Seq<char>)
    ensures
        crate::descriptor::without_hex_prefix(seq!['0', 'x'] + text)
            == crate::descriptor::without_hex_prefix(text),
        crate::descriptor::without_hex_prefix(seq!['0', 'X'] + text) == if text.len() >= 2
            && text[0] == '0' && text[1] == 'x' {
            text
        } else {
            crate::descriptor::without_hex_prefix(text)
        },
        !(text.len() >= 2 && text[0] == '0' && (text[1] == 'x' || text[1] == 'X'))
            ==> crate::descriptor::without_hex_prefix(text) == text,
{
    let lower = seq!['0', 'x'];
    let upper = seq!['0', 'X'];
    if lower.is_prefix_of(text) {
        assert(text[0] == lower[0] && text[1] == lower[1]);
    } else if text.len() >= 2 && text[0] == '0' && text[1] == 'x' {
        assert(text.subrange(0, 2) =~= lower);
    }
    if upper.is_prefix_of(text) {
        assert(text[0] == upper[0] && text[1] == upper[1]);
    }
    if lower.is_prefix_of(upper + text) {
        assert((upper + text)[1] == lower[1]);
    }
    law_stripping(text, lower);
    law_stripping(upper + text, lower);
    law_stripping(text, upper);
    law_stripping(crate::text::strip_repeated(text, lower), upper);
}

/// Two texts are the same but for case if they are equally long and each
/// character of one is the other's, or its ASCII counterpart in the other case.
pub proof fn law_same_but_for_case(a: Seq<char>, b: Seq<char>)
    ensures
        crate::text::same_ignoring_ascii_case(a, b) <==> a.len() == b.len() && forall|i: int|
            0 <= i < a.len() ==> {
                let upper = "ABCDEFGHIJKLMNOPQRSTUVWXYZ"@;
                let lower = "abcdefghijklmnopqrstuvwxyz"@;
                #[trigger] a[i] == b[i] || exists|letter: int|
                    0 <= letter < 26 && ((a[i] == #[trigger] upper[letter] && b[i] == lower[letter])
                        || (a[i] == lower[letter] && b[i] == upper[letter]))
            },
{
    let upper = "ABCDEFGHIJKLMNOPQRSTUVWXYZ"@;
    let lower = "abcdefghijklmnopqrstuvwxyz"@;
    reveal_strlit("ABCDEFGHIJKLMNOPQRSTUVWXYZ");
    reveal_strlit("abcdefghijklmnopqrstuvwxyz");
    assert forall|x: char, y: char| (#[trigger] crate::text::ascii_lower(x)
        == #[trigger] crate::text::ascii_lower(y)) == (x == y || exists|letter: int|
        0 <= letter < 26 && ((x == #[trigger] upper[letter] && y == lower[letter]) || (x
            == lower[letter] && y == upper[letter]))) by {
        if 'A' <= x <= 'Z' {
            assert(x == upper[x as int - 'A' as int]);
        }
        if 'A' <= y <= 'Z' {
            assert(y == upper[y as int - 'A' as int]);
        }
    }
    if a.len() == b.len() {
        if forall|i: int| 0 <= i < a.len() ==> (#[trigger] a[i] == b[i] || exists|letter: int|
            0 <= letter < 26 && ((a[i] == #[trigger] upper[letter] && b[i] == lower[letter]) || (
            a[i] == lower[letter] && b[i] == upper[letter]))) {
            assert forall|i: int| 0 <= i < a.len() implies crate::text::ascii_lower(
                #[trigger] a[i],
            ) == crate::text::ascii_lower(b[i]) by {}
        }
        if crate::text::same_ignoring_ascii_case(a, b) {
            assert forall|i: int| 0 <= i < a.len() implies (#[trigger] a[i] == b[i] || exists|
                letter: int,
            |
                0 <= letter < 26 && ((a[i] == #[trigger] upper[letter] && b[i] == lower[letter])
                    || (a[i] == lower[letter] && b[i] == upper[letter]))) by {
                assert(crate::text::ascii_lower(a[i]) == crate::text::ascii_lower(b[i]));
            }
        }
    }
}

} // verus!
