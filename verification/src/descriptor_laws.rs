//! What holds of descriptor strings and the fields read from them.

use vstd::prelude::*;

verus! {

/// The digits of a number are hexadecimal digits that write that number.
proof fn lemma_digits_of(n: nat)
    ensures
        crate::render::digits_of(n, 16).len() > 0,
        crate::text::all_hex_digits(crate::render::digits_of(n, 16)),
        crate::text::hex_value(crate::render::digits_of(n, 16)) == n,
    decreases n,
{
    let digits = crate::render::digits_of(n, 16);
    if n < 16 {
        assert(digits.drop_last() =~= Seq::empty());
        assert(crate::text::hex_value(digits.drop_last()) == 0);
    } else {
        lemma_digits_of(n / 16);
        let head = crate::render::digits_of(n / 16, 16);
        assert(digits.drop_last() =~= head);
        assert forall|i: int| 0 <= i < digits.len() implies crate::text::hex_digit(
            #[trigger] digits[i],
        ) is Some by {
            if i < head.len() {
                assert(digits[i] == head[i]);
            }
        }
    }
}

/// Digits do not start with a prefix that ends in a letter `x`.
proof fn lemma_digits_have_no_prefix(digits: Seq<char>)
    requires
        digits.len() > 0,
        crate::text::all_hex_digits(digits),
    ensures
        crate::descriptor::without_hex_prefix(digits) == digits,
        crate::descriptor::without_hex_prefix(seq!['0', 'x'] + digits) == digits,
        crate::descriptor::without_hex_prefix(seq!['0', 'X'] + digits) == digits,
{
    let lower = seq!['0', 'x'];
    let upper = seq!['0', 'X'];
    if lower.is_prefix_of(digits) {
        assert(digits[1] == lower[1]);
    }
    if upper.is_prefix_of(digits) {
        assert(digits[1] == upper[1]);
    }
    let prefixed = lower + digits;
    assert(lower.is_prefix_of(prefixed));
    assert(prefixed.skip(2) =~= digits);
    let shouted = upper + digits;
    assert(upper.is_prefix_of(shouted));
    assert(shouted.skip(2) =~= digits);
    if lower.is_prefix_of(shouted) {
        assert(shouted[1] == lower[1]);
    }
    reveal_with_fuel(crate::text::strip_repeated, 2);
}

/// `text` consists of white space.
pub open spec fn is_gap(text: Seq<char>) -> bool {
    forall|i: int| 0 <= i < text.len() ==> crate::text::is_white_space(#[trigger] text[i])
}

/// A word that white space may precede, and that white space or the end
/// follows, is the first word.
proof fn lemma_first_word(gap: Seq<char>, word: Seq<char>, after: Seq<char>)
    requires
        is_gap(gap),
        word.len() > 0,
        forall|i: int| 0 <= i < word.len() ==> !crate::text::is_white_space(#[trigger] word[i]),
        after.len() == 0 || crate::text::is_white_space(after[0]),
    ensures
        crate::text::first_word(gap + word + after) == Some(word),
{
    let text = gap + word + after;
    let rest = word + after;
    assert forall|i: int| 0 <= i < gap.len() implies crate::text::is_white_space(
        #[trigger] text[i],
    ) == true by {
        assert(text[i] == gap[i]);
    }
    assert(text[gap.len() as int] == word[0]);
    crate::text::lemma_leading_run(text, true, gap.len());
    assert(text.skip(gap.len() as int) =~= rest);
    assert forall|i: int| 0 <= i < word.len() implies crate::text::is_white_space(
        #[trigger] rest[i],
    ) == false by {
        assert(rest[i] == word[i]);
    }
    crate::text::lemma_leading_run(rest, false, word.len());
    assert(rest.take(word.len() as int) =~= word);
}

/// What may stand before the digits of a number: nothing, `0x` or `0X`.
pub open spec fn is_number_prefix(prefix: Seq<char>) -> bool {
    prefix == Seq::<char>::empty() || prefix == seq!['0', 'x'] || prefix == seq!['0', 'X']
}

/// A descriptor with a field that holds a number: `key:`, white space if any,
/// the prefix and the digits.
pub open spec fn with_number(
    before: Seq<char>,
    key: Seq<char>,
    gap: Seq<char>,
    prefix: Seq<char>,
    digits: Seq<char>,
    after: Seq<char>,
) -> Seq<char> {
    before + key.push(':') + gap + prefix + digits + after
}

/// The digits in a field are read as the number that they write, in either case
/// and whatever zeros they start with, with or without a prefix, and refused if
/// that number takes more than 64 bits. The key must not occur earlier, and
/// white space or the end of the text must follow the digits.
pub proof fn law_written_digits_are_read(
    before: Seq<char>,
    key: Seq<char>,
    gap: Seq<char>,
    prefix: Seq<char>,
    digits: Seq<char>,
    after: Seq<char>,
)
    requires
        crate::text::first_occurs_at(
            with_number(before, key, gap, prefix, digits, after),
            key.push(':'),
            before.len() as int,
        ),
        is_gap(gap),
        is_number_prefix(prefix),
        digits.len() > 0,
        crate::text::all_hex_digits(digits),
        after.len() == 0 || crate::text::is_white_space(after[0]),
    ensures
        crate::descriptor::hex_field(with_number(before, key, gap, prefix, digits, after), key)
            == if crate::text::hex_value(digits) <= u64::MAX {
            Ok::<Option<u64>, Seq<char>>(Some(crate::text::hex_value(digits) as u64))
        } else {
            Err(digits)
        },
{
    let text = with_number(before, key, gap, prefix, digits, after);
    let number = prefix + digits;
    crate::text::lemma_first_occurrence(text, key.push(':'));
    assert(text.skip((before.len() + key.push(':').len()) as int) =~= gap + number + after);
    assert forall|i: int| 0 <= i < number.len() implies !crate::text::is_white_space(
        #[trigger] number[i],
    ) by {
        if i >= prefix.len() {
            assert(number[i] == digits[i - prefix.len()]);
            assert(crate::text::hex_digit(digits[i - prefix.len()]) is Some);
        } else {
            assert(number[i] == prefix[i]);
        }
    }
    lemma_first_word(gap, number, after);
    lemma_digits_have_no_prefix(digits);
    if prefix.len() == 0 {
        assert(number =~= digits);
    }
    assert(crate::text::hex_digit(digits[0]) is Some);
}

/// A number that is written into a field is read back, in either case and with
/// or without a prefix, whatever stands before the field, if the key does not
/// occur earlier and white space or the end of the text follows the number.
pub proof fn law_written_number_is_read(
    before: Seq<char>,
    key: Seq<char>,
    gap: Seq<char>,
    prefix: Seq<char>,
    digits: Seq<char>,
    after: Seq<char>,
    n: u64,
)
    requires
        crate::text::first_occurs_at(
            with_number(before, key, gap, prefix, digits, after),
            key.push(':'),
            before.len() as int,
        ),
        is_gap(gap),
        is_number_prefix(prefix),
        crate::text::same_ignoring_ascii_case(digits, crate::render::digits_of(n as nat, 16)),
        after.len() == 0 || crate::text::is_white_space(after[0]),
    ensures
        crate::descriptor::hex_field(with_number(before, key, gap, prefix, digits, after), key)
            == Ok::<Option<u64>, Seq<char>>(Some(n)),
{
    lemma_digits_of(n as nat);
    lemma_hex_value_ignores_case(digits, crate::render::digits_of(n as nat, 16));
    law_written_digits_are_read(before, key, gap, prefix, digits, after);
}

/// The ECID that is shown to a user can be read back as a descriptor field.
pub proof fn law_shown_ecid_is_read(ecid: u64)
    ensures
        crate::descriptor::hex_field(
            "ECID:"@ + crate::render::optional_hex_text(Some(ecid)),
            "ECID"@,
        ) == Ok::<Option<u64>, Seq<char>>(Some(ecid)),
{
    reveal_strlit("ECID:");
    reveal_strlit("ECID");
    let text = "ECID:"@ + crate::render::optional_hex_text(Some(ecid));
    let empty = Seq::<char>::empty();
    assert("ECID"@.push(':') =~= "ECID:"@);
    let prefix = seq!['0', 'x'];
    let digits = crate::render::digits_of(ecid as nat, 16);
    assert(with_number(empty, "ECID"@, empty, prefix, digits, empty) =~= text);
    assert(text.subrange(0, 5) =~= "ECID"@.push(':'));
    law_written_number_is_read(empty, "ECID"@, empty, prefix, digits, empty, ecid);
}

/// A text that is written into a bracketed field is read back, whatever
/// stands around the field, if the key does not occur earlier and the text
/// holds no closing bracket.
pub proof fn law_bracketed_text_is_read(
    before: Seq<char>,
    key: Seq<char>,
    value: Seq<char>,
    after: Seq<char>,
)
    requires
        crate::text::first_occurs_at(
            before + key.push(':').push('[') + value.push(']') + after,
            key.push(':').push('['),
            before.len() as int,
        ),
        !value.contains(']'),
    ensures
        crate::descriptor::bracketed_of(
            before + key.push(':').push('[') + value.push(']') + after,
            key,
        ) == Some(value),
{
    let marker = key.push(':').push('[');
    let text = before + marker + value.push(']') + after;
    let rest = value.push(']') + after;
    crate::text::lemma_first_occurrence(text, marker);
    assert(text.skip((before.len() + marker.len()) as int) =~= rest);
    let closing = seq![']'];
    assert(rest.subrange(value.len() as int, value.len() as int + 1) =~= closing);
    assert forall|j: int| 0 <= j < value.len() implies !crate::text::occurs_at(rest, closing, j) by {
        if crate::text::occurs_at(rest, closing, j) {
            assert(rest.subrange(j, j + 1)[0] == ']');
            assert(value[j] == ']');
        }
    }
    crate::text::lemma_first_occurrence(rest, closing);
    assert(crate::text::first_occurs_at(rest, closing, value.len() as int));
    assert(rest.take(value.len() as int) =~= value);
}

/// A bracketed field ends before the first closing bracket.
pub proof fn law_bracketed_text_holds_no_bracket(text: Seq<char>, key: Seq<char>)
    ensures
        crate::descriptor::bracketed_of(text, key) matches Some(value) ==> !value.contains(']'),
{
    if let Some(rest) = crate::descriptor::after_first(text, key.push(':').push('[')) {
        let closing = seq![']'];
        crate::text::lemma_first_occurrence(rest, closing);
        if let Some(end) = crate::text::first_occurrence(rest, closing) {
            let value = rest.take(end);
            assert forall|j: int| 0 <= j < value.len() implies value[j] != ']' by {
                if value[j] == ']' {
                    assert(rest.subrange(j, j + 1) =~= closing);
                    assert(crate::text::occurs_at(rest, closing, j));
                }
            }
        }
    }
}

/// A field whose key does not occur is absent, and that is no error.
pub proof fn law_absent_field_is_none(text: Seq<char>, key: Seq<char>)
    requires
        !crate::text::occurs(text, key.push(':')),
    ensures
        crate::descriptor::hex_field(text, key) == Ok::<Option<u64>, Seq<char>>(None),
        crate::descriptor::bracketed_of(text, key) is None,
{
    let marker = key.push(':').push('[');
    if crate::text::occurs(text, marker) {
        let at = choose|at: int| crate::text::occurs_at(text, marker, at);
        assert(text.subrange(at, at + key.push(':').len()) =~= marker.take(
            key.push(':').len() as int,
        ));
        assert(marker.take(key.push(':').len() as int) =~= key.push(':'));
        assert(crate::text::occurs_at(text, key.push(':'), at));
    }
}

/// None of the known keys occurs in the text.
pub open spec fn holds_no_field(text: Seq<char>) -> bool {
    &&& !crate::text::occurs(text, "CPID"@.push(':'))
    &&& !crate::text::occurs(text, "CPRV"@.push(':'))
    &&& !crate::text::occurs(text, "CPFM"@.push(':'))
    &&& !crate::text::occurs(text, "SCEP"@.push(':'))
    &&& !crate::text::occurs(text, "BDID"@.push(':'))
    &&& !crate::text::occurs(text, "ECID"@.push(':'))
    &&& !crate::text::occurs(text, "IBFL"@.push(':'))
    &&& !crate::text::occurs(text, "SRNM"@.push(':'))
    &&& !crate::text::occurs(text, "IMEI"@.push(':'))
    &&& !crate::text::occurs(text, "SRTG"@.push(':'))
}

/// A text without any of the known keys parses, and says nothing but itself.
pub proof fn law_text_without_fields_parses(text: Seq<char>, pid: u16)
    requires
        holds_no_field(text),
    ensures
        crate::descriptor::parsed(text, pid) == Ok::<
            crate::descriptor::DeviceInfoView,
            (Seq<char>, Seq<char>),
        >(crate::descriptor::empty_info(text, pid)),
{
    law_absent_field_is_none(text, "CPID"@);
    law_absent_field_is_none(text, "CPRV"@);
    law_absent_field_is_none(text, "CPFM"@);
    law_absent_field_is_none(text, "SCEP"@);
    law_absent_field_is_none(text, "BDID"@);
    law_absent_field_is_none(text, "ECID"@);
    law_absent_field_is_none(text, "IBFL"@);
    law_absent_field_is_none(text, "SRNM"@);
    law_absent_field_is_none(text, "IMEI"@);
    law_absent_field_is_none(text, "SRTG"@);
}

/// A descriptor that tells an ECID, a chip ID or a board ID has the mark of an
/// iBoot descriptor string.
pub proof fn law_identified_text_is_marked(text: Seq<char>, pid: u16)
    requires
        crate::descriptor::parsed(text, pid) is Ok,
        ({
            let info = crate::descriptor::parsed(text, pid)->Ok_0;
            info.ecid is Some || info.cpid is Some || info.bdid is Some
        }),
    ensures
        crate::descriptor::has_iboot_mark(text),
{
    reveal_strlit("ECID");
    reveal_strlit("CPID");
    reveal_strlit("BDID");
    reveal_strlit("ECID:");
    reveal_strlit("CPID:");
    reveal_strlit("BDID:");
    assert("ECID"@.push(':') =~= "ECID:"@);
    assert("CPID"@.push(':') =~= "CPID:"@);
    assert("BDID"@.push(':') =~= "BDID:"@);
}

proof fn lemma_leading_run_bounds(text: Seq<char>, white: bool)
    ensures
        crate::text::leading_run(text, white) <= text.len(),
        forall|i: int|
            0 <= i < crate::text::leading_run(text, white) ==> crate::text::is_white_space(
                #[trigger] text[i],
            ) == white,
        crate::text::leading_run(text, white) < text.len() ==> crate::text::is_white_space(
            text[crate::text::leading_run(text, white) as int],
        ) != white,
    decreases text.len(),
{
    if text.len() > 0 && crate::text::is_white_space(text[0]) == white {
        let rest = text.skip(1);
        lemma_leading_run_bounds(rest, white);
        assert forall|i: int|
            0 <= i < crate::text::leading_run(text, white) implies crate::text::is_white_space(
            #[trigger] text[i],
        ) == white by {
            if i > 0 {
                assert(text[i] == rest[i - 1]);
            }
        }
    }
}

/// A token is a word: it is not empty and holds no white space.
pub proof fn law_token_is_a_word(text: Seq<char>, key: Seq<char>)
    ensures
        crate::descriptor::token_of(text, key) matches Some(token) ==> token.len() > 0 && forall|
            i: int,
        |
            0 <= i < token.len() ==> !crate::text::is_white_space(#[trigger] token[i]),
{
    if let Some(rest) = crate::descriptor::after_first(text, key.push(':')) {
        lemma_leading_run_bounds(rest, true);
        let tail = rest.skip(crate::text::leading_run(rest, true) as int);
        lemma_leading_run_bounds(tail, false);
        if tail.len() > 0 {
            assert(tail[0] == rest[crate::text::leading_run(rest, true) as int]);
            let token = tail.take(crate::text::leading_run(tail, false) as int);
            assert forall|i: int| 0 <= i < token.len() implies !crate::text::is_white_space(
                #[trigger] token[i],
            ) by {
                assert(token[i] == tail[i]);
            }
        }
    }
}

proof fn lemma_hex_value_ignores_case(a: Seq<char>, b: Seq<char>)
    requires
        crate::text::same_ignoring_ascii_case(a, b),
    ensures
        crate::text::all_hex_digits(a) == crate::text::all_hex_digits(b),
        crate::text::hex_value(a) == crate::text::hex_value(b),
    decreases a.len(),
{
    assert forall|i: int| 0 <= i < a.len() implies crate::text::hex_digit(#[trigger] a[i])
        == crate::text::hex_digit(b[i]) by {
        assert(crate::text::ascii_lower(a[i]) == crate::text::ascii_lower(b[i]));
    }
    if crate::text::all_hex_digits(a) {
        assert forall|i: int| 0 <= i < b.len() implies crate::text::hex_digit(
            #[trigger] b[i],
        ) is Some by {
            assert(crate::text::hex_digit(a[i]) is Some);
        }
    }
    if a.len() > 0 {
        assert forall|i: int| 0 <= i < a.drop_last().len() implies crate::text::ascii_lower(
            #[trigger] a.drop_last()[i],
        ) == crate::text::ascii_lower(b.drop_last()[i]) by {
            assert(crate::text::ascii_lower(a[i]) == crate::text::ascii_lower(b[i]));
        }
        lemma_hex_value_ignores_case(a.drop_last(), b.drop_last());
        assert(crate::text::hex_digit(a[a.len() - 1]) == crate::text::hex_digit(b[a.len() - 1]));
    }
}

/// The case of the digits of a number does not matter.
pub proof fn law_hex_ignores_case(a: Seq<char>, b: Seq<char>)
    requires
        crate::text::same_ignoring_ascii_case(a, b),
    ensures
        crate::text::hex_number(a) == crate::text::hex_number(b),
{
    let left = crate::text::unsigned_part(a);
    let right = crate::text::unsigned_part(b);
    if a.len() > 0 {
        assert(crate::text::ascii_lower(a[0]) == crate::text::ascii_lower(b[0]));
    }
    assert forall|i: int| 0 <= i < left.len() implies crate::text::ascii_lower(#[trigger] left[i])
        == crate::text::ascii_lower(right[i]) by {
        let k = i + (a.len() - left.len());
        assert(crate::text::ascii_lower(a[k]) == crate::text::ascii_lower(b[k]));
    }
    lemma_hex_value_ignores_case(left, right);
}

/// A prefix `0x` before the text of a number does not matter, nor does a
/// prefix `0X` before one that has no `0x` itself.
pub proof fn law_hex_prefix_is_ignored(text: Seq<char>)
    ensures
        crate::descriptor::without_hex_prefix(seq!['0', 'x'] + text)
            == crate::descriptor::without_hex_prefix(text),
        !seq!['0', 'x'].is_prefix_of(text) ==> crate::descriptor::without_hex_prefix(
            seq!['0', 'X'] + text,
        ) == crate::descriptor::without_hex_prefix(text),
{
    let lower = seq!['0', 'x'];
    let upper = seq!['0', 'X'];
    assert((lower + text).skip(2) =~= text);
    assert(lower.is_prefix_of(lower + text));
    assert((upper + text).skip(2) =~= text);
    assert(upper.is_prefix_of(upper + text));
    if lower.is_prefix_of(upper + text) {
        assert((upper + text)[1] == lower[1]);
    }
    reveal_with_fuel(crate::text::strip_repeated, 2);
}

} // verus!
