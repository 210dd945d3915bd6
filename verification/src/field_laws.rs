//! What the functions that read descriptor fields give, and which field of a
//! parsed descriptor takes which key.

use crate::descriptor::{
    looks_like_iboot_descriptor, parse_bracketed, parse_hex_u32, parse_hex_u64, parse_token,
    RecoveryDeviceInfo,
};
use crate::error::RecoveryError;
use vstd::prelude::*;

verus! {

/// `marker` stands in `text` from index `at` on, and nowhere before that.
pub open spec fn first_at(text: Seq<char>, marker: Seq<char>, at: int) -> bool {
    &&& 0 <= at
    &&& at + marker.len() <= text.len()
    &&& text.subrange(at, at + marker.len()) == marker
    &&& forall|j: int| 0 <= j < at ==> #[trigger] text.subrange(j, j + marker.len()) != marker
}

/// `marker` stands nowhere in `text`.
pub open spec fn absent(text: Seq<char>, marker: Seq<char>) -> bool {
    forall|at: int|
        0 <= at && at + marker.len() <= text.len() ==> #[trigger] text.subrange(
            at,
            at + marker.len(),
        ) != marker
}

pub(crate) proof fn lemma_first_at(text: Seq<char>, marker: Seq<char>, at: int)
    ensures
        first_at(text, marker, at) ==> crate::text::first_occurrence(text, marker) == Some(at),
        absent(text, marker) ==> crate::text::first_occurrence(text, marker) is None,
{
    crate::text::lemma_first_occurrence(text, marker);
    if first_at(text, marker, at) {
        assert forall|j: int| 0 <= j < at implies !crate::text::occurs_at(text, marker, j) by {
            assert(text.subrange(j, j + marker.len()) != marker);
        }
        assert(crate::text::first_occurs_at(text, marker, at));
    }
    if absent(text, marker) && crate::text::occurs(text, marker) {
        let place = choose|place: int| crate::text::occurs_at(text, marker, place);
        assert(text.subrange(place, place + marker.len()) == marker);
    }
}

pub(crate) proof fn lemma_found_at(text: Seq<char>, marker: Seq<char>)
    ensures
        match crate::text::first_occurrence(text, marker) {
            Some(at) => first_at(text, marker, at),
            None => absent(text, marker),
        },
{
    crate::text::lemma_first_occurrence(text, marker);
    if let Some(at) = crate::text::first_occurrence(text, marker) {
        assert forall|j: int| 0 <= j < at implies #[trigger] text.subrange(j, j + marker.len())
            != marker by {
            assert(!crate::text::occurs_at(text, marker, j));
        }
    } else {
        assert forall|at: int|
            0 <= at && at + marker.len() <= text.len() implies #[trigger] text.subrange(
            at,
            at + marker.len(),
        ) != marker by {
            assert(!crate::text::occurs_at(text, marker, at));
        }
    }
}

/// `text` from index `begin` up to index `end` is its first word: only white
/// space stands before it, none in it, and white space or the end behind it.
pub open spec fn is_first_word(text: Seq<char>, begin: int, end: int) -> bool {
    &&& 0 <= begin < end <= text.len()
    &&& forall|i: int| 0 <= i < begin ==> crate::text::is_white_space(#[trigger] text[i])
    &&& forall|i: int| begin <= i < end ==> !crate::text::is_white_space(#[trigger] text[i])
    &&& end < text.len() ==> crate::text::is_white_space(text[end])
}

proof fn lemma_first_word(text: Seq<char>, begin: int, end: int)
    requires
        is_first_word(text, begin, end),
    ensures
        crate::text::first_word(text) == Some(text.subrange(begin, end)),
{
    crate::text::lemma_leading_run(text, true, begin as nat);
    let rest = text.skip(begin);
    assert forall|i: int| 0 <= i < end - begin implies crate::text::is_white_space(
        #[trigger] rest[i],
    ) == false by {
        assert(rest[i] == text[begin + i]);
    }
    crate::text::lemma_leading_run(rest, false, (end - begin) as nat);
    assert(rest.take(end - begin) =~= text.subrange(begin, end));
}

/// A token is the first word behind the first `key:`. There is none where the
/// key does not stand with its colon, or where only white space follows it.
pub proof fn law_token(input: &str, key: &str, token: Option<&str>, at: int, begin: int, end: int)
    requires
        call_ensures(parse_token, (input, key), token),
    ensures
        absent(input@, key@.push(':')) ==> token is None,
        first_at(input@, key@.push(':'), at) ==> {
            let rest = input@.skip(at + key@.len() + 1);
            &&& (forall|i: int|
                0 <= i < rest.len() ==> crate::text::is_white_space(#[trigger] rest[i]))
                ==> token is None
            &&& is_first_word(rest, begin, end) ==> (token matches Some(word) && word@
                == rest.subrange(begin, end))
        },
{
    lemma_first_at(input@, key@.push(':'), at);
    if first_at(input@, key@.push(':'), at) {
        let rest = input@.skip(at + key@.len() + 1);
        if forall|i: int| 0 <= i < rest.len() ==> crate::text::is_white_space(#[trigger] rest[i]) {
            crate::text::lemma_leading_run(rest, true, rest.len());
        }
        if is_first_word(rest, begin, end) {
            lemma_first_word(rest, begin, end);
        }
    }
}

/// `text` holds `value` in brackets behind the first place where the key stands
/// with its colon and an opening bracket, up to the next closing one.
pub open spec fn holds_bracketed(text: Seq<char>, opening: Seq<char>, value: Seq<char>) -> bool {
    !value.contains(']') && exists|at: int| #[trigger]
        first_at(text, opening, at) && value.push(']').is_prefix_of(
            text.skip(at + opening.len()),
        )
}

proof fn lemma_bracketed_of(input: Seq<char>, key: Seq<char>, text: Seq<char>)
    ensures
        crate::descriptor::bracketed_of(input, key) == Some(text) <==> holds_bracketed(
            input,
            key.push(':').push('['),
            text,
        ),
{
    let opening = key.push(':').push('[');
    lemma_found_at(input, opening);
    let closing = seq![']'];
    if let Some(at) = crate::text::first_occurrence(input, opening) {
        let rest = input.skip(at + opening.len());
        crate::text::lemma_first_occurrence(rest, closing);
        if let Some(end) = crate::text::first_occurrence(rest, closing) {
            let inner = rest.take(end);
            assert forall|j: int| 0 <= j < inner.len() implies inner[j] != ']' by {
                if inner[j] == ']' {
                    assert(rest.subrange(j, j + 1) =~= closing);
                    assert(crate::text::occurs_at(rest, closing, j));
                }
            }
            assert(rest.subrange(end, end + 1)[0] == ']');
            assert(rest.subrange(0, end + 1) =~= inner.push(']'));
            assert(inner.push(']').is_prefix_of(rest));
            assert(first_at(input, opening, at));
        }
    }
    if holds_bracketed(input, opening, text) {
        let at = choose|at: int| #[trigger]
            first_at(input, opening, at) && text.push(']').is_prefix_of(
                input.skip(at + opening.len()),
            );
        lemma_first_at(input, opening, at);
        let rest = input.skip(at + opening.len());
        let end = text.len() as int;
        assert(rest.subrange(0, end + 1) =~= text.push(']'));
        assert(rest[end] == text.push(']')[end]);
        assert(rest.subrange(end, end + 1) =~= closing);
        assert forall|j: int| 0 <= j < end implies !crate::text::occurs_at(rest, closing, j) by {
            if crate::text::occurs_at(rest, closing, j) {
                assert(rest.subrange(j, j + 1)[0] == ']');
                assert(rest[j] == text.push(']')[j]);
                assert(text[j] == ']');
            }
        }
        assert(crate::text::first_occurs_at(rest, closing, end));
        crate::text::lemma_first_occurrence(rest, closing);
        assert(rest.take(end) =~= text);
    }
}

/// A bracketed field is the text between the first `key:[` and the next closing
/// bracket, and is there exactly if both brackets are.
pub proof fn law_bracketed(input: &str, key: &str, value: Option<String>, text: Seq<char>)
    requires
        call_ensures(parse_bracketed, (input, key), value),
    ensures
        (value matches Some(value) && value@ == text) <==> holds_bracketed(
            input@,
            key@.push(':').push('['),
            text,
        ),
{
    lemma_bracketed_of(input@, key@, text);
}

/// A number field is its token without the leading `0x` and `0X`, read as a
/// hexadecimal number. Without a token it is absent; what is no number is
/// refused under the key that was asked for.
pub proof fn law_number_is_token(
    input: &str,
    key: &'static str,
    token: Option<&str>,
    field: Result<Option<u64>, RecoveryError>,
)
    requires
        call_ensures(parse_token, (input, key), token),
        call_ensures(parse_hex_u64, (input, key), field),
    ensures
        match token {
            None => field == Ok::<Option<u64>, RecoveryError>(None),
            Some(token) => {
                let text = crate::descriptor::without_hex_prefix(token@);
                match crate::text::hex_number(text) {
                    Some(number) => field == Ok::<Option<u64>, RecoveryError>(Some(number)),
                    None => field matches Err(
                        RecoveryError::InvalidDescriptorField { field, value },
                    ) && field@ == key@ && value@ == text,
                }
            },
        },
{
}

/// A field of 32 bits is what the same field gives as a number of 64 bits, but
/// for the bits above; it is there, absent or refused together with that.
pub proof fn law_short_number_is_low_bits(
    input: &str,
    key: &'static str,
    wide: Result<Option<u64>, RecoveryError>,
    field: Result<Option<u32>, RecoveryError>,
)
    requires
        call_ensures(parse_hex_u64, (input, key), wide),
        call_ensures(parse_hex_u32, (input, key), field),
    ensures
        match wide {
            Ok(None) => field == Ok::<Option<u32>, RecoveryError>(None),
            Ok(Some(number)) => field matches Ok(Some(word)) && word as int == number as int
                % 0x1_0000_0000,
            Err(RecoveryError::InvalidDescriptorField { field: at, value }) => field matches Err(
                RecoveryError::InvalidDescriptorField { field: found, value: text },
            ) && found@ == at@ && text@ == value@,
            Err(_) => false,
        },
{
}

/// A text looks like a descriptor string exactly if an ECID, CPID or BDID stands
/// in it with its colon.
pub proof fn law_looks_like_descriptor(value: &str, looks: bool)
    requires
        call_ensures(looks_like_iboot_descriptor, (value,), looks),
    ensures
        !looks <==> absent(value@, "ECID:"@) && absent(value@, "CPID:"@) && absent(
            value@,
            "BDID:"@,
        ),
{
    lemma_found_at(value@, "ECID:"@);
    lemma_found_at(value@, "CPID:"@);
    lemma_found_at(value@, "BDID:"@);
    lemma_first_at(value@, "ECID:"@, 0);
    lemma_first_at(value@, "CPID:"@, 0);
    lemma_first_at(value@, "BDID:"@, 0);
}

/// The same refusal: of the same field, for the same text.
pub open spec fn same_refusal(a: RecoveryError, b: RecoveryError) -> bool {
    a matches RecoveryError::InvalidDescriptorField { field, value } && b matches
        RecoveryError::InvalidDescriptorField { field: other, value: text } && field@ == other@
        && value@ == text@
}

/// A descriptor that parses keeps its text and product ID, and each of its
/// numbers is what the function for that one key gives on the text, whatever
/// other fields the text holds.
pub proof fn law_parse_reads_numbers(
    text: &str,
    pid: u16,
    info: Result<RecoveryDeviceInfo, RecoveryError>,
    cpid: Result<Option<u32>, RecoveryError>,
    cprv: Result<Option<u32>, RecoveryError>,
    cpfm: Result<Option<u32>, RecoveryError>,
    scep: Result<Option<u32>, RecoveryError>,
    bdid: Result<Option<u32>, RecoveryError>,
    ecid: Result<Option<u64>, RecoveryError>,
    ibfl: Result<Option<u32>, RecoveryError>,
)
    requires
        call_ensures(RecoveryDeviceInfo::parse::<&str>, (text, pid), info),
        call_ensures(parse_hex_u32, (text, "CPID"), cpid),
        call_ensures(parse_hex_u32, (text, "CPRV"), cprv),
        call_ensures(parse_hex_u32, (text, "CPFM"), cpfm),
        call_ensures(parse_hex_u32, (text, "SCEP"), scep),
        call_ensures(parse_hex_u32, (text, "BDID"), bdid),
        call_ensures(parse_hex_u64, (text, "ECID"), ecid),
        call_ensures(parse_hex_u32, (text, "IBFL"), ibfl),
    ensures
        match info {
            Ok(info) => {
                &&& info.serial_string@ == text@
                &&& info.pid == pid
                &&& cpid == Ok::<Option<u32>, RecoveryError>(info.cpid)
                &&& cprv == Ok::<Option<u32>, RecoveryError>(info.cprv)
                &&& cpfm == Ok::<Option<u32>, RecoveryError>(info.cpfm)
                &&& scep == Ok::<Option<u32>, RecoveryError>(info.scep)
                &&& bdid == Ok::<Option<u32>, RecoveryError>(info.bdid)
                &&& ecid == Ok::<Option<u64>, RecoveryError>(info.ecid)
                &&& ibfl == Ok::<Option<u32>, RecoveryError>(info.ibfl)
            },
            Err(error) => if cpid is Err {
                same_refusal(error, cpid->Err_0)
            } else if cprv is Err {
                same_refusal(error, cprv->Err_0)
            } else if cpfm is Err {
                same_refusal(error, cpfm->Err_0)
            } else if scep is Err {
                same_refusal(error, scep->Err_0)
            } else if bdid is Err {
                same_refusal(error, bdid->Err_0)
            } else if ecid is Err {
                same_refusal(error, ecid->Err_0)
            } else {
                ibfl is Err && same_refusal(error, ibfl->Err_0)
            },
        },
{
}

/// Each of the bracketed texts of a parsed descriptor is the one behind its own
/// key, and is there exactly if that key has one.
pub proof fn law_parse_reads_brackets(
    text: &str,
    pid: u16,
    info: RecoveryDeviceInfo,
    value: Seq<char>,
)
    requires
        call_ensures(RecoveryDeviceInfo::parse::<&str>, (text, pid), Ok(info)),
    ensures
        (info.srnm matches Some(srnm) && srnm@ == value) <==> holds_bracketed(
            text@,
            "SRNM:["@,
            value,
        ),
        (info.imei matches Some(imei) && imei@ == value) <==> holds_bracketed(
            text@,
            "IMEI:["@,
            value,
        ),
        (info.srtg matches Some(srtg) && srtg@ == value) <==> holds_bracketed(
            text@,
            "SRTG:["@,
            value,
        ),
{
    reveal_strlit("SRNM");
    reveal_strlit("IMEI");
    reveal_strlit("SRTG");
    reveal_strlit("SRNM:[");
    reveal_strlit("IMEI:[");
    reveal_strlit("SRTG:[");
    assert("SRNM"@.push(':').push('[') =~= "SRNM:["@);
    assert("IMEI"@.push(':').push('[') =~= "IMEI:["@);
    assert("SRTG"@.push(':').push('[') =~= "SRTG:["@);
    lemma_bracketed_of(text@, "SRNM"@, value);
    lemma_bracketed_of(text@, "IMEI"@, value);
    lemma_bracketed_of(text@, "SRTG"@, value);
}

proof fn lemma_absent(text: Seq<char>, key: Seq<char>)
    ensures
        absent(text, key.push(':')) ==> crate::descriptor::hex_field(text, key) == Ok::<
            Option<u64>,
            Seq<char>,
        >(None) && crate::descriptor::bracketed_of(text, key) is None,
{
    lemma_first_at(text, key.push(':'), 0);
    if absent(text, key.push(':')) {
        crate::descriptor_laws::law_absent_field_is_none(text, key);
    }
}

/// A field is absent from a parsed descriptor if its key does not stand in the
/// text with its colon, whatever other fields the text holds.
pub proof fn law_parse_leaves_out_absent_keys(text: &str, pid: u16, info: RecoveryDeviceInfo)
    requires
        call_ensures(RecoveryDeviceInfo::parse::<&str>, (text, pid), Ok(info)),
    ensures
        absent(text@, "CPID:"@) ==> info.cpid is None,
        absent(text@, "CPRV:"@) ==> info.cprv is None,
        absent(text@, "CPFM:"@) ==> info.cpfm is None,
        absent(text@, "SCEP:"@) ==> info.scep is None,
        absent(text@, "BDID:"@) ==> info.bdid is None,
        absent(text@, "ECID:"@) ==> info.ecid is None,
        absent(text@, "IBFL:"@) ==> info.ibfl is None,
        absent(text@, "SRNM:"@) ==> info.srnm is None,
        absent(text@, "IMEI:"@) ==> info.imei is None,
        absent(text@, "SRTG:"@) ==> info.srtg is None,
{
    reveal_strlit("CPID");
    reveal_strlit("CPID:");
    assert("CPID"@.push(':') =~= "CPID:"@);
    reveal_strlit("CPRV");
    reveal_strlit("CPRV:");
    assert("CPRV"@.push(':') =~= "CPRV:"@);
    reveal_strlit("CPFM");
    reveal_strlit("CPFM:");
    assert("CPFM"@.push(':') =~= "CPFM:"@);
    reveal_strlit("SCEP");
    reveal_strlit("SCEP:");
    assert("SCEP"@.push(':') =~= "SCEP:"@);
    reveal_strlit("BDID");
    reveal_strlit("BDID:");
    assert("BDID"@.push(':') =~= "BDID:"@);
    reveal_strlit("ECID");
    reveal_strlit("ECID:");
    assert("ECID"@.push(':') =~= "ECID:"@);
    reveal_strlit("IBFL");
    reveal_strlit("IBFL:");
    assert("IBFL"@.push(':') =~= "IBFL:"@);
    reveal_strlit("SRNM");
    reveal_strlit("SRNM:");
    assert("SRNM"@.push(':') =~= "SRNM:"@);
    reveal_strlit("IMEI");
    reveal_strlit("IMEI:");
    assert("IMEI"@.push(':') =~= "IMEI:"@);
    reveal_strlit("SRTG");
    reveal_strlit("SRTG:");
    assert("SRTG"@.push(':') =~= "SRTG:"@);
    lemma_absent(text@, "CPID"@);
    lemma_absent(text@, "CPRV"@);
    lemma_absent(text@, "CPFM"@);
    lemma_absent(text@, "SCEP"@);
    lemma_absent(text@, "BDID"@);
    lemma_absent(text@, "ECID"@);
    lemma_absent(text@, "IBFL"@);
    lemma_absent(text@, "SRNM"@);
    lemma_absent(text@, "IMEI"@);
    lemma_absent(text@, "SRTG"@);
}

/// `word` writes `number` with hexadecimal digits, alone or behind `0x` or `0X`.
pub open spec fn writes_number(word: Seq<char>, digits: Seq<char>, number: u64) -> bool {
    &&& crate::text_laws::is_hex_digits(digits)
    &&& crate::text::hex_value(digits) == number
    &&& word == digits || word == seq!['0', 'x'] + digits || word == seq!['0', 'X'] + digits
}

/// The first word behind the first `marker` in `text` writes `number`.
pub open spec fn holds_number(text: Seq<char>, marker: Seq<char>, number: u64) -> bool {
    exists|at: int, begin: int, end: int, digits: Seq<char>|
        first_at(text, marker, at) && is_first_word(text.skip(at + marker.len()), begin, end)
            && #[trigger] writes_number(
            text.skip(at + marker.len()).subrange(begin, end),
            digits,
            number,
        )
}

proof fn lemma_holds_number(text: Seq<char>, key: Seq<char>, number: u64)
    ensures
        holds_number(text, key.push(':'), number) ==> crate::descriptor::hex_field(text, key)
            == Ok::<Option<u64>, Seq<char>>(Some(number)),
{
    let marker = key.push(':');
    if holds_number(text, marker, number) {
        let (at, begin, end, digits) = choose|at: int, begin: int, end: int, digits: Seq<char>|
            first_at(text, marker, at) && is_first_word(text.skip(at + marker.len()), begin, end)
                && #[trigger] writes_number(
                text.skip(at + marker.len()).subrange(begin, end),
                digits,
                number,
            );
        let rest = text.skip(at + marker.len());
        let word = rest.subrange(begin, end);
        lemma_first_at(text, marker, at);
        lemma_first_word(rest, begin, end);
        reveal_strlit("0123456789abcdef");
        reveal_strlit("0123456789ABCDEF");
        assert("0123456789abcdef"@.contains(digits[0]) || "0123456789ABCDEF"@.contains(digits[0]));
        if digits.len() > 1 {
            assert("0123456789abcdef"@.contains(digits[1]) || "0123456789ABCDEF"@.contains(
                digits[1],
            ));
        }
        crate::text_laws::law_hex_prefixes(digits);
        crate::text_laws::law_hex_numbers(digits);
    }
}

/// A number that is written behind the first place where a key stands with its
/// colon is the one that the field of that very key takes; a field of 32 bits
/// takes the low bits of it.
pub proof fn law_parse_takes_written_numbers(
    text: &str,
    pid: u16,
    info: RecoveryDeviceInfo,
    number: u64,
)
    requires
        call_ensures(RecoveryDeviceInfo::parse::<&str>, (text, pid), Ok(info)),
    ensures
        holds_number(text@, "CPID:"@, number) ==> (info.cpid matches Some(word) && word as int
            == number as int % 0x1_0000_0000),
        holds_number(text@, "CPRV:"@, number) ==> (info.cprv matches Some(word) && word as int
            == number as int % 0x1_0000_0000),
        holds_number(text@, "CPFM:"@, number) ==> (info.cpfm matches Some(word) && word as int
            == number as int % 0x1_0000_0000),
        holds_number(text@, "SCEP:"@, number) ==> (info.scep matches Some(word) && word as int
            == number as int % 0x1_0000_0000),
        holds_number(text@, "BDID:"@, number) ==> (info.bdid matches Some(word) && word as int
            == number as int % 0x1_0000_0000),
        holds_number(text@, "ECID:"@, number) ==> info.ecid == Some(number),
        holds_number(text@, "IBFL:"@, number) ==> (info.ibfl matches Some(word) && word as int
            == number as int % 0x1_0000_0000),
{
    reveal_strlit("CPID");
    reveal_strlit("CPID:");
    assert("CPID"@.push(':') =~= "CPID:"@);
    lemma_holds_number(text@, "CPID"@, number);
    reveal_strlit("CPRV");
    reveal_strlit("CPRV:");
    assert("CPRV"@.push(':') =~= "CPRV:"@);
    lemma_holds_number(text@, "CPRV"@, number);
    reveal_strlit("CPFM");
    reveal_strlit("CPFM:");
    assert("CPFM"@.push(':') =~= "CPFM:"@);
    lemma_holds_number(text@, "CPFM"@, number);
    reveal_strlit("SCEP");
    reveal_strlit("SCEP:");
    assert("SCEP"@.push(':') =~= "SCEP:"@);
    lemma_holds_number(text@, "SCEP"@, number);
    reveal_strlit("BDID");
    reveal_strlit("BDID:");
    assert("BDID"@.push(':') =~= "BDID:"@);
    lemma_holds_number(text@, "BDID"@, number);
    reveal_strlit("ECID");
    reveal_strlit("ECID:");
    assert("ECID"@.push(':') =~= "ECID:"@);
    lemma_holds_number(text@, "ECID"@, number);
    reveal_strlit("IBFL");
    reveal_strlit("IBFL:");
    assert("IBFL"@.push(':') =~= "IBFL:"@);
    lemma_holds_number(text@, "IBFL"@, number);
}

} // verus!
