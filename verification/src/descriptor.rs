//! The iBoot descriptor string and what it says of a device.

use crate::error::RecoveryError;
use crate::text::{chars_of, find_from, hex_number_from, skip_repeated, word_from};
use vstd::prelude::*;

verus! {

/// Parsed iBoot/recovery descriptor information.
#[derive(Debug, PartialEq, Eq)]
pub struct RecoveryDeviceInfo {
    pub serial_string: String,
    pub pid: u16,
    pub cpid: Option<u32>,
    pub cprv: Option<u32>,
    pub cpfm: Option<u32>,
    pub scep: Option<u32>,
    pub bdid: Option<u32>,
    pub ecid: Option<u64>,
    pub ibfl: Option<u32>,
    pub srnm: Option<String>,
    pub imei: Option<String>,
    pub srtg: Option<String>,
}

/// What a [`RecoveryDeviceInfo`] says, with texts as character sequences.
#[verifier::ext_equal]
pub struct DeviceInfoView {
    pub serial_string: Seq<char>,
    pub pid: u16,
    pub cpid: Option<u32>,
    pub cprv: Option<u32>,
    pub cpfm: Option<u32>,
    pub scep: Option<u32>,
    pub bdid: Option<u32>,
    pub ecid: Option<u64>,
    pub ibfl: Option<u32>,
    pub srnm: Option<Seq<char>>,
    pub imei: Option<Seq<char>>,
    pub srtg: Option<Seq<char>>,
}

/// The characters of an optional string.
pub open spec fn string_view(text: Option<String>) -> Option<Seq<char>> {
    match text {
        Some(text) => Some(text@),
        None => None,
    }
}

/// The characters of an optional string slice.
pub open spec fn str_view(text: Option<&str>) -> Option<Seq<char>> {
    match text {
        Some(text) => Some(text@),
        None => None,
    }
}

impl View for RecoveryDeviceInfo {
    type V = DeviceInfoView;

    open spec fn view(&self) -> DeviceInfoView {
        DeviceInfoView {
            serial_string: self.serial_string@,
            pid: self.pid,
            cpid: self.cpid,
            cprv: self.cprv,
            cpfm: self.cpfm,
            scep: self.scep,
            bdid: self.bdid,
            ecid: self.ecid,
            ibfl: self.ibfl,
            srnm: string_view(self.srnm),
            imei: string_view(self.imei),
            srtg: string_view(self.srtg),
        }
    }
}

impl Clone for RecoveryDeviceInfo {
    fn clone(&self) -> (copy: RecoveryDeviceInfo)
        ensures
            copy == *self,
    {
        RecoveryDeviceInfo {
            serial_string: self.serial_string.clone(),
            pid: self.pid,
            cpid: self.cpid,
            cprv: self.cprv,
            cpfm: self.cpfm,
            scep: self.scep,
            bdid: self.bdid,
            ecid: self.ecid,
            ibfl: self.ibfl,
            srnm: self.srnm.clone(),
            imei: self.imei.clone(),
            srtg: self.srtg.clone(),
        }
    }
}

impl Default for RecoveryDeviceInfo {
    fn default() -> (info: RecoveryDeviceInfo)
        ensures
            info@ == empty_info(Seq::empty(), 0),
    {
        RecoveryDeviceInfo {
            serial_string: String::new(),
            pid: 0,
            cpid: None,
            cprv: None,
            cpfm: None,
            scep: None,
            bdid: None,
            ecid: None,
            ibfl: None,
            srnm: None,
            imei: None,
            srtg: None,
        }
    }
}

/// The information of a descriptor without a single field.
pub open spec fn empty_info(serial_string: Seq<char>, pid: u16) -> DeviceInfoView {
    DeviceInfoView {
        serial_string,
        pid,
        cpid: None,
        cprv: None,
        cpfm: None,
        scep: None,
        bdid: None,
        ecid: None,
        ibfl: None,
        srnm: None,
        imei: None,
        srtg: None,
    }
}

/// What follows the first `marker` in `text`.
pub open spec fn after_first(text: Seq<char>, marker: Seq<char>) -> Option<Seq<char>> {
    match crate::text::first_occurrence(text, marker) {
        Some(at) => Some(text.skip(at + marker.len())),
        None => None,
    }
}

/// The word that follows the first `key:` in `text`.
pub open spec fn token_of(text: Seq<char>, key: Seq<char>) -> Option<Seq<char>> {
    match after_first(text, key.push(':')) {
        Some(rest) => crate::text::first_word(rest),
        None => None,
    }
}

/// What stands between the first `key:[` in `text` and the next `]`.
pub open spec fn bracketed_of(text: Seq<char>, key: Seq<char>) -> Option<Seq<char>> {
    match after_first(text, key.push(':').push('[')) {
        Some(rest) => match crate::text::first_occurrence(rest, seq![']']) {
            Some(end) => Some(rest.take(end)),
            None => None,
        },
        None => None,
    }
}

/// `text` without the `0x`, and then without the `0X`, that it starts with.
pub open spec fn without_hex_prefix(text: Seq<char>) -> Seq<char> {
    crate::text::strip_repeated(
        crate::text::strip_repeated(text, seq!['0', 'x']),
        seq!['0', 'X'],
    )
}

/// The number in the field `key` of `text`, if there is one, or else the text
/// that should be one.
pub open spec fn hex_field(text: Seq<char>, key: Seq<char>) -> Result<Option<u64>, Seq<char>> {
    match token_of(text, key) {
        Some(token) => match crate::text::hex_number(without_hex_prefix(token)) {
            Some(number) => Ok(Some(number)),
            None => Err(without_hex_prefix(token)),
        },
        None => Ok(None),
    }
}

/// The low 32 bits of a field.
pub open spec fn low_word(number: Option<u64>) -> Option<u32> {
    match number {
        Some(number) => Some((number % 0x1_0000_0000) as u32),
        None => None,
    }
}

/// The error that reports the text `value` in the field `key`.
pub open spec fn is_field_error(error: RecoveryError, key: Seq<char>, value: Seq<char>) -> bool {
    error matches RecoveryError::InvalidDescriptorField { field, value: found } && field@ == key
        && found@ == value
}

/// The first of the numeric fields of `text` that does not hold a number, with
/// the text that it holds.
pub open spec fn first_bad_field(text: Seq<char>) -> Option<(Seq<char>, Seq<char>)> {
    if hex_field(text, "CPID"@) is Err {
        Some(("CPID"@, hex_field(text, "CPID"@)->Err_0))
    } else if hex_field(text, "CPRV"@) is Err {
        Some(("CPRV"@, hex_field(text, "CPRV"@)->Err_0))
    } else if hex_field(text, "CPFM"@) is Err {
        Some(("CPFM"@, hex_field(text, "CPFM"@)->Err_0))
    } else if hex_field(text, "SCEP"@) is Err {
        Some(("SCEP"@, hex_field(text, "SCEP"@)->Err_0))
    } else if hex_field(text, "BDID"@) is Err {
        Some(("BDID"@, hex_field(text, "BDID"@)->Err_0))
    } else if hex_field(text, "ECID"@) is Err {
        Some(("ECID"@, hex_field(text, "ECID"@)->Err_0))
    } else if hex_field(text, "IBFL"@) is Err {
        Some(("IBFL"@, hex_field(text, "IBFL"@)->Err_0))
    } else {
        None
    }
}

/// What the descriptor string `text` of a device with product ID `pid` says.
pub open spec fn info_of(text: Seq<char>, pid: u16) -> DeviceInfoView
    recommends
        first_bad_field(text) is None,
{
    DeviceInfoView {
        serial_string: text,
        pid,
        cpid: low_word(hex_field(text, "CPID"@)->Ok_0),
        cprv: low_word(hex_field(text, "CPRV"@)->Ok_0),
        cpfm: low_word(hex_field(text, "CPFM"@)->Ok_0),
        scep: low_word(hex_field(text, "SCEP"@)->Ok_0),
        bdid: low_word(hex_field(text, "BDID"@)->Ok_0),
        ecid: hex_field(text, "ECID"@)->Ok_0,
        ibfl: low_word(hex_field(text, "IBFL"@)->Ok_0),
        srnm: bracketed_of(text, "SRNM"@),
        imei: bracketed_of(text, "IMEI"@),
        srtg: bracketed_of(text, "SRTG"@),
    }
}

/// What parsing `text` gives: the information, or the field at fault and what
/// it holds.
pub open spec fn parsed(text: Seq<char>, pid: u16) -> Result<
    DeviceInfoView,
    (Seq<char>, Seq<char>),
> {
    match first_bad_field(text) {
        Some(bad) => Err(bad),
        None => Ok(info_of(text, pid)),
    }
}

/// `value` has the mark of an iBoot descriptor string: an ECID, CPID or BDID
/// field.
pub open spec fn has_iboot_mark(value: Seq<char>) -> bool {
    ||| crate::text::occurs(value, "ECID:"@)
    ||| crate::text::occurs(value, "CPID:"@)
    ||| crate::text::occurs(value, "BDID:"@)
}

/// `info` is what parsing `text` gives.
pub open spec fn is_parse_of(
    info: Result<RecoveryDeviceInfo, RecoveryError>,
    text: Seq<char>,
    pid: u16,
) -> bool {
    match info {
        Ok(info) => parsed(text, pid) == Ok::<DeviceInfoView, (Seq<char>, Seq<char>)>(info@),
        Err(error) => parsed(text, pid) matches Err((key, value)) && is_field_error(
            error,
            key,
            value,
        ),
    }
}

/// `<String as From<&str>>::from`, to which `Into<String>` of a string slice
/// comes down: the string has the characters of the slice.
pub assume_specification<'a>[ <String as From<&'a str>>::from ](text: &str) -> (owned: String)
    ensures
        owned@ == text@,
;

/// `<T as From<T>>::from`, to which `Into<String>` of a string comes down: the
/// value comes back unchanged.
pub assume_specification<T>[ <T as From<T>>::from ](value: T) -> (same: T)
    ensures
        same == value,
;

impl RecoveryDeviceInfo {
    /// Parse an iBoot-style descriptor string.
    ///
    /// The text that is parsed is what the argument converts into.
    pub fn parse<S: Into<String>>(serial_string: S, pid: u16) -> (info: Result<
        RecoveryDeviceInfo,
        RecoveryError,
    >)
        ensures
            exists|text: String| #[trigger]
                call_ensures(<S as Into<String>>::into, (serial_string,), text) && is_parse_of(
                    info,
                    text@,
                    pid,
                ),
    {
        let serial_string: String = serial_string.into();
        let text = serial_string.as_str();
        let cpid = parse_hex_u32(text, "CPID")?;
        let cprv = parse_hex_u32(text, "CPRV")?;
        let cpfm = parse_hex_u32(text, "CPFM")?;
        let scep = parse_hex_u32(text, "SCEP")?;
        let bdid = truncated(parse_hex_u64(text, "BDID")?);
        let ecid = parse_hex_u64(text, "ECID")?;
        let ibfl = parse_hex_u32(text, "IBFL")?;
        let srnm = parse_bracketed(text, "SRNM");
        let imei = parse_bracketed(text, "IMEI");
        let srtg = parse_bracketed(text, "SRTG");
        Ok(
            RecoveryDeviceInfo {
                serial_string,
                pid,
                cpid,
                cprv,
                cpfm,
                scep,
                bdid,
                ecid,
                ibfl,
                srnm,
                imei,
                srtg,
            },
        )
    }
}

fn contains(value: &str, mark: &str) -> (found: bool)
    ensures
        found == crate::text::occurs(value@, mark@),
{
    let text = chars_of(value);
    let pattern = chars_of(mark);
    assert(text@.skip(0) =~= text@);
    find_from(&text, 0, &pattern).is_some()
}

/// Whether `value` looks like an iBoot descriptor string.
pub fn looks_like_iboot_descriptor(value: &str) -> (looks: bool)
    ensures
        looks == has_iboot_mark(value@),
{
    contains(value, "ECID:") || contains(value, "CPID:") || contains(value, "BDID:")
}

/// Extracts the word after the first `key:`.
pub fn parse_token<'a>(input: &'a str, key: &str) -> (token: Option<&'a str>)
    ensures
        str_view(token) == token_of(input@, key@),
{
    let text = chars_of(input);
    let mut prefix = chars_of(key);
    prefix.push(':');
    assert(text@.skip(0) =~= text@);
    match find_from(&text, 0, &prefix) {
        Some(at) => match word_from(&text, at + prefix.len()) {
            Some((begin, end)) => Some(input.substring_char(begin, end)),
            None => None,
        },
        None => None,
    }
}

/// Extracts the text between the first `key:[` and the next `]`.
pub fn parse_bracketed(input: &str, key: &str) -> (value: Option<String>)
    ensures
        string_view(value) == bracketed_of(input@, key@),
{
    let text = chars_of(input);
    let mut prefix = chars_of(key);
    prefix.push(':');
    prefix.push('[');
    assert(text@.skip(0) =~= text@);
    let start: usize = match find_from(&text, 0, &prefix) {
        Some(at) => at + prefix.len(),
        None => {
            return None;
        },
    };
    let closing: Vec<char> = vec![']'];
    assert(closing@ =~= seq![']']);
    match find_from(&text, start, &closing) {
        Some(length) => {
            assert(text@.skip(start as int).take(length as int) =~= text@.subrange(
                start as int,
                start + length,
            ));
            Some(input.substring_char(start, start + length).to_owned())
        },
        None => None,
    }
}

/// Reads the field `key` as a hexadecimal number.
pub fn parse_hex_u64(input: &str, key: &'static str) -> (field: Result<Option<u64>, RecoveryError>)
    ensures
        match field {
            Ok(number) => hex_field(input@, key@) == Ok::<Option<u64>, Seq<char>>(number),
            Err(error) => hex_field(input@, key@) is Err && is_field_error(
                error,
                key@,
                hex_field(input@, key@)->Err_0,
            ),
        },
{
    let token = match parse_token(input, key) {
        Some(token) => token,
        None => {
            return Ok(None);
        },
    };
    let text = chars_of(token);
    let lower: Vec<char> = vec!['0', 'x'];
    let upper: Vec<char> = vec!['0', 'X'];
    assert(lower@ =~= seq!['0', 'x']);
    assert(upper@ =~= seq!['0', 'X']);
    assert(text@.skip(0) =~= text@);
    let unprefixed: usize = skip_repeated(&text, 0, &lower);
    let start: usize = skip_repeated(&text, unprefixed, &upper);
    match hex_number_from(&text, start) {
        Some(number) => Ok(Some(number)),
        None => {
            let value = token.substring_char(start, text.len()).to_owned();
            assert(value@ =~= text@.skip(start as int));
            Err(RecoveryError::InvalidDescriptorField { field: key, value })
        },
    }
}

fn truncated(number: Option<u64>) -> (word: Option<u32>)
    ensures
        word == low_word(number),
{
    match number {
        Some(number) => {
            assert(number as u32 == number % 0x1_0000_0000) by (bit_vector);
            Some(
                #[verifier::truncate]
                (number as u32),
            )
        },
        None => None,
    }
}

/// Reads the field `key` as a hexadecimal number and keeps its low 32 bits.
pub fn parse_hex_u32(input: &str, key: &'static str) -> (field: Result<Option<u32>, RecoveryError>)
    ensures
        match field {
            Ok(number) => hex_field(input@, key@) is Ok && number == low_word(
                hex_field(input@, key@)->Ok_0,
            ),
            Err(error) => hex_field(input@, key@) is Err && is_field_error(
                error,
                key@,
                hex_field(input@, key@)->Err_0,
            ),
        },
{
    match parse_hex_u64(input, key) {
        Ok(number) => Ok(truncated(number)),
        Err(error) => Err(error),
    }
}

} // verus!
