use irecovery::descriptor::{
    looks_like_iboot_descriptor, parse_bracketed, parse_hex_u32, parse_hex_u64, parse_token,
};
use irecovery::{RecoveryDeviceInfo, RecoveryError};

const FULL_DESCRIPTOR: &str = "CPID:8015 CPRV:11 CPFM:03 SCEP:01 BDID:06 ECID:0011223344556677 IBFL:1C SRNM:[F2LTEST12345] IMEI:[356000000000000] SRTG:[d22ap]";

#[test]
fn parses_full_iboot_descriptor() {
    let info = RecoveryDeviceInfo::parse(FULL_DESCRIPTOR, 0x1281).unwrap();

    assert_eq!(info.pid, 0x1281);
    assert_eq!(info.cpid, Some(0x8015));
    assert_eq!(info.cprv, Some(0x11));
    assert_eq!(info.cpfm, Some(0x03));
    assert_eq!(info.scep, Some(0x01));
    assert_eq!(info.bdid, Some(0x06));
    assert_eq!(info.ecid, Some(0x0011_2233_4455_6677));
    assert_eq!(info.ibfl, Some(0x1c));
    assert_eq!(info.srnm.as_deref(), Some("F2LTEST12345"));
    assert_eq!(info.imei.as_deref(), Some("356000000000000"));
    assert_eq!(info.srtg.as_deref(), Some("d22ap"));
}

#[test]
fn parses_missing_fields_as_none() {
    let info = RecoveryDeviceInfo::parse("CPID:8015 ECID:abc", 0x1281).unwrap();

    assert_eq!(info.cpid, Some(0x8015));
    assert_eq!(info.ecid, Some(0xabc));
    assert_eq!(info.bdid, None);
    assert_eq!(info.srnm, None);
}

#[test]
fn rejects_malformed_hex() {
    let error = RecoveryDeviceInfo::parse("CPID:not-hex ECID:1234", 0x1281).unwrap_err();

    assert!(matches!(
        error,
        RecoveryError::InvalidDescriptorField { field: "CPID", .. }
    ));
}

#[test]
fn parses_lowercase_and_prefixed_hex() {
    let info = RecoveryDeviceInfo::parse("CPID:0x8015 BDID:0x0a ECID:deadbeef", 0x1281).unwrap();

    assert_eq!(info.cpid, Some(0x8015));
    assert_eq!(info.bdid, Some(0x0a));
    assert_eq!(info.ecid, Some(0xdead_beef));
}

#[test]
fn parse_bracketed_stops_at_closing_bracket() {
    let info =
        RecoveryDeviceInfo::parse("ECID:1 SRNM:[ABC 123] SRTG:[d22ap] EXTRA:ignored", 0x1281)
            .unwrap();

    assert_eq!(info.srnm.as_deref(), Some("ABC 123"));
    assert_eq!(info.srtg.as_deref(), Some("d22ap"));
}

#[test]
fn parse_takes_an_owned_string_and_keeps_it() {
    let info = RecoveryDeviceInfo::parse(String::from("ECID:7f"), 0x1227).unwrap();

    assert_eq!(info.serial_string, "ECID:7f");
    assert_eq!(info.pid, 0x1227);
    assert_eq!(info.ecid, Some(0x7f));
}

#[test]
fn parse_of_a_plain_serial_number_says_nothing() {
    let info = RecoveryDeviceInfo::parse("F2LTEST12345", 0x1281).unwrap();

    assert_eq!(
        info,
        RecoveryDeviceInfo {
            serial_string: "F2LTEST12345".to_owned(),
            pid: 0x1281,
            ..RecoveryDeviceInfo::default()
        }
    );
}

#[test]
fn parse_reports_the_first_bad_field() {
    let error = RecoveryDeviceInfo::parse("IBFL:zz ECID:0x0xgg CPID:1", 0).unwrap_err();

    match error {
        RecoveryError::InvalidDescriptorField { field, value } => {
            assert_eq!(field, "ECID");
            assert_eq!(value, "gg");
        }
        other => panic!("unexpected error: {other:?}"),
    }
}

#[test]
fn numbers_wider_than_a_word_keep_their_low_bits() {
    let info = RecoveryDeviceInfo::parse("CPID:1234567890 BDID:fedcba9876543210", 0).unwrap();

    assert_eq!(info.cpid, Some(0x3456_7890));
    assert_eq!(info.bdid, Some(0x7654_3210));
}

#[test]
fn sixty_four_bits_are_the_limit() {
    assert_eq!(
        parse_hex_u64("ECID:ffffffffffffffff", "ECID").unwrap(),
        Some(u64::MAX)
    );
    assert_eq!(
        parse_hex_u64("ECID:0000ffffffffffffffff", "ECID").unwrap(),
        Some(u64::MAX)
    );
    assert!(matches!(
        parse_hex_u64("ECID:10000000000000000", "ECID"),
        Err(RecoveryError::InvalidDescriptorField { field: "ECID", .. })
    ));
}

#[test]
fn signs_and_prefixes_of_numbers() {
    assert_eq!(parse_hex_u64("ECID:+1f", "ECID").unwrap(), Some(0x1f));
    assert_eq!(parse_hex_u64("ECID:0x0x0X0X1f", "ECID").unwrap(), Some(0x1f));
    assert!(parse_hex_u64("ECID:-1", "ECID").is_err());
    assert!(parse_hex_u64("ECID:+", "ECID").is_err());
    assert!(parse_hex_u64("ECID:0x", "ECID").is_err());
    assert!(parse_hex_u64("ECID:++1", "ECID").is_err());
    assert!(parse_hex_u64("ECID:0X0x1", "ECID").is_err());
}

#[test]
fn number_case_does_not_matter() {
    assert_eq!(
        parse_hex_u32("CPID:DeadBeef", "CPID").unwrap(),
        parse_hex_u32("CPID:dEADbEEF", "CPID").unwrap()
    );
    assert_eq!(
        parse_hex_u32("CPID:DeadBeef", "CPID").unwrap(),
        Some(0xdead_beef)
    );
}

#[test]
fn tokens_are_words() {
    assert_eq!(parse_token("CPID: \t 8015 x", "CPID"), Some("8015"));
    assert_eq!(parse_token("CPID:\u{a0}\u{3000}a\u{2003}b", "CPID"), Some("a"));
    assert_eq!(parse_token("CPID:   ", "CPID"), None);
    assert_eq!(parse_token("CPID:", "CPID"), None);
    assert_eq!(parse_token("BDID:1", "CPID"), None);
    assert_eq!(parse_token("xCPID:1 CPID:2", "CPID"), Some("1"));
    assert_eq!(parse_token("\u{e9}\u{1f600} CPID:\u{df}z \u{e9}", "CPID"), Some("\u{df}z"));
}

#[test]
fn every_white_space_character_ends_a_token() {
    for code in 0..0x11_0000u32 {
        if let Some(c) = char::from_u32(code) {
            if c.is_whitespace() || code < 0x300 {
                let text = format!("K:a{c}b");
                assert_eq!(
                    parse_token(&text, "K"),
                    text[2..].split_whitespace().next(),
                    "U+{code:04X}"
                );
            }
        }
    }
}

#[test]
fn bracketed_fields() {
    assert_eq!(parse_bracketed("SRNM:[]", "SRNM").as_deref(), Some(""));
    assert_eq!(parse_bracketed("SRNM:[a[b]c]", "SRNM").as_deref(), Some("a[b"));
    assert_eq!(parse_bracketed("SRNM:[open", "SRNM"), None);
    assert_eq!(parse_bracketed("SRNM:x]", "SRNM"), None);
    assert_eq!(
        parse_bracketed("] SRNM:[\u{e9}\u{1f600}] ]", "SRNM").as_deref(),
        Some("\u{e9}\u{1f600}")
    );
}

#[test]
fn a_written_number_is_read_back() {
    for n in [0u64, 1, 0xf, 0x10, 0xdead_beef, u64::MAX] {
        let plain = format!("CPID:1 ECID:{n:x} BDID:2");
        let prefixed = format!("CPID:1 ECID:{n:#x}");
        assert_eq!(parse_hex_u64(&plain, "ECID").unwrap(), Some(n));
        assert_eq!(parse_hex_u64(&prefixed, "ECID").unwrap(), Some(n));
    }
}

#[test]
fn a_number_is_read_back_in_any_spelling() {
    for n in [0u64, 0xa, 0xdead_beef, 0x0011_2233_aabb_ccdd, u64::MAX] {
        for text in [
            format!("ECID:{n:X}"),
            format!("CPID:1 ECID:0x{n:X} BDID:2"),
            format!("ECID:0X{n:X}"),
            format!("ECID:0X{n:x}"),
            format!("ECID: \t{n:X}\nBDID:2"),
            format!("ECID:0x{n:032X}"),
            format!("ECID:{n:020x} "),
        ] {
            assert_eq!(parse_hex_u64(&text, "ECID").unwrap(), Some(n), "{text}");
        }
    }
    assert_eq!(
        parse_hex_u64("ECID:0xDeAdBeEf", "ECID").unwrap(),
        Some(0xdead_beef)
    );
    assert!(matches!(
        parse_hex_u64("ECID:0X1FFFFFFFFFFFFFFFF", "ECID"),
        Err(RecoveryError::InvalidDescriptorField { field: "ECID", value })
            if value == "1FFFFFFFFFFFFFFFF"
    ));
}

#[test]
fn marks_of_a_descriptor() {
    assert!(looks_like_iboot_descriptor(FULL_DESCRIPTOR));
    assert!(looks_like_iboot_descriptor("xBDID:"));
    assert!(looks_like_iboot_descriptor("CPID:"));
    assert!(looks_like_iboot_descriptor("ECID:1"));
    assert!(!looks_like_iboot_descriptor("ECID"));
    assert!(!looks_like_iboot_descriptor("ecid:1"));
    assert!(!looks_like_iboot_descriptor("SRTG:[d22ap]"));
    assert!(!looks_like_iboot_descriptor(""));
}

#[test]
fn a_copy_of_the_information_is_equal() {
    let info = RecoveryDeviceInfo::parse(FULL_DESCRIPTOR, 0x1281).unwrap();

    assert_eq!(info.clone(), info);
}
