use irecovery::descriptor::parse_hex_u64;
use irecovery::render::{device_lines, first_with_ecid, format_optional_hex, target_line};
use irecovery::{list_recovery_devices, DeviceId, RecoveryDevice, RecoveryError, RecoveryMode, UsbDeviceInfo};
use nusb::transfer::TransferError;
use nusb::{GetDescriptorError, MaybeFuture};

fn device(serial: Option<&str>) -> RecoveryDevice {
    list_recovery_devices(Ok(vec![UsbDeviceInfo {
        id: DeviceId(1),
        vendor_id: 0x05ac,
        product_id: 0x1281,
        serial_number: serial.map(str::to_owned),
    }]))
    .unwrap()
    .remove(0)
}

#[test]
fn optional_hex() {
    assert_eq!(format_optional_hex(None), "unknown");
    for n in [0u64, 9, 0xa, 0x10, 0xdead_beef, u64::MAX] {
        assert_eq!(format_optional_hex(Some(n)), format!("{n:#x}"));
    }
}

#[test]
fn lines_about_a_device() {
    assert_eq!(
        device_lines("connected", "DeviceId(7)", &device(Some("ECID:2A SRTG:[d22ap]"))),
        vec![
            "connected id=DeviceId(7) vid=0x05ac pid=0x1281 mode=Recovery ecid=0x2a model=d22ap name=Unknown Device",
            "  serial: ECID:2A SRTG:[d22ap]",
        ]
    );
    assert_eq!(
        device_lines("connected", "x", &device(None)),
        vec!["connected id=x vid=0x05ac pid=0x1281 mode=Recovery ecid=unknown model=unknown name=Unknown Device"]
    );
}

#[test]
fn line_about_a_target() {
    assert_eq!(
        target_line("x", &device(Some("ECID:ff"))),
        "exiting recovery on id=x vid=0x05ac pid=0x1281 mode=Recovery ecid=0xff model=unknown name=Unknown Device"
    );
    assert!(target_line("x", &device(None)).contains(" ecid=0x0 "));
}

#[test]
fn lines_match_standard_formatting() {
    let mut device = device(None);
    for vendor_id in [0u16, 7, 0x10, 0xff, 0x100, 0xfff, 0x1000, 0xffff] {
        for mode in [
            RecoveryMode::Wtf,
            RecoveryMode::Dfu,
            RecoveryMode::Restore,
            RecoveryMode::Kis,
            RecoveryMode::Unknown(0),
            RecoveryMode::Unknown(40961),
        ] {
            device.vendor_id = vendor_id;
            device.mode = mode;
            assert_eq!(
                device_lines("l", "i", &device)[0],
                format!("l id=i vid={vendor_id:#06x} pid=0x1281 mode={mode:?} ecid=unknown model=unknown name=Unknown Device")
            );
        }
    }
}

#[test]
fn the_first_device_with_an_ecid() {
    let devices = vec![device(None), device(Some("ECID:1")), device(Some("ECID:2"))];

    assert_eq!(first_with_ecid(&devices), Some(1));
    assert_eq!(first_with_ecid(&vec![device(None)]), None);
    assert_eq!(first_with_ecid(&Vec::new()), None);
}

#[test]
fn messages_of_errors() {
    let message = |error: RecoveryError| error.message();

    assert_eq!(
        message(RecoveryError::NotRecoveryDevice { vendor_id: 0x5ac, product_id: 1 }),
        "device is not an Apple recovery-family USB device: vid=0x05ac pid=0x0001"
    );
    assert_eq!(
        message(RecoveryError::NoMatchingDevice { ecid: 0xabc, attempts: 10 }),
        "no recovery device with ECID 0xabc found after 10 attempt(s)"
    );
    assert_eq!(
        message(RecoveryError::MissingDeviceInfo),
        "device did not expose a parseable iBoot descriptor string"
    );
    assert_eq!(
        message(RecoveryError::CommandTooLong { length: 256 }),
        "recovery command is too long: 256 bytes, maximum is 255"
    );
    assert_eq!(
        message(RecoveryError::CommandContainsNul),
        "recovery command contains a NUL byte"
    );
    assert_eq!(
        message(RecoveryError::InvalidEnvironmentVariable("a b".to_owned())),
        "environment variable name is empty or contains whitespace/NUL: a b"
    );
    assert_eq!(
        message(RecoveryError::InvalidDescriptorField { field: "CPID", value: "zz".to_owned() }),
        "invalid descriptor field CPID: zz"
    );
    assert_eq!(
        message(RecoveryError::UnsupportedPlatform("claim")),
        "unsupported platform behavior: claim"
    );
}

#[test]
fn messages_of_usb_errors() {
    assert_eq!(
        RecoveryError::from(TransferError::Stall).message(),
        format!("USB transfer failed: {}", TransferError::Stall)
    );
    assert_eq!(
        RecoveryError::from(GetDescriptorError::InvalidDescriptor).message(),
        "USB descriptor read failed: invalid descriptor"
    );

    let (reader, _) = std::io::pipe().unwrap();
    let error = match nusb::Device::from_fd(reader.into()).wait() {
        Ok(_) => panic!("a pipe is no USB device"),
        Err(error) => error,
    };
    let text = format!("USB operation failed: {error}");
    assert_eq!(RecoveryError::from(error).message(), text);
}

#[test]
fn a_shown_ecid_is_read_back() {
    for ecid in [0u64, 0xabc, u64::MAX] {
        let text = format!("ECID:{}", format_optional_hex(Some(ecid)));
        assert_eq!(parse_hex_u64(&text, "ECID").unwrap(), Some(ecid));
    }
}
