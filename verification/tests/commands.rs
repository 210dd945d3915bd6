use irecovery::client::{begin_command, SequenceStep};
use irecovery::command::{
    command_payload, command_request, setenv_request, validate_env_variable, ControlRequest,
    ControlType, Recipient,
};
use irecovery::ecid::auto_boot_and_reboot_opened;
use irecovery::{
    DeviceId, DeviceMetadata, RecoveryClient, RecoveryDeviceInfo, RecoveryError, RecoveryMode,
    UsbDeviceInfo,
};
use nusb::transfer::TransferError;

fn client() -> RecoveryClient {
    RecoveryClient {
        usb_info: UsbDeviceInfo {
            id: DeviceId(4),
            vendor_id: 0x05ac,
            product_id: 0x1281,
            serial_number: None,
        },
        mode: RecoveryMode::Recovery,
        device_info: RecoveryDeviceInfo::parse("ECID:1 SRTG:[d22ap]", 0x1281).unwrap(),
        metadata: None,
    }
}

fn request(b_request: u8, data: &[u8]) -> ControlRequest {
    ControlRequest {
        control_type: ControlType::Vendor,
        recipient: Recipient::Device,
        request: b_request,
        value: 0,
        index: 0,
        data: data.to_vec(),
        timeout_ms: 10_000,
    }
}

#[test]
fn command_payload_is_nul_terminated() {
    assert_eq!(command_payload("reboot").unwrap(), b"reboot\0");
    assert_eq!(command_payload("").unwrap(), Vec::<u8>::new());
}

#[test]
fn command_payload_rejects_long_commands() {
    let error = command_payload(&"x".repeat(0x100)).unwrap_err();

    assert!(matches!(
        error,
        RecoveryError::CommandTooLong { length: 256 }
    ));
}

#[test]
fn command_payload_rejects_nul_bytes() {
    let error = command_payload("setenv x\0y").unwrap_err();

    assert!(matches!(error, RecoveryError::CommandContainsNul));
}

#[test]
fn env_variable_validation_rejects_bad_names() {
    assert!(validate_env_variable("auto-boot").is_ok());
    assert!(matches!(
        validate_env_variable(""),
        Err(RecoveryError::InvalidEnvironmentVariable(_))
    ));
    assert!(matches!(
        validate_env_variable("auto boot"),
        Err(RecoveryError::InvalidEnvironmentVariable(_))
    ));
    assert!(matches!(
        validate_env_variable("auto\0boot"),
        Err(RecoveryError::InvalidEnvironmentVariable(_))
    ));
}

#[test]
fn command_length_is_counted_in_bytes() {
    assert_eq!(command_payload(&"x".repeat(0xff)).unwrap().len(), 0x100);
    assert_eq!(command_payload(&"\u{e9}".repeat(127)).unwrap().len(), 255);
    assert!(matches!(
        command_payload(&"\u{e9}".repeat(128)),
        Err(RecoveryError::CommandTooLong { length: 256 })
    ));
    assert!(matches!(
        command_payload(&"\0".repeat(300)),
        Err(RecoveryError::CommandTooLong { length: 300 })
    ));
}

#[test]
fn variable_names_hold_no_ascii_white_space() {
    for byte in 0..=0x7fu8 {
        let name = format!("a{}", byte as char);
        let forbidden = byte == 0 || byte.is_ascii_whitespace();
        assert_eq!(validate_env_variable(&name).is_err(), forbidden, "{byte:#x}");
    }
    assert!(validate_env_variable("a\u{a0}b").is_ok());
    match validate_env_variable("a b") {
        Err(RecoveryError::InvalidEnvironmentVariable(name)) => assert_eq!(name, "a b"),
        other => panic!("unexpected result: {other:?}"),
    }
}

#[test]
fn commands_become_control_transfers() {
    let client = client();

    assert_eq!(
        client.send_command_raw("go", 7).unwrap(),
        Some(request(7, b"go\0"))
    );
    assert_eq!(command_request("go", 7).unwrap(), Some(request(7, b"go\0")));
    assert_eq!(client.send_command_raw("", 7).unwrap(), None);
    assert_eq!(client.send_command("go").unwrap(), Some(request(0, b"go\0")));
    assert_eq!(client.saveenv().unwrap(), Some(request(0, b"saveenv\0")));
    assert_eq!(client.reboot().unwrap(), Some(request(0, b"reboot\0")));
    assert!(matches!(
        client.send_command("a\0"),
        Err(RecoveryError::CommandContainsNul)
    ));
}

#[test]
fn setenv_frames_the_variable_and_the_value() {
    let client = client();

    assert_eq!(
        client.setenv("auto-boot", "true").unwrap(),
        Some(request(0, b"setenv auto-boot true\0"))
    );
    assert_eq!(
        setenv_request("x", "").unwrap(),
        Some(request(0, b"setenv x \0"))
    );
    assert_eq!(
        setenv_request("x", "a b").unwrap(),
        Some(request(0, b"setenv x a b\0"))
    );
}

#[test]
fn setenv_refusals() {
    assert!(matches!(
        setenv_request("a b", "\0"),
        Err(RecoveryError::InvalidEnvironmentVariable(_))
    ));
    assert!(matches!(
        setenv_request("a", &"\0".repeat(400)),
        Err(RecoveryError::CommandContainsNul)
    ));
    assert!(setenv_request("a", &"v".repeat(246)).is_ok());
    assert!(matches!(
        setenv_request("a", &"v".repeat(247)),
        Err(RecoveryError::CommandTooLong { length: 256 })
    ));
}

fn run(mut step: SequenceStep, outcomes: &[Result<(), TransferError>]) -> (Vec<Vec<u8>>, Result<(), RecoveryError>) {
    let mut sent = Vec::new();
    loop {
        match step {
            SequenceStep::Send(request, rest) => {
                let outcome = outcomes[sent.len()];
                sent.push(request.data);
                step = rest.sent(outcome);
            }
            SequenceStep::Done(result) => return (sent, result),
        }
    }
}

#[test]
fn auto_boot_sends_three_commands() {
    let (sent, result) = run(
        client().set_auto_boot_and_reboot().unwrap(),
        &[Ok(()), Ok(()), Ok(())],
    );

    assert!(result.is_ok());
    assert_eq!(
        sent,
        vec![
            b"setenv auto-boot true\0".to_vec(),
            b"saveenv\0".to_vec(),
            b"reboot\0".to_vec(),
        ]
    );
}

#[test]
fn auto_boot_stops_at_the_first_failure() {
    let (sent, result) = run(
        auto_boot_and_reboot_opened(Ok(client())),
        &[Ok(()), Err(TransferError::Stall), Ok(())],
    );

    assert_eq!(
        sent,
        vec![b"setenv auto-boot true\0".to_vec(), b"saveenv\0".to_vec()]
    );
    assert!(matches!(
        result,
        Err(RecoveryError::Transfer(TransferError::Stall))
    ));
}

#[test]
fn auto_boot_without_a_device_sends_nothing() {
    let (sent, result) = run(
        auto_boot_and_reboot_opened(Err(RecoveryError::MissingDeviceInfo)),
        &[],
    );

    assert!(sent.is_empty());
    assert!(matches!(result, Err(RecoveryError::MissingDeviceInfo)));
}

#[test]
fn a_single_command_sends_its_transfer_once() {
    let step = begin_command(client().send_command_raw("go", 1));
    match &step {
        SequenceStep::Send(sent, rest) => {
            assert_eq!(*sent, request(1, b"go\0"));
            assert!(rest.requests.is_empty());
        }
        SequenceStep::Done(_) => panic!("the command is to be sent"),
    }
    let (sent, result) = run(step, &[Ok(())]);
    assert_eq!(sent, vec![b"go\0".to_vec()]);
    assert!(result.is_ok());

    let (sent, result) = run(
        begin_command(client().setenv("a", "b")),
        &[Err(TransferError::Disconnected)],
    );
    assert_eq!(sent, vec![b"setenv a b\0".to_vec()]);
    assert!(matches!(
        result,
        Err(RecoveryError::Transfer(TransferError::Disconnected))
    ));
}

#[test]
fn an_empty_or_refused_command_sends_nothing() {
    let (sent, result) = run(begin_command(client().send_command("")), &[]);
    assert!(sent.is_empty());
    assert!(result.is_ok());

    let (sent, result) = run(begin_command(client().send_command("a\0b")), &[]);
    assert!(sent.is_empty());
    assert!(matches!(result, Err(RecoveryError::CommandContainsNul)));
}

#[test]
fn client_getters() {
    let mut client = client();
    assert_eq!(client.mode(), RecoveryMode::Recovery);
    assert_eq!(client.device_info().ecid, Some(1));
    assert_eq!(client.usb_info().id, DeviceId(4));
    assert_eq!(client.metadata(), None);
    assert_eq!(client.hardware_model(), Some("d22ap"));
    assert_eq!(client.display_name(), "Unknown Device");

    let metadata = DeviceMetadata {
        model_identifier: "iPhone10,3",
        board: "board",
        marketing_name: "marketing",
        display_name: "display",
    };
    client.metadata = Some(metadata.clone());
    assert_eq!(client.metadata(), Some(&metadata));
    assert_eq!(client.hardware_model(), Some("board"));
    assert_eq!(client.display_name(), "display");
}

#[test]
fn a_payload_holds_its_command() {
    for command in ["go", "setenv x y", "\u{e9}\u{1f600}"] {
        let mut payload = command_payload(command).unwrap();
        assert_eq!(payload.pop(), Some(0));
        assert!(!payload.contains(&0));
        assert_eq!(String::from_utf8(payload).unwrap(), command);
    }
}

#[test]
fn different_settings_send_different_commands() {
    let data = |variable: &str, value: &str| {
        setenv_request(variable, value).unwrap().unwrap().data
    };

    assert_ne!(data("a", "b c"), data("ab", "c"));
    assert_ne!(data("a", " b"), data("a", "b"));
    assert_eq!(data("a", "b c"), b"setenv a b c\0");
}
