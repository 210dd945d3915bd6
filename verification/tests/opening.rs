use irecovery::ecid::EcidStep;
use irecovery::open::{
    open_recovery_client, read_iboot_descriptor_string, ClaimPolicy, ClaimRequest, ClientStep,
    DescriptorStep, StringRequest,
};
use irecovery::{
    db, init_recovery_device, init_recovery_device_with_metadata, open_by_ecid,
    open_by_ecid_with_metadata, set_auto_boot_and_reboot, DeviceId, DeviceMetadataResolver,
    InitializedRecoveryDevice, RecoveryClient, RecoveryError, RecoveryMode, UsbDeviceInfo,
};
use nusb::transfer::TransferError;
use nusb::{GetDescriptorError, MaybeFuture};

fn usb(id: u64, vendor_id: u16, product_id: u16, serial: Option<&str>) -> UsbDeviceInfo {
    UsbDeviceInfo {
        id: DeviceId(id),
        vendor_id,
        product_id,
        serial_number: serial.map(str::to_owned),
    }
}

/// What comes of taking an empty pipe for a USB device.
fn usb_error() -> nusb::Error {
    let (reader, _) = std::io::pipe().unwrap();
    match nusb::Device::from_fd(reader.into()).wait() {
        Ok(_) => panic!("a pipe is no USB device"),
        Err(error) => error,
    }
}

fn search(
    serial: Option<&str>,
    replies: &[Result<&str, GetDescriptorError>],
) -> (Vec<u8>, Result<String, RecoveryError>) {
    let mut asked = Vec::new();
    let mut step = read_iboot_descriptor_string(serial.map(str::to_owned));
    loop {
        match step {
            DescriptorStep::Read(request, pending) => {
                assert_eq!(
                    request,
                    StringRequest {
                        index: request.index,
                        language_id: 0x0409,
                        timeout_ms: 10_000,
                    }
                );
                let reply = replies[asked.len()].map(str::to_owned);
                asked.push(request.index);
                step = pending.read(reply);
            }
            DescriptorStep::Done(result) => return (asked, result),
        }
    }
}

#[test]
fn a_marked_serial_number_is_the_descriptor() {
    let (asked, found) = search(Some("ECID:1"), &[]);

    assert!(asked.is_empty());
    assert_eq!(found.unwrap(), "ECID:1");
}

#[test]
fn string_descriptors_are_tried_in_order() {
    let failed = Err(GetDescriptorError::Transfer(TransferError::Stall));

    let (asked, found) = search(Some("serial"), &[Ok("CPID:3"), Ok("x"), Ok("x")]);
    assert_eq!(asked, vec![3]);
    assert_eq!(found.unwrap(), "CPID:3");

    let (asked, found) = search(None, &[failed, Ok("BDID:1"), Ok("x")]);
    assert_eq!(asked, vec![3, 1]);
    assert_eq!(found.unwrap(), "BDID:1");

    let (asked, found) = search(None, &[Ok("no"), failed, Ok("ECID:2")]);
    assert_eq!(asked, vec![3, 1, 2]);
    assert_eq!(found.unwrap(), "ECID:2");
}

#[test]
fn the_serial_number_is_the_last_resort() {
    let none = [Ok(""), Ok(""), Err(GetDescriptorError::InvalidDescriptor)];

    let (asked, found) = search(Some("serial"), &none);
    assert_eq!(asked, vec![3, 1, 2]);
    assert_eq!(found.unwrap(), "serial");
    assert!(matches!(
        search(Some(""), &none).1,
        Err(RecoveryError::MissingDeviceInfo)
    ));
    assert!(matches!(
        search(None, &none).1,
        Err(RecoveryError::MissingDeviceInfo)
    ));
}

/// Opens a device whose string descriptors all hold `text` and whose claims
/// succeed as `claims` says, in turn.
fn open<R: DeviceMetadataResolver + ?Sized>(
    mut step: ClientStep<'_, R>,
    policy: ClaimPolicy,
    text: &str,
    claims: &[bool],
) -> (Vec<ClaimRequest>, Result<RecoveryClient, RecoveryError>) {
    let mut claimed = Vec::new();
    loop {
        step = match step {
            ClientStep::Open(opening) => opening.opened(Ok(()), policy),
            ClientStep::Read(_, reading) => reading.read(Ok(text.to_owned())),
            ClientStep::Claim(request, claiming) => {
                let outcome = if claims[claimed.len()] { Ok(()) } else { Err(usb_error()) };
                claimed.push(request);
                claiming.claimed(outcome)
            }
            ClientStep::Done(result) => return (claimed, result),
        };
    }
}

fn claim(detach_kernel_driver: bool) -> ClaimRequest {
    ClaimRequest {
        interface: 0,
        detach_kernel_driver,
    }
}

#[test]
fn opening_gives_a_client() {
    let resolver = db::devices();
    let info = usb(3, 0x05ac, 0x1281, Some("plain"));
    let (claims, client) = open(
        open_recovery_client(info.clone(), Some(&resolver)),
        ClaimPolicy::DetachThenClaim,
        "ECID:5 SRTG:[d22ap]",
        &[true],
    );
    let client = client.unwrap();

    assert_eq!(claims, vec![claim(true)]);
    assert_eq!(client.usb_info, info);
    assert_eq!(client.mode, RecoveryMode::Recovery);
    assert_eq!(client.device_info.ecid, Some(5));
    assert_eq!(client.device_info.serial_string, "ECID:5 SRTG:[d22ap]");
    assert_eq!(client.device_info.pid, 0x1281);
    assert_eq!(client.display_name(), "iPhone X");
}

#[test]
fn a_claim_falls_back_to_one_that_detaches_nothing() {
    let none: Option<&dyn DeviceMetadataResolver> = None;
    let start = || open_recovery_client(usb(3, 0x05ac, 0x1281, Some("ECID:5")), none);

    let (claims, client) = open(start(), ClaimPolicy::DetachThenClaim, "", &[false, true]);
    assert_eq!(claims, vec![claim(true), claim(false)]);
    assert!(client.is_ok());

    let (claims, client) = open(start(), ClaimPolicy::DetachThenClaim, "", &[false, false]);
    assert_eq!(claims, vec![claim(true), claim(false)]);
    assert!(matches!(client, Err(RecoveryError::Usb(_))));

    let (claims, client) = open(start(), ClaimPolicy::ClaimOnly, "", &[false]);
    assert_eq!(claims, vec![claim(false)]);
    assert!(matches!(client, Err(RecoveryError::Usb(_))));
}

#[test]
fn opening_fails_with_the_first_error() {
    let none: Option<&dyn DeviceMetadataResolver> = None;
    let policy = ClaimPolicy::DetachThenClaim;

    assert!(matches!(
        open_recovery_client(usb(3, 0x1234, 0x0001, None), none),
        ClientStep::Done(Err(RecoveryError::NotRecoveryDevice {
            vendor_id: 0x1234,
            product_id: 0x0001
        }))
    ));
    match open_recovery_client(usb(3, 0x05ac, 0x1281, None), none) {
        ClientStep::Open(opening) => assert!(matches!(
            opening.opened(Err(usb_error()), policy),
            ClientStep::Done(Err(RecoveryError::Usb(_)))
        )),
        _ => panic!("the device is to be opened first"),
    }
    assert!(matches!(
        open(
            open_recovery_client(usb(3, 0x05ac, 0x1281, None), none),
            policy,
            "",
            &[]
        )
        .1,
        Err(RecoveryError::MissingDeviceInfo)
    ));
    assert!(matches!(
        open(
            open_recovery_client(usb(3, 0x05ac, 0x1281, None), none),
            policy,
            "ECID:zz",
            &[]
        )
        .1,
        Err(RecoveryError::InvalidDescriptorField { field: "ECID", .. })
    ));
}

/// Runs a search over these enumerations. Each candidate is opened with its
/// own serial number; one without cannot be opened.
fn find<R: DeviceMetadataResolver + ?Sized>(
    mut step: EcidStep<'_, R>,
    enumerations: &[Vec<UsbDeviceInfo>],
) -> (usize, Vec<u64>, Vec<u64>, Result<RecoveryClient, RecoveryError>) {
    let mut listed = 0;
    let mut opened = Vec::new();
    let mut sleeps = Vec::new();
    loop {
        step = match step {
            EcidStep::List(waiting) => {
                listed += 1;
                waiting.listed(match enumerations.get(listed - 1) {
                    Some(devices) => Ok(devices.clone()),
                    None => Err(usb_error()),
                })
            }
            EcidStep::Open(waiting) => {
                opened.push(waiting.usb_info.id.0);
                let client = open(waiting.begin(), ClaimPolicy::ClaimOnly, "", &[true]).1;
                waiting.opened(client)
            }
            EcidStep::Sleep(delay, waiting) => {
                sleeps.push(delay);
                waiting.slept()
            }
            EcidStep::Done(result) => return (listed, opened, sleeps, result),
        };
    }
}

#[test]
fn a_device_is_found_by_its_ecid() {
    let devices = vec![
        usb(1, 0x05ac, 0x1281, Some("ECID:1")),
        usb(2, 0x1234, 0x1281, Some("ECID:2")),
        usb(3, 0x05ac, 0x1227, None),
        usb(4, 0x05ac, 0x1227, Some("ECID:2 SRTG:[d22ap]")),
        usb(5, 0x05ac, 0x1227, Some("ECID:2")),
    ];

    let (listed, opened, sleeps, client) = find(open_by_ecid(2, 1), &[devices.clone()]);
    assert_eq!(listed, 1);
    assert_eq!(opened, vec![1, 3, 4]);
    assert!(sleeps.is_empty());
    let client = client.unwrap();
    assert_eq!(client.usb_info.id, DeviceId(4));
    assert_eq!(client.metadata, None);

    let resolver = db::devices();
    let client = find(open_by_ecid_with_metadata(2, 1, &resolver), &[devices]).3.unwrap();
    assert_eq!(client.display_name(), "iPhone X");
}

#[test]
fn a_search_retries_after_a_delay() {
    let other = vec![usb(1, 0x05ac, 0x1281, Some("ECID:1"))];
    let wanted = vec![usb(9, 0x05ac, 0x1281, Some("ECID:2"))];

    let (listed, opened, sleeps, client) = find(
        open_by_ecid(2, 10),
        &[Vec::new(), other.clone(), wanted],
    );
    assert_eq!(listed, 3);
    assert_eq!(opened, vec![1, 9]);
    assert_eq!(sleeps, vec![500, 500]);
    assert_eq!(client.unwrap().device_info.ecid, Some(2));

    let (listed, _, sleeps, client) = find(open_by_ecid(2, 2), &[other.clone(), other]);
    assert_eq!(listed, 2);
    assert_eq!(sleeps, vec![500]);
    assert!(matches!(
        client,
        Err(RecoveryError::NoMatchingDevice {
            ecid: 2,
            attempts: 2
        })
    ));
}

#[test]
fn no_attempts_count_as_one() {
    let (listed, _, sleeps, client) = find(open_by_ecid(7, 0), &[Vec::new()]);

    assert_eq!(listed, 1);
    assert!(sleeps.is_empty());
    assert!(matches!(
        client,
        Err(RecoveryError::NoMatchingDevice {
            ecid: 7,
            attempts: 1
        })
    ));
}

#[test]
fn a_failed_enumeration_ends_the_search() {
    let (listed, _, _, client) = find(open_by_ecid(7, 5), &[Vec::new()]);

    assert_eq!(listed, 2);
    assert!(matches!(client, Err(RecoveryError::Usb(_))));
}

#[test]
fn initialization_summarizes_the_device() {
    let devices = vec![usb(4, 0x05ac, 0x1227, Some("ECID:2 SRTG:[d22ap]"))];
    let resolver = db::devices();

    let opened = find(init_recovery_device(2, 1).search, &[devices.clone()]).3;
    let device = InitializedRecoveryDevice::from_opened(opened).unwrap();
    assert_eq!(device.mode, RecoveryMode::Dfu);
    assert_eq!(device.device_info.ecid, Some(2));
    assert_eq!(device.metadata, None);
    assert_eq!(device.hardware_model(), Some("d22ap"));

    let opened = find(
        init_recovery_device_with_metadata(2, 1, &resolver).search,
        &[devices],
    )
    .3;
    let device = InitializedRecoveryDevice::from_opened(opened).unwrap();
    assert_eq!(device.display_name(), "iPhone X");

    assert!(matches!(
        InitializedRecoveryDevice::from_opened(find(init_recovery_device(2, 1).search, &[]).3),
        Err(RecoveryError::Usb(_))
    ));
}

#[test]
fn leaving_recovery_searches_first() {
    let devices = vec![usb(4, 0x05ac, 0x1281, Some("ECID:2"))];
    let opened = find(set_auto_boot_and_reboot(2, 3).search, &[devices]).3;

    assert_eq!(opened.unwrap().device_info.ecid, Some(2));
}

#[test]
fn a_found_client_tells_of_its_own_device() {
    let resolver = db::devices();
    let devices = vec![
        usb(1, 0x05ac, 0x1281, Some("ECID:1 SRTG:[d22ap]")),
        usb(2, 0x05ac, 0x1227, Some("ECID:2 CPID:8015 SRTG:[n104ap]")),
        usb(3, 0x05ac, 0x1281, Some("ECID:3 SRTG:[d22ap]")),
    ];
    for (ecid, mode, pid, metadata) in [
        (2, RecoveryMode::Dfu, 0x1227, None),
        (3, RecoveryMode::Recovery, 0x1281, Some("iPhone10,3")),
    ] {
        let step = open_by_ecid_with_metadata(ecid, 2, &resolver);
        let client = find(step, &[vec![], devices.clone()]).3.unwrap();

        assert_eq!(client.device_info.ecid, Some(ecid));
        assert_eq!(client.mode, mode);
        assert_eq!(client.mode.product_id(), Some(pid));
        assert_eq!(client.device_info.pid, pid);
        assert_eq!(client.usb_info.id, DeviceId(ecid));
        assert_eq!(client.metadata, resolver.resolve(&client.device_info));
        assert_eq!(
            client.metadata.map(|metadata| metadata.model_identifier),
            metadata
        );
    }
}
