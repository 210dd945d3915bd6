use irecovery::device::{is_recovery_usb_device, recovery_device_from_usb_info};
use irecovery::watch::{HotplugEvent, SourcePoll, WatchPoll};
use irecovery::{
    db, list_recovery_devices, list_recovery_devices_with_metadata, watch_recovery_devices,
    watch_recovery_devices_with_metadata, DeviceId, DeviceMetadataResolver, RecoveryError,
    RecoveryEvent, RecoveryMode, UsbDeviceInfo,
};
use nusb::MaybeFuture;

fn usb(id: u64, vendor_id: u16, product_id: u16, serial: Option<&str>) -> UsbDeviceInfo {
    UsbDeviceInfo {
        id: DeviceId(id),
        vendor_id,
        product_id,
        serial_number: serial.map(str::to_owned),
    }
}

/// What comes of taking an empty pipe for a USB device.
fn usb_error() -> nusb::Error {
    let (reader, _) = std::io::pipe().unwrap();
    match nusb::Device::from_fd(reader.into()).wait() {
        Ok(_) => panic!("a pipe is no USB device"),
        Err(error) => error,
    }
}

#[test]
fn recovery_devices_are_recognized_by_vendor_and_product() {
    assert!(is_recovery_usb_device(&usb(1, 0x05ac, 0x1281, None)));
    assert!(!is_recovery_usb_device(&usb(1, 0x05ad, 0x1281, None)));
    assert!(!is_recovery_usb_device(&usb(1, 0x05ac, 0x1282, None)));
}

#[test]
fn listing_keeps_recovery_devices_in_order() {
    let listed = list_recovery_devices(Ok(vec![
        usb(1, 0x05ac, 0x1227, Some("CPID:8015 ECID:2a SRTG:[d22ap]")),
        usb(2, 0x1234, 0x1281, None),
        usb(3, 0x05ac, 0x9999, None),
        usb(4, 0x05ac, 0x1281, Some("CPID:bad-hex")),
        usb(5, 0x05ac, 0x1881, None),
    ]))
    .unwrap();

    assert_eq!(listed.len(), 3);
    assert_eq!(listed[0].id, DeviceId(1));
    assert_eq!(listed[0].vendor_id, 0x05ac);
    assert_eq!(listed[0].product_id, 0x1227);
    assert_eq!(listed[0].mode, RecoveryMode::Dfu);
    assert_eq!(listed[0].ecid, Some(0x2a));
    assert_eq!(
        listed[0].usb_serial_number.as_deref(),
        Some("CPID:8015 ECID:2a SRTG:[d22ap]")
    );
    assert_eq!(listed[0].device_info.as_ref().unwrap().cpid, Some(0x8015));
    assert_eq!(listed[0].metadata, None);
    assert_eq!(listed[0].hardware_model(), Some("d22ap"));
    assert_eq!(listed[0].display_name(), "Unknown Device");
    assert_eq!(listed[1].id, DeviceId(4));
    assert_eq!(listed[1].usb_serial_number.as_deref(), Some("CPID:bad-hex"));
    assert_eq!(listed[1].device_info, None);
    assert_eq!(listed[1].ecid, None);
    assert_eq!(listed[1].hardware_model(), None);
    assert_eq!(listed[2].mode, RecoveryMode::Kis);
    assert_eq!(listed[2].usb_serial_number, None);
}

#[test]
fn listing_with_metadata_asks_the_resolver() {
    let devices = vec![
        usb(1, 0x05ac, 0x1281, Some("SRTG:[D22AP]")),
        usb(2, 0x05ac, 0x1281, None),
    ];
    let listed = list_recovery_devices_with_metadata(Ok(devices), &db::devices()).unwrap();

    assert_eq!(listed[0].display_name(), "iPhone X");
    assert_eq!(listed[0].hardware_model(), Some("d22ap"));
    assert_eq!(listed[1].metadata, None);
    assert_eq!(listed[0].clone().metadata, listed[0].metadata);
}

#[test]
fn a_failed_enumeration_is_reported() {
    assert!(matches!(
        list_recovery_devices(Err(usb_error())),
        Err(RecoveryError::Usb(_))
    ));
    assert!(matches!(
        list_recovery_devices_with_metadata(Err(usb_error()), &db::devices()),
        Err(RecoveryError::Usb(_))
    ));
}

#[test]
fn other_products_are_no_recovery_devices() {
    let none: Option<&dyn DeviceMetadataResolver> = None;
    assert!(matches!(
        recovery_device_from_usb_info(usb(1, 0x05ac, 0x1234, None), none),
        Err(RecoveryError::NotRecoveryDevice {
            vendor_id: 0x05ac,
            product_id: 0x1234
        })
    ));
    // The vendor does not matter here.
    let device = recovery_device_from_usb_info(usb(1, 0x0001, 0x1222, None), none).unwrap();
    assert_eq!(device.vendor_id, 0x0001);
    assert_eq!(device.mode, RecoveryMode::Wtf);
}

#[test]
fn a_watch_reports_the_connected_devices_first() {
    let mut watch = watch_recovery_devices(Ok(()))
        .unwrap()
        .seed(Ok(vec![
            usb(1, 0x05ac, 0x1281, None),
            usb(2, 0x1234, 0x1281, None),
            usb(3, 0x05ac, 0x1227, None),
        ]))
        .unwrap();

    for id in [1, 3] {
        match watch.poll() {
            WatchPoll::Item(Ok(RecoveryEvent::Connected(device))) => {
                assert_eq!(device.id, DeviceId(id));
            }
            other => panic!("unexpected poll: {other:?}"),
        }
    }
    assert!(matches!(watch.poll(), WatchPoll::PollSource));
    assert!(matches!(
        watch.source_polled(SourcePoll::Event(HotplugEvent::Disconnected(DeviceId(2)))),
        WatchPoll::PollSource
    ));
    assert!(matches!(
        watch.source_polled(SourcePoll::Event(HotplugEvent::Disconnected(DeviceId(3)))),
        WatchPoll::Item(Ok(RecoveryEvent::Disconnected(DeviceId(3))))
    ));
}

#[test]
fn a_watch_follows_hotplug_events() {
    let resolver = db::devices();
    let mut watch = watch_recovery_devices_with_metadata(Ok(()), &resolver)
        .unwrap()
        .seed(Ok(Vec::new()))
        .unwrap();

    assert!(matches!(watch.poll(), WatchPoll::PollSource));
    assert!(matches!(
        watch.source_polled(SourcePoll::Event(HotplugEvent::Connected(usb(
            7, 0x05ac, 0x0001, None
        )))),
        WatchPoll::PollSource
    ));
    match watch.source_polled(SourcePoll::Event(HotplugEvent::Connected(usb(
        8,
        0x05ac,
        0x1281,
        Some("SRTG:[d22ap]"),
    )))) {
        WatchPoll::Item(Ok(event)) => match event.clone() {
            RecoveryEvent::Connected(device) => {
                assert_eq!(device.id, DeviceId(8));
                assert_eq!(device.display_name(), "iPhone X");
            }
            other => panic!("unexpected event: {other:?}"),
        },
        other => panic!("unexpected poll: {other:?}"),
    }
    let disconnect = || SourcePoll::Event(HotplugEvent::Disconnected(DeviceId(8)));
    assert!(matches!(
        watch.source_polled(disconnect()),
        WatchPoll::Item(Ok(RecoveryEvent::Disconnected(DeviceId(8))))
    ));
    assert!(matches!(
        watch.source_polled(disconnect()),
        WatchPoll::PollSource
    ));
    assert!(matches!(
        watch.source_polled(SourcePoll::Pending),
        WatchPoll::Pending
    ));
    assert!(matches!(
        watch.source_polled(SourcePoll::Ended),
        WatchPoll::Ended
    ));
}

#[test]
fn a_watch_that_cannot_start_is_reported() {
    assert!(matches!(
        watch_recovery_devices(Err(usb_error())),
        Err(RecoveryError::Usb(_))
    ));
    assert!(matches!(
        watch_recovery_devices(Ok(())).unwrap().seed(Err(usb_error())),
        Err(RecoveryError::Usb(_))
    ));
    assert!(matches!(
        watch_recovery_devices_with_metadata(Err(usb_error()), &db::devices()),
        Err(RecoveryError::Usb(_))
    ));
}

#[test]
fn a_stream_pairs_connects_and_disconnects() {
    let mut watch = watch_recovery_devices(Ok(()))
        .unwrap()
        .seed(Ok(vec![
            usb(1, 0x05ac, 0x1281, None),
            usb(2, 0x1234, 0x1281, None),
            usb(3, 0x05ac, 0x1227, Some("CPID:bad-hex")),
        ]))
        .unwrap();
    let connect = |id| HotplugEvent::Connected(usb(id, 0x05ac, 0x1281, None));
    let disconnect = |id| HotplugEvent::Disconnected(DeviceId(id));
    let mut events = vec![
        disconnect(2),
        disconnect(3),
        disconnect(3),
        connect(3),
        connect(3),
        HotplugEvent::Connected(usb(4, 0x05ac, 0x9999, None)),
        disconnect(4),
        disconnect(3),
        disconnect(3),
        disconnect(1),
    ]
    .into_iter();
    let mut reports = Vec::new();
    let mut poll = watch.poll();
    loop {
        poll = match poll {
            WatchPoll::Item(Ok(RecoveryEvent::Connected(device))) => {
                reports.push((true, device.id.0));
                watch.poll()
            }
            WatchPoll::Item(Ok(RecoveryEvent::Disconnected(id))) => {
                reports.push((false, id.0));
                watch.poll()
            }
            WatchPoll::PollSource => watch.source_polled(match events.next() {
                Some(event) => SourcePoll::Event(event),
                None => SourcePoll::Ended,
            }),
            WatchPoll::Ended => break,
            other => panic!("unexpected poll: {other:?}"),
        };
    }

    assert_eq!(
        reports,
        vec![
            (true, 1),
            (true, 3),
            (false, 3),
            (true, 3),
            (true, 3),
            (false, 3),
            (false, 1),
        ]
    );
}
