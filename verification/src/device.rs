//! Discovered USB devices and the recovery devices among them.

use crate::descriptor::RecoveryDeviceInfo;
use crate::error::RecoveryError;
use crate::metadata::{
    resolve_optional, select_display_name, select_hardware_model, DeviceMetadata,
    DeviceMetadataResolver,
};
use crate::mode::RecoveryMode;
use vstd::prelude::*;

verus! {

/// Apple's USB vendor ID.
pub const APPLE_VENDOR_ID: u16 = 0x05ac;

/// The number under which a connected USB device is known.
#[derive(Debug, Clone, Copy, PartialEq, Eq, Hash, Structural)]
pub struct DeviceId(pub u64);

/// What enumeration says of a connected USB device.
#[derive(Debug, PartialEq, Eq)]
pub struct UsbDeviceInfo {
    pub id: DeviceId,
    pub vendor_id: u16,
    pub product_id: u16,
    pub serial_number: Option<String>,
}

impl Clone for UsbDeviceInfo {
    fn clone(&self) -> (copy: UsbDeviceInfo)
        ensures
            copy == *self,
    {
        UsbDeviceInfo {
            id: self.id,
            vendor_id: self.vendor_id,
            product_id: self.product_id,
            serial_number: self.serial_number.clone(),
        }
    }
}

/// A discovered recovery-family USB device.
#[derive(Debug)]
pub struct RecoveryDevice {
    pub id: DeviceId,
    pub vendor_id: u16,
    pub product_id: u16,
    pub mode: RecoveryMode,
    pub ecid: Option<u64>,
    pub metadata: Option<DeviceMetadata>,
    pub usb_serial_number: Option<String>,
    pub device_info: Option<RecoveryDeviceInfo>,
}

impl Clone for RecoveryDevice {
    fn clone(&self) -> (copy: RecoveryDevice)
        ensures
            copy == *self,
    {
        RecoveryDevice {
            id: self.id,
            vendor_id: self.vendor_id,
            product_id: self.product_id,
            mode: self.mode,
            ecid: self.ecid,
            metadata: self.metadata.clone(),
            usb_serial_number: self.usb_serial_number.clone(),
            device_info: self.device_info.clone(),
        }
    }
}

impl RecoveryDevice {
    /// The board of the metadata, or else the one that the descriptor names.
    pub fn hardware_model(&self) -> (model: Option<&str>)
        ensures
            crate::descriptor::str_view(model) == crate::metadata::model_of(
                self.metadata,
                match self.device_info {
                    Some(info) => info@.srtg,
                    None => None,
                },
            ),
    {
        select_hardware_model(&self.metadata, self.device_info.as_ref())
    }

    /// The name to show for the device.
    pub fn display_name(&self) -> (name: &str)
        ensures
            name@ == crate::metadata::name_of(self.metadata),
    {
        select_display_name(&self.metadata)
    }
}

/// The device is an Apple device with a product ID of the recovery family.
pub open spec fn is_recovery(info: UsbDeviceInfo) -> bool {
    info.vendor_id == APPLE_VENDOR_ID && crate::mode::mode_of(info.product_id) is Some
}

/// What the serial number of a device says, where it can be parsed.
pub open spec fn info_in_serial(serial: Option<String>, pid: u16) -> Option<
    crate::descriptor::DeviceInfoView,
> {
    match serial {
        Some(serial) => match crate::descriptor::parsed(serial@, pid) {
            Ok(info) => Some(info),
            Err(_) => None,
        },
        None => None,
    }
}

/// What a device says, without its representation.
pub open spec fn info_view(info: Option<RecoveryDeviceInfo>) -> Option<
    crate::descriptor::DeviceInfoView,
> {
    match info {
        Some(info) => Some(info@),
        None => None,
    }
}

/// The metadata is the resolver's answer on the parsed descriptor, or nothing
/// where there is no descriptor to ask about.
pub open spec fn metadata_resolved<R: DeviceMetadataResolver + ?Sized>(
    resolver: Option<&R>,
    info: Option<RecoveryDeviceInfo>,
    metadata: Option<DeviceMetadata>,
) -> bool {
    match info {
        Some(info) => crate::metadata::resolution(resolver, &info, metadata),
        None => metadata is None,
    }
}

/// `device` is the recovery device that `usb_info` stands for.
pub open spec fn describes<R: DeviceMetadataResolver + ?Sized>(
    device: RecoveryDevice,
    usb_info: UsbDeviceInfo,
    resolver: Option<&R>,
) -> bool {
    &&& device.id == usb_info.id
    &&& device.vendor_id == usb_info.vendor_id
    &&& device.product_id == usb_info.product_id
    &&& Some(device.mode) == crate::mode::mode_of(usb_info.product_id)
    &&& device.usb_serial_number == usb_info.serial_number
    &&& info_view(device.device_info) == info_in_serial(
        usb_info.serial_number,
        usb_info.product_id,
    )
    &&& device.ecid == match device.device_info {
        Some(info) => info.ecid,
        None => None,
    }
    &&& metadata_resolved(resolver, device.device_info, device.metadata)
}

/// Whether the device is an Apple recovery-family USB device.
pub fn is_recovery_usb_device(info: &UsbDeviceInfo) -> (recovery: bool)
    ensures
        recovery == is_recovery(*info),
{
    info.vendor_id == APPLE_VENDOR_ID && RecoveryMode::from_product_id(info.product_id).is_some()
}

/// Parses the serial number of an enumerated device; one that does not parse
/// counts as no information.
pub fn parse_serial_number(usb_info: &UsbDeviceInfo) -> (info: Option<RecoveryDeviceInfo>)
    ensures
        info_view(info) == info_in_serial(usb_info.serial_number, usb_info.product_id),
{
    match &usb_info.serial_number {
        Some(serial) => match RecoveryDeviceInfo::parse(serial.as_str(), usb_info.product_id) {
            Ok(info) => Some(info),
            Err(_) => None,
        },
        None => None,
    }
}

/// Puts a recovery device together from what enumeration, the descriptor and
/// the resolver gave.
pub fn assemble_device(
    usb_info: UsbDeviceInfo,
    mode: RecoveryMode,
    device_info: Option<RecoveryDeviceInfo>,
    metadata: Option<DeviceMetadata>,
) -> (device: RecoveryDevice)
    ensures
        device == (RecoveryDevice {
            id: usb_info.id,
            vendor_id: usb_info.vendor_id,
            product_id: usb_info.product_id,
            mode,
            ecid: match device_info {
                Some(info) => info.ecid,
                None => None,
            },
            metadata,
            usb_serial_number: usb_info.serial_number,
            device_info,
        }),
{
    let ecid = match &device_info {
        Some(info) => info.ecid,
        None => None,
    };
    RecoveryDevice {
        id: usb_info.id,
        vendor_id: usb_info.vendor_id,
        product_id: usb_info.product_id,
        mode,
        ecid,
        metadata,
        usb_serial_number: usb_info.serial_number,
        device_info,
    }
}

/// Turns an enumerated device into a recovery device.
pub fn recovery_device_from_usb_info<R: DeviceMetadataResolver + ?Sized>(
    usb_info: UsbDeviceInfo,
    metadata_resolver: Option<&R>,
) -> (device: Result<RecoveryDevice, RecoveryError>)
    ensures
        match device {
            Ok(device) => describes(device, usb_info, metadata_resolver),
            Err(error) => crate::mode::mode_of(usb_info.product_id) is None && error
                == (RecoveryError::NotRecoveryDevice {
                vendor_id: usb_info.vendor_id,
                product_id: usb_info.product_id,
            }),
        },
{
    let mode = match RecoveryMode::from_product_id(usb_info.product_id) {
        Some(mode) => mode,
        None => {
            return Err(
                RecoveryError::NotRecoveryDevice {
                    vendor_id: usb_info.vendor_id,
                    product_id: usb_info.product_id,
                },
            );
        },
    };
    let device_info = parse_serial_number(&usb_info);
    let metadata = match &device_info {
        Some(info) => resolve_optional(metadata_resolver, info),
        None => None,
    };
    Ok(assemble_device(usb_info, mode, device_info, metadata))
}

/// The recovery devices among `devices`, in their order.
pub open spec fn recovery_only(devices: Seq<UsbDeviceInfo>) -> Seq<UsbDeviceInfo> {
    devices.filter(|info: UsbDeviceInfo| is_recovery(info))
}

/// `found` holds, in order, the recovery devices of `devices`.
pub open spec fn lists<R: DeviceMetadataResolver + ?Sized>(
    found: Seq<RecoveryDevice>,
    devices: Seq<UsbDeviceInfo>,
    resolver: Option<&R>,
) -> bool {
    &&& found.len() == recovery_only(devices).len()
    &&& forall|i: int|
        0 <= i < found.len() ==> describes(
            #[trigger] found[i],
            recovery_only(devices)[i],
            resolver,
        )
}

/// Lists the recovery devices of an enumeration, which itself may have failed.
pub fn list_recovery_devices_with_optional_metadata<R: DeviceMetadataResolver + ?Sized>(
    enumerated: Result<Vec<UsbDeviceInfo>, nusb::Error>,
    metadata_resolver: Option<&R>,
) -> (listed: Result<Vec<RecoveryDevice>, RecoveryError>)
    ensures
        match enumerated {
            Ok(devices) => listed matches Ok(found) && lists(
                found@,
                devices@,
                metadata_resolver,
            ),
            Err(error) => listed == Err::<Vec<RecoveryDevice>, RecoveryError>(
                RecoveryError::Usb(error),
            ),
        },
{
    let devices = match enumerated {
        Ok(devices) => devices,
        Err(error) => {
            return Err(RecoveryError::from(error));
        },
    };
    let ghost all = devices@;
    let mut recovery_devices: Vec<RecoveryDevice> = Vec::new();
    for usb_info in iter: devices
        invariant
            iter.seq() == all,
            lists(recovery_devices@, all.take(iter.index() as int), metadata_resolver),
    {
        let ghost i = iter.index() as int;
        proof {
            assert(all.take(i + 1).drop_last() =~= all.take(i));
            reveal(Seq::filter);
        }
        if is_recovery_usb_device(&usb_info) {
            let device = recovery_device_from_usb_info(usb_info, metadata_resolver)?;
            recovery_devices.push(device);
        }
    }
    assert(all.take(all.len() as int) =~= all);
    Ok(recovery_devices)
}

/// List the recovery devices of an enumeration.
pub fn list_recovery_devices(enumerated: Result<Vec<UsbDeviceInfo>, nusb::Error>) -> (listed:
    Result<Vec<RecoveryDevice>, RecoveryError>)
    ensures
        match enumerated {
            Ok(devices) => listed matches Ok(found) && lists::<dyn DeviceMetadataResolver>(
                found@,
                devices@,
                None,
            ),
            Err(error) => listed == Err::<Vec<RecoveryDevice>, RecoveryError>(
                RecoveryError::Usb(error),
            ),
        },
{
    list_recovery_devices_with_optional_metadata::<dyn DeviceMetadataResolver>(enumerated, None)
}

/// List the recovery devices of an enumeration with metadata.
pub fn list_recovery_devices_with_metadata<R: DeviceMetadataResolver + ?Sized>(
    enumerated: Result<Vec<UsbDeviceInfo>, nusb::Error>,
    metadata_resolver: &R,
) -> (listed: Result<Vec<RecoveryDevice>, RecoveryError>)
    ensures
        match enumerated {
            Ok(devices) => listed matches Ok(found) && lists(
                found@,
                devices@,
                Some(metadata_resolver),
            ),
            Err(error) => listed == Err::<Vec<RecoveryDevice>, RecoveryError>(
                RecoveryError::Usb(error),
            ),
        },
{
    list_recovery_devices_with_optional_metadata(enumerated, Some(metadata_resolver))
}

/// A device is a recovery device and connected exactly if it is among the
/// recovery devices.
pub proof fn law_recovery_only(devices: Seq<UsbDeviceInfo>, info: UsbDeviceInfo)
    ensures
        recovery_only(devices).contains(info) <==> devices.contains(info) && is_recovery(info),
    decreases devices.len(),
{
    reveal(Seq::filter);
    if devices.len() > 0 {
        let head = devices.drop_last();
        let last = devices.last();
        law_recovery_only(head, info);
        let listed = recovery_only(devices);
        if recovery_only(head).contains(info) {
            let i = choose|i: int|
                0 <= i < recovery_only(head).len() && recovery_only(head)[i] == info;
            assert(listed[i] == info);
        }
        if is_recovery(last) {
            assert(listed[listed.len() - 1] == last);
        }
        if devices.contains(info) {
            let i = choose|i: int| 0 <= i < devices.len() && devices[i] == info;
            if i < head.len() {
                assert(head[i] == info);
            }
        }
        if head.contains(info) {
            let i = choose|i: int| 0 <= i < head.len() && head[i] == info;
            assert(devices[i] == info);
        }
        assert(devices[devices.len() - 1] == last);
        if listed.contains(info) && info != last {
            let i = choose|i: int| 0 <= i < listed.len() && listed[i] == info;
            assert(recovery_only(head)[i] == info);
        }
    }
}

/// `device` is the recovery device that one of `devices` stands for.
pub open spec fn is_one_of<R: DeviceMetadataResolver + ?Sized>(
    device: RecoveryDevice,
    devices: Seq<UsbDeviceInfo>,
    resolver: Option<&R>,
) -> bool {
    exists|j: int|
        0 <= j < devices.len() && is_recovery(#[trigger] devices[j]) && describes(
            device,
            devices[j],
            resolver,
        )
}

/// The listed devices are the connected recovery devices: none is missing and
/// none is added.
pub proof fn law_listing_is_complete<R: DeviceMetadataResolver + ?Sized>(
    found: Seq<RecoveryDevice>,
    devices: Seq<UsbDeviceInfo>,
    resolver: Option<&R>,
)
    requires
        lists(found, devices, resolver),
    ensures
        forall|j: int|
            0 <= j < devices.len() && is_recovery(#[trigger] devices[j]) ==> exists|i: int|
                0 <= i < found.len() && describes(#[trigger] found[i], devices[j], resolver),
        forall|i: int| 0 <= i < found.len() ==> is_one_of(#[trigger] found[i], devices, resolver),
{
    let wanted = recovery_only(devices);
    assert forall|j: int|
        0 <= j < devices.len() && is_recovery(#[trigger] devices[j]) implies exists|i: int|
        0 <= i < found.len() && describes(#[trigger] found[i], devices[j], resolver) by {
        law_recovery_only(devices, devices[j]);
        let i = choose|i: int| 0 <= i < wanted.len() && wanted[i] == devices[j];
        assert(describes(found[i], wanted[i], resolver));
    }
    assert forall|i: int| 0 <= i < found.len() implies is_one_of(
        #[trigger] found[i],
        devices,
        resolver,
    ) by {
        law_recovery_only(devices, wanted[i]);
        assert(wanted.contains(wanted[i]));
        let j = choose|j: int| 0 <= j < devices.len() && devices[j] == wanted[i];
        assert(is_recovery(devices[j]));
        assert(describes(found[i], wanted[i], resolver));
    }
}

/// Every listed device is an Apple device in the known mode of its product ID.
pub proof fn law_listed_devices_are_recovery<R: DeviceMetadataResolver + ?Sized>(
    found: Seq<RecoveryDevice>,
    devices: Seq<UsbDeviceInfo>,
    resolver: Option<&R>,
    i: int,
)
    requires
        lists(found, devices, resolver),
        0 <= i < found.len(),
    ensures
        found[i].vendor_id == APPLE_VENDOR_ID,
        !(found[i].mode is Unknown),
        crate::mode::product_id_of(found[i].mode) == Some(found[i].product_id),
{
    let wanted = recovery_only(devices);
    law_recovery_only(devices, wanted[i]);
    assert(wanted.contains(wanted[i]));
    assert(describes(found[i], wanted[i], resolver));
}

/// Without a resolver no device has metadata, and every name is unknown.
pub proof fn law_unresolved_names<R: DeviceMetadataResolver + ?Sized>(
    device: RecoveryDevice,
    usb_info: UsbDeviceInfo,
)
    requires
        describes::<R>(device, usb_info, None),
    ensures
        device.metadata is None,
        crate::metadata::name_of(device.metadata) == "Unknown Device"@,
{
}

} // verus!
