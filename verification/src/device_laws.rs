//! Which devices are recovery devices, what is said of them, and how they are
//! listed.

use crate::device::{
    is_recovery_usb_device, list_recovery_devices, list_recovery_devices_with_metadata,
    list_recovery_devices_with_optional_metadata, parse_serial_number,
    recovery_device_from_usb_info, RecoveryDevice, UsbDeviceInfo,
};
use crate::error::RecoveryError;
use crate::metadata::DeviceMetadataResolver;
use crate::mode::RecoveryMode;
use vstd::prelude::*;

verus! {

/// The five product IDs of the recovery family, each with its mode.
pub open spec fn family() -> Map<u16, RecoveryMode> {
    map![
        0x1222u16 => RecoveryMode::Wtf,
        0x1227u16 => RecoveryMode::Dfu,
        0x1280u16 => RecoveryMode::Restore,
        0x1281u16 => RecoveryMode::Recovery,
        0x1881u16 => RecoveryMode::Kis,
    ]
}

/// The device is one of Apple's, by its vendor ID, and of the recovery family,
/// by its product ID.
pub open spec fn in_family(info: UsbDeviceInfo) -> bool {
    info.vendor_id == 0x05ac && family().dom().contains(info.product_id)
}

/// A product ID of the family has its mode, and no other has one.
pub proof fn law_modes_of_family(product_id: u16, mode: Option<RecoveryMode>)
    requires
        call_ensures(RecoveryMode::from_product_id, (product_id,), mode),
    ensures
        mode == if family().dom().contains(product_id) {
            Some(family()[product_id])
        } else {
            None
        },
{
}

/// A mode of the family has its product ID; an unknown mode has none.
pub proof fn law_product_ids_of_family(
    mode: RecoveryMode,
    product_id: Option<u16>,
    known: bool,
)
    requires
        call_ensures(RecoveryMode::product_id, (mode,), product_id),
        call_ensures(RecoveryMode::is_known, (mode,), known),
    ensures
        match product_id {
            Some(product_id) => family().dom().contains(product_id) && family()[product_id] == mode,
            None => mode is Unknown,
        },
        known == product_id is Some,
        mode is Unknown ==> product_id is None,
{
}

/// Converting any product ID gives the mode of the family, or the unknown mode
/// that keeps the product ID.
pub proof fn law_conversion_to_modes(product_id: u16, mode: RecoveryMode)
    requires
        call_ensures(<RecoveryMode as From<u16>>::from, (product_id,), mode),
    ensures
        mode == if family().dom().contains(product_id) {
            family()[product_id]
        } else {
            RecoveryMode::Unknown(product_id)
        },
{
}

/// A device is recognized by its vendor ID and its product ID, and by nothing
/// else.
pub proof fn law_recognized_devices(info: &UsbDeviceInfo, recovery: bool)
    requires
        call_ensures(is_recovery_usb_device, (info,), recovery),
    ensures
        recovery == in_family(*info),
{
}

proof fn lemma_in_family(info: UsbDeviceInfo)
    ensures
        crate::device::is_recovery(info) == in_family(info),
{
}

/// `device` says of itself what enumeration said of it, with the mode of its
/// product ID. What it says besides is parsed from its serial number; without
/// one, or if that does not parse, it has neither an ECID nor metadata. The
/// metadata is the resolver's answer on just that information.
pub open spec fn tells_of<R: DeviceMetadataResolver + ?Sized>(
    device: RecoveryDevice,
    usb_info: UsbDeviceInfo,
    resolver: Option<&R>,
) -> bool {
    &&& device.id == usb_info.id
    &&& device.vendor_id == usb_info.vendor_id
    &&& device.product_id == usb_info.product_id
    &&& family().dom().contains(usb_info.product_id)
    &&& device.mode == family()[usb_info.product_id]
    &&& device.usb_serial_number == usb_info.serial_number
    &&& match device.device_info {
        Some(info) => {
            &&& usb_info.serial_number matches Some(serial) && crate::descriptor::parsed(
                serial@,
                usb_info.product_id,
            ) == Ok::<crate::descriptor::DeviceInfoView, (Seq<char>, Seq<char>)>(info@)
            &&& device.ecid == info.ecid
            &&& match resolver {
                Some(resolver) => call_ensures(R::resolve, (resolver, &info), device.metadata),
                None => device.metadata is None,
            }
        },
        None => {
            &&& usb_info.serial_number matches Some(serial) ==> crate::descriptor::parsed(
                serial@,
                usb_info.product_id,
            ) is Err
            &&& device.ecid is None
            &&& device.metadata is None
        },
    }
}

pub(crate) proof fn lemma_tells_of<R: DeviceMetadataResolver + ?Sized>(
    device: RecoveryDevice,
    usb_info: UsbDeviceInfo,
    resolver: Option<&R>,
)
    requires
        crate::device::describes(device, usb_info, resolver),
    ensures
        tells_of(device, usb_info, resolver),
{
}

/// A device of the family becomes a recovery device that tells of it; any other
/// is refused with its two IDs.
pub proof fn law_device_tells_of_usb_info<R: DeviceMetadataResolver + ?Sized>(
    usb_info: UsbDeviceInfo,
    resolver: Option<&R>,
    device: Result<RecoveryDevice, RecoveryError>,
)
    requires
        call_ensures(recovery_device_from_usb_info::<R>, (usb_info, resolver), device),
    ensures
        match device {
            Ok(device) => tells_of(device, usb_info, resolver),
            Err(error) => !family().dom().contains(usb_info.product_id) && error
                == (RecoveryError::NotRecoveryDevice {
                vendor_id: usb_info.vendor_id,
                product_id: usb_info.product_id,
            }),
        },
{
    if let Ok(device) = device {
        lemma_tells_of(device, usb_info, resolver);
    }
}

/// The devices at these places are those of the family, in their order: none is
/// left out, none comes twice.
pub open spec fn are_places(places: Seq<int>, devices: Seq<UsbDeviceInfo>) -> bool {
    &&& forall|i: int|
        0 <= i < places.len() ==> 0 <= #[trigger] places[i] < devices.len() && in_family(
            devices[places[i]],
        )
    &&& forall|i: int, j: int|
        0 <= i < j < places.len() ==> #[trigger] places[i] < #[trigger] places[j]
    &&& forall|k: int|
        0 <= k < devices.len() && in_family(#[trigger] devices[k]) ==> places.contains(k)
}

/// `found` tells, in order, of the devices of the family among `devices`.
pub open spec fn is_listing<R: DeviceMetadataResolver + ?Sized>(
    found: Seq<RecoveryDevice>,
    devices: Seq<UsbDeviceInfo>,
    resolver: Option<&R>,
) -> bool {
    exists|places: Seq<int>| #[trigger]
        are_places(places, devices) && places.len() == found.len() && forall|i: int|
            0 <= i < found.len() ==> tells_of(#[trigger] found[i], devices[places[i]], resolver)
}

/// The places of the recovery devices among `devices`.
pub(crate) proof fn lemma_places(devices: Seq<UsbDeviceInfo>) -> (places: Seq<int>)
    ensures
        are_places(places, devices),
        places.len() == crate::device::recovery_only(devices).len(),
        forall|i: int|
            0 <= i < places.len() ==> crate::device::recovery_only(devices)[i]
                == devices[#[trigger] places[i]],
        forall|i: int|
            0 <= i < places.len() ==> crate::device::recovery_only(
                devices.take(#[trigger] places[i]),
            ).len() == i,
    decreases devices.len(),
{
    reveal(Seq::filter);
    if devices.len() == 0 {
        Seq::empty()
    } else {
        let head = devices.drop_last();
        let last = devices.len() - 1;
        let before = lemma_places(head);
        lemma_in_family(devices[last]);
        assert forall|i: int| 0 <= i < before.len() implies devices.take(#[trigger] before[i])
            =~= head.take(before[i]) by {}
        assert(devices.take(last) =~= head);
        if in_family(devices[last]) {
            let places = before.push(last);
            assert forall|k: int|
                0 <= k < devices.len() && in_family(#[trigger] devices[k]) implies places.contains(
                k,
            ) by {
                if k < last {
                    assert(in_family(head[k]));
                    let i = choose|i: int| 0 <= i < before.len() && before[i] == k;
                    assert(places[i] == k);
                } else {
                    assert(places[before.len() as int] == last);
                }
            }
            assert forall|i: int| 0 <= i < places.len() implies 0 <= #[trigger] places[i]
                < devices.len() && in_family(devices[places[i]]) by {
                if i < before.len() {
                    assert(places[i] == before[i]);
                    assert(head[before[i]] == devices[before[i]]);
                }
            }
            assert forall|i: int, j: int| 0 <= i < j < places.len() implies #[trigger] places[i]
                < #[trigger] places[j] by {
                assert(places[i] == before[i]);
                if j < before.len() {
                    assert(places[j] == before[j]);
                }
            }
            assert forall|i: int| 0 <= i < places.len() implies crate::device::recovery_only(
                devices,
            )[i] == devices[#[trigger] places[i]] by {
                if i < before.len() {
                    assert(places[i] == before[i]);
                }
            }
            assert forall|i: int| 0 <= i < places.len() implies crate::device::recovery_only(
                devices.take(#[trigger] places[i]),
            ).len() == i by {
                if i < before.len() {
                    assert(places[i] == before[i]);
                    assert(devices.take(before[i]) =~= head.take(before[i]));
                }
            }
            places
        } else {
            assert forall|k: int|
                0 <= k < devices.len() && in_family(#[trigger] devices[k]) implies before.contains(
                k,
            ) by {
                assert(in_family(head[k]));
            }
            assert forall|i: int| 0 <= i < before.len() implies crate::device::recovery_only(
                devices,
            )[i] == devices[#[trigger] before[i]] by {
                assert(head[before[i]] == devices[before[i]]);
            }
            before
        }
    }
}

pub(crate) proof fn lemma_is_listing<R: DeviceMetadataResolver + ?Sized>(
    found: Seq<RecoveryDevice>,
    devices: Seq<UsbDeviceInfo>,
    resolver: Option<&R>,
)
    requires
        crate::device::lists(found, devices, resolver),
    ensures
        is_listing(found, devices, resolver),
{
    let places = lemma_places(devices);
    assert forall|i: int| 0 <= i < found.len() implies tells_of(
        #[trigger] found[i],
        devices[places[i]],
        resolver,
    ) by {
        assert(crate::device::describes(
            found[i],
            crate::device::recovery_only(devices)[i],
            resolver,
        ));
        lemma_tells_of(found[i], devices[places[i]], resolver);
    }
}

/// `listed` tells, in order, of the devices of the family that were enumerated;
/// an enumeration that failed is reported.
pub open spec fn is_listed<R: DeviceMetadataResolver + ?Sized>(
    listed: Result<Vec<RecoveryDevice>, RecoveryError>,
    enumerated: Result<Vec<UsbDeviceInfo>, nusb::Error>,
    resolver: Option<&R>,
) -> bool {
    match enumerated {
        Ok(devices) => listed matches Ok(found) && is_listing(found@, devices@, resolver),
        Err(error) => listed == Err::<Vec<RecoveryDevice>, RecoveryError>(
            RecoveryError::Usb(error),
        ),
    }
}

/// Listing devices tells of each of the family, in order and with metadata from
/// the resolver, if there is one.
pub proof fn law_listing<R: DeviceMetadataResolver + ?Sized>(
    enumerated: Result<Vec<UsbDeviceInfo>, nusb::Error>,
    resolver: Option<&R>,
    listed: Result<Vec<RecoveryDevice>, RecoveryError>,
)
    requires
        call_ensures(
            list_recovery_devices_with_optional_metadata::<R>,
            (enumerated, resolver),
            listed,
        ),
    ensures
        is_listed(listed, enumerated, resolver),
{
    if let Ok(devices) = enumerated {
        lemma_is_listing(listed->Ok_0@, devices@, resolver);
    }
}

/// Listing devices with metadata asks the given resolver.
pub proof fn law_listing_with_metadata<R: DeviceMetadataResolver + ?Sized>(
    enumerated: Result<Vec<UsbDeviceInfo>, nusb::Error>,
    resolver: &R,
    listed: Result<Vec<RecoveryDevice>, RecoveryError>,
)
    requires
        call_ensures(list_recovery_devices_with_metadata::<R>, (enumerated, resolver), listed),
    ensures
        is_listed(listed, enumerated, Some(resolver)),
{
    if let Ok(devices) = enumerated {
        lemma_is_listing(listed->Ok_0@, devices@, Some(resolver));
    }
}

/// Listing devices without a resolver gives none of them metadata.
pub proof fn law_listing_without_metadata(
    enumerated: Result<Vec<UsbDeviceInfo>, nusb::Error>,
    listed: Result<Vec<RecoveryDevice>, RecoveryError>,
)
    requires
        call_ensures(list_recovery_devices, (enumerated,), listed),
    ensures
        is_listed::<dyn DeviceMetadataResolver>(listed, enumerated, None),
{
    if let Ok(devices) = enumerated {
        lemma_is_listing::<dyn DeviceMetadataResolver>(listed->Ok_0@, devices@, None);
    }
}

/// What enumeration says of a device is parsed from its serial number.
pub proof fn law_serial_number_is_parsed(
    usb_info: &UsbDeviceInfo,
    info: Option<crate::descriptor::RecoveryDeviceInfo>,
)
    requires
        call_ensures(parse_serial_number, (usb_info,), info),
    ensures
        match usb_info.serial_number {
            Some(serial) => match crate::descriptor::parsed(serial@, usb_info.product_id) {
                Ok(parsed) => info matches Some(info) && info@ == parsed,
                Err(_) => info is None,
            },
            None => info is None,
        },
{
}

} // verus!
