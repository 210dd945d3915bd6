//! Watching recovery devices come and go.

use crate::device::{
    is_recovery_usb_device, list_recovery_devices_with_optional_metadata,
    recovery_device_from_usb_info, DeviceId, RecoveryDevice, UsbDeviceInfo,
};
use crate::error::RecoveryError;
use crate::metadata::DeviceMetadataResolver;
use std::collections::{HashSet, VecDeque};
use vstd::prelude::*;

verus! {

broadcast use vstd::std_specs::hash::group_hash_axioms;

/// Hotplug events for recovery-family devices.
#[derive(Debug)]
pub enum RecoveryEvent {
    Connected(RecoveryDevice),
    Disconnected(DeviceId),
}

impl Clone for RecoveryEvent {
    fn clone(&self) -> (copy: RecoveryEvent)
        ensures
            copy == *self,
    {
        match self {
            RecoveryEvent::Connected(device) => RecoveryEvent::Connected(device.clone()),
            RecoveryEvent::Disconnected(id) => RecoveryEvent::Disconnected(*id),
        }
    }
}

/// Hotplug events for any USB device.
#[derive(Debug)]
pub enum HotplugEvent {
    Connected(UsbDeviceInfo),
    Disconnected(DeviceId),
}

/// What a look at the hotplug source gave.
#[derive(Debug)]
pub enum SourcePoll {
    /// An event.
    Event(HotplugEvent),
    /// There will be no more events.
    Ended,
    /// There is no event yet.
    Pending,
}

/// What a watch has to say.
#[derive(Debug)]
pub enum WatchPoll {
    /// The next item of the watch.
    Item(Result<RecoveryEvent, RecoveryError>),
    /// The watch has ended.
    Ended,
    /// There is no item yet.
    Pending,
    /// Look at the hotplug source and hand over what it gave.
    PollSource,
}

/// A watch whose hotplug source is running, but that does not know the devices
/// that are connected already.
pub struct UnseededWatch<'a, R: DeviceMetadataResolver + ?Sized> {
    pub metadata_resolver: Option<&'a R>,
}

/// A watch over the recovery devices.
pub struct RecoveryDeviceWatch<'a, R: DeviceMetadataResolver + ?Sized> {
    /// The devices that were reported as connected, and not as disconnected
    /// since.
    pub known_ids: HashSet<u64>,
    /// The items that come before any hotplug event.
    pub pending: VecDeque<Result<RecoveryEvent, RecoveryError>>,
    /// The resolver to ask about a connected device.
    pub metadata_resolver: Option<&'a R>,
}

/// The ids of the devices.
pub open spec fn ids_of(devices: Seq<RecoveryDevice>) -> Set<u64> {
    Set::new(|id: u64| exists|i: int| 0 <= i < devices.len() && (#[trigger] devices[i]).id.0 == id)
}

/// `pending` reports every one of `devices` as connected, in order.
pub open spec fn reports_connected(
    pending: Seq<Result<RecoveryEvent, RecoveryError>>,
    devices: Seq<RecoveryDevice>,
) -> bool {
    &&& pending.len() == devices.len()
    &&& forall|i: int|
        0 <= i < devices.len() ==> #[trigger] pending[i] == Ok::<RecoveryEvent, RecoveryError>(
            RecoveryEvent::Connected(devices[i]),
        )
}

/// The watch starts from the recovery devices among `enumerated`.
pub open spec fn is_seeded<'a, R: DeviceMetadataResolver + ?Sized>(
    watch: RecoveryDeviceWatch<'a, R>,
    enumerated: Seq<UsbDeviceInfo>,
) -> bool {
    exists|devices: Seq<RecoveryDevice>| #[trigger]
        crate::device::lists(devices, enumerated, watch.metadata_resolver) && watch.known_ids@
            == ids_of(devices) && reports_connected(watch.pending@, devices)
}

/// The known devices after a hotplug event.
pub open spec fn known_after(known: Set<u64>, event: HotplugEvent) -> Set<u64> {
    match event {
        HotplugEvent::Connected(info) => if crate::device::is_recovery(info) {
            known.insert(info.id.0)
        } else {
            known
        },
        HotplugEvent::Disconnected(id) => known.remove(id.0),
    }
}

/// That a device came or went, by its id.
pub enum Report {
    Connected(u64),
    Disconnected(u64),
}

/// What a watch that knows these devices reports of a hotplug event.
pub open spec fn reported(known: Set<u64>, event: HotplugEvent) -> Option<Report> {
    match event {
        HotplugEvent::Connected(info) => if crate::device::is_recovery(info) {
            Some(Report::Connected(info.id.0))
        } else {
            None
        },
        HotplugEvent::Disconnected(id) => if known.contains(id.0) {
            Some(Report::Disconnected(id.0))
        } else {
            None
        },
    }
}

/// The report that a poll of the watch gives.
pub open spec fn report_of(poll: WatchPoll) -> Option<Report> {
    match poll {
        WatchPoll::Item(Ok(RecoveryEvent::Connected(device))) => Some(
            Report::Connected(device.id.0),
        ),
        WatchPoll::Item(Ok(RecoveryEvent::Disconnected(id))) => Some(Report::Disconnected(id.0)),
        _ => None,
    }
}

/// `before` gives the first of its pending items and goes on as `after`; without
/// one it asks for the hotplug source and stays as it is.
pub open spec fn gives_pending<'a, R: DeviceMetadataResolver + ?Sized>(
    before: RecoveryDeviceWatch<'a, R>,
    after: RecoveryDeviceWatch<'a, R>,
    poll: WatchPoll,
) -> bool {
    &&& after.known_ids@ == before.known_ids@
    &&& after.metadata_resolver == before.metadata_resolver
    &&& if before.pending@.len() > 0 {
        &&& poll == WatchPoll::Item(before.pending@[0])
        &&& after.pending@ == before.pending@.skip(1)
    } else {
        &&& poll == WatchPoll::PollSource
        &&& after.pending@ == before.pending@
    }
}

/// `before` gives `poll` for what the hotplug source gave, and goes on as
/// `after`.
pub open spec fn gives_source<'a, R: DeviceMetadataResolver + ?Sized>(
    before: RecoveryDeviceWatch<'a, R>,
    source: SourcePoll,
    after: RecoveryDeviceWatch<'a, R>,
    poll: WatchPoll,
) -> bool {
    &&& after.pending@ == before.pending@
    &&& after.metadata_resolver == before.metadata_resolver
    &&& match source {
        SourcePoll::Event(event) => after.known_ids@ == known_after(before.known_ids@, event)
            && report_of(poll) == reported(before.known_ids@, event),
        _ => after.known_ids@ == before.known_ids@,
    }
    &&& match source {
        SourcePoll::Event(HotplugEvent::Connected(info)) => if crate::device::is_recovery(info) {
            poll matches WatchPoll::Item(Ok(RecoveryEvent::Connected(device)))
                && crate::device::describes(device, info, before.metadata_resolver)
        } else {
            poll == WatchPoll::PollSource
        },
        SourcePoll::Event(HotplugEvent::Disconnected(id)) => poll
            == (if before.known_ids@.contains(id.0) {
            WatchPoll::Item(Ok(RecoveryEvent::Disconnected(id)))
        } else {
            WatchPoll::PollSource
        }),
        SourcePoll::Ended => poll == WatchPoll::Ended,
        SourcePoll::Pending => poll == WatchPoll::Pending,
    }
}

/// Watch recovery-family device connect/disconnect events.
///
/// `started` says whether the hotplug source is running. The devices that are
/// connected already are enumerated only after that, so that none is missed.
pub fn watch_recovery_devices(started: Result<(), nusb::Error>) -> (watch: Result<
    UnseededWatch<'static, dyn DeviceMetadataResolver>,
    RecoveryError,
>)
    ensures
        match started {
            Ok(_) => watch matches Ok(watch) && watch.metadata_resolver is None,
            Err(error) => watch == Err::<
                UnseededWatch<'static, dyn DeviceMetadataResolver>,
                RecoveryError,
            >(RecoveryError::Usb(error)),
        },
{
    start_watch(started, None)
}

/// Watch recovery-family device connect/disconnect events with metadata.
pub fn watch_recovery_devices_with_metadata<'a, R: DeviceMetadataResolver + ?Sized>(
    started: Result<(), nusb::Error>,
    metadata_resolver: &'a R,
) -> (watch: Result<UnseededWatch<'a, R>, RecoveryError>)
    ensures
        match started {
            Ok(_) => watch matches Ok(watch) && watch.metadata_resolver == Some(metadata_resolver),
            Err(error) => watch == Err::<UnseededWatch<'a, R>, RecoveryError>(
                RecoveryError::Usb(error),
            ),
        },
{
    start_watch(started, Some(metadata_resolver))
}

fn start_watch<'a, R: DeviceMetadataResolver + ?Sized>(
    started: Result<(), nusb::Error>,
    metadata_resolver: Option<&'a R>,
) -> (watch: Result<UnseededWatch<'a, R>, RecoveryError>)
    ensures
        match started {
            Ok(_) => watch matches Ok(watch) && watch.metadata_resolver == metadata_resolver,
            Err(error) => watch == Err::<UnseededWatch<'a, R>, RecoveryError>(
                RecoveryError::Usb(error),
            ),
        },
{
    match started {
        Ok(_) => Ok(UnseededWatch { metadata_resolver }),
        Err(error) => Err(RecoveryError::from(error)),
    }
}

impl<'a, R: DeviceMetadataResolver + ?Sized> UnseededWatch<'a, R> {
    /// Starts the watch from the devices that are connected already.
    pub fn seed(self, enumerated: Result<Vec<UsbDeviceInfo>, nusb::Error>) -> (watch: Result<
        RecoveryDeviceWatch<'a, R>,
        RecoveryError,
    >)
        ensures
            match enumerated {
                Ok(devices) => watch matches Ok(watch) && watch.metadata_resolver
                    == self.metadata_resolver && is_seeded(watch, devices@),
                Err(error) => watch == Err::<RecoveryDeviceWatch<'a, R>, RecoveryError>(
                    RecoveryError::Usb(error),
                ),
            },
    {
        let devices = list_recovery_devices_with_optional_metadata(
            enumerated,
            self.metadata_resolver,
        )?;
        let ghost all = devices@;
        let mut known_ids: HashSet<u64> = HashSet::new();
        let mut pending: VecDeque<Result<RecoveryEvent, RecoveryError>> = VecDeque::new();
        assert(known_ids@ =~= ids_of(all.take(0)));
        for device in iter: devices
            invariant
                iter.seq() == all,
                known_ids@ == ids_of(all.take(iter.index() as int)),
                reports_connected(pending@, all.take(iter.index() as int)),
        {
            let ghost i = iter.index() as int;
            let ghost before = all.take(i);
            let ghost after = all.take(i + 1);
            known_ids.insert(device.id.0);
            pending.push_back(Ok(RecoveryEvent::Connected(device)));
            proof {
                assert forall|id: u64|
                    ids_of(after).contains(id) == (ids_of(before).contains(id) || id
                        == device.id.0) by {
                    if ids_of(before).contains(id) {
                        let k = choose|k: int|
                            0 <= k < before.len() && (#[trigger] before[k]).id.0 == id;
                        assert(after[k] == before[k]);
                    }
                    if id == device.id.0 {
                        assert(after[i] == device);
                    }
                    if ids_of(after).contains(id) {
                        let k = choose|k: int|
                            0 <= k < after.len() && (#[trigger] after[k]).id.0 == id;
                        if k < i {
                            assert(before[k] == after[k]);
                        }
                    }
                }
                assert(known_ids@ =~= ids_of(after));
            }
        }
        assert(all.take(all.len() as int) =~= all);
        let watch = RecoveryDeviceWatch {
            known_ids,
            pending,
            metadata_resolver: self.metadata_resolver,
        };
        Ok(watch)
    }
}

impl<'a, R: DeviceMetadataResolver + ?Sized> RecoveryDeviceWatch<'a, R> {
    /// The next item that needs no look at the hotplug source.
    pub fn poll(&mut self) -> (poll: WatchPoll)
        ensures
            gives_pending(*old(self), *final(self), poll),
    {
        match self.pending.pop_front() {
            Some(item) => WatchPoll::Item(item),
            None => WatchPoll::PollSource,
        }
    }

    /// Goes on with what the hotplug source gave.
    pub fn source_polled(&mut self, source: SourcePoll) -> (poll: WatchPoll)
        ensures
            gives_source(*old(self), source, *final(self), poll),
    {
        match source {
            SourcePoll::Event(HotplugEvent::Connected(info)) => {
                if !is_recovery_usb_device(&info) {
                    return WatchPoll::PollSource;
                }
                match recovery_device_from_usb_info(info, self.metadata_resolver) {
                    Ok(device) => {
                        self.known_ids.insert(device.id.0);
                        WatchPoll::Item(Ok(RecoveryEvent::Connected(device)))
                    },
                    Err(error) => WatchPoll::Item(Err(error)),
                }
            },
            SourcePoll::Event(HotplugEvent::Disconnected(id)) => {
                if self.known_ids.remove(&id.0) {
                    WatchPoll::Item(Ok(RecoveryEvent::Disconnected(id)))
                } else {
                    assert(self.known_ids@ =~= old(self).known_ids@.remove(id.0));
                    WatchPoll::PollSource
                }
            },
            SourcePoll::Ended => WatchPoll::Ended,
            SourcePoll::Pending => WatchPoll::Pending,
        }
    }
}

} // verus!
