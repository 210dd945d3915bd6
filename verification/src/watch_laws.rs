//! What holds of a watch over its whole life, whatever comes and goes.

use crate::device::{RecoveryDevice, UsbDeviceInfo};
use crate::error::RecoveryError;
use crate::metadata::DeviceMetadataResolver;
use crate::watch::{
    watch_recovery_devices, watch_recovery_devices_with_metadata, HotplugEvent,
    RecoveryDeviceWatch, RecoveryEvent, Report, SourcePoll, UnseededWatch, WatchPoll,
};
use vstd::prelude::*;

verus! {

/// The known devices after the first `n` of `events`.
pub open spec fn known_at(known: Set<u64>, events: Seq<HotplugEvent>, n: nat) -> Set<u64>
    decreases n,
{
    if n == 0 {
        known
    } else {
        crate::watch::known_after(known_at(known, events, (n - 1) as nat), events[n - 1])
    }
}

/// What the watch reports of the event with index `i`.
pub open spec fn report_at(known: Set<u64>, events: Seq<HotplugEvent>, i: nat) -> Option<Report> {
    crate::watch::reported(known_at(known, events, i), events[i as int])
}

/// No event from index `from` up to index `to` is reported as a disconnect of
/// the device.
pub open spec fn stays_connected(
    known: Set<u64>,
    events: Seq<HotplugEvent>,
    id: u64,
    from: nat,
    to: nat,
) -> bool {
    forall|i: nat|
        from <= i < to ==> #[trigger] report_at(known, events, i) != Some(Report::Disconnected(id))
}

/// The device was reported as connected by the event with index `at`, and not
/// as disconnected since.
pub open spec fn connected_since(
    known: Set<u64>,
    events: Seq<HotplugEvent>,
    id: u64,
    at: nat,
    n: nat,
) -> bool {
    &&& at < n
    &&& report_at(known, events, at) == Some(Report::Connected(id))
    &&& stays_connected(known, events, id, at + 1, n)
}

/// After any events, the known devices are those that were known before or
/// reported as connected, and not reported as disconnected since.
pub proof fn law_known_devices(known: Set<u64>, events: Seq<HotplugEvent>, id: u64, n: nat)
    requires
        n <= events.len(),
    ensures
        known_at(known, events, n).contains(id) <==> ((known.contains(id) && stays_connected(
            known,
            events,
            id,
            0,
            n,
        )) || exists|at: nat| #[trigger] connected_since(known, events, id, at, n)),
    decreases n,
{
    if n > 0 {
        let last = (n - 1) as nat;
        law_known_devices(known, events, id, last);
        let report = report_at(known, events, last);
        let was_known = known_at(known, events, last).contains(id);
        if report == Some(Report::Connected(id)) {
            assert(connected_since(known, events, id, last, n));
        } else if report == Some(Report::Disconnected(id)) {
            assert(!stays_connected(known, events, id, 0, n));
            assert forall|at: nat| !#[trigger] connected_since(known, events, id, at, n) by {
                if at < last {
                    assert(!stays_connected(known, events, id, at + 1, n));
                }
            }
        } else {
            assert(known_at(known, events, n).contains(id) == was_known);
            if stays_connected(known, events, id, 0, last) {
                assert(stays_connected(known, events, id, 0, n));
            }
            if stays_connected(known, events, id, 0, n) {
                assert(stays_connected(known, events, id, 0, last));
            }
            assert forall|at: nat| #[trigger]
                connected_since(known, events, id, at, n) == connected_since(
                known,
                events,
                id,
                at,
                last,
            ) by {
                if connected_since(known, events, id, at, last) {
                    assert(stays_connected(known, events, id, at + 1, n));
                }
                if connected_since(known, events, id, at, n) {
                    assert(at != last);
                    assert(stays_connected(known, events, id, at + 1, last));
                }
            }
            if exists|at: nat| connected_since(known, events, id, at, last) {
                let at = choose|at: nat| connected_since(known, events, id, at, last);
                assert(connected_since(known, events, id, at, n));
            }
            if exists|at: nat| connected_since(known, events, id, at, n) {
                let at = choose|at: nat| connected_since(known, events, id, at, n);
                assert(connected_since(known, events, id, at, last));
            }
        }
    }
}

/// A disconnect is reported only of a device that was known from the start or
/// reported as connected, and only once for each time.
pub proof fn law_disconnect_follows_connect(
    known: Set<u64>,
    events: Seq<HotplugEvent>,
    id: u64,
    i: nat,
)
    requires
        i < events.len(),
        report_at(known, events, i) == Some(Report::Disconnected(id)),
    ensures
        (known.contains(id) && stays_connected(known, events, id, 0, i)) || exists|at: nat|
            #[trigger] connected_since(known, events, id, at, i),
{
    law_known_devices(known, events, id, i);
}

/// A recovery device that connects and then disconnects is reported both
/// times, and the other known devices stay as they were.
pub proof fn law_connect_then_disconnect(known: Set<u64>, info: UsbDeviceInfo)
    requires
        crate::device::is_recovery(info),
    ensures
        ({
            let connect = HotplugEvent::Connected(info);
            let disconnect = HotplugEvent::Disconnected(info.id);
            let between = crate::watch::known_after(known, connect);
            &&& crate::watch::reported(known, connect) == Some(Report::Connected(info.id.0))
            &&& crate::watch::reported(between, disconnect) == Some(Report::Disconnected(info.id.0))
            &&& crate::watch::known_after(between, disconnect) == known.remove(info.id.0)
        }),
{
    let between = crate::watch::known_after(known, HotplugEvent::Connected(info));
    assert(between.remove(info.id.0) =~= known.remove(info.id.0));
}

/// An event that is not reported changes nothing.
pub proof fn law_unreported_events_change_nothing(known: Set<u64>, event: HotplugEvent)
    ensures
        crate::watch::reported(known, event) is None ==> crate::watch::known_after(known, event)
            == known,
{
    if crate::watch::reported(known, event) is None {
        assert(crate::watch::known_after(known, event) =~= known);
    }
}

/// A fresh watch knows exactly the recovery devices that are connected, and
/// reports each of them.
pub proof fn law_fresh_watch<'a, R: DeviceMetadataResolver + ?Sized>(
    watch: RecoveryDeviceWatch<'a, R>,
    enumerated: Seq<UsbDeviceInfo>,
    id: u64,
)
    requires
        crate::watch::is_seeded(watch, enumerated),
    ensures
        watch.known_ids@.contains(id) <==> exists|j: int|
            0 <= j < enumerated.len() && crate::device::is_recovery(#[trigger] enumerated[j])
                && enumerated[j].id.0 == id,
        watch.known_ids@.contains(id) <==> exists|i: int|
            0 <= i < watch.pending@.len() && crate::watch::report_of(
                WatchPoll::Item(#[trigger] watch.pending@[i]),
            ) == Some(Report::Connected(id)),
{
    let devices = choose|devices: Seq<RecoveryDevice>| #[trigger]
        crate::device::lists(devices, enumerated, watch.metadata_resolver) && watch.known_ids@
            == crate::watch::ids_of(devices) && crate::watch::reports_connected(
            watch.pending@,
            devices,
        );
    crate::device::law_listing_is_complete(devices, enumerated, watch.metadata_resolver);
    if watch.known_ids@.contains(id) {
        let i = choose|i: int| 0 <= i < devices.len() && (#[trigger] devices[i]).id.0 == id;
        assert(watch.pending@[i] == Ok::<RecoveryEvent, RecoveryError>(
            RecoveryEvent::Connected(devices[i]),
        ));
        assert(crate::device::is_one_of(devices[i], enumerated, watch.metadata_resolver));
        let j = choose|j: int|
            0 <= j < enumerated.len() && crate::device::is_recovery(#[trigger] enumerated[j])
                && crate::device::describes(devices[i], enumerated[j], watch.metadata_resolver);
        assert(enumerated[j].id.0 == id);
    }
    if exists|j: int|
        0 <= j < enumerated.len() && crate::device::is_recovery(#[trigger] enumerated[j])
            && enumerated[j].id.0 == id {
        let j = choose|j: int|
            0 <= j < enumerated.len() && crate::device::is_recovery(#[trigger] enumerated[j])
                && enumerated[j].id.0 == id;
        let i = choose|i: int|
            0 <= i < devices.len() && crate::device::describes(
                #[trigger] devices[i],
                enumerated[j],
                watch.metadata_resolver,
            );
        assert(devices[i].id.0 == id);
    }
    if exists|i: int|
        0 <= i < watch.pending@.len() && crate::watch::report_of(
            WatchPoll::Item(#[trigger] watch.pending@[i]),
        ) == Some(Report::Connected(id)) {
        let i = choose|i: int|
            0 <= i < watch.pending@.len() && crate::watch::report_of(
                WatchPoll::Item(#[trigger] watch.pending@[i]),
            ) == Some(Report::Connected(id));
        assert(devices[i].id.0 == id);
    }
}

/// A stretch of a watch's life: the watch before and after each call, what the
/// call was given of the hotplug source (nothing where it was a plain poll), and
/// what it gave.
pub struct WatchTrace<'a, R: DeviceMetadataResolver + ?Sized> {
    pub states: Seq<RecoveryDeviceWatch<'a, R>>,
    pub sources: Seq<Option<SourcePoll>>,
    pub polls: Seq<WatchPoll>,
}

impl<'a, R: DeviceMetadataResolver + ?Sized> WatchTrace<'a, R> {
    /// The call with index `i` went by the contracts of the watch, and handed
    /// over the hotplug source only where no item was pending.
    pub open spec fn is_call(self, i: int) -> bool {
        match self.sources[i] {
            None => crate::watch::gives_pending(self.states[i], self.states[i + 1], self.polls[i]),
            Some(source) => self.states[i].pending@.len() == 0 && crate::watch::gives_source(
                self.states[i],
                source,
                self.states[i + 1],
                self.polls[i],
            ),
        }
    }

    /// The trace starts with a watch over the recovery devices among
    /// `enumerated`.
    pub open spec fn is_trace_of(self, enumerated: Seq<UsbDeviceInfo>) -> bool {
        &&& self.states.len() == self.polls.len() + 1
        &&& self.sources.len() == self.polls.len()
        &&& crate::watch::is_seeded(self.states[0], enumerated)
        &&& forall|i: int| 0 <= i < self.polls.len() ==> #[trigger] self.is_call(i)
    }
}

/// The poll with index `at` reported the device as connected, and none since,
/// up to index `n`, reported it as disconnected.
pub open spec fn reported_since(polls: Seq<WatchPoll>, id: u64, at: int, n: int) -> bool {
    &&& 0 <= at < n
    &&& crate::watch::report_of(polls[at]) == Some(Report::Connected(id))
    &&& forall|i: int|
        at < i < n ==> crate::watch::report_of(#[trigger] polls[i]) != Some(
            Report::Disconnected(id),
        )
}

/// The device stands as connected before the poll with index `n`.
pub open spec fn stands_connected(polls: Seq<WatchPoll>, id: u64, n: int) -> bool {
    exists|at: int| #[trigger] reported_since(polls, id, at, n)
}

/// A pending item of the watch reports the device as connected.
spec fn is_pending<'a, R: DeviceMetadataResolver + ?Sized>(
    watch: RecoveryDeviceWatch<'a, R>,
    id: u64,
) -> bool {
    exists|i: int|
        0 <= i < watch.pending@.len() && crate::watch::report_of(
            WatchPoll::Item(#[trigger] watch.pending@[i]),
        ) == Some(Report::Connected(id))
}

/// Every pending item of the watch reports a known device as connected.
spec fn pends_connects<'a, R: DeviceMetadataResolver + ?Sized>(
    watch: RecoveryDeviceWatch<'a, R>,
) -> bool {
    forall|i: int|
        0 <= i < watch.pending@.len() ==> (#[trigger] watch.pending@[i] matches Ok(
            RecoveryEvent::Connected(device),
        ) && watch.known_ids@.contains(device.id.0))
}

proof fn lemma_stands_connected_step(polls: Seq<WatchPoll>, id: u64, n: int)
    requires
        0 <= n < polls.len(),
    ensures
        stands_connected(polls, id, n + 1) == (crate::watch::report_of(polls[n]) == Some(
            Report::Connected(id),
        )
            || (stands_connected(polls, id, n) && crate::watch::report_of(polls[n]) != Some(
            Report::Disconnected(id),
        ))),
{
    if crate::watch::report_of(polls[n]) == Some(Report::Connected(id)) {
        assert(reported_since(polls, id, n, n + 1));
    } else {
        if stands_connected(polls, id, n) && crate::watch::report_of(polls[n]) != Some(
            Report::Disconnected(id),
        ) {
            let at = choose|at: int| #[trigger] reported_since(polls, id, at, n);
            assert(reported_since(polls, id, at, n + 1));
        }
        if stands_connected(polls, id, n + 1) {
            let at = choose|at: int| #[trigger] reported_since(polls, id, at, n + 1);
            assert(at < n);
            assert(reported_since(polls, id, at, n));
        }
    }
}

proof fn lemma_trace_state<'a, R: DeviceMetadataResolver + ?Sized>(
    trace: WatchTrace<'a, R>,
    enumerated: Seq<UsbDeviceInfo>,
    id: u64,
    n: int,
)
    requires
        trace.is_trace_of(enumerated),
        0 <= n <= trace.polls.len(),
    ensures
        pends_connects(trace.states[n]),
        trace.states[n].known_ids@.contains(id) == (stands_connected(trace.polls, id, n)
            || is_pending(trace.states[n], id)),
    decreases n,
{
    if n == 0 {
        law_fresh_watch(trace.states[0], enumerated, id);
        assert(!stands_connected(trace.polls, id, 0));
        let watch = trace.states[0];
        let devices = choose|devices: Seq<RecoveryDevice>| #[trigger]
            crate::device::lists(devices, enumerated, watch.metadata_resolver) && watch.known_ids@
                == crate::watch::ids_of(devices) && crate::watch::reports_connected(
                watch.pending@,
                devices,
            );
        assert forall|i: int| 0 <= i < watch.pending@.len() implies (
        #[trigger] watch.pending@[i] matches Ok(RecoveryEvent::Connected(device))
            && watch.known_ids@.contains(device.id.0)) by {
            assert(crate::watch::ids_of(devices).contains(devices[i].id.0));
        }
    } else {
        let last = n - 1;
        let before = trace.states[last];
        let after = trace.states[n];
        let poll = trace.polls[last];
        lemma_trace_state(trace, enumerated, id, last);
        lemma_stands_connected_step(trace.polls, id, last);
        assert(trace.is_call(last));
        if trace.sources[last] is None && before.pending@.len() > 0 {
            assert forall|i: int| 0 <= i < after.pending@.len() implies #[trigger] after.pending@[i]
                == before.pending@[i + 1] by {}
            assert(poll == WatchPoll::Item(before.pending@[0]));
            if is_pending(before, id) && crate::watch::report_of(poll) != Some(
                Report::Connected(id),
            ) {
                let i = choose|i: int|
                    0 <= i < before.pending@.len() && crate::watch::report_of(
                        WatchPoll::Item(#[trigger] before.pending@[i]),
                    ) == Some(Report::Connected(id));
                assert(i > 0);
                assert(after.pending@[i - 1] == before.pending@[i]);
            }
            if is_pending(after, id) {
                let i = choose|i: int|
                    0 <= i < after.pending@.len() && crate::watch::report_of(
                        WatchPoll::Item(#[trigger] after.pending@[i]),
                    ) == Some(Report::Connected(id));
                assert(before.pending@[i + 1] == after.pending@[i]);
            }
        }
    }
}

/// Over the whole stream of a watch, the devices that are connected already and
/// then the hotplug events: no item is an error; a device is reported as
/// disconnected only after it was reported as connected, with no other report of
/// its disconnecting between; and a disconnect of such a device is reported,
/// one of any other is not.
pub proof fn law_stream_pairs_reports<'a, R: DeviceMetadataResolver + ?Sized>(
    trace: WatchTrace<'a, R>,
    enumerated: Seq<UsbDeviceInfo>,
    n: int,
)
    requires
        trace.is_trace_of(enumerated),
        0 <= n < trace.polls.len(),
    ensures
        !(trace.polls[n] matches WatchPoll::Item(Err(_))),
        crate::watch::report_of(trace.polls[n]) matches Some(Report::Disconnected(id))
            ==> stands_connected(trace.polls, id, n),
        trace.sources[n] matches Some(SourcePoll::Event(HotplugEvent::Disconnected(id)))
            ==> trace.polls[n] == if stands_connected(trace.polls, id.0, n) {
            WatchPoll::Item(Ok(RecoveryEvent::Disconnected(id)))
        } else {
            WatchPoll::PollSource
        },
{
    assert(trace.is_call(n));
    lemma_trace_state(trace, enumerated, 0, n);
    if let Some(SourcePoll::Event(HotplugEvent::Disconnected(id))) = trace.sources[n] {
        lemma_trace_state(trace, enumerated, id.0, n);
        assert(!is_pending(trace.states[n], id.0));
    }
}

/// As long as items are pending, each call takes the first of them.
proof fn lemma_pending_left<'a, R: DeviceMetadataResolver + ?Sized>(
    trace: WatchTrace<'a, R>,
    enumerated: Seq<UsbDeviceInfo>,
    n: int,
)
    requires
        trace.is_trace_of(enumerated),
        0 <= n <= trace.polls.len(),
        n <= trace.states[0].pending@.len(),
    ensures
        trace.states[n].pending@ == trace.states[0].pending@.skip(n),
    decreases n,
{
    if n > 0 {
        lemma_pending_left(trace, enumerated, n - 1);
        assert(trace.is_call(n - 1));
        assert(trace.states[0].pending@.skip(n - 1).skip(1) =~= trace.states[0].pending@.skip(n));
    } else {
        assert(trace.states[0].pending@.skip(0) =~= trace.states[0].pending@);
    }
}

/// The stream of a watch begins with every recovery device that is connected
/// already, each reported as connected and in the order of the enumeration.
pub proof fn law_stream_begins_with_connected<'a, R: DeviceMetadataResolver + ?Sized>(
    trace: WatchTrace<'a, R>,
    enumerated: Seq<UsbDeviceInfo>,
    n: int,
)
    requires
        trace.is_trace_of(enumerated),
        0 <= n < trace.polls.len(),
        n < crate::device::recovery_only(enumerated).len(),
    ensures
        trace.polls[n] matches WatchPoll::Item(Ok(RecoveryEvent::Connected(device)))
            && crate::device::describes(
            device,
            crate::device::recovery_only(enumerated)[n],
            trace.states[0].metadata_resolver,
        ),
{
    let watch = trace.states[0];
    let devices = choose|devices: Seq<RecoveryDevice>| #[trigger]
        crate::device::lists(devices, enumerated, watch.metadata_resolver) && watch.known_ids@
            == crate::watch::ids_of(devices) && crate::watch::reports_connected(
            watch.pending@,
            devices,
        );
    lemma_pending_left(trace, enumerated, n);
    assert(trace.is_call(n));
    assert(trace.states[n].pending@[0] == watch.pending@[n]);
    assert(watch.pending@[n] == Ok::<RecoveryEvent, RecoveryError>(
        RecoveryEvent::Connected(devices[n]),
    ));
}

/// A watch starts with the resolver that it was given, or with none, once the
/// hotplug source is running; if that cannot start, its error is reported.
pub proof fn law_watch_starts<'a, R: DeviceMetadataResolver + ?Sized>(
    started: Result<(), nusb::Error>,
    resolver: &'a R,
    plain: Result<UnseededWatch<'static, dyn DeviceMetadataResolver>, RecoveryError>,
    resolving: Result<UnseededWatch<'a, R>, RecoveryError>,
)
    requires
        call_ensures(watch_recovery_devices, (started,), plain),
        call_ensures(watch_recovery_devices_with_metadata::<R>, (started, resolver), resolving),
    ensures
        match started {
            Ok(_) => {
                &&& plain matches Ok(plain) && plain.metadata_resolver is None
                &&& resolving matches Ok(resolving) && resolving.metadata_resolver == Some(resolver)
            },
            Err(error) => {
                &&& plain matches Err(RecoveryError::Usb(found)) && found == error
                &&& resolving matches Err(RecoveryError::Usb(found)) && found == error
            },
        },
{
}

/// A started watch keeps its resolver, has an item pending for each enumerated
/// device of the family, in order, and knows just these devices; an enumeration
/// that failed is reported.
pub proof fn law_watch_is_seeded<'a, R: DeviceMetadataResolver + ?Sized>(
    unseeded: UnseededWatch<'a, R>,
    enumerated: Result<Vec<UsbDeviceInfo>, nusb::Error>,
    watch: Result<RecoveryDeviceWatch<'a, R>, RecoveryError>,
    id: u64,
)
    requires
        call_ensures(UnseededWatch::<'a, R>::seed, (unseeded, enumerated), watch),
    ensures
        match enumerated {
            Err(error) => watch matches Err(RecoveryError::Usb(found)) && found == error,
            Ok(devices) => watch matches Ok(watch) && {
                &&& watch.metadata_resolver == unseeded.metadata_resolver
                &&& pends_family(watch, devices@)
                &&& watch.known_ids@.contains(id) <==> exists|k: int|
                    0 <= k < devices@.len() && crate::device_laws::in_family(
                        #[trigger] devices@[k],
                    ) && devices@[k].id.0 == id
            },
        },
{
    if let Ok(devices) = enumerated {
        let watch = watch->Ok_0;
        lemma_pends_family(watch, devices@);
        law_fresh_watch(watch, devices@, id);
        if exists|k: int|
            0 <= k < devices@.len() && crate::device_laws::in_family(#[trigger] devices@[k])
                && devices@[k].id.0 == id {
            let k = choose|k: int|
                0 <= k < devices@.len() && crate::device_laws::in_family(#[trigger] devices@[k])
                    && devices@[k].id.0 == id;
            assert(crate::device::is_recovery(devices@[k]));
        }
        if watch.known_ids@.contains(id) {
            let k = choose|k: int|
                0 <= k < devices@.len() && crate::device::is_recovery(#[trigger] devices@[k])
                    && devices@[k].id.0 == id;
            assert(crate::device_laws::in_family(devices@[k]));
        }
    }
}

/// `poll` gives a device as connected, one that tells of `info`.
pub open spec fn gives_connected<R: DeviceMetadataResolver + ?Sized>(
    poll: WatchPoll,
    info: UsbDeviceInfo,
    resolver: Option<&R>,
) -> bool {
    poll matches WatchPoll::Item(Ok(RecoveryEvent::Connected(device)))
        && crate::device_laws::tells_of(device, info, resolver)
}

/// The pending items of the watch report the devices of the family among
/// `devices` as connected, each once and in order.
pub open spec fn pends_family<'a, R: DeviceMetadataResolver + ?Sized>(
    watch: RecoveryDeviceWatch<'a, R>,
    devices: Seq<UsbDeviceInfo>,
) -> bool {
    exists|places: Seq<int>| #[trigger]
        crate::device_laws::are_places(places, devices) && places.len() == watch.pending@.len()
            && forall|i: int|
            0 <= i < places.len() ==> gives_connected(
                WatchPoll::Item(#[trigger] watch.pending@[i]),
                devices[places[i]],
                watch.metadata_resolver,
            )
}

proof fn lemma_pends_family<'a, R: DeviceMetadataResolver + ?Sized>(
    watch: RecoveryDeviceWatch<'a, R>,
    enumerated: Seq<UsbDeviceInfo>,
)
    requires
        crate::watch::is_seeded(watch, enumerated),
    ensures
        pends_family(watch, enumerated),
{
    let devices = choose|devices: Seq<RecoveryDevice>| #[trigger]
        crate::device::lists(devices, enumerated, watch.metadata_resolver) && watch.known_ids@
            == crate::watch::ids_of(devices) && crate::watch::reports_connected(
            watch.pending@,
            devices,
        );
    crate::device_laws::lemma_is_listing(devices, enumerated, watch.metadata_resolver);
    let places = choose|places: Seq<int>| #[trigger]
        crate::device_laws::are_places(places, enumerated) && places.len() == devices.len()
            && forall|i: int|
            0 <= i < devices.len() ==> crate::device_laws::tells_of(
                #[trigger] devices[i],
                enumerated[places[i]],
                watch.metadata_resolver,
            );
    assert forall|i: int| 0 <= i < places.len() implies gives_connected(
        WatchPoll::Item(#[trigger] watch.pending@[i]),
        enumerated[places[i]],
        watch.metadata_resolver,
    ) by {
        assert(watch.pending@[i] == Ok::<RecoveryEvent, RecoveryError>(
            RecoveryEvent::Connected(devices[i]),
        ));
    }
}

proof fn lemma_resolver_is_kept<'a, R: DeviceMetadataResolver + ?Sized>(
    trace: WatchTrace<'a, R>,
    enumerated: Seq<UsbDeviceInfo>,
    n: int,
)
    requires
        trace.is_trace_of(enumerated),
        0 <= n <= trace.polls.len(),
    ensures
        trace.states[n].metadata_resolver == trace.states[0].metadata_resolver,
    decreases n,
{
    if n > 0 {
        lemma_resolver_is_kept(trace, enumerated, n - 1);
        assert(trace.is_call(n - 1));
    }
}

/// Over the whole stream of a watch, every device of the family that connects is
/// reported, with what enumeration and the watch's resolver say of it, and no
/// other is; the end of the hotplug source ends the stream, and while the source
/// has nothing the stream has nothing.
pub proof fn law_stream_reports_connects<'a, R: DeviceMetadataResolver + ?Sized>(
    trace: WatchTrace<'a, R>,
    enumerated: Seq<UsbDeviceInfo>,
    n: int,
)
    requires
        trace.is_trace_of(enumerated),
        0 <= n < trace.polls.len(),
    ensures
        match trace.sources[n] {
            Some(SourcePoll::Event(HotplugEvent::Connected(info))) => if info.vendor_id == 0x05ac
                && (info.product_id == 0x1222 || info.product_id == 0x1227 || info.product_id
                == 0x1280 || info.product_id == 0x1281 || info.product_id == 0x1881) {
                gives_connected(trace.polls[n], info, trace.states[0].metadata_resolver)
            } else {
                trace.polls[n] == WatchPoll::PollSource
            },
            Some(SourcePoll::Event(HotplugEvent::Disconnected(id))) => trace.polls[n]
                == WatchPoll::PollSource || trace.polls[n] == WatchPoll::Item(
                Ok(RecoveryEvent::Disconnected(id)),
            ),
            Some(SourcePoll::Ended) => trace.polls[n] == WatchPoll::Ended,
            Some(SourcePoll::Pending) => trace.polls[n] == WatchPoll::Pending,
            None => true,
        },
{
    assert(trace.is_call(n));
    lemma_resolver_is_kept(trace, enumerated, n);
    if let Some(SourcePoll::Event(HotplugEvent::Connected(info))) = trace.sources[n] {
        if crate::device_laws::in_family(info) {
            if let WatchPoll::Item(Ok(RecoveryEvent::Connected(device))) = trace.polls[n] {
                crate::device_laws::lemma_tells_of(
                    device,
                    info,
                    trace.states[n].metadata_resolver,
                );
            }
        }
    }
}

/// The stream of a watch begins with a report of every enumerated device of the
/// family, each once and in order; the next plain poll asks for the hotplug
/// source.
pub proof fn law_stream_begins_with_family<'a, R: DeviceMetadataResolver + ?Sized>(
    trace: WatchTrace<'a, R>,
    enumerated: Seq<UsbDeviceInfo>,
) -> (places: Seq<int>)
    requires
        trace.is_trace_of(enumerated),
    ensures
        crate::device_laws::are_places(places, enumerated),
        forall|n: int|
            0 <= n < trace.polls.len() && n < places.len() ==> gives_connected(
                #[trigger] trace.polls[n],
                enumerated[places[n]],
                trace.states[0].metadata_resolver,
            ),
        forall|n: int|
            places.len() <= n < trace.polls.len() && trace.sources[n] is None
                ==> #[trigger] trace.polls[n] == WatchPoll::PollSource,
{
    let watch = trace.states[0];
    lemma_pends_family(watch, enumerated);
    let places = choose|places: Seq<int>| #[trigger]
        crate::device_laws::are_places(places, enumerated) && places.len() == watch.pending@.len()
            && forall|i: int|
            0 <= i < places.len() ==> gives_connected(
                WatchPoll::Item(#[trigger] watch.pending@[i]),
                enumerated[places[i]],
                watch.metadata_resolver,
            );
    assert forall|n: int| 0 <= n < trace.polls.len() && n < places.len() implies gives_connected(
        #[trigger] trace.polls[n],
        enumerated[places[n]],
        watch.metadata_resolver,
    ) by {
        lemma_pending_left(trace, enumerated, n);
        assert(trace.is_call(n));
        assert(trace.states[n].pending@[0] == watch.pending@[n]);
    }
    assert forall|n: int|
        places.len() <= n < trace.polls.len() && trace.sources[n] is None implies
        #[trigger] trace.polls[n] == WatchPoll::PollSource by {
        lemma_pending_used_up(trace, enumerated, n);
        assert(trace.is_call(n));
    }
    places
}

proof fn lemma_pending_used_up<'a, R: DeviceMetadataResolver + ?Sized>(
    trace: WatchTrace<'a, R>,
    enumerated: Seq<UsbDeviceInfo>,
    n: int,
)
    requires
        trace.is_trace_of(enumerated),
        trace.states[0].pending@.len() <= n <= trace.polls.len(),
    ensures
        trace.states[n].pending@.len() == 0,
    decreases n,
{
    if n == trace.states[0].pending@.len() {
        lemma_pending_left(trace, enumerated, n);
    } else {
        lemma_pending_used_up(trace, enumerated, n - 1);
        assert(trace.is_call(n - 1));
    }
}

/// What a look at the hotplug source does, whatever the watch knew before. A
/// device of the family that connects is reported and known from then on; a
/// known one that disconnects is reported and known no more; nothing else is
/// reported, and nothing else changes.
pub proof fn law_source_is_followed<'a, R: DeviceMetadataResolver + ?Sized>(
    watch: &mut RecoveryDeviceWatch<'a, R>,
    source: SourcePoll,
    poll: WatchPoll,
    id: u64,
)
    requires
        call_ensures(RecoveryDeviceWatch::<'a, R>::source_polled, (watch, source), poll),
    ensures
        final(watch).pending@ == old(watch).pending@,
        final(watch).metadata_resolver == old(watch).metadata_resolver,
        match source {
            SourcePoll::Event(HotplugEvent::Connected(info)) => if crate::device_laws::in_family(
                info,
            ) {
                &&& gives_connected(poll, info, old(watch).metadata_resolver)
                &&& final(watch).known_ids@.contains(id) <==> old(watch).known_ids@.contains(id)
                    || id == info.id.0
            } else {
                &&& poll == WatchPoll::PollSource
                &&& final(watch).known_ids@.contains(id) <==> old(watch).known_ids@.contains(id)
            },
            SourcePoll::Event(HotplugEvent::Disconnected(gone)) => {
                &&& poll == (if old(watch).known_ids@.contains(gone.0) {
                    WatchPoll::Item(Ok(RecoveryEvent::Disconnected(gone)))
                } else {
                    WatchPoll::PollSource
                })
                &&& final(watch).known_ids@.contains(id) <==> old(watch).known_ids@.contains(id)
                    && id != gone.0
            },
            SourcePoll::Ended => poll == WatchPoll::Ended && final(watch).known_ids@ == old(
                watch,
            ).known_ids@,
            SourcePoll::Pending => poll == WatchPoll::Pending && final(watch).known_ids@ == old(
                watch,
            ).known_ids@,
        },
{
    if let SourcePoll::Event(HotplugEvent::Connected(info)) = source {
        if crate::device_laws::in_family(info) {
            if let WatchPoll::Item(Ok(RecoveryEvent::Connected(device))) = poll {
                crate::device_laws::lemma_tells_of(device, info, watch.metadata_resolver);
            }
        }
    }
}

/// A plain poll takes the first pending item, and asks for the hotplug source
/// where there is none; nothing else changes.
pub proof fn law_pending_item_is_taken<'a, R: DeviceMetadataResolver + ?Sized>(
    watch: &mut RecoveryDeviceWatch<'a, R>,
    poll: WatchPoll,
)
    requires
        call_ensures(RecoveryDeviceWatch::<'a, R>::poll, (watch,), poll),
    ensures
        final(watch).known_ids@ == old(watch).known_ids@,
        final(watch).metadata_resolver == old(watch).metadata_resolver,
        match poll {
            WatchPoll::Item(item) => old(watch).pending@ == seq![item] + final(watch).pending@,
            WatchPoll::PollSource => old(watch).pending@.len() == 0
                && final(watch).pending@.len() == 0,
            _ => false,
        },
{
    if watch.pending@.len() > 0 {
        assert(seq![watch.pending@[0]] + watch.pending@.skip(1) =~= watch.pending@);
    }
}

} // verus!
