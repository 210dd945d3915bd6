//! What the search for an ECID does in terms of the bus: how often it
//! enumerates, which devices it tries, and what it gives.

use crate::client::RecoveryClient;
use crate::device::UsbDeviceInfo;
use crate::ecid::{
    init_recovery_device, init_recovery_device_with_metadata, open_by_ecid,
    open_by_ecid_with_metadata, set_auto_boot_and_reboot, AutoBootAndReboot, AwaitingClient,
    AwaitingDevices, AwaitingRetry, Bus, EcidSearch, EcidStep, InitRecoveryDevice, SearchRun,
};
use crate::error::RecoveryError;
use crate::metadata::DeviceMetadataResolver;
use crate::open::ClientStep;
use vstd::prelude::*;

verus! {

/// How many of the devices before index `j` are of the family.
pub open spec fn family_before(devices: Seq<UsbDeviceInfo>, j: int) -> nat
    decreases j,
{
    if j <= 0 {
        0
    } else {
        family_before(devices, j - 1) + if crate::device_laws::in_family(devices[j - 1]) {
            1nat
        } else {
            0nat
        }
    }
}

/// What opening the device with index `j` of enumeration number `k` gives.
pub open spec fn opening(bus: Bus, k: nat, j: int) -> Result<RecoveryClient, RecoveryError> {
    let devices = (bus.enumerated)(k)->Ok_0;
    (bus.opened)(k, family_before(devices, j), devices[j])
}

/// The device with index `j` of enumeration number `k` is of the family, and
/// opening it gives a client with this ECID.
pub open spec fn is_match(bus: Bus, ecid: u64, k: nat, j: int) -> bool {
    &&& (bus.enumerated)(k) matches Ok(devices) && 0 <= j < devices.len()
        && crate::device_laws::in_family(devices[j])
    &&& opening(bus, k, j) matches Ok(client) && client.device_info.ecid == Some(ecid)
}

/// The enumerations before number `k` succeed, and no device of theirs is a
/// match.
pub open spec fn no_match_before(bus: Bus, ecid: u64, k: nat) -> bool {
    forall|earlier: nat|
        earlier < k ==> (#[trigger] (bus.enumerated)(earlier)) is Ok && forall|j: int|
            !#[trigger] is_match(bus, ecid, earlier, j)
}

proof fn lemma_family_before(devices: Seq<UsbDeviceInfo>, j: int)
    requires
        0 <= j <= devices.len(),
    ensures
        family_before(devices, j) == crate::device::recovery_only(devices.take(j)).len(),
    decreases j,
{
    reveal(Seq::filter);
    if j > 0 {
        lemma_family_before(devices, j - 1);
        assert(devices.take(j).drop_last() =~= devices.take(j - 1));
        assert(devices.take(j).last() == devices[j - 1]);
        assert(crate::device::is_recovery(devices[j - 1]) == crate::device_laws::in_family(
            devices[j - 1],
        ));
    }
}

proof fn lemma_first_wanted_at(
    bus: Bus,
    ecid: u64,
    attempt: nat,
    tried: nat,
    all: Seq<UsbDeviceInfo>,
    end: nat,
)
    requires
        tried <= end <= all.len(),
        forall|i: nat|
            tried <= i < end ==> !crate::ecid::is_wanted(
                ecid,
                #[trigger] (bus.opened)(attempt, i, all[i as int]),
            ),
        end < all.len() ==> crate::ecid::is_wanted(
            ecid,
            (bus.opened)(attempt, end, all[end as int]),
        ),
    ensures
        crate::ecid::first_wanted(bus, ecid, attempt, tried, all.skip(tried as int)) == if end
            < all.len() {
            Some((bus.opened)(attempt, end, all[end as int])->Ok_0)
        } else {
            None
        },
    decreases end - tried,
{
    let rest = all.skip(tried as int);
    if tried < all.len() {
        assert(rest[0] == all[tried as int]);
        assert(rest.skip(1) =~= all.skip(tried + 1int));
    }
    if tried < end {
        lemma_first_wanted_at(bus, ecid, attempt, tried + 1, all, end);
    }
}

/// What an attempt finds: the first match of its enumeration, or nothing.
proof fn lemma_attempt(bus: Bus, ecid: u64, k: nat, j: int)
    requires
        (bus.enumerated)(k) is Ok,
    ensures
        is_match(bus, ecid, k, j) && (forall|i: int|
            0 <= i < j ==> !#[trigger] is_match(bus, ecid, k, i)) ==> crate::ecid::first_wanted(
            bus,
            ecid,
            k,
            0,
            crate::device::recovery_only((bus.enumerated)(k)->Ok_0),
        ) == Some(opening(bus, k, j)->Ok_0),
        (forall|i: int| !#[trigger] is_match(bus, ecid, k, i)) ==> crate::ecid::first_wanted(
            bus,
            ecid,
            k,
            0,
            crate::device::recovery_only((bus.enumerated)(k)->Ok_0),
        ) is None,
{
    let devices = (bus.enumerated)(k)->Ok_0;
    let all = crate::device::recovery_only(devices);
    let places = crate::device_laws::lemma_places(devices);
    assert forall|i: nat| i < all.len() implies crate::ecid::is_wanted(
        ecid,
        #[trigger] (bus.opened)(k, i, all[i as int]),
    ) == is_match(bus, ecid, k, places[i as int]) by {
        lemma_family_before(devices, places[i as int]);
        assert(all[i as int] == devices[places[i as int]]);
    }
    assert(all.skip(0) =~= all);
    if is_match(bus, ecid, k, j) && (forall|i: int|
        0 <= i < j ==> !#[trigger] is_match(bus, ecid, k, i)) {
        assert(places.contains(j));
        let end = choose|end: int| 0 <= end < places.len() && places[end] == j;
        assert forall|i: nat| 0 <= i < end implies !crate::ecid::is_wanted(
            ecid,
            #[trigger] (bus.opened)(k, i, all[i as int]),
        ) by {
            assert(places[i as int] < places[end]);
            assert(!is_match(bus, ecid, k, places[i as int]));
        }
        lemma_family_before(devices, j);
        lemma_first_wanted_at(bus, ecid, k, 0, all, end as nat);
    }
    if forall|i: int| !#[trigger] is_match(bus, ecid, k, i) {
        assert forall|i: nat| i < all.len() implies !crate::ecid::is_wanted(
            ecid,
            #[trigger] (bus.opened)(k, i, all[i as int]),
        ) by {
            assert(!is_match(bus, ecid, k, places[i as int]));
        }
        lemma_first_wanted_at(bus, ecid, k, 0, all, all.len());
    }
}

/// The attempts from `from` up to `k` find nothing, so that the run goes on with
/// attempt number `k`.
proof fn lemma_skipped_attempts(bus: Bus, ecid: u64, attempts: nat, from: nat, k: nat)
    requires
        from <= k < attempts,
        no_match_before(bus, ecid, k),
    ensures
        ({
            let run = crate::ecid::expected_run(bus, ecid, attempts, from);
            let later = crate::ecid::expected_run(bus, ecid, attempts, k);
            &&& run.result == later.result
            &&& run.listings == later.listings + (k - from)
            &&& run.sleeps == later.sleeps + (k - from)
        }),
    decreases k - from,
{
    if from < k {
        assert((bus.enumerated)(from) is Ok);
        lemma_attempt(bus, ecid, from, 0);
        lemma_skipped_attempts(bus, ecid, attempts, from + 1, k);
    }
}

/// The search as it goes on this bus.
pub open spec fn search(bus: Bus, ecid: u64, attempts: usize) -> SearchRun {
    crate::ecid::run_from(bus, crate::ecid::ecid_start(ecid, attempts as nat), 0, 0)
}

/// As many attempts are made as were asked for: if every enumeration succeeds and
/// none holds a match, there are just so many enumerations, with a wait between
/// each two, and the error carries their number.
pub proof fn law_all_attempts_are_made(bus: Bus, ecid: u64, attempts: usize)
    requires
        attempts >= 1,
        no_match_before(bus, ecid, attempts as nat),
    ensures
        search(bus, ecid, attempts).listings == attempts,
        search(bus, ecid, attempts).sleeps == attempts - 1,
        search(bus, ecid, attempts).result == Err::<RecoveryClient, RecoveryError>(
            RecoveryError::NoMatchingDevice { ecid, attempts },
        ),
{
    let last = (attempts - 1) as nat;
    crate::ecid::law_search_finds_first_match(bus, ecid, attempts);
    assert((bus.enumerated)(last) is Ok);
    lemma_attempt(bus, ecid, last, 0);
    lemma_skipped_attempts(bus, ecid, attempts as nat, 0, last);
}

/// A match is found whenever it shows up within the attempts: the first match of
/// the first enumeration that has one is what the search gives, after just so
/// many enumerations.
pub proof fn law_late_match_is_found(bus: Bus, ecid: u64, attempts: usize, k: nat, j: int)
    requires
        k < attempts,
        no_match_before(bus, ecid, k),
        is_match(bus, ecid, k, j),
        forall|i: int| 0 <= i < j ==> !#[trigger] is_match(bus, ecid, k, i),
    ensures
        search(bus, ecid, attempts).result == opening(bus, k, j),
        search(bus, ecid, attempts).listings == k + 1,
        search(bus, ecid, attempts).sleeps == k,
{
    crate::ecid::law_search_finds_first_match(bus, ecid, attempts);
    lemma_attempt(bus, ecid, k, j);
    lemma_skipped_attempts(bus, ecid, attempts as nat, 0, k);
}

/// An enumeration that fails before a match was found ends the search with its
/// error.
pub proof fn law_failed_enumeration_ends_search(
    bus: Bus,
    ecid: u64,
    attempts: usize,
    k: nat,
    error: nusb::Error,
)
    requires
        k < attempts,
        no_match_before(bus, ecid, k),
        (bus.enumerated)(k) == Err::<Seq<UsbDeviceInfo>, nusb::Error>(error),
    ensures
        search(bus, ecid, attempts).result == Err::<RecoveryClient, RecoveryError>(
            RecoveryError::Usb(error),
        ),
        search(bus, ecid, attempts).listings == k + 1,
        search(bus, ecid, attempts).sleeps == k,
{
    crate::ecid::law_search_finds_first_match(bus, ecid, attempts);
    lemma_skipped_attempts(bus, ecid, attempts as nat, 0, k);
}

/// Asking for no attempt at all is asking for one.
pub proof fn law_no_attempts_are_one(bus: Bus, ecid: u64)
    ensures
        search(bus, ecid, 0) == search(bus, ecid, 1),
{
}

/// `step` waits for the first enumeration of a search for `ecid`, with as many
/// attempts as asked for and at least one.
pub open spec fn begins_search<'a, R: DeviceMetadataResolver + ?Sized>(
    step: EcidStep<'a, R>,
    ecid: u64,
    attempts: usize,
    resolver: Option<&'a R>,
) -> bool {
    step matches EcidStep::List(waiting) && {
        &&& waiting.search.ecid == ecid
        &&& waiting.search.attempts == if attempts >= 1 {
            attempts
        } else {
            1
        }
        &&& waiting.search.remaining == waiting.search.attempts - 1
        &&& waiting.search.metadata_resolver == resolver
    }
}

/// Every operation on a device by its ECID begins with a search for that ECID,
/// with the attempts and the resolver that were asked for.
pub proof fn law_searches_begin<'a, R: DeviceMetadataResolver + ?Sized>(
    ecid: u64,
    attempts: usize,
    resolver: &'a R,
    plain: EcidStep<'static, dyn DeviceMetadataResolver>,
    resolving: EcidStep<'a, R>,
    init: InitRecoveryDevice<'static, dyn DeviceMetadataResolver>,
    resolving_init: InitRecoveryDevice<'a, R>,
    exit: AutoBootAndReboot,
)
    requires
        call_ensures(open_by_ecid, (ecid, attempts), plain),
        call_ensures(open_by_ecid_with_metadata::<R>, (ecid, attempts, resolver), resolving),
        call_ensures(init_recovery_device, (ecid, attempts), init),
        call_ensures(
            init_recovery_device_with_metadata::<R>,
            (ecid, attempts, resolver),
            resolving_init,
        ),
        call_ensures(set_auto_boot_and_reboot, (ecid, attempts), exit),
    ensures
        begins_search(plain, ecid, attempts, None),
        begins_search(resolving, ecid, attempts, Some(resolver)),
        begins_search(init.search, ecid, attempts, None),
        begins_search(resolving_init.search, ecid, attempts, Some(resolver)),
        begins_search(exit.search, ecid, attempts, None),
{
}

/// `later` is the same search as `search`: for the same ECID, with the same
/// attempts in all and the same resolver.
pub open spec fn is_same_search<'a, R: DeviceMetadataResolver + ?Sized>(
    later: EcidSearch<'a, R>,
    search: EcidSearch<'a, R>,
) -> bool {
    &&& later.ecid == search.ecid
    &&& later.attempts == search.attempts
    &&& later.metadata_resolver == search.metadata_resolver
}

/// The search goes on with the first of `candidates`, or waits half a second
/// before one more attempt, or reports that there is no such device.
pub open spec fn goes_on<'a, R: DeviceMetadataResolver + ?Sized>(
    step: EcidStep<'a, R>,
    search: EcidSearch<'a, R>,
    candidates: Seq<UsbDeviceInfo>,
) -> bool {
    if candidates.len() > 0 {
        step matches EcidStep::Open(waiting) && {
            &&& is_same_search(waiting.search, search)
            &&& waiting.search.remaining == search.remaining
            &&& candidates == seq![waiting.usb_info] + waiting.search.candidates@
        }
    } else if search.remaining > 0 {
        step matches EcidStep::Sleep(delay, waiting) && {
            &&& delay == 500
            &&& is_same_search(waiting.search, search)
            &&& waiting.search.remaining == search.remaining - 1
        }
    } else {
        step matches EcidStep::Done(Err(RecoveryError::NoMatchingDevice { ecid, attempts })) && ecid
            == search.ecid && attempts == search.attempts
    }
}

proof fn lemma_goes_on<'a, R: DeviceMetadataResolver + ?Sized>(
    step: EcidStep<'a, R>,
    search: EcidSearch<'a, R>,
    candidates: Seq<UsbDeviceInfo>,
)
    requires
        step@ == crate::ecid::advance(
            crate::ecid::EcidSearchView { candidates, ..search@ },
        ),
        step.keeps_resolver(search.metadata_resolver),
    ensures
        goes_on(step, search, candidates),
{
    if candidates.len() > 0 {
        assert(seq![candidates[0]] + candidates.skip(1) =~= candidates);
    }
}

/// `candidates` are the devices of the family among `devices`, in their order.
pub open spec fn are_candidates(
    candidates: Seq<UsbDeviceInfo>,
    devices: Seq<UsbDeviceInfo>,
) -> bool {
    exists|places: Seq<int>| #[trigger]
        crate::device_laws::are_places(places, devices) && places.len() == candidates.len()
            && forall|i: int|
            0 <= i < candidates.len() ==> #[trigger] candidates[i] == devices[places[i]]
}

/// An enumeration is followed by its devices of the family, in order; one that
/// failed ends the search.
pub proof fn law_enumeration_is_followed<'a, R: DeviceMetadataResolver + ?Sized>(
    waiting: AwaitingDevices<'a, R>,
    enumerated: Result<Vec<UsbDeviceInfo>, nusb::Error>,
    step: EcidStep<'a, R>,
)
    requires
        call_ensures(AwaitingDevices::<'a, R>::listed, (waiting, enumerated), step),
    ensures
        match enumerated {
            Ok(devices) => exists|candidates: Seq<UsbDeviceInfo>| #[trigger]
                are_candidates(candidates, devices@) && goes_on(step, waiting.search, candidates),
            Err(error) => step == EcidStep::<'a, R>::Done(Err(RecoveryError::Usb(error))),
        },
{
    if let Ok(devices) = enumerated {
        let candidates = crate::device::recovery_only(devices@);
        let places = crate::device_laws::lemma_places(devices@);
        assert(forall|i: int|
            0 <= i < candidates.len() ==> #[trigger] candidates[i] == devices@[places[i]]);
        assert(are_candidates(candidates, devices@));
        lemma_goes_on(step, waiting.search, candidates);
    }
}

/// A client with the ECID ends the search; after any other, and after one that
/// could not be opened, the search goes on with the candidates that are left.
pub proof fn law_opened_candidate_is_followed<'a, R: DeviceMetadataResolver + ?Sized>(
    waiting: AwaitingClient<'a, R>,
    opened: Result<RecoveryClient, RecoveryError>,
    step: EcidStep<'a, R>,
)
    requires
        call_ensures(AwaitingClient::<'a, R>::opened, (waiting, opened), step),
    ensures
        if opened matches Ok(client) && client.device_info.ecid == Some(waiting.search.ecid) {
            step == EcidStep::<'a, R>::Done(opened)
        } else {
            goes_on(step, waiting.search, waiting.search.candidates@)
        },
{
    if !crate::ecid::is_wanted(waiting.search.ecid, opened) {
        lemma_goes_on(step, waiting.search, waiting.search.candidates@);
    }
}

/// After the wait the same search enumerates again.
pub proof fn law_wait_is_followed<'a, R: DeviceMetadataResolver + ?Sized>(
    waiting: AwaitingRetry<'a, R>,
    step: EcidStep<'a, R>,
)
    requires
        call_ensures(AwaitingRetry::<'a, R>::slept, (waiting,), step),
    ensures
        step matches EcidStep::List(next) && is_same_search(next.search, waiting.search)
            && next.search.remaining == waiting.search.remaining,
{
}

/// A candidate is opened as the device that was enumerated, with the resolver of
/// the search; its product ID decides whether it is opened at all.
pub proof fn law_candidate_is_opened<'a, R: DeviceMetadataResolver + ?Sized>(
    waiting: &AwaitingClient<'a, R>,
    step: ClientStep<'a, R>,
)
    requires
        call_ensures(AwaitingClient::<'a, R>::begin, (waiting,), step),
    ensures
        crate::open_laws::begins(step, waiting.usb_info, waiting.search.metadata_resolver),
{
}

} // verus!
