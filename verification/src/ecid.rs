//! Opening the recovery device with a given ECID, with retries, and what is
//! done with the device once it is open.

use crate::client::{InitializedRecoveryDevice, RecoveryClient, SequenceStep};
use crate::device::{is_recovery_usb_device, UsbDeviceInfo};
use crate::error::RecoveryError;
use crate::metadata::DeviceMetadataResolver;
use crate::open::{open_recovery_client, ClientStep};
use std::collections::VecDeque;
use vstd::prelude::*;

verus! {

/// How long to wait before another attempt, in milliseconds.
pub const RETRY_DELAY_MS: u64 = 500;

/// A search for the device with a given ECID.
pub struct EcidSearch<'a, R: DeviceMetadataResolver + ?Sized> {
    /// The ECID that is searched for.
    pub ecid: u64,
    /// How many attempts are made in all.
    pub attempts: usize,
    /// How many attempts may follow the present one.
    pub remaining: usize,
    /// The devices of the present attempt that were not tried yet.
    pub candidates: VecDeque<UsbDeviceInfo>,
    /// The resolver to ask about an opened device.
    pub metadata_resolver: Option<&'a R>,
}

/// A search that waits for the connected devices to be enumerated.
pub struct AwaitingDevices<'a, R: DeviceMetadataResolver + ?Sized> {
    pub search: EcidSearch<'a, R>,
}

/// A search that waits for a candidate to be opened.
pub struct AwaitingClient<'a, R: DeviceMetadataResolver + ?Sized> {
    pub usb_info: UsbDeviceInfo,
    pub search: EcidSearch<'a, R>,
}

/// A search that waits for the delay before the next attempt to pass.
pub struct AwaitingRetry<'a, R: DeviceMetadataResolver + ?Sized> {
    pub search: EcidSearch<'a, R>,
}

/// What comes next in the search for a device by ECID.
pub enum EcidStep<'a, R: DeviceMetadataResolver + ?Sized> {
    /// Enumerate the connected devices.
    List(AwaitingDevices<'a, R>),
    /// Open a candidate.
    Open(AwaitingClient<'a, R>),
    /// Wait for so many milliseconds.
    Sleep(u64, AwaitingRetry<'a, R>),
    /// The search is over.
    Done(Result<RecoveryClient, RecoveryError>),
}

/// What an [`EcidSearch`] knows, but for the resolver.
#[verifier::ext_equal]
pub struct EcidSearchView {
    pub ecid: u64,
    pub attempts: nat,
    pub remaining: nat,
    pub candidates: Seq<UsbDeviceInfo>,
}

/// What an [`EcidStep`] stands for.
pub enum EcidStepView {
    List(EcidSearchView),
    Open(UsbDeviceInfo, EcidSearchView),
    Sleep(u64, EcidSearchView),
    Done(Result<RecoveryClient, RecoveryError>),
}

impl<'a, R: DeviceMetadataResolver + ?Sized> EcidSearch<'a, R> {
    /// What the search knows, but for the resolver.
    pub open spec fn view(&self) -> EcidSearchView {
        EcidSearchView {
            ecid: self.ecid,
            attempts: self.attempts as nat,
            remaining: self.remaining as nat,
            candidates: self.candidates@,
        }
    }
}

impl<'a, R: DeviceMetadataResolver + ?Sized> EcidStep<'a, R> {
    /// What the step stands for.
    pub open spec fn view(&self) -> EcidStepView {
        match *self {
            EcidStep::List(waiting) => EcidStepView::List(waiting.search@),
            EcidStep::Open(waiting) => EcidStepView::Open(waiting.usb_info, waiting.search@),
            EcidStep::Sleep(delay, waiting) => EcidStepView::Sleep(delay, waiting.search@),
            EcidStep::Done(result) => EcidStepView::Done(result),
        }
    }

    /// The step keeps this resolver for the devices to come.
    pub open spec fn keeps_resolver(self, resolver: Option<&'a R>) -> bool {
        match self {
            EcidStep::List(waiting) => waiting.search.metadata_resolver == resolver,
            EcidStep::Open(waiting) => waiting.search.metadata_resolver == resolver,
            EcidStep::Sleep(_, waiting) => waiting.search.metadata_resolver == resolver,
            EcidStep::Done(_) => true,
        }
    }
}

/// How many attempts are made when `attempts` are asked for: at least one.
pub open spec fn effective_attempts(attempts: nat) -> nat {
    if attempts == 0 {
        1
    } else {
        attempts
    }
}

/// How the search begins.
pub open spec fn ecid_start(ecid: u64, attempts: nat) -> EcidStepView {
    EcidStepView::List(
        EcidSearchView {
            ecid,
            attempts: effective_attempts(attempts),
            remaining: (effective_attempts(attempts) - 1) as nat,
            candidates: Seq::empty(),
        },
    )
}

/// Goes on to the next candidate, or to the next attempt, or gives up.
pub open spec fn advance(search: EcidSearchView) -> EcidStepView {
    if search.candidates.len() > 0 {
        EcidStepView::Open(
            search.candidates[0],
            EcidSearchView { candidates: search.candidates.skip(1), ..search },
        )
    } else if search.remaining > 0 {
        EcidStepView::Sleep(
            RETRY_DELAY_MS,
            EcidSearchView { remaining: (search.remaining - 1) as nat, ..search },
        )
    } else {
        EcidStepView::Done(
            Err(
                RecoveryError::NoMatchingDevice {
                    ecid: search.ecid,
                    attempts: search.attempts as usize,
                },
            ),
        )
    }
}

/// Goes on with an enumeration of the connected devices.
pub open spec fn after_listing(
    search: EcidSearchView,
    enumerated: Result<Seq<UsbDeviceInfo>, nusb::Error>,
) -> EcidStepView {
    match enumerated {
        Ok(devices) => advance(
            EcidSearchView { candidates: crate::device::recovery_only(devices), ..search },
        ),
        Err(error) => EcidStepView::Done(Err(RecoveryError::Usb(error))),
    }
}

/// The opened device is the one that is searched for.
pub open spec fn is_wanted(ecid: u64, opened: Result<RecoveryClient, RecoveryError>) -> bool {
    opened matches Ok(client) && client.device_info.ecid == Some(ecid)
}

/// Goes on with what opening a candidate gave.
pub open spec fn after_opening(
    search: EcidSearchView,
    opened: Result<RecoveryClient, RecoveryError>,
) -> EcidStepView {
    if is_wanted(search.ecid, opened) {
        EcidStepView::Done(opened)
    } else {
        advance(search)
    }
}

fn begin_search<'a, R: DeviceMetadataResolver + ?Sized>(
    ecid: u64,
    attempts: usize,
    metadata_resolver: Option<&'a R>,
) -> (step: EcidStep<'a, R>)
    ensures
        step@ == ecid_start(ecid, attempts as nat),
        step.keeps_resolver(metadata_resolver),
{
    let attempts: usize = if attempts == 0 { 1 } else { attempts };
    let search = EcidSearch {
        ecid,
        attempts,
        remaining: attempts - 1,
        candidates: VecDeque::new(),
        metadata_resolver,
    };
    assert(search@.candidates =~= Seq::empty());
    EcidStep::List(AwaitingDevices { search })
}

/// Open the recovery device with the matching ECID, retrying enumeration.
pub fn open_by_ecid(ecid: u64, attempts: usize) -> (step: EcidStep<
    'static,
    dyn DeviceMetadataResolver,
>)
    ensures
        step@ == ecid_start(ecid, attempts as nat),
        step.keeps_resolver(None),
{
    begin_search(ecid, attempts, None)
}

/// Open the recovery device with the matching ECID and optional metadata.
pub fn open_by_ecid_with_metadata<'a, R: DeviceMetadataResolver + ?Sized>(
    ecid: u64,
    attempts: usize,
    metadata_resolver: &'a R,
) -> (step: EcidStep<'a, R>)
    ensures
        step@ == ecid_start(ecid, attempts as nat),
        step.keeps_resolver(Some(metadata_resolver)),
{
    begin_search(ecid, attempts, Some(metadata_resolver))
}

impl<'a, R: DeviceMetadataResolver + ?Sized> EcidSearch<'a, R> {
    fn advance(self) -> (step: EcidStep<'a, R>)
        ensures
            step@ == advance(self@),
            step.keeps_resolver(self.metadata_resolver),
    {
        let mut candidates = self.candidates;
        match candidates.pop_front() {
            Some(usb_info) => {
                assert(candidates@ =~= self.candidates@.skip(1));
                EcidStep::Open(
                    AwaitingClient { usb_info, search: EcidSearch { candidates, ..self } },
                )
            },
            None => {
                assert(candidates@ =~= self.candidates@);
                if self.remaining > 0 {
                    EcidStep::Sleep(
                        RETRY_DELAY_MS,
                        AwaitingRetry {
                            search: EcidSearch {
                                remaining: self.remaining - 1,
                                candidates,
                                ..self
                            },
                        },
                    )
                } else {
                    EcidStep::Done(
                        Err(
                            RecoveryError::NoMatchingDevice {
                                ecid: self.ecid,
                                attempts: self.attempts,
                            },
                        ),
                    )
                }
            },
        }
    }
}

/// The enumeration with its devices as a sequence.
pub open spec fn enumeration_view(
    enumerated: Result<Vec<UsbDeviceInfo>, nusb::Error>,
) -> Result<Seq<UsbDeviceInfo>, nusb::Error> {
    match enumerated {
        Ok(devices) => Ok(devices@),
        Err(error) => Err(error),
    }
}

impl<'a, R: DeviceMetadataResolver + ?Sized> AwaitingDevices<'a, R> {
    /// Goes on with the enumerated devices.
    pub fn listed(self, enumerated: Result<Vec<UsbDeviceInfo>, nusb::Error>) -> (step: EcidStep<
        'a,
        R,
    >)
        ensures
            step@ == after_listing(self.search@, enumeration_view(enumerated)),
            step.keeps_resolver(self.search.metadata_resolver),
    {
        let devices = match enumerated {
            Ok(devices) => devices,
            Err(error) => {
                return EcidStep::Done(Err(RecoveryError::from(error)));
            },
        };
        let ghost all = devices@;
        let mut candidates: VecDeque<UsbDeviceInfo> = VecDeque::new();
        assert(candidates@ =~= crate::device::recovery_only(all.take(0)));
        for usb_info in iter: devices
            invariant
                iter.seq() == all,
                candidates@ == crate::device::recovery_only(all.take(iter.index() as int)),
        {
            proof {
                assert(all.take(iter.index() + 1).drop_last() =~= all.take(iter.index() as int));
                reveal(Seq::filter);
            }
            if is_recovery_usb_device(&usb_info) {
                candidates.push_back(usb_info);
            }
        }
        assert(all.take(all.len() as int) =~= all);
        let search = EcidSearch { candidates, ..self.search };
        search.advance()
    }
}

impl<'a, R: DeviceMetadataResolver + ?Sized> AwaitingClient<'a, R> {
    /// Begins to open the candidate.
    pub fn begin(&self) -> (step: ClientStep<'a, R>)
        ensures
            crate::open::begins_opening(step, self.usb_info, self.search.metadata_resolver),
    {
        open_recovery_client(self.usb_info.clone(), self.search.metadata_resolver)
    }

    /// Goes on with the opened candidate; one that could not be opened counts
    /// as no match.
    pub fn opened(self, opened: Result<RecoveryClient, RecoveryError>) -> (step: EcidStep<'a, R>)
        ensures
            step@ == after_opening(self.search@, opened),
            step.keeps_resolver(self.search.metadata_resolver),
    {
        match opened {
            Ok(client) => {
                let found = match client.device_info.ecid {
                    Some(ecid) => ecid == self.search.ecid,
                    None => false,
                };
                if found {
                    EcidStep::Done(Ok(client))
                } else {
                    self.search.advance()
                }
            },
            Err(_) => self.search.advance(),
        }
    }
}

impl<'a, R: DeviceMetadataResolver + ?Sized> AwaitingRetry<'a, R> {
    /// Goes on once the delay has passed.
    pub fn slept(self) -> (step: EcidStep<'a, R>)
        ensures
            step@ == EcidStepView::List(self.search@),
            step.keeps_resolver(self.search.metadata_resolver),
    {
        EcidStep::List(AwaitingDevices { search: self.search })
    }
}

/// A search whose device is to be summarized.
pub struct InitRecoveryDevice<'a, R: DeviceMetadataResolver + ?Sized> {
    /// The first step of the search.
    pub search: EcidStep<'a, R>,
}

/// Open and summarize a recovery device by ECID.
///
/// What the search gives is summarized by
/// [`InitializedRecoveryDevice::from_opened`].
pub fn init_recovery_device(ecid: u64, attempts: usize) -> (init: InitRecoveryDevice<
    'static,
    dyn DeviceMetadataResolver,
>)
    ensures
        init.search@ == ecid_start(ecid, attempts as nat),
        init.search.keeps_resolver(None),
{
    InitRecoveryDevice { search: begin_search(ecid, attempts, None) }
}

/// Open and summarize a recovery device by ECID with optional metadata.
pub fn init_recovery_device_with_metadata<'a, R: DeviceMetadataResolver + ?Sized>(
    ecid: u64,
    attempts: usize,
    metadata_resolver: &'a R,
) -> (init: InitRecoveryDevice<'a, R>)
    ensures
        init.search@ == ecid_start(ecid, attempts as nat),
        init.search.keeps_resolver(Some(metadata_resolver)),
{
    InitRecoveryDevice { search: begin_search(ecid, attempts, Some(metadata_resolver)) }
}

/// What the initialization gives for an opened device.
pub open spec fn initialized(opened: Result<RecoveryClient, RecoveryError>) -> Result<
    InitializedRecoveryDevice,
    RecoveryError,
> {
    match opened {
        Ok(client) => Ok(crate::client::summary_of(client)),
        Err(error) => Err(error),
    }
}

impl InitializedRecoveryDevice {
    /// Summarizes what the search for a device gave.
    pub fn from_opened(opened: Result<RecoveryClient, RecoveryError>) -> (device: Result<
        InitializedRecoveryDevice,
        RecoveryError,
    >)
        ensures
            device == initialized(opened),
    {
        match opened {
            Ok(client) => Ok(InitializedRecoveryDevice::from_client(&client)),
            Err(error) => Err(error),
        }
    }
}

/// A search whose device is to leave recovery mode.
pub struct AutoBootAndReboot {
    /// The first step of the search.
    pub search: EcidStep<'static, dyn DeviceMetadataResolver>,
}

/// Open a recovery device by ECID, set `auto-boot=true`, save env, and reboot.
///
/// What the search gives is sent its commands by
/// [`auto_boot_and_reboot_opened`].
pub fn set_auto_boot_and_reboot(ecid: u64, attempts: usize) -> (exit: AutoBootAndReboot)
    ensures
        exit.search@ == ecid_start(ecid, attempts as nat),
        exit.search.keeps_resolver(None),
{
    AutoBootAndReboot { search: begin_search(ecid, attempts, None) }
}

/// Goes on to the commands for the device that the search gave.
pub fn auto_boot_and_reboot_opened(opened: Result<RecoveryClient, RecoveryError>) -> (step:
    SequenceStep)
    ensures
        match opened {
            Ok(_) => crate::client::is_auto_boot_start(step),
            Err(error) => step == SequenceStep::Done(Err(error)),
        },
{
    match opened {
        Ok(client) => match client.set_auto_boot_and_reboot() {
            Ok(step) => step,
            Err(error) => SequenceStep::Done(Err(error)),
        },
        Err(error) => SequenceStep::Done(Err(error)),
    }
}

/// A search as it went: what it gave, and how many enumerations and waits it
/// took.
pub struct SearchRun {
    pub result: Result<RecoveryClient, RecoveryError>,
    pub listings: nat,
    pub sleeps: nat,
}

/// What the bus does during a search: what the enumeration of each attempt
/// gives, and what opening its candidates gives, by the attempt, the place among
/// the candidates and the candidate.
pub struct Bus {
    pub enumerated: spec_fn(nat) -> Result<Seq<UsbDeviceInfo>, nusb::Error>,
    pub opened: spec_fn(nat, nat, UsbDeviceInfo) -> Result<RecoveryClient, RecoveryError>,
}

/// How many attempts may follow the one that `step` belongs to.
pub open spec fn attempts_after(step: EcidStepView) -> nat {
    match step {
        EcidStepView::List(search) => search.remaining,
        EcidStepView::Open(_, search) => search.remaining,
        EcidStepView::Sleep(_, search) => search.remaining,
        EcidStepView::Done(_) => 0,
    }
}

/// How far the attempt that `step` belongs to is from its candidates: waiting
/// for it, enumerating them, or trying them.
pub open spec fn stage_of(step: EcidStepView) -> nat {
    match step {
        EcidStepView::Sleep(_, _) => 2,
        EcidStepView::List(_) => 1,
        EcidStepView::Open(_, _) => 0,
        EcidStepView::Done(_) => 0,
    }
}

/// How many candidates are left to try, counting the present one.
pub open spec fn candidates_left(step: EcidStepView) -> nat {
    match step {
        EcidStepView::Open(_, search) => search.candidates.len() + 1,
        _ => 0,
    }
}

/// The search from `step` on, within attempt number `attempt`, when `tried`
/// candidates of that attempt were tried.
pub open spec fn run_from(bus: Bus, step: EcidStepView, attempt: nat, tried: nat) -> SearchRun
    decreases attempts_after(step), stage_of(step), candidates_left(step),
{
    match step {
        EcidStepView::List(search) => {
            let run = run_from(
                bus,
                after_listing(search, (bus.enumerated)(attempt)),
                attempt,
                0,
            );
            SearchRun { listings: run.listings + 1, ..run }
        },
        EcidStepView::Open(usb_info, search) => run_from(
            bus,
            after_opening(search, (bus.opened)(attempt, tried, usb_info)),
            attempt,
            tried + 1,
        ),
        EcidStepView::Sleep(_, search) => {
            let run = run_from(bus, EcidStepView::List(search), attempt + 1, 0);
            SearchRun { sleeps: run.sleeps + 1, ..run }
        },
        EcidStepView::Done(result) => SearchRun { result, listings: 0, sleeps: 0 },
    }
}

/// What opening the first of `candidates` that has the ECID gives, when `tried`
/// others stand before them.
pub open spec fn first_wanted(
    bus: Bus,
    ecid: u64,
    attempt: nat,
    tried: nat,
    candidates: Seq<UsbDeviceInfo>,
) -> Option<RecoveryClient>
    decreases candidates.len(),
{
    if candidates.len() == 0 {
        None
    } else {
        let opened = (bus.opened)(attempt, tried, candidates[0]);
        if is_wanted(ecid, opened) {
            Some(opened->Ok_0)
        } else {
            first_wanted(bus, ecid, attempt, tried + 1, candidates.skip(1))
        }
    }
}

/// What a search for `ecid` should give and take, from attempt number
/// `attempt` of `attempts` on: the first device with that ECID among the
/// recovery devices of the first attempt that has one; the error of an
/// enumeration that fails before that; or that there is no such device.
pub open spec fn expected_run(bus: Bus, ecid: u64, attempts: nat, attempt: nat) -> SearchRun
    decreases attempts - attempt,
{
    let failed = RecoveryError::NoMatchingDevice { ecid, attempts: attempts as usize };
    match (bus.enumerated)(attempt) {
        Err(error) => SearchRun {
            result: Err(RecoveryError::Usb(error)),
            listings: 1,
            sleeps: 0,
        },
        Ok(devices) => match first_wanted(
            bus,
            ecid,
            attempt,
            0,
            crate::device::recovery_only(devices),
        ) {
            Some(client) => SearchRun { result: Ok(client), listings: 1, sleeps: 0 },
            None => if attempt + 1 < attempts {
                let later = expected_run(bus, ecid, attempts, attempt + 1);
                SearchRun {
                    listings: later.listings + 1,
                    sleeps: later.sleeps + 1,
                    ..later
                }
            } else {
                SearchRun { result: Err(failed), listings: 1, sleeps: 0 }
            },
        },
    }
}

/// An attempt ends with the first candidate that has the ECID, or goes on
/// past all of them.
proof fn lemma_run_candidates(bus: Bus, search: EcidSearchView, attempt: nat, tried: nat)
    ensures
        run_from(bus, advance(search), attempt, tried) == match first_wanted(
            bus,
            search.ecid,
            attempt,
            tried,
            search.candidates,
        ) {
            Some(client) => SearchRun { result: Ok(client), listings: 0, sleeps: 0 },
            None => run_from(
                bus,
                advance(EcidSearchView { candidates: Seq::empty(), ..search }),
                attempt,
                tried + search.candidates.len(),
            ),
        },
    decreases search.candidates.len(),
{
    reveal_with_fuel(run_from, 3);
    if search.candidates.len() > 0 {
        let rest = EcidSearchView { candidates: search.candidates.skip(1), ..search };
        lemma_run_candidates(bus, rest, attempt, tried + 1);
    } else {
        assert(search.candidates =~= Seq::empty());
    }
}

proof fn lemma_run_attempts(bus: Bus, search: EcidSearchView, attempt: nat)
    requires
        search.attempts == attempt + search.remaining + 1,
    ensures
        run_from(bus, EcidStepView::List(search), attempt, 0) == expected_run(
            bus,
            search.ecid,
            search.attempts,
            attempt,
        ),
    decreases search.remaining,
{
    reveal_with_fuel(run_from, 3);
    if let Ok(devices) = (bus.enumerated)(attempt) {
        let candidates = crate::device::recovery_only(devices);
        lemma_run_candidates(bus, EcidSearchView { candidates, ..search }, attempt, 0);
        let next = EcidSearchView {
            candidates: Seq::empty(),
            remaining: (search.remaining - 1) as nat,
            ..search
        };
        if search.remaining > 0 {
            lemma_run_attempts(bus, next, attempt + 1);
        }
    }
}

/// However the bus behaves, the search for an ECID tries the recovery devices
/// of each enumeration in order, over as many attempts as asked for and at
/// least one; it gives the first opened device that has the ECID, or the error
/// of the enumeration that fails first, or that there is no such device.
pub proof fn law_search_finds_first_match(bus: Bus, ecid: u64, attempts: usize)
    ensures
        run_from(bus, ecid_start(ecid, attempts as nat), 0, 0) == expected_run(
            bus,
            ecid,
            effective_attempts(attempts as nat),
            0,
        ),
{
    lemma_run_attempts(bus, ecid_start(ecid, attempts as nat)->List_0, 0);
}

/// `client` came of opening a recovery device of attempt number `attempt`, and
/// has the ECID.
pub open spec fn is_opened_candidate(
    bus: Bus,
    ecid: u64,
    client: RecoveryClient,
    attempt: nat,
) -> bool {
    &&& client.device_info.ecid == Some(ecid)
    &&& (bus.enumerated)(attempt) matches Ok(devices) && exists|tried: nat|
        tried < crate::device::recovery_only(devices).len() && (#[trigger] (bus.opened)(
            attempt,
            tried,
            crate::device::recovery_only(devices)[tried as int],
        )) == Ok::<RecoveryClient, RecoveryError>(client)
}

proof fn lemma_first_wanted(
    bus: Bus,
    ecid: u64,
    attempt: nat,
    tried: nat,
    all: Seq<UsbDeviceInfo>,
)
    requires
        tried <= all.len(),
    ensures
        first_wanted(bus, ecid, attempt, tried, all.skip(tried as int)) matches Some(client)
            ==> client.device_info.ecid == Some(ecid) && exists|place: nat|
            place < all.len() && (#[trigger] (bus.opened)(attempt, place, all[place as int]))
                == Ok::<RecoveryClient, RecoveryError>(client),
    decreases all.len() - tried,
{
    if tried < all.len() {
        let opened = (bus.opened)(attempt, tried, all[tried as int]);
        assert(all.skip(tried as int)[0] == all[tried as int]);
        assert(all.skip(tried as int).skip(1) =~= all.skip(tried + 1int));
        if !is_wanted(ecid, opened) {
            lemma_first_wanted(bus, ecid, attempt, tried + 1, all);
        }
    }
}

proof fn lemma_expected_run(bus: Bus, ecid: u64, attempts: nat, attempt: nat)
    requires
        attempt < attempts,
    ensures
        ({
            let run = expected_run(bus, ecid, attempts, attempt);
            &&& run.listings == run.sleeps + 1
            &&& run.listings <= attempts - attempt
            &&& match run.result {
                Ok(client) => is_opened_candidate(
                    bus,
                    ecid,
                    client,
                    (attempt + run.listings - 1) as nat,
                ),
                Err(RecoveryError::Usb(_)) => true,
                Err(error) => run.listings == attempts - attempt && error
                    == (RecoveryError::NoMatchingDevice { ecid, attempts: attempts as usize }),
            }
        }),
    decreases attempts - attempt,
{
    if let Ok(devices) = (bus.enumerated)(attempt) {
        let all = crate::device::recovery_only(devices);
        lemma_first_wanted(bus, ecid, attempt, 0, all);
        assert(all.skip(0) =~= all);
        if attempt + 1 < attempts {
            lemma_expected_run(bus, ecid, attempts, attempt + 1);
        }
    }
}

/// A search enumerates at most as often as asked for (at least once) and waits
/// once between two enumerations. What it gives came of opening a recovery
/// device of the last enumeration made, and has the ECID. It reports that there
/// is no such device only after the last enumeration, and then with the number of
/// enumerations made.
pub proof fn law_search_counts(bus: Bus, ecid: u64, attempts: usize)
    ensures
        ({
            let run = run_from(bus, ecid_start(ecid, attempts as nat), 0, 0);
            &&& run.listings == run.sleeps + 1
            &&& run.listings <= effective_attempts(attempts as nat)
            &&& match run.result {
                Ok(client) => is_opened_candidate(bus, ecid, client, (run.listings - 1) as nat),
                Err(RecoveryError::Usb(_)) => true,
                Err(RecoveryError::NoMatchingDevice { ecid: missing, attempts: made }) => missing
                    == ecid && made == run.listings && made == effective_attempts(
                    attempts as nat,
                ),
                Err(_) => false,
            }
        }),
{
    law_search_finds_first_match(bus, ecid, attempts);
    lemma_expected_run(bus, ecid, effective_attempts(attempts as nat), 0);
}

/// Initialization summarizes the device with the ECID that was asked for.
pub proof fn law_initialized_device_has_ecid(bus: Bus, ecid: u64, attempts: usize)
    ensures
        initialized(run_from(bus, ecid_start(ecid, attempts as nat), 0, 0).result) matches Ok(
            device,
        ) ==> device.device_info.ecid == Some(ecid),
{
    law_search_counts(bus, ecid, attempts);
}

} // verus!
