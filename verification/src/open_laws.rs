//! What holds of opening a device, however the device behaves.

use crate::client::RecoveryClient;
use crate::device::UsbDeviceInfo;
use crate::error::RecoveryError;
use crate::metadata::{DeviceMetadata, DeviceMetadataResolver};
use crate::open::{
    open_recovery_client, read_iboot_descriptor_string, ClaimPolicy, ClaimingClient, ClientStep,
    DescriptorSearch, DescriptorStep, OpeningClient, ReadingClient, StringRequest,
};
use vstd::prelude::*;

verus! {

/// What became of a search for the descriptor string.
#[verifier::ext_equal]
pub struct DescriptorRun {
    /// The descriptors that were asked for.
    pub asked: Seq<u8>,
    /// The text that was found.
    pub found: Option<Seq<char>>,
}

/// How many reads a step has ahead of it at most.
pub open spec fn reads_ahead(step: crate::open::DescriptorStepView) -> nat {
    match step {
        crate::open::DescriptorStepView::Read(_, search) => if search.asked <= 3 {
            (4 - search.asked) as nat
        } else {
            1
        },
        _ => 0,
    }
}

/// The search from `step` on, when the device answers the read of each
/// descriptor as `strings` says.
pub open spec fn descriptor_run(
    step: crate::open::DescriptorStepView,
    strings: spec_fn(u8) -> Option<Seq<char>>,
) -> DescriptorRun
    decreases reads_ahead(step),
{
    match step {
        crate::open::DescriptorStepView::Read(request, search) => {
            let later = descriptor_run(
                crate::open::search_reply(search, strings(request.index)),
                strings,
            );
            DescriptorRun { asked: seq![request.index] + later.asked, found: later.found }
        },
        crate::open::DescriptorStepView::Found(text) => DescriptorRun {
            asked: Seq::empty(),
            found: Some(text),
        },
        crate::open::DescriptorStepView::Failed(_) => DescriptorRun {
            asked: Seq::empty(),
            found: None,
        },
    }
}

/// The descriptor string of a device: the enumerated serial number if it has
/// the mark of one, or else the first of the string descriptors three, one and
/// two that has it, or else the serial number if it is not empty.
pub open spec fn descriptor_text(
    serial: Option<Seq<char>>,
    strings: spec_fn(u8) -> Option<Seq<char>>,
) -> Option<Seq<char>> {
    if crate::open::is_marked(serial) {
        serial
    } else if crate::open::is_marked(strings(3)) {
        strings(3)
    } else if crate::open::is_marked(strings(1)) {
        strings(1)
    } else if crate::open::is_marked(strings(2)) {
        strings(2)
    } else if serial matches Some(text) && text.len() > 0 {
        serial
    } else {
        None
    }
}

/// The search finds the descriptor string of the device. It asks for string
/// descriptors only if the serial number is not one, and for no more once one
/// is found.
pub proof fn law_search_finds_descriptor(
    serial: Option<Seq<char>>,
    strings: spec_fn(u8) -> Option<Seq<char>>,
)
    ensures
        descriptor_run(crate::open::search_start(serial), strings) == (DescriptorRun {
            asked: if crate::open::is_marked(serial) {
                Seq::empty()
            } else if crate::open::is_marked(strings(3)) {
                seq![3u8]
            } else if crate::open::is_marked(strings(1)) {
                seq![3u8, 1u8]
            } else {
                seq![3u8, 1u8, 2u8]
            },
            found: descriptor_text(serial, strings),
        }),
{
    reveal_with_fuel(descriptor_run, 5);
    let run = descriptor_run(crate::open::search_start(serial), strings);
    if !crate::open::is_marked(serial) {
        if crate::open::is_marked(strings(3)) {
            assert(run.asked =~= seq![3u8]);
        } else if crate::open::is_marked(strings(1)) {
            assert(run.asked =~= seq![3u8, 1u8]);
        } else {
            assert(run.asked =~= seq![3u8, 1u8, 2u8]);
        }
    }
}

/// How a device behaves while it is opened.
pub struct DeviceBehavior {
    /// What comes of opening it.
    pub opened: Result<(), nusb::Error>,
    /// What its string descriptors hold, where they can be read.
    pub strings: spec_fn(u8) -> Option<Seq<char>>,
    /// What comes of claiming its interface, with and without detaching the
    /// kernel driver.
    pub claimed: spec_fn(bool) -> Result<(), nusb::Error>,
}

/// `next` follows `step` on a device with this behavior.
pub open spec fn follows<'a, R: DeviceMetadataResolver + ?Sized>(
    device: DeviceBehavior,
    claim_policy: ClaimPolicy,
    step: ClientStep<'a, R>,
    next: ClientStep<'a, R>,
) -> bool {
    match step {
        ClientStep::Open(opening) => crate::open::follows_open(
            next,
            opening,
            claim_policy,
            device.opened,
        ),
        ClientStep::Read(request, reading) => crate::open::follows_search(
            next,
            reading.opening,
            reading.claim_policy,
            crate::open::search_reply(reading.search@, (device.strings)(request.index)),
        ),
        ClientStep::Claim(request, claiming) => crate::open::follows_claim(
            next,
            claiming,
            (device.claimed)(request.detach_kernel_driver),
        ),
        ClientStep::Done(_) => false,
    }
}

/// `steps` lead from the device that `usb_info` stands for to `result`.
pub open spec fn opens_with<'a, R: DeviceMetadataResolver + ?Sized>(
    device: DeviceBehavior,
    claim_policy: ClaimPolicy,
    usb_info: UsbDeviceInfo,
    resolver: Option<&'a R>,
    steps: Seq<ClientStep<'a, R>>,
    result: Result<RecoveryClient, RecoveryError>,
) -> bool {
    &&& steps.len() > 0
    &&& crate::open::begins_opening(steps[0], usb_info, resolver)
    &&& forall|i: int|
        0 < i < steps.len() ==> follows(device, claim_policy, steps[i - 1], #[trigger] steps[i])
    &&& steps.last() == ClientStep::<'a, R>::Done(result)
}

/// What claiming the interface comes to, for a device with this information.
pub open spec fn is_claim_result<'a, R: DeviceMetadataResolver + ?Sized>(
    device: DeviceBehavior,
    detach: bool,
    opening: OpeningClient<'a, R>,
    info: crate::descriptor::DeviceInfoView,
    result: Result<RecoveryClient, RecoveryError>,
) -> bool {
    let outcome = if detach && (device.claimed)(true) is Ok {
        (device.claimed)(true)
    } else {
        (device.claimed)(false)
    };
    match outcome {
        Ok(_) => result matches Ok(client) && client.device_info@ == info
            && crate::open::is_client_of(client, opening, client.device_info),
        Err(error) => result == Err::<RecoveryClient, RecoveryError>(RecoveryError::Usb(error)),
    }
}

/// What comes of the descriptor string that was found, or of finding none.
pub open spec fn is_text_result<'a, R: DeviceMetadataResolver + ?Sized>(
    device: DeviceBehavior,
    claim_policy: ClaimPolicy,
    opening: OpeningClient<'a, R>,
    found: Option<Seq<char>>,
    result: Result<RecoveryClient, RecoveryError>,
) -> bool {
    match found {
        Some(text) => match crate::descriptor::parsed(text, opening.usb_info.product_id) {
            Ok(info) => is_claim_result(
                device,
                claim_policy == ClaimPolicy::DetachThenClaim,
                opening,
                info,
                result,
            ),
            Err((key, value)) => result matches Err(error) && crate::descriptor::is_field_error(
                error,
                key,
                value,
            ),
        },
        None => result == Err::<RecoveryClient, RecoveryError>(RecoveryError::MissingDeviceInfo),
    }
}

/// What opening the device that `usb_info` stands for comes to.
pub open spec fn is_open_result<'a, R: DeviceMetadataResolver + ?Sized>(
    device: DeviceBehavior,
    claim_policy: ClaimPolicy,
    usb_info: UsbDeviceInfo,
    resolver: Option<&'a R>,
    result: Result<RecoveryClient, RecoveryError>,
) -> bool {
    match crate::mode::mode_of(usb_info.product_id) {
        None => result == Err::<RecoveryClient, RecoveryError>(
            RecoveryError::NotRecoveryDevice {
                vendor_id: usb_info.vendor_id,
                product_id: usb_info.product_id,
            },
        ),
        Some(mode) => match device.opened {
            Err(error) => result == Err::<RecoveryClient, RecoveryError>(
                RecoveryError::Usb(error),
            ),
            Ok(_) => is_text_result(
                device,
                claim_policy,
                OpeningClient { usb_info, mode, metadata_resolver: resolver },
                descriptor_text(
                    crate::descriptor::string_view(usb_info.serial_number),
                    device.strings,
                ),
                result,
            ),
        },
    }
}

/// A search that fails does so for want of a descriptor string.
spec fn fails_plainly(step: crate::open::DescriptorStepView) -> bool {
    step matches crate::open::DescriptorStepView::Failed(error) ==> error
        == RecoveryError::MissingDeviceInfo
}

/// `result` is what comes of `step`.
spec fn ends_in<'a, R: DeviceMetadataResolver + ?Sized>(
    device: DeviceBehavior,
    claim_policy: ClaimPolicy,
    step: ClientStep<'a, R>,
    result: Result<RecoveryClient, RecoveryError>,
) -> bool {
    match step {
        ClientStep::Open(opening) => match device.opened {
            Err(error) => result == Err::<RecoveryClient, RecoveryError>(
                RecoveryError::Usb(error),
            ),
            Ok(_) => is_text_result(
                device,
                claim_policy,
                opening,
                descriptor_run(
                    crate::open::search_start(
                        crate::descriptor::string_view(opening.usb_info.serial_number),
                    ),
                    device.strings,
                ).found,
                result,
            ),
        },
        ClientStep::Read(request, reading) => is_text_result(
            device,
            reading.claim_policy,
            reading.opening,
            descriptor_run(
                crate::open::search_reply(reading.search@, (device.strings)(request.index)),
                device.strings,
            ).found,
            result,
        ),
        ClientStep::Claim(request, claiming) => request.detach_kernel_driver == claiming.detaching
            ==> is_claim_result(
            device,
            claiming.detaching,
            claiming.opening,
            claiming.device_info@,
            result,
        ),
        ClientStep::Done(done) => done == result,
    }
}

proof fn lemma_search_result<'a, R: DeviceMetadataResolver + ?Sized>(
    device: DeviceBehavior,
    claim_policy: ClaimPolicy,
    opening: OpeningClient<'a, R>,
    search: crate::open::DescriptorStepView,
    next: ClientStep<'a, R>,
    result: Result<RecoveryClient, RecoveryError>,
)
    requires
        fails_plainly(search),
        crate::open::follows_search(next, opening, claim_policy, search),
        ends_in(device, claim_policy, next, result),
    ensures
        is_text_result(
            device,
            claim_policy,
            opening,
            descriptor_run(search, device.strings).found,
            result,
        ),
{
}

proof fn lemma_trace<'a, R: DeviceMetadataResolver + ?Sized>(
    device: DeviceBehavior,
    claim_policy: ClaimPolicy,
    steps: Seq<ClientStep<'a, R>>,
    from: int,
    result: Result<RecoveryClient, RecoveryError>,
)
    requires
        0 <= from < steps.len(),
        forall|i: int|
            0 < i < steps.len() ==> follows(device, claim_policy, steps[i - 1], #[trigger] steps[i]),
        steps.last() == ClientStep::<'a, R>::Done(result),
    ensures
        ends_in(device, claim_policy, steps[from], result),
    decreases steps.len() - from,
{
    if from + 1 < steps.len() {
        lemma_trace(device, claim_policy, steps, from + 1, result);
        let step = steps[from];
        let next = steps[from + 1];
        assert(follows(device, claim_policy, steps[from + 1 - 1], steps[from + 1]));
        match step {
            ClientStep::Open(opening) => {
                if device.opened is Ok {
                    lemma_search_result(
                        device,
                        claim_policy,
                        opening,
                        crate::open::search_start(
                            crate::descriptor::string_view(opening.usb_info.serial_number),
                        ),
                        next,
                        result,
                    );
                }
            },
            ClientStep::Read(request, reading) => {
                lemma_search_result(
                    device,
                    reading.claim_policy,
                    reading.opening,
                    crate::open::search_reply(reading.search@, (device.strings)(request.index)),
                    next,
                    result,
                );
            },
            ClientStep::Claim(request, claiming) => {},
            ClientStep::Done(_) => {},
        }
    }
}

/// However the device behaves, opening it gives a client exactly if its product
/// ID is of the recovery family, it can be opened, its descriptor string is
/// found and parses, and its interface can be claimed; and otherwise the error
/// of the first of these that fails.
pub proof fn law_opening_result<'a, R: DeviceMetadataResolver + ?Sized>(
    device: DeviceBehavior,
    claim_policy: ClaimPolicy,
    usb_info: UsbDeviceInfo,
    resolver: Option<&'a R>,
    steps: Seq<ClientStep<'a, R>>,
    result: Result<RecoveryClient, RecoveryError>,
)
    requires
        opens_with(device, claim_policy, usb_info, resolver, steps, result),
    ensures
        is_open_result(device, claim_policy, usb_info, resolver, result),
{
    lemma_trace(device, claim_policy, steps, 0, result);
    law_search_finds_descriptor(
        crate::descriptor::string_view(usb_info.serial_number),
        device.strings,
    );
}

/// A client tells of the device that was opened: its mode is the one of the
/// product ID, and its information is what its own descriptor string says.
pub proof fn law_client_tells_of_its_device<'a, R: DeviceMetadataResolver + ?Sized>(
    device: DeviceBehavior,
    claim_policy: ClaimPolicy,
    usb_info: UsbDeviceInfo,
    resolver: Option<&'a R>,
    client: RecoveryClient,
)
    requires
        is_open_result(device, claim_policy, usb_info, resolver, Ok(client)),
    ensures
        client.usb_info == usb_info,
        crate::mode::mode_of(usb_info.product_id) == Some(client.mode),
        client.device_info.pid == usb_info.product_id,
        crate::descriptor::parsed(client.device_info.serial_string@, usb_info.product_id) == Ok::<
            crate::descriptor::DeviceInfoView,
            (Seq<char>, Seq<char>),
        >(client.device_info@),
        crate::metadata::resolution(resolver, &client.device_info, client.metadata),
{
}

/// However the devices behave, a client that the search for an ECID gives tells
/// of a recovery device of the last enumeration made: it has the ECID, its mode
/// and its information are of that device's product ID, and its metadata is what
/// the resolver said of its own information.
pub proof fn law_found_client_tells_of_its_device<'a, R: DeviceMetadataResolver + ?Sized>(
    bus: crate::ecid::Bus,
    behaviors: spec_fn(nat, nat, UsbDeviceInfo) -> DeviceBehavior,
    claim_policy: ClaimPolicy,
    resolver: Option<&'a R>,
    ecid: u64,
    attempts: usize,
)
    requires
        forall|attempt: nat, tried: nat, usb_info: UsbDeviceInfo|
            is_open_result(
                behaviors(attempt, tried, usb_info),
                claim_policy,
                usb_info,
                resolver,
                #[trigger] (bus.opened)(attempt, tried, usb_info),
            ),
    ensures
        ({
            let run = crate::ecid::run_from(
                bus,
                crate::ecid::ecid_start(ecid, attempts as nat),
                0,
                0,
            );
            run.result matches Ok(client) ==> {
                &&& (bus.enumerated)((run.listings - 1) as nat) matches Ok(devices)
                    && devices.contains(client.usb_info)
                &&& crate::device::is_recovery(client.usb_info)
                &&& client.device_info.ecid == Some(ecid)
                &&& client.device_info.pid == client.usb_info.product_id
                &&& crate::mode::product_id_of(client.mode) == Some(client.device_info.pid)
                &&& crate::descriptor::parsed(
                    client.device_info.serial_string@,
                    client.device_info.pid,
                ) == Ok::<crate::descriptor::DeviceInfoView, (Seq<char>, Seq<char>)>(
                    client.device_info@,
                )
                &&& crate::metadata::resolution(resolver, &client.device_info, client.metadata)
            }
        }),
{
    let run = crate::ecid::run_from(bus, crate::ecid::ecid_start(ecid, attempts as nat), 0, 0);
    crate::ecid::law_search_counts(bus, ecid, attempts);
    if let Ok(client) = run.result {
        let last = (run.listings - 1) as nat;
        let devices = (bus.enumerated)(last)->Ok_0;
        let candidates = crate::device::recovery_only(devices);
        let tried = choose|tried: nat|
            tried < candidates.len() && (#[trigger] (bus.opened)(
                last,
                tried,
                candidates[tried as int],
            )) == Ok::<RecoveryClient, RecoveryError>(client);
        let usb_info = candidates[tried as int];
        law_client_tells_of_its_device(
            behaviors(last, tried, usb_info),
            claim_policy,
            usb_info,
            resolver,
            client,
        );
        assert(candidates.contains(usb_info));
        crate::device::law_recovery_only(devices, usb_info);
    }
}

/// Initialization summarizes such a client: the summary has the ECID, and its
/// mode, information and metadata belong together.
pub proof fn law_initialized_device_tells_of_itself<'a, R: DeviceMetadataResolver + ?Sized>(
    bus: crate::ecid::Bus,
    behaviors: spec_fn(nat, nat, UsbDeviceInfo) -> DeviceBehavior,
    claim_policy: ClaimPolicy,
    resolver: Option<&'a R>,
    ecid: u64,
    attempts: usize,
)
    requires
        forall|attempt: nat, tried: nat, usb_info: UsbDeviceInfo|
            is_open_result(
                behaviors(attempt, tried, usb_info),
                claim_policy,
                usb_info,
                resolver,
                #[trigger] (bus.opened)(attempt, tried, usb_info),
            ),
    ensures
        crate::ecid::initialized(
            crate::ecid::run_from(
                bus,
                crate::ecid::ecid_start(ecid, attempts as nat),
                0,
                0,
            ).result,
        ) matches Ok(device) ==> {
            &&& device.device_info.ecid == Some(ecid)
            &&& crate::mode::product_id_of(device.mode) == Some(device.device_info.pid)
            &&& crate::metadata::resolution(resolver, &device.device_info, device.metadata)
        },
{
    law_found_client_tells_of_its_device(bus, behaviors, claim_policy, resolver, ecid, attempts);
}

/// An ECID, CPID or BDID stands in the text with its colon.
pub open spec fn has_mark(text: Seq<char>) -> bool {
    !(crate::field_laws::absent(text, "ECID:"@) && crate::field_laws::absent(text, "CPID:"@)
        && crate::field_laws::absent(text, "BDID:"@))
}

proof fn lemma_has_mark(text: Seq<char>)
    ensures
        crate::descriptor::has_iboot_mark(text) == has_mark(text),
{
    crate::field_laws::lemma_found_at(text, "ECID:"@);
    crate::field_laws::lemma_found_at(text, "CPID:"@);
    crate::field_laws::lemma_found_at(text, "BDID:"@);
    crate::field_laws::lemma_first_at(text, "ECID:"@, 0);
    crate::field_laws::lemma_first_at(text, "CPID:"@, 0);
    crate::field_laws::lemma_first_at(text, "BDID:"@, 0);
}

/// A read of the string descriptor with this index in US English, which may take
/// ten seconds.
pub open spec fn reads_string(request: StringRequest, index: u8) -> bool {
    request.index == index && request.language_id == 0x0409 && request.timeout_ms == 10_000
}

/// The search for the descriptor string asks for descriptor three, then one, then
/// two; after them it falls back to the serial number, if that is not empty.
pub open spec fn asks_on(step: DescriptorStep, serial: Option<String>, asked: nat) -> bool {
    if asked < 3 {
        step matches DescriptorStep::Read(request, search) && {
            &&& reads_string(request, seq![3u8, 1u8, 2u8][asked as int])
            &&& search.asked == asked + 1
            &&& crate::descriptor::string_view(search.enumerated_serial)
                == crate::descriptor::string_view(serial)
        }
    } else {
        match serial {
            Some(serial) => if serial@.len() > 0 {
                step matches DescriptorStep::Done(Ok(text)) && text@ == serial@
            } else {
                step matches DescriptorStep::Done(Err(RecoveryError::MissingDeviceInfo))
            },
            None => step matches DescriptorStep::Done(Err(RecoveryError::MissingDeviceInfo)),
        }
    }
}

/// The search is over at once if the serial number has the mark of a descriptor
/// string, and asks for the first string descriptor otherwise.
pub proof fn law_descriptor_search_begins(serial: Option<String>, step: DescriptorStep)
    requires
        call_ensures(read_iboot_descriptor_string, (serial,), step),
    ensures
        if serial matches Some(serial) && has_mark(serial@) {
            step matches DescriptorStep::Done(Ok(text)) && text@ == serial->0@
        } else {
            asks_on(step, serial, 0)
        },
{
    if let Some(serial) = serial {
        lemma_has_mark(serial@);
    }
}

/// A text with the mark ends the search; after any other, and after a read that
/// failed, the next string descriptor is asked for.
pub proof fn law_descriptor_search_goes_on(
    search: DescriptorSearch,
    reply: Result<String, nusb::GetDescriptorError>,
    step: DescriptorStep,
)
    requires
        call_ensures(DescriptorSearch::read, (search, reply), step),
    ensures
        if reply matches Ok(text) && has_mark(text@) {
            step matches DescriptorStep::Done(Ok(text)) && text@ == reply->Ok_0@
        } else {
            asks_on(step, search.enumerated_serial, search.asked as nat)
        },
{
    if let Ok(text) = reply {
        lemma_has_mark(text@);
    }
}

/// A device of the family is opened, in the mode of its product ID and with this
/// resolver; any other is refused with its two IDs.
pub open spec fn begins<'a, R: DeviceMetadataResolver + ?Sized>(
    step: ClientStep<'a, R>,
    usb_info: UsbDeviceInfo,
    resolver: Option<&'a R>,
) -> bool {
    if crate::device_laws::family().dom().contains(usb_info.product_id) {
        step matches ClientStep::Open(opening) && {
            &&& opening.usb_info == usb_info
            &&& opening.mode == crate::device_laws::family()[usb_info.product_id]
            &&& opening.metadata_resolver == resolver
        }
    } else {
        step matches ClientStep::Done(
            Err(RecoveryError::NotRecoveryDevice { vendor_id, product_id }),
        ) && vendor_id == usb_info.vendor_id && product_id == usb_info.product_id
    }
}

/// Opening begins with the device itself.
pub proof fn law_opening_begins<'a, R: DeviceMetadataResolver + ?Sized>(
    usb_info: UsbDeviceInfo,
    resolver: Option<&'a R>,
    step: ClientStep<'a, R>,
)
    requires
        call_ensures(open_recovery_client::<R>, (usb_info, resolver), step),
    ensures
        begins(step, usb_info, resolver),
{
}

/// `step` claims interface zero for a device that says what its descriptor string
/// `text` does, or refuses a descriptor string that does not parse.
pub open spec fn takes_text<'a, R: DeviceMetadataResolver + ?Sized>(
    step: ClientStep<'a, R>,
    opening: OpeningClient<'a, R>,
    detach: bool,
    text: Seq<char>,
) -> bool {
    match crate::descriptor::parsed(text, opening.usb_info.product_id) {
        Ok(info) => claims_for(step, opening, info, detach),
        Err((key, value)) => step matches ClientStep::Done(
            Err(RecoveryError::InvalidDescriptorField { field, value: found }),
        ) && field@ == key && found@ == value,
    }
}

/// `step` claims interface zero, and detaches the kernel driver if so asked.
pub open spec fn claims_for<'a, R: DeviceMetadataResolver + ?Sized>(
    step: ClientStep<'a, R>,
    opening: OpeningClient<'a, R>,
    info: crate::descriptor::DeviceInfoView,
    detach: bool,
) -> bool {
    step matches ClientStep::Claim(request, claiming) && {
        &&& request.interface == 0
        &&& request.detach_kernel_driver == detach
        &&& claiming.detaching == detach
        &&& claiming.opening == opening
        &&& claiming.device_info@ == info
    }
}

/// `step` goes on from where the search for the descriptor string stands.
pub open spec fn takes_search<'a, R: DeviceMetadataResolver + ?Sized>(
    step: ClientStep<'a, R>,
    opening: OpeningClient<'a, R>,
    claim_policy: ClaimPolicy,
    serial: Option<String>,
    asked: nat,
) -> bool {
    if asked < 3 {
        step matches ClientStep::Read(request, reading) && {
            &&& reads_string(request, seq![3u8, 1u8, 2u8][asked as int])
            &&& reading.opening == opening
            &&& reading.claim_policy == claim_policy
            &&& reading.search.asked == asked + 1
            &&& crate::descriptor::string_view(reading.search.enumerated_serial)
                == crate::descriptor::string_view(serial)
        }
    } else {
        match serial {
            Some(serial) => if serial@.len() > 0 {
                takes_text(step, opening, claim_policy is DetachThenClaim, serial@)
            } else {
                step matches ClientStep::Done(Err(RecoveryError::MissingDeviceInfo))
            },
            None => step matches ClientStep::Done(Err(RecoveryError::MissingDeviceInfo)),
        }
    }
}

/// A device that was opened is asked for its descriptor string, unless its serial
/// number is one; that it could not be opened is reported.
pub proof fn law_opened_device_is_followed<'a, R: DeviceMetadataResolver + ?Sized>(
    opening: OpeningClient<'a, R>,
    outcome: Result<(), nusb::Error>,
    claim_policy: ClaimPolicy,
    step: ClientStep<'a, R>,
)
    requires
        call_ensures(OpeningClient::<'a, R>::opened, (opening, outcome, claim_policy), step),
    ensures
        match outcome {
            Err(error) => step == ClientStep::<'a, R>::Done(Err(RecoveryError::Usb(error))),
            Ok(_) => if opening.usb_info.serial_number matches Some(serial) && has_mark(serial@) {
                takes_text(
                    step,
                    opening,
                    claim_policy is DetachThenClaim,
                    opening.usb_info.serial_number->0@,
                )
            } else {
                takes_search(step, opening, claim_policy, opening.usb_info.serial_number, 0)
            },
        },
{
    if let Some(serial) = opening.usb_info.serial_number {
        lemma_has_mark(serial@);
    }
}

/// A text with the mark is taken as the descriptor string; otherwise the search
/// goes on.
pub proof fn law_read_string_is_followed<'a, R: DeviceMetadataResolver + ?Sized>(
    reading: ReadingClient<'a, R>,
    reply: Result<String, nusb::GetDescriptorError>,
    step: ClientStep<'a, R>,
)
    requires
        call_ensures(ReadingClient::<'a, R>::read, (reading, reply), step),
    ensures
        if reply matches Ok(text) && has_mark(text@) {
            takes_text(
                step,
                reading.opening,
                reading.claim_policy is DetachThenClaim,
                reply->Ok_0@,
            )
        } else {
            takes_search(
                step,
                reading.opening,
                reading.claim_policy,
                reading.search.enumerated_serial,
                reading.search.asked as nat,
            )
        },
{
    if let Ok(text) = reply {
        lemma_has_mark(text@);
    }
}

/// A claimed interface gives the client, with the resolver's answer on its own
/// information; a claim that failed with the kernel driver detached is tried once
/// more without that, and any other failure is reported.
pub proof fn law_claim_is_followed<'a, R: DeviceMetadataResolver + ?Sized>(
    claiming: ClaimingClient<'a, R>,
    outcome: Result<(), nusb::Error>,
    step: ClientStep<'a, R>,
)
    requires
        call_ensures(ClaimingClient::<'a, R>::claimed, (claiming, outcome), step),
    ensures
        match outcome {
            Ok(_) => step matches ClientStep::Done(Ok(client)) && {
                &&& client.usb_info == claiming.opening.usb_info
                &&& client.mode == claiming.opening.mode
                &&& client.device_info == claiming.device_info
                &&& match claiming.opening.metadata_resolver {
                    Some(resolver) => call_ensures(
                        R::resolve,
                        (resolver, &claiming.device_info),
                        client.metadata,
                    ),
                    None => client.metadata is None,
                }
            },
            Err(error) => if claiming.detaching {
                claims_for(step, claiming.opening, claiming.device_info@, false)
            } else {
                step == ClientStep::<'a, R>::Done(Err(RecoveryError::Usb(error)))
            },
        },
{
}

/// A client is put together from the device that was opened and the metadata it
/// is given.
pub proof fn law_client_is_put_together<'a, R: DeviceMetadataResolver + ?Sized>(
    claiming: ClaimingClient<'a, R>,
    metadata: Option<DeviceMetadata>,
    client: RecoveryClient,
)
    requires
        call_ensures(ClaimingClient::<'a, R>::finish, (claiming, metadata), client),
    ensures
        client.usb_info == claiming.opening.usb_info,
        client.mode == claiming.opening.mode,
        client.device_info == claiming.device_info,
        client.metadata == metadata,
{
}

/// The descriptor string of a device: its serial number if that has the mark, or
/// else the first of the string descriptors three, one and two that has it, or
/// else its serial number if that is not empty.
pub open spec fn is_descriptor_text(
    text: Seq<char>,
    serial: Option<String>,
    strings: spec_fn(u8) -> Option<Seq<char>>,
) -> bool {
    if serial matches Some(serial) && has_mark(serial@) {
        text == serial->0@
    } else if strings(3) matches Some(string) && has_mark(string) {
        text == strings(3)->0
    } else if strings(1) matches Some(string) && has_mark(string) {
        text == strings(1)->0
    } else if strings(2) matches Some(string) && has_mark(string) {
        text == strings(2)->0
    } else {
        serial matches Some(serial) && serial@.len() > 0 && text == serial@
    }
}

/// However a device behaves while it is opened, a client comes of it exactly if
/// it is of the family, can be opened, has a descriptor string, the string
/// parses, and its interface can be claimed; the first of these that fails is
/// what is reported. The client tells of that device.
pub proof fn law_opening_outcome<'a, R: DeviceMetadataResolver + ?Sized>(
    device: DeviceBehavior,
    claim_policy: ClaimPolicy,
    usb_info: UsbDeviceInfo,
    resolver: Option<&'a R>,
    steps: Seq<ClientStep<'a, R>>,
    result: Result<RecoveryClient, RecoveryError>,
    text: Seq<char>,
)
    requires
        opens_with(device, claim_policy, usb_info, resolver, steps, result),
    ensures
        if !crate::device_laws::family().dom().contains(usb_info.product_id) {
            result matches Err(RecoveryError::NotRecoveryDevice { vendor_id, product_id })
                && vendor_id == usb_info.vendor_id && product_id == usb_info.product_id
        } else if device.opened is Err {
            result matches Err(RecoveryError::Usb(error)) && error == device.opened->Err_0
        } else if !(exists|any: Seq<char>| #[trigger]
            is_descriptor_text(any, usb_info.serial_number, device.strings)) {
            result matches Err(RecoveryError::MissingDeviceInfo)
        } else {
            is_descriptor_text(text, usb_info.serial_number, device.strings) ==> match
                crate::descriptor::parsed(text, usb_info.product_id) {
                Err((key, value)) => result matches Err(
                    RecoveryError::InvalidDescriptorField { field, value: found },
                ) && field@ == key && found@ == value,
                Ok(info) => if (claim_policy is DetachThenClaim && (device.claimed)(true) is Ok)
                    || (device.claimed)(false) is Ok {
                    result matches Ok(client) && {
                        &&& client.usb_info == usb_info
                        &&& client.mode == crate::device_laws::family()[usb_info.product_id]
                        &&& client.device_info@ == info
                        &&& match resolver {
                            Some(resolver) => call_ensures(
                                R::resolve,
                                (resolver, &client.device_info),
                                client.metadata,
                            ),
                            None => client.metadata is None,
                        }
                    }
                } else {
                    result matches Err(RecoveryError::Usb(error)) && error == (device.claimed)(
                        false,
                    )->Err_0
                },
            }
        },
{
    law_opening_result(device, claim_policy, usb_info, resolver, steps, result);
    if let Some(serial) = usb_info.serial_number {
        lemma_has_mark(serial@);
    }
    if let Some(string) = (device.strings)(3) {
        lemma_has_mark(string);
    }
    if let Some(string) = (device.strings)(1) {
        lemma_has_mark(string);
    }
    if let Some(string) = (device.strings)(2) {
        lemma_has_mark(string);
    }
    if let Some(found) = descriptor_text(
        crate::descriptor::string_view(usb_info.serial_number),
        device.strings,
    ) {
        assert(is_descriptor_text(found, usb_info.serial_number, device.strings));
    }
}

} // verus!
