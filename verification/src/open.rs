//! Opening a recovery device: the steps from an enumerated device to a client.
//!
//! Each step says which USB operation to perform, and takes back what came of
//! it.

use crate::client::RecoveryClient;
use crate::descriptor::{looks_like_iboot_descriptor, RecoveryDeviceInfo};
use crate::device::UsbDeviceInfo;
use crate::error::RecoveryError;
use crate::metadata::{resolve_optional, DeviceMetadata, DeviceMetadataResolver};
use crate::mode::RecoveryMode;
use vstd::prelude::*;

verus! {

/// The interface that a client claims.
pub const DEFAULT_INTERFACE: u8 = 0;

/// How long a descriptor read may take, in milliseconds.
pub const DESCRIPTOR_TIMEOUT_MS: u64 = 10_000;

/// The USB language ID of US English.
pub const ENGLISH_US: u16 = 0x0409;

/// A read of one string descriptor.
#[derive(Debug, Clone, Copy, PartialEq, Eq, Structural)]
pub struct StringRequest {
    pub index: u8,
    pub language_id: u16,
    pub timeout_ms: u64,
}

/// The string descriptors to try, in this order.
pub open spec fn string_indices() -> Seq<u8> {
    seq![3u8, 1u8, 2u8]
}

/// A read of the string descriptor with this index.
pub open spec fn string_request(index: u8) -> StringRequest {
    StringRequest { index, language_id: ENGLISH_US, timeout_ms: DESCRIPTOR_TIMEOUT_MS }
}

/// A search for the iBoot descriptor string that waits for a read.
#[derive(Debug)]
pub struct DescriptorSearch {
    pub enumerated_serial: Option<String>,
    pub asked: u8,
}

/// What comes next in the search for the iBoot descriptor string.
#[derive(Debug)]
pub enum DescriptorStep {
    /// Read a string descriptor.
    Read(StringRequest, DescriptorSearch),
    /// The search is over.
    Done(Result<String, RecoveryError>),
}

/// What a [`DescriptorSearch`] knows: the enumerated serial number and how
/// many descriptors it has asked for.
pub struct DescriptorSearchView {
    pub enumerated_serial: Option<Seq<char>>,
    pub asked: nat,
}

/// What a [`DescriptorStep`] stands for.
pub enum DescriptorStepView {
    Read(StringRequest, DescriptorSearchView),
    Found(Seq<char>),
    Failed(RecoveryError),
}

impl View for DescriptorSearch {
    type V = DescriptorSearchView;

    open spec fn view(&self) -> DescriptorSearchView {
        DescriptorSearchView {
            enumerated_serial: crate::descriptor::string_view(self.enumerated_serial),
            asked: self.asked as nat,
        }
    }
}

impl View for DescriptorStep {
    type V = DescriptorStepView;

    open spec fn view(&self) -> DescriptorStepView {
        match *self {
            DescriptorStep::Read(request, search) => DescriptorStepView::Read(request, search@),
            DescriptorStep::Done(Ok(text)) => DescriptorStepView::Found(text@),
            DescriptorStep::Done(Err(error)) => DescriptorStepView::Failed(error),
        }
    }
}

/// Asks for the next string descriptor; when all are asked for, falls back to
/// the enumerated serial number, if that is not empty.
pub open spec fn ask_next(
    enumerated_serial: Option<Seq<char>>,
    asked: nat,
) -> DescriptorStepView {
    if asked < string_indices().len() {
        DescriptorStepView::Read(
            string_request(string_indices()[asked as int]),
            DescriptorSearchView { enumerated_serial, asked: asked + 1 },
        )
    } else {
        match enumerated_serial {
            Some(serial) => if serial.len() > 0 {
                DescriptorStepView::Found(serial)
            } else {
                DescriptorStepView::Failed(RecoveryError::MissingDeviceInfo)
            },
            None => DescriptorStepView::Failed(RecoveryError::MissingDeviceInfo),
        }
    }
}

/// The text is there and has the mark of an iBoot descriptor string.
pub open spec fn is_marked(text: Option<Seq<char>>) -> bool {
    text matches Some(text) && crate::descriptor::has_iboot_mark(text)
}

/// How the search begins.
pub open spec fn search_start(enumerated_serial: Option<Seq<char>>) -> DescriptorStepView {
    if is_marked(enumerated_serial) {
        DescriptorStepView::Found(enumerated_serial->0)
    } else {
        ask_next(enumerated_serial, 0)
    }
}

/// How the search goes on when a read gave `reply`, nothing standing for a
/// failed read.
pub open spec fn search_reply(
    search: DescriptorSearchView,
    reply: Option<Seq<char>>,
) -> DescriptorStepView {
    if is_marked(reply) {
        DescriptorStepView::Found(reply->0)
    } else {
        ask_next(search.enumerated_serial, search.asked)
    }
}

/// The text that a read gave, whatever error it may have failed with.
pub open spec fn reply_text(reply: Result<String, nusb::GetDescriptorError>) -> Option<Seq<char>> {
    match reply {
        Ok(text) => Some(text@),
        Err(_) => None,
    }
}

/// Begins the search for the iBoot descriptor string of an open device.
pub fn read_iboot_descriptor_string(enumerated_serial: Option<String>) -> (step: DescriptorStep)
    ensures
        step@ == search_start(crate::descriptor::string_view(enumerated_serial)),
{
    let marked = match &enumerated_serial {
        Some(serial) => looks_like_iboot_descriptor(serial.as_str()),
        None => false,
    };
    match enumerated_serial {
        Some(serial) => if marked {
            DescriptorStep::Done(Ok(serial))
        } else {
            DescriptorSearch { enumerated_serial: Some(serial), asked: 0 }.ask()
        },
        None => DescriptorSearch { enumerated_serial: None, asked: 0 }.ask(),
    }
}

impl DescriptorSearch {
    fn ask(self) -> (step: DescriptorStep)
        ensures
            step@ == ask_next(
                crate::descriptor::string_view(self.enumerated_serial),
                self.asked as nat,
            ),
    {
        if self.asked < 3 {
            let index: u8 = if self.asked == 0 {
                3
            } else if self.asked == 1 {
                1
            } else {
                2
            };
            DescriptorStep::Read(
                StringRequest {
                    index,
                    language_id: ENGLISH_US,
                    timeout_ms: DESCRIPTOR_TIMEOUT_MS,
                },
                DescriptorSearch {
                    enumerated_serial: self.enumerated_serial,
                    asked: self.asked + 1,
                },
            )
        } else {
            match self.enumerated_serial {
                Some(serial) => if serial.as_str().is_empty() {
                    DescriptorStep::Done(Err(RecoveryError::MissingDeviceInfo))
                } else {
                    DescriptorStep::Done(Ok(serial))
                },
                None => DescriptorStep::Done(Err(RecoveryError::MissingDeviceInfo)),
            }
        }
    }

    /// Goes on with what the read gave; a failed read counts as no match.
    pub fn read(self, reply: Result<String, nusb::GetDescriptorError>) -> (step: DescriptorStep)
        ensures
            step@ == search_reply(self@, reply_text(reply)),
    {
        match reply {
            Ok(value) => if looks_like_iboot_descriptor(value.as_str()) {
                DescriptorStep::Done(Ok(value))
            } else {
                self.ask()
            },
            Err(_) => self.ask(),
        }
    }
}

/// How a platform claims an interface.
#[derive(Debug, Clone, Copy, PartialEq, Eq, Structural)]
pub enum ClaimPolicy {
    /// Detach the kernel driver first, and claim without that if it fails.
    DetachThenClaim,
    /// Claim only.
    ClaimOnly,
}

/// A claim of one interface.
#[derive(Debug, Clone, Copy, PartialEq, Eq, Structural)]
pub struct ClaimRequest {
    pub interface: u8,
    pub detach_kernel_driver: bool,
}

/// A client that waits for its device to be opened.
pub struct OpeningClient<'a, R: DeviceMetadataResolver + ?Sized> {
    pub usb_info: UsbDeviceInfo,
    pub mode: RecoveryMode,
    pub metadata_resolver: Option<&'a R>,
}

/// A client that waits for a string descriptor of its device.
pub struct ReadingClient<'a, R: DeviceMetadataResolver + ?Sized> {
    pub opening: OpeningClient<'a, R>,
    pub claim_policy: ClaimPolicy,
    pub search: DescriptorSearch,
}

/// A client that waits for its interface to be claimed.
pub struct ClaimingClient<'a, R: DeviceMetadataResolver + ?Sized> {
    pub opening: OpeningClient<'a, R>,
    pub device_info: RecoveryDeviceInfo,
    pub detaching: bool,
}

/// What comes next in opening a client.
pub enum ClientStep<'a, R: DeviceMetadataResolver + ?Sized> {
    /// Open the device.
    Open(OpeningClient<'a, R>),
    /// Read a string descriptor of the open device.
    Read(StringRequest, ReadingClient<'a, R>),
    /// Claim an interface of the open device.
    Claim(ClaimRequest, ClaimingClient<'a, R>),
    /// Opening is over.
    Done(Result<RecoveryClient, RecoveryError>),
}

/// `step` begins the opening of the device that `usb_info` stands for.
pub open spec fn begins_opening<'a, R: DeviceMetadataResolver + ?Sized>(
    step: ClientStep<'a, R>,
    usb_info: UsbDeviceInfo,
    resolver: Option<&'a R>,
) -> bool {
    match crate::mode::mode_of(usb_info.product_id) {
        Some(mode) => step == ClientStep::Open(
            OpeningClient { usb_info, mode, metadata_resolver: resolver },
        ),
        None => step == ClientStep::<'a, R>::Done(
            Err(
                RecoveryError::NotRecoveryDevice {
                    vendor_id: usb_info.vendor_id,
                    product_id: usb_info.product_id,
                },
            ),
        ),
    }
}

/// `step` claims the interface for a device with this information.
pub open spec fn claims<'a, R: DeviceMetadataResolver + ?Sized>(
    step: ClientStep<'a, R>,
    opening: OpeningClient<'a, R>,
    info: crate::descriptor::DeviceInfoView,
    detach: bool,
) -> bool {
    step matches ClientStep::Claim(request, claiming) && request == (ClaimRequest {
        interface: DEFAULT_INTERFACE,
        detach_kernel_driver: detach,
    }) && claiming.opening == opening && claiming.device_info@ == info && claiming.detaching
        == detach
}

/// `step` goes on from where the descriptor search stands.
pub open spec fn follows_search<'a, R: DeviceMetadataResolver + ?Sized>(
    step: ClientStep<'a, R>,
    opening: OpeningClient<'a, R>,
    claim_policy: ClaimPolicy,
    search: DescriptorStepView,
) -> bool {
    match search {
        DescriptorStepView::Read(asked, pending) => step matches ClientStep::Read(request, reading)
            && request == asked && reading.opening == opening && reading.claim_policy
            == claim_policy && reading.search@ == pending,
        DescriptorStepView::Found(text) => match crate::descriptor::parsed(
            text,
            opening.usb_info.product_id,
        ) {
            Ok(info) => claims(
                step,
                opening,
                info,
                claim_policy == ClaimPolicy::DetachThenClaim,
            ),
            Err((key, value)) => step matches ClientStep::Done(Err(error))
                && crate::descriptor::is_field_error(error, key, value),
        },
        DescriptorStepView::Failed(error) => step == ClientStep::<'a, R>::Done(Err(error)),
    }
}

/// `step` goes on from an attempt to open the device.
pub open spec fn follows_open<'a, R: DeviceMetadataResolver + ?Sized>(
    step: ClientStep<'a, R>,
    opening: OpeningClient<'a, R>,
    claim_policy: ClaimPolicy,
    outcome: Result<(), nusb::Error>,
) -> bool {
    match outcome {
        Ok(_) => follows_search(
            step,
            opening,
            claim_policy,
            search_start(crate::descriptor::string_view(opening.usb_info.serial_number)),
        ),
        Err(error) => step == ClientStep::<'a, R>::Done(Err(RecoveryError::Usb(error))),
    }
}

/// `client` is the opened device, with the resolver's answer on its
/// descriptor.
pub open spec fn is_client_of<'a, R: DeviceMetadataResolver + ?Sized>(
    client: RecoveryClient,
    opening: OpeningClient<'a, R>,
    device_info: RecoveryDeviceInfo,
) -> bool {
    &&& client.usb_info == opening.usb_info
    &&& client.mode == opening.mode
    &&& client.device_info == device_info
    &&& crate::metadata::resolution(opening.metadata_resolver, &device_info, client.metadata)
}

/// `step` goes on from an attempt to claim the interface: a failed one that
/// was to detach the kernel driver is followed by one that is not.
pub open spec fn follows_claim<'a, R: DeviceMetadataResolver + ?Sized>(
    step: ClientStep<'a, R>,
    claiming: ClaimingClient<'a, R>,
    outcome: Result<(), nusb::Error>,
) -> bool {
    match outcome {
        Ok(_) => step matches ClientStep::Done(Ok(client)) && is_client_of(
            client,
            claiming.opening,
            claiming.device_info,
        ),
        Err(error) => if claiming.detaching {
            claims(step, claiming.opening, claiming.device_info@, false)
        } else {
            step == ClientStep::<'a, R>::Done(Err(RecoveryError::Usb(error)))
        },
    }
}

/// Begins to open the recovery device that `usb_info` stands for.
pub fn open_recovery_client<'a, R: DeviceMetadataResolver + ?Sized>(
    usb_info: UsbDeviceInfo,
    metadata_resolver: Option<&'a R>,
) -> (step: ClientStep<'a, R>)
    ensures
        begins_opening(step, usb_info, metadata_resolver),
{
    match RecoveryMode::from_product_id(usb_info.product_id) {
        Some(mode) => ClientStep::Open(OpeningClient { usb_info, mode, metadata_resolver }),
        None => ClientStep::Done(
            Err(
                RecoveryError::NotRecoveryDevice {
                    vendor_id: usb_info.vendor_id,
                    product_id: usb_info.product_id,
                },
            ),
        ),
    }
}

fn follow_search<'a, R: DeviceMetadataResolver + ?Sized>(
    opening: OpeningClient<'a, R>,
    claim_policy: ClaimPolicy,
    search: DescriptorStep,
) -> (step: ClientStep<'a, R>)
    ensures
        follows_search(step, opening, claim_policy, search@),
{
    match search {
        DescriptorStep::Read(request, search) => ClientStep::Read(
            request,
            ReadingClient { opening, claim_policy, search },
        ),
        DescriptorStep::Done(Ok(text)) => match RecoveryDeviceInfo::parse(
            text,
            opening.usb_info.product_id,
        ) {
            Ok(device_info) => {
                let detaching = claim_policy == ClaimPolicy::DetachThenClaim;
                ClientStep::Claim(
                    ClaimRequest { interface: DEFAULT_INTERFACE, detach_kernel_driver: detaching },
                    ClaimingClient { opening, device_info, detaching },
                )
            },
            Err(error) => ClientStep::Done(Err(error)),
        },
        DescriptorStep::Done(Err(error)) => ClientStep::Done(Err(error)),
    }
}

impl<'a, R: DeviceMetadataResolver + ?Sized> OpeningClient<'a, R> {
    /// Goes on once the device was opened, or could not be.
    pub fn opened(
        self,
        outcome: Result<(), nusb::Error>,
        claim_policy: ClaimPolicy,
    ) -> (step: ClientStep<'a, R>)
        ensures
            follows_open(step, self, claim_policy, outcome),
    {
        match outcome {
            Ok(_) => {
                let search = read_iboot_descriptor_string(self.usb_info.serial_number.clone());
                follow_search(self, claim_policy, search)
            },
            Err(error) => ClientStep::Done(Err(RecoveryError::from(error))),
        }
    }
}

impl<'a, R: DeviceMetadataResolver + ?Sized> ReadingClient<'a, R> {
    /// Goes on with what the read gave.
    pub fn read(self, reply: Result<String, nusb::GetDescriptorError>) -> (step: ClientStep<'a, R>)
        ensures
            follows_search(
                step,
                self.opening,
                self.claim_policy,
                search_reply(self.search@, reply_text(reply)),
            ),
    {
        let search = self.search.read(reply);
        follow_search(self.opening, self.claim_policy, search)
    }
}

impl<'a, R: DeviceMetadataResolver + ?Sized> ClaimingClient<'a, R> {
    /// The client, once the interface is claimed and the resolver has
    /// answered.
    pub fn finish(self, metadata: Option<DeviceMetadata>) -> (client: RecoveryClient)
        ensures
            client == (RecoveryClient {
                usb_info: self.opening.usb_info,
                mode: self.opening.mode,
                device_info: self.device_info,
                metadata,
            }),
    {
        RecoveryClient {
            usb_info: self.opening.usb_info,
            mode: self.opening.mode,
            device_info: self.device_info,
            metadata,
        }
    }

    /// Goes on once the interface was claimed, or could not be.
    pub fn claimed(self, outcome: Result<(), nusb::Error>) -> (step: ClientStep<'a, R>)
        ensures
            follows_claim(step, self, outcome),
    {
        match outcome {
            Ok(_) => {
                let metadata = resolve_optional(self.opening.metadata_resolver, &self.device_info);
                ClientStep::Done(Ok(self.finish(metadata)))
            },
            Err(error) => if self.detaching {
                ClientStep::Claim(
                    ClaimRequest { interface: DEFAULT_INTERFACE, detach_kernel_driver: false },
                    ClaimingClient {
                        opening: self.opening,
                        device_info: self.device_info,
                        detaching: false,
                    },
                )
            } else {
                ClientStep::Done(Err(RecoveryError::from(error)))
            },
        }
    }
}

} // verus!
