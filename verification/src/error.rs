//! The errors of recovery discovery, opening and commands.

use crate::render::{push_hex, push_hex4, push_number};
use vstd::prelude::*;
use vstd::string::*;

verus! {

/// The error of every USB operation of `nusb` but transfers, carried without
/// a look inside.
#[verifier::external_type_specification]
#[verifier::external_body]
pub struct ExUsbError(nusb::Error);

/// The error with which `nusb` reports a failed descriptor read, carried
/// without a look inside.
#[verifier::external_type_specification]
#[verifier::external_body]
pub struct ExGetDescriptorError(nusb::GetDescriptorError);

/// The error with which `nusb` reports a failed transfer, carried without a
/// look inside.
#[verifier::external_type_specification]
#[verifier::external_body]
pub struct ExTransferError(nusb::transfer::TransferError);

/// Errors returned by recovery discovery, opening and command operations.
#[derive(Debug)]
pub enum RecoveryError {
    /// A USB operation failed.
    Usb(nusb::Error),
    /// A USB descriptor could not be read.
    Descriptor(nusb::GetDescriptorError),
    /// A USB transfer failed.
    Transfer(nusb::transfer::TransferError),
    /// The device is not an Apple recovery-family USB device.
    NotRecoveryDevice { vendor_id: u16, product_id: u16 },
    /// No recovery device with this ECID was found.
    NoMatchingDevice { ecid: u64, attempts: usize },
    /// The device did not expose a parseable iBoot descriptor string.
    MissingDeviceInfo,
    /// The command does not fit into 255 bytes.
    CommandTooLong { length: usize },
    /// The command contains a NUL byte.
    CommandContainsNul,
    /// The environment variable name is empty or contains white space or NUL.
    InvalidEnvironmentVariable(String),
    /// A field of the descriptor does not hold a number.
    InvalidDescriptorField { field: &'static str, value: String },
    /// The platform does not support the operation.
    UnsupportedPlatform(&'static str),
}

impl From<nusb::Error> for RecoveryError {
    fn from(error: nusb::Error) -> (converted: RecoveryError) {
        RecoveryError::Usb(error)
    }
}

impl vstd::std_specs::convert::FromSpecImpl<nusb::Error> for RecoveryError {
    open spec fn obeys_from_spec() -> bool {
        true
    }

    open spec fn from_spec(error: nusb::Error) -> RecoveryError {
        RecoveryError::Usb(error)
    }
}

impl From<nusb::GetDescriptorError> for RecoveryError {
    fn from(error: nusb::GetDescriptorError) -> (converted: RecoveryError) {
        RecoveryError::Descriptor(error)
    }
}

impl vstd::std_specs::convert::FromSpecImpl<nusb::GetDescriptorError> for RecoveryError {
    open spec fn obeys_from_spec() -> bool {
        true
    }

    open spec fn from_spec(error: nusb::GetDescriptorError) -> RecoveryError {
        RecoveryError::Descriptor(error)
    }
}

impl From<nusb::transfer::TransferError> for RecoveryError {
    fn from(error: nusb::transfer::TransferError) -> (converted: RecoveryError) {
        RecoveryError::Transfer(error)
    }
}

impl vstd::std_specs::convert::FromSpecImpl<nusb::transfer::TransferError> for RecoveryError {
    open spec fn obeys_from_spec() -> bool {
        true
    }

    open spec fn from_spec(error: nusb::transfer::TransferError) -> RecoveryError {
        RecoveryError::Transfer(error)
    }
}

/// `message` is `start` followed by how `error` displays itself.
pub open spec fn ends_in_display<E: core::fmt::Display>(
    message: Seq<char>,
    start: Seq<char>,
    error: E,
) -> bool {
    exists|shown: String| #[trigger]
        to_string_from_display_ensures::<E>(&error, shown) && message == start + shown@
}

/// `message` tells a user of `error`.
pub open spec fn is_message_of(message: Seq<char>, error: RecoveryError) -> bool {
    match error {
        RecoveryError::Usb(inner) => ends_in_display(message, "USB operation failed: "@, inner),
        RecoveryError::Descriptor(inner) => ends_in_display(
            message,
            "USB descriptor read failed: "@,
            inner,
        ),
        RecoveryError::Transfer(inner) => ends_in_display(
            message,
            "USB transfer failed: "@,
            inner,
        ),
        RecoveryError::NotRecoveryDevice { vendor_id, product_id } => message
            == "device is not an Apple recovery-family USB device: vid="@
            + crate::render::hex4_text(vendor_id as nat) + " pid="@ + crate::render::hex4_text(
            product_id as nat,
        ),
        RecoveryError::NoMatchingDevice { ecid, attempts } => message
            == "no recovery device with ECID "@ + crate::render::hex_text(ecid as nat)
            + " found after "@ + crate::render::digits_of(attempts as nat, 10)
            + " attempt(s)"@,
        RecoveryError::MissingDeviceInfo => message
            == "device did not expose a parseable iBoot descriptor string"@,
        RecoveryError::CommandTooLong { length } => message == "recovery command is too long: "@
            + crate::render::digits_of(length as nat, 10) + " bytes, maximum is 255"@,
        RecoveryError::CommandContainsNul => message == "recovery command contains a NUL byte"@,
        RecoveryError::InvalidEnvironmentVariable(name) => message
            == "environment variable name is empty or contains whitespace/NUL: "@ + name@,
        RecoveryError::InvalidDescriptorField { field, value } => message
            == "invalid descriptor field "@ + field@ + ": "@ + value@,
        RecoveryError::UnsupportedPlatform(what) => message
            == "unsupported platform behavior: "@ + what@,
    }
}

impl RecoveryError {
    /// What to tell a user of the error.
    pub fn message(&self) -> (message: String)
        ensures
            is_message_of(message@, *self),
    {
        let mut message = String::new();
        match self {
            RecoveryError::Usb(inner) => {
                let shown = inner.to_string();
                message.append("USB operation failed: ");
                message.append(shown.as_str());
                assert(message@ =~= "USB operation failed: "@ + shown@);
            },
            RecoveryError::Descriptor(inner) => {
                let shown = inner.to_string();
                message.append("USB descriptor read failed: ");
                message.append(shown.as_str());
                assert(message@ =~= "USB descriptor read failed: "@ + shown@);
            },
            RecoveryError::Transfer(inner) => {
                let shown = inner.to_string();
                message.append("USB transfer failed: ");
                message.append(shown.as_str());
                assert(message@ =~= "USB transfer failed: "@ + shown@);
            },
            RecoveryError::NotRecoveryDevice { vendor_id, product_id } => {
                message.append("device is not an Apple recovery-family USB device: vid=");
                push_hex4(&mut message, *vendor_id);
                message.append(" pid=");
                push_hex4(&mut message, *product_id);
            },
            RecoveryError::NoMatchingDevice { ecid, attempts } => {
                message.append("no recovery device with ECID ");
                push_hex(&mut message, *ecid);
                message.append(" found after ");
                push_number(&mut message, *attempts as u64, 10);
                message.append(" attempt(s)");
            },
            RecoveryError::MissingDeviceInfo => {
                message.append("device did not expose a parseable iBoot descriptor string");
            },
            RecoveryError::CommandTooLong { length } => {
                message.append("recovery command is too long: ");
                push_number(&mut message, *length as u64, 10);
                message.append(" bytes, maximum is 255");
            },
            RecoveryError::CommandContainsNul => {
                message.append("recovery command contains a NUL byte");
            },
            RecoveryError::InvalidEnvironmentVariable(name) => {
                message.append("environment variable name is empty or contains whitespace/NUL: ");
                message.append(name.as_str());
            },
            RecoveryError::InvalidDescriptorField { field, value } => {
                message.append("invalid descriptor field ");
                message.append(field);
                message.append(": ");
                message.append(value.as_str());
            },
            RecoveryError::UnsupportedPlatform(what) => {
                message.append("unsupported platform behavior: ");
                message.append(what);
            },
        }
        assert(is_message_of(message@, *self));
        message
    }
}

/// Each error of the USB layer is kept, and told apart from the others.
pub proof fn law_usb_errors_are_kept(
    usb: nusb::Error,
    descriptor: nusb::GetDescriptorError,
    transfer: nusb::transfer::TransferError,
    of_usb: RecoveryError,
    of_descriptor: RecoveryError,
    of_transfer: RecoveryError,
)
    requires
        call_ensures(<RecoveryError as From<nusb::Error>>::from, (usb,), of_usb),
        call_ensures(
            <RecoveryError as From<nusb::GetDescriptorError>>::from,
            (descriptor,),
            of_descriptor,
        ),
        call_ensures(
            <RecoveryError as From<nusb::transfer::TransferError>>::from,
            (transfer,),
            of_transfer,
        ),
    ensures
        of_usb matches RecoveryError::Usb(inner) && inner == usb,
        of_descriptor matches RecoveryError::Descriptor(inner) && inner == descriptor,
        of_transfer matches RecoveryError::Transfer(inner) && inner == transfer,
{
}

} // verus!
