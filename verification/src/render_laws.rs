//! What a user is told, character by character.

use crate::device::RecoveryDevice;
use crate::error::RecoveryError;
use crate::mode::RecoveryMode;
use crate::render::{device_lines, first_with_ecid, format_optional_hex, target_line};
use vstd::prelude::*;

verus! {

/// A number is written with the digit of what is left when it is divided by the
/// base, behind what the quotient is written as.
pub proof fn law_numbers_are_written(n: nat, base: nat)
    requires
        2 <= base <= 16,
    ensures
        n < base ==> crate::render::digits_of(n, base) == seq!["0123456789abcdef"@[n as int]],
        n >= base ==> crate::render::digits_of(n, base) == crate::render::digits_of(
            n / base,
            base,
        ).push("0123456789abcdef"@[(n % base) as int]),
{
    reveal_strlit("0123456789abcdef");
    assert(n % base < base) by (nonlinear_arith)
        requires
            base >= 2,
    ;
}

/// A number is written without leading zeros.
pub proof fn law_numbers_have_no_leading_zeros(n: nat, base: nat)
    requires
        2 <= base <= 16,
    ensures
        crate::render::digits_of(n, base).len() > 0,
        crate::render::digits_of(n, base)[0] == '0' <==> n == 0,
    decreases n,
{
    if n >= base {
        assert(0 < n / base < n) by (nonlinear_arith)
            requires
                n >= base,
                base >= 2,
        ;
        law_numbers_have_no_leading_zeros(n / base, base);
    }
}

/// Four hexadecimal digits behind `0x`.
pub open spec fn four_digits(n: u16) -> Seq<char> {
    seq![
        '0',
        'x',
        "0123456789abcdef"@[n as int / 0x1000],
        "0123456789abcdef"@[n as int / 0x100 % 0x10],
        "0123456789abcdef"@[n as int / 0x10 % 0x10],
        "0123456789abcdef"@[n as int % 0x10],
    ]
}

/// A vendor or product ID is written with just four digits.
pub proof fn law_ids_have_four_digits(n: u16)
    ensures
        crate::render::hex4_text(n as nat) == four_digits(n),
{
    reveal_strlit("0123456789abcdef");
    let m = n as nat;
    crate::render::lemma_small_digit_counts(m);
    law_numbers_are_written(m, 16);
    law_numbers_are_written(m / 16, 16);
    law_numbers_are_written(m / 16 / 16, 16);
    law_numbers_are_written(m / 16 / 16 / 16, 16);
    assert(m / 16 / 16 == m / 0x100);
    assert(m / 16 / 16 / 16 == m / 0x1000);
    assert(crate::render::hex4_text(m) =~= four_digits(n));
}

/// A number is shown in hexadecimal behind `0x`, and its absence as `unknown`.
pub proof fn law_optional_hex(value: Option<u64>, text: String)
    requires
        call_ensures(format_optional_hex, (value,), text),
    ensures
        match value {
            Some(value) => text@ == "0x"@ + crate::render::digits_of(value as nat, 16),
            None => text@ == "unknown"@,
        },
{
    reveal_strlit("0x");
}

/// The name of a mode; an unknown one shows its product ID in decimal.
pub open spec fn shown_mode(mode: RecoveryMode) -> Seq<char> {
    match mode {
        RecoveryMode::Wtf => "Wtf"@,
        RecoveryMode::Dfu => "Dfu"@,
        RecoveryMode::Recovery => "Recovery"@,
        RecoveryMode::Restore => "Restore"@,
        RecoveryMode::Kis => "Kis"@,
        RecoveryMode::Unknown(product_id) => "Unknown("@ + crate::render::digits_of(
            product_id as nat,
            10,
        ) + ")"@,
    }
}

/// The board of the metadata, or else the one that the descriptor names, or else
/// `unknown`.
pub open spec fn shown_model(device: RecoveryDevice) -> Seq<char> {
    match (device.metadata, device.device_info) {
        (Some(metadata), _) => metadata.board@,
        (None, Some(info)) => match info.srtg {
            Some(srtg) => srtg@,
            None => "unknown"@,
        },
        (None, None) => "unknown"@,
    }
}

/// The display name of the metadata, or `Unknown Device`.
pub open spec fn shown_name(device: RecoveryDevice) -> Seq<char> {
    match device.metadata {
        Some(metadata) => metadata.display_name@,
        None => "Unknown Device"@,
    }
}

/// What is shown of a device behind `label`, with its ECID written as `ecid`.
pub open spec fn shown_device(
    label: Seq<char>,
    id: Seq<char>,
    device: RecoveryDevice,
    ecid: Seq<char>,
) -> Seq<char> {
    label + (" id="@ + id + " vid="@ + four_digits(device.vendor_id) + " pid="@ + four_digits(
        device.product_id,
    ) + " mode="@ + shown_mode(device.mode) + " ecid="@ + ecid + " model="@ + shown_model(device)
        + " name="@ + shown_name(device))
}

/// A device is told of in one line, with its ID, vendor and product ID, mode,
/// ECID, model and name, and in a second one with its serial number if it has
/// one.
pub proof fn law_device_lines(
    label: &str,
    id: &str,
    device: &RecoveryDevice,
    ecid: String,
    lines: Vec<String>,
)
    requires
        call_ensures(device_lines, (label, id, device), lines),
        call_ensures(format_optional_hex, (device.ecid,), ecid),
    ensures
        lines@.len() == if device.usb_serial_number is Some {
            2int
        } else {
            1int
        },
        lines@[0]@ == shown_device(label@, id@, *device, ecid@),
        device.usb_serial_number matches Some(serial) ==> lines@[1]@ == "  serial: "@ + serial@,
{
    law_ids_have_four_digits(device.vendor_id);
    law_ids_have_four_digits(device.product_id);
}

/// The device that is made to leave recovery mode is told of in one line, where
/// an ECID that is not known is shown as zero.
pub proof fn law_target_line(id: &str, device: &RecoveryDevice, line: String)
    requires
        call_ensures(target_line, (id, device), line),
    ensures
        line@ == shown_device(
            "exiting recovery on"@,
            id@,
            *device,
            "0x"@ + crate::render::digits_of(
                match device.ecid {
                    Some(ecid) => ecid as nat,
                    None => 0,
                },
                16,
            ),
        ),
{
    reveal_strlit("0x");
    law_ids_have_four_digits(device.vendor_id);
    law_ids_have_four_digits(device.product_id);
}

/// The device to leave recovery mode is the first of which the ECID is known; if
/// one is known at all, one is found.
pub proof fn law_first_with_ecid(devices: &Vec<RecoveryDevice>, found: Option<usize>, i: int)
    requires
        call_ensures(first_with_ecid, (devices,), found),
        0 <= i < devices@.len(),
        devices@[i].ecid is Some,
    ensures
        found matches Some(first) && first <= i && devices@[first as int].ecid is Some,
{
}

/// What a user is told of each error. Behind the three of the USB layer stands
/// how the inner error displays itself.
pub proof fn law_messages(error: &RecoveryError, message: String)
    requires
        call_ensures(RecoveryError::message, (error,), message),
    ensures
        match *error {
            RecoveryError::Usb(inner) => exists|shown: String| #[trigger]
                vstd::string::to_string_from_display_ensures::<nusb::Error>(&inner, shown)
                    && message@ == "USB operation failed: "@ + shown@,
            RecoveryError::Descriptor(inner) => exists|shown: String| #[trigger]
                vstd::string::to_string_from_display_ensures::<nusb::GetDescriptorError>(
                    &inner,
                    shown,
                ) && message@ == "USB descriptor read failed: "@ + shown@,
            RecoveryError::Transfer(inner) => exists|shown: String| #[trigger]
                vstd::string::to_string_from_display_ensures::<nusb::transfer::TransferError>(
                    &inner,
                    shown,
                ) && message@ == "USB transfer failed: "@ + shown@,
            RecoveryError::NotRecoveryDevice { vendor_id, product_id } => message@
                == "device is not an Apple recovery-family USB device: vid="@ + four_digits(
                vendor_id,
            ) + " pid="@ + four_digits(product_id),
            RecoveryError::NoMatchingDevice { ecid, attempts } => message@
                == "no recovery device with ECID "@ + ("0x"@ + crate::render::digits_of(
                ecid as nat,
                16,
            )) + " found after "@ + crate::render::digits_of(attempts as nat, 10)
                + " attempt(s)"@,
            RecoveryError::MissingDeviceInfo => message@
                == "device did not expose a parseable iBoot descriptor string"@,
            RecoveryError::CommandTooLong { length } => message@
                == "recovery command is too long: "@ + crate::render::digits_of(length as nat, 10)
                + " bytes, maximum is 255"@,
            RecoveryError::CommandContainsNul => message@
                == "recovery command contains a NUL byte"@,
            RecoveryError::InvalidEnvironmentVariable(name) => message@
                == "environment variable name is empty or contains whitespace/NUL: "@ + name@,
            RecoveryError::InvalidDescriptorField { field, value } => message@
                == "invalid descriptor field "@ + field@ + ": "@ + value@,
            RecoveryError::UnsupportedPlatform(what) => message@
                == "unsupported platform behavior: "@ + what@,
        },
{
    reveal_strlit("0x");
    if let RecoveryError::NotRecoveryDevice { vendor_id, product_id } = *error {
        law_ids_have_four_digits(vendor_id);
        law_ids_have_four_digits(product_id);
    }
}

} // verus!
