//! Texts that tell a user about recovery devices.

use crate::device::RecoveryDevice;
use crate::mode::RecoveryMode;
use vstd::prelude::*;
use vstd::string::*;

verus! {

/// The digit with value `d`, in lower case.
pub open spec fn digit_char(d: nat) -> char {
    if d < 10 {
        ('0' as u32 + d) as char
    } else {
        ('a' as u32 + d - 10) as char
    }
}

/// `n` written in a base from two to sixteen, without leading zeros.
pub open spec fn digits_of(n: nat, base: nat) -> Seq<char>
    decreases n,
{
    if n < base || base < 2 {
        seq![digit_char(n)]
    } else {
        proof {
            assert(n / base < n) by (nonlinear_arith)
                requires
                    n >= base,
                    base >= 2,
            ;
        }
        digits_of(n / base, base).push(digit_char(n % base))
    }
}

/// `n` in hexadecimal, with the prefix `0x`.
pub open spec fn hex_text(n: nat) -> Seq<char> {
    seq!['0', 'x'] + digits_of(n, 16)
}

/// `n` in hexadecimal, with the prefix `0x` and at least four digits.
pub open spec fn hex4_text(n: nat) -> Seq<char> {
    let digits = digits_of(n, 16);
    if digits.len() < 4 {
        seq!['0', 'x'] + Seq::new((4 - digits.len()) as nat, |i: int| '0') + digits
    } else {
        seq!['0', 'x'] + digits
    }
}

/// An optional number in hexadecimal.
pub open spec fn optional_hex_text(value: Option<u64>) -> Seq<char> {
    match value {
        Some(value) => hex_text(value as nat),
        None => "unknown"@,
    }
}

/// The name of a mode.
pub open spec fn mode_text(mode: RecoveryMode) -> Seq<char> {
    match mode {
        RecoveryMode::Wtf => "Wtf"@,
        RecoveryMode::Dfu => "Dfu"@,
        RecoveryMode::Recovery => "Recovery"@,
        RecoveryMode::Restore => "Restore"@,
        RecoveryMode::Kis => "Kis"@,
        RecoveryMode::Unknown(product_id) => "Unknown("@ + digits_of(product_id as nat, 10) + ")"@,
    }
}

/// The hardware model of a device, if it is known.
pub open spec fn model_text(device: RecoveryDevice) -> Seq<char> {
    match crate::metadata::model_of(
        device.metadata,
        match device.device_info {
            Some(info) => info@.srtg,
            None => None,
        },
    ) {
        Some(model) => model,
        None => "unknown"@,
    }
}

/// The identifiers of a device, with its ECID written as `ecid`.
pub open spec fn identity_text(id: Seq<char>, device: RecoveryDevice, ecid: Seq<char>) -> Seq<
    char,
> {
    " id="@ + id + " vid="@ + hex4_text(device.vendor_id as nat) + " pid="@ + hex4_text(
        device.product_id as nat,
    ) + " mode="@ + mode_text(device.mode) + " ecid="@ + ecid + " model="@ + model_text(device)
        + " name="@ + crate::metadata::name_of(device.metadata)
}

fn digit_text(digit: u64) -> (text: &'static str)
    requires
        digit < 16,
    ensures
        text@ == seq![digit_char(digit as nat)],
{
    proof {
        reveal_strlit("0");
        reveal_strlit("1");
        reveal_strlit("2");
        reveal_strlit("3");
        reveal_strlit("4");
        reveal_strlit("5");
        reveal_strlit("6");
        reveal_strlit("7");
        reveal_strlit("8");
        reveal_strlit("9");
        reveal_strlit("a");
        reveal_strlit("b");
        reveal_strlit("c");
        reveal_strlit("d");
        reveal_strlit("e");
        reveal_strlit("f");
    }
    match digit {
        0 => "0",
        1 => "1",
        2 => "2",
        3 => "3",
        4 => "4",
        5 => "5",
        6 => "6",
        7 => "7",
        8 => "8",
        9 => "9",
        10 => "a",
        11 => "b",
        12 => "c",
        13 => "d",
        14 => "e",
        _ => "f",
    }
}

/// Appends a number in the given base.
pub(crate) fn push_number(out: &mut String, n: u64, base: u64)
    requires
        2 <= base <= 16,
    ensures
        final(out)@ == old(out)@ + digits_of(n as nat, base as nat),
    decreases n,
{
    if n >= base {
        assert(n / base < n) by (nonlinear_arith)
            requires
                n >= base,
                base >= 2,
        ;
        push_number(out, n / base, base);
    }
    assert(n % base < base) by (nonlinear_arith)
        requires
            base >= 2,
    ;
    out.append(digit_text(n % base));
    proof {
        if n < base {
            assert(n % base == n) by (nonlinear_arith)
                requires
                    n < base,
            ;
        }
        assert(out@ =~= old(out)@ + digits_of(n as nat, base as nat));
    }
}

/// Appends a number in hexadecimal, with its prefix.
pub(crate) fn push_hex(out: &mut String, n: u64)
    ensures
        final(out)@ == old(out)@ + hex_text(n as nat),
{
    proof {
        reveal_strlit("0x");
    }
    out.append("0x");
    push_number(out, n, 16);
    assert(out@ =~= old(out)@ + hex_text(n as nat));
}

pub(crate) proof fn lemma_small_digit_counts(n: nat)
    ensures
        n < 0x10 ==> digits_of(n, 16).len() == 1,
        0x10 <= n < 0x100 ==> digits_of(n, 16).len() == 2,
        0x100 <= n < 0x1000 ==> digits_of(n, 16).len() == 3,
        0x1000 <= n < 0x10000 ==> digits_of(n, 16).len() == 4,
{
    reveal_with_fuel(digits_of, 4);
}

/// Appends a number in hexadecimal, with its prefix and at least four digits.
pub(crate) fn push_hex4(out: &mut String, n: u16)
    ensures
        final(out)@ == old(out)@ + hex4_text(n as nat),
{
    proof {
        reveal_strlit("0x");
        reveal_strlit("000");
        reveal_strlit("00");
        reveal_strlit("0");
        lemma_small_digit_counts(n as nat);
    }
    out.append("0x");
    if n < 0x10 {
        out.append("000");
    } else if n < 0x100 {
        out.append("00");
    } else if n < 0x1000 {
        out.append("0");
    }
    push_number(out, n as u64, 16);
    assert(out@ =~= old(out)@ + hex4_text(n as nat));
}

fn push_mode(out: &mut String, mode: RecoveryMode)
    ensures
        final(out)@ == old(out)@ + mode_text(mode),
{
    match mode {
        RecoveryMode::Wtf => out.append("Wtf"),
        RecoveryMode::Dfu => out.append("Dfu"),
        RecoveryMode::Recovery => out.append("Recovery"),
        RecoveryMode::Restore => out.append("Restore"),
        RecoveryMode::Kis => out.append("Kis"),
        RecoveryMode::Unknown(product_id) => {
            out.append("Unknown(");
            push_number(out, product_id as u64, 10);
            out.append(")");
        },
    }
    assert(out@ =~= old(out)@ + mode_text(mode));
}

/// A number in hexadecimal, or `unknown`.
pub fn format_optional_hex(value: Option<u64>) -> (text: String)
    ensures
        text@ == optional_hex_text(value),
{
    match value {
        Some(value) => {
            let mut text = String::new();
            push_hex(&mut text, value);
            assert(text@ =~= hex_text(value as nat));
            text
        },
        None => "unknown".to_owned(),
    }
}

fn push_identity(out: &mut String, id: &str, device: &RecoveryDevice, ecid: &str)
    ensures
        final(out)@ == old(out)@ + identity_text(id@, *device, ecid@),
{
    out.append(" id=");
    out.append(id);
    out.append(" vid=");
    push_hex4(out, device.vendor_id);
    out.append(" pid=");
    push_hex4(out, device.product_id);
    out.append(" mode=");
    push_mode(out, device.mode);
    out.append(" ecid=");
    out.append(ecid);
    out.append(" model=");
    match device.hardware_model() {
        Some(model) => out.append(model),
        None => out.append("unknown"),
    }
    out.append(" name=");
    out.append(device.display_name());
    assert(out@ =~= old(out)@ + identity_text(id@, *device, ecid@));
}

/// The lines that tell of a device: its identifiers after `label`, and its
/// serial number if it has one. `id` is how the system names the device.
pub fn device_lines(label: &str, id: &str, device: &RecoveryDevice) -> (lines: Vec<String>)
    ensures
        lines@.len() == if device.usb_serial_number is Some {
            2nat
        } else {
            1nat
        },
        lines@[0]@ == label@ + identity_text(id@, *device, optional_hex_text(device.ecid)),
        device.usb_serial_number matches Some(serial) ==> lines@[1]@ == "  serial: "@ + serial@,
{
    let ecid = format_optional_hex(device.ecid);
    let mut first = label.to_owned();
    push_identity(&mut first, id, device, ecid.as_str());
    let mut lines: Vec<String> = Vec::new();
    lines.push(first);
    if let Some(serial) = &device.usb_serial_number {
        let mut second = "  serial: ".to_owned();
        second.append(serial.as_str());
        lines.push(second);
    }
    lines
}

/// The ECID to name a device by, zero standing for none.
pub open spec fn ecid_or_zero(ecid: Option<u64>) -> nat {
    match ecid {
        Some(ecid) => ecid as nat,
        None => 0,
    }
}

/// The line that tells which device is made to leave recovery mode.
pub fn target_line(id: &str, device: &RecoveryDevice) -> (line: String)
    ensures
        line@ == "exiting recovery on"@ + identity_text(
            id@,
            *device,
            hex_text(ecid_or_zero(device.ecid)),
        ),
{
    let mut ecid = String::new();
    push_hex(&mut ecid, device.ecid.unwrap_or(0));
    assert(ecid@ =~= hex_text(ecid_or_zero(device.ecid)));
    let mut line = "exiting recovery on".to_owned();
    push_identity(&mut line, id, device, ecid.as_str());
    line
}

/// The first device whose ECID is known.
pub fn first_with_ecid(devices: &Vec<RecoveryDevice>) -> (found: Option<usize>)
    ensures
        match found {
            Some(i) => i < devices@.len() && devices@[i as int].ecid is Some && forall|j: int|
                0 <= j < i ==> (#[trigger] devices@[j]).ecid is None,
            None => forall|j: int| 0 <= j < devices@.len() ==> (#[trigger] devices@[j]).ecid is None,
        },
{
    let mut i: usize = 0;
    while i < devices.len()
        invariant
            i <= devices@.len(),
            forall|j: int| 0 <= j < i ==> (#[trigger] devices@[j]).ecid is None,
        decreases devices@.len() - i,
    {
        if devices[i].ecid.is_some() {
            return Some(i);
        }
        i += 1;
    }
    None
}

} // verus!
