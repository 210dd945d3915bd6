//! Recovery commands and the control transfers that carry them.

use crate::error::RecoveryError;
use vstd::prelude::*;
use vstd::string::*;
use vstd::utf8::*;

verus! {

/// How long a command may take on the bus, in milliseconds.
pub const COMMAND_TIMEOUT_MS: u64 = 10_000;

/// The number of bytes from which on a command is too long.
pub const COMMAND_LIMIT: usize = 0x100;

/// Specification that defines a control request.
#[derive(Debug, Clone, Copy, PartialEq, Eq, Structural)]
pub enum ControlType {
    Standard,
    Class,
    Vendor,
}

/// Entity that a control request is made to.
#[derive(Debug, Clone, Copy, PartialEq, Eq, Structural)]
pub enum Recipient {
    Device,
    Interface,
    Endpoint,
    Other,
}

/// A control transfer to the device.
#[derive(Debug, PartialEq, Eq)]
pub struct ControlRequest {
    pub control_type: ControlType,
    pub recipient: Recipient,
    pub request: u8,
    pub value: u16,
    pub index: u16,
    pub data: Vec<u8>,
    pub timeout_ms: u64,
}

/// The bytes that carry a command: its UTF-8 encoding and a NUL, or nothing
/// for the empty command.
pub open spec fn payload_of(command: Seq<char>) -> Seq<u8> {
    if command.len() == 0 {
        Seq::empty()
    } else {
        encode_utf8(command).push(0)
    }
}

/// The error that a command is refused with.
pub open spec fn command_refusal(command: Seq<char>) -> Option<RecoveryError> {
    if encode_utf8(command).len() >= COMMAND_LIMIT {
        Some(RecoveryError::CommandTooLong { length: encode_utf8(command).len() as usize })
    } else if encode_utf8(command).contains(0u8) {
        Some(RecoveryError::CommandContainsNul)
    } else {
        None
    }
}

/// `request` carries `payload` under the request number `b_request`.
pub open spec fn carries(request: ControlRequest, b_request: u8, payload: Seq<u8>) -> bool {
    &&& request.control_type == ControlType::Vendor
    &&& request.recipient == Recipient::Device
    &&& request.request == b_request
    &&& request.value == 0
    &&& request.index == 0
    &&& request.data@ == payload
    &&& request.timeout_ms == COMMAND_TIMEOUT_MS
}

/// The byte is one that a variable name may not hold: NUL, space, tab, line
/// feed, form feed or carriage return.
pub open spec fn is_forbidden_in_name(byte: u8) -> bool {
    byte == 0 || byte == 0x20 || byte == 0x09 || byte == 0x0a || byte == 0x0c || byte == 0x0d
}

/// The text can name an environment variable.
pub open spec fn is_variable_name(variable: Seq<char>) -> bool {
    &&& variable.len() > 0
    &&& forall|i: int|
        0 <= i < encode_utf8(variable).len() ==> !is_forbidden_in_name(
            #[trigger] encode_utf8(variable)[i],
        )
}

/// The command that sets a variable.
pub open spec fn setenv_command(variable: Seq<char>, value: Seq<char>) -> Seq<char> {
    "setenv "@ + variable + " "@ + value
}

fn contains_nul(bytes: &[u8]) -> (found: bool)
    ensures
        found == bytes@.contains(0u8),
{
    let mut i: usize = 0;
    while i < bytes.len()
        invariant
            i <= bytes@.len(),
            forall|j: int| 0 <= j < i ==> bytes@[j] != 0,
        decreases bytes@.len() - i,
    {
        if bytes[i] == 0 {
            return true;
        }
        i += 1;
    }
    false
}

/// The bytes to send for a command.
pub fn command_payload(command: &str) -> (payload: Result<Vec<u8>, RecoveryError>)
    ensures
        match payload {
            Ok(payload) => command_refusal(command@) is None && payload@ == payload_of(command@),
            Err(error) => command_refusal(command@) == Some(error),
        },
        payload matches Err(RecoveryError::CommandTooLong { length }) ==> length == encode_utf8(
            command@,
        ).len(),
{
    let bytes = command.as_bytes();
    let length: usize = bytes.len();
    if length >= COMMAND_LIMIT {
        return Err(RecoveryError::CommandTooLong { length });
    }
    if contains_nul(bytes) {
        return Err(RecoveryError::CommandContainsNul);
    }
    if command.is_empty() {
        return Ok(Vec::new());
    }
    let mut payload: Vec<u8> = Vec::with_capacity(length + 1);
    payload.extend_from_slice(bytes);
    payload.push(0);
    assert(payload@ =~= payload_of(command@));
    Ok(payload)
}

/// Refuses a text that cannot name an environment variable.
pub fn validate_env_variable(variable: &str) -> (valid: Result<(), RecoveryError>)
    ensures
        match valid {
            Ok(_) => is_variable_name(variable@),
            Err(error) => !is_variable_name(variable@) && (error matches
                RecoveryError::InvalidEnvironmentVariable(name) && name@ == variable@),
        },
{
    if variable.is_empty() {
        return Err(RecoveryError::InvalidEnvironmentVariable(variable.to_owned()));
    }
    let bytes = variable.as_bytes();
    let mut i: usize = 0;
    while i < bytes.len()
        invariant
            i <= bytes@.len(),
            bytes@ == encode_utf8(variable@),
            forall|j: int| 0 <= j < i ==> !is_forbidden_in_name(#[trigger] bytes@[j]),
        decreases bytes@.len() - i,
    {
        let byte: u8 = bytes[i];
        if byte == 0 || byte == 0x20 || byte == 0x09 || byte == 0x0a || byte == 0x0c || byte
            == 0x0d {
            assert(is_forbidden_in_name(encode_utf8(variable@)[i as int]));
            return Err(RecoveryError::InvalidEnvironmentVariable(variable.to_owned()));
        }
        i += 1;
    }
    Ok(())
}

/// The transfer that sends a command, or nothing for the empty command.
pub fn command_request(command: &str, b_request: u8) -> (request: Result<
    Option<ControlRequest>,
    RecoveryError,
>)
    ensures
        match request {
            Ok(Some(request)) => command_refusal(command@) is None && command@.len() > 0
                && carries(request, b_request, payload_of(command@)),
            Ok(None) => command@.len() == 0,
            Err(error) => command_refusal(command@) == Some(error),
        },
        request matches Err(RecoveryError::CommandTooLong { length }) ==> length == encode_utf8(
            command@,
        ).len(),
{
    let data = command_payload(command)?;
    if data.is_empty() {
        return Ok(None);
    }
    Ok(
        Some(
            ControlRequest {
                control_type: ControlType::Vendor,
                recipient: Recipient::Device,
                request: b_request,
                value: 0,
                index: 0,
                data,
                timeout_ms: COMMAND_TIMEOUT_MS,
            },
        ),
    )
}

/// The error that setting a variable is refused with.
pub open spec fn is_setenv_refusal(
    error: RecoveryError,
    variable: Seq<char>,
    value: Seq<char>,
) -> bool {
    if !is_variable_name(variable) {
        error matches RecoveryError::InvalidEnvironmentVariable(name) && name@ == variable
    } else if encode_utf8(value).contains(0u8) {
        error == RecoveryError::CommandContainsNul
    } else {
        command_refusal(setenv_command(variable, value)) == Some(error)
    }
}

/// Setting `variable` to `value` is not refused.
pub open spec fn setenv_allowed(variable: Seq<char>, value: Seq<char>) -> bool {
    &&& is_variable_name(variable)
    &&& !encode_utf8(value).contains(0u8)
    &&& command_refusal(setenv_command(variable, value)) is None
}

/// The transfer that sets an environment variable.
pub fn setenv_request(variable: &str, value: &str) -> (request: Result<
    Option<ControlRequest>,
    RecoveryError,
>)
    ensures
        match request {
            Ok(request) => setenv_allowed(variable@, value@) && (request matches Some(request)
                && carries(request, 0, payload_of(setenv_command(variable@, value@)))),
            Err(error) => !setenv_allowed(variable@, value@) && is_setenv_refusal(
                error,
                variable@,
                value@,
            ),
        },
        request matches Err(RecoveryError::CommandTooLong { length }) ==> length == encode_utf8(
            setenv_command(variable@, value@),
        ).len(),
{
    validate_env_variable(variable)?;
    if contains_nul(value.as_bytes()) {
        return Err(RecoveryError::CommandContainsNul);
    }
    let mut command = "setenv ".to_owned();
    command.append(variable);
    command.append(" ");
    command.append(value);
    proof {
        reveal_strlit("setenv ");
    }
    assert(command@ =~= setenv_command(variable@, value@));
    command_request(command.as_str(), 0)
}

} // verus!
