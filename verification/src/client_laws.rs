//! What the commands of a client put on the bus, and what a client says of its
//! device.

use crate::client::{
    begin_command, InitializedRecoveryDevice, RecoveryClient, RemainingCommands, SequenceStep,
};
use crate::command::{
    command_payload, command_request, setenv_request, validate_env_variable, ControlRequest,
    ControlType, Recipient,
};
use crate::descriptor::RecoveryDeviceInfo;
use crate::device::{RecoveryDevice, UsbDeviceInfo};
use crate::ecid::auto_boot_and_reboot_opened;
use crate::error::RecoveryError;
use crate::metadata::DeviceMetadata;
use crate::mode::RecoveryMode;
use vstd::prelude::*;
use vstd::utf8::*;

verus! {

/// `data` are the bytes of `command` and one NUL behind them, the only one.
pub open spec fn is_terminated(data: Seq<u8>, command: Seq<char>) -> bool {
    &&& data.len() > 0
    &&& data.last() == 0
    &&& !data.drop_last().contains(0u8)
    &&& data.drop_last() == encode_utf8(command)
    &&& decode_utf8(data.drop_last()) == command
}

/// `request` is the vendor request `b_request` to the device, with ten seconds to
/// answer, whose data are `command`.
pub open spec fn is_transfer_of(
    request: ControlRequest,
    command: Seq<char>,
    b_request: u8,
) -> bool {
    &&& request.control_type == ControlType::Vendor
    &&& request.recipient == Recipient::Device
    &&& request.request == b_request
    &&& request.value == 0
    &&& request.index == 0
    &&& request.timeout_ms == 10_000
    &&& is_terminated(request.data@, command)
}

/// What is answered to a command: a transfer of it if it takes from 1 to 255
/// bytes and holds no NUL, nothing if it is empty, and otherwise an error, of
/// which the one on the length comes first.
pub open spec fn is_answer(
    request: Result<Option<ControlRequest>, RecoveryError>,
    command: Seq<char>,
    b_request: u8,
) -> bool {
    if encode_utf8(command).len() > 255 {
        request matches Err(RecoveryError::CommandTooLong { length }) && length == encode_utf8(
            command,
        ).len()
    } else if command.contains('\0') {
        request matches Err(RecoveryError::CommandContainsNul)
    } else if command.len() == 0 {
        request matches Ok(None)
    } else {
        request matches Ok(Some(request)) && is_transfer_of(request, command, b_request)
    }
}

proof fn lemma_is_terminated(command: Seq<char>)
    requires
        command.len() > 0,
        !command.contains('\0'),
    ensures
        is_terminated(encode_utf8(command).push(0), command),
{
    crate::command_laws::law_ascii_bytes_are_characters(command, 0);
    encode_utf8_decode_utf8(command);
    assert(encode_utf8(command).push(0).drop_last() =~= encode_utf8(command));
}

proof fn lemma_is_answer(
    request: Result<Option<ControlRequest>, RecoveryError>,
    command: Seq<char>,
    b_request: u8,
)
    requires
        match request {
            Ok(Some(request)) => crate::command::command_refusal(command) is None && command.len()
                > 0 && crate::command::carries(
                request,
                b_request,
                crate::command::payload_of(command),
            ),
            Ok(None) => command.len() == 0,
            Err(error) => crate::command::command_refusal(command) == Some(error),
        },
        request matches Err(RecoveryError::CommandTooLong { length }) ==> length == encode_utf8(
            command,
        ).len(),
    ensures
        is_answer(request, command, b_request),
{
    crate::command_laws::law_ascii_bytes_are_characters(command, 0);
    if command.len() > 0 && !command.contains('\0') {
        lemma_is_terminated(command);
    }
    if command.len() == 0 {
        assert(encode_utf8(command).len() == 0);
    }
}

/// The bytes to send for a command are its own and one NUL behind them, or none
/// for the empty command; one of more than 255 bytes or with a NUL is refused.
pub proof fn law_payload(command: &str, payload: Result<Vec<u8>, RecoveryError>)
    requires
        call_ensures(command_payload, (command,), payload),
    ensures
        if encode_utf8(command@).len() > 255 {
            payload matches Err(RecoveryError::CommandTooLong { length }) && length == encode_utf8(
                command@,
            ).len()
        } else if command@.contains('\0') {
            payload matches Err(RecoveryError::CommandContainsNul)
        } else if command@.len() == 0 {
            payload matches Ok(payload) && payload@.len() == 0
        } else {
            payload matches Ok(payload) && is_terminated(payload@, command@)
        },
{
    crate::command_laws::law_ascii_bytes_are_characters(command@, 0);
    if command@.len() > 0 && !command@.contains('\0') {
        lemma_is_terminated(command@);
    }
}

/// The transfer of a command carries all of its bytes and the NUL, under the
/// request number that was asked for.
pub proof fn law_command_is_carried(
    command: &str,
    b_request: u8,
    request: Result<Option<ControlRequest>, RecoveryError>,
)
    requires
        call_ensures(command_request, (command, b_request), request),
    ensures
        is_answer(request, command@, b_request),
{
    lemma_is_answer(request, command@, b_request);
}

/// A client sends a raw command under the given request number.
pub proof fn law_client_sends_raw_commands(
    client: &RecoveryClient,
    command: &str,
    b_request: u8,
    request: Result<Option<ControlRequest>, RecoveryError>,
)
    requires
        call_ensures(RecoveryClient::send_command_raw, (client, command, b_request), request),
    ensures
        is_answer(request, command@, b_request),
{
    lemma_is_answer(request, command@, b_request);
}

/// A client sends a normal command under the request number zero.
pub proof fn law_client_sends_commands(
    client: &RecoveryClient,
    command: &str,
    request: Result<Option<ControlRequest>, RecoveryError>,
)
    requires
        call_ensures(RecoveryClient::send_command, (client, command), request),
    ensures
        is_answer(request, command@, 0),
{
    lemma_is_answer(request, command@, 0);
}

/// A variable name is a text that is not empty and holds neither NUL nor ASCII
/// white space.
pub open spec fn can_name(variable: Seq<char>) -> bool {
    &&& variable.len() > 0
    &&& forall|i: int|
        0 <= i < variable.len() ==> {
            let c = #[trigger] variable[i];
            c != '\0' && c != ' ' && c != '\t' && c != '\n' && c != '\u{c}' && c != '\r'
        }
}

proof fn lemma_can_name(variable: Seq<char>)
    ensures
        crate::command::is_variable_name(variable) <==> can_name(variable),
{
    crate::command_laws::law_variable_names(variable);
    if can_name(variable) {
        assert forall|c: char| variable.contains(c) implies c != '\0' && c != ' ' && c != '\t' && c
            != '\n' && c != '\u{c}' && c != '\r' by {
            let i = choose|i: int| 0 <= i < variable.len() && variable[i] == c;
            assert(variable[i] == c);
        }
    }
    if crate::command::is_variable_name(variable) {
        assert forall|i: int| 0 <= i < variable.len() implies {
            let c = #[trigger] variable[i];
            c != '\0' && c != ' ' && c != '\t' && c != '\n' && c != '\u{c}' && c != '\r'
        } by {
            assert(variable.contains(variable[i]));
        }
    }
}

/// A text that can name a variable is accepted as one, and any other is refused
/// by its name.
pub proof fn law_variable_is_validated(variable: &str, valid: Result<(), RecoveryError>)
    requires
        call_ensures(validate_env_variable, (variable,), valid),
    ensures
        if can_name(variable@) {
            valid is Ok
        } else {
            valid matches Err(RecoveryError::InvalidEnvironmentVariable(name)) && name@
                == variable@
        },
{
    lemma_can_name(variable@);
}

/// What is answered to setting a variable: the refusal of a text that cannot
/// name one, then that of a value with a NUL, and otherwise what is answered to
/// the command `setenv`, the name and the value, with one space between each.
pub open spec fn is_setenv_answer(
    request: Result<Option<ControlRequest>, RecoveryError>,
    variable: Seq<char>,
    value: Seq<char>,
) -> bool {
    if !can_name(variable) {
        request matches Err(RecoveryError::InvalidEnvironmentVariable(name)) && name@ == variable
    } else if value.contains('\0') {
        request matches Err(RecoveryError::CommandContainsNul)
    } else {
        is_answer(request, "setenv "@ + variable + " "@ + value, 0)
    }
}

proof fn lemma_is_setenv_answer(
    request: Result<Option<ControlRequest>, RecoveryError>,
    variable: Seq<char>,
    value: Seq<char>,
)
    requires
        match request {
            Ok(request) => crate::command::setenv_allowed(variable, value) && (request matches Some(
                request,
            ) && crate::command::carries(
                request,
                0,
                crate::command::payload_of(crate::command::setenv_command(variable, value)),
            )),
            Err(error) => !crate::command::setenv_allowed(variable, value)
                && crate::command::is_setenv_refusal(error, variable, value),
        },
        request matches Err(RecoveryError::CommandTooLong { length }) ==> length == encode_utf8(
            crate::command::setenv_command(variable, value),
        ).len(),
    ensures
        is_setenv_answer(request, variable, value),
{
    reveal_strlit("setenv ");
    lemma_can_name(variable);
    crate::command_laws::law_ascii_bytes_are_characters(value, 0);
    if can_name(variable) && !value.contains('\0') {
        lemma_is_answer(request, "setenv "@ + variable + " "@ + value, 0);
    }
}

/// Setting a variable sends the command `setenv` with the name and the value, in
/// full.
pub proof fn law_setenv_is_carried(
    variable: &str,
    value: &str,
    request: Result<Option<ControlRequest>, RecoveryError>,
)
    requires
        call_ensures(setenv_request, (variable, value), request),
    ensures
        is_setenv_answer(request, variable@, value@),
{
    lemma_is_setenv_answer(request, variable@, value@);
}

/// A client sets variables in the same way.
pub proof fn law_client_sets_variables(
    client: &RecoveryClient,
    variable: &str,
    value: &str,
    request: Result<Option<ControlRequest>, RecoveryError>,
)
    requires
        call_ensures(RecoveryClient::setenv, (client, variable, value), request),
    ensures
        is_setenv_answer(request, variable@, value@),
{
    lemma_is_setenv_answer(request, variable@, value@);
}

/// A client saves the environment with the command `saveenv`, and reboots its
/// device with the command `reboot`.
pub proof fn law_client_saves_and_reboots(
    client: &RecoveryClient,
    saving: Result<Option<ControlRequest>, RecoveryError>,
    rebooting: Result<Option<ControlRequest>, RecoveryError>,
)
    requires
        call_ensures(RecoveryClient::saveenv, (client,), saving),
        call_ensures(RecoveryClient::reboot, (client,), rebooting),
    ensures
        saving matches Ok(Some(request)) && is_transfer_of(request, "saveenv"@, 0),
        rebooting matches Ok(Some(request)) && is_transfer_of(request, "reboot"@, 0),
{
    reveal_strlit("saveenv");
    reveal_strlit("reboot");
    lemma_is_terminated("saveenv"@);
    lemma_is_terminated("reboot"@);
}

/// `step` sends the three commands that make a device leave recovery mode, and
/// no others.
pub open spec fn leaves_recovery(step: SequenceStep) -> bool {
    step matches SequenceStep::Send(first, rest) && {
        &&& is_transfer_of(first, "setenv auto-boot true"@, 0)
        &&& rest.requests@.len() == 2
        &&& is_transfer_of(rest.requests@[0], "saveenv"@, 0)
        &&& is_transfer_of(rest.requests@[1], "reboot"@, 0)
    }
}

proof fn lemma_leaves_recovery(step: SequenceStep)
    requires
        crate::client::is_auto_boot_start(step),
    ensures
        leaves_recovery(step),
{
    let requests = choose|requests: Seq<ControlRequest>| #[trigger]
        crate::client::is_auto_boot(requests) && step@ == crate::client::next_in_sequence(requests);
    reveal_strlit("setenv auto-boot true");
    reveal_strlit("setenv ");
    reveal_strlit("auto-boot");
    reveal_strlit(" ");
    reveal_strlit("true");
    reveal_strlit("saveenv");
    reveal_strlit("reboot");
    assert(crate::command::setenv_command("auto-boot"@, "true"@) =~= "setenv auto-boot true"@);
    lemma_is_terminated("setenv auto-boot true"@);
    lemma_is_terminated("saveenv"@);
    lemma_is_terminated("reboot"@);
    assert(requests.skip(1)[0] == requests[1]);
    assert(requests.skip(1)[1] == requests[2]);
}

/// A client makes its device leave recovery mode with `setenv auto-boot true`,
/// `saveenv` and `reboot`, in this order.
pub proof fn law_client_leaves_recovery(
    client: &RecoveryClient,
    step: Result<SequenceStep, RecoveryError>,
)
    requires
        call_ensures(RecoveryClient::set_auto_boot_and_reboot, (client,), step),
    ensures
        step matches Ok(step) && leaves_recovery(step),
{
    lemma_leaves_recovery(step->Ok_0);
}

/// A device that was found is sent these commands; the error of a search that
/// found none is passed on, and nothing is sent.
pub proof fn law_found_device_leaves_recovery(
    opened: Result<RecoveryClient, RecoveryError>,
    step: SequenceStep,
)
    requires
        call_ensures(auto_boot_and_reboot_opened, (opened,), step),
    ensures
        match opened {
            Ok(_) => leaves_recovery(step),
            Err(error) => step == SequenceStep::Done(Err(error)),
        },
{
    if opened is Ok {
        lemma_leaves_recovery(step);
    }
}

/// A successful send is followed by the next command, or by success after the
/// last; a failed one ends the sequence with its error.
pub proof fn law_sends_go_on_in_order(
    rest: RemainingCommands,
    outcome: Result<(), nusb::transfer::TransferError>,
    step: SequenceStep,
)
    requires
        call_ensures(RemainingCommands::sent, (rest, outcome), step),
    ensures
        match outcome {
            Err(error) => step == SequenceStep::Done(Err(RecoveryError::Transfer(error))),
            Ok(_) => if rest.requests@.len() == 0 {
                step == SequenceStep::Done(Ok(()))
            } else {
                step matches SequenceStep::Send(request, later) && seq![request]
                    + later.requests@ == rest.requests@
            },
        },
{
    if rest.requests@.len() > 0 {
        assert(seq![rest.requests@[0]] + rest.requests@.skip(1) =~= rest.requests@);
    }
}

/// A single command begins with its transfer and has nothing behind it; without
/// a transfer it succeeds at once, and a refused one fails at once.
pub proof fn law_single_command_begins(
    request: Result<Option<ControlRequest>, RecoveryError>,
    step: SequenceStep,
)
    requires
        call_ensures(begin_command, (request,), step),
    ensures
        match request {
            Ok(Some(request)) => step matches SequenceStep::Send(first, rest) && first == request
                && rest.requests@.len() == 0,
            Ok(None) => step == SequenceStep::Done(Ok(())),
            Err(error) => step == SequenceStep::Done(Err(error)),
        },
{
}

/// `model` is the board of the metadata if there is metadata, and otherwise the
/// board that the descriptor names, if it names one.
pub open spec fn is_model(
    model: Option<&str>,
    metadata: Option<DeviceMetadata>,
    info: Option<RecoveryDeviceInfo>,
) -> bool {
    match (metadata, info) {
        (Some(metadata), _) => model matches Some(model) && model@ == metadata.board@,
        (None, Some(info)) => match info.srtg {
            Some(srtg) => model matches Some(model) && model@ == srtg@,
            None => model is None,
        },
        (None, None) => model is None,
    }
}

/// `name` is the display name of the metadata, or says that there is none.
pub open spec fn is_name(name: &str, metadata: Option<DeviceMetadata>) -> bool {
    match metadata {
        Some(metadata) => name@ == metadata.display_name@,
        None => name@ == "Unknown Device"@,
    }
}

/// A client says of its device what it was opened with.
pub proof fn law_client_answers(
    client: &RecoveryClient,
    mode: RecoveryMode,
    info: &RecoveryDeviceInfo,
    metadata: Option<&DeviceMetadata>,
    usb_info: &UsbDeviceInfo,
    model: Option<&str>,
    name: &str,
)
    requires
        call_ensures(RecoveryClient::mode, (client,), mode),
        call_ensures(RecoveryClient::device_info, (client,), info),
        call_ensures(RecoveryClient::metadata, (client,), metadata),
        call_ensures(RecoveryClient::usb_info, (client,), usb_info),
        call_ensures(RecoveryClient::hardware_model, (client,), model),
        call_ensures(RecoveryClient::display_name, (client,), name),
    ensures
        mode == client.mode,
        *info == client.device_info,
        match metadata {
            Some(metadata) => client.metadata == Some(*metadata),
            None => client.metadata is None,
        },
        *usb_info == client.usb_info,
        is_model(model, client.metadata, Some(client.device_info)),
        is_name(name, client.metadata),
{
}

/// The summary of a client has its mode, metadata and information, and the same
/// model and name.
pub proof fn law_summary_answers(
    client: &RecoveryClient,
    device: InitializedRecoveryDevice,
    model: Option<&str>,
    name: &str,
)
    requires
        call_ensures(InitializedRecoveryDevice::from_client, (client,), device),
        call_ensures(InitializedRecoveryDevice::hardware_model, (&device,), model),
        call_ensures(InitializedRecoveryDevice::display_name, (&device,), name),
    ensures
        device.mode == client.mode,
        device.metadata == client.metadata,
        device.device_info == client.device_info,
        is_model(model, client.metadata, Some(client.device_info)),
        is_name(name, client.metadata),
{
}

/// What a search gave is summarized if it is a client; its error is passed on.
pub proof fn law_initialization_answers(
    opened: Result<RecoveryClient, RecoveryError>,
    device: Result<InitializedRecoveryDevice, RecoveryError>,
)
    requires
        call_ensures(InitializedRecoveryDevice::from_opened, (opened,), device),
    ensures
        match opened {
            Ok(client) => device matches Ok(device) && device.mode == client.mode
                && device.metadata == client.metadata && device.device_info == client.device_info,
            Err(error) => device == Err::<InitializedRecoveryDevice, RecoveryError>(error),
        },
{
}

/// A discovered device has a model and a name by the same rules.
pub proof fn law_device_answers(device: &RecoveryDevice, model: Option<&str>, name: &str)
    requires
        call_ensures(RecoveryDevice::hardware_model, (device,), model),
        call_ensures(RecoveryDevice::display_name, (device,), name),
    ensures
        is_model(model, device.metadata, device.device_info),
        is_name(name, device.metadata),
{
}

} // verus!
