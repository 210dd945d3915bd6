//! An opened recovery device, the commands it takes and its summary.

use crate::command::{command_request, setenv_request, ControlRequest};
use crate::descriptor::RecoveryDeviceInfo;
use crate::device::UsbDeviceInfo;
use crate::error::RecoveryError;
use crate::metadata::{select_display_name, select_hardware_model, DeviceMetadata};
use crate::mode::RecoveryMode;
use std::collections::VecDeque;
use vstd::prelude::*;

verus! {

/// An opened recovery device whose interface is claimed.
///
/// Its command methods give the control transfers that carry the commands;
/// whoever holds the interface puts them on the bus.
#[derive(Debug)]
pub struct RecoveryClient {
    pub usb_info: UsbDeviceInfo,
    pub mode: RecoveryMode,
    pub device_info: RecoveryDeviceInfo,
    pub metadata: Option<DeviceMetadata>,
}

impl RecoveryClient {
    /// The mode that the device is in.
    pub fn mode(&self) -> (mode: RecoveryMode)
        ensures
            mode == self.mode,
    {
        self.mode
    }

    /// What the descriptor of the device says.
    pub fn device_info(&self) -> (info: &RecoveryDeviceInfo)
        ensures
            *info == self.device_info,
    {
        &self.device_info
    }

    /// The metadata of the device, if a resolver knew it.
    pub fn metadata(&self) -> (metadata: Option<&DeviceMetadata>)
        ensures
            match metadata {
                Some(metadata) => self.metadata == Some(*metadata),
                None => self.metadata is None,
            },
    {
        self.metadata.as_ref()
    }

    /// The board of the metadata, or else the one that the descriptor names.
    pub fn hardware_model(&self) -> (model: Option<&str>)
        ensures
            crate::descriptor::str_view(model) == crate::metadata::model_of(
                self.metadata,
                self.device_info@.srtg,
            ),
    {
        select_hardware_model(&self.metadata, Some(&self.device_info))
    }

    /// The name to show for the device.
    pub fn display_name(&self) -> (name: &str)
        ensures
            name@ == crate::metadata::name_of(self.metadata),
    {
        select_display_name(&self.metadata)
    }

    /// What enumeration said of the device.
    pub fn usb_info(&self) -> (info: &UsbDeviceInfo)
        ensures
            *info == self.usb_info,
    {
        &self.usb_info
    }

    /// The transfer that sends a raw iBoot command with a custom USB request
    /// value, or nothing for the empty command.
    pub fn send_command_raw(&self, command: &str, b_request: u8) -> (request: Result<
        Option<ControlRequest>,
        RecoveryError,
    >)
        ensures
            match request {
                Ok(Some(request)) => crate::command::command_refusal(command@) is None
                    && command@.len() > 0 && crate::command::carries(
                    request,
                    b_request,
                    crate::command::payload_of(command@),
                ),
                Ok(None) => command@.len() == 0,
                Err(error) => crate::command::command_refusal(command@) == Some(error),
            },
            request matches Err(RecoveryError::CommandTooLong { length }) ==> length
                == vstd::utf8::encode_utf8(command@).len(),
    {
        command_request(command, b_request)
    }

    /// The transfer that sends a normal iBoot command, with USB request `0`.
    pub fn send_command(&self, command: &str) -> (request: Result<
        Option<ControlRequest>,
        RecoveryError,
    >)
        ensures
            match request {
                Ok(Some(request)) => crate::command::command_refusal(command@) is None
                    && command@.len() > 0 && crate::command::carries(
                    request,
                    0,
                    crate::command::payload_of(command@),
                ),
                Ok(None) => command@.len() == 0,
                Err(error) => crate::command::command_refusal(command@) == Some(error),
            },
            request matches Err(RecoveryError::CommandTooLong { length }) ==> length
                == vstd::utf8::encode_utf8(command@).len(),
    {
        self.send_command_raw(command, 0)
    }

    /// The transfer that sets an iBoot environment variable.
    pub fn setenv(&self, variable: &str, value: &str) -> (request: Result<
        Option<ControlRequest>,
        RecoveryError,
    >)
        ensures
            match request {
                Ok(request) => crate::command::setenv_allowed(variable@, value@) && (request matches
                    Some(request) && crate::command::carries(
                    request,
                    0,
                    crate::command::payload_of(
                        crate::command::setenv_command(variable@, value@),
                    ),
                )),
                Err(error) => !crate::command::setenv_allowed(variable@, value@)
                    && crate::command::is_setenv_refusal(error, variable@, value@),
            },
            request matches Err(RecoveryError::CommandTooLong { length }) ==> length
                == vstd::utf8::encode_utf8(
                crate::command::setenv_command(variable@, value@),
            ).len(),
    {
        setenv_request(variable, value)
    }

    /// The transfer that saves the iBoot environment variables.
    pub fn saveenv(&self) -> (request: Result<Option<ControlRequest>, RecoveryError>)
        ensures
            request matches Ok(Some(request)) && crate::command::carries(
                request,
                0,
                crate::command::payload_of("saveenv"@),
            ),
    {
        proof {
            reveal_strlit("saveenv");
            lemma_plain_command_allowed("saveenv"@);
        }
        self.send_command("saveenv")
    }

    /// The transfer that asks the recovery device to reboot.
    pub fn reboot(&self) -> (request: Result<Option<ControlRequest>, RecoveryError>)
        ensures
            request matches Ok(Some(request)) && crate::command::carries(
                request,
                0,
                crate::command::payload_of("reboot"@),
            ),
    {
        proof {
            reveal_strlit("reboot");
            lemma_plain_command_allowed("reboot"@);
        }
        self.send_command("reboot")
    }

    /// The transfers that set `auto-boot=true`, save the environment and
    /// reboot, to be sent one after the other.
    pub fn set_auto_boot_and_reboot(&self) -> (step: Result<SequenceStep, RecoveryError>)
        ensures
            step matches Ok(step) && is_auto_boot_start(step),
    {
        proof {
            lemma_auto_boot_allowed();
        }
        let mut requests: VecDeque<ControlRequest> = VecDeque::new();
        if let Some(request) = self.setenv("auto-boot", "true")? {
            requests.push_back(request);
        }
        if let Some(request) = self.saveenv()? {
            requests.push_back(request);
        }
        if let Some(request) = self.reboot()? {
            requests.push_back(request);
        }
        assert(is_auto_boot(requests@));
        Ok(RemainingCommands { requests }.next())
    }
}

/// The commands of a sequence that are still to be sent.
#[derive(Debug)]
pub struct RemainingCommands {
    pub requests: VecDeque<ControlRequest>,
}

/// What comes next in a sequence of commands.
#[derive(Debug)]
pub enum SequenceStep {
    /// Send the request, then go on with the rest.
    Send(ControlRequest, RemainingCommands),
    /// The sequence is over.
    Done(Result<(), RecoveryError>),
}

/// What a [`SequenceStep`] stands for.
pub enum SequenceStepView {
    Send(ControlRequest, Seq<ControlRequest>),
    Done(Result<(), RecoveryError>),
}

impl View for SequenceStep {
    type V = SequenceStepView;

    open spec fn view(&self) -> SequenceStepView {
        match *self {
            SequenceStep::Send(request, rest) => SequenceStepView::Send(request, rest.requests@),
            SequenceStep::Done(result) => SequenceStepView::Done(result),
        }
    }
}

/// The step with which the commands still to be sent begin.
pub open spec fn next_in_sequence(requests: Seq<ControlRequest>) -> SequenceStepView {
    if requests.len() == 0 {
        SequenceStepView::Done(Ok(()))
    } else {
        SequenceStepView::Send(requests[0], requests.skip(1))
    }
}

/// The step that follows when a send came back with `outcome`.
pub open spec fn after_send(
    rest: Seq<ControlRequest>,
    outcome: Result<(), nusb::transfer::TransferError>,
) -> SequenceStepView {
    match outcome {
        Ok(_) => next_in_sequence(rest),
        Err(error) => SequenceStepView::Done(Err(RecoveryError::Transfer(error))),
    }
}

/// `requests` are the three commands that leave recovery mode.
pub open spec fn is_auto_boot(requests: Seq<ControlRequest>) -> bool {
    &&& requests.len() == 3
    &&& crate::command::carries(
        requests[0],
        0,
        crate::command::payload_of(crate::command::setenv_command("auto-boot"@, "true"@)),
    )
    &&& crate::command::carries(requests[1], 0, crate::command::payload_of("saveenv"@))
    &&& crate::command::carries(requests[2], 0, crate::command::payload_of("reboot"@))
}

/// The step begins the sequence that leaves recovery mode.
pub open spec fn is_auto_boot_start(step: SequenceStep) -> bool {
    exists|requests: Seq<ControlRequest>| #[trigger]
        is_auto_boot(requests) && step@ == next_in_sequence(requests)
}

impl RemainingCommands {
    /// The step with which the remaining commands begin.
    pub fn next(self) -> (step: SequenceStep)
        ensures
            step@ == next_in_sequence(self.requests@),
    {
        let mut requests = self.requests;
        match requests.pop_front() {
            Some(request) => {
                assert(requests@ =~= self.requests@.skip(1));
                SequenceStep::Send(request, RemainingCommands { requests })
            },
            None => SequenceStep::Done(Ok(())),
        }
    }

    /// The step that follows a send; a failed one ends the sequence.
    pub fn sent(self, outcome: Result<(), nusb::transfer::TransferError>) -> (step: SequenceStep)
        ensures
            step@ == after_send(self.requests@, outcome),
    {
        match outcome {
            Ok(_) => self.next(),
            Err(error) => SequenceStep::Done(Err(RecoveryError::from(error))),
        }
    }
}

/// The step with which a single command begins: its transfer if there is one,
/// nothing to send for the empty command, or the reason why it is refused.
pub open spec fn command_start(
    request: Result<Option<ControlRequest>, RecoveryError>,
) -> SequenceStepView {
    match request {
        Ok(Some(request)) => SequenceStepView::Send(request, Seq::empty()),
        Ok(None) => SequenceStepView::Done(Ok(())),
        Err(error) => SequenceStepView::Done(Err(error)),
    }
}

/// What a single command comes to when its transfer, if it has one, comes back
/// with `outcome`.
pub open spec fn command_result(
    request: Result<Option<ControlRequest>, RecoveryError>,
    outcome: Result<(), nusb::transfer::TransferError>,
) -> Result<(), RecoveryError> {
    match (request, outcome) {
        (Err(error), _) => Err(error),
        (Ok(None), _) => Ok(()),
        (Ok(Some(_)), Ok(_)) => Ok(()),
        (Ok(Some(_)), Err(error)) => Err(RecoveryError::Transfer(error)),
    }
}

/// Begins to send what a command method of [`RecoveryClient`] gave.
pub fn begin_command(request: Result<Option<ControlRequest>, RecoveryError>) -> (step:
    SequenceStep)
    ensures
        step@ == command_start(request),
{
    match request {
        Ok(Some(request)) => SequenceStep::Send(
            request,
            RemainingCommands { requests: VecDeque::new() },
        ),
        Ok(None) => SequenceStep::Done(Ok(())),
        Err(error) => SequenceStep::Done(Err(error)),
    }
}

/// Convenient owned result equivalent to a successful initialization call.
#[derive(Debug)]
pub struct InitializedRecoveryDevice {
    pub mode: RecoveryMode,
    pub metadata: Option<DeviceMetadata>,
    pub device_info: RecoveryDeviceInfo,
}

impl Clone for InitializedRecoveryDevice {
    fn clone(&self) -> (copy: InitializedRecoveryDevice)
        ensures
            copy == *self,
    {
        InitializedRecoveryDevice {
            mode: self.mode,
            metadata: self.metadata.clone(),
            device_info: self.device_info.clone(),
        }
    }
}

/// The summary of an opened device.
pub open spec fn summary_of(client: RecoveryClient) -> InitializedRecoveryDevice {
    InitializedRecoveryDevice {
        mode: client.mode,
        metadata: client.metadata,
        device_info: client.device_info,
    }
}

impl InitializedRecoveryDevice {
    /// Summarizes an opened device.
    pub fn from_client(client: &RecoveryClient) -> (device: InitializedRecoveryDevice)
        ensures
            device == summary_of(*client),
    {
        InitializedRecoveryDevice {
            mode: client.mode,
            metadata: client.metadata.clone(),
            device_info: client.device_info.clone(),
        }
    }

    /// The board of the metadata, or else the one that the descriptor names.
    pub fn hardware_model(&self) -> (model: Option<&str>)
        ensures
            crate::descriptor::str_view(model) == crate::metadata::model_of(
                self.metadata,
                self.device_info@.srtg,
            ),
    {
        select_hardware_model(&self.metadata, Some(&self.device_info))
    }

    /// The name to show for the device.
    pub fn display_name(&self) -> (name: &str)
        ensures
            name@ == crate::metadata::name_of(self.metadata),
    {
        select_display_name(&self.metadata)
    }
}

/// A short ASCII command without NUL is not refused.
proof fn lemma_plain_command_allowed(command: Seq<char>)
    requires
        command.len() < crate::command::COMMAND_LIMIT,
        forall|i: int| 0 <= i < command.len() ==> '\0' < #[trigger] command[i] <= '\u{7f}',
    ensures
        crate::command::command_refusal(command) is None,
{
    vstd::utf8::is_ascii_chars_encode_utf8(command);
    assert forall|i: int| 0 <= i < command.len() implies #[trigger] vstd::utf8::encode_utf8(
        command,
    )[i] != 0 by {
        assert(command[i] as u8 == vstd::utf8::encode_utf8(command)[i]);
    }
}

proof fn lemma_auto_boot_allowed()
    ensures
        crate::command::setenv_allowed("auto-boot"@, "true"@),
{
    reveal_strlit("auto-boot");
    reveal_strlit("true");
    reveal_strlit("setenv ");
    reveal_strlit(" ");
    let variable = "auto-boot"@;
    let value = "true"@;
    lemma_plain_command_allowed(crate::command::setenv_command(variable, value));
    lemma_plain_command_allowed(value);
    vstd::utf8::is_ascii_chars_encode_utf8(variable);
    assert forall|i: int|
        0 <= i < vstd::utf8::encode_utf8(
            variable,
        ).len() implies !crate::command::is_forbidden_in_name(
        #[trigger] vstd::utf8::encode_utf8(variable)[i],
    ) by {
        assert(variable[i] as u8 == vstd::utf8::encode_utf8(variable)[i]);
    }
}

/// What became of a sequence of commands.
#[verifier::ext_equal]
pub struct SequenceRun {
    pub sent: Seq<ControlRequest>,
    pub result: Result<(), RecoveryError>,
}

/// How many sends a step has ahead of it at most.
pub open spec fn sends_ahead(step: SequenceStepView) -> nat {
    match step {
        SequenceStepView::Send(_, rest) => rest.len() + 1,
        SequenceStepView::Done(_) => 0,
    }
}

/// The sequence from `step` on, when send number `n` and those after it come
/// back with `outcomes`.
pub open spec fn sequence_run(
    step: SequenceStepView,
    outcomes: spec_fn(nat) -> Result<(), nusb::transfer::TransferError>,
    n: nat,
) -> SequenceRun
    decreases sends_ahead(step),
{
    match step {
        SequenceStepView::Send(request, rest) => {
            let later = sequence_run(after_send(rest, outcomes(n)), outcomes, n + 1);
            SequenceRun { sent: seq![request] + later.sent, result: later.result }
        },
        SequenceStepView::Done(result) => SequenceRun { sent: Seq::empty(), result },
    }
}

proof fn lemma_sequence_run(
    requests: Seq<ControlRequest>,
    outcomes: spec_fn(nat) -> Result<(), nusb::transfer::TransferError>,
    n: nat,
    failing: nat,
)
    requires
        failing <= requests.len(),
        forall|i: nat| i < failing ==> (#[trigger] outcomes(n + i)) is Ok,
        failing < requests.len() ==> outcomes(n + failing) is Err,
    ensures
        sequence_run(next_in_sequence(requests), outcomes, n) == if failing == requests.len() {
            SequenceRun { sent: requests, result: Ok(()) }
        } else {
            SequenceRun {
                sent: requests.take(failing + 1int),
                result: Err(RecoveryError::Transfer(outcomes(n + failing)->Err_0)),
            }
        },
    decreases requests.len(),
{
    reveal_with_fuel(sequence_run, 3);
    if requests.len() > 0 {
        let rest = requests.skip(1);
        assert(outcomes(n + 0) == outcomes(n));
        if failing > 0 {
            assert forall|i: nat| i < failing - 1 implies (#[trigger] outcomes(n + 1 + i)) is Ok by {
                assert(outcomes(n + (i + 1)) is Ok);
            }
            assert(outcomes(n + 1 + (failing - 1) as nat) == outcomes(n + failing));
            lemma_sequence_run(rest, outcomes, n + 1, (failing - 1) as nat);
            assert(seq![requests[0]] + rest =~= requests);
            if failing < requests.len() {
                assert(seq![requests[0]] + rest.take(failing as int) =~= requests.take(failing + 1int));
            }
        } else {
            assert(seq![requests[0]] + Seq::<ControlRequest>::empty() =~= requests.take(1));
        }
    } else {
        assert(requests =~= Seq::empty());
    }
}

/// The commands of a sequence are sent in order, each once, up to the first
/// that fails; its error is the result, and without one the sequence succeeds.
pub proof fn law_sequence_stops_at_first_failure(
    requests: Seq<ControlRequest>,
    outcomes: spec_fn(nat) -> Result<(), nusb::transfer::TransferError>,
    failing: nat,
)
    requires
        failing <= requests.len(),
        forall|i: nat| i < failing ==> (#[trigger] outcomes(i)) is Ok,
        failing < requests.len() ==> outcomes(failing) is Err,
    ensures
        sequence_run(next_in_sequence(requests), outcomes, 0) == if failing == requests.len() {
            SequenceRun { sent: requests, result: Ok(()) }
        } else {
            SequenceRun {
                sent: requests.take(failing + 1int),
                result: Err(RecoveryError::Transfer(outcomes(failing)->Err_0)),
            }
        },
{
    assert forall|i: nat| i < failing implies (#[trigger] outcomes(0 + i)) is Ok by {
        assert(outcomes(i) is Ok);
    }
    lemma_sequence_run(requests, outcomes, 0, failing);
}

/// A single command sends its transfer once, if it has one, and nothing else.
/// It succeeds without a transfer or with a successful one; a failed transfer
/// gives its error, and a refused command the refusal.
pub proof fn law_single_command(
    request: Result<Option<ControlRequest>, RecoveryError>,
    outcomes: spec_fn(nat) -> Result<(), nusb::transfer::TransferError>,
)
    ensures
        sequence_run(command_start(request), outcomes, 0) == (SequenceRun {
            sent: match request {
                Ok(Some(request)) => seq![request],
                _ => Seq::empty(),
            },
            result: command_result(request, outcomes(0)),
        }),
{
    reveal_with_fuel(sequence_run, 3);
    if let Ok(Some(request)) = request {
        assert(seq![request] + Seq::<ControlRequest>::empty() =~= seq![request]);
    }
}

/// A device is told to reboot only after the variable was set and the
/// environment saved.
pub proof fn law_reboot_comes_last(
    step: SequenceStep,
    outcomes: spec_fn(nat) -> Result<(), nusb::transfer::TransferError>,
)
    requires
        is_auto_boot_start(step),
    ensures
        ({
            let run = sequence_run(step@, outcomes, 0);
            &&& run.sent.len() <= 3
            &&& run.sent.len() == 3 <==> outcomes(0) is Ok && outcomes(1) is Ok
            &&& run.result is Ok <==> outcomes(0) is Ok && outcomes(1) is Ok && outcomes(2) is Ok
            &&& run.sent.len() == 3 ==> is_auto_boot(run.sent)
        }),
{
    let requests = choose|requests: Seq<ControlRequest>| #[trigger]
        is_auto_boot(requests) && step@ == next_in_sequence(requests);
    let failing: nat = if outcomes(0) is Err {
        0
    } else if outcomes(1) is Err {
        1
    } else if outcomes(2) is Err {
        2
    } else {
        3
    };
    law_sequence_stops_at_first_failure(requests, outcomes, failing);
    assert(requests.take(3) =~= requests);
}

} // verus!
