//! What the commands of the desktop need and what their outcomes become.

use vstd::prelude::*;

use crate::notifications::provider::NotificationCommand;
use crate::text::{same_text, texts};

use super::adapters::{available, available_as_value};
use super::commands::{DesktopSessionCommand, UtilityCommand};
use super::display::DisplayCommand;
use super::domain::{
    CapabilityAvailability, DesktopDomainId, DesktopDomainState, DesktopDomainValue,
    HyprlandSnapshot, ProducerError, StableId,
};
use super::mutation::{DesktopSystemCommand, DesktopSystemMutation};
use super::registry::{failed_as, terminal_state};

verus! {

/// A command about notifications.
pub enum DesktopNotificationCommand {
    SetDnd { enabled: bool },
    Archive { notification_id: u64 },
    InvokeAction { notification_id: u64, action_id: StableId },
}

/// A command of the desktop, as far as it is decided here what it needs.
pub enum DesktopCommand {
    System(DesktopSystemCommand),
    Compositor,
    Notification(DesktopNotificationCommand),
    Launcher,
    Session(DesktopSessionCommand),
    Appearance,
    Utility(UtilityCommand),
}

// ---------------------------------------------------------------------------
// Outputs
// ---------------------------------------------------------------------------

/// The output that must be there for a command to be carried out.
pub open spec fn output_needed(command: DesktopCommand) -> Option<Seq<char>> {
    match command {
        DesktopCommand::System(
            DesktopSystemCommand::Domain(
                DesktopSystemMutation::Display(DisplayCommand::SetBrightness { output_id, .. }),
            ),
        ) => Some(output_id.0@),
        DesktopCommand::Utility(UtilityCommand::StartRecording { output_id, .. }) => Some(
            output_id.0@,
        ),
        DesktopCommand::Utility(UtilityCommand::Screenshot { output_id }) => Some(output_id.0@),
        _ => None,
    }
}

pub fn needed_output(command: &DesktopCommand) -> (output: Option<&StableId>)
    ensures
        match output {
            Some(output) => output_needed(*command) == Some(output.0@),
            None => output_needed(*command) is None,
        },
{
    match command {
        DesktopCommand::System(system) => match system {
            DesktopSystemCommand::Domain(mutation) => match mutation {
                DesktopSystemMutation::Display(display) => match display {
                    DisplayCommand::SetBrightness { output_id, .. } => Some(output_id),
                    _ => None,
                },
                _ => None,
            },
            _ => None,
        },
        DesktopCommand::Utility(utility) => match utility {
            UtilityCommand::StartRecording { output_id, .. } => Some(output_id),
            UtilityCommand::Screenshot { output_id } => Some(output_id),
            _ => None,
        },
        _ => None,
    }
}

/// What the compositor says of its outputs.
pub enum OutputAuthority<'a> {
    /// There is no compositor to ask.
    Unavailable,
    /// The compositor failed, with this text.
    Failed(&'a str),
    Monitors(&'a Vec<String>),
}

/// Whether an output is there.
pub open spec fn output_known(authority: OutputAuthority, output: Seq<char>) -> Result<
    (),
    Seq<char>,
> {
    match authority {
        OutputAuthority::Unavailable => Err("Hyprland output authority is unavailable"@),
        OutputAuthority::Failed(text) => Err(text@),
        OutputAuthority::Monitors(monitors) => if texts(monitors@).contains(output) {
            Ok(())
        } else {
            Err("utility command referenced an unknown output"@)
        },
    }
}

/// What an outcome without a value says.
pub open spec fn outcome_told(outcome: Result<(), ProducerError>) -> Result<(), Seq<char>> {
    match outcome {
        Ok(()) => Ok(()),
        Err(error) => Err(error.message@),
    }
}

/// Accepts an output that the compositor knows.
pub fn validate_output(authority: OutputAuthority, output_id: &StableId) -> (valid: Result<
    (),
    ProducerError,
>)
    ensures
        outcome_told(valid) == output_known(authority, output_id.0@),
{
    match authority {
        OutputAuthority::Unavailable => Err(
            ProducerError::new("Hyprland output authority is unavailable"),
        ),
        OutputAuthority::Failed(text) => Err(ProducerError::new(text)),
        OutputAuthority::Monitors(monitors) => {
            for i in 0..monitors.len()
                invariant
                    authority == OutputAuthority::Monitors(monitors),
                    forall|j: int| 0 <= j < i ==> texts(monitors@)[j] != output_id.0@,
            {
                assert(texts(monitors@)[i as int] == monitors@[i as int]@);
                if same_text(monitors[i].as_str(), output_id.as_str()) {
                    return Ok(());
                }
            }
            Err(ProducerError::new("utility command referenced an unknown output"))
        },
    }
}

/// A command whose output, where it needs one, is there.
pub struct AcceptedCommand {
    command: DesktopCommand,
}

impl AcceptedCommand {
    /// The command that was accepted.
    pub closed spec fn of(&self) -> DesktopCommand {
        self.command
    }

    /// The command, to be carried out.
    pub fn into_command(self) -> (command: DesktopCommand)
        ensures
            command == self.of(),
    {
        self.command
    }
}

/// Accepts a command, given what the compositor says of its outputs. It has to be asked
/// only for a command that needs an output, and such a command is accepted only where
/// the output is there.
pub fn accept_command(command: DesktopCommand, authority: Option<OutputAuthority>) -> (accepted: Result<
    AcceptedCommand,
    ProducerError,
>)
    requires
        output_needed(command) is Some ==> authority is Some,
    ensures
        match output_needed(command) {
            None => accepted is Ok && accepted->Ok_0.of() == command,
            Some(output) => match output_known(authority->Some_0, output) {
                Ok(()) => accepted is Ok && accepted->Ok_0.of() == command,
                Err(reason) => accepted is Err && accepted->Err_0.message@ == reason,
            },
        },
{
    let valid = match needed_output(&command) {
        Some(output_id) => match authority {
            Some(authority) => validate_output(authority, output_id),
            None => Ok(()),
        },
        None => Ok(()),
    };
    match valid {
        Ok(()) => Ok(AcceptedCommand { command }),
        Err(error) => Err(error),
    }
}

// ---------------------------------------------------------------------------
// The compositor
// ---------------------------------------------------------------------------

/// What a command to the compositor came to.
pub enum CompositorExecution {
    Snapshot(HyprlandSnapshot),
    /// The compositor is gone.
    Exited,
}

pub open spec fn is_state_after(state: DesktopDomainState, execution: CompositorExecution) -> bool {
    match execution {
        CompositorExecution::Snapshot(snapshot) => available_as_value(
            state,
            DesktopDomainValue::Hyprland(snapshot),
        ),
        CompositorExecution::Exited => failed_as(
            state,
            DesktopDomainId::Hyprland,
            CapabilityAvailability::Unavailable,
            "Hyprland exit was confirmed by both IPC sockets disappearing"@,
        ),
    }
}

/// What the compositor answered to a command; nothing where there is none. A
/// text tells why it failed.
pub type CompositorAnswer = Option<Result<CompositorExecution, String>>;

/// The state of the compositor after a command.
pub fn execute_hyprland(answer: CompositorAnswer) -> (state: Result<
    DesktopDomainState,
    ProducerError,
>)
    ensures
        match answer {
            None => state is Err && state->Err_0.message@
                == "Hyprland action service is unavailable"@,
            Some(Err(text)) => state is Err && state->Err_0.message@ == text@,
            Some(Ok(execution)) => state is Ok && is_state_after(state->Ok_0, execution),
        },
{
    match answer {
        None => Err(ProducerError::new("Hyprland action service is unavailable")),
        Some(Err(text)) => Err(ProducerError { message: text }),
        Some(Ok(execution)) => match execution {
            CompositorExecution::Snapshot(snapshot) => Ok(
                available(DesktopDomainValue::Hyprland(snapshot)),
            ),
            CompositorExecution::Exited => {
                proof {
                    reveal_strlit("Hyprland exit was confirmed by both IPC sockets disappearing");
                    assert("Hyprland exit was confirmed by both IPC sockets disappearing"@[0]
                        == 'H');
                }
                Ok(
                    terminal_state(
                        DesktopDomainId::Hyprland,
                        CapabilityAvailability::Unavailable,
                        "Hyprland exit was confirmed by both IPC sockets disappearing",
                    ),
                )
            },
        },
    }
}

// ---------------------------------------------------------------------------
// Notifications
// ---------------------------------------------------------------------------

/// What is done for a command about notifications.
pub enum NotificationStep<'a> {
    /// The command goes to the notification service.
    Execute(NotificationCommand),
    /// The action goes to whoever dispatches actions.
    Invoke { notification_id: u64, action_id: &'a StableId },
}

/// What is done for a command about notifications. An action can only be invoked
/// where there is a dispatcher of actions.
pub fn execute_notification<'a>(
    command: &'a DesktopNotificationCommand,
    has_dispatcher: bool,
) -> (step: Result<NotificationStep<'a>, ProducerError>)
    ensures
        match command {
            DesktopNotificationCommand::SetDnd { enabled } => step is Ok && step->Ok_0 == (
            NotificationStep::Execute(NotificationCommand::SetDnd { enabled: *enabled })),
            DesktopNotificationCommand::Archive { notification_id } => step is Ok && step->Ok_0
                == (NotificationStep::Execute(
                NotificationCommand::Archive { id: *notification_id },
            )),
            DesktopNotificationCommand::InvokeAction { notification_id, action_id } => if has_dispatcher {
                step is Ok && step->Ok_0 == (NotificationStep::Invoke {
                    notification_id: *notification_id,
                    action_id,
                })
            } else {
                step is Err && step->Err_0.message@
                    == "notification action dispatcher is unavailable"@
            },
        },
{
    match command {
        DesktopNotificationCommand::SetDnd { enabled } => Ok(
            NotificationStep::Execute(NotificationCommand::SetDnd { enabled: *enabled }),
        ),
        DesktopNotificationCommand::Archive { notification_id } => Ok(
            NotificationStep::Execute(NotificationCommand::Archive { id: *notification_id }),
        ),
        DesktopNotificationCommand::InvokeAction { notification_id, action_id } => if has_dispatcher {
            Ok(NotificationStep::Invoke { notification_id: *notification_id, action_id })
        } else {
            Err(ProducerError::new("notification action dispatcher is unavailable"))
        },
    }
}

// ---------------------------------------------------------------------------
// Workers
// ---------------------------------------------------------------------------

/// Who carries out what would block.
#[derive(Debug, Clone, Copy, PartialEq, Eq, Structural)]
pub enum Worker {
    System,
    Launcher,
    Session,
    Utility,
}

pub open spec fn worker_title(worker: Worker) -> Seq<char> {
    match worker {
        Worker::System => "system mutation worker failed: "@,
        Worker::Launcher => "launcher worker failed: "@,
        Worker::Session => "logind action worker failed: "@,
        Worker::Utility => "utility action worker failed: "@,
    }
}

/// The error for a worker that did not come back, with the text of why.
pub fn worker_failed(worker: Worker, text: &str) -> (error: ProducerError)
    ensures
        error.message@ == worker_title(worker) + text@,
{
    let title = match worker {
        Worker::System => "system mutation worker failed: ",
        Worker::Launcher => "launcher worker failed: ",
        Worker::Session => "logind action worker failed: ",
        Worker::Utility => "utility action worker failed: ",
    };
    let mut message = title.to_owned();
    message.append(text);
    ProducerError { message }
}

} // verus!
