//! Commands that are not bound to one adapter.

use vstd::prelude::*;

use super::domain::{PowerProfile, StableId};
use super::fraction::RequestedLevel;

verus! {

#[derive(Debug, Clone, Copy, PartialEq, Eq, Structural)]
pub enum MediaTransport {
    PlayPause,
    Next,
    Previous,
}

/// A change of the system that names no device, player or output of its own.
pub enum SystemMutation {
    NetworkEnabled(bool),
    BluetoothEnabled(bool),
    AudioVolume(RequestedLevel),
    AudioMuted(bool),
    AudioMicrophoneLevel(RequestedLevel),
    AudioMicrophoneMuted(bool),
    AudioOutputDevice(String),
    DisplayBrightness(RequestedLevel),
    DisplayNightLightEnabled(bool),
    PowerProfile(PowerProfile),
    MediaTransport(MediaTransport),
}

/// A command to a utility of the desktop.
pub enum UtilityCommand {
    InvokeTrayMenu { item_id: StableId, menu_id: StableId },
    PasteClipboard { entry_id: StableId },
    ClearClipboard,
    SetIdleInhibited { enabled: bool },
    StartRecording { output_id: StableId, audio: bool },
    PauseRecording,
    StopRecording,
    DeleteRecording { recording_id: StableId },
    Screenshot { output_id: StableId },
    PickColor,
    SetGameMode { enabled: bool },
}

/// A command to the session as a whole.
#[derive(Debug, Clone, Copy, PartialEq, Eq, Structural)]
pub enum DesktopSessionCommand {
    Lock,
    Suspend,
    Logout,
    Reboot,
    PowerOff,
}

} // verus!
