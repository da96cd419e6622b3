//! What can go wrong while driving the controller, and the emulator port.

use vstd::prelude::*;
use crate::controller_values::ControllerCommand;
use crate::hardware::HardwareError;
use crate::text;

verus! {

/// Errors of the controller domain.
#[derive(Debug, Clone, PartialEq, Eq)]
pub enum ControllerError {
    ControllerNotFound(String),
    AlreadyConnected,
    NotConnected,
    InvalidHidReport,
    DevicePathNotAvailable(String),
    HidWriteFailed(String),
    HidReadFailed(String),
    SessionNotFound(String),
    SessionAlreadyActive,
    SessionNotActive,
    InvalidCommand(String),
    MappingNotFound(String),
    InvalidStickPosition(u8, u8),
    InvalidButtonValue(u16),
    InvalidDPadValue(u8),
    CommandQueueFull,
    NoCommandsInQueue,
    DeviceInitFailed(String),
    PermissionDenied,
    IoError(String),
    Unknown(String),
}

/// The message of a controller error, as its `Display` writes it.
pub open spec fn controller_error_text(e: ControllerError) -> Seq<char> {
    match e {
        ControllerError::ControllerNotFound(s) => "Controller not found: "@ + s@,
        ControllerError::AlreadyConnected => "Controller already connected"@,
        ControllerError::NotConnected => "Controller not connected"@,
        ControllerError::InvalidHidReport => "Invalid HID report data"@,
        ControllerError::DevicePathNotAvailable(s) => "Device path not available: "@ + s@,
        ControllerError::HidWriteFailed(s) => "Failed to write HID report: "@ + s@,
        ControllerError::HidReadFailed(s) => "Failed to read HID report: "@ + s@,
        ControllerError::SessionNotFound(s) => "Controller session not found: "@ + s@,
        ControllerError::SessionAlreadyActive => "Controller session already active"@,
        ControllerError::SessionNotActive => "Controller session not active"@,
        ControllerError::InvalidCommand(s) => "Invalid controller command: "@ + s@,
        ControllerError::MappingNotFound(s) => "Controller mapping not found: "@ + s@,
        ControllerError::InvalidStickPosition(x, y) => "Invalid stick position: x="@ + text::decimal(x as nat)
            + ", y="@ + text::decimal(y as nat),
        ControllerError::InvalidButtonValue(v) => "Invalid button value: "@ + text::decimal(v as nat),
        ControllerError::InvalidDPadValue(v) => "Invalid DPad value: "@ + text::decimal(v as nat),
        ControllerError::CommandQueueFull => "Command queue is full"@,
        ControllerError::NoCommandsInQueue => "No commands in queue"@,
        ControllerError::DeviceInitFailed(s) => "Device initialization failed: "@ + s@,
        ControllerError::PermissionDenied => "Permission denied. Root privileges may be required"@,
        ControllerError::IoError(s) => "IO error: "@ + s@,
        ControllerError::Unknown(s) => "Unknown error: "@ + s@,
    }
}

/// `prefix` followed by `detail`.
fn prefixed(prefix: &str, detail: &String) -> (s: String)
    ensures
        s@ == prefix@ + detail@,
{
    let mut s = text::owned(prefix);
    text::push_str(&mut s, detail.as_str());
    s
}

/// `prefix` followed by `n` in decimal.
fn prefixed_number(prefix: &str, n: u64) -> (s: String)
    ensures
        s@ == prefix@ + text::decimal(n as nat),
{
    let mut s = text::owned(prefix);
    text::push_decimal(&mut s, n);
    s
}

impl ControllerError {
    /// Whether waiting or reconnecting can help: not connected, no active
    /// session, or an empty queue.
    pub fn is_recoverable(&self) -> (r: bool)
        ensures
            r == (self is NotConnected || self is SessionNotActive || self is NoCommandsInQueue),
    {
        match self {
            ControllerError::NotConnected | ControllerError::SessionNotActive | ControllerError::NoCommandsInQueue => true,
            _ => false,
        }
    }

    /// The text the type's `Display` writes; see `controller_error_text`.
    pub fn display_string(&self) -> (s: String)
        ensures
            s@ == controller_error_text(*self),
    {
        match self {
            ControllerError::ControllerNotFound(d) => prefixed("Controller not found: ", d),
            ControllerError::AlreadyConnected => text::owned("Controller already connected"),
            ControllerError::NotConnected => text::owned("Controller not connected"),
            ControllerError::InvalidHidReport => text::owned("Invalid HID report data"),
            ControllerError::DevicePathNotAvailable(d) => prefixed("Device path not available: ", d),
            ControllerError::HidWriteFailed(d) => prefixed("Failed to write HID report: ", d),
            ControllerError::HidReadFailed(d) => prefixed("Failed to read HID report: ", d),
            ControllerError::SessionNotFound(d) => prefixed("Controller session not found: ", d),
            ControllerError::SessionAlreadyActive => text::owned("Controller session already active"),
            ControllerError::SessionNotActive => text::owned("Controller session not active"),
            ControllerError::InvalidCommand(d) => prefixed("Invalid controller command: ", d),
            ControllerError::MappingNotFound(d) => prefixed("Controller mapping not found: ", d),
            ControllerError::InvalidStickPosition(x, y) => {
                let mut s = prefixed_number("Invalid stick position: x=", *x as u64);
                text::push_str(&mut s, ", y=");
                text::push_decimal(&mut s, *y as u64);
                s
            },
            ControllerError::InvalidButtonValue(v) => prefixed_number("Invalid button value: ", *v as u64),
            ControllerError::InvalidDPadValue(v) => prefixed_number("Invalid DPad value: ", *v as u64),
            ControllerError::CommandQueueFull => text::owned("Command queue is full"),
            ControllerError::NoCommandsInQueue => text::owned("No commands in queue"),
            ControllerError::DeviceInitFailed(d) => prefixed("Device initialization failed: ", d),
            ControllerError::PermissionDenied => text::owned("Permission denied. Root privileges may be required"),
            ControllerError::IoError(d) => prefixed("IO error: ", d),
            ControllerError::Unknown(d) => prefixed("Unknown error: ", d),
        }
    }
}

/// A controller emulator that plays commands to the console.
pub trait ControllerEmulator: Send + Sync {
    /// Prepares the emulator.
    fn initialize(&self) -> Result<(), HardwareError>;

    /// Whether a console is connected.
    fn is_connected(&self) -> Result<bool, HardwareError>;

    /// Plays one command.
    fn execute_command(&self, command: &ControllerCommand) -> Result<(), HardwareError>;

    /// Shuts the emulator down.
    fn shutdown(&self) -> Result<(), HardwareError>;
}

} // verus!
