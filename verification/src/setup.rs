//! System setup: the boards the setup knows, what it has done so far, its
//! errors, and the services it relies on.

use vstd::prelude::*;
use crate::text;

verus! {

/// I/O errors of the standard library, carried by `SetupError`.
#[verifier::external_type_specification]
#[verifier::external_body]
pub struct ExIoError(std::io::Error);

/// Boards, as the setup distinguishes them; an unknown board keeps its name.
#[derive(Debug, Clone, PartialEq, Eq)]
pub enum BoardModel {
    OrangePiZero2W,
    RaspberryPiZero,
    RaspberryPiZero2W,
    Unknown(String),
}

/// The device-tree overlay that enables USB OTG, where the board needs one.
pub open spec fn otg_overlay_text(m: BoardModel) -> Option<Seq<char>> {
    match m {
        BoardModel::OrangePiZero2W => Some("sun50i-h616-usb-otg"@),
        _ => None,
    }
}

impl BoardModel {
    /// The device-tree overlay for USB OTG; see `otg_overlay_text`.
    pub fn otg_device_tree_overlay(&self) -> (r: Option<&'static str>)
        ensures
            match r {
                Some(s) => otg_overlay_text(*self) == Some(s@),
                None => otg_overlay_text(*self) is None,
            },
    {
        match self {
            BoardModel::OrangePiZero2W => Some("sun50i-h616-usb-otg"),
            BoardModel::RaspberryPiZero | BoardModel::RaspberryPiZero2W => None,
            BoardModel::Unknown(_) => None,
        }
    }

    /// Whether the board is configured through `config.txt` (the Raspberry Pis).
    pub fn requires_config_txt(&self) -> (r: bool)
        ensures
            r == (self is RaspberryPiZero || self is RaspberryPiZero2W),
    {
        match self {
            BoardModel::RaspberryPiZero | BoardModel::RaspberryPiZero2W => true,
            _ => false,
        }
    }

    /// Where the gadget lives in configfs: the same place on every board.
    pub fn usb_device_path(&self) -> (r: &'static str)
        ensures
            r@ == "/sys/kernel/config/usb_gadget/g1"@,
    {
        match self {
            BoardModel::OrangePiZero2W => "/sys/kernel/config/usb_gadget/g1",
            BoardModel::RaspberryPiZero | BoardModel::RaspberryPiZero2W => "/sys/kernel/config/usb_gadget/g1",
            BoardModel::Unknown(_) => "/sys/kernel/config/usb_gadget/g1",
        }
    }
}

/// Which parts of the setup are done.
#[derive(Debug, Clone)]
pub struct SystemSetupStatus {
    pub boot_configured: bool,
    pub systemd_service_enabled: bool,
    pub usb_gadget_configured: bool,
}

impl Default for SystemSetupStatus {
    /// Nothing done yet.
    fn default() -> (s: Self)
        ensures
            !s.boot_configured,
            !s.systemd_service_enabled,
            !s.usb_gadget_configured,
    {
        SystemSetupStatus { boot_configured: false, systemd_service_enabled: false, usb_gadget_configured: false }
    }
}

/// What can go wrong during setup.
#[derive(Debug)]
pub enum SetupError {
    BoardDetectionFailed(String),
    BootConfigurationFailed(String),
    SystemdServiceFailed(String),
    PermissionDenied(String),
    FileSystemError(std::io::Error),
    Unknown(String),
}

impl From<std::io::Error> for SetupError {
    fn from(e: std::io::Error) -> (r: Self) {
        SetupError::FileSystemError(e)
    }
}

impl vstd::std_specs::convert::FromSpecImpl<std::io::Error> for SetupError {
    open spec fn obeys_from_spec() -> bool {
        true
    }

    open spec fn from_spec(v: std::io::Error) -> SetupError {
        SetupError::FileSystemError(v)
    }
}

/// The message of an I/O error (its `Display`). Nothing is stated of the
/// text: it comes from the operating system.
#[verifier::external_body]
fn io_error_text(e: &std::io::Error) -> String {
    format!("{}", e)
}

/// `prefix` followed by `detail`.
fn prefixed(prefix: &str, detail: &str) -> (s: String)
    ensures
        s@ == prefix@ + detail@,
{
    let mut s = text::owned(prefix);
    text::push_str(&mut s, detail);
    s
}

/// The prefix of the message of a setup error, before its detail.
pub open spec fn setup_error_prefix(e: SetupError) -> Seq<char> {
    match e {
        SetupError::BoardDetectionFailed(_) => "Failed to detect board model: "@,
        SetupError::BootConfigurationFailed(_) => "Failed to configure boot: "@,
        SetupError::SystemdServiceFailed(_) => "Failed to manage systemd service: "@,
        SetupError::PermissionDenied(_) => "Permission denied: "@,
        SetupError::FileSystemError(_) => "File system error: "@,
        SetupError::Unknown(_) => "Unknown error: "@,
    }
}

/// The detail of a setup error, where it is text.
pub open spec fn setup_error_detail(e: SetupError) -> Option<Seq<char>> {
    match e {
        SetupError::BoardDetectionFailed(s) => Some(s@),
        SetupError::BootConfigurationFailed(s) => Some(s@),
        SetupError::SystemdServiceFailed(s) => Some(s@),
        SetupError::PermissionDenied(s) => Some(s@),
        SetupError::FileSystemError(_) => None,
        SetupError::Unknown(s) => Some(s@),
    }
}

impl SetupError {
    /// The text the type's `Display` writes: the prefix of the variant, then
    /// its detail (for an I/O error, the error's own message).
    pub fn display_string(&self) -> (s: String)
        ensures
            s@.len() >= setup_error_prefix(*self).len(),
            s@.take(setup_error_prefix(*self).len() as int) == setup_error_prefix(*self),
            setup_error_detail(*self) matches Some(d) ==> s@ == setup_error_prefix(*self) + d,
    {
        let s = match self {
            SetupError::BoardDetectionFailed(d) => prefixed("Failed to detect board model: ", d.as_str()),
            SetupError::BootConfigurationFailed(d) => prefixed("Failed to configure boot: ", d.as_str()),
            SetupError::SystemdServiceFailed(d) => prefixed("Failed to manage systemd service: ", d.as_str()),
            SetupError::PermissionDenied(d) => prefixed("Permission denied: ", d.as_str()),
            SetupError::FileSystemError(e) => {
                let detail = io_error_text(e);
                prefixed("File system error: ", detail.as_str())
            },
            SetupError::Unknown(d) => prefixed("Unknown error: ", d.as_str()),
        };
        assert(s@.take(setup_error_prefix(*self).len() as int) =~= setup_error_prefix(*self));
        s
    }
}

/// Finds out which board the program runs on.
pub trait BoardDetector: Send + Sync {
    fn detect_board(&self) -> Result<BoardModel, SetupError>;
}

/// Enables USB OTG in the boot configuration, and removes it again.
pub trait BootConfigurator: Send + Sync {
    fn configure_boot_for_otg(&self, board: &BoardModel) -> Result<(), SetupError>;

    fn is_boot_configured(&self, board: &BoardModel) -> Result<bool, SetupError>;

    fn remove_boot_configuration(&self, board: &BoardModel) -> Result<(), SetupError>;
}

/// Installs the systemd services: the one that sets the gadget up at boot and
/// the web interface, with the application files they run.
pub trait SystemdServiceManager: Send + Sync {
    fn create_gadget_service(&self) -> Result<(), SetupError>;

    fn enable_gadget_service(&self) -> Result<(), SetupError>;

    fn is_service_enabled(&self) -> Result<bool, SetupError>;

    fn create_web_service(&self) -> Result<(), SetupError>;

    fn enable_web_service(&self) -> Result<(), SetupError>;

    fn disable_and_remove_services(&self) -> Result<(), SetupError>;

    fn setup_application_files(&self) -> Result<(), SetupError>;

    fn cleanup_application_files(&self) -> Result<(), SetupError>;
}

/// Reports how far the setup has come.
pub trait SystemSetupRepository: Send + Sync {
    fn get_setup_status(&self) -> Result<SystemSetupStatus, SetupError>;
}

} // verus!
