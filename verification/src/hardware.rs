//! The hardware the controller runs on: the board, its kernel modules, the
//! USB gadget it presents and the systemd service that sets it up.

use vstd::prelude::*;
use crate::shared::Entity;
use crate::setup::SetupError;
use crate::text;

verus! {

/// Boards that can act as a USB device.
#[derive(Debug, Clone, Copy, PartialEq, Eq, Hash, Structural)]
pub enum BoardModel {
    OrangePiZero2W,
    RaspberryPiZero2W,
    RaspberryPiZeroW,
    Unknown,
}

/// The board named by the `Model` and `Hardware` lines of `/proc/cpuinfo`.
pub open spec fn board_from_cpu_info(model: Seq<char>, hardware: Seq<char>) -> BoardModel {
    if text::has_substring(model, "Orange Pi Zero 2W"@) || text::has_substring(hardware, "sun50iw9"@) {
        BoardModel::OrangePiZero2W
    } else if text::has_substring(model, "Raspberry Pi Zero 2"@) {
        BoardModel::RaspberryPiZero2W
    } else if text::has_substring(model, "Raspberry Pi Zero"@) {
        BoardModel::RaspberryPiZeroW
    } else {
        BoardModel::Unknown
    }
}

/// The boot configuration file of a board.
pub open spec fn config_file_text(m: BoardModel) -> Option<Seq<char>> {
    match m {
        BoardModel::OrangePiZero2W => Some("/boot/armbianEnv.txt"@),
        BoardModel::RaspberryPiZero2W => Some("/boot/config.txt"@),
        BoardModel::RaspberryPiZeroW => Some("/boot/config.txt"@),
        BoardModel::Unknown => None,
    }
}

/// The boot setting that puts a board's USB port in device mode.
pub open spec fn dtoverlay_text(m: BoardModel) -> Option<Seq<char>> {
    match m {
        BoardModel::OrangePiZero2W => Some("param_dwc2_dr_mode=otg"@),
        BoardModel::RaspberryPiZero2W => Some("dtoverlay=dwc2"@),
        BoardModel::RaspberryPiZeroW => Some("dtoverlay=dwc2"@),
        BoardModel::Unknown => None,
    }
}

/// The name of a board, as its `Display` writes it.
pub open spec fn board_name(m: BoardModel) -> Seq<char> {
    match m {
        BoardModel::OrangePiZero2W => "Orange Pi Zero 2W"@,
        BoardModel::RaspberryPiZero2W => "Raspberry Pi Zero 2W"@,
        BoardModel::RaspberryPiZeroW => "Raspberry Pi Zero W"@,
        BoardModel::Unknown => "Unknown Board"@,
    }
}

impl BoardModel {
    /// Recognises the board from the `Model` and `Hardware` lines of `/proc/cpuinfo`.
    pub fn from_cpu_info(model_info: &str, hardware_info: &str) -> (r: Self)
        ensures
            r == board_from_cpu_info(model_info@, hardware_info@),
    {
        if text::contains_str(model_info, "Orange Pi Zero 2W") || text::contains_str(hardware_info, "sun50iw9") {
            BoardModel::OrangePiZero2W
        } else if text::contains_str(model_info, "Raspberry Pi Zero 2") {
            BoardModel::RaspberryPiZero2W
        } else if text::contains_str(model_info, "Raspberry Pi Zero") {
            BoardModel::RaspberryPiZeroW
        } else {
            BoardModel::Unknown
        }
    }

    /// Whether the board has a USB port that can act as a device.
    pub fn supports_usb_otg(&self) -> (r: bool)
        ensures
            r == (*self != BoardModel::Unknown),
    {
        match self {
            BoardModel::OrangePiZero2W | BoardModel::RaspberryPiZero2W | BoardModel::RaspberryPiZeroW => true,
            BoardModel::Unknown => false,
        }
    }

    /// The boot configuration file; see `config_file_text`.
    pub fn config_file_path(&self) -> (r: Option<&'static str>)
        ensures
            match r {
                Some(s) => config_file_text(*self) == Some(s@),
                None => config_file_text(*self) is None,
            },
    {
        match self {
            BoardModel::OrangePiZero2W => Some("/boot/armbianEnv.txt"),
            BoardModel::RaspberryPiZero2W | BoardModel::RaspberryPiZeroW => Some("/boot/config.txt"),
            BoardModel::Unknown => None,
        }
    }

    /// The boot setting for device mode; see `dtoverlay_text`.
    pub fn required_dtoverlay(&self) -> (r: Option<&'static str>)
        ensures
            match r {
                Some(s) => dtoverlay_text(*self) == Some(s@),
                None => dtoverlay_text(*self) is None,
            },
    {
        match self {
            BoardModel::OrangePiZero2W => Some("param_dwc2_dr_mode=otg"),
            BoardModel::RaspberryPiZero2W | BoardModel::RaspberryPiZeroW => Some("dtoverlay=dwc2"),
            BoardModel::Unknown => None,
        }
    }

    /// The text the type's `Display` writes; see `board_name`.
    pub fn display_string(&self) -> (s: String)
        ensures
            s@ == board_name(*self),
    {
        match self {
            BoardModel::OrangePiZero2W => text::owned("Orange Pi Zero 2W"),
            BoardModel::RaspberryPiZero2W => text::owned("Raspberry Pi Zero 2W"),
            BoardModel::RaspberryPiZeroW => text::owned("Raspberry Pi Zero W"),
            BoardModel::Unknown => text::owned("Unknown Board"),
        }
    }
}

/// Where the USB gadget stands.
#[derive(Debug, Clone, Copy, PartialEq, Eq, Hash, Structural)]
pub enum UsbGadgetState {
    NotConfigured,
    Configured,
    Active,
    Error,
}

/// The USB device descriptor the gadget presents.
#[derive(Debug, Clone, PartialEq, Eq, Hash)]
pub struct UsbDeviceDescriptor {
    pub vendor_id: u16,
    pub product_id: u16,
    pub device_version: u16,
    pub usb_version: u16,
    pub manufacturer: String,
    pub product: String,
    pub serial_number: String,
}

/// Whether `d` describes a Nintendo Pro Controller: vendor 0x057e, product
/// 0x2009, device version 1.0.0, USB 2.0.
pub open spec fn is_pro_controller_descriptor(d: UsbDeviceDescriptor) -> bool {
    &&& d.vendor_id == 0x057e
    &&& d.product_id == 0x2009
    &&& d.device_version == 0x0100
    &&& d.usb_version == 0x0200
    &&& d.manufacturer@ == "Nintendo Co., Ltd."@
    &&& d.product@ == "Pro Controller"@
    &&& d.serial_number@ == "000000000001"@
}

impl Default for UsbDeviceDescriptor {
    /// The descriptor of a Nintendo Pro Controller.
    fn default() -> (d: Self)
        ensures
            is_pro_controller_descriptor(d),
    {
        UsbDeviceDescriptor {
            vendor_id: 0x057e,
            product_id: 0x2009,
            device_version: 0x0100,
            usb_version: 0x0200,
            manufacturer: text::owned("Nintendo Co., Ltd."),
            product: text::owned("Pro Controller"),
            serial_number: text::owned("000000000001"),
        }
    }
}

/// Where a systemd service stands.
#[derive(Debug, Clone, Copy, PartialEq, Eq, Hash, Structural)]
pub enum SystemdServiceState {
    NotInstalled,
    Installed,
    Enabled,
    Running,
    Failed,
}

/// A kernel module and whether it is loaded.
#[derive(Debug, Clone, PartialEq, Eq, Hash)]
pub struct KernelModule {
    pub name: String,
    pub loaded: bool,
}

impl KernelModule {
    /// A module that is not loaded yet.
    pub fn new(name: &str) -> (m: Self)
        ensures
            m.name@ == name@,
            !m.loaded,
    {
        KernelModule { name: text::owned(name), loaded: false }
    }

    /// The USB device controller driver.
    pub fn dwc2() -> (m: Self)
        ensures
            m.name@ == "dwc2"@,
            !m.loaded,
    {
        Self::new("dwc2")
    }

    /// The USB gadget framework.
    pub fn libcomposite() -> (m: Self)
        ensures
            m.name@ == "libcomposite"@,
            !m.loaded,
    {
        Self::new("libcomposite")
    }
}

/// The modules of `s` that are not loaded, in order.
pub open spec fn unloaded(s: Seq<KernelModule>) -> Seq<KernelModule>
    decreases s.len(),
{
    if s.len() == 0 {
        s
    } else if !s.last().loaded {
        unloaded(s.drop_last()).push(s.last())
    } else {
        unloaded(s.drop_last())
    }
}

/// The modules behind a sequence of references.
pub open spec fn deref_modules(s: Seq<&KernelModule>) -> Seq<KernelModule> {
    s.map_values(|m: &KernelModule| *m)
}

/// The board, the modules the gadget needs, and whether USB OTG is available.
#[derive(Debug, Clone, PartialEq)]
pub struct Board {
    pub model: BoardModel,
    pub kernel_modules: Vec<KernelModule>,
    pub usb_otg_available: bool,
}

impl Board {
    /// A board that needs `dwc2` and `libcomposite`, with USB OTG not yet seen.
    pub fn new(model: BoardModel) -> (b: Self)
        ensures
            b.model == model,
            b.kernel_modules@.len() == 2,
            b.kernel_modules@[0].name@ == "dwc2"@ && !b.kernel_modules@[0].loaded,
            b.kernel_modules@[1].name@ == "libcomposite"@ && !b.kernel_modules@[1].loaded,
            !b.usb_otg_available,
    {
        let mut kernel_modules: Vec<KernelModule> = Vec::new();
        kernel_modules.push(KernelModule::dwc2());
        kernel_modules.push(KernelModule::libcomposite());
        Board { model, kernel_modules, usb_otg_available: false }
    }

    pub fn with_kernel_modules(self, modules: Vec<KernelModule>) -> (b: Self)
        ensures
            b.model == self.model,
            b.kernel_modules@ == modules@,
            b.usb_otg_available == self.usb_otg_available,
    {
        Board { kernel_modules: modules, ..self }
    }

    pub fn with_usb_otg_status(self, available: bool) -> (b: Self)
        ensures
            b.model == self.model,
            b.kernel_modules@ == self.kernel_modules@,
            b.usb_otg_available == available,
    {
        Board { usb_otg_available: available, ..self }
    }

    /// Whether a gadget can be set up: the board supports OTG and it is available.
    pub fn can_setup_gadget(&self) -> (r: bool)
        ensures
            r == (self.model != BoardModel::Unknown && self.usb_otg_available),
    {
        self.model.supports_usb_otg() && self.usb_otg_available
    }

    /// The modules that still have to be loaded, in order.
    pub fn required_modules(&self) -> (r: Vec<&KernelModule>)
        ensures
            deref_modules(r@) == unloaded(self.kernel_modules@),
    {
        let mut out: Vec<&KernelModule> = Vec::new();
        let mut i: usize = 0;
        while i < self.kernel_modules.len()
            invariant
                i <= self.kernel_modules@.len(),
                deref_modules(out@) == unloaded(self.kernel_modules@.take(i as int)),
            decreases self.kernel_modules@.len() - i,
        {
            let m = &self.kernel_modules[i];
            assert(self.kernel_modules@.take(i + 1).drop_last() =~= self.kernel_modules@.take(i as int));
            if !m.loaded {
                out.push(m);
            }
            assert(deref_modules(out@) =~= unloaded(self.kernel_modules@.take(i + 1)));
            i = i + 1;
        }
        assert(self.kernel_modules@.take(i as int) =~= self.kernel_modules@);
        out
    }
}

/// A USB gadget under configfs.
#[derive(Debug, Clone, PartialEq)]
pub struct UsbGadget {
    pub id: String,
    pub state: UsbGadgetState,
    pub descriptor: UsbDeviceDescriptor,
    pub gadget_path: String,
    pub udc_name: Option<String>,
}

impl UsbGadget {
    /// An unconfigured Pro Controller gadget under `/sys/kernel/config/usb_gadget`.
    pub fn new(id: &str) -> (g: Self)
        ensures
            g.id@ == id@,
            g.state == UsbGadgetState::NotConfigured,
            is_pro_controller_descriptor(g.descriptor),
            g.gadget_path@ == "/sys/kernel/config/usb_gadget"@,
            g.udc_name is None,
    {
        UsbGadget {
            id: text::owned(id),
            state: UsbGadgetState::NotConfigured,
            descriptor: UsbDeviceDescriptor::default(),
            gadget_path: text::owned("/sys/kernel/config/usb_gadget"),
            udc_name: None,
        }
    }

    /// The gadget named `nintendo_controller`.
    pub fn nintendo_controller() -> (g: Self)
        ensures
            g.id@ == "nintendo_controller"@,
            g.state == UsbGadgetState::NotConfigured,
            is_pro_controller_descriptor(g.descriptor),
            g.gadget_path@ == "/sys/kernel/config/usb_gadget"@,
            g.udc_name is None,
    {
        Self::new("nintendo_controller")
    }

    pub fn with_descriptor(self, descriptor: UsbDeviceDescriptor) -> (g: Self)
        ensures
            g == (UsbGadget { descriptor, ..self }),
    {
        UsbGadget { descriptor, ..self }
    }

    pub fn with_state(self, state: UsbGadgetState) -> (g: Self)
        ensures
            g == (UsbGadget { state, ..self }),
    {
        UsbGadget { state, ..self }
    }

    pub fn is_active(&self) -> (r: bool)
        ensures
            r == (self.state == UsbGadgetState::Active),
    {
        self.state == UsbGadgetState::Active
    }

    /// `gadget_path/id`.
    pub fn full_path(&self) -> (s: String)
        ensures
            s@ == self.gadget_path@ + seq!['/'] + self.id@,
    {
        let mut s = text::owned(self.gadget_path.as_str());
        text::push_char(&mut s, '/');
        text::push_str(&mut s, self.id.as_str());
        s
    }
}

impl Entity for UsbGadget {
    type Id = String;

    fn id(&self) -> &String {
        &self.id
    }
}

/// A systemd unit.
#[derive(Debug, Clone, PartialEq)]
pub struct SystemdService {
    pub name: String,
    pub state: SystemdServiceState,
    pub unit_file_path: String,
    pub exec_start: String,
}

impl SystemdService {
    /// A service not installed yet, with its unit file under `/etc/systemd/system`.
    pub fn new(name: &str) -> (s: Self)
        ensures
            s.name@ == name@,
            s.state == SystemdServiceState::NotInstalled,
            s.unit_file_path@ == "/etc/systemd/system/"@ + name@ + ".service"@,
            s.exec_start@ == Seq::<char>::empty(),
    {
        let mut unit_file_path = text::owned("/etc/systemd/system/");
        text::push_str(&mut unit_file_path, name);
        text::push_str(&mut unit_file_path, ".service");
        SystemdService {
            name: text::owned(name),
            state: SystemdServiceState::NotInstalled,
            unit_file_path,
            exec_start: String::new(),
        }
    }

    /// The service that sets the gadget up at boot.
    pub fn nintendo_controller_service() -> (s: Self)
        ensures
            s.name@ == "nintendo-controller"@,
            s.state == SystemdServiceState::NotInstalled,
            s.unit_file_path@ == "/etc/systemd/system/nintendo-controller.service"@,
            s.exec_start@ == "/usr/local/bin/setup-nintendo-controller.sh"@,
    {
        let s = Self::new("nintendo-controller").with_exec_start("/usr/local/bin/setup-nintendo-controller.sh");
        proof {
            reveal_strlit("/etc/systemd/system/");
            reveal_strlit("nintendo-controller");
            reveal_strlit(".service");
            reveal_strlit("/etc/systemd/system/nintendo-controller.service");
        }
        assert(s.unit_file_path@ =~= "/etc/systemd/system/nintendo-controller.service"@);
        s
    }

    pub fn with_exec_start(self, exec_start: &str) -> (s: Self)
        ensures
            s.name == self.name,
            s.state == self.state,
            s.unit_file_path == self.unit_file_path,
            s.exec_start@ == exec_start@,
    {
        SystemdService { exec_start: text::owned(exec_start), ..self }
    }

    pub fn with_state(self, state: SystemdServiceState) -> (s: Self)
        ensures
            s == (SystemdService { state, ..self }),
    {
        SystemdService { state, ..self }
    }

    pub fn is_running(&self) -> (r: bool)
        ensures
            r == (self.state == SystemdServiceState::Running),
    {
        self.state == SystemdServiceState::Running
    }

    /// Enabled, or running.
    pub fn is_enabled(&self) -> (r: bool)
        ensures
            r == (self.state == SystemdServiceState::Enabled || self.state == SystemdServiceState::Running),
    {
        match self.state {
            SystemdServiceState::Enabled | SystemdServiceState::Running => true,
            _ => false,
        }
    }
}

impl Entity for SystemdService {
    type Id = String;

    fn id(&self) -> &String {
        &self.name
    }
}

/// What can go wrong with the hardware.
#[derive(Debug, Clone, PartialEq, Eq)]
pub enum HardwareError {
    BoardNotSupported(String),
    UsbOtgNotAvailable,
    KernelModuleNotLoaded(String),
    BoardDetectionFailed,
    GadgetConfigurationFailed(String),
    SystemdServiceFailed(String),
    PermissionDenied,
    SystemCommandFailed(String),
    FileOperationFailed(String),
    Unknown(String),
    /// The console is not connected to the gadget.
    NotConnected,
    /// The controller was used before it was initialised.
    NotInitialized,
    DeviceNotFound(String),
    InvalidParameter(String),
    /// An I/O failure, with the operating system's message.
    IoError(String),
}

/// The message of a hardware error, as its `Display` writes it.
pub open spec fn hardware_error_text(e: HardwareError) -> Seq<char> {
    match e {
        HardwareError::BoardNotSupported(s) => "Board not supported for USB OTG: "@ + s@,
        HardwareError::UsbOtgNotAvailable => "USB OTG not available on this board"@,
        HardwareError::KernelModuleNotLoaded(s) => "Required kernel module not loaded: "@ + s@,
        HardwareError::BoardDetectionFailed => "Failed to detect board model"@,
        HardwareError::GadgetConfigurationFailed(s) => "USB gadget configuration failed: "@ + s@,
        HardwareError::SystemdServiceFailed(s) => "Systemd service operation failed: "@ + s@,
        HardwareError::PermissionDenied => "Permission denied. Root privileges required"@,
        HardwareError::SystemCommandFailed(s) => "System command failed: "@ + s@,
        HardwareError::FileOperationFailed(s) => "File operation failed: "@ + s@,
        HardwareError::Unknown(s) => "Unknown error: "@ + s@,
        HardwareError::NotConnected => "Controller not connected"@,
        HardwareError::NotInitialized => "Controller not initialized"@,
        HardwareError::DeviceNotFound(s) => "Device not found: "@ + s@,
        HardwareError::InvalidParameter(s) => "Invalid parameter: "@ + s@,
        HardwareError::IoError(s) => "I/O error: "@ + s@,
    }
}

/// `prefix` followed by `detail`.
fn prefixed(prefix: &str, detail: &String) -> (s: String)
    ensures
        s@ == prefix@ + detail@,
{
    let mut s = text::owned(prefix);
    text::push_str(&mut s, detail.as_str());
    s
}

impl HardwareError {
    /// Whether retrying can help: a module not loaded or a failed service operation.
    pub fn is_recoverable(&self) -> (r: bool)
        ensures
            r == (self is KernelModuleNotLoaded || self is SystemdServiceFailed),
    {
        match self {
            HardwareError::KernelModuleNotLoaded(_) | HardwareError::SystemdServiceFailed(_) => true,
            _ => false,
        }
    }

    /// The text the type's `Display` writes; see `hardware_error_text`.
    pub fn display_string(&self) -> (s: String)
        ensures
            s@ == hardware_error_text(*self),
    {
        match self {
            HardwareError::BoardNotSupported(d) => prefixed("Board not supported for USB OTG: ", d),
            HardwareError::UsbOtgNotAvailable => text::owned("USB OTG not available on this board"),
            HardwareError::KernelModuleNotLoaded(d) => prefixed("Required kernel module not loaded: ", d),
            HardwareError::BoardDetectionFailed => text::owned("Failed to detect board model"),
            HardwareError::GadgetConfigurationFailed(d) => prefixed("USB gadget configuration failed: ", d),
            HardwareError::SystemdServiceFailed(d) => prefixed("Systemd service operation failed: ", d),
            HardwareError::PermissionDenied => text::owned("Permission denied. Root privileges required"),
            HardwareError::SystemCommandFailed(d) => prefixed("System command failed: ", d),
            HardwareError::FileOperationFailed(d) => prefixed("File operation failed: ", d),
            HardwareError::Unknown(d) => prefixed("Unknown error: ", d),
            HardwareError::NotConnected => text::owned("Controller not connected"),
            HardwareError::NotInitialized => text::owned("Controller not initialized"),
            HardwareError::DeviceNotFound(d) => prefixed("Device not found: ", d),
            HardwareError::InvalidParameter(d) => prefixed("Invalid parameter: ", d),
            HardwareError::IoError(d) => prefixed("I/O error: ", d),
        }
    }
}

/// Configures the USB gadget through configfs as the controller the console
/// sees, and rebinds it to its USB device controller.
pub trait UsbGadgetManager: Send + Sync {
    fn configure_as_pro_controller(&self) -> Result<(), SetupError>;

    fn is_gadget_configured(&self) -> Result<bool, SetupError>;

    fn reconnect_gadget(&self) -> Result<(), SetupError>;
}

} // verus!
