use splatoon3_ghost_drawer::errors::ControllerError;
use splatoon3_ghost_drawer::hardware::{
    Board, BoardModel, HardwareError, KernelModule, SystemdService, SystemdServiceState, UsbDeviceDescriptor,
    UsbGadget, UsbGadgetState,
};
use splatoon3_ghost_drawer::setup;

#[test]
fn board_from_cpu_info() {
    assert_eq!(BoardModel::from_cpu_info("Orange Pi Zero 2W", ""), BoardModel::OrangePiZero2W);
    assert_eq!(BoardModel::from_cpu_info("something", "Allwinner sun50iw9"), BoardModel::OrangePiZero2W);
    assert_eq!(BoardModel::from_cpu_info("Raspberry Pi Zero 2 W Rev 1.0", ""), BoardModel::RaspberryPiZero2W);
    assert_eq!(BoardModel::from_cpu_info("Raspberry Pi Zero W Rev 1.1", ""), BoardModel::RaspberryPiZeroW);
    assert_eq!(BoardModel::from_cpu_info("Raspberry Pi 4", "BCM2711"), BoardModel::Unknown);
    assert!(BoardModel::RaspberryPiZeroW.supports_usb_otg());
    assert!(!BoardModel::Unknown.supports_usb_otg());
    assert_eq!(BoardModel::OrangePiZero2W.config_file_path(), Some("/boot/armbianEnv.txt"));
    assert_eq!(BoardModel::RaspberryPiZero2W.required_dtoverlay(), Some("dtoverlay=dwc2"));
    assert_eq!(BoardModel::Unknown.config_file_path(), None);
    assert_eq!(BoardModel::RaspberryPiZeroW.display_string(), "Raspberry Pi Zero W");
}

#[test]
fn board_modules() {
    let board = Board::new(BoardModel::RaspberryPiZero2W);
    assert_eq!(board.required_modules().len(), 2);
    assert!(!board.can_setup_gadget());
    let mut loaded = KernelModule::dwc2();
    loaded.loaded = true;
    let board = board.with_kernel_modules(vec![loaded, KernelModule::libcomposite()]).with_usb_otg_status(true);
    assert!(board.can_setup_gadget());
    let required = board.required_modules();
    assert_eq!(required.len(), 1);
    assert_eq!(required[0].name, "libcomposite");
    assert_eq!(KernelModule::new("x").name, "x");
}

#[test]
fn gadget_and_service() {
    let gadget = UsbGadget::nintendo_controller();
    assert_eq!(gadget.full_path(), "/sys/kernel/config/usb_gadget/nintendo_controller");
    assert_eq!(gadget.descriptor, UsbDeviceDescriptor::default());
    assert_eq!(gadget.descriptor.vendor_id, 0x057e);
    assert!(!gadget.is_active());
    assert!(gadget.with_state(UsbGadgetState::Active).is_active());
    let service = SystemdService::nintendo_controller_service();
    assert_eq!(service.unit_file_path, "/etc/systemd/system/nintendo-controller.service");
    assert_eq!(service.exec_start, "/usr/local/bin/setup-nintendo-controller.sh");
    assert!(!service.is_enabled());
    let running = service.with_state(SystemdServiceState::Running);
    assert!(running.is_running() && running.is_enabled());
    assert!(SystemdService::new("a").with_state(SystemdServiceState::Enabled).is_enabled());
}

#[test]
fn error_classification_and_messages() {
    assert!(HardwareError::KernelModuleNotLoaded("dwc2".to_string()).is_recoverable());
    assert!(!HardwareError::PermissionDenied.is_recoverable());
    assert_eq!(
        HardwareError::KernelModuleNotLoaded("dwc2".to_string()).display_string(),
        "Required kernel module not loaded: dwc2"
    );
    assert!(ControllerError::NotConnected.is_recoverable());
    assert!(!ControllerError::InvalidHidReport.is_recoverable());
    assert_eq!(ControllerError::InvalidStickPosition(1, 200).display_string(), "Invalid stick position: x=1, y=200");
    assert_eq!(ControllerError::InvalidButtonValue(70).display_string(), "Invalid button value: 70");
    let e = setup::SetupError::PermissionDenied("root".to_string());
    assert_eq!(e.display_string(), "Permission denied: root");
    let io: setup::SetupError = std::io::Error::new(std::io::ErrorKind::Other, "disk").into();
    assert_eq!(io.display_string(), "File system error: disk");
}

#[test]
fn setup_board_model() {
    assert_eq!(setup::BoardModel::OrangePiZero2W.otg_device_tree_overlay(), Some("sun50i-h616-usb-otg"));
    assert_eq!(setup::BoardModel::RaspberryPiZero.otg_device_tree_overlay(), None);
    assert!(setup::BoardModel::RaspberryPiZero2W.requires_config_txt());
    assert!(!setup::BoardModel::Unknown("x".to_string()).requires_config_txt());
    assert_eq!(setup::BoardModel::Unknown("x".to_string()).usb_device_path(), "/sys/kernel/config/usb_gadget/g1");
    let status = setup::SystemSetupStatus::default();
    assert!(!status.boot_configured && !status.systemd_service_enabled && !status.usb_gadget_configured);
}
