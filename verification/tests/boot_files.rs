use splatoon3_ghost_drawer::boot_config::{
    armbian_env_with_otg, armbian_env_without_otg, config_txt_without_dwc2, contains_trimmed_line,
    detect_board_model, modules_without_dwc2, write_lines_text,
};
use splatoon3_ghost_drawer::setup::{BoardModel, SetupError};
use splatoon3_ghost_drawer::system_files::{gadget_service_unit, reports_enabled, web_service_unit};

fn lines(v: &[&str]) -> Vec<String> {
    v.iter().map(|s| s.to_string()).collect()
}

#[test]
fn board_detection_order() {
    assert_eq!(detect_board_model("Hardware: Allwinner sun50iw9", None, None).unwrap(), BoardModel::OrangePiZero2W);
    assert_eq!(
        detect_board_model("", Some("Raspberry Pi Zero W Rev 1.1\0"), None).unwrap(),
        BoardModel::RaspberryPiZero
    );
    assert_eq!(
        detect_board_model("", Some("Raspberry Pi Zero 2 W Rev 1.0\0"), None).unwrap(),
        BoardModel::RaspberryPiZero2W
    );
    assert_eq!(detect_board_model("", Some("OrangePi Zero 2W"), None).unwrap(), BoardModel::OrangePiZero2W);
    assert_eq!(
        detect_board_model("", Some("something"), Some("raspberrypi,model-zero-2-w\0brcm,bcm2837\0")).unwrap(),
        BoardModel::RaspberryPiZero2W
    );
    assert_eq!(
        detect_board_model("", None, Some("allwinner,sun50i-h616\0")).unwrap(),
        BoardModel::OrangePiZero2W
    );
    match detect_board_model("", None, Some("raspberrypi,4-model-b")) {
        Err(SetupError::BoardDetectionFailed(m)) => assert_eq!(m, "Could not identify board model"),
        _ => panic!("unrecognised board expected"),
    }
}

#[test]
fn armbian_env_gets_the_overlay_and_mode() {
    let before = lines(&["verbosity=1", "overlays=i2c0 uart1 ", "param_dwc2_dr_mode=host"]);
    let after = armbian_env_with_otg(&before, &BoardModel::OrangePiZero2W).unwrap();
    assert_eq!(after, lines(&["verbosity=1", "overlays=i2c0 uart1 usb-otg", "param_dwc2_dr_mode=otg"]));
    let again = armbian_env_with_otg(&after, &BoardModel::OrangePiZero2W).unwrap();
    assert_eq!(again, after);
    let fresh = armbian_env_with_otg(&lines(&["verbosity=1"]), &BoardModel::OrangePiZero2W).unwrap();
    assert_eq!(fresh, lines(&["verbosity=1", "overlays=usb-otg", "param_dwc2_dr_mode=otg"]));
    assert!(armbian_env_with_otg(&before, &BoardModel::RaspberryPiZero2W).is_none());
    assert_eq!(write_lines_text(&lines(&["a", "b"])), "a\nb\n");
}

#[test]
fn armbian_env_loses_the_overlay_and_mode() {
    let env = lines(&["verbosity=1", "overlays=i2c0 usb-otg uart1", "param_dwc2_dr_mode=otg", ""]);
    let out = armbian_env_without_otg(&env).unwrap();
    assert_eq!(out, lines(&["verbosity=1", "overlays=i2c0 uart1"]));
    let only = lines(&["overlays=usb-otg", "x=1"]);
    assert_eq!(armbian_env_without_otg(&only).unwrap(), lines(&["x=1"]));
    assert!(armbian_env_without_otg(&lines(&["overlays=i2c0", "x=1"])).is_none());
}

#[test]
fn config_txt_and_modules_cleanup() {
    let cfg = lines(&["arm_64bit=1", "", "# Enable USB OTG mode for gadget", "dtoverlay=dwc2", "", "gpu_mem=16"]);
    assert_eq!(config_txt_without_dwc2(&cfg), "arm_64bit=1\n\ngpu_mem=16");
    assert!(contains_trimmed_line(&cfg, "dtoverlay=dwc2"));
    assert!(!contains_trimmed_line(&cfg, "dwc2"));
    assert_eq!(modules_without_dwc2(&lines(&["i2c-dev", " dwc2 ", "g_ether"])), "i2c-dev\ng_ether");
}

#[test]
fn service_files() {
    let unit = gadget_service_unit("/opt/app/bin");
    assert!(unit.starts_with("[Unit]\nDescription=Splatoon3 Ghost Drawer USB Gadget Configuration\n"));
    assert!(unit.contains("ExecStart=/opt/app/bin _internal_configure_gadget\n"));
    assert!(unit.ends_with("[Install]\nWantedBy=sysinit.target\n"));
    let web = web_service_unit("/x");
    assert!(web.contains("ExecStart=/x run\n"));
    assert!(web.contains("Environment=\"RUST_LOG=info\"\n"));
    assert!(reports_enabled("enabled\n"));
    assert!(!reports_enabled("disabled\n"));
}
