use splatoon3_ghost_drawer::controller_entities::ProController;
use splatoon3_ghost_drawer::memory_store::ControllerStore;
use splatoon3_ghost_drawer::connection_report::{
    last_mentioning, modprobe_outcome, otg_mode_is_peripheral, service_status_icon, service_summary, ModprobeOutcome,
};
use splatoon3_ghost_drawer::device_io::{
    device_access_failure, device_path_or, first_hid_device, hid_device_paths, hid_open_failure, probe_outcome,
    report_open_failure, report_write_failure, IoFailure,
};
use splatoon3_ghost_drawer::errors::ControllerError;
use splatoon3_ghost_drawer::hardware::{HardwareError, SystemdServiceState, UsbGadgetState};
use splatoon3_ghost_drawer::hid_state::centred_report;
use splatoon3_ghost_drawer::probe;
use splatoon3_ghost_drawer::shared::Color;
use splatoon3_ghost_drawer::system_files;

fn strings(v: &[&str]) -> Vec<String> {
    v.iter().map(|s| s.to_string()).collect()
}

#[test]
fn usb_ids_are_four_lower_hex_digits() {
    assert_eq!(probe::usb_id_text(0x057e), "0x057e");
    assert_eq!(probe::usb_id_text(0x2009), "0x2009");
    assert_eq!(probe::usb_id_text(0xABCD), "0xabcd");
    assert_eq!(probe::usb_id_text(0), "0x0000");
}

#[test]
fn udc_binding_and_gadget_state() {
    assert_eq!(probe::udc_binding("  fe980000.usb\n"), Some("fe980000.usb".to_string()));
    assert_eq!(probe::udc_binding(" \n"), None);
    let g = probe::gadget_from_udc("nintendo_controller", "musb-hdrc.4.auto\n");
    assert_eq!(g.state, UsbGadgetState::Active);
    assert_eq!(g.udc_name.as_deref(), Some("musb-hdrc.4.auto"));
    assert_eq!(g.id, "nintendo_controller");
    let h = probe::gadget_from_udc("g", "");
    assert_eq!(h.state, UsbGadgetState::Configured);
    assert!(h.udc_name.is_none());
}

#[test]
fn device_numbers_fall_back_to_defaults() {
    assert_eq!(probe::device_numbers("240:3\n"), ("240".to_string(), "3".to_string()));
    assert_eq!(probe::device_numbers("garbage"), ("236".to_string(), "0".to_string()));
    assert_eq!(probe::device_numbers("1:2:3"), ("236".to_string(), "0".to_string()));
}

#[test]
fn lsmod_and_cpuinfo_readings() {
    let lsmod = strings(&["Module Size Used", "dwc2 200 0", "libcomposite 10 1"]);
    assert!(probe::module_listed(&lsmod, "dwc2"));
    assert!(probe::module_listed(&lsmod, "libcomp"));
    assert!(!probe::module_listed(&lsmod, "usb_f_hid"));
    let cpu = strings(&[
        "processor : 0",
        "Hardware\t: BCM2835",
        "Model\t\t: Raspberry Pi Zero 2 W Rev 1.0",
        "Serial : 1234",
    ]);
    assert_eq!(
        probe::cpu_info_fields(&cpu),
        ("Raspberry Pi Zero 2 W Rev 1.0".to_string(), "BCM2835".to_string())
    );
    assert_eq!(probe::cpu_info_fields(&strings(&["Model"])), (String::new(), String::new()));
    assert_eq!(probe::cpu_info_fields(&strings(&["model name : a:b"])).0, "a");
}

#[test]
fn overlay_line_is_appended_once() {
    assert_eq!(probe::config_with_overlay("a=1\n\n", "dtoverlay=dwc2"), Some("a=1\ndtoverlay=dwc2\n".to_string()));
    assert_eq!(probe::config_with_overlay("x\ndtoverlay=dwc2\n", "dtoverlay=dwc2"), None);
}

#[test]
fn report_descriptors() {
    let p = probe::pro_controller_report_descriptor();
    assert_eq!(p.len(), 64);
    assert_eq!(&p[..4], &[0x05, 0x01, 0x09, 0x05]);
    assert_eq!(p[63], 0xC0);
    let k = probe::pokken_report_descriptor();
    assert_eq!(k.len(), 86);
    assert_eq!(k[85], 0xC0);
    assert_eq!(&k[30..33], &[0x46, 0x3B, 0x01]);
}

#[test]
fn device_paths_and_failures() {
    assert_eq!(device_path_or("", "/dev/hidg0"), "/dev/hidg0");
    assert_eq!(device_path_or("/dev/hidg1", "/dev/hidg0"), "/dev/hidg1");
    assert_eq!(hid_open_failure(IoFailure::PermissionDenied, "/dev/x", "m", true), ControllerError::PermissionDenied);
    assert_eq!(
        hid_open_failure(IoFailure::NotFound, "/dev/x", "m", true),
        ControllerError::DevicePathNotAvailable("/dev/x".to_string())
    );
    assert_eq!(
        hid_open_failure(IoFailure::Other, "/dev/x", "boom", true),
        ControllerError::HidWriteFailed("Failed to open /dev/x: boom".to_string())
    );
    assert_eq!(
        hid_open_failure(IoFailure::Disconnected, "/dev/x", "boom", false),
        ControllerError::HidReadFailed("Failed to open /dev/x: boom".to_string())
    );
    assert_eq!(
        device_access_failure(IoFailure::Other, "/dev/y", "busy"),
        ControllerError::DeviceInitFailed("Cannot open /dev/y: busy".to_string())
    );
    assert_eq!(report_open_failure(IoFailure::PermissionDenied, "x"), HardwareError::PermissionDenied);
    assert_eq!(report_open_failure(IoFailure::NotFound, "gone"), HardwareError::IoError("gone".to_string()));
    assert_eq!(report_write_failure(IoFailure::Disconnected, "x"), HardwareError::NotConnected);
    assert_eq!(report_write_failure(IoFailure::WouldBlock, "wb"), HardwareError::IoError("wb".to_string()));
    assert_eq!(probe_outcome(None, ""), Ok(true));
    assert_eq!(probe_outcome(Some(IoFailure::WouldBlock), ""), Ok(true));
    assert_eq!(probe_outcome(Some(IoFailure::Disconnected), ""), Ok(false));
    assert_eq!(probe_outcome(Some(IoFailure::Other), "bad"), Err(HardwareError::IoError("bad".to_string())));
}

#[test]
fn hid_devices_are_found_in_dev() {
    let names = strings(&["tty0", "hidg0", "hidraw1", "hidg2", "null"]);
    assert_eq!(hid_device_paths(&names), strings(&["/dev/hidg0", "/dev/hidg2"]));
    assert_eq!(first_hid_device(&[false, false, true, true]), Ok("/dev/hidg2".to_string()));
    assert_eq!(
        first_hid_device(&[false; 4]),
        Err(HardwareError::DeviceNotFound("No HID gadget device found".to_string()))
    );
}

#[test]
fn connection_report_judgements() {
    assert_eq!(service_status_icon("active"), "✅");
    assert_eq!(service_status_icon("inactive"), "⏸️");
    assert_eq!(service_status_icon("failed"), "❌");
    assert_eq!(service_status_icon("activating"), "❓");
    assert_eq!(service_summary(true, true), "✅ Enabled & Active");
    assert_eq!(service_summary(true, false), "⚠️  Enabled but Inactive");
    assert_eq!(service_summary(false, true), "⚠️  Active but not Enabled");
    assert_eq!(service_summary(false, false), "❌ Disabled & Inactive");
    assert!(otg_mode_is_peripheral(" b_peripheral\n"));
    assert!(!otg_mode_is_peripheral("host"));
    assert_eq!(modprobe_outcome(true, "x"), ModprobeOutcome::Loaded);
    assert_eq!(
        modprobe_outcome(false, "modprobe: FATAL: Module sunxi not found in directory"),
        ModprobeOutcome::NotAvailable
    );
    assert_eq!(modprobe_outcome(false, ""), ModprobeOutcome::AlreadyLoaded);
    assert_eq!(modprobe_outcome(false, " denied\n"), ModprobeOutcome::Failed("denied".to_string()));
}

#[test]
fn recent_messages_keep_the_last_matches_in_order() {
    let lines = strings(&["usb 1", "x", "gadget a", "hid b", "y", "dwc2 c"]);
    let kw = strings(&["usb", "gadget", "hid", "dwc2"]);
    assert_eq!(last_mentioning(&lines, &kw, 2), strings(&["hid b", "dwc2 c"]));
    assert_eq!(last_mentioning(&lines, &kw, 10), strings(&["usb 1", "gadget a", "hid b", "dwc2 c"]));
    assert!(last_mentioning(&lines, &strings(&["zzz"]), 3).is_empty());
}

#[test]
fn systemd_readings_and_units() {
    assert_eq!(system_files::observed_service_state(true, false, false), SystemdServiceState::Running);
    assert_eq!(system_files::observed_service_state(false, true, false), SystemdServiceState::Enabled);
    assert_eq!(system_files::observed_service_state(false, false, true), SystemdServiceState::Installed);
    assert_eq!(system_files::observed_service_state(false, false, false), SystemdServiceState::NotInstalled);
    let unit = system_files::pro_controller_unit("/usr/local/bin/setup-nintendo-controller.sh");
    assert!(unit.starts_with("[Unit]\nDescription=Nintendo Switch Pro Controller USB Gadget\n"));
    assert!(unit.contains("\nExecStart=/usr/local/bin/setup-nintendo-controller.sh\n"));
    assert!(unit.ends_with("WantedBy=multi-user.target\n"));
}

#[test]
fn centred_reports() {
    assert_eq!(centred_report(0x0010, 0x08), [0x10, 0x00, 0x08, 128, 128, 128, 128, 0]);
    assert_eq!(centred_report(0x2004, 0x02), [0x04, 0x20, 0x02, 128, 128, 128, 128, 0]);
}

#[test]
fn colors_read_from_text() {
    assert_eq!(Color::parse(" #FF0000 "), Ok(Color::red()));
    assert_eq!(Color::parse("rgb(1, 2, 3)"), Ok(Color::new(1, 2, 3, 255)));
    assert_eq!(Color::parse("rgba( 1,2 ,3, +4)"), Ok(Color::new(1, 2, 3, 4)));
    assert_eq!(Color::parse("rgb(1,2)"), Err("Invalid RGB format".to_string()));
    assert_eq!(Color::parse("rgba(1,2,3)"), Err("Invalid RGBA format".to_string()));
    assert_eq!(Color::parse("rgb(1,256,3)"), Err("Invalid green component".to_string()));
    assert_eq!(Color::parse("rgba(1,2,3,x)"), Err("Invalid alpha component".to_string()));
    assert_eq!(Color::parse("BLACK"), Ok(Color::black()));
    assert_eq!(Color::parse("Transparent"), Ok(Color::transparent()));
    assert_eq!(Color::parse("  mauve "), Err("Unknown color name: mauve".to_string()));
}

#[test]
fn connecting_a_controller_that_names_a_device_stores_it_unchanged() {
    let mut store = ControllerStore::new();
    let mut c = ProController::new("c");
    c.device_path = Some("/dev/hidg1".to_string());
    store.create_controller(c.clone()).unwrap();
    assert!(store.connect_controller(&mut c).is_ok());
    assert!(!c.is_connected);
    assert_eq!(c.device_path.as_deref(), Some("/dev/hidg1"));
    assert_eq!(store.get_controller("c").unwrap().device_path.as_deref(), Some("/dev/hidg1"));
}
