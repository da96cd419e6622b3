use splatoon3_ghost_drawer::controller_entities::{ControllerSession, ProController};
use splatoon3_ghost_drawer::controller_values::{Button, DPad, StickPosition};
use splatoon3_ghost_drawer::errors::ControllerError;
use splatoon3_ghost_drawer::hid_state::ControllerInputState;
use splatoon3_ghost_drawer::memory_store::{ControllerStore, SessionStore};

#[test]
fn neutral_report_and_button_presses() {
    let mut s = ControllerInputState::neutral();
    assert_eq!(s.report(), [0, 0, 8, 0x80, 0x80, 0x80, 0x80, 0]);
    s.press(&Button::A());
    assert_eq!(s.report(), [0x04, 0, 8, 0x80, 0x80, 0x80, 0x80, 0]);
    s.press(&Button::HOME());
    assert_eq!(s.report()[0..3], [0x04, 0x10, 8]);
    s.release(&Button::A());
    assert_eq!(s.report()[0..3], [0x00, 0x10, 8]);
    s.set_dpad(&DPad::LEFT());
    assert_eq!(s.report()[2], 6);
    s.press(&Button::B());
    assert_eq!(s.report()[0..3], [0x02, 0x10, 8]);
    assert_eq!(ControllerInputState::button_to_bits(&Button::CAPTURE()), 0x2000);
    assert_eq!(ControllerInputState::dpad_to_bits(&DPad::UP()), 0);
}

#[test]
fn sticks_move_and_recenter() {
    let mut s = ControllerInputState::neutral();
    s.move_left_stick(StickPosition::new(255, 1));
    assert_eq!(s.report()[3..5], [255, 1]);
    assert!(s.recenter_left_stick(StickPosition::new(255, 1)));
    assert_eq!(s.report()[3..5], [128, 128]);
    assert!(!s.recenter_left_stick(StickPosition::new(128, 128)));
    s.move_right_stick(StickPosition::new(10, 20));
    assert_eq!(s.report()[5..7], [10, 20]);
}

#[test]
fn controller_store_reads_what_was_written() {
    let mut store = ControllerStore::new();
    let c = ProController::new("pad");
    assert!(store.create_controller(c.clone()).is_ok());
    assert!(matches!(store.create_controller(c.clone()), Err(ControllerError::AlreadyConnected)));
    assert_eq!(store.get_controller("pad").unwrap().id, "pad");
    match store.get_controller("nope") {
        Err(ControllerError::ControllerNotFound(id)) => assert_eq!(id, "nope"),
        _ => panic!("missing controller expected"),
    }
    let mut c2 = c.clone();
    assert!(store.connect_controller(&mut c2).is_ok());
    assert!(c2.is_connected);
    assert_eq!(c2.device_path, Some("/dev/hidg0".to_string()));
    assert!(store.get_controller("pad").unwrap().is_connected);
    assert!(matches!(store.connect_controller(&mut c2), Err(ControllerError::AlreadyConnected)));
    assert!(store.disconnect_controller(&mut c2).is_ok());
    assert!(!store.get_controller("pad").unwrap().is_connected);
    assert!(matches!(store.disconnect_controller(&mut c2), Err(ControllerError::NotConnected)));
    assert!(matches!(store.update_controller(ProController::new("other")), Err(ControllerError::ControllerNotFound(_))));
    assert_eq!(store.controllers.values().len(), 1);
    assert!(store.delete_controller("pad").is_ok());
    assert!(store.delete_controller("pad").is_err());
}

#[test]
fn session_store_lists_active_sessions() {
    let mut store = SessionStore::new();
    let mut a = ControllerSession::new("s1", "pad");
    let b = ControllerSession::new("s2", "pad");
    a.start();
    assert!(store.create_session(a.clone()).is_ok());
    assert!(store.create_session(b.clone()).is_ok());
    assert!(matches!(store.create_session(b.clone()), Err(ControllerError::SessionAlreadyActive)));
    let active = store.active_sessions();
    assert_eq!(active.len(), 1);
    assert_eq!(active[0].id, "s1");
    let mut a2 = a.clone();
    a2.stop();
    assert!(store.update_session(a2).is_ok());
    assert!(store.active_sessions().is_empty());
    assert!(matches!(store.get_session("zz"), Err(ControllerError::SessionNotFound(_))));
    assert!(store.delete_session("s2").is_ok());
}
