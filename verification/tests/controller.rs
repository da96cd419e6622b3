use splatoon3_ghost_drawer::controller_entities::{ControllerMapping, ControllerSession, ProController};
use splatoon3_ghost_drawer::controller_values::{
    ActionType, Button, ButtonState, ControllerAction, ControllerCommand, ControllerType, DPad, HidReport,
    StickPosition,
};

#[test]
fn button_state_press_release() {
    let mut s = ButtonState::new();
    s.press(Button::A());
    s.press(Button::HOME());
    assert!(s.is_pressed(Button::A()));
    assert!(!s.is_pressed(Button::B()));
    assert_eq!(s.raw_value(), 0x1004);
    assert_eq!(s.pressed_buttons(), vec![Button::A(), Button::HOME()]);
    s.release(Button::A());
    assert!(!s.is_pressed(Button::A()));
    assert!(s.is_pressed(Button::HOME()));
    assert_eq!(ButtonState::default().raw_value(), 0);
}

#[test]
fn pressed_buttons_in_bit_order_without_top_bits() {
    let all = ButtonState::from_word(0xFFFF).pressed_buttons();
    assert_eq!(all.len(), 14);
    assert!(all.windows(2).all(|w| w[0].value() < w[1].value()));
    assert!(all.iter().all(|b| b.value() != 0x4000 && b.value() != 0x8000));
    assert!(ButtonState::from_word(0xC000).pressed_buttons().is_empty());
}

#[test]
fn hid_report_bytes() {
    let mut r = HidReport::new();
    r.buttons.press(Button::Y());
    r.buttons.press(Button::CAPTURE());
    r.left_stick = StickPosition::new(1, 2);
    r.right_stick = StickPosition::new(3, 4);
    r.dpad = DPad::RIGHT();
    assert_eq!(r.to_bytes(), [0x01, 0x20, 1, 2, 3, 4, 2, 0]);
    let back = HidReport::from_bytes(&r.to_bytes()).unwrap();
    // The hat byte is written last but read third: only the buttons come back.
    assert_eq!(back.buttons, r.buttons);
    assert_eq!(back.dpad, DPad::new(1));
    assert_eq!(back.left_stick, StickPosition::new(2, 3));
    assert_eq!(HidReport::from_bytes(&[0u8; 7]), Err("Invalid HID report size".to_string()));
    // When sticks and hat carry the same value the report comes back whole.
    let mut same = HidReport::new();
    same.dpad = DPad::new(7);
    same.left_stick = StickPosition::new(7, 7);
    same.right_stick = StickPosition::new(7, 7);
    assert_eq!(HidReport::from_bytes(&same.to_bytes()).unwrap(), same);
}

#[test]
fn pro_controller_report_bytes() {
    let r = HidReport::new();
    let b = r.to_pro_controller_bytes(5);
    assert_eq!(b[0], 0x30);
    assert_eq!(b[1], 5);
    assert_eq!(b[2], 0x90);
    assert_eq!(b.len(), 64);
    assert_eq!(&b[3..6], &[0, 0, 0]);
    assert_eq!(&b[6..12], &[0x07, 0x78, 0x80, 0x07, 0x78, 0x80]);
    assert!(b[12..].iter().all(|&x| x == 0));
}

#[test]
fn pro_controller_report_stick_extremes() {
    let mut r = HidReport::new();
    r.left_stick = StickPosition::new(0, 255);
    r.right_stick = StickPosition::new(255, 0);
    let b = r.to_pro_controller_bytes(0);
    assert_eq!(&b[6..9], &[0x00, 0xF0, 0xFF]);
    assert_eq!(&b[9..12], &[0xFF, 0x0F, 0x00]);
}

#[test]
fn controller_applies_actions() {
    let mut c = ProController::new("pad");
    assert!(!c.is_connected);
    c.connect("/dev/hidg0");
    assert!(c.is_connected);
    assert_eq!(c.device_path.as_deref(), Some("/dev/hidg0"));
    let before = c.current_state;
    c.apply_action(&ControllerAction::press_button(Button::A(), 10));
    assert!(c.current_state.buttons.is_pressed(Button::A()));
    c.apply_action(&ControllerAction::release_button(Button::A(), 10));
    assert_eq!(c.current_state, before);
    c.apply_action(&ControllerAction::set_dpad(DPad::DOWN(), 10));
    c.apply_action(&ControllerAction::move_left_stick(StickPosition::new(0, 255), 10));
    assert_eq!(c.get_report_bytes(), [0, 0, 0, 255, 128, 128, 4, 0]);
    c.reset_state();
    assert_eq!(c.current_state, HidReport::new());
    c.disconnect();
    assert!(!c.is_connected && c.device_path.is_none());
    let joy = ProController::new("j").with_type(ControllerType::JoyConLeft);
    assert_eq!(joy.controller_type.product_id(), 0x2006);
    assert_eq!(ControllerType::ProController.product_name(), "Pro Controller");
}

fn command(name: &str, n: u32) -> ControllerCommand {
    let mut c = ControllerCommand::new(name);
    for i in 0..n {
        c = c.add_action(ControllerAction::wait(10 + i));
    }
    c
}

#[test]
fn session_plays_queued_commands() {
    let mut s = ControllerSession::new("s", "pad");
    s.queue_command(command("one", 2));
    s.queue_command(command("two", 1));
    assert_eq!(s.remaining_commands(), 2);
    s.start_at(1000);
    assert!(s.is_active);
    assert_eq!(s.started_at, Some(1000));
    let mut played = Vec::new();
    loop {
        match s.current_action() {
            Some(a) => played.push(a.duration_ms),
            None => break,
        }
        if !s.advance_action() {
            break;
        }
    }
    assert_eq!(played, vec![10, 11, 10]);
    assert!(s.is_completed());
    s.pause();
    assert!(!s.is_active);
    s.resume();
    assert!(s.is_active);
    s.stop();
    assert!(!s.is_active && s.current_command.is_none());
}

#[test]
fn command_and_mapping_durations() {
    let c = command("c", 3);
    assert_eq!(c.total_duration_ms(), 10 + 11 + 12);
    let with_desc = ControllerCommand::new("x").with_description("d");
    assert_eq!(with_desc.description.as_deref(), Some("d"));
    let mut m = ControllerMapping::new_at("m", "mapping", "art", 5);
    m.add_command(command("a", 2));
    m.add_command(command("b", 1));
    assert_eq!(m.total_duration_ms(), 21 + 10);
    let removed = m.remove_command(0).unwrap();
    assert_eq!(removed.name, "a");
    assert!(m.remove_command(5).is_none());
    assert_eq!(m.commands.len(), 1);
    assert_eq!(m.created_at, 5);
}

#[test]
fn actions_carry_their_kind() {
    let a = ControllerAction::move_right_stick(StickPosition::CENTER(), 7);
    assert_eq!(a.action_type, ActionType::MoveRightStick(StickPosition::new(128, 128)));
    assert_eq!(ControllerAction::wait(3).action_type, ActionType::Wait);
    assert!(StickPosition::default().is_centered());
}
