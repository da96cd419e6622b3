use splatoon3_ghost_drawer::artwork::Artwork;
use splatoon3_ghost_drawer::canvas::{ArtworkMetadata, Canvas, Dot};
use splatoon3_ghost_drawer::controller_entities::ProController;
use splatoon3_ghost_drawer::controller_values::{Button, ControllerAction, ControllerCommand};
use splatoon3_ghost_drawer::converter::ArtworkToCommandConverter;
use splatoon3_ghost_drawer::errors::ControllerError;
use splatoon3_ghost_drawer::paint_run::{init_report_delay, select_device, usb_command_response, PaintConfig, PaintRun, PaintStep};
use splatoon3_ghost_drawer::painting::DrawingStrategy;
use splatoon3_ghost_drawer::shared::Coordinates;

#[test]
fn device_selection_and_usb_answers() {
    match select_device(&vec![]) {
        Err(ControllerError::DevicePathNotAvailable(m)) => assert_eq!(m, "No HID devices found. Is USB gadget active?"),
        _ => panic!("no device expected"),
    }
    assert_eq!(select_device(&vec!["/dev/hidg1".to_string(), "/dev/hidg0".to_string()]).unwrap(), "/dev/hidg1");
    assert_eq!(usb_command_response(&[0x80, 0x02, 9]), Some([0x81, 0x02, 0, 0, 0, 0, 0, 0]));
    assert_eq!(usb_command_response(&[0x80, 0x05]), None);
    assert_eq!(usb_command_response(&[0x80]), None);
    assert_eq!(init_report_delay(4), 100);
    assert_eq!(init_report_delay(5), 50);
}

#[test]
fn convert_draws_each_dot_once() {
    let mut canvas = Canvas::new(4, 2);
    canvas.set_dot(Coordinates::new(1, 0), Dot::black()).unwrap();
    canvas.set_dot(Coordinates::new(3, 1), Dot::black()).unwrap();
    let artwork = Artwork::new(ArtworkMetadata::new("a".to_string()), "png".to_string(), canvas);
    let config = PaintConfig::default();
    let converter = ArtworkToCommandConverter::new(config.drawing_config(), DrawingStrategy::RasterScan);
    let commands = converter.convert(&artwork);
    assert!(commands.len() >= 3);
    assert_eq!(commands[0].name, converter.create_initialization_command().name);
    let presses = commands
        .iter()
        .flat_map(|c| c.sequence.iter())
        .filter(|a| a.action_type == ControllerAction::press_button(Button::A(), 1).action_type)
        .count();
    // the select command presses A once, each dot once
    assert!(presses >= 2);
}

#[test]
fn run_plays_every_action_then_finishes() {
    let command = ControllerCommand::new("c")
        .add_action(ControllerAction::press_button(Button::A(), 10))
        .add_action(ControllerAction::release_button(Button::A(), 20));
    let mut run = PaintRun::new(ProController::new("paint_controller"), "s", vec![command], 1000);
    let mut waits = vec![];
    loop {
        match run.step() {
            PaintStep::Play { wait_ms, .. } => waits.push(wait_ms),
            PaintStep::Idle => {}
            PaintStep::Finished => break,
        }
    }
    assert_eq!(waits, vec![10, 20]);
    let last = run.finish();
    assert_eq!(last.to_bytes()[0..2], [0, 0]);
    let result = run.result(2, 1500, "/dev/hidg0");
    assert!(result.success);
    assert_eq!(result.commands_executed, 1);
    assert_eq!(result.duration_ms, 500);
    assert_eq!(result.device_used, "/dev/hidg0");
}
