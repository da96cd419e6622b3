//! The controller self-test: its modes and the commands each plays.

use vstd::prelude::*;
use crate::controller_values::{ActionType, Button, ControllerAction, ControllerCommand, StickPosition};
use crate::hardware::HardwareError;
use crate::text;
use crate::text::ViewEq;

verus! {

/// What the self-test exercises.
#[derive(Debug, Clone, Copy, PartialEq, Eq, Structural)]
pub enum TestMode {
    /// Press A and circle the left stick.
    Basic,
    /// Press every button in turn.
    Buttons,
    /// Circle both sticks.
    Sticks,
    /// Manual control (not available yet).
    Interactive,
}

/// The mode named on the command line: `basic`, `buttons`, `sticks` or
/// `interactive`; any other name is `InvalidParameter`.
pub fn parse_test_mode(mode: &str) -> (r: Result<TestMode, HardwareError>)
    ensures
        mode@ == "basic"@ ==> r == Ok::<TestMode, HardwareError>(TestMode::Basic),
        mode@ == "buttons"@ ==> r == Ok::<TestMode, HardwareError>(TestMode::Buttons),
        mode@ == "sticks"@ ==> r == Ok::<TestMode, HardwareError>(TestMode::Sticks),
        mode@ == "interactive"@ ==> r == Ok::<TestMode, HardwareError>(TestMode::Interactive),
        mode@ != "basic"@ && mode@ != "buttons"@ && mode@ != "sticks"@ && mode@ != "interactive"@ ==> (
            r matches Err(HardwareError::InvalidParameter(m)) && m@ == "Unknown test mode: "@ + mode@),
{
    proof {
        reveal_strlit("basic");
        reveal_strlit("buttons");
        reveal_strlit("sticks");
        reveal_strlit("interactive");
        assert("basic"@[1] != "buttons"@[1]);
        assert("basic"@.len() != "sticks"@.len() + 1 || "basic"@[0] != "sticks"@[0]);
    }
    if mode.view_eq("basic") {
        Ok(TestMode::Basic)
    } else if mode.view_eq("buttons") {
        Ok(TestMode::Buttons)
    } else if mode.view_eq("sticks") {
        Ok(TestMode::Sticks)
    } else if mode.view_eq("interactive") {
        Ok(TestMode::Interactive)
    } else {
        let mut m = text::owned("Unknown test mode: ");
        text::push_str(&mut m, mode);
        Err(HardwareError::InvalidParameter(m))
    }
}

/// How many seconds a test runs: `duration`, or when it is 0 the mode's own
/// length (10 s basic, 2 s per button, 20 s sticks).
pub fn test_seconds(mode: TestMode, duration: u16) -> (r: u64)
    ensures
        duration != 0 ==> r == duration,
        duration == 0 ==> r == (match mode {
            TestMode::Basic => 10u64,
            TestMode::Buttons => 28u64,
            TestMode::Sticks => 20u64,
            TestMode::Interactive => 0u64,
        }),
{
    if duration != 0 {
        duration as u64
    } else {
        match mode {
            TestMode::Basic => 10,
            TestMode::Buttons => 2 * 14,
            TestMode::Sticks => 20,
            TestMode::Interactive => 0,
        }
    }
}

/// The command of the basic test that presses A: press and release for
/// 100 ms each, then a one-second pause.
pub fn a_button_test_command() -> (c: ControllerCommand)
    ensures
        c.name@ == "Test A button"@,
        c.sequence@ == seq![
            ControllerAction { action_type: ActionType::PressButton(Button::new_spec(0x0004)), duration_ms: 100 },
            ControllerAction { action_type: ActionType::ReleaseButton(Button::new_spec(0x0004)), duration_ms: 100 },
            ControllerAction { action_type: ActionType::Wait, duration_ms: 1000 },
        ],
{
    let a = Button::A();
    proof {
        Button::lemma_new(0x0004);
    }
    let c = ControllerCommand::new("Test A button")
        .add_action(ControllerAction::press_button(a, 100))
        .add_action(ControllerAction::release_button(a, 100))
        .add_action(ControllerAction::wait(1000));
    assert(c.sequence@ =~= seq![
        ControllerAction { action_type: ActionType::PressButton(Button::new_spec(0x0004)), duration_ms: 100 },
        ControllerAction { action_type: ActionType::ReleaseButton(Button::new_spec(0x0004)), duration_ms: 100 },
        ControllerAction { action_type: ActionType::Wait, duration_ms: 1000 },
    ]);
    c
}

/// The offsets of the basic test's circle of the left stick, from the
/// centre: up, up-right, right, down-right, down, down-left, left, up-left
/// and back to the centre.
pub open spec fn circle_offsets() -> Seq<(int, int)> {
    seq![(0, 127), (127, 127), (127, 0), (127, -127), (0, -127), (-127, -127), (-127, 0), (-127, 127), (0, 0)]
}

/// The stick position at an offset from the centre (128 on each axis).
pub open spec fn offset_position(o: (int, int)) -> StickPosition {
    StickPosition { x: (o.0 + 128) as u8, y: (o.1 + 128) as u8 }
}

/// The commands of the basic test's stick circle: each holds the left stick
/// at the next position for 200 ms, then waits 200 ms.
pub fn stick_circle_commands() -> (r: Vec<ControllerCommand>)
    ensures
        r@.len() == 9,
        forall|i: int| 0 <= i < 9 ==> (#[trigger] r@[i]).name@ == "Test stick movement"@
            && r@[i].sequence@ == seq![
                ControllerAction { action_type: ActionType::MoveLeftStick(offset_position(circle_offsets()[i])), duration_ms: 200 },
                ControllerAction { action_type: ActionType::Wait, duration_ms: 200 },
            ],
{
    let xs: [u8; 9] = [128, 255, 255, 255, 128, 1, 1, 1, 128];
    let ys: [u8; 9] = [255, 255, 128, 1, 1, 1, 128, 255, 128];
    let mut r: Vec<ControllerCommand> = Vec::new();
    let mut i: usize = 0;
    while i < 9
        invariant
            i <= 9,
            xs@ == seq![128u8, 255, 255, 255, 128, 1, 1, 1, 128],
            ys@ == seq![255u8, 255, 128, 1, 1, 1, 128, 255, 128],
            r@.len() == i,
            forall|j: int| 0 <= j < i ==> (#[trigger] r@[j]).name@ == "Test stick movement"@
                && r@[j].sequence@ == seq![
                    ControllerAction { action_type: ActionType::MoveLeftStick(offset_position(circle_offsets()[j])), duration_ms: 200 },
                    ControllerAction { action_type: ActionType::Wait, duration_ms: 200 },
                ],
        decreases 9 - i,
    {
        let p = StickPosition::new(xs[i], ys[i]);
        assert(p == offset_position(circle_offsets()[i as int]));
        let c = ControllerCommand::new("Test stick movement")
            .add_action(ControllerAction::move_left_stick(p, 200))
            .add_action(ControllerAction::wait(200));
        assert(c.sequence@ =~= seq![
            ControllerAction { action_type: ActionType::MoveLeftStick(p), duration_ms: 200 },
            ControllerAction { action_type: ActionType::Wait, duration_ms: 200 },
        ]);
        r.push(c);
        i = i + 1;
    }
    r
}

/// The command that tests one button, named `Test NAME button`: press and
/// release for 200 ms each, then a one-second pause.
pub fn button_test_command(button: Button, name: &str) -> (c: ControllerCommand)
    ensures
        c.name@ == "Test "@ + name@ + " button"@,
        c.sequence@ == seq![
            ControllerAction { action_type: ActionType::PressButton(button), duration_ms: 200 },
            ControllerAction { action_type: ActionType::ReleaseButton(button), duration_ms: 200 },
            ControllerAction { action_type: ActionType::Wait, duration_ms: 1000 },
        ],
{
    let mut n = text::owned("Test ");
    text::push_str(&mut n, name);
    text::push_str(&mut n, " button");
    let c = ControllerCommand::new(n.as_str())
        .add_action(ControllerAction::press_button(button, 200))
        .add_action(ControllerAction::release_button(button, 200))
        .add_action(ControllerAction::wait(1000));
    assert(c.sequence@ =~= seq![
        ControllerAction { action_type: ActionType::PressButton(button), duration_ms: 200 },
        ControllerAction { action_type: ActionType::ReleaseButton(button), duration_ms: 200 },
        ControllerAction { action_type: ActionType::Wait, duration_ms: 1000 },
    ]);
    c
}

} // verus!
