//! Painting an artwork on the console: the decisions of a painting run. The
//! caller performs the I/O each step asks for (writing a report to the HID
//! device, waiting, saving state) and comes back for the next step.

use vstd::prelude::*;
use crate::controller_entities;
use crate::controller_entities::{ControllerSession, ProController, pending_actions};
use crate::controller_values::{ControllerAction, ControllerCommand, HidReport};
use crate::errors::ControllerError;
use crate::painting::{DrawingCanvasConfig, DrawingMode, DrawingStrategy};
use crate::text;

verus! {

/// Settings of a painting run.
#[derive(Debug, Clone, Copy, PartialEq, Eq, Structural)]
pub struct PaintConfig {
    /// Milliseconds per pixel of cursor travel.
    pub cursor_speed_ms: u32,
    /// Milliseconds to paint one dot.
    pub dot_draw_delay_ms: u32,
    pub strategy: DrawingStrategy,
    /// Whether to look for an interruption between actions.
    pub check_interrupt: bool,
}

impl Default for PaintConfig {
    fn default() -> (c: Self)
        ensures
            c == (PaintConfig {
                cursor_speed_ms: 100,
                dot_draw_delay_ms: 100,
                strategy: DrawingStrategy::ZigZag,
                check_interrupt: true,
            }),
    {
        PaintConfig { cursor_speed_ms: 100, dot_draw_delay_ms: 100, strategy: DrawingStrategy::ZigZag, check_interrupt: true }
    }
}

impl PaintConfig {
    /// The drawing configuration of the run: the default one with this
    /// cursor speed and dot delay.
    pub fn drawing_config(&self) -> (c: DrawingCanvasConfig)
        ensures
            c == (DrawingCanvasConfig {
                width: 320,
                height: 120,
                cursor_speed_ms: self.cursor_speed_ms,
                dot_draw_delay_ms: self.dot_draw_delay_ms,
                line_wrap_delay_ms: 200,
                drawing_mode: DrawingMode::PixelPen,
            }),
    {
        DrawingCanvasConfig {
            cursor_speed_ms: self.cursor_speed_ms,
            dot_draw_delay_ms: self.dot_draw_delay_ms,
            ..DrawingCanvasConfig::default()
        }
    }
}

/// What a painting run achieved.
#[derive(Debug, Clone, PartialEq, Eq)]
pub struct PaintResult {
    pub success: bool,
    pub dots_painted: usize,
    pub commands_executed: usize,
    pub duration_ms: u64,
    pub device_used: String,
}

/// The HID device a run uses: the first one listed; none is an error.
pub fn select_device(devices: &Vec<String>) -> (r: Result<String, ControllerError>)
    ensures
        devices@.len() == 0 ==> (r matches Err(ControllerError::DevicePathNotAvailable(m))
            && m@ == "No HID devices found. Is USB gadget active?"@),
        devices@.len() > 0 ==> (r matches Ok(d) && d@ == devices@[0]@),
{
    if devices.len() == 0 {
        return Err(ControllerError::DevicePathNotAvailable(text::owned("No HID devices found. Is USB gadget active?")));
    }
    Ok(text::owned(devices[0].as_str()))
}

/// The answer to a command the console sends over USB: status (1),
/// handshake (2), force USB (3) and vibration (4) requests, sent as `0x80 n`,
/// are acknowledged with `0x81 n` and six zero bytes; anything else gets no answer.
pub fn usb_command_response(command: &[u8]) -> (r: Option<[u8; 8]>)
    ensures
        (command@.len() >= 2 && command@[0] == 0x80 && 1 <= command@[1] <= 4) ==> (r matches Some(b)
            && b@ == seq![0x81u8, command@[1], 0u8, 0u8, 0u8, 0u8, 0u8, 0u8]),
        !(command@.len() >= 2 && command@[0] == 0x80 && 1 <= command@[1] <= 4) ==> r is None,
{
    if command.len() >= 2 && command[0] == 0x80 && 1 <= command[1] && command[1] <= 4 {
        let b = [0x81u8, command[1], 0, 0, 0, 0, 0, 0];
        assert(b@ =~= seq![0x81u8, command@[1], 0u8, 0u8, 0u8, 0u8, 0u8, 0u8]);
        Some(b)
    } else {
        None
    }
}

/// Milliseconds to wait after the `i`-th of the neutral reports sent before
/// painting: 100 for the first five, 50 after.
pub fn init_report_delay(i: u32) -> (r: u32)
    ensures
        r == (if i < 5 { 100u32 } else { 50u32 }),
{
    if i < 5 { 100 } else { 50 }
}

/// Connects the controller through `device_path` unless it is connected;
/// says whether it did.
pub fn ensure_connected(controller: &mut ProController, device_path: &str) -> (r: bool)
    ensures
        r == !old(controller).is_connected,
        final(controller).is_connected,
        r ==> (final(controller).device_path matches Some(p) && p@ == device_path@),
        !r ==> *final(controller) == *old(controller),
        final(controller).current_state == old(controller).current_state,
        final(controller).id == old(controller).id,
{
    if !controller.is_connected {
        controller.connect(device_path);
        true
    } else {
        false
    }
}

/// What a painting run asks of its caller next.
#[derive(Debug, Clone, Copy, PartialEq, Eq)]
pub enum PaintStep {
    /// Send this report, then wait `wait_ms`; `progress` is a percentage to report.
    Play { report: HidReport, wait_ms: u32, progress: Option<usize> },
    /// The current command shows no action: nothing to send this time.
    Idle,
    /// Nothing is left to play, or the session was stopped.
    Finished,
}

/// A painting in progress: a session playing the commands on a controller.
pub struct PaintRun {
    pub session: ControllerSession,
    pub controller: ProController,
    /// Commands queued when the run started.
    pub total_commands: usize,
    /// Steps at which the session ran out of commands.
    pub executed_commands: usize,
    /// The last percentage reported.
    pub last_progress: usize,
}

impl PaintRun {
    /// Whether the counters are those a run keeps: the count of commands is
    /// positive while there is a command to play; a command is counted as
    /// executed only when the session has run out.
    pub open spec fn wf(&self) -> bool {
        &&& (self.session.current_command is Some ==> self.total_commands >= 1)
        &&& (self.session.current_command is Some ==> self.session.current_action_index < usize::MAX)
        &&& self.executed_commands <= 1
        &&& (self.executed_commands == 1 ==> self.session.current_command is None
            && self.session.command_queue@.len() == 0)
        &&& self.last_progress <= 100
    }

    /// Starts a run at `now`: a session named `session_id` for the
    /// controller, with the commands queued and the first one taken.
    pub fn new(controller: ProController, session_id: &str, commands: Vec<ControllerCommand>, now: u64) -> (run: Self)
        requires
            commands@.len() < usize::MAX,
        ensures
            run.wf(),
            run.controller == controller,
            run.session.id@ == session_id@,
            run.session.controller_id@ == controller.id@,
            run.session.is_active,
            run.session.started_at == Some(now),
            pending_actions(run.session) == crate::controller_values::all_actions(commands@),
            run.total_commands == commands@.len(),
            run.executed_commands == 0,
            run.last_progress == 0,
    {
        let mut session = ControllerSession::new(session_id, controller.id.as_str());
        let total = commands.len();
        let ghost all = commands@;
        let mut rest = commands;
        while rest.len() > 0
            invariant
                session.command_queue@ + rest@ == all,
                session.current_command is None,
                session.current_action_index == 0,
                !session.is_active,
                session.started_at is None,
                session.id@ == session_id@,
                session.controller_id@ == controller.id@,
            decreases rest@.len(),
        {
            let ghost before = rest@;
            let c = rest.remove(0);
            session.queue_command(c);
            assert(session.command_queue@ + rest@ =~= all) by {
                assert(before =~= seq![c] + rest@);
            }
        }
        assert(session.command_queue@ =~= all);
        let ghost session_before = session;
        session.start_at(now);
        proof {
            controller_entities::lemma_start_plays_queue(session_before, session);
        }
        PaintRun { session, controller, total_commands: total, executed_commands: 0, last_progress: 0 }
    }
}

/// One step of a run, from `o` to `f` with answer `r`: a stopped or finished
/// session finishes; a command that shows no action gives nothing to do;
/// otherwise the action is applied to the controller, the report sent and
/// the action's duration waited, and the session moves past the action.
/// When the session runs out of commands the run counts one command executed
/// and reports the percentage if it moved more than 10 points.
pub open spec fn paint_stepped(o: PaintRun, f: PaintRun, r: PaintStep) -> bool {
    if controller_entities::session_completed(o.session) || !o.session.is_active {
        r == PaintStep::Finished && f == o
    } else {
        match controller_entities::session_action(o.session) {
            None => r == PaintStep::Idle && f == o,
            Some(a) => {
                &&& f.controller == (ProController {
                    current_state: controller_entities::report_after(o.controller.current_state, a.action_type),
                    ..o.controller
                })
                &&& exists|more: bool| #[trigger] controller_entities::advanced(o.session, f.session, more) && {
                    let executed = if more { o.executed_commands } else { (o.executed_commands + 1) as usize };
                    let progress = (executed * 100 / o.total_commands as int) as usize;
                    let report_it = !more && progress > o.last_progress + 10;
                    &&& f.executed_commands == executed
                    &&& f.total_commands == o.total_commands
                    &&& f.last_progress == (if report_it { progress } else { o.last_progress })
                    &&& r == PaintStep::Play {
                        report: f.controller.current_state,
                        wait_ms: a.duration_ms,
                        progress: if report_it { Some(progress) } else { None },
                    }
                }
            },
        }
    }
}

impl PaintRun {
    /// One step of the run; see `paint_stepped`. Each step that plays
    /// consumes the first of the actions left to play.
    pub fn step(&mut self) -> (r: PaintStep)
        requires
            old(self).wf(),
        ensures
            final(self).wf(),
            paint_stepped(*old(self), *final(self), r),
            r is Play ==> pending_actions(final(self).session) == pending_actions(old(self).session).drop_first(),
    {
        if self.session.is_completed() || !self.session.is_active {
            return PaintStep::Finished;
        }
        let action: ControllerAction = match self.session.current_action() {
            Some(a) => *a,
            None => {
                return PaintStep::Idle;
            },
        };
        let len = match &self.session.current_command {
            Some(c) => c.sequence.len(),
            None => 0,
        };
        let ghost before = *self;
        assert(len == before.session.current_command->0.sequence@.len());
        self.controller.apply_action(&action);
        let more = self.session.advance_action();
        proof {
            controller_entities::lemma_advance_consumes_action(before.session, self.session, more);
        }
        let mut progress: Option<usize> = None;
        if !more {
            self.executed_commands = self.executed_commands + 1;
            let p = (self.executed_commands * 100) / self.total_commands;
            assert(p <= 100) by {
                assert(self.executed_commands == 1);
                assert(100int / (self.total_commands as int) <= 100) by (nonlinear_arith)
                    requires self.total_commands >= 1;
            }
            if p > self.last_progress + 10 {
                self.last_progress = p;
                progress = Some(p);
            }
        }
        let r = PaintStep::Play { report: self.controller.current_state, wait_ms: action.duration_ms, progress };
        assert(controller_entities::advanced(before.session, self.session, more));
        r
    }

    /// Ends the run: the controller back to neutral and the session stopped.
    /// Returns the neutral report to send last.
    pub fn finish(&mut self) -> (r: HidReport)
        ensures
            controller_entities::is_neutral_report(r),
            final(self).controller.current_state == r,
            !final(self).session.is_active,
            final(self).session.current_command is None,
            final(self).session.started_at == old(self).session.started_at,
            final(self).executed_commands == old(self).executed_commands,
            final(self).controller.id == old(self).controller.id,
            final(self).controller.is_connected == old(self).controller.is_connected,
            final(self).controller.device_path == old(self).controller.device_path,
    {
        self.controller.reset_state();
        self.session.stop();
        self.controller.current_state
    }

    /// What the run achieved, `now` being the time it ended: the dots of the
    /// artwork, the commands counted as executed, the time since the session
    /// started (0 if it never did) and the device used.
    pub fn result(&self, dots_painted: usize, now: u64, device_used: &str) -> (r: PaintResult)
        requires
            self.session.started_at matches Some(start) ==> start <= now,
        ensures
            r.success,
            r.dots_painted == dots_painted,
            r.commands_executed == self.executed_commands,
            r.duration_ms == (match self.session.started_at { Some(start) => (now - start) as u64, None => 0u64 }),
            r.device_used@ == device_used@,
    {
        let duration_ms = match self.session.started_at {
            Some(start) => now - start,
            None => 0,
        };
        PaintResult {
            success: true,
            dots_painted,
            commands_executed: self.executed_commands,
            duration_ms,
            device_used: text::owned(device_used),
        }
    }
}

} // verus!
