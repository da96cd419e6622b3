//! Controller entities: the emulated controller, a session that plays queued
//! commands, and a mapping from an artwork to the commands that draw it.

use vstd::prelude::*;
use std::collections::VecDeque;
use crate::controller_values;
use crate::controller_values::{
    ActionType, Button, ButtonState, ControllerAction,
    ControllerCommand, ControllerType, DPad, HidReport, StickPosition,
};
use crate::shared::{Entity, system_clock_millis};

verus! {

/// An emulated controller and the input it currently reports.
#[derive(Debug, Clone, PartialEq)]
pub struct ProController {
    pub id: String,
    pub controller_type: ControllerType,
    pub current_state: HidReport,
    pub is_connected: bool,
    pub device_path: Option<String>,
}

/// The neutral report: no button, hat neutral, sticks centred.
pub open spec fn is_neutral_report(r: HidReport) -> bool {
    &&& r.buttons.word() == 0
    &&& r.dpad.bits() == 8
    &&& r.left_stick == (StickPosition { x: 128, y: 128 })
    &&& r.right_stick == (StickPosition { x: 128, y: 128 })
}

/// The report after `action`, for the actions a controller applies.
pub open spec fn report_after(r: HidReport, action: ActionType) -> HidReport {
    match action {
        ActionType::PressButton(b) => HidReport {
            buttons: ButtonState::from_word_spec(r.buttons.word() | b.bits()),
            ..r
        },
        ActionType::ReleaseButton(b) => HidReport {
            buttons: ButtonState::from_word_spec(r.buttons.word() & !b.bits()),
            ..r
        },
        ActionType::SetDPad(d) => HidReport { dpad: d, ..r },
        ActionType::MoveLeftStick(p) => HidReport { left_stick: p, ..r },
        ActionType::MoveRightStick(p) => HidReport { right_stick: p, ..r },
        ActionType::SetReport(rep) => rep,
        ActionType::Wait => r,
    }
}

impl ProController {
    /// A disconnected Pro Controller in the neutral state.
    pub fn new(id: &str) -> (c: Self)
        ensures
            c.id@ == id@,
            c.controller_type == ControllerType::ProController,
            is_neutral_report(c.current_state),
            !c.is_connected,
            c.device_path is None,
    {
        ProController {
            id: crate::text::owned(id),
            controller_type: ControllerType::ProController,
            current_state: HidReport::new(),
            is_connected: false,
            device_path: None,
        }
    }

    /// The controller posing as another type.
    pub fn with_type(self, controller_type: ControllerType) -> (c: Self)
        ensures
            c == (ProController { controller_type, ..self }),
    {
        let mut c = self;
        c.controller_type = controller_type;
        c
    }

    /// Marks the controller connected through `device_path`.
    pub fn connect(&mut self, device_path: &str)
        ensures
            final(self).is_connected,
            final(self).device_path matches Some(p) && p@ == device_path@,
            final(self).id == old(self).id,
            final(self).controller_type == old(self).controller_type,
            final(self).current_state == old(self).current_state,
    {
        self.device_path = Some(crate::text::owned(device_path));
        self.is_connected = true;
    }

    /// Marks the controller disconnected and resets its input.
    pub fn disconnect(&mut self)
        ensures
            !final(self).is_connected,
            final(self).device_path is None,
            is_neutral_report(final(self).current_state),
            final(self).id == old(self).id,
            final(self).controller_type == old(self).controller_type,
    {
        self.device_path = None;
        self.is_connected = false;
        self.current_state = HidReport::new();
    }

    pub fn press_button(&mut self, button: Button)
        ensures
            *final(self) == (ProController {
                current_state: report_after(old(self).current_state, ActionType::PressButton(button)),
                ..*old(self)
            }),
    {
        self.current_state.buttons.press(button);
        proof { ButtonState::lemma_from_word(self.current_state.buttons.word()); }
    }

    pub fn release_button(&mut self, button: Button)
        ensures
            *final(self) == (ProController {
                current_state: report_after(old(self).current_state, ActionType::ReleaseButton(button)),
                ..*old(self)
            }),
    {
        self.current_state.buttons.release(button);
        proof { ButtonState::lemma_from_word(self.current_state.buttons.word()); }
    }

    pub fn set_dpad(&mut self, dpad: DPad)
        ensures
            *final(self) == (ProController {
                current_state: report_after(old(self).current_state, ActionType::SetDPad(dpad)),
                ..*old(self)
            }),
    {
        self.current_state.dpad = dpad;
    }

    pub fn move_left_stick(&mut self, position: StickPosition)
        ensures
            *final(self) == (ProController {
                current_state: report_after(old(self).current_state, ActionType::MoveLeftStick(position)),
                ..*old(self)
            }),
    {
        self.current_state.left_stick = position;
    }

    pub fn move_right_stick(&mut self, position: StickPosition)
        ensures
            *final(self) == (ProController {
                current_state: report_after(old(self).current_state, ActionType::MoveRightStick(position)),
                ..*old(self)
            }),
    {
        self.current_state.right_stick = position;
    }

    /// Back to the neutral input state.
    pub fn reset_state(&mut self)
        ensures
            is_neutral_report(final(self).current_state),
            final(self).id == old(self).id,
            final(self).controller_type == old(self).controller_type,
            final(self).is_connected == old(self).is_connected,
            final(self).device_path == old(self).device_path,
    {
        self.current_state = HidReport::new();
    }

    /// Applies one action to the input state.
    pub fn apply_action(&mut self, action: &ControllerAction)
        ensures
            *final(self) == (ProController {
                current_state: report_after(old(self).current_state, action.action_type),
                ..*old(self)
            }),
    {
        match action.action_type {
            ActionType::PressButton(button) => self.press_button(button),
            ActionType::ReleaseButton(button) => self.release_button(button),
            ActionType::SetDPad(dpad) => self.set_dpad(dpad),
            ActionType::MoveLeftStick(pos) => self.move_left_stick(pos),
            ActionType::MoveRightStick(pos) => self.move_right_stick(pos),
            ActionType::SetReport(report) => {
                self.current_state = report;
            },
            ActionType::Wait => {},
        }
    }

    /// The 8-byte report of the current input state.
    pub fn get_report_bytes(&self) -> (b: [u8; 8])
        ensures
            b@ == controller_values::report_bytes(self.current_state),
    {
        self.current_state.to_bytes()
    }
}

impl Entity for ProController {
    type Id = String;

    fn id(&self) -> &String {
        &self.id
    }
}

/// Plays queued commands one action at a time.
#[derive(Debug, Clone, PartialEq)]
pub struct ControllerSession {
    pub id: String,
    pub controller_id: String,
    pub command_queue: VecDeque<ControllerCommand>,
    pub current_command: Option<ControllerCommand>,
    pub current_action_index: usize,
    pub started_at: Option<u64>,
    pub is_active: bool,
}

/// Whether a session has nothing left to play.
pub open spec fn session_completed(s: ControllerSession) -> bool {
    s.current_command is None && s.command_queue@.len() == 0
}

/// Commands not yet finished: the queue, plus the current one.
pub open spec fn session_remaining(s: ControllerSession) -> nat {
    s.command_queue@.len() + if s.current_command is Some { 1nat } else { 0nat }
}

/// The action a session would apply next.
pub open spec fn session_action(s: ControllerSession) -> Option<ControllerAction> {
    match s.current_command {
        Some(c) => if s.current_action_index < c.sequence@.len() {
            Some(c.sequence@[s.current_action_index as int])
        } else {
            None
        },
        None => None,
    }
}

/// What `advance_action` does to session `o`, giving `f` and `r`: within
/// a command it moves to the next action; past the last action it takes the
/// next queued command (`r` says whether there was one); without a current
/// command it changes nothing and returns `false`.
pub open spec fn advanced(o: ControllerSession, f: ControllerSession, r: bool) -> bool {
    match o.current_command {
        None => !r && f == o,
        Some(c) => if o.current_action_index + 1 < c.sequence@.len() {
            r && f == (ControllerSession { current_action_index: (o.current_action_index + 1) as usize, ..o })
        } else {
            &&& r == (o.command_queue@.len() > 0)
            &&& r ==> f.current_command == Some(o.command_queue@[0]) && f.command_queue@ == o.command_queue@.drop_first()
                && f.current_action_index == 0
            &&& !r ==> f.current_command is None && f.command_queue@ == o.command_queue@
                && f.current_action_index == o.current_action_index + 1
            &&& f.is_active == o.is_active
            &&& f.started_at == o.started_at
            &&& f.id == o.id
            &&& f.controller_id == o.controller_id
        },
    }
}

/// The actions a session still has to play: the rest of the current
/// command, then every queued command in order.
pub open spec fn pending_actions(s: ControllerSession) -> Seq<ControllerAction> {
    let cur = match s.current_command {
        Some(c) => c.sequence@.skip(s.current_action_index as int),
        None => Seq::empty(),
    };
    cur + controller_values::all_actions(s.command_queue@)
}

impl ControllerSession {
    /// An idle session with nothing queued.
    pub fn new(id: &str, controller_id: &str) -> (s: Self)
        ensures
            s.id@ == id@,
            s.controller_id@ == controller_id@,
            s.command_queue@.len() == 0,
            s.current_command is None,
            s.current_action_index == 0,
            s.started_at is None,
            !s.is_active,
    {
        ControllerSession {
            id: crate::text::owned(id),
            controller_id: crate::text::owned(controller_id),
            command_queue: VecDeque::new(),
            current_command: None,
            current_action_index: 0,
            started_at: None,
            is_active: false,
        }
    }

    /// Adds a command at the back of the queue.
    pub fn queue_command(&mut self, command: ControllerCommand)
        ensures
            final(self).command_queue@ == old(self).command_queue@.push(command),
            final(self).current_command == old(self).current_command,
            final(self).current_action_index == old(self).current_action_index,
            final(self).is_active == old(self).is_active,
            final(self).started_at == old(self).started_at,
            final(self).id == old(self).id,
            final(self).controller_id == old(self).controller_id,
    {
        self.command_queue.push_back(command);
    }

    /// Takes the next queued command as the current one, from its first action.
    /// Returns whether there was one.
    pub fn next_command(&mut self) -> (r: bool)
        ensures
            r == (old(self).command_queue@.len() > 0),
            r ==> final(self).current_command == Some(old(self).command_queue@[0])
                && final(self).command_queue@ == old(self).command_queue@.drop_first()
                && final(self).current_action_index == 0,
            !r ==> final(self).current_command is None
                && final(self).command_queue@ == old(self).command_queue@
                && final(self).current_action_index == old(self).current_action_index,
            final(self).is_active == old(self).is_active,
            final(self).started_at == old(self).started_at,
            final(self).id == old(self).id,
            final(self).controller_id == old(self).controller_id,
    {
        match self.command_queue.pop_front() {
            Some(command) => {
                self.current_command = Some(command);
                self.current_action_index = 0;
                true
            },
            None => {
                self.current_command = None;
                false
            },
        }
    }

    /// Starts playing at `now` (milliseconds since the epoch): active, and the
    /// first queued command taken.
    pub fn start_at(&mut self, now: u64)
        ensures
            final(self).is_active,
            final(self).started_at == Some(now),
            old(self).command_queue@.len() > 0 ==> final(self).current_command == Some(old(self).command_queue@[0])
                && final(self).command_queue@ == old(self).command_queue@.drop_first()
                && final(self).current_action_index == 0,
            old(self).command_queue@.len() == 0 ==> final(self).current_command is None
                && final(self).command_queue@ == old(self).command_queue@
                && final(self).current_action_index == old(self).current_action_index,
            final(self).id == old(self).id,
            final(self).controller_id == old(self).controller_id,
    {
        self.is_active = true;
        self.started_at = Some(now);
        self.next_command();
    }

    /// Starts playing now; as `start_at` with the system clock's time.
    pub fn start(&mut self)
        ensures
            final(self).is_active,
            final(self).started_at is Some,
            old(self).command_queue@.len() > 0 ==> final(self).current_command == Some(old(self).command_queue@[0])
                && final(self).command_queue@ == old(self).command_queue@.drop_first()
                && final(self).current_action_index == 0,
            old(self).command_queue@.len() == 0 ==> final(self).current_command is None
                && final(self).command_queue@ == old(self).command_queue@,
    {
        self.start_at(system_clock_millis());
    }

    /// Stops: inactive, no current command, the queue kept.
    pub fn stop(&mut self)
        ensures
            !final(self).is_active,
            final(self).current_command is None,
            final(self).current_action_index == 0,
            final(self).command_queue@ == old(self).command_queue@,
            final(self).started_at == old(self).started_at,
    {
        self.is_active = false;
        self.current_command = None;
        self.current_action_index = 0;
    }

    /// Inactive, everything else kept.
    pub fn pause(&mut self)
        ensures
            *final(self) == (ControllerSession { is_active: false, ..*old(self) }),
    {
        self.is_active = false;
    }

    /// Active again, everything else kept.
    pub fn resume(&mut self)
        ensures
            *final(self) == (ControllerSession { is_active: true, ..*old(self) }),
    {
        self.is_active = true;
    }

    /// The action to apply next, if the current command has one left.
    pub fn current_action(&self) -> (r: Option<&ControllerAction>)
        ensures
            match r {
                Some(a) => session_action(*self) == Some(*a),
                None => session_action(*self) is None,
            },
    {
        match &self.current_command {
            Some(command) => {
                if self.current_action_index < command.sequence.len() {
                    Some(&command.sequence[self.current_action_index])
                } else {
                    None
                }
            },
            None => None,
        }
    }

    /// Moves past the current action; past the last one of a command, takes the
    /// next command. Returns whether there is still something to play.
    pub fn advance_action(&mut self) -> (r: bool)
        requires
            old(self).current_action_index < usize::MAX,
        ensures
            advanced(*old(self), *final(self), r),
    {
        let len = match &self.current_command {
            Some(command) => command.sequence.len(),
            None => {
                return false;
            },
        };
        self.current_action_index = self.current_action_index + 1;
        if self.current_action_index >= len {
            self.next_command()
        } else {
            true
        }
    }

    /// Whether nothing is left to play.
    pub fn is_completed(&self) -> (r: bool)
        ensures
            r == session_completed(*self),
    {
        self.current_command.is_none() && self.command_queue.len() == 0
    }

    /// Commands not yet finished.
    pub fn remaining_commands(&self) -> (r: usize)
        requires
            self.command_queue@.len() < usize::MAX,
        ensures
            r == session_remaining(*self),
    {
        self.command_queue.len() + if self.current_command.is_some() { 1 } else { 0 }
    }
}

/// Queuing a command adds its actions at the end of what is left to play.
pub proof fn lemma_queue_appends(before: ControllerSession, after: ControllerSession, command: ControllerCommand)
    requires
        after.command_queue@ == before.command_queue@.push(command),
        after.current_command == before.current_command,
        after.current_action_index == before.current_action_index,
    ensures
        pending_actions(after) == pending_actions(before) + command.sequence@,
{
    assert(after.command_queue@.drop_last() =~= before.command_queue@);
    assert(pending_actions(after) =~= pending_actions(before) + command.sequence@);
}

/// Advancing past the action a session shows consumes exactly that action:
/// it was the first of what is left to play, and the rest is left.
pub proof fn lemma_advance_consumes_action(o: ControllerSession, f: ControllerSession, r: bool)
    requires
        o.current_action_index < usize::MAX,
        advanced(o, f, r),
        session_action(o) is Some,
    ensures
        pending_actions(o).len() > 0,
        pending_actions(o)[0] == session_action(o)->0,
        pending_actions(f) == pending_actions(o).drop_first(),
{
    let c = o.current_command->0;
    let i = o.current_action_index as int;
    let q = o.command_queue@;
    assert(pending_actions(o)[0] == c.sequence@[i]);
    if i + 1 < c.sequence@.len() {
        assert(f.current_command == o.current_command);
        assert(f.current_action_index == i + 1);
        assert(f.command_queue == o.command_queue);
        let rest = c.sequence@.skip(i + 1) + controller_values::all_actions(q);
        assert(pending_actions(f) == rest);
        assert(rest =~= pending_actions(o).drop_first());
    } else {
        assert(c.sequence@.skip(i) =~= seq![c.sequence@[i]]);
        if r {
            controller_values::lemma_all_actions_first(q);
            assert(f.current_command->0.sequence@.skip(0) =~= q[0].sequence@);
        }
        assert(pending_actions(f) =~= pending_actions(o).drop_first());
    }
}

/// Starting a session leaves every queued command to play, in order.
pub proof fn lemma_start_plays_queue(o: ControllerSession, f: ControllerSession)
    requires
        o.command_queue@.len() > 0 ==> f.current_command == Some(o.command_queue@[0])
            && f.command_queue@ == o.command_queue@.drop_first() && f.current_action_index == 0,
        o.command_queue@.len() == 0 ==> f.current_command is None && f.command_queue@ == o.command_queue@,
    ensures
        pending_actions(f) == controller_values::all_actions(o.command_queue@),
{
    if o.command_queue@.len() > 0 {
        controller_values::lemma_all_actions_first(o.command_queue@);
        assert(f.current_command->0.sequence@.skip(0) =~= o.command_queue@[0].sequence@);
    }
    assert(pending_actions(f) =~= controller_values::all_actions(o.command_queue@));
}

/// Pressing a button that is up and releasing it again gives back the report
/// of before; pressing holds the button and releasing lets it go.
pub proof fn lemma_press_then_release(r: HidReport, b: Button)
    ensures
        b.bits() != 0 ==> report_after(r, ActionType::PressButton(b)).buttons.holds(b),
        !report_after(r, ActionType::ReleaseButton(b)).buttons.holds(b),
        !r.buttons.holds(b) ==> report_after(report_after(r, ActionType::PressButton(b)), ActionType::ReleaseButton(b)) == r,
{
    let w = r.buttons.word();
    controller_values::lemma_press_release(w, b.bits(), 0);
    ButtonState::lemma_from_word(w | b.bits());
    ButtonState::lemma_from_word(w & !b.bits());
    ButtonState::lemma_from_word((w | b.bits()) & !b.bits());
}

impl Entity for ControllerSession {
    type Id = String;

    fn id(&self) -> &String {
        &self.id
    }
}

/// Total duration of a list of commands.
pub open spec fn commands_duration(s: Seq<ControllerCommand>) -> nat
    decreases s.len(),
{
    if s.len() == 0 {
        0
    } else {
        commands_duration(s.drop_last()) + controller_values::actions_duration(s.last().sequence@)
    }
}

/// The commands that draw an artwork.
#[derive(Debug, Clone, PartialEq)]
pub struct ControllerMapping {
    pub id: String,
    pub name: String,
    pub artwork_id: String,
    pub commands: Vec<ControllerCommand>,
    pub created_at: u64,
    pub updated_at: u64,
}

impl ControllerMapping {
    /// An empty mapping created at `now` (milliseconds since the epoch).
    pub fn new_at(id: &str, name: &str, artwork_id: &str, now: u64) -> (m: Self)
        ensures
            m.id@ == id@,
            m.name@ == name@,
            m.artwork_id@ == artwork_id@,
            m.commands@.len() == 0,
            m.created_at == now,
            m.updated_at == now,
    {
        ControllerMapping {
            id: crate::text::owned(id),
            name: crate::text::owned(name),
            artwork_id: crate::text::owned(artwork_id),
            commands: Vec::new(),
            created_at: now,
            updated_at: now,
        }
    }

    /// An empty mapping created now; as `new_at` with the system clock's time.
    pub fn new(id: &str, name: &str, artwork_id: &str) -> (m: Self)
        ensures
            m.id@ == id@,
            m.name@ == name@,
            m.artwork_id@ == artwork_id@,
            m.commands@.len() == 0,
            m.created_at == m.updated_at,
    {
        Self::new_at(id, name, artwork_id, system_clock_millis())
    }

    /// Appends a command and stamps the update time.
    pub fn add_command(&mut self, command: ControllerCommand)
        ensures
            final(self).commands@ == old(self).commands@.push(command),
            final(self).id == old(self).id,
            final(self).name == old(self).name,
            final(self).artwork_id == old(self).artwork_id,
            final(self).created_at == old(self).created_at,
    {
        self.commands.push(command);
        self.update_timestamp();
    }

    /// Removes and returns the command at `index`, if there is one; the update
    /// time is stamped only then.
    pub fn remove_command(&mut self, index: usize) -> (r: Option<ControllerCommand>)
        ensures
            index < old(self).commands@.len() ==> r == Some(old(self).commands@[index as int])
                && final(self).commands@ == old(self).commands@.remove(index as int),
            index >= old(self).commands@.len() ==> r is None && *final(self) == *old(self),
            final(self).id == old(self).id,
            final(self).created_at == old(self).created_at,
    {
        if index < self.commands.len() {
            self.update_timestamp();
            Some(self.commands.remove(index))
        } else {
            None
        }
    }

    /// Stamps the update time with the system clock.
    pub fn update_timestamp(&mut self)
        ensures
            final(self).commands@ == old(self).commands@,
            final(self).id == old(self).id,
            final(self).name == old(self).name,
            final(self).artwork_id == old(self).artwork_id,
            final(self).created_at == old(self).created_at,
    {
        self.updated_at = system_clock_millis();
    }

    /// Sum of the durations of all commands.
    pub fn total_duration_ms(&self) -> (r: u32)
        requires
            commands_duration(self.commands@) <= u32::MAX,
        ensures
            r == commands_duration(self.commands@),
    {
        let mut total: u32 = 0;
        let mut i: usize = 0;
        while i < self.commands.len()
            invariant
                i <= self.commands@.len(),
                total == commands_duration(self.commands@.take(i as int)),
                commands_duration(self.commands@) <= u32::MAX,
            decreases self.commands@.len() - i,
        {
            proof {
                assert(self.commands@.take(i + 1).drop_last() =~= self.commands@.take(i as int));
                lemma_commands_duration_prefix(self.commands@, i + 1);
            }
            let d = self.commands[i].total_duration_ms();
            total = total + d;
            i = i + 1;
        }
        assert(self.commands@.take(i as int) =~= self.commands@);
        total
    }
}

pub proof fn lemma_commands_duration_prefix(s: Seq<ControllerCommand>, i: int)
    requires
        0 <= i <= s.len(),
    ensures
        commands_duration(s.take(i)) <= commands_duration(s),
    decreases s.len() - i,
{
    if i < s.len() {
        lemma_commands_duration_prefix(s, i + 1);
        assert(s.take(i + 1).drop_last() =~= s.take(i));
    } else {
        assert(s.take(i) =~= s);
    }
}

impl Entity for ControllerMapping {
    type Id = String;

    fn id(&self) -> &String {
        &self.id
    }
}

} // verus!
