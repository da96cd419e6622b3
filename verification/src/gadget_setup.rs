//! Setting up the USB gadget: the decisions of the setup, taken one event at
//! a time while the caller talks to the board, configfs and systemd.

use vstd::prelude::*;
use crate::hardware::{Board, BoardModel, HardwareError, KernelModule, UsbGadget, UsbGadgetState, board_name, unloaded};
use crate::text;

verus! {

/// What a gadget setup did.
#[derive(Debug, Clone)]
pub struct SetupResult {
    pub board_model: BoardModel,
    pub gadget_created: bool,
    pub service_installed: bool,
    pub reboot_required: bool,
    pub warnings: Vec<String>,
}

/// `成功` for a step done, `スキップ` for one skipped.
pub open spec fn outcome_word(done: bool) -> Seq<char> {
    if done { "成功"@ } else { "スキップ"@ }
}

/// The warning lines of a result, each with its mark.
pub open spec fn warning_lines(w: Seq<String>) -> Seq<char>
    decreases w.len(),
{
    if w.len() == 0 {
        Seq::empty()
    } else {
        warning_lines(w.drop_last()) + "\n⚠️  "@ + w.last()@
    }
}

/// The report of a setup: the board, the two steps, then the reboot notice
/// and the warnings, one per line.
pub open spec fn setup_summary_text(r: SetupResult) -> Seq<char> {
    "ボードモデル: "@ + board_name(r.board_model) + "\nUSB Gadget作成: "@ + outcome_word(r.gadget_created)
        + "\nサービス設定: "@ + outcome_word(r.service_installed)
        + (if r.reboot_required { "\n⚠️  再起動が必要です"@ } else { Seq::empty() })
        + warning_lines(r.warnings@)
}

impl SetupResult {
    /// The report of the setup; see `setup_summary_text`.
    pub fn summary(&self) -> (s: String)
        ensures
            s@ == setup_summary_text(*self),
    {
        let mut s = text::owned("ボードモデル: ");
        let b = self.board_model.display_string();
        text::push_str(&mut s, b.as_str());
        text::push_str(&mut s, "\nUSB Gadget作成: ");
        text::push_str(&mut s, if self.gadget_created { "成功" } else { "スキップ" });
        text::push_str(&mut s, "\nサービス設定: ");
        text::push_str(&mut s, if self.service_installed { "成功" } else { "スキップ" });
        if self.reboot_required {
            text::push_str(&mut s, "\n⚠️  再起動が必要です");
        }
        let ghost head = s@;
        let mut i: usize = 0;
        while i < self.warnings.len()
            invariant
                i <= self.warnings@.len(),
                s@ == head + warning_lines(self.warnings@.take(i as int)),
            decreases self.warnings@.len() - i,
        {
            text::push_str(&mut s, "\n⚠️  ");
            text::push_str(&mut s, self.warnings[i].as_str());
            proof {
                let w = self.warnings@;
                assert(w.take(i + 1).drop_last() =~= w.take(i as int));
            }
            i = i + 1;
        }
        assert(self.warnings@.take(i as int) =~= self.warnings@);
        s
    }
}

/// Where a setup stands: which answer it waits for.
#[derive(Debug, Clone, Copy, PartialEq, Eq, Structural)]
pub enum SetupPhase {
    Start,
    AwaitBoard,
    AwaitModuleCheck,
    LoadingModules,
    AwaitBootConfig,
    AwaitGadgetState,
    AwaitDeactivate,
    AwaitCreate,
    AwaitConfigure,
    AwaitActivate,
    AwaitCreateService,
    AwaitEnableService,
    AwaitReload,
    AwaitStart,
    Finished,
}

/// What the caller reports back: that the setup begins, the board it
/// detected or checked, that the last action succeeded, the state of an
/// existing gadget (none when it could not be read), or the error of the
/// last action.
#[derive(Debug, Clone)]
pub enum GadgetSetupEvent {
    Begin,
    BoardDetected(Board),
    ModulesChecked(Board),
    Done,
    GadgetState(Option<UsbGadget>),
    Failed(HardwareError),
}

/// What the setup asks the caller to do next.
#[derive(Debug, Clone)]
pub enum GadgetSetupAction {
    DetectBoard,
    CheckKernelModules(Board),
    LoadKernelModule(String),
    /// Update the boot settings for the setup's board.
    ConfigureBootSettings,
    GetGadgetState(String),
    DeactivateGadget,
    CreateGadget,
    ConfigureGadget,
    ActivateGadget,
    CreateService,
    EnableService,
    ReloadDaemon,
    StartService,
    Finish(SetupResult),
    Fail(HardwareError),
}

/// A gadget setup in progress.
#[derive(Debug, Clone)]
pub struct GadgetSetup {
    /// Reconfigure even what is already set up, and start the service.
    pub force: bool,
    pub phase: SetupPhase,
    /// The board, once its modules were checked.
    pub board: Option<Board>,
    /// The names of the modules to load, in order.
    pub modules: Vec<String>,
    /// The module being loaded.
    pub next_module: usize,
}

/// The names of the modules a board still has to load.
pub open spec fn module_names(b: Board) -> Seq<Seq<char>> {
    unloaded(b.kernel_modules@).map_values(|m: KernelModule| m.name@)
}

/// Whether the setup can take `e` where it stands: the answer it waits for,
/// or a failure of the action it asked for.
pub open spec fn accepts(p: SetupPhase, e: GadgetSetupEvent) -> bool {
    match e {
        GadgetSetupEvent::Begin => p == SetupPhase::Start,
        GadgetSetupEvent::BoardDetected(_) => p == SetupPhase::AwaitBoard,
        GadgetSetupEvent::ModulesChecked(_) => p == SetupPhase::AwaitModuleCheck,
        GadgetSetupEvent::GadgetState(_) => p == SetupPhase::AwaitGadgetState,
        GadgetSetupEvent::Done => p != SetupPhase::Start && p != SetupPhase::AwaitBoard
            && p != SetupPhase::AwaitModuleCheck && p != SetupPhase::AwaitGadgetState && p != SetupPhase::Finished,
        GadgetSetupEvent::Failed(_) => p != SetupPhase::Start && p != SetupPhase::Finished,
    }
}

/// The result of a setup that created the gadget and installed the service:
/// a reboot is needed, and said, when USB OTG was not yet available.
pub open spec fn completed_result(b: Board, r: SetupResult) -> bool {
    &&& r.board_model == b.model
    &&& r.gadget_created
    &&& r.service_installed
    &&& r.reboot_required == !b.usb_otg_available
    &&& r.warnings@.map_values(|w: String| w@) == (if b.usb_otg_available {
        Seq::<Seq<char>>::empty()
    } else {
        seq!["USB OTGを有効にするには再起動が必要です"@]
    })
}

/// The result of a setup that found the gadget already active.
pub open spec fn already_set_up_result(b: Board, r: SetupResult) -> bool {
    &&& r.board_model == b.model
    &&& !r.gadget_created
    &&& !r.service_installed
    &&& !r.reboot_required
    &&& r.warnings@.map_values(|w: String| w@) == seq!["USB Gadgetは既に設定されています"@]
}

/// The step after the modules are loaded: the boot settings are updated
/// when forced or when USB OTG is not available, else the existing gadget is
/// looked up.
pub open spec fn after_modules(o: GadgetSetup, f: GadgetSetup, a: GadgetSetupAction) -> bool {
    if o.force || !f.board.unwrap().usb_otg_available {
        f.phase == SetupPhase::AwaitBootConfig && a == GadgetSetupAction::ConfigureBootSettings
    } else {
        f.phase == SetupPhase::AwaitGadgetState && (a matches GadgetSetupAction::GetGadgetState(id)
            && id@ == "nintendo_controller"@)
    }
}

/// One step of the setup, from `o` to `f` on event `e`, asking for `a`.
/// A failure ends the setup with that error. The board is detected, refused
/// when it does not support USB OTG, its modules checked and each missing one
/// loaded; the boot settings are updated when forced or when OTG is not
/// available; an active gadget ends the setup unless forced, in which case it
/// is deactivated; then the gadget is created, configured and activated, the
/// service created and enabled and systemd reloaded, and when forced the
/// service started.
pub open spec fn setup_advanced(o: GadgetSetup, e: GadgetSetupEvent, f: GadgetSetup, a: GadgetSetupAction) -> bool {
    &&& f.force == o.force
    &&& match e {
        GadgetSetupEvent::Failed(err) => f.phase == SetupPhase::Finished && a == GadgetSetupAction::Fail(err),
        GadgetSetupEvent::Begin => f.phase == SetupPhase::AwaitBoard && a == GadgetSetupAction::DetectBoard,
        GadgetSetupEvent::BoardDetected(b) => if b.model == BoardModel::Unknown {
            f.phase == SetupPhase::Finished && (a matches GadgetSetupAction::Fail(HardwareError::BoardNotSupported(name))
                && name@ == board_name(b.model))
        } else {
            f.phase == SetupPhase::AwaitModuleCheck && a == GadgetSetupAction::CheckKernelModules(b)
        },
        GadgetSetupEvent::ModulesChecked(b) => {
            &&& f.board == Some(b)
            &&& f.modules@.map_values(|m: String| m@) == module_names(b)
            &&& if module_names(b).len() > 0 {
                f.phase == SetupPhase::LoadingModules && f.next_module == 0
                    && (a matches GadgetSetupAction::LoadKernelModule(name) && name@ == module_names(b)[0])
            } else {
                after_modules(o, f, a)
            }
        },
        GadgetSetupEvent::GadgetState(g) => {
            &&& f.board == o.board
            &&& match g {
                Some(g) if g.state == UsbGadgetState::Active && !o.force => f.phase == SetupPhase::Finished
                    && (a matches GadgetSetupAction::Finish(r) && already_set_up_result(o.board.unwrap(), r)),
                Some(g) if g.state == UsbGadgetState::Active => f.phase == SetupPhase::AwaitDeactivate
                    && a == GadgetSetupAction::DeactivateGadget,
                _ => f.phase == SetupPhase::AwaitCreate && a == GadgetSetupAction::CreateGadget,
            }
        },
        GadgetSetupEvent::Done => {
            &&& f.board == o.board
            &&& match o.phase {
                SetupPhase::LoadingModules => if o.next_module + 1 < o.modules@.len() {
                    f.phase == SetupPhase::LoadingModules && f.next_module == o.next_module + 1
                        && f.modules == o.modules
                        && (a matches GadgetSetupAction::LoadKernelModule(name)
                        && name@ == o.modules@[o.next_module + 1]@)
                } else {
                    after_modules(o, f, a)
                },
                SetupPhase::AwaitBootConfig => f.phase == SetupPhase::AwaitGadgetState
                    && (a matches GadgetSetupAction::GetGadgetState(id) && id@ == "nintendo_controller"@),
                SetupPhase::AwaitDeactivate => f.phase == SetupPhase::AwaitCreate && a == GadgetSetupAction::CreateGadget,
                SetupPhase::AwaitCreate => f.phase == SetupPhase::AwaitConfigure && a == GadgetSetupAction::ConfigureGadget,
                SetupPhase::AwaitConfigure => f.phase == SetupPhase::AwaitActivate && a == GadgetSetupAction::ActivateGadget,
                SetupPhase::AwaitActivate => f.phase == SetupPhase::AwaitCreateService
                    && a == GadgetSetupAction::CreateService,
                SetupPhase::AwaitCreateService => f.phase == SetupPhase::AwaitEnableService
                    && a == GadgetSetupAction::EnableService,
                SetupPhase::AwaitEnableService => f.phase == SetupPhase::AwaitReload && a == GadgetSetupAction::ReloadDaemon,
                SetupPhase::AwaitReload => if o.force {
                    f.phase == SetupPhase::AwaitStart && a == GadgetSetupAction::StartService
                } else {
                    f.phase == SetupPhase::Finished && (a matches GadgetSetupAction::Finish(r)
                        && completed_result(o.board.unwrap(), r))
                },
                _ => f.phase == SetupPhase::Finished && (a matches GadgetSetupAction::Finish(r)
                    && completed_result(o.board.unwrap(), r)),
            }
        },
    }
}

impl GadgetSetup {
    /// Whether the setup's records fit where it stands: past the module check
    /// it knows the board, and while loading it points at a module to load.
    pub open spec fn wf(&self) -> bool {
        &&& (self.phase != SetupPhase::Start && self.phase != SetupPhase::AwaitBoard
            && self.phase != SetupPhase::AwaitModuleCheck && self.phase != SetupPhase::Finished) ==> self.board is Some
        &&& self.phase == SetupPhase::LoadingModules ==> self.next_module < self.modules@.len()
    }

    /// A setup about to start.
    pub fn new(force: bool) -> (s: Self)
        ensures
            s.wf(),
            s.force == force,
            s.phase == SetupPhase::Start,
            s.board is None,
    {
        GadgetSetup { force, phase: SetupPhase::Start, board: None, modules: Vec::new(), next_module: 0 }
    }

    /// The result of a setup that found the gadget already active.
    fn already_set_up(model: BoardModel) -> (r: SetupResult)
        ensures
            r.board_model == model,
            !r.gadget_created,
            !r.service_installed,
            !r.reboot_required,
            r.warnings@.map_values(|w: String| w@) == seq!["USB Gadgetは既に設定されています"@],
    {
        let mut warnings: Vec<String> = Vec::new();
        warnings.push(text::owned("USB Gadgetは既に設定されています"));
        assert(warnings@.map_values(|w: String| w@) =~= seq!["USB Gadgetは既に設定されています"@]);
        SetupResult { board_model: model, gadget_created: false, service_installed: false, reboot_required: false, warnings }
    }

    /// The result of a setup that created the gadget and installed the service.
    fn completed(board: &Board) -> (r: SetupResult)
        ensures
            completed_result(*board, r),
    {
        let reboot_required = !board.usb_otg_available;
        let mut warnings: Vec<String> = Vec::new();
        if reboot_required {
            warnings.push(text::owned("USB OTGを有効にするには再起動が必要です"));
            assert(warnings@.map_values(|w: String| w@) =~= seq!["USB OTGを有効にするには再起動が必要です"@]);
        } else {
            assert(warnings@.map_values(|w: String| w@) =~= Seq::<Seq<char>>::empty());
        }
        SetupResult { board_model: board.model, gadget_created: true, service_installed: true, reboot_required, warnings }
    }

    /// The names of the modules the board still has to load, in order.
    fn missing_module_names(board: &Board) -> (r: Vec<String>)
        ensures
            r@.map_values(|m: String| m@) == module_names(*board),
    {
        let missing = board.required_modules();
        let mut names: Vec<String> = Vec::new();
        let mut i: usize = 0;
        while i < missing.len()
            invariant
                i <= missing@.len(),
                crate::hardware::deref_modules(missing@) == unloaded(board.kernel_modules@),
                names@.map_values(|m: String| m@) == crate::hardware::deref_modules(missing@).take(i as int).map_values(|m: KernelModule| m.name@),
            decreases missing@.len() - i,
        {
            let ghost before = names@;
            names.push(missing[i].name.clone());
            proof {
                let d = crate::hardware::deref_modules(missing@);
                assert(d.take(i + 1) =~= d.take(i as int).push(d[i as int]));
                assert(names@ =~= before.push(missing@[i as int].name));
                assert(names@.map_values(|m: String| m@) =~= before.map_values(|m: String| m@).push(d[i as int].name@));
                assert(names@.map_values(|m: String| m@) =~= d.take(i + 1).map_values(|m: KernelModule| m.name@));
            }
            i = i + 1;
        }
        proof {
            let d = crate::hardware::deref_modules(missing@);
            assert(d.take(i as int) =~= d);
        }
        names
    }

    /// Takes the caller's answer and says what to do next; see `setup_advanced`.
    pub fn advance(&mut self, event: GadgetSetupEvent) -> (a: GadgetSetupAction)
        requires
            old(self).wf(),
            accepts(old(self).phase, event),
        ensures
            final(self).wf(),
            setup_advanced(*old(self), event, *final(self), a),
    {
        match event {
            GadgetSetupEvent::Failed(err) => {
                self.phase = SetupPhase::Finished;
                GadgetSetupAction::Fail(err)
            },
            GadgetSetupEvent::Begin => {
                self.phase = SetupPhase::AwaitBoard;
                GadgetSetupAction::DetectBoard
            },
            GadgetSetupEvent::BoardDetected(b) => {
                if !b.model.supports_usb_otg() {
                    self.phase = SetupPhase::Finished;
                    GadgetSetupAction::Fail(HardwareError::BoardNotSupported(b.model.display_string()))
                } else {
                    self.phase = SetupPhase::AwaitModuleCheck;
                    GadgetSetupAction::CheckKernelModules(b)
                }
            },
            GadgetSetupEvent::ModulesChecked(b) => {
                let names = Self::missing_module_names(&b);
                self.modules = names;
                self.board = Some(b);
                if self.modules.len() > 0 {
                    self.phase = SetupPhase::LoadingModules;
                    self.next_module = 0;
                    GadgetSetupAction::LoadKernelModule(self.modules[0].clone())
                } else {
                    self.after_modules_step()
                }
            },
            GadgetSetupEvent::GadgetState(g) => {
                let active = match &g {
                    Some(g) => g.is_active(),
                    None => false,
                };
                if active && !self.force {
                    self.phase = SetupPhase::Finished;
                    let model = match &self.board {
                        Some(b) => b.model,
                        None => BoardModel::Unknown,
                    };
                    GadgetSetupAction::Finish(Self::already_set_up(model))
                } else if active {
                    self.phase = SetupPhase::AwaitDeactivate;
                    GadgetSetupAction::DeactivateGadget
                } else {
                    self.phase = SetupPhase::AwaitCreate;
                    GadgetSetupAction::CreateGadget
                }
            },
            GadgetSetupEvent::Done => {
                match self.phase {
                    SetupPhase::LoadingModules => {
                        if self.next_module < self.modules.len() - 1 {
                            self.next_module = self.next_module + 1;
                            GadgetSetupAction::LoadKernelModule(self.modules[self.next_module].clone())
                        } else {
                            self.after_modules_step()
                        }
                    },
                    SetupPhase::AwaitBootConfig => {
                        self.phase = SetupPhase::AwaitGadgetState;
                        GadgetSetupAction::GetGadgetState(text::owned("nintendo_controller"))
                    },
                    SetupPhase::AwaitDeactivate => {
                        self.phase = SetupPhase::AwaitCreate;
                        GadgetSetupAction::CreateGadget
                    },
                    SetupPhase::AwaitCreate => {
                        self.phase = SetupPhase::AwaitConfigure;
                        GadgetSetupAction::ConfigureGadget
                    },
                    SetupPhase::AwaitConfigure => {
                        self.phase = SetupPhase::AwaitActivate;
                        GadgetSetupAction::ActivateGadget
                    },
                    SetupPhase::AwaitActivate => {
                        self.phase = SetupPhase::AwaitCreateService;
                        GadgetSetupAction::CreateService
                    },
                    SetupPhase::AwaitCreateService => {
                        self.phase = SetupPhase::AwaitEnableService;
                        GadgetSetupAction::EnableService
                    },
                    SetupPhase::AwaitEnableService => {
                        self.phase = SetupPhase::AwaitReload;
                        GadgetSetupAction::ReloadDaemon
                    },
                    SetupPhase::AwaitReload if self.force => {
                        self.phase = SetupPhase::AwaitStart;
                        GadgetSetupAction::StartService
                    },
                    _ => {
                        self.phase = SetupPhase::Finished;
                        match &self.board {
                            Some(b) => GadgetSetupAction::Finish(Self::completed(b)),
                            None => GadgetSetupAction::DetectBoard,
                        }
                    },
                }
            },
        }
    }

    fn after_modules_step(&mut self) -> (a: GadgetSetupAction)
        requires
            old(self).board is Some,
        ensures
            final(self).force == old(self).force,
            final(self).board == old(self).board,
            final(self).modules == old(self).modules,
            final(self).next_module == old(self).next_module,
            after_modules(*old(self), *final(self), a),
    {
        let otg = match &self.board {
            Some(b) => b.usb_otg_available,
            None => false,
        };
        if self.force || !otg {
            self.phase = SetupPhase::AwaitBootConfig;
            GadgetSetupAction::ConfigureBootSettings
        } else {
            self.phase = SetupPhase::AwaitGadgetState;
            GadgetSetupAction::GetGadgetState(text::owned("nintendo_controller"))
        }
    }
}

/// An active gadget is never set up again unless the setup is forced: when
/// its state comes back active and the setup is not forced, the setup ends
/// without creating a gadget or installing the service.
pub proof fn lemma_active_gadget_kept(o: GadgetSetup, g: UsbGadget, f: GadgetSetup, a: GadgetSetupAction)
    requires
        setup_advanced(o, GadgetSetupEvent::GadgetState(Some(g)), f, a),
        g.state == UsbGadgetState::Active,
        !o.force,
    ensures
        f.phase == SetupPhase::Finished,
        a matches GadgetSetupAction::Finish(r) && !r.gadget_created && !r.service_installed,
{
}

/// A failure reported at any point ends the setup with that very error.
pub proof fn lemma_failure_ends_setup(o: GadgetSetup, err: HardwareError, f: GadgetSetup, a: GadgetSetupAction)
    requires
        setup_advanced(o, GadgetSetupEvent::Failed(err), f, a),
    ensures
        f.phase == SetupPhase::Finished,
        a == GadgetSetupAction::Fail(err),
{
}

} // verus!
